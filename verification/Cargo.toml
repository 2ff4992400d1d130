[package]
name = "edge-copilot-helper"
version = "0.1.0"
edition = "2021"
publish = false

[dependencies]
anyhow = "=1.0.104"
block2 = "=0.5.1"
chrono = "=0.4.45"
clap = { version = "=4.6.7", features = ["derive"] }
dirs = "=7.0.0"
log = "=0.4.34"
objc2 = "=0.5.3"
objc2-app-kit = { version = "=0.2.2", features = ["NSRunningApplication", "NSWorkspace", "block2"] }
objc2-foundation = { version = "=0.2.2", features = ["NSDictionary", "NSNotification", "NSOperation", "NSRunLoop", "NSString", "block2"] }
serde_json = "=1.0.154"
simplelog = "=0.12.2"
sysinfo = "=0.39.6"
