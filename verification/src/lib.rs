//! Keeps Microsoft Edge's Copilot available where the browser has locked it by
//! region: whenever the browser has stopped, its configuration files are
//! patched so that the region reads `US` and the chat is marked eligible.
//!
//! This crate holds the rules, verified with Verus. It does no input or output
//! of its own: the files, directory listings and samples of the process list
//! come in as plain values, and what is to be written or run goes out the same
//! way.
//!
//! - [`document`]: the JSON document and its mathematical model.
//! - [`patcher`]: the mutations of a document, and the laws they obey.
//! - [`codec`]: documents as JSON text, through `serde_json`.
//! - [`discovery`]: where the browser keeps its configuration files.
//! - [`applier`]: one fix cycle over the files that were found.
//! - [`watcher`]: detecting that the browser has stopped.
//! - [`paths`], [`service`], [`logs`]: where the helper itself is installed, how
//!   it is registered as a background service, and its log files.
//! - [`platform`]: the supported operating systems, and text helpers.

pub mod applier;
pub mod codec;
pub mod discovery;
pub mod document;
pub mod logs;
pub mod patcher;
pub mod paths;
pub mod platform;
pub mod service;
pub mod watcher;
