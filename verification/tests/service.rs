use edge_copilot_helper::paths::BaseDirs;
use edge_copilot_helper::platform::Platform;
use edge_copilot_helper::service::{
    generate_plist, generate_registry_command, generate_unit_file, install, is_helper_process,
    uninstall, ServiceStep, REG_KEY_NAME, REG_PATH,
};

fn dirs(home: &str, data: &str, data_local: &str, config: &str) -> BaseDirs {
    BaseDirs {
        home: Some(home.to_string()),
        data: Some(data.to_string()),
        data_local: Some(data_local.to_string()),
        config: Some(config.to_string()),
    }
}

fn run(program: &str, args: &[&str], failure: Option<&str>) -> ServiceStep {
    ServiceStep::Run {
        program: program.to_string(),
        args: args.iter().map(|a| a.to_string()).collect(),
        failure: failure.map(|m| m.to_string()),
    }
}

fn create(path: &str) -> ServiceStep {
    ServiceStep::CreateDir {
        path: path.to_string(),
    }
}

fn remove_dir(path: &str) -> ServiceStep {
    ServiceStep::RemoveDir {
        path: path.to_string(),
    }
}

const LABEL: &str = "top.qiyuey.edge-copilot-helper";

#[test]
fn unit_file_text() {
    assert_eq!(
        generate_unit_file("/opt/helper/edge-copilot-helper"),
        "[Unit]\n\
Description=Edge Copilot Helper - Bypass Microsoft Edge Copilot region restrictions\n\
After=default.target\n\
\n\
[Service]\n\
Type=simple\n\
ExecStart=/opt/helper/edge-copilot-helper daemon\n\
Restart=always\n\
RestartSec=5\n\
\n\
[Install]\n\
WantedBy=default.target\n"
    );
}

#[test]
fn plist_text() {
    assert_eq!(
        generate_plist("/Apps/helper", "/Users/a/Library/Logs/helper"),
        "<?xml version=\"1.0\" encoding=\"UTF-8\"?>\n\
<!DOCTYPE plist PUBLIC \"-//Apple//DTD PLIST 1.0//EN\" \"http://www.apple.com/DTDs/PropertyList-1.0.dtd\">\n\
<plist version=\"1.0\">\n\
<dict>\n    <key>Label</key>\n    <string>top.qiyuey.edge-copilot-helper</string>\n    <key>ProgramArguments</key>\n    <array>\n        <string>/Apps/helper</string>\n        <string>daemon</string>\n    </array>\n    <key>RunAtLoad</key>\n    <true/>\n    <key>KeepAlive</key>\n    <true/>\n    <key>StandardOutPath</key>\n    <string>/Users/a/Library/Logs/helper/service.log</string>\n    <key>StandardErrorPath</key>\n    <string>/Users/a/Library/Logs/helper/service.err</string>\n</dict>\n</plist>\n"
    );
}

#[test]
fn registry_command_text() {
    assert_eq!(
        generate_registry_command("C:\\Apps\\helper.exe"),
        "\"C:\\Apps\\helper.exe\" daemon"
    );
    assert_eq!(REG_PATH, "HKCU\\Software\\Microsoft\\Windows\\CurrentVersion\\Run");
    assert_eq!(REG_KEY_NAME, "EdgeCopilotHelper");
}

#[test]
fn install_steps_on_linux() {
    let dirs = dirs("/home/a", "/home/a/.local/share", "/home/a/.local/share", "/home/a/.config");
    let install_dir = "/home/a/.local/share/top.qiyuey.edge-copilot-helper";
    let binary = "/home/a/.local/share/top.qiyuey.edge-copilot-helper/edge-copilot-helper";
    assert_eq!(
        install(Platform::Linux, &dirs, "1000"),
        vec![
            create(install_dir),
            create("/home/a/.local/share/top.qiyuey.edge-copilot-helper/logs"),
            create("/home/a/.config/systemd/user"),
            ServiceStep::CopyBinary { to: binary.to_string() },
            ServiceStep::MakeExecutable { path: binary.to_string() },
            run("systemctl", &["--user", "stop", LABEL], None),
            run("systemctl", &["--user", "disable", LABEL], None),
            ServiceStep::WriteFile {
                path: "/home/a/.config/systemd/user/top.qiyuey.edge-copilot-helper.service"
                    .to_string(),
                content: generate_unit_file(binary),
            },
            run(
                "systemctl",
                &["--user", "daemon-reload"],
                Some("Failed to reload systemd daemon")
            ),
            run(
                "systemctl",
                &["--user", "enable", LABEL],
                Some("Failed to enable service")
            ),
            run(
                "systemctl",
                &["--user", "start", LABEL],
                Some("Failed to start service")
            ),
        ]
    );
}

#[test]
fn uninstall_steps_on_linux() {
    let dirs = dirs("/home/a", "/home/a/.local/share", "/home/a/.local/share", "/home/a/.config");
    assert_eq!(
        uninstall(Platform::Linux, &dirs, "1000"),
        vec![
            run("systemctl", &["--user", "stop", LABEL], None),
            run("systemctl", &["--user", "disable", LABEL], None),
            ServiceStep::RemoveFile {
                path: "/home/a/.config/systemd/user/top.qiyuey.edge-copilot-helper.service"
                    .to_string(),
                required: true,
            },
            run("systemctl", &["--user", "daemon-reload"], None),
            remove_dir("/home/a/.local/share/top.qiyuey.edge-copilot-helper"),
        ]
    );
}

#[test]
fn install_steps_on_macos() {
    let support = "/Users/a/Library/Application Support";
    let dirs = dirs("/Users/a", support, support, support);
    let binary =
        "/Users/a/Library/Application Support/top.qiyuey.edge-copilot-helper/edge-copilot-helper";
    let logs = "/Users/a/Library/Logs/top.qiyuey.edge-copilot-helper";
    let plist = "/Users/a/Library/LaunchAgents/top.qiyuey.edge-copilot-helper.plist";
    assert_eq!(
        install(Platform::MacOs, &dirs, "501"),
        vec![
            create("/Users/a/Library/Application Support/top.qiyuey.edge-copilot-helper"),
            create(logs),
            create("/Users/a/Library/LaunchAgents"),
            ServiceStep::CopyBinary { to: binary.to_string() },
            ServiceStep::MakeExecutable { path: binary.to_string() },
            run("launchctl", &["bootout", "gui/501", plist], None),
            ServiceStep::WriteFile {
                path: plist.to_string(),
                content: generate_plist(binary, logs),
            },
            run(
                "launchctl",
                &["load", "-w", plist],
                Some("Failed to load Launch Agent")
            ),
        ]
    );
}

#[test]
fn uninstall_steps_on_macos() {
    let support = "/Users/a/Library/Application Support";
    let dirs = dirs("/Users/a", support, support, support);
    let plist = "/Users/a/Library/LaunchAgents/top.qiyuey.edge-copilot-helper.plist";
    assert_eq!(
        uninstall(Platform::MacOs, &dirs, "502"),
        vec![
            run("launchctl", &["bootout", "gui/502", plist], None),
            ServiceStep::RemoveFile {
                path: plist.to_string(),
                required: true,
            },
            remove_dir("/Users/a/Library/Application Support/top.qiyuey.edge-copilot-helper"),
            remove_dir("/Users/a/Library/Logs/top.qiyuey.edge-copilot-helper"),
        ]
    );
}

#[test]
fn install_steps_on_windows() {
    let dirs = dirs(
        "C:\\Users\\a",
        "C:\\Users\\a\\AppData\\Roaming",
        "C:\\Users\\a\\AppData\\Local",
        "C:\\Users\\a\\AppData\\Roaming",
    );
    let install_dir = "C:\\Users\\a\\AppData\\Local\\top.qiyuey.edge-copilot-helper";
    let binary =
        "C:\\Users\\a\\AppData\\Local\\top.qiyuey.edge-copilot-helper\\edge-copilot-helper.exe";
    assert_eq!(
        install(Platform::Windows, &dirs, ""),
        vec![
            ServiceStep::StopInstances,
            create(install_dir),
            create("C:\\Users\\a\\AppData\\Local\\top.qiyuey.edge-copilot-helper\\logs"),
            ServiceStep::RemoveFile {
                path: binary.to_string(),
                required: false,
            },
            ServiceStep::CopyBinary { to: binary.to_string() },
            run(
                "reg",
                &[
                    "add",
                    "HKCU\\Software\\Microsoft\\Windows\\CurrentVersion\\Run",
                    "/v",
                    "EdgeCopilotHelper",
                    "/t",
                    "REG_SZ",
                    "/d",
                    "\"C:\\Users\\a\\AppData\\Local\\top.qiyuey.edge-copilot-helper\\edge-copilot-helper.exe\" daemon",
                    "/f",
                ],
                Some("Failed to add registry entry for startup")
            ),
        ]
    );
}

#[test]
fn uninstall_steps_on_windows() {
    let dirs = dirs(
        "C:\\Users\\a",
        "C:\\Users\\a\\AppData\\Roaming",
        "C:\\Users\\a\\AppData\\Local",
        "C:\\Users\\a\\AppData\\Roaming",
    );
    assert_eq!(
        uninstall(Platform::Windows, &dirs, ""),
        vec![
            ServiceStep::StopInstances,
            run(
                "reg",
                &[
                    "delete",
                    "HKCU\\Software\\Microsoft\\Windows\\CurrentVersion\\Run",
                    "/v",
                    "EdgeCopilotHelper",
                    "/f",
                ],
                None
            ),
            remove_dir("C:\\Users\\a\\AppData\\Local\\top.qiyuey.edge-copilot-helper"),
        ]
    );
}

#[test]
fn helper_processes_are_known_whatever_their_case() {
    assert!(is_helper_process("edge-copilot-helper.exe"));
    assert!(is_helper_process("Edge-Copilot-Helper.EXE"));
    assert!(is_helper_process("EDGE-COPILOT-HELPER.exe"));
    assert!(!is_helper_process("edge-copilot-helper"));
    assert!(!is_helper_process("edge_copilot_helper.exe"));
    assert!(!is_helper_process("msedge.exe"));
    assert!(!is_helper_process(""));
}
