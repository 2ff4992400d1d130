use edge_copilot_helper::logs::{
    cleanup_old_logs, current_log_file, is_log_file, log_file_name, LogFile, SECONDS_PER_DAY,
};
use edge_copilot_helper::paths::BaseDirs;
use edge_copilot_helper::platform::Platform;

fn log(name: &str, modified: Option<u64>) -> LogFile {
    LogFile {
        path: format!("/logs/{}", name),
        name: name.to_string(),
        modified,
    }
}

#[test]
fn log_file_names() {
    assert_eq!(log_file_name("20240131"), "edge-copilot-helper-20240131.log");
    assert_eq!(log_file_name(""), "edge-copilot-helper-.log");
}

#[test]
fn log_file_extension() {
    assert!(is_log_file("edge-copilot-helper-20240131.log"));
    assert!(is_log_file("a.log"));
    assert!(is_log_file("..log"));
    assert!(!is_log_file(".log"));
    assert!(!is_log_file("log"));
    assert!(!is_log_file("a.log.gz"));
    assert!(!is_log_file("a.LOG"));
    assert!(!is_log_file("alog"));
    assert!(!is_log_file(""));
}

#[test]
fn old_logs_are_found() {
    let day = SECONDS_PER_DAY;
    assert_eq!(day, 86400);
    let now = 100 * day;
    let files = vec![
        log("old.log", Some(now - 7 * day - 1)),
        log("edge.log", Some(now - 7 * day)),
        log("new.log", Some(now)),
        log("old.txt", Some(0)),
        log("unknown.log", None),
        log("ancient.log", Some(0)),
    ];
    assert_eq!(
        cleanup_old_logs(&files, now, 7),
        vec!["/logs/old.log", "/logs/ancient.log"]
    );
    assert_eq!(cleanup_old_logs(&files, now, 0), vec![
        "/logs/old.log",
        "/logs/edge.log",
        "/logs/ancient.log"
    ]);
}

#[test]
fn no_log_is_old_before_the_retention_has_passed() {
    let files = vec![log("a.log", Some(0)), log("b.log", Some(5))];
    assert_eq!(cleanup_old_logs(&files, 6 * SECONDS_PER_DAY, 7), Vec::<String>::new());
    assert_eq!(cleanup_old_logs(&files, 10, u32::MAX), Vec::<String>::new());
    assert_eq!(cleanup_old_logs(&vec![], 10, 1), Vec::<String>::new());
}

#[test]
fn the_log_file_of_a_day_lies_in_the_log_directory() {
    let dirs = BaseDirs {
        home: Some("C:\\Users\\a".to_string()),
        data: None,
        data_local: Some("C:\\Users\\a\\AppData\\Local".to_string()),
        config: None,
    };
    assert_eq!(
        current_log_file(Platform::Windows, &dirs, "20240131"),
        "C:\\Users\\a\\AppData\\Local\\top.qiyuey.edge-copilot-helper\\logs\\\
         edge-copilot-helper-20240131.log"
    );
    let home_only = BaseDirs {
        home: Some("/Users/a".to_string()),
        data: None,
        data_local: None,
        config: None,
    };
    assert_eq!(
        current_log_file(Platform::MacOs, &home_only, "19991231"),
        "/Users/a/Library/Logs/top.qiyuey.edge-copilot-helper/edge-copilot-helper-19991231.log"
    );
}
