use edge_copilot_helper::applier::{
    apply_fix, process_json_file, rule_of, ConfigFile, FailureCause, FileContent, FileFailure,
    FileKind, FileWrite, FixFailure, FixOutcome, FixReport,
};
use edge_copilot_helper::codec::parse_document;
use edge_copilot_helper::discovery::{get_all_paths, InstallDir};
use edge_copilot_helper::document::ConfigDocument;
use edge_copilot_helper::patcher::PatchRule;
use edge_copilot_helper::platform::Platform;

fn file(path: &str, text: &str) -> ConfigFile {
    ConfigFile {
        path: path.to_string(),
        content: FileContent::Text(text.to_string()),
    }
}

#[test]
fn apply_fix_end_to_end() {
    let state = vec![file("/edge/Local State", r#"{"variations_country":"CN"}"#)];
    let prefs = vec![file(
        "/edge/Default/Preferences",
        r#"{"browser":{"chat_ip_eligibility_status":false}}"#,
    )];
    let report = apply_fix(&state, &prefs);
    assert_eq!(report.outcome, FixOutcome::Modified);
    assert_eq!(report.writes.len(), 2);
    assert_eq!(report.writes[0].path, "/edge/Local State");
    assert_eq!(report.writes[0].kind, FileKind::LocalState);
    assert_eq!(
        report.writes[0].content,
        "{\n  \"variations_country\": \"US\"\n}"
    );
    assert_eq!(report.writes[1].path, "/edge/Default/Preferences");
    assert_eq!(report.writes[1].kind, FileKind::Preferences);
    let rewritten = parse_document(&report.writes[1].content).expect("valid JSON");
    assert_eq!(
        rewritten
            .get("browser")
            .and_then(|browser| browser.get("chat_ip_eligibility_status")),
        Some(&ConfigDocument::Bool(true))
    );
}

#[test]
fn apply_fix_without_files_finds_nothing() {
    let report = apply_fix(&vec![], &vec![]);
    assert_eq!(
        report,
        FixReport {
            writes: vec![],
            outcome: FixOutcome::NotFound
        }
    );
}

#[test]
fn no_install_directories_means_nothing_found_and_nothing_written() {
    let installs = vec![
        InstallDir {
            path: "/home/u/.config/microsoft-edge".to_string(),
            exists: false,
            has_local_state: false,
            entries: vec![],
        },
        InstallDir {
            path: "/home/u/.config/microsoft-edge-beta".to_string(),
            exists: false,
            has_local_state: false,
            entries: vec![],
        },
    ];
    let (state_paths, pref_paths) = get_all_paths(Platform::Linux, &installs);
    assert!(state_paths.is_empty());
    assert!(pref_paths.is_empty());
    let unread = |paths: Vec<String>| -> Vec<ConfigFile> {
        paths
            .into_iter()
            .map(|path| ConfigFile {
                path,
                content: FileContent::Missing,
            })
            .collect()
    };
    let report = apply_fix(&unread(state_paths), &unread(pref_paths));
    assert_eq!(report.outcome, FixOutcome::NotFound);
    assert!(report.writes.is_empty());
}

#[test]
fn apply_fix_reports_already_correct() {
    let state = vec![file("/edge/Local State", r#"{"variations_country":"US","x":1}"#)];
    let prefs = vec![file(
        "/edge/Default/Preferences",
        r#"{"browser":{"chat_ip_eligibility_status":true}}"#,
    )];
    let report = apply_fix(&state, &prefs);
    assert_eq!(
        report,
        FixReport {
            writes: vec![],
            outcome: FixOutcome::AlreadyCorrect
        }
    );
}

#[test]
fn apply_fix_passes_over_a_file_that_vanished() {
    let state = vec![ConfigFile {
        path: "/edge/Local State".to_string(),
        content: FileContent::Missing,
    }];
    let report = apply_fix(&state, &vec![]);
    assert_eq!(
        report,
        FixReport {
            writes: vec![],
            outcome: FixOutcome::AlreadyCorrect
        }
    );
}

#[test]
fn apply_fix_stops_at_the_first_file_that_does_not_parse() {
    let state = vec![
        file("/stable/Local State", r#"{"variations_country":"CN"}"#),
        file("/beta/Local State", "{ not json"),
        file("/dev/Local State", r#"{"variations_country":"CN"}"#),
    ];
    let prefs = vec![file("/stable/Default/Preferences", "{}")];
    let report = apply_fix(&state, &prefs);
    assert_eq!(
        report.outcome,
        FixOutcome::Failed(FixFailure {
            path: "/beta/Local State".to_string(),
            kind: FileKind::LocalState,
            cause: FailureCause::Parse,
            detail: "key must be a string at line 1 column 3".to_string(),
        })
    );
    assert_eq!(
        report.writes,
        vec![FileWrite {
            path: "/stable/Local State".to_string(),
            kind: FileKind::LocalState,
            content: "{\n  \"variations_country\": \"US\"\n}".to_string(),
        }]
    );
}

#[test]
fn apply_fix_stops_at_a_preference_file_that_cannot_be_read() {
    let state = vec![file("/stable/Local State", r#"{"variations_country":"US"}"#)];
    let prefs = vec![
        ConfigFile {
            path: "/stable/Default/Preferences".to_string(),
            content: FileContent::Unreadable,
        },
        file("/stable/Profile 1/Preferences", "{}"),
    ];
    let report = apply_fix(&state, &prefs);
    assert_eq!(
        report,
        FixReport {
            writes: vec![],
            outcome: FixOutcome::Failed(FixFailure {
                path: "/stable/Default/Preferences".to_string(),
                kind: FileKind::Preferences,
                cause: FailureCause::Read,
                detail: String::new(),
            }),
        }
    );
}

#[test]
fn apply_fix_handles_every_profile() {
    let prefs = vec![
        file("/e/Default/Preferences", "{}"),
        file("/e/Profile 1/Preferences", r#"{"browser":{"chat_ip_eligibility_status":true}}"#),
        file("/e/Profile 2/Preferences", r#"{"browser":{}}"#),
    ];
    let report = apply_fix(&vec![], &prefs);
    assert_eq!(report.outcome, FixOutcome::Modified);
    let paths: Vec<&str> = report.writes.iter().map(|w| w.path.as_str()).collect();
    assert_eq!(paths, vec!["/e/Default/Preferences", "/e/Profile 2/Preferences"]);
    assert_eq!(
        report.writes[0].content,
        "{\n  \"browser\": {\n    \"chat_ip_eligibility_status\": true\n  }\n}"
    );
}

#[test]
fn apply_fix_leaves_a_state_file_whose_root_is_no_object() {
    let state = vec![file("/edge/Local State", "[\"variations_country\"]")];
    let report = apply_fix(&state, &vec![]);
    assert_eq!(report.outcome, FixOutcome::AlreadyCorrect);
    assert!(report.writes.is_empty());
}

#[test]
fn process_json_file_gives_each_outcome() {
    let rule = PatchRule::state_file();
    assert_eq!(process_json_file(&FileContent::Missing, &rule), Ok(None));
    assert_eq!(
        process_json_file(&FileContent::Unreadable, &rule),
        Err(FileFailure {
            cause: FailureCause::Read,
            detail: String::new(),
        })
    );
    assert_eq!(
        process_json_file(&FileContent::Text("nope".to_string()), &rule),
        Err(FileFailure {
            cause: FailureCause::Parse,
            detail: "expected ident at line 1 column 2".to_string(),
        })
    );
    assert_eq!(
        process_json_file(
            &FileContent::Text(r#"{"variations_country":"US"}"#.to_string()),
            &rule
        ),
        Ok(None)
    );
    assert_eq!(
        process_json_file(&FileContent::Text("{}".to_string()), &rule),
        Ok(Some("{\n  \"variations_country\": \"US\"\n}".to_string()))
    );
}

#[test]
fn process_json_file_preserves_unknown_fields() {
    let rule = PatchRule::state_file();
    let source = r#"{"variations_country":"CN","legacy":{"list":[1,2,3],"ratio":0.25},"name":"x"}"#;
    let patched = process_json_file(&FileContent::Text(source.to_string()), &rule)
        .expect("no failure")
        .expect("changed");
    let before = parse_document(source).expect("valid JSON");
    let after = parse_document(&patched).expect("valid JSON");
    assert_eq!(after.get("legacy"), before.get("legacy"));
    assert_eq!(after.get("name"), before.get("name"));
    assert_eq!(
        after.get("variations_country"),
        Some(&ConfigDocument::String("US".to_string()))
    );
}

#[test]
fn each_kind_of_file_has_its_rule() {
    assert_eq!(rule_of(FileKind::LocalState), PatchRule::state_file());
    assert_eq!(rule_of(FileKind::Preferences), PatchRule::preferences());
}

#[test]
fn kinds_of_file_have_names() {
    assert_eq!(FileKind::LocalState.label(), "Local State");
    assert_eq!(FileKind::Preferences.label(), "Preferences");
}
