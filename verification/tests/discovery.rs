use edge_copilot_helper::discovery::{
    get_all_paths, is_profile_dir_name, user_data_dirs, DirEntry, InstallDir,
};
use edge_copilot_helper::platform::{
    ascii_lower, concat_text, ends_with, has_trailing_separator, join_path, same_text,
    same_text_ignoring_ascii_case, separator, starts_with, Platform,
};

fn entry(name: &str, is_dir: bool, has_preferences: bool) -> DirEntry {
    DirEntry {
        name: name.to_string(),
        is_dir,
        has_preferences,
    }
}

#[test]
fn user_data_dirs_on_linux() {
    assert_eq!(
        user_data_dirs(Platform::Linux, "/home/alice"),
        vec![
            "/home/alice/.config/microsoft-edge",
            "/home/alice/.config/microsoft-edge-beta",
            "/home/alice/.config/microsoft-edge-dev",
            "/home/alice/.config/microsoft-edge-canary",
        ]
    );
}

#[test]
fn user_data_dirs_on_macos() {
    assert_eq!(
        user_data_dirs(Platform::MacOs, "/Users/alice"),
        vec![
            "/Users/alice/Library/Application Support/Microsoft Edge",
            "/Users/alice/Library/Application Support/Microsoft Edge Beta",
            "/Users/alice/Library/Application Support/Microsoft Edge Dev",
            "/Users/alice/Library/Application Support/Microsoft Edge Canary",
        ]
    );
}

#[test]
fn user_data_dirs_on_windows() {
    assert_eq!(
        user_data_dirs(Platform::Windows, "C:\\Users\\alice"),
        vec![
            "C:\\Users\\alice\\AppData/Local/Microsoft/Edge/User Data",
            "C:\\Users\\alice\\AppData/Local/Microsoft/Edge Beta/User Data",
            "C:\\Users\\alice\\AppData/Local/Microsoft/Edge Dev/User Data",
            "C:\\Users\\alice\\AppData/Local/Microsoft/Edge SxS/User Data",
        ]
    );
}

#[test]
fn profile_directory_names() {
    assert!(is_profile_dir_name("Default"));
    assert!(is_profile_dir_name("Profile 1"));
    assert!(is_profile_dir_name("Profile 12"));
    assert!(is_profile_dir_name("Profile "));
    assert!(!is_profile_dir_name("Profile"));
    assert!(!is_profile_dir_name("default"));
    assert!(!is_profile_dir_name("Default "));
    assert!(!is_profile_dir_name("My Profile 1"));
    assert!(!is_profile_dir_name("Guest Profile"));
    assert!(!is_profile_dir_name(""));
}

#[test]
fn get_all_paths_lists_state_and_preference_files() {
    let installs = vec![
        InstallDir {
            path: "/h/.config/microsoft-edge".to_string(),
            exists: true,
            has_local_state: true,
            entries: vec![
                entry("Default", true, true),
                entry("Crashpad", true, false),
                entry("Profile 1", true, true),
                entry("Profile 2", true, false),
                entry("Profile 3", false, true),
                entry("System Profile", true, true),
            ],
        },
        InstallDir {
            path: "/h/.config/microsoft-edge-beta".to_string(),
            exists: false,
            has_local_state: true,
            entries: vec![entry("Default", true, true)],
        },
        InstallDir {
            path: "/h/.config/microsoft-edge-dev".to_string(),
            exists: true,
            has_local_state: false,
            entries: vec![entry("Profile 7", true, true)],
        },
    ];
    let (state_paths, pref_paths) = get_all_paths(Platform::Linux, &installs);
    assert_eq!(state_paths, vec!["/h/.config/microsoft-edge/Local State"]);
    assert_eq!(
        pref_paths,
        vec![
            "/h/.config/microsoft-edge/Default/Preferences",
            "/h/.config/microsoft-edge/Profile 1/Preferences",
            "/h/.config/microsoft-edge-dev/Profile 7/Preferences",
        ]
    );
}

#[test]
fn get_all_paths_of_nothing() {
    let (state_paths, pref_paths) = get_all_paths(Platform::MacOs, &vec![]);
    assert!(state_paths.is_empty());
    assert!(pref_paths.is_empty());
}

#[test]
fn get_all_paths_on_windows_uses_backslashes() {
    let installs = vec![InstallDir {
        path: "C:\\U\\AppData/Local/Microsoft/Edge/User Data".to_string(),
        exists: true,
        has_local_state: true,
        entries: vec![entry("Default", true, true)],
    }];
    let (state_paths, pref_paths) = get_all_paths(Platform::Windows, &installs);
    assert_eq!(
        state_paths,
        vec!["C:\\U\\AppData/Local/Microsoft/Edge/User Data\\Local State"]
    );
    assert_eq!(
        pref_paths,
        vec!["C:\\U\\AppData/Local/Microsoft/Edge/User Data\\Default\\Preferences"]
    );
}

#[test]
fn text_helpers() {
    assert_eq!(separator(Platform::Linux), "/");
    assert_eq!(separator(Platform::MacOs), "/");
    assert_eq!(separator(Platform::Windows), "\\");
    assert_eq!(join_path(Platform::Linux, "/a", "b c"), "/a/b c");
    assert_eq!(join_path(Platform::Windows, "C:\\a", "b"), "C:\\a\\b");
    assert_eq!(join_path(Platform::Linux, "/home/me/", ".config"), "/home/me/.config");
    assert_eq!(join_path(Platform::Linux, "/", "etc"), "/etc");
    assert_eq!(join_path(Platform::Linux, "", "relative"), "relative");
    assert_eq!(join_path(Platform::Linux, "dir\\", "x"), "dir\\/x");
    assert_eq!(join_path(Platform::Windows, "C:\\a\\", "b"), "C:\\a\\b");
    assert_eq!(join_path(Platform::Windows, "C:/a/", "b"), "C:/a/b");
    assert_eq!(join_path(Platform::Windows, "", "b"), "b");
    assert!(has_trailing_separator(Platform::Linux, "a/"));
    assert!(!has_trailing_separator(Platform::Linux, "a\\"));
    assert!(has_trailing_separator(Platform::Windows, "a\\"));
    assert!(!has_trailing_separator(Platform::MacOs, ""));
    assert_eq!(concat_text("edge", ".exe"), "edge.exe");
    assert!(starts_with("Profile 1", "Profile "));
    assert!(starts_with("abc", ""));
    assert!(starts_with("abc", "abc"));
    assert!(!starts_with("ab", "abc"));
    assert!(!starts_with("xbc", "abc"));
    assert!(starts_with("épée", "ép"));
    assert!(ends_with("a.log", ".log"));
    assert!(ends_with("a.log", ""));
    assert!(!ends_with("log", ".log"));
    assert!(!ends_with("a.log.gz", ".log"));
    assert!(ends_with("journal.épée", "épée"));
    assert!(same_text("msedge", "msedge"));
    assert!(!same_text("msedge", "msedge.exe"));
}

#[test]
fn ascii_case_is_folded_for_letters_only() {
    assert_eq!(ascii_lower('A'), 'a');
    assert_eq!(ascii_lower('Z'), 'z');
    assert_eq!(ascii_lower('m'), 'm');
    assert_eq!(ascii_lower('@'), '@');
    assert_eq!(ascii_lower('['), '[');
    assert_eq!(ascii_lower('É'), 'É');
    assert!(same_text_ignoring_ascii_case("MsEdge.EXE", "msedge.exe"));
    assert!(same_text_ignoring_ascii_case("", ""));
    assert!(!same_text_ignoring_ascii_case("msedge", "msedge.exe"));
    assert!(!same_text_ignoring_ascii_case("École", "école"));
    assert!(same_text_ignoring_ascii_case("école", "éCOLE"));
}

#[test]
fn a_home_directory_with_a_trailing_slash_gives_no_double_slash() {
    assert_eq!(
        user_data_dirs(Platform::Linux, "/home/me/")[0],
        "/home/me/.config/microsoft-edge"
    );
}
