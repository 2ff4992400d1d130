use edge_copilot_helper::platform::Platform;
use edge_copilot_helper::watcher::{
    any_target_running, is_target_bundle, is_target_process, on_termination, poll,
    run_event_loop, run_polling_loop, target_process_names, PollingWatcher, ProcessSampler,
    POLL_INTERVAL_SECS,
};

fn samples(seen: &[bool]) -> Vec<Option<bool>> {
    seen.iter().map(|running| Some(*running)).collect()
}

#[test]
fn polling_detects_the_one_termination() {
    let ticks = run_polling_loop(&samples(&[false, true, true, false, false, true]));
    assert_eq!(ticks, vec![3]);
}

#[test]
fn polling_fires_once_per_termination() {
    let ticks = run_polling_loop(&samples(&[true, false, true, true, false, false, true, false]));
    assert_eq!(ticks, vec![1, 4, 7]);
}

#[test]
fn polling_never_fires_without_a_running_browser() {
    assert_eq!(run_polling_loop(&vec![]), Vec::<usize>::new());
    assert_eq!(run_polling_loop(&samples(&[false, false, false])), Vec::<usize>::new());
    assert_eq!(run_polling_loop(&samples(&[false])), Vec::<usize>::new());
}

#[test]
fn polling_never_fires_while_the_browser_keeps_running() {
    assert_eq!(run_polling_loop(&samples(&[true, true, true])), Vec::<usize>::new());
}

#[test]
fn polling_skips_ticks_without_a_sample() {
    let ticks = run_polling_loop(&vec![Some(true), None, None, Some(false), None, Some(false)]);
    assert_eq!(ticks, vec![3]);
    let ticks = run_polling_loop(&vec![None, Some(false), Some(true), None, Some(true), None]);
    assert_eq!(ticks, Vec::<usize>::new());
}

#[test]
fn watcher_steps() {
    let mut watcher = PollingWatcher::new();
    assert!(!watcher.was_running);
    assert!(!watcher.observe(Some(false)));
    assert!(!watcher.was_running);
    assert!(!watcher.observe(Some(true)));
    assert!(watcher.was_running);
    assert!(!watcher.observe(None));
    assert!(watcher.was_running);
    assert!(!watcher.observe(Some(true)));
    assert!(watcher.observe(Some(false)));
    assert!(!watcher.was_running);
    assert!(!watcher.observe(Some(false)));
}

#[test]
fn poll_interval_is_two_seconds() {
    assert_eq!(POLL_INTERVAL_SECS, 2);
}

#[test]
fn names_of_the_browser_process() {
    assert!(is_target_process(Platform::Windows, "msedge.exe"));
    assert!(!is_target_process(Platform::Windows, "msedge"));
    assert!(!is_target_process(Platform::Windows, "MSEDGE.EXE"));
    for name in [
        "msedge",
        "microsoft-edge",
        "microsoft-edge-stable",
        "microsoft-edge-beta",
        "microsoft-edge-dev",
    ] {
        assert!(is_target_process(Platform::Linux, name));
    }
    assert!(!is_target_process(Platform::Linux, "msedge.exe"));
    assert!(!is_target_process(Platform::Linux, "microsoft-edge-canary"));
    assert!(!is_target_process(Platform::Linux, "firefox"));
    assert!(is_target_process(Platform::MacOs, "msedge"));
    assert!(!is_target_process(Platform::MacOs, "microsoft-edge"));
}

#[test]
fn any_target_among_running_processes() {
    let names = vec!["init".to_string(), "bash".to_string(), "microsoft-edge-beta".to_string()];
    assert!(any_target_running(Platform::Linux, &names));
    assert!(!any_target_running(Platform::Windows, &names));
    assert!(!any_target_running(Platform::Linux, &vec![]));
    assert!(!any_target_running(Platform::Linux, &vec!["sh".to_string()]));
}

#[test]
fn target_bundle_identifiers() {
    assert!(is_target_bundle("com.microsoft.edgemac"));
    assert!(is_target_bundle("com.microsoft.edgemac.Beta"));
    assert!(is_target_bundle("com.microsoft.edgemac.Canary"));
    assert!(!is_target_bundle("com.microsoft.edge"));
    assert!(!is_target_bundle("org.example.com.microsoft.edgemac"));
    assert!(!is_target_bundle(""));
    assert!(on_termination(&Some("com.microsoft.edgemac.Dev".to_string())));
    assert!(!on_termination(&Some("com.apple.Safari".to_string())));
    assert!(!on_termination(&None));
}

#[test]
fn notifications_fire_once_each() {
    let notifications = vec![
        Some("com.apple.Safari".to_string()),
        Some("com.microsoft.edgemac".to_string()),
        None,
        Some("com.microsoft.edgemac.Beta".to_string()),
        Some("com.microsoft.VSCode".to_string()),
    ];
    assert_eq!(run_event_loop(&notifications), vec![1, 3]);
    assert_eq!(run_event_loop(&vec![]), Vec::<usize>::new());
}

#[test]
fn first_poll_of_the_real_process_list_never_fires() {
    let mut watcher = PollingWatcher::new();
    let mut sampler = ProcessSampler::new();
    assert!(!poll(&mut watcher, &mut sampler, Platform::Linux));
    let seen = watcher.was_running;
    let fired = poll(&mut watcher, &mut sampler, Platform::Linux);
    assert_eq!(fired, seen && !watcher.was_running);
}

#[test]
fn the_table_of_process_names() {
    assert_eq!(target_process_names(Platform::Windows), vec!["msedge.exe"]);
    assert_eq!(target_process_names(Platform::MacOs), vec!["msedge"]);
    assert_eq!(
        target_process_names(Platform::Linux),
        vec![
            "msedge",
            "microsoft-edge",
            "microsoft-edge-stable",
            "microsoft-edge-beta",
            "microsoft-edge-dev",
        ]
    );
}
