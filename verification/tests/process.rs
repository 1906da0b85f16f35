use focuslock::process::{
    same_ignoring_case, ProcessWatcher, WatchEvent, WatchStep, POLL_INTERVAL_SECS,
};

fn letters(s: &str) -> Vec<char> {
    s.chars().collect()
}

#[test]
fn poll_interval_is_two_seconds() {
    assert_eq!(POLL_INTERVAL_SECS, 2);
}

#[test]
fn new_watcher_does_not_run() {
    assert!(!ProcessWatcher::new().is_running());
    assert!(!ProcessWatcher::default().is_running());
}

#[test]
fn stop_on_a_watcher_never_started_changes_nothing() {
    let mut watcher = ProcessWatcher::new();
    watcher.stop();
    assert!(!watcher.is_running());
    watcher.stop();
    assert!(!watcher.is_running());
    assert!(watcher.is_target("CHZZK.exe"));
}

#[test]
fn start_launches_once() {
    let mut watcher = ProcessWatcher::new();
    assert!(watcher.start());
    assert!(watcher.is_running());
    assert!(!watcher.start());
    assert!(watcher.is_running());
    watcher.stop();
    assert!(!watcher.is_running());
    assert!(watcher.start());
}

#[test]
fn target_catalog_holds_the_eleven_names_in_order() {
    let targets = ProcessWatcher::get_target_processes();
    assert_eq!(
        targets,
        vec![
            "LeagueClient.exe",
            "LeagueClientUx.exe",
            "League of Legends.exe",
            "RiotClientServices.exe",
            "RiotClientUx.exe",
            "RiotClientCrashHandler.exe",
            "LeagueClient",
            "League of Legends",
            "RiotClient",
            "NaverGameLauncher.exe",
            "CHZZK.exe",
        ]
    );
}

#[test]
fn same_ignoring_case_agrees_with_std() {
    let cases = [
        ("", ""),
        ("a", "A"),
        ("chzzk.exe", "CHZZK.EXE"),
        ("abc", "abd"),
        ("abc", "ab"),
        ("@", "`"),
        ("[", "{"),
        ("Z", "z"),
        ("\u{e9}", "\u{c9}"),
        ("k", "\u{212a}"),
        ("League of Legends", "league OF legends"),
    ];
    for (a, b) in cases {
        assert_eq!(same_ignoring_case(&letters(a), &letters(b)), a.eq_ignore_ascii_case(b), "{a:?} {b:?}");
    }
}

#[test]
fn is_target_ignores_the_case_of_ascii_letters() {
    let watcher = ProcessWatcher::new();
    assert!(watcher.is_target("LeagueClient.exe"));
    assert!(watcher.is_target("leagueclient.EXE"));
    assert!(watcher.is_target("league of legends"));
    assert!(watcher.is_target("RIOTCLIENT"));
    assert!(!watcher.is_target("RiotClient.exe"));
    assert!(!watcher.is_target("firefox"));
    assert!(!watcher.is_target(""));
}

#[test]
fn pick_targets_gives_the_positions_in_rising_order() {
    let watcher = ProcessWatcher::new();
    let names: Vec<String> = ["bash", "chzzk.exe", "init", "LeagueClient", "leagueclient", "sshd"]
        .iter()
        .map(|name| name.to_string())
        .collect();
    assert_eq!(watcher.pick_targets(&names), vec![1, 3, 4]);
    assert_eq!(watcher.pick_targets(&Vec::new()), Vec::<usize>::new());
}

#[test]
fn loop_scans_ends_and_sleeps_while_the_flag_is_set() {
    let watcher = ProcessWatcher::new();
    assert!(matches!(watcher.next_step(WatchEvent::Woke(true)), WatchStep::Scan));
    let names = vec!["init".to_string(), "RiotClient".to_string(), "CHZZK.EXE".to_string()];
    match watcher.next_step(WatchEvent::Scanned(names)) {
        WatchStep::End(picked) => assert_eq!(picked, vec![1, 2]),
        other => panic!("{:?}", other),
    }
    assert!(matches!(watcher.next_step(WatchEvent::Ended), WatchStep::Sleep(2)));
    assert!(matches!(watcher.next_step(WatchEvent::Woke(true)), WatchStep::Scan));
}

#[test]
fn loop_leaves_once_the_flag_is_cleared() {
    let watcher = ProcessWatcher::new();
    assert!(matches!(watcher.next_step(WatchEvent::Woke(false)), WatchStep::Exit));
}

#[test]
fn loop_with_nothing_to_end_still_sleeps() {
    let watcher = ProcessWatcher::new();
    match watcher.next_step(WatchEvent::Scanned(vec!["bash".to_string()])) {
        WatchStep::End(picked) => assert!(picked.is_empty()),
        other => panic!("{:?}", other),
    }
    assert!(matches!(watcher.next_step(WatchEvent::Ended), WatchStep::Sleep(2)));
}
