use focuslock::hosts::{HostsBlocker, HostsError, Platform, MARKER_END, MARKER_START};
use focuslock::steps::{Effect, FailureKind, OnFailure, Step};

fn apply(content: &str, blocker: &HostsBlocker) -> String {
    let plan = blocker.block(Ok(content));
    assert!(plan.outcome.is_ok());
    let mut text = match plan.replacement {
        Some(text) => text,
        None => content.to_string(),
    };
    text.push_str(&plan.addition.unwrap());
    text
}

fn hosts_must(effect: Effect, kind: FailureKind) -> Step {
    Step { effect, on_failure: OnFailure::Fail(kind) }
}

fn hosts_may(effect: Effect) -> Step {
    Step { effect, on_failure: OnFailure::Skip(0) }
}

fn count_lines_with(text: &str, pat: &str) -> usize {
    text.lines().filter(|line| line.contains(pat)).count()
}

fn expected_block() -> String {
    let mut block = String::from("\n# === FOCUSLOCK START ===\n");
    for domain in HostsBlocker::get_blocked_domains() {
        block.push_str("127.0.0.1 ");
        block.push_str(domain);
        block.push('\n');
    }
    block.push_str("# === FOCUSLOCK END ===\n");
    block
}

#[test]
fn sentinels_are_the_fixed_lines() {
    assert_eq!(MARKER_START, "# === FOCUSLOCK START ===");
    assert_eq!(MARKER_END, "# === FOCUSLOCK END ===");
}

#[test]
fn new_blocker_points_at_etc_hosts() {
    assert_eq!(HostsBlocker::new().hosts_path(), "/etc/hosts");
    assert_eq!(HostsBlocker::default().hosts_path(), "/etc/hosts");
}

#[test]
fn blocker_for_each_platform_has_its_path() {
    assert_eq!(
        HostsBlocker::for_platform(Platform::Windows).hosts_path(),
        "C:\\Windows\\System32\\drivers\\etc\\hosts"
    );
    assert_eq!(HostsBlocker::for_platform(Platform::MacOs).hosts_path(), "/etc/hosts");
    assert_eq!(HostsBlocker::for_platform(Platform::Other).hosts_path(), "/etc/hosts");
}

#[test]
fn catalog_holds_the_thirty_domains_in_order() {
    let domains = HostsBlocker::get_blocked_domains();
    assert_eq!(domains.len(), 30);
    assert_eq!(domains[0], "www.youtube.com");
    assert_eq!(domains[1], "youtube.com");
    assert_eq!(domains[9], "studio.youtube.com");
    assert_eq!(domains[10], "chzzk.naver.com");
    assert_eq!(domains[14], "www.instagram.com");
    assert_eq!(domains[22], "www.leagueoflegends.com");
    assert_eq!(domains[25], "authenticate.riotgames.com");
    assert_eq!(domains[29], "fow.kr");
}

#[test]
fn is_blocked_looks_for_the_opening_sentinel() {
    let blocker = HostsBlocker::new();
    assert!(!blocker.is_blocked(Ok("")));
    assert!(!blocker.is_blocked(Ok("127.0.0.1 localhost\n")));
    assert!(!blocker.is_blocked(Ok("# === FOCUSLOCK END ===\n")));
    assert!(blocker.is_blocked(Ok("# === FOCUSLOCK START ===\n")));
    assert!(blocker.is_blocked(Ok("127.0.0.1 localhost\nx # === FOCUSLOCK START === y\n")));
}

#[test]
fn block_appends_the_whole_block_to_a_clean_file() {
    let blocker = HostsBlocker::new();
    let content = "127.0.0.1 localhost\n";
    let plan = blocker.block(Ok(content));
    assert!(plan.replacement.is_none());
    assert_eq!(plan.addition.as_deref(), Some(expected_block().as_str()));
    assert_eq!(blocker.block_addition(), expected_block());
    assert_eq!(apply(content, &blocker), format!("{}{}", content, expected_block()));
}

#[test]
fn block_on_an_empty_file_gives_the_block_alone() {
    let blocker = HostsBlocker::new();
    assert_eq!(apply("", &blocker), expected_block());
}

#[test]
fn block_replaces_a_block_that_is_there() {
    let blocker = HostsBlocker::new();
    let content = "127.0.0.1 localhost\n\n# === FOCUSLOCK START ===\n127.0.0.1 stale.example\n# === FOCUSLOCK END ===\n";
    let plan = blocker.block(Ok(content));
    assert_eq!(plan.replacement.as_deref(), Some("127.0.0.1 localhost\n"));
    let text = apply(content, &blocker);
    assert_eq!(text, format!("127.0.0.1 localhost\n{}", expected_block()));
    assert!(!text.contains("stale.example"));
}

#[test]
fn youtube_line_stands_once_between_the_sentinels_and_goes_with_the_block() {
    let blocker = HostsBlocker::new();
    let content = "127.0.0.1 localhost\n::1 ip6-localhost\n";
    let text = apply(content, &blocker);
    let lines: Vec<&str> = text.lines().collect();
    let start = lines.iter().position(|line| *line == "# === FOCUSLOCK START ===").unwrap();
    let end = lines.iter().position(|line| *line == "# === FOCUSLOCK END ===").unwrap();
    let hits: Vec<usize> = lines
        .iter()
        .enumerate()
        .filter(|(_, line)| **line == "127.0.0.1 youtube.com")
        .map(|(at, _)| at)
        .collect();
    assert_eq!(hits.len(), 1);
    assert!(start < hits[0] && hits[0] < end);

    let after = blocker.without_block(&text);
    assert_eq!(count_lines_with(&after, "youtube.com"), 0);
    assert_eq!(count_lines_with(&after, "FOCUSLOCK"), 0);
    assert_eq!(after, "127.0.0.1 localhost\n::1 ip6-localhost\n");
}

#[test]
fn block_twice_leaves_one_pair_of_sentinels() {
    let blocker = HostsBlocker::new();
    let once = apply("127.0.0.1 localhost\n", &blocker);
    let twice = apply(&once, &blocker);
    assert_eq!(count_lines_with(&once, MARKER_START), 1);
    assert_eq!(count_lines_with(&once, MARKER_END), 1);
    assert_eq!(count_lines_with(&twice, MARKER_START), 1);
    assert_eq!(count_lines_with(&twice, MARKER_END), 1);
    assert_eq!(twice.lines().filter(|line| *line == "127.0.0.1 youtube.com").count(), 1);
}

#[test]
fn block_twice_mends_a_stray_closing_sentinel() {
    let blocker = HostsBlocker::new();
    let once = apply("# === FOCUSLOCK END ===\n127.0.0.1 localhost\n", &blocker);
    assert_eq!(count_lines_with(&once, MARKER_START), 1);
    assert_eq!(count_lines_with(&once, MARKER_END), 2);
    let twice = apply(&once, &blocker);
    assert_eq!(count_lines_with(&twice, MARKER_START), 1);
    assert_eq!(count_lines_with(&twice, MARKER_END), 1);
}

#[test]
fn unblock_without_a_block_keeps_the_lines() {
    let blocker = HostsBlocker::new();
    assert_eq!(blocker.without_block("127.0.0.1 localhost\n"), "127.0.0.1 localhost\n");
    assert_eq!(blocker.without_block("127.0.0.1 localhost"), "127.0.0.1 localhost\n");
    assert_eq!(blocker.without_block(""), "");
}

#[test]
fn unblock_collapses_empty_lines_at_the_end() {
    let blocker = HostsBlocker::new();
    assert_eq!(blocker.without_block("a\n\n\n"), "a\n");
    assert_eq!(blocker.without_block("\n\n\n"), "\n");
    assert_eq!(blocker.without_block("a\n\nb\n\n"), "a\n\nb\n");
}

#[test]
fn unblock_drops_what_stands_in_an_open_block() {
    let blocker = HostsBlocker::new();
    let content = "keep\n# === FOCUSLOCK START ===\n127.0.0.1 youtube.com\nno end follows\n";
    assert_eq!(blocker.without_block(content), "keep\n");
}

#[test]
fn unblock_turns_crlf_into_lf() {
    let blocker = HostsBlocker::new();
    assert_eq!(blocker.without_block("a\r\nb\r\n"), "a\nb\n");
}

#[test]
fn unblock_twice_changes_nothing_more() {
    let blocker = HostsBlocker::new();
    let cases = [
        "",
        "\n",
        "127.0.0.1 localhost\n",
        "a\n\n\nb",
        "x\n# === FOCUSLOCK START ===\n127.0.0.1 youtube.com\n# === FOCUSLOCK END ===\n\n\n",
        "# === FOCUSLOCK END ===\nx\r\ny\n",
    ];
    for content in cases {
        let once = blocker.without_block(content);
        let twice = blocker.without_block(&once);
        assert_eq!(once, twice, "{content:?}");
    }
}

#[test]
fn unblock_twice_differs_where_a_kept_line_ends_in_a_carriage_return() {
    let blocker = HostsBlocker::new();
    let once = blocker.without_block("a\r");
    assert_eq!(once, "a\r\n");
    assert_eq!(blocker.without_block(&once), "a\n");
}

#[test]
fn unblocked_file_does_not_count_as_blocked() {
    let blocker = HostsBlocker::new();
    let text = apply("127.0.0.1 localhost\n", &blocker);
    assert!(blocker.is_blocked(Ok(&text)));
    assert!(!blocker.is_blocked(Ok(&blocker.without_block(&text))));
}

#[test]
fn hosts_error_messages() {
    assert_eq!(
        HostsError::ReadError("No such file or directory (os error 2)".to_string()).message(),
        "Failed to read hosts file: No such file or directory (os error 2)"
    );
    assert_eq!(HostsError::PermissionDenied.message(), "Permission denied. Run as administrator.");
    assert_eq!(HostsError::BackupFailed.message(), "Failed to backup hosts file");
}

struct TextDice(u64);

impl TextDice {
    fn roll(&mut self, sides: usize) -> usize {
        self.0 = self.0.wrapping_mul(6364136223846793005).wrapping_add(1442695040888963407);
        ((self.0 >> 33) as usize) % sides
    }
}

fn sample(dice: &mut TextDice) -> String {
    let tokens = [
        "a",
        "\n",
        "\r",
        "\r\n",
        "\n\n",
        " ",
        "# === FOCUSLOCK START ===",
        "# === FOCUSLOCK END ===",
        "127.0.0.1 localhost",
        "#",
    ];
    let mut text = String::new();
    for _ in 0..dice.roll(12) {
        text.push_str(tokens[dice.roll(tokens.len())]);
    }
    text
}

fn unblock_by_std(content: &str) -> String {
    let mut kept = String::new();
    let mut in_block = false;
    for line in content.lines() {
        if line.contains(MARKER_START) {
            in_block = true;
        } else if line.contains(MARKER_END) {
            in_block = false;
        } else if !in_block {
            kept.push_str(line);
            kept.push('\n');
        }
    }
    while kept.ends_with("\n\n") {
        kept.pop();
    }
    kept
}

#[test]
fn unblock_agrees_with_std_on_many_texts() {
    let blocker = HostsBlocker::new();
    let mut dice = TextDice(7);
    for _ in 0..3000 {
        let content = sample(&mut dice);
        assert_eq!(blocker.without_block(&content), unblock_by_std(&content), "{content:?}");
        assert_eq!(blocker.is_blocked(Ok(&content)), content.contains(MARKER_START), "{content:?}");
    }
}

#[test]
fn block_agrees_with_std_on_many_texts() {
    let blocker = HostsBlocker::new();
    let mut dice = TextDice(11);
    for _ in 0..1500 {
        let content = sample(&mut dice);
        let base = if content.contains(MARKER_START) {
            unblock_by_std(&content)
        } else {
            content.clone()
        };
        assert_eq!(apply(&content, &blocker), format!("{}{}", base, expected_block()), "{content:?}");
    }
}

#[test]
fn block_leaves_one_opening_sentinel_on_many_texts() {
    let blocker = HostsBlocker::new();
    let mut dice = TextDice(13);
    for _ in 0..1500 {
        let content = sample(&mut dice);
        let once = apply(&content, &blocker);
        assert_eq!(count_lines_with(&once, MARKER_START), 1, "{content:?}");
        let twice = apply(&once, &blocker);
        assert_eq!(count_lines_with(&twice, MARKER_START), 1, "{content:?}");
        assert_eq!(count_lines_with(&twice, MARKER_END), 1, "{content:?}");
        assert!(blocker.is_blocked(Ok(&once)));
        assert!(!blocker.is_blocked(Ok(&blocker.without_block(&once))));
        assert!(!blocker.without_block(&once).contains(MARKER_END));
    }
}

#[test]
fn unblock_twice_changes_nothing_unless_a_kept_line_ends_in_a_carriage_return() {
    let blocker = HostsBlocker::new();
    let mut dice = TextDice(17);
    let mut seen = 0;
    for _ in 0..3000 {
        let content = sample(&mut dice);
        let once = blocker.without_block(&content);
        if once.contains("\r\n") {
            assert_ne!(blocker.without_block(&once), once, "{content:?}");
        } else {
            seen += 1;
            assert_eq!(blocker.without_block(&once), once, "{content:?}");
        }
    }
    assert!(seen > 500);
}

#[test]
fn is_blocked_is_false_for_a_file_that_could_not_be_read() {
    let blocker = HostsBlocker::new();
    assert!(!blocker.is_blocked(Err("Permission denied (os error 13)")));
}

#[test]
fn block_plan_on_a_clean_file() {
    let blocker = HostsBlocker::new();
    let plan = blocker.block(Ok("127.0.0.1 localhost\n"));
    assert_eq!(
        plan.steps,
        vec![
            hosts_must(Effect::ProbeHosts, FailureKind::HostsRead),
            hosts_must(Effect::OpenHosts, FailureKind::PermissionDenied),
            hosts_must(Effect::AppendHosts, FailureKind::HostsRead),
            hosts_may(Effect::FlushDns),
        ]
    );
    assert!(plan.outcome.is_ok());
}

#[test]
fn block_plan_on_a_file_with_a_block_takes_it_out_first() {
    let blocker = HostsBlocker::new();
    let plan = blocker.block(Ok("x\n# === FOCUSLOCK START ===\ny\n"));
    assert_eq!(
        plan.steps,
        vec![
            hosts_must(Effect::ReplaceHosts, FailureKind::PermissionDenied),
            hosts_may(Effect::FlushDns),
            hosts_must(Effect::ProbeHosts, FailureKind::HostsRead),
            hosts_must(Effect::OpenHosts, FailureKind::PermissionDenied),
            hosts_must(Effect::AppendHosts, FailureKind::HostsRead),
            hosts_may(Effect::FlushDns),
        ]
    );
    assert_eq!(plan.replacement.as_deref(), Some("x\n"));
    assert_eq!(plan.addition.as_deref(), Some(expected_block().as_str()));
}

#[test]
fn unblock_plan_replaces_the_file_also_without_a_block() {
    let blocker = HostsBlocker::new();
    let plan = blocker.unblock(Ok("a\r\nb"));
    assert_eq!(
        plan.steps,
        vec![hosts_must(Effect::ReplaceHosts, FailureKind::PermissionDenied), hosts_may(Effect::FlushDns)]
    );
    assert_eq!(plan.replacement.as_deref(), Some("a\nb\n"));
    assert_eq!(plan.addition, None);
    assert!(plan.outcome.is_ok());
}

#[test]
fn plans_for_a_file_that_could_not_be_read_are_read_errors() {
    let blocker = HostsBlocker::new();
    for plan in [blocker.block(Err("gone")), blocker.unblock(Err("gone"))] {
        assert!(plan.steps.is_empty());
        assert_eq!(plan.replacement, None);
        assert_eq!(plan.addition, None);
        assert_eq!(plan.outcome.unwrap_err().message(), "Failed to read hosts file: gone");
    }
}
