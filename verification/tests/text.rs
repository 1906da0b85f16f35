use focuslock::text::{copy_range, find, from_chars, matches_at, push_all, split_lines, to_chars};

fn chars(s: &str) -> Vec<char> {
    s.chars().collect()
}

fn lines_as_strings(text: &str) -> Vec<String> {
    split_lines(&chars(text)).iter().map(|line| line.iter().collect()).collect()
}

fn std_lines(text: &str) -> Vec<String> {
    text.lines().map(|line| line.to_string()).collect()
}

#[test]
fn to_chars_gives_every_character_in_order() {
    assert_eq!(to_chars("a\u{e9}\u{4e2d}\n"), vec!['a', '\u{e9}', '\u{4e2d}', '\n']);
    assert_eq!(to_chars(""), Vec::<char>::new());
}

#[test]
fn from_chars_builds_the_same_text() {
    assert_eq!(from_chars(&vec!['h', 'i', ' ', '\u{1f600}']), "hi \u{1f600}");
    assert_eq!(from_chars(&Vec::new()), "");
    assert_eq!(from_chars(&to_chars("127.0.0.1 localhost\n")), "127.0.0.1 localhost\n");
}

#[test]
fn matches_at_compares_at_the_given_place_only() {
    let text = chars("abcabc");
    assert!(matches_at(&text, &chars("bc"), 1));
    assert!(matches_at(&text, &chars("bc"), 4));
    assert!(!matches_at(&text, &chars("bc"), 0));
    assert!(matches_at(&text, &chars(""), 6));
}

#[test]
fn find_agrees_with_std_contains() {
    let cases = [
        ("", ""),
        ("abc", ""),
        ("", "a"),
        ("abc", "abc"),
        ("abc", "abcd"),
        ("xxabc", "abc"),
        ("abcxx", "abc"),
        ("ababac", "abac"),
        ("# === FOCUSLOCK START ===", "# === FOCUSLOCK END ==="),
        ("  # === FOCUSLOCK END === trailing", "# === FOCUSLOCK END ==="),
        ("aaa", "aaaa"),
    ];
    for (text, pat) in cases {
        assert_eq!(find(&chars(text), &chars(pat)), text.contains(pat), "{text:?} {pat:?}");
    }
}

#[test]
fn copy_range_takes_the_half_open_range() {
    let text = chars("hello");
    assert_eq!(copy_range(&text, 1, 4), chars("ell"));
    assert_eq!(copy_range(&text, 2, 2), chars(""));
    assert_eq!(copy_range(&text, 0, 5), chars("hello"));
}

#[test]
fn push_all_appends() {
    let mut out = chars("ab");
    push_all(&mut out, &chars("cd"));
    assert_eq!(out, chars("abcd"));
    push_all(&mut out, &chars(""));
    assert_eq!(out, chars("abcd"));
}

#[test]
fn split_lines_agrees_with_std_lines() {
    let cases = [
        "",
        "\n",
        "\n\n",
        "a",
        "a\n",
        "a\nb",
        "a\nb\n",
        "a\r\nb\r\n",
        "a\r",
        "a\r\n",
        "a\r\r\n",
        "\r\n",
        "\r",
        "a\n\nb\n\n",
        "foo\nbar\n\r\nbaz\r",
        "127.0.0.1 localhost\n::1 localhost\n",
    ];
    for text in cases {
        assert_eq!(lines_as_strings(text), std_lines(text), "{text:?}");
    }
}

#[test]
fn split_lines_keeps_a_bare_carriage_return_on_the_last_line() {
    assert_eq!(lines_as_strings("foo\nbaz\r"), vec!["foo".to_string(), "baz\r".to_string()]);
    assert_eq!(lines_as_strings("a\r\r\n"), vec!["a\r".to_string()]);
}
