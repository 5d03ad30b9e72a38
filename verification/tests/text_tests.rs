use wideval::text::{chars_of, decimal_string, has_prefix, join_lines, split_lines, string_from};

fn lines(items: &[&str]) -> Vec<String> {
    items.iter().map(|s| s.to_string()).collect()
}

#[test]
fn split_lines_matches_line_endings() {
    assert_eq!(split_lines(""), Vec::<String>::new());
    assert_eq!(split_lines("a"), lines(&["a"]));
    assert_eq!(split_lines("a\n"), lines(&["a"]));
    assert_eq!(split_lines("a\n\n"), lines(&["a", ""]));
    assert_eq!(split_lines("\n"), lines(&[""]));
    assert_eq!(split_lines("a\r\nb\r\n"), lines(&["a", "b"]));
    assert_eq!(split_lines("a\rb\n"), lines(&["a\rb"]));
    assert_eq!(split_lines("a\r"), lines(&["a\r"]));
    assert_eq!(split_lines("a\r\r\n"), lines(&["a\r"]));
    assert_eq!(split_lines("\r\n\r\n"), lines(&["", ""]));
    assert_eq!(split_lines("x=\u{e9}\ny=\u{1f600}"), lines(&["x=\u{e9}", "y=\u{1f600}"]));
}

#[test]
fn split_lines_agrees_with_the_standard_library() {
    let samples = ["", "\n", "a", "a\nb", "a\r\nb\r", "\r", "\r\n", "one\n\ntwo\n", "a\r\r\nb\n\r\n"];
    for s in samples {
        let expected: Vec<String> = s.lines().map(|l| l.to_string()).collect();
        assert_eq!(split_lines(s), expected);
    }
}

#[test]
fn join_lines_ends_each_line_with_a_line_feed() {
    assert_eq!(join_lines(&lines(&[])), "");
    assert_eq!(join_lines(&lines(&[""])), "\n");
    assert_eq!(join_lines(&lines(&["a", "", "b"])), "a\n\nb\n");
}

#[test]
fn decimal_string_writes_plain_decimal() {
    assert_eq!(decimal_string(0), "0");
    assert_eq!(decimal_string(7), "7");
    assert_eq!(decimal_string(10), "10");
    assert_eq!(decimal_string(1080), "1080");
    assert_eq!(decimal_string(4294967295), "4294967295");
    assert_eq!(decimal_string(u64::MAX), "18446744073709551615");
}

#[test]
fn has_prefix_compares_from_the_start() {
    assert!(has_prefix("FullscreenMode=2", "FullscreenMode="));
    assert!(has_prefix("abc", ""));
    assert!(has_prefix("", ""));
    assert!(has_prefix("abc", "abc"));
    assert!(!has_prefix("ab", "abc"));
    assert!(!has_prefix("xabc", "abc"));
    assert!(!has_prefix("", "a"));
    assert!(has_prefix("\u{e9}t\u{e9}", "\u{e9}t"));
}

#[test]
fn chars_and_substrings() {
    let chars = chars_of("h\u{e9}llo");
    assert_eq!(chars, vec!['h', '\u{e9}', 'l', 'l', 'o']);
    assert_eq!(string_from(&chars, 1, 4), "\u{e9}ll");
    assert_eq!(string_from(&chars, 2, 2), "");
    assert_eq!(string_from(&chars, 0, 5), "h\u{e9}llo");
}
