use connect_proxy::text::{split_lines, split_tokens, to_chars};

#[test]
fn lines_are_cut_at_line_breaks() {
    assert_eq!(split_lines(""), vec![""]);
    assert_eq!(split_lines("one"), vec!["one"]);
    assert_eq!(split_lines("one\r\ntwo"), vec!["one", "two"]);
    assert_eq!(split_lines("one\r\n"), vec!["one", ""]);
    assert_eq!(split_lines("\r\n"), vec!["", ""]);
    assert_eq!(split_lines("\r\n\r\n"), vec!["", "", ""]);
    assert_eq!(split_lines("a\r\n\r\nb"), vec!["a", "", "b"]);
}

#[test]
fn lone_control_characters_stay_in_their_line() {
    assert_eq!(split_lines("a\rb\nc"), vec!["a\rb\nc"]);
    assert_eq!(split_lines("a\r\r\nb"), vec!["a\r", "b"]);
    assert_eq!(split_lines("a\r\n\nb"), vec!["a", "\nb"]);
    assert_eq!(split_lines("a\n\rb"), vec!["a\n\rb"]);
    assert_eq!(split_lines("\r"), vec!["\r"]);
}

#[test]
fn lines_agree_with_the_standard_split() {
    for text in ["", "x", "x\r\ny\r\n", "\r\n\r\nx", "\r\r\n\n", "\u{e9}\r\n\u{2713}\u{1f600}\r\n"] {
        let expected: Vec<&str> = text.split("\r\n").collect();
        assert_eq!(split_lines(text), expected);
    }
}

#[test]
fn tokens_are_the_runs_between_spaces() {
    assert_eq!(split_tokens(""), Vec::<&str>::new());
    assert_eq!(split_tokens("   "), Vec::<&str>::new());
    assert_eq!(split_tokens("one"), vec!["one"]);
    assert_eq!(split_tokens("one two  three"), vec!["one", "two", "three"]);
    assert_eq!(split_tokens("  lead and trail  "), vec!["lead", "and", "trail"]);
    assert_eq!(split_tokens("tab\tis no space"), vec!["tab\tis", "no", "space"]);
    assert_eq!(split_tokens("\u{e9}t\u{e9} \u{1f600}"), vec!["\u{e9}t\u{e9}", "\u{1f600}"]);
}

#[test]
fn characters_are_copied_in_order() {
    assert_eq!(to_chars(""), Vec::<char>::new());
    assert_eq!(to_chars("a\u{e9}\u{1f600}"), vec!['a', '\u{e9}', '\u{1f600}']);
}
