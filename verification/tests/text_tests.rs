use nec::text::{chars_of, append_str, eq_ignore_case, first_line_trimmed, split_on_spaces, substring};

#[test]
fn chars_in_order() {
    assert_eq!(chars_of("añb"), vec!['a', 'ñ', 'b']);
}

#[test]
fn split_keeps_empty_pieces() {
    assert_eq!(split_on_spaces(""), vec![""]);
    assert_eq!(split_on_spaces(" "), vec!["", ""]);
    assert_eq!(split_on_spaces("a b"), vec!["a", "b"]);
    assert_eq!(split_on_spaces("a  b "), vec!["a", "", "b", ""]);
}

#[test]
fn split_then_join_gives_back_the_text() {
    for s in ["", "pass show x", "  a  ", "one"] {
        assert_eq!(split_on_spaces(s).join(" "), s);
    }
}

#[test]
fn first_line_without_trailing_space() {
    assert_eq!(first_line_trimmed("abc"), "abc");
    assert_eq!(first_line_trimmed("abc  \n def"), "abc");
    assert_eq!(first_line_trimmed("   "), "");
    assert_eq!(first_line_trimmed("x\u{2003}\u{85}"), "x");
    assert_eq!(first_line_trimmed("x\u{200B}"), "x\u{200B}");
}

#[test]
fn case_insensitive_ascii_only() {
    assert!(eq_ignore_case("Subject", "SUBJECT"));
    assert!(eq_ignore_case("subject", "Subject"));
    assert!(!eq_ignore_case("Subject", "Subjec"));
    assert!(!eq_ignore_case("Ä", "ä"));
}

#[test]
fn substring_and_concat() {
    assert_eq!(substring("héllo", 1, 3), "él");
    assert_eq!(append_str("ab", "cd"), "abcd");
}
