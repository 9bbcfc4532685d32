use anki_copy_card::text::{encode_line_breaks, trim_str};

#[test]
fn trim_removes_surrounding_whitespace_only() {
    assert_eq!(trim_str("  a b  "), "a b".to_string());
}

#[test]
fn trim_handles_unicode_whitespace() {
    assert_eq!(trim_str("\u{3000}x\t\n"), "x".to_string());
}

#[test]
fn trim_of_blank_text_is_empty() {
    assert_eq!(trim_str(" \t\r\n "), "".to_string());
}

#[test]
fn trim_keeps_untrimmed_text() {
    assert_eq!(trim_str("ab"), "ab".to_string());
}

#[test]
fn line_breaks_become_markers() {
    assert_eq!(encode_line_breaks("a\nb\nc"), "a<br />b<br />c".to_string());
}

#[test]
fn trailing_newline_becomes_marker() {
    assert_eq!(encode_line_breaks("a\n"), "a<br />".to_string());
}

#[test]
fn no_newline_no_marker() {
    assert_eq!(encode_line_breaks("abc"), "abc".to_string());
}
