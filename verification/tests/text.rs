//! Lines and line breaks.

use anvi_core::text::{to_crlf, to_lines};

fn v(lines: &[&str]) -> Vec<String> {
    lines.iter().map(|s| (*s).to_string()).collect()
}

#[test]
fn empty_string_is_a_single_empty_line() {
    assert_eq!(to_lines(""), v(&[""]));
}

#[test]
fn no_line_break_is_a_single_line() {
    assert_eq!(to_lines("hello"), v(&["hello"]));
}

#[test]
fn splits_lf() {
    assert_eq!(to_lines("a\nb\nc"), v(&["a", "b", "c"]));
}

#[test]
fn splits_crlf() {
    assert_eq!(to_lines("a\r\nb\r\nc"), v(&["a", "b", "c"]));
}

#[test]
fn splits_bare_cr() {
    assert_eq!(to_lines("a\rb\rc"), v(&["a", "b", "c"]));
}

#[test]
fn splits_mixed_breaks() {
    assert_eq!(to_lines("a\r\nb\nc\rd"), v(&["a", "b", "c", "d"]));
}

#[test]
fn one_trailing_break_is_a_terminator() {
    assert_eq!(to_lines("a\r\n"), v(&["a"]));
    assert_eq!(to_lines("a\n"), v(&["a"]));
    assert_eq!(to_lines("a\r"), v(&["a"]));
    assert_eq!(to_lines("\n"), v(&[""]));
}

#[test]
fn an_intentional_trailing_blank_line_survives() {
    assert_eq!(to_lines("a\n\n"), v(&["a", ""]));
    assert_eq!(to_lines("a\r\n\r\n"), v(&["a", ""]));
}

#[test]
fn leading_and_consecutive_breaks_yield_empty_lines() {
    assert_eq!(to_lines("\na\n\nb"), v(&["", "a", "", "b"]));
    assert_eq!(to_lines("\r\n\r\n"), v(&["", ""]));
}

#[test]
fn keeps_multibyte_text_intact() {
    assert_eq!(
        to_lines("日本語\r\n改行\nテスト"),
        v(&["日本語", "改行", "テスト"])
    );
}

#[test]
fn crlf_joins_without_trailing_break() {
    assert_eq!(to_crlf(&v(&["a", "b"])), "a\r\nb");
    assert_eq!(to_crlf(&v(&["only"])), "only");
    assert_eq!(to_crlf(&v(&[])), "");
    assert_eq!(to_crlf(&v(&["", ""])), "\r\n");
}

#[test]
fn round_trip_is_exact_without_a_trailing_break() {
    for raw in ["", "hello", "a\r\nb\r\nc", "日本語\r\nの\r\n行"] {
        let lines = to_lines(raw);
        assert_eq!(to_crlf(&lines), raw, "round trip failed for {raw:?}");
        assert_eq!(to_lines(&to_crlf(&lines)), lines);
    }
}

#[test]
fn a_trailing_break_is_dropped_by_the_round_trip() {
    assert_eq!(to_crlf(&to_lines("a\r\n")), "a");
    assert_eq!(to_crlf(&to_lines("a\n\n")), "a\r\n");
    assert_eq!(to_crlf(&to_lines("\r\n\r\n")), "\r\n");
}

#[test]
fn round_trip_normalizes_lf_and_cr_to_crlf() {
    assert_eq!(to_crlf(&to_lines("a\nb\rc")), "a\r\nb\r\nc");
}

fn joined_and_split(lines: &[&str]) -> Vec<String> {
    to_lines(&to_crlf(&v(lines)))
}

#[test]
fn lines_hold_no_breaks() {
    for raw in ["a\r\n\rb\n\n\rc", "\r\r\n\n", "\n\r"] {
        for line in to_lines(raw) {
            assert!(!line.contains('\n') && !line.contains('\r'));
        }
    }
    assert_eq!(to_lines("\n\r"), v(&["", ""]));
    assert_eq!(to_lines("\r\r\n\n"), v(&["", "", ""]));
}

#[test]
fn joined_lines_come_back_unless_the_last_of_several_is_empty() {
    assert_eq!(joined_and_split(&["a", "", "b"]), v(&["a", "", "b"]));
    assert_eq!(joined_and_split(&[""]), v(&[""]));
    assert_eq!(joined_and_split(&["a", ""]), v(&["a"]));
}
