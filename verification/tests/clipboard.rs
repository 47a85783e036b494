//! The registers on the clipboard.

use anvi_core::clipboard::{
    get_text, pasted, restore, set_text, snapshot, to_register, wait_for_change, wait_for_opening,
    Clipboard, Memory, RegType, Restore, Waited,
};
use anvi_core::text::{to_crlf, to_lines};

fn v(lines: &[&str]) -> Vec<String> {
    lines.iter().map(|s| (*s).to_string()).collect()
}

#[test]
fn no_trailing_break_is_charwise() {
    assert_eq!(to_register("hello"), (v(&["hello"]), RegType::Char));
    assert_eq!(to_register("a\r\nb"), (v(&["a", "b"]), RegType::Char));
}

#[test]
fn a_trailing_break_is_linewise() {
    assert_eq!(to_register("a\r\n"), (v(&["a"]), RegType::Line));
    assert_eq!(to_register("a\n"), (v(&["a"]), RegType::Line));
    assert_eq!(to_register("a\r"), (v(&["a"]), RegType::Line));
    assert_eq!(to_register("a\r\nb\r\n"), (v(&["a", "b"]), RegType::Line));
}

#[test]
fn an_empty_clipboard_is_a_single_empty_charwise_line() {
    assert_eq!(to_register(""), (v(&[""]), RegType::Char));
}

#[test]
fn multibyte_text_survives_both_directions() {
    assert_eq!(
        to_register("日本語\r\n改行"),
        (v(&["日本語", "改行"]), RegType::Char)
    );
    assert_eq!(to_crlf(&v(&["日本語", "改行"])), "日本語\r\n改行");
}

#[test]
fn the_nvim_yank_shape_round_trips_without_a_regtype() {
    for (yanked, raw, expected) in [
        (v(&["abc", ""]), "abc\r\n", (v(&["abc"]), RegType::Line)),
        (v(&["abc"]), "abc", (v(&["abc"]), RegType::Char)),
        (
            v(&["a", "b", ""]),
            "a\r\nb\r\n",
            (v(&["a", "b"]), RegType::Line),
        ),
        (
            v(&["ab", "ef", ""]),
            "ab\r\nef\r\n",
            (v(&["ab", "ef"]), RegType::Line),
        ),
    ] {
        let out = to_crlf(&yanked);
        assert_eq!(out, raw, "yanked = {yanked:?}");
        assert_eq!(to_register(&out), expected, "raw = {out:?}");
    }
}

#[test]
fn regtype_spells_itself_the_way_nvim_does() {
    assert_eq!(RegType::Char.as_nvim(), "v");
    assert_eq!(RegType::Line.as_nvim(), "V");
}

#[test]
fn the_memory_clipboard_stores_what_it_is_given() {
    let mut clip = Memory::default();
    assert_eq!(clip.get().unwrap(), "");
    clip.set("日本語\r\n").unwrap();
    assert_eq!(clip.get().unwrap(), "日本語\r\n");
    assert_eq!(clip.contents(), "日本語\r\n");
    clip.put("overwritten");
    assert_eq!(clip.get().unwrap(), "overwritten");
}

#[test]
fn a_text_on_the_clipboard_reads_back() {
    for text in ["", "abc", "日本語\r\n𠀋", "a\tb"] {
        let mut block = set_text(text);
        assert_eq!(block.last(), Some(&0));
        block.extend([0x41, 0, 0xd800]);
        assert_eq!(get_text(Some(&block)).as_deref(), Some(text));
    }
    assert_eq!(set_text("a\u{1f600}"), vec![0x61, 0xd83d, 0xde00, 0]);
    assert_eq!(get_text(Some(&[0x61, 0x62])).as_deref(), Some("ab"));
    assert_eq!(get_text(Some(&[0x61, 0xd83d, 0])).as_deref(), Some("a\u{fffd}"));
    assert_eq!(get_text(Some(&[0x61, 0, 0x62])).as_deref(), Some("a"));
    assert_eq!(get_text(None), None);
}

#[test]
fn a_snapshot_goes_back_as_it_was() {
    let text = "before".to_owned();
    match restore(&snapshot(Some(text))) {
        Restore::Put(block) => assert_eq!(get_text(Some(&block)).as_deref(), Some("before")),
        Restore::Empty => panic!("there was a text"),
    }
    assert_eq!(restore(&snapshot(None)), Restore::Empty);
}

#[test]
fn nothing_to_paste_is_an_empty_text() {
    assert_eq!(pasted(None), "");
    assert_eq!(pasted(Some("x".to_owned())), "x");
}

#[test]
fn waiting_ends_with_a_change_or_with_the_time() {
    assert_eq!(wait_for_change(7, 8, false), Waited::Done);
    assert_eq!(wait_for_change(7, 8, true), Waited::Done);
    assert_eq!(wait_for_change(7, 7, true), Waited::TimedOut);
    assert_eq!(wait_for_change(7, 7, false), Waited::Again);
    assert_eq!(wait_for_opening(true, true), Waited::Done);
    assert_eq!(wait_for_opening(false, true), Waited::TimedOut);
    assert_eq!(wait_for_opening(false, false), Waited::Again);
}

#[test]
fn lines_come_back_from_the_clipboard_as_lines() {
    let (lines, kind) = to_register(&to_crlf(&v(&["x", "", "y", ""])));
    assert_eq!((lines, kind), (v(&["x", "", "y"]), RegType::Line));
    assert_eq!(to_lines("x\r\n"), v(&["x"]));
}
