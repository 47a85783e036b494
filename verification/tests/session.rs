//! Sessions.

use anvi_core::session::{Applied, Phase, Session};

fn lines(xs: &[&str]) -> Vec<String> {
    xs.iter().map(|s| (*s).to_owned()).collect()
}

fn editing(original: &[&str]) -> Session {
    let mut s = Session::default();
    assert!(s.begin_capture());
    s.begin_edit(lines(original));
    assert_eq!(s.phase(), Phase::Editing);
    s
}

#[test]
fn never_written_is_discarded() {
    let mut s = editing(&["a"]);
    assert_eq!(s.on_end(), Applied::Discarded);
    assert_eq!(s.phase(), Phase::Idle);
}

#[test]
fn write_then_end_applies_written() {
    let mut s = editing(&["a"]);
    s.on_write(lines(&["a", "b"]));
    assert_eq!(s.on_end(), Applied::WriteBack(lines(&["a", "b"])));
    assert_eq!(s.phase(), Phase::Idle);
}

#[test]
fn last_write_wins() {
    let mut s = editing(&["a"]);
    s.on_write(lines(&["first"]));
    s.on_write(lines(&["second"]));
    assert_eq!(s.on_end(), Applied::WriteBack(lines(&["second"])));
}

#[test]
fn unchanged_content_is_not_written_back() {
    let mut s = editing(&["a", "b"]);
    s.on_write(lines(&["a", "b"]));
    assert_eq!(s.on_end(), Applied::Unchanged);
}

#[test]
fn write_back_to_original_is_unchanged() {
    let mut s = editing(&["a"]);
    s.on_write(lines(&["edited"]));
    s.on_write(lines(&["a"]));
    assert_eq!(s.on_end(), Applied::Unchanged);
}

#[test]
fn begin_capture_rejected_unless_idle() {
    let mut s = Session::default();
    assert!(s.begin_capture());
    assert!(!s.begin_capture());
    assert_eq!(s.phase(), Phase::Capturing);

    s.begin_edit(lines(&["a"]));
    assert!(!s.begin_capture());
    assert_eq!(s.phase(), Phase::Editing);
}

#[test]
fn abort_capture_returns_to_idle() {
    let mut s = Session::default();
    assert!(s.begin_capture());
    s.abort_capture();
    assert_eq!(s.phase(), Phase::Idle);
    assert!(s.begin_capture());
}

#[test]
fn new_session_does_not_inherit_previous_write() {
    let mut s = editing(&["a"]);
    s.on_write(lines(&["edited"]));
    assert_eq!(s.on_end(), Applied::WriteBack(lines(&["edited"])));

    assert!(s.begin_capture());
    s.begin_edit(lines(&["b"]));
    assert_eq!(s.on_end(), Applied::Discarded);
}

#[test]
fn reset_from_any_phase_returns_to_idle() {
    let mut s = Session::default();
    s.reset();
    assert_eq!(s.phase(), Phase::Idle);

    assert!(s.begin_capture());
    s.reset();
    assert_eq!(s.phase(), Phase::Idle);

    let mut s = editing(&["a"]);
    s.on_write(lines(&["edited"]));
    s.reset();
    assert_eq!(s.phase(), Phase::Idle);
    assert!(s.begin_capture());
    s.begin_edit(lines(&["a"]));
    assert_eq!(s.on_end(), Applied::Discarded);
}

#[test]
fn stray_events_outside_editing_are_ignored() {
    let mut s = Session::default();
    s.on_write(lines(&["x"]));
    assert_eq!(s.phase(), Phase::Idle);
    assert_eq!(s.on_end(), Applied::Discarded);
    assert_eq!(s.phase(), Phase::Idle);

    assert!(s.begin_capture());
    s.on_write(lines(&["x"]));
    assert_eq!(s.phase(), Phase::Capturing);
    assert_eq!(s.on_end(), Applied::Discarded);
    assert_eq!(s.phase(), Phase::Capturing);
}

#[test]
fn a_session_goes_through_its_phases_only() {
    let mut s = Session::default();
    assert_eq!(s.phase(), Phase::Idle);
    s.abort_capture();
    s.begin_edit(lines(&["ignored"]));
    assert_eq!(s.phase(), Phase::Idle);
    assert!(s.begin_capture());
    s.begin_edit(lines(&["a"]));
    s.abort_capture();
    s.begin_edit(lines(&["ignored"]));
    s.on_write(lines(&["a"]));
    assert_eq!(s.on_end(), Applied::Unchanged);
}
