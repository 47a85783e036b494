//! The editing window.

use anvi_core::gui::ime::{ImeState, Preedit};
use anvi_core::gui::render::{
    background_runs, cursor_plan, decoration, frame, is_blank, preedit_plan, text_runs,
    BackgroundRun, Strokes,
};
use anvi_core::gui::window::{centered_position, offset, place_over, Point, Rect};
use anvi_core::ui::input::{committed, named, typing, Held};
use anvi_core::ui::redraw::apply;
use anvi_core::ui::{CursorShape, Rgb, Style, UiState, Underline};
use anvi_core::utf16::{decode, decode_until_nul, encode, utf16_len_upto, utf16_range, wide_nul};
use anvi_core::value::Value;

#[test]
fn stays_composing_until_disabled() {
    let mut ime = ImeState::default();
    assert!(!ime.composing());

    ime.begin();
    ime.set_preedit("にほん".to_owned(), Some((0, 3)));
    assert!(ime.composing());
    assert_eq!(ime.preedit().map(|p| p.text.as_str()), Some("にほん"));

    ime.commit();
    assert!(ime.composing());
    assert!(ime.preedit().is_none());

    ime.clear();
    assert!(!ime.composing());
}

#[test]
fn empty_preedit_has_nothing_to_draw() {
    let mut ime = ImeState::default();
    ime.begin();
    ime.set_preedit(String::new(), None);
    assert!(ime.preedit().is_none());
    assert!(ime.composing());
}

#[test]
fn rejects_ranges_off_char_boundaries() {
    let mut ime = ImeState::default();
    ime.begin();
    ime.set_preedit("あい".to_owned(), Some((1, 3)));
    assert_eq!(ime.preedit().and_then(|p| p.target), None);

    ime.set_preedit("あい".to_owned(), Some((0, 9)));
    assert_eq!(ime.preedit().and_then(|p| p.target), None);

    ime.set_preedit("あい".to_owned(), Some((3, 6)));
    assert_eq!(ime.preedit().and_then(|p| p.target), Some((3, 6)));
}

#[test]
fn utf16_offsets_follow_byte_offsets() {
    assert_eq!(utf16_len_upto("hello", 0), 0);
    assert_eq!(utf16_len_upto("hello", 3), 3);
    assert_eq!(utf16_len_upto("hello", 5), 5);
}

#[test]
fn utf16_offsets_count_bmp_and_astral_chars() {
    assert_eq!(utf16_len_upto("あい", 3), 1);
    assert_eq!(utf16_len_upto("あい", 6), 2);
    assert_eq!(utf16_len_upto("𠀋あ", 4), 2);
    assert_eq!(utf16_len_upto("𠀋あ", 7), 3);
}

#[test]
fn utf16_offsets_clamp_outside_the_string() {
    assert_eq!(utf16_len_upto("あ", 99), 1);
    assert_eq!(utf16_len_upto("", 4), 0);
}

#[test]
fn utf16_offsets_round_mid_char_bytes_up() {
    assert_eq!(utf16_len_upto("あい", 1), 1);
}

#[test]
fn wide_strings_are_nul_terminated() {
    assert_eq!(wide_nul("Mi"), vec![0x4d, 0x69, 0]);
    assert_eq!(wide_nul(""), vec![0]);
}

fn u(n: u64) -> Value {
    Value::from_u64(n)
}

fn text(s: &str) -> Value {
    Value::from_str(s)
}

fn event(name: &str, args: Vec<Value>) -> Value {
    Value::Array(vec![text(name), Value::Array(args)])
}

fn line(row: u64, cells: &[(&str, u64)]) -> Value {
    let cells = cells.iter().map(|(s, hl)| Value::Array(vec![text(s), u(*hl)])).collect();
    event("grid_line", vec![u(1), u(row), u(0), Value::Array(cells), Value::Boolean(false)])
}

fn highlight(id: u64, attrs: Vec<(&str, Value)>) -> Value {
    let attrs = attrs.into_iter().map(|(k, v)| (text(k), v)).collect();
    event("hl_attr_define", vec![u(id), Value::Dict(attrs)])
}

fn screen(cols: u64, rows: u64, events: Vec<Value>) -> UiState {
    let mut batch = vec![
        event("default_colors_set", vec![u(0xaa), u(0xbb), u(0xcc)]),
        highlight(1, vec![("background", u(0x11))]),
        highlight(2, vec![("foreground", u(0x22)), ("undercurl", Value::Boolean(true))]),
        highlight(3, vec![("background", u(0x11)), ("bold", Value::Boolean(true))]),
        event("grid_resize", vec![u(1), u(cols), u(rows)]),
    ];
    batch.extend(events);
    let mut ui = UiState::default();
    apply(&mut ui, &batch).expect("apply");
    ui
}

#[test]
fn every_cell_is_filled_with_its_background() {
    let ui = screen(
        6,
        2,
        vec![
            line(0, &[("a", 0), ("b", 1), ("c", 3), ("d", 0), ("e", 1), ("f", 1)]),
            line(1, &[("x", 2)]),
        ],
    );
    let runs = background_runs(&ui);
    assert_eq!(
        runs,
        vec![
            BackgroundRun { row: 0, start: 1, end: 3, bg: Rgb(0x11) },
            BackgroundRun { row: 0, start: 4, end: 6, bg: Rgb(0x11) },
        ]
    );
    for row in 0..ui.grid.rows() {
        for (col, cell) in ui.grid.row(row).iter().enumerate() {
            let filled = runs
                .iter()
                .find(|r| r.row == row && r.start <= col && col < r.end)
                .map_or(ui.hl.default_bg(), |r| r.bg);
            assert_eq!(filled, ui.hl.style(cell.hl_id).bg);
        }
    }
}

fn spans(ui: &UiState) -> Vec<(usize, usize, usize, String)> {
    text_runs(ui)
        .iter()
        .map(|r| (r.row, r.col, r.span, String::from_utf16(&r.text).expect("valid")))
        .collect()
}

#[test]
fn wide_characters_are_drawn_alone() {
    let ui = screen(
        7,
        1,
        vec![line(0, &[("a", 0), ("b", 0), ("あ", 0), ("", 0), ("c", 0), ("d", 2), ("e", 2)])],
    );
    assert_eq!(
        spans(&ui),
        vec![
            (0, 0, 2, "ab".to_owned()),
            (0, 2, 2, "あ".to_owned()),
            (0, 4, 1, "c".to_owned()),
            (0, 5, 2, "de".to_owned()),
        ]
    );
}

#[test]
fn the_runs_of_a_row_draw_its_text() {
    let ui = screen(
        5,
        2,
        vec![line(0, &[("", 0), ("𠀋", 1), ("", 1), ("k", 2), ("z", 0)]), line(1, &[("q", 2)])],
    );
    for row in 0..2 {
        let drawn: String =
            spans(&ui).into_iter().filter(|s| s.0 == row).map(|s| s.3).collect();
        assert_eq!(drawn, ui.grid.row_text(row));
    }
}

#[test]
fn only_spaces_have_no_glyphs() {
    assert!(is_blank(&[]));
    assert!(is_blank(&[0x20, 0x20]));
    assert!(!is_blank(&[0x20, 0x3000]));
}

#[test]
fn underlines_are_drawn_in_their_own_colour() {
    let ui = screen(1, 1, vec![]);
    let curl = decoration(&ui.hl.style(2));
    assert_eq!(curl.strokes, Strokes::Dashes { on: 1, off: 1 });
    assert_eq!(curl.underline, Rgb(0xcc));
    assert!(!curl.strike);
    let kinds = [
        (Underline::Off, Strokes::Off),
        (Underline::Line, Strokes::Single),
        (Underline::Double, Strokes::Double),
        (Underline::Dotted, Strokes::Dashes { on: 1, off: 1 }),
        (Underline::Dashed, Strokes::Dashes { on: 3, off: 2 }),
    ];
    for (underline, strokes) in kinds {
        let style = Style { underline, strikethrough: true, ..ui.hl.style(0) };
        assert_eq!(decoration(&style).strokes, strokes);
        assert!(decoration(&style).strike);
    }
}

fn mode(shape: &str, percent: u64, attr: u64) -> Value {
    let info = vec![
        (text("cursor_shape"), text(shape)),
        (text("cell_percentage"), u(percent)),
        (text("attr_id"), u(attr)),
    ];
    event("mode_info_set", vec![Value::Boolean(true), Value::Array(vec![Value::Dict(info)])])
}

fn goto(row: u64, col: u64) -> Value {
    event("grid_cursor_goto", vec![u(1), u(row), u(col)])
}

#[test]
fn the_cursor_moves_to_the_first_half_of_a_wide_character() {
    let ui = screen(4, 1, vec![line(0, &[("あ", 0), ("", 0), ("b", 2)]), goto(0, 1)]);
    let plan = cursor_plan(&ui).expect("a cursor");
    assert_eq!((plan.row, plan.col, plan.wide), (0, 0, true));
    assert_eq!(plan.text, "あ".encode_utf16().collect::<Vec<u16>>());
    assert_eq!((plan.fill, plan.ink), (Rgb(0xaa), Rgb(0xbb)));
}

#[test]
fn the_cursor_stays_on_an_erased_cell() {
    let ui = screen(4, 1, vec![line(0, &[("あ", 0), ("", 0), ("b", 2)]), goto(0, 3)]);
    let plan = cursor_plan(&ui).expect("a cursor");
    assert_eq!((plan.col, plan.wide, plan.shape), (3, false, CursorShape::Block));
    assert!(plan.text.is_empty());
}

#[test]
fn the_cursor_follows_the_mode() {
    let ui = screen(2, 1, vec![line(0, &[("a", 2)]), mode("vertical", 25, 1)]);
    let plan = cursor_plan(&ui).expect("a cursor");
    assert_eq!((plan.shape, plan.percent), (CursorShape::Vertical, 25));
    assert_eq!((plan.fill, plan.ink), (Rgb(0x11), Rgb(0xaa)));
    assert!(plan.text.is_empty());
    let thin = screen(2, 1, vec![mode("horizontal", 0, 0)]);
    assert_eq!(cursor_plan(&thin).expect("a cursor").percent, 100);
    let thick = screen(2, 1, vec![mode("horizontal", 200, 0)]);
    assert_eq!(cursor_plan(&thick).expect("a cursor").percent, 100);
}

#[test]
fn no_cursor_while_busy_or_outside_the_grid() {
    assert!(cursor_plan(&screen(2, 1, vec![event("busy_start", vec![])])).is_none());
    assert!(cursor_plan(&screen(2, 1, vec![goto(1, 0)])).is_none());
    assert!(cursor_plan(&screen(2, 1, vec![goto(0, 2)])).is_none());
    assert!(cursor_plan(&UiState::default()).is_none());
}

#[test]
fn composed_text_starts_at_the_cursor_inside_the_grid() {
    let preedit = |text: &str, target| Preedit { text: text.to_owned(), target };
    let ui = screen(3, 2, vec![goto(9, 9)]);
    let plan = preedit_plan(&ui, &preedit("𠀋あい", Some((4, 7)))).expect("a plan");
    assert_eq!((plan.row, plan.col), (1, 2));
    assert_eq!(plan.target, Some((2, 1)));
    assert_eq!((plan.ink, plan.under), (Rgb(0xaa), Rgb(0xbb)));
    assert_eq!(plan.text.len(), 4);
    assert!(preedit_plan(&ui, &preedit("", None)).is_none());
    assert!(preedit_plan(&UiState::default(), &preedit("x", None)).is_none());
    assert_eq!(preedit_plan(&ui, &preedit("x", Some((1, 1)))).expect("a plan").target, None);
}

#[test]
fn a_frame_has_all_its_parts() {
    let ui = screen(2, 1, vec![line(0, &[("a", 1)])]);
    let preedit = Preedit { text: "x".to_owned(), target: None };
    let whole = frame(&ui, Some(&preedit));
    assert_eq!(whole.clear, Rgb(0xbb));
    assert_eq!(whole.backgrounds, background_runs(&ui));
    assert_eq!(whole.texts, text_runs(&ui));
    assert_eq!(whole.cursor, cursor_plan(&ui));
    assert_eq!(whole.preedit, preedit_plan(&ui, &preedit));
    assert!(frame(&ui, None).preedit.is_none());
}

#[test]
fn text_becomes_units_and_comes_back() {
    for s in ["", "abc", "日本語", "a𠀋b\u{10ffff}", "\u{ffff}\u{d7ff}\u{e000}"] {
        assert_eq!(encode(s), s.encode_utf16().collect::<Vec<u16>>());
        assert_eq!(decode(&encode(s)), s);
        let mut written = wide_nul(s);
        written.extend([7, 8]);
        assert_eq!(decode_until_nul(&written), s);
    }
}

#[test]
fn broken_units_are_replaced() {
    let cases: [&[u16]; 7] = [
        &[0xd800],
        &[0xdc00],
        &[0xd800, 0x41],
        &[0xd800, 0xd800, 0xdc00],
        &[0xdc00, 0xd800],
        &[0x41, 0xdfff, 0x42],
        &[0xdbff, 0xdfff, 0xdbff],
    ];
    for units in cases {
        assert_eq!(decode(units), String::from_utf16_lossy(units));
    }
}

#[test]
fn ranges_are_counted_in_units() {
    assert_eq!(utf16_range("a𠀋b", 1, 5), Some((1, 2)));
    assert_eq!(utf16_range("a𠀋b", 5, 6), Some((3, 1)));
    assert_eq!(utf16_range("a𠀋b", 3, 3), None);
    assert_eq!(utf16_range("a𠀋b", 6, 9), None);
}

#[test]
fn a_kept_target_splits_the_text() {
    let mut ime = ImeState::default();
    ime.set_preedit("あい".to_owned(), Some((3, 3)));
    assert_eq!(ime.preedit().and_then(|p| p.target), Some((3, 3)));
    ime.set_preedit("あい".to_owned(), Some((6, 3)));
    assert_eq!(ime.preedit().and_then(|p| p.target), None);
    ime.begin();
    assert!(ime.preedit().is_none());
}

#[test]
fn a_committed_text_is_typed_as_it_is() {
    assert_eq!(committed("a<b"), "a<lt>b");
    assert_eq!(committed("<lt>"), "<lt>lt>");
    assert_eq!(committed("日本語"), "日本語");
    assert_eq!(committed("").len(), 0);
    for s in ["<<", "x<Esc>y", "<"] {
        assert_eq!(committed(s).replace("<lt>", "<"), s);
    }
}

#[test]
fn a_window_is_centred_on_its_monitor() {
    assert_eq!(offset(1920, 800), 560);
    assert_eq!(offset(5, 2), 1);
    assert_eq!(offset(800, 1920), 0);
    assert_eq!(offset(u32::MAX, 0), i32::MAX);
    assert_eq!(
        centered_position(Point { x: -1920, y: 10 }, (1920, 1080), (720, 2000)),
        Point { x: -1320, y: 10 }
    );
}

#[test]
fn a_window_lies_over_its_target_inside_the_work_area() {
    let work = Rect { left: -1920, top: 0, right: 0, bottom: 1040 };
    let over = |left, top, right, bottom, size| {
        place_over(Rect { left, top, right, bottom }, size, work)
    };
    assert_eq!(over(-1000, 200, -600, 600, (200, 100)), Point { x: -900, y: 350 });
    assert_eq!(over(-100, 900, 300, 1100, (400, 300)), Point { x: -400, y: 740 });
    assert_eq!(over(-2000, -50, -1900, 50, (400, 300)), Point { x: -1920, y: 0 });
    assert_eq!(over(-1000, 200, -600, 600, (5000, 3000)), Point { x: -1920, y: 0 });
    let far = Rect { left: i32::MAX - 10, top: i32::MIN, right: i32::MAX, bottom: i32::MIN + 4 };
    assert_eq!(place_over(far, (100, 100), work), Point { x: -100, y: 0 });
}

#[test]
fn keys_are_written_with_their_modifiers() {
    let none = Held { control: false, shift: false, alt: false, logo: false };
    assert_eq!(named("Esc", none), "<Esc>");
    assert_eq!(named("Left", Held { control: true, shift: true, ..none }), "<C-S-Left>");
    assert_eq!(named("F1", Held { alt: true, logo: true, ..none }), "<M-D-F1>");
    assert_eq!(typing("A", Held { shift: true, ..none }), "A");
    assert_eq!(typing("<", none), "<lt>");
    assert_eq!(typing("<", Held { control: true, shift: true, ..none }), "<C-lt>");
    assert_eq!(typing("r", Held { control: true, ..none }), "<C-r>");
    assert_eq!(typing("か゛", Held { alt: true, ..none }), "か゛");
}
