//! The screen of nvim, event by event.

use anvi_core::ui::redraw::{apply, fits};
use anvi_core::ui::{
    Cell, CellText, CursorPos, CursorShape, Grid, Highlights, HlAttr, ModeInfo, ModeState,
    RedrawError, RedrawOutcome, Rgb, UiState, Underline, MAX_CELL_BYTES,
};
use anvi_core::value::Value;

fn u(n: u64) -> Value {
    Value::from_u64(n)
}

fn i(n: i64) -> Value {
    Value::from_i64(n)
}

fn text(s: &str) -> Value {
    Value::from_str(s)
}

fn event(name: &str, calls: Vec<Vec<Value>>) -> Value {
    let mut parts = vec![text(name)];
    parts.extend(calls.into_iter().map(Value::Array));
    Value::Array(parts)
}

fn cell(glyph: &str, hl_id: Option<u32>, repeat: Option<u64>) -> Value {
    let mut parts = vec![text(glyph)];
    if let Some(hl_id) = hl_id {
        parts.push(u(u64::from(hl_id)));
    }
    if let Some(repeat) = repeat {
        parts.push(u(repeat));
    }
    Value::Array(parts)
}

fn line(row: u64, col: u64, cells: Vec<Value>) -> Value {
    event(
        "grid_line",
        vec![vec![
            u(1),
            u(row),
            u(col),
            Value::Array(cells),
            Value::Boolean(false),
        ]],
    )
}

fn sized(cols: u64, rows: u64) -> UiState {
    let mut state = UiState::default();
    apply(
        &mut state,
        &[event(
            "grid_resize",
            vec![vec![
                u(1),
                u(cols),
                u(rows),
            ]],
        )],
    )
    .expect("grid_resize");
    state
}

fn hl_ids(state: &UiState, row: usize) -> Vec<u32> {
    state.grid.row(row).iter().map(|c| c.hl_id).collect()
}

fn texts(state: &UiState, row: usize) -> Vec<&str> {
    state
        .grid
        .row(row)
        .iter()
        .map(|c| c.text.as_str())
        .collect()
}

fn paint(state: &mut UiState, row: u64, glyph: &str) {
    let cols = state.grid.cols() as u64;
    apply(
        state,
        &[line(row, 0, vec![cell(glyph, Some(0), Some(cols))])],
    )
    .expect("paint a row");
}

#[test]
fn grid_line_inherits_the_hl_id_of_the_previous_cell_in_the_same_call() {
    let mut state = sized(4, 1);
    apply(
        &mut state,
        &[line(
            0,
            0,
            vec![
                cell("a", Some(7), None),
                cell("b", None, None),
                cell("c", Some(9), None),
                cell("d", None, None),
            ],
        )],
    )
    .expect("apply");
    assert_eq!(hl_ids(&state, 0), vec![7, 7, 9, 9]);
}

#[test]
fn grid_line_does_not_inherit_the_hl_id_across_calls() {
    let mut state = sized(4, 1);
    apply(&mut state, &[line(0, 0, vec![cell("a", Some(9), None)])]).expect("apply");
    let err = apply(&mut state, &[line(0, 1, vec![cell("b", None, None)])])
        .expect_err("a call whose first cell has no hl_id is a protocol violation");
    assert!(
        err.message().contains("first cell"),
        "unexpected error: {err:?}"
    );
}

#[test]
fn grid_line_keeps_the_empty_continuation_cell_of_a_wide_char() {
    let mut state = sized(4, 1);
    apply(
        &mut state,
        &[line(
            0,
            0,
            vec![
                cell("あ", Some(0), None),
                cell("", None, None),
                cell("い", None, None),
                cell("", None, None),
            ],
        )],
    )
    .expect("apply");
    assert_eq!(texts(&state, 0), vec!["あ", "", "い", ""]);
    assert_eq!(state.grid.row_text(0), "あい");
}

#[test]
fn grid_line_rejects_a_run_that_overflows_the_row() {
    let mut state = sized(3, 1);
    let err = apply(&mut state, &[line(0, 1, vec![cell("x", Some(0), Some(3))])])
        .expect_err("a run past the last column must not be silently clipped");
    assert!(err.message().contains("column 3"), "unexpected: {err:?}");
}

#[test]
fn grid_scroll_moves_rows_up_within_the_column_range() {
    let mut state = sized(3, 5);
    for (row, glyph) in ["0", "1", "2", "3", "4"].iter().enumerate() {
        paint(&mut state, row as u64, glyph);
    }
    apply(
        &mut state,
        &[event(
            "grid_scroll",
            vec![vec![
                u(1),
                u(0),
                u(5),
                u(1),
                u(3),
                i(2),
                i(0),
            ]],
        )],
    )
    .expect("apply");

    assert_eq!(texts(&state, 0), vec!["0", "2", "2"]);
    assert_eq!(texts(&state, 1), vec!["1", "3", "3"]);
    assert_eq!(texts(&state, 2), vec!["2", "4", "4"]);
    assert_eq!(texts(&state, 3), vec!["3", "3", "3"]);
    assert_eq!(texts(&state, 4), vec!["4", "4", "4"]);
}

#[test]
fn grid_scroll_moves_rows_down_without_smearing() {
    let mut state = sized(2, 5);
    for (row, glyph) in ["0", "1", "2", "3", "4"].iter().enumerate() {
        paint(&mut state, row as u64, glyph);
    }
    apply(
        &mut state,
        &[event(
            "grid_scroll",
            vec![vec![
                u(1),
                u(0),
                u(5),
                u(0),
                u(2),
                i(-2),
                i(0),
            ]],
        )],
    )
    .expect("apply");

    let rows: Vec<String> = (0..5).map(|r| state.grid.row_text(r)).collect();
    assert_eq!(rows, vec!["00", "11", "00", "11", "22"]);
}

#[test]
fn grid_scroll_rejects_horizontal_scrolling() {
    let mut state = sized(2, 2);
    let err = apply(
        &mut state,
        &[event(
            "grid_scroll",
            vec![vec![
                u(1),
                u(0),
                u(2),
                u(0),
                u(2),
                i(0),
                i(1),
            ]],
        )],
    )
    .expect_err("cols is always zero in the protocol");
    assert!(
        err.message().contains("horizontal"),
        "unexpected: {err:?}"
    );
}

#[test]
fn hl_attr_define_resolves_reverse_against_the_defaults() {
    let mut state = UiState::default();
    let attrs = vec![
        (text("foreground"), u(0x00_11_22)),
        (text("reverse"), Value::Boolean(true)),
        (text("undercurl"), Value::Boolean(true)),
    ];
    apply(
        &mut state,
        &[
            event(
                "default_colors_set",
                vec![vec![
                    u(0xff_ff_ff),
                    u(0x00_00_00),
                    u(0xff_00_00),
                    u(0),
                    u(0),
                ]],
            ),
            event(
                "hl_attr_define",
                vec![vec![
                    u(3),
                    Value::Dict(attrs),
                    Value::Dict(vec![]),
                    Value::Array(vec![]),
                ]],
            ),
        ],
    )
    .expect("apply");

    let style = state.hl.style(3);
    assert_eq!(style.fg, Rgb(0x00_00_00));
    assert_eq!(style.bg, Rgb(0x00_11_22));
    assert_eq!(style.sp, Rgb(0xff_00_00));
    assert_eq!(style.underline, Underline::Undercurl);

    let plain = state.hl.style(99);
    assert_eq!(plain.fg, Rgb(0xff_ff_ff));
    assert_eq!(plain.bg, Rgb(0x00_00_00));
}

#[test]
fn mode_change_drives_accepts_text_input() {
    let mut state = UiState::default();
    let outcome = apply(
        &mut state,
        &[event(
            "mode_change",
            vec![vec![text("insert"), u(0)]],
        )],
    )
    .expect("apply");
    assert!(outcome.mode_changed);
    assert!(state.mode.accepts_text_input());

    apply(
        &mut state,
        &[event(
            "mode_change",
            vec![vec![text("normal"), u(1)]],
        )],
    )
    .expect("apply");
    assert!(!state.mode.accepts_text_input());

    apply(
        &mut state,
        &[event(
            "mode_change",
            vec![vec![text("cmdline_normal"), u(2)]],
        )],
    )
    .expect("apply");
    assert!(state.mode.accepts_text_input());
}

#[test]
fn mode_info_set_reads_the_shape_and_rejects_unknown_ones() {
    let mut state = UiState::default();
    let info = vec![
        (text("name"), text("insert")),
        (text("cursor_shape"), text("vertical")),
        (text("cell_percentage"), u(25)),
        (text("attr_id"), u(4)),
        (text("blinkon"), u(500)),
    ];
    apply(
        &mut state,
        &[event(
            "mode_info_set",
            vec![vec![
                Value::Boolean(true),
                Value::Array(vec![Value::Dict(info)]),
            ]],
        )],
    )
    .expect("apply");
    assert!(state.mode.cursor_style_enabled());
    let current = state.mode.info().expect("mode 0");
    assert_eq!(current.name, "insert");
    assert_eq!(current.shape, CursorShape::Vertical);
    assert_eq!(current.cell_percentage, 25);
    assert_eq!(current.attr_id, 4);

    let bogus = vec![(text("cursor_shape"), text("diamond"))];
    apply(
        &mut state,
        &[event(
            "mode_info_set",
            vec![vec![
                Value::Boolean(true),
                Value::Array(vec![Value::Dict(bogus)]),
            ]],
        )],
    )
    .expect_err("an unknown cursor_shape is protocol drift");
}

#[test]
fn option_set_guifont_lands_on_the_state_and_raises_the_flag() {
    let mut state = UiState::default();
    let outcome = apply(
        &mut state,
        &[event(
            "option_set",
            vec![
                vec![text("guifont"), text("UDEV Gothic:h12")],
                vec![text("linespace"), u(0)],
            ],
        )],
    )
    .expect("apply");
    assert!(outcome.font_changed);
    assert_eq!(state.guifont.as_deref(), Some("UDEV Gothic:h12"));

    apply(
        &mut state,
        &[event(
            "option_set",
            vec![vec![text("guifont"), text("")]],
        )],
    )
    .expect("apply");
    assert_eq!(state.guifont, None);
}

#[test]
fn flush_resize_title_and_busy_are_reported() {
    let mut state = UiState::default();
    let outcome = apply(
        &mut state,
        &[
            event(
                "grid_resize",
                vec![vec![
                    u(1),
                    u(8),
                    u(2),
                ]],
            ),
            event("busy_start", vec![vec![]]),
            event("set_title", vec![vec![text("scratch")]]),
            event("flush", vec![vec![]]),
        ],
    )
    .expect("apply");
    assert_eq!(
        outcome,
        RedrawOutcome {
            flushed: true,
            resized: true,
            title_changed: true,
            ..RedrawOutcome::default()
        }
    );
    assert_eq!((state.grid.cols(), state.grid.rows()), (8, 2));
    assert_eq!(state.title, "scratch");
    assert!(state.busy);

    apply(&mut state, &[event("busy_stop", vec![vec![]])]).expect("apply");
    assert!(!state.busy);
}

#[test]
fn unknown_events_are_ignored_but_broken_known_ones_are_not() {
    let mut state = sized(2, 1);
    apply(
        &mut state,
        &[event(
            "win_viewport",
            vec![vec![u(1), u(1000)]],
        )],
    )
    .expect("an unknown event must not break the stream");

    apply(
        &mut state,
        &[event(
            "grid_cursor_goto",
            vec![vec![u(1), text("nope")]],
        )],
    )
    .expect_err("a known event with a broken argument must fail loudly");
}

fn one(name: &str, args: Vec<Value>) -> Vec<Value> {
    vec![event(name, vec![args])]
}

fn refused(state: &mut UiState, batch: &[Value]) -> String {
    apply(state, batch).expect_err("the batch is broken").message()
}

#[test]
fn a_repeat_counts_the_first_cell_and_leaves_erased_cells_alone() {
    let mut state = sized(6, 1);
    apply(
        &mut state,
        &[line(0, 1, vec![cell("x", Some(1), Some(3)), cell("y", None, None)])],
    )
    .expect("apply");
    assert_eq!(texts(&state, 0), vec![" ", "x", "x", "x", "y", " "]);
    assert_eq!(hl_ids(&state, 0), vec![0, 1, 1, 1, 1, 0]);
}

#[test]
fn other_grids_change_nothing() {
    let mut state = sized(4, 1);
    let batch = vec![
        event("grid_resize", vec![vec![u(2), u(99), u(9)]]),
        event(
            "grid_line",
            vec![vec![
                u(2),
                u(0),
                u(0),
                Value::Array(vec![cell("z", Some(1), None)]),
                Value::Boolean(false),
            ]],
        ),
        event("grid_clear", vec![vec![u(7)]]),
        event("grid_destroy", vec![vec![u(7)]]),
        event("grid_cursor_goto", vec![vec![u(7), u(3), u(3)]]),
        event("grid_scroll", vec![vec![u(7)]]),
    ];
    let outcome = apply(&mut state, &batch).expect("apply");
    assert_eq!(outcome, RedrawOutcome::default());
    assert_eq!((state.grid.cols(), state.grid.rows()), (4, 1));
    assert_eq!(state.grid.row_text(0), "    ");
    assert_eq!(state.cursor, CursorPos { row: 0, col: 0 });
}

#[test]
fn erased_cells_are_spaces_and_not_empty() {
    let mut state = sized(2, 2);
    paint(&mut state, 1, "x");
    apply(&mut state, &one("grid_clear", vec![u(1)])).expect("apply");
    for row in 0..2 {
        for cell in state.grid.row(row) {
            assert_eq!(cell.text.as_str(), " ");
            assert!(!cell.text.is_empty());
            assert_eq!(*cell, Cell::blank());
        }
    }
    assert_eq!(Cell::default(), Cell::blank());
}

#[test]
fn a_destroyed_grid_has_nothing_to_draw() {
    let mut state = sized(2, 2);
    apply(&mut state, &one("grid_destroy", vec![u(1)])).expect("apply");
    assert_eq!(state.grid, Grid::default());
    assert_eq!(state.grid.row(0).len(), 0);
    assert_eq!(state.grid.row_text(0), "");
}

#[test]
fn an_event_without_calls_fires_once() {
    let mut state = UiState::default();
    let outcome = apply(&mut state, &[event("flush", vec![])]).expect("apply");
    assert!(outcome.flushed);
    assert_eq!(
        refused(&mut state, &[event("grid_clear", vec![])]),
        "grid_clear: argument 0 is missing (the event carries 0)"
    );
}

#[test]
fn what_came_before_a_broken_event_stays() {
    let mut state = sized(2, 1);
    let batch = vec![
        event("set_title", vec![vec![text("kept")]]),
        line(0, 0, vec![cell("a", Some(1), None), cell("b", None, None), cell("c", None, None)]),
        event("set_title", vec![vec![text("never")]]),
    ];
    assert_eq!(
        refused(&mut state, &batch),
        "grid_line: column 2 is outside the 2 columns"
    );
    assert_eq!(state.title, "kept");
    assert_eq!(state.grid.row_text(0), "ab");
}

#[test]
fn two_batches_do_what_one_does() {
    let first = vec![
        event("grid_resize", vec![vec![u(1), u(3), u(1)]]),
        event("set_title", vec![vec![text("t")]]),
    ];
    let second = vec![line(0, 0, vec![cell("x", Some(2), Some(2))]), event("flush", vec![vec![]])];
    let mut apart = UiState::default();
    let a = apply(&mut apart, &first).expect("first");
    let b = apply(&mut apart, &second).expect("second");
    let mut together = UiState::default();
    let mut all = first;
    all.extend(second);
    let both = apply(&mut together, &all).expect("both");
    assert_eq!(apart, together);
    assert_eq!(
        both,
        RedrawOutcome {
            flushed: a.flushed || b.flushed,
            resized: a.resized || b.resized,
            mode_changed: a.mode_changed || b.mode_changed,
            font_changed: a.font_changed || b.font_changed,
            title_changed: a.title_changed || b.title_changed,
        }
    );
    assert!(both.flushed && both.resized && both.title_changed);
}

fn scroll(state: &mut UiState, top: u64, bot: u64, left: u64, right: u64, rows: i64) {
    let args = vec![u(1), u(top), u(bot), u(left), u(right), i(rows), i(0)];
    apply(state, &one("grid_scroll", args)).expect("grid_scroll");
}

#[test]
fn scrolling_back_restores_the_lines_that_are_still_there() {
    let mut state = sized(2, 4);
    for (row, glyph) in ["0", "1", "2", "3"].iter().enumerate() {
        paint(&mut state, row as u64, glyph);
    }
    scroll(&mut state, 0, 4, 0, 2, 1);
    scroll(&mut state, 0, 4, 0, 2, -1);
    let rows: Vec<String> = (0..4).map(|r| state.grid.row_text(r)).collect();
    assert_eq!(rows, vec!["11", "11", "22", "33"]);
}

#[test]
fn scrolling_too_far_changes_nothing() {
    let mut state = sized(2, 3);
    for (row, glyph) in ["0", "1", "2"].iter().enumerate() {
        paint(&mut state, row as u64, glyph);
    }
    for rows in [0, 3, -3, i64::MAX, i64::MIN] {
        scroll(&mut state, 0, 3, 0, 2, rows);
        let rows: Vec<String> = (0..3).map(|r| state.grid.row_text(r)).collect();
        assert_eq!(rows, vec!["00", "11", "22"]);
    }
}

#[test]
fn broken_events_say_what_was_being_read() {
    let mut state = sized(3, 2);
    assert_eq!(
        refused(&mut state, &[Value::Array(vec![])]),
        "redraw event: the event array is empty"
    );
    assert_eq!(
        refused(&mut state, &[Value::Nil]),
        "redraw event: expected an array, got Nil"
    );
    assert_eq!(
        refused(&mut state, &[Value::Array(vec![Value::Boolean(true)])]),
        "redraw event name: expected a string, got Boolean(true)"
    );
    assert_eq!(
        refused(&mut state, &[Value::Array(vec![text("flush"), u(3)])]),
        "flush: expected an array, got Integer(PosInt(3))"
    );
    assert_eq!(
        refused(&mut state, &one("grid_cursor_goto", vec![u(1), i(-4), u(0)])),
        "grid_cursor_goto row: expected a non-negative integer, got Integer(NegInt(-4))"
    );
    assert_eq!(
        refused(&mut state, &one("hl_attr_define", vec![u(0x1_0000_0000), Value::Dict(vec![])])),
        "hl_attr_define id: 4294967296 does not fit in u32"
    );
    assert_eq!(
        refused(&mut state, &one("default_colors_set", vec![u(0x0100_0000), u(0), u(0)])),
        "default_colors_set rgb_fg: 16777216 is not a 24-bit color"
    );
    assert_eq!(
        refused(&mut state, &[line(2, 0, vec![])]),
        "grid_line: row 2 is outside the 2-row grid"
    );
    assert_eq!(
        refused(&mut state, &[line(0, 0, vec![Value::Array(vec![])])]),
        "grid_line: a cell must be [text(, hl_id, repeat)], got 0 items"
    );
    assert_eq!(
        refused(&mut state, &[line(0, 0, vec![cell("a", None, None)])]),
        "grid_line: the first cell carries no hl_id"
    );
    assert_eq!(
        refused(&mut state, &[line(0, 7, vec![cell("a", Some(0), None)])]),
        "grid_line: column 7 is outside the 3 columns"
    );
    let scroll = |args: [i64; 6]| {
        let mut all = vec![u(1)];
        all.extend(args.iter().map(|n| i(*n)));
        one("grid_scroll", all)
    };
    assert_eq!(
        refused(&mut state, &scroll([0, 2, 0, 3, 1, -2])),
        "grid_scroll: horizontal scrolling is not in the protocol (cols=-2)"
    );
    assert_eq!(
        refused(&mut state, &scroll([0, 3, 0, 3, 1, 0])),
        "grid_scroll: row range [0, 3) does not fit a 2-row grid"
    );
    assert_eq!(
        refused(&mut state, &scroll([0, 2, 2, 1, 1, 0])),
        "grid_scroll: column range [2, 1) does not fit 3 columns"
    );
    let blend = vec![(text("blend"), u(101))];
    assert_eq!(
        refused(&mut state, &one("hl_attr_define", vec![u(1), Value::Dict(blend)])),
        "hl_attr_define: blend must be 0..=100, got 101"
    );
    let wide = vec![(text("blend"), u(256))];
    assert_eq!(
        refused(&mut state, &one("hl_attr_define", vec![u(1), Value::Dict(wide)])),
        "blend: 256 does not fit in u8"
    );
    let shape = vec![(text("cursor_shape"), text("dia\"mond\n"))];
    assert_eq!(
        refused(
            &mut state,
            &one(
                "mode_info_set",
                vec![Value::Boolean(true), Value::Array(vec![Value::Dict(shape)])]
            )
        ),
        "mode_info_set: unknown cursor_shape \"dia\\\"mond\\n\""
    );
    assert_eq!(
        refused(&mut state, &one("set_title", vec![Value::Dict(vec![])])),
        "set_title title: expected a string, got Map([])"
    );
    assert_eq!(
        refused(&mut state, &one("hl_attr_define", vec![u(1), text("x\ty")])),
        "hl_attr_define rgb_attr: expected a map, got String(Utf8String { s: Ok(\"x\\ty\") })"
    );
    let args = vec![u(1), u(0), u(0), Value::Array(vec![]), Value::Nil];
    assert_eq!(
        refused(&mut state, &one("grid_line", args)),
        "grid_line wrap: expected a boolean, got Nil"
    );
    let args = vec![u(1), u(0), u(1), u(0), u(1), Value::Nil, u(0)];
    assert_eq!(
        refused(&mut state, &one("grid_scroll", args)),
        "grid_scroll rows: expected an integer, got Nil"
    );
    assert_eq!(state, sized(3, 2));
    assert_eq!(RedrawError::NoHighlight, RedrawError::NoHighlight);
}

fn defined(attrs: Vec<(Value, Value)>) -> HlAttr {
    let mut state = UiState::default();
    apply(&mut state, &one("hl_attr_define", vec![u(5), Value::Dict(attrs)])).expect("apply");
    *state.hl.attr(5).expect("defined")
}

#[test]
fn the_order_of_attributes_does_not_matter() {
    let attrs = || {
        vec![
            (text("underdotted"), Value::Boolean(true)),
            (text("foreground"), u(0x12_34_56)),
            (text("undercurl"), Value::Boolean(true)),
            (text("blend"), u(30)),
            (text("no_such_attribute"), Value::Nil),
            (text("bold"), Value::Boolean(true)),
        ]
    };
    let forward = defined(attrs());
    let mut reversed = attrs();
    reversed.reverse();
    assert_eq!(forward, defined(reversed));
    assert_eq!(forward.underline, Underline::Undercurl);
    assert_eq!(forward.fg, Some(Rgb(0x12_34_56)));
    assert_eq!(forward.blend, 30);
    assert!(forward.bold);
}

#[test]
fn calls_can_be_grouped_in_any_way() {
    let call = |id: u64| vec![u(id), Value::Dict(vec![(text("foreground"), u(id * 16))])];
    let mut together = UiState::default();
    let batch = [event("hl_attr_define", vec![call(1), call(2), call(3)])];
    apply(&mut together, &batch).expect("apply");
    let mut apart = UiState::default();
    let batch = [
        event("hl_attr_define", vec![call(1)]),
        event("hl_attr_define", vec![call(2), call(3)]),
    ];
    apply(&mut apart, &batch).expect("apply");
    assert_eq!(together, apart);
    assert_eq!(together.clone(), apart);
    assert_eq!(together.hl.attr(3).expect("defined").fg, Some(Rgb(48)));
}

#[test]
fn one_underline_is_drawn_where_several_are_set() {
    let kinds = ["underline", "undercurl", "underdouble", "underdotted", "underdashed"];
    let drawn = [
        Underline::Line,
        Underline::Undercurl,
        Underline::Double,
        Underline::Dotted,
        Underline::Dashed,
    ];
    for from in 0..kinds.len() {
        let attrs: Vec<(Value, Value)> =
            kinds[from..].iter().rev().map(|k| (text(k), Value::Boolean(true))).collect();
        assert_eq!(defined(attrs).underline, drawn[from]);
    }
    assert_eq!(defined(vec![]).underline, Underline::Off);
}

#[test]
fn highlights_read_back_and_unknown_ones_are_the_default() {
    let mut hl = Highlights::default();
    hl.set_defaults(Rgb(1), Rgb(2), Rgb(3));
    let attr = HlAttr { fg: Some(Rgb(9)), reverse: true, ..HlAttr::default() };
    hl.define(7, attr);
    assert_eq!(hl.attr(7), Some(&attr));
    assert_eq!(hl.attr(6), None);
    assert_eq!(hl.attr(8), None);
    let style = hl.style(7);
    assert_eq!((style.fg, style.bg, style.sp), (Rgb(2), Rgb(9), Rgb(3)));
    let plain = hl.style(1000);
    assert_eq!((plain.fg, plain.bg, plain.sp), (Rgb(1), Rgb(2), Rgb(3)));
    assert_eq!((hl.default_fg(), hl.default_bg(), hl.default_sp()), (Rgb(1), Rgb(2), Rgb(3)));
    assert_eq!(Rgb(0x12_34_56).channels(), (0x12, 0x34, 0x56));
}

#[test]
fn a_new_table_of_modes_has_the_current_one() {
    let mode = |name: &str| ModeInfo { name: name.to_owned(), ..ModeInfo::default() };
    let mut modes = ModeState::default();
    assert_eq!(modes.info(), None);
    modes.set_current("insert".to_owned(), 5);
    modes.set_modes(vec![mode("a"), mode("b")], true);
    assert_eq!(modes.info().map(|m| m.name.as_str()), Some("a"));
    modes.set_current("b".to_owned(), 1);
    assert_eq!(modes.info().map(|m| m.name.as_str()), Some("b"));
    assert_eq!(modes.name(), "b");
    modes.set_current("c".to_owned(), 2);
    assert_eq!(modes.info(), None);
}

#[test]
fn only_some_modes_take_text() {
    let mut modes = ModeState::default();
    for (name, takes) in [
        ("insert", true),
        ("replace", true),
        ("cmdline_insert", true),
        ("terminal", true),
        ("select", true),
        ("normal", false),
        ("visual_select", false),
        ("inserted", false),
        ("", false),
        ("_insert", false),
    ] {
        modes.set_current(name.to_owned(), 0);
        assert_eq!(modes.accepts_text_input(), takes, "{name}");
    }
}

#[test]
fn a_cell_cuts_its_text_at_a_character_boundary() {
    assert_eq!(MAX_CELL_BYTES, 16);
    assert_eq!(CellText::new("abcdefghijklmnop").as_str(), "abcdefghijklmnop");
    assert_eq!(CellText::new("abcdefghijklmnopq").as_str(), "abcdefghijklmnop");
    assert_eq!(CellText::new("あいうえおか").as_str(), "あいうえお");
    assert_eq!(CellText::new("か\u{3099}").as_str(), "か\u{3099}");
    assert!(CellText::new("").is_empty());
    assert_eq!(CellText::space().as_str(), " ");
}

#[test]
fn a_cell_takes_no_more_memory_than_the_grid_counts_for_it() {
    assert!(std::mem::size_of::<Cell>() <= anvi_core::ui::grid::CELL_SIZE);
}

#[test]
fn rows_outside_the_grid_have_no_cells() {
    let mut grid = Grid::new(2, 2);
    assert_eq!(grid.row(2).len(), 0);
    assert_eq!(grid.row_mut(9).len(), 0);
    grid.row_mut(1)[0] = Cell { text: CellText::new("q"), hl_id: 4 };
    assert_eq!(grid.row_text(1), "q ");
    assert_eq!(grid.row_text(0), "  ");
    grid.copy_row_range(1, 0, 0, 99);
    assert_eq!(grid.row_text(0), "q ");
    grid.copy_row_range(1, 5, 0, 2);
    grid.copy_row_range(0, 1, 2, 1);
    assert_eq!(grid.row_text(1), "q ");
    grid.clear();
    assert_eq!(grid, Grid::new(2, 2));
}

#[test]
fn a_grid_that_no_memory_holds_is_seen_before_it_is_applied() {
    let resize = |cols: u64, rows: u64| one("grid_resize", vec![u(1), u(cols), u(rows)]);
    assert!(fits(&resize(500, 300)));
    assert!(!fits(&resize(u64::MAX / 2, 2)));
    assert!(!fits(&resize(u64::MAX, u64::MAX)));
    assert!(fits(&one("grid_resize", vec![u(2), u(u64::MAX), u(u64::MAX)])));
    assert!(fits(&[event("flush", vec![]), Value::Nil]));
}
