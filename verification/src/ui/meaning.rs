//! What each redraw event does to the screen, in terms of what nvim sent.

use vstd::prelude::*;

use crate::ui::cell;
use crate::ui::cell::CellView;
use crate::ui::fault::{Expected, Fault};
use crate::ui::grid::GridView;
use crate::ui::highlight::{HighlightsView, Rgb};
use crate::ui::mode::{CursorShape, ModeInfoView};
use crate::ui::protocol;
use crate::ui::protocol::{Command, End, Step};
use crate::ui::state::{RedrawOutcome, UiView};
use crate::value;
use crate::value::Value;

verus! {

/// The names of the events differ, so each is decoded in its own way.
proof fn lemma_decoders(args: Seq<Value>)
    ensures
        protocol::decode("grid_resize"@, args) == protocol::decode_resize(args),
        protocol::decode("grid_clear"@, args) == protocol::decode_plain(
            args,
            "grid_clear"@,
            Command::Clear,
        ),
        protocol::decode("grid_destroy"@, args) == protocol::decode_plain(
            args,
            "grid_destroy"@,
            Command::Destroy,
        ),
        protocol::decode("grid_cursor_goto"@, args) == protocol::decode_goto(args),
        protocol::decode("grid_line"@, args) == protocol::decode_line(args),
        protocol::decode("grid_scroll"@, args) == protocol::decode_scroll(args),
        protocol::decode("hl_attr_define"@, args) == protocol::decode_define(args),
        protocol::decode("default_colors_set"@, args) == protocol::decode_colours(args),
        protocol::decode("mode_info_set"@, args) == protocol::decode_modes(args),
        protocol::decode("mode_change"@, args) == protocol::decode_mode_change(args),
        protocol::decode("option_set"@, args) == protocol::decode_option(args),
        protocol::decode("set_title"@, args) == protocol::decode_title(args),
        protocol::decode("busy_start"@, args) == Ok::<Command, Fault>(Command::Busy { busy: true }),
        protocol::decode("busy_stop"@, args) == Ok::<Command, Fault>(Command::Busy { busy: false }),
        protocol::decode("flush"@, args) == Ok::<Command, Fault>(Command::Flush),
{
    reveal_strlit("grid_resize");
    reveal_strlit("grid_clear");
    reveal_strlit("grid_destroy");
    reveal_strlit("grid_cursor_goto");
    reveal_strlit("grid_line");
    reveal_strlit("grid_scroll");
    reveal_strlit("hl_attr_define");
    reveal_strlit("default_colors_set");
    reveal_strlit("mode_info_set");
    reveal_strlit("mode_change");
    reveal_strlit("option_set");
    reveal_strlit("set_title");
    reveal_strlit("busy_start");
    reveal_strlit("busy_stop");
    reveal_strlit("flush");
    assert("grid_resize"@.len() == 11 && "grid_scroll"@.len() == 11 && "mode_change"@.len() == 11);
    assert("grid_clear"@.len() == 10 && "option_set"@.len() == 10 && "busy_start"@.len() == 10);
    assert("grid_line"@.len() == 9 && "set_title"@.len() == 9 && "busy_stop"@.len() == 9);
    assert("grid_destroy"@.len() == 12 && "grid_cursor_goto"@.len() == 16);
    assert("hl_attr_define"@.len() == 14 && "default_colors_set"@.len() == 18);
    assert("mode_info_set"@.len() == 13 && "flush"@.len() == 5);
    assert("grid_resize"@[5] == 'r' && "grid_scroll"@[5] == 's' && "mode_change"@[5] == 'c');
    assert("grid_clear"@[0] == 'g' && "option_set"@[0] == 'o' && "busy_start"@[0] == 'b');
    assert("grid_line"@[0] == 'g' && "set_title"@[0] == 's' && "busy_stop"@[0] == 'b');
}

/// Whether the argument at `i` is a number from `low` to `high`.
pub open spec fn number_at(args: Seq<Value>, i: int, low: int, high: int) -> bool {
    &&& i < args.len()
    &&& args[i].number() matches Some(n) && low <= n <= high
}

/// Whether the argument at `i` is an index.
pub open spec fn index_at(args: Seq<Value>, i: int) -> bool {
    number_at(args, i, 0, u64::MAX as int) && number_at(args, i, 0, usize::MAX as int)
}

/// The number at `i`.
pub open spec fn at(args: Seq<Value>, i: int) -> int {
    args[i].number()->0
}

/// Whether the call is for the one grid there is, which has the number 1.
pub open spec fn ours(args: Seq<Value>) -> bool {
    args.len() > 0 && args[0].number() == Some(1int)
}

/// The call went well, and this is the state after it.
pub open spec fn fine(ui: UiView, out: RedrawOutcome) -> Step {
    Step { ui, out, end: End::Fine }
}

/// The call was refused and changed nothing.
pub open spec fn refused(step: Step, ui: UiView, out: RedrawOutcome) -> bool {
    step.ui == ui && step.out == out && step.end is Broken
}

/// Whether `g` has this size and only erased cells: one space each, in the highlight 0.
pub open spec fn erased(g: GridView, cols: int, rows: int) -> bool {
    &&& g.cols == cols
    &&& g.lines.len() == rows
    &&& forall|r: int|
        #![trigger g.lines[r]]
        0 <= r < rows ==> {
            &&& g.lines[r].len() == cols
            &&& forall|c: int|
                0 <= c < cols ==> #[trigger] g.lines[r][c] == (CellView {
                    text: seq![' '],
                    hl_id: 0,
                })
        }
}

/// `grid_resize` gives the grid the size that it names, with every cell erased, and reports it; it
/// touches nothing else. Without a width and a height it is refused.
pub proof fn law_grid_resize(ui: UiView, out: RedrawOutcome, args: Seq<Value>)
    requires
        ours(args),
    ensures
        ({
            let step = protocol::run_one(ui, out, "grid_resize"@, args);
            if index_at(args, 1) && index_at(args, 2) {
                if at(args, 1) * at(args, 2) * 24 <= isize::MAX {
                    &&& step.end == End::Fine
                    &&& step.out == (RedrawOutcome { resized: true, ..out })
                    &&& step.ui == (UiView { grid: step.ui.grid, ..ui })
                    &&& erased(step.ui.grid, at(args, 1), at(args, 2))
                } else {
                    step.end == End::Oversized
                }
            } else {
                refused(step, ui, out)
            }
        }),
{
    lemma_decoders(args);
}

/// `grid_clear` erases every cell and touches nothing else.
pub proof fn law_grid_clear(ui: UiView, out: RedrawOutcome, args: Seq<Value>)
    requires
        ours(args),
    ensures
        ({
            let step = protocol::run_one(ui, out, "grid_clear"@, args);
            &&& step == fine(UiView { grid: step.ui.grid, ..ui }, out)
            &&& erased(step.ui.grid, ui.grid.cols as int, ui.grid.lines.len() as int)
        }),
{
    lemma_decoders(args);
}

/// `grid_destroy` leaves no grid to draw and touches nothing else.
pub proof fn law_grid_destroy(ui: UiView, out: RedrawOutcome, args: Seq<Value>)
    requires
        ours(args),
    ensures
        ({
            let step = protocol::run_one(ui, out, "grid_destroy"@, args);
            &&& step == fine(UiView { grid: step.ui.grid, ..ui }, out)
            &&& step.ui.grid.cols == 0
            &&& step.ui.grid.lines.len() == 0
        }),
{
    lemma_decoders(args);
}

/// `grid_cursor_goto` puts the cursor where it says: first the row, then the column.
pub proof fn law_grid_cursor_goto(ui: UiView, out: RedrawOutcome, args: Seq<Value>)
    requires
        ours(args),
    ensures
        ({
            let step = protocol::run_one(ui, out, "grid_cursor_goto"@, args);
            if index_at(args, 1) && index_at(args, 2) {
                &&& step == fine(UiView { cursor: step.ui.cursor, ..ui }, out)
                &&& step.ui.cursor.row == at(args, 1)
                &&& step.ui.cursor.col == at(args, 2)
            } else {
                refused(step, ui, out)
            }
        }),
{
    lemma_decoders(args);
}

/// An event about a grid that does not name the grid by a number is refused.
pub proof fn law_grid_is_needed(
    ui: UiView,
    out: RedrawOutcome,
    name: Seq<char>,
    args: Seq<Value>,
)
    requires
        name == "grid_resize"@ || name == "grid_clear"@ || name == "grid_destroy"@ || name
            == "grid_cursor_goto"@ || name == "grid_line"@ || name == "grid_scroll"@,
        !number_at(args, 0, 0, u64::MAX as int),
    ensures
        refused(protocol::run_one(ui, out, name, args), ui, out),
{
    lemma_decoders(args);
}

/// `default_colors_set` sets the three default colours, in the order foreground, background,
/// special, and touches nothing else. Each has to be a number of 24 bits.
pub proof fn law_default_colors_set(ui: UiView, out: RedrawOutcome, args: Seq<Value>)
    ensures
        ({
            let step = protocol::run_one(ui, out, "default_colors_set"@, args);
            if number_at(args, 0, 0, 0xff_ffff) && number_at(args, 1, 0, 0xff_ffff) && number_at(
                args,
                2,
                0,
                0xff_ffff,
            ) {
                &&& step == fine(UiView { hl: step.ui.hl, ..ui }, out)
                &&& step.ui.hl.fg.0 == at(args, 0)
                &&& step.ui.hl.bg.0 == at(args, 1)
                &&& step.ui.hl.sp.0 == at(args, 2)
                &&& step.ui.hl.attrs == ui.hl.attrs
            } else {
                refused(step, ui, out)
            }
        }),
{
    lemma_decoders(args);
}

/// `mode_change` makes the mode at its index of the table the current one, under its name, and
/// reports it.
pub proof fn law_mode_change(ui: UiView, out: RedrawOutcome, args: Seq<Value>)
    ensures
        ({
            let step = protocol::run_one(ui, out, "mode_change"@, args);
            if args.len() > 0 && args[0].text() is Some && index_at(args, 1) {
                let n = at(args, 1);
                let mode = step.ui.mode;
                &&& step == fine(
                    UiView { mode, ..ui },
                    RedrawOutcome { mode_changed: true, ..out },
                )
                &&& mode.name == args[0].text()->0
                &&& mode.modes == ui.mode.modes
                &&& mode.cursor_style_enabled == ui.mode.cursor_style_enabled
                &&& mode.current == n
                &&& n < ui.mode.modes.len() ==> mode.info() == Some(ui.mode.modes[n])
                &&& n >= ui.mode.modes.len() ==> mode.info() is None
            } else {
                refused(step, ui, out)
            }
        }),
{
    lemma_decoders(args);
}

/// `option_set` takes over the font, where an empty text means none, and reports it. Other options
/// change nothing.
pub proof fn law_option_set(ui: UiView, out: RedrawOutcome, args: Seq<Value>)
    ensures
        ({
            let step = protocol::run_one(ui, out, "option_set"@, args);
            if args.len() > 1 && args[0].text() is Some {
                if args[0].text()->0 != "guifont"@ {
                    step == fine(ui, out)
                } else if args[1].text() is Some {
                    let spec = args[1].text()->0;
                    &&& step == fine(
                        UiView { guifont: step.ui.guifont, ..ui },
                        RedrawOutcome { font_changed: true, ..out },
                    )
                    &&& spec.len() > 0 ==> step.ui.guifont == Some(spec)
                    &&& spec.len() == 0 ==> step.ui.guifont is None
                } else {
                    refused(step, ui, out)
                }
            } else {
                refused(step, ui, out)
            }
        }),
{
    lemma_decoders(args);
}

/// `set_title` takes over the title and reports it.
pub proof fn law_set_title(ui: UiView, out: RedrawOutcome, args: Seq<Value>)
    ensures
        ({
            let step = protocol::run_one(ui, out, "set_title"@, args);
            if args.len() > 0 && args[0].text() is Some {
                step == fine(
                    UiView { title: args[0].text()->0, ..ui },
                    RedrawOutcome { title_changed: true, ..out },
                )
            } else {
                refused(step, ui, out)
            }
        }),
{
    lemma_decoders(args);
}

/// nvim is busy from `busy_start` on until `busy_stop`; `flush` reports that the frame is complete.
/// None of them needs arguments.
pub proof fn law_busy_and_flush(ui: UiView, out: RedrawOutcome, args: Seq<Value>)
    ensures
        protocol::run_one(ui, out, "busy_start"@, args) == fine(UiView { busy: true, ..ui }, out),
        protocol::run_one(ui, out, "busy_stop"@, args) == fine(UiView { busy: false, ..ui }, out),
        protocol::run_one(ui, out, "flush"@, args) == fine(
            ui,
            RedrawOutcome { flushed: true, ..out },
        ),
{
    lemma_decoders(args);
}

// ---- grid_scroll ----
/// `grid_scroll` moves the cells of its part by its rows, from below where the number is positive,
/// and touches nothing else. A part that does not fit the grid is refused, and so is sideways
/// scrolling.
pub proof fn law_grid_scroll(ui: UiView, out: RedrawOutcome, args: Seq<Value>, r: int, c: int)
    requires
        ours(args),
        ui.grid.rectangular(),
        0 <= r < ui.grid.lines.len(),
        0 <= c < ui.grid.cols,
    ensures
        ({
            let step = protocol::run_one(ui, out, "grid_scroll"@, args);
            let (top, bot) = (at(args, 1), at(args, 2));
            let (left, right) = (at(args, 3), at(args, 4));
            let by = at(args, 5);
            if index_at(args, 1) && index_at(args, 2) && index_at(args, 3) && index_at(args, 4)
                && number_at(args, 5, i64::MIN as int, i64::MAX as int) && args.len() > 6
                && args[6].number() == Some(0int) && top <= bot <= ui.grid.lines.len() && left
                <= right <= ui.grid.cols && -usize::MAX <= by <= usize::MAX {
                let from = if top <= r < bot && left <= c < right && top <= r + by < bot {
                    r + by
                } else {
                    r
                };
                &&& step == fine(UiView { grid: step.ui.grid, ..ui }, out)
                &&& step.ui.grid.cols == ui.grid.cols
                &&& step.ui.grid.lines.len() == ui.grid.lines.len()
                &&& step.ui.grid.lines[r].len() == ui.grid.cols
                &&& step.ui.grid.lines[r][c] == ui.grid.lines[from][c]
            } else {
                refused(step, ui, out)
            }
        }),
{
    lemma_decoders(args);
}

// ---- grid_line ----
/// Whether `args` are the arguments of a `grid_line` with these items.
pub open spec fn line_args(args: Seq<Value>, row: int, col: int, items: Seq<Value>) -> bool {
    &&& ours(args)
    &&& args.len() >= 5
    &&& args[1].number() == Some(row)
    &&& args[2].number() == Some(col)
    &&& 0 <= row <= usize::MAX
    &&& 0 <= col <= usize::MAX
    &&& row <= u64::MAX
    &&& col <= u64::MAX
    &&& args[3].items() == Some(items)
    &&& args[4].truth() is Some
}

/// Whether an item says by itself what it paints: a text, a highlight, and how often, which is once
/// where it does not say.
pub open spec fn full_item(item: Value, text: Seq<char>, hl_id: u32, repeat: int) -> bool {
    &&& item.items() matches Some(parts) && {
        &&& 2 <= parts.len() <= 3
        &&& parts[0].text() == Some(text)
        &&& parts[1].number() == Some(hl_id as int)
        &&& parts.len() == 2 ==> repeat == 1
        &&& parts.len() == 3 ==> parts[2].number() == Some(repeat)
    }
    &&& 0 <= repeat <= usize::MAX
    &&& repeat <= u64::MAX
}

/// A `grid_line` that was decoded.
proof fn lemma_line_decoded(
    ui: UiView,
    out: RedrawOutcome,
    args: Seq<Value>,
    row: int,
    col: int,
    items: Seq<Value>,
)
    requires
        line_args(args, row, col, items),
    ensures
        protocol::run_one(ui, out, "grid_line"@, args) == protocol::perform_line(
            ui,
            out,
            row,
            col,
            items,
        ),
{
    lemma_decoders(args);
}

/// A `grid_line` with one item paints that item: its text in its highlight, in as many columns as it
/// says, from the column that the call names on. No other cell changes, in this row or another. Where
/// the columns do not suffice the part that fits is painted and the call is refused.
pub proof fn law_grid_line_paints_an_item(
    ui: UiView,
    out: RedrawOutcome,
    args: Seq<Value>,
    row: int,
    col: int,
    item: Value,
    text: Seq<char>,
    hl_id: u32,
    repeat: int,
    r: int,
    c: int,
)
    requires
        line_args(args, row, col, seq![item]),
        full_item(item, text, hl_id, repeat),
        ui.grid.rectangular(),
        0 <= r < ui.grid.lines.len(),
        0 <= c < ui.grid.cols,
        row < ui.grid.lines.len(),
    ensures
        ({
            let step = protocol::run_one(ui, out, "grid_line"@, args);
            let after = step.ui.grid;
            &&& step.ui == (UiView { grid: after, ..ui })
            &&& step.out == out
            &&& after.cols == ui.grid.cols
            &&& after.lines.len() == ui.grid.lines.len()
            &&& after.lines[r].len() == ui.grid.cols
            &&& r == row && col <= c < col + repeat ==> {
                &&& after.lines[r][c].text == cell::cell_text(text)
                &&& after.lines[r][c].hl_id == hl_id
            }
            &&& r != row || c < col || c >= col + repeat ==> after.lines[r][c]
                == ui.grid.lines[r][c]
            &&& step.end == End::Fine <==> repeat == 0 || col + repeat <= ui.grid.cols
            &&& step.end != End::Fine ==> step.end is Broken
        }),
{
    lemma_line_decoded(ui, out, args, row, col, seq![item]);
    let line = ui.grid.lines[row];
    assert(line.len() == ui.grid.cols);
    assert(seq![item].drop_first() =~= seq![]);
    reveal_with_fuel(protocol::paint, 2);
    let parts = item.items()->0;
    let run = protocol::decode_run(item, None)->Ok_0;
    assert(protocol::decode_run(item, None) is Ok);
    assert(run.repeat == repeat);
}

/// A `grid_line` outside of the grid is refused and paints nothing, and one without any item paints
/// nothing.
pub proof fn law_grid_line_needs_its_row(
    ui: UiView,
    out: RedrawOutcome,
    args: Seq<Value>,
    row: int,
    col: int,
    items: Seq<Value>,
)
    requires
        line_args(args, row, col, items),
    ensures
        row >= ui.grid.lines.len() ==> refused(
            protocol::run_one(ui, out, "grid_line"@, args),
            ui,
            out,
        ),
        row < ui.grid.lines.len() && items.len() == 0 ==> protocol::run_one(
            ui,
            out,
            "grid_line"@,
            args,
        ) == fine(ui, out),
{
    lemma_line_decoded(ui, out, args, row, col, items);
    if row < ui.grid.lines.len() {
        assert(ui.grid.with_line(row, ui.grid.lines[row]).lines =~= ui.grid.lines);
    }
}

/// A `grid_line` for the grid whose arguments are not a row, a column, cells and a flag is refused.
pub proof fn law_grid_line_needs_its_arguments(ui: UiView, out: RedrawOutcome, args: Seq<Value>)
    requires
        ours(args),
        !(index_at(args, 1) && index_at(args, 2) && args.len() > 4 && args[3].items() is Some
            && args[4].truth() is Some),
    ensures
        refused(protocol::run_one(ui, out, "grid_line"@, args), ui, out),
{
    lemma_decoders(args);
}

/// The items of a `grid_line` follow one another: what the first leaves out of account is painted as
/// by a call of its own that starts where the first ended. The second item has to name its highlight.
pub proof fn law_grid_line_goes_on(
    ui: UiView,
    out: RedrawOutcome,
    whole: Seq<Value>,
    head: Seq<Value>,
    tail: Seq<Value>,
    row: int,
    col: int,
    item: Value,
    rest: Seq<Value>,
    text: Seq<char>,
    hl_id: u32,
    repeat: int,
    next: (Seq<char>, u32, int),
)
    requires
        line_args(whole, row, col, seq![item] + rest),
        line_args(head, row, col, seq![item]),
        line_args(tail, row, col + repeat, rest),
        full_item(item, text, hl_id, repeat),
        rest.len() > 0,
        full_item(rest[0], next.0, next.1, next.2),
        ui.grid.rectangular(),
    ensures
        protocol::run_one(ui, out, "grid_line"@, whole) == ({
            let mid = protocol::run_one(ui, out, "grid_line"@, head);
            if mid.end == End::Fine {
                protocol::run_one(mid.ui, mid.out, "grid_line"@, tail)
            } else {
                mid
            }
        }),
{
    let items = seq![item] + rest;
    lemma_line_decoded(ui, out, whole, row, col, items);
    lemma_line_decoded(ui, out, head, row, col, seq![item]);
    if row < ui.grid.lines.len() {
        assert(items.drop_first() =~= rest);
        assert(items[0] == item);
        assert(seq![item].drop_first() =~= seq![]);
        reveal_with_fuel(protocol::paint, 2);
        let run = protocol::decode_run(item, None)->Ok_0;
        assert(protocol::decode_run(item, None) is Ok && run.repeat == repeat);
        let line = ui.grid.lines[row];
        let mid = protocol::run_one(ui, out, "grid_line"@, head);
        if protocol::overflow_of(line, col, run) is None {
            lemma_line_decoded(mid.ui, mid.out, tail, row, col + repeat, rest);
            let painted = protocol::with_run(line, col, run);
            assert(mid.ui.grid.lines[row] == painted);
            assert(protocol::decode_run(rest[0], Some(hl_id)) == protocol::decode_run(
                rest[0],
                None,
            ));
            assert(protocol::paint(painted, col + repeat, Some(hl_id), rest) == protocol::paint(
                painted,
                col + repeat,
                None,
                rest,
            ));
            let done = protocol::paint(painted, col + repeat, None, rest);
            assert(ui.grid.lines.update(row, painted).update(row, done.line)
                =~= ui.grid.lines.update(row, done.line));
        }
    } else {
        assert(row >= ui.grid.rows());
    }
}

/// An item that names no highlight is painted in that of the item before it.
pub proof fn law_grid_line_inherits(
    ui: UiView,
    out: RedrawOutcome,
    short: Seq<Value>,
    long: Seq<Value>,
    row: int,
    col: int,
    item: Value,
    bare: Value,
    full: Value,
    rest: Seq<Value>,
    text: Seq<char>,
    hl_id: u32,
    repeat: int,
    next: Seq<char>,
)
    requires
        line_args(short, row, col, seq![item, bare] + rest),
        line_args(long, row, col, seq![item, full] + rest),
        full_item(item, text, hl_id, repeat),
        bare.items() matches Some(parts) && parts.len() == 1 && parts[0].text() == Some(next),
        full_item(full, next, hl_id, 1),
    ensures
        protocol::run_one(ui, out, "grid_line"@, short) == protocol::run_one(
            ui,
            out,
            "grid_line"@,
            long,
        ),
{
    let a = seq![item, bare] + rest;
    let b = seq![item, full] + rest;
    lemma_line_decoded(ui, out, short, row, col, a);
    lemma_line_decoded(ui, out, long, row, col, b);
    if row < ui.grid.lines.len() {
        assert(a.drop_first().drop_first() =~= rest && b.drop_first().drop_first() =~= rest);
        assert(a.drop_first()[0] == bare && b.drop_first()[0] == full);
        reveal_with_fuel(protocol::paint, 3);
        let run = protocol::decode_run(item, None)->Ok_0;
        assert(protocol::decode_run(item, None) is Ok && run.cell.hl_id == hl_id);
        assert(protocol::decode_run(bare, Some(hl_id)) == protocol::decode_run(full, Some(hl_id)));
    }
}

/// An item that is no list of one to three values, starting with a text, is refused.
pub proof fn law_grid_line_needs_readable_items(
    ui: UiView,
    out: RedrawOutcome,
    args: Seq<Value>,
    row: int,
    col: int,
    item: Value,
    rest: Seq<Value>,
)
    requires
        line_args(args, row, col, seq![item] + rest),
        !(item.items() matches Some(parts) && 1 <= parts.len() <= 3 && parts[0].text() is Some),
    ensures
        refused(protocol::run_one(ui, out, "grid_line"@, args), ui, out),
{
    lemma_line_decoded(ui, out, args, row, col, seq![item] + rest);
    assert((seq![item] + rest)[0] == item);
    if row < ui.grid.lines.len() {
        assert(ui.grid.with_line(row, ui.grid.lines[row]).lines =~= ui.grid.lines);
    }
}

// ---- maps ----
/// Whether the entry at `k` is the last of its name, and so the one that counts.
pub open spec fn counts(entries: Seq<(Value, Value)>, k: int, name: Seq<char>) -> bool {
    &&& 0 <= k < entries.len()
    &&& entries[k].0.text() == Some(name)
    &&& forall|j: int| k < j < entries.len() ==> (#[trigger] entries[j]).0.text() != Some(name)
}

/// Whether no entry has this name.
pub open spec fn absent(entries: Seq<(Value, Value)>, name: Seq<char>) -> bool {
    forall|j: int| 0 <= j < entries.len() ==> (#[trigger] entries[j]).0.text() != Some(name)
}

/// Whether the colour is what the entries say under this name.
pub open spec fn colour_given(
    entries: Seq<(Value, Value)>,
    name: Seq<char>,
    colour: Option<Rgb>,
) -> bool {
    &&& absent(entries, name) ==> colour is None
    &&& forall|k: int| #[trigger]
        counts(entries, k, name) ==> {
            colour matches Some(rgb) && entries[k].1.number() == Some(rgb.0 as int) && rgb.0
                <= 0xff_ffff
        }
}

/// Whether the flag is what the entries say under this name.
pub open spec fn flag_given(entries: Seq<(Value, Value)>, name: Seq<char>, flag: bool) -> bool {
    &&& absent(entries, name) ==> !flag
    &&& forall|k: int| #[trigger]
        counts(entries, k, name) ==> entries[k].1.truth() == Some(flag)
}

/// Whether the number is what the entries say under this name, and 0 where they say nothing.
pub open spec fn number_given(entries: Seq<(Value, Value)>, name: Seq<char>, n: int) -> bool {
    &&& absent(entries, name) ==> n == 0
    &&& forall|k: int| #[trigger] counts(entries, k, name) ==> entries[k].1.number() == Some(n)
}

/// One more entry counts for its own name, and for no other.
proof fn lemma_last_counts(entries: Seq<(Value, Value)>, name: Seq<char>)
    requires
        entries.len() > 0,
    ensures
        ({
            let n = entries.len() - 1;
            let before = entries.drop_last();
            let hit = entries.last().0.text() == Some(name);
            &&& hit ==> !absent(entries, name)
            &&& hit ==> forall|k: int| #[trigger] counts(entries, k, name) ==> k == n
            &&& !hit ==> absent(entries, name) == absent(before, name)
            &&& !hit ==> forall|k: int| #[trigger]
                counts(entries, k, name) ==> counts(before, k, name) && before[k] == entries[k]
        }),
{
    let n = entries.len() - 1;
    let before = entries.drop_last();
    if entries.last().0.text() == Some(name) {
        assert(entries[n].0.text() == Some(name));
        assert forall|k: int| #[trigger] counts(entries, k, name) implies k == n by {
            if k < n {
                assert(entries[n].0.text() != Some(name));
            }
        }
    } else {
        assert forall|k: int| #[trigger] counts(entries, k, name) implies counts(before, k, name)
            && before[k] == entries[k] by {
            assert forall|j: int| k < j < before.len() implies (#[trigger] before[j]).0.text()
                != Some(name) by {
                assert(before[j] == entries[j]);
            }
        }
        if absent(before, name) {
            assert forall|j: int| 0 <= j < entries.len() implies (#[trigger] entries[j]).0.text()
                != Some(name) by {
                if j < n {
                    assert(before[j] == entries[j]);
                }
            }
        }
        if absent(entries, name) {
            assert forall|j: int| 0 <= j < before.len() implies (#[trigger] before[j]).0.text()
                != Some(name) by {
                assert(before[j] == entries[j]);
            }
        }
    }
}

/// The names of the attributes differ.
proof fn lemma_attribute_names()
    ensures
        "foreground"@ != "background"@,
        "foreground"@.len() == 10,
        "background"@.len() == 10,
        "special"@.len() == 7,
        "reverse"@.len() == 7,
        "special"@ != "reverse"@,
        "bold"@.len() == 4,
        "italic"@.len() == 6,
        "strikethrough"@.len() == 13,
        "underline"@.len() == 9,
        "undercurl"@.len() == 9,
        "underline"@ != "undercurl"@,
        "underdouble"@.len() == 11,
        "underdotted"@.len() == 11,
        "underdashed"@.len() == 11,
        "underdouble"@ != "underdotted"@,
        "underdouble"@ != "underdashed"@,
        "underdotted"@ != "underdashed"@,
        "blend"@.len() == 5,
{
    reveal_strlit("foreground");
    reveal_strlit("background");
    reveal_strlit("special");
    reveal_strlit("reverse");
    reveal_strlit("bold");
    reveal_strlit("italic");
    reveal_strlit("strikethrough");
    reveal_strlit("underline");
    reveal_strlit("undercurl");
    reveal_strlit("underdouble");
    reveal_strlit("underdotted");
    reveal_strlit("underdashed");
    reveal_strlit("blend");
    assert("foreground"@[0] != "background"@[0]);
    assert("special"@[0] != "reverse"@[0]);
    assert("underline"@[5] != "undercurl"@[5]);
    assert("underdouble"@[7] != "underdotted"@[7]);
    assert("underdouble"@[6] != "underdashed"@[6]);
    assert("underdotted"@[6] != "underdashed"@[6]);
}

/// Whether an attribute of this name can have this value.
pub open spec fn readable_attribute(name: Seq<char>, v: Value) -> bool {
    if name == "foreground"@ || name == "background"@ || name == "special"@ {
        v.number() matches Some(n) && 0 <= n <= 0xff_ffff
    } else if name == "blend"@ {
        v.number() matches Some(n) && 0 <= n <= 100
    } else if name == "reverse"@ || name == "bold"@ || name == "italic"@ || name
        == "strikethrough"@ || name == "underline"@ || name == "undercurl"@ || name
        == "underdouble"@ || name == "underdotted"@ || name == "underdashed"@ {
        v.truth() is Some
    } else {
        true
    }
}

/// Whether every entry is an attribute with a value that it can have.
pub open spec fn readable_attributes(entries: Seq<(Value, Value)>) -> bool {
    forall|i: int|
        #![trigger entries[i]]
        0 <= i < entries.len() ==> entries[i].0.text() is Some && readable_attribute(
            entries[i].0.text()->0,
            entries[i].1,
        )
}

proof fn lemma_readable_attributes(entries: Seq<(Value, Value)>)
    requires
        entries.len() > 0,
    ensures
        readable_attributes(entries) <==> readable_attributes(entries.drop_last())
            && entries.last().0.text() is Some && readable_attribute(
            entries.last().0.text()->0,
            entries.last().1,
        ),
{
    let before = entries.drop_last();
    let n = entries.len() - 1;
    if readable_attributes(entries) {
        assert forall|i: int| #![trigger before[i]] 0 <= i < before.len() implies before[i].0.text()
            is Some && readable_attribute(before[i].0.text()->0, before[i].1) by {
            assert(before[i] == entries[i]);
        }
        assert(entries[n] == entries.last());
    }
    if readable_attributes(before) && entries.last().0.text() is Some && readable_attribute(
        entries.last().0.text()->0,
        entries.last().1,
    ) {
        assert forall|i: int|
            #![trigger entries[i]]
            0 <= i < entries.len() implies entries[i].0.text() is Some && readable_attribute(
            entries[i].0.text()->0,
            entries[i].1,
        ) by {
            if i < n {
                assert(before[i] == entries[i]);
            }
        }
    }
}

/// A map of attributes is readable where each of them is.
proof fn lemma_readable(entries: Seq<(Value, Value)>)
    ensures
        readable_attributes(entries) <==> protocol::attr_fold(entries) is Ok,
    decreases entries.len(),
{
    if entries.len() > 0 {
        let last = entries.last();
        lemma_readable(entries.drop_last());
        lemma_attribute_names();
        lemma_readable_attributes(entries);
        assert(protocol::decode_change(last) is Ok <==> last.0.text() is Some && readable_attribute(
            last.0.text()->0,
            last.1,
        ));
    }
}

/// One more entry leaves a colour, or sets it where it has its name.
proof fn lemma_colour_step(
    entries: Seq<(Value, Value)>,
    name: Seq<char>,
    was: Option<Rgb>,
    now: Option<Rgb>,
)
    requires
        entries.len() > 0,
        colour_given(entries.drop_last(), name, was),
        entries.last().0.text() == Some(name) ==> (now matches Some(rgb)
            && entries.last().1.number() == Some(rgb.0 as int) && rgb.0 <= 0xff_ffff),
        entries.last().0.text() != Some(name) ==> now == was,
    ensures
        colour_given(entries, name, now),
{
    lemma_last_counts(entries, name);
}

/// The colours that a map of attributes leaves.
proof fn lemma_colours(entries: Seq<(Value, Value)>)
    ensures
        protocol::attr_fold(entries) matches Ok(p) ==> {
            &&& colour_given(entries, "foreground"@, p.attr.fg)
            &&& colour_given(entries, "background"@, p.attr.bg)
            &&& colour_given(entries, "special"@, p.attr.sp)
        },
    decreases entries.len(),
{
    if entries.len() > 0 {
        let before = entries.drop_last();
        lemma_colours(before);
        lemma_attribute_names();
        if let Ok(now) = protocol::attr_fold(entries) {
            let was = protocol::attr_fold(before)->Ok_0;
            lemma_colour_step(entries, "foreground"@, was.attr.fg, now.attr.fg);
            lemma_colour_step(entries, "background"@, was.attr.bg, now.attr.bg);
            lemma_colour_step(entries, "special"@, was.attr.sp, now.attr.sp);
        }
    }
}

/// The flags that a map of attributes leaves.
proof fn lemma_flags(entries: Seq<(Value, Value)>)
    ensures
        protocol::attr_fold(entries) matches Ok(p) ==> {
            &&& flag_given(entries, "reverse"@, p.attr.reverse)
            &&& flag_given(entries, "bold"@, p.attr.bold)
            &&& flag_given(entries, "italic"@, p.attr.italic)
            &&& flag_given(entries, "strikethrough"@, p.attr.strikethrough)
        },
    decreases entries.len(),
{
    if entries.len() > 0 {
        lemma_flags(entries.drop_last());
        lemma_attribute_names();
        if protocol::attr_fold(entries) is Ok {
            lemma_last_counts(entries, "reverse"@);
            lemma_last_counts(entries, "bold"@);
            lemma_last_counts(entries, "italic"@);
            lemma_last_counts(entries, "strikethrough"@);
        }
    }
}

/// The blend that a map of attributes leaves.
proof fn lemma_blend(entries: Seq<(Value, Value)>)
    ensures
        protocol::attr_fold(entries) matches Ok(p) ==> {
            &&& number_given(entries, "blend"@, p.attr.blend as int)
        },
    decreases entries.len(),
{
    if entries.len() > 0 {
        lemma_blend(entries.drop_last());
        lemma_attribute_names();
        if protocol::attr_fold(entries) is Ok {
            lemma_last_counts(entries, "blend"@);
        }
    }
}

/// `hl_attr_define` defines the highlight of its id as its map says: each attribute has the value
/// that is given under its name, and nothing where none is given. Other highlights, the default
/// colours and the rest of the screen stay. A map that cannot be read defines nothing.
pub proof fn law_hl_attr_define(ui: UiView, out: RedrawOutcome, id: u32, args: Seq<Value>)
    requires
        args.len() >= 2,
        args[0].number() == Some(id as int),
        args[1].entries() is Some,
    ensures
        ({
            let step = protocol::run_one(ui, out, "hl_attr_define"@, args);
            let entries = args[1].entries()->0;
            let attr = step.ui.hl.attrs[id];
            if readable_attributes(entries) {
                &&& step == fine(
                    UiView {
                        hl: HighlightsView { attrs: ui.hl.attrs.insert(id, attr), ..ui.hl },
                        ..ui
                    },
                    out,
                )
                &&& colour_given(entries, "foreground"@, attr.fg)
                &&& colour_given(entries, "background"@, attr.bg)
                &&& colour_given(entries, "special"@, attr.sp)
                &&& flag_given(entries, "reverse"@, attr.reverse)
                &&& flag_given(entries, "bold"@, attr.bold)
                &&& flag_given(entries, "italic"@, attr.italic)
                &&& flag_given(entries, "strikethrough"@, attr.strikethrough)
                &&& number_given(entries, "blend"@, attr.blend as int)
            } else {
                refused(step, ui, out)
            }
        }),
{
    lemma_decoders(args);
    lemma_readable(args[1].entries()->0);
    lemma_colours(args[1].entries()->0);
    lemma_flags(args[1].entries()->0);
    lemma_blend(args[1].entries()->0);
}

/// `hl_attr_define` needs an id and a map.
pub proof fn law_hl_attr_define_needs_its_arguments(
    ui: UiView,
    out: RedrawOutcome,
    args: Seq<Value>,
)
    requires
        !(number_at(args, 0, 0, u32::MAX as int) && args.len() > 1 && args[1].entries() is Some),
    ensures
        refused(protocol::run_one(ui, out, "hl_attr_define"@, args), ui, out),
{
    lemma_decoders(args);
}

// ---- mode_info_set ----
/// Whether the text is what the entries say under this name, and empty where they say nothing.
pub open spec fn text_given(
    entries: Seq<(Value, Value)>,
    name: Seq<char>,
    text: Seq<char>,
) -> bool {
    &&& absent(entries, name) ==> text.len() == 0
    &&& forall|k: int| #[trigger] counts(entries, k, name) ==> entries[k].1.text() == Some(text)
}

/// Whether the shape is what the entries say, and a block where they say nothing.
pub open spec fn shape_given(entries: Seq<(Value, Value)>, shape: CursorShape) -> bool {
    &&& absent(entries, "cursor_shape"@) ==> shape == CursorShape::Block
    &&& forall|k: int| #[trigger]
        counts(entries, k, "cursor_shape"@) ==> entries[k].1.text() == Some(
            match shape {
                CursorShape::Block => "block"@,
                CursorShape::Horizontal => "horizontal"@,
                CursorShape::Vertical => "vertical"@,
            },
        )
}

/// Whether an entry of a mode can be read.
pub open spec fn readable_mode_entry(name: Seq<char>, v: Value) -> bool {
    if name == "name"@ {
        v.text() is Some
    } else if name == "cursor_shape"@ {
        v.text() == Some("block"@) || v.text() == Some("horizontal"@) || v.text() == Some(
            "vertical"@,
        )
    } else if name == "cell_percentage"@ {
        v.number() matches Some(n) && 0 <= n <= 255
    } else if name == "attr_id"@ {
        v.number() matches Some(n) && 0 <= n <= u32::MAX
    } else {
        true
    }
}

/// Whether a mode is what its entries say.
pub open spec fn mode_given(entries: Seq<(Value, Value)>, info: ModeInfoView) -> bool {
    &&& text_given(entries, "name"@, info.name)
    &&& shape_given(entries, info.shape)
    &&& number_given(entries, "cell_percentage"@, info.cell_percentage as int)
    &&& number_given(entries, "attr_id"@, info.attr_id as int)
}

/// Whether every entry of a mode can be read.
pub open spec fn readable_mode_entries(entries: Seq<(Value, Value)>) -> bool {
    forall|i: int|
        #![trigger entries[i]]
        0 <= i < entries.len() ==> entries[i].0.text() is Some && readable_mode_entry(
            entries[i].0.text()->0,
            entries[i].1,
        )
}

proof fn lemma_readable_mode_entries(entries: Seq<(Value, Value)>)
    requires
        entries.len() > 0,
    ensures
        readable_mode_entries(entries) <==> readable_mode_entries(entries.drop_last())
            && entries.last().0.text() is Some && readable_mode_entry(
            entries.last().0.text()->0,
            entries.last().1,
        ),
{
    let before = entries.drop_last();
    let n = entries.len() - 1;
    if readable_mode_entries(entries) {
        assert forall|i: int| #![trigger before[i]] 0 <= i < before.len() implies before[i].0.text()
            is Some && readable_mode_entry(before[i].0.text()->0, before[i].1) by {
            assert(before[i] == entries[i]);
        }
        assert(entries[n] == entries.last());
    }
    if readable_mode_entries(before) && entries.last().0.text() is Some && readable_mode_entry(
        entries.last().0.text()->0,
        entries.last().1,
    ) {
        assert forall|i: int|
            #![trigger entries[i]]
            0 <= i < entries.len() implies entries[i].0.text() is Some && readable_mode_entry(
            entries[i].0.text()->0,
            entries[i].1,
        ) by {
            if i < n {
                assert(before[i] == entries[i]);
            }
        }
    }
}

proof fn lemma_mode_entries(entries: Seq<(Value, Value)>)
    ensures
        readable_mode_entries(entries) <==> protocol::info_fold(entries) is Ok,
        protocol::info_fold(entries) matches Ok(info) ==> mode_given(entries, info),
    decreases entries.len(),
{
    reveal_strlit("name");
    reveal_strlit("cursor_shape");
    reveal_strlit("cell_percentage");
    reveal_strlit("attr_id");
    assert("name"@.len() == 4 && "cursor_shape"@.len() == 12 && "cell_percentage"@.len() == 15
        && "attr_id"@.len() == 7);
    if entries.len() > 0 {
        let before = entries.drop_last();
        let last = entries.last();
        lemma_mode_entries(before);
        lemma_readable_mode_entries(entries);
        if let Ok(info) = protocol::info_fold(before) {
            assert(protocol::info_step(info, last) is Ok <==> last.0.text() is Some
                && readable_mode_entry(last.0.text()->0, last.1));
        }
        if protocol::info_fold(entries) is Ok {
            lemma_last_counts(entries, "name"@);
            lemma_last_counts(entries, "cursor_shape"@);
            lemma_last_counts(entries, "cell_percentage"@);
            lemma_last_counts(entries, "attr_id"@);
        }
    }
}

/// Whether a value is a map of entries that a mode can have.
pub open spec fn readable_mode(v: Value) -> bool {
    v.entries() matches Some(entries) && readable_mode_entries(entries)
}

proof fn lemma_mode_list(list: Seq<Value>)
    ensures
        (forall|i: int| 0 <= i < list.len() ==> readable_mode(#[trigger] list[i]))
            <==> protocol::decode_mode_list(list) is Ok,
        protocol::decode_mode_list(list) matches Ok(modes) ==> {
            &&& modes.len() == list.len()
            &&& forall|i: int|
                0 <= i < list.len() ==> mode_given(list[i].entries()->0, #[trigger] modes[i])
        },
    decreases list.len(),
{
    if list.len() > 0 {
        let before = list.drop_last();
        lemma_mode_list(before);
        let n = list.len() - 1;
        if let Some(entries) = list.last().entries() {
            lemma_mode_entries(entries);
        }
        assert(protocol::decode_mode(list.last()) is Ok <==> readable_mode(list.last()));
        if forall|i: int| 0 <= i < list.len() ==> readable_mode(#[trigger] list[i]) {
            assert forall|i: int| 0 <= i < before.len() implies readable_mode(
                #[trigger] before[i],
            ) by {
                assert(before[i] == list[i]);
            }
            assert(readable_mode(list[n]));
        }
        if protocol::decode_mode_list(list) is Ok {
            assert forall|i: int| 0 <= i < list.len() implies readable_mode(#[trigger] list[i]) by {
                if i < n {
                    assert(before[i] == list[i]);
                }
            }
            let modes = protocol::decode_mode_list(list)->Ok_0;
            assert forall|i: int| 0 <= i < list.len() implies mode_given(
                list[i].entries()->0,
                #[trigger] modes[i],
            ) by {
                if i < n {
                    assert(before[i] == list[i]);
                    assert(modes[i] == protocol::decode_mode_list(before)->Ok_0[i]);
                }
            }
        }
    }
}

/// `mode_info_set` lays down the table of modes: one for each entry of its list, each as its map
/// says, and whether the cursor has the shapes of the table. The name of the current mode stays, and
/// so does its place where the table has it. A table that cannot be read changes nothing.
pub proof fn law_mode_info_set(ui: UiView, out: RedrawOutcome, args: Seq<Value>)
    requires
        args.len() >= 2,
        args[0].truth() is Some,
        args[1].items() is Some,
    ensures
        ({
            let step = protocol::run_one(ui, out, "mode_info_set"@, args);
            let list = args[1].items()->0;
            let mode = step.ui.mode;
            if forall|i: int| 0 <= i < list.len() ==> readable_mode(#[trigger] list[i]) {
                &&& step == fine(UiView { mode, ..ui }, out)
                &&& mode.cursor_style_enabled == args[0].truth()->0
                &&& mode.name == ui.mode.name
                &&& mode.modes.len() == list.len()
                &&& forall|i: int|
                    0 <= i < list.len() ==> mode_given(
                        list[i].entries()->0,
                        #[trigger] mode.modes[i],
                    )
                &&& ui.mode.current < list.len() ==> mode.current == ui.mode.current
                &&& ui.mode.current >= list.len() ==> mode.current == 0
            } else {
                refused(step, ui, out)
            }
        }),
{
    lemma_decoders(args);
    lemma_mode_list(args[1].items()->0);
}

/// `mode_info_set` needs a flag and a list.
pub proof fn law_mode_info_set_needs_its_arguments(
    ui: UiView,
    out: RedrawOutcome,
    args: Seq<Value>,
)
    requires
        !(args.len() > 1 && args[0].truth() is Some && args[1].items() is Some),
    ensures
        refused(protocol::run_one(ui, out, "mode_info_set"@, args), ui, out),
{
    lemma_decoders(args);
}

// ---- events and batches ----
/// An event with one call does what the call does; an event that is only a name is a call without
/// arguments; anything else that is no call is refused.
pub proof fn law_one_call(step: Step, event: Value)
    requires
        step.end == End::Fine,
    ensures
        ({
            let after = protocol::run_event(step, event);
            if event.items() matches Some(parts) && parts.len() > 0 && parts[0].text() is Some {
                let parts = event.items()->0;
                let name = parts[0].text()->0;
                &&& parts.len() == 1 ==> after == protocol::run_one(
                    step.ui,
                    step.out,
                    name,
                    seq![],
                )
                &&& parts.len() == 2 && parts[1].items() is Some ==> after == protocol::run_one(
                    step.ui,
                    step.out,
                    name,
                    parts[1].items()->0,
                )
                &&& parts.len() == 2 && parts[1].items() is None ==> refused(
                    after,
                    step.ui,
                    step.out,
                )
            } else {
                refused(after, step.ui, step.out)
            }
        }),
{
    if let Some(parts) = event.items() {
        if parts.len() == 2 {
            let calls = parts.drop_first();
            assert(calls.drop_last() =~= seq![]);
            assert(calls.last() == parts[1]);
            reveal_with_fuel(protocol::run_calls, 2);
        }
    }
}

/// A batch of no event changes and reports nothing; a batch of one event does what the event does.
pub proof fn law_one_event(ui: UiView, event: Value)
    ensures
        ({
            let nothing = RedrawOutcome {
                flushed: false,
                resized: false,
                mode_changed: false,
                font_changed: false,
                title_changed: false,
            };
            &&& protocol::run_batch(ui, seq![]) == fine(ui, nothing)
            &&& protocol::run_batch(ui, seq![event]) == protocol::run_event(
                fine(ui, nothing),
                event,
            )
        }),
{
    assert(seq![event].drop_last() =~= seq![]);
    reveal_with_fuel(protocol::run_batch, 2);
}

/// The fault of a value that is not of the kind that `what` has to be of.
pub open spec fn wrong(what: Seq<char>, expected: Expected, v: Value) -> Fault {
    Fault::Unexpected { what, expected, got: value::shown(v) }
}

/// A fault in an item of a line names the part of the item that could not be read, and one in a
/// highlight says that it was the name of an attribute.
pub proof fn law_faults_in_items(item: Value, inherited: Option<u32>, name: Value, v: Value)
    ensures
        item.items() is None ==> protocol::decode_run(item, inherited) == Err::<protocol::Run, Fault>(
            wrong("grid_line cell"@, Expected::Array, item),
        ),
        item.items() is Some && 1 <= item.items()->0.len() <= 3 ==> {
            let parts = item.items()->0;
            &&& parts[0].text() is None ==> protocol::decode_run(item, inherited) == Err::<
                protocol::Run,
                Fault,
            >(wrong("grid_line cell text"@, Expected::Text, parts[0]))
            &&& parts[0].text() is Some && parts.len() > 1 && parts[1].number() is None
                ==> protocol::decode_run(item, inherited) == Err::<protocol::Run, Fault>(
                wrong("grid_line cell hl_id"@, Expected::NonNegative, parts[1]),
            )
            &&& parts[0].text() is Some && parts.len() > 2 && parts[1].number() == Some(0int)
                && parts[2].number() is None ==> protocol::decode_run(item, inherited) == Err::<
                protocol::Run,
                Fault,
            >(wrong("grid_line cell repeat"@, Expected::NonNegative, parts[2]))
        },
        name.text() is None ==> protocol::decode_change((name, v)) == Err::<protocol::Change, Fault>(
            wrong("hl_attr_define attribute name"@, Expected::Text, name),
        ),
{
}

/// A fault in an argument names the event and the argument, be it missing or of another kind.
pub proof fn law_faults_in_arguments(args: Seq<Value>)
    ensures
        args.len() == 0 ==> {
            &&& protocol::decode_title(args) == Err::<Command, Fault>(
                Fault::Missing { event: "set_title"@, index: 0, carried: 0 },
            )
            &&& protocol::decode_mode_change(args) == Err::<Command, Fault>(
                Fault::Missing { event: "mode_change"@, index: 0, carried: 0 },
            )
            &&& protocol::decode_option(args) == Err::<Command, Fault>(
                Fault::Missing { event: "option_set"@, index: 0, carried: 0 },
            )
            &&& protocol::decode_colours(args) == Err::<Command, Fault>(
                Fault::Missing { event: "default_colors_set"@, index: 0, carried: 0 },
            )
            &&& protocol::decode_resize(args) == Err::<Command, Fault>(
                Fault::Missing { event: "grid_resize"@, index: 0, carried: 0 },
            )
            &&& protocol::decode_goto(args) == Err::<Command, Fault>(
                Fault::Missing { event: "grid_cursor_goto"@, index: 0, carried: 0 },
            )
        },
        args.len() > 0 && args[0].text() is None ==> {
            &&& protocol::decode_title(args) == Err::<Command, Fault>(
                wrong("set_title title"@, Expected::Text, args[0]),
            )
            &&& protocol::decode_mode_change(args) == Err::<Command, Fault>(
                wrong("mode_change mode_name"@, Expected::Text, args[0]),
            )
            &&& protocol::decode_option(args) == Err::<Command, Fault>(
                wrong("option_set name"@, Expected::Text, args[0]),
            )
        },
        args.len() > 1 && args[0].text() is Some && args[1].number() is None
            ==> protocol::decode_mode_change(args) == Err::<Command, Fault>(
            wrong("mode_change mode_idx"@, Expected::NonNegative, args[1]),
        ),
        args.len() > 0 && args[0].number() is None ==> {
            &&& protocol::decode_colours(args) == Err::<Command, Fault>(
                wrong("default_colors_set rgb_fg"@, Expected::NonNegative, args[0]),
            )
            &&& protocol::decode_resize(args) == Err::<Command, Fault>(
                wrong("grid id"@, Expected::NonNegative, args[0]),
            )
        },
        args.len() > 1 && args[0].number() == Some(1int) && args[1].number() is None ==> {
            &&& protocol::decode_resize(args) == Err::<Command, Fault>(
                wrong("grid_resize width"@, Expected::NonNegative, args[1]),
            )
            &&& protocol::decode_goto(args) == Err::<Command, Fault>(
                wrong("grid_cursor_goto row"@, Expected::NonNegative, args[1]),
            )
        },
        args.len() > 2 && args[0].number() == Some(1int) && args[1].number() == Some(0int)
            && args[2].number() is None ==> {
            &&& protocol::decode_resize(args) == Err::<Command, Fault>(
                wrong("grid_resize height"@, Expected::NonNegative, args[2]),
            )
            &&& protocol::decode_goto(args) == Err::<Command, Fault>(
                wrong("grid_cursor_goto col"@, Expected::NonNegative, args[2]),
            )
        },
{
}

} // verus!
