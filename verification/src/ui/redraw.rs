//! Applies redraw notifications to the [`UiState`].
//!
//! This is the only interpreter of nvim's drawing commands; the drawing side only reads the state
//! that comes out. Cells that a scroll leaves behind are not erased: nvim fills them by the
//! `grid_line` that follows.

use vstd::prelude::*;

use crate::strings;
use crate::ui::cell::{Cell, CellText};
use crate::ui::fault;
use crate::ui::fault::{Fault, RedrawError};
use crate::ui::grid;
use crate::ui::grid::Grid;
use crate::ui::highlight::{HlAttr, Underline};
use crate::ui::mode;
use crate::ui::mode::{CursorShape, ModeInfo, ModeInfoView};
use crate::ui::protocol;
use crate::ui::protocol::{Change, Command, End, Pending, Run, Step, GRID};
use crate::ui::read;
use crate::ui::state::{CursorPos, RedrawOutcome, UiState, UiView};
use crate::value::Value;

verus! {

/// How far a batch got, by the result of applying it.
pub open spec fn end_of<T>(r: Result<T, RedrawError>) -> End {
    match r {
        Ok(_) => End::Fine,
        Err(e) => End::Broken(e@),
    }
}

/// Whether the call is for the grid that is shown.
fn targets_our_grid(args: &[Value], event: &str) -> (r: Result<bool, RedrawError>)
    ensures
        fault::seen(r) == protocol::targets(args@, event@),
{
    match read::arg(args, 0, event) {
        Ok(v) => match read::as_u64(v, "grid id") {
            Ok(grid) => Ok(grid == GRID),
            Err(e) => Err(e),
        },
        Err(e) => Err(e),
    }
}

/// Writes a run of equal cells. Gives the column behind it, or the first column that the line does
/// not have.
#[verifier::loop_isolation(false)]
fn paint_run(grid: &mut Grid, row: usize, col: usize, cell: Cell, repeat: usize) -> (r: Result<
    usize,
    RedrawError,
>)
    requires
        old(grid).well_formed(),
        row < old(grid)@.rows(),
    ensures
        final(grid).well_formed(),
        ({
            let line = old(grid)@.lines[row as int];
            let run = Run { cell: cell@, repeat };
            &&& final(grid)@ == old(grid)@.with_line(
                row as int,
                protocol::with_run(line, col as int, run),
            )
            &&& match r {
                Ok(next) => protocol::overflow_of(line, col as int, run) is None && next == col
                    + repeat,
                Err(e) => protocol::overflow_of(line, col as int, run) == Some(e@),
            }
        }),
{
    let ghost before = grid@;
    let ghost line = before.lines[row as int];
    proof {
        grid.lemma_rectangular();
    }
    let cols = grid.cols();
    let mut k: usize = 0;
    assert(protocol::with_run(line, col as int, Run { cell: cell@, repeat: 0 }) =~= line);
    assert(before.with_line(row as int, line) =~= before);
    while k < repeat
        invariant
            k <= repeat,
            grid.well_formed(),
            row < before.rows(),
            before.rectangular(),
            line == before.lines[row as int],
            cols == line.len(),
            cols == before.cols,
            grid@ == before.with_line(
                row as int,
                protocol::with_run(line, col as int, Run { cell: cell@, repeat: k }),
            ),
            k > 0 ==> col + k <= cols,
        decreases repeat - k,
    {
        if k > 0 {
            assert(col + k <= usize::MAX);
        }
        if col >= cols || k >= cols - col {
            proof {
                let run = Run { cell: cell@, repeat };
                assert(protocol::with_run(line, col as int, run) =~= protocol::with_run(
                    line,
                    col as int,
                    Run { cell: cell@, repeat: k },
                ));
            }
            let outside: usize = if col >= cols {
                col
            } else {
                cols
            };
            return Err(RedrawError::ColumnOutside { col: outside, cols });
        }
        grid.place(row, col + k, cell);
        proof {
            let was = protocol::with_run(line, col as int, Run { cell: cell@, repeat: k });
            let is = protocol::with_run(line, col as int, Run { cell: cell@, repeat: (k + 1) as usize });
            assert(was.update(col + k, cell@) =~= is);
            assert(before.with_line(row as int, was).with_line(row as int, is) =~= before.with_line(
                row as int,
                is,
            ));
        }
        k = k + 1;
    }
    Ok(if repeat == 0 {
        col
    } else {
        col + repeat
    })
}

/// Reads one item of the cells of `grid_line`.
fn read_run(item: &Value, inherited: Option<u32>) -> (r: Result<(Cell, usize), RedrawError>)
    ensures
        (match r {
            Ok((cell, repeat)) => protocol::decode_run(*item, inherited) == Ok::<Run, Fault>(
                Run { cell: cell@, repeat },
            ),
            Err(e) => protocol::decode_run(*item, inherited) == Err::<Run, Fault>(e@),
        }),
{
    let parts = match read::as_array(item, "grid_line cell") {
        Ok(parts) => parts,
        Err(e) => return Err(e),
    };
    if parts.len() == 0 || parts.len() > 3 {
        return Err(RedrawError::BadCell { items: parts.len() });
    }
    let text = match read::as_str(&parts[0], "grid_line cell text") {
        Ok(text) => text,
        Err(e) => return Err(e),
    };
    let hl_id: u32 = if parts.len() > 1 {
        match read::as_u32(&parts[1], "grid_line cell hl_id") {
            Ok(hl_id) => hl_id,
            Err(e) => return Err(e),
        }
    } else {
        match inherited {
            Some(hl_id) => hl_id,
            None => return Err(RedrawError::NoHighlight),
        }
    };
    let repeat: usize = if parts.len() > 2 {
        match read::as_usize(&parts[2], "grid_line cell repeat") {
            Ok(repeat) => repeat,
            Err(e) => return Err(e),
        }
    } else {
        1
    };
    Ok((Cell { text: CellText::new(text), hl_id }, repeat))
}

#[verifier::loop_isolation(false)]
fn grid_line(state: &mut UiState, args: &[Value]) -> (r: Result<(), RedrawError>)
    requires
        old(state).well_formed(),
    ensures
        final(state).well_formed(),
        forall|out: RedrawOutcome|
            #[trigger] protocol::run_decoded(old(state)@, out, protocol::decode_line(args@)) == (
            Step { ui: final(state)@, out, end: end_of(r) }),
{
    let event = "grid_line";
    match targets_our_grid(args, event) {
        Ok(true) => {},
        Ok(false) => return Ok(()),
        Err(e) => return Err(e),
    }
    let row: usize = match read::usize_arg(args, 1, event, "grid_line row") {
        Ok(row) => row,
        Err(e) => return Err(e),
    };
    let col_start: usize = match read::usize_arg(args, 2, event, "grid_line col_start") {
        Ok(col) => col,
        Err(e) => return Err(e),
    };
    let cells = match read::array_arg(args, 3, event, "grid_line cells") {
        Ok(cells) => cells,
        Err(e) => return Err(e),
    };
    match read::bool_arg(args, 4, event, "grid_line wrap") {
        Ok(_) => {},
        Err(e) => return Err(e),
    }
    let rows: usize = state.grid.rows();
    if row >= rows {
        return Err(RedrawError::RowOutside { row, rows });
    }
    let ghost before = state@;
    let ghost first = before.grid.lines[row as int];
    let mut inherited: Option<u32> = None;
    let mut col: usize = col_start;
    let mut i: usize = 0;
    assert(cells@.skip(0) =~= cells@);
    assert(before.grid.with_line(row as int, first) =~= before.grid);
    while i < cells.len()
        invariant
            i <= cells@.len(),
            state.well_formed(),
            row < before.grid.rows(),
            state@ == (UiView {
                grid: before.grid.with_line(row as int, state@.grid.lines[row as int]),
                ..before
            }),
            protocol::paint(first, col_start as int, None, cells@) == protocol::paint(
                state@.grid.lines[row as int],
                col as int,
                inherited,
                cells@.skip(i as int),
            ),
        decreases cells@.len() - i,
    {
        let ghost line = state@.grid.lines[row as int];
        let ghost rest = cells@.skip(i as int);
        assert(rest.drop_first() =~= cells@.skip(i + 1));
        let (cell, repeat) = match read_run(&cells[i], inherited) {
            Ok(run) => run,
            Err(e) => return Err(e),
        };
        let painted = paint_run(&mut state.grid, row, col, cell, repeat);
        assert(state@.grid =~= before.grid.with_line(row as int, state@.grid.lines[row as int]));
        match painted {
            Ok(next) => {
                col = next;
            },
            Err(e) => return Err(e),
        }
        inherited = Some(cell.hl_id);
        i = i + 1;
    }
    Ok(())
}

/// The argument at `index`, read as a signed number.
fn i64_arg(args: &[Value], index: usize, event: &str, what: &str) -> (r: Result<i64, RedrawError>)
    ensures
        fault::seen(r) == protocol::read_i64_arg(args@, index as int, event@, what@),
{
    match read::arg(args, index, event) {
        Ok(v) => read::as_i64(v, what),
        Err(e) => Err(e),
    }
}

/// The distance of a scroll.
fn unsigned_abs(rows: i64) -> (n: u64)
    ensures
        n == protocol::distance(rows),
{
    if rows >= 0 {
        rows as u64
    } else {
        (-(rows + 1)) as u64 + 1
    }
}

/// Moves the lines `[top, bot)` up by `distance`, in the columns `[left, right)`. Going from the top
/// down, no line is overwritten before it was copied.
fn scroll_up(grid: &mut Grid, top: usize, bot: usize, left: usize, right: usize, distance: usize)
    requires
        old(grid).well_formed(),
        top <= bot <= old(grid)@.rows(),
        left <= right <= old(grid)@.cols,
        0 < distance < bot - top,
    ensures
        final(grid).well_formed(),
        final(grid)@ == protocol::scrolled(
            old(grid)@,
            top as int,
            bot as int,
            left as int,
            right as int,
            distance as int,
        ),
{
    let ghost before = grid@;
    let ghost goal = protocol::scrolled(
        before,
        top as int,
        bot as int,
        left as int,
        right as int,
        distance as int,
    );
    proof {
        grid.lemma_rectangular();
    }
    let mut dst: usize = top;
    while dst < bot - distance
        invariant
            top <= dst <= bot - distance,
            bot <= before.rows(),
            0 < distance < bot - top,
            left <= right <= before.cols,
            before.rectangular(),
            grid.well_formed(),
            grid@.cols == before.cols,
            grid@.rows() == before.rows(),
            goal == protocol::scrolled(
                before,
                top as int,
                bot as int,
                left as int,
                right as int,
                distance as int,
            ),
            forall|r: int|
                0 <= r < before.rows() ==> #[trigger] grid@.lines[r] == (if top <= r < dst {
                    goal.lines[r]
                } else {
                    before.lines[r]
                }),
        decreases bot - distance - dst,
    {
        grid.copy_row_range(dst + distance, dst, left, right);
        assert(grid@.lines[dst as int] =~= goal.lines[dst as int]);
        dst = dst + 1;
    }
    assert forall|r: int| 0 <= r < before.rows() implies grid@.lines[r] == goal.lines[r] by {
        assert(grid@.lines[r] =~= goal.lines[r]);
    }
    assert(grid@ =~= goal);
}

/// Moves the lines `[top, bot)` down by `distance`, in the columns `[left, right)`. Going from the
/// bottom up, no line is overwritten before it was copied.
fn scroll_down(grid: &mut Grid, top: usize, bot: usize, left: usize, right: usize, distance: usize)
    requires
        old(grid).well_formed(),
        top <= bot <= old(grid)@.rows(),
        left <= right <= old(grid)@.cols,
        0 < distance < bot - top,
    ensures
        final(grid).well_formed(),
        final(grid)@ == protocol::scrolled(
            old(grid)@,
            top as int,
            bot as int,
            left as int,
            right as int,
            -(distance as int),
        ),
{
    let ghost before = grid@;
    let ghost goal = protocol::scrolled(
        before,
        top as int,
        bot as int,
        left as int,
        right as int,
        -(distance as int),
    );
    proof {
        grid.lemma_rectangular();
    }
    let mut end: usize = bot;
    while end > top + distance
        invariant
            top + distance <= end <= bot,
            bot <= before.rows(),
            0 < distance < bot - top,
            left <= right <= before.cols,
            before.rectangular(),
            grid.well_formed(),
            grid@.cols == before.cols,
            grid@.rows() == before.rows(),
            goal == protocol::scrolled(
                before,
                top as int,
                bot as int,
                left as int,
                right as int,
                -(distance as int),
            ),
            forall|r: int|
                0 <= r < before.rows() ==> #[trigger] grid@.lines[r] == (if end <= r < bot {
                    goal.lines[r]
                } else {
                    before.lines[r]
                }),
        decreases end,
    {
        let dst: usize = end - 1;
        grid.copy_row_range(dst - distance, dst, left, right);
        assert(grid@.lines[dst as int] =~= goal.lines[dst as int]);
        end = dst;
    }
    assert forall|r: int| 0 <= r < before.rows() implies grid@.lines[r] == goal.lines[r] by {
        assert(grid@.lines[r] =~= goal.lines[r]);
    }
    assert(grid@ =~= goal);
}

fn grid_scroll(state: &mut UiState, args: &[Value]) -> (r: Result<(), RedrawError>)
    requires
        old(state).well_formed(),
    ensures
        final(state).well_formed(),
        forall|out: RedrawOutcome|
            #[trigger] protocol::run_decoded(old(state)@, out, protocol::decode_scroll(args@)) == (
            Step { ui: final(state)@, out, end: end_of(r) }),
{
    let event = "grid_scroll";
    match targets_our_grid(args, event) {
        Ok(true) => {},
        Ok(false) => return Ok(()),
        Err(e) => return Err(e),
    }
    let top: usize = match read::usize_arg(args, 1, event, "grid_scroll top") {
        Ok(n) => n,
        Err(e) => return Err(e),
    };
    let bot: usize = match read::usize_arg(args, 2, event, "grid_scroll bot") {
        Ok(n) => n,
        Err(e) => return Err(e),
    };
    let left: usize = match read::usize_arg(args, 3, event, "grid_scroll left") {
        Ok(n) => n,
        Err(e) => return Err(e),
    };
    let right: usize = match read::usize_arg(args, 4, event, "grid_scroll right") {
        Ok(n) => n,
        Err(e) => return Err(e),
    };
    let rows: i64 = match i64_arg(args, 5, event, "grid_scroll rows") {
        Ok(n) => n,
        Err(e) => return Err(e),
    };
    let cols: i64 = match i64_arg(args, 6, event, "grid_scroll cols") {
        Ok(n) => n,
        Err(e) => return Err(e),
    };
    if cols != 0 {
        return Err(RedrawError::Horizontal { by: cols });
    }
    let grid_rows: usize = state.grid.rows();
    let grid_cols: usize = state.grid.cols();
    if top > bot || bot > grid_rows {
        return Err(RedrawError::RowRange { top, bot, rows: grid_rows });
    }
    if left > right || right > grid_cols {
        return Err(RedrawError::ColumnRange { left, right, cols: grid_cols });
    }
    let distance: usize = match read::as_usize_from(unsigned_abs(rows), "grid_scroll rows") {
        Ok(n) => n,
        Err(e) => return Err(e),
    };
    let ghost before = state@;
    let ghost goal = protocol::scrolled(
        before.grid,
        top as int,
        bot as int,
        left as int,
        right as int,
        rows as int,
    );
    // beyond the part nothing is left to copy, and what is left behind is not erased
    if distance == 0 || distance >= bot - top {
        proof {
            state.grid.lemma_rectangular();
            assert forall|r: int| 0 <= r < before.grid.rows() implies before.grid.lines[r]
                == goal.lines[r] by {
                assert(before.grid.lines[r] =~= goal.lines[r]);
            }
            assert(before.grid =~= goal);
        }
        return Ok(());
    }
    if rows > 0 {
        scroll_up(&mut state.grid, top, bot, left, right, distance);
    } else {
        scroll_down(&mut state.grid, top, bot, left, right, distance);
    }
    Ok(())
}

/// Reads one entry of the rgb map.
fn read_attr(key: &Value, value: &Value) -> (r: Result<Change, RedrawError>)
    ensures
        fault::seen(r) == protocol::decode_change((*key, *value)),
{
    let key = match read::as_str(key, "hl_attr_define attribute name") {
        Ok(key) => key,
        Err(e) => return Err(e),
    };
    if strings::str_eq(key, "foreground") {
        match read::as_rgb(value, key) {
            Ok(rgb) => Ok(Change::Fg(rgb)),
            Err(e) => Err(e),
        }
    } else if strings::str_eq(key, "background") {
        match read::as_rgb(value, key) {
            Ok(rgb) => Ok(Change::Bg(rgb)),
            Err(e) => Err(e),
        }
    } else if strings::str_eq(key, "special") {
        match read::as_rgb(value, key) {
            Ok(rgb) => Ok(Change::Sp(rgb)),
            Err(e) => Err(e),
        }
    } else if strings::str_eq(key, "reverse") {
        match read::as_bool(value, key) {
            Ok(b) => Ok(Change::Reverse(b)),
            Err(e) => Err(e),
        }
    } else if strings::str_eq(key, "bold") {
        match read::as_bool(value, key) {
            Ok(b) => Ok(Change::Bold(b)),
            Err(e) => Err(e),
        }
    } else if strings::str_eq(key, "italic") {
        match read::as_bool(value, key) {
            Ok(b) => Ok(Change::Italic(b)),
            Err(e) => Err(e),
        }
    } else if strings::str_eq(key, "strikethrough") {
        match read::as_bool(value, key) {
            Ok(b) => Ok(Change::Strikethrough(b)),
            Err(e) => Err(e),
        }
    } else if strings::str_eq(key, "underline") {
        match read::as_bool(value, key) {
            Ok(b) => Ok(Change::Line(b)),
            Err(e) => Err(e),
        }
    } else if strings::str_eq(key, "undercurl") {
        match read::as_bool(value, key) {
            Ok(b) => Ok(Change::Curl(b)),
            Err(e) => Err(e),
        }
    } else if strings::str_eq(key, "underdouble") {
        match read::as_bool(value, key) {
            Ok(b) => Ok(Change::Double(b)),
            Err(e) => Err(e),
        }
    } else if strings::str_eq(key, "underdotted") {
        match read::as_bool(value, key) {
            Ok(b) => Ok(Change::Dotted(b)),
            Err(e) => Err(e),
        }
    } else if strings::str_eq(key, "underdashed") {
        match read::as_bool(value, key) {
            Ok(b) => Ok(Change::Dashed(b)),
            Err(e) => Err(e),
        }
    } else if strings::str_eq(key, "blend") {
        match read::as_u8(value, key) {
            Ok(blend) => if blend > 100 {
                Err(RedrawError::BadBlend { blend })
            } else {
                Ok(Change::Blend(blend))
            },
            Err(e) => Err(e),
        }
    } else {
        Ok(Change::Nothing)
    }
}

/// Takes over what one entry sets.
fn take_over(p: Pending, change: Change) -> (q: Pending)
    ensures
        q == protocol::changed(p, change),
{
    match change {
        Change::Nothing => p,
        Change::Fg(rgb) => Pending { attr: HlAttr { fg: Some(rgb), ..p.attr }, ..p },
        Change::Bg(rgb) => Pending { attr: HlAttr { bg: Some(rgb), ..p.attr }, ..p },
        Change::Sp(rgb) => Pending { attr: HlAttr { sp: Some(rgb), ..p.attr }, ..p },
        Change::Reverse(b) => Pending { attr: HlAttr { reverse: b, ..p.attr }, ..p },
        Change::Bold(b) => Pending { attr: HlAttr { bold: b, ..p.attr }, ..p },
        Change::Italic(b) => Pending { attr: HlAttr { italic: b, ..p.attr }, ..p },
        Change::Strikethrough(b) => Pending { attr: HlAttr { strikethrough: b, ..p.attr }, ..p },
        Change::Line(b) => Pending { line: b, ..p },
        Change::Curl(b) => Pending { curl: b, ..p },
        Change::Double(b) => Pending { double: b, ..p },
        Change::Dotted(b) => Pending { dotted: b, ..p },
        Change::Dashed(b) => Pending { dashed: b, ..p },
        Change::Blend(blend) => Pending { attr: HlAttr { blend, ..p.attr }, ..p },
    }
}

/// The one underline that is drawn where several are set.
fn underline_of(p: Pending) -> (underline: Underline)
    ensures
        underline == protocol::settled_underline(p),
{
    if p.line {
        Underline::Line
    } else if p.curl {
        Underline::Undercurl
    } else if p.double {
        Underline::Double
    } else if p.dotted {
        Underline::Dotted
    } else if p.dashed {
        Underline::Dashed
    } else {
        Underline::Off
    }
}

#[verifier::loop_isolation(false)]
fn hl_attr_define(state: &mut UiState, args: &[Value]) -> (r: Result<(), RedrawError>)
    requires
        old(state).well_formed(),
    ensures
        final(state).well_formed(),
        forall|out: RedrawOutcome|
            #[trigger] protocol::run_decoded(old(state)@, out, protocol::decode_define(args@)) == (
            Step { ui: final(state)@, out, end: end_of(r) }),
{
    let event = "hl_attr_define";
    let id: u32 = match read::arg(args, 0, event) {
        Ok(v) => match read::as_u32(v, "hl_attr_define id") {
            Ok(id) => id,
            Err(e) => return Err(e),
        },
        Err(e) => return Err(e),
    };
    let rgb = match read::arg(args, 1, event) {
        Ok(v) => match read::as_map(v, "hl_attr_define rgb_attr") {
            Ok(rgb) => rgb,
            Err(e) => return Err(e),
        },
        Err(e) => return Err(e),
    };
    let mut p = Pending {
        attr: HlAttr::default(),
        line: false,
        curl: false,
        double: false,
        dotted: false,
        dashed: false,
    };
    let mut i: usize = 0;
    while i < rgb.len()
        invariant
            i <= rgb@.len(),
            protocol::attr_fold(rgb@.take(i as int)) == Ok::<Pending, Fault>(p),
        decreases rgb@.len() - i,
    {
        assert(rgb@.take(i + 1).drop_last() =~= rgb@.take(i as int));
        assert(rgb@.take(i + 1).last() == rgb@[i as int]);
        match read_attr(&rgb[i].0, &rgb[i].1) {
            Ok(change) => {
                p = take_over(p, change);
            },
            Err(e) => {
                proof {
                    protocol::lemma_broken_attrs(rgb@, i + 1);
                }
                return Err(e);
            },
        }
        i = i + 1;
    }
    assert(rgb@.take(rgb@.len() as int) =~= rgb@);
    let mut attr = p.attr;
    attr.underline = underline_of(p);
    state.hl.define(id, attr);
    Ok(())
}

fn cursor_shape(name: &str) -> (r: Result<CursorShape, RedrawError>)
    ensures
        fault::seen(r) == protocol::decode_shape(name@),
{
    if strings::str_eq(name, "block") {
        Ok(CursorShape::Block)
    } else if strings::str_eq(name, "horizontal") {
        Ok(CursorShape::Horizontal)
    } else if strings::str_eq(name, "vertical") {
        Ok(CursorShape::Vertical)
    } else {
        Err(RedrawError::UnknownShape { name: name.to_owned() })
    }
}

/// Reads one entry of a mode.
fn read_info(info: &mut ModeInfo, key: &Value, value: &Value) -> (r: Result<(), RedrawError>)
    ensures
        (match r {
            Ok(_) => protocol::info_step(old(info)@, (*key, *value)) == Ok::<ModeInfoView, Fault>(
                final(info)@,
            ),
            Err(e) => protocol::info_step(old(info)@, (*key, *value)) == Err::<
                ModeInfoView,
                Fault,
            >(e@),
        }),
{
    let key = match read::as_str(key, "mode_info_set mode_info key") {
        Ok(key) => key,
        Err(e) => return Err(e),
    };
    if strings::str_eq(key, "name") {
        match read::as_str(value, "mode_info name") {
            Ok(name) => info.name = name.to_owned(),
            Err(e) => return Err(e),
        }
    } else if strings::str_eq(key, "cursor_shape") {
        match read::as_str(value, "mode_info cursor_shape") {
            Ok(name) => match cursor_shape(name) {
                Ok(shape) => info.shape = shape,
                Err(e) => return Err(e),
            },
            Err(e) => return Err(e),
        }
    } else if strings::str_eq(key, "cell_percentage") {
        match read::as_u8(value, key) {
            Ok(n) => info.cell_percentage = n,
            Err(e) => return Err(e),
        }
    } else if strings::str_eq(key, "attr_id") {
        match read::as_u32(value, key) {
            Ok(n) => info.attr_id = n,
            Err(e) => return Err(e),
        }
    }
    Ok(())
}

/// Reads one mode of the table. What it does not give keeps its default.
#[verifier::loop_isolation(false)]
fn read_mode(entry: &Value) -> (r: Result<ModeInfo, RedrawError>)
    ensures
        (match r {
            Ok(info) => protocol::decode_mode(*entry) == Ok::<ModeInfoView, Fault>(info@),
            Err(e) => protocol::decode_mode(*entry) == Err::<ModeInfoView, Fault>(e@),
        }),
{
    let entries = match read::as_map(entry, "mode_info_set mode_info") {
        Ok(entries) => entries,
        Err(e) => return Err(e),
    };
    let mut info = ModeInfo::default();
    let mut i: usize = 0;
    while i < entries.len()
        invariant
            i <= entries@.len(),
            protocol::info_fold(entries@.take(i as int)) == Ok::<ModeInfoView, Fault>(info@),
        decreases entries@.len() - i,
    {
        assert(entries@.take(i + 1).drop_last() =~= entries@.take(i as int));
        assert(entries@.take(i + 1).last() == entries@[i as int]);
        match read_info(&mut info, &entries[i].0, &entries[i].1) {
            Ok(_) => {},
            Err(e) => {
                proof {
                    protocol::lemma_broken_info(entries@, i + 1);
                }
                return Err(e);
            },
        }
        i = i + 1;
    }
    assert(entries@.take(entries@.len() as int) =~= entries@);
    Ok(info)
}

#[verifier::loop_isolation(false)]
fn mode_info_set(state: &mut UiState, args: &[Value]) -> (r: Result<(), RedrawError>)
    requires
        old(state).well_formed(),
    ensures
        final(state).well_formed(),
        forall|out: RedrawOutcome|
            #[trigger] protocol::run_decoded(old(state)@, out, protocol::decode_modes(args@)) == (
            Step { ui: final(state)@, out, end: end_of(r) }),
{
    let event = "mode_info_set";
    let enabled: bool = match read::bool_arg(args, 0, event, "mode_info_set cursor_style_enabled") {
        Ok(b) => b,
        Err(e) => return Err(e),
    };
    let list = match read::array_arg(args, 1, event, "mode_info_set mode_info list") {
        Ok(list) => list,
        Err(e) => return Err(e),
    };
    let mut modes: Vec<ModeInfo> = Vec::new();
    assert(mode::shown_modes(modes@) =~= seq![]);
    let mut i: usize = 0;
    while i < list.len()
        invariant
            i <= list@.len(),
            protocol::decode_mode_list(list@.take(i as int)) == Ok::<Seq<ModeInfoView>, Fault>(
                mode::shown_modes(modes@),
            ),
        decreases list@.len() - i,
    {
        assert(list@.take(i + 1).drop_last() =~= list@.take(i as int));
        assert(list@.take(i + 1).last() == list@[i as int]);
        let ghost was = modes@;
        match read_mode(&list[i]) {
            Ok(info) => modes.push(info),
            Err(e) => {
                proof {
                    protocol::lemma_broken_modes(list@, i + 1);
                }
                return Err(e);
            },
        }
        assert(mode::shown_modes(modes@) =~= mode::shown_modes(was).push(modes@.last()@));
        i = i + 1;
    }
    assert(list@.take(list@.len() as int) =~= list@);
    state.mode.set_modes(modes, enabled);
    Ok(())
}

fn grid_resize(state: &mut UiState, outcome: &mut RedrawOutcome, args: &[Value]) -> (r: Result<
    (),
    RedrawError,
>)
    requires
        old(state).well_formed(),
        protocol::resize_fits(args@),
    ensures
        final(state).well_formed(),
        protocol::run_decoded(old(state)@, *old(outcome), protocol::decode_resize(args@)) == (Step {
            ui: final(state)@,
            out: *final(outcome),
            end: end_of(r),
        }),
{
    let event = "grid_resize";
    match targets_our_grid(args, event) {
        Ok(true) => {},
        Ok(false) => return Ok(()),
        Err(e) => return Err(e),
    }
    let cols: usize = match read::usize_arg(args, 1, event, "grid_resize width") {
        Ok(n) => n,
        Err(e) => return Err(e),
    };
    let rows: usize = match read::usize_arg(args, 2, event, "grid_resize height") {
        Ok(n) => n,
        Err(e) => return Err(e),
    };
    state.grid = Grid::new(cols, rows);
    outcome.resized = true;
    Ok(())
}

fn grid_clear(state: &mut UiState, args: &[Value]) -> (r: Result<(), RedrawError>)
    requires
        old(state).well_formed(),
    ensures
        final(state).well_formed(),
        forall|out: RedrawOutcome|
            #[trigger] protocol::run_decoded(
                old(state)@,
                out,
                protocol::decode_plain(args@, "grid_clear"@, Command::Clear),
            ) == (Step { ui: final(state)@, out, end: end_of(r) }),
{
    match targets_our_grid(args, "grid_clear") {
        Ok(true) => {},
        Ok(false) => return Ok(()),
        Err(e) => return Err(e),
    }
    state.grid.clear();
    Ok(())
}

fn grid_destroy(state: &mut UiState, args: &[Value]) -> (r: Result<(), RedrawError>)
    requires
        old(state).well_formed(),
    ensures
        final(state).well_formed(),
        forall|out: RedrawOutcome|
            #[trigger] protocol::run_decoded(
                old(state)@,
                out,
                protocol::decode_plain(args@, "grid_destroy"@, Command::Destroy),
            ) == (Step { ui: final(state)@, out, end: end_of(r) }),
{
    match targets_our_grid(args, "grid_destroy") {
        Ok(true) => {},
        Ok(false) => return Ok(()),
        Err(e) => return Err(e),
    }
    state.grid = Grid::default();
    Ok(())
}

fn grid_cursor_goto(state: &mut UiState, args: &[Value]) -> (r: Result<(), RedrawError>)
    requires
        old(state).well_formed(),
    ensures
        final(state).well_formed(),
        forall|out: RedrawOutcome|
            #[trigger] protocol::run_decoded(old(state)@, out, protocol::decode_goto(args@)) == (
            Step { ui: final(state)@, out, end: end_of(r) }),
{
    let event = "grid_cursor_goto";
    match targets_our_grid(args, event) {
        Ok(true) => {},
        Ok(false) => return Ok(()),
        Err(e) => return Err(e),
    }
    let row: usize = match read::usize_arg(args, 1, event, "grid_cursor_goto row") {
        Ok(n) => n,
        Err(e) => return Err(e),
    };
    let col: usize = match read::usize_arg(args, 2, event, "grid_cursor_goto col") {
        Ok(n) => n,
        Err(e) => return Err(e),
    };
    state.cursor = CursorPos { row, col };
    Ok(())
}

fn default_colors_set(state: &mut UiState, args: &[Value]) -> (r: Result<(), RedrawError>)
    requires
        old(state).well_formed(),
    ensures
        final(state).well_formed(),
        forall|out: RedrawOutcome|
            #[trigger] protocol::run_decoded(old(state)@, out, protocol::decode_colours(args@)) == (
            Step { ui: final(state)@, out, end: end_of(r) }),
{
    let event = "default_colors_set";
    let fg = match read::rgb_arg(args, 0, event, "default_colors_set rgb_fg") {
        Ok(rgb) => rgb,
        Err(e) => return Err(e),
    };
    let bg = match read::rgb_arg(args, 1, event, "default_colors_set rgb_bg") {
        Ok(rgb) => rgb,
        Err(e) => return Err(e),
    };
    let sp = match read::rgb_arg(args, 2, event, "default_colors_set rgb_sp") {
        Ok(rgb) => rgb,
        Err(e) => return Err(e),
    };
    state.hl.set_defaults(fg, bg, sp);
    Ok(())
}

fn mode_change(state: &mut UiState, outcome: &mut RedrawOutcome, args: &[Value]) -> (r: Result<
    (),
    RedrawError,
>)
    requires
        old(state).well_formed(),
    ensures
        final(state).well_formed(),
        protocol::run_decoded(old(state)@, *old(outcome), protocol::decode_mode_change(args@)) == (
        Step { ui: final(state)@, out: *final(outcome), end: end_of(r) }),
{
    let event = "mode_change";
    let name = match read::str_arg(args, 0, event, "mode_change mode_name") {
        Ok(name) => name,
        Err(e) => return Err(e),
    };
    let index: usize = match read::usize_arg(args, 1, event, "mode_change mode_idx") {
        Ok(n) => n,
        Err(e) => return Err(e),
    };
    state.mode.set_current(name.to_owned(), index);
    outcome.mode_changed = true;
    Ok(())
}

fn option_set(state: &mut UiState, outcome: &mut RedrawOutcome, args: &[Value]) -> (r: Result<
    (),
    RedrawError,
>)
    requires
        old(state).well_formed(),
    ensures
        final(state).well_formed(),
        protocol::run_decoded(old(state)@, *old(outcome), protocol::decode_option(args@)) == (Step {
            ui: final(state)@,
            out: *final(outcome),
            end: end_of(r),
        }),
{
    let event = "option_set";
    let option = match read::str_arg(args, 0, event, "option_set name") {
        Ok(name) => name,
        Err(e) => return Err(e),
    };
    let value = match read::arg(args, 1, event) {
        Ok(v) => v,
        Err(e) => return Err(e),
    };
    if strings::str_eq(option, "guifont") {
        let spec = match read::as_str(value, "option_set guifont") {
            Ok(spec) => spec,
            Err(e) => return Err(e),
        };
        state.guifont = if spec.is_empty() {
            None
        } else {
            Some(spec.to_owned())
        };
        outcome.font_changed = true;
    }
    Ok(())
}

fn set_title(state: &mut UiState, outcome: &mut RedrawOutcome, args: &[Value]) -> (r: Result<
    (),
    RedrawError,
>)
    requires
        old(state).well_formed(),
    ensures
        final(state).well_formed(),
        protocol::run_decoded(old(state)@, *old(outcome), protocol::decode_title(args@)) == (Step {
            ui: final(state)@,
            out: *final(outcome),
            end: end_of(r),
        }),
{
    let title = match read::str_arg(args, 0, "set_title", "set_title title") {
        Ok(title) => title,
        Err(e) => return Err(e),
    };
    state.title = title.to_owned();
    outcome.title_changed = true;
    Ok(())
}

/// Applies one call of an event.
fn apply_one(
    state: &mut UiState,
    outcome: &mut RedrawOutcome,
    event: &str,
    args: &[Value],
) -> (r: Result<(), RedrawError>)
    requires
        old(state).well_formed(),
        protocol::run_one(old(state)@, *old(outcome), event@, args@).end != End::Oversized,
    ensures
        final(state).well_formed(),
        protocol::run_one(old(state)@, *old(outcome), event@, args@) == (Step {
            ui: final(state)@,
            out: *final(outcome),
            end: end_of(r),
        }),
{
    if strings::str_eq(event, "grid_resize") {
        grid_resize(state, outcome, args)
    } else if strings::str_eq(event, "grid_clear") {
        grid_clear(state, args)
    } else if strings::str_eq(event, "grid_destroy") {
        grid_destroy(state, args)
    } else if strings::str_eq(event, "grid_cursor_goto") {
        grid_cursor_goto(state, args)
    } else if strings::str_eq(event, "grid_line") {
        grid_line(state, args)
    } else if strings::str_eq(event, "grid_scroll") {
        grid_scroll(state, args)
    } else if strings::str_eq(event, "hl_attr_define") {
        hl_attr_define(state, args)
    } else if strings::str_eq(event, "default_colors_set") {
        default_colors_set(state, args)
    } else if strings::str_eq(event, "mode_info_set") {
        mode_info_set(state, args)
    } else if strings::str_eq(event, "mode_change") {
        mode_change(state, outcome, args)
    } else if strings::str_eq(event, "option_set") {
        option_set(state, outcome, args)
    } else if strings::str_eq(event, "set_title") {
        set_title(state, outcome, args)
    } else if strings::str_eq(event, "busy_start") {
        state.busy = true;
        Ok(())
    } else if strings::str_eq(event, "busy_stop") {
        state.busy = false;
        Ok(())
    } else if strings::str_eq(event, "flush") {
        outcome.flushed = true;
        Ok(())
    } else {
        Ok(())
    }
}

/// Applies the calls of an event, which follow its name in `parts`.
fn apply_calls(
    state: &mut UiState,
    outcome: &mut RedrawOutcome,
    name: &str,
    parts: &Vec<Value>,
) -> (r: Result<(), RedrawError>)
    requires
        old(state).well_formed(),
        parts@.len() > 0,
        protocol::run_calls(
            Step { ui: old(state)@, out: *old(outcome), end: End::Fine },
            name@,
            parts@.drop_first(),
        ).end != End::Oversized,
    ensures
        final(state).well_formed(),
        protocol::run_calls(
            Step { ui: old(state)@, out: *old(outcome), end: End::Fine },
            name@,
            parts@.drop_first(),
        ) == (Step { ui: final(state)@, out: *final(outcome), end: end_of(r) }),
{
    let ghost start = Step { ui: state@, out: *outcome, end: End::Fine };
    let ghost calls = parts@.drop_first();
    let mut i: usize = 1;
    assert(calls.take(0) =~= seq![]);
    while i < parts.len()
        invariant
            1 <= i <= parts@.len(),
            calls == parts@.drop_first(),
            start == (Step { ui: old(state)@, out: *old(outcome), end: End::Fine }),
            state.well_formed(),
            protocol::run_calls(start, name@, calls).end != End::Oversized,
            protocol::run_calls(start, name@, calls.take(i - 1)) == (Step {
                ui: state@,
                out: *outcome,
                end: End::Fine,
            }),
        decreases parts@.len() - i,
    {
        proof {
            protocol::lemma_next_call(start, name@, calls, i - 1);
        }
        assert(calls[i - 1] == parts@[i as int]);
        let args = match read::as_array(&parts[i], name) {
            Ok(args) => args,
            Err(e) => return Err(e),
        };
        match apply_one(state, outcome, name, args.as_slice()) {
            Ok(_) => {},
            Err(e) => return Err(e),
        }
        i = i + 1;
    }
    assert(calls.take(calls.len() as int) =~= calls);
    Ok(())
}

/// Applies one event with all its calls.
fn apply_event(state: &mut UiState, outcome: &mut RedrawOutcome, event: &Value) -> (r: Result<
    (),
    RedrawError,
>)
    requires
        old(state).well_formed(),
        protocol::run_event(
            Step { ui: old(state)@, out: *old(outcome), end: End::Fine },
            *event,
        ).end != End::Oversized,
    ensures
        final(state).well_formed(),
        protocol::run_event(Step { ui: old(state)@, out: *old(outcome), end: End::Fine }, *event)
            == (Step { ui: final(state)@, out: *final(outcome), end: end_of(r) }),
{
    let parts = match read::as_array(event, "redraw event") {
        Ok(parts) => parts,
        Err(e) => return Err(e),
    };
    if parts.len() == 0 {
        return Err(RedrawError::EmptyEvent);
    }
    let name = match read::as_str(&parts[0], "redraw event name") {
        Ok(name) => name,
        Err(e) => return Err(e),
    };
    if parts.len() == 1 {
        let none: Vec<Value> = Vec::new();
        return apply_one(state, outcome, name, none.as_slice());
    }
    apply_calls(state, outcome, name, parts)
}

/// Applies the params of one redraw notification.
///
/// Each element of `batch` is `[event_name, args, args, ..]`: nvim sends several calls of one event
/// together. Unknown events are passed over; a known event with broken arguments is an error, and
/// what was applied before it stays.
#[verifier::loop_isolation(false)]
pub fn apply(state: &mut UiState, batch: &[Value]) -> (r: Result<RedrawOutcome, RedrawError>)
    requires
        old(state).well_formed(),
        protocol::run_batch(old(state)@, batch@).end != End::Oversized,
    ensures
        final(state).well_formed(),
        ({
            let step = protocol::run_batch(old(state)@, batch@);
            &&& final(state)@ == step.ui
            &&& match r {
                Ok(outcome) => step.end == End::Fine && outcome == step.out,
                Err(e) => step.end == End::Broken(e@),
            }
        }),
{
    let ghost start = state@;
    let mut outcome = RedrawOutcome::default();
    let mut i: usize = 0;
    assert(batch@.take(0) =~= seq![]);
    while i < batch.len()
        invariant
            i <= batch@.len(),
            state.well_formed(),
            protocol::run_batch(start, batch@.take(i as int)) == (Step {
                ui: state@,
                out: outcome,
                end: End::Fine,
            }),
        decreases batch@.len() - i,
    {
        proof {
            protocol::lemma_next_event(start, batch@, i as int);
        }
        match apply_event(state, &mut outcome, &batch[i]) {
            Ok(_) => {},
            Err(e) => return Err(e),
        }
        i = i + 1;
    }
    assert(batch@.take(batch@.len() as int) =~= batch@);
    Ok(outcome)
}

/// Whether a `grid_resize` with these arguments asks for a grid that memory can hold.
fn resize_fits(args: &[Value]) -> (fits: bool)
    ensures
        fits == protocol::resize_fits(args@),
{
    let event = "grid_resize";
    match targets_our_grid(args, event) {
        Ok(true) => {},
        _ => return true,
    }
    let cols: usize = match read::usize_arg(args, 1, event, "grid_resize width") {
        Ok(n) => n,
        Err(_) => return true,
    };
    let rows: usize = match read::usize_arg(args, 2, event, "grid_resize height") {
        Ok(n) => n,
        Err(_) => return true,
    };
    match cols.checked_mul(rows) {
        None => {
            assert(cols * rows * grid::CELL_SIZE > isize::MAX) by (nonlinear_arith)
                requires
                    cols * rows > usize::MAX,
                    grid::CELL_SIZE == 24,
                    usize::MAX >= isize::MAX,
            ;
            false
        },
        Some(cells) => cells <= isize::MAX as usize / grid::CELL_SIZE,
    }
}

/// Whether every resize of the batch asks for a grid that memory can hold. A batch that passes
/// can be applied to any state.
pub fn fits(batch: &[Value]) -> (fits: bool)
    ensures
        fits == protocol::batch_fits(batch@),
        fits ==> forall|ui: UiView| (#[trigger] protocol::run_batch(ui, batch@)).end
            != End::Oversized,
{
    let mut i: usize = 0;
    while i < batch.len()
        invariant
            i <= batch@.len(),
            forall|k: int| 0 <= k < i ==> protocol::event_fits(#[trigger] batch@[k]),
        decreases batch@.len() - i,
    {
        let event = &batch[i];
        if let Some(parts) = event.as_array() {
            if parts.len() > 0 {
                if let Some(name) = parts[0].as_str() {
                    if strings::str_eq(name, "grid_resize") {
                        let mut j: usize = 1;
                        while j < parts.len()
                            invariant
                                i < batch@.len(),
                                1 <= j <= parts@.len(),
                                *event == batch@[i as int],
                                event.items() == Some(parts@),
                                parts@[0].text() == Some("grid_resize"@),
                                forall|k: int|
                                    #![trigger parts@[k]]
                                    1 <= k < j ==> (parts@[k].items() matches Some(args)
                                        ==> protocol::resize_fits(args)),
                            decreases parts@.len() - j,
                        {
                            if let Some(args) = parts[j].as_array() {
                                if !resize_fits(args.as_slice()) {
                                    assert(!protocol::event_fits(batch@[i as int]));
                                    return false;
                                }
                            }
                            j = j + 1;
                        }
                    }
                }
            }
        }
        assert(protocol::event_fits(batch@[i as int]));
        i = i + 1;
    }
    proof {
        assert forall|ui: UiView| (#[trigger] protocol::run_batch(ui, batch@)).end
            != End::Oversized by {
            protocol::law_fitting_batch(ui, batch@);
        }
    }
    true
}

} // verus!
