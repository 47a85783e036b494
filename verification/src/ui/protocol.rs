//! What the redraw events of nvim mean for the state of the screen.
//!
//! A call of an event is first decoded into a [`Command`], which depends on its arguments alone, and
//! the command then acts on the state. A call that cannot be decoded changes nothing. Events with
//! an unknown name mean nothing: the protocol may grow. Known events with broken arguments are
//! faults, which end the batch; what came before them stays applied.

use vstd::prelude::*;

use crate::ui::cell;
use crate::ui::cell::CellView;
use crate::ui::fault::Fault;
use crate::ui::grid;
use crate::ui::grid::GridView;
use crate::ui::highlight;
use crate::ui::highlight::{HlAttr, Rgb, Underline};
use crate::ui::mode;
use crate::ui::mode::{CursorShape, ModeInfoView};
use crate::ui::read;
use crate::ui::state;
use crate::ui::state::{CursorPos, RedrawOutcome, UiView};
use crate::value::Value;

verus! {

/// The one grid that nvim draws to. Events for any other grid are dropped.
pub const GRID: u64 = 1;

/// One decoded call of an event.
#[verifier::ext_equal]
pub enum Command {
    /// Nothing to do: another grid, an unknown event or an option that is not shown.
    Skip,
    Resize { cols: usize, rows: usize },
    Clear,
    Destroy,
    Goto { pos: CursorPos },
    Line { row: usize, col: usize, cells: Seq<Value> },
    Scroll { top: usize, bot: usize, left: usize, right: usize, by: i64 },
    Define { id: u32, attr: HlAttr },
    Colours { fg: Rgb, bg: Rgb, sp: Rgb },
    Modes { modes: Seq<ModeInfoView>, enabled: bool },
    Mode { name: Seq<char>, index: usize },
    Font { spec: Seq<char> },
    Title { title: Seq<char> },
    Busy { busy: bool },
    Flush,
}

/// How far a batch got.
#[verifier::ext_equal]
pub enum End {
    /// All events so far were applied.
    Fine,
    /// An event was broken.
    Broken(Fault),
    /// A resize asked for a grid that no memory can hold.
    Oversized,
}

/// The state, what the drawing side has to know, and how far it went.
#[verifier::ext_equal]
pub struct Step {
    pub ui: UiView,
    pub out: RedrawOutcome,
    pub end: End,
}

/// Whether the call is for the grid that is shown.
pub open spec fn targets(args: Seq<Value>, event: Seq<char>) -> Result<bool, Fault> {
    match read::read_arg(args, 0, event) {
        Ok(v) => match read::read_u64(v, "grid id"@) {
            Ok(grid) => Ok(grid == GRID),
            Err(f) => Err(f),
        },
        Err(f) => Err(f),
    }
}

// ---- grid_line ----
/// One run of equal cells in a `grid_line`.
#[verifier::ext_equal]
pub struct Run {
    pub cell: CellView,
    pub repeat: usize,
}

/// Reads one item of the cells of `grid_line`: `[text(, hl_id(, repeat))]`. A missing highlight is
/// that of the item before it in the same call; a missing repeat is 1.
pub open spec fn decode_run(item: Value, inherited: Option<u32>) -> Result<Run, Fault> {
    match read::read_array(item, "grid_line cell"@) {
        Err(f) => Err(f),
        Ok(parts) => if parts.len() == 0 || parts.len() > 3 {
            Err(Fault::BadCell { items: parts.len() as int })
        } else {
            match read::read_str(parts[0], "grid_line cell text"@) {
                Err(f) => Err(f),
                Ok(text) => match decode_hl(parts, inherited) {
                    Err(f) => Err(f),
                    Ok(hl_id) => match decode_repeat(parts) {
                        Err(f) => Err(f),
                        Ok(repeat) => Ok(
                            Run { cell: CellView { text: cell::cell_text(text), hl_id }, repeat },
                        ),
                    },
                },
            }
        },
    }
}

pub open spec fn decode_hl(parts: Seq<Value>, inherited: Option<u32>) -> Result<u32, Fault> {
    if parts.len() > 1 {
        read::read_u32(parts[1], "grid_line cell hl_id"@)
    } else {
        match inherited {
            Some(hl_id) => Ok(hl_id),
            None => Err(Fault::NoHighlight),
        }
    }
}

pub open spec fn decode_repeat(parts: Seq<Value>) -> Result<usize, Fault> {
    if parts.len() > 2 {
        read::read_usize(parts[2], "grid_line cell repeat"@)
    } else {
        Ok(1)
    }
}

/// The line with `run` written from `col` on, as far as the line goes.
pub open spec fn with_run(line: Seq<CellView>, col: int, run: Run) -> Seq<CellView> {
    Seq::new(
        line.len(),
        |c: int|
            if col <= c < col + run.repeat {
                run.cell
            } else {
                line[c]
            },
    )
}

/// The first column behind the line that `run` would have to be written to.
pub open spec fn overflow_of(line: Seq<CellView>, col: int, run: Run) -> Option<Fault> {
    if run.repeat > 0 && col + run.repeat > line.len() {
        Some(
            Fault::ColumnOutside {
                col: if col < line.len() {
                    line.len() as int
                } else {
                    col
                },
                cols: line.len() as int,
            },
        )
    } else {
        None
    }
}

/// A line after items were painted on it, and the fault that stopped the painting.
#[verifier::ext_equal]
pub struct Painted {
    pub line: Seq<CellView>,
    pub fault: Option<Fault>,
}

/// Paints the items one after the other, starting at `col`. A run past the last column is a fault:
/// the part that fits is painted, the rest is not clipped in silence.
pub open spec fn paint(
    line: Seq<CellView>,
    col: int,
    inherited: Option<u32>,
    items: Seq<Value>,
) -> Painted
    decreases items.len(),
{
    if items.len() == 0 {
        Painted { line, fault: None }
    } else {
        match decode_run(items[0], inherited) {
            Err(f) => Painted { line, fault: Some(f) },
            Ok(run) => match overflow_of(line, col, run) {
                Some(f) => Painted { line: with_run(line, col, run), fault: Some(f) },
                None => paint(
                    with_run(line, col, run),
                    col + run.repeat,
                    Some(run.cell.hl_id),
                    items.drop_first(),
                ),
            },
        }
    }
}

pub open spec fn decode_line(args: Seq<Value>) -> Result<Command, Fault> {
    let event = "grid_line"@;
    match targets(args, event) {
        Err(f) => Err(f),
        Ok(false) => Ok(Command::Skip),
        Ok(true) => match read::read_usize_arg(args, 1, event, "grid_line row"@) {
            Err(f) => Err(f),
            Ok(row) => match read::read_usize_arg(args, 2, event, "grid_line col_start"@) {
                Err(f) => Err(f),
                Ok(col) => match read::read_array_arg(args, 3, event, "grid_line cells"@) {
                    Err(f) => Err(f),
                    // the wrap flag is not used, but it has to be there
                    Ok(cells) => match read::read_bool_arg(args, 4, event, "grid_line wrap"@) {
                        Err(f) => Err(f),
                        Ok(_) => Ok(Command::Line { row, col, cells }),
                    },
                },
            },
        },
    }
}

// ---- grid_scroll ----
pub open spec fn read_i64_arg(args: Seq<Value>, index: int, event: Seq<char>, what: Seq<char>) -> Result<
    i64,
    Fault,
> {
    match read::read_arg(args, index, event) {
        Ok(v) => read::read_i64(v, what),
        Err(f) => Err(f),
    }
}

pub open spec fn decode_scroll(args: Seq<Value>) -> Result<Command, Fault> {
    let event = "grid_scroll"@;
    match targets(args, event) {
        Err(f) => Err(f),
        Ok(false) => Ok(Command::Skip),
        Ok(true) => match read::read_usize_arg(args, 1, event, "grid_scroll top"@) {
            Err(f) => Err(f),
            Ok(top) => match read::read_usize_arg(args, 2, event, "grid_scroll bot"@) {
                Err(f) => Err(f),
                Ok(bot) => match read::read_usize_arg(args, 3, event, "grid_scroll left"@) {
                    Err(f) => Err(f),
                    Ok(left) => match read::read_usize_arg(args, 4, event, "grid_scroll right"@) {
                        Err(f) => Err(f),
                        Ok(right) => match read_i64_arg(args, 5, event, "grid_scroll rows"@) {
                            Err(f) => Err(f),
                            Ok(rows) => match read_i64_arg(args, 6, event, "grid_scroll cols"@) {
                                Err(f) => Err(f),
                                Ok(cols) => if cols != 0 {
                                    Err(Fault::Horizontal { by: cols as int })
                                } else {
                                    Ok(Command::Scroll { top, bot, left, right, by: rows })
                                },
                            },
                        },
                    },
                },
            },
        },
    }
}

/// The grid after the part `[top, bot)` by `[left, right)` moved up by `rows` (down where `rows` is
/// negative). Every cell takes over the cell `rows` below it, as it was before, where that one lies
/// in the part; where it does not, the cell stays as it is.
pub open spec fn scrolled(
    g: GridView,
    top: int,
    bot: int,
    left: int,
    right: int,
    rows: int,
) -> GridView {
    GridView {
        cols: g.cols,
        lines: Seq::new(
            g.rows(),
            |r: int|
                Seq::new(
                    g.cols,
                    |c: int|
                        if top <= r < bot && left <= c < right && top <= r + rows < bot {
                            g.at(r + rows, c)
                        } else {
                            g.at(r, c)
                        },
                ),
        ),
    }
}

/// The distance of a scroll.
pub open spec fn distance(rows: i64) -> int {
    if rows < 0 {
        -rows
    } else {
        rows as int
    }
}

pub open spec fn scroll_fault(
    g: GridView,
    top: int,
    bot: int,
    left: int,
    right: int,
    rows: i64,
) -> Option<Fault> {
    if top > bot || bot > g.rows() {
        Some(Fault::RowRange { top, bot, rows: g.rows() as int })
    } else if left > right || right > g.cols {
        Some(Fault::ColumnRange { left, right, cols: g.cols as int })
    } else {
        match read::index_of(distance(rows), "grid_scroll rows"@) {
            Err(f) => Some(f),
            Ok(_) => None,
        }
    }
}

// ---- hl_attr_define ----
/// The attributes read so far. Each kind of underline is noted for itself, so that the order in
/// which a map lists them does not matter.
#[derive(Clone, Copy, Debug, PartialEq, Eq)]
pub struct Pending {
    pub attr: HlAttr,
    pub line: bool,
    pub curl: bool,
    pub double: bool,
    pub dotted: bool,
    pub dashed: bool,
}

pub open spec fn nothing_pending() -> Pending {
    Pending {
        attr: highlight::plain_attr(),
        line: false,
        curl: false,
        double: false,
        dotted: false,
        dashed: false,
    }
}

/// What one entry of the rgb map sets.
#[derive(Clone, Copy, Debug, PartialEq, Eq)]
pub enum Change {
    /// A name that is not known is passed over.
    Nothing,
    Fg(Rgb),
    Bg(Rgb),
    Sp(Rgb),
    Reverse(bool),
    Bold(bool),
    Italic(bool),
    Strikethrough(bool),
    Line(bool),
    Curl(bool),
    Double(bool),
    Dotted(bool),
    Dashed(bool),
    Blend(u8),
}

pub open spec fn colour_change(v: Value, key: Seq<char>, change: spec_fn(Rgb) -> Change) -> Result<
    Change,
    Fault,
> {
    match read::read_rgb(v, key) {
        Ok(rgb) => Ok(change(rgb)),
        Err(f) => Err(f),
    }
}

pub open spec fn truth_change(v: Value, key: Seq<char>, change: spec_fn(bool) -> Change) -> Result<
    Change,
    Fault,
> {
    match read::read_bool(v, key) {
        Ok(b) => Ok(change(b)),
        Err(f) => Err(f),
    }
}

pub open spec fn blend_change(v: Value, key: Seq<char>) -> Result<Change, Fault> {
    match read::read_u8(v, key) {
        Ok(blend) => if blend > 100 {
            Err(Fault::BadBlend { blend: blend as int })
        } else {
            Ok(Change::Blend(blend))
        },
        Err(f) => Err(f),
    }
}

/// Reads the value of the attribute `key`.
pub open spec fn decode_attr(key: Seq<char>, v: Value) -> Result<Change, Fault> {
    if key == "foreground"@ {
        colour_change(v, key, |rgb: Rgb| Change::Fg(rgb))
    } else if key == "background"@ {
        colour_change(v, key, |rgb: Rgb| Change::Bg(rgb))
    } else if key == "special"@ {
        colour_change(v, key, |rgb: Rgb| Change::Sp(rgb))
    } else if key == "reverse"@ {
        truth_change(v, key, |b: bool| Change::Reverse(b))
    } else if key == "bold"@ {
        truth_change(v, key, |b: bool| Change::Bold(b))
    } else if key == "italic"@ {
        truth_change(v, key, |b: bool| Change::Italic(b))
    } else if key == "strikethrough"@ {
        truth_change(v, key, |b: bool| Change::Strikethrough(b))
    } else if key == "underline"@ {
        truth_change(v, key, |b: bool| Change::Line(b))
    } else if key == "undercurl"@ {
        truth_change(v, key, |b: bool| Change::Curl(b))
    } else if key == "underdouble"@ {
        truth_change(v, key, |b: bool| Change::Double(b))
    } else if key == "underdotted"@ {
        truth_change(v, key, |b: bool| Change::Dotted(b))
    } else if key == "underdashed"@ {
        truth_change(v, key, |b: bool| Change::Dashed(b))
    } else if key == "blend"@ {
        blend_change(v, key)
    } else {
        Ok(Change::Nothing)
    }
}

pub open spec fn decode_change(entry: (Value, Value)) -> Result<Change, Fault> {
    match read::read_str(entry.0, "hl_attr_define attribute name"@) {
        Err(f) => Err(f),
        Ok(key) => decode_attr(key, entry.1),
    }
}

pub open spec fn changed(p: Pending, change: Change) -> Pending {
    match change {
        Change::Nothing => p,
        Change::Fg(rgb) => Pending { attr: HlAttr { fg: Some(rgb), ..p.attr }, ..p },
        Change::Bg(rgb) => Pending { attr: HlAttr { bg: Some(rgb), ..p.attr }, ..p },
        Change::Sp(rgb) => Pending { attr: HlAttr { sp: Some(rgb), ..p.attr }, ..p },
        Change::Reverse(b) => Pending { attr: HlAttr { reverse: b, ..p.attr }, ..p },
        Change::Bold(b) => Pending { attr: HlAttr { bold: b, ..p.attr }, ..p },
        Change::Italic(b) => Pending { attr: HlAttr { italic: b, ..p.attr }, ..p },
        Change::Strikethrough(b) => Pending { attr: HlAttr { strikethrough: b, ..p.attr }, ..p },
        Change::Line(b) => Pending { line: b, ..p },
        Change::Curl(b) => Pending { curl: b, ..p },
        Change::Double(b) => Pending { double: b, ..p },
        Change::Dotted(b) => Pending { dotted: b, ..p },
        Change::Dashed(b) => Pending { dashed: b, ..p },
        Change::Blend(blend) => Pending { attr: HlAttr { blend, ..p.attr }, ..p },
    }
}

/// Reads one entry of the rgb map.
pub open spec fn attr_step(p: Pending, entry: (Value, Value)) -> Result<Pending, Fault> {
    match decode_change(entry) {
        Err(f) => Err(f),
        Ok(change) => Ok(changed(p, change)),
    }
}

/// Reads the entries of the rgb map in their order.
pub open spec fn attr_fold(entries: Seq<(Value, Value)>) -> Result<Pending, Fault>
    decreases entries.len(),
{
    if entries.len() == 0 {
        Ok(nothing_pending())
    } else {
        match attr_fold(entries.drop_last()) {
            Err(f) => Err(f),
            Ok(p) => attr_step(p, entries.last()),
        }
    }
}

/// The one underline that is drawn where several are set.
pub open spec fn settled_underline(p: Pending) -> Underline {
    if p.line {
        Underline::Line
    } else if p.curl {
        Underline::Undercurl
    } else if p.double {
        Underline::Double
    } else if p.dotted {
        Underline::Dotted
    } else if p.dashed {
        Underline::Dashed
    } else {
        Underline::Off
    }
}

pub open spec fn settled(p: Pending) -> HlAttr {
    HlAttr { underline: settled_underline(p), ..p.attr }
}

pub open spec fn decode_define(args: Seq<Value>) -> Result<Command, Fault> {
    let event = "hl_attr_define"@;
    match read::read_arg(args, 0, event) {
        Err(f) => Err(f),
        Ok(v) => match read::read_u32(v, "hl_attr_define id"@) {
            Err(f) => Err(f),
            Ok(id) => match read::read_arg(args, 1, event) {
                Err(f) => Err(f),
                Ok(m) => match read::read_map(m, "hl_attr_define rgb_attr"@) {
                    Err(f) => Err(f),
                    Ok(entries) => match attr_fold(entries) {
                        Err(f) => Err(f),
                        Ok(p) => Ok(Command::Define { id, attr: settled(p) }),
                    },
                },
            },
        },
    }
}

// ---- mode_info_set ----
pub open spec fn decode_shape(name: Seq<char>) -> Result<CursorShape, Fault> {
    if name == "block"@ {
        Ok(CursorShape::Block)
    } else if name == "horizontal"@ {
        Ok(CursorShape::Horizontal)
    } else if name == "vertical"@ {
        Ok(CursorShape::Vertical)
    } else {
        Err(Fault::UnknownShape { name })
    }
}

/// Reads one entry of a mode. Names that are not known are passed over.
pub open spec fn info_step(info: ModeInfoView, entry: (Value, Value)) -> Result<ModeInfoView, Fault> {
    let value = entry.1;
    match read::read_str(entry.0, "mode_info_set mode_info key"@) {
        Err(f) => Err(f),
        Ok(key) => if key == "name"@ {
            match read::read_str(value, "mode_info name"@) {
                Err(f) => Err(f),
                Ok(name) => Ok(ModeInfoView { name, ..info }),
            }
        } else if key == "cursor_shape"@ {
            match read::read_str(value, "mode_info cursor_shape"@) {
                Err(f) => Err(f),
                Ok(name) => match decode_shape(name) {
                    Err(f) => Err(f),
                    Ok(shape) => Ok(ModeInfoView { shape, ..info }),
                },
            }
        } else if key == "cell_percentage"@ {
            match read::read_u8(value, key) {
                Err(f) => Err(f),
                Ok(cell_percentage) => Ok(ModeInfoView { cell_percentage, ..info }),
            }
        } else if key == "attr_id"@ {
            match read::read_u32(value, key) {
                Err(f) => Err(f),
                Ok(attr_id) => Ok(ModeInfoView { attr_id, ..info }),
            }
        } else {
            Ok(info)
        },
    }
}

pub open spec fn info_fold(entries: Seq<(Value, Value)>) -> Result<ModeInfoView, Fault>
    decreases entries.len(),
{
    if entries.len() == 0 {
        Ok(mode::plain_mode())
    } else {
        match info_fold(entries.drop_last()) {
            Err(f) => Err(f),
            Ok(info) => info_step(info, entries.last()),
        }
    }
}

pub open spec fn decode_mode(entry: Value) -> Result<ModeInfoView, Fault> {
    match read::read_map(entry, "mode_info_set mode_info"@) {
        Err(f) => Err(f),
        Ok(entries) => info_fold(entries),
    }
}

pub open spec fn decode_mode_list(list: Seq<Value>) -> Result<Seq<ModeInfoView>, Fault>
    decreases list.len(),
{
    if list.len() == 0 {
        Ok(seq![])
    } else {
        match decode_mode_list(list.drop_last()) {
            Err(f) => Err(f),
            Ok(modes) => match decode_mode(list.last()) {
                Err(f) => Err(f),
                Ok(info) => Ok(modes.push(info)),
            },
        }
    }
}

pub open spec fn decode_modes(args: Seq<Value>) -> Result<Command, Fault> {
    let event = "mode_info_set"@;
    match read::read_bool_arg(args, 0, event, "mode_info_set cursor_style_enabled"@) {
        Err(f) => Err(f),
        Ok(enabled) => match read::read_array_arg(
            args,
            1,
            event,
            "mode_info_set mode_info list"@,
        ) {
            Err(f) => Err(f),
            Ok(list) => match decode_mode_list(list) {
                Err(f) => Err(f),
                Ok(modes) => Ok(Command::Modes { modes, enabled }),
            },
        },
    }
}

// ---- the other events ----
pub open spec fn decode_resize(args: Seq<Value>) -> Result<Command, Fault> {
    let event = "grid_resize"@;
    match targets(args, event) {
        Err(f) => Err(f),
        Ok(false) => Ok(Command::Skip),
        Ok(true) => match read::read_usize_arg(args, 1, event, "grid_resize width"@) {
            Err(f) => Err(f),
            Ok(cols) => match read::read_usize_arg(args, 2, event, "grid_resize height"@) {
                Err(f) => Err(f),
                Ok(rows) => Ok(Command::Resize { cols, rows }),
            },
        },
    }
}

pub open spec fn decode_plain(args: Seq<Value>, event: Seq<char>, command: Command) -> Result<
    Command,
    Fault,
> {
    match targets(args, event) {
        Err(f) => Err(f),
        Ok(false) => Ok(Command::Skip),
        Ok(true) => Ok(command),
    }
}

pub open spec fn decode_goto(args: Seq<Value>) -> Result<Command, Fault> {
    let event = "grid_cursor_goto"@;
    match targets(args, event) {
        Err(f) => Err(f),
        Ok(false) => Ok(Command::Skip),
        Ok(true) => match read::read_usize_arg(args, 1, event, "grid_cursor_goto row"@) {
            Err(f) => Err(f),
            Ok(row) => match read::read_usize_arg(args, 2, event, "grid_cursor_goto col"@) {
                Err(f) => Err(f),
                Ok(col) => Ok(Command::Goto { pos: CursorPos { row, col } }),
            },
        },
    }
}

pub open spec fn decode_colours(args: Seq<Value>) -> Result<Command, Fault> {
    let event = "default_colors_set"@;
    match read::read_rgb_arg(args, 0, event, "default_colors_set rgb_fg"@) {
        Err(f) => Err(f),
        Ok(fg) => match read::read_rgb_arg(args, 1, event, "default_colors_set rgb_bg"@) {
            Err(f) => Err(f),
            Ok(bg) => match read::read_rgb_arg(args, 2, event, "default_colors_set rgb_sp"@) {
                Err(f) => Err(f),
                Ok(sp) => Ok(Command::Colours { fg, bg, sp }),
            },
        },
    }
}

pub open spec fn decode_mode_change(args: Seq<Value>) -> Result<Command, Fault> {
    let event = "mode_change"@;
    match read::read_str_arg(args, 0, event, "mode_change mode_name"@) {
        Err(f) => Err(f),
        Ok(name) => match read::read_usize_arg(args, 1, event, "mode_change mode_idx"@) {
            Err(f) => Err(f),
            Ok(index) => Ok(Command::Mode { name, index }),
        },
    }
}

pub open spec fn decode_option(args: Seq<Value>) -> Result<Command, Fault> {
    let event = "option_set"@;
    match read::read_str_arg(args, 0, event, "option_set name"@) {
        Err(f) => Err(f),
        Ok(option) => match read::read_arg(args, 1, event) {
            Err(f) => Err(f),
            Ok(v) => if option == "guifont"@ {
                match read::read_str(v, "option_set guifont"@) {
                    Err(f) => Err(f),
                    Ok(spec) => Ok(Command::Font { spec }),
                }
            } else {
                Ok(Command::Skip)
            },
        },
    }
}

pub open spec fn decode_title(args: Seq<Value>) -> Result<Command, Fault> {
    match read::read_str_arg(args, 0, "set_title"@, "set_title title"@) {
        Err(f) => Err(f),
        Ok(title) => Ok(Command::Title { title }),
    }
}

/// Decodes one call of the event `name`.
pub open spec fn decode(name: Seq<char>, args: Seq<Value>) -> Result<Command, Fault> {
    if name == "grid_resize"@ {
        decode_resize(args)
    } else if name == "grid_clear"@ {
        decode_plain(args, name, Command::Clear)
    } else if name == "grid_destroy"@ {
        decode_plain(args, name, Command::Destroy)
    } else if name == "grid_cursor_goto"@ {
        decode_goto(args)
    } else if name == "grid_line"@ {
        decode_line(args)
    } else if name == "grid_scroll"@ {
        decode_scroll(args)
    } else if name == "hl_attr_define"@ {
        decode_define(args)
    } else if name == "default_colors_set"@ {
        decode_colours(args)
    } else if name == "mode_info_set"@ {
        decode_modes(args)
    } else if name == "mode_change"@ {
        decode_mode_change(args)
    } else if name == "option_set"@ {
        decode_option(args)
    } else if name == "set_title"@ {
        decode_title(args)
    } else if name == "busy_start"@ {
        Ok(Command::Busy { busy: true })
    } else if name == "busy_stop"@ {
        Ok(Command::Busy { busy: false })
    } else if name == "flush"@ {
        Ok(Command::Flush)
    } else {
        Ok(Command::Skip)
    }
}

/// The state after a `grid_line`.
pub open spec fn perform_line(
    ui: UiView,
    out: RedrawOutcome,
    row: int,
    col: int,
    cells: Seq<Value>,
) -> Step {
    if row >= ui.grid.rows() {
        Step {
            ui,
            out,
            end: End::Broken(Fault::RowOutside { row, rows: ui.grid.rows() as int }),
        }
    } else {
        let painted = paint(ui.grid.lines[row], col, None, cells);
        Step {
            ui: UiView { grid: ui.grid.with_line(row, painted.line), ..ui },
            out,
            end: match painted.fault {
                Some(f) => End::Broken(f),
                None => End::Fine,
            },
        }
    }
}

/// What a command does.
pub open spec fn perform(ui: UiView, out: RedrawOutcome, command: Command) -> Step {
    match command {
        Command::Skip => Step { ui, out, end: End::Fine },
        Command::Resize { cols, rows } => if grid::fits(cols as int, rows as int) {
            Step {
                ui: UiView { grid: grid::blank_grid(cols as nat, rows as nat), ..ui },
                out: RedrawOutcome { resized: true, ..out },
                end: End::Fine,
            }
        } else {
            Step { ui, out, end: End::Oversized }
        },
        Command::Clear => Step {
            ui: UiView { grid: grid::blank_grid(ui.grid.cols, ui.grid.rows()), ..ui },
            out,
            end: End::Fine,
        },
        // nothing is left to draw
        Command::Destroy => Step {
            ui: UiView { grid: grid::blank_grid(0, 0), ..ui },
            out,
            end: End::Fine,
        },
        Command::Goto { pos } => Step { ui: UiView { cursor: pos, ..ui }, out, end: End::Fine },
        Command::Line { row, col, cells } => perform_line(ui, out, row as int, col as int, cells),
        Command::Scroll { top, bot, left, right, by } => match scroll_fault(
            ui.grid,
            top as int,
            bot as int,
            left as int,
            right as int,
            by,
        ) {
            Some(f) => Step { ui, out, end: End::Broken(f) },
            None => Step {
                ui: UiView {
                    grid: scrolled(
                        ui.grid,
                        top as int,
                        bot as int,
                        left as int,
                        right as int,
                        by as int,
                    ),
                    ..ui
                },
                out,
                end: End::Fine,
            },
        },
        Command::Define { id, attr } => Step {
            ui: UiView { hl: ui.hl.with_attr(id, attr), ..ui },
            out,
            end: End::Fine,
        },
        Command::Colours { fg, bg, sp } => Step {
            ui: UiView { hl: ui.hl.with_defaults(fg, bg, sp), ..ui },
            out,
            end: End::Fine,
        },
        Command::Modes { modes, enabled } => Step {
            ui: UiView { mode: ui.mode.with_modes(modes, enabled), ..ui },
            out,
            end: End::Fine,
        },
        Command::Mode { name, index } => Step {
            ui: UiView { mode: ui.mode.with_current(name, index as nat), ..ui },
            out: RedrawOutcome { mode_changed: true, ..out },
            end: End::Fine,
        },
        // nvim sends an option that is not set as the empty text
        Command::Font { spec } => Step {
            ui: UiView {
                guifont: if spec.len() == 0 {
                    None
                } else {
                    Some(spec)
                },
                ..ui
            },
            out: RedrawOutcome { font_changed: true, ..out },
            end: End::Fine,
        },
        Command::Title { title } => Step {
            ui: UiView { title, ..ui },
            out: RedrawOutcome { title_changed: true, ..out },
            end: End::Fine,
        },
        Command::Busy { busy } => Step { ui: UiView { busy, ..ui }, out, end: End::Fine },
        Command::Flush => Step {
            ui,
            out: RedrawOutcome { flushed: true, ..out },
            end: End::Fine,
        },
    }
}

/// What a decoded call does. One that could not be decoded changes nothing.
pub open spec fn run_decoded(
    ui: UiView,
    out: RedrawOutcome,
    decoded: Result<Command, Fault>,
) -> Step {
    match decoded {
        Err(f) => Step { ui, out, end: End::Broken(f) },
        Ok(command) => perform(ui, out, command),
    }
}

/// One call of an event.
pub open spec fn run_one(ui: UiView, out: RedrawOutcome, name: Seq<char>, args: Seq<Value>) -> Step {
    run_decoded(ui, out, decode(name, args))
}

/// The calls of one event, in their order, up to the first that fails.
pub open spec fn run_calls(step: Step, name: Seq<char>, calls: Seq<Value>) -> Step
    decreases calls.len(),
{
    if calls.len() == 0 {
        step
    } else {
        let before = run_calls(step, name, calls.drop_last());
        if before.end != End::Fine {
            before
        } else {
            match read::read_array(calls.last(), name) {
                Err(f) => Step { end: End::Broken(f), ..before },
                Ok(args) => run_one(before.ui, before.out, name, args),
            }
        }
    }
}

/// One event `[name, call, call, ..]`. An event without any call counts as one call without
/// arguments.
pub open spec fn run_event(step: Step, event: Value) -> Step {
    match read::read_array(event, "redraw event"@) {
        Err(f) => Step { end: End::Broken(f), ..step },
        Ok(parts) => if parts.len() == 0 {
            Step { end: End::Broken(Fault::EmptyEvent), ..step }
        } else {
            match read::read_str(parts[0], "redraw event name"@) {
                Err(f) => Step { end: End::Broken(f), ..step },
                Ok(name) => if parts.len() == 1 {
                    run_one(step.ui, step.out, name, seq![])
                } else {
                    run_calls(step, name, parts.drop_first())
                },
            }
        },
    }
}

/// A whole batch, up to the first event that fails.
pub open spec fn run_batch(ui: UiView, batch: Seq<Value>) -> Step
    decreases batch.len(),
{
    if batch.len() == 0 {
        Step { ui, out: state::no_outcome(), end: End::Fine }
    } else {
        let before = run_batch(ui, batch.drop_last());
        if before.end != End::Fine {
            before
        } else {
            run_event(before, batch.last())
        }
    }
}

/// What stopped a batch stops every longer batch that starts with it, at the same state.
pub proof fn lemma_stopped_batch(ui: UiView, batch: Seq<Value>, n: int)
    requires
        0 <= n <= batch.len(),
        run_batch(ui, batch.take(n)).end != End::Fine,
    ensures
        run_batch(ui, batch) == run_batch(ui, batch.take(n)),
    decreases batch.len() - n,
{
    if n < batch.len() {
        assert(batch.take(n + 1).drop_last() =~= batch.take(n));
        lemma_stopped_batch(ui, batch, n + 1);
    } else {
        assert(batch.take(n) =~= batch);
    }
}

/// What stopped the calls of an event stops every longer list of calls that starts with them.
pub proof fn lemma_stopped_calls(step: Step, name: Seq<char>, calls: Seq<Value>, n: int)
    requires
        0 <= n <= calls.len(),
        run_calls(step, name, calls.take(n)).end != End::Fine,
    ensures
        run_calls(step, name, calls) == run_calls(step, name, calls.take(n)),
    decreases calls.len() - n,
{
    if n < calls.len() {
        assert(calls.take(n + 1).drop_last() =~= calls.take(n));
        lemma_stopped_calls(step, name, calls, n + 1);
    } else {
        assert(calls.take(n) =~= calls);
    }
}

/// One more call of an event whose calls so far went well.
pub proof fn lemma_next_call(start: Step, name: Seq<char>, calls: Seq<Value>, n: int)
    requires
        0 <= n < calls.len(),
        run_calls(start, name, calls.take(n)).end == End::Fine,
    ensures
        ({
            let before = run_calls(start, name, calls.take(n));
            let after = run_calls(start, name, calls.take(n + 1));
            &&& after == (match read::read_array(calls[n], name) {
                Err(f) => Step { end: End::Broken(f), ..before },
                Ok(args) => run_one(before.ui, before.out, name, args),
            })
            &&& after.end != End::Fine ==> run_calls(start, name, calls) == after
        }),
{
    assert(calls.take(n + 1).drop_last() =~= calls.take(n));
    assert(calls.take(n + 1).last() == calls[n]);
    if run_calls(start, name, calls.take(n + 1)).end != End::Fine {
        lemma_stopped_calls(start, name, calls, n + 1);
    }
}

/// One more event of a batch whose events so far went well.
pub proof fn lemma_next_event(ui: UiView, batch: Seq<Value>, n: int)
    requires
        0 <= n < batch.len(),
        run_batch(ui, batch.take(n)).end == End::Fine,
    ensures
        ({
            let after = run_batch(ui, batch.take(n + 1));
            &&& after == run_event(run_batch(ui, batch.take(n)), batch[n])
            &&& after.end != End::Fine ==> run_batch(ui, batch) == after
        }),
{
    assert(batch.take(n + 1).drop_last() =~= batch.take(n));
    assert(batch.take(n + 1).last() == batch[n]);
    if run_batch(ui, batch.take(n + 1)).end != End::Fine {
        lemma_stopped_batch(ui, batch, n + 1);
    }
}

/// An entry that cannot be read makes the whole rgb map unreadable, with the first such fault.
pub proof fn lemma_broken_attrs(entries: Seq<(Value, Value)>, n: int)
    requires
        0 <= n <= entries.len(),
        attr_fold(entries.take(n)) is Err,
    ensures
        attr_fold(entries) == attr_fold(entries.take(n)),
    decreases entries.len() - n,
{
    if n < entries.len() {
        assert(entries.take(n + 1).drop_last() =~= entries.take(n));
        lemma_broken_attrs(entries, n + 1);
    } else {
        assert(entries.take(n) =~= entries);
    }
}

/// An entry that cannot be read makes the whole mode unreadable, with the first such fault.
pub proof fn lemma_broken_info(entries: Seq<(Value, Value)>, n: int)
    requires
        0 <= n <= entries.len(),
        info_fold(entries.take(n)) is Err,
    ensures
        info_fold(entries) == info_fold(entries.take(n)),
    decreases entries.len() - n,
{
    if n < entries.len() {
        assert(entries.take(n + 1).drop_last() =~= entries.take(n));
        lemma_broken_info(entries, n + 1);
    } else {
        assert(entries.take(n) =~= entries);
    }
}

/// A mode that cannot be read makes the whole list unreadable, with the first such fault.
pub proof fn lemma_broken_modes(list: Seq<Value>, n: int)
    requires
        0 <= n <= list.len(),
        decode_mode_list(list.take(n)) is Err,
    ensures
        decode_mode_list(list) == decode_mode_list(list.take(n)),
    decreases list.len() - n,
{
    if n < list.len() {
        assert(list.take(n + 1).drop_last() =~= list.take(n));
        lemma_broken_modes(list, n + 1);
    } else {
        assert(list.take(n) =~= list);
    }
}

/// Whether a `grid_resize` with these arguments asks for a grid that memory can hold.
pub open spec fn resize_fits(args: Seq<Value>) -> bool {
    decode_resize(args) matches Ok(Command::Resize { cols, rows }) ==> grid::fits(
        cols as int,
        rows as int,
    )
}

/// Whether every resize of the event asks for a grid that memory can hold.
pub open spec fn event_fits(event: Value) -> bool {
    event.items() matches Some(parts) ==> parts.len() > 0 && parts[0].text() == Some(
        "grid_resize"@,
    ) ==> (forall|j: int|
        #![trigger parts[j]]
        1 <= j < parts.len() ==> (parts[j].items() matches Some(args) ==> resize_fits(args)))
}

/// Whether every resize of the batch asks for a grid that memory can hold.
pub open spec fn batch_fits(batch: Seq<Value>) -> bool {
    forall|i: int| 0 <= i < batch.len() ==> event_fits(#[trigger] batch[i])
}

/// The calls of an event whose resizes fit do not run out of memory.
proof fn lemma_calls_fit(step: Step, name: Seq<char>, calls: Seq<Value>)
    requires
        step.end == End::Fine,
        name == "grid_resize"@ ==> forall|j: int|
            #![trigger calls[j]]
            0 <= j < calls.len() ==> (calls[j].items() matches Some(args) ==> resize_fits(args)),
    ensures
        run_calls(step, name, calls).end != End::Oversized,
    decreases calls.len(),
{
    if calls.len() > 0 {
        assert forall|j: int|
            #![trigger calls.drop_last()[j]]
            name == "grid_resize"@ && 0 <= j < calls.drop_last().len() implies (
        calls.drop_last()[j].items() matches Some(args) ==> resize_fits(args)) by {
            assert(calls.drop_last()[j] == calls[j]);
        }
        lemma_calls_fit(step, name, calls.drop_last());
        let last = calls.last();
        assert(last == calls[calls.len() - 1]);
    }
}

/// A batch whose resizes fit does not run out of memory, whatever the state it meets.
pub proof fn law_fitting_batch(ui: UiView, batch: Seq<Value>)
    requires
        batch_fits(batch),
    ensures
        run_batch(ui, batch).end != End::Oversized,
    decreases batch.len(),
{
    if batch.len() > 0 {
        assert forall|i: int| 0 <= i < batch.drop_last().len() implies event_fits(
            #[trigger] batch.drop_last()[i],
        ) by {
            assert(event_fits(batch[i]));
        }
        law_fitting_batch(ui, batch.drop_last());
        let before = run_batch(ui, batch.drop_last());
        let event = batch.last();
        assert(event_fits(batch[batch.len() - 1]));
        if before.end == End::Fine {
            if let Some(parts) = event.items() {
                if parts.len() > 1 {
                    if let Some(name) = parts[0].text() {
                        let calls = parts.drop_first();
                        if name == "grid_resize"@ {
                            assert forall|j: int|
                                #![trigger calls[j]]
                                0 <= j < calls.len() implies (calls[j].items() matches Some(args)
                                ==> resize_fits(args)) by {
                                assert(calls[j] == parts[j + 1]);
                            }
                        }
                        lemma_calls_fit(before, name, calls);
                    }
                }
            }
        }
    }
}

} // verus!
