//! What a frame consists of.
//!
//! All decisions of drawing are made here, in cells and code units; turning them into pixels is left
//! to the renderer. The order matters: backgrounds, text, the cursor, and on top of all the text
//! being composed.

use vstd::prelude::*;

use crate::gui::ime::{Preedit, PreeditView};
use crate::strings;
use crate::ui::cell::{Cell, CellView};
use crate::ui::grid;
use crate::ui::highlight::{Highlights, HighlightsView, Rgb, Style, Underline};
use crate::ui::mode;
use crate::ui::mode::{CursorShape, ModeInfoView};
use crate::ui::state::{UiState, UiView};
use crate::utf16;

verus! {

/// Cells `[start, end)` of a row that share a background other than the default.
#[derive(Clone, Copy, Debug, PartialEq, Eq, Structural)]
pub struct BackgroundRun {
    pub row: usize,
    pub start: usize,
    pub end: usize,
    pub bg: Rgb,
}

/// Text of one style that is drawn in one go, from `col` on, over `span` cells.
#[derive(Debug, PartialEq, Eq)]
pub struct TextRun {
    pub row: usize,
    pub col: usize,
    pub span: usize,
    pub text: Vec<u16>,
    pub style: Style,
}

#[verifier::ext_equal]
pub struct TextRunView {
    pub row: int,
    pub col: int,
    pub span: int,
    pub text: Seq<u16>,
    pub style: Style,
}

// ---- backgrounds ----
/// Where the run of equal colours that `col` belongs to ends.
pub open spec fn run_end(bgs: Seq<Rgb>, col: int) -> int
    decreases bgs.len() - col,
{
    if col + 1 < bgs.len() && bgs[col + 1] == bgs[col] {
        run_end(bgs, col + 1)
    } else {
        col + 1
    }
}

/// The runs of one row from `col` on, without those of the default colour: the whole window was
/// cleared in it.
pub open spec fn background_runs_from(row: int, bgs: Seq<Rgb>, default: Rgb, col: int) -> Seq<
    BackgroundRun,
>
    decreases bgs.len() - col,
{
    if col < 0 || col >= bgs.len() {
        seq![]
    } else {
        proof {
            lemma_run_end(bgs, col);
        }
        let end = run_end(bgs, col);
        let rest = background_runs_from(row, bgs, default, end);
        if bgs[col] == default {
            rest
        } else {
            seq![
                BackgroundRun {
                    row: row as usize,
                    start: col as usize,
                    end: end as usize,
                    bg: bgs[col],
                },
            ] + rest
        }
    }
}

/// The background colours of the cells of a line.
pub open spec fn line_backgrounds(hl: HighlightsView, line: Seq<CellView>) -> Seq<Rgb> {
    Seq::new(line.len(), |c: int| hl.style(line[c].hl_id).bg)
}

/// The runs of the first `rows` rows.
pub open spec fn backgrounds_upto(ui: UiView, rows: int) -> Seq<BackgroundRun>
    decreases rows,
{
    if rows <= 0 {
        seq![]
    } else {
        backgrounds_upto(ui, rows - 1) + background_runs_from(
            rows - 1,
            line_backgrounds(ui.hl, ui.grid.lines[rows - 1]),
            ui.hl.bg,
            0,
        )
    }
}

/// A run is not empty and stays in the line.
pub proof fn lemma_run_end(bgs: Seq<Rgb>, col: int)
    requires
        0 <= col < bgs.len(),
    ensures
        col < run_end(bgs, col) <= bgs.len(),
        forall|c: int| col <= c < run_end(bgs, col) ==> bgs[c] == bgs[col],
        run_end(bgs, col) < bgs.len() ==> bgs[run_end(bgs, col)] != bgs[col],
    decreases bgs.len() - col,
{
    if col + 1 < bgs.len() && bgs[col + 1] == bgs[col] {
        lemma_run_end(bgs, col + 1);
    }
}

/// The backgrounds of one row.
fn push_backgrounds(out: &mut Vec<BackgroundRun>, hl: &Highlights, row: usize, cells: &[Cell])
    ensures
        final(out)@ == old(out)@ + background_runs_from(
            row as int,
            line_backgrounds(hl@, grid::shown_cells(cells@)),
            hl@.bg,
            0,
        ),
{
    let ghost line = grid::shown_cells(cells@);
    let ghost bgs = line_backgrounds(hl@, line);
    let ghost all = background_runs_from(row as int, bgs, hl@.bg, 0);
    let default_bg = hl.default_bg();
    let cols = cells.len();
    let mut col: usize = 0;
    assert(old(out)@ + all =~= out@ + all);
    while col < cols
        invariant
            cols == cells@.len(),
            col <= cols,
            line == grid::shown_cells(cells@),
            bgs == line_backgrounds(hl@, line),
            default_bg == hl@.bg,
            old(out)@ + all == out@ + background_runs_from(row as int, bgs, hl@.bg, col as int),
        decreases cols - col,
    {
        let bg = hl.style(cells[col].hl_id).bg;
        let start: usize = col;
        col = col + 1;
        while col < cols && hl.style(cells[col].hl_id).bg == bg
            invariant
                cols == cells@.len(),
                start < col <= cols,
                line == grid::shown_cells(cells@),
                bgs == line_backgrounds(hl@, line),
                bg == bgs[start as int],
                bgs[col - 1] == bg,
                run_end(bgs, start as int) == run_end(bgs, col - 1),
            decreases cols - col,
        {
            assert(bgs[col as int] == bg);
            col = col + 1;
        }
        proof {
            if col < cols {
                assert(bgs[col as int] == hl@.style(line[col as int].hl_id).bg);
            }
            assert(run_end(bgs, start as int) == col);
        }
        let ghost was = out@;
        let ghost rest = background_runs_from(row as int, bgs, hl@.bg, col as int);
        if bg != default_bg {
            out.push(BackgroundRun { row, start, end: col, bg });
            assert(was + (seq![out@.last()] + rest) =~= out@ + rest);
        }
    }
    assert(out@ + seq![] =~= out@);
}

/// The runs of background colours, row by row, that differ from the default.
pub fn background_runs(ui: &UiState) -> (runs: Vec<BackgroundRun>)
    requires
        ui.well_formed(),
    ensures
        runs@ == backgrounds_upto(ui@, ui@.grid.rows() as int),
{
    let mut runs: Vec<BackgroundRun> = Vec::new();
    let rows = ui.grid.rows();
    let mut row: usize = 0;
    while row < rows
        invariant
            rows == ui@.grid.rows(),
            row <= rows,
            ui.well_formed(),
            runs@ == backgrounds_upto(ui@, row as int),
        decreases rows - row,
    {
        push_backgrounds(&mut runs, &ui.hl, row, ui.grid.row(row));
        row = row + 1;
    }
    runs
}

// ---- text ----
/// Whether the cell at `col` is the first half of a wide character.
pub open spec fn is_wide(line: Seq<CellView>, col: int) -> bool {
    col + 1 < line.len() && line[col + 1].text.len() == 0
}

/// Whether the cell at `at` continues a run of narrow characters of the style `style`.
pub open spec fn joins(hl: HighlightsView, line: Seq<CellView>, style: Style, at: int) -> bool {
    &&& at < line.len()
    &&& line[at].text.len() > 0
    &&& !is_wide(line, at)
    &&& hl.style(line[at].hl_id) == style
}

/// Where a run of narrow characters ends that reaches up to `at` at least.
pub open spec fn narrow_end(hl: HighlightsView, line: Seq<CellView>, style: Style, at: int) -> int
    decreases line.len() - at,
{
    if joins(hl, line, style, at) {
        narrow_end(hl, line, style, at + 1)
    } else {
        at
    }
}

/// Where the run that starts at `col` ends. A wide character is drawn alone, so that a glyph of
/// another width cannot shift what follows it.
pub open spec fn text_end(hl: HighlightsView, line: Seq<CellView>, col: int) -> int {
    if is_wide(line, col) {
        col + 2
    } else {
        narrow_end(hl, line, hl.style(line[col].hl_id), col + 1)
    }
}

/// The runs of one row from `col` on. Cells that continue a wide character start none.
pub open spec fn text_runs_from(row: int, hl: HighlightsView, line: Seq<CellView>, col: int) -> Seq<
    TextRunView,
>
    decreases line.len() - col,
{
    if col < 0 || col >= line.len() {
        seq![]
    } else if line[col].text.len() == 0 {
        text_runs_from(row, hl, line, col + 1)
    } else {
        proof {
            lemma_narrow_end(hl, line, hl.style(line[col].hl_id), col + 1);
        }
        let end = text_end(hl, line, col);
        seq![
            TextRunView {
                row,
                col,
                span: end - col,
                text: utf16::encoded(grid::line_text(line.subrange(col, end))),
                style: hl.style(line[col].hl_id),
            },
        ] + text_runs_from(row, hl, line, end)
    }
}

/// The runs of the first `rows` rows.
pub open spec fn text_runs_upto(ui: UiView, rows: int) -> Seq<TextRunView>
    decreases rows,
{
    if rows <= 0 {
        seq![]
    } else {
        text_runs_upto(ui, rows - 1) + text_runs_from(
            rows - 1,
            ui.hl,
            ui.grid.lines[rows - 1],
            0,
        )
    }
}

impl View for TextRun {
    type V = TextRunView;

    open spec fn view(&self) -> TextRunView {
        TextRunView {
            row: self.row as int,
            col: self.col as int,
            span: self.span as int,
            text: self.text@,
            style: self.style,
        }
    }
}

/// The runs as they show.
pub open spec fn shown_runs(runs: Seq<TextRun>) -> Seq<TextRunView> {
    Seq::new(runs.len(), |i: int| runs[i]@)
}

/// A run of narrow characters ends where it is said to.
pub proof fn lemma_narrow_end(hl: HighlightsView, line: Seq<CellView>, style: Style, at: int)
    requires
        0 <= at <= line.len(),
    ensures
        at <= narrow_end(hl, line, style, at) <= line.len(),
        forall|c: int| at <= c < narrow_end(hl, line, style, at) ==> #[trigger] joins(hl, line, style, c),
    decreases line.len() - at,
{
    if joins(hl, line, style, at) {
        lemma_narrow_end(hl, line, style, at + 1);
    }
}

/// The text of cells, and of one more cell.
proof fn lemma_line_text_grows(line: Seq<CellView>, from: int, to: int)
    requires
        0 <= from <= to < line.len(),
    ensures
        grid::line_text(line.subrange(from, to + 1)) == grid::line_text(line.subrange(from, to))
            + line[to].text,
{
    assert(line.subrange(from, to + 1).drop_last() =~= line.subrange(from, to));
}

/// The units of two texts one after the other.
proof fn lemma_encoded_concat(a: Seq<char>, b: Seq<char>)
    ensures
        utf16::encoded(a + b) == utf16::encoded(a) + utf16::encoded(b),
    decreases b.len(),
{
    if b.len() == 0 {
        assert(a + b =~= a);
        assert(utf16::encoded(a) + utf16::encoded(b) =~= utf16::encoded(a));
    } else {
        lemma_encoded_concat(a, b.drop_last());
        assert((a + b).drop_last() =~= a + b.drop_last());
        assert(utf16::encoded(a + b) =~= utf16::encoded(a) + utf16::encoded(b));
    }
}

/// The text runs of one row.
fn push_text_runs(out: &mut Vec<TextRun>, hl: &Highlights, row: usize, cells: &[Cell])
    ensures
        shown_runs(final(out)@) == shown_runs(old(out)@) + text_runs_from(
            row as int,
            hl@,
            grid::shown_cells(cells@),
            0,
        ),
{
    let ghost line = grid::shown_cells(cells@);
    let ghost all = text_runs_from(row as int, hl@, line, 0);
    let cols = cells.len();
    let mut col: usize = 0;
    while col < cols
        invariant
            cols == cells@.len(),
            col <= cols,
            line == grid::shown_cells(cells@),
            shown_runs(old(out)@) + all == shown_runs(out@) + text_runs_from(
                row as int,
                hl@,
                line,
                col as int,
            ),
        decreases cols - col,
    {
        let cell = cells[col];
        if cell.text.is_empty() {
            col = col + 1;
            continue ;
        }
        let style = hl.style(cell.hl_id);
        let wide = col + 1 < cols && cells[col + 1].text.is_empty();
        let mut text = utf16::encode(cell.text.as_str());
        let mut end: usize = col + 1;
        proof {
            lemma_line_text_grows(line, col as int, col as int);
            assert(line.subrange(col as int, col as int) =~= seq![]);
            assert(grid::line_text(line.subrange(col as int, col + 1)) =~= line[col as int].text);
            assert(wide == is_wide(line, col as int));
        }
        if wide {
            proof {
                lemma_line_text_grows(line, col as int, col + 1);
                assert(line[col + 1].text =~= seq![]);
                assert(grid::line_text(line.subrange(col as int, col + 2)) =~= line[col as int].text);
            }
            end = col + 2;
        } else {
            while end < cols && !cells[end].text.is_empty() && !(end + 1 < cols && cells[end
                + 1].text.is_empty()) && hl.style(cells[end].hl_id) == style
                invariant
                    cols == cells@.len(),
                    col < end <= cols,
                    line == grid::shown_cells(cells@),
                    style == hl@.style(line[col as int].hl_id),
                    text@ == utf16::encoded(
                        grid::line_text(line.subrange(col as int, end as int)),
                    ),
                    narrow_end(hl@, line, style, col + 1) == narrow_end(hl@, line, style, end as int),
                decreases cols - end,
            {
                proof {
                    lemma_line_text_grows(line, col as int, end as int);
                    lemma_encoded_concat(
                        grid::line_text(line.subrange(col as int, end as int)),
                        line[end as int].text,
                    );
                    assert(joins(hl@, line, style, end as int));
                }
                utf16::push_utf16(&mut text, cells[end].text.as_str());
                end = end + 1;
            }
            assert(!joins(hl@, line, style, end as int));
        }
        let ghost was = shown_runs(out@);
        let ghost rest = text_runs_from(row as int, hl@, line, end as int);
        assert(end == text_end(hl@, line, col as int));
        out.push(TextRun { row, col, span: end - col, text, style });
        assert(shown_runs(out@) =~= was.push(out@.last()@));
        assert(was + (seq![out@.last()@] + rest) =~= shown_runs(out@) + rest);
        col = end;
    }
    assert(shown_runs(out@) + seq![] =~= shown_runs(out@));
}

/// The runs of text, row by row.
pub fn text_runs(ui: &UiState) -> (runs: Vec<TextRun>)
    requires
        ui.well_formed(),
    ensures
        shown_runs(runs@) == text_runs_upto(ui@, ui@.grid.rows() as int),
{
    let mut runs: Vec<TextRun> = Vec::new();
    let rows = ui.grid.rows();
    let mut row: usize = 0;
    assert(shown_runs(runs@) =~= seq![]);
    while row < rows
        invariant
            rows == ui@.grid.rows(),
            row <= rows,
            ui.well_formed(),
            shown_runs(runs@) == text_runs_upto(ui@, row as int),
        decreases rows - row,
    {
        push_text_runs(&mut runs, &ui.hl, row, ui.grid.row(row));
        row = row + 1;
    }
    runs
}

/// Whether a run has no glyph to draw: all of it is spaces.
pub fn is_blank(text: &[u16]) -> (blank: bool)
    ensures
        blank == (forall|i: int| 0 <= i < text@.len() ==> text@[i] == 0x20),
{
    let mut i: usize = 0;
    while i < text.len()
        invariant
            i <= text@.len(),
            forall|k: int| 0 <= k < i ==> text@[k] == 0x20,
        decreases text@.len() - i,
    {
        if text[i] != 0x20 {
            return false;
        }
        i = i + 1;
    }
    true
}

// ---- decoration ----
/// The lines that an underline is made of. Lengths are in multiples of its thickness.
#[derive(Clone, Copy, Debug, PartialEq, Eq, Structural)]
pub enum Strokes {
    Off,
    Single,
    Double,
    Dashes { on: u32, off: u32 },
}

/// What is drawn along with a run, before its text.
#[derive(Clone, Copy, Debug, PartialEq, Eq, Structural)]
pub struct Decoration {
    pub strokes: Strokes,
    /// The colour of the underline.
    pub underline: Rgb,
    /// Whether the text is struck through, in the colour of the text.
    pub strike: bool,
}

/// A wave a few pixels high cannot be told from dots, so it is drawn as dots.
pub open spec fn strokes_of(kind: Underline) -> Strokes {
    match kind {
        Underline::Off => Strokes::Off,
        Underline::Line => Strokes::Single,
        Underline::Double => Strokes::Double,
        Underline::Undercurl => Strokes::Dashes { on: 1, off: 1 },
        Underline::Dotted => Strokes::Dashes { on: 1, off: 1 },
        Underline::Dashed => Strokes::Dashes { on: 3, off: 2 },
    }
}

/// What is drawn along with text of this style.
pub fn decoration(style: &Style) -> (decoration: Decoration)
    ensures
        decoration == (Decoration {
            strokes: strokes_of(style.underline),
            underline: style.sp,
            strike: style.strikethrough,
        }),
{
    let strokes = match style.underline {
        Underline::Off => Strokes::Off,
        Underline::Line => Strokes::Single,
        Underline::Double => Strokes::Double,
        Underline::Undercurl => Strokes::Dashes { on: 1, off: 1 },
        Underline::Dotted => Strokes::Dashes { on: 1, off: 1 },
        Underline::Dashed => Strokes::Dashes { on: 3, off: 2 },
    };
    Decoration { strokes, underline: style.sp, strike: style.strikethrough }
}

// ---- the cursor ----
/// How the cursor is drawn.
#[derive(Debug, PartialEq, Eq)]
pub struct CursorPlan {
    pub row: usize,
    pub col: usize,
    /// Whether it covers two cells.
    pub wide: bool,
    pub shape: CursorShape,
    /// The colour of the cursor itself.
    pub fill: Rgb,
    /// The colour of the text on a block.
    pub ink: Rgb,
    /// How thick a bar is, in percent of the cell.
    pub percent: u32,
    /// The text that is drawn again on a block.
    pub text: Vec<u16>,
    /// The style of that text.
    pub style: Style,
}

#[verifier::ext_equal]
pub struct CursorView {
    pub row: int,
    pub col: int,
    pub wide: bool,
    pub shape: CursorShape,
    pub fill: Rgb,
    pub ink: Rgb,
    pub percent: int,
    pub text: Seq<u16>,
    pub style: Style,
}

impl View for CursorPlan {
    type V = CursorView;

    open spec fn view(&self) -> CursorView {
        CursorView {
            row: self.row as int,
            col: self.col as int,
            wide: self.wide,
            shape: self.shape,
            fill: self.fill,
            ink: self.ink,
            percent: self.percent as int,
            text: self.text@,
            style: self.style,
        }
    }
}

/// The entry of the current mode; the plain one as long as no table came.
pub open spec fn current_mode(ui: UiView) -> ModeInfoView {
    match ui.mode.info() {
        Some(info) => info,
        None => mode::plain_mode(),
    }
}

/// The column in which the cursor is drawn: on the second half of a wide character it moves to the
/// first.
pub open spec fn cursor_col(line: Seq<CellView>, col: int) -> int {
    if line[col].text.len() == 0 && col > 0 {
        col - 1
    } else {
        col
    }
}

/// How thick a bar is, in percent of the cell. A shape that comes without a thickness is not made
/// invisible: it fills the cell.
pub open spec fn bar_percent(cell_percentage: u8) -> int {
    if cell_percentage == 0 {
        100
    } else if cell_percentage > 100 {
        100
    } else {
        cell_percentage as int
    }
}

/// The cursor at a position inside the grid.
pub open spec fn cursor_at(ui: UiView, row: int, at: int) -> CursorView {
    let line = ui.grid.lines[row];
    let col = cursor_col(line, at);
    let info = current_mode(ui);
    let styled = ui.mode.cursor_style_enabled;
    let shape = if styled {
        info.shape
    } else {
        CursorShape::Block
    };
    let style = ui.hl.style(line[col].hl_id);
    let coloured = styled && info.attr_id != 0;
    let text = line[col].text;
    CursorView {
        row,
        col,
        wide: is_wide(line, col),
        shape,
        fill: if coloured {
            ui.hl.style(info.attr_id).bg
        } else {
            style.fg
        },
        ink: if coloured {
            ui.hl.style(info.attr_id).fg
        } else {
            style.bg
        },
        percent: bar_percent(info.cell_percentage),
        text: if shape == CursorShape::Block && text.len() > 0 && text != seq![' '] {
            utf16::encoded(text)
        } else {
            seq![]
        },
        style,
    }
}

/// The cursor of a frame. There is none while nvim is busy, or outside the grid.
pub open spec fn cursor_of(ui: UiView) -> Option<CursorView> {
    if ui.busy || ui.cursor.row >= ui.grid.rows() || ui.cursor.col >= ui.grid.cols {
        None
    } else {
        Some(cursor_at(ui, ui.cursor.row as int, ui.cursor.col as int))
    }
}

/// How the cursor is drawn, if it is.
pub fn cursor_plan(ui: &UiState) -> (plan: Option<CursorPlan>)
    requires
        ui.well_formed(),
    ensures
        (match plan {
            Some(p) => cursor_of(ui@) == Some(p@),
            None => cursor_of(ui@) is None,
        }),
{
    if ui.busy {
        return None;
    }
    let cols = ui.grid.cols();
    if ui.cursor.row >= ui.grid.rows() || ui.cursor.col >= cols {
        return None;
    }
    let row: usize = ui.cursor.row;
    let cells = ui.grid.row(row);
    proof {
        ui.grid.lemma_rectangular();
        assert(cells@.len() == grid::shown_cells(cells@).len());
    }
    let ghost line = ui@.grid.lines[row as int];
    let col: usize = if cells[ui.cursor.col].text.is_empty() && ui.cursor.col > 0 {
        ui.cursor.col - 1
    } else {
        ui.cursor.col
    };
    assert(col == cursor_col(line, ui.cursor.col as int));
    let cell = cells[col];
    assert(cell@ == line[col as int]);
    let wide = col + 1 < cols && cells[col + 1].text.is_empty();
    let (given_shape, cell_percentage, attr_id): (CursorShape, u8, u32) = match ui.mode.info() {
        Some(info) => (info.shape, info.cell_percentage, info.attr_id),
        None => (CursorShape::Block, 0, 0),
    };
    let styled = ui.mode.cursor_style_enabled();
    let shape = if styled {
        given_shape
    } else {
        CursorShape::Block
    };
    let style = ui.hl.style(cell.hl_id);
    let (fill, ink) = if styled && attr_id != 0 {
        let colours = ui.hl.style(attr_id);
        (colours.bg, colours.fg)
    } else {
        (style.fg, style.bg)
    };
    let percent: u32 = if cell_percentage == 0 {
        100
    } else if cell_percentage > 100 {
        100
    } else {
        cell_percentage as u32
    };
    proof {
        reveal_strlit(" ");
        assert(" "@ =~= seq![' ']);
    }
    let text = if shape == CursorShape::Block && !cell.text.is_empty() && !strings::str_eq(
        cell.text.as_str(),
        " ",
    ) {
        utf16::encode(cell.text.as_str())
    } else {
        Vec::new()
    };
    let plan = CursorPlan { row, col, wide, shape, fill, ink, percent, text, style };
    assert(plan@ =~= cursor_at(ui@, row as int, ui.cursor.col as int));
    Some(plan)
}

// ---- the text being composed ----
/// How the text being composed is drawn: from the cursor's cell on, in the default colours, with the
/// part under conversion in exchanged colours.
#[derive(Debug, PartialEq, Eq)]
pub struct PreeditPlan {
    pub row: usize,
    pub col: usize,
    pub text: Vec<u16>,
    /// Position and length of the part under conversion, in code units.
    pub target: Option<(u32, u32)>,
    pub ink: Rgb,
    pub under: Rgb,
}

#[verifier::ext_equal]
pub struct PreeditPlanView {
    pub row: int,
    pub col: int,
    pub text: Seq<u16>,
    pub target: Option<(nat, nat)>,
    pub ink: Rgb,
    pub under: Rgb,
}

impl View for PreeditPlan {
    type V = PreeditPlanView;

    open spec fn view(&self) -> PreeditPlanView {
        PreeditPlanView {
            row: self.row as int,
            col: self.col as int,
            text: self.text@,
            target: match self.target {
                Some((position, length)) => Some((position as nat, length as nat)),
                None => None,
            },
            ink: self.ink,
            under: self.under,
        }
    }
}

/// `n`, but at most `limit`.
pub open spec fn at_most(n: int, limit: int) -> int {
    if n > limit {
        limit
    } else {
        n
    }
}

/// How the text being composed is drawn. There is nothing to draw without text or without a grid. A
/// cursor outside the grid is taken to its edge.
pub open spec fn preedit_of(ui: UiView, preedit: PreeditView) -> Option<PreeditPlanView> {
    if preedit.text.len() == 0 || ui.grid.cols == 0 || ui.grid.rows() == 0 {
        None
    } else {
        Some(
            PreeditPlanView {
                row: at_most(ui.cursor.row as int, ui.grid.rows() - 1),
                col: at_most(ui.cursor.col as int, ui.grid.cols - 1),
                text: utf16::encoded(preedit.text),
                target: match preedit.target {
                    Some((start, end)) => if end > start {
                        utf16::range_units(preedit.text, start as int, end as int)
                    } else {
                        None
                    },
                    None => None,
                },
                ink: ui.hl.fg,
                under: ui.hl.bg,
            },
        )
    }
}

/// How the text being composed is drawn, if it is.
pub fn preedit_plan(ui: &UiState, preedit: &Preedit) -> (plan: Option<PreeditPlan>)
    requires
        utf16::encoded(preedit@.text).len() <= u32::MAX,
    ensures
        (match plan {
            Some(p) => preedit_of(ui@, preedit@) == Some(p@),
            None => preedit_of(ui@, preedit@) is None,
        }),
{
    let cols = ui.grid.cols();
    let rows = ui.grid.rows();
    if preedit.is_empty() || cols == 0 || rows == 0 {
        return None;
    }
    let col: usize = if ui.cursor.col > cols - 1 {
        cols - 1
    } else {
        ui.cursor.col
    };
    let row: usize = if ui.cursor.row > rows - 1 {
        rows - 1
    } else {
        ui.cursor.row
    };
    let target = match preedit.target {
        Some((start, end)) => if end > start {
            utf16::utf16_range(preedit.text.as_str(), start, end)
        } else {
            None
        },
        None => None,
    };
    Some(
        PreeditPlan {
            row,
            col,
            text: utf16::encode(preedit.text.as_str()),
            target,
            ink: ui.hl.default_fg(),
            under: ui.hl.default_bg(),
        },
    )
}

// ---- the whole frame ----
/// All that is drawn, in the order in which it is drawn.
#[derive(Debug, PartialEq, Eq)]
pub struct Frame {
    /// The colour that the window is cleared in first.
    pub clear: Rgb,
    pub backgrounds: Vec<BackgroundRun>,
    pub texts: Vec<TextRun>,
    pub cursor: Option<CursorPlan>,
    pub preedit: Option<PreeditPlan>,
}

/// What a frame consists of.
pub fn frame(ui: &UiState, preedit: Option<&Preedit>) -> (frame: Frame)
    requires
        ui.well_formed(),
        preedit matches Some(p) ==> utf16::encoded(p@.text).len() <= u32::MAX,
    ensures
        frame.clear == ui@.hl.bg,
        frame.backgrounds@ == backgrounds_upto(ui@, ui@.grid.rows() as int),
        shown_runs(frame.texts@) == text_runs_upto(ui@, ui@.grid.rows() as int),
        (match frame.cursor {
            Some(c) => cursor_of(ui@) == Some(c@),
            None => cursor_of(ui@) is None,
        }),
        (match frame.preedit {
            Some(p) => preedit is Some && preedit_of(ui@, preedit->0@) == Some(p@),
            None => preedit is None || preedit_of(ui@, preedit->0@) is None,
        }),
{
    Frame {
        clear: ui.hl.default_bg(),
        backgrounds: background_runs(ui),
        texts: text_runs(ui),
        cursor: cursor_plan(ui),
        preedit: match preedit {
            Some(p) => preedit_plan(ui, p),
            None => None,
        },
    }
}

// ---- laws ----
/// The colour of a cell after runs were filled over `base`, one after the other.
pub open spec fn filled(runs: Seq<BackgroundRun>, row: int, col: int, base: Rgb) -> Rgb
    decreases runs.len(),
{
    if runs.len() == 0 {
        base
    } else {
        let first = runs[0];
        let next = if first.row == row && first.start <= col < first.end {
            first.bg
        } else {
            base
        };
        filled(runs.drop_first(), row, col, next)
    }
}

proof fn lemma_filled_concat(
    a: Seq<BackgroundRun>,
    b: Seq<BackgroundRun>,
    row: int,
    col: int,
    base: Rgb,
)
    ensures
        filled(a + b, row, col, base) == filled(b, row, col, filled(a, row, col, base)),
    decreases a.len(),
{
    if a.len() == 0 {
        assert(a + b =~= b);
    } else {
        let first = a[0];
        let next = if first.row == row && first.start <= col < first.end {
            first.bg
        } else {
            base
        };
        lemma_filled_concat(a.drop_first(), b, row, col, next);
        assert((a + b).drop_first() =~= a.drop_first() + b);
    }
}

/// The runs of a line fill the cells from `from` on, each in its colour, and no others.
proof fn lemma_line_filled(
    r: int,
    bgs: Seq<Rgb>,
    default: Rgb,
    from: int,
    row: int,
    col: int,
    base: Rgb,
)
    requires
        0 <= r <= usize::MAX,
        0 <= from,
        bgs.len() <= usize::MAX,
    ensures
        ({
            let runs = background_runs_from(r, bgs, default, from);
            &&& row != r || col < from || col >= bgs.len() ==> filled(runs, row, col, base) == base
            &&& row == r && from <= col < bgs.len() && base == default ==> filled(
                runs,
                row,
                col,
                base,
            ) == bgs[col]
        }),
    decreases bgs.len() - from,
{
    if from < bgs.len() {
        lemma_run_end(bgs, from);
        let end = run_end(bgs, from);
        let rest = background_runs_from(r, bgs, default, end);
        let runs = background_runs_from(r, bgs, default, from);
        if bgs[from] == default {
            lemma_line_filled(r, bgs, default, end, row, col, base);
        } else {
            let first = runs[0];
            assert(runs.drop_first() =~= rest);
            let next = if first.row == row && first.start <= col < first.end {
                first.bg
            } else {
                base
            };
            lemma_line_filled(r, bgs, default, end, row, col, next);
        }
    }
}

/// Filling the runs over the cleared window gives every cell its background: none is missed and none
/// is painted over by another.
pub proof fn law_every_cell_gets_its_background(ui: UiView, rows: int, row: int, col: int)
    requires
        ui.grid.rectangular(),
        0 <= rows <= ui.grid.rows(),
        ui.grid.rows() <= usize::MAX,
        ui.grid.cols <= usize::MAX,
        0 <= row < ui.grid.rows(),
        0 <= col < ui.grid.cols,
    ensures
        filled(backgrounds_upto(ui, rows), row, col, ui.hl.bg) == (if row < rows {
            ui.hl.style(ui.grid.at(row, col).hl_id).bg
        } else {
            ui.hl.bg
        }),
    decreases rows,
{
    if rows > 0 {
        let r = rows - 1;
        law_every_cell_gets_its_background(ui, r, row, col);
        let before = backgrounds_upto(ui, r);
        let bgs = line_backgrounds(ui.hl, ui.grid.lines[r]);
        lemma_filled_concat(
            before,
            background_runs_from(r, bgs, ui.hl.bg, 0),
            row,
            col,
            ui.hl.bg,
        );
        lemma_line_filled(
            r,
            bgs,
            ui.hl.bg,
            0,
            row,
            col,
            filled(before, row, col, ui.hl.bg),
        );
    }
}

/// The texts of runs, one after the other.
pub open spec fn runs_text(runs: Seq<TextRunView>) -> Seq<u16>
    decreases runs.len(),
{
    if runs.len() == 0 {
        seq![]
    } else {
        runs[0].text + runs_text(runs.drop_first())
    }
}

/// The text of two stretches of cells one after the other.
proof fn lemma_line_text_concat(a: Seq<CellView>, b: Seq<CellView>)
    ensures
        grid::line_text(a + b) == grid::line_text(a) + grid::line_text(b),
    decreases b.len(),
{
    if b.len() == 0 {
        assert(a + b =~= a);
        assert(grid::line_text(a) + grid::line_text(b) =~= grid::line_text(a));
    } else {
        lemma_line_text_concat(a, b.drop_last());
        assert((a + b).drop_last() =~= a + b.drop_last());
        assert(grid::line_text(a + b) =~= grid::line_text(a) + grid::line_text(b));
    }
}

/// The runs of a row draw the text of the row: all of it, in order, and nothing twice.
pub proof fn law_runs_draw_the_row(row: int, hl: HighlightsView, line: Seq<CellView>, col: int)
    requires
        0 <= col <= line.len(),
    ensures
        runs_text(text_runs_from(row, hl, line, col)) == utf16::encoded(
            grid::line_text(line.skip(col)),
        ),
    decreases line.len() - col,
{
    let rest = line.skip(col);
    if col == line.len() {
        assert(rest =~= seq![]);
        assert(grid::line_text(rest) =~= seq![]);
    } else if line[col].text.len() == 0 {
        law_runs_draw_the_row(row, hl, line, col + 1);
        assert(rest =~= seq![line[col]] + line.skip(col + 1));
        lemma_line_text_concat(seq![line[col]], line.skip(col + 1));
        assert(seq![line[col]].drop_last() =~= seq![]);
        reveal_with_fuel(grid::line_text, 2);
        assert(grid::line_text(seq![line[col]]) =~= seq![]);
        assert(grid::line_text(rest) =~= grid::line_text(line.skip(col + 1)));
    } else {
        lemma_narrow_end(hl, line, hl.style(line[col].hl_id), col + 1);
        let end = text_end(hl, line, col);
        law_runs_draw_the_row(row, hl, line, end);
        let runs = text_runs_from(row, hl, line, col);
        assert(runs.drop_first() =~= text_runs_from(row, hl, line, end));
        assert(rest =~= line.subrange(col, end) + line.skip(end));
        lemma_line_text_concat(line.subrange(col, end), line.skip(end));
        lemma_encoded_concat(
            grid::line_text(line.subrange(col, end)),
            grid::line_text(line.skip(end)),
        );
    }
}

/// A wide character is drawn alone, over its two cells; every cell of a longer run has the style of
/// the run and holds a narrow character.
pub proof fn law_wide_characters_are_drawn_alone(hl: HighlightsView, line: Seq<CellView>, col: int)
    requires
        0 <= col < line.len(),
        line[col].text.len() > 0,
    ensures
        ({
            let end = text_end(hl, line, col);
            &&& col < end <= line.len()
            &&& is_wide(line, col) ==> end == col + 2
            &&& !is_wide(line, col) ==> forall|c: int|
                col <= c < end ==> {
                    &&& hl.style((#[trigger] line[c]).hl_id) == hl.style(line[col].hl_id)
                    &&& line[c].text.len() > 0
                    &&& !is_wide(line, c)
                }
        }),
{
    let style = hl.style(line[col].hl_id);
    lemma_narrow_end(hl, line, style, col + 1);
    if !is_wide(line, col) {
        let end = text_end(hl, line, col);
        assert forall|c: int| col <= c < end implies {
            &&& hl.style((#[trigger] line[c]).hl_id) == style
            &&& line[c].text.len() > 0
            &&& !is_wide(line, c)
        } by {
            if c > col {
                assert(joins(hl, line, style, c));
            }
        }
    }
}

/// The cursor stays where nvim put it unless it is on the second half of a wide character; on an
/// erased cell in particular it does not move. And it is never too thin to be seen, nor thicker than
/// the cell.
pub proof fn law_cursor_position(ui: UiView)
    ensures
        cursor_of(ui) matches Some(c) ==> {
            let line = ui.grid.lines[ui.cursor.row as int];
            &&& c.row == ui.cursor.row
            &&& line[ui.cursor.col as int].text.len() > 0 ==> c.col == ui.cursor.col
            &&& 1 <= c.percent <= 100
        },
        ui.busy ==> cursor_of(ui) is None,
{
}

/// The text being composed starts inside the grid.
pub proof fn law_composed_text_starts_inside(ui: UiView, preedit: PreeditView)
    ensures
        preedit_of(ui, preedit) matches Some(p) ==> 0 <= p.row < ui.grid.rows() && 0 <= p.col
            < ui.grid.cols,
{
}

/// The run at `i` of a row lies in the row, starts with a text, and draws the cells that it covers:
/// their texts one after the other, in the style of the highlight of each of them, a wide character by
/// that of its first cell.
proof fn lemma_run_of_a_row(row: int, hl: HighlightsView, line: Seq<CellView>, col: int, i: int)
    requires
        0 <= col <= line.len(),
        0 <= i < text_runs_from(row, hl, line, col).len(),
    ensures
        draws(text_runs_from(row, hl, line, col)[i], row, hl, line),
        col <= text_runs_from(row, hl, line, col)[i].col,
        i + 1 < text_runs_from(row, hl, line, col).len() ==> text_runs_from(row, hl, line, col)[i].col
            + text_runs_from(row, hl, line, col)[i].span <= text_runs_from(
            row,
            hl,
            line,
            col,
        )[i + 1].col,
    decreases line.len() - col,
{
    let runs = text_runs_from(row, hl, line, col);
    if col < line.len() {
        if line[col].text.len() == 0 {
            lemma_run_of_a_row(row, hl, line, col + 1, i);
        } else {
            let style = hl.style(line[col].hl_id);
            lemma_narrow_end(hl, line, style, col + 1);
            let end = text_end(hl, line, col);
            let rest = text_runs_from(row, hl, line, end);
            assert(runs.drop_first() =~= rest);
            if i == 0 {
                law_wide_characters_are_drawn_alone(hl, line, col);
                if rest.len() > 0 {
                    lemma_run_of_a_row(row, hl, line, end, 0);
                    assert(runs[1] == rest[0]);
                }
            } else {
                lemma_run_of_a_row(row, hl, line, end, i - 1);
                assert(runs[i] == rest[i - 1]);
                if i + 1 < runs.len() {
                    assert(runs[i + 1] == rest[i]);
                }
            }
        }
    }
}

/// Whether a run draws the cells of `line` that it covers, as they are.
pub open spec fn draws(run: TextRunView, row: int, hl: HighlightsView, line: Seq<CellView>) -> bool {
    &&& run.row == row
    &&& 0 <= run.col
    &&& run.span >= 1
    &&& run.col + run.span <= line.len()
    &&& line[run.col].text.len() > 0
    &&& run.style == hl.style(line[run.col].hl_id)
    &&& run.text == utf16::encoded(
        grid::line_text(line.subrange(run.col, run.col + run.span)),
    )
    &&& (run.span == 2 && line[run.col + 1].text.len() == 0) || (forall|c: int|
        run.col <= c < run.col + run.span ==> {
            &&& (#[trigger] line[c]).text.len() > 0
            &&& hl.style(line[c].hl_id) == run.style
            &&& !(c + 1 < line.len() && line[c + 1].text.len() == 0)
        })
}

/// Every cell with a text is covered by a run.
proof fn lemma_row_is_covered(row: int, hl: HighlightsView, line: Seq<CellView>, col: int, c: int)
    requires
        0 <= col <= c < line.len(),
        line[c].text.len() > 0,
    ensures
        exists|i: int|
            0 <= i < text_runs_from(row, hl, line, col).len() && covers(
                #[trigger] text_runs_from(row, hl, line, col)[i],
                row,
                c,
            ),
    decreases line.len() - col,
{
    let runs = text_runs_from(row, hl, line, col);
    if line[col].text.len() == 0 {
        lemma_row_is_covered(row, hl, line, col + 1, c);
    } else {
        lemma_narrow_end(hl, line, hl.style(line[col].hl_id), col + 1);
        let end = text_end(hl, line, col);
        let rest = text_runs_from(row, hl, line, end);
        assert(runs.drop_first() =~= rest);
        if c < end {
            assert(covers(runs[0], row, c));
        } else {
            lemma_row_is_covered(row, hl, line, end, c);
            let i = choose|i: int| 0 <= i < rest.len() && covers(#[trigger] rest[i], row, c);
            assert(runs[i + 1] == rest[i]);
        }
    }
}

/// Whether a run covers a cell.
pub open spec fn covers(run: TextRunView, row: int, col: int) -> bool {
    run.row == row && run.col <= col < run.col + run.span
}

/// Every run of the text carries the style of the highlight of the cells that it covers, and their
/// texts; runs follow one another from left to right and from top to bottom without overlapping.
pub proof fn law_text_runs_carry_their_cells(ui: UiView, rows: int, i: int)
    requires
        0 <= rows <= ui.grid.lines.len(),
        0 <= i < text_runs_upto(ui, rows).len(),
    ensures
        ({
            let runs = text_runs_upto(ui, rows);
            let run = runs[i];
            &&& 0 <= run.row < rows
            &&& draws(run, run.row, ui.hl, ui.grid.lines[run.row])
            &&& i + 1 < runs.len() ==> run.row < runs[i + 1].row || (run.row == runs[i + 1].row
                && run.col + run.span <= runs[i + 1].col)
        }),
    decreases rows,
{
    let runs = text_runs_upto(ui, rows);
    let before = text_runs_upto(ui, rows - 1);
    let line = ui.grid.lines[rows - 1];
    let here = text_runs_from(rows - 1, ui.hl, line, 0);
    let n = before.len() as int;
    assert(rows > 0);
    assert(runs == before + here);
    if i < n {
        law_text_runs_carry_their_cells(ui, rows - 1, i);
        assert(runs[i] == before[i]);
        if i + 1 < n {
            assert(runs[i + 1] == before[i + 1]);
        } else if i + 1 < runs.len() {
            lemma_run_of_a_row(rows - 1, ui.hl, line, 0, 0);
            assert(runs[i + 1] == here[0]);
            assert(here[0].row == rows - 1);
        }
    } else {
        lemma_run_of_a_row(rows - 1, ui.hl, line, 0, i - n);
        assert(runs[i] == here[i - n]);
        if i + 1 < runs.len() {
            lemma_run_of_a_row(rows - 1, ui.hl, line, 0, i + 1 - n);
            assert(runs[i + 1] == here[i + 1 - n]);
        }
    }
}

/// No text is left out: every cell of the screen that holds one is covered by a run, which carries the
/// style of that cell, or of the first cell where it is the second of a wide character.
pub proof fn law_all_text_is_drawn(ui: UiView, rows: int, row: int, col: int)
    requires
        0 <= row < rows <= ui.grid.lines.len(),
        0 <= col < ui.grid.lines[row].len(),
        ui.grid.lines[row][col].text.len() > 0,
    ensures
        exists|i: int|
            0 <= i < text_runs_upto(ui, rows).len() && covers(
                #[trigger] text_runs_upto(ui, rows)[i],
                row,
                col,
            ) && text_runs_upto(ui, rows)[i].style == ui.hl.style(ui.grid.lines[row][col].hl_id),
    decreases rows,
{
    let runs = text_runs_upto(ui, rows);
    let before = text_runs_upto(ui, rows - 1);
    let n = before.len() as int;
    if row < rows - 1 {
        law_all_text_is_drawn(ui, rows - 1, row, col);
        let i = choose|i: int|
            0 <= i < n && covers(#[trigger] before[i], row, col) && before[i].style == ui.hl.style(
                ui.grid.lines[row][col].hl_id,
            );
        assert(runs[i] == before[i]);
    } else {
        let line = ui.grid.lines[row];
        let here = text_runs_from(row, ui.hl, line, 0);
        lemma_row_is_covered(row, ui.hl, line, 0, col);
        let i = choose|i: int| 0 <= i < here.len() && covers(#[trigger] here[i], row, col);
        lemma_run_of_a_row(row, ui.hl, line, 0, i);
        assert(runs[n + i] == here[i]);
        assert(here[i].style == ui.hl.style(line[col].hl_id)) by {
            if here[i].span == 2 && line[here[i].col + 1].text.len() == 0 {
                assert(col == here[i].col);
            }
        }
    }
}

/// Neighbours of one style are drawn in one go: where a run of narrow characters ends, the next cell
/// has another style, is wide, holds no text, or is not there.
pub proof fn law_runs_are_as_long_as_they_can_be(hl: HighlightsView, line: Seq<CellView>, col: int)
    requires
        0 <= col < line.len(),
        line[col].text.len() > 0,
    ensures
        ({
            let end = text_end(hl, line, col);
            !(col + 1 < line.len() && line[col + 1].text.len() == 0) ==> end == line.len()
                || line[end].text.len() == 0 || (end + 1 < line.len() && line[end + 1].text.len()
                == 0) || hl.style(line[end].hl_id) != hl.style(line[col].hl_id)
        }),
{
    lemma_narrow_end(hl, line, hl.style(line[col].hl_id), col + 1);
    lemma_narrow_end_stops(hl, line, hl.style(line[col].hl_id), col + 1);
}

proof fn lemma_narrow_end_stops(hl: HighlightsView, line: Seq<CellView>, style: Style, at: int)
    requires
        0 <= at <= line.len(),
    ensures
        !joins(hl, line, style, narrow_end(hl, line, style, at)),
    decreases line.len() - at,
{
    if joins(hl, line, style, at) {
        lemma_narrow_end_stops(hl, line, style, at + 1);
    }
}

/// Only backgrounds other than the default are filled, each over at least one cell of the grid.
pub proof fn law_backgrounds_are_needed(ui: UiView, rows: int, i: int)
    requires
        0 <= rows <= ui.grid.lines.len() <= usize::MAX,
        forall|r: int|
            0 <= r < ui.grid.lines.len() ==> (#[trigger] ui.grid.lines[r]).len() <= usize::MAX,
        0 <= i < backgrounds_upto(ui, rows).len(),
    ensures
        ({
            let run = backgrounds_upto(ui, rows)[i];
            &&& run.bg != ui.hl.bg
            &&& run.row < rows
            &&& run.start < run.end <= ui.grid.lines[run.row as int].len()
        }),
    decreases rows,
{
    let runs = backgrounds_upto(ui, rows);
    let before = backgrounds_upto(ui, rows - 1);
    let bgs = line_backgrounds(ui.hl, ui.grid.lines[rows - 1]);
    let n = before.len();
    assert(ui.grid.lines[rows - 1].len() <= usize::MAX);
    if i < n {
        law_backgrounds_are_needed(ui, rows - 1, i);
        assert(runs[i] == before[i]);
    } else {
        lemma_background_run(rows - 1, bgs, ui.hl.bg, 0, i - n);
        assert(runs[i] == background_runs_from(rows - 1, bgs, ui.hl.bg, 0)[i - n]);
    }
}

proof fn lemma_background_run(row: int, bgs: Seq<Rgb>, default: Rgb, col: int, i: int)
    requires
        0 <= row <= usize::MAX,
        0 <= col <= bgs.len() <= usize::MAX,
        0 <= i < background_runs_from(row, bgs, default, col).len(),
    ensures
        ({
            let run = background_runs_from(row, bgs, default, col)[i];
            &&& run.bg != default
            &&& run.row == row
            &&& run.start < run.end <= bgs.len()
        }),
    decreases bgs.len() - col,
{
    if col < bgs.len() {
        lemma_run_end(bgs, col);
        let end = run_end(bgs, col);
        let rest = background_runs_from(row, bgs, default, end);
        let runs = background_runs_from(row, bgs, default, col);
        if bgs[col] == default {
            lemma_background_run(row, bgs, default, end, i);
        } else if i > 0 {
            lemma_background_run(row, bgs, default, end, i - 1);
            assert(runs[i] == rest[i - 1]);
        }
    }
}

/// What each kind of underline is made of.
pub proof fn law_underlines()
    ensures
        strokes_of(Underline::Off) == Strokes::Off,
        strokes_of(Underline::Line) == Strokes::Single,
        strokes_of(Underline::Double) == Strokes::Double,
        strokes_of(Underline::Undercurl) == (Strokes::Dashes { on: 1, off: 1 }),
        strokes_of(Underline::Dotted) == (Strokes::Dashes { on: 1, off: 1 }),
        strokes_of(Underline::Dashed) == (Strokes::Dashes { on: 3, off: 2 }),
{
}

/// The cursor is drawn where nvim is not busy and the cursor lies on the grid: on its cell, or on the
/// cell before it where its own is the second half of a wide character, which it then covers whole.
pub proof fn law_cursor_is_drawn_on_its_cell(ui: UiView)
    ensures
        ({
            let (row, at) = (ui.cursor.row as int, ui.cursor.col as int);
            let line = ui.grid.lines[row];
            let on_grid = row < ui.grid.lines.len() && at < ui.grid.cols;
            &&& cursor_of(ui) is Some <==> !ui.busy && on_grid
            &&& cursor_of(ui) matches Some(c) ==> {
                &&& c.row == row
                &&& c.col == (if line[at].text.len() == 0 && at > 0 {
                    at - 1
                } else {
                    at
                })
                &&& c.wide <==> c.col + 1 < line.len() && line[c.col + 1].text.len() == 0
                &&& c.style == ui.hl.style(line[c.col].hl_id)
            }
        }),
{
}

/// The cursor has the shape and the thickness of the current mode, where nvim wants shapes at all and
/// has the mode in its table; it is a block otherwise. A thickness that is not given, or is too much,
/// fills the cell.
pub proof fn law_cursor_has_the_shape_of_the_mode(ui: UiView)
    ensures
        cursor_of(ui) matches Some(c) ==> {
            let known = ui.mode.current < ui.mode.modes.len();
            let info = ui.mode.modes[ui.mode.current as int];
            &&& ui.mode.cursor_style_enabled && known ==> c.shape == info.shape
            &&& !ui.mode.cursor_style_enabled || !known ==> c.shape == CursorShape::Block
            &&& known && 1 <= info.cell_percentage <= 100 ==> c.percent == info.cell_percentage
            &&& !known || info.cell_percentage == 0 || info.cell_percentage > 100 ==> c.percent
                == 100
        },
{
}

/// The cursor is coloured by the highlight of the current mode, and exchanges the colours of its cell
/// where the mode has none. On a block the text of the cell is drawn again, if there is any to see.
pub proof fn law_cursor_is_coloured(ui: UiView)
    ensures
        cursor_of(ui) matches Some(c) ==> {
            let known = ui.mode.current < ui.mode.modes.len();
            let info = ui.mode.modes[ui.mode.current as int];
            let cell = ui.grid.lines[c.row][c.col];
            let own = ui.mode.cursor_style_enabled && known && info.attr_id != 0;
            &&& own ==> c.fill == ui.hl.style(info.attr_id).bg
            &&& own ==> c.ink == ui.hl.style(info.attr_id).fg
            &&& !own ==> c.fill == ui.hl.style(cell.hl_id).fg
            &&& !own ==> c.ink == ui.hl.style(cell.hl_id).bg
            &&& c.shape == CursorShape::Block && cell.text.len() > 0 && cell.text != seq![' ']
                ==> c.text == utf16::encoded(cell.text)
            &&& c.shape != CursorShape::Block || cell.text.len() == 0 || cell.text == seq![' ']
                ==> c.text.len() == 0
        },
{
}

/// The text being composed is drawn at the cursor, or at the edge that is nearest to it, in the default
/// colours, with the part under conversion counted in code units.
pub proof fn law_composed_text(ui: UiView, preedit: PreeditView)
    ensures
        preedit_of(ui, preedit) is Some <==> preedit.text.len() > 0 && ui.grid.cols > 0
            && ui.grid.lines.len() > 0,
        preedit_of(ui, preedit) matches Some(p) ==> {
            &&& ui.cursor.row < ui.grid.lines.len() ==> p.row == ui.cursor.row
            &&& ui.cursor.row >= ui.grid.lines.len() ==> p.row == ui.grid.lines.len() - 1
            &&& ui.cursor.col < ui.grid.cols ==> p.col == ui.cursor.col
            &&& ui.cursor.col >= ui.grid.cols ==> p.col == ui.grid.cols - 1
            &&& p.text == utf16::encoded(preedit.text)
            &&& p.ink == ui.hl.fg
            &&& p.under == ui.hl.bg
            &&& preedit.target is None ==> p.target is None
            &&& preedit.target is Some ==> {
                let (start, end) = preedit.target->0;
                let from = utf16::units_before(preedit.text, start as int);
                let to = utf16::units_before(preedit.text, end as int);
                if end > start && to > from {
                    p.target == Some((from, (to - from) as nat))
                } else {
                    p.target is None
                }
            }
        },
{
}

} // verus!
