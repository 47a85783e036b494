//! The grid of cells.

use vstd::prelude::*;

use crate::ui::cell;
use crate::ui::cell::{Cell, CellView};

verus! {

/// An upper bound for the bytes that one cell takes in memory.
pub const CELL_SIZE: usize = 24;

/// The character grid. A `grid_resize` lays it out anew.
#[derive(Clone, Debug, PartialEq, Eq)]
pub struct Grid {
    cols: usize,
    rows: usize,
    cells: Vec<Cell>,
}

/// What the grid shows: its lines from top to bottom, each `cols` cells wide.
#[verifier::ext_equal]
pub struct GridView {
    pub cols: nat,
    pub lines: Seq<Seq<CellView>>,
}

/// Whether a grid of this size can be held in memory at all.
pub open spec fn fits(cols: int, rows: int) -> bool {
    cols * rows * CELL_SIZE <= isize::MAX
}

/// The cells of a slice, as they show.
pub open spec fn shown_cells(cells: Seq<Cell>) -> Seq<CellView> {
    Seq::new(cells.len(), |i: int| cells[i]@)
}

/// A grid in which every cell is erased.
pub open spec fn blank_grid(cols: nat, rows: nat) -> GridView {
    GridView { cols, lines: Seq::new(rows, |r: int| Seq::new(cols, |c: int| cell::blank())) }
}

impl GridView {
    pub open spec fn rows(self) -> nat {
        self.lines.len()
    }

    /// The cell at a position inside the grid.
    pub open spec fn at(self, row: int, col: int) -> CellView {
        self.lines[row][col]
    }

    /// Every line is `cols` wide.
    pub open spec fn rectangular(self) -> bool {
        forall|r: int| 0 <= r < self.lines.len() ==> (#[trigger] self.lines[r]).len() == self.cols
    }

    /// The line at `row`, or no cells where there is no such line.
    pub open spec fn line(self, row: int) -> Seq<CellView> {
        if 0 <= row < self.lines.len() {
            self.lines[row]
        } else {
            seq![]
        }
    }

    /// The grid with another line at `row`. Where there is no such row, nothing changes.
    pub open spec fn with_line(self, row: int, line: Seq<CellView>) -> GridView {
        if 0 <= row < self.lines.len() {
            GridView { lines: self.lines.update(row, line), ..self }
        } else {
            self
        }
    }

    /// The grid after the columns `[left, right)` of line `src` were copied to line `dst`.
    pub open spec fn with_copied_range(self, src: int, dst: int, left: int, right: int) -> GridView {
        if 0 <= src < self.lines.len() && 0 <= dst < self.lines.len() {
            self.with_line(
                dst,
                Seq::new(
                    self.cols,
                    |c: int|
                        if left <= c < right {
                            self.lines[src][c]
                        } else {
                            self.lines[dst][c]
                        },
                ),
            )
        } else {
            self
        }
    }

    /// The text of a line: the texts of its cells one after the other.
    pub open spec fn row_text(self, row: int) -> Seq<char> {
        line_text(self.line(row))
    }
}

/// The texts of the cells one after the other.
pub open spec fn line_text(line: Seq<CellView>) -> Seq<char>
    decreases line.len(),
{
    if line.len() == 0 {
        seq![]
    } else {
        line_text(line.drop_last()) + line.last().text
    }
}

/// A position inside the grid has its own place among the cells.
proof fn lemma_index(cols: int, rows: int, r: int, c: int)
    by (nonlinear_arith)
    requires
        0 <= r < rows,
        0 <= c < cols,
    ensures
        0 <= r * cols + c < cols * rows,
        r * cols + cols <= cols * rows,
        (r + 1) * cols == r * cols + cols,
{
}

/// A line starts and ends inside the cells.
proof fn lemma_line(cols: int, rows: int, r: int)
    by (nonlinear_arith)
    requires
        0 <= cols,
        0 <= r < rows,
    ensures
        0 <= r * cols,
        r * cols + cols <= cols * rows,
        (r + 1) * cols == r * cols + cols,
{
}

impl View for Grid {
    type V = GridView;

    closed spec fn view(&self) -> GridView {
        GridView {
            cols: self.cols as nat,
            lines: Seq::new(
                self.rows as nat,
                |r: int|
                    Seq::new(self.cols as nat, |c: int| self.cells@[r * self.cols + c]@),
            ),
        }
    }
}

impl Grid {
    /// The cells fill the lines exactly.
    pub closed spec fn well_formed(self) -> bool {
        self.cells@.len() == self.cols * self.rows
    }

    /// The lines of the view have their stated width.
    pub proof fn lemma_rectangular(self)
        ensures
            self@.rectangular(),
    {
    }

    /// A grid in which every cell is erased.
    pub fn new(cols: usize, rows: usize) -> (grid: Grid)
        requires
            fits(cols as int, rows as int),
        ensures
            grid.well_formed(),
            grid@ == blank_grid(cols as nat, rows as nat),
    {
        assert(cols * rows <= usize::MAX) by (nonlinear_arith)
            requires
                0 <= cols,
                0 <= rows,
                cols * rows * CELL_SIZE <= isize::MAX,
                CELL_SIZE == 24,
                isize::MAX <= usize::MAX,
        ;
        let blank = Cell::blank();
        let cells: Vec<Cell> = vec![blank; cols * rows];
        let grid = Grid { cols, rows, cells };
        proof {
            assert forall|r: int, c: int| 0 <= r < rows && 0 <= c < cols implies #[trigger] grid@.at(
                r,
                c,
            ) == cell::blank() by {
                lemma_index(cols as int, rows as int, r, c);
            }
            let expected = blank_grid(cols as nat, rows as nat);
            assert forall|r: int| 0 <= r < rows implies grid@.lines[r] == expected.lines[r] by {
                assert forall|c: int| 0 <= c < cols implies grid@.lines[r][c]
                    == expected.lines[r][c] by {
                    assert(grid@.at(r, c) == cell::blank());
                }
                assert(grid@.lines[r] =~= expected.lines[r]);
            }
            assert(grid@ =~= expected);
        }
        grid
    }

    pub fn cols(&self) -> (cols: usize)
        ensures
            cols == self@.cols,
    {
        self.cols
    }

    pub fn rows(&self) -> (rows: usize)
        ensures
            rows == self@.rows(),
    {
        self.rows
    }

    /// The cells of a line. A row outside the grid has none.
    pub fn row(&self, row: usize) -> (cells: &[Cell])
        requires
            self.well_formed(),
        ensures
            shown_cells(cells@) == self@.line(row as int),
    {
        if row >= self.rows {
            let none = vstd::slice::slice_subrange(self.cells.as_slice(), 0, 0);
            assert(shown_cells(none@) =~= self@.line(row as int));
            return none;
        }
        let total: usize = self.cells.len();
        proof {
            lemma_line(self.cols as int, self.rows as int, row as int);
        }
        assert(row * self.cols + self.cols <= total);
        let start: usize = row * self.cols;
        let cells = vstd::slice::slice_subrange(self.cells.as_slice(), start, start + self.cols);
        assert(shown_cells(cells@) =~= self@.line(row as int));
        cells
    }

    /// The cells of a line, to be changed in place. A row outside the grid has none.
    pub fn row_mut(&mut self, row: usize) -> (cells: &mut [Cell])
        requires
            old(self).well_formed(),
        ensures
            shown_cells(cells@) == old(self)@.line(row as int),
            final(cells)@.len() == cells@.len() ==> {
                &&& final(self).well_formed()
                &&& final(self)@ == old(self)@.with_line(row as int, shown_cells(final(cells)@))
            },
    {
        let ghost before = *self;
        let ghost after = *final(self);
        let cols = self.cols;
        let rows = self.rows;
        let inside = row < rows;
        let total: usize = self.cells.len();
        proof {
            if inside {
                lemma_line(cols as int, rows as int, row as int);
                assert(row * cols + cols <= total);
            }
        }
        let start: usize = if inside {
            row * cols
        } else {
            0
        };
        let width: usize = if inside {
            cols
        } else {
            0
        };
        let (_, tail) = self.cells.as_mut_slice().split_at_mut(start);
        let (cells, _) = tail.split_at_mut(width);
        proof {
            let all = before.cells@;
            let end = all.len() as int;
            if inside {
                assert(all.subrange(start as int, end).subrange(width as int, end - start)
                    =~= all.subrange(start + width, end));
            } else {
                assert(all.subrange(0, end).subrange(0, end) =~= all);
                assert(all.subrange(0, 0) + (final(cells)@ + all) =~= final(cells)@ + all);
            }
        }
        assert(shown_cells(cells@) =~= before@.line(row as int));
        proof {
            lemma_row_replaced(before, after, row as int, cells@, final(cells)@);
        }
        cells
    }

    /// Puts one cell at a position inside the grid.
    pub(crate) fn place(&mut self, row: usize, col: usize, cell: Cell)
        requires
            old(self).well_formed(),
            row < old(self)@.rows(),
            col < old(self)@.cols,
        ensures
            final(self).well_formed(),
            final(self)@ == old(self)@.with_line(
                row as int,
                old(self)@.lines[row as int].update(col as int, cell@),
            ),
    {
        let ghost before = self@;
        let line = self.row_mut(row);
        assert(line@.len() == shown_cells(line@).len());
        line[col] = cell;
        assert(shown_cells(line@) =~= before.lines[row as int].update(col as int, cell@));
    }

    /// Erases every cell.
    pub fn clear(&mut self)
        requires
            old(self).well_formed(),
        ensures
            final(self).well_formed(),
            final(self)@ == blank_grid(old(self)@.cols, old(self)@.rows()),
    {
        let blank = Cell::blank();
        let ghost before = self@;
        let mut i: usize = 0;
        while i < self.cells.len()
            invariant
                i <= self.cells@.len(),
                self.well_formed(),
                self.cols == before.cols,
                self.rows == before.rows(),
                blank@ == cell::blank(),
                forall|j: int| 0 <= j < i ==> (#[trigger] self.cells@[j])@ == cell::blank(),
            decreases self.cells@.len() - i,
        {
            self.cells[i] = blank;
            i = i + 1;
        }
        proof {
            let expected = blank_grid(before.cols, before.rows());
            assert forall|r: int| 0 <= r < self.rows implies self@.lines[r] == expected.lines[r] by {
                assert forall|c: int| 0 <= c < self.cols implies self@.lines[r][c]
                    == expected.lines[r][c] by {
                    lemma_index(self.cols as int, self.rows as int, r, c);
                }
                assert(self@.lines[r] =~= expected.lines[r]);
            }
            assert(self@ =~= expected);
        }
    }

    /// Copies the columns `[left, right)` of line `src` to the same columns of line `dst`. What
    /// lies outside the grid is left out.
    pub fn copy_row_range(&mut self, src: usize, dst: usize, left: usize, right: usize)
        requires
            old(self).well_formed(),
        ensures
            final(self).well_formed(),
            final(self)@ == old(self)@.with_copied_range(
                src as int,
                dst as int,
                left as int,
                right as int,
            ),
    {
        let ghost before = *self;
        if src == dst || src >= self.rows || dst >= self.rows {
            assert(self@ =~= before@.with_copied_range(
                src as int,
                dst as int,
                left as int,
                right as int,
            )) by {
                if src == dst && src < self.rows {
                    assert(before@.with_copied_range(
                        src as int,
                        dst as int,
                        left as int,
                        right as int,
                    ).lines[dst as int] =~= before@.lines[dst as int]);
                    assert(before@.with_copied_range(
                        src as int,
                        dst as int,
                        left as int,
                        right as int,
                    ).lines =~= before@.lines);
                }
            }
            return;
        }
        let end: usize = if right < self.cols {
            right
        } else {
            self.cols
        };
        let total: usize = self.cells.len();
        proof {
            lemma_line(self.cols as int, self.rows as int, src as int);
            lemma_line(self.cols as int, self.rows as int, dst as int);
        }
        assert(src * self.cols + self.cols <= total && dst * self.cols + self.cols <= total);
        let from: usize = src * self.cols;
        let to: usize = dst * self.cols;
        let mut c: usize = left;
        while c < end
            invariant
                self.well_formed(),
                self.cols == before.cols,
                self.rows == before.rows,
                before.well_formed(),
                end <= self.cols,
                src < self.rows,
                dst < self.rows,
                src != dst,
                from == src * self.cols,
                to == dst * self.cols,
                from + self.cols <= total,
                to + self.cols <= total,
                total == self.cells@.len(),
                left <= c,
                c <= end || c == left,
                forall|j: int|
                    0 <= j < self.cells@.len() ==> #[trigger] self.cells@[j] == (if to + left <= j
                        < to + c {
                        before.cells@[j - to + from]
                    } else {
                        before.cells@[j]
                    }),
            decreases end - c,
        {
            proof {
                if to + left <= from + c && from + c < to + c {
                    lemma_rows_apart(self.cols as int, src as int, dst as int, c as int);
                }
            }
            let moved = self.cells[from + c];
            assert(moved == before.cells@[from + c]) by {
                if to + left <= from + c < to + c {
                    lemma_rows_apart(self.cols as int, src as int, dst as int, c as int);
                }
            }
            self.cells[to + c] = moved;
            c = c + 1;
        }
        proof {
            lemma_range_copied(before, *self, src as int, dst as int, left as int, right as int);
        }
    }

    /// The text of a line, without the cells that continue a wide character. The spaces up to the
    /// end of the line are in it.
    pub fn row_text(&self, row: usize) -> (text: String)
        requires
            self.well_formed(),
        ensures
            text@ == self@.row_text(row as int),
    {
        let cells = self.row(row);
        let ghost line = shown_cells(cells@);
        let mut out = String::new();
        let mut i: usize = 0;
        while i < cells.len()
            invariant
                i <= cells@.len(),
                line == shown_cells(cells@),
                out@ == line_text(line.take(i as int)),
            decreases cells@.len() - i,
        {
            assert(line.take(i + 1).drop_last() =~= line.take(i as int));
            if !cells[i].text.is_empty() {
                out.append(cells[i].text.as_str());
            } else {
                assert(cells@[i as int].text@ =~= seq![]);
            }
            assert(out@ =~= line_text(line.take(i + 1)));
            i = i + 1;
        }
        assert(line.take(line.len() as int) =~= line);
        out
    }
}

impl Default for Grid {
    fn default() -> (grid: Grid)
        ensures
            grid.well_formed(),
            grid@ == blank_grid(0, 0),
    {
        let grid = Grid { cols: 0, rows: 0, cells: Vec::new() };
        assert(grid@ =~= blank_grid(0, 0));
        grid
    }
}

/// Two different lines do not overlap.
proof fn lemma_rows_apart(cols: int, src: int, dst: int, c: int)
    by (nonlinear_arith)
    requires
        0 <= src,
        0 <= dst,
        src != dst,
        0 <= c < cols,
    ensures
        !(dst * cols <= src * cols + c < dst * cols + c),
{
}

/// Replacing the cells of one line replaces that line of the view and nothing else.
proof fn lemma_row_replaced(
    before: Grid,
    after: Grid,
    row: int,
    was: Seq<Cell>,
    is: Seq<Cell>,
)
    requires
        before.well_formed(),
        0 <= row,
        after.cols == before.cols,
        after.rows == before.rows,
        row < before.rows ==> {
            &&& was.len() == before.cols
            &&& after.cells@ == before.cells@.subrange(0, row * before.cols) + (is
                + before.cells@.subrange(
                row * before.cols + before.cols,
                before.cells@.len() as int,
            ))
        },
        row >= before.rows ==> {
            &&& was.len() == 0
            &&& after.cells@ == is + before.cells@
        },
    ensures
        is.len() == was.len() ==> {
            &&& after.well_formed()
            &&& after@ == before@.with_line(row, shown_cells(is))
        },
{
    if is.len() == was.len() {
        let cols = before.cols as int;
        let rows = before.rows as int;
        if row < rows {
            lemma_line(cols, rows, row);
            let expected = before@.with_line(row, shown_cells(is));
            assert forall|r: int| 0 <= r < rows implies after@.lines[r] == expected.lines[r] by {
                assert forall|c: int| 0 <= c < cols implies after@.lines[r][c]
                    == expected.lines[r][c] by {
                    lemma_index(cols, rows, r, c);
                    if r < row {
                        lemma_before(cols, r, row, c);
                    } else if r > row {
                        lemma_before(cols, row, r, 0);
                        lemma_line(cols, rows, r);
                    }
                }
                assert(after@.lines[r] =~= expected.lines[r]);
            }
            assert(after@ =~= expected);
        } else {
            assert(after.cells@ =~= before.cells@);
            assert(after@ =~= before@);
        }
    }
}

/// A line above another ends before the other starts.
proof fn lemma_before(cols: int, r: int, s: int, c: int)
    by (nonlinear_arith)
    requires
        0 <= r < s,
        0 <= c < cols || c == 0,
        0 <= cols,
    ensures
        r * cols + cols <= s * cols,
{
}

/// Copying cells from one line to another changes the view as stated.
proof fn lemma_range_copied(
    before: Grid,
    after: Grid,
    src: int,
    dst: int,
    left: int,
    right: int,
)
    requires
        before.well_formed(),
        after.well_formed(),
        after.cols == before.cols,
        after.rows == before.rows,
        0 <= src < before.rows,
        0 <= dst < before.rows,
        0 <= left,
        forall|j: int|
            0 <= j < after.cells@.len() ==> #[trigger] after.cells@[j] == (if dst * before.cols
                + left <= j < dst * before.cols + (if right < before.cols {
                right
            } else {
                before.cols as int
            }) {
                before.cells@[j - dst * before.cols + src * before.cols]
            } else {
                before.cells@[j]
            }),
    ensures
        after@ == before@.with_copied_range(src, dst, left, right),
{
    let cols = before.cols as int;
    let rows = before.rows as int;
    let expected = before@.with_copied_range(src, dst, left, right);
    assert forall|r: int| 0 <= r < rows implies after@.lines[r] == expected.lines[r] by {
        assert forall|c: int| 0 <= c < cols implies after@.lines[r][c] == expected.lines[r][c] by {
            lemma_index(cols, rows, r, c);
            lemma_index(cols, rows, src, c);
            if r < dst {
                lemma_before(cols, r, dst, c);
            } else if r > dst {
                lemma_before(cols, dst, r, c);
            }
        }
        assert(after@.lines[r] =~= expected.lines[r]);
    }
    assert(after@ =~= expected);
}

/// Copying a part of a line changes only the columns named, only in the target, and only where both
/// lines are there.
pub proof fn law_copied_range(
    g: GridView,
    src: int,
    dst: int,
    left: int,
    right: int,
    r: int,
    c: int,
)
    requires
        g.rectangular(),
        0 <= r < g.lines.len(),
        0 <= c < g.cols,
    ensures
        ({
            let after = g.with_copied_range(src, dst, left, right);
            let there = 0 <= src < g.lines.len() && 0 <= dst < g.lines.len();
            &&& after.cols == g.cols
            &&& after.lines.len() == g.lines.len()
            &&& there && r == dst && left <= c < right ==> after.lines[r][c] == g.lines[src][c]
            &&& !there || r != dst || c < left || c >= right ==> after.lines[r][c]
                == g.lines[r][c]
        }),
{
}

/// A line of the grid is read as it is, and replaced alone.
pub proof fn law_lines(g: GridView, row: int, line: Seq<CellView>, r: int)
    requires
        0 <= r < g.lines.len(),
    ensures
        g.line(r) == g.lines[r],
        row < 0 || row >= g.lines.len() ==> g.line(row).len() == 0,
        row < 0 || row >= g.lines.len() ==> g.with_line(row, line) == g,
        g.with_line(row, line).cols == g.cols,
        g.with_line(row, line).lines.len() == g.lines.len(),
        r != row ==> g.with_line(row, line).lines[r] == g.lines[r],
        r == row ==> g.with_line(row, line).lines[r] == line,
{
}

/// The text of a line is that of its cells from left to right; a row that is not there has none.
pub proof fn law_line_text(g: GridView, row: int, first: CellView, rest: Seq<CellView>)
    ensures
        line_text(seq![]) == Seq::<char>::empty(),
        line_text(seq![first] + rest) == first.text + line_text(rest),
        0 <= row < g.lines.len() ==> g.row_text(row) == line_text(g.lines[row]),
        row < 0 || row >= g.lines.len() ==> g.row_text(row).len() == 0,
    decreases rest.len(),
{
    let line = seq![first] + rest;
    if rest.len() == 0 {
        assert(line.drop_last() =~= seq![]);
        reveal_with_fuel(line_text, 2);
        assert(line_text(line) =~= first.text + line_text(rest));
    } else {
        law_line_text(g, row, first, rest.drop_last());
        assert(line.drop_last() =~= seq![first] + rest.drop_last());
        assert(line_text(line) =~= first.text + line_text(rest));
    }
}

/// A new grid has the size it was asked for, and one space in the default highlight in every cell.
pub proof fn law_blank_grid(cols: nat, rows: nat)
    ensures
        blank_grid(cols, rows).cols == cols,
        blank_grid(cols, rows).lines.len() == rows,
        blank_grid(cols, rows).rectangular(),
        forall|r: int, c: int|
            0 <= r < rows && 0 <= c < cols ==> (#[trigger] blank_grid(cols, rows).lines[r][c]) == (
            CellView { text: seq![' '], hl_id: 0 }),
        forall|g: GridView|
            #[trigger] g.rectangular() <==> (forall|r: int|
                0 <= r < g.lines.len() ==> (#[trigger] g.lines[r]).len() == g.cols),
{
}

/// A grid fits where its cells, of 24 bytes each, take no more than the largest allocation.
pub proof fn law_fits(cols: int, rows: int)
    ensures
        fits(cols, rows) <==> 24 * (cols * rows) <= isize::MAX,
{
    assert(cols * rows * 24 == 24 * (cols * rows)) by (nonlinear_arith);
}

} // verus!
