//! The terminal grid: rows of cells of one width.

use vstd::prelude::*;
use crate::terminal::buffer::cell::{blank, Cell};
use crate::text::{chars_to_string, joined};

verus! {

/// A row of `n` blank cells.
pub open spec fn blank_row(n: nat) -> Seq<Cell> {
    Seq::new(n, |i: int| blank())
}

/// The rows' cells, one row after another.
pub open spec fn flatten(rs: Seq<Seq<Cell>>) -> Seq<Cell>
    decreases rs.len(),
{
    if rs.len() == 0 {
        Seq::empty()
    } else {
        flatten(rs.drop_last()) + rs.last()
    }
}

/// The characters of a row of cells.
pub open spec fn row_chars(r: Seq<Cell>) -> Seq<char> {
    r.map_values(|c: Cell| c.c)
}

/// A grid of cells: `rows` rows of `cols` cells each.
#[derive(Debug, Clone, PartialEq, Eq)]
pub struct Grid {
    rows: usize,
    cols: usize,
    cells: Vec<Vec<Cell>>,
}

fn make_blank_row(n: usize) -> (v: Vec<Cell>)
    ensures
        v@ == blank_row(n as nat),
{
    let mut v: Vec<Cell> = Vec::new();
    let mut i: usize = 0;
    while i < n
        invariant
            i <= n,
            v@ == blank_row(i as nat),
        decreases n - i,
    {
        v.push(Cell::default());
        proof {
            assert(v@ =~= blank_row((i + 1) as nat));
        }
        i = i + 1;
    }
    v
}

impl Grid {
    /// The number of rows.
    pub closed spec fn spec_rows(&self) -> usize {
        self.rows
    }

    /// The number of columns.
    pub closed spec fn spec_cols(&self) -> usize {
        self.cols
    }

    /// The rows of cells, top first.
    pub closed spec fn spec_cells(&self) -> Seq<Seq<Cell>> {
        self.cells@.map_values(|r: Vec<Cell>| r@)
    }

    /// There are `rows` rows of `cols` cells each.
    pub open spec fn wf(&self) -> bool {
        &&& self.spec_cells().len() == self.spec_rows()
        &&& forall|r: int| 0 <= r < self.spec_rows() ==> (#[trigger] self.spec_cells()[r]).len() == self.spec_cols()
    }

    /// The cell at a position.
    pub open spec fn cell_at(&self, r: int, c: int) -> Cell {
        self.spec_cells()[r][c]
    }

    /// A blank grid. Both dimensions must be positive.
    pub fn new(rows: usize, cols: usize) -> (g: Self)
        requires
            rows > 0,
            cols > 0,
            rows * cols <= usize::MAX,
        ensures
            g.wf(),
            g.spec_rows() == rows,
            g.spec_cols() == cols,
            g.spec_cells() == Seq::new(rows as nat, |r: int| blank_row(cols as nat)),
    {
        let mut cells: Vec<Vec<Cell>> = Vec::new();
        let mut i: usize = 0;
        while i < rows
            invariant
                i <= rows,
                cells@.len() == i,
                forall|k: int| 0 <= k < i ==> (#[trigger] cells@[k])@ == blank_row(cols as nat),
            decreases rows - i,
        {
            cells.push(make_blank_row(cols));
            i = i + 1;
        }
        proof {
            assert(cells@.map_values(|r: Vec<Cell>| r@) =~= Seq::new(rows as nat, |r: int| blank_row(cols as nat)));
        }
        Self { rows, cols, cells }
    }

    /// The number of rows.
    pub fn rows(&self) -> (n: usize)
        ensures
            n == self.spec_rows(),
    {
        self.rows
    }

    /// The number of columns.
    pub fn cols(&self) -> (n: usize)
        ensures
            n == self.spec_cols(),
    {
        self.cols
    }

    /// The dimensions, rows first.
    pub fn size(&self) -> (s: (usize, usize))
        ensures
            s == (self.spec_rows(), self.spec_cols()),
    {
        (self.rows, self.cols)
    }

    /// The cell at a position, if it lies in the grid.
    pub fn get(&self, row: usize, col: usize) -> (r: Option<&Cell>)
        requires
            self.wf(),
        ensures
            row < self.spec_rows() && col < self.spec_cols() ==> r is Some && *r->0 == self.cell_at(row as int, col as int),
            !(row < self.spec_rows() && col < self.spec_cols()) ==> r is None,
    {
        if row < self.rows && col < self.cols {
            proof {
                assert(self.spec_cells()[row as int] == self.cells@[row as int]@);
            }
            Some(&self.cells[row][col])
        } else {
            None
        }
    }

    /// The cell at a position, to change it, if it lies in the grid.
    pub fn get_mut(&mut self, row: usize, col: usize) -> (r: Option<&mut Cell>)
        requires
            old(self).wf(),
        ensures
            row < old(self).spec_rows() && col < old(self).spec_cols() ==> r is Some
                && *r->0 == old(self).cell_at(row as int, col as int)
                && final(self).spec_cells() == old(self).spec_cells().update(row as int, old(self).spec_cells()[row as int].update(col as int, *final(r->0))),
            !(row < old(self).spec_rows() && col < old(self).spec_cols()) ==> r is None && final(self).spec_cells() == old(self).spec_cells(),
            final(self).spec_rows() == old(self).spec_rows(),
            final(self).spec_cols() == old(self).spec_cols(),
    {
        if row < self.rows && col < self.cols {
            proof {
                assert(old(self).spec_cells()[row as int] == self.cells@[row as int]@);
            }
            Some(&mut self.cells[row][col])
        } else {
            None
        }
    }

    /// Sets the cell at a position; whether the position lies in the grid.
    pub fn set(&mut self, row: usize, col: usize, cell: Cell) -> (b: bool)
        requires
            old(self).wf(),
        ensures
            final(self).wf(),
            b == (row < old(self).spec_rows() && col < old(self).spec_cols()),
            b ==> final(self).spec_cells() == old(self).spec_cells().update(row as int, old(self).spec_cells()[row as int].update(col as int, cell)),
            !b ==> final(self).spec_cells() == old(self).spec_cells(),
            final(self).spec_rows() == old(self).spec_rows(),
            final(self).spec_cols() == old(self).spec_cols(),
    {
        if row < self.rows && col < self.cols {
            proof {
                assert(self.cells@[row as int]@ == old(self).spec_cells()[row as int]);
            }
            let mut r = self.cells.remove(row);
            r.set(col, cell);
            self.cells.insert(row, r);
            proof {
                assert(self.spec_cells() =~= old(self).spec_cells().update(row as int, old(self).spec_cells()[row as int].update(col as int, cell)));
            }
            true
        } else {
            false
        }
    }

    /// Sets the character at a position, keeping its style; whether the
    /// position lies in the grid.
    pub fn set_char(&mut self, row: usize, col: usize, c: char) -> (b: bool)
        requires
            old(self).wf(),
        ensures
            final(self).wf(),
            b == (row < old(self).spec_rows() && col < old(self).spec_cols()),
            b ==> final(self).spec_cells() == old(self).spec_cells().update(row as int, old(self).spec_cells()[row as int].update(col as int, Cell { c, ..old(self).cell_at(row as int, col as int) })),
            !b ==> final(self).spec_cells() == old(self).spec_cells(),
            final(self).spec_rows() == old(self).spec_rows(),
            final(self).spec_cols() == old(self).spec_cols(),
    {
        if row < self.rows && col < self.cols {
            let mut cell = self.cells[row][col];
            cell.set_char(c);
            self.set(row, col, cell)
        } else {
            false
        }
    }

    /// Makes the cell at a position blank, if it lies in the grid.
    pub fn clear_cell(&mut self, row: usize, col: usize)
        requires
            old(self).wf(),
        ensures
            final(self).wf(),
            row < old(self).spec_rows() && col < old(self).spec_cols() ==> final(self).spec_cells() == old(self).spec_cells().update(row as int, old(self).spec_cells()[row as int].update(col as int, blank())),
            !(row < old(self).spec_rows() && col < old(self).spec_cols()) ==> final(self).spec_cells() == old(self).spec_cells(),
            final(self).spec_rows() == old(self).spec_rows(),
            final(self).spec_cols() == old(self).spec_cols(),
    {
        self.set(row, col, Cell::default());
    }

    /// Makes every cell blank.
    pub fn clear(&mut self)
        requires
            old(self).wf(),
        ensures
            final(self).wf(),
            final(self).spec_cells() == Seq::new(old(self).spec_rows() as nat, |r: int| blank_row(old(self).spec_cols() as nat)),
            final(self).spec_rows() == old(self).spec_rows(),
            final(self).spec_cols() == old(self).spec_cols(),
    {
        let mut i: usize = 0;
        proof {
            assert forall|r: int| 0 <= r < self.rows implies #[trigger] self.cells@[r]@.len() == self.cols by {
                assert(self.spec_cells()[r] == self.cells@[r]@);
            }
        }
        while i < self.rows
            invariant
                i <= self.rows,
                self.rows == old(self).spec_rows(),
                self.cols == old(self).spec_cols(),
                self.cells@.len() == self.rows,
                forall|r: int| 0 <= r < i ==> #[trigger] self.cells@[r]@ == blank_row(self.cols as nat),
                forall|r: int| i <= r < self.rows ==> #[trigger] self.cells@[r]@.len() == self.cols,
            decreases self.rows - i,
        {
            self.cells.set(i, make_blank_row(self.cols));
            i = i + 1;
        }
        proof {
            assert(self.spec_cells() =~= Seq::new(old(self).spec_rows() as nat, |r: int| blank_row(old(self).spec_cols() as nat)));
        }
    }

    /// Makes a row blank, if it lies in the grid.
    pub fn clear_row(&mut self, row: usize)
        requires
            old(self).wf(),
        ensures
            final(self).wf(),
            row < old(self).spec_rows() ==> final(self).spec_cells() == old(self).spec_cells().update(row as int, blank_row(old(self).spec_cols() as nat)),
            row >= old(self).spec_rows() ==> final(self).spec_cells() == old(self).spec_cells(),
            final(self).spec_rows() == old(self).spec_rows(),
            final(self).spec_cols() == old(self).spec_cols(),
    {
        if row < self.rows {
            self.cells.set(row, make_blank_row(self.cols));
            proof {
                assert(self.spec_cells() =~= old(self).spec_cells().update(row as int, blank_row(old(self).spec_cols() as nat)));
            }
        }
    }

    /// Makes the rows from `start` to `end` (inclusive, within the grid)
    /// blank.
    pub fn clear_rows(&mut self, start: usize, end: usize)
        requires
            old(self).wf(),
        ensures
            final(self).wf(),
            final(self).spec_rows() == old(self).spec_rows(),
            final(self).spec_cols() == old(self).spec_cols(),
            final(self).spec_cells().len() == old(self).spec_cells().len(),
            forall|r: int| 0 <= r < old(self).spec_rows() ==> #[trigger] final(self).spec_cells()[r] == (if start <= r <= end {
                blank_row(old(self).spec_cols() as nat)
            } else {
                old(self).spec_cells()[r]
            }),
    {
        let mut row = start;
        while row <= end && row < self.rows
            invariant
                self.wf(),
                start <= row,
                row <= start || row <= end + 1,
                self.spec_rows() == old(self).spec_rows(),
                self.spec_cols() == old(self).spec_cols(),
                forall|r: int| 0 <= r < old(self).spec_rows() ==> #[trigger] self.spec_cells()[r] == (if start <= r < row {
                    blank_row(old(self).spec_cols() as nat)
                } else {
                    old(self).spec_cells()[r]
                }),
            decreases self.spec_rows() - row,
        {
            self.clear_row(row);
            row = row + 1;
        }
    }

    /// The cells of a row, if it lies in the grid.
    pub fn row(&self, row: usize) -> (r: Option<&[Cell]>)
        requires
            self.wf(),
        ensures
            row < self.spec_rows() ==> r is Some && r->0@ == self.spec_cells()[row as int],
            row >= self.spec_rows() ==> r is None,
    {
        if row < self.rows {
            Some(self.cells[row].as_slice())
        } else {
            None
        }
    }

    /// The cells of a row, to change in place (its length stays); `None`
    /// past the last row.
    pub fn row_mut(&mut self, row: usize) -> (r: Option<&mut [Cell]>)
        requires
            old(self).wf(),
        ensures
            row < old(self).spec_rows() ==> (r matches Some(x) && x@ == old(self).spec_cells()[row as int]
                && final(self).spec_cells() == old(self).spec_cells().update(row as int, final(x)@)),
            row >= old(self).spec_rows() ==> r is None && final(self).spec_cells() == old(self).spec_cells(),
            final(self).spec_rows() == old(self).spec_rows(),
            final(self).spec_cols() == old(self).spec_cols(),
    {
        if row < self.rows {
            Some(self.cells[row].as_mut_slice())
        } else {
            None
        }
    }

    /// Removes the top row and adds a blank row at the bottom; returns the
    /// removed row (nothing for a grid without rows).
    pub fn scroll_up(&mut self) -> (removed: Vec<Cell>)
        requires
            old(self).wf(),
        ensures
            final(self).wf(),
            final(self).spec_rows() == old(self).spec_rows(),
            final(self).spec_cols() == old(self).spec_cols(),
            old(self).spec_rows() > 0 ==> removed@ == old(self).spec_cells()[0]
                && final(self).spec_cells() == old(self).spec_cells().drop_first().push(blank_row(old(self).spec_cols() as nat)),
            old(self).spec_rows() == 0 ==> removed@.len() == 0 && final(self).spec_cells() == old(self).spec_cells(),
    {
        if self.rows == 0 {
            return Vec::new();
        }
        let removed = self.cells.remove(0);
        self.cells.push(make_blank_row(self.cols));
        proof {
            assert(self.spec_cells() =~= old(self).spec_cells().drop_first().push(blank_row(old(self).spec_cols() as nat)));
        }
        removed
    }

    /// Removes the bottom row and adds a blank row at the top.
    pub fn scroll_down(&mut self)
        requires
            old(self).wf(),
        ensures
            final(self).wf(),
            final(self).spec_rows() == old(self).spec_rows(),
            final(self).spec_cols() == old(self).spec_cols(),
            old(self).spec_rows() > 0 ==> final(self).spec_cells() == seq![blank_row(old(self).spec_cols() as nat)] + old(self).spec_cells().drop_last(),
            old(self).spec_rows() == 0 ==> final(self).spec_cells() == old(self).spec_cells(),
    {
        if self.rows == 0 {
            return;
        }
        let _ = self.cells.pop();
        self.cells.insert(0, make_blank_row(self.cols));
        proof {
            assert(self.spec_cells() =~= seq![blank_row(old(self).spec_cols() as nat)] + old(self).spec_cells().drop_last());
        }
    }

    /// Within rows `start` to `end` (inclusive), removes the top row and
    /// adds a blank row at the bottom; returns the removed row. Nothing
    /// happens for a region not within the grid.
    pub fn scroll_region_up(&mut self, start: usize, end: usize) -> (removed: Vec<Cell>)
        requires
            old(self).wf(),
        ensures
            final(self).wf(),
            final(self).spec_rows() == old(self).spec_rows(),
            final(self).spec_cols() == old(self).spec_cols(),
            (start < old(self).spec_rows() && end < old(self).spec_rows() && start <= end) ==> removed@ == old(self).spec_cells()[start as int]
                && final(self).spec_cells() == old(self).spec_cells().remove(start as int).insert(end as int, blank_row(old(self).spec_cols() as nat)),
            !(start < old(self).spec_rows() && end < old(self).spec_rows() && start <= end) ==> removed@.len() == 0 && final(self).spec_cells() == old(self).spec_cells(),
    {
        if start >= self.rows || end >= self.rows || start > end {
            return Vec::new();
        }
        let removed = self.cells.remove(start);
        self.cells.insert(end, make_blank_row(self.cols));
        proof {
            assert(self.spec_cells() =~= old(self).spec_cells().remove(start as int).insert(end as int, blank_row(old(self).spec_cols() as nat)));
        }
        removed
    }

    /// Within rows `start` to `end` (inclusive), removes the bottom row and
    /// adds a blank row at the top. Nothing happens for a region not within
    /// the grid.
    pub fn scroll_region_down(&mut self, start: usize, end: usize)
        requires
            old(self).wf(),
        ensures
            final(self).wf(),
            final(self).spec_rows() == old(self).spec_rows(),
            final(self).spec_cols() == old(self).spec_cols(),
            (start < old(self).spec_rows() && end < old(self).spec_rows() && start <= end) ==> final(self).spec_cells() == old(self).spec_cells().remove(end as int).insert(start as int, blank_row(old(self).spec_cols() as nat)),
            !(start < old(self).spec_rows() && end < old(self).spec_rows() && start <= end) ==> final(self).spec_cells() == old(self).spec_cells(),
    {
        if start >= self.rows || end >= self.rows || start > end {
            return;
        }
        let _ = self.cells.remove(end);
        self.cells.insert(start, make_blank_row(self.cols));
        proof {
            assert(self.spec_cells() =~= old(self).spec_cells().remove(end as int).insert(start as int, blank_row(old(self).spec_cols() as nat)));
        }
    }

    /// Changes the dimensions: cells within both the old and the new
    /// dimensions are kept, the others are blank.
    pub fn resize(&mut self, new_rows: usize, new_cols: usize)
        requires
            old(self).wf(),
            (new_rows != old(self).spec_rows() || new_cols != old(self).spec_cols()) ==> new_rows * new_cols <= usize::MAX,
        ensures
            final(self).wf(),
            final(self).spec_rows() == new_rows,
            final(self).spec_cols() == new_cols,
            forall|r: int, c: int| 0 <= r < new_rows && 0 <= c < new_cols ==> #[trigger] final(self).cell_at(r, c) == (if r < old(self).spec_rows() && c < old(self).spec_cols() {
                old(self).cell_at(r, c)
            } else {
                blank()
            }),
    {
        if new_rows == self.rows && new_cols == self.cols {
            return;
        }
        let copy_cols = if self.cols < new_cols { self.cols } else { new_cols };
        let mut cells: Vec<Vec<Cell>> = Vec::new();
        let mut r: usize = 0;
        while r < new_rows
            invariant
                r <= new_rows,
                self.wf(),
                *self == *old(self),
                copy_cols == (if old(self).spec_cols() < new_cols { old(self).spec_cols() } else { new_cols }),
                cells@.len() == r,
                forall|i: int| 0 <= i < r ==> (#[trigger] cells@[i])@.len() == new_cols,
                forall|i: int, c: int| 0 <= i < r && 0 <= c < new_cols ==> #[trigger] cells@[i]@[c] == (if i < old(self).spec_rows() && c < old(self).spec_cols() {
                    old(self).cell_at(i, c)
                } else {
                    blank()
                }),
            decreases new_rows - r,
        {
            let mut row: Vec<Cell> = Vec::new();
            let mut c: usize = 0;
            while c < new_cols
                invariant
                    c <= new_cols,
                    r < new_rows,
                    self.wf(),
                    *self == *old(self),
                    copy_cols == (if old(self).spec_cols() < new_cols { old(self).spec_cols() } else { new_cols }),
                    row@.len() == c,
                    forall|k: int| 0 <= k < c ==> #[trigger] row@[k] == (if r < old(self).spec_rows() && k < old(self).spec_cols() {
                        old(self).cell_at(r as int, k)
                    } else {
                        blank()
                    }),
                decreases new_cols - c,
            {
                if r < self.rows && c < copy_cols {
                    proof {
                        assert(self.spec_cells()[r as int] == self.cells@[r as int]@);
                    }
                    row.push(self.cells[r][c]);
                } else {
                    row.push(Cell::default());
                }
                c = c + 1;
            }
            cells.push(row);
            r = r + 1;
        }
        self.rows = new_rows;
        self.cols = new_cols;
        self.cells = cells;
    }

    /// Sets every cell to `cell`.
    pub fn fill(&mut self, cell: Cell)
        requires
            old(self).wf(),
        ensures
            final(self).wf(),
            final(self).spec_rows() == old(self).spec_rows(),
            final(self).spec_cols() == old(self).spec_cols(),
            forall|r: int, c: int| 0 <= r < old(self).spec_rows() && 0 <= c < old(self).spec_cols() ==> #[trigger] final(self).cell_at(r, c) == cell,
    {
        let mut i: usize = 0;
        proof {
            assert forall|r: int| 0 <= r < self.rows implies #[trigger] self.cells@[r]@.len() == self.cols by {
                assert(self.spec_cells()[r] == self.cells@[r]@);
            }
        }
        while i < self.rows
            invariant
                i <= self.rows,
                self.rows == old(self).spec_rows(),
                self.cols == old(self).spec_cols(),
                self.cells@.len() == self.rows,
                forall|r: int| 0 <= r < i ==> #[trigger] self.cells@[r]@ == Seq::new(self.cols as nat, |k: int| cell),
                forall|r: int| i <= r < self.rows ==> #[trigger] self.cells@[r]@.len() == self.cols,
            decreases self.rows - i,
        {
            let mut row: Vec<Cell> = Vec::new();
            let mut c: usize = 0;
            while c < self.cols
                invariant
                    c <= self.cols,
                    row@ == Seq::new(c as nat, |k: int| cell),
                decreases self.cols - c,
            {
                row.push(cell);
                proof {
                    assert(row@ =~= Seq::new((c + 1) as nat, |k: int| cell));
                }
                c = c + 1;
            }
            self.cells.set(i, row);
            i = i + 1;
        }
        proof {
            assert forall|r: int, c: int| 0 <= r < old(self).spec_rows() && 0 <= c < old(self).spec_cols() implies #[trigger] self.cell_at(r, c) == cell by {
                assert(self.spec_cells()[r] == self.cells@[r]@);
            }
        }
    }

    /// Sets the cells from (`start_row`, `start_col`) to (`end_row`,
    /// `end_col`), both inclusive and cut to the grid, to `cell`. The grid
    /// must not be empty.
    pub fn fill_region(&mut self, start_row: usize, start_col: usize, end_row: usize, end_col: usize, cell: Cell)
        requires
            old(self).wf(),
            old(self).spec_rows() > 0,
            old(self).spec_cols() > 0,
        ensures
            final(self).wf(),
            final(self).spec_rows() == old(self).spec_rows(),
            final(self).spec_cols() == old(self).spec_cols(),
            forall|r: int, c: int| 0 <= r < old(self).spec_rows() && 0 <= c < old(self).spec_cols() ==> #[trigger] final(self).cell_at(r, c) == (if start_row <= r <= end_row && start_col <= c <= end_col {
                cell
            } else {
                old(self).cell_at(r, c)
            }),
    {
        let last_row = if end_row < self.rows - 1 { end_row } else { self.rows - 1 };
        let last_col = if end_col < self.cols - 1 { end_col } else { self.cols - 1 };
        let mut row = start_row;
        while row <= last_row
            invariant
                self.wf(),
                start_row <= row,
                row <= start_row || row <= last_row + 1,
                last_row < self.spec_rows(),
                last_col < self.spec_cols(),
                last_col == (if end_col < old(self).spec_cols() - 1 { end_col as int } else { old(self).spec_cols() - 1 }),
                self.spec_rows() == old(self).spec_rows(),
                self.spec_cols() == old(self).spec_cols(),
                forall|r: int, c: int| 0 <= r < old(self).spec_rows() && 0 <= c < old(self).spec_cols() ==> #[trigger] self.cell_at(r, c) == (if start_row <= r < row && start_col <= c <= end_col {
                    cell
                } else {
                    old(self).cell_at(r, c)
                }),
            decreases last_row + 1 - row,
        {
            let mut col = start_col;
            while col <= last_col
                invariant
                    self.wf(),
                    start_row <= row <= last_row,
                    start_col <= col,
                    col <= start_col || col <= last_col + 1,
                    last_row < self.spec_rows(),
                    last_col < self.spec_cols(),
                    last_col == (if end_col < old(self).spec_cols() - 1 { end_col as int } else { old(self).spec_cols() - 1 }),
                    self.spec_rows() == old(self).spec_rows(),
                    self.spec_cols() == old(self).spec_cols(),
                    forall|r: int, c: int| 0 <= r < old(self).spec_rows() && 0 <= c < old(self).spec_cols() ==> #[trigger] self.cell_at(r, c) == (if (start_row <= r < row && start_col <= c <= end_col) || (r == row && start_col <= c < col) {
                        cell
                    } else {
                        old(self).cell_at(r, c)
                    }),
                decreases last_col + 1 - col,
            {
                let ghost before = *self;
                self.set(row, col, cell);
                proof {
                    assert forall|r: int, c: int| 0 <= r < old(self).spec_rows() && 0 <= c < old(self).spec_cols() implies #[trigger] self.cell_at(r, c) == (if r == row && c == col { cell } else { before.cell_at(r, c) }) by {
                        if r == row {
                            assert(self.spec_cells()[r] == before.spec_cells()[r].update(col as int, cell));
                        } else {
                            assert(self.spec_cells()[r] == before.spec_cells()[r]);
                        }
                    }
                }
                col = col + 1;
            }
            row = row + 1;
        }
        proof {
            assert(row == last_row + 1 || start_row > last_row);
        }
    }

    /// All cells, row by row.
    pub fn cells(&self) -> (v: Vec<Cell>)
        requires
            self.wf(),
        ensures
            v@ == flatten(self.spec_cells()),
    {
        let mut v: Vec<Cell> = Vec::new();
        let mut r: usize = 0;
        while r < self.rows
            invariant
                self.wf(),
                r <= self.rows,
                v@ == flatten(self.spec_cells().take(r as int)),
            decreases self.rows - r,
        {
            let mut c: usize = 0;
            let ghost base = v@;
            proof {
                assert(self.spec_cells()[r as int] == self.cells@[r as int]@);
            }
            while c < self.cols
                invariant
                    self.wf(),
                    r < self.rows,
                    c <= self.cols,
                    self.spec_cells()[r as int] == self.cells@[r as int]@,
                    v@ == base + self.cells@[r as int]@.take(c as int),
                decreases self.cols - c,
            {
                v.push(self.cells[r][c]);
                proof {
                    assert(self.cells@[r as int]@.take(c + 1) =~= self.cells@[r as int]@.take(c as int).push(self.cells@[r as int]@[c as int]));
                }
                c = c + 1;
            }
            proof {
                assert(self.cells@[r as int]@.take(c as int) =~= self.cells@[r as int]@);
                assert(self.spec_cells().take(r + 1).drop_last() =~= self.spec_cells().take(r as int));
            }
            r = r + 1;
        }
        proof {
            assert(self.spec_cells().take(r as int) =~= self.spec_cells());
        }
        v
    }

    /// The characters of the grid, row by row, a line break between rows.
    pub fn to_string(&self) -> (s: String)
        requires
            self.wf(),
        ensures
            s@ == joined(self.spec_cells().map_values(|r: Seq<Cell>| row_chars(r)), '\n'),
    {
        let mut out: Vec<char> = Vec::new();
        let mut r: usize = 0;
        let ghost rs = self.spec_cells().map_values(|row: Seq<Cell>| row_chars(row));
        while r < self.rows
            invariant
                self.wf(),
                r <= self.rows,
                rs == self.spec_cells().map_values(|row: Seq<Cell>| row_chars(row)),
                out@ == joined(rs.take(r as int), '\n'),
            decreases self.rows - r,
        {
            proof {
                assert(rs.take(r + 1).drop_last() =~= rs.take(r as int));
                assert(self.spec_cells()[r as int] == self.cells@[r as int]@);
            }
            if r > 0 {
                out.push('\n');
            }
            let ghost base = out@;
            let mut c: usize = 0;
            while c < self.cols
                invariant
                    self.wf(),
                    r < self.rows,
                    c <= self.cols,
                    self.spec_cells()[r as int] == self.cells@[r as int]@,
                    out@ == base + row_chars(self.cells@[r as int]@).take(c as int),
                decreases self.cols - c,
            {
                out.push(self.cells[r][c].c);
                proof {
                    assert(row_chars(self.cells@[r as int]@).take(c + 1) =~= row_chars(self.cells@[r as int]@).take(c as int).push(self.cells@[r as int]@[c as int].c));
                }
                c = c + 1;
            }
            proof {
                assert(row_chars(self.cells@[r as int]@).take(c as int) =~= rs[r as int]);
                if r == 0 {
                    assert(rs.take(1) =~= seq![rs[0]]);
                }
            }
            r = r + 1;
        }
        proof {
            assert(rs.take(r as int) =~= rs);
        }
        chars_to_string(out.as_slice())
    }
}

/// After a cell is set, reading it gives it back, and every other cell is
/// as it was.
pub proof fn lemma_get_after_set(cells: Seq<Seq<Cell>>, row: int, col: int, cell: Cell, r: int, c: int)
    requires
        0 <= row < cells.len(),
        0 <= col < cells[row].len(),
        0 <= r < cells.len(),
        0 <= c < cells[r].len(),
    ensures
        cells.update(row, cells[row].update(col, cell))[r][c] == (if r == row && c == col { cell } else { cells[r][c] }),
{
}

} // verus!
