//! Selections on the terminal grid and the terminal's clipboard.

use vstd::prelude::*;
use crate::terminal::buffer::Grid;
use crate::terminal::buffer::cell::Cell;
use crate::terminal::buffer::grid::row_chars;
use crate::text::chars_to_string;

verus! {

/// Selection modes.
#[derive(Debug, Clone, Copy, PartialEq, Eq, Structural)]
pub enum SelectionMode {
    /// Characters from start to end, row by row
    Normal,
    /// A rectangle
    Block,
    /// Whole rows
    Line,
}

/// A selection on the terminal grid, between two (row, column) points.
#[derive(Debug, Clone, Copy, PartialEq, Eq)]
pub struct Selection {
    /// The mode
    pub mode: SelectionMode,
    /// Where it started
    pub start: (usize, usize),
    /// Where it ends now
    pub end: (usize, usize),
    /// Whether it is active
    pub active: bool,
}

/// `a` is not after `b` (rows first, then columns).
pub open spec fn point_le(a: (usize, usize), b: (usize, usize)) -> bool {
    a.0 < b.0 || (a.0 == b.0 && a.1 <= b.1)
}

/// The inactive selection at the origin, in normal mode.
pub open spec fn no_selection() -> Selection {
    Selection { mode: SelectionMode::Normal, start: (0, 0), end: (0, 0), active: false }
}

/// The selection's end points, earlier first.
pub open spec fn ordered(s: Selection) -> ((usize, usize), (usize, usize)) {
    if point_le(s.start, s.end) { (s.start, s.end) } else { (s.end, s.start) }
}

/// Whether a selection covers a cell.
pub open spec fn covers(s: Selection, row: usize, col: usize) -> bool {
    let (a, b) = ordered(s);
    s.active && match s.mode {
        SelectionMode::Normal => a.0 <= row <= b.0 && (row == a.0 ==> col >= a.1) && (row == b.0 ==> col <= b.1),
        SelectionMode::Block => a.0 <= row <= b.0 && a.1 <= col <= b.1,
        SelectionMode::Line => a.0 <= row <= b.0,
    }
}

impl Selection {
    /// An inactive selection.
    pub fn new() -> (s: Self)
        ensures
            s == no_selection(),
    {
        Self { mode: SelectionMode::Normal, start: (0, 0), end: (0, 0), active: false }
    }

    /// Starts a selection at a point.
    pub fn start(&mut self, row: usize, col: usize, mode: SelectionMode)
        ensures
            *final(self) == (Selection { mode, start: (row, col), end: (row, col), active: true }),
    {
        self.mode = mode;
        self.start = (row, col);
        self.end = (row, col);
        self.active = true;
    }

    /// Moves the end point of an active selection.
    pub fn update(&mut self, row: usize, col: usize)
        ensures
            *final(self) == (if old(self).active { Selection { end: (row, col), ..*old(self) } } else { *old(self) }),
    {
        if self.active {
            self.end = (row, col);
        }
    }

    /// Ends the dragging of a selection; it stays as it is.
    pub fn finalize(&mut self)
        ensures
            *final(self) == *old(self),
    {
    }

    /// Deactivates the selection.
    pub fn clear(&mut self)
        ensures
            *final(self) == (Selection { active: false, start: (0, 0), end: (0, 0), ..*old(self) }),
    {
        self.active = false;
        self.start = (0, 0);
        self.end = (0, 0);
    }

    /// The end points, earlier first.
    pub fn bounds(&self) -> (b: ((usize, usize), (usize, usize)))
        ensures
            b == ordered(*self),
    {
        if self.start.0 < self.end.0 || (self.start.0 == self.end.0 && self.start.1 <= self.end.1) {
            (self.start, self.end)
        } else {
            (self.end, self.start)
        }
    }

    /// Whether the selection covers a cell (see [`covers`]).
    pub fn contains(&self, row: usize, col: usize) -> (b: bool)
        ensures
            b == covers(*self, row, col),
    {
        if !self.active {
            return false;
        }
        let ((start_row, start_col), (end_row, end_col)) = self.bounds();
        match self.mode {
            SelectionMode::Normal => {
                if row < start_row || row > end_row {
                    return false;
                }
                if row == start_row && row == end_row {
                    col >= start_col && col <= end_col
                } else if row == start_row {
                    col >= start_col
                } else if row == end_row {
                    col <= end_col
                } else {
                    true
                }
            },
            SelectionMode::Block => row >= start_row && row <= end_row && col >= start_col && col <= end_col,
            SelectionMode::Line => row >= start_row && row <= end_row,
        }
    }

    /// The rows the selection spans (empty when inactive).
    pub fn row_range(&self) -> (r: std::ops::Range<usize>)
        requires
            ordered(*self).1.0 < usize::MAX,
        ensures
            self.active ==> r.start == ordered(*self).0.0 && r.end == ordered(*self).1.0 + 1,
            !self.active ==> r.start == 0 && r.end == 0,
    {
        if !self.active {
            return 0..0;
        }
        let ((start_row, _), (end_row, _)) = self.bounds();
        start_row..(end_row + 1)
    }
}

impl Default for Selection {
    fn default() -> (s: Self)
        ensures
            s == no_selection(),
    {
        Self::new()
    }
}

/// The characters of the cells of a row from column `a` to `b` (both
/// inclusive), within the row.
pub open spec fn span(r: Seq<Cell>, a: int, b: int) -> Seq<char> {
    let lo = if a < r.len() { a } else { r.len() as int };
    let hi = if b + 1 < r.len() { b + 1 } else { r.len() as int };
    if a <= b && lo < hi {
        row_chars(r.subrange(lo, hi))
    } else {
        Seq::empty()
    }
}

/// What a selection takes from one row of cells.
pub open spec fn row_piece(s: Selection, r: Seq<Cell>, row: int) -> Seq<char> {
    let (a, b) = ordered(s);
    let last = if r.len() > 0 { r.len() - 1 } else { 0 };
    match s.mode {
        SelectionMode::Normal => span(
            r,
            if row == a.0 { a.1 as int } else { 0 },
            if row == b.0 { if b.1 < last { b.1 as int } else { last } } else { last },
        ),
        SelectionMode::Block => span(r, a.1 as int, b.1 as int),
        SelectionMode::Line => row_chars(r),
    }
}

/// The text a selection takes from the rows `a.0` up to (not including)
/// `upto`: each row's piece, a line break after each row but the
/// selection's last.
pub open spec fn rows_text(s: Selection, cells: Seq<Seq<Cell>>, upto: int) -> Seq<char>
    decreases upto,
{
    let (a, b) = ordered(s);
    if upto <= a.0 {
        Seq::empty()
    } else {
        rows_text(s, cells, upto - 1) + row_piece(s, cells[upto - 1], upto - 1) + (if upto - 1 < b.0 { seq!['\n'] } else { Seq::empty() })
    }
}

/// The text a selection takes from a grid: the rows of the selection that
/// lie in the grid (none when it is inactive).
pub open spec fn selection_text(s: Selection, cells: Seq<Seq<Cell>>) -> Seq<char> {
    let (a, b) = ordered(s);
    if !s.active {
        Seq::empty()
    } else {
        rows_text(s, cells, if b.0 + 1 < cells.len() { b.0 + 1 } else { cells.len() as int })
    }
}

/// The terminal's clipboard with its selection.
pub struct TerminalClipboard {
    selection: Selection,
    buffer: String,
}

fn push_span(out: &mut Vec<char>, cells: &[Cell], a: usize, b: usize)
    ensures
        final(out)@ == old(out)@ + span(cells@, a as int, b as int),
{
    if a > b {
        return;
    }
    let lo = if a < cells.len() { a } else { cells.len() };
    let hi = if b < cells.len() { b + 1 } else { cells.len() };
    let mut k = lo;
    let ghost base = out@;
    while k < hi
        invariant
            lo <= k <= hi,
            hi <= cells@.len(),
            out@ == base + row_chars(cells@.subrange(lo as int, k as int)),
        decreases hi - k,
    {
        out.push(cells[k].c);
        proof {
            assert(row_chars(cells@.subrange(lo as int, k + 1)) =~= row_chars(cells@.subrange(lo as int, k as int)).push(cells@[k as int].c));
        }
        k = k + 1;
    }
    proof {
        if !(lo < hi) {
            assert(row_chars(cells@.subrange(lo as int, k as int)) =~= Seq::<char>::empty());
        }
    }
}

impl TerminalClipboard {
    /// The selection.
    pub closed spec fn spec_selection(&self) -> Selection {
        self.selection
    }

    /// The clipboard text.
    pub closed spec fn spec_text(&self) -> Seq<char> {
        self.buffer@
    }

    /// An empty clipboard with no selection.
    pub fn new() -> (c: Self)
        ensures
            c.spec_selection() == no_selection(),
            c.spec_text() == Seq::<char>::empty(),
    {
        Self { selection: Selection::new(), buffer: String::new() }
    }

    /// Starts a selection.
    pub fn start_selection(&mut self, row: usize, col: usize, mode: SelectionMode)
        ensures
            final(self).spec_selection() == (Selection { mode, start: (row, col), end: (row, col), active: true }),
            final(self).spec_text() == old(self).spec_text(),
    {
        self.selection.start(row, col, mode);
    }

    /// Moves the end of the selection.
    pub fn update_selection(&mut self, row: usize, col: usize)
        ensures
            final(self).spec_selection() == (if old(self).spec_selection().active {
                Selection { end: (row, col), ..old(self).spec_selection() }
            } else {
                old(self).spec_selection()
            }),
            final(self).spec_text() == old(self).spec_text(),
    {
        self.selection.update(row, col);
    }

    /// Ends the dragging of the selection.
    pub fn finalize_selection(&mut self)
        ensures
            final(self).spec_selection() == old(self).spec_selection(),
            final(self).spec_text() == old(self).spec_text(),
    {
        self.selection.finalize();
    }

    /// Deactivates the selection.
    pub fn clear_selection(&mut self)
        ensures
            final(self).spec_selection() == (Selection { active: false, start: (0, 0), end: (0, 0), ..old(self).spec_selection() }),
            final(self).spec_text() == old(self).spec_text(),
    {
        self.selection.clear();
    }

    /// The selection.
    pub fn selection(&self) -> (s: &Selection)
        ensures
            *s == self.spec_selection(),
    {
        &self.selection
    }

    /// Whether the selection is active.
    pub fn has_selection(&self) -> (b: bool)
        ensures
            b == self.spec_selection().active,
    {
        self.selection.active
    }

    /// Copies the selected text of a grid (see [`selection_text`]) to the
    /// clipboard and returns it; an inactive selection copies nothing and
    /// leaves the clipboard as it is.
    pub fn copy_selection(&mut self, grid: &Grid) -> (s: String)
        requires
            grid.wf(),
        ensures
            s@ == selection_text(old(self).spec_selection(), grid.spec_cells()),
            old(self).spec_selection().active ==> final(self).spec_text() == s@,
            !old(self).spec_selection().active ==> final(self).spec_text() == old(self).spec_text(),
            final(self).spec_selection() == old(self).spec_selection(),
    {
        if !self.selection.active {
            return String::new();
        }
        let sel = self.selection;
        let ((start_row, start_col), (end_row, end_col)) = self.selection.bounds();
        let rows = grid.rows();
        let upto = if end_row < rows { end_row + 1 } else { rows };
        let mut out: Vec<char> = Vec::new();
        let mut row = start_row;
        while row < upto
            invariant
                grid.wf(),
                sel == self.spec_selection(),
                sel.active,
                ordered(sel) == ((start_row, start_col), (end_row, end_col)),
                rows == grid.spec_rows(),
                upto == (if end_row + 1 < grid.spec_cells().len() { end_row + 1 } else { grid.spec_cells().len() as int }),
                start_row <= row || row == start_row,
                row >= start_row,
                row <= upto || row == start_row,
                out@ == rows_text(sel, grid.spec_cells(), row as int),
            decreases upto - row,
        {
            match grid.row(row) {
                Some(cells) => {
                    let len = cells.len();
                    let last = if len > 0 { len - 1 } else { 0 };
                    match sel.mode {
                        SelectionMode::Normal => {
                            let a = if row == start_row { start_col } else { 0 };
                            let b = if row == end_row { if end_col < last { end_col } else { last } } else { last };
                            push_span(&mut out, cells, a, b);
                        },
                        SelectionMode::Block => {
                            push_span(&mut out, cells, start_col, end_col);
                        },
                        SelectionMode::Line => {
                            let mut k: usize = 0;
                            let ghost base = out@;
                            while k < cells.len()
                                invariant
                                    k <= cells@.len(),
                                    out@ == base + row_chars(cells@).take(k as int),
                                decreases cells@.len() - k,
                            {
                                out.push(cells[k].c);
                                proof {
                                    assert(row_chars(cells@).take(k + 1) =~= row_chars(cells@).take(k as int).push(cells@[k as int].c));
                                }
                                k = k + 1;
                            }
                            proof {
                                assert(row_chars(cells@).take(k as int) =~= row_chars(cells@));
                            }
                        },
                    }
                    if row < end_row {
                        out.push('\n');
                    }
                },
                None => {},
            }
            proof {
                assert(rows_text(sel, grid.spec_cells(), row + 1) == rows_text(sel, grid.spec_cells(), row as int) + row_piece(sel, grid.spec_cells()[row as int], row as int) + (if row < end_row { seq!['\n'] } else { Seq::empty() }));
            }
            row = row + 1;
        }
        let text = chars_to_string(out.as_slice());
        self.buffer = text.clone();
        text
    }

    /// The clipboard text.
    pub fn get_text(&self) -> (s: &str)
        ensures
            s@ == self.spec_text(),
    {
        self.buffer.as_str()
    }

    /// Sets the clipboard text.
    pub fn set_text(&mut self, text: String)
        ensures
            final(self).spec_text() == text@,
            final(self).spec_selection() == old(self).spec_selection(),
    {
        self.buffer = text;
    }

    /// The text to paste: the clipboard text.
    pub fn paste(&self) -> (s: &str)
        ensures
            s@ == self.spec_text(),
    {
        self.buffer.as_str()
    }
}

impl Default for TerminalClipboard {
    fn default() -> (c: Self)
        ensures
            c.spec_selection() == no_selection(),
            c.spec_text() == Seq::<char>::empty(),
    {
        Self::new()
    }
}

} // verus!
