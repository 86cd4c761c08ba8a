//! The terminal's screen: grid of cells, cursor and scrollback.

pub mod cell;
pub mod cursor;
pub mod grid;
pub mod scrollback;

pub use cell::{Attributes, Cell, Color};
pub use cursor::{Cursor, CursorShape};
pub use grid::Grid;
pub use scrollback::Scrollback;

use vstd::prelude::*;
use crate::terminal::buffer::cell::{blank, no_attributes};
use crate::terminal::buffer::cursor::home_cursor;
use crate::terminal::buffer::grid::{blank_row, row_chars};
use crate::terminal::buffer::scrollback::{fitted, pushed};
use crate::text::chars_to_string;

verus! {

/// A terminal's screen: the visible grid, the cursor, the scrollback and
/// the style of the characters written next.
#[derive(Debug, Clone)]
pub struct TerminalBuffer {
    /// The visible grid
    pub grid: Grid,
    /// The cursor
    pub cursor: Cursor,
    /// The lines that scrolled off the top
    pub scrollback: Scrollback,
    /// Foreground color of new characters
    pub current_fg: Color,
    /// Background color of new characters
    pub current_bg: Color,
    /// Attributes of new characters
    pub current_attrs: Attributes,
}

impl TerminalBuffer {
    /// The grid is well formed.
    pub open spec fn wf(&self) -> bool {
        self.grid.wf()
    }

    /// The cell written for a character in the current style.
    pub open spec fn styled(&self, c: char) -> Cell {
        Cell { c, fg: self.current_fg, bg: self.current_bg, attrs: self.current_attrs }
    }

    /// A blank screen of the given size, the cursor at the origin, keeping
    /// up to `scrollback_lines` lines of history.
    pub fn new(rows: usize, cols: usize, scrollback_lines: usize) -> (b: Self)
        requires
            rows > 0,
            cols > 0,
            rows * cols <= usize::MAX,
        ensures
            b.wf(),
            b.grid.spec_rows() == rows,
            b.grid.spec_cols() == cols,
            b.grid.spec_cells() == Seq::new(rows as nat, |r: int| blank_row(cols as nat)),
            b.cursor == home_cursor(),
            b.scrollback.spec_lines().len() == 0,
            b.scrollback.spec_max_lines() == scrollback_lines,
            b.scrollback.spec_cols() == cols,
            b.current_fg == Color::Default,
            b.current_bg == Color::Default,
            b.current_attrs == no_attributes(),
    {
        Self {
            grid: Grid::new(rows, cols),
            cursor: Cursor::new(),
            scrollback: Scrollback::new(scrollback_lines, cols),
            current_fg: Color::Default,
            current_bg: Color::Default,
            current_attrs: Attributes::default(),
        }
    }

    /// The visible size, rows first.
    pub fn size(&self) -> (s: (usize, usize))
        ensures
            s == (self.grid.spec_rows(), self.grid.spec_cols()),
    {
        self.grid.size()
    }

    /// The number of visible rows.
    pub fn rows(&self) -> (n: usize)
        ensures
            n == self.grid.spec_rows(),
    {
        self.grid.rows()
    }

    /// The number of columns.
    pub fn cols(&self) -> (n: usize)
        ensures
            n == self.grid.spec_cols(),
    {
        self.grid.cols()
    }

    /// Writes a character in the current style at the cursor (when it lies
    /// in the grid), without moving the cursor.
    pub fn write_char(&mut self, c: char)
        requires
            old(self).wf(),
        ensures
            final(self).wf(),
            *final(self) == (TerminalBuffer { grid: final(self).grid, ..*old(self) }),
            final(self).grid.spec_rows() == old(self).grid.spec_rows(),
            final(self).grid.spec_cols() == old(self).grid.spec_cols(),
            ({
                let r = old(self).cursor.row as int;
                let k = old(self).cursor.col as int;
                &&& (r < old(self).grid.spec_rows() && k < old(self).grid.spec_cols()) ==> final(self).grid.spec_cells() == old(self).grid.spec_cells().update(r, old(self).grid.spec_cells()[r].update(k, old(self).styled(c)))
                &&& !(r < old(self).grid.spec_rows() && k < old(self).grid.spec_cols()) ==> final(self).grid.spec_cells() == old(self).grid.spec_cells()
            }),
    {
        let cell = Cell::with_style(c, self.current_fg, self.current_bg, self.current_attrs);
        self.grid.set(self.cursor.row, self.cursor.col, cell);
    }

    /// Writes a character at the cursor, then advances the cursor.
    pub fn write_char_and_advance(&mut self, c: char)
        requires
            old(self).wf(),
            advance_allowed(*old(self)),
        ensures
            final(self).wf(),
            ({
                let r = old(self).cursor.row as int;
                let k = old(self).cursor.col as int;
                let g = if r < old(self).grid.spec_rows() && k < old(self).grid.spec_cols() {
                    old(self).grid.spec_cells().update(r, old(self).grid.spec_cells()[r].update(k, old(self).styled(c)))
                } else {
                    old(self).grid.spec_cells()
                };
                advanced(*old(self), g, *final(self))
            }),
    {
        self.write_char(c);
        self.advance_cursor();
    }

    /// Moves the cursor one column right; past the last column, to column 0
    /// of the next row; past the last row, the screen scrolls up one line
    /// and the cursor stays on the last row.
    pub fn advance_cursor(&mut self)
        requires
            old(self).wf(),
            advance_allowed(*old(self)),
        ensures
            final(self).wf(),
            advanced(*old(self), old(self).grid.spec_cells(), *final(self)),
    {
        self.cursor.col = self.cursor.col + 1;
        if self.cursor.col >= self.cols() {
            self.cursor.col = 0;
            self.cursor.row = self.cursor.row + 1;
            if self.cursor.row >= self.rows() {
                self.scroll_up();
                self.cursor.row = self.rows() - 1;
            }
        }
    }

    /// Scrolls the screen up one line: the top row goes to the scrollback
    /// and a blank row appears at the bottom.
    pub fn scroll_up(&mut self)
        requires
            old(self).wf(),
        ensures
            final(self).wf(),
            scrolled_up(*old(self), old(self).grid.spec_cells(), *final(self)),
            final(self).cursor == old(self).cursor,
    {
        let removed_line = self.grid.scroll_up();
        proof {
            if old(self).grid.spec_rows() == 0 {
                assert(removed_line@ =~= Seq::<Cell>::empty());
            }
        }
        self.scrollback.push(removed_line);
    }

    /// Scrolls the screen down one line (the bottom row is lost).
    pub fn scroll_down(&mut self)
        requires
            old(self).wf(),
        ensures
            final(self).wf(),
            *final(self) == (TerminalBuffer { grid: final(self).grid, ..*old(self) }),
            final(self).grid.spec_rows() == old(self).grid.spec_rows(),
            final(self).grid.spec_cols() == old(self).grid.spec_cols(),
            old(self).grid.spec_rows() > 0 ==> final(self).grid.spec_cells() == seq![blank_row(old(self).grid.spec_cols() as nat)] + old(self).grid.spec_cells().drop_last(),
            old(self).grid.spec_rows() == 0 ==> final(self).grid.spec_cells() == old(self).grid.spec_cells(),
    {
        self.grid.scroll_down();
    }

    /// Moves the cursor to a position, kept within the screen.
    pub fn goto(&mut self, row: usize, col: usize)
        ensures
            *final(self) == (TerminalBuffer { cursor: final(self).cursor, ..*old(self) }),
            final(self).cursor.row == (if old(self).grid.spec_rows() > 0 && row > old(self).grid.spec_rows() - 1 { (old(self).grid.spec_rows() - 1) as usize } else { row }),
            final(self).cursor.col == (if old(self).grid.spec_cols() > 0 && col > old(self).grid.spec_cols() - 1 { (old(self).grid.spec_cols() - 1) as usize } else { col }),
            final(self).cursor.visible == old(self).cursor.visible,
            final(self).cursor.shape == old(self).cursor.shape,
    {
        self.cursor.goto(row, col);
        let rows = self.rows();
        let cols = self.cols();
        self.cursor.clamp(rows, cols);
    }

    /// Makes the whole screen blank.
    pub fn clear_screen(&mut self)
        requires
            old(self).wf(),
        ensures
            final(self).wf(),
            *final(self) == (TerminalBuffer { grid: final(self).grid, ..*old(self) }),
            final(self).grid.spec_rows() == old(self).grid.spec_rows(),
            final(self).grid.spec_cols() == old(self).grid.spec_cols(),
            final(self).grid.spec_cells() == Seq::new(old(self).grid.spec_rows() as nat, |r: int| blank_row(old(self).grid.spec_cols() as nat)),
    {
        self.grid.clear();
    }

    /// Makes the cursor's row blank.
    pub fn clear_line(&mut self)
        requires
            old(self).wf(),
        ensures
            final(self).wf(),
            *final(self) == (TerminalBuffer { grid: final(self).grid, ..*old(self) }),
            final(self).grid.spec_rows() == old(self).grid.spec_rows(),
            final(self).grid.spec_cols() == old(self).grid.spec_cols(),
            old(self).cursor.row < old(self).grid.spec_rows() ==> final(self).grid.spec_cells() == old(self).grid.spec_cells().update(old(self).cursor.row as int, blank_row(old(self).grid.spec_cols() as nat)),
            old(self).cursor.row >= old(self).grid.spec_rows() ==> final(self).grid.spec_cells() == old(self).grid.spec_cells(),
    {
        self.grid.clear_row(self.cursor.row);
    }

    /// Makes the cells from the cursor to the end of its row blank.
    pub fn clear_to_end_of_line(&mut self)
        requires
            old(self).wf(),
        ensures
            final(self).wf(),
            *final(self) == (TerminalBuffer { grid: final(self).grid, ..*old(self) }),
            final(self).grid.spec_rows() == old(self).grid.spec_rows(),
            final(self).grid.spec_cols() == old(self).grid.spec_cols(),
            final(self).grid.spec_cells().len() == old(self).grid.spec_cells().len(),
            forall|r: int, c: int| 0 <= r < old(self).grid.spec_rows() && 0 <= c < old(self).grid.spec_cols() ==> #[trigger] final(self).grid.cell_at(r, c) == (if r == old(self).cursor.row && c >= old(self).cursor.col {
                blank()
            } else {
                old(self).grid.cell_at(r, c)
            }),
    {
        let row = self.cursor.row;
        if row >= self.grid.rows() {
            return;
        }
        let mut col = self.cursor.col;
        while col < self.grid.cols()
            invariant
                self.wf(),
                row == old(self).cursor.row,
                row < self.grid.spec_rows(),
                col >= old(self).cursor.col,
                *self == (TerminalBuffer { grid: self.grid, ..*old(self) }),
                self.grid.spec_rows() == old(self).grid.spec_rows(),
                self.grid.spec_cols() == old(self).grid.spec_cols(),
                forall|r: int, c: int| 0 <= r < old(self).grid.spec_rows() && 0 <= c < old(self).grid.spec_cols() ==> #[trigger] self.grid.cell_at(r, c) == (if r == row && old(self).cursor.col <= c < col {
                    blank()
                } else {
                    old(self).grid.cell_at(r, c)
                }),
            decreases self.grid.spec_cols() - col,
        {
            let ghost before = self.grid;
            self.grid.clear_cell(row, col);
            proof {
                assert forall|r: int, c: int| 0 <= r < old(self).grid.spec_rows() && 0 <= c < old(self).grid.spec_cols() implies #[trigger] self.grid.cell_at(r, c) == (if r == row && c == col { blank() } else { before.cell_at(r, c) }) by {
                    if r == row {
                        assert(self.grid.spec_cells()[r] == before.spec_cells()[r].update(col as int, blank()));
                    } else {
                        assert(self.grid.spec_cells()[r] == before.spec_cells()[r]);
                    }
                }
            }
            col = col + 1;
        }
    }

    /// Makes the cells from the cursor to the end of the screen blank.
    pub fn clear_to_end_of_screen(&mut self)
        requires
            old(self).wf(),
            old(self).cursor.row < usize::MAX,
        ensures
            final(self).wf(),
            *final(self) == (TerminalBuffer { grid: final(self).grid, ..*old(self) }),
            final(self).grid.spec_rows() == old(self).grid.spec_rows(),
            final(self).grid.spec_cols() == old(self).grid.spec_cols(),
            forall|r: int, c: int| 0 <= r < old(self).grid.spec_rows() && 0 <= c < old(self).grid.spec_cols() ==> #[trigger] final(self).grid.cell_at(r, c) == (if (r == old(self).cursor.row && c >= old(self).cursor.col) || r > old(self).cursor.row {
                blank()
            } else {
                old(self).grid.cell_at(r, c)
            }),
    {
        self.clear_to_end_of_line();
        let mut row = self.cursor.row + 1;
        let ghost mid = self.grid;
        while row < self.rows()
            invariant
                self.wf(),
                row > old(self).cursor.row,
                *self == (TerminalBuffer { grid: self.grid, ..*old(self) }),
                self.grid.spec_rows() == old(self).grid.spec_rows(),
                self.grid.spec_cols() == old(self).grid.spec_cols(),
                forall|r: int, c: int| 0 <= r < old(self).grid.spec_rows() && 0 <= c < old(self).grid.spec_cols() ==> #[trigger] self.grid.cell_at(r, c) == (if old(self).cursor.row < r < row {
                    blank()
                } else {
                    mid.cell_at(r, c)
                }),
            decreases self.grid.spec_rows() - row,
        {
            let ghost before = self.grid;
            self.grid.clear_row(row);
            proof {
                assert forall|r: int, c: int| 0 <= r < old(self).grid.spec_rows() && 0 <= c < old(self).grid.spec_cols() implies #[trigger] self.grid.cell_at(r, c) == (if r == row { blank() } else { before.cell_at(r, c) }) by {
                    if r == row {
                        assert(self.grid.spec_cells()[r] == blank_row(old(self).grid.spec_cols() as nat));
                    } else {
                        assert(self.grid.spec_cells()[r] == before.spec_cells()[r]);
                    }
                }
            }
            row = row + 1;
        }
    }

    /// Changes the size: the grid keeps what fits, the scrollback lines are
    /// cut or padded to the new width, and the cursor is kept within the
    /// screen.
    pub fn resize(&mut self, new_rows: usize, new_cols: usize)
        requires
            old(self).wf(),
            (new_rows != old(self).grid.spec_rows() || new_cols != old(self).grid.spec_cols()) ==> new_rows * new_cols <= usize::MAX,
        ensures
            final(self).wf(),
            final(self).grid.spec_rows() == new_rows,
            final(self).grid.spec_cols() == new_cols,
            forall|r: int, c: int| 0 <= r < new_rows && 0 <= c < new_cols ==> #[trigger] final(self).grid.cell_at(r, c) == (if r < old(self).grid.spec_rows() && c < old(self).grid.spec_cols() {
                old(self).grid.cell_at(r, c)
            } else {
                blank()
            }),
            final(self).scrollback.spec_cols() == new_cols,
            final(self).scrollback.spec_max_lines() == old(self).scrollback.spec_max_lines(),
            new_cols == old(self).scrollback.spec_cols() ==> final(self).scrollback.spec_lines() == old(self).scrollback.spec_lines(),
            new_cols != old(self).scrollback.spec_cols() ==> final(self).scrollback.spec_lines() == old(self).scrollback.spec_lines().map_values(|l: Seq<Cell>| fitted(l, new_cols as nat)),
            final(self).cursor.row == (if new_rows > 0 && old(self).cursor.row > new_rows - 1 { (new_rows - 1) as usize } else { old(self).cursor.row }),
            final(self).cursor.col == (if new_cols > 0 && old(self).cursor.col > new_cols - 1 { (new_cols - 1) as usize } else { old(self).cursor.col }),
            final(self).cursor.visible == old(self).cursor.visible,
            final(self).cursor.shape == old(self).cursor.shape,
            final(self).current_fg == old(self).current_fg,
            final(self).current_bg == old(self).current_bg,
            final(self).current_attrs == old(self).current_attrs,
    {
        self.grid.resize(new_rows, new_cols);
        self.scrollback.resize_cols(new_cols);
        self.cursor.clamp(new_rows, new_cols);
    }

    /// Sets the foreground color of new characters.
    pub fn set_fg(&mut self, color: Color)
        ensures
            *final(self) == (TerminalBuffer { current_fg: color, ..*old(self) }),
    {
        self.current_fg = color;
    }

    /// Sets the background color of new characters.
    pub fn set_bg(&mut self, color: Color)
        ensures
            *final(self) == (TerminalBuffer { current_bg: color, ..*old(self) }),
    {
        self.current_bg = color;
    }

    /// Sets the attributes of new characters.
    pub fn set_attrs(&mut self, attrs: Attributes)
        ensures
            *final(self) == (TerminalBuffer { current_attrs: attrs, ..*old(self) }),
    {
        self.current_attrs = attrs;
    }

    /// Back to the default style for new characters.
    pub fn reset_style(&mut self)
        ensures
            *final(self) == (TerminalBuffer {
                current_fg: Color::Default,
                current_bg: Color::Default,
                current_attrs: no_attributes(),
                ..*old(self)
            }),
    {
        self.current_fg = Color::Default;
        self.current_bg = Color::Default;
        self.current_attrs = Attributes::default();
    }

    /// The characters of the visible screen (see [`Grid::to_string`]).
    pub fn to_string(&self) -> (s: String)
        requires
            self.wf(),
        ensures
            s@ == crate::text::joined(self.grid.spec_cells().map_values(|r: Seq<Cell>| row_chars(r)), '\n'),
    {
        self.grid.to_string()
    }

    /// The number of lines: visible rows and scrollback lines.
    pub fn total_lines(&self) -> (n: usize)
        requires
            self.grid.spec_rows() + self.scrollback.spec_lines().len() <= usize::MAX,
        ensures
            n == self.grid.spec_rows() + self.scrollback.spec_lines().len(),
    {
        self.rows() + self.scrollback.len()
    }

    /// The characters of a line of the whole history: scrollback lines
    /// first (oldest first), then the visible rows.
    pub fn get_line(&self, line: usize) -> (r: Option<String>)
        requires
            self.wf(),
            self.grid.spec_rows() + self.scrollback.spec_lines().len() <= usize::MAX,
        ensures
            ({
                let n = self.scrollback.spec_lines().len();
                &&& line < n ==> r is Some && r->0@ == row_chars(self.scrollback.spec_lines()[line as int])
                &&& n <= line < n + self.grid.spec_rows() ==> r is Some && r->0@ == row_chars(self.grid.spec_cells()[line - n])
                &&& line >= n + self.grid.spec_rows() ==> r is None
            }),
    {
        let scrollback_len = self.scrollback.len();
        if line < scrollback_len {
            self.scrollback.line_to_string(line)
        } else if line < self.total_lines() {
            let grid_row = line - scrollback_len;
            match self.grid.row(grid_row) {
                Some(cells) => {
                    let mut out: Vec<char> = Vec::new();
                    let mut c: usize = 0;
                    while c < cells.len()
                        invariant
                            c <= cells@.len(),
                            out@ == row_chars(cells@).take(c as int),
                        decreases cells@.len() - c,
                    {
                        out.push(cells[c].c);
                        proof {
                            assert(row_chars(cells@).take(c + 1) =~= row_chars(cells@).take(c as int).push(cells@[c as int].c));
                        }
                        c = c + 1;
                    }
                    proof {
                        assert(row_chars(cells@).take(c as int) =~= row_chars(cells@));
                    }
                    Some(chars_to_string(out.as_slice()))
                },
                None => None,
            }
        } else {
            None
        }
    }
}

/// The cursor can advance without overflow: its column is below the
/// largest value, and when it wraps, its row is too and the screen has a
/// row.
pub open spec fn advance_allowed(b: TerminalBuffer) -> bool {
    &&& b.cursor.col < usize::MAX
    &&& b.cursor.col + 1 >= b.grid.spec_cols() ==> b.cursor.row < usize::MAX && b.grid.spec_rows() > 0
}

/// `b1` is `b0` with its grid cells `g` scrolled up one line, the top row
/// pushed to the scrollback.
pub open spec fn scrolled_up(b0: TerminalBuffer, g: Seq<Seq<Cell>>, b1: TerminalBuffer) -> bool {
    &&& b1.grid.spec_rows() == b0.grid.spec_rows()
    &&& b1.grid.spec_cols() == b0.grid.spec_cols()
    &&& b0.grid.spec_rows() > 0 ==> b1.grid.spec_cells() == g.drop_first().push(blank_row(b0.grid.spec_cols() as nat))
        && b1.scrollback.spec_lines() == pushed(b0.scrollback.spec_lines(), b0.scrollback.spec_max_lines(), fitted(g[0], b0.scrollback.spec_cols() as nat))
    &&& b0.grid.spec_rows() == 0 ==> b1.grid.spec_cells() == g
        && b1.scrollback.spec_lines() == pushed(b0.scrollback.spec_lines(), b0.scrollback.spec_max_lines(), fitted(Seq::empty(), b0.scrollback.spec_cols() as nat))
    &&& b1.scrollback.spec_max_lines() == b0.scrollback.spec_max_lines()
    &&& b1.scrollback.spec_cols() == b0.scrollback.spec_cols()
    &&& b1.current_fg == b0.current_fg
    &&& b1.current_bg == b0.current_bg
    &&& b1.current_attrs == b0.current_attrs
}

/// `b1` is `b0`, with grid cells `g`, after the cursor advanced one column
/// (see [`TerminalBuffer::advance_cursor`]).
pub open spec fn advanced(b0: TerminalBuffer, g: Seq<Seq<Cell>>, b1: TerminalBuffer) -> bool {
    let col = b0.cursor.col + 1;
    let wraps = col >= b0.grid.spec_cols();
    let row = b0.cursor.row + 1;
    &&& b1.cursor.visible == b0.cursor.visible
    &&& b1.cursor.shape == b0.cursor.shape
    &&& !wraps ==> b1.cursor.col == col && b1.cursor.row == b0.cursor.row
        && b1.grid.spec_cells() == g && b1.scrollback == b0.scrollback
    &&& wraps && row < b0.grid.spec_rows() ==> b1.cursor.col == 0 && b1.cursor.row == row
        && b1.grid.spec_cells() == g && b1.scrollback == b0.scrollback
    &&& wraps && row >= b0.grid.spec_rows() ==> b1.cursor.col == 0 && b1.cursor.row == b0.grid.spec_rows() - 1
        && scrolled_up(b0, g, b1)
    &&& b1.grid.spec_rows() == b0.grid.spec_rows()
    &&& b1.grid.spec_cols() == b0.grid.spec_cols()
    &&& b1.current_fg == b0.current_fg
    &&& b1.current_bg == b0.current_bg
    &&& b1.current_attrs == b0.current_attrs
}

} // verus!
