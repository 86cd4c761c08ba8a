//! The terminal view's grid of styled cells, its cursor and its selection.

use vstd::prelude::*;
use crate::terminal::parser::sequences::Rgb;
use crate::text::chars_to_string;
use crate::commands::{Key, Modifiers};
use crate::ui::{TerminalCursor, TerminalCursorStyle};

verus! {

/// A cell of the terminal view: a character and its style.
#[derive(Debug, Clone, Copy, PartialEq, Eq, Structural)]
pub struct TerminalCell {
    /// The character
    pub ch: char,
    /// Foreground color
    pub fg: Rgb,
    /// Background color
    pub bg: Rgb,
    /// Bold
    pub bold: bool,
    /// Italic
    pub italic: bool,
    /// Underlined
    pub underline: bool,
    /// Reverse video
    pub reverse: bool,
}

/// A cell holding `ch` in the default style: light gray on dark gray, no
/// attributes.
pub open spec fn styled(ch: char) -> TerminalCell {
    TerminalCell {
        ch,
        fg: Rgb { r: 220, g: 220, b: 220 },
        bg: Rgb { r: 30, g: 30, b: 30 },
        bold: false,
        italic: false,
        underline: false,
        reverse: false,
    }
}

impl TerminalCell {
    /// A cell holding `ch` in the default style.
    pub fn new(ch: char) -> (c: Self)
        ensures
            c == styled(ch),
    {
        Self {
            ch,
            fg: Rgb { r: 220, g: 220, b: 220 },
            bg: Rgb { r: 30, g: 30, b: 30 },
            bold: false,
            italic: false,
            underline: false,
            reverse: false,
        }
    }

    /// An empty cell: a space in the default style.
    pub fn default() -> (c: Self)
        ensures
            c == styled(' '),
    {
        Self::new(' ')
    }
}

/// The terminal view's grid: its size, rows of cells, cursor, selection
/// (first row, first column, last row, last column, in either order) and
/// scroll offset.
#[derive(Debug, Clone)]
pub struct TerminalGrid {
    /// The number of columns
    pub cols: usize,
    /// The number of rows
    pub rows: usize,
    /// The cells, row by row
    pub cells: Vec<Vec<TerminalCell>>,
    /// The cursor
    pub cursor: TerminalCursor,
    /// The selection: (row, column) of one end, then of the other
    pub selection: Option<(usize, usize, usize, usize)>,
    /// How far the view is scrolled up (0: at the bottom)
    pub scroll_offset: usize,
}

/// The rows of cells of a grid.
pub open spec fn grid_cells(g: &TerminalGrid) -> Seq<Seq<TerminalCell>> {
    g.cells@.map_values(|r: Vec<TerminalCell>| r@)
}

/// `rows` rows of `cols` empty cells.
pub open spec fn empty_cells(cols: nat, rows: nat) -> Seq<Seq<TerminalCell>> {
    Seq::new(rows, |r: int| Seq::new(cols, |c: int| styled(' ')))
}

/// The cells resized to `rows` rows of `cols` cells: cells within both
/// the old and the new size are kept, the others are empty.
pub open spec fn resized_cells(cells: Seq<Seq<TerminalCell>>, cols: nat, rows: nat) -> Seq<Seq<TerminalCell>> {
    Seq::new(rows, |r: int| Seq::new(cols, |c: int| if r < cells.len() && c < cells[r].len() { cells[r][c] } else { styled(' ') }))
}

/// A selection's ends, the earlier first (by row, then column).
pub open spec fn ordered_span(s: (usize, usize, usize, usize)) -> (usize, usize, usize, usize) {
    let (r1, c1, r2, c2) = s;
    if r1 < r2 || (r1 == r2 && c1 <= c2) {
        (r1, c1, r2, c2)
    } else {
        (r2, c2, r1, c1)
    }
}

/// Whether a selection covers a cell: rows strictly between its ends
/// entirely; its first row from its first column on; its last row before
/// its last column; a selection on one row, from its first column up to
/// (not including) its last.
pub open spec fn span_covers(s: (usize, usize, usize, usize), row: usize, col: usize) -> bool {
    let (sr, sc, er, ec) = ordered_span(s);
    if row > sr && row < er {
        true
    } else if row == sr && row == er {
        col >= sc && col < ec
    } else if row == sr {
        col >= sc
    } else if row == er {
        col < ec
    } else {
        false
    }
}

/// The characters of the cells of `line` from column `a` up to (not
/// including) column `b`, within the line.
pub open spec fn line_span(line: Seq<TerminalCell>, a: int, b: int) -> Seq<char> {
    let e = if b < line.len() { b } else { line.len() as int };
    if a < e {
        line.subrange(a, e).map_values(|c: TerminalCell| c.ch)
    } else {
        Seq::empty()
    }
}

/// The selected text of rows `sr` up to (not including) `upto`: on each
/// row that exists, its cells from the first column (`sc` on the first
/// row) up to the last (`ec`, not included, on row `er`), then a line
/// break on every row before `er`.
pub open spec fn span_rows_text(cells: Seq<Seq<TerminalCell>>, sr: int, sc: int, er: int, ec: int, upto: int) -> Seq<char>
    decreases upto - sr,
{
    if upto <= sr {
        Seq::empty()
    } else {
        let r = upto - 1;
        let prev = span_rows_text(cells, sr, sc, er, ec, r);
        if r < cells.len() {
            let from = if r == sr { sc } else { 0 };
            let to = if r == er { ec } else { cells[r].len() as int };
            prev + line_span(cells[r], from, to) + (if r < er { seq!['\n'] } else { Seq::empty() })
        } else {
            prev
        }
    }
}

/// The text a selection covers (see [`span_rows_text`]).
pub open spec fn span_text(cells: Seq<Seq<TerminalCell>>, s: (usize, usize, usize, usize)) -> Seq<char> {
    let (sr, sc, er, ec) = ordered_span(s);
    span_rows_text(cells, sr as int, sc as int, er as int, ec as int, er + 1)
}

fn empty_row(cols: usize) -> (v: Vec<TerminalCell>)
    ensures
        v@ == Seq::new(cols as nat, |c: int| styled(' ')),
{
    let mut v: Vec<TerminalCell> = Vec::new();
    let mut i: usize = 0;
    while i < cols
        invariant
            i <= cols,
            v@ == Seq::new(i as nat, |c: int| styled(' ')),
        decreases cols - i,
    {
        v.push(TerminalCell::default());
        proof {
            assert(v@ =~= Seq::new((i + 1) as nat, |c: int| styled(' ')));
        }
        i = i + 1;
    }
    v
}

impl TerminalGrid {
    /// A grid of `rows` rows of `cols` empty cells, the cursor at the
    /// origin, no selection, at the bottom.
    pub fn new(cols: usize, rows: usize) -> (g: Self)
        ensures
            g.cols == cols,
            g.rows == rows,
            grid_cells(&g) == empty_cells(cols as nat, rows as nat),
            g.cursor == (TerminalCursor { row: 0, col: 0, visible: true, style: TerminalCursorStyle::Block }),
            g.selection is None,
            g.scroll_offset == 0,
    {
        let mut cells: Vec<Vec<TerminalCell>> = Vec::new();
        let mut i: usize = 0;
        while i < rows
            invariant
                i <= rows,
                cells@.len() == i,
                cells@.map_values(|r: Vec<TerminalCell>| r@) == empty_cells(cols as nat, i as nat),
            decreases rows - i,
        {
            let ghost prev = cells@;
            let row = empty_row(cols);
            cells.push(row);
            proof {
                let want = empty_cells(cols as nat, (i + 1) as nat);
                let got = cells@.map_values(|r: Vec<TerminalCell>| r@);
                assert forall|j: int| 0 <= j < i + 1 implies got[j] == want[j] by {
                    if j < i {
                        assert(got[j] == prev[j]@);
                        assert(prev.map_values(|r: Vec<TerminalCell>| r@)[j] == prev[j]@);
                        assert(empty_cells(cols as nat, i as nat)[j] == want[j]);
                    } else {
                        assert(got[j] == row@);
                        assert(row@ =~= want[j]);
                    }
                }
                assert(got =~= want);
            }
            i = i + 1;
        }
        Self { cols, rows, cells, cursor: TerminalCursor::new(), selection: None, scroll_offset: 0 }
    }

    /// The cell at a position, if it lies in the grid's cells.
    pub fn get(&self, row: usize, col: usize) -> (r: Option<&TerminalCell>)
        ensures
            (row < grid_cells(self).len() && col < grid_cells(self)[row as int].len()) ==> r == Some(
                &grid_cells(self)[row as int][col as int],
            ),
            !(row < grid_cells(self).len() && col < grid_cells(self)[row as int].len()) ==> r is None,
    {
        if row < self.cells.len() && col < self.cells[row].len() {
            Some(&self.cells[row][col])
        } else {
            None
        }
    }

    /// The cell at a position, to change, if it lies in the grid's cells.
    pub fn get_mut(&mut self, row: usize, col: usize) -> (r: Option<&mut TerminalCell>)
        ensures
            (row < grid_cells(old(self)).len() && col < grid_cells(old(self))[row as int].len()) ==> (r matches Some(c)
                && *c == grid_cells(old(self))[row as int][col as int] && grid_cells(final(self)) == grid_cells(
                old(self),
            ).update(row as int, grid_cells(old(self))[row as int].update(col as int, *final(c)))),
            !(row < grid_cells(old(self)).len() && col < grid_cells(old(self))[row as int].len()) ==> r is None
                && grid_cells(final(self)) == grid_cells(old(self)),
            final(self).cols == old(self).cols,
            final(self).rows == old(self).rows,
            final(self).cursor == old(self).cursor,
            final(self).selection == old(self).selection,
            final(self).scroll_offset == old(self).scroll_offset,
    {
        if row < self.cells.len() && col < self.cells[row].len() {
            Some(&mut self.cells[row][col])
        } else {
            None
        }
    }

    /// Puts a cell at a position, if it lies in the grid's cells.
    pub fn set(&mut self, row: usize, col: usize, cell: TerminalCell)
        ensures
            (row < grid_cells(old(self)).len() && col < grid_cells(old(self))[row as int].len()) ==> grid_cells(final(self))
                == grid_cells(old(self)).update(row as int, grid_cells(old(self))[row as int].update(col as int, cell)),
            !(row < grid_cells(old(self)).len() && col < grid_cells(old(self))[row as int].len()) ==> grid_cells(final(self))
                == grid_cells(old(self)),
            final(self).cols == old(self).cols,
            final(self).rows == old(self).rows,
            final(self).cursor == old(self).cursor,
            final(self).selection == old(self).selection,
            final(self).scroll_offset == old(self).scroll_offset,
    {
        if row < self.cells.len() && col < self.cells[row].len() {
            let mut r = self.cells.remove(row);
            r.set(col, cell);
            self.cells.insert(row, r);
            proof {
                assert(grid_cells(self) =~= grid_cells(old(self)).update(row as int, grid_cells(old(self))[row as int].update(col as int, cell)));
            }
        }
    }

    /// Resizes to `rows` rows of `cols` cells: cells within both sizes are
    /// kept, new ones are empty.
    pub fn resize(&mut self, cols: usize, rows: usize)
        ensures
            final(self).cols == cols,
            final(self).rows == rows,
            grid_cells(final(self)) == resized_cells(grid_cells(old(self)), cols as nat, rows as nat),
            final(self).cursor == old(self).cursor,
            final(self).selection == old(self).selection,
            final(self).scroll_offset == old(self).scroll_offset,
    {
        let ghost before = grid_cells(self);
        let mut cells: Vec<Vec<TerminalCell>> = Vec::new();
        let mut r: usize = 0;
        while r < rows
            invariant
                r <= rows,
                before == grid_cells(self),
                cells@.len() == r,
                cells@.map_values(|x: Vec<TerminalCell>| x@) == resized_cells(before, cols as nat, r as nat),
            decreases rows - r,
        {
            let mut row: Vec<TerminalCell> = Vec::new();
            let mut c: usize = 0;
            while c < cols
                invariant
                    c <= cols,
                    r < rows,
                    before == grid_cells(self),
                    row@ == resized_cells(before, cols as nat, rows as nat)[r as int].take(c as int),
                decreases cols - c,
            {
                let cell = if r < self.cells.len() && c < self.cells[r].len() {
                    self.cells[r][c]
                } else {
                    TerminalCell::default()
                };
                row.push(cell);
                proof {
                    assert(row@ =~= resized_cells(before, cols as nat, rows as nat)[r as int].take(c + 1));
                }
                c = c + 1;
            }
            proof {
                assert(row@ =~= resized_cells(before, cols as nat, (r + 1) as nat)[r as int]);
            }
            let ghost prev = cells@;
            let ghost rv = row@;
            cells.push(row);
            proof {
                let want = resized_cells(before, cols as nat, (r + 1) as nat);
                let got = cells@.map_values(|x: Vec<TerminalCell>| x@);
                assert forall|j: int| 0 <= j < r + 1 implies got[j] == want[j] by {
                    if j < r {
                        assert(got[j] == prev[j]@);
                        assert(prev.map_values(|x: Vec<TerminalCell>| x@)[j] == prev[j]@);
                        assert(resized_cells(before, cols as nat, r as nat)[j] =~= want[j]);
                    } else {
                        assert(got[j] == rv);
                    }
                }
                assert(got =~= want);
            }
            r = r + 1;
        }
        self.cols = cols;
        self.rows = rows;
        self.cells = cells;
    }

    /// Whether the selection covers a cell (see [`span_covers`]).
    pub fn is_selected(&self, row: usize, col: usize) -> (b: bool)
        ensures
            b == (self.selection matches Some(s) && span_covers(s, row, col)),
    {
        if let Some((r1, c1, r2, c2)) = self.selection {
            let (start_row, start_col, end_row, end_col) = if r1 < r2 || (r1 == r2 && c1 <= c2) {
                (r1, c1, r2, c2)
            } else {
                (r2, c2, r1, c1)
            };
            if row > start_row && row < end_row {
                return true;
            }
            if row == start_row && row == end_row {
                return col >= start_col && col < end_col;
            }
            if row == start_row {
                return col >= start_col;
            }
            if row == end_row {
                return col < end_col;
            }
            false
        } else {
            false
        }
    }
}

/// One more row of the selected text.
proof fn lemma_span_rows_step(cells: Seq<Seq<TerminalCell>>, sr: int, sc: int, er: int, ec: int, r: int)
    requires
        sr <= r < cells.len(),
    ensures
        span_rows_text(cells, sr, sc, er, ec, r + 1) == span_rows_text(cells, sr, sc, er, ec, r) + line_span(
            cells[r],
            if r == sr { sc } else { 0 },
            if r == er { ec } else { cells[r].len() as int },
        ) + (if r < er { seq!['\n'] } else { Seq::<char>::empty() }),
{
}

/// Rows that do not exist add nothing to the selected text.
proof fn lemma_span_rows_beyond(cells: Seq<Seq<TerminalCell>>, sr: int, sc: int, er: int, ec: int, a: int, b: int)
    requires
        cells.len() <= a <= b,
        sr <= a,
    ensures
        span_rows_text(cells, sr, sc, er, ec, b) == span_rows_text(cells, sr, sc, er, ec, a),
    decreases b - a,
{
    if a < b {
        lemma_span_rows_beyond(cells, sr, sc, er, ec, a, b - 1);
    }
}

/// The text of a grid's selection (see [`span_text`]), or `None` without
/// a selection.
pub fn get_selected_text(grid: &TerminalGrid) -> (r: Option<String>)
    ensures
        grid.selection is None ==> r is None,
        grid.selection matches Some(s) ==> (r matches Some(t) && t@ == span_text(grid_cells(grid), s)),
{
    if let Some((r1, c1, r2, c2)) = grid.selection {
        let (start_row, start_col, end_row, end_col) = if r1 < r2 || (r1 == r2 && c1 <= c2) {
            (r1, c1, r2, c2)
        } else {
            (r2, c2, r1, c1)
        };
        let ghost cells = grid_cells(grid);
        let ghost sr = start_row as int;
        let ghost sc = start_col as int;
        let ghost er = end_row as int;
        let ghost ec = end_col as int;
        let n = grid.cells.len();
        let mut text: Vec<char> = Vec::new();
        let mut row = start_row;
        while row < n && row <= end_row
            invariant
                start_row <= row,
                start_row <= end_row + 1,
                row <= end_row + 1,
                n == grid.cells@.len(),
                cells == grid_cells(grid),
                sr == start_row && sc == start_col && er == end_row && ec == end_col,
                text@ == span_rows_text(cells, sr, sc, er, ec, row as int),
            decreases n - row,
        {
            let line = &grid.cells[row];
            let from = if row == start_row { start_col } else { 0 };
            let to = if row == end_row { end_col } else { line.len() };
            let ghost base = text@;
            let mut c = from;
            while c < to && c < line.len()
                invariant
                    from <= c,
                    c <= line@.len() || c == from,
                    c <= to || c == from,
                    text@ == base + (if from < c { line@.subrange(from as int, c as int).map_values(|x: TerminalCell| x.ch) } else { Seq::empty() }),
                    start_row <= row,
                    row < n,
                    row <= end_row,
                    n == grid.cells@.len(),
                    cells == grid_cells(grid),
                    base == span_rows_text(cells, sr, sc, er, ec, row as int),
                    sr == start_row && sc == start_col && er == end_row && ec == end_col,
                decreases line@.len() - c,
            {
                text.push(line[c].ch);
                proof {
                    assert(line@.subrange(from as int, c + 1).map_values(|x: TerminalCell| x.ch) =~= (if from < c {
                        line@.subrange(from as int, c as int).map_values(|x: TerminalCell| x.ch)
                    } else {
                        Seq::empty()
                    }).push(line@[c as int].ch));
                }
                c = c + 1;
            }
            proof {
                assert(line@ == cells[row as int]);
                assert(text@ == base + line_span(line@, from as int, to as int));
                assert(cells.len() == n);
                lemma_span_rows_step(cells, sr, sc, er, ec, row as int);
            }
            let ghost mid = text@;
            if row < end_row {
                text.push('\n');
            }
            proof {
                if row < end_row {
                    assert(text@ =~= mid + seq!['\n']);
                } else {
                    assert(mid + Seq::<char>::empty() =~= mid);
                }
            }
            row = row + 1;
        }
        proof {
            if row > end_row {
                assert(row == end_row + 1);
            } else {
                lemma_span_rows_beyond(cells, sr, sc, er, ec, row as int, er + 1);
            }
        }
        Some(chars_to_string(text.as_slice()))
    } else {
        None
    }
}

/// The bytes a character key sends to a terminal: with Ctrl, a letter
/// sends its control code (Ctrl+A is 1, up to Ctrl+Z as 26) and any other
/// character sends nothing; without Ctrl, the character's UTF-8 encoding.
pub open spec fn char_key_bytes(c: char, ctrl: bool) -> Option<Seq<u8>> {
    if ctrl {
        if 'a' <= c <= 'z' {
            Some(seq![((c as u32) - 96) as u8])
        } else if 'A' <= c <= 'Z' {
            Some(seq![((c as u32) - 64) as u8])
        } else {
            None
        }
    } else {
        Some(vstd::utf8::encode_utf8(seq![c]))
    }
}

/// The bytes a key sends to a terminal: characters (space among them) as
/// in [`char_key_bytes`]; Enter CR, Tab HT, Backspace DEL, Escape ESC; the
/// arrows, Home and End as `ESC [` and a letter; Page Up, Page Down,
/// Delete and Insert as `ESC [`, a digit and `~`; any other key nothing.
pub open spec fn terminal_key_bytes(key: Key, modifiers: Modifiers) -> Option<Seq<u8>> {
    match key {
        Key::Char(c) => char_key_bytes(c, modifiers.ctrl),
        Key::Space => char_key_bytes(' ', modifiers.ctrl),
        Key::Enter => Some(seq![13u8]),
        Key::Tab => Some(seq![9u8]),
        Key::Backspace => Some(seq![127u8]),
        Key::Escape => Some(seq![27u8]),
        Key::Up => Some(seq![27u8, 91u8, 65u8]),
        Key::Down => Some(seq![27u8, 91u8, 66u8]),
        Key::Right => Some(seq![27u8, 91u8, 67u8]),
        Key::Left => Some(seq![27u8, 91u8, 68u8]),
        Key::Home => Some(seq![27u8, 91u8, 72u8]),
        Key::End => Some(seq![27u8, 91u8, 70u8]),
        Key::PageUp => Some(seq![27u8, 91u8, 53u8, 126u8]),
        Key::PageDown => Some(seq![27u8, 91u8, 54u8, 126u8]),
        Key::Delete => Some(seq![27u8, 91u8, 51u8, 126u8]),
        Key::Insert => Some(seq![27u8, 91u8, 50u8, 126u8]),
        _ => None,
    }
}

fn char_bytes(c: char, ctrl: bool) -> (r: Option<Vec<u8>>)
    ensures
        r matches Some(v) ==> char_key_bytes(c, ctrl) == Some(v@),
        r is None ==> char_key_bytes(c, ctrl) is None,
{
    if ctrl {
        if 'a' <= c && c <= 'z' {
            Some(vec![((c as u32) - 96) as u8])
        } else if 'A' <= c && c <= 'Z' {
            Some(vec![((c as u32) - 64) as u8])
        } else {
            None
        }
    } else {
        let mut s = String::new();
        crate::text::string_push(&mut s, c);
        let b = s.as_str().as_bytes();
        let mut v: Vec<u8> = Vec::new();
        let mut i: usize = 0;
        while i < b.len()
            invariant
                i <= b@.len(),
                v@ == b@.take(i as int),
            decreases b@.len() - i,
        {
            v.push(b[i]);
            proof {
                assert(b@.take(i + 1) =~= b@.take(i as int).push(b@[i as int]));
            }
            i = i + 1;
        }
        proof {
            assert(b@.take(i as int) =~= b@);
            assert(s@ =~= seq![c]);
        }
        Some(v)
    }
}

/// The bytes a key with its modifiers sends to a terminal (see
/// [`terminal_key_bytes`]), or `None` for a key that sends nothing.
pub fn key_to_terminal_bytes(key: Key, modifiers: Modifiers) -> (r: Option<Vec<u8>>)
    ensures
        r matches Some(v) ==> terminal_key_bytes(key, modifiers) == Some(v@),
        r is None ==> terminal_key_bytes(key, modifiers) is None,
{
    match key {
        Key::Char(c) => char_bytes(c, modifiers.ctrl),
        Key::Space => char_bytes(' ', modifiers.ctrl),
        Key::Enter => Some(vec![13u8]),
        Key::Tab => Some(vec![9u8]),
        Key::Backspace => Some(vec![127u8]),
        Key::Escape => Some(vec![27u8]),
        Key::Up => Some(vec![27u8, 91u8, 65u8]),
        Key::Down => Some(vec![27u8, 91u8, 66u8]),
        Key::Right => Some(vec![27u8, 91u8, 67u8]),
        Key::Left => Some(vec![27u8, 91u8, 68u8]),
        Key::Home => Some(vec![27u8, 91u8, 72u8]),
        Key::End => Some(vec![27u8, 91u8, 70u8]),
        Key::PageUp => Some(vec![27u8, 91u8, 53u8, 126u8]),
        Key::PageDown => Some(vec![27u8, 91u8, 54u8, 126u8]),
        Key::Delete => Some(vec![27u8, 91u8, 51u8, 126u8]),
        Key::Insert => Some(vec![27u8, 91u8, 50u8, 126u8]),
        _ => None,
    }
}

/// Each arrow key sends the ANSI cursor sequence of its own direction,
/// whatever modifiers are held: ESC `[` then `A` (up), `B` (down), `C`
/// (right) or `D` (left); so the four sequences are distinct.
pub proof fn lemma_arrow_key_sequences(modifiers: Modifiers)
    ensures
        terminal_key_bytes(Key::Up, modifiers) == Some(seq![0x1Bu8, 0x5Bu8, 0x41u8]),
        terminal_key_bytes(Key::Down, modifiers) == Some(seq![0x1Bu8, 0x5Bu8, 0x42u8]),
        terminal_key_bytes(Key::Right, modifiers) == Some(seq![0x1Bu8, 0x5Bu8, 0x43u8]),
        terminal_key_bytes(Key::Left, modifiers) == Some(seq![0x1Bu8, 0x5Bu8, 0x44u8]),
{
}

/// The other named keys, whatever modifiers are held: Enter sends CR,
/// Tab HT, Backspace DEL and Escape ESC; Home and End send `ESC [ H` and
/// `ESC [ F`; Insert, Delete, Page Up and Page Down send `ESC [`, the
/// digit 2, 3, 5 or 6, and `~`.
pub proof fn lemma_named_key_sequences(modifiers: Modifiers)
    ensures
        terminal_key_bytes(Key::Enter, modifiers) == Some(seq![0x0Du8]),
        terminal_key_bytes(Key::Tab, modifiers) == Some(seq![0x09u8]),
        terminal_key_bytes(Key::Backspace, modifiers) == Some(seq![0x7Fu8]),
        terminal_key_bytes(Key::Escape, modifiers) == Some(seq![0x1Bu8]),
        terminal_key_bytes(Key::Home, modifiers) == Some(seq![0x1Bu8, 0x5Bu8, 0x48u8]),
        terminal_key_bytes(Key::End, modifiers) == Some(seq![0x1Bu8, 0x5Bu8, 0x46u8]),
        terminal_key_bytes(Key::Insert, modifiers) == Some(seq![0x1Bu8, 0x5Bu8, 0x32u8, 0x7Eu8]),
        terminal_key_bytes(Key::Delete, modifiers) == Some(seq![0x1Bu8, 0x5Bu8, 0x33u8, 0x7Eu8]),
        terminal_key_bytes(Key::PageUp, modifiers) == Some(seq![0x1Bu8, 0x5Bu8, 0x35u8, 0x7Eu8]),
        terminal_key_bytes(Key::PageDown, modifiers) == Some(seq![0x1Bu8, 0x5Bu8, 0x36u8, 0x7Eu8]),
{
}

/// With Ctrl held, a letter sends its position in the alphabet as one
/// byte (Ctrl+A is 1, Ctrl+Z is 26), the same for either case; any other
/// character sends nothing.
pub proof fn lemma_ctrl_letter_codes(c: char, modifiers: Modifiers)
    requires
        modifiers.ctrl,
    ensures
        'a' <= c <= 'z' ==> terminal_key_bytes(Key::Char(c), modifiers) == Some(seq![((c as u32) - ('a' as u32) + 1) as u8]),
        'A' <= c <= 'Z' ==> terminal_key_bytes(Key::Char(c), modifiers) == Some(seq![((c as u32) - ('A' as u32) + 1) as u8]),
        !('a' <= c <= 'z') && !('A' <= c <= 'Z') ==> terminal_key_bytes(Key::Char(c), modifiers) is None,
{
}

} // verus!
