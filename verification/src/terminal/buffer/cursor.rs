//! The terminal cursor: position, visibility and shape.

use vstd::prelude::*;

verus! {

/// Cursor shapes.
#[derive(Debug, Clone, Copy, PartialEq, Eq, Structural)]
pub enum CursorShape {
    /// A block
    Block,
    /// An underline
    Underline,
    /// A vertical bar
    Bar,
}

impl Default for CursorShape {
    fn default() -> (s: Self)
        ensures
            s == CursorShape::Block,
    {
        CursorShape::Block
    }
}

/// The cursor of a terminal.
#[derive(Debug, Clone, Copy, PartialEq, Eq, Structural)]
pub struct Cursor {
    /// Column (0-indexed)
    pub col: usize,
    /// Row (0-indexed)
    pub row: usize,
    /// Whether the cursor is shown
    pub visible: bool,
    /// Its shape
    pub shape: CursorShape,
}

/// The cursor at the origin, shown, as a block.
pub open spec fn home_cursor() -> Cursor {
    Cursor { col: 0, row: 0, visible: true, shape: CursorShape::Block }
}

/// `a - b`, but 0 when `b > a`.
pub open spec fn sat_sub(a: usize, b: usize) -> usize {
    if a >= b { (a - b) as usize } else { 0 }
}

/// `a + b`, but `usize::MAX` when it does not fit.
pub open spec fn sat_add(a: usize, b: usize) -> usize {
    if a + b <= usize::MAX { (a + b) as usize } else { usize::MAX }
}

impl Default for Cursor {
    fn default() -> (c: Self)
        ensures
            c == home_cursor(),
    {
        Self { col: 0, row: 0, visible: true, shape: CursorShape::default() }
    }
}

impl Cursor {
    /// The cursor at the origin.
    pub fn new() -> (c: Self)
        ensures
            c == home_cursor(),
    {
        Self::default()
    }

    /// A shown block cursor at a position.
    pub fn at(row: usize, col: usize) -> (c: Self)
        ensures
            c == (Cursor { row, col, ..home_cursor() }),
    {
        Self { row, col, visible: true, shape: CursorShape::default() }
    }

    /// Moves to a position.
    pub fn goto(&mut self, row: usize, col: usize)
        ensures
            *final(self) == (Cursor { row, col, ..*old(self) }),
    {
        self.row = row;
        self.col = col;
    }

    /// Moves to a column.
    pub fn goto_col(&mut self, col: usize)
        ensures
            *final(self) == (Cursor { col, ..*old(self) }),
    {
        self.col = col;
    }

    /// Moves to a row.
    pub fn goto_row(&mut self, row: usize)
        ensures
            *final(self) == (Cursor { row, ..*old(self) }),
    {
        self.row = row;
    }

    /// Moves up, stopping at row 0.
    pub fn move_up(&mut self, n: usize)
        ensures
            *final(self) == (Cursor { row: sat_sub(old(self).row, n), ..*old(self) }),
    {
        self.row = self.row.saturating_sub(n);
    }

    /// Moves down (saturating).
    pub fn move_down(&mut self, n: usize)
        ensures
            *final(self) == (Cursor { row: sat_add(old(self).row, n), ..*old(self) }),
    {
        self.row = self.row.saturating_add(n);
    }

    /// Moves left, stopping at column 0.
    pub fn move_left(&mut self, n: usize)
        ensures
            *final(self) == (Cursor { col: sat_sub(old(self).col, n), ..*old(self) }),
    {
        self.col = self.col.saturating_sub(n);
    }

    /// Moves right (saturating).
    pub fn move_right(&mut self, n: usize)
        ensures
            *final(self) == (Cursor { col: sat_add(old(self).col, n), ..*old(self) }),
    {
        self.col = self.col.saturating_add(n);
    }

    /// Moves right, stopping at `max_col`.
    pub fn forward(&mut self, n: usize, max_col: usize)
        requires
            old(self).col + n <= usize::MAX,
        ensures
            *final(self) == (Cursor {
                col: if old(self).col + n < max_col { (old(self).col + n) as usize } else { max_col },
                ..*old(self)
            }),
    {
        let c = self.col + n;
        self.col = if c < max_col { c } else { max_col };
    }

    /// Moves left, stopping at column 0.
    pub fn backward(&mut self, n: usize)
        ensures
            *final(self) == (Cursor { col: sat_sub(old(self).col, n), ..*old(self) }),
    {
        self.col = self.col.saturating_sub(n);
    }

    /// Moves to a position.
    pub fn move_to(&mut self, row: usize, col: usize)
        ensures
            *final(self) == (Cursor { row, col, ..*old(self) }),
    {
        self.goto(row, col);
    }

    /// Moves up, stopping at row 0.
    pub fn up(&mut self, n: usize)
        ensures
            *final(self) == (Cursor { row: sat_sub(old(self).row, n), ..*old(self) }),
    {
        self.move_up(n);
    }

    /// Moves down (saturating).
    pub fn down(&mut self, n: usize)
        ensures
            *final(self) == (Cursor { row: sat_add(old(self).row, n), ..*old(self) }),
    {
        self.move_down(n);
    }

    /// Moves to column 0.
    pub fn carriage_return(&mut self)
        ensures
            *final(self) == (Cursor { col: 0, ..*old(self) }),
    {
        self.col = 0;
    }

    /// Moves to column 0 of the next row (saturating).
    pub fn newline(&mut self)
        ensures
            *final(self) == (Cursor { row: sat_add(old(self).row, 1), col: 0, ..*old(self) }),
    {
        self.row = self.row.saturating_add(1);
        self.col = 0;
    }

    /// Moves to column 0.
    pub fn line_start(&mut self)
        ensures
            *final(self) == (Cursor { col: 0, ..*old(self) }),
    {
        self.col = 0;
    }

    /// Keeps the cursor within `rows` rows and `cols` columns (a zero
    /// bound leaves its coordinate alone).
    pub fn clamp(&mut self, rows: usize, cols: usize)
        ensures
            *final(self) == (Cursor {
                row: if rows > 0 && old(self).row > rows - 1 { (rows - 1) as usize } else { old(self).row },
                col: if cols > 0 && old(self).col > cols - 1 { (cols - 1) as usize } else { old(self).col },
                ..*old(self)
            }),
    {
        if rows > 0 && self.row > rows - 1 {
            self.row = rows - 1;
        }
        if cols > 0 && self.col > cols - 1 {
            self.col = cols - 1;
        }
    }

    /// Shows the cursor.
    pub fn show(&mut self)
        ensures
            *final(self) == (Cursor { visible: true, ..*old(self) }),
    {
        self.visible = true;
    }

    /// Hides the cursor.
    pub fn hide_cursor(&mut self)
        ensures
            *final(self) == (Cursor { visible: false, ..*old(self) }),
    {
        self.visible = false;
    }

    /// Sets the shape.
    pub fn set_shape(&mut self, shape: CursorShape)
        ensures
            *final(self) == (Cursor { shape, ..*old(self) }),
    {
        self.shape = shape;
    }

    /// Back to the origin, shown, as a block.
    pub fn reset(&mut self)
        ensures
            *final(self) == home_cursor(),
    {
        *self = Self::default();
    }
}

} // verus!
