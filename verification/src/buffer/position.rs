//! Positions and ranges in a text buffer. All positions are 0-indexed.

use vstd::prelude::*;

verus! {

/// A position in a text buffer: a line and a character column within it.
#[derive(Debug, Clone, Copy, PartialEq, Eq, Structural, Hash, PartialOrd, Ord)]
pub struct Position {
    /// Line number (0-indexed)
    pub line: usize,
    /// Character offset within the line (0-indexed, in characters)
    pub column: usize,
}

/// `a` comes strictly before `b` (line first, then column).
pub open spec fn pos_lt(a: Position, b: Position) -> bool {
    a.line < b.line || (a.line == b.line && a.column < b.column)
}

/// `a` comes before `b` or equals it.
pub open spec fn pos_le(a: Position, b: Position) -> bool {
    a.line < b.line || (a.line == b.line && a.column <= b.column)
}

/// The earlier of two positions.
pub open spec fn pos_min(a: Position, b: Position) -> Position {
    if pos_le(a, b) { a } else { b }
}

/// The later of two positions.
pub open spec fn pos_max(a: Position, b: Position) -> Position {
    if pos_le(a, b) { b } else { a }
}

/// `base` moved by a signed amount, saturating at 0 and at `usize::MAX`.
pub open spec fn saturating_offset(base: usize, offset: isize) -> usize {
    if offset >= 0 {
        if base + offset > usize::MAX { usize::MAX } else { (base + offset) as usize }
    } else {
        if base + offset < 0 { 0 } else { (base + offset) as usize }
    }
}

fn offset_usize(base: usize, offset: isize) -> (r: usize)
    requires
        offset > isize::MIN,
    ensures
        r == saturating_offset(base, offset),
{
    if offset >= 0 {
        base.saturating_add(offset as usize)
    } else {
        base.saturating_sub((-offset) as usize)
    }
}

impl Position {
    /// Create a new position.
    pub fn new(line: usize, column: usize) -> (p: Self)
        ensures
            p.line == line,
            p.column == column,
    {
        Self { line, column }
    }

    /// The origin (0, 0).
    pub fn zero() -> (p: Self)
        ensures
            p.line == 0,
            p.column == 0,
    {
        Self::new(0, 0)
    }

    /// The start of the given line.
    pub fn line_start(line: usize) -> (p: Self)
        ensures
            p.line == line,
            p.column == 0,
    {
        Self::new(line, 0)
    }

    /// This position moved to the start of its line.
    pub fn to_line_start(self) -> (p: Self)
        ensures
            p.line == self.line,
            p.column == 0,
    {
        Self::new(self.line, 0)
    }

    /// Whether this position is at the start of a line.
    pub fn is_line_start(self) -> (b: bool)
        ensures
            b == (self.column == 0),
    {
        self.column == 0
    }

    /// The column moved by `offset`, saturating at the bounds of `usize`.
    pub fn offset_column(self, offset: isize) -> (p: Self)
        requires
            offset > isize::MIN,
        ensures
            p.line == self.line,
            p.column == saturating_offset(self.column, offset),
    {
        Self::new(self.line, offset_usize(self.column, offset))
    }

    /// The line moved by `offset`, saturating at the bounds of `usize`.
    pub fn offset_line(self, offset: isize) -> (p: Self)
        requires
            offset > isize::MIN,
        ensures
            p.line == saturating_offset(self.line, offset),
            p.column == self.column,
    {
        Self::new(offset_usize(self.line, offset), self.column)
    }

    /// Whether `self` comes strictly before `other`.
    pub fn precedes(&self, other: &Position) -> (b: bool)
        ensures
            b == pos_lt(*self, *other),
    {
        self.line < other.line || (self.line == other.line && self.column < other.column)
    }

    /// Whether `self` comes before `other` or equals it.
    pub fn precedes_or_eq(&self, other: &Position) -> (b: bool)
        ensures
            b == pos_le(*self, *other),
    {
        self.line < other.line || (self.line == other.line && self.column <= other.column)
    }

    /// The position rendered as `line:column`.
    pub fn to_display_string(&self) -> (s: String)
        ensures
            s@ == crate::text::usize_decimal(self.line as nat) + seq![':'] + crate::text::usize_decimal(
                self.column as nat,
            ),
    {
        let mut s = crate::text::usize_to_string(self.line);
        crate::text::string_push(&mut s, ':');
        let c = crate::text::usize_to_string(self.column);
        s.append(c.as_str());
        s
    }
}

/// A region of text from `start` (inclusive) to `end` (exclusive), with
/// `start <= end` when made by [`Range::new`].
#[derive(Debug, Clone, Copy, PartialEq, Eq, Structural)]
pub struct Range {
    /// Start position (inclusive)
    pub start: Position,
    /// End position (exclusive)
    pub end: Position,
}

impl Range {
    /// The range between two positions, ordered so that `start <= end`.
    pub fn new(start: Position, end: Position) -> (r: Self)
        ensures
            r.start == pos_min(start, end),
            r.end == pos_max(start, end),
            pos_le(r.start, r.end),
    {
        if start.precedes_or_eq(&end) {
            Self { start, end }
        } else {
            Self { start: end, end: start }
        }
    }

    /// A zero-width range at a position.
    pub fn cursor(pos: Position) -> (r: Self)
        ensures
            r.start == pos,
            r.end == pos,
    {
        Self { start: pos, end: pos }
    }

    /// Whether the range has zero width.
    pub fn is_empty(self) -> (b: bool)
        ensures
            b == (self.start == self.end),
    {
        self.start.line == self.end.line && self.start.column == self.end.column
    }

    /// Whether a position lies in the range (start inclusive, end exclusive).
    pub fn contains(self, pos: Position) -> (b: bool)
        ensures
            b == (pos_le(self.start, pos) && pos_lt(pos, self.end)),
    {
        self.start.precedes_or_eq(&pos) && pos.precedes(&self.end)
    }

    /// Whether this range shares some position with another.
    pub fn overlaps(self, other: Range) -> (b: bool)
        ensures
            b == (pos_lt(self.start, other.end) && pos_lt(other.start, self.end)),
    {
        self.start.precedes(&other.end) && other.start.precedes(&self.end)
    }

    /// The smallest range covering both ranges.
    pub fn union(self, other: Range) -> (r: Range)
        ensures
            r.start == pos_min(self.start, other.start),
            r.end == pos_max(self.end, other.end),
    {
        let start = if self.start.precedes_or_eq(&other.start) { self.start } else { other.start };
        let end = if self.end.precedes_or_eq(&other.end) { other.end } else { self.end };
        Range { start, end }
    }

    /// The range grown to include `pos`.
    pub fn extend_to(self, pos: Position) -> (r: Range)
        ensures
            r.start == pos_min(self.start, pos),
            r.end == pos_max(self.end, pos),
    {
        let start = if self.start.precedes_or_eq(&pos) { self.start } else { pos };
        let end = if self.end.precedes_or_eq(&pos) { pos } else { self.end };
        Range { start, end }
    }

    /// Whether the range lies on one line.
    pub fn is_single_line(self) -> (b: bool)
        ensures
            b == (self.start.line == self.end.line),
    {
        self.start.line == self.end.line
    }

    /// The first and last line that the range touches.
    pub fn line_span(self) -> (r: (usize, usize))
        ensures
            r == (self.start.line, self.end.line),
    {
        (self.start.line, self.end.line)
    }
}

} // verus!
