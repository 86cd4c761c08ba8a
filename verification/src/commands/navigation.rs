//! Navigation commands: cursor movement, go to line or position, bracket
//! matching and scrolling, over a navigation context.

use vstd::prelude::*;
use crate::commands::Movement;
use crate::text::{all_ws, is_whitespace, is_ws, leading_ws, leading_ws_count, str_to_chars};

verus! {

/// A position in a document (0-indexed line; column in characters).
#[derive(Debug, Clone, Copy, PartialEq, Eq, Structural, Hash, PartialOrd, Ord)]
pub struct Position {
    /// Line number (0-indexed)
    pub line: usize,
    /// Column number (0-indexed, in characters)
    pub column: usize,
}

impl Position {
    /// A position.
    pub fn new(line: usize, column: usize) -> (p: Self)
        ensures
            p == (Position { line, column }),
    {
        Self { line, column }
    }

    /// The start of the document.
    pub fn zero() -> (p: Self)
        ensures
            p == (Position { line: 0, column: 0 }),
    {
        Self::new(0, 0)
    }

    /// The start of a line.
    pub fn line_start(line: usize) -> (p: Self)
        ensures
            p == (Position { line, column: 0 }),
    {
        Self::new(line, 0)
    }
}

/// What an editor offers the navigation commands.
///
/// The contract is stated over the views declared first: each query
/// returns its view, and each change says what becomes of the cursor, the
/// selection and the view port.
///
/// An implementation gives each view its meaning; left to the default, a
/// view is some value that nothing here can know.
pub trait NavigationContext {
    /// The cursor position.
    closed spec fn spec_cursor(&self) -> Position {
        arbitrary()
    }

    /// The number of lines.
    closed spec fn spec_line_count(&self) -> usize {
        arbitrary()
    }

    /// The length of a line.
    closed spec fn spec_line_length(&self, line: usize) -> usize {
        arbitrary()
    }

    /// The text of a line, if the line exists.
    closed spec fn spec_line_text(&self, line: usize) -> Option<Seq<char>> {
        arbitrary()
    }

    /// The range of visible lines.
    closed spec fn spec_visible_range(&self) -> (usize, usize) {
        arbitrary()
    }

    /// The number of visible lines.
    closed spec fn spec_visible_line_count(&self) -> usize {
        arbitrary()
    }

    /// The selection, if any.
    closed spec fn spec_selection(&self) -> Option<(Position, Position)> {
        arbitrary()
    }

    /// The bracket matching the one at a position.
    closed spec fn spec_matching_bracket(&self, position: Position) -> Option<Position> {
        arbitrary()
    }

    /// Whether the view shows a position.
    closed spec fn spec_shows(&self, position: Position) -> bool {
        arbitrary()
    }

    /// The cursor position.
    fn cursor_position(&self) -> (p: Position)
        ensures
            p == self.spec_cursor(),
    ;

    /// Moves the cursor.
    fn set_cursor_position(&mut self, position: Position)
        ensures
            final(self).spec_cursor() == position,
    ;

    /// The number of lines.
    fn line_count(&self) -> (n: usize)
        ensures
            n == self.spec_line_count(),
    ;

    /// The length of a line.
    fn line_length(&self, line: usize) -> (n: usize)
        ensures
            n == self.spec_line_length(line),
    ;

    /// The text of a line.
    fn line_text(&self, line: usize) -> (t: Option<String>)
        ensures
            t.is_some() == self.spec_line_text(line).is_some(),
            t.is_some() ==> t.unwrap()@ == self.spec_line_text(line).unwrap(),
    ;

    /// The range of visible lines.
    fn visible_line_range(&self) -> (r: (usize, usize))
        ensures
            r == self.spec_visible_range(),
    ;

    /// The number of visible lines.
    fn visible_line_count(&self) -> (n: usize)
        ensures
            n == self.spec_visible_line_count(),
    ;

    /// Scrolls to make a position visible; the cursor and the selection
    /// stay.
    fn scroll_to_position(&mut self, position: Position)
        ensures
            final(self).spec_shows(position),
            final(self).spec_cursor() == old(self).spec_cursor(),
            final(self).spec_selection() == old(self).spec_selection(),
    ;

    /// The selection, if any.
    fn selection_range(&self) -> (r: Option<(Position, Position)>)
        ensures
            r == self.spec_selection(),
    ;

    /// Sets the selection; the cursor stays.
    fn set_selection_range(&mut self, start: Position, end: Position)
        ensures
            final(self).spec_selection() == Some((start, end)),
            final(self).spec_cursor() == old(self).spec_cursor(),
    ;

    /// Collapses the selection to the cursor.
    fn clear_selection(&mut self)
        ensures
            final(self).spec_selection() is None,
            final(self).spec_cursor() == old(self).spec_cursor(),
    ;

    /// The bracket matching the one at a position.
    fn find_matching_bracket(&self, position: Position) -> (r: Option<Position>)
        ensures
            r == self.spec_matching_bracket(position),
    ;
}

/// Whether `c` is alphabetic or numeric (`char::is_alphanumeric`).
pub uninterp spec fn is_alnum(c: char) -> bool;

/// `char::is_alphanumeric`: the result is the name [`is_alnum`] of the
/// character; on an ASCII character it holds exactly of letters and
/// digits.
#[verifier::external_body]
fn char_is_alphanumeric(c: char) -> (b: bool)
    ensures
        b == is_alnum(c),
        (c as u32) < 128 ==> (b <==> ('a' <= c <= 'z' || 'A' <= c <= 'Z' || '0' <= c <= '9')),
{
    c.is_alphanumeric()
}

/// Whether `c` belongs to a word: alphanumeric or `_`.
pub open spec fn is_word_char(c: char) -> bool {
    is_alnum(c) || c == '_'
}

fn word_char(c: char) -> (b: bool)
    ensures
        b == is_word_char(c),
{
    char_is_alphanumeric(c) || c == '_'
}

/// The start of the run of whitespace that ends at `p`.
pub open spec fn skip_ws_back(s: Seq<char>, p: int) -> int
    decreases p,
{
    if p > 0 && p <= s.len() && is_ws(s[p - 1]) {
        skip_ws_back(s, p - 1)
    } else {
        p
    }
}

/// The start of the run of characters of one kind (word or not) that ends
/// at `p`.
pub open spec fn skip_kind_back(s: Seq<char>, p: int, kind: bool) -> int
    decreases p,
{
    if p > 0 && p <= s.len() && is_word_char(s[p - 1]) == kind {
        skip_kind_back(s, p - 1, kind)
    } else {
        p
    }
}

/// The end of the run of characters of one kind that starts at `p`.
pub open spec fn skip_kind_fwd(s: Seq<char>, p: int, kind: bool) -> int
    decreases s.len() - p,
{
    if 0 <= p < s.len() && is_word_char(s[p]) == kind {
        skip_kind_fwd(s, p + 1, kind)
    } else {
        p
    }
}

/// The end of the run of whitespace that starts at `p`.
pub open spec fn skip_ws_fwd(s: Seq<char>, p: int) -> int
    decreases s.len() - p,
{
    if 0 <= p < s.len() && is_ws(s[p]) {
        skip_ws_fwd(s, p + 1)
    } else {
        p
    }
}

/// The column one word left of `col` in a line: back over whitespace,
/// then back over the run of characters of the kind (word or not) of the
/// character before.
pub open spec fn word_left_of(s: Seq<char>, col: int) -> int {
    let p = skip_ws_back(s, if col < s.len() { col } else { s.len() as int });
    if p > 0 {
        skip_kind_back(s, p, is_word_char(s[p - 1]))
    } else {
        p
    }
}

/// The column one word right of `col < s.len()` in a line: over the run of
/// characters of the kind of the one at `col`, then over whitespace.
pub open spec fn word_right_of(s: Seq<char>, col: int) -> int {
    skip_ws_fwd(s, skip_kind_fwd(s, col, is_word_char(s[col])))
}

/// The column one word left of `column` in a line of characters.
pub fn word_left_column(chars: &[char], column: usize) -> (c: usize)
    ensures
        c == word_left_of(chars@, column as int),
{
    let mut pos = if column < chars.len() { column } else { chars.len() };
    let ghost start = pos as int;
    while pos > 0 && is_whitespace(chars[pos - 1])
        invariant
            pos <= chars@.len(),
            skip_ws_back(chars@, start) == skip_ws_back(chars@, pos as int),
        decreases pos,
    {
        pos = pos - 1;
    }
    if pos > 0 {
        let kind = word_char(chars[pos - 1]);
        let ghost p1 = pos as int;
        while pos > 0 && word_char(chars[pos - 1]) == kind
            invariant
                pos <= chars@.len(),
                skip_kind_back(chars@, p1, kind) == skip_kind_back(chars@, pos as int, kind),
            decreases pos,
        {
            pos = pos - 1;
        }
    }
    pos
}

/// The column one word right of `column` in a line of characters.
pub fn word_right_column(chars: &[char], column: usize) -> (c: usize)
    requires
        column < chars@.len(),
    ensures
        c == word_right_of(chars@, column as int),
{
    let mut pos = column;
    let kind = word_char(chars[pos]);
    while pos < chars.len() && word_char(chars[pos]) == kind
        invariant
            column <= pos <= chars@.len(),
            kind == is_word_char(chars@[column as int]),
            skip_kind_fwd(chars@, column as int, kind) == skip_kind_fwd(chars@, pos as int, kind),
        decreases chars@.len() - pos,
    {
        pos = pos + 1;
    }
    let ghost p1 = pos as int;
    while pos < chars.len() && is_whitespace(chars[pos])
        invariant
            p1 <= pos <= chars@.len(),
            skip_ws_fwd(chars@, p1) == skip_ws_fwd(chars@, pos as int),
        decreases chars@.len() - pos,
    {
        pos = pos + 1;
    }
    pos
}

/// The line a go-to-line command (1-indexed `line_number`) lands on: the
/// line before it, within the document.
pub open spec fn go_to_line_target(line_number: usize, line_count: usize) -> Position {
    let l = if line_number > 0 { line_number - 1 } else { 0 };
    let last = if line_count > 0 { line_count - 1 } else { 0 };
    Position { line: (if l < last { l } else { last }) as usize, column: 0 }
}

/// The start of the line for a 1-indexed line number, within a document of
/// `line_count` lines.
pub fn line_number_target(line_number: usize, line_count: usize) -> (p: Position)
    ensures
        p == go_to_line_target(line_number, line_count),
{
    let line = line_number.saturating_sub(1);
    let last = line_count.saturating_sub(1);
    let line = if line < last { line } else { last };
    Position::new(line, 0)
}

/// Moves the cursor and drops the selection.
pub fn execute_move_cursor(ctx: &mut impl NavigationContext, movement: Movement)
    ensures
        final(ctx).spec_cursor() == movement_target(*old(ctx), old(ctx).spec_cursor(), movement),
        final(ctx).spec_selection() is None,
        final(ctx).spec_shows(final(ctx).spec_cursor()),
{
    let current_pos = ctx.cursor_position();
    let new_pos = calculate_movement(ctx, current_pos, movement);
    ctx.set_cursor_position(new_pos);
    ctx.clear_selection();
    ctx.scroll_to_position(new_pos);
}

/// The anchor of a selection that a movement extends: the start of the
/// selection, or the cursor when there is none.
pub open spec fn selection_anchor<C: NavigationContext>(ctx: C) -> Position {
    match ctx.spec_selection() {
        Some((start, _)) => start,
        None => ctx.spec_cursor(),
    }
}

/// Moves the cursor and extends the selection from its anchor (the
/// selection's start, or the former cursor).
pub fn execute_select(ctx: &mut impl NavigationContext, movement: Movement)
    ensures
        final(ctx).spec_cursor() == movement_target(*old(ctx), old(ctx).spec_cursor(), movement),
        final(ctx).spec_selection() == Some((selection_anchor(*old(ctx)), final(ctx).spec_cursor())),
        final(ctx).spec_shows(final(ctx).spec_cursor()),
{
    let current_pos = ctx.cursor_position();
    let new_pos = calculate_movement(ctx, current_pos, movement);
    let anchor = match ctx.selection_range() {
        Some((start, _)) => start,
        None => current_pos,
    };
    ctx.set_cursor_position(new_pos);
    ctx.set_selection_range(anchor, new_pos);
    ctx.scroll_to_position(new_pos);
}

/// Moves the cursor to the start of a line given by its 1-indexed number.
pub fn execute_go_to_line(ctx: &mut impl NavigationContext, line_number: usize)
    ensures
        final(ctx).spec_cursor() == go_to_line_target(line_number, old(ctx).spec_line_count()),
        final(ctx).spec_selection() is None,
        final(ctx).spec_shows(final(ctx).spec_cursor()),
{
    let position = line_number_target(line_number, ctx.line_count());
    ctx.set_cursor_position(position);
    ctx.clear_selection();
    ctx.scroll_to_position(position);
}

/// The position a go-to-position command lands on: the line kept within
/// the document, the column within that line.
pub open spec fn go_to_position_target<C: NavigationContext>(ctx: C, line: usize, column: usize) -> Position {
    let last = ctx.spec_line_count().saturating_sub(1);
    let l = if line < last { line } else { last };
    clamped_to_line(ctx, l, column)
}

/// Moves the cursor to a line and column, both kept within the document.
pub fn execute_go_to_position(ctx: &mut impl NavigationContext, line: usize, column: usize)
    ensures
        final(ctx).spec_cursor() == go_to_position_target(*old(ctx), line, column),
        final(ctx).spec_selection() is None,
        final(ctx).spec_shows(final(ctx).spec_cursor()),
{
    let last = ctx.line_count().saturating_sub(1);
    let line = if line < last { line } else { last };
    let len = ctx.line_length(line);
    let column = if column < len { column } else { len };
    let position = Position::new(line, column);
    ctx.set_cursor_position(position);
    ctx.clear_selection();
    ctx.scroll_to_position(position);
}

/// Jumps to the bracket matching the one at the cursor, if any.
pub fn execute_go_to_matching_bracket(ctx: &mut impl NavigationContext)
    ensures
        match old(ctx).spec_matching_bracket(old(ctx).spec_cursor()) {
            Some(p) => {
                &&& final(ctx).spec_cursor() == p
                &&& final(ctx).spec_selection() is None
                &&& final(ctx).spec_shows(p)
            },
            None => *final(ctx) == *old(ctx),
        },
{
    let current_pos = ctx.cursor_position();
    match ctx.find_matching_bracket(current_pos) {
        Some(matching_pos) => {
            ctx.set_cursor_position(matching_pos);
            ctx.clear_selection();
            ctx.scroll_to_position(matching_pos);
        },
        None => {},
    }
}

/// Scrolls to the cursor.
pub fn execute_center_cursor(ctx: &mut impl NavigationContext)
    ensures
        final(ctx).spec_shows(old(ctx).spec_cursor()),
        final(ctx).spec_cursor() == old(ctx).spec_cursor(),
        final(ctx).spec_selection() == old(ctx).spec_selection(),
{
    let current_pos = ctx.cursor_position();
    ctx.scroll_to_position(current_pos);
}

/// The last line of the document (0 when it has none).
pub open spec fn last_line<C: NavigationContext>(ctx: C) -> usize {
    ctx.spec_line_count().saturating_sub(1)
}

/// A position on `line` at `column`, or at the end of the line when the
/// line is shorter.
pub open spec fn clamped_to_line<C: NavigationContext>(ctx: C, line: usize, column: usize) -> Position {
    let len = ctx.spec_line_length(line);
    Position { line, column: if column < len { column } else { len } }
}

/// One character left: back a column, or from the start of a line to the
/// end of the line above; the start of the document stays.
pub open spec fn moved_left<C: NavigationContext>(ctx: C, cur: Position) -> Position {
    if cur.column > 0 {
        Position { line: cur.line, column: (cur.column - 1) as usize }
    } else if cur.line > 0 {
        Position { line: (cur.line - 1) as usize, column: ctx.spec_line_length((cur.line - 1) as usize) }
    } else {
        cur
    }
}

/// One character right: on a column, or from the end of a line to the
/// start of the line below; the end of the last line stays.
pub open spec fn moved_right<C: NavigationContext>(ctx: C, cur: Position) -> Position {
    if cur.column < ctx.spec_line_length(cur.line) {
        Position { line: cur.line, column: (cur.column + 1) as usize }
    } else if cur.line < last_line(ctx) {
        Position { line: (cur.line + 1) as usize, column: 0 }
    } else {
        cur
    }
}

/// One line up, the column kept within that line; the first line stays.
pub open spec fn moved_up<C: NavigationContext>(ctx: C, cur: Position) -> Position {
    if cur.line > 0 {
        clamped_to_line(ctx, (cur.line - 1) as usize, cur.column)
    } else {
        cur
    }
}

/// One line down, the column kept within that line; the last line stays.
pub open spec fn moved_down<C: NavigationContext>(ctx: C, cur: Position) -> Position {
    if cur.line < last_line(ctx) {
        clamped_to_line(ctx, (cur.line + 1) as usize, cur.column)
    } else {
        cur
    }
}

/// The first character of the line that is not whitespace (see
/// [`first_non_ws`]); a line without text stays.
pub open spec fn line_start_non_ws_target<C: NavigationContext>(ctx: C, cur: Position) -> Position {
    match ctx.spec_line_text(cur.line) {
        Some(s) => Position { line: cur.line, column: first_non_ws(s) as usize },
        None => cur,
    }
}

/// One word left within the line (see [`word_left_of`]); from the start
/// of a line, one character left.
pub open spec fn word_left_target<C: NavigationContext>(ctx: C, cur: Position) -> Position {
    match ctx.spec_line_text(cur.line) {
        Some(s) => if cur.column == 0 {
            moved_left(ctx, cur)
        } else {
            Position { line: cur.line, column: word_left_of(s, cur.column as int) as usize }
        },
        None => cur,
    }
}

/// One word right within the line (see [`word_right_of`]); from the end
/// of a line, one character right.
pub open spec fn word_right_target<C: NavigationContext>(ctx: C, cur: Position) -> Position {
    match ctx.spec_line_text(cur.line) {
        Some(s) => if cur.column >= s.len() {
            moved_right(ctx, cur)
        } else {
            Position { line: cur.line, column: word_right_of(s, cur.column as int) as usize }
        },
        None => cur,
    }
}

/// A page (the visible line count) up, the column kept within the line.
pub open spec fn page_up_target<C: NavigationContext>(ctx: C, cur: Position) -> Position {
    clamped_to_line(ctx, cur.line.saturating_sub(ctx.spec_visible_line_count()), cur.column)
}

/// A page down, at most to the last line, the column kept within the line.
pub open spec fn page_down_target<C: NavigationContext>(ctx: C, cur: Position) -> Position {
    let target = cur.line.saturating_add(ctx.spec_visible_line_count());
    let last = last_line(ctx);
    clamped_to_line(ctx, if target < last { target } else { last }, cur.column)
}

/// Whether a line has text and that text is blank.
pub open spec fn line_is_blank<C: NavigationContext>(ctx: C, line: usize) -> bool {
    match ctx.spec_line_text(line) {
        Some(t) => all_ws(t),
        None => false,
    }
}

/// Whether a line has text and that text is not blank.
pub open spec fn line_has_text<C: NavigationContext>(ctx: C, line: usize) -> bool {
    match ctx.spec_line_text(line) {
        Some(t) => !all_ws(t),
        None => false,
    }
}

/// The first blank line from `line` on, or `line` once past the last line.
pub open spec fn next_blank_line<C: NavigationContext>(ctx: C, line: usize) -> usize
    decreases ctx.spec_line_count() - line,
{
    if line < ctx.spec_line_count() && !line_is_blank(ctx, line) {
        next_blank_line(ctx, (line + 1) as usize)
    } else {
        line
    }
}

/// The first line with text from `line` on, or `line` once past the last
/// line.
pub open spec fn next_text_line<C: NavigationContext>(ctx: C, line: usize) -> usize
    decreases ctx.spec_line_count() - line,
{
    if line < ctx.spec_line_count() && !line_has_text(ctx, line) {
        next_text_line(ctx, (line + 1) as usize)
    } else {
        line
    }
}

/// The start of the next paragraph: past the next blank line after the
/// cursor's, to the first line with text, at most the last line.
pub open spec fn paragraph_next_target<C: NavigationContext>(ctx: C, cur: Position) -> Position {
    let l = next_text_line(ctx, next_blank_line(ctx, cur.line.saturating_add(1)));
    let last = last_line(ctx);
    Position { line: if l < last { l } else { last }, column: 0 }
}

/// The last line with text at or before `line`, or the first line.
pub open spec fn prev_text_line<C: NavigationContext>(ctx: C, line: usize) -> usize
    decreases line,
{
    if line > 0 && !line_has_text(ctx, line) {
        prev_text_line(ctx, (line - 1) as usize)
    } else {
        line
    }
}

/// The first line of the paragraph that holds `line`: back while the line
/// above is not blank.
pub open spec fn paragraph_start<C: NavigationContext>(ctx: C, line: usize) -> usize
    decreases line,
{
    if line > 0 && !line_is_blank(ctx, (line - 1) as usize) {
        paragraph_start(ctx, (line - 1) as usize)
    } else {
        line
    }
}

/// The start of the previous paragraph: from the line above the cursor,
/// back to a line with text, then to the start of its paragraph.
pub open spec fn paragraph_previous_target<C: NavigationContext>(ctx: C, cur: Position) -> Position {
    if cur.line == 0 {
        Position { line: 0, column: 0 }
    } else {
        Position { line: paragraph_start(ctx, prev_text_line(ctx, (cur.line - 1) as usize)), column: 0 }
    }
}

/// Where a movement takes the cursor from `cur`.
pub open spec fn movement_target<C: NavigationContext>(ctx: C, cur: Position, movement: Movement) -> Position {
    match movement {
        Movement::Left => moved_left(ctx, cur),
        Movement::Right => moved_right(ctx, cur),
        Movement::Up => moved_up(ctx, cur),
        Movement::Down => moved_down(ctx, cur),
        Movement::LineStart => Position { line: cur.line, column: 0 },
        Movement::LineEnd => Position { line: cur.line, column: ctx.spec_line_length(cur.line) },
        Movement::LineStartNonWhitespace => line_start_non_ws_target(ctx, cur),
        Movement::WordLeft => word_left_target(ctx, cur),
        Movement::WordRight => word_right_target(ctx, cur),
        Movement::DocumentStart => Position { line: 0, column: 0 },
        Movement::DocumentEnd => Position { line: last_line(ctx), column: ctx.spec_line_length(last_line(ctx)) },
        Movement::PageUp => page_up_target(ctx, cur),
        Movement::PageDown => page_down_target(ctx, cur),
        Movement::ParagraphNext => paragraph_next_target(ctx, cur),
        Movement::ParagraphPrevious => paragraph_previous_target(ctx, cur),
        Movement::MatchingBracket => match ctx.spec_matching_bracket(cur) {
            Some(p) => p,
            None => cur,
        },
    }
}

fn calculate_movement(ctx: &impl NavigationContext, current: Position, movement: Movement) -> (p: Position)
    ensures
        p == movement_target(*ctx, current, movement),
{
    match movement {
        Movement::Left => move_left(ctx, current),
        Movement::Right => move_right(ctx, current),
        Movement::Up => move_up(ctx, current),
        Movement::Down => move_down(ctx, current),
        Movement::LineStart => Position::new(current.line, 0),
        Movement::LineEnd => Position::new(current.line, ctx.line_length(current.line)),
        Movement::LineStartNonWhitespace => move_line_start_non_whitespace(ctx, current),
        Movement::WordLeft => move_word_left(ctx, current),
        Movement::WordRight => move_word_right(ctx, current),
        Movement::DocumentStart => Position::zero(),
        Movement::DocumentEnd => {
            let last_line = ctx.line_count().saturating_sub(1);
            Position::new(last_line, ctx.line_length(last_line))
        },
        Movement::PageUp => move_page_up(ctx, current),
        Movement::PageDown => move_page_down(ctx, current),
        Movement::ParagraphNext => move_paragraph_next(ctx, current),
        Movement::ParagraphPrevious => move_paragraph_previous(ctx, current),
        Movement::MatchingBracket => match ctx.find_matching_bracket(current) {
            Some(p) => p,
            None => current,
        },
    }
}

fn move_left(ctx: &impl NavigationContext, current: Position) -> (p: Position)
    ensures
        p == moved_left(*ctx, current),
{
    if current.column > 0 {
        Position::new(current.line, current.column - 1)
    } else if current.line > 0 {
        let prev_line = current.line - 1;
        Position::new(prev_line, ctx.line_length(prev_line))
    } else {
        current
    }
}

fn move_right(ctx: &impl NavigationContext, current: Position) -> (p: Position)
    ensures
        p == moved_right(*ctx, current),
{
    let line_len = ctx.line_length(current.line);
    if current.column < line_len {
        Position::new(current.line, current.column + 1)
    } else if current.line < ctx.line_count().saturating_sub(1) {
        Position::new(current.line + 1, 0)
    } else {
        current
    }
}

fn move_up(ctx: &impl NavigationContext, current: Position) -> (p: Position)
    ensures
        p == moved_up(*ctx, current),
{
    if current.line > 0 {
        let new_line = current.line - 1;
        let len = ctx.line_length(new_line);
        Position::new(new_line, if current.column < len { current.column } else { len })
    } else {
        current
    }
}

fn move_down(ctx: &impl NavigationContext, current: Position) -> (p: Position)
    ensures
        p == moved_down(*ctx, current),
{
    if current.line < ctx.line_count().saturating_sub(1) {
        let new_line = current.line + 1;
        let len = ctx.line_length(new_line);
        Position::new(new_line, if current.column < len { current.column } else { len })
    } else {
        current
    }
}

/// The column of the first character of a line that is not whitespace (0
/// when there is none).
pub open spec fn first_non_ws(s: Seq<char>) -> int {
    if leading_ws(s) < s.len() {
        leading_ws(s) as int
    } else {
        0
    }
}

/// The column of the first character that is not whitespace (0 when there
/// is none).
pub fn first_non_whitespace_column(chars: &[char]) -> (c: usize)
    ensures
        c == first_non_ws(chars@),
{
    let k = leading_ws_count(chars);
    if k < chars.len() {
        k
    } else {
        0
    }
}

fn move_line_start_non_whitespace(ctx: &impl NavigationContext, current: Position) -> (p: Position)
    ensures
        p == line_start_non_ws_target(*ctx, current),
{
    match ctx.line_text(current.line) {
        Some(line_text) => {
            let chars = str_to_chars(line_text.as_str());
            Position::new(current.line, first_non_whitespace_column(chars.as_slice()))
        },
        None => current,
    }
}

fn move_word_left(ctx: &impl NavigationContext, current: Position) -> (p: Position)
    ensures
        p == word_left_target(*ctx, current),
{
    match ctx.line_text(current.line) {
        Some(line_text) => {
            if current.column == 0 {
                return move_left(ctx, current);
            }
            let chars = str_to_chars(line_text.as_str());
            Position::new(current.line, word_left_column(chars.as_slice(), current.column))
        },
        None => current,
    }
}

fn move_word_right(ctx: &impl NavigationContext, current: Position) -> (p: Position)
    ensures
        p == word_right_target(*ctx, current),
{
    match ctx.line_text(current.line) {
        Some(line_text) => {
            let chars = str_to_chars(line_text.as_str());
            if current.column >= chars.len() {
                return move_right(ctx, current);
            }
            Position::new(current.line, word_right_column(chars.as_slice(), current.column))
        },
        None => current,
    }
}

fn move_page_up(ctx: &impl NavigationContext, current: Position) -> (p: Position)
    ensures
        p == page_up_target(*ctx, current),
{
    let visible_lines = ctx.visible_line_count();
    let new_line = current.line.saturating_sub(visible_lines);
    let len = ctx.line_length(new_line);
    Position::new(new_line, if current.column < len { current.column } else { len })
}

fn move_page_down(ctx: &impl NavigationContext, current: Position) -> (p: Position)
    ensures
        p == page_down_target(*ctx, current),
{
    let visible_lines = ctx.visible_line_count();
    let last = ctx.line_count().saturating_sub(1);
    let target = current.line.saturating_add(visible_lines);
    let new_line = if target < last { target } else { last };
    let len = ctx.line_length(new_line);
    Position::new(new_line, if current.column < len { current.column } else { len })
}

/// Whether a line is blank (empty or all whitespace).
pub fn is_blank(text: &str) -> (b: bool)
    ensures
        b == all_ws(text@),
{
    let chars = str_to_chars(text);
    let k = leading_ws_count(chars.as_slice());
    proof {
        crate::text::lemma_leading_ws_bound(chars@);
    }
    k == chars.len()
}

fn move_paragraph_next(ctx: &impl NavigationContext, current: Position) -> (p: Position)
    ensures
        p == paragraph_next_target(*ctx, current),
{
    let count = ctx.line_count();
    let mut line = current.line.saturating_add(1);
    let ghost first = line;
    while line < count
        invariant
            count == ctx.spec_line_count(),
            next_blank_line(*ctx, first) == next_blank_line(*ctx, line),
        ensures
            next_blank_line(*ctx, first) == line,
        decreases count - line,
    {
        match ctx.line_text(line) {
            Some(text) => {
                if is_blank(text.as_str()) {
                    break;
                }
            },
            None => {},
        }
        line = line + 1;
    }
    let ghost blank = line;
    while line < count
        invariant
            count == ctx.spec_line_count(),
            next_text_line(*ctx, blank) == next_text_line(*ctx, line),
        ensures
            next_text_line(*ctx, blank) == line,
        decreases count - line,
    {
        match ctx.line_text(line) {
            Some(text) => {
                if !is_blank(text.as_str()) {
                    break;
                }
            },
            None => {},
        }
        line = line + 1;
    }
    let last = count.saturating_sub(1);
    Position::new(if line < last { line } else { last }, 0)
}

fn move_paragraph_previous(ctx: &impl NavigationContext, current: Position) -> (p: Position)
    ensures
        p == paragraph_previous_target(*ctx, current),
{
    if current.line == 0 {
        return Position::zero();
    }
    let mut line = current.line - 1;
    let ghost first = line;
    while line > 0
        invariant
            prev_text_line(*ctx, first) == prev_text_line(*ctx, line),
        ensures
            prev_text_line(*ctx, first) == line,
        decreases line,
    {
        match ctx.line_text(line) {
            Some(text) => {
                if !is_blank(text.as_str()) {
                    break;
                }
            },
            None => {},
        }
        line = line - 1;
    }
    let ghost text_line = line;
    while line > 0
        invariant
            paragraph_start(*ctx, text_line) == paragraph_start(*ctx, line),
        ensures
            paragraph_start(*ctx, text_line) == line,
        decreases line,
    {
        match ctx.line_text(line - 1) {
            Some(text) => {
                if is_blank(text.as_str()) {
                    break;
                }
            },
            None => {},
        }
        line = line - 1;
    }
    Position::new(line, 0)
}

/// Moving right from the end of a line that is not the last one goes to
/// the start of the next line.
pub proof fn lemma_right_wraps_to_next_line<C: NavigationContext>(ctx: C, cur: Position)
    requires
        cur.column == ctx.spec_line_length(cur.line),
        cur.line + 1 < ctx.spec_line_count(),
    ensures
        movement_target(ctx, cur, Movement::Right) == (Position { line: (cur.line + 1) as usize, column: 0 }),
{
}

/// Moving left from the start of a line that is not the first one goes to
/// the end of the line above.
pub proof fn lemma_left_wraps_to_previous_line<C: NavigationContext>(ctx: C, cur: Position)
    requires
        cur.column == 0,
        cur.line > 0,
    ensures
        movement_target(ctx, cur, Movement::Left) == (Position {
            line: (cur.line - 1) as usize,
            column: ctx.spec_line_length((cur.line - 1) as usize),
        }),
{
}

/// Within the document, moving left undoes moving right (away from the
/// document's end), and moving right undoes moving left (away from its
/// start): a move by one character in each direction comes back to the
/// same place.
pub proof fn lemma_left_right_inverse<C: NavigationContext>(ctx: C, cur: Position)
    requires
        cur.line < ctx.spec_line_count(),
        cur.column <= ctx.spec_line_length(cur.line),
    ensures
        !(cur.line + 1 == ctx.spec_line_count() && cur.column == ctx.spec_line_length(cur.line))
            ==> movement_target(ctx, movement_target(ctx, cur, Movement::Right), Movement::Left) == cur,
        (cur.column > 0 || cur.line > 0)
            ==> movement_target(ctx, movement_target(ctx, cur, Movement::Left), Movement::Right) == cur,
{
}

proof fn lemma_skip_kind_fwd(s: Seq<char>, p: int, kind: bool)
    requires
        0 <= p <= s.len(),
    ensures
        p <= skip_kind_fwd(s, p, kind) <= s.len(),
        skip_kind_fwd(s, p, kind) == s.len() || is_word_char(s[skip_kind_fwd(s, p, kind)]) != kind,
    decreases s.len() - p,
{
    if p < s.len() && is_word_char(s[p]) == kind {
        lemma_skip_kind_fwd(s, p + 1, kind);
    }
}

proof fn lemma_skip_ws_fwd(s: Seq<char>, p: int)
    requires
        0 <= p <= s.len(),
    ensures
        p <= skip_ws_fwd(s, p) <= s.len(),
        skip_ws_fwd(s, p) == s.len() || !is_ws(s[skip_ws_fwd(s, p)]),
    decreases s.len() - p,
{
    if p < s.len() && is_ws(s[p]) {
        lemma_skip_ws_fwd(s, p + 1);
    }
}

proof fn lemma_skip_ws_back(s: Seq<char>, p: int)
    requires
        0 <= p <= s.len(),
    ensures
        0 <= skip_ws_back(s, p) <= p,
        skip_ws_back(s, p) == 0 || !is_ws(s[skip_ws_back(s, p) - 1]),
    decreases p,
{
    if p > 0 && is_ws(s[p - 1]) {
        lemma_skip_ws_back(s, p - 1);
    }
}

proof fn lemma_skip_kind_back(s: Seq<char>, p: int, kind: bool)
    requires
        0 <= p <= s.len(),
    ensures
        0 <= skip_kind_back(s, p, kind) <= p,
        skip_kind_back(s, p, kind) == 0 || is_word_char(s[skip_kind_back(s, p, kind) - 1]) != kind,
        forall|i: int| skip_kind_back(s, p, kind) <= i < p ==> is_word_char(#[trigger] s[i]) == kind,
    decreases p,
{
    if p > 0 && is_word_char(s[p - 1]) == kind {
        lemma_skip_kind_back(s, p - 1, kind);
    }
}

/// Moving a word right within a line always moves forward, at most to the
/// line's end, and stops at the line's end or before a character that is
/// not whitespace, after the run of characters of the kind (word or not)
/// that the cursor was on.
pub proof fn lemma_word_right_of(s: Seq<char>, col: int)
    requires
        0 <= col < s.len(),
    ensures
        col < word_right_of(s, col) <= s.len(),
        word_right_of(s, col) == s.len() || !is_ws(s[word_right_of(s, col)]),
{
    let k = is_word_char(s[col]);
    lemma_skip_kind_fwd(s, col, k);
    assert(skip_kind_fwd(s, col, k) == skip_kind_fwd(s, col + 1, k));
    lemma_skip_kind_fwd(s, col + 1, k);
    lemma_skip_ws_fwd(s, skip_kind_fwd(s, col, k));
}

/// Moving a word left within a line always moves back, and stops at the
/// start of the line or at the start of a run of characters of one kind
/// (word or not): the character before it is of the other kind, and it
/// is not whitespace.
pub proof fn lemma_word_left_of(s: Seq<char>, col: int)
    requires
        0 < col <= s.len(),
    ensures
        0 <= word_left_of(s, col) < col,
        word_left_of(s, col) == 0
            || is_word_char(s[word_left_of(s, col) - 1]) != is_word_char(s[word_left_of(s, col)]),
{
    let start = if col < s.len() { col } else { s.len() as int };
    lemma_skip_ws_back(s, start);
    let p = skip_ws_back(s, start);
    if p > 0 {
        let k = is_word_char(s[p - 1]);
        lemma_skip_kind_back(s, p, k);
        assert(skip_kind_back(s, p, k) == skip_kind_back(s, p - 1, k));
        lemma_skip_kind_back(s, p - 1, k);
    }
}

/// Moving up from a line other than the first goes to the line above,
/// keeping the column where that line is long enough and else going to
/// its end; moving down from a line other than the last does the same
/// with the line below. The first line does not move up, and the last
/// does not move down.
pub proof fn lemma_vertical_moves<C: NavigationContext>(ctx: C, cur: Position)
    requires
        cur.line < ctx.spec_line_count(),
    ensures
        cur.line > 0 ==> movement_target(ctx, cur, Movement::Up) == (Position {
            line: (cur.line - 1) as usize,
            column: if cur.column <= ctx.spec_line_length((cur.line - 1) as usize) {
                cur.column
            } else {
                ctx.spec_line_length((cur.line - 1) as usize)
            },
        }),
        cur.line == 0 ==> movement_target(ctx, cur, Movement::Up) == cur,
        cur.line + 1 < ctx.spec_line_count() ==> movement_target(ctx, cur, Movement::Down) == (Position {
            line: (cur.line + 1) as usize,
            column: if cur.column <= ctx.spec_line_length((cur.line + 1) as usize) {
                cur.column
            } else {
                ctx.spec_line_length((cur.line + 1) as usize)
            },
        }),
        cur.line + 1 == ctx.spec_line_count() ==> movement_target(ctx, cur, Movement::Down) == cur,
{
}

/// The line and document moves: to the start and the end of the line, to
/// the start of the document, and to the end of its last line.
pub proof fn lemma_line_and_document_moves<C: NavigationContext>(ctx: C, cur: Position)
    requires
        ctx.spec_line_count() > 0,
    ensures
        movement_target(ctx, cur, Movement::LineStart) == (Position { line: cur.line, column: 0 }),
        movement_target(ctx, cur, Movement::LineEnd) == (Position { line: cur.line, column: ctx.spec_line_length(cur.line) }),
        movement_target(ctx, cur, Movement::DocumentStart) == (Position { line: 0, column: 0 }),
        movement_target(ctx, cur, Movement::DocumentEnd) == (Position {
            line: (ctx.spec_line_count() - 1) as usize,
            column: ctx.spec_line_length((ctx.spec_line_count() - 1) as usize),
        }),
{
}

/// A page up moves back by the number of visible lines (to the first line
/// at most), a page down forward by it (to the last line at most); either
/// keeps the column where the line reached is long enough, else goes to
/// its end.
pub proof fn lemma_page_moves<C: NavigationContext>(ctx: C, cur: Position)
    requires
        ctx.spec_line_count() > 0,
    ensures
        ({
            let up = movement_target(ctx, cur, Movement::PageUp);
            let down = movement_target(ctx, cur, Movement::PageDown);
            let v = ctx.spec_visible_line_count();
            let last = ctx.spec_line_count() - 1;
            &&& up.line == (if cur.line >= v { cur.line - v } else { 0 })
            &&& down.line == (if cur.line + v < last { cur.line + v } else { last })
            &&& up.column == (if cur.column <= ctx.spec_line_length(up.line) { cur.column } else { ctx.spec_line_length(up.line) })
            &&& down.column == (if cur.column <= ctx.spec_line_length(down.line) { cur.column } else { ctx.spec_line_length(down.line) })
        }),
{
}

} // verus!
