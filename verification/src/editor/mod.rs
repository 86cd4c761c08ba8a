//! The editor view's text state: lines of text, a cursor and a selection,
//! with columns counted in UTF-8 bytes.
//!
//! A column is a byte offset into its line. Moving the cursor changes the
//! column one byte at a time; an edit at a column needs that column (cut to
//! the line's length) to start a character.

use vstd::prelude::*;
use vstd::utf8::{encode_scalar, encode_utf8};
use crate::text::{chars_to_string, joined, split_chars, split_on, str_to_chars, lemma_split_on_len};

verus! {

/// The number of bytes in the UTF-8 encoding of a character.
pub open spec fn char_width(c: char) -> nat {
    encode_scalar(c as u32).len()
}

/// The number of bytes in the UTF-8 encoding of a text.
pub open spec fn byte_len(s: Seq<char>) -> nat {
    encode_utf8(s).len()
}

/// The index of the character that starts at byte offset `b` of `s` (the
/// length of `s` for its end), or `None` when no character starts there.
pub open spec fn char_index(s: Seq<char>, b: int) -> Option<int>
    decreases s.len(),
{
    if b == 0 {
        Some(0)
    } else if b < 0 || s.len() == 0 {
        None
    } else {
        match char_index(s.drop_first(), b - char_width(s[0])) {
            Some(k) => Some(k + 1),
            None => None,
        }
    }
}

/// Whether a character starts at byte offset `b` of `s`, or `b` is its end.
pub open spec fn is_boundary(s: Seq<char>, b: int) -> bool {
    char_index(s, b) is Some
}

/// A character takes one to four bytes.
pub proof fn lemma_char_width(c: char)
    ensures
        1 <= char_width(c) <= 4,
        (c as u32) < 0x80 ==> char_width(c) == 1,
        0x80 <= (c as u32) < 0x800 ==> char_width(c) == 2,
        0x800 <= (c as u32) < 0x10000 ==> char_width(c) == 3,
        0x10000 <= (c as u32) ==> char_width(c) == 4,
{
    vstd::utf8::char_is_scalar(c);
}

/// The byte length of two texts one after the other is the sum of theirs.
pub proof fn lemma_byte_len_concat(a: Seq<char>, b: Seq<char>)
    ensures
        byte_len(a + b) == byte_len(a) + byte_len(b),
    decreases a.len(),
{
    if a.len() > 0 {
        assert((a + b).drop_first() =~= a.drop_first() + b);
        assert((a + b)[0] == a[0]);
        lemma_byte_len_concat(a.drop_first(), b);
    } else {
        assert(a + b =~= b);
    }
}

/// The byte length of one character is its width.
pub proof fn lemma_byte_len_single(c: char)
    ensures
        byte_len(seq![c]) == char_width(c),
{
    assert(seq![c].drop_first() =~= Seq::<char>::empty());
    assert(encode_utf8(seq![c].drop_first()) =~= Seq::<u8>::empty());
    assert(encode_scalar(c as u32) + Seq::<u8>::empty() =~= encode_scalar(c as u32));
}

/// The byte length of a text grows with each character.
pub proof fn lemma_byte_len_push(s: Seq<char>, c: char)
    ensures
        byte_len(s.push(c)) == byte_len(s) + char_width(c),
{
    lemma_byte_len_concat(s, seq![c]);
    lemma_byte_len_single(c);
    assert(s + seq![c] =~= s.push(c));
}

/// A text has at least as many bytes as characters.
pub proof fn lemma_byte_len_at_least(s: Seq<char>)
    ensures
        byte_len(s) >= s.len(),
    decreases s.len(),
{
    if s.len() > 0 {
        lemma_char_width(s[0]);
        lemma_byte_len_at_least(s.drop_first());
    }
}

/// The character found at a byte offset lies in the text, and the text
/// before it has exactly that many bytes.
pub proof fn lemma_char_index(s: Seq<char>, b: int)
    requires
        char_index(s, b) is Some,
    ensures
        0 <= char_index(s, b)->0 <= s.len(),
        byte_len(s.take(char_index(s, b)->0)) == b,
    decreases s.len(),
{
    if b == 0 {
        assert(s.take(0) =~= Seq::<char>::empty());
    } else {
        let k = char_index(s, b)->0;
        lemma_char_index(s.drop_first(), b - char_width(s[0]));
        assert(s.take(k) =~= seq![s[0]] + s.drop_first().take(k - 1));
        lemma_byte_len_concat(seq![s[0]], s.drop_first().take(k - 1));
        lemma_byte_len_single(s[0]);
    }
}

/// The byte length of the first `k` characters is where character `k`
/// starts.
pub proof fn lemma_char_index_of(s: Seq<char>, k: int)
    requires
        0 <= k <= s.len(),
    ensures
        char_index(s, byte_len(s.take(k)) as int) == Some(k),
    decreases s.len(),
{
    if k == 0 {
        assert(s.take(0) =~= Seq::<char>::empty());
    } else {
        lemma_char_index_of(s.drop_first(), k - 1);
        assert(s.take(k) =~= seq![s[0]] + s.drop_first().take(k - 1));
        lemma_byte_len_concat(seq![s[0]], s.drop_first().take(k - 1));
        lemma_byte_len_single(s[0]);
        lemma_char_width(s[0]);
    }
}

/// More characters take more bytes.
pub proof fn lemma_byte_len_take_increasing(s: Seq<char>, k1: int, k2: int)
    requires
        0 <= k1 < k2 <= s.len(),
    ensures
        byte_len(s.take(k1)) < byte_len(s.take(k2)),
{
    assert(s.take(k2) =~= s.take(k1) + s.subrange(k1, k2));
    lemma_byte_len_concat(s.take(k1), s.subrange(k1, k2));
    lemma_byte_len_at_least(s.subrange(k1, k2));
}

/// After the selection is deleted, the cursor's column starts a character.
pub proof fn lemma_cursor_after_deleting(m: EditorModel)
    requires
        model_wf(m),
        selection_deletable(m),
        m.selection is Some,
    ensures
        is_boundary(without_selection(m).lines[without_selection(m).cursor.line as int], without_selection(m).cursor.col as int),
{
    let (a, b) = m.selection->0;
    let (s, e) = ordered(a, b);
    let first = m.lines[s.line as int];
    let last = m.lines[e.line as int];
    let ks = char_index(first, s.col as int)->0;
    let ke = char_index(last, e.col as int)->0;
    lemma_char_index(first, s.col as int);
    lemma_char_index(last, e.col as int);
    let kept = first.take(ks) + last.skip(ke);
    assert(kept.take(ks) =~= first.take(ks));
    lemma_char_index_of(kept, ks);
    assert(without_selection(m).lines[s.line as int] == kept);
}

/// The UTF-8 width of a character.
fn width_of(c: char) -> (w: usize)
    ensures
        w == char_width(c),
{
    proof {
        lemma_char_width(c);
    }
    let u = c as u32;
    if u < 0x80 {
        1
    } else if u < 0x800 {
        2
    } else if u < 0x10000 {
        3
    } else {
        4
    }
}

/// The number of bytes of a string.
fn bytes_of(s: &String) -> (n: usize)
    ensures
        n == byte_len(s@),
{
    s.as_str().as_bytes().len()
}

/// The index of the character that starts at byte offset `b` of `v`.
fn index_at_byte(v: &[char], b: usize) -> (r: Option<usize>)
    ensures
        r matches Some(k) ==> char_index(v@, b as int) == Some(k as int),
        r is None ==> char_index(v@, b as int) is None,
{
    let mut i: usize = 0;
    let mut acc: usize = 0;
    proof {
        assert(v@.skip(0) =~= v@);
    }
    while acc < b && i < v.len()
        invariant
            i <= v@.len(),
            acc <= b,
            char_index(v@, b as int) == (match char_index(v@.skip(i as int), b - acc) {
                Some(k) => Some(k + i),
                None => None,
            }),
        decreases v@.len() - i,
    {
        let w = width_of(v[i]);
        proof {
            let t = v@.skip(i as int);
            assert(t[0] == v@[i as int]);
            assert(t.drop_first() =~= v@.skip(i + 1));
        }
        if w > b - acc {
            proof {
                lemma_char_width(v@[i as int]);
                let t = v@.skip(i as int);
                assert(char_index(t.drop_first(), b - acc - w) is None);
            }
            return None;
        }
        acc = acc + w;
        i = i + 1;
    }
    if acc == b {
        Some(i)
    } else {
        proof {
            assert(v@.skip(i as int).len() == 0);
        }
        None
    }
}

/// The first `k` characters of `a`, then `mid`, then `b` from index `k2`.
fn splice(a: &[char], k: usize, mid: &[char], b: &[char], k2: usize) -> (r: Vec<char>)
    requires
        k <= a@.len(),
        k2 <= b@.len(),
    ensures
        r@ == a@.take(k as int) + mid@ + b@.skip(k2 as int),
{
    let mut out: Vec<char> = Vec::new();
    let mut i: usize = 0;
    while i < k
        invariant
            k <= a@.len(),
            i <= k,
            out@ == a@.take(i as int),
        decreases k - i,
    {
        out.push(a[i]);
        proof {
            assert(a@.take(i + 1) =~= a@.take(i as int).push(a@[i as int]));
        }
        i = i + 1;
    }
    let mut m: usize = 0;
    while m < mid.len()
        invariant
            m <= mid@.len(),
            out@ == a@.take(k as int) + mid@.take(m as int),
        decreases mid@.len() - m,
    {
        out.push(mid[m]);
        proof {
            assert(mid@.take(m + 1) =~= mid@.take(m as int).push(mid@[m as int]));
        }
        m = m + 1;
    }
    proof {
        assert(mid@.take(mid@.len() as int) =~= mid@);
    }
    let mut j: usize = k2;
    while j < b.len()
        invariant
            k2 <= j <= b@.len(),
            out@ == a@.take(k as int) + mid@ + b@.subrange(k2 as int, j as int),
        decreases b@.len() - j,
    {
        out.push(b[j]);
        proof {
            assert(b@.subrange(k2 as int, j + 1) =~= b@.subrange(k2 as int, j as int).push(b@[j as int]));
        }
        j = j + 1;
    }
    proof {
        assert(b@.subrange(k2 as int, b@.len() as int) =~= b@.skip(k2 as int));
    }
    out
}

/// A position in the editor: a line and a byte column in it.
#[derive(Debug, Clone, Copy, PartialEq, Eq, Structural)]
pub struct Position {
    /// The line (from 0)
    pub line: usize,
    /// The column, in bytes (from 0)
    pub col: usize,
}

impl Position {
    /// The position at a line and column.
    pub fn new(line: usize, col: usize) -> (p: Self)
        ensures
            p == (Position { line, col }),
    {
        Self { line, col }
    }

    /// The start of the text.
    pub fn zero() -> (p: Self)
        ensures
            p == (Position { line: 0, col: 0 }),
    {
        Self { line: 0, col: 0 }
    }
}

/// The editor's text state as contracts see it: the lines (without line
/// breaks), the cursor and the selection (anchor, then the end that moves).
pub struct EditorModel {
    /// The lines
    pub lines: Seq<Seq<char>>,
    /// The cursor
    pub cursor: Position,
    /// The selection
    pub selection: Option<(Position, Position)>,
}

/// A position lies on an existing line, at most at the line's end.
pub open spec fn valid_pos(lines: Seq<Seq<char>>, p: Position) -> bool {
    p.line < lines.len() && p.col <= byte_len(lines[p.line as int])
}

/// The state's invariant: at least one line, as many lines as fit in
/// memory, each of a length that fits, and the cursor and the selection's ends on the text.
pub open spec fn model_wf(m: EditorModel) -> bool {
    &&& 1 <= m.lines.len() <= usize::MAX
    &&& forall|i: int| 0 <= i < m.lines.len() ==> byte_len(#[trigger] m.lines[i]) <= usize::MAX
    &&& valid_pos(m.lines, m.cursor)
    &&& (m.selection matches Some((a, b)) ==> valid_pos(m.lines, a) && valid_pos(m.lines, b))
}

/// Two positions, the earlier first (by line, then column).
pub open spec fn ordered(a: Position, b: Position) -> (Position, Position) {
    if a.line < b.line || (a.line == b.line && a.col < b.col) {
        (a, b)
    } else {
        (b, a)
    }
}

/// The lines with `first` to `last` (both included) replaced by `line`.
pub open spec fn replace_lines(lines: Seq<Seq<char>>, first: int, last: int, line: Seq<char>) -> Seq<Seq<char>> {
    lines.take(first) + seq![line] + lines.skip(last + 1)
}

/// Whether the selection, if any, can be deleted: both of its ends start
/// a character of their lines.
pub open spec fn selection_deletable(m: EditorModel) -> bool {
    match m.selection {
        None => true,
        Some((a, b)) => {
            let (s, e) = ordered(a, b);
            is_boundary(m.lines[s.line as int], s.col as int) && is_boundary(m.lines[e.line as int], e.col as int)
        },
    }
}

/// The state with the selection deleted: the text from its start to its
/// end is removed, the cursor goes to its start and no selection is left.
/// Without a selection, the state is unchanged.
pub open spec fn without_selection(m: EditorModel) -> EditorModel {
    match m.selection {
        None => m,
        Some((a, b)) => {
            let (s, e) = ordered(a, b);
            let first = m.lines[s.line as int];
            let last = m.lines[e.line as int];
            let kept = first.take(char_index(first, s.col as int)->0) + last.skip(char_index(last, e.col as int)->0);
            EditorModel { lines: replace_lines(m.lines, s.line as int, e.line as int, kept), cursor: s, selection: None }
        },
    }
}

/// Whether the line `l` of the state after deleting its selection can be
/// edited at the cursor: the selection can be deleted and the cursor's
/// column then starts a character of its line.
pub open spec fn editable_at_cursor(m: EditorModel) -> bool {
    let m1 = without_selection(m);
    selection_deletable(m) && is_boundary(m1.lines[m1.cursor.line as int], m1.cursor.col as int)
}

/// The text of the cursor's line before and after the cursor.
pub open spec fn before_cursor(m: EditorModel) -> Seq<char> {
    let line = m.lines[m.cursor.line as int];
    line.take(char_index(line, m.cursor.col as int)->0)
}

/// The text of the cursor's line from the cursor on.
pub open spec fn after_cursor(m: EditorModel) -> Seq<char> {
    let line = m.lines[m.cursor.line as int];
    line.skip(char_index(line, m.cursor.col as int)->0)
}

/// The state after typing `c`: the selection is deleted, `c` goes in at
/// the cursor, and the cursor's column moves one byte on.
pub open spec fn with_char(m: EditorModel, c: char) -> EditorModel {
    let m1 = without_selection(m);
    EditorModel {
        lines: m1.lines.update(m1.cursor.line as int, before_cursor(m1) + seq![c] + after_cursor(m1)),
        cursor: Position { line: m1.cursor.line, col: (m1.cursor.col + 1) as usize },
        selection: None,
    }
}

/// The state after a line break: the selection is deleted, the cursor's
/// line is split at the cursor and the cursor goes to the start of the new
/// line.
pub open spec fn with_newline(m: EditorModel) -> EditorModel {
    let m1 = without_selection(m);
    let l = m1.cursor.line as int;
    EditorModel {
        lines: m1.lines.take(l) + seq![before_cursor(m1), after_cursor(m1)] + m1.lines.skip(l + 1),
        cursor: Position { line: (l + 1) as usize, col: 0 },
        selection: None,
    }
}

/// Whether a backspace can be done: with a selection, that it can be
/// deleted; with the cursor after the line's start, that the byte before
/// the cursor starts a character.
pub open spec fn backspace_ok(m: EditorModel) -> bool {
    if m.selection is Some {
        selection_deletable(m)
    } else {
        m.cursor.col > 0 ==> is_boundary(m.lines[m.cursor.line as int], m.cursor.col - 1)
    }
}

/// The state after a backspace: a selection is deleted; else the
/// character that starts one byte before the cursor is removed and the
/// cursor moves back one byte; at the start of a line, the line is joined
/// to the one before, with the cursor at the join; at the start of the
/// text, nothing changes.
pub open spec fn after_backspace(m: EditorModel) -> EditorModel {
    let l = m.cursor.line as int;
    let line = m.lines[l];
    if m.selection is Some {
        without_selection(m)
    } else if m.cursor.col > 0 {
        let k = char_index(line, m.cursor.col - 1)->0;
        EditorModel {
            lines: m.lines.update(l, line.take(k) + line.skip(k + 1)),
            cursor: Position { line: m.cursor.line, col: (m.cursor.col - 1) as usize },
            selection: None,
        }
    } else if m.cursor.line > 0 {
        let prev = m.lines[l - 1];
        EditorModel {
            lines: replace_lines(m.lines, l - 1, l, prev + line),
            cursor: Position { line: (l - 1) as usize, col: byte_len(prev) as usize },
            selection: None,
        }
    } else {
        m
    }
}

/// Whether a forward delete can be done: with a selection, that it can be
/// deleted; else that the cursor's column starts a character.
pub open spec fn delete_ok(m: EditorModel) -> bool {
    if m.selection is Some {
        selection_deletable(m)
    } else {
        is_boundary(m.lines[m.cursor.line as int], m.cursor.col as int)
    }
}

/// The state after a forward delete: a selection is deleted; else the
/// character at the cursor is removed; at the end of a line, the next line
/// is joined to it; at the end of the text, nothing changes.
pub open spec fn after_delete(m: EditorModel) -> EditorModel {
    let l = m.cursor.line as int;
    let line = m.lines[l];
    if m.selection is Some {
        without_selection(m)
    } else if m.cursor.col < byte_len(line) {
        let k = char_index(line, m.cursor.col as int)->0;
        EditorModel { lines: m.lines.update(l, line.take(k) + line.skip(k + 1)), ..m }
    } else if l + 1 < m.lines.len() {
        EditorModel { lines: replace_lines(m.lines, l, l + 1, line + m.lines[l + 1]), ..m }
    } else {
        m
    }
}

/// Whether a delete changes the text.
pub open spec fn delete_changes(m: EditorModel) -> bool {
    m.selection is Some || m.cursor.col < byte_len(m.lines[m.cursor.line as int]) || m.cursor.line + 1
        < m.lines.len()
}

/// Whether a backspace changes the text.
pub open spec fn backspace_changes(m: EditorModel) -> bool {
    m.selection is Some || m.cursor.col > 0 || m.cursor.line > 0
}

/// The state after the cursor moves to `to`: when extending, the selection
/// keeps its anchor (the old cursor when there was none) and ends at `to`;
/// otherwise there is no selection.
pub open spec fn moved(m: EditorModel, to: Position, extend: bool) -> EditorModel {
    EditorModel {
        lines: m.lines,
        cursor: to,
        selection: if extend {
            Some(
                (match m.selection {
                    Some((a, _)) => a,
                    None => m.cursor,
                }, to),
            )
        } else {
            None
        },
    }
}

/// A column cut to the length of line `l`.
pub open spec fn clamped_col(m: EditorModel, l: int, col: usize) -> usize {
    if col <= byte_len(m.lines[l]) {
        col
    } else {
        byte_len(m.lines[l]) as usize
    }
}

/// One line up, the column cut to that line; at the first line, no move.
pub open spec fn up_target(m: EditorModel) -> Position {
    if m.cursor.line > 0 {
        Position { line: (m.cursor.line - 1) as usize, col: clamped_col(m, m.cursor.line - 1, m.cursor.col) }
    } else {
        m.cursor
    }
}

/// One line down, the column cut to that line; at the last line, no move.
pub open spec fn down_target(m: EditorModel) -> Position {
    if m.cursor.line + 1 < m.lines.len() {
        Position { line: (m.cursor.line + 1) as usize, col: clamped_col(m, m.cursor.line + 1, m.cursor.col) }
    } else {
        m.cursor
    }
}

/// One byte left; at a line's start, the end of the line before; at the
/// start of the text, no move.
pub open spec fn left_target(m: EditorModel) -> Position {
    if m.cursor.col > 0 {
        Position { line: m.cursor.line, col: (m.cursor.col - 1) as usize }
    } else if m.cursor.line > 0 {
        Position { line: (m.cursor.line - 1) as usize, col: byte_len(m.lines[m.cursor.line - 1]) as usize }
    } else {
        m.cursor
    }
}

/// One byte right; at a line's end, the start of the next line; at the
/// end of the text, no move.
pub open spec fn right_target(m: EditorModel) -> Position {
    if m.cursor.col < byte_len(m.lines[m.cursor.line as int]) {
        Position { line: m.cursor.line, col: (m.cursor.col + 1) as usize }
    } else if m.cursor.line + 1 < m.lines.len() {
        Position { line: (m.cursor.line + 1) as usize, col: 0 }
    } else {
        m.cursor
    }
}

/// The end of the last line.
pub open spec fn text_end(m: EditorModel) -> Position {
    Position { line: (m.lines.len() - 1) as usize, col: byte_len(m.lines.last()) as usize }
}

/// The lines, each followed by a line break.
pub open spec fn lines_with_breaks(ls: Seq<Seq<char>>) -> Seq<char>
    decreases ls.len(),
{
    if ls.len() == 0 {
        Seq::empty()
    } else {
        lines_with_breaks(ls.drop_last()) + ls.last() + seq!['\n']
    }
}

/// The selected text: on one line, the text between the ends; over several
/// lines, the first line from the start, a line break, each line between
/// with a line break, and the last line up to the end.
pub open spec fn selected_text(m: EditorModel) -> Option<Seq<char>> {
    match m.selection {
        None => None,
        Some((a, b)) => {
            let (s, e) = ordered(a, b);
            let first = m.lines[s.line as int];
            let last = m.lines[e.line as int];
            let ks = char_index(first, s.col as int)->0;
            let ke = char_index(last, e.col as int)->0;
            if s.line == e.line {
                Some(first.subrange(ks, ke))
            } else {
                Some(first.skip(ks) + seq!['\n'] + lines_with_breaks(m.lines.subrange(s.line + 1, e.line as int)) + last.take(ke))
            }
        },
    }
}

/// A line without the `\r` that ended it, if any.
pub open spec fn strip_cr(l: Seq<char>) -> Seq<char> {
    if l.len() > 0 && l.last() == '\r' {
        l.drop_last()
    } else {
        l
    }
}

/// The lines of a text as the editor reads them: the pieces between
/// `\n` characters, each that a `\n` ended without its last `\r`, and
/// the piece after the last `\n` only when it is not empty; an empty text
/// is one empty line.
pub open spec fn text_lines(t: Seq<char>) -> Seq<Seq<char>> {
    if t.len() == 0 {
        seq![Seq::<char>::empty()]
    } else {
        let p = split_on(t, '\n');
        let ended = p.drop_last().map_values(|l: Seq<char>| strip_cr(l));
        if p.last().len() == 0 {
            ended
        } else {
            ended.push(p.last())
        }
    }
}

/// The state after inserting a text: the selection is deleted; a text
/// without line breaks goes in at the cursor, which moves past it; a text
/// with line breaks splits the cursor's line, its first piece ending the
/// text before the cursor, its last piece starting the text after it, and
/// the cursor goes to the end of that last piece.
pub open spec fn with_text_inserted(m: EditorModel, t: Seq<char>) -> EditorModel {
    let m1 = without_selection(m);
    let l = m1.cursor.line as int;
    let parts = split_on(t, '\n');
    let n = parts.len() as int;
    if n > 1 {
        EditorModel {
            lines: m1.lines.take(l) + seq![before_cursor(m1) + parts[0]] + parts.subrange(1, n - 1) + seq![
                parts[n - 1] + after_cursor(m1),
            ] + m1.lines.skip(l + 1),
            cursor: Position { line: (l + n - 1) as usize, col: byte_len(parts[n - 1]) as usize },
            selection: None,
        }
    } else {
        EditorModel {
            lines: m1.lines.update(l, before_cursor(m1) + t + after_cursor(m1)),
            cursor: Position { line: m1.cursor.line, col: (m1.cursor.col + byte_len(t)) as usize },
            selection: None,
        }
    }
}

/// Typing a one-byte character and then deleting it with backspace gives
/// back the lines and the cursor.
pub proof fn lemma_type_then_backspace(m: EditorModel, c: char)
    requires
        model_wf(m),
        m.selection is None,
        is_boundary(m.lines[m.cursor.line as int], m.cursor.col as int),
        char_width(c) == 1,
        m.cursor.col < usize::MAX,
    ensures
        after_backspace(with_char(m, c)) == m,
{
    let l = m.cursor.line as int;
    let line = m.lines[l];
    let col = m.cursor.col as int;
    let k = char_index(line, col)->0;
    lemma_char_index(line, col);
    let typed = line.take(k) + seq![c] + line.skip(k);
    assert(typed.take(k) =~= line.take(k));
    lemma_char_index_of(typed, k);
    assert(typed.take(k) + typed.skip(k + 1) =~= line);
    let m1 = with_char(m, c);
    assert(m1.lines[l] == typed);
    assert(m1.lines.update(l, line) =~= m.lines);
}

/// Breaking a line and then joining it again with backspace gives back
/// the lines and the cursor.
pub proof fn lemma_newline_then_backspace(m: EditorModel)
    requires
        model_wf(m),
        m.selection is None,
        is_boundary(m.lines[m.cursor.line as int], m.cursor.col as int),
    ensures
        after_backspace(with_newline(m)) == m,
{
    let l = m.cursor.line as int;
    let line = m.lines[l];
    let k = char_index(line, m.cursor.col as int)->0;
    lemma_char_index(line, m.cursor.col as int);
    let m1 = with_newline(m);
    assert(m1.lines[l] == line.take(k));
    assert(m1.lines[l + 1] == line.skip(k));
    assert(line.take(k) + line.skip(k) =~= line);
    assert(replace_lines(m1.lines, l, l + 1, line) =~= m.lines);
}

/// Lines joined with `\n`, then one more `\n`, are the lines each followed
/// by a line break.
proof fn lemma_joined_then_break(ls: Seq<Seq<char>>)
    requires
        ls.len() >= 1,
    ensures
        joined(ls, '\n') + seq!['\n'] == lines_with_breaks(ls),
    decreases ls.len(),
{
    if ls.len() == 1 {
        assert(ls.drop_last() =~= Seq::<Seq<char>>::empty());
        assert(lines_with_breaks(ls.drop_last()) == Seq::<char>::empty());
        assert(Seq::<char>::empty() + ls.last() + seq!['\n'] =~= ls[0] + seq!['\n']);
    } else {
        lemma_joined_then_break(ls.drop_last());
        assert(joined(ls, '\n') + seq!['\n'] =~= joined(ls.drop_last(), '\n') + seq!['\n'] + ls.last() + seq!['\n']);
    }
}

/// The lines each followed by a line break: the first, a break, then the
/// rest.
proof fn lemma_breaks_first(ls: Seq<Seq<char>>)
    requires
        ls.len() >= 1,
    ensures
        lines_with_breaks(ls) == ls[0] + seq!['\n'] + lines_with_breaks(ls.drop_first()),
    decreases ls.len(),
{
    if ls.len() == 1 {
        assert(ls.drop_last() =~= Seq::<Seq<char>>::empty());
        assert(ls.drop_first() =~= Seq::<Seq<char>>::empty());
        assert(lines_with_breaks(ls.drop_last()) == Seq::<char>::empty());
        assert(lines_with_breaks(ls.drop_first()) == Seq::<char>::empty());
        assert(Seq::<char>::empty() + ls.last() + seq!['\n'] =~= ls[0] + seq!['\n']);
        assert(ls[0] + seq!['\n'] + Seq::<char>::empty() =~= ls[0] + seq!['\n']);
    } else {
        lemma_breaks_first(ls.drop_last());
        assert(ls.drop_last().drop_first() =~= ls.drop_first().drop_last());
        assert(ls.drop_first().last() == ls.last());
        assert(lines_with_breaks(ls) =~= ls[0] + seq!['\n'] + lines_with_breaks(ls.drop_first()));
    }
}

/// Selecting everything and reading the selection gives the whole text.
pub proof fn lemma_select_all_text(m: EditorModel)
    requires
        model_wf(m),
    ensures
        selected_text(
            EditorModel {
                lines: m.lines,
                cursor: text_end(m),
                selection: Some((Position { line: 0, col: 0 }, text_end(m))),
            },
        ) == Some(joined(m.lines, '\n')),
{
    let n = m.lines.len() as int;
    let last = m.lines.last();
    assert(byte_len(last) <= usize::MAX);
    assert(last.take(last.len() as int) =~= last);
    lemma_char_index_of(last, last.len() as int);
    assert(m.lines[0].take(0) =~= Seq::<char>::empty());
    lemma_char_index_of(m.lines[0], 0);
    if n == 1 {
        lemma_byte_len_at_least(last);
        assert(last.subrange(0, last.len() as int) =~= last);
        assert(last.len() == 0 ==> last =~= Seq::<char>::empty());
    } else {
        lemma_joined_then_break(m.lines.drop_last());
        lemma_breaks_first(m.lines.drop_last());
        assert(m.lines.drop_last().drop_first() =~= m.lines.subrange(1, n - 1));
        assert(m.lines[0].skip(0) =~= m.lines[0]);
        assert(joined(m.lines, '\n') =~= joined(m.lines.drop_last(), '\n') + seq!['\n'] + last);
    }
}

/// The texts of some strings.
pub open spec fn line_texts(v: Seq<String>) -> Seq<Seq<char>> {
    v.map_values(|s: String| s@)
}

/// The editor's text state.
#[derive(Debug, Clone)]
pub struct EditorState {
    lines: Vec<String>,
    cursor: Position,
    selection: Option<(Position, Position)>,
    modified: bool,
    file_path: Option<String>,
}

impl View for EditorState {
    type V = EditorModel;

    closed spec fn view(&self) -> EditorModel {
        EditorModel { lines: line_texts(self.lines@), cursor: self.cursor, selection: self.selection }
    }
}

fn order(a: Position, b: Position) -> (r: (Position, Position))
    ensures
        r == ordered(a, b),
{
    if a.line < b.line || (a.line == b.line && a.col < b.col) {
        (a, b)
    } else {
        (b, a)
    }
}

impl EditorState {
    /// Whether the text has been edited.
    pub closed spec fn spec_modified(&self) -> bool {
        self.modified
    }

    /// The file path, if any.
    pub closed spec fn spec_path(&self) -> Option<Seq<char>> {
        match self.file_path {
            Some(p) => Some(p@),
            None => None,
        }
    }

    /// The state's invariant.
    pub open spec fn wf(&self) -> bool {
        model_wf(self@)
    }

    /// An empty state: one empty line, the cursor at its start.
    pub fn new() -> (e: Self)
        ensures
            e.wf(),
            e@ == (EditorModel { lines: seq![Seq::<char>::empty()], cursor: Position { line: 0, col: 0 }, selection: None }),
            !e.spec_modified(),
            e.spec_path() is None,
    {
        let mut lines: Vec<String> = Vec::new();
        lines.push(String::new());
        let e = Self { lines, cursor: Position::zero(), selection: None, modified: false, file_path: None };
        proof {
            assert(line_texts(e.lines@) =~= seq![Seq::<char>::empty()]);
            assert(byte_len(Seq::<char>::empty()) == 0);
        }
        e
    }

    /// A state holding a text, split into lines as [`text_lines`] says,
    /// with the cursor at its start.
    pub fn with_text(text: &str) -> (e: Self)
        ensures
            e.wf(),
            e@ == (EditorModel { lines: text_lines(text@), cursor: Position { line: 0, col: 0 }, selection: None }),
            !e.spec_modified(),
            e.spec_path() is None,
    {
        let t = str_to_chars(text);
        if t.len() == 0 {
            return Self::new();
        }
        let parts = split_chars(t.as_slice(), '\n');
        let ghost ps = split_on(t@, '\n');
        let n = parts.len();
        let empty: Vec<char> = Vec::new();
        let mut e = Self { lines: Vec::new(), cursor: Position::zero(), selection: None, modified: false, file_path: None };
        proof {
            assert(line_texts(e.lines@) =~= ps.take(0).map_values(|l: Seq<char>| strip_cr(l)));
        }
        let mut i: usize = 0;
        while i < n - 1
            invariant
                1 <= n,
                i <= n - 1,
                n == parts@.len(),
                n == ps.len(),
                forall|j: int| 0 <= j < n ==> #[trigger] parts@[j]@ == ps[j],
                e@.lines == ps.take(i as int).map_values(|l: Seq<char>| strip_cr(l)),
                forall|j: int| 0 <= j < e@.lines.len() ==> byte_len(#[trigger] e@.lines[j]) <= usize::MAX,
                e@.cursor == (Position { line: 0, col: 0 }),
                e@.selection is None,
                !e.modified,
                e.file_path is None,
                empty@ == Seq::<char>::empty(),
            decreases n - 1 - i,
        {
            let p = &parts[i];
            let piece = if p.len() > 0 && p[p.len() - 1] == '\r' {
                splice(p.as_slice(), p.len() - 1, empty.as_slice(), p.as_slice(), p.len())
            } else {
                splice(p.as_slice(), p.len(), empty.as_slice(), p.as_slice(), p.len())
            };
            proof {
                assert(p@ == ps[i as int]);
                assert(p@.skip(p@.len() as int) =~= Seq::<char>::empty());
                if p@.len() > 0 && p@.last() == '\r' {
                    assert(piece@ =~= p@.drop_last());
                } else {
                    assert(piece@ =~= p@);
                }
            }
            e.push_line(piece.as_slice());
            proof {
                assert(ps.take(i + 1).map_values(|l: Seq<char>| strip_cr(l)) =~= ps.take(i as int).map_values(
                    |l: Seq<char>| strip_cr(l),
                ).push(strip_cr(ps[i as int])));
            }
            i = i + 1;
        }
        proof {
            assert(ps.take(n - 1) =~= ps.drop_last());
            lemma_split_on_len(t@.drop_last(), '\n');
            assert(parts@[n - 1]@ == ps.last());
        }
        if parts[n - 1].len() > 0 {
            e.push_line(parts[n - 1].as_slice());
        }
        proof {
            assert(e@.lines.len() >= 1);
            assert(byte_len(e@.lines[0]) >= 0);
        }
        e
    }

    /// Whether the selection, if any, can be deleted (see
    /// [`selection_deletable`]).
    pub fn selection_can_be_deleted(&self) -> (b: bool)
        requires
            self.wf(),
        ensures
            b == selection_deletable(self@),
    {
        match self.selection {
            None => true,
            Some((a, b)) => {
                let (s, e) = order(a, b);
                proof {
                    assert(self.lines@.len() == self@.lines.len());
                }
                let first = self.line_chars(s.line);
                let last = self.line_chars(e.line);
                index_at_byte(first.as_slice(), s.col).is_some() && index_at_byte(last.as_slice(), e.col).is_some()
            },
        }
    }

    /// Whether typing at the cursor is possible (see
    /// [`editable_at_cursor`]).
    pub fn cursor_editable(&self) -> (b: bool)
        requires
            self.wf(),
        ensures
            b == editable_at_cursor(self@),
    {
        if self.selection.is_some() {
            let ok = self.selection_can_be_deleted();
            proof {
                if ok {
                    lemma_cursor_after_deleting(self@);
                }
            }
            ok
        } else {
            let line = self.line_chars(self.cursor.line);
            index_at_byte(line.as_slice(), self.cursor.col).is_some()
        }
    }

    /// Whether a backspace is possible (see [`backspace_ok`]).
    pub fn backspace_allowed(&self) -> (b: bool)
        requires
            self.wf(),
        ensures
            b == backspace_ok(self@),
    {
        if self.selection.is_some() {
            self.selection_can_be_deleted()
        } else if self.cursor.col > 0 {
            let line = self.line_chars(self.cursor.line);
            index_at_byte(line.as_slice(), self.cursor.col - 1).is_some()
        } else {
            true
        }
    }

    /// Whether a forward delete is possible (see [`delete_ok`]).
    pub fn delete_allowed(&self) -> (b: bool)
        requires
            self.wf(),
        ensures
            b == delete_ok(self@),
    {
        if self.selection.is_some() {
            self.selection_can_be_deleted()
        } else {
            let line = self.line_chars(self.cursor.line);
            index_at_byte(line.as_slice(), self.cursor.col).is_some()
        }
    }

    /// The characters of line `i`.
    fn line_chars(&self, i: usize) -> (v: Vec<char>)
        requires
            i < self@.lines.len(),
        ensures
            v@ == self@.lines[i as int],
    {
        str_to_chars(self.lines[i].as_str())
    }

    /// Types a character at the cursor, replacing the selection.
    pub fn insert_char(&mut self, c: char)
        requires
            old(self).wf(),
            editable_at_cursor(old(self)@),
        ensures
            final(self).wf(),
            final(self)@ == with_char(old(self)@, c),
            final(self).spec_modified(),
            final(self).spec_path() == old(self).spec_path(),
    {
        self.delete_selection();
        let ghost m1 = self@;
        let l = self.cursor.line;
        let line = self.line_chars(l);
        let k = match index_at_byte(line.as_slice(), self.cursor.col) {
            Some(k) => k,
            None => {
                return;
            },
        };
        proof {
            lemma_char_index(line@, self.cursor.col as int);
        }
        let mut mid: Vec<char> = Vec::new();
        mid.push(c);
        let out = splice(line.as_slice(), k, mid.as_slice(), line.as_slice(), k);
        proof {
            assert(mid@ =~= seq![c]);
            lemma_byte_len_concat(line@.take(k as int) + seq![c], line@.skip(k as int));
            lemma_byte_len_concat(line@.take(k as int), seq![c]);
            lemma_byte_len_single(c);
            lemma_char_width(c);
        }
        self.set_line(l, out.as_slice());
        self.cursor.col = self.cursor.col + 1;
        self.modified = true;
        proof {
            assert forall|i: int| 0 <= i < self@.lines.len() implies byte_len(#[trigger] self@.lines[i]) <= usize::MAX by {
                if i != l {
                    assert(self@.lines[i] == m1.lines[i]);
                }
            }
        }
    }

    /// Breaks the line at the cursor, replacing the selection; the cursor
    /// goes to the start of the new line.
    pub fn insert_newline(&mut self)
        requires
            old(self).wf(),
            editable_at_cursor(old(self)@),
        ensures
            final(self).wf(),
            final(self)@ == with_newline(old(self)@),
            final(self).spec_modified(),
            final(self).spec_path() == old(self).spec_path(),
    {
        self.delete_selection();
        let ghost m1 = self@;
        let l = self.cursor.line;
        let line = self.line_chars(l);
        let k = match index_at_byte(line.as_slice(), self.cursor.col) {
            Some(k) => k,
            None => {
                return;
            },
        };
        proof {
            lemma_char_index(line@, self.cursor.col as int);
        }
        let empty: Vec<char> = Vec::new();
        let before = splice(line.as_slice(), k, empty.as_slice(), line.as_slice(), line.len());
        let after = splice(line.as_slice(), 0, empty.as_slice(), line.as_slice(), k);
        proof {
            assert(before@ =~= line@.take(k as int));
            assert(after@ =~= line@.skip(k as int));
        }
        self.set_line(l, before.as_slice());
        let after_s = chars_to_string(after.as_slice());
        let _n = bytes_of(&after_s);
        proof {
            assert(self@.lines.len() == self.lines@.len());
        }
        assert(l < self.lines.len());
        let ghost v1 = self@.lines;
        self.lines.insert(l + 1, after_s);
        proof {
            assert(self@.lines =~= v1.insert(l + 1, after@));
        }
        self.cursor = Position::new(l + 1, 0);
        self.modified = true;
        proof {
            assert(self.lines.len() == self@.lines.len());
            assert(self@.lines =~= m1.lines.take(l as int) + seq![before@, after@] + m1.lines.skip(l + 1));
            assert forall|i: int| 0 <= i < self@.lines.len() implies byte_len(#[trigger] self@.lines[i]) <= usize::MAX by {
                if i < l {
                    assert(self@.lines[i] == m1.lines[i]);
                } else if i > l + 1 {
                    assert(self@.lines[i] == m1.lines[i - 1]);
                }
            }
        }
    }

    /// Backspace: deletes the selection, else the character before the
    /// cursor, else joins the line to the one before.
    pub fn delete_backward(&mut self)
        requires
            old(self).wf(),
            backspace_ok(old(self)@),
        ensures
            final(self).wf(),
            final(self)@ == after_backspace(old(self)@),
            final(self).spec_modified() == (old(self).spec_modified() || backspace_changes(old(self)@)),
            final(self).spec_path() == old(self).spec_path(),
    {
        if self.delete_selection() {
            return;
        }
        let ghost m = self@;
        let l = self.cursor.line;
        let empty: Vec<char> = Vec::new();
        if self.cursor.col > 0 {
            let line = self.line_chars(l);
            let k = match index_at_byte(line.as_slice(), self.cursor.col - 1) {
                Some(k) => k,
                None => {
                    return;
                },
            };
            proof {
                lemma_char_index(line@, self.cursor.col - 1);
                assert(line@.take(line@.len() as int) =~= line@);
                assert(valid_pos(m.lines, m.cursor));
                assert(k < line.len());
            }
            let out = splice(line.as_slice(), k, empty.as_slice(), line.as_slice(), k + 1);
            proof {
                assert(line@.take(k as int) + empty@ =~= line@.take(k as int));
                lemma_byte_len_concat(line@.take(k as int), line@.skip(k + 1));
            }
            self.set_line(l, out.as_slice());
            self.cursor.col = self.cursor.col - 1;
            self.modified = true;
            proof {
                assert forall|i: int| 0 <= i < self@.lines.len() implies byte_len(#[trigger] self@.lines[i]) <= usize::MAX by {
                    if i != l {
                        assert(self@.lines[i] == m.lines[i]);
                    }
                }
            }
        } else if l > 0 {
            let current = self.lines.remove(l);
            let prev = self.line_chars(l - 1);
            let prev_len = bytes_of(&self.lines[l - 1]);
            let cur = str_to_chars(current.as_str());
            proof {
                assert(prev@ == m.lines[l - 1]);
                assert(cur@ == m.lines[l as int]);
            }
            let joined = splice(prev.as_slice(), prev.len(), cur.as_slice(), cur.as_slice(), cur.len());
            proof {
                assert(prev@.take(prev@.len() as int) =~= prev@);
                assert(joined@ =~= prev@ + cur@);
                lemma_byte_len_concat(prev@, cur@);
            }
            self.set_line(l - 1, joined.as_slice());
            self.cursor = Position::new(l - 1, prev_len);
            self.modified = true;
            proof {
                assert(self@.lines =~= replace_lines(m.lines, l - 1, l as int, prev@ + cur@));
                assert forall|i: int| 0 <= i < self@.lines.len() implies byte_len(#[trigger] self@.lines[i]) <= usize::MAX by {
                    if i < l - 1 {
                        assert(self@.lines[i] == m.lines[i]);
                    } else if i >= l {
                        assert(self@.lines[i] == m.lines[i + 1]);
                    }
                }
            }
        }
    }

    /// Delete: deletes the selection, else the character at the cursor,
    /// else joins the next line to this one.
    pub fn delete_forward(&mut self)
        requires
            old(self).wf(),
            delete_ok(old(self)@),
        ensures
            final(self).wf(),
            final(self)@ == after_delete(old(self)@),
            final(self).spec_modified() == (old(self).spec_modified() || delete_changes(old(self)@)),
            final(self).spec_path() == old(self).spec_path(),
    {
        if self.delete_selection() {
            return;
        }
        let ghost m = self@;
        let l = self.cursor.line;
        let line = self.line_chars(l);
        let blen = bytes_of(&self.lines[l]);
        let empty: Vec<char> = Vec::new();
        proof {
            assert(self@.lines.len() == self.lines@.len());
        }
        assert(l < self.lines.len());
        if self.cursor.col < blen {
            let k = match index_at_byte(line.as_slice(), self.cursor.col) {
                Some(k) => k,
                None => {
                    return;
                },
            };
            proof {
                lemma_char_index(line@, self.cursor.col as int);
                assert(line@.take(line@.len() as int) =~= line@);
                assert(k < line.len());
            }
            let out = splice(line.as_slice(), k, empty.as_slice(), line.as_slice(), k + 1);
            proof {
                assert(line@.take(k as int) + empty@ =~= line@.take(k as int));
                lemma_byte_len_concat(line@.take(k as int), line@.skip(k + 1));
            }
            self.set_line(l, out.as_slice());
            self.modified = true;
            proof {
                assert forall|i: int| 0 <= i < self@.lines.len() implies byte_len(#[trigger] self@.lines[i]) <= usize::MAX by {
                    if i != l {
                        assert(self@.lines[i] == m.lines[i]);
                    }
                }
            }
        } else if l + 1 < self.lines.len() {
            let next = self.lines.remove(l + 1);
            let nc = str_to_chars(next.as_str());
            proof {
                assert(nc@ == m.lines[l + 1]);
            }
            let joined = splice(line.as_slice(), line.len(), nc.as_slice(), nc.as_slice(), nc.len());
            proof {
                assert(line@.take(line@.len() as int) =~= line@);
                assert(joined@ =~= line@ + nc@);
                lemma_byte_len_concat(line@, nc@);
            }
            self.set_line(l, joined.as_slice());
            self.modified = true;
            proof {
                assert(self@.lines =~= replace_lines(m.lines, l as int, l + 1, line@ + nc@));
                assert forall|i: int| 0 <= i < self@.lines.len() implies byte_len(#[trigger] self@.lines[i]) <= usize::MAX by {
                    if i < l {
                        assert(self@.lines[i] == m.lines[i]);
                    } else if i > l {
                        assert(self@.lines[i] == m.lines[i + 1]);
                    }
                }
            }
        }
    }

    /// Moves the cursor to `to`, extending the selection or dropping it.
    fn finish_move(&mut self, to: Position, extend: bool)
        requires
            old(self).wf(),
            valid_pos(old(self)@.lines, to),
        ensures
            final(self).wf(),
            final(self)@ == moved(old(self)@, to, extend),
            final(self).spec_modified() == old(self).spec_modified(),
            final(self).spec_path() == old(self).spec_path(),
    {
        let anchor = match self.selection {
            Some((a, _)) => a,
            None => self.cursor,
        };
        self.cursor = to;
        if extend {
            self.selection = Some((anchor, to));
        } else {
            self.selection = None;
        }
    }

    /// Moves the cursor one line up (see [`up_target`]).
    pub fn move_up(&mut self, extend_selection: bool)
        requires
            old(self).wf(),
        ensures
            final(self).wf(),
            final(self)@ == moved(old(self)@, up_target(old(self)@), extend_selection),
            final(self).spec_modified() == old(self).spec_modified(),
            final(self).spec_path() == old(self).spec_path(),
    {
        let mut to = self.cursor;
        if self.cursor.line > 0 {
            let l = self.cursor.line - 1;
            let len = bytes_of(&self.lines[l]);
            to = Position::new(l, if self.cursor.col <= len { self.cursor.col } else { len });
        }
        self.finish_move(to, extend_selection);
    }

    /// Moves the cursor one line down (see [`down_target`]).
    pub fn move_down(&mut self, extend_selection: bool)
        requires
            old(self).wf(),
        ensures
            final(self).wf(),
            final(self)@ == moved(old(self)@, down_target(old(self)@), extend_selection),
            final(self).spec_modified() == old(self).spec_modified(),
            final(self).spec_path() == old(self).spec_path(),
    {
        let mut to = self.cursor;
        proof {
            assert(self@.lines.len() == self.lines@.len());
        }
        if self.cursor.line < self.lines.len() - 1 {
            let l = self.cursor.line + 1;
            let len = bytes_of(&self.lines[l]);
            to = Position::new(l, if self.cursor.col <= len { self.cursor.col } else { len });
        }
        self.finish_move(to, extend_selection);
    }

    /// Moves the cursor one byte left (see [`left_target`]).
    pub fn move_left(&mut self, extend_selection: bool)
        requires
            old(self).wf(),
        ensures
            final(self).wf(),
            final(self)@ == moved(old(self)@, left_target(old(self)@), extend_selection),
            final(self).spec_modified() == old(self).spec_modified(),
            final(self).spec_path() == old(self).spec_path(),
    {
        let mut to = self.cursor;
        if self.cursor.col > 0 {
            to = Position::new(self.cursor.line, self.cursor.col - 1);
        } else if self.cursor.line > 0 {
            let l = self.cursor.line - 1;
            to = Position::new(l, bytes_of(&self.lines[l]));
        }
        self.finish_move(to, extend_selection);
    }

    /// Moves the cursor one byte right (see [`right_target`]).
    pub fn move_right(&mut self, extend_selection: bool)
        requires
            old(self).wf(),
        ensures
            final(self).wf(),
            final(self)@ == moved(old(self)@, right_target(old(self)@), extend_selection),
            final(self).spec_modified() == old(self).spec_modified(),
            final(self).spec_path() == old(self).spec_path(),
    {
        let mut to = self.cursor;
        proof {
            assert(self@.lines.len() == self.lines@.len());
        }
        let len = bytes_of(&self.lines[self.cursor.line]);
        if self.cursor.col < len {
            to = Position::new(self.cursor.line, self.cursor.col + 1);
        } else if self.cursor.line < self.lines.len() - 1 {
            to = Position::new(self.cursor.line + 1, 0);
        }
        proof {
            assert(byte_len(Seq::<char>::empty()) == 0);
        }
        self.finish_move(to, extend_selection);
    }

    /// Moves the cursor to the start of its line.
    pub fn move_line_start(&mut self, extend_selection: bool)
        requires
            old(self).wf(),
        ensures
            final(self).wf(),
            final(self)@ == moved(old(self)@, Position { line: old(self)@.cursor.line, col: 0 }, extend_selection),
            final(self).spec_modified() == old(self).spec_modified(),
            final(self).spec_path() == old(self).spec_path(),
    {
        let to = Position::new(self.cursor.line, 0);
        self.finish_move(to, extend_selection);
    }

    /// Moves the cursor to the end of its line.
    pub fn move_line_end(&mut self, extend_selection: bool)
        requires
            old(self).wf(),
        ensures
            final(self).wf(),
            final(self)@ == moved(
                old(self)@,
                Position { line: old(self)@.cursor.line, col: byte_len(old(self)@.lines[old(self)@.cursor.line as int]) as usize },
                extend_selection,
            ),
            final(self).spec_modified() == old(self).spec_modified(),
            final(self).spec_path() == old(self).spec_path(),
    {
        let to = Position::new(self.cursor.line, bytes_of(&self.lines[self.cursor.line]));
        self.finish_move(to, extend_selection);
    }

    /// Selects the whole text, the cursor at its end.
    pub fn select_all(&mut self)
        requires
            old(self).wf(),
        ensures
            final(self).wf(),
            final(self)@ == (EditorModel {
                lines: old(self)@.lines,
                cursor: text_end(old(self)@),
                selection: Some((Position { line: 0, col: 0 }, text_end(old(self)@))),
            }),
            final(self).spec_modified() == old(self).spec_modified(),
            final(self).spec_path() == old(self).spec_path(),
    {
        proof {
            assert(self@.lines.len() == self.lines@.len());
        }
        let end_line = self.lines.len() - 1;
        let end = Position::new(end_line, bytes_of(&self.lines[end_line]));
        self.selection = Some((Position::zero(), end));
        self.cursor = end;
    }

    /// Puts the cursor at `pos`, the line cut to the last line and the
    /// column to that line's length; the selection stays.
    pub fn set_cursor(&mut self, pos: Position)
        requires
            old(self).wf(),
        ensures
            final(self).wf(),
            ({
                let m = old(self)@;
                let l = if pos.line < m.lines.len() { pos.line } else { (m.lines.len() - 1) as usize };
                final(self)@ == EditorModel { cursor: Position { line: l, col: clamped_col(m, l as int, pos.col) }, ..m }
            }),
            final(self).spec_modified() == old(self).spec_modified(),
            final(self).spec_path() == old(self).spec_path(),
    {
        proof {
            assert(self@.lines.len() == self.lines@.len());
        }
        let last = self.lines.len() - 1;
        let line = if pos.line <= last { pos.line } else { last };
        let len = bytes_of(&self.lines[line]);
        self.cursor.line = line;
        self.cursor.col = if pos.col <= len { pos.col } else { len };
    }

    /// The lines.
    pub fn lines(&self) -> (r: &[String])
        ensures
            line_texts(r@) == self@.lines,
    {
        self.lines.as_slice()
    }

    /// The number of lines.
    pub fn line_count(&self) -> (n: usize)
        ensures
            n == self@.lines.len(),
    {
        self.lines.len()
    }

    /// Line `index`, if it exists.
    pub fn line(&self, index: usize) -> (r: Option<&str>)
        ensures
            index < self@.lines.len() ==> (r matches Some(t) && t@ == self@.lines[index as int]),
            index >= self@.lines.len() ==> r is None,
    {
        if index < self.lines.len() {
            Some(self.lines[index].as_str())
        } else {
            None
        }
    }

    /// The cursor.
    pub fn cursor(&self) -> (p: Position)
        ensures
            p == self@.cursor,
    {
        self.cursor
    }

    /// The selection: its anchor, then the end that moves.
    pub fn selection(&self) -> (r: Option<(Position, Position)>)
        ensures
            r == self@.selection,
    {
        self.selection
    }

    /// Whether the text has been edited.
    pub fn is_modified(&self) -> (b: bool)
        ensures
            b == self.spec_modified(),
    {
        self.modified
    }

    /// The file path, if any.
    pub fn file_path(&self) -> (r: Option<&str>)
        ensures
            self.spec_path() is None ==> r is None,
            self.spec_path() matches Some(p) ==> (r matches Some(t) && t@ == p),
    {
        match &self.file_path {
            Some(p) => Some(p.as_str()),
            None => None,
        }
    }

    /// The whole text, the lines joined with `\n`.
    pub fn get_text(&self) -> (s: String)
        ensures
            s@ == joined(self@.lines, '\n'),
    {
        let mut out: Vec<char> = Vec::new();
        let mut i: usize = 0;
        while i < self.lines.len()
            invariant
                i <= self.lines@.len(),
                line_texts(self.lines@) == self@.lines,
                out@ == joined(self@.lines.take(i as int), '\n'),
            decreases self.lines@.len() - i,
        {
            let ghost before = out@;
            if i > 0 {
                out.push('\n');
            }
            let line = str_to_chars(self.lines[i].as_str());
            let mut j: usize = 0;
            while j < line.len()
                invariant
                    j <= line@.len(),
                    out@ == (if i > 0 { before + seq!['\n'] } else { before }) + line@.take(j as int),
                decreases line@.len() - j,
            {
                out.push(line[j]);
                proof {
                    assert(line@.take(j + 1) =~= line@.take(j as int).push(line@[j as int]));
                }
                j = j + 1;
            }
            proof {
                let ls = self@.lines.take(i + 1);
                assert(line@.take(line@.len() as int) =~= line@);
                assert(ls.drop_last() =~= self@.lines.take(i as int));
                assert(ls.last() == line@);
                if i == 0 {
                    assert(out@ =~= ls[0]);
                }
            }
            i = i + 1;
        }
        proof {
            assert(self@.lines.take(i as int) =~= self@.lines);
        }
        chars_to_string(out.as_slice())
    }

    /// The selected text, if there is a selection (see [`selected_text`]).
    pub fn get_selected_text(&self) -> (r: Option<String>)
        requires
            self.wf(),
            selection_deletable(self@),
        ensures
            r is None <==> selected_text(self@) is None,
            r matches Some(t) ==> t@ == selected_text(self@)->0,
    {
        let (a, b) = match self.selection {
            None => {
                return None;
            },
            Some(p) => p,
        };
        let ghost m = self@;
        let (s, e) = order(a, b);
        proof {
            assert(self.lines@.len() == m.lines.len());
            assert(valid_pos(m.lines, s) && valid_pos(m.lines, e));
        }
        let first = self.line_chars(s.line);
        let last = self.line_chars(e.line);
        let ks = match index_at_byte(first.as_slice(), s.col) {
            Some(k) => k,
            None => {
                return None;
            },
        };
        let ke = match index_at_byte(last.as_slice(), e.col) {
            Some(k) => k,
            None => {
                return None;
            },
        };
        proof {
            lemma_char_index(first@, s.col as int);
            lemma_char_index(last@, e.col as int);
        }
        let empty: Vec<char> = Vec::new();
        if s.line == e.line {
            proof {
                if ke < ks {
                    lemma_byte_len_take_increasing(first@, ke as int, ks as int);
                }
            }
            return Some(crate::text::subrange_string(first.as_slice(), ks, ke));
        }
        let mut nl: Vec<char> = Vec::new();
        nl.push('\n');
        let mut out = splice(first.as_slice(), 0, empty.as_slice(), first.as_slice(), ks);
        proof {
            assert(out@ =~= first@.skip(ks as int));
        }
        out.append(&mut nl);
        let ghost head = out@;
        let mut i: usize = s.line + 1;
        proof {
            assert(m.lines.subrange(s.line + 1, i as int) =~= Seq::<Seq<char>>::empty());
            assert(head =~= head + lines_with_breaks(Seq::<Seq<char>>::empty()));
        }
        while i < e.line
            invariant
                s.line < i <= e.line,
                e.line < m.lines.len(),
                m == self@,
                out@ == head + lines_with_breaks(m.lines.subrange(s.line + 1, i as int)),
            decreases e.line - i,
        {
            let mut line = self.line_chars(i);
            let ghost lv = line@;
            line.push('\n');
            let ghost before = out@;
            out.append(&mut line);
            proof {
                let ls = m.lines.subrange(s.line + 1, i + 1);
                assert(ls.drop_last() =~= m.lines.subrange(s.line + 1, i as int));
                assert(ls.last() == lv);
                assert(out@ =~= head + lines_with_breaks(ls));
            }
            i = i + 1;
        }
        let mut tail = splice(last.as_slice(), ke, empty.as_slice(), last.as_slice(), last.len());
        proof {
            assert(tail@ =~= last@.take(ke as int));
        }
        out.append(&mut tail);
        Some(chars_to_string(out.as_slice()))
    }

    /// Appends a line made of the given characters.
    fn push_line(&mut self, chars: &[char])
        ensures
            final(self)@ == (EditorModel { lines: old(self)@.lines.push(chars@), ..old(self)@ }),
            byte_len(chars@) <= usize::MAX,
            final(self).modified == old(self).modified,
            final(self).file_path == old(self).file_path,
    {
        let s = chars_to_string(chars);
        let _n = bytes_of(&s);
        self.lines.push(s);
        proof {
            assert(line_texts(self.lines@) =~= old(self)@.lines.push(chars@));
        }
    }

    /// Inserts a text at the cursor, replacing the selection (see
    /// [`with_text_inserted`]).
    pub fn insert_string(&mut self, s: &str)
        requires
            old(self).wf(),
            editable_at_cursor(old(self)@),
        ensures
            final(self).wf(),
            final(self)@ == with_text_inserted(old(self)@, s@),
            final(self).spec_modified(),
            final(self).spec_path() == old(self).spec_path(),
    {
        self.delete_selection();
        let ghost m1 = self@;
        let l = self.cursor.line;
        let line = self.line_chars(l);
        let k = match index_at_byte(line.as_slice(), self.cursor.col) {
            Some(k) => k,
            None => {
                return;
            },
        };
        proof {
            lemma_char_index(line@, self.cursor.col as int);
            assert(self.lines@.len() == m1.lines.len());
        }
        let t = str_to_chars(s);
        let parts = split_chars(t.as_slice(), '\n');
        let n = parts.len();
        let ghost ps = split_on(t@, '\n');
        let empty: Vec<char> = Vec::new();
        if n > 1 {
            let p0 = &parts[0];
            let pl = &parts[n - 1];
            let first = splice(line.as_slice(), k, p0.as_slice(), p0.as_slice(), p0.len());
            let last = splice(pl.as_slice(), pl.len(), empty.as_slice(), line.as_slice(), k);
            proof {
                assert(p0@ == ps[0]);
                assert(pl@ == ps[n - 1]);
                assert(first@ =~= line@.take(k as int) + ps[0]);
                assert(pl@.take(pl@.len() as int) =~= pl@);
                assert(last@ =~= ps[n - 1] + line@.skip(k as int));
            }
            assert(l < self.lines.len());
            let mut tail = self.lines.split_off(l + 1);
            self.lines.truncate(l);
            proof {
                assert(self@.lines =~= m1.lines.take(l as int));
                assert(line_texts(tail@) =~= m1.lines.skip(l + 1));
            }
            self.push_line(first.as_slice());
            let ghost path0 = self.spec_path();
            let mut i: usize = 1;
            while i < n - 1
                invariant
                    1 <= i <= n - 1,
                    n == parts@.len(),
                    n == ps.len(),
                    forall|j: int| 0 <= j < n ==> #[trigger] parts@[j]@ == ps[j],
                    self@.lines == m1.lines.take(l as int) + seq![first@] + ps.subrange(1, i as int),
                    forall|j: int| 0 <= j < self@.lines.len() ==> byte_len(#[trigger] self@.lines[j]) <= usize::MAX,
                    self@.selection == m1.selection,
                    self.spec_path() == path0,
                decreases n - 1 - i,
            {
                self.push_line(parts[i].as_slice());
                proof {
                    assert(ps.subrange(1, i + 1) =~= ps.subrange(1, i as int).push(ps[i as int]));
                    assert(self@.lines =~= m1.lines.take(l as int) + seq![first@] + ps.subrange(1, i + 1));
                }
                i = i + 1;
            }
            self.push_line(last.as_slice());
            proof {
                assert(self.lines@.len() == self@.lines.len());
            }
            let cl = self.lines.len() - 1;
            let last_part = chars_to_string(pl.as_slice());
            let col = bytes_of(&last_part);
            let ghost v2 = self@.lines;
            proof {
                assert(v2 =~= m1.lines.take(l as int) + seq![first@] + ps.subrange(1, n - 1) + seq![last@]);
                assert(cl == l + n - 1);
            }
            self.lines.append(&mut tail);
            proof {
                assert(self@.lines =~= v2 + m1.lines.skip(l + 1));
                assert(self@.lines[cl as int] == last@);
            }
            self.cursor = Position::new(cl, col);
            proof {
                assert(self@.lines =~= m1.lines.take(l as int) + seq![first@] + ps.subrange(1, n - 1) + seq![last@]
                    + m1.lines.skip(l + 1));
                lemma_byte_len_concat(ps[n - 1], line@.skip(k as int));
                assert forall|j: int| 0 <= j < self@.lines.len() implies byte_len(#[trigger] self@.lines[j]) <= usize::MAX by {
                    if j > l + n - 1 {
                        assert(self@.lines[j] == m1.lines[j - (n - 1)]);
                    }
                }
                assert(self.lines.len() == self@.lines.len());
                assert(before_cursor(m1) == line@.take(k as int));
                assert(after_cursor(m1) == line@.skip(k as int));
                assert(self@.selection is None);
                assert(self@.cursor == Position { line: (l + n - 1) as usize, col: byte_len(ps[n - 1]) as usize });
                assert(valid_pos(self@.lines, self@.cursor));
            }
        } else {
            let out = splice(line.as_slice(), k, t.as_slice(), line.as_slice(), k);
            proof {
                lemma_byte_len_concat(line@.take(k as int) + t@, line@.skip(k as int));
                lemma_byte_len_concat(line@.take(k as int), t@);
            }
            self.set_line(l, out.as_slice());
            let tb = s.as_bytes().len();
            proof {
                assert(tb == byte_len(s@));
            }
            self.cursor.col = self.cursor.col + tb;
            proof {
                assert(before_cursor(m1) == line@.take(k as int));
                assert(after_cursor(m1) == line@.skip(k as int));
                assert forall|j: int| 0 <= j < self@.lines.len() implies byte_len(#[trigger] self@.lines[j]) <= usize::MAX by {
                    if j != l {
                        assert(self@.lines[j] == m1.lines[j]);
                    }
                }
            }
        }
        self.modified = true;
    }

    /// Replaces line `i` with the given characters.
    fn set_line(&mut self, i: usize, chars: &[char])
        requires
            i < old(self).lines@.len(),
        ensures
            final(self)@ == (EditorModel { lines: old(self)@.lines.update(i as int, chars@), ..old(self)@ }),
            byte_len(chars@) <= usize::MAX,
            final(self).modified == old(self).modified,
            final(self).file_path == old(self).file_path,
    {
        let s = chars_to_string(chars);
        let _n = bytes_of(&s);
        self.lines.set(i, s);
        proof {
            assert(line_texts(self.lines@) =~= old(self)@.lines.update(i as int, chars@));
        }
    }

    /// Deletes the selection, if any; whether there was one.
    fn delete_selection(&mut self) -> (deleted: bool)
        requires
            old(self).wf(),
            selection_deletable(old(self)@),
        ensures
            final(self).wf(),
            final(self)@ == without_selection(old(self)@),
            deleted == old(self)@.selection is Some,
            final(self).spec_modified() == (old(self).spec_modified() || deleted),
            final(self).spec_path() == old(self).spec_path(),
    {
        let (a, b) = match self.selection {
            None => {
                return false;
            },
            Some(p) => p,
        };
        let ghost m = self@;
        let (s, e) = order(a, b);
        proof {
            assert(self.lines@.len() == m.lines.len());
            assert(valid_pos(m.lines, s) && valid_pos(m.lines, e));
        }
        let first = str_to_chars(self.lines[s.line].as_str());
        let last = str_to_chars(self.lines[e.line].as_str());
        proof {
            assert(first@ == m.lines[s.line as int]);
            assert(last@ == m.lines[e.line as int]);
        }
        let ks = match index_at_byte(first.as_slice(), s.col) {
            Some(k) => k,
            None => {
                return false;
            },
        };
        let ke = match index_at_byte(last.as_slice(), e.col) {
            Some(k) => k,
            None => {
                return false;
            },
        };
        proof {
            lemma_char_index(first@, s.col as int);
            lemma_char_index(last@, e.col as int);
        }
        let empty: Vec<char> = Vec::new();
        let kept = splice(first.as_slice(), ks, empty.as_slice(), last.as_slice(), ke);
        proof {
            assert(first@.take(ks as int) + empty@ =~= first@.take(ks as int));
        }
        let n = self.lines.len();
        proof {
            assert(e.line < n);
        }
        let mut tail = self.lines.split_off(e.line + 1);
        self.lines.truncate(s.line + 1);
        self.lines.append(&mut tail);
        proof {
            assert(line_texts(self.lines@) =~= m.lines.take(s.line + 1) + m.lines.skip(e.line + 1));
        }
        self.set_line(s.line, kept.as_slice());
        self.cursor = s;
        self.selection = None;
        self.modified = true;
        proof {
            let kept_line = kept@;
            assert(self@.lines =~= replace_lines(m.lines, s.line as int, e.line as int, kept_line));
            lemma_byte_len_concat(first@.take(ks as int), last@.skip(ke as int));
            assert forall|i: int| 0 <= i < self@.lines.len() implies byte_len(#[trigger] self@.lines[i]) <= usize::MAX by {
                if i > s.line {
                    assert(self@.lines[i] == m.lines[i + (e.line - s.line)]);
                } else if i < s.line {
                    assert(self@.lines[i] == m.lines[i]);
                }
            }
        }
        true
    }
}

impl Default for EditorState {
    fn default() -> (e: Self)
        ensures
            e.wf(),
            e@ == (EditorModel { lines: seq![Seq::<char>::empty()], cursor: Position { line: 0, col: 0 }, selection: None }),
            !e.spec_modified(),
            e.spec_path() is None,
    {
        Self::new()
    }
}

} // verus!
