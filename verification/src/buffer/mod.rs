//! A text buffer backed by a rope, with line/column positions.

pub mod line_ending;
pub mod lines;
pub mod position;

pub use line_ending::{
    count_lines, detect_line_ending, detect_line_ending_with_stats, normalize_line_endings,
    split_lines_with_endings, LineEnding, LineEndingStats,
};
pub use position::{Position, Range};

use vstd::prelude::*;
use ropey::Rope;
use std::path::PathBuf;
use crate::buffer::lines::{
    line_char, line_count, line_length, line_of, line_text, lemma_line_bounds,
    lemma_line_of_start, lemma_line_start_count, lemma_line_of_end, lemma_line_of_within,
    lemma_line_start_at_least,
};
use crate::buffer::line_ending::{detected_ending, ending_chars, normalized_from};
use crate::buffer::position::{pos_le, pos_lt};
use crate::text::str_to_chars;

verus! {

#[verifier::external_type_specification]
#[verifier::external_body]
pub struct ExRope(ropey::Rope);

#[verifier::external_type_specification]
#[verifier::external_body]
pub struct ExPathBuf(std::path::PathBuf);

#[verifier::external_type_specification]
#[verifier::external_body]
pub struct ExIoError(std::io::Error);

/// `PathBuf::clone`. Nothing is stated: a path is opaque here.
pub assume_specification[<std::path::PathBuf as std::clone::Clone>::clone](p: &PathBuf) -> PathBuf;

#[verifier::external_type_specification]
#[verifier::external_body]
pub struct ExFromUtf8Error(std::string::FromUtf8Error);

/// The characters a rope holds.
pub uninterp spec fn rope_text(r: Rope) -> Seq<char>;

/// `Rope::new`: an empty rope.
#[verifier::external_body]
fn rope_new() -> (r: Rope)
    ensures
        rope_text(r) == Seq::<char>::empty(),
{
    Rope::new()
}

/// `Rope::from_str`: a rope holding the characters of `s`.
#[verifier::external_body]
fn rope_from_str(s: &str) -> (r: Rope)
    ensures
        rope_text(r) == s@,
{
    Rope::from_str(s)
}

/// `Rope::len_chars`: the number of characters.
#[verifier::external_body]
fn rope_len_chars(r: &Rope) -> (n: usize)
    ensures
        n == rope_text(*r).len(),
{
    r.len_chars()
}

/// `Rope::len_bytes`: the length of the UTF-8 encoding.
#[verifier::external_body]
fn rope_len_bytes(r: &Rope) -> (n: usize)
    ensures
        n == vstd::utf8::encode_utf8(rope_text(*r)).len(),
{
    r.len_bytes()
}

/// `Rope::len_lines`: the number of lines (one more than the line breaks).
#[verifier::external_body]
fn rope_len_lines(r: &Rope) -> (n: usize)
    ensures
        n == line_count(rope_text(*r)),
{
    r.len_lines()
}

/// `Rope::line_to_char`: the character index where a line starts; for the
/// one-past-the-last line, the length of the text.
#[verifier::external_body]
fn rope_line_to_char(r: &Rope, line: usize) -> (n: usize)
    requires
        line <= line_count(rope_text(*r)),
    ensures
        n == line_char(rope_text(*r), line as nat),
{
    r.line_to_char(line)
}

/// `Rope::char_to_line`: the line containing a character index (the last
/// line for the one-past-the-end index).
#[verifier::external_body]
fn rope_char_to_line(r: &Rope, off: usize) -> (n: usize)
    requires
        off <= rope_text(*r).len(),
    ensures
        n == line_of(rope_text(*r), off as int),
{
    r.char_to_line(off)
}

/// `Rope::get_char`: the character at an index, if any.
#[verifier::external_body]
fn rope_get_char(r: &Rope, idx: usize) -> (c: Option<char>)
    ensures
        idx < rope_text(*r).len() ==> c == Some(rope_text(*r)[idx as int]),
        idx >= rope_text(*r).len() ==> c is None,
{
    r.get_char(idx)
}

/// `Rope::insert`: inserts text at a character index.
#[verifier::external_body]
fn rope_insert(r: &mut Rope, idx: usize, s: &str)
    requires
        idx <= rope_text(*old(r)).len(),
    ensures
        rope_text(*final(r)) == rope_text(*old(r)).take(idx as int) + s@ + rope_text(
            *old(r),
        ).skip(idx as int),
{
    r.insert(idx, s)
}

/// `Rope::remove`: removes the characters in `start..end`.
#[verifier::external_body]
fn rope_remove(r: &mut Rope, start: usize, end: usize)
    requires
        start <= end <= rope_text(*old(r)).len(),
    ensures
        rope_text(*final(r)) == rope_text(*old(r)).take(start as int) + rope_text(*old(r)).skip(
            end as int,
        ),
{
    r.remove(start..end)
}

/// `Rope::slice` then `to_string`: the characters in `start..end`.
#[verifier::external_body]
fn rope_slice_string(r: &Rope, start: usize, end: usize) -> (s: String)
    requires
        start <= end <= rope_text(*r).len(),
    ensures
        s@ == rope_text(*r).subrange(start as int, end as int),
{
    r.slice(start..end).to_string()
}

/// `Rope::to_string`: all the characters.
#[verifier::external_body]
fn rope_to_string(r: &Rope) -> (s: String)
    ensures
        s@ == rope_text(*r),
{
    r.to_string()
}

/// `RandomState::new`: a hasher state with random keys. Nothing is stated
/// of it.
#[verifier::external_body]
fn random_state() -> std::collections::hash_map::RandomState {
    std::collections::hash_map::RandomState::new()
}

/// `BuildHasher::hash_one` of a value with a hasher state. Nothing is
/// stated of the hash: it depends on the state's random keys.
#[verifier::external_body]
fn hash_with(state: &std::collections::hash_map::RandomState) -> u64 {
    std::hash::BuildHasher::hash_one(state, 0u8)
}

/// A fresh identifier, drawn from a newly seeded hasher. Nothing is known
/// of its value: distinct calls give distinct values with overwhelming
/// probability, not with certainty.
fn fresh_id() -> u64 {
    let state = random_state();
    hash_with(&state)
}

/// Errors of buffer operations.
#[derive(Debug)]
pub enum BufferError {
    /// A position that does not lie in the buffer.
    InvalidPosition(Position),
    /// A range whose ends do not lie in the buffer in order.
    InvalidRange(Range),
    /// An I/O error.
    Io(std::io::Error),
    /// A UTF-8 decoding error.
    Utf8(std::string::FromUtf8Error),
}

/// Unique identifier for a buffer.
#[derive(Debug, Clone, Copy, PartialEq, Eq, Structural, Hash)]
pub struct BufferId(pub u64);

impl BufferId {
    fn new() -> Self {
        BufferId(fresh_id())
    }
}

/// The character offset of a position, if it lies in the text: its line
/// must exist and its column be at most the line's length (line break
/// included).
pub open spec fn pos_offset(t: Seq<char>, pos: Position) -> Option<int> {
    if pos.line < line_count(t) && pos.column <= line_length(t, pos.line as nat) {
        Some(line_char(t, pos.line as nat) + pos.column)
    } else {
        None
    }
}

/// The column of the end of a line's content: its length in UTF-8 bytes
/// once trailing `\n` and `\r` characters are removed.
pub open spec fn content_byte_len(line: Seq<char>) -> nat
    decreases line.len(),
{
    if line.len() > 0 && (line.last() == '\n' || line.last() == '\r') {
        content_byte_len(line.drop_last())
    } else {
        vstd::utf8::encode_utf8(line).len()
    }
}

/// The result is the error for an invalid position `p`.
pub open spec fn err_invalid_position<T>(r: Result<T, BufferError>, p: Position) -> bool {
    match r {
        Err(BufferError::InvalidPosition(q)) => q == p,
        _ => false,
    }
}

/// The result is the error for an invalid range `rr`.
pub open spec fn err_invalid_range<T>(r: Result<T, BufferError>, rr: Range) -> bool {
    match r {
        Err(BufferError::InvalidRange(q)) => q == rr,
        _ => false,
    }
}

/// A character offset within the text lies on an existing line, and its
/// line and its column in that line make a position that stands for the
/// offset again.
pub proof fn lemma_offset_pos_offset(t: Seq<char>, off: int)
    requires
        0 <= off <= t.len(),
        t.len() < usize::MAX,
    ensures
        ({
            let l = line_of(t, off);
            &&& l < line_count(t)
            &&& line_char(t, l) <= off
            &&& pos_offset(t, Position { line: l as usize, column: (off - line_char(t, l)) as usize })
                == Some(off)
        }),
{
    let l = line_of(t, off);
    lemma_line_of_start(t, 0, off);
    lemma_line_of_end(t, 0, off);
    lemma_line_bounds(t, l);
    lemma_line_start_at_least(t, 0, l);
}

/// A position inside a line (before the end of its line break, or anywhere
/// on the last line) stands for an offset whose line and column are the
/// position again.
pub proof fn lemma_pos_offset_pos(t: Seq<char>, p: Position)
    requires
        pos_offset(t, p) is Some,
        p.line + 1 == line_count(t) || p.column < line_length(t, p.line as nat),
    ensures
        line_of(t, pos_offset(t, p)->0) == p.line,
        pos_offset(t, p)->0 - line_char(t, p.line as nat) == p.column,
{
    let k = p.line as nat;
    let off = pos_offset(t, p)->0;
    lemma_line_bounds(t, k);
    lemma_line_start_count(t, 0, k + 1);
    lemma_line_of_within(t, k, off);
}

/// A text buffer backed by a rope.
pub struct Buffer {
    rope: Rope,
    id: BufferId,
    path: Option<PathBuf>,
    line_ending: LineEnding,
    modified: bool,
    version: u64,
}

impl View for Buffer {
    type V = Seq<char>;

    closed spec fn view(&self) -> Seq<char> {
        rope_text(self.rope)
    }
}

impl Buffer {
    /// Whether the buffer has been modified since creation or the last
    /// [`Buffer::clear_modified`].
    pub closed spec fn spec_modified(&self) -> bool {
        self.modified
    }

    /// The version counter.
    pub closed spec fn spec_version(&self) -> u64 {
        self.version
    }

    /// The line ending style.
    pub closed spec fn spec_line_ending(&self) -> LineEnding {
        self.line_ending
    }

    /// The associated file path.
    pub closed spec fn spec_path(&self) -> Option<PathBuf> {
        self.path
    }

    /// The identifier.
    pub closed spec fn spec_id(&self) -> BufferId {
        self.id
    }

    /// A new empty buffer with the native line ending.
    pub fn new() -> (b: Self)
        ensures
            b@ == Seq::<char>::empty(),
            !b.spec_modified(),
            b.spec_version() == 0,
            b.spec_line_ending() == LineEnding::Lf,
            b.spec_path() is None,
    {
        Self {
            rope: rope_new(),
            id: BufferId::new(),
            path: None,
            line_ending: LineEnding::native(),
            modified: false,
            version: 0,
        }
    }

    /// A buffer holding `text`, with the line ending detected from it.
    pub fn from_str(text: &str) -> (b: Self)
        ensures
            b@ == text@,
            !b.spec_modified(),
            b.spec_version() == 0,
            b.spec_line_ending() == detected_ending(text@),
            b.spec_path() is None,
    {
        let line_ending = detect_line_ending(text);
        Self {
            rope: rope_from_str(text),
            id: BufferId::new(),
            path: None,
            line_ending,
            modified: false,
            version: 0,
        }
    }

    /// The buffer's identifier.
    pub fn id(&self) -> (i: BufferId)
        ensures
            i == self.spec_id(),
    {
        self.id
    }

    /// The version counter, advanced by each modification.
    pub fn version(&self) -> (v: u64)
        ensures
            v == self.spec_version(),
    {
        self.version
    }

    /// The number of lines (an empty buffer has one).
    pub fn line_count(&self) -> (n: usize)
        ensures
            n == line_count(self@),
    {
        rope_len_lines(&self.rope)
    }

    /// The number of characters.
    pub fn len_chars(&self) -> (n: usize)
        ensures
            n == self@.len(),
    {
        rope_len_chars(&self.rope)
    }

    /// The number of bytes of the UTF-8 encoding.
    pub fn len_bytes(&self) -> (n: usize)
        ensures
            n == vstd::utf8::encode_utf8(self@).len(),
    {
        rope_len_bytes(&self.rope)
    }

    /// Whether the buffer holds no characters.
    pub fn is_empty(&self) -> (b: bool)
        ensures
            b == (self@.len() == 0),
    {
        rope_len_chars(&self.rope) == 0
    }

    /// The text of a line, its line break included; `None` past the last line.
    pub fn line(&self, line_idx: usize) -> (r: Option<String>)
        ensures
            line_idx < line_count(self@) ==> r is Some && r->0@ == line_text(self@, line_idx as nat),
            line_idx >= line_count(self@) ==> r is None,
    {
        if line_idx >= self.line_count() {
            return None;
        }
        proof {
            lemma_line_bounds(self@, line_idx as nat);
        }
        let start = rope_line_to_char(&self.rope, line_idx);
        let end = rope_line_to_char(&self.rope, line_idx + 1);
        Some(rope_slice_string(&self.rope, start, end))
    }

    /// The length of a line in characters, its line break included.
    pub fn line_len(&self, line_idx: usize) -> (r: Option<usize>)
        ensures
            line_idx < line_count(self@) ==> r is Some && r->0 == line_length(self@, line_idx as nat),
            line_idx < line_count(self@) ==> line_length(self@, line_idx as nat) >= 0,
            line_idx >= line_count(self@) ==> r is None,
    {
        if line_idx >= self.line_count() {
            return None;
        }
        proof {
            lemma_line_bounds(self@, line_idx as nat);
        }
        let start = rope_line_to_char(&self.rope, line_idx);
        let end = rope_line_to_char(&self.rope, line_idx + 1);
        Some(end - start)
    }

    /// The character offset of a position.
    pub fn pos_to_offset(&self, pos: Position) -> (r: Result<usize, BufferError>)
        ensures
            pos_offset(self@, pos) is Some ==> r is Ok && r->Ok_0 == pos_offset(self@, pos)->0,
            pos_offset(self@, pos) is None ==> err_invalid_position(r, pos),
            r is Ok ==> r->Ok_0 <= self@.len(),
    {
        if pos.line >= self.line_count() {
            return Err(BufferError::InvalidPosition(pos));
        }
        proof {
            lemma_line_bounds(self@, pos.line as nat);
        }
        let line_start = rope_line_to_char(&self.rope, pos.line);
        let line_end = rope_line_to_char(&self.rope, pos.line + 1);
        let line_len = line_end - line_start;
        if pos.column > line_len {
            return Err(BufferError::InvalidPosition(pos));
        }
        Ok(line_start + pos.column)
    }

    /// The position of a character offset: its line and the column within it.
    pub fn offset_to_pos(&self, offset: usize) -> (r: Result<Position, BufferError>)
        ensures
            offset <= self@.len() ==> r is Ok && r->Ok_0.line == line_of(self@, offset as int)
                && r->Ok_0.column == offset - line_char(self@, r->Ok_0.line as nat),
            offset > self@.len() ==> err_invalid_position(r, Position { line: 0, column: offset }),
    {
        if offset > self.len_chars() {
            return Err(BufferError::InvalidPosition(Position::new(0, offset)));
        }
        let line = rope_char_to_line(&self.rope, offset);
        proof {
            lemma_line_of_start(self@, 0, offset as int);
            lemma_line_bounds(self@, line as nat);
        }
        let line_start = rope_line_to_char(&self.rope, line);
        Ok(Position::new(line, offset - line_start))
    }

    /// Whether a position lies in the buffer.
    pub fn is_valid_position(&self, pos: Position) -> (b: bool)
        ensures
            b == (pos_offset(self@, pos) is Some),
    {
        self.pos_to_offset(pos).is_ok()
    }

    /// The character at a position, if the position lies before the end.
    pub fn char_at(&self, pos: Position) -> (c: Option<char>)
        ensures
            (pos_offset(self@, pos) is Some && pos_offset(self@, pos)->0 < self@.len()) ==> c
                == Some(self@[pos_offset(self@, pos)->0]),
            !(pos_offset(self@, pos) is Some && pos_offset(self@, pos)->0 < self@.len()) ==> c
                is None,
    {
        match self.pos_to_offset(pos) {
            Ok(offset) => rope_get_char(&self.rope, offset),
            Err(_) => None,
        }
    }

    /// Inserts text at a position; fails when the position is invalid.
    pub fn insert(&mut self, pos: Position, text: &str) -> (r: Result<(), BufferError>)
        ensures
            pos_offset(old(self)@, pos) is Some ==> r is Ok && final(self)@ == old(self)@.take(
                pos_offset(old(self)@, pos)->0,
            ) + text@ + old(self)@.skip(pos_offset(old(self)@, pos)->0) && final(self).spec_modified() && final(self).spec_version() == old(self).spec_version().wrapping_add(1),
            pos_offset(old(self)@, pos) is None ==> err_invalid_position(r, pos) && *final(self) == *old(self),
            final(self).spec_line_ending() == old(self).spec_line_ending(),
            final(self).spec_path() == old(self).spec_path(),
            final(self).spec_id() == old(self).spec_id(),
    {
        let offset = match self.pos_to_offset(pos) {
            Ok(o) => o,
            Err(e) => return Err(e),
        };
        rope_insert(&mut self.rope, offset, text);
        self.modified = true;
        self.version = self.version.wrapping_add(1);
        Ok(())
    }

    /// Deletes the text between two positions and returns it; fails when an
    /// end is invalid or the ends are out of order.
    pub fn delete(&mut self, range: Range) -> (r: Result<String, BufferError>)
        ensures
            ({
                let s = pos_offset(old(self)@, range.start);
                let e = pos_offset(old(self)@, range.end);
                &&& s is None ==> err_invalid_position(r, range.start)
                &&& s is Some && e is None ==> err_invalid_position(r, range.end)
                &&& s is Some && e is Some && s->0 > e->0 ==> err_invalid_range(r, range)
                &&& s is Some && e is Some && s->0 <= e->0 ==> r is Ok && r->Ok_0@ == old(self)@.subrange(s->0, e->0) && final(self)@ == old(self)@.take(s->0) + old(self)@.skip(e->0) && final(self).spec_modified() && final(self).spec_version()
                    == old(self).spec_version().wrapping_add(1)
                &&& r is Err ==> *final(self) == *old(self)
            }),
            final(self).spec_line_ending() == old(self).spec_line_ending(),
            final(self).spec_path() == old(self).spec_path(),
            final(self).spec_id() == old(self).spec_id(),
    {
        let start_offset = match self.pos_to_offset(range.start) {
            Ok(o) => o,
            Err(e) => return Err(e),
        };
        let end_offset = match self.pos_to_offset(range.end) {
            Ok(o) => o,
            Err(e) => return Err(e),
        };
        if start_offset > end_offset {
            return Err(BufferError::InvalidRange(range));
        }
        let deleted = rope_slice_string(&self.rope, start_offset, end_offset);
        rope_remove(&mut self.rope, start_offset, end_offset);
        self.modified = true;
        self.version = self.version.wrapping_add(1);
        Ok(deleted)
    }

    /// Replaces the text of a range: deletes it, then inserts `text` where
    /// `range.start` lies in the shortened text. Returns the deleted text.
    pub fn replace(&mut self, range: Range, text: &str) -> (r: Result<String, BufferError>)
        ensures
            ({
                let s = pos_offset(old(self)@, range.start);
                let e = pos_offset(old(self)@, range.end);
                let t1 = old(self)@.take(s->0) + old(self)@.skip(e->0);
                let o = pos_offset(t1, range.start);
                &&& !(s is Some && e is Some && s->0 <= e->0) ==> r is Err && *final(self)
                    == *old(self)
                &&& s is Some && e is Some && s->0 <= e->0 && o is Some ==> r is Ok && r->Ok_0@
                    == old(self)@.subrange(s->0, e->0) && final(self)@ == t1.take(o->0) + text@
                    + t1.skip(o->0)
                &&& s is Some && e is Some && s->0 <= e->0 && o is None ==> err_invalid_position(r, range.start) && final(self)@ == t1
            }),
            final(self).spec_line_ending() == old(self).spec_line_ending(),
            final(self).spec_path() == old(self).spec_path(),
    {
        let deleted = match self.delete(range) {
            Ok(d) => d,
            Err(e) => return Err(e),
        };
        match self.insert(range.start, text) {
            Ok(()) => {},
            Err(e) => return Err(e),
        }
        Ok(deleted)
    }

    /// The text between two positions; fails when an end is invalid or the
    /// ends are out of order.
    pub fn slice(&self, range: Range) -> (r: Result<String, BufferError>)
        ensures
            ({
                let s = pos_offset(self@, range.start);
                let e = pos_offset(self@, range.end);
                &&& s is None ==> err_invalid_position(r, range.start)
                &&& s is Some && e is None ==> err_invalid_position(r, range.end)
                &&& s is Some && e is Some && s->0 > e->0 ==> err_invalid_range(r, range)
                &&& s is Some && e is Some && s->0 <= e->0 ==> r is Ok && r->Ok_0@ == self@.subrange(
                    s->0,
                    e->0,
                )
            }),
    {
        let start_offset = match self.pos_to_offset(range.start) {
            Ok(o) => o,
            Err(e) => return Err(e),
        };
        let end_offset = match self.pos_to_offset(range.end) {
            Ok(o) => o,
            Err(e) => return Err(e),
        };
        if start_offset > end_offset {
            return Err(BufferError::InvalidRange(range));
        }
        Ok(rope_slice_string(&self.rope, start_offset, end_offset))
    }

    /// The position clamped into the buffer: the line to the last line, the
    /// column to the end of that line's content (line break excluded,
    /// measured in UTF-8 bytes); the origin for an empty buffer.
    pub fn clamp_position(&self, pos: Position) -> (p: Position)
        ensures
            self@.len() == 0 ==> (p == Position { line: 0, column: 0 }),
            self@.len() > 0 ==> ({
                let line = if pos.line < line_count(self@) { pos.line as nat } else { (line_count(
                    self@,
                ) - 1) as nat };
                &&& p.line == line
                &&& p.column == (if pos.column <= content_byte_len(line_text(self@, line)) as usize {
                    pos.column
                } else {
                    content_byte_len(line_text(self@, line)) as usize
                })
            }),
    {
        if self.is_empty() {
            return Position::zero();
        }
        let count = self.line_count();
        proof {
            lemma_line_start_count(self@, 0, 0);
        }
        let line = if pos.line < count { pos.line } else { count - 1 };
        let text = match self.line(line) {
            Some(t) => t,
            None => String::new(),
        };
        let content = content_len(&text);
        let column = if pos.column <= content { pos.column } else { content };
        Position::new(line, column)
    }

    /// All the text.
    pub fn to_string(&self) -> (s: String)
        ensures
            s@ == self@,
    {
        rope_to_string(&self.rope)
    }

    /// Whether the buffer was modified.
    pub fn is_modified(&self) -> (b: bool)
        ensures
            b == self.spec_modified(),
    {
        self.modified
    }

    /// Marks the buffer as unmodified.
    pub fn clear_modified(&mut self)
        ensures
            !final(self).spec_modified(),
            final(self)@ == old(self)@,
            final(self).spec_version() == old(self).spec_version(),
            final(self).spec_line_ending() == old(self).spec_line_ending(),
            final(self).spec_path() == old(self).spec_path(),
            final(self).spec_id() == old(self).spec_id(),
    {
        self.modified = false;
    }

    /// The associated file path, if any.
    pub fn path(&self) -> (p: Option<&PathBuf>)
        ensures
            p is Some <==> self.spec_path() is Some,
            p is Some ==> *p->0 == self.spec_path()->0,
    {
        self.path.as_ref()
    }

    /// Sets the associated file path.
    pub fn set_path(&mut self, path: Option<PathBuf>)
        ensures
            final(self).spec_path() == path,
            final(self)@ == old(self)@,
            final(self).spec_modified() == old(self).spec_modified(),
            final(self).spec_version() == old(self).spec_version(),
            final(self).spec_line_ending() == old(self).spec_line_ending(),
            final(self).spec_id() == old(self).spec_id(),
    {
        self.path = path;
    }

    /// The line ending style.
    pub fn line_ending(&self) -> (e: LineEnding)
        ensures
            e == self.spec_line_ending(),
    {
        self.line_ending
    }

    /// Sets the line ending style without converting the text.
    pub fn set_line_ending(&mut self, line_ending: LineEnding)
        ensures
            final(self).spec_line_ending() == line_ending,
            final(self)@ == old(self)@,
            final(self).spec_modified() == old(self).spec_modified(),
            final(self).spec_version() == old(self).spec_version(),
            final(self).spec_path() == old(self).spec_path(),
            final(self).spec_id() == old(self).spec_id(),
    {
        self.line_ending = line_ending;
    }

    /// Converts every line ending of the text to `target` and makes it the
    /// buffer's style; nothing happens when that changes neither the text
    /// nor the style.
    pub fn normalize_to_line_ending(&mut self, target: LineEnding)
        ensures
            ({
                let n = normalized_from(old(self)@, 0, ending_chars(target));
                &&& (old(self).spec_line_ending() == target && n == old(self)@) ==> *final(self) == *old(self)
                &&& !(old(self).spec_line_ending() == target && n == old(self)@) ==> final(self)@ == n
                    && final(self).spec_line_ending() == target && final(self).spec_modified()
                    && final(self).spec_version() == old(self).spec_version().wrapping_add(1)
                    && final(self).spec_path() == old(self).spec_path()
            }),
    {
        let text = self.to_string();
        let normalized = normalize_line_endings(text.as_str(), target);
        if self.line_ending == target && crate::text::str_eq(normalized.as_str(), text.as_str()) {
            return;
        }
        self.rope = rope_from_str(normalized.as_str());
        self.line_ending = target;
        self.version = self.version.wrapping_add(1);
        self.modified = true;
    }

    /// The lines, each with its line break.
    pub fn lines(&self) -> (v: Vec<String>)
        ensures
            v@.len() == line_count(self@),
            forall|i: int| 0 <= i < v@.len() ==> #[trigger] v@[i]@ == line_text(self@, i as nat),
    {
        let n = self.line_count();
        let mut v: Vec<String> = Vec::new();
        let mut i: usize = 0;
        while i < n
            invariant
                i <= n,
                n == line_count(self@),
                v@.len() == i,
                forall|j: int| 0 <= j < i ==> #[trigger] v@[j]@ == line_text(self@, j as nat),
            decreases n - i,
        {
            let l = self.line(i);
            match l {
                Some(s) => v.push(s),
                None => v.push(String::new()),
            }
            i = i + 1;
        }
        v
    }

    /// The characters.
    pub fn chars(&self) -> (v: Vec<char>)
        ensures
            v@ == self@,
    {
        let s = self.to_string();
        str_to_chars(s.as_str())
    }

    /// The characters between two positions; fails when an end is invalid.
    pub fn chars_in_range(&self, range: Range) -> (r: Result<Vec<char>, BufferError>)
        ensures
            ({
                let s = pos_offset(self@, range.start);
                let e = pos_offset(self@, range.end);
                &&& s is Some && e is Some && s->0 <= e->0 ==> r is Ok && r->Ok_0@
                    == self@.subrange(s->0, e->0)
                &&& !(s is Some && e is Some && s->0 <= e->0) ==> r is Err
            }),
    {
        match self.slice(range) {
            Ok(s) => Ok(str_to_chars(s.as_str())),
            Err(e) => Err(e),
        }
    }

    /// Removes all text.
    pub fn clear(&mut self)
        ensures
            final(self)@ == Seq::<char>::empty(),
            final(self).spec_modified(),
            final(self).spec_version() == old(self).spec_version().wrapping_add(1),
            final(self).spec_line_ending() == old(self).spec_line_ending(),
            final(self).spec_path() == old(self).spec_path(),
            final(self).spec_id() == old(self).spec_id(),
    {
        self.rope = rope_new();
        self.version = self.version.wrapping_add(1);
        self.modified = true;
    }
}

/// The UTF-8 length of a line once trailing `\n` and `\r` are removed.
fn content_len(line: &String) -> (n: usize)
    ensures
        n == content_byte_len(line@) as usize,
{
    let chars = str_to_chars(line.as_str());
    let mut end = chars.len();
    proof {
        assert(chars@.take(end as int) == chars@);
    }
    while end > 0 && (chars[end - 1] == '\n' || chars[end - 1] == '\r')
        invariant
            end <= chars.len(),
            content_byte_len(chars@.take(end as int)) == content_byte_len(chars@),
        decreases end,
    {
        proof {
            assert(chars@.take(end as int).drop_last() == chars@.take(end - 1));
        }
        end = end - 1;
    }
    let trimmed = crate::text::chars_to_string(&chars.as_slice()[0..end]);
    let ts = trimmed.as_str();
    let n = ts.len();
    proof {
        assert(chars@.take(end as int) == trimmed@);
        assert(chars@ == line@);
        assert(n == vstd::utf8::encode_utf8(ts@).len() as usize);
        if end > 0 {
            assert(trimmed@.last() == chars@[end - 1]);
        }
        assert(content_byte_len(trimmed@) == vstd::utf8::encode_utf8(trimmed@).len());
    }
    n
}

} // verus!
