//! Documents: a buffer with selections and undo history.

pub mod selection;

pub use selection::{Selection, Selections};

use vstd::prelude::*;
use std::path::PathBuf;
use crate::buffer::{Buffer, BufferError, BufferId, LineEnding, Position, Range};
use crate::buffer::line_ending::ending_chars;
use crate::text::{chars_to_string, ends_with, split_chars, split_on, str_to_chars, trailing_ws_count, trim_end, lemma_trailing_ws_bound};
use crate::buffer::lines::{
    is_break_char, line_text, lemma_insert_within_line, lemma_line_bounds, lemma_line_of_within,
    lemma_line_start_bounded, lemma_line_start_step, lemma_next_line_start, lemma_next_line_start_ends, line_char, line_count,
    line_length, line_of, line_start,
};
use crate::document::selection::insert_by_start;
use crate::undo::{apply_edits, edit_effect, inverse_edit, same_history, undo_edits, UndoGroup};
use crate::buffer::position::saturating_offset;
use crate::buffer::pos_offset;
use crate::document::selection::{sort_by_start, stable_sort_by_start};
use crate::document::selection::sel_range;
use crate::undo::{
    Edit, UndoStack, history_invertible, invertible, lemma_push_results_step, push_result,
    push_results, redo_outcome, undo_outcome,
};

verus! {

/// Errors of document operations.
#[derive(Debug)]
pub enum DocumentError {
    /// A buffer operation failed.
    Buffer(BufferError),
    /// Reading or writing the file failed.
    Io(std::io::Error),
    /// The document has no file path.
    NoPath,
    /// The document has unsaved changes.
    UnsavedChanges,
}

/// Per-document settings.
#[derive(Debug, Clone)]
pub struct DocumentSettings {
    /// Number of spaces per tab
    pub tab_width: usize,
    /// Use spaces instead of tabs
    pub use_spaces: bool,
    /// Auto-detect indentation from content
    pub auto_indent: bool,
    /// Show line numbers in the gutter
    pub show_line_numbers: bool,
    /// Highlight the current line
    pub highlight_current_line: bool,
    /// Column of the line length guide (`None`: no guide)
    pub line_length_guide: Option<usize>,
    /// Trim trailing whitespace on save
    pub trim_trailing_whitespace: bool,
    /// Ensure a line ending at the end of the file on save
    pub ensure_final_newline: bool,
}

/// The default settings.
pub open spec fn default_settings(s: DocumentSettings) -> bool {
    &&& s.tab_width == 4
    &&& s.use_spaces
    &&& s.auto_indent
    &&& s.show_line_numbers
    &&& s.highlight_current_line
    &&& s.line_length_guide == Some(80usize)
    &&& !s.trim_trailing_whitespace
    &&& s.ensure_final_newline
}

impl Default for DocumentSettings {
    fn default() -> (s: Self)
        ensures
            default_settings(s),
    {
        Self {
            tab_width: 4,
            use_spaces: true,
            auto_indent: true,
            show_line_numbers: true,
            highlight_current_line: true,
            line_length_guide: Some(80),
            trim_trailing_whitespace: false,
            ensure_final_newline: true,
        }
    }
}

/// Cursor movements.
#[derive(Debug, Clone, Copy, PartialEq, Eq, Structural)]
pub enum Movement {
    /// Left by one character
    Left,
    /// Right by one character
    Right,
    /// Up by one line
    Up,
    /// Down by one line
    Down,
    /// To the start of the line
    LineStart,
    /// To the end of the line
    LineEnd,
    /// Left by one word
    WordLeft,
    /// Right by one word
    WordRight,
    /// To the start of the document
    DocumentStart,
    /// To the end of the document
    DocumentEnd,
    /// Up one page
    PageUp,
    /// Down one page
    PageDown,
}

/// The length of line `l` (its line break included), or 0 past the last line.
pub open spec fn line_len_or_zero(t: Seq<char>, l: int) -> int {
    if 0 <= l < line_count(t) {
        line_length(t, l as nat)
    } else {
        0
    }
}

/// The length of a line's content: the line without its line break (a
/// CRLF pair counts as one break).
pub open spec fn content_len(line: Seq<char>) -> int {
    if line.len() >= 2 && line[line.len() - 2] == '\r' && line.last() == '\n' {
        line.len() - 2
    } else if line.len() >= 1 && is_break_char(line.last()) {
        line.len() - 1
    } else {
        line.len() as int
    }
}

/// The column of the end of line `l`: just after its last character
/// before the line break (0 past the last line).
pub open spec fn line_end_column(t: Seq<char>, l: int) -> int {
    if 0 <= l < line_count(t) {
        content_len(line_text(t, l as nat))
    } else {
        0
    }
}

/// `x - 1`, but 0 for 0.
pub open spec fn minus_one(x: int) -> int {
    if x > 0 {
        x - 1
    } else {
        0
    }
}

/// Where a movement takes a position in text `t`. Columns count
/// characters. Moving left or right treats a line's last column as one
/// before its length, the line break included; the end of a line (and of
/// the document) is just after the line's content, before its line break.
/// Word movements move by one column; page movements by 20 lines.
pub open spec fn movement_target(t: Seq<char>, pos: Position, m: Movement) -> Position {
    match m {
        Movement::Left => if pos.column > 0 {
            Position { line: pos.line, column: (pos.column - 1) as usize }
        } else if pos.line > 0 {
            Position {
                line: (pos.line - 1) as usize,
                column: minus_one(line_len_or_zero(t, pos.line - 1)) as usize,
            }
        } else {
            pos
        },
        Movement::Right => if pos.column < minus_one(line_len_or_zero(t, pos.line as int)) {
            Position { line: pos.line, column: (pos.column + 1) as usize }
        } else if pos.line < minus_one(line_count(t) as int) {
            Position { line: (pos.line + 1) as usize, column: 0 }
        } else {
            pos
        },
        Movement::Up => if pos.line > 0 {
            Position { line: (pos.line - 1) as usize, column: pos.column }
        } else {
            pos
        },
        Movement::Down => if pos.line < minus_one(line_count(t) as int) {
            Position { line: (pos.line + 1) as usize, column: pos.column }
        } else {
            pos
        },
        Movement::LineStart => Position { line: pos.line, column: 0 },
        Movement::LineEnd => Position { line: pos.line, column: line_end_column(t, pos.line as int) as usize },
        Movement::DocumentStart => Position { line: 0, column: 0 },
        Movement::DocumentEnd => {
            let last = minus_one(line_count(t) as int);
            Position { line: last as usize, column: line_end_column(t, last) as usize }
        },
        Movement::WordLeft => Position { line: pos.line, column: saturating_offset(pos.column, -1isize) },
        Movement::WordRight => Position { line: pos.line, column: saturating_offset(pos.column, 1isize) },
        Movement::PageUp => Position { line: saturating_offset(pos.line, -20isize), column: pos.column },
        Movement::PageDown => Position { line: saturating_offset(pos.line, 20isize), column: pos.column },
    }
}

/// A cursor at the target of a selection's head.
pub open spec fn moved_cursor(t: Seq<char>, s: Selection, m: Movement) -> Selection {
    Selection::spec_new(movement_target(t, s.spec_head(), m), movement_target(t, s.spec_head(), m))
}

/// A selection with its head moved and its anchor kept.
pub open spec fn extended_selection(t: Seq<char>, s: Selection, m: Movement) -> Selection {
    Selection::spec_new(s.spec_anchor(), movement_target(t, s.spec_head(), m))
}

/// The position of character index `o` of a text: its line, and its
/// distance from the line's start.
pub open spec fn offset_position(t: Seq<char>, o: int) -> Position {
    Position { line: line_of(t, o) as usize, column: (o - line_char(t, line_of(t, o))) as usize }
}

/// Inserting `text` at the head of each selection of `ss` in turn, in a
/// text that was `t0` before the first insertion and is `t` now. A head
/// that is no position of `t0` is skipped. Otherwise its index in `t0` is
/// moved right by the length of all that was inserted so far (the heads
/// coming in order, each earlier insertion lies before it) and taken back
/// to a position of `t`; an insertion there is recorded, and made where
/// the position lies in `t`, with a cursor right after the inserted text.
/// The result: the final text, the cursors, and the positions recorded.
pub open spec fn insert_plan(t0: Seq<char>, t: Seq<char>, ss: Seq<Selection>, text: Seq<char>) -> (
    Seq<char>,
    Seq<Selection>,
    Seq<Position>,
)
    decreases ss.len(),
{
    if ss.len() == 0 {
        (t, Seq::empty(), Seq::empty())
    } else {
        match pos_offset(t0, ss[0].spec_head()) {
            None => insert_plan(t0, t, ss.drop_first(), text),
            Some(o0) => {
                let pos = offset_position(t, o0 + (t.len() - t0.len()));
                match pos_offset(t, pos) {
                    Some(o) => {
                        let t2 = t.take(o) + text + t.skip(o);
                        let c = offset_position(t2, o + text.len());
                        let rest = insert_plan(t0, t2, ss.drop_first(), text);
                        (rest.0, seq![Selection::spec_new(c, c)] + rest.1, seq![pos] + rest.2)
                    },
                    None => {
                        let rest = insert_plan(t0, t, ss.drop_first(), text);
                        (rest.0, rest.1, seq![pos] + rest.2)
                    },
                }
            },
        }
    }
}

/// `e` inserts `text` at `p`.
pub open spec fn is_insert_of(e: Edit, p: Position, text: Seq<char>) -> bool {
    match e {
        Edit::Insert { position, text: s } => position == p && s@ == text,
        _ => false,
    }
}

/// The edits insert `text` at the positions, in order.
pub open spec fn inserts_at(es: Seq<Edit>, ps: Seq<Position>, text: Seq<char>) -> bool {
    &&& es.len() == ps.len()
    &&& forall|i: int| 0 <= i < es.len() ==> is_insert_of(#[trigger] es[i], ps[i], text)
}

/// A version counter advanced `k` times, wrapping.
pub open spec fn bumped(v: u64, k: nat) -> u64
    decreases k,
{
    if k == 0 {
        v
    } else {
        bumped(v, (k - 1) as nat).wrapping_add(1)
    }
}

/// What inserting `text` at every cursor does to a document (see
/// [`Document::insert`]): the text and selections follow [`insert_plan`]
/// over the selections ordered by start; the history records an insertion
/// at every position tried, in order; the buffer version advances once per
/// insertion made; nothing else changes.
pub open spec fn insert_outcome(d0: Document, d1: Document, text: Seq<char>) -> bool {
    let sorted = stable_sort_by_start(d0.spec_selections()@.0);
    let plan = insert_plan(d0.spec_text(), d0.spec_text(), sorted, text);
    &&& d1.spec_text() == plan.0
    &&& plan.1.len() > 0 ==> d1.spec_selections()@ == (plan.1, 0nat)
    &&& plan.1.len() == 0 ==> d1.spec_selections() == d0.spec_selections()
    &&& exists|es: Seq<Edit>| #[trigger] inserts_at(es, plan.2, text) && push_results(d0.spec_history(), d1.spec_history(), es, d0.spec_selections()@)
    &&& d1.spec_buffer().spec_version() == bumped(d0.spec_buffer().spec_version(), plan.1.len())
    &&& d1.spec_buffer().spec_modified() == (d0.spec_buffer().spec_modified() || plan.1.len() > 0)
    &&& d1.spec_buffer().spec_line_ending() == d0.spec_buffer().spec_line_ending()
    &&& d1.spec_buffer().spec_path() == d0.spec_buffer().spec_path()
    &&& d1.spec_buffer().spec_id() == d0.spec_buffer().spec_id()
    &&& d1.spec_settings() == d0.spec_settings()
    &&& d1.spec_saved_version() == d0.spec_saved_version()
}

/// The range that deleting at a selection removes: the selection's range
/// when it is not empty; for a cursor, the next character (`backward`:
/// the previous one, or at the start of a line the last character of the
/// line before, its line break; nothing at the origin).
pub open spec fn delete_range(t: Seq<char>, s: Selection, backward: bool) -> Option<Range> {
    let h = s.spec_head();
    if s.spec_anchor() != h {
        Some(sel_range(s))
    } else if !backward {
        Some(Range { start: h, end: Position { line: h.line, column: saturating_offset(h.column, 1isize) } })
    } else if h.column > 0 {
        Some(Range { start: Position { line: h.line, column: (h.column - 1) as usize }, end: h })
    } else if h.line > 0 {
        Some(Range {
            start: Position {
                line: (h.line - 1) as usize,
                column: minus_one(line_len_or_zero(t, h.line - 1)) as usize,
            },
            end: h,
        })
    } else {
        None
    }
}

/// Deleting at each selection of `ss` in turn, starting from text `t`
/// (no adjustment of later selections). The result: the final text, a
/// cursor at the start of each range deleted, and each range deleted with
/// the text it held.
pub open spec fn delete_plan(t: Seq<char>, ss: Seq<Selection>, backward: bool) -> (
    Seq<char>,
    Seq<Selection>,
    Seq<(Range, Seq<char>)>,
)
    decreases ss.len(),
{
    if ss.len() == 0 {
        (t, Seq::empty(), Seq::empty())
    } else {
        match delete_range(t, ss[0], backward) {
            Some(r) => {
                let s = pos_offset(t, r.start);
                let e = pos_offset(t, r.end);
                if s is Some && e is Some && s->0 <= e->0 {
                    let rest = delete_plan(t.take(s->0) + t.skip(e->0), ss.drop_first(), backward);
                    (
                        rest.0,
                        seq![Selection::spec_new(r.start, r.start)] + rest.1,
                        seq![(r, t.subrange(s->0, e->0))] + rest.2,
                    )
                } else {
                    delete_plan(t, ss.drop_first(), backward)
                }
            },
            None => delete_plan(t, ss.drop_first(), backward),
        }
    }
}

/// `e` deletes range `d.0`, which held `d.1`.
pub open spec fn is_delete_of(e: Edit, d: (Range, Seq<char>)) -> bool {
    match e {
        Edit::Delete { range, deleted_text } => range == d.0 && deleted_text@ == d.1,
        _ => false,
    }
}

/// The edits are the deletions `ds`, in order.
pub open spec fn deletes_at(es: Seq<Edit>, ds: Seq<(Range, Seq<char>)>) -> bool {
    &&& es.len() == ds.len()
    &&& forall|i: int| 0 <= i < es.len() ==> is_delete_of(#[trigger] es[i], ds[i])
}

/// What deleting at every selection does to a document (see
/// [`Document::delete`] and [`Document::delete_backward`]).
pub open spec fn delete_outcome(d0: Document, d1: Document, backward: bool) -> bool {
    let plan = delete_plan(d0.spec_text(), d0.spec_selections()@.0, backward);
    &&& d1.spec_text() == plan.0
    &&& plan.1.len() > 0 ==> d1.spec_selections()@ == (plan.1, 0nat)
    &&& plan.1.len() == 0 ==> d1.spec_selections() == d0.spec_selections()
    &&& exists|es: Seq<Edit>| #[trigger] deletes_at(es, plan.2) && push_results(d0.spec_history(), d1.spec_history(), es, d0.spec_selections()@)
    &&& d1.spec_buffer().spec_version() == bumped(d0.spec_buffer().spec_version(), plan.1.len())
    &&& d1.spec_buffer().spec_modified() == (d0.spec_buffer().spec_modified() || plan.1.len() > 0)
    &&& d1.spec_buffer().spec_line_ending() == d0.spec_buffer().spec_line_ending()
    &&& d1.spec_buffer().spec_path() == d0.spec_buffer().spec_path()
    &&& d1.spec_buffer().spec_id() == d0.spec_buffer().spec_id()
    &&& d1.spec_settings() == d0.spec_settings()
    &&& d1.spec_saved_version() == d0.spec_saved_version()
}

/// What [`Document::undo`] does: the history's undo (see
/// [`undo_outcome`]) applied to the buffer; when it succeeds (`b`), the
/// selections become those it returns, else they stay.
pub open spec fn doc_undo_outcome(d0: Document, d1: Document, b: bool) -> bool {
    &&& undo_outcome(d0.spec_history(), d1.spec_history(), d0.spec_text(), d1.spec_text(), if b { Some(d1.spec_selections()@) } else { None })
    &&& !b ==> d1.spec_selections() == d0.spec_selections()
    &&& d1.spec_buffer().spec_line_ending() == d0.spec_buffer().spec_line_ending()
    &&& d1.spec_buffer().spec_path() == d0.spec_buffer().spec_path()
    &&& d1.spec_settings() == d0.spec_settings()
    &&& d1.spec_saved_version() == d0.spec_saved_version()
}

/// What [`Document::redo`] does: the history's redo (see
/// [`redo_outcome`]) applied to the buffer; when it succeeds (`b`), the
/// selections become those it returns, else they stay.
pub open spec fn doc_redo_outcome(d0: Document, d1: Document, b: bool) -> bool {
    &&& redo_outcome(d0.spec_history(), d1.spec_history(), d0.spec_text(), d1.spec_text(), if b { Some(d1.spec_selections()@) } else { None })
    &&& !b ==> d1.spec_selections() == d0.spec_selections()
    &&& d1.spec_buffer().spec_line_ending() == d0.spec_buffer().spec_line_ending()
    &&& d1.spec_buffer().spec_path() == d0.spec_buffer().spec_path()
    &&& d1.spec_settings() == d0.spec_settings()
    &&& d1.spec_saved_version() == d0.spec_saved_version()
}

fn line_len_or_zero_exec(buffer: &Buffer, l: usize) -> (n: usize)
    ensures
        n == line_len_or_zero(buffer@, l as int),
{
    match buffer.line_len(l) {
        Some(n) => n,
        None => 0,
    }
}

/// The column of the end of a line's content (see [`line_end_column`]).
fn line_end_column_exec(buffer: &Buffer, l: usize) -> (n: usize)
    ensures
        n == line_end_column(buffer@, l as int),
{
    match buffer.line(l) {
        Some(text) => {
            let cs = crate::text::str_to_chars(text.as_str());
            let n = cs.len();
            if n >= 2 && cs[n - 2] == '\r' && cs[n - 1] == '\n' {
                n - 2
            } else if n >= 1 && is_break(cs[n - 1]) {
                n - 1
            } else {
                n
            }
        },
        None => 0,
    }
}

/// Whether a character is a line break.
fn is_break(c: char) -> (b: bool)
    ensures
        b == is_break_char(c),
{
    c == '\n' || c == '\r' || c == '\u{0B}' || c == '\u{0C}' || c == '\u{85}' || c == '\u{2028}' || c == '\u{2029}'
}

/// Where a movement takes a position in a buffer.
fn calculate_movement_helper(buffer: &Buffer, pos: Position, movement: Movement) -> (p: Position)
    ensures
        p == movement_target(buffer@, pos, movement),
{
    match movement {
        Movement::Left => {
            if pos.column > 0 {
                pos.offset_column(-1)
            } else if pos.line > 0 {
                let prev_line_len = line_len_or_zero_exec(buffer, pos.line - 1);
                Position::new(pos.line - 1, prev_line_len.saturating_sub(1))
            } else {
                pos
            }
        },
        Movement::Right => {
            let line_len = line_len_or_zero_exec(buffer, pos.line);
            if pos.column < line_len.saturating_sub(1) {
                pos.offset_column(1)
            } else if pos.line < buffer.line_count().saturating_sub(1) {
                Position::new(pos.line + 1, 0)
            } else {
                pos
            }
        },
        Movement::Up => {
            if pos.line > 0 {
                pos.offset_line(-1)
            } else {
                pos
            }
        },
        Movement::Down => {
            if pos.line < buffer.line_count().saturating_sub(1) {
                pos.offset_line(1)
            } else {
                pos
            }
        },
        Movement::LineStart => pos.to_line_start(),
        Movement::LineEnd => Position::new(pos.line, line_end_column_exec(buffer, pos.line)),
        Movement::DocumentStart => Position::zero(),
        Movement::DocumentEnd => {
            let last_line = buffer.line_count().saturating_sub(1);
            Position::new(last_line, line_end_column_exec(buffer, last_line))
        },
        Movement::WordLeft => pos.offset_column(-1),
        Movement::WordRight => pos.offset_column(1),
        Movement::PageUp => pos.offset_line(-20),
        Movement::PageDown => pos.offset_line(20),
    }
}

/// An editable document: a buffer, its selections, its undo history and

/// The lines of a text as `str::lines` gives them before trimming: the
/// pieces between `\n` characters, but for an empty last piece.
pub open spec fn text_pieces(t: Seq<char>) -> Seq<Seq<char>> {
    let p = split_on(t, '\n');
    if p.len() > 0 && p.last().len() == 0 {
        p.drop_last()
    } else {
        p
    }
}

/// Texts joined, `sep` between each two.
pub open spec fn joined_by(ls: Seq<Seq<char>>, sep: Seq<char>) -> Seq<char>
    decreases ls.len(),
{
    if ls.len() == 0 {
        Seq::empty()
    } else if ls.len() == 1 {
        ls[0]
    } else {
        joined_by(ls.drop_last(), sep) + sep + ls.last()
    }
}

/// The text that saving writes: with trailing whitespace trimmed from each
/// line (the lines joined by the ending) where the settings ask for it,
/// then the ending added where a final newline is asked for and the text
/// does not end with `\n`.
pub open spec fn save_text(t: Seq<char>, s: DocumentSettings, ending: Seq<char>) -> Seq<char> {
    let a = if s.trim_trailing_whitespace {
        joined_by(text_pieces(t).map_values(|l: Seq<char>| trim_end(l)), ending)
    } else {
        t
    };
    if s.ensure_final_newline && !ends_with(a, seq!['\n']) {
        a + ending
    } else {
        a
    }
}

fn append_chars(out: &mut Vec<char>, v: &[char], n: usize)
    requires
        n <= v@.len(),
    ensures
        final(out)@ == old(out)@ + v@.take(n as int),
{
    let mut i: usize = 0;
    let ghost base = out@;
    while i < n
        invariant
            i <= n,
            n <= v@.len(),
            out@ == base + v@.take(i as int),
        decreases n - i,
    {
        out.push(v[i]);
        proof {
            assert(v@.take(i + 1) =~= v@.take(i as int).push(v@[i as int]));
        }
        i = i + 1;
    }
}

/// its settings.
pub struct Document {
    buffer: Buffer,
    selections: Selections,
    undo_stack: UndoStack,
    settings: DocumentSettings,
    saved_version: u64,
}

impl Document {
    /// The buffer.
    pub closed spec fn spec_buffer(&self) -> Buffer {
        self.buffer
    }

    /// The selections.
    pub closed spec fn spec_selections(&self) -> Selections {
        self.selections
    }

    /// The undo history.
    pub closed spec fn spec_history(&self) -> UndoStack {
        self.undo_stack
    }

    /// The settings.
    pub closed spec fn spec_settings(&self) -> DocumentSettings {
        self.settings
    }

    /// The buffer version at the last save.
    pub closed spec fn spec_saved_version(&self) -> u64 {
        self.saved_version
    }

    /// The text.
    pub open spec fn spec_text(&self) -> Seq<char> {
        self.spec_buffer()@
    }

    /// Every edit in the history can be inverted.
    pub open spec fn wf(&self) -> bool {
        history_invertible(self.spec_history())
    }

    /// A document holding `text`, with a cursor at the origin, an empty
    /// history and the default settings.
    pub open spec fn fresh(&self, text: Seq<char>) -> bool {
        &&& self.wf()
        &&& self.spec_text() == text
        &&& self.spec_selections()@ == (seq![Selection::spec_new(Position { line: 0, column: 0 }, Position { line: 0, column: 0 })], 0nat)
        &&& self.spec_history().spec_undo().len() == 0
        &&& self.spec_history().spec_redo().len() == 0
        &&& self.spec_history().spec_current() is None
        &&& !self.spec_history().spec_has_last_time()
        &&& self.spec_history().spec_max_groups() == 10000
        &&& default_settings(self.spec_settings())
        &&& self.spec_saved_version() == 0
        &&& self.spec_buffer().spec_version() == 0
        &&& !self.spec_buffer().spec_modified()
        &&& self.spec_buffer().spec_path() is None
    }

    /// An empty document.
    pub fn new() -> (d: Self)
        ensures
            d.fresh(Seq::empty()),
            d.spec_buffer().spec_line_ending() == LineEnding::Lf,
    {
        Self {
            buffer: Buffer::new(),
            selections: Selections::single(Position::zero()),
            undo_stack: UndoStack::default_stack(),
            settings: DocumentSettings::default(),
            saved_version: 0,
        }
    }

    /// A document holding `text`.
    pub fn from_str(text: &str) -> (d: Self)
        ensures
            d.fresh(text@),
            d.spec_buffer().spec_line_ending() == crate::buffer::line_ending::detected_ending(text@),
    {
        Self {
            buffer: Buffer::from_str(text),
            selections: Selections::single(Position::zero()),
            undo_stack: UndoStack::default_stack(),
            settings: DocumentSettings::default(),
            saved_version: 0,
        }
    }

    /// The buffer's identifier.
    pub fn id(&self) -> (i: BufferId)
        ensures
            i == self.spec_buffer().spec_id(),
    {
        self.buffer.id()
    }

    /// The buffer.
    pub fn buffer(&self) -> (b: &Buffer)
        ensures
            *b == self.spec_buffer(),
    {
        &self.buffer
    }

    /// The buffer, for changes that bypass the undo history.
    pub fn buffer_mut(&mut self) -> (b: &mut Buffer)
        ensures
            *b == old(self).spec_buffer(),
            final(self).spec_buffer() == *final(b),
            final(self).spec_selections() == old(self).spec_selections(),
            final(self).spec_history() == old(self).spec_history(),
            final(self).spec_settings() == old(self).spec_settings(),
            final(self).spec_saved_version() == old(self).spec_saved_version(),
    {
        &mut self.buffer
    }

    /// The selections.
    pub fn selections(&self) -> (s: &Selections)
        ensures
            *s == self.spec_selections(),
    {
        &self.selections
    }

    /// The selections, to change them.
    pub fn selections_mut(&mut self) -> (s: &mut Selections)
        ensures
            *s == old(self).spec_selections(),
            final(self).spec_selections() == *final(s),
            final(self).spec_buffer() == old(self).spec_buffer(),
            final(self).spec_history() == old(self).spec_history(),
            final(self).spec_settings() == old(self).spec_settings(),
            final(self).spec_saved_version() == old(self).spec_saved_version(),
    {
        &mut self.selections
    }

    /// Replaces the selections.
    pub fn set_selections(&mut self, selections: Selections)
        ensures
            final(self).spec_selections() == selections,
            final(self).spec_buffer() == old(self).spec_buffer(),
            final(self).spec_history() == old(self).spec_history(),
            final(self).spec_settings() == old(self).spec_settings(),
            final(self).spec_saved_version() == old(self).spec_saved_version(),
    {
        self.selections = selections;
    }

    /// The settings.
    pub fn settings(&self) -> (s: &DocumentSettings)
        ensures
            *s == self.spec_settings(),
    {
        &self.settings
    }

    /// The settings, to change them.
    pub fn settings_mut(&mut self) -> (s: &mut DocumentSettings)
        ensures
            *s == old(self).spec_settings(),
            final(self).spec_settings() == *final(s),
            final(self).spec_buffer() == old(self).spec_buffer(),
            final(self).spec_selections() == old(self).spec_selections(),
            final(self).spec_history() == old(self).spec_history(),
            final(self).spec_saved_version() == old(self).spec_saved_version(),
    {
        &mut self.settings
    }

    /// The file path, if any.
    pub fn path(&self) -> (p: Option<&PathBuf>)
        ensures
            p is Some <==> self.spec_buffer().spec_path() is Some,
            p is Some ==> *p->0 == self.spec_buffer().spec_path()->0,
    {
        self.buffer.path()
    }

    /// Sets the file path.
    pub fn set_path(&mut self, path: Option<PathBuf>)
        ensures
            final(self).spec_buffer().spec_path() == path,
            final(self).spec_text() == old(self).spec_text(),
            final(self).spec_buffer().spec_version() == old(self).spec_buffer().spec_version(),
            final(self).spec_selections() == old(self).spec_selections(),
            final(self).spec_history() == old(self).spec_history(),
            final(self).spec_settings() == old(self).spec_settings(),
            final(self).spec_saved_version() == old(self).spec_saved_version(),
    {
        self.buffer.set_path(path);
    }


    /// The text that saving writes (see [`save_text`]), with the
    /// document's line ending.
    pub fn save_content(&self) -> (s: String)
        ensures
            s@ == save_text(self.spec_text(), self.spec_settings(), ending_chars(self.spec_buffer().spec_line_ending())),
    {
        let content = self.buffer.to_string();
        let es = self.buffer.line_ending().as_str();
        let ev = str_to_chars(es);
        let ghost t = self.spec_text();
        let ghost ending = ending_chars(self.spec_buffer().spec_line_ending());
        let mut out: Vec<char>;
        if self.settings.trim_trailing_whitespace {
            let v = str_to_chars(&content);
            let pieces = split_chars(v.as_slice(), '\n');
            let last = pieces.len() - 1;
            let n = if pieces[last].len() == 0 { last } else { pieces.len() };
            let ghost ls = text_pieces(t).map_values(|l: Seq<char>| trim_end(l));
            proof {
                assert(text_pieces(t).len() == n);
                assert forall|k: int| 0 <= k < n implies #[trigger] text_pieces(t)[k] == pieces@[k]@ by {
                    assert(split_on(t, '\n')[k] == pieces@[k]@);
                }
            }
            out = Vec::new();
            let mut i: usize = 0;
            while i < n
                invariant
                    i <= n,
                    n <= pieces@.len(),
                    ls.len() == n,
                    ev@ == ending,
                    forall|k: int| 0 <= k < n ==> #[trigger] ls[k] == trim_end(pieces@[k]@),
                    out@ == joined_by(ls.take(i as int), ending),
                decreases n - i,
            {
                if i > 0 {
                    append_chars(&mut out, ev.as_slice(), ev.len());
                    proof {
                        assert(ev@.take(ev@.len() as int) =~= ev@);
                    }
                }
                let p = pieces[i].as_slice();
                let k = trailing_ws_count(p);
                proof {
                    lemma_trailing_ws_bound(p@);
                }
                append_chars(&mut out, p, p.len() - k);
                proof {
                    let nt = ls.take(i + 1);
                    assert(nt.drop_last() =~= ls.take(i as int));
                    assert(nt.last() == ls[i as int]);
                    if i == 0 {
                        assert(ls.take(0) =~= Seq::<Seq<char>>::empty());
                    }
                }
                i = i + 1;
            }
            proof {
                assert(ls.take(n as int) =~= ls);
            }
        } else {
            out = str_to_chars(&content);
        }
        let ghost a = out@;
        let ends_nl = out.len() > 0 && out[out.len() - 1] == '\n';
        proof {
            if ends_nl {
                assert(a.subrange(a.len() - 1, a.len() as int) =~= seq!['\n']);
            }
            if ends_with(a, seq!['\n']) {
                assert(a.subrange(a.len() - 1, a.len() as int)[0] == a[a.len() - 1]);
            }
        }
        if self.settings.ensure_final_newline && !ends_nl {
            append_chars(&mut out, ev.as_slice(), ev.len());
            proof {
                assert(ev@.take(ev@.len() as int) =~= ev@);
            }
        }
        chars_to_string(out.as_slice())
    }

    /// Records that the document was saved: the saved version becomes the
    /// buffer's version and the buffer is no longer modified.
    pub fn mark_saved(&mut self)
        ensures
            final(self).spec_saved_version() == old(self).spec_buffer().spec_version(),
            !final(self).spec_buffer().spec_modified(),
            final(self).spec_text() == old(self).spec_text(),
            final(self).spec_buffer().spec_version() == old(self).spec_buffer().spec_version(),
            final(self).spec_buffer().spec_line_ending() == old(self).spec_buffer().spec_line_ending(),
            final(self).spec_buffer().spec_path() == old(self).spec_buffer().spec_path(),
            final(self).spec_selections() == old(self).spec_selections(),
            final(self).spec_history() == old(self).spec_history(),
            final(self).spec_settings() == old(self).spec_settings(),
            !final(self).is_modified_spec(),
    {
        self.saved_version = self.buffer.version();
        self.buffer.clear_modified();
    }

    /// Whether the buffer changed since the last save.
    pub open spec fn is_modified_spec(&self) -> bool {
        self.spec_buffer().spec_version() != self.spec_saved_version()
    }

    /// Whether the buffer version differs from the version last saved.
    pub fn is_modified(&self) -> (b: bool)
        ensures
            b == (self.spec_buffer().spec_version() != self.spec_saved_version()),
    {
        self.buffer.version() != self.saved_version
    }

    /// Moves every cursor, dropping the selections.
    pub fn move_cursor(&mut self, movement: Movement)
        ensures
            final(self).spec_selections()@.1 == old(self).spec_selections()@.1,
            final(self).spec_selections()@.0.len() == old(self).spec_selections()@.0.len(),
            forall|i: int| 0 <= i < old(self).spec_selections()@.0.len() ==> #[trigger] final(self).spec_selections()@.0[i] == moved_cursor(old(self).spec_text(), old(self).spec_selections()@.0[i], movement),
            final(self).spec_buffer() == old(self).spec_buffer(),
            final(self).spec_history() == old(self).spec_history(),
            final(self).spec_settings() == old(self).spec_settings(),
            final(self).spec_saved_version() == old(self).spec_saved_version(),
    {
        let n = self.selections.len();
        let mut i: usize = 0;
        while i < n
            invariant
                i <= n,
                n == old(self).spec_selections()@.0.len(),
                self.selections@.0.len() == n,
                self.selections@.1 == old(self).spec_selections()@.1,
                self.buffer == old(self).spec_buffer(),
                self.undo_stack == old(self).spec_history(),
                self.settings == old(self).spec_settings(),
                self.saved_version == old(self).spec_saved_version(),
                forall|j: int| i <= j < n ==> self.selections@.0[j] == old(self).spec_selections()@.0[j],
                forall|j: int| 0 <= j < i ==> #[trigger] self.selections@.0[j] == moved_cursor(old(self).spec_text(), old(self).spec_selections()@.0[j], movement),
            decreases n - i,
        {
            match self.selections.get_mut(i) {
                Some(sel) => {
                    let new_pos = calculate_movement_helper(&self.buffer, sel.head(), movement);
                    *sel = Selection::cursor(new_pos);
                },
                None => {},
            }
            i = i + 1;
        }
    }

    /// Moves every head, keeping each anchor.
    pub fn select(&mut self, movement: Movement)
        ensures
            final(self).spec_selections()@.1 == old(self).spec_selections()@.1,
            final(self).spec_selections()@.0.len() == old(self).spec_selections()@.0.len(),
            forall|i: int| 0 <= i < old(self).spec_selections()@.0.len() ==> #[trigger] final(self).spec_selections()@.0[i] == extended_selection(old(self).spec_text(), old(self).spec_selections()@.0[i], movement),
            final(self).spec_buffer() == old(self).spec_buffer(),
            final(self).spec_history() == old(self).spec_history(),
            final(self).spec_settings() == old(self).spec_settings(),
            final(self).spec_saved_version() == old(self).spec_saved_version(),
    {
        let n = self.selections.len();
        let mut i: usize = 0;
        while i < n
            invariant
                i <= n,
                n == old(self).spec_selections()@.0.len(),
                self.selections@.0.len() == n,
                self.selections@.1 == old(self).spec_selections()@.1,
                self.buffer == old(self).spec_buffer(),
                self.undo_stack == old(self).spec_history(),
                self.settings == old(self).spec_settings(),
                self.saved_version == old(self).spec_saved_version(),
                forall|j: int| i <= j < n ==> self.selections@.0[j] == old(self).spec_selections()@.0[j],
                forall|j: int| 0 <= j < i ==> #[trigger] self.selections@.0[j] == extended_selection(old(self).spec_text(), old(self).spec_selections()@.0[j], movement),
            decreases n - i,
        {
            match self.selections.get_mut(i) {
                Some(sel) => {
                    let new_cursor = calculate_movement_helper(&self.buffer, sel.head(), movement);
                    sel.extend_to(new_cursor);
                    proof {
                        Selection::lemma_ext(*sel, *sel);
                    }
                },
                None => {},
            }
            i = i + 1;
        }
    }

    /// Inserts `text` at every cursor (see [`insert_plan`]): the selections
    /// are taken in order of their starts (equal starts in their order);
    /// each head keeps its place in the text, which moves by what was
    /// inserted before it; each insertion is recorded in the history before
    /// it is made. Afterwards there is a cursor after each inserted text
    /// (the selections stay when nothing was inserted).
    pub fn insert(&mut self, text: &str)
        requires
            old(self).wf(),
            old(self).spec_text().len() + old(self).spec_selections()@.0.len() * text@.len() + text.len() <= usize::MAX,
        ensures
            final(self).wf(),
            insert_outcome(*old(self), *final(self), text@),
    {
        let tl = str_to_chars(text).len();
        let all = self.selections.to_vec();
        let sorted = sort_by_start(&all);
        let ghost t0 = self.buffer@;
        let ghost sels0 = self.selections@;
        let ghost h0 = self.undo_stack;
        let ghost plan = insert_plan(t0, t0, sorted@, text@);
        let len0 = self.buffer.len_chars();
        let mut offs: Vec<Option<usize>> = Vec::new();
        let mut j: usize = 0;
        while j < sorted.len()
            invariant
                j <= sorted@.len(),
                offs@.len() == j,
                self.buffer@ == t0,
                forall|k: int| 0 <= k < j ==> (#[trigger] offs@[k]) is Some ==> pos_offset(t0, sorted@[k].spec_head()) == Some(offs@[k]->0 as int),
                forall|k: int| 0 <= k < j ==> (#[trigger] offs@[k]) is None ==> pos_offset(t0, sorted@[k].spec_head()) is None,
            decreases sorted@.len() - j,
        {
            match self.buffer.pos_to_offset(sorted[j].head()) {
                Ok(o) => offs.push(Some(o)),
                Err(_) => offs.push(None),
            }
            j = j + 1;
        }
        let ghost mut es: Seq<Edit> = Seq::empty();
        let ghost mut ps: Seq<Position> = Seq::empty();
        let mut new_cursors: Vec<Selection> = Vec::new();
        let mut i: usize = 0;
        proof {
            assert(sorted@.skip(0) =~= sorted@);
            assert(new_cursors@ + plan.1 =~= plan.1);
            assert(ps + plan.2 =~= plan.2);
            assert(push_results(h0, self.undo_stack, es, sels0));
        }
        while i < sorted.len()
            invariant
                i <= sorted@.len(),
                tl == text@.len(),
                offs@.len() == sorted@.len(),
                forall|k: int| 0 <= k < sorted@.len() ==> (#[trigger] offs@[k]) is Some ==> pos_offset(t0, sorted@[k].spec_head()) == Some(offs@[k]->0 as int),
                forall|k: int| 0 <= k < sorted@.len() ==> (#[trigger] offs@[k]) is None ==> pos_offset(t0, sorted@[k].spec_head()) is None,
                len0 == t0.len(),
                t0.len() <= self.buffer@.len(),
                sorted@.len() == sels0.0.len(),
                t0.len() + sorted@.len() * text@.len() + text.len() <= usize::MAX,
                new_cursors@.len() <= i,
                self.buffer@.len() == t0.len() + new_cursors@.len() * text@.len(),
                sorted@ == stable_sort_by_start(sels0.0),
                sels0 == old(self).spec_selections()@,
                t0 == old(self).spec_text(),
                h0 == old(self).spec_history(),
                plan == insert_plan(t0, t0, sorted@, text@),
                ({
                    let r = insert_plan(t0, self.buffer@, sorted@.skip(i as int), text@);
                    &&& plan.0 == r.0
                    &&& plan.1 == new_cursors@ + r.1
                    &&& plan.2 == ps + r.2
                }),
                inserts_at(es, ps, text@),
                push_results(h0, self.undo_stack, es, sels0),
                history_invertible(self.undo_stack),
                self.selections == old(self).spec_selections(),
                self.settings == old(self).spec_settings(),
                self.saved_version == old(self).spec_saved_version(),
                self.buffer.spec_version() == bumped(old(self).spec_buffer().spec_version(), new_cursors@.len()),
                self.buffer.spec_modified() == (old(self).spec_buffer().spec_modified() || new_cursors@.len() > 0),
                self.buffer.spec_line_ending() == old(self).spec_buffer().spec_line_ending(),
                self.buffer.spec_path() == old(self).spec_buffer().spec_path(),
                self.buffer.spec_id() == old(self).spec_buffer().spec_id(),
            decreases sorted@.len() - i,
        {
            proof {
                assert(sorted@.skip(i as int)[0] == sorted@[i as int]);
                assert(sorted@.skip(i as int).drop_first() =~= sorted@.skip(i + 1));
            }
            match offs[i] {
                None => {},
                Some(o0) => {
                    let cur_len = self.buffer.len_chars();
                    let o = o0 + (cur_len - len0);
                    let ghost tb = self.buffer@;
                    let pos = match self.buffer.offset_to_pos(o) {
                        Ok(p) => p,
                        Err(_) => Position::zero(),
                    };
                    assert(pos == offset_position(tb, o as int));
                    proof {
                        vstd::arithmetic::mul::lemma_mul_inequality(new_cursors@.len() as int, sorted@.len() as int, text@.len() as int);
                        lemma_line_start_bounded(tb, 0, line_of(tb, o as int));
                        assert(pos.column <= o);
                        crate::buffer::lines::lemma_line_of_start(tb, 0, o as int);
                        crate::buffer::lines::lemma_line_start_at_least(tb, 0, line_of(tb, o as int));
                        assert(pos.line <= o);
                        vstd::arithmetic::mul::lemma_mul_inequality(new_cursors@.len() + 1int, sorted@.len() as int, text@.len() as int);
                        vstd::arithmetic::mul::lemma_mul_is_distributive_add_other_way(text@.len() as int, new_cursors@.len() as int, 1);
                        assert(o <= tb.len());
                        assert(tb.len() + text@.len() <= usize::MAX);
                    }
                    let edit = Edit::Insert { position: pos, text: text.to_owned() };
                    let ghost hb = self.undo_stack;
                    proof {
                        assert(invertible(edit));
                    }
                    self.undo_stack.push(edit, self.selections.duplicate());
                    proof {
                        let es2 = es.push(edit);
                        lemma_push_results_step(h0, hb, self.undo_stack, es, edit, sels0);
                        let ps2 = ps.push(pos);
                        assert forall|k: int| 0 <= k < es2.len() implies is_insert_of(#[trigger] es2[k], ps2[k], text@) by {
                            if k < es.len() {
                                assert(es2[k] == es[k]);
                            }
                        }
                        es = es2;
                        ps = ps2;
                    }
                    match self.buffer.pos_to_offset(pos) {
                        Ok(o2) => {
                            let _ = self.buffer.insert(pos, text);
                            let new_len = self.buffer.len_chars();
                            let c = match self.buffer.offset_to_pos(o2 + tl) {
                                Ok(p) => p,
                                Err(_) => Position::zero(),
                            };
                            let ghost nc0 = new_cursors@;
                            new_cursors.push(Selection::cursor(c));
                            proof {
                                vstd::arithmetic::mul::lemma_mul_is_distributive_add_other_way(text@.len() as int, nc0.len() as int, 1);
                                let r = insert_plan(t0, tb, sorted@.skip(i as int), text@);
                                let r2 = insert_plan(t0, self.buffer@, sorted@.skip(i + 1), text@);
                                assert(c == offset_position(self.buffer@, o2 + text@.len()));
                                assert(r.1 == seq![Selection::spec_new(c, c)] + r2.1);
                                assert(new_cursors@ + r2.1 =~= nc0 + r.1);
                                assert(r.2 == seq![pos] + r2.2);
                                assert(ps + r2.2 =~= ps.drop_last() + r.2);
                            }
                        },
                        Err(_) => {
                            proof {
                                let r = insert_plan(t0, self.buffer@, sorted@.skip(i as int), text@);
                                let r2 = insert_plan(t0, self.buffer@, sorted@.skip(i + 1), text@);
                                assert(r.2 == seq![pos] + r2.2);
                                assert(ps + r2.2 =~= ps.drop_last() + r.2);
                            }
                        },
                    }
                },
            }
            i = i + 1;
        }
        proof {
            let r = insert_plan(t0, self.buffer@, sorted@.skip(i as int), text@);
            assert(sorted@.skip(i as int).len() == 0);
            assert(new_cursors@ + r.1 =~= new_cursors@);
            assert(ps + r.2 =~= ps);
            assert(inserts_at(es, plan.2, text@));
        }
        if new_cursors.len() > 0 {
            self.selections = Selections::from_vec(new_cursors);
        }
    }

    /// Deletes at every selection, in order: a selection's text, or for a
    /// cursor the character after it. Each deletion made is recorded in the
    /// history; afterwards there is a cursor at the start of each range
    /// deleted (the selections stay when nothing was deleted).
    pub fn delete(&mut self)
        requires
            old(self).wf(),
        ensures
            final(self).wf(),
            delete_outcome(*old(self), *final(self), false),
    {
        self.delete_each(false);
    }

    /// Deletes backward at every selection, in order: a selection's text,
    /// or for a cursor the character before it (at the start of a line, the
    /// last character of the line before). Recorded and placed as by
    /// [`Document::delete`].
    pub fn delete_backward(&mut self)
        requires
            old(self).wf(),
        ensures
            final(self).wf(),
            delete_outcome(*old(self), *final(self), true),
    {
        self.delete_each(true);
    }

    fn delete_range_at(&self, sel: Selection, backward: bool) -> (r: Option<Range>)
        ensures
            r == delete_range(self.spec_text(), sel, backward),
    {
        if !sel.is_cursor() {
            return Some(sel.range());
        }
        let pos = sel.head();
        if !backward {
            return Some(Range::new(pos, pos.offset_column(1)));
        }
        if pos.column > 0 {
            Some(Range::new(pos.offset_column(-1), pos))
        } else if pos.line > 0 {
            let prev_line_end = Position::new(pos.line - 1, line_len_or_zero_exec(&self.buffer, pos.line - 1).saturating_sub(1));
            Some(Range::new(prev_line_end, pos))
        } else {
            None
        }
    }

    fn delete_each(&mut self, backward: bool)
        requires
            old(self).wf(),
        ensures
            final(self).wf(),
            delete_outcome(*old(self), *final(self), backward),
    {
        let all = self.selections.to_vec();
        let ghost t0 = self.buffer@;
        let ghost sels0 = self.selections@;
        let ghost h0 = self.undo_stack;
        let ghost plan = delete_plan(t0, all@, backward);
        let ghost mut es: Seq<Edit> = Seq::empty();
        let ghost mut ds: Seq<(Range, Seq<char>)> = Seq::empty();
        let mut new_cursors: Vec<Selection> = Vec::new();
        let mut i: usize = 0;
        proof {
            assert(all@.skip(0) =~= all@);
            assert(new_cursors@ + plan.1 =~= plan.1);
            assert(ds + plan.2 =~= plan.2);
        }
        while i < all.len()
            invariant
                i <= all@.len(),
                all@ == sels0.0,
                sels0 == old(self).spec_selections()@,
                t0 == old(self).spec_text(),
                h0 == old(self).spec_history(),
                plan == delete_plan(t0, all@, backward),
                new_cursors@.len() <= i,
                ({
                    let r = delete_plan(self.buffer@, all@.skip(i as int), backward);
                    &&& plan.0 == r.0
                    &&& plan.1 == new_cursors@ + r.1
                    &&& plan.2 == ds + r.2
                }),
                deletes_at(es, ds),
                push_results(h0, self.undo_stack, es, sels0),
                history_invertible(self.undo_stack),
                self.selections == old(self).spec_selections(),
                self.settings == old(self).spec_settings(),
                self.saved_version == old(self).spec_saved_version(),
                self.buffer.spec_version() == bumped(old(self).spec_buffer().spec_version(), new_cursors@.len()),
                self.buffer.spec_modified() == (old(self).spec_buffer().spec_modified() || new_cursors@.len() > 0),
                self.buffer.spec_line_ending() == old(self).spec_buffer().spec_line_ending(),
                self.buffer.spec_path() == old(self).spec_buffer().spec_path(),
                self.buffer.spec_id() == old(self).spec_buffer().spec_id(),
            decreases all@.len() - i,
        {
            let sel = all[i];
            let ghost tb = self.buffer@;
            proof {
                assert(all@.skip(i as int)[0] == all@[i as int]);
                assert(all@.skip(i as int).drop_first() =~= all@.skip(i + 1));
            }
            match self.delete_range_at(sel, backward) {
                Some(range) => {
                    match self.buffer.delete(range) {
                        Ok(deleted) => {
                            let ghost d = (range, deleted@);
                            let edit = Edit::Delete { range, deleted_text: deleted };
                            let ghost hb = self.undo_stack;
                            proof {
                                assert(invertible(edit));
                            }
                            self.undo_stack.push(edit, self.selections.duplicate());
                            let ghost nc0 = new_cursors@;
                            new_cursors.push(Selection::cursor(range.start));
                            proof {
                                lemma_push_results_step(h0, hb, self.undo_stack, es, edit, sels0);
                                let es2 = es.push(edit);
                                let ds2 = ds.push(d);
                                assert forall|j: int| 0 <= j < es2.len() implies is_delete_of(#[trigger] es2[j], ds2[j]) by {
                                    if j < es.len() {
                                        assert(es2[j] == es[j]);
                                    }
                                }
                                let r = delete_plan(tb, all@.skip(i as int), backward);
                                let r2 = delete_plan(self.buffer@, all@.skip(i + 1), backward);
                                assert(r.1 == seq![Selection::spec_new(range.start, range.start)] + r2.1);
                                assert(new_cursors@ + r2.1 =~= nc0 + r.1);
                                assert(r.2 == seq![d] + r2.2);
                                assert(ds2 + r2.2 =~= ds + r.2);
                                es = es2;
                                ds = ds2;
                            }
                        },
                        Err(_) => {},
                    }
                },
                None => {},
            }
            i = i + 1;
        }
        proof {
            let r = delete_plan(self.buffer@, all@.skip(i as int), backward);
            assert(all@.skip(i as int).len() == 0);
            assert(new_cursors@ + r.1 =~= new_cursors@);
            assert(ds + r.2 =~= ds);
            assert(deletes_at(es, plan.2));
        }
        if new_cursors.len() > 0 {
            self.selections = Selections::from_vec(new_cursors);
        }
    }

    /// Undoes the last change (see [`UndoStack::undo`]); returns whether
    /// there was one and it applied.
    pub fn undo(&mut self) -> (b: bool)
        requires
            old(self).wf(),
        ensures
            final(self).wf(),
            doc_undo_outcome(*old(self), *final(self), b),
    {
        match self.undo_stack.undo(&mut self.buffer) {
            Some(selections) => {
                self.selections = selections;
                true
            },
            None => false,
        }
    }

    /// Redoes the last undone change (see [`UndoStack::redo`]); returns
    /// whether there was one and it applied.
    pub fn redo(&mut self) -> (b: bool)
        requires
            old(self).wf(),
        ensures
            final(self).wf(),
            doc_redo_outcome(*old(self), *final(self), b),
    {
        match self.undo_stack.redo(&mut self.buffer) {
            Some(selections) => {
                self.selections = selections;
                true
            },
            None => false,
        }
    }

    /// Whether there is something to undo.
    pub fn can_undo(&self) -> (b: bool)
        ensures
            b == (self.spec_history().spec_undo().len() > 0 || (self.spec_history().spec_current() is Some
                && self.spec_history().spec_current()->0.spec_edits().len() > 0)),
    {
        self.undo_stack.can_undo()
    }

    /// Whether there is something to redo.
    pub fn can_redo(&self) -> (b: bool)
        ensures
            b == (self.spec_history().spec_redo().len() > 0),
    {
        self.undo_stack.can_redo()
    }

    /// The line ending style.
    pub fn line_ending(&self) -> (e: LineEnding)
        ensures
            e == self.spec_buffer().spec_line_ending(),
    {
        self.buffer.line_ending()
    }

    /// Sets the line ending style (the text is not converted).
    pub fn set_line_ending(&mut self, ending: LineEnding)
        ensures
            final(self).spec_buffer().spec_line_ending() == ending,
            final(self).spec_text() == old(self).spec_text(),
            final(self).spec_selections() == old(self).spec_selections(),
            final(self).spec_history() == old(self).spec_history(),
            final(self).spec_settings() == old(self).spec_settings(),
            final(self).spec_saved_version() == old(self).spec_saved_version(),
    {
        self.buffer.set_line_ending(ending);
    }

    /// Selects the whole text: from the origin to the end of the last line
    /// (its full length), or a cursor at the origin in an empty document.
    pub fn select_all(&mut self)
        ensures
            ({
                let t = old(self).spec_text();
                let last = minus_one(line_count(t) as int);
                let end = if t.len() == 0 {
                    Position { line: 0, column: 0 }
                } else {
                    Position { line: last as usize, column: line_len_or_zero(t, last) as usize }
                };
                final(self).spec_selections()@ == (seq![Selection::spec_new(Position { line: 0, column: 0 }, end)], 0nat)
            }),
            final(self).spec_buffer() == old(self).spec_buffer(),
            final(self).spec_history() == old(self).spec_history(),
            final(self).spec_settings() == old(self).spec_settings(),
            final(self).spec_saved_version() == old(self).spec_saved_version(),
    {
        let start = Position::zero();
        let end = if self.buffer.is_empty() {
            Position::zero()
        } else {
            let last_line = self.buffer.line_count().saturating_sub(1);
            let last_col = line_len_or_zero_exec(&self.buffer, last_line);
            Position::new(last_line, last_col)
        };
        self.selections = Selections::from_selection(Selection::new(start, end));
    }

    /// Forgets the undo history.
    pub fn clear_undo_history(&mut self)
        ensures
            final(self).wf(),
            final(self).spec_history().spec_undo().len() == 0,
            final(self).spec_history().spec_redo().len() == 0,
            final(self).spec_history().spec_current() is None,
            !final(self).spec_history().spec_has_last_time(),
            final(self).spec_history().spec_max_groups() == old(self).spec_history().spec_max_groups(),
            final(self).spec_buffer() == old(self).spec_buffer(),
            final(self).spec_selections() == old(self).spec_selections(),
            final(self).spec_settings() == old(self).spec_settings(),
            final(self).spec_saved_version() == old(self).spec_saved_version(),
    {
        self.undo_stack.clear();
    }

    /// Where a movement takes a position in this document.
    fn calculate_movement(&self, pos: Position, movement: Movement) -> (p: Position)
        ensures
            p == movement_target(self.spec_text(), pos, movement),
    {
        calculate_movement_helper(&self.buffer, pos, movement)
    }
}

impl Default for Document {
    fn default() -> (d: Self)
        ensures
            d.fresh(Seq::empty()),
    {
        Self::new()
    }
}

/// Inserting text at a single cursor and then undoing gives back the text
/// and the selections, and a redo after that gives back the inserted text.
/// This holds when no edit has been timed in the history yet (so the
/// insertion opens a group of its own), the cursor lies within its line's
/// content (no line break between the line's start and the cursor), and
/// the text has no line breaks.
pub proof fn lemma_insert_undo_redo(
    d0: Document,
    d1: Document,
    d2: Document,
    d3: Document,
    text: Seq<char>,
    p: Position,
    b: bool,
    b2: bool,
)
    requires
        d0.wf(),
        !d0.spec_history().spec_has_last_time(),
        d0.spec_selections()@.0 == seq![Selection::spec_new(p, p)],
        pos_offset(d0.spec_text(), p) is Some,
        forall|i: int|
            line_char(d0.spec_text(), p.line as nat) <= i < line_char(d0.spec_text(), p.line as nat)
                + p.column ==> !is_break_char(#[trigger] d0.spec_text()[i]),
        forall|i: int| 0 <= i < text.len() ==> !is_break_char(#[trigger] text[i]),
        p.column + text.len() <= isize::MAX,
        insert_outcome(d0, d1, text),
        doc_undo_outcome(d1, d2, b),
        doc_redo_outcome(d2, d3, b2),
    ensures
        b,
        d2.spec_text() == d0.spec_text(),
        d2.spec_selections()@ == d0.spec_selections()@,
        b2,
        d3.spec_text() == d1.spec_text(),
{
    let t0 = d0.spec_text();
    let n = text.len() as int;
    let k = p.line as nat;
    let o = line_char(t0, k) + p.column;
    let t1 = t0.take(o) + text + t0.skip(o);
    let sel = Selection::spec_new(p, p);
    Selection::lemma_new(p, p);
    // the single selection is its own sorted order
    assert(seq![sel].drop_last() =~= Seq::<Selection>::empty());
    assert(stable_sort_by_start(Seq::<Selection>::empty()) == Seq::<Selection>::empty());
    assert(seq![sel].last() == sel);
    assert(stable_sort_by_start(seq![sel]) == insert_by_start(Seq::<Selection>::empty(), sel));
    assert(stable_sort_by_start(seq![sel]) =~= seq![sel]);
    // the plan: one insertion at p
    let plan = insert_plan(t0, t0, seq![sel], text);
    assert(seq![sel][0] == sel);
    assert(seq![sel].drop_first() =~= Seq::<Selection>::empty());
    assert(pos_offset(t0, p) == Some(o));
    // the head's index, taken back to a position, is the head
    lemma_line_bounds(t0, k);
    lemma_line_start_step(t0, 0, k);
    lemma_next_line_start(t0, line_start(t0, k));
    if line_start(t0, k + 1) <= t0.len() && o >= line_start(t0, k + 1) {
        lemma_next_line_start_ends(t0, line_start(t0, k));
        assert(!is_break_char(t0[line_start(t0, k + 1) - 1]));
    }
    lemma_line_of_within(t0, k, o);
    assert(offset_position(t0, o + (t0.len() - t0.len())) == p);
    assert(insert_plan(t0, t1, seq![sel].drop_first(), text) == (t1, Seq::<Selection>::empty(), Seq::<Position>::empty()));
    assert(plan.0 == t1);
    assert(plan.2 =~= seq![p]);
    assert(d1.spec_text() == t1);
    // the history: a new group holding that insertion
    let es = choose|es: Seq<Edit>| #[trigger] inserts_at(es, plan.2, text) && push_results(d0.spec_history(), d1.spec_history(), es, d0.spec_selections()@);
    assert(es.len() == 1);
    assert(is_insert_of(es[0], p, text));
    let e = es[0];
    let h0 = d0.spec_history();
    let h1 = d1.spec_history();
    let m = choose|m: UndoStack| push_results(h0, m, es.drop_last(), d0.spec_selections()@) && #[trigger] push_result(m, h1, es.last(), d0.spec_selections()@);
    assert(es.drop_last().len() == 0);
    assert(same_history(h0, m));
    assert(es.last() == e);
    let g = h1.spec_current()->0;
    assert(g.spec_edits() == seq![e]);
    assert(g.spec_before() == d0.spec_selections()@);
    // the line structure after the insertion
    lemma_insert_within_line(t0, k, p.column as int, text);
    match e {
        Edit::Insert { position, text: s } => {
            assert(position == p && s@ == text);
            crate::undo::lemma_no_newline(s@);
            let p2 = Position { line: p.line, column: (p.column + s@.len()) as usize };
            assert(p2 == crate::undo::insert_end(p, s@));
            let inv = inverse_edit(e);
            assert(undo_edits(g.spec_edits()) =~= seq![inv]);
            assert(pos_offset(t1, p) == Some(o));
            assert(pos_offset(t1, p2) == Some(o + n));
            lemma_line_bounds(t0, k);
            assert(0 <= o <= t0.len());
            assert(t1.take(o) =~= t0.take(o));
            assert(t1.skip(o + n) =~= t0.skip(o));
            assert(t0.take(o) + t0.skip(o) =~= t0);
            assert(t1.take(o) + t1.skip(o + n) =~= t0);
            assert(edit_effect(t1, inv) == Some(t0));
            assert(seq![inv].drop_first() =~= Seq::<Edit>::empty());
            assert(apply_edits(t1, seq![inv]) == apply_edits(t0, Seq::<Edit>::empty()));
            assert(apply_edits(t1, undo_edits(g.spec_edits())) == (t0, true));
            assert(b);
            // the redo applies the insertion again
            let h2 = d2.spec_history();
            assert(h2.spec_redo() =~= seq![g]);
            assert(edit_effect(t0, e) == Some(t1));
            assert(seq![e].drop_first() =~= Seq::<Edit>::empty());
            assert(apply_edits(t0, seq![e]) == apply_edits(t1, Seq::<Edit>::empty()));
        },
        Edit::Delete { .. } => {
            assert(false);
        },
    }
}

/// A line that has a line after it ends with a line break, so it is not
/// empty.
proof fn lemma_line_before_ends_in_break(t: Seq<char>, l: nat)
    requires
        0 < l < line_count(t),
    ensures
        line_length(t, (l - 1) as nat) >= 1,
        line_length(t, (l - 1) as nat) <= t.len(),
        line_text(t, (l - 1) as nat).len() == line_length(t, (l - 1) as nat),
        is_break_char(line_text(t, (l - 1) as nat).last()),
{
    let k = (l - 1) as nat;
    lemma_line_bounds(t, k);
    lemma_line_bounds(t, l);
    lemma_line_start_step(t, 0, k);
    lemma_next_line_start(t, line_start(t, k));
    lemma_next_line_start_ends(t, line_start(t, k));
    let lt = line_text(t, k);
    assert(lt.last() == t[line_char(t, l) - 1]);
}

/// Moving left from the start of a line other than the first goes to the
/// line above, to the column just before its line break (just after its
/// last character where the break is a single character); moving right
/// from there comes back to the start of the line.
pub proof fn lemma_left_from_line_start(t: Seq<char>, l: usize)
    requires
        0 < l < line_count(t),
        t.len() <= usize::MAX,
    ensures
        ({
            let prev = line_text(t, (l - 1) as nat);
            let p = movement_target(t, Position { line: l, column: 0 }, Movement::Left);
            &&& p.line == l - 1
            &&& p.column + 1 == prev.len()
            &&& is_break_char(prev.last())
            &&& !(prev.len() >= 2 && prev[prev.len() - 2] == '\r' && prev.last() == '\n')
                ==> p.column == line_end_column(t, l - 1)
            &&& movement_target(t, p, Movement::Right) == (Position { line: l, column: 0 })
        }),
{
    lemma_line_before_ends_in_break(t, l as nat);
}

/// Moving right from a column before a line's last one and then left
/// comes back; so does moving left from a column after the first and then
/// right.
pub proof fn lemma_left_right_within_line(t: Seq<char>, pos: Position)
    requires
        pos.line < line_count(t),
        t.len() <= usize::MAX,
    ensures
        pos.column + 1 < line_length(t, pos.line as nat)
            ==> movement_target(t, movement_target(t, pos, Movement::Right), Movement::Left) == pos,
        0 < pos.column < line_length(t, pos.line as nat)
            ==> movement_target(t, movement_target(t, pos, Movement::Left), Movement::Right) == pos,
{
    lemma_line_bounds(t, pos.line as nat);
}

/// Moving to the start of a line goes to its column 0; to the end of a
/// line, just after its content (before its line break); to the start of
/// the document, to line 0 column 0; to its end, after the content of its
/// last line. Moving up goes to the line above, moving down to the line
/// below (the column kept), except from the first and the last line.
pub proof fn lemma_document_moves(t: Seq<char>, pos: Position)
    requires
        pos.line < line_count(t),
        t.len() <= usize::MAX,
    ensures
        movement_target(t, pos, Movement::LineStart) == (Position { line: pos.line, column: 0 }),
        movement_target(t, pos, Movement::LineEnd).line == pos.line,
        movement_target(t, pos, Movement::LineEnd).column == content_len(line_text(t, pos.line as nat)),
        movement_target(t, pos, Movement::DocumentStart) == (Position { line: 0, column: 0 }),
        movement_target(t, pos, Movement::DocumentEnd).line + 1 == line_count(t),
        movement_target(t, pos, Movement::DocumentEnd).column
            == content_len(line_text(t, (line_count(t) - 1) as nat)),
        pos.line > 0 ==> movement_target(t, pos, Movement::Up) == (Position { line: (pos.line - 1) as usize, column: pos.column }),
        pos.line == 0 ==> movement_target(t, pos, Movement::Up) == pos,
        pos.line + 1 < line_count(t) ==> movement_target(t, pos, Movement::Down) == (Position { line: (pos.line + 1) as usize, column: pos.column }),
        pos.line + 1 == line_count(t) ==> movement_target(t, pos, Movement::Down) == pos,
{
    let last = (line_count(t) - 1) as nat;
    lemma_line_bounds(t, pos.line as nat);
    lemma_line_bounds(t, last);
    crate::buffer::lines::lemma_line_start_at_least(t, 0, last);
}

} // verus!
