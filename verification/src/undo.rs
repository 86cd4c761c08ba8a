//! Undo/redo history with time-based grouping of edits.

use vstd::prelude::*;
use std::time::{Duration, Instant};
use crate::buffer::{Buffer, BufferError, pos_offset};
use crate::buffer::position::{Position, Range, pos_max, pos_min};
use crate::document::selection::Selections;

verus! {

#[verifier::external_type_specification]
#[verifier::external_body]
pub struct ExInstant(std::time::Instant);

/// `Instant::clone`: an `Instant` is `Copy`, so the clone equals the original.
pub assume_specification[<std::time::Instant as std::clone::Clone>::clone](i: &Instant) -> (r: Instant)
    ensures
        r == *i,
;

/// `Duration::clone`: a `Duration` is `Copy`, so the clone equals the original.
pub assume_specification[<std::time::Duration as std::clone::Clone>::clone](d: &Duration) -> (r: Duration)
    ensures
        r == *d,
;

/// `Instant::now`: the current time. Nothing is stated of the value.
#[verifier::external_body]
fn instant_now() -> Instant {
    Instant::now()
}

/// `Instant::duration_since`: the time from `last` to `now` (zero when
/// `now` is earlier). Nothing is stated: it depends on the clock.
#[verifier::external_body]
fn duration_between(now: &Instant, last: &Instant) -> Duration {
    now.duration_since(*last)
}

/// The length of a duration in nanoseconds (`Duration::as_nanos`).
pub uninterp spec fn duration_nanos(d: Duration) -> u128;

/// `Duration::as_nanos`: the result is the name [`duration_nanos`] of the
/// duration.
#[verifier::external_body]
fn nanos_of(d: &Duration) -> (n: u128)
    ensures
        n == duration_nanos(*d),
{
    d.as_nanos()
}

/// `Duration::from_millis`: a duration of `ms` milliseconds, which is
/// `ms` million nanoseconds.
#[verifier::external_body]
pub(crate) fn millis(ms: u64) -> (d: Duration)
    ensures
        duration_nanos(d) == ms * 1_000_000,
{
    Duration::from_millis(ms)
}

/// A single reversible edit.
#[derive(Debug, Clone)]
pub enum Edit {
    /// Text inserted at a position.
    Insert {
        /// Where the text went
        position: Position,
        /// The inserted text
        text: String,
    },
    /// Text deleted from a range.
    Delete {
        /// The deleted range
        range: Range,
        /// The deleted text
        deleted_text: String,
    },
}

/// What an edit does to a text, or `None` when it does not apply.
pub open spec fn edit_effect(t: Seq<char>, e: Edit) -> Option<Seq<char>> {
    match e {
        Edit::Insert { position, text } => match pos_offset(t, position) {
            Some(o) => Some(t.take(o) + text@ + t.skip(o)),
            None => None,
        },
        Edit::Delete { range, .. } => {
            let s = pos_offset(t, range.start);
            let e = pos_offset(t, range.end);
            if s is Some && e is Some && s->0 <= e->0 {
                Some(t.take(s->0) + t.skip(e->0))
            } else {
                None
            }
        },
    }
}

/// Edits applied in order, stopping at the first one that does not apply:
/// the resulting text and whether all applied.
pub open spec fn apply_edits(t: Seq<char>, es: Seq<Edit>) -> (Seq<char>, bool)
    decreases es.len(),
{
    if es.len() == 0 {
        (t, true)
    } else {
        match edit_effect(t, es[0]) {
            Some(t2) => apply_edits(t2, es.drop_first()),
            None => (t, false),
        }
    }
}

/// The number of `\n` characters in a text.
pub open spec fn newline_count(s: Seq<char>) -> nat
    decreases s.len(),
{
    if s.len() == 0 {
        0
    } else {
        newline_count(s.drop_last()) + if s.last() == '\n' { 1nat } else { 0nat }
    }
}

/// The number of characters after the last `\n` of a text (all of them
/// when it has none).
pub open spec fn last_line_len(s: Seq<char>) -> nat
    decreases s.len(),
{
    if s.len() == 0 {
        0
    } else if s.last() == '\n' {
        0
    } else {
        last_line_len(s.drop_last()) + 1
    }
}

/// The position just after `s` once inserted at `p`: as many lines down
/// as `s` has `\n` characters; on the same line, the column moves by the
/// length of `s`, else it is the length of the part after the last `\n`.
pub open spec fn insert_end(p: Position, s: Seq<char>) -> Position {
    if newline_count(s) == 0 {
        Position { line: p.line, column: (p.column + s.len()) as usize }
    } else {
        Position { line: (p.line + newline_count(s)) as usize, column: last_line_len(s) as usize }
    }
}

/// The edit that undoes `e`: an insertion is undone by deleting from its
/// position to the end of the inserted text, a deletion by inserting the
/// deleted text at the start of its range.
pub open spec fn inverse_edit(e: Edit) -> Edit {
    match e {
        Edit::Insert { position, text } => Edit::Delete {
            range: Range { start: position, end: insert_end(position, text@) },
            deleted_text: text,
        },
        Edit::Delete { range, deleted_text } => Edit::Insert { position: range.start, text: deleted_text },
    }
}

/// Counting `\n` characters and the characters after the last one.
proof fn lemma_newline_counts(s: Seq<char>)
    ensures
        newline_count(s) <= s.len(),
        last_line_len(s) <= s.len(),
        newline_count(s) == 0 ==> last_line_len(s) == s.len(),
    decreases s.len(),
{
    if s.len() > 0 {
        lemma_newline_counts(s.drop_last());
    }
}

/// A text without `\n` characters has none to count.
pub proof fn lemma_no_newline(s: Seq<char>)
    requires
        forall|i: int| 0 <= i < s.len() ==> #[trigger] s[i] != '\n',
    ensures
        newline_count(s) == 0,
    decreases s.len(),
{
    if s.len() > 0 {
        lemma_no_newline(s.drop_last());
    }
}

/// The position just after `text` inserted at `p` (see [`insert_end`]).
fn insert_end_position(p: Position, text: &str) -> (e: Position)
    requires
        p.line + text@.len() <= usize::MAX,
        p.column + text@.len() <= usize::MAX,
    ensures
        e == insert_end(p, text@),
{
    let cs = crate::text::str_to_chars(text);
    let mut lines: usize = 0;
    let mut tail: usize = 0;
    let mut i: usize = 0;
    while i < cs.len()
        invariant
            i <= cs@.len(),
            cs@ == text@,
            lines == newline_count(cs@.take(i as int)),
            tail == last_line_len(cs@.take(i as int)),
        decreases cs@.len() - i,
    {
        proof {
            assert(cs@.take(i + 1).drop_last() =~= cs@.take(i as int));
            lemma_newline_counts(cs@.take(i as int));
        }
        if cs[i] == '\n' {
            lines = lines + 1;
            tail = 0;
        } else {
            tail = tail + 1;
        }
        i = i + 1;
    }
    proof {
        assert(cs@.take(i as int) =~= cs@);
        lemma_newline_counts(cs@);
    }
    if lines == 0 {
        Position::new(p.line, p.column + cs.len())
    } else {
        Position::new(p.line + lines, tail)
    }
}

/// Undoing the undo of an insertion gives the insertion back. (For a
/// deletion it gives a deletion of the same text from the same start, whose
/// end is computed from the text.)
pub proof fn lemma_inverse_twice(e: Edit)
    requires
        e is Insert,
    ensures
        inverse_edit(inverse_edit(e)) == e,
{
}

/// The edits that undo a list of edits: their inverses, last first.
pub open spec fn undo_edits(es: Seq<Edit>) -> Seq<Edit> {
    es.reverse().map_values(|e: Edit| inverse_edit(e))
}

/// An inverse exists without overflow.
pub open spec fn invertible(e: Edit) -> bool {
    match e {
        Edit::Insert { position, text } => position.line + text@.len() <= usize::MAX && position.column + text@.len() <= usize::MAX,
        Edit::Delete { .. } => true,
    }
}

impl Edit {
    /// Applies the edit to a buffer (a deletion ignores its recorded text).
    pub fn apply(&self, buffer: &mut Buffer) -> (r: Result<(), BufferError>)
        ensures
            edit_effect(old(buffer)@, *self) is Some ==> r is Ok && final(buffer)@ == edit_effect(
                old(buffer)@,
                *self,
            )->0,
            edit_effect(old(buffer)@, *self) is None ==> r is Err && final(buffer)@ == old(buffer)@,
            final(buffer).spec_line_ending() == old(buffer).spec_line_ending(),
            final(buffer).spec_path() == old(buffer).spec_path(),
    {
        match self {
            Edit::Insert { position, text } => {
                match buffer.insert(*position, text.as_str()) {
                    Ok(()) => Ok(()),
                    Err(e) => Err(e),
                }
            },
            Edit::Delete { range, .. } => {
                match buffer.delete(*range) {
                    Ok(_) => Ok(()),
                    Err(e) => Err(e),
                }
            },
        }
    }

    /// The edit that undoes this one.
    pub fn inverse(&self) -> (e: Edit)
        requires
            invertible(*self),
        ensures
            e == inverse_edit(*self),
    {
        match self {
            Edit::Insert { position, text } => {
                let end = insert_end_position(*position, text.as_str());
                Edit::Delete { range: Range { start: *position, end }, deleted_text: text.clone() }
            },
            Edit::Delete { range, deleted_text } => {
                Edit::Insert { position: range.start, text: deleted_text.clone() }
            },
        }
    }

    /// Where the edit starts.
    pub fn position(&self) -> (p: Position)
        ensures
            p == (match *self {
                Edit::Insert { position, .. } => position,
                Edit::Delete { range, .. } => range.start,
            }),
    {
        match self {
            Edit::Insert { position, .. } => *position,
            Edit::Delete { range, .. } => range.start,
        }
    }

    /// A copy of this edit.
    pub fn duplicate(&self) -> (e: Edit)
        ensures
            e == *self,
    {
        match self {
            Edit::Insert { position, text } => Edit::Insert { position: *position, text: text.clone() },
            Edit::Delete { range, deleted_text } => Edit::Delete {
                range: *range,
                deleted_text: deleted_text.clone(),
            },
        }
    }

    fn text_len(&self) -> (n: usize)
        ensures
            n == edit_bytes(*self),
    {
        match self {
            Edit::Insert { text, .. } => text.as_str().len(),
            Edit::Delete { deleted_text, .. } => deleted_text.as_str().len(),
        }
    }
}

/// The UTF-8 length of an edit's text.
pub open spec fn edit_bytes(e: Edit) -> nat {
    match e {
        Edit::Insert { text, .. } => vstd::utf8::encode_utf8(text@).len() as usize as nat,
        Edit::Delete { deleted_text, .. } => vstd::utf8::encode_utf8(deleted_text@).len() as usize as nat,
    }
}

/// A group of edits undone and redone together, with the selections from
/// before and after it.
#[derive(Debug, Clone)]
pub struct UndoGroup {
    edits: Vec<Edit>,
    selections_before: Selections,
    selections_after: Selections,
    timestamp: Instant,
    label: Option<String>,
}

impl UndoGroup {
    /// The edits, oldest first.
    pub closed spec fn spec_edits(&self) -> Seq<Edit> {
        self.edits@
    }

    /// The selections from before the group.
    pub closed spec fn spec_before(&self) -> (Seq<crate::document::selection::Selection>, nat) {
        self.selections_before@
    }

    /// The selections from after the group.
    pub closed spec fn spec_after(&self) -> (Seq<crate::document::selection::Selection>, nat) {
        self.selections_after@
    }

    fn new(selections: Selections) -> (g: Self)
        ensures
            g.spec_edits().len() == 0,
            g.spec_before() == selections@,
            g.spec_after() == selections@,
    {
        Self {
            edits: Vec::new(),
            selections_before: selections.duplicate(),
            selections_after: selections,
            timestamp: instant_now(),
            label: None,
        }
    }

    fn is_empty(&self) -> (b: bool)
        ensures
            b == (self.spec_edits().len() == 0),
    {
        self.edits.len() == 0
    }

    /// Applies the edits in order, stopping at the first failure.
    pub fn apply(&self, buffer: &mut Buffer) -> (r: Result<(), BufferError>)
        ensures
            final(buffer)@ == apply_edits(old(buffer)@, self.spec_edits()).0,
            r is Ok <==> apply_edits(old(buffer)@, self.spec_edits()).1,
            final(buffer).spec_line_ending() == old(buffer).spec_line_ending(),
            final(buffer).spec_path() == old(buffer).spec_path(),
    {
        let n = self.edits.len();
        let mut i: usize = 0;
        proof {
            assert(self.edits@.skip(0) =~= self.edits@);
        }
        while i < n
            invariant
                n == self.edits@.len(),
                i <= n,
                apply_edits(buffer@, self.edits@.skip(i as int)) == apply_edits(
                    old(buffer)@,
                    self.edits@,
                ),
                buffer.spec_line_ending() == old(buffer).spec_line_ending(),
                buffer.spec_path() == old(buffer).spec_path(),
            decreases n - i,
        {
            proof {
                assert(self.edits@.skip(i as int)[0] == self.edits@[i as int]);
                assert(self.edits@.skip(i as int).drop_first() == self.edits@.skip(i + 1));
            }
            match self.edits[i].apply(buffer) {
                Ok(()) => {},
                Err(e) => return Err(e),
            }
            i = i + 1;
        }
        proof {
            assert(self.edits@.skip(n as int).len() == 0);
        }
        Ok(())
    }

    /// Applies the inverses of the edits, last edit first, stopping at the
    /// first failure.
    pub fn undo(&self, buffer: &mut Buffer) -> (r: Result<(), BufferError>)
        requires
            forall|i: int| 0 <= i < self.spec_edits().len() ==> invertible(#[trigger] self.spec_edits()[i]),
        ensures
            final(buffer)@ == apply_edits(old(buffer)@, undo_edits(self.spec_edits())).0,
            r is Ok <==> apply_edits(old(buffer)@, undo_edits(self.spec_edits())).1,
            final(buffer).spec_line_ending() == old(buffer).spec_line_ending(),
            final(buffer).spec_path() == old(buffer).spec_path(),
    {
        let n = self.edits.len();
        let mut i: usize = n;
        let ghost inv = undo_edits(self.edits@);
        proof {
            assert(inv.skip(0) =~= inv);
            assert forall|k: int| 0 <= k < n implies invertible(#[trigger] self.edits@[k]) by {
                assert(self.spec_edits()[k] == self.edits@[k]);
            }
        }
        while i > 0
            invariant
                n == self.edits@.len(),
                i <= n,
                inv == undo_edits(self.edits@),
                inv.len() == n,
                forall|k: int| 0 <= k < n ==> invertible(#[trigger] self.edits@[k]),
                apply_edits(buffer@, inv.skip(n - i)) == apply_edits(old(buffer)@, inv),
                buffer.spec_line_ending() == old(buffer).spec_line_ending(),
                buffer.spec_path() == old(buffer).spec_path(),
            decreases i,
        {
            let e = self.edits[i - 1].inverse();
            proof {
                assert(inv[n - i] == inverse_edit(self.edits@[i - 1]));
                assert(inv.skip(n - i)[0] == inv[n - i]);
                assert(inv.skip(n - i).drop_first() == inv.skip(n - i + 1));
            }
            match e.apply(buffer) {
                Ok(()) => {},
                Err(err) => return Err(err),
            }
            i = i - 1;
        }
        proof {
            assert(inv.skip(n as int).len() == 0);
        }
        Ok(())
    }

    /// The selections from before the group.
    pub fn selections_before(&self) -> (s: &Selections)
        ensures
            s@ == self.spec_before(),
    {
        &self.selections_before
    }

    /// The selections from after the group.
    pub fn selections_after(&self) -> (s: &Selections)
        ensures
            s@ == self.spec_after(),
    {
        &self.selections_after
    }
}

/// Whether an edit `elapsed` nanoseconds after the last one joins its
/// group: when less than the grouping timeout has passed.
pub open spec fn joins(elapsed: u128, timeout: u128) -> bool {
    elapsed < timeout
}

/// Whether an edit `elapsed` nanoseconds after the last one joins its
/// group (see [`joins`]).
pub fn joins_group(elapsed: u128, timeout: u128) -> (b: bool)
    ensures
        b == joins(elapsed, timeout),
{
    elapsed < timeout
}

/// Settings of the undo history.
#[derive(Debug, Clone)]
pub struct UndoConfig {
    /// The most groups kept on the undo stack
    pub max_groups: usize,
    /// Edits closer together than this join one group
    pub group_timeout: Duration,
    /// Minimum interval between groups
    pub min_group_interval: Duration,
}

impl UndoConfig {
    /// The defaults: 10000 groups, a 300 ms grouping timeout and a 50 ms
    /// minimum group interval.
    pub fn default_config() -> (c: UndoConfig)
        ensures
            c.max_groups == 10000,
    {
        UndoConfig { max_groups: 10000, group_timeout: millis(300), min_group_interval: millis(50) }
    }
}

impl Default for UndoConfig {
    /// The defaults (see [`UndoConfig::default_config`]).
    fn default() -> (c: Self)
        ensures
            c.max_groups == 10000,
    {
        Self::default_config()
    }
}

/// The undo stack after a finished group is moved onto it: a non-empty
/// group is pushed, then the oldest groups beyond `max` are dropped.
pub open spec fn close_group(undo: Seq<UndoGroup>, cur: Option<UndoGroup>, max: usize) -> Seq<UndoGroup> {
    match cur {
        Some(g) => if g.spec_edits().len() > 0 {
            let u = undo.push(g);
            if u.len() > max { u.skip(u.len() - max) } else { u }
        } else {
            undo
        },
        None => undo,
    }
}

/// The histories `s1` that recording `edit` (with the selections `sel`
/// after it) can turn `s0` into: the redo stack is emptied and either the
/// edit joins the open group, or the open group is finished and a new one
/// holding just this edit opens. With no earlier edit time, only the
/// latter.
pub open spec fn push_result(s0: UndoStack, s1: UndoStack, edit: Edit, sel: (Seq<crate::document::selection::Selection>, nat)) -> bool {
    &&& s1.spec_redo().len() == 0
    &&& s1.spec_has_last_time()
    &&& s1.spec_max_groups() == s0.spec_max_groups()
    &&& s1.spec_current() is Some
    &&& {
        ||| s0.spec_current() is Some && s1.spec_undo() == s0.spec_undo()
            && s1.spec_current()->0.spec_edits() == s0.spec_current()->0.spec_edits().push(edit)
            && s1.spec_current()->0.spec_before() == s0.spec_current()->0.spec_before()
            && s1.spec_current()->0.spec_after() == sel
        ||| s1.spec_undo() == close_group(s0.spec_undo(), s0.spec_current(), s0.spec_max_groups())
            && s1.spec_current()->0.spec_edits() == seq![edit]
            && s1.spec_current()->0.spec_before() == sel
            && s1.spec_current()->0.spec_after() == sel
    }
    &&& !s0.spec_has_last_time() ==> {
        &&& s1.spec_undo() == close_group(s0.spec_undo(), s0.spec_current(), s0.spec_max_groups())
        &&& s1.spec_current()->0.spec_edits() == seq![edit]
        &&& s1.spec_current()->0.spec_before() == sel
    }
}

/// The history `s1` that recording `edit` turns `s0` into, when `join`
/// says whether the edit joins the open group: the redo stack is emptied;
/// a joining edit is added to the open group (when there is one);
/// otherwise the open group is finished and a new one holding just this
/// edit opens.
pub open spec fn push_outcome(s0: UndoStack, s1: UndoStack, edit: Edit, sel: (Seq<crate::document::selection::Selection>, nat), join: bool) -> bool {
    &&& s1.spec_redo().len() == 0
    &&& s1.spec_has_last_time()
    &&& s1.spec_max_groups() == s0.spec_max_groups()
    &&& s1.spec_timeout_nanos() == s0.spec_timeout_nanos()
    &&& s1.spec_current() is Some
    &&& join && s0.spec_current() is Some ==> {
        &&& s1.spec_undo() == s0.spec_undo()
        &&& s1.spec_current()->0.spec_edits() == s0.spec_current()->0.spec_edits().push(edit)
        &&& s1.spec_current()->0.spec_before() == s0.spec_current()->0.spec_before()
        &&& s1.spec_current()->0.spec_after() == sel
    }
    &&& !(join && s0.spec_current() is Some) ==> {
        &&& s1.spec_undo() == close_group(s0.spec_undo(), s0.spec_current(), s0.spec_max_groups())
        &&& s1.spec_current()->0.spec_edits() == seq![edit]
        &&& s1.spec_current()->0.spec_before() == sel
        &&& s1.spec_current()->0.spec_after() == sel
    }
}

/// The history `s1` that recording `edit` turns `s0` into, `elapsed`
/// nanoseconds after the last edit: the edit joins the open group when a
/// last edit time is recorded and less than the grouping timeout has
/// passed (see [`push_outcome`]).
pub open spec fn timed_outcome(s0: UndoStack, s1: UndoStack, edit: Edit, sel: (Seq<crate::document::selection::Selection>, nat), elapsed: u128) -> bool {
    push_outcome(s0, s1, edit, sel, s0.spec_has_last_time() && joins(elapsed, s0.spec_timeout_nanos()))
}

/// Two histories that no contract tells apart.
pub open spec fn same_history(a: UndoStack, b: UndoStack) -> bool {
    &&& a.spec_undo() == b.spec_undo()
    &&& a.spec_redo() == b.spec_redo()
    &&& a.spec_current() == b.spec_current()
    &&& a.spec_max_groups() == b.spec_max_groups()
    &&& a.spec_has_last_time() == b.spec_has_last_time()
}

/// The histories that recording `edits` one after another, each with the
/// selections `sel`, can turn `s0` into.
pub open spec fn push_results(s0: UndoStack, s1: UndoStack, edits: Seq<Edit>, sel: (Seq<crate::document::selection::Selection>, nat)) -> bool
    decreases edits.len(),
{
    if edits.len() == 0 {
        same_history(s0, s1)
    } else {
        exists|m: UndoStack| push_results(s0, m, edits.drop_last(), sel) && #[trigger] push_result(m, s1, edits.last(), sel)
    }
}

/// Recording one more edit extends a chain of recordings.
pub proof fn lemma_push_results_step(s0: UndoStack, m: UndoStack, s1: UndoStack, es: Seq<Edit>, e: Edit, sel: (Seq<crate::document::selection::Selection>, nat))
    requires
        push_results(s0, m, es, sel),
        push_result(m, s1, e, sel),
    ensures
        push_results(s0, s1, es.push(e), sel),
{
    let es2 = es.push(e);
    assert(es2.drop_last() =~= es);
    assert(es2.last() == e);
    assert(push_results(s0, m, es2.drop_last(), sel) && push_result(m, s1, es2.last(), sel));
}

/// Every edit of the group has an inverse.
pub open spec fn group_invertible(g: UndoGroup) -> bool {
    forall|i: int| 0 <= i < g.spec_edits().len() ==> invertible(#[trigger] g.spec_edits()[i])
}

/// Every edit of every group has an inverse.
pub open spec fn groups_invertible(gs: Seq<UndoGroup>) -> bool {
    forall|i: int| 0 <= i < gs.len() ==> group_invertible(#[trigger] gs[i])
}

/// Every edit recorded in the history has an inverse.
pub open spec fn history_invertible(h: UndoStack) -> bool {
    &&& groups_invertible(h.spec_undo())
    &&& groups_invertible(h.spec_redo())
    &&& h.spec_current() is Some ==> group_invertible(h.spec_current()->0)
}

proof fn lemma_groups_invertible_drop_last(gs: Seq<UndoGroup>)
    requires
        groups_invertible(gs),
        gs.len() > 0,
    ensures
        groups_invertible(gs.drop_last()),
        group_invertible(gs.last()),
{
    assert forall|i: int| 0 <= i < gs.drop_last().len() implies group_invertible(#[trigger] gs.drop_last()[i]) by {
        assert(gs.drop_last()[i] == gs[i]);
    }
}

proof fn lemma_groups_invertible_push(gs: Seq<UndoGroup>, g: UndoGroup)
    requires
        groups_invertible(gs),
        group_invertible(g),
    ensures
        groups_invertible(gs.push(g)),
{
    assert forall|i: int| 0 <= i < gs.push(g).len() implies group_invertible(#[trigger] gs.push(g)[i]) by {
        if i < gs.len() {
            assert(gs.push(g)[i] == gs[i]);
        }
    }
}

/// The view of an optional set of selections.
pub open spec fn selections_view(r: Option<Selections>) -> Option<(Seq<crate::document::selection::Selection>, nat)> {
    match r {
        Some(s) => Some(s@),
        None => None,
    }
}

/// What an undo does. The group undone is the open group when it has
/// edits, else the newest finished group; its inverse edits are applied to
/// the text from `t0`, last edit first, stopping at the first that does not
/// apply. When all applied, the group moves to the redo stack and the
/// selections from before it are the result; otherwise the group is
/// dropped and the result is `None`. With nothing to undo, nothing changes
/// but that an open group without edits is discarded.
pub open spec fn undo_outcome(s0: UndoStack, s1: UndoStack, t0: Seq<char>, t1: Seq<char>, r: Option<(Seq<crate::document::selection::Selection>, nat)>) -> bool {
    let cur = s0.spec_current();
    let from_current = cur is Some && cur->0.spec_edits().len() > 0;
    let g = if from_current { cur->0 } else { s0.spec_undo().last() };
    let res = apply_edits(t0, undo_edits(g.spec_edits()));
    &&& s1.spec_current() is None
    &&& s1.spec_max_groups() == s0.spec_max_groups()
    &&& s1.spec_has_last_time() == s0.spec_has_last_time()
    &&& (!from_current && s0.spec_undo().len() == 0) ==> {
        &&& r is None
        &&& t1 == t0
        &&& s1.spec_undo() == s0.spec_undo()
        &&& s1.spec_redo() == s0.spec_redo()
    }
    &&& (from_current || s0.spec_undo().len() > 0) ==> {
        &&& t1 == res.0
        &&& s1.spec_undo() == (if from_current { s0.spec_undo() } else { s0.spec_undo().drop_last() })
        &&& res.1 ==> r == Some(g.spec_before()) && s1.spec_redo() == s0.spec_redo().push(g)
        &&& !res.1 ==> r is None && s1.spec_redo() == s0.spec_redo()
    }
}

/// What a redo does. The most recently undone group's edits are applied
/// to the text from `t0` in order, stopping at the first that does not
/// apply. When all applied, the group moves to the undo stack and the
/// selections from after it are the result; otherwise the group is
/// dropped and the result is `None`. With nothing to redo, nothing
/// changes.
pub open spec fn redo_outcome(s0: UndoStack, s1: UndoStack, t0: Seq<char>, t1: Seq<char>, r: Option<(Seq<crate::document::selection::Selection>, nat)>) -> bool {
    &&& s1.spec_current() == s0.spec_current()
    &&& s1.spec_max_groups() == s0.spec_max_groups()
    &&& s1.spec_has_last_time() == s0.spec_has_last_time()
    &&& s0.spec_redo().len() == 0 ==> {
        &&& r is None
        &&& t1 == t0
        &&& s1.spec_undo() == s0.spec_undo()
        &&& s1.spec_redo() == s0.spec_redo()
    }
    &&& s0.spec_redo().len() > 0 ==> {
        let g = s0.spec_redo().last();
        let res = apply_edits(t0, g.spec_edits());
        &&& t1 == res.0
        &&& s1.spec_redo() == s0.spec_redo().drop_last()
        &&& res.1 ==> r == Some(g.spec_after()) && s1.spec_undo() == s0.spec_undo().push(g)
        &&& !res.1 ==> r is None && s1.spec_undo() == s0.spec_undo()
    }
}

/// The undo/redo history.
pub struct UndoStack {
    config: UndoConfig,
    undo_stack: Vec<UndoGroup>,
    redo_stack: Vec<UndoGroup>,
    current_group: Option<UndoGroup>,
    last_edit_time: Option<Instant>,
}

impl UndoStack {
    /// The finished groups, oldest first.
    pub closed spec fn spec_undo(&self) -> Seq<UndoGroup> {
        self.undo_stack@
    }

    /// The undone groups, most recently undone last.
    pub closed spec fn spec_redo(&self) -> Seq<UndoGroup> {
        self.redo_stack@
    }

    /// The group being filled.
    pub closed spec fn spec_current(&self) -> Option<UndoGroup> {
        self.current_group
    }

    /// The configured maximum number of groups.
    pub closed spec fn spec_max_groups(&self) -> usize {
        self.config.max_groups
    }

    /// Whether a last edit time is recorded.
    pub closed spec fn spec_has_last_time(&self) -> bool {
        self.last_edit_time is Some
    }

    /// The grouping timeout, in nanoseconds.
    pub closed spec fn spec_timeout_nanos(&self) -> u128 {
        duration_nanos(self.config.group_timeout)
    }

    /// An empty history with the given settings.
    pub fn new(config: UndoConfig) -> (s: Self)
        ensures
            s.spec_undo().len() == 0,
            s.spec_redo().len() == 0,
            s.spec_current() is None,
            !s.spec_has_last_time(),
            s.spec_max_groups() == config.max_groups,
    {
        Self {
            config,
            undo_stack: Vec::new(),
            redo_stack: Vec::new(),
            current_group: None,
            last_edit_time: None,
        }
    }

    /// An empty history with the given settings.
    pub fn with_config(config: UndoConfig) -> (s: Self)
        ensures
            s.spec_undo().len() == 0,
            s.spec_redo().len() == 0,
            s.spec_current() is None,
            !s.spec_has_last_time(),
            s.spec_max_groups() == config.max_groups,
    {
        Self::new(config)
    }

    /// An empty history with the default settings.
    pub fn default_stack() -> (s: Self)
        ensures
            s.spec_undo().len() == 0,
            s.spec_redo().len() == 0,
            s.spec_current() is None,
            !s.spec_has_last_time(),
            s.spec_max_groups() == 10000,
    {
        Self::new(UndoConfig::default_config())
    }

    /// The settings.
    pub fn config(&self) -> (c: &UndoConfig)
        ensures
            c.max_groups == self.spec_max_groups(),
    {
        &self.config
    }

    /// Replaces the settings.
    pub fn set_config(&mut self, config: UndoConfig)
        ensures
            final(self).spec_max_groups() == config.max_groups,
            final(self).spec_undo() == old(self).spec_undo(),
            final(self).spec_redo() == old(self).spec_redo(),
            final(self).spec_current() == old(self).spec_current(),
    {
        self.config = config;
    }

    /// Whether there is something to undo: a finished group, or a current
    /// group with edits.
    pub open spec fn can_undo_spec(&self) -> bool {
        self.spec_undo().len() > 0 || (self.spec_current() is Some && self.spec_current()->0.spec_edits().len() > 0)
    }

    /// Whether there is something to undo: a finished group, or a current
    /// group with edits.
    pub fn can_undo(&self) -> (b: bool)
        ensures
            b == self.can_undo_spec(),
    {
        if self.undo_stack.len() > 0 {
            return true;
        }
        match &self.current_group {
            Some(g) => !g.is_empty(),
            None => false,
        }
    }

    /// Whether there is something to redo.
    pub fn can_redo(&self) -> (b: bool)
        ensures
            b == (self.spec_redo().len() > 0),
    {
        self.redo_stack.len() > 0
    }

    /// The number of groups that can be undone: the finished groups, plus
    /// the current group when it holds edits (saturating at `usize::MAX`).
    pub fn undo_count(&self) -> (n: usize)
        ensures
            n == (if self.spec_current() is Some && self.spec_current()->0.spec_edits().len() > 0 {
                if self.spec_undo().len() < usize::MAX { (self.spec_undo().len() + 1) as int } else { usize::MAX as int }
            } else {
                self.spec_undo().len() as int
            }),
            (n > 0) == self.can_undo_spec(),
    {
        let extra: usize = match &self.current_group {
            Some(g) => if g.is_empty() { 0 } else { 1 },
            None => 0,
        };
        self.undo_stack.len().saturating_add(extra)
    }

    /// The number of groups to redo.
    pub fn redo_count(&self) -> (n: usize)
        ensures
            n == self.spec_redo().len(),
    {
        self.redo_stack.len()
    }

    fn end_current_group(&mut self)
        ensures
            final(self).spec_undo() == close_group(old(self).spec_undo(), old(self).spec_current(), old(self).spec_max_groups()),
            final(self).spec_current() is None,
            final(self).spec_redo() == old(self).spec_redo(),
            final(self).spec_max_groups() == old(self).spec_max_groups(),
            final(self).spec_has_last_time() == old(self).spec_has_last_time(),
            final(self).spec_timeout_nanos() == old(self).spec_timeout_nanos(),
            history_invertible(*old(self)) ==> history_invertible(*final(self)),
    {
        let cur = self.current_group.take();
        match cur {
            Some(group) => {
                if !group.is_empty() {
                    self.undo_stack.push(group);
                    if self.undo_stack.len() > self.config.max_groups {
                        let excess = self.undo_stack.len() - self.config.max_groups;
                        let ghost u = self.undo_stack@;
                        let tail = self.undo_stack.split_off(excess);
                        self.undo_stack = tail;
                        proof {
                            assert forall|i: int| 0 <= i < self.undo_stack@.len() implies self.undo_stack@[i] == u[i + excess] by {}
                        }
                    }
                }
            },
            None => {},
        }
    }

    /// Finishes the current group and starts a new, empty one.
    pub fn begin_group(&mut self, selections: Selections)
        ensures
            final(self).spec_undo() == close_group(old(self).spec_undo(), old(self).spec_current(), old(self).spec_max_groups()),
            final(self).spec_current() is Some,
            final(self).spec_current()->0.spec_edits().len() == 0,
            final(self).spec_current()->0.spec_before() == selections@,
            final(self).spec_redo() == old(self).spec_redo(),
            final(self).spec_max_groups() == old(self).spec_max_groups(),
            history_invertible(*old(self)) ==> history_invertible(*final(self)),
    {
        self.end_current_group();
        self.current_group = Some(UndoGroup::new(selections));
    }

    /// Finishes the current group.
    pub fn end_group(&mut self)
        ensures
            final(self).spec_undo() == close_group(old(self).spec_undo(), old(self).spec_current(), old(self).spec_max_groups()),
            final(self).spec_current() is None,
            final(self).spec_redo() == old(self).spec_redo(),
            final(self).spec_max_groups() == old(self).spec_max_groups(),
            history_invertible(*old(self)) ==> history_invertible(*final(self)),
    {
        self.end_current_group();
    }

    /// Records an edit at time `now`: the redo stack is cleared; when
    /// `join` holds and a group is open, the edit joins it; otherwise the
    /// open group is finished and a new group with just this edit opens.
    pub fn push_at(&mut self, edit: Edit, selections: Selections, now: Instant, join: bool)
        ensures
            push_outcome(*old(self), *final(self), edit, selections@, join),
            history_invertible(*old(self)) && invertible(edit) ==> history_invertible(*final(self)),
            final(self).spec_redo().len() == 0,
            final(self).spec_has_last_time(),
            final(self).spec_max_groups() == old(self).spec_max_groups(),
            final(self).spec_current() is Some,
            join && old(self).spec_current() is Some ==> {
                &&& final(self).spec_undo() == old(self).spec_undo()
                &&& final(self).spec_current()->0.spec_edits() == old(self).spec_current()->0.spec_edits().push(edit)
                &&& final(self).spec_current()->0.spec_before() == old(self).spec_current()->0.spec_before()
                &&& final(self).spec_current()->0.spec_after() == selections@
            },
            !(join && old(self).spec_current() is Some) ==> {
                &&& final(self).spec_undo() == close_group(old(self).spec_undo(), old(self).spec_current(), old(self).spec_max_groups())
                &&& final(self).spec_current()->0.spec_edits() == seq![edit]
                &&& final(self).spec_current()->0.spec_before() == selections@
                &&& final(self).spec_current()->0.spec_after() == selections@
            },
    {
        let ghost inv0 = history_invertible(*self) && invertible(edit);
        self.redo_stack.clear();
        if join && self.current_group.is_some() {
            let mut g = self.current_group.take().unwrap();
            let ghost e0 = g.edits@;
            g.edits.push(edit);
            g.selections_after = selections;
            proof {
                if inv0 {
                    assert forall|i: int| 0 <= i < g.edits@.len() implies invertible(#[trigger] g.edits@[i]) by {
                        if i < e0.len() {
                            assert(g.edits@[i] == e0[i]);
                            assert(old(self).spec_current()->0.spec_edits()[i] == e0[i]);
                        }
                    }
                }
            }
            self.current_group = Some(g);
        } else {
            self.end_current_group();
            let mut group = UndoGroup::new(selections.duplicate());
            group.edits.push(edit);
            group.selections_after = selections;
            proof {
                assert(group.edits@ == seq![edit]);
            }
            self.current_group = Some(group);
        }
        self.last_edit_time = Some(now);
        proof {
            if inv0 {
                assert(groups_invertible(self.redo_stack@));
            }
        }
    }

    /// Records an edit now. Whether it joins the open group depends on the
    /// clock (an edit within the grouping timeout of the last edit joins);
    /// either way the result is one of the two outcomes of
    /// [`UndoStack::push_at`].
    pub fn push(&mut self, edit: Edit, selections: Selections)
        ensures
            exists|elapsed: u128| #[trigger] timed_outcome(*old(self), *final(self), edit, selections@, elapsed),
            push_result(*old(self), *final(self), edit, selections@),
            history_invertible(*old(self)) && invertible(edit) ==> history_invertible(*final(self)),
    {
        let now = instant_now();
        let ghost mut gap: u128 = 0;
        let join = match &self.last_edit_time {
            Some(last) => {
                let elapsed = nanos_of(&duration_between(&now, last));
                let timeout = nanos_of(&self.config.group_timeout);
                proof {
                    gap = elapsed;
                }
                joins_group(elapsed, timeout)
            },
            None => false,
        };
        let ghost sel = selections@;
        self.push_at(edit, selections, now, join);
        proof {
            assert(join == (old(self).spec_has_last_time() && joins(gap, old(self).spec_timeout_nanos())));
            assert(timed_outcome(*old(self), *self, edit, sel, gap));
        }
    }

    /// Undoes the open group when it has edits, else the newest finished
    /// group; returns the selections from before it. An open group without
    /// edits is discarded. A group whose undo fails part-way is dropped and
    /// `None` is returned.
    pub fn undo(&mut self, buffer: &mut Buffer) -> (r: Option<Selections>)
        requires
            history_invertible(*old(self)),
        ensures
            history_invertible(*final(self)),
            undo_outcome(*old(self), *final(self), old(buffer)@, final(buffer)@, selections_view(r)),
            final(buffer).spec_line_ending() == old(buffer).spec_line_ending(),
            final(buffer).spec_path() == old(buffer).spec_path(),
    {
        let cur = self.current_group.take();
        match cur {
            Some(group) => {
                if !group.is_empty() {
                    match group.undo(buffer) {
                        Ok(()) => {},
                        Err(_) => return None,
                    }
                    let selections = group.selections_before().duplicate();
                    proof {
                        lemma_groups_invertible_push(self.redo_stack@, group);
                    }
                    self.redo_stack.push(group);
                    return Some(selections);
                }
            },
            None => {},
        }
        if self.undo_stack.len() == 0 {
            return None;
        }
        proof {
            lemma_groups_invertible_drop_last(self.undo_stack@);
        }
        let popped = self.undo_stack.pop();
        let group = match popped {
            Some(g) => g,
            None => return None,
        };
        match group.undo(buffer) {
            Ok(()) => {},
            Err(_) => return None,
        }
        let selections = group.selections_before().duplicate();
        proof {
            lemma_groups_invertible_push(self.redo_stack@, group);
        }
        self.redo_stack.push(group);
        Some(selections)
    }

    /// Redoes the most recently undone group; returns the selections from
    /// after it. A group whose redo fails part-way is dropped and `None` is
    /// returned.
    pub fn redo(&mut self, buffer: &mut Buffer) -> (r: Option<Selections>)
        ensures
            history_invertible(*old(self)) ==> history_invertible(*final(self)),
            redo_outcome(*old(self), *final(self), old(buffer)@, final(buffer)@, selections_view(r)),
            final(buffer).spec_line_ending() == old(buffer).spec_line_ending(),
            final(buffer).spec_path() == old(buffer).spec_path(),
    {
        if self.redo_stack.len() == 0 {
            return None;
        }
        proof {
            if history_invertible(*old(self)) {
                lemma_groups_invertible_drop_last(self.redo_stack@);
            }
        }
        let popped = self.redo_stack.pop();
        let group = match popped {
            Some(g) => g,
            None => return None,
        };
        match group.apply(buffer) {
            Ok(()) => {},
            Err(_) => return None,
        }
        let selections = group.selections_after().duplicate();
        proof {
            if history_invertible(*old(self)) {
                lemma_groups_invertible_push(self.undo_stack@, group);
            }
        }
        self.undo_stack.push(group);
        Some(selections)
    }

    /// Forgets the whole history.
    pub fn clear(&mut self)
        ensures
            final(self).spec_undo().len() == 0,
            final(self).spec_redo().len() == 0,
            final(self).spec_current() is None,
            !final(self).spec_has_last_time(),
            final(self).spec_max_groups() == old(self).spec_max_groups(),
            history_invertible(*final(self)),
    {
        self.undo_stack.clear();
        self.redo_stack.clear();
        self.current_group = None;
        self.last_edit_time = None;
    }

    /// Forgets the redo stack.
    pub fn clear_redo(&mut self)
        ensures
            final(self).spec_undo() == old(self).spec_undo(),
            final(self).spec_redo().len() == 0,
            final(self).spec_current() == old(self).spec_current(),
            final(self).spec_max_groups() == old(self).spec_max_groups(),
            final(self).spec_has_last_time() == old(self).spec_has_last_time(),
            history_invertible(*old(self)) ==> history_invertible(*final(self)),
    {
        self.redo_stack.clear();
    }
}

/// The UTF-8 length of the texts of a list of edits.
pub open spec fn edits_bytes(es: Seq<Edit>) -> nat
    decreases es.len(),
{
    if es.len() == 0 {
        0
    } else {
        edits_bytes(es.drop_last()) + edit_bytes(es.last())
    }
}

/// The UTF-8 length of the texts of all edits of a list of groups.
pub open spec fn groups_bytes(gs: Seq<UndoGroup>) -> nat
    decreases gs.len(),
{
    if gs.len() == 0 {
        0
    } else {
        groups_bytes(gs.drop_last()) + edits_bytes(gs.last().spec_edits())
    }
}

proof fn lemma_edits_bytes_prefix(es: Seq<Edit>, i: int)
    requires
        0 <= i <= es.len(),
    ensures
        edits_bytes(es.take(i)) <= edits_bytes(es),
    decreases es.len(),
{
    if i < es.len() {
        assert(es.drop_last().take(i) =~= es.take(i));
        lemma_edits_bytes_prefix(es.drop_last(), i);
    } else {
        assert(es.take(i) =~= es);
    }
}

proof fn lemma_groups_bytes_prefix(gs: Seq<UndoGroup>, i: int)
    requires
        0 <= i <= gs.len(),
    ensures
        groups_bytes(gs.take(i)) <= groups_bytes(gs),
    decreases gs.len(),
{
    if i < gs.len() {
        assert(gs.drop_last().take(i) =~= gs.take(i));
        lemma_groups_bytes_prefix(gs.drop_last(), i);
    } else {
        assert(gs.take(i) =~= gs);
    }
}

impl UndoGroup {
    fn byte_size(&self) -> (n: usize)
        requires
            edits_bytes(self.spec_edits()) <= usize::MAX,
        ensures
            n == edits_bytes(self.spec_edits()),
    {
        let mut total: usize = 0;
        let mut i: usize = 0;
        while i < self.edits.len()
            invariant
                i <= self.edits@.len(),
                total == edits_bytes(self.edits@.take(i as int)),
                edits_bytes(self.edits@) <= usize::MAX,
            decreases self.edits@.len() - i,
        {
            proof {
                assert(self.edits@.take(i + 1).drop_last() =~= self.edits@.take(i as int));
                lemma_edits_bytes_prefix(self.edits@, i + 1);
            }
            total = total + self.edits[i].text_len();
            i = i + 1;
        }
        proof {
            assert(self.edits@.take(i as int) =~= self.edits@);
        }
        total
    }
}

fn stack_bytes(gs: &Vec<UndoGroup>) -> (n: usize)
    requires
        groups_bytes(gs@) <= usize::MAX,
    ensures
        n == groups_bytes(gs@),
{
    let mut total: usize = 0;
    let mut i: usize = 0;
    while i < gs.len()
        invariant
            i <= gs@.len(),
            total == groups_bytes(gs@.take(i as int)),
            groups_bytes(gs@) <= usize::MAX,
        decreases gs@.len() - i,
    {
        proof {
            assert(gs@.take(i + 1).drop_last() =~= gs@.take(i as int));
            lemma_groups_bytes_prefix(gs@, i + 1);
        }
        total = total + gs[i].byte_size();
        i = i + 1;
    }
    proof {
        assert(gs@.take(i as int) =~= gs@);
    }
    total
}

/// The UTF-8 length of the texts held by a history: finished, undone and
/// open groups together.
pub open spec fn history_bytes(s: &UndoStack) -> nat {
    groups_bytes(s.spec_undo()) + groups_bytes(s.spec_redo()) + match s.spec_current() {
        Some(g) => edits_bytes(g.spec_edits()),
        None => 0,
    }
}

impl UndoStack {
    /// An estimate of the memory held: the UTF-8 length of all recorded
    /// texts.
    pub fn memory_usage(&self) -> (n: usize)
        requires
            history_bytes(self) <= usize::MAX,
        ensures
            n == history_bytes(self),
    {
        let a = stack_bytes(&self.undo_stack);
        let b = stack_bytes(&self.redo_stack);
        let c = match &self.current_group {
            Some(g) => g.byte_size(),
            None => 0,
        };
        a + b + c
    }
}


impl Default for UndoStack {
    /// An empty history with the default settings.
    fn default() -> (s: Self)
        ensures
            s.spec_undo().len() == 0,
            s.spec_redo().len() == 0,
            s.spec_current() is None,
            !s.spec_has_last_time(),
            s.spec_max_groups() == 10000,
    {
        Self::default_stack()
    }
}

/// After an edit is recorded there is something to undo and nothing to
/// redo, whichever way the edit was grouped.
pub proof fn lemma_push_enables_undo(s0: UndoStack, s1: UndoStack, edit: Edit, sel: (Seq<crate::document::selection::Selection>, nat), join: bool)
    requires
        push_outcome(s0, s1, edit, sel, join),
    ensures
        s1.can_undo_spec(),
        s1.spec_redo().len() == 0,
{
}

} // verus!
