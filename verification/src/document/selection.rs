//! Selections and multi-cursor selection sets.

use vstd::prelude::*;
use vstd::std_specs::iter::IteratorSpec;
use crate::buffer::position::{pos_le, pos_lt, pos_max, pos_min, Position, Range};

verus! {

broadcast use {vstd::seq_lib::group_to_multiset_ensures, vstd::multiset::group_multiset_axioms};

/// A selection: an anchor that stays put and a head (the cursor) that moves.
#[derive(Debug, Clone, Copy, PartialEq, Eq, Structural)]
pub struct Selection {
    anchor: Position,
    cursor: Position,
}

/// The ordered range that a selection covers.
pub open spec fn sel_range(s: Selection) -> Range {
    Range { start: pos_min(s.spec_anchor(), s.spec_head()), end: pos_max(s.spec_anchor(), s.spec_head()) }
}

/// Two selections are merged when their ranges share a position, ends
/// included: they overlap, touch, or one holds the other.
pub open spec fn joinable(a: Selection, b: Selection) -> bool {
    let ra = sel_range(a);
    let rb = sel_range(b);
    pos_le(rb.start, ra.end) && pos_le(ra.start, rb.end)
}

/// The selection from the earliest start to the latest end of two selections.
pub open spec fn merged(a: Selection, b: Selection) -> Selection {
    Selection::spec_new(
        pos_min(sel_range(a).start, sel_range(b).start),
        pos_max(sel_range(a).end, sel_range(b).end),
    )
}

impl Selection {
    /// The anchor.
    pub closed spec fn spec_anchor(&self) -> Position {
        self.anchor
    }

    /// The head (cursor).
    pub closed spec fn spec_head(&self) -> Position {
        self.cursor
    }

    /// The selection with the given anchor and head.
    pub closed spec fn spec_new(anchor: Position, cursor: Position) -> Selection {
        Selection { anchor, cursor }
    }

    /// The anchor and head of a selection built from them.
    pub proof fn lemma_new(anchor: Position, cursor: Position)
        ensures
            Selection::spec_new(anchor, cursor).spec_anchor() == anchor,
            Selection::spec_new(anchor, cursor).spec_head() == cursor,
    {
    }

    /// A selection is determined by its anchor and head.
    pub proof fn lemma_ext(a: Selection, b: Selection)
        ensures
            (a.spec_anchor() == b.spec_anchor() && a.spec_head() == b.spec_head()) <==> a == b,
            Selection::spec_new(a.spec_anchor(), a.spec_head()) == a,
    {
    }

    /// A selection from `anchor` to `cursor`.
    pub fn new(anchor: Position, cursor: Position) -> (s: Self)
        ensures
            s == Selection::spec_new(anchor, cursor),
            s.spec_anchor() == anchor,
            s.spec_head() == cursor,
    {
        Self { anchor, cursor }
    }

    /// An empty selection (a cursor) at `pos`.
    pub fn cursor(pos: Position) -> (s: Self)
        ensures
            s == Selection::spec_new(pos, pos),
            s.spec_anchor() == pos,
            s.spec_head() == pos,
    {
        Self::new(pos, pos)
    }

    /// The anchor.
    pub fn anchor(&self) -> (p: Position)
        ensures
            p == self.spec_anchor(),
    {
        self.anchor
    }

    /// The head (cursor position).
    pub fn head(&self) -> (p: Position)
        ensures
            p == self.spec_head(),
    {
        self.cursor
    }

    /// The tail (the anchor).
    pub fn tail(&self) -> (p: Position)
        ensures
            p == self.spec_anchor(),
    {
        self.anchor
    }

    /// The ordered range covered.
    pub fn range(&self) -> (r: Range)
        ensures
            r == sel_range(*self),
    {
        Range::new(self.anchor, self.cursor)
    }

    /// Whether the selection is empty (anchor equals head).
    pub fn is_cursor(&self) -> (b: bool)
        ensures
            b == (self.spec_anchor() == self.spec_head()),
    {
        self.anchor == self.cursor
    }

    /// Whether the head lies before the anchor.
    pub fn is_reversed(&self) -> (b: bool)
        ensures
            b == pos_lt(self.spec_head(), self.spec_anchor()),
    {
        self.cursor.precedes(&self.anchor)
    }

    /// The selection with anchor and head swapped.
    pub fn flip(self) -> (s: Self)
        ensures
            s.spec_anchor() == self.spec_head(),
            s.spec_head() == self.spec_anchor(),
    {
        Self::new(self.cursor, self.anchor)
    }

    /// Moves the head, keeping the anchor.
    pub fn extend_to(&mut self, pos: Position)
        ensures
            final(self).spec_anchor() == old(self).spec_anchor(),
            final(self).spec_head() == pos,
    {
        self.cursor = pos;
    }

    /// Moves anchor and head to `pos`.
    pub fn move_to(&mut self, pos: Position)
        ensures
            final(self).spec_anchor() == pos,
            final(self).spec_head() == pos,
    {
        self.anchor = pos;
        self.cursor = pos;
    }

    /// Moves the anchor to the head.
    pub fn collapse_to_cursor(&mut self)
        ensures
            final(self).spec_anchor() == old(self).spec_head(),
            final(self).spec_head() == old(self).spec_head(),
    {
        self.anchor = self.cursor;
    }

    /// Moves the head to the anchor.
    pub fn collapse_to_anchor(&mut self)
        ensures
            final(self).spec_anchor() == old(self).spec_anchor(),
            final(self).spec_head() == old(self).spec_anchor(),
    {
        self.cursor = self.anchor;
    }

    /// Whether the ranges of two selections overlap.
    pub fn overlaps(&self, other: &Selection) -> (b: bool)
        ensures
            b == (pos_lt(sel_range(*self).start, sel_range(*other).end) && pos_lt(
                sel_range(*other).start,
                sel_range(*self).end,
            )),
    {
        self.range().overlaps(other.range())
    }

    /// The selection covering both ranges, from the earliest start (anchor)
    /// to the latest end (head).
    pub fn merge(&self, other: &Selection) -> (s: Selection)
        ensures
            s == merged(*self, *other),
    {
        let merged_range = self.range().union(other.range());
        Selection::new(merged_range.start, merged_range.end)
    }
}

/// The result of merging runs of joinable selections, scanning left to
/// right: `acc` holds the finished selections, `cur` the one being grown.
pub open spec fn merge_scan(acc: Seq<Selection>, cur: Selection, rest: Seq<Selection>) -> Seq<
    Selection,
>
    decreases rest.len(),
{
    if rest.len() == 0 {
        acc.push(cur)
    } else if joinable(cur, rest[0]) {
        merge_scan(acc, merged(cur, rest[0]), rest.drop_first())
    } else {
        merge_scan(acc.push(cur), rest[0], rest.drop_first())
    }
}

/// The first index from `from` on whose selection's range covers `r`, or 0.
pub open spec fn first_covering(ms: Seq<Selection>, r: Range, from: int) -> int
    decreases ms.len() - from,
{
    if from < 0 || from >= ms.len() {
        0
    } else if pos_le(sel_range(ms[from]).start, r.start) && pos_le(r.end, sel_range(ms[from]).end) {
        from
    } else {
        first_covering(ms, r, from + 1)
    }
}

/// The first index from `from` on holding `x`, or 0.
pub open spec fn first_equal(ms: Seq<Selection>, x: Selection, from: int) -> int
    decreases ms.len() - from,
{
    if from < 0 || from >= ms.len() {
        0
    } else if ms[from] == x {
        from
    } else {
        first_equal(ms, x, from + 1)
    }
}

/// Whether the selections are ordered by the start of their ranges.
pub open spec fn sorted_by_start(s: Seq<Selection>) -> bool {
    forall|i: int, j: int|
        0 <= i < j < s.len() ==> pos_le(#[trigger] sel_range(s[i]).start, #[trigger] sel_range(
            s[j],
        ).start)
}

/// A non-empty set of selections with one of them primary.
#[derive(Debug, Clone)]
pub struct Selections {
    selections: Vec<Selection>,
    primary_idx: usize,
}

impl View for Selections {
    type V = (Seq<Selection>, nat);

    closed spec fn view(&self) -> (Seq<Selection>, nat) {
        (self.selections@, self.primary_idx as nat)
    }
}

impl Selections {
    /// At least one selection, and the primary index points at one.
    pub open spec fn wf(&self) -> bool {
        self@.0.len() >= 1 && self@.1 < self@.0.len()
    }

    /// One cursor at `pos`.
    pub fn single(pos: Position) -> (s: Self)
        ensures
            s.wf(),
            s@.0 == seq![Selection::spec_new(pos, pos)],
            s@.1 == 0,
    {
        let mut v = Vec::new();
        v.push(Selection::cursor(pos));
        Self { selections: v, primary_idx: 0 }
    }

    /// A set holding one selection.
    pub fn from_selection(selection: Selection) -> (s: Self)
        ensures
            s.wf(),
            s@.0 == seq![selection],
            s@.1 == 0,
    {
        let mut v = Vec::new();
        v.push(selection);
        Self { selections: v, primary_idx: 0 }
    }

    /// A set holding the given selections (a cursor at the origin when the
    /// vector is empty); the first is primary.
    pub fn from_vec(selections: Vec<Selection>) -> (s: Self)
        ensures
            s.wf(),
            selections@.len() > 0 ==> s@.0 == selections@,
            selections@.len() == 0 ==> s@.0 == seq![
                Selection::spec_new(Position { line: 0, column: 0 }, Position { line: 0, column: 0 }),
            ],
            s@.1 == 0,
    {
        let mut selections = selections;
        if selections.len() == 0 {
            selections.push(Selection::cursor(Position::zero()));
        }
        Self { selections, primary_idx: 0 }
    }

    /// The number of selections.
    pub fn len(&self) -> (n: usize)
        ensures
            n == self@.0.len(),
    {
        self.selections.len()
    }

    /// Whether there are no selections (never, for a well-formed set).
    pub fn is_empty(&self) -> (b: bool)
        ensures
            b == (self@.0.len() == 0),
    {
        self.selections.len() == 0
    }

    /// The primary selection.
    pub fn primary(&self) -> (s: &Selection)
        requires
            self.wf(),
        ensures
            *s == self@.0[self@.1 as int],
    {
        &self.selections[self.primary_idx]
    }

    /// The primary selection, for modification.
    pub fn primary_mut(&mut self) -> (s: &mut Selection)
        requires
            old(self).wf(),
        ensures
            *s == old(self)@.0[old(self)@.1 as int],
            final(self)@.0 == old(self)@.0.update(old(self)@.1 as int, *final(s)),
            final(self)@.1 == old(self)@.1,
    {
        &mut self.selections[self.primary_idx]
    }

    /// The index of the primary selection.
    pub fn primary_index(&self) -> (i: usize)
        ensures
            i == self@.1,
    {
        self.primary_idx
    }

    /// Makes selection `idx` primary, when it exists.
    pub fn set_primary(&mut self, idx: usize)
        ensures
            final(self)@.0 == old(self)@.0,
            idx < old(self)@.0.len() ==> final(self)@.1 == idx,
            idx >= old(self)@.0.len() ==> final(self)@.1 == old(self)@.1,
    {
        if idx < self.selections.len() {
            self.primary_idx = idx;
        }
    }

    /// Selection `idx`, if it exists.
    pub fn get(&self, idx: usize) -> (s: Option<&Selection>)
        ensures
            idx < self@.0.len() ==> s is Some && *s->0 == self@.0[idx as int],
            idx >= self@.0.len() ==> s is None,
    {
        if idx < self.selections.len() {
            Some(&self.selections[idx])
        } else {
            None
        }
    }

    /// Selection `idx` for modification, if it exists.
    pub fn get_mut(&mut self, idx: usize) -> (s: Option<&mut Selection>)
        ensures
            idx < old(self)@.0.len() ==> s is Some && *s->0 == old(self)@.0[idx as int] && final(self)@.0 == old(self)@.0.update(idx as int, *final(s->0)),
            idx >= old(self)@.0.len() ==> s is None && final(self)@ == old(self)@,
            final(self)@.1 == old(self)@.1,
    {
        if idx < self.selections.len() {
            Some(&mut self.selections[idx])
        } else {
            None
        }
    }

    /// Adds a selection at the end.
    pub fn add(&mut self, selection: Selection)
        ensures
            final(self)@.0 == old(self)@.0.push(selection),
            final(self)@.1 == old(self)@.1,
    {
        self.selections.push(selection);
    }

    /// Adds a cursor at the end.
    pub fn add_cursor(&mut self, pos: Position)
        ensures
            final(self)@.0 == old(self)@.0.push(Selection::spec_new(pos, pos)),
            final(self)@.1 == old(self)@.1,
    {
        self.add(Selection::cursor(pos));
    }

    /// Removes selection `idx`, unless it is the only one or does not exist;
    /// the primary index follows its selection, or moves to the last one.
    pub fn remove(&mut self, idx: usize)
        requires
            old(self).wf(),
        ensures
            final(self).wf(),
            (old(self)@.0.len() > 1 && idx < old(self)@.0.len()) ==> final(self)@.0 == old(self)@.0.remove(idx as int) && final(self)@.1 == (if old(self)@.1 >= old(self)@.0.len()
                - 1 { (old(self)@.0.len() - 2) as nat } else if idx < old(self)@.1 { (old(self)@.1
                - 1) as nat } else { old(self)@.1 }),
            !(old(self)@.0.len() > 1 && idx < old(self)@.0.len()) ==> final(self)@ == old(self)@,
    {
        if self.selections.len() > 1 && idx < self.selections.len() {
            self.selections.remove(idx);
            if self.primary_idx >= self.selections.len() {
                self.primary_idx = self.selections.len() - 1;
            } else if idx < self.primary_idx {
                self.primary_idx = self.primary_idx - 1;
            }
        }
    }

    /// Replaces all selections by one cursor at `pos`.
    pub fn clear_to_cursor(&mut self, pos: Position)
        ensures
            final(self).wf(),
            final(self)@.0 == seq![Selection::spec_new(pos, pos)],
            final(self)@.1 == 0,
    {
        self.selections.clear();
        self.selections.push(Selection::cursor(pos));
        self.primary_idx = 0;
    }

    /// The selections, in order.
    pub fn iter(&self) -> (it: std::slice::Iter<'_, Selection>)
        ensures
            it.remaining().map_values(|s: &Selection| *s) == self@.0,
    {
        proof {
            broadcast use vstd::std_specs::slice::axiom_spec_slice_iter;
        }
        let it = self.selections.as_slice().iter();
        proof {
            assert(it.remaining().map_values(|s: &Selection| *s) == self@.0);
        }
        it
    }

    /// A copy of this set.
    pub fn duplicate(&self) -> (s: Selections)
        ensures
            s@ == self@,
    {
        Selections { selections: self.selections.clone(), primary_idx: self.primary_idx }
    }

    /// The selections, in order, as a vector.
    pub fn to_vec(&self) -> (v: Vec<Selection>)
        ensures
            v@ == self@.0,
    {
        self.selections.clone()
    }

    /// Replaces every selection by `f` applied to it.
    pub fn transform<F: Fn(&Selection) -> Selection>(&mut self, f: F)
        requires
            forall|i: int| 0 <= i < old(self)@.0.len() ==> call_requires(f, (&old(self)@.0[i],)),
        ensures
            final(self)@.0.len() == old(self)@.0.len(),
            final(self)@.1 == old(self)@.1,
            forall|i: int|
                0 <= i < old(self)@.0.len() ==> call_ensures(
                    f,
                    (&old(self)@.0[i],),
                    #[trigger] final(self)@.0[i],
                ),
    {
        let n = self.selections.len();
        let mut i: usize = 0;
        while i < n
            invariant
                n == self.selections@.len(),
                n == old(self)@.0.len(),
                i <= n,
                self.primary_idx == old(self).primary_idx,
                forall|j: int| 0 <= j < old(self)@.0.len() ==> call_requires(f, (&old(self)@.0[j],)),
                forall|j: int| i <= j < n ==> self.selections@[j] == old(self)@.0[j],
                forall|j: int|
                    0 <= j < i ==> call_ensures(f, (&old(self)@.0[j],), #[trigger] self.selections@[j]),
            decreases n - i,
        {
            let next = f(&self.selections[i]);
            self.selections.set(i, next);
            i = i + 1;
        }
    }

    /// Sorts the selections by the start of their ranges, keeping the
    /// original order among equal starts; the primary index moves to the
    /// first selection equal to the former primary.
    pub fn sort(&mut self)
        requires
            old(self).wf(),
        ensures
            final(self).wf(),
            final(self)@.0 == stable_sort_by_start(old(self)@.0),
            final(self)@.0.to_multiset() == old(self)@.0.to_multiset(),
            sorted_by_start(final(self)@.0),
            final(self)@.1 == first_equal(final(self)@.0, old(self)@.0[old(self)@.1 as int], 0),
    {
        let primary = self.selections[self.primary_idx].clone();
        let sorted = sort_by_start(&self.selections);
        let idx = position_of(&sorted, &primary);
        *self = Selections { selections: sorted, primary_idx: idx };
    }

    /// Merges each run of selections (in their current order) whose ranges
    /// share a position into one; the primary index moves to the first
    /// merged selection covering the former primary's range, or 0. On
    /// selections sorted by start, no two of the results overlap (see
    /// [`lemma_merge_sorted`]).
    pub fn merge_overlapping(&mut self)
        requires
            old(self).wf(),
        ensures
            final(self).wf(),
            old(self)@.0.len() <= 1 ==> final(self)@ == old(self)@,
            old(self)@.0.len() > 1 ==> final(self)@.0 == merge_scan(
                seq![],
                old(self)@.0[0],
                old(self)@.0.skip(1),
            ) && final(self)@.1 == first_covering(
                final(self)@.0,
                sel_range(old(self)@.0[old(self)@.1 as int]),
                0,
            ),
    {
        if self.selections.len() <= 1 {
            return;
        }
        let primary = self.selections[self.primary_idx].clone();
        let mut merged_v: Vec<Selection> = Vec::new();
        let mut current = self.selections[0].clone();
        let n = self.selections.len();
        let mut i: usize = 1;
        proof {
            lemma_merge_scan_len(seq![], self@.0[0], self@.0.skip(1));
        }
        while i < n
            invariant
                1 <= i <= n,
                n == self@.0.len(),
                merge_scan(merged_v@, current, self@.0.skip(i as int)) == merge_scan(
                    seq![],
                    self@.0[0],
                    self@.0.skip(1),
                ),
            decreases n - i,
        {
            let sel = self.selections[i].clone();
            proof {
                assert(self@.0.skip(i as int)[0] == sel);
                assert(self@.0.skip(i as int).drop_first() == self@.0.skip(i + 1));
            }
            if sel.range().start.precedes_or_eq(&current.range().end) && current.range().start.precedes_or_eq(
                &sel.range().end,
            ) {
                current = current.merge(&sel);
            } else {
                merged_v.push(current);
                current = sel;
            }
            i = i + 1;
        }
        merged_v.push(current);
        proof {
            assert(self@.0.skip(n as int).len() == 0);
            lemma_merge_scan_len(seq![], self@.0[0], self@.0.skip(1));
        }
        let idx = position_covering(&merged_v, primary.range());
        *self = Selections { selections: merged_v, primary_idx: idx };
    }

    /// Sorts, then merges overlapping selections.
    pub fn normalize(&mut self)
        requires
            old(self).wf(),
        ensures
            final(self).wf(),
            exists|sorted: Seq<Selection>|
                #![trigger sorted_by_start(sorted)]
                {
                    let p = first_equal(sorted, old(self)@.0[old(self)@.1 as int], 0);
                    &&& sorted.to_multiset() == old(self)@.0.to_multiset()
                    &&& sorted_by_start(sorted)
                    &&& sorted.len() == old(self)@.0.len()
                    &&& (sorted.len() <= 1 ==> final(self)@ == (sorted, p as nat))
                    &&& (sorted.len() > 1 ==> final(self)@.0 == merge_scan(
                        seq![],
                        sorted[0],
                        sorted.skip(1),
                    ) && final(self)@.1 == first_covering(final(self)@.0, sel_range(sorted[p]), 0))
                },
    {
        self.sort();
        let ghost mid = self@;
        proof {
            mid.0.to_multiset_ensures();
            old(self)@.0.to_multiset_ensures();
        }
        self.merge_overlapping();
        assert(sorted_by_start(mid.0));
    }

    /// Whether some selection is not empty.
    pub fn has_selection(&self) -> (b: bool)
        ensures
            b == (exists|i: int|
                0 <= i < self@.0.len() && #[trigger] self@.0[i].spec_anchor() != self@.0[i].spec_head()),
    {
        let mut i: usize = 0;
        while i < self.selections.len()
            invariant
                i <= self@.0.len(),
                forall|j: int| 0 <= j < i ==> #[trigger] self@.0[j].spec_anchor() == self@.0[j].spec_head(),
            decreases self@.0.len() - i,
        {
            if !self.selections[i].is_cursor() {
                return true;
            }
            i = i + 1;
        }
        false
    }

    /// Collapses every selection to its head.
    pub fn collapse_all(&mut self)
        ensures
            final(self)@.0.len() == old(self)@.0.len(),
            final(self)@.1 == old(self)@.1,
            forall|i: int|
                0 <= i < old(self)@.0.len() ==> #[trigger] final(self)@.0[i] == Selection::spec_new(
                    old(self)@.0[i].spec_head(),
                    old(self)@.0[i].spec_head(),
                ),
    {
        let n = self.selections.len();
        let mut i: usize = 0;
        while i < n
            invariant
                n == self.selections@.len(),
                n == old(self)@.0.len(),
                i <= n,
                self.primary_idx == old(self).primary_idx,
                forall|j: int| i <= j < n ==> self.selections@[j] == old(self)@.0[j],
                forall|j: int|
                    0 <= j < i ==> #[trigger] self.selections@[j] == Selection::spec_new(
                        old(self)@.0[j].spec_head(),
                        old(self)@.0[j].spec_head(),
                    ),
            decreases n - i,
        {
            let head = self.selections[i].head();
            self.selections.set(i, Selection::cursor(head));
            i = i + 1;
        }
    }
}

/// Whether the range of `outer` holds the range of `inner`.
pub open spec fn sel_contains(outer: Selection, inner: Selection) -> bool {
    pos_le(sel_range(outer).start, sel_range(inner).start) && pos_le(sel_range(inner).end, sel_range(outer).end)
}

/// Whether a position lies in a selection's range, ends included.
pub open spec fn sel_holds(s: Selection, p: Position) -> bool {
    pos_le(sel_range(s).start, p) && pos_le(p, sel_range(s).end)
}

/// Each range ends before the next one starts: no two share a position.
pub open spec fn separated(s: Seq<Selection>) -> bool {
    forall|i: int, j: int|
        0 <= i < j < s.len() ==> pos_lt(#[trigger] sel_range(s[i]).end, #[trigger] sel_range(s[j]).start)
}

/// The range of the merge of two selections runs from the earlier start to
/// the later end.
proof fn lemma_merged_range(a: Selection, b: Selection)
    ensures
        sel_range(merged(a, b)).start == pos_min(sel_range(a).start, sel_range(b).start),
        sel_range(merged(a, b)).end == pos_max(sel_range(a).end, sel_range(b).end),
{
    Selection::lemma_new(
        pos_min(sel_range(a).start, sel_range(b).start),
        pos_max(sel_range(a).end, sel_range(b).end),
    );
}

proof fn lemma_merge_scan_props(acc: Seq<Selection>, cur: Selection, rest: Seq<Selection>)
    requires
        separated(acc),
        forall|i: int| 0 <= i < acc.len() ==> pos_lt(#[trigger] sel_range(acc[i]).end, sel_range(cur).start),
        sorted_by_start(rest),
        forall|j: int| 0 <= j < rest.len() ==> pos_le(sel_range(cur).start, #[trigger] sel_range(rest[j]).start),
    ensures
        ({
            let m = merge_scan(acc, cur, rest);
            &&& separated(m)
            &&& m.len() >= acc.len() + 1
            &&& forall|i: int| 0 <= i < acc.len() ==> #[trigger] m[i] == acc[i]
            &&& exists|k: int| acc.len() <= k < m.len() && sel_contains(#[trigger] m[k], cur)
            &&& forall|j: int| 0 <= j < rest.len() ==> exists|k: int| acc.len() <= k < m.len() && sel_contains(#[trigger] m[k], #[trigger] rest[j])
            &&& forall|k: int, p: Position| acc.len() <= k < m.len() && #[trigger] sel_holds(m[k], p) ==> sel_holds(cur, p) || exists|j: int| 0 <= j < rest.len() && #[trigger] sel_holds(rest[j], p)
        }),
    decreases rest.len(),
{
    let m = merge_scan(acc, cur, rest);
    if rest.len() == 0 {
        assert(m == acc.push(cur));
        assert(sel_contains(m[acc.len() as int], cur));
    } else {
        let r0 = rest[0];
        let rest2 = rest.drop_first();
        assert forall|j: int| 0 <= j < rest2.len() implies pos_le(sel_range(r0).start, #[trigger] sel_range(rest2[j]).start) by {
            assert(rest2[j] == rest[j + 1]);
        }
        assert(sorted_by_start(rest2)) by {
            assert forall|i: int, j: int| 0 <= i < j < rest2.len() implies pos_le(#[trigger] sel_range(rest2[i]).start, #[trigger] sel_range(rest2[j]).start) by {
                assert(rest2[i] == rest[i + 1]);
                assert(rest2[j] == rest[j + 1]);
            }
        }
        if joinable(cur, r0) {
            let mc = merged(cur, r0);
            lemma_merged_range(cur, r0);
            assert(sel_range(mc).start == sel_range(cur).start);
            assert forall|j: int| 0 <= j < rest2.len() implies pos_le(sel_range(mc).start, #[trigger] sel_range(rest2[j]).start) by {
                assert(rest2[j] == rest[j + 1]);
            }
            lemma_merge_scan_props(acc, mc, rest2);
            assert(m == merge_scan(acc, mc, rest2));
            let k0 = choose|k: int| acc.len() <= k < m.len() && sel_contains(#[trigger] m[k], mc);
            assert(sel_contains(m[k0], cur));
            assert(sel_contains(m[k0], r0));
            assert forall|j: int| 0 <= j < rest.len() implies exists|k: int| acc.len() <= k < m.len() && sel_contains(#[trigger] m[k], #[trigger] rest[j]) by {
                if j == 0 {
                    assert(sel_contains(m[k0], rest[j]));
                } else {
                    assert(rest[j] == rest2[j - 1]);
                }
            }
            assert forall|k: int, p: Position| acc.len() <= k < m.len() && #[trigger] sel_holds(m[k], p) implies sel_holds(cur, p) || exists|j: int| 0 <= j < rest.len() && #[trigger] sel_holds(rest[j], p) by {
                if sel_holds(mc, p) {
                    if !sel_holds(cur, p) {
                        assert(sel_holds(rest[0], p));
                    }
                } else {
                    let j2 = choose|j: int| 0 <= j < rest2.len() && #[trigger] sel_holds(rest2[j], p);
                    assert(rest2[j2] == rest[j2 + 1]);
                    assert(sel_holds(rest[j2 + 1], p));
                }
            }
        } else {
            let acc2 = acc.push(cur);
            assert(pos_lt(sel_range(cur).end, sel_range(r0).start));
            assert(separated(acc2)) by {
                assert forall|i: int, j: int| 0 <= i < j < acc2.len() implies pos_lt(#[trigger] sel_range(acc2[i]).end, #[trigger] sel_range(acc2[j]).start) by {
                    if j < acc.len() {
                        assert(acc2[i] == acc[i] && acc2[j] == acc[j]);
                    } else {
                        assert(acc2[i] == acc[i]);
                        assert(acc2[j] == cur);
                    }
                }
            }
            assert forall|i: int| 0 <= i < acc2.len() implies pos_lt(#[trigger] sel_range(acc2[i]).end, sel_range(r0).start) by {
                if i < acc.len() {
                    assert(acc2[i] == acc[i]);
                }
            }
            lemma_merge_scan_props(acc2, r0, rest2);
            assert(m == merge_scan(acc2, r0, rest2));
            assert(m[acc.len() as int] == acc2[acc.len() as int]);
            assert(sel_contains(m[acc.len() as int], cur));
            assert forall|i: int| 0 <= i < acc.len() implies #[trigger] m[i] == acc[i] by {
                assert(m[i] == acc2[i]);
            }
            assert forall|j: int| 0 <= j < rest.len() implies exists|k: int| acc.len() <= k < m.len() && sel_contains(#[trigger] m[k], #[trigger] rest[j]) by {
                if j == 0 {
                    let k1 = choose|k: int| acc2.len() <= k < m.len() && sel_contains(#[trigger] m[k], r0);
                    assert(sel_contains(m[k1], rest[j]));
                } else {
                    assert(rest[j] == rest2[j - 1]);
                }
            }
            assert forall|k: int, p: Position| acc.len() <= k < m.len() && #[trigger] sel_holds(m[k], p) implies sel_holds(cur, p) || exists|j: int| 0 <= j < rest.len() && #[trigger] sel_holds(rest[j], p) by {
                if k == acc.len() {
                    assert(m[k] == cur);
                } else if sel_holds(r0, p) {
                    assert(sel_holds(rest[0], p));
                } else {
                    let j2 = choose|j: int| 0 <= j < rest2.len() && #[trigger] sel_holds(rest2[j], p);
                    assert(rest2[j2] == rest[j2 + 1]);
                    assert(sel_holds(rest[j2 + 1], p));
                }
            }
        }
    }
}

/// Merging selections sorted by start leaves no two that share a position
/// (none overlaps or touches another), and keeps the positions they cover:
/// each former selection lies within a merged one, and each position of a
/// merged one lies in a former one.
pub proof fn lemma_merge_sorted(sels: Seq<Selection>)
    requires
        sels.len() >= 1,
        sorted_by_start(sels),
    ensures
        ({
            let m = merge_scan(seq![], sels[0], sels.skip(1));
            &&& separated(m)
            &&& forall|i: int| 0 <= i < sels.len() ==> exists|k: int| 0 <= k < m.len() && sel_contains(#[trigger] m[k], #[trigger] sels[i])
            &&& forall|k: int, p: Position| 0 <= k < m.len() && #[trigger] sel_holds(m[k], p) ==> exists|i: int| 0 <= i < sels.len() && #[trigger] sel_holds(sels[i], p)
        }),
{
    let rest = sels.skip(1);
    assert forall|j: int| 0 <= j < rest.len() implies pos_le(sel_range(sels[0]).start, #[trigger] sel_range(rest[j]).start) by {
        assert(rest[j] == sels[j + 1]);
    }
    assert(sorted_by_start(rest)) by {
        assert forall|i: int, j: int| 0 <= i < j < rest.len() implies pos_le(#[trigger] sel_range(rest[i]).start, #[trigger] sel_range(rest[j]).start) by {
            assert(rest[i] == sels[i + 1]);
            assert(rest[j] == sels[j + 1]);
        }
    }
    lemma_merge_scan_props(seq![], sels[0], rest);
    let m = merge_scan(seq![], sels[0], rest);
    assert forall|i: int| 0 <= i < sels.len() implies exists|k: int| 0 <= k < m.len() && sel_contains(#[trigger] m[k], #[trigger] sels[i]) by {
        if i > 0 {
            assert(sels[i] == rest[i - 1]);
        }
    }
    assert forall|k: int, p: Position| 0 <= k < m.len() && #[trigger] sel_holds(m[k], p) implies exists|i: int| 0 <= i < sels.len() && #[trigger] sel_holds(sels[i], p) by {
        if !sel_holds(sels[0], p) {
            let j = choose|j: int| 0 <= j < rest.len() && #[trigger] sel_holds(rest[j], p);
            assert(rest[j] == sels[j + 1]);
        }
    }
}

proof fn lemma_merge_scan_len(acc: Seq<Selection>, cur: Selection, rest: Seq<Selection>)
    ensures
        merge_scan(acc, cur, rest).len() >= acc.len() + 1,
        merge_scan(acc, cur, rest).len() <= acc.len() + 1 + rest.len(),
    decreases rest.len(),
{
    if rest.len() > 0 {
        if joinable(cur, rest[0]) {
            lemma_merge_scan_len(acc, merged(cur, rest[0]), rest.drop_first());
        } else {
            lemma_merge_scan_len(acc.push(cur), rest[0], rest.drop_first());
        }
    }
}

/// The first index holding `x`, or 0.
fn position_of(v: &Vec<Selection>, x: &Selection) -> (i: usize)
    ensures
        i == first_equal(v@, *x, 0),
        v@.len() > 0 ==> i < v@.len(),
{
    let mut i: usize = 0;
    while i < v.len()
        invariant
            i <= v@.len(),
            first_equal(v@, *x, i as int) == first_equal(v@, *x, 0),
        decreases v@.len() - i,
    {
        if v[i] == *x {
            return i;
        }
        i = i + 1;
    }
    0
}

/// The first index whose selection covers `r`, or 0.
fn position_covering(v: &Vec<Selection>, r: Range) -> (i: usize)
    ensures
        i == first_covering(v@, r, 0),
        v@.len() > 0 ==> i < v@.len(),
{
    let mut i: usize = 0;
    while i < v.len()
        invariant
            i <= v@.len(),
            first_covering(v@, r, i as int) == first_covering(v@, r, 0),
        decreases v@.len() - i,
    {
        let sr = v[i].range();
        if sr.start.precedes_or_eq(&r.start) && r.end.precedes_or_eq(&sr.end) {
            return i;
        }
        i = i + 1;
    }
    0
}

/// A stable insertion sort by range start.
/// `x` inserted into `r` after the last element whose start is not after
/// its own.
pub open spec fn insert_by_start(r: Seq<Selection>, x: Selection) -> Seq<Selection>
    decreases r.len(),
{
    if r.len() == 0 {
        seq![x]
    } else if pos_le(sel_range(r.last()).start, sel_range(x).start) {
        r.push(x)
    } else {
        insert_by_start(r.drop_last(), x).push(r.last())
    }
}

/// The selections ordered by the start of their ranges, equal starts kept
/// in their original order.
pub open spec fn stable_sort_by_start(s: Seq<Selection>) -> Seq<Selection>
    decreases s.len(),
{
    if s.len() == 0 {
        s
    } else {
        insert_by_start(stable_sort_by_start(s.drop_last()), s.last())
    }
}

proof fn lemma_insert_by_start(r: Seq<Selection>, x: Selection, k: int)
    requires
        0 <= k <= r.len(),
        forall|j: int| k <= j < r.len() ==> pos_lt(sel_range(x).start, #[trigger] sel_range(r[j]).start),
        k > 0 ==> pos_le(sel_range(r[k - 1]).start, sel_range(x).start),
    ensures
        insert_by_start(r, x) == r.insert(k, x),
    decreases r.len(),
{
    if r.len() == 0 {
        assert(r.insert(k, x) =~= seq![x]);
    } else if k == r.len() {
        assert(r.insert(k, x) =~= r.push(x));
    } else {
        assert(sel_range(r.last()) == sel_range(r[r.len() - 1]));
        assert(!pos_le(sel_range(r.last()).start, sel_range(x).start));
        lemma_insert_by_start(r.drop_last(), x, k);
        assert(r.drop_last().insert(k, x).push(r.last()) =~= r.insert(k, x));
    }
}

pub(crate) fn sort_by_start(v: &Vec<Selection>) -> (r: Vec<Selection>)
    ensures
        r@.to_multiset() == v@.to_multiset(),
        r@.len() == v@.len(),
        sorted_by_start(r@),
        r@ == stable_sort_by_start(v@),
{
    let mut r: Vec<Selection> = Vec::new();
    let mut i: usize = 0;
    proof {
        assert(v@.take(0) == r@);
    }
    while i < v.len()
        invariant
            i <= v@.len(),
            r@.to_multiset() == v@.take(i as int).to_multiset(),
            r@.len() == i,
            sorted_by_start(r@),
            r@ == stable_sort_by_start(v@.take(i as int)),
        decreases v@.len() - i,
    {
        let x = v[i].clone();
        let xs = x.range().start;
        // insertion point: after every element whose start is <= x's start
        let mut k: usize = r.len();
        while k > 0 && !r[k - 1].range().start.precedes_or_eq(&xs)
            invariant
                k <= r@.len(),
                forall|j: int| k <= j < r@.len() ==> pos_lt(xs, #[trigger] sel_range(r@[j]).start),
            decreases k,
        {
            k = k - 1;
        }
        proof {
            assert(k > 0 ==> pos_le(sel_range(r@[k - 1]).start, xs));
        }
        let ghost old_r = r@;
        r.insert(k, x);
        proof {
            lemma_insert_by_start(old_r, x, k as int);
            assert(v@.take(i + 1).drop_last() =~= v@.take(i as int));
            assert(v@.take(i + 1) == v@.take(i as int).push(v@[i as int]));
            assert forall|a: int, b: int| 0 <= a < b < r@.len() implies pos_le(
                #[trigger] sel_range(r@[a]).start,
                #[trigger] sel_range(r@[b]).start,
            ) by {
                if a < k as int && b < k as int {
                    assert(r@[a] == old_r[a] && r@[b] == old_r[b]);
                } else if a < k as int && b == k as int {
                    assert(r@[a] == old_r[a]);
                    assert(pos_le(sel_range(old_r[a]).start, sel_range(old_r[k - 1]).start));
                } else if a < k as int {
                    assert(r@[a] == old_r[a] && r@[b] == old_r[b - 1]);
                } else if a == k as int {
                    assert(r@[b] == old_r[b - 1]);
                } else {
                    assert(r@[a] == old_r[a - 1] && r@[b] == old_r[b - 1]);
                }
            }
        }
        i = i + 1;
    }
    proof {
        assert(v@.take(v@.len() as int) == v@);
    }
    r
}

} // verus!
