//! Line ending detection and conversion (LF, CRLF, CR).
//!
//! Text is handled as a sequence of characters: `'\r'` and `'\n'` are single
//! bytes in UTF-8 and never occur inside another character's encoding, so
//! scanning characters finds exactly the line endings a byte scan finds.

use vstd::prelude::*;
use crate::text::{string_push, str_to_chars};

verus! {

/// Line ending style.
#[derive(Debug, Clone, Copy, PartialEq, Eq, Structural, Hash)]
pub enum LineEnding {
    /// Unix style: `\n`
    Lf,
    /// Windows style: `\r\n`
    CrLf,
    /// Classic Mac style: `\r`
    Cr,
}

/// The characters of a line ending.
pub open spec fn ending_chars(e: LineEnding) -> Seq<char> {
    match e {
        LineEnding::Lf => seq!['\n'],
        LineEnding::CrLf => seq!['\r', '\n'],
        LineEnding::Cr => seq!['\r'],
    }
}

/// Counts of line endings in `t` from index `i` on: (LF, CRLF, CR).
/// A `\r` directly followed by `\n` is one CRLF ending.
pub open spec fn counts_from(t: Seq<char>, i: int) -> (nat, nat, nat)
    decreases t.len() - i,
{
    if i < 0 || i >= t.len() {
        (0, 0, 0)
    } else if t[i] == '\r' {
        if i + 1 < t.len() && t[i + 1] == '\n' {
            let r = counts_from(t, i + 2);
            (r.0, r.1 + 1, r.2)
        } else {
            let r = counts_from(t, i + 1);
            (r.0, r.1, r.2 + 1)
        }
    } else if t[i] == '\n' {
        let r = counts_from(t, i + 1);
        (r.0 + 1, r.1, r.2)
    } else {
        counts_from(t, i + 1)
    }
}

/// The most common ending among the counts; LF wins ties, then CRLF; with
/// no endings at all, the native ending.
pub open spec fn most_common(lf: nat, crlf: nat, cr: nat) -> LineEnding {
    if lf >= crlf && lf >= cr {
        if lf > 0 { LineEnding::Lf } else { native_ending() }
    } else if crlf >= cr {
        LineEnding::CrLf
    } else {
        LineEnding::Cr
    }
}

/// The line ending native to this platform.
pub open spec fn native_ending() -> LineEnding {
    LineEnding::Lf
}

/// The ending detected in a text.
pub open spec fn detected_ending(t: Seq<char>) -> LineEnding {
    let c = counts_from(t, 0);
    most_common(c.0, c.1, c.2)
}

/// The text from index `i` on, with every ending replaced by `target`.
pub open spec fn normalized_from(t: Seq<char>, i: int, target: Seq<char>) -> Seq<char>
    decreases t.len() - i,
{
    if i < 0 || i >= t.len() {
        seq![]
    } else if t[i] == '\r' {
        if i + 1 < t.len() && t[i + 1] == '\n' {
            target + normalized_from(t, i + 2, target)
        } else {
            target + normalized_from(t, i + 1, target)
        }
    } else if t[i] == '\n' {
        target + normalized_from(t, i + 1, target)
    } else {
        seq![t[i]] + normalized_from(t, i + 1, target)
    }
}

/// The index just past the first line ending at or after `i` (or the end
/// of the text when no ending follows).
pub open spec fn line_end_from(t: Seq<char>, i: int) -> int
    decreases t.len() - i,
{
    if i < 0 || i >= t.len() {
        t.len() as int
    } else if t[i] == '\r' {
        if i + 1 < t.len() && t[i + 1] == '\n' { i + 2 } else { i + 1 }
    } else if t[i] == '\n' {
        i + 1
    } else {
        line_end_from(t, i + 1)
    }
}

/// The lines of the text from index `i` on, each with its own ending.
pub open spec fn split_from(t: Seq<char>, i: int) -> Seq<Seq<char>>
    decreases t.len() - i,
{
    if i < 0 || i >= t.len() {
        seq![]
    } else {
        let e = line_end_from(t, i);
        if e <= i || e > t.len() {
            seq![]
        } else {
            seq![t.subrange(i, e)] + split_from(t, e)
        }
    }
}

/// Number of lines: 0 for empty text, else one more than the endings.
pub open spec fn line_total(t: Seq<char>) -> nat {
    if t.len() == 0 {
        0
    } else {
        let c = counts_from(t, 0);
        c.0 + c.1 + c.2 + 1
    }
}

proof fn lemma_counts_bounded(t: Seq<char>, i: int)
    requires
        0 <= i <= t.len(),
    ensures
        counts_from(t, i).0 + counts_from(t, i).1 + counts_from(t, i).2 <= t.len() - i,
    decreases t.len() - i,
{
    if i < t.len() {
        if t[i] == '\r' && i + 1 < t.len() && t[i + 1] == '\n' {
            lemma_counts_bounded(t, i + 2);
        } else {
            lemma_counts_bounded(t, i + 1);
        }
    }
}

proof fn lemma_line_end_progress(t: Seq<char>, i: int)
    requires
        0 <= i < t.len(),
    ensures
        i < line_end_from(t, i) <= t.len(),
    decreases t.len() - i,
{
    if !(t[i] == '\r' || t[i] == '\n') {
        lemma_line_end_progress_or_end(t, i + 1);
    }
}

proof fn lemma_line_end_progress_or_end(t: Seq<char>, i: int)
    requires
        0 <= i <= t.len(),
    ensures
        i <= line_end_from(t, i) <= t.len(),
        i < t.len() ==> i < line_end_from(t, i),
    decreases t.len() - i,
{
    if i < t.len() && !(t[i] == '\r' || t[i] == '\n') {
        lemma_line_end_progress_or_end(t, i + 1);
    }
}

/// The number of line endings in `t` from index `i` on.
pub open spec fn endings_from(t: Seq<char>, i: int) -> nat {
    let c = counts_from(t, i);
    c.0 + c.1 + c.2
}

/// The counts of `n` endings all of style `e`: (LF, CRLF, CR).
pub open spec fn counts_of(e: LineEnding, n: nat) -> (nat, nat, nat) {
    match e {
        LineEnding::Lf => (n, 0, 0),
        LineEnding::CrLf => (0, n, 0),
        LineEnding::Cr => (0, 0, n),
    }
}

/// Reading the part of `p + q` past `p` is reading `q`.
proof fn lemma_read_shifted(p: Seq<char>, q: Seq<char>, j: int, tg: Seq<char>)
    requires
        0 <= j <= q.len(),
    ensures
        normalized_from(p + q, p.len() + j, tg) == normalized_from(q, j, tg),
        counts_from(p + q, p.len() + j) == counts_from(q, j),
    decreases q.len() - j,
{
    let s = p + q;
    if j < q.len() {
        assert(s[p.len() + j] == q[j]);
        if j + 1 < q.len() {
            assert(s[p.len() + j + 1] == q[j + 1]);
            lemma_read_shifted(p, q, j + 2, tg);
        }
        lemma_read_shifted(p, q, j + 1, tg);
    }
}

/// Reading `p + q` is reading `p` and then `q`, unless `p` ends with `\r`
/// and `q` begins with `\n` (which together make one CRLF ending).
proof fn lemma_read_concat(p: Seq<char>, q: Seq<char>, i: int, tg: Seq<char>)
    requires
        0 <= i <= p.len(),
        !(p.len() > 0 && p.last() == '\r' && q.len() > 0 && q[0] == '\n'),
    ensures
        normalized_from(p + q, i, tg) == normalized_from(p, i, tg) + normalized_from(q, 0, tg),
        counts_from(p + q, i) == ((counts_from(p, i).0 + counts_from(q, 0).0) as nat, (counts_from(
            p,
            i,
        ).1 + counts_from(q, 0).1) as nat, (counts_from(p, i).2 + counts_from(q, 0).2) as nat),
    decreases p.len() - i,
{
    let s = p + q;
    if i == p.len() {
        lemma_read_shifted(p, q, 0, tg);
        assert(normalized_from(p, i, tg) + normalized_from(q, 0, tg) =~= normalized_from(q, 0, tg));
    } else {
        assert(s[i] == p[i]);
        if i + 1 < p.len() {
            assert(s[i + 1] == p[i + 1]);
            lemma_read_concat(p, q, i + 2, tg);
        } else if q.len() > 0 {
            assert(s[i + 1] == q[0]);
            assert(p.last() == p[i]);
        }
        lemma_read_concat(p, q, i + 1, tg);
        let a = normalized_from(p, i + 1, tg);
        let a2 = normalized_from(p, i + 2, tg);
        let b = normalized_from(q, 0, tg);
        assert(tg + a + b =~= tg + (a + b));
        assert(tg + a2 + b =~= tg + (a2 + b));
        assert(seq![p[i]] + a + b =~= seq![p[i]] + (a + b));
    }
}

/// The text of an ending, read again, is that ending once.
proof fn lemma_read_ending(e: LineEnding)
    ensures
        normalized_from(ending_chars(e), 0, ending_chars(e)) == ending_chars(e),
        counts_from(ending_chars(e), 0) == counts_of(e, 1),
{
    let t = ending_chars(e);
    assert(normalized_from(t, t.len() as int, t) == Seq::<char>::empty());
    assert(counts_from(t, t.len() as int) == (0nat, 0nat, 0nat));
    assert(t + Seq::<char>::empty() =~= t);
    if e != LineEnding::CrLf {
        assert(normalized_from(t, 1, t) == Seq::<char>::empty());
        assert(counts_from(t, 1) == (0nat, 0nat, 0nat));
    }
}

/// The text from `i` on with every ending replaced by that of `e`: reading
/// it again changes nothing, it holds only endings of style `e`, as many
/// as the text had from `i` on, and it begins with `\n` only where `e`
/// is LF.
proof fn lemma_normalized_read(t: Seq<char>, i: int, e: LineEnding)
    requires
        0 <= i <= t.len(),
    ensures
        ({
            let n = normalized_from(t, i, ending_chars(e));
            &&& normalized_from(n, 0, ending_chars(e)) == n
            &&& counts_from(n, 0) == counts_of(e, endings_from(t, i))
            &&& (n.len() > 0 && n[0] == '\n' ==> e == LineEnding::Lf)
            &&& (i < t.len() ==> n.len() > 0)
        }),
    decreases t.len() - i,
{
    let tg = ending_chars(e);
    let n = normalized_from(t, i, tg);
    if i == t.len() {
        assert(n.len() == 0);
    } else {
        let j = if t[i] == '\r' && i + 1 < t.len() && t[i + 1] == '\n' {
            i + 2
        } else {
            i + 1
        };
        lemma_normalized_read(t, j, e);
        let rest = normalized_from(t, j, tg);
        assert(endings_from(t, i) == (if t[i] == '\r' || t[i] == '\n' { 1nat } else { 0nat })
            + endings_from(t, j));
        if t[i] == '\r' || t[i] == '\n' {
            assert(n == tg + rest);
            lemma_read_ending(e);
            lemma_read_concat(tg, rest, 0, tg);
            assert(normalized_from(n, 0, tg) == n);
            assert(counts_from(n, 0) == counts_of(e, endings_from(t, i)));
            assert(n[0] == tg[0]);
        } else {
            let piece = seq![t[i]];
            assert(n == piece + rest);
            assert(normalized_from(piece, 1, tg) == Seq::<char>::empty());
            assert(counts_from(piece, 1) == (0nat, 0nat, 0nat));
            assert(piece + Seq::<char>::empty() =~= piece);
            assert(normalized_from(piece, 0, tg) == piece);
            lemma_read_concat(piece, rest, 0, tg);
            assert(normalized_from(n, 0, tg) == n);
            assert(counts_from(n, 0) == counts_of(e, endings_from(t, i)));
            assert(n[0] == t[i]);
        }
    }
}

/// Normalizing the line endings of a normalized text changes nothing.
pub proof fn lemma_normalize_twice(t: Seq<char>, e: LineEnding)
    ensures
        normalized_from(normalized_from(t, 0, ending_chars(e)), 0, ending_chars(e))
            == normalized_from(t, 0, ending_chars(e)),
{
    lemma_normalized_read(t, 0, e);
}

/// A text with its line endings normalized to `e` holds only endings of
/// style `e`, as many as before, so it has as many lines as before; its
/// detected ending is `e` (the native ending when it has none).
pub proof fn lemma_normalize_then_detect(t: Seq<char>, e: LineEnding)
    ensures
        counts_from(normalized_from(t, 0, ending_chars(e)), 0) == counts_of(e, endings_from(t, 0)),
        line_total(normalized_from(t, 0, ending_chars(e))) == line_total(t),
        detected_ending(normalized_from(t, 0, ending_chars(e))) == (if endings_from(t, 0) > 0 {
            e
        } else {
            native_ending()
        }),
{
    lemma_normalized_read(t, 0, e);
}

/// Whether a CRLF pair starts at index `j`.
pub open spec fn crlf_at(t: Seq<char>, j: int) -> bool {
    0 <= j && j + 1 < t.len() && t[j] == '\r' && t[j + 1] == '\n'
}

/// The number of CRLF pairs starting at index `i` or later.
pub open spec fn crlf_occurrences(t: Seq<char>, i: int) -> nat
    decreases t.len() - i,
{
    if i < 0 || i >= t.len() {
        0
    } else {
        crlf_occurrences(t, i + 1) + if crlf_at(t, i) { 1nat } else { 0nat }
    }
}

/// The number of `\r` at index `i` or later that no `\n` follows.
pub open spec fn lone_cr_occurrences(t: Seq<char>, i: int) -> nat
    decreases t.len() - i,
{
    if i < 0 || i >= t.len() {
        0
    } else {
        lone_cr_occurrences(t, i + 1) + if t[i] == '\r' && !crlf_at(t, i) { 1nat } else { 0nat }
    }
}

/// The number of `\n` at index `i` or later that no `\r` precedes.
pub open spec fn lone_lf_occurrences(t: Seq<char>, i: int) -> nat
    decreases t.len() - i,
{
    if i < 0 || i >= t.len() {
        0
    } else {
        lone_lf_occurrences(t, i + 1) + if t[i] == '\n' && !crlf_at(t, i - 1) { 1nat } else { 0nat }
    }
}

proof fn lemma_counts_occurrences(t: Seq<char>, i: int)
    requires
        0 <= i <= t.len(),
        !crlf_at(t, i - 1),
    ensures
        counts_from(t, i) == (lone_lf_occurrences(t, i), crlf_occurrences(t, i), lone_cr_occurrences(t, i)),
    decreases t.len() - i,
{
    if i < t.len() {
        if crlf_at(t, i) {
            lemma_counts_occurrences(t, i + 2);
            assert(!crlf_at(t, i + 1));
            assert(lone_lf_occurrences(t, i + 1) == lone_lf_occurrences(t, i + 2));
            assert(crlf_occurrences(t, i + 1) == crlf_occurrences(t, i + 2));
            assert(lone_cr_occurrences(t, i + 1) == lone_cr_occurrences(t, i + 2));
        } else {
            lemma_counts_occurrences(t, i + 1);
        }
    }
}

/// The counts of line endings are counts of occurrences: CRLF pairs, `\r`
/// that no `\n` follows, and `\n` that no `\r` precedes; the number of
/// lines is one more than their total, for a text that is not empty.
pub proof fn lemma_stats_count_occurrences(t: Seq<char>)
    ensures
        counts_from(t, 0) == (lone_lf_occurrences(t, 0), crlf_occurrences(t, 0), lone_cr_occurrences(t, 0)),
        line_total(t) == (if t.len() == 0 {
            0
        } else {
            lone_lf_occurrences(t, 0) + crlf_occurrences(t, 0) + lone_cr_occurrences(t, 0) + 1
        }),
{
    lemma_counts_occurrences(t, 0);
}

/// An ending read with target `b` is `b`.
proof fn lemma_read_ending_as(a: LineEnding, b: LineEnding)
    ensures
        normalized_from(ending_chars(a), 0, ending_chars(b)) == ending_chars(b),
{
    let t = ending_chars(a);
    let tg = ending_chars(b);
    assert(normalized_from(t, t.len() as int, tg) == Seq::<char>::empty());
    if a != LineEnding::CrLf {
        assert(normalized_from(t, 1, tg) == Seq::<char>::empty());
    }
    assert(tg + Seq::<char>::empty() =~= tg);
}

proof fn lemma_renormalize_from(t: Seq<char>, i: int, a: LineEnding, b: LineEnding)
    requires
        0 <= i <= t.len(),
    ensures
        normalized_from(normalized_from(t, i, ending_chars(a)), 0, ending_chars(b)) == normalized_from(t, i, ending_chars(b)),
    decreases t.len() - i,
{
    let ta = ending_chars(a);
    let tb = ending_chars(b);
    let n = normalized_from(t, i, ta);
    if i == t.len() {
        assert(n.len() == 0);
    } else {
        let j = if t[i] == '\r' && i + 1 < t.len() && t[i + 1] == '\n' { i + 2 } else { i + 1 };
        lemma_renormalize_from(t, j, a, b);
        lemma_normalized_read(t, j, a);
        let rest = normalized_from(t, j, ta);
        if t[i] == '\r' || t[i] == '\n' {
            assert(n == ta + rest);
            lemma_read_ending_as(a, b);
            lemma_read_concat(ta, rest, 0, tb);
        } else {
            let piece = seq![t[i]];
            assert(n == piece + rest);
            assert(normalized_from(piece, 1, tb) == Seq::<char>::empty());
            assert(piece + Seq::<char>::empty() =~= piece);
            assert(normalized_from(piece, 0, tb) == piece);
            lemma_read_concat(piece, rest, 0, tb);
        }
    }
}

/// Normalizing a normalized text to another ending gives what normalizing
/// the original text to that ending gives.
pub proof fn lemma_renormalize(t: Seq<char>, a: LineEnding, b: LineEnding)
    ensures
        normalized_from(normalized_from(t, 0, ending_chars(a)), 0, ending_chars(b)) == normalized_from(t, 0, ending_chars(b)),
{
    lemma_renormalize_from(t, 0, a, b);
}

/// Whether every ending counted is of style `e`.
pub open spec fn only_style(c: (nat, nat, nat), e: LineEnding) -> bool {
    match e {
        LineEnding::Lf => c.1 == 0 && c.2 == 0,
        LineEnding::CrLf => c.0 == 0 && c.2 == 0,
        LineEnding::Cr => c.0 == 0 && c.1 == 0,
    }
}

proof fn lemma_normalize_uniform_from(t: Seq<char>, i: int, e: LineEnding)
    requires
        0 <= i <= t.len(),
        only_style(counts_from(t, i), e),
    ensures
        normalized_from(t, i, ending_chars(e)) == t.skip(i),
    decreases t.len() - i,
{
    let tg = ending_chars(e);
    if i == t.len() {
        assert(t.skip(i) =~= Seq::<char>::empty());
    } else if t[i] == '\r' && i + 1 < t.len() && t[i + 1] == '\n' {
        lemma_normalize_uniform_from(t, i + 2, e);
        assert(tg =~= seq!['\r', '\n']);
        assert(tg + t.skip(i + 2) =~= t.skip(i));
    } else if t[i] == '\r' {
        lemma_normalize_uniform_from(t, i + 1, e);
        assert(tg =~= seq!['\r']);
        assert(tg + t.skip(i + 1) =~= t.skip(i));
    } else if t[i] == '\n' {
        lemma_normalize_uniform_from(t, i + 1, e);
        assert(tg =~= seq!['\n']);
        assert(tg + t.skip(i + 1) =~= t.skip(i));
    } else {
        lemma_normalize_uniform_from(t, i + 1, e);
        assert(seq![t[i]] + t.skip(i + 1) =~= t.skip(i));
    }
}

/// A text whose line endings are all of one style is unchanged when it is
/// normalized to that style; so converting it from that style to any
/// target gives its normalization to the target (the text itself when the
/// target is the same style).
pub proof fn lemma_convert_uniform(t: Seq<char>, from: LineEnding, target: LineEnding)
    requires
        only_style(counts_from(t, 0), from),
    ensures
        normalized_from(t, 0, ending_chars(from)) == t,
        (if from == target { t } else { normalized_from(t, 0, ending_chars(target)) }) == normalized_from(t, 0, ending_chars(target)),
{
    lemma_normalize_uniform_from(t, 0, from);
    assert(t.skip(0) =~= t);
}

/// The number of lines of a text is 0 when it is empty, else one more
/// than the total of its counted endings (LF, CRLF and CR).
pub proof fn lemma_line_total_from_counts(t: Seq<char>)
    ensures
        line_total(t) == (if t.len() == 0 {
            0
        } else {
            1 + counts_from(t, 0).0 + counts_from(t, 0).1 + counts_from(t, 0).2
        }),
{
}

/// A text without `\r` or `\n` is its own normalization.
pub proof fn lemma_normalize_without_breaks(t: Seq<char>, tg: Seq<char>, i: int)
    requires
        0 <= i <= t.len(),
        forall|j: int| 0 <= j < t.len() ==> #[trigger] t[j] != '\r' && t[j] != '\n',
    ensures
        normalized_from(t, i, tg) == t.skip(i),
    decreases t.len() - i,
{
    if i < t.len() {
        lemma_normalize_without_breaks(t, tg, i + 1);
        assert(seq![t[i]] + t.skip(i + 1) =~= t.skip(i));
    } else {
        assert(t.skip(i) =~= Seq::<char>::empty());
    }
}

proof fn lemma_split_from(t: Seq<char>, i: int)
    requires
        0 <= i <= t.len(),
    ensures
        split_from(t, i).flatten() == t.skip(i),
        forall|k: int| 0 <= k < split_from(t, i).len() ==> #[trigger] split_from(t, i)[k].len() > 0,
    decreases t.len() - i,
{
    if i < t.len() {
        let e = line_end_from(t, i);
        lemma_line_end_progress(t, i);
        lemma_split_from(t, e);
        let rest = split_from(t, e);
        let sp = seq![t.subrange(i, e)] + rest;
        assert(split_from(t, i) == sp);
        assert(sp.first() == t.subrange(i, e));
        assert(sp.drop_first() =~= rest);
        assert(t.subrange(i, e) + t.skip(e) =~= t.skip(i));
        assert forall|k: int| 0 <= k < sp.len() implies #[trigger] sp[k].len() > 0 by {
            if k > 0 {
                assert(sp[k] == rest[k - 1]);
            }
        }
    } else {
        assert(t.skip(i) =~= Seq::<char>::empty());
    }
}

/// The length of the line ending that a piece of text ends with: 2 for
/// `\r\n`, 1 for `\r` or `\n`, 0 for none.
pub open spec fn ending_len(p: Seq<char>) -> int {
    if p.len() >= 2 && p[p.len() - 2] == '\r' && p[p.len() - 1] == '\n' {
        2
    } else if p.len() >= 1 && (p[p.len() - 1] == '\r' || p[p.len() - 1] == '\n') {
        1
    } else {
        0
    }
}

/// No `\r` or `\n` in a text.
pub open spec fn no_break(s: Seq<char>) -> bool {
    forall|j: int| 0 <= j < s.len() ==> #[trigger] s[j] != '\r' && s[j] != '\n'
}

/// A piece holding one line: some text without a line break, then one
/// line ending, which only the last piece may lack.
pub open spec fn one_line(p: Seq<char>, last: bool) -> bool {
    &&& p.len() > 0
    &&& no_break(p.take(p.len() - ending_len(p)))
    &&& (ending_len(p) > 0 || last)
}

proof fn lemma_line_end_shape(t: Seq<char>, i: int)
    requires
        0 <= i < t.len(),
    ensures
        ({
            let e = line_end_from(t, i);
            let p = t.subrange(i, e);
            &&& one_line(p, e == t.len())
            &&& endings_from(t, i) == (if ending_len(p) > 0 { 1nat } else { 0nat }) + endings_from(t, e)
            &&& (ending_len(p) == 0 ==> e == t.len())
            &&& (ending_len(p) == 1 && p.last() == '\r' ==> !(e < t.len() && t[e] == '\n'))
        }),
    decreases t.len() - i,
{
    let e = line_end_from(t, i);
    lemma_line_end_progress(t, i);
    let p = t.subrange(i, e);
    if t[i] == '\r' || t[i] == '\n' {
        assert(p.take(p.len() - ending_len(p)) =~= Seq::<char>::empty());
    } else if i + 1 < t.len() {
        lemma_line_end_shape(t, i + 1);
        let p2 = t.subrange(i + 1, e);
        assert(p =~= seq![t[i]] + p2);
        assert(p.take(p.len() - ending_len(p)) =~= seq![t[i]] + p2.take(p2.len() - ending_len(p2)));
        assert(counts_from(t, i) == counts_from(t, i + 1));
    } else {
        assert(e == t.len());
        assert(p =~= seq![t[i]]);
        assert(p.take(p.len() - ending_len(p)) =~= p);
        assert(counts_from(t, i + 1) == (0nat, 0nat, 0nat));
        assert(counts_from(t, e) == (0nat, 0nat, 0nat));
    }
}

proof fn lemma_split_shape(t: Seq<char>, i: int)
    requires
        0 <= i <= t.len(),
    ensures
        ({
            let sp = split_from(t, i);
            &&& forall|k: int| 0 <= k < sp.len() ==> one_line(#[trigger] sp[k], k == sp.len() - 1)
            &&& forall|k: int| 0 <= k < sp.len() - 1 ==> (ending_len(#[trigger] sp[k]) == 1 && sp[k].last() == '\r' ==> sp[k + 1][0] != '\n')
            &&& sp.len() == endings_from(t, i) + (if i < t.len() && t.last() != '\r' && t.last() != '\n' { 1nat } else { 0nat })
        }),
    decreases t.len() - i,
{
    let sp = split_from(t, i);
    if i < t.len() {
        let e = line_end_from(t, i);
        lemma_line_end_progress(t, i);
        lemma_line_end_shape(t, i);
        lemma_split_shape(t, e);
        let p = t.subrange(i, e);
        let rest = split_from(t, e);
        assert(sp == seq![p] + rest);
        assert(sp[0] == p);
        assert forall|k: int| 0 <= k < sp.len() implies one_line(#[trigger] sp[k], k == sp.len() - 1) by {
            if k > 0 {
                assert(sp[k] == rest[k - 1]);
            } else if e < t.len() {
                lemma_line_end_progress(t, e);
                assert(rest.len() > 0);
            }
        }
        assert forall|k: int| 0 <= k < sp.len() - 1 implies (ending_len(#[trigger] sp[k]) == 1 && sp[k].last() == '\r' ==> sp[k + 1][0] != '\n') by {
            assert(sp[k + 1] == rest[k]);
            if k > 0 {
                assert(sp[k] == rest[k - 1]);
            } else {
                assert(e < t.len()) by {
                    if e == t.len() {
                        assert(rest.len() == 0);
                    }
                }
                lemma_line_end_progress(t, e);
                assert(rest[0] == t.subrange(e, line_end_from(t, e)));
                assert(rest[0][0] == t[e]);
            }
        }
        if e == t.len() {
            assert(rest.len() == 0);
            assert(counts_from(t, e) == (0nat, 0nat, 0nat));
            assert(p.last() == t.last());
            assert(p.len() >= 2 ==> p[p.len() - 2] == t[t.len() - 2]);
        }
    } else {
        assert(counts_from(t, i) == (0nat, 0nat, 0nat));
    }
}

/// The lines split off a text each hold one line: text without a line
/// break, then one line ending (`\n`, `\r\n` or `\r`), which only the
/// last may lack; a line ending in `\r` is never followed by one starting
/// with `\n` (that would be one `\r\n` ending); and there are as many as
/// the text has line endings, one more when it does not end with one.
pub proof fn lemma_split_lines_shape(t: Seq<char>)
    ensures
        ({
            let sp = split_from(t, 0);
            &&& forall|k: int| 0 <= k < sp.len() ==> one_line(#[trigger] sp[k], k == sp.len() - 1)
            &&& forall|k: int| 0 <= k < sp.len() - 1 ==> (ending_len(#[trigger] sp[k]) == 1 && sp[k].last() == '\r' ==> sp[k + 1][0] != '\n')
            &&& sp.len() == endings_from(t, 0) + (if t.len() > 0 && t.last() != '\r' && t.last() != '\n' { 1nat } else { 0nat })
        }),
{
    lemma_split_shape(t, 0);
}

/// The lines split off a text, put back together, give the text; none of
/// them is empty.
pub proof fn lemma_split_concat(t: Seq<char>)
    ensures
        split_from(t, 0).flatten() == t,
        forall|k: int| 0 <= k < split_from(t, 0).len() ==> #[trigger] split_from(t, 0)[k].len() > 0,
{
    lemma_split_from(t, 0);
    assert(t.skip(0) =~= t);
}

impl LineEnding {
    /// The characters of this ending.
    pub fn as_str(self) -> (s: &'static str)
        ensures
            s@ == ending_chars(self),
    {
        proof {
            reveal_strlit("\n");
            reveal_strlit("\r\n");
            reveal_strlit("\r");
        }
        match self {
            LineEnding::Lf => "\n",
            LineEnding::CrLf => "\r\n",
            LineEnding::Cr => "\r",
        }
    }

    /// The byte length of this ending.
    pub fn len(self) -> (n: usize)
        ensures
            n == ending_chars(self).len(),
    {
        match self {
            LineEnding::Lf => 1,
            LineEnding::CrLf => 2,
            LineEnding::Cr => 1,
        }
    }

    /// The name of this ending style.
    pub fn name(self) -> (s: &'static str)
        ensures
            self == LineEnding::Lf ==> s@ == "LF"@,
            self == LineEnding::CrLf ==> s@ == "CRLF"@,
            self == LineEnding::Cr ==> s@ == "CR"@,
    {
        match self {
            LineEnding::Lf => "LF",
            LineEnding::CrLf => "CRLF",
            LineEnding::Cr => "CR",
        }
    }

    /// The native line ending of this platform (LF on Unix-like systems).
    pub fn native() -> (e: Self)
        ensures
            e == native_ending(),
    {
        LineEnding::Lf
    }

    /// The text converted from this ending style to `target`: unchanged
    /// when the styles agree, else every ending replaced by `target`.
    pub fn convert_to(self, text: &str, target: LineEnding) -> (s: String)
        ensures
            self == target ==> s@ == text@,
            self != target ==> s@ == normalized_from(text@, 0, ending_chars(target)),
    {
        if self == target {
            return text.to_owned();
        }
        normalize_line_endings(text, target)
    }
}

/// Statistics about the line endings in a text.
#[derive(Debug, Clone, Copy, Default, PartialEq, Eq, Structural)]
pub struct LineEndingStats {
    /// Number of LF endings
    pub lf: usize,
    /// Number of CRLF endings
    pub crlf: usize,
    /// Number of CR endings
    pub cr: usize,
}

impl LineEndingStats {
    /// The total number of endings.
    pub fn total(&self) -> (n: usize)
        requires
            self.lf + self.crlf + self.cr <= usize::MAX,
        ensures
            n == self.lf + self.crlf + self.cr,
    {
        self.lf + self.crlf + self.cr
    }

    /// Whether at most one style of ending occurs.
    pub fn is_consistent(&self) -> (b: bool)
        ensures
            b == ((if self.lf > 0 { 1int } else { 0 }) + (if self.crlf > 0 { 1int } else { 0 }) + (
            if self.cr > 0 { 1int } else { 0 }) <= 1),
    {
        let has_lf: u8 = if self.lf > 0 { 1 } else { 0 };
        let has_crlf: u8 = if self.crlf > 0 { 1 } else { 0 };
        let has_cr: u8 = if self.cr > 0 { 1 } else { 0 };
        has_lf + has_crlf + has_cr <= 1
    }
}

pub(crate) fn count_endings(t: &Vec<char>) -> (r: (usize, usize, usize))
    ensures
        r.0 == counts_from(t@, 0).0,
        r.1 == counts_from(t@, 0).1,
        r.2 == counts_from(t@, 0).2,
{
    let mut lf: usize = 0;
    let mut crlf: usize = 0;
    let mut cr: usize = 0;
    let mut i: usize = 0;
    proof {
        lemma_counts_bounded(t@, 0);
    }
    while i < t.len()
        invariant
            i <= t.len(),
            counts_from(t@, i as int).0 + lf == counts_from(t@, 0).0,
            counts_from(t@, i as int).1 + crlf == counts_from(t@, 0).1,
            counts_from(t@, i as int).2 + cr == counts_from(t@, 0).2,
            counts_from(t@, 0).0 + counts_from(t@, 0).1 + counts_from(t@, 0).2 <= t.len(),
        decreases t.len() - i,
    {
        if t[i] == '\r' {
            if i + 1 < t.len() && t[i + 1] == '\n' {
                crlf = crlf + 1;
                i = i + 2;
            } else {
                cr = cr + 1;
                i = i + 1;
            }
        } else if t[i] == '\n' {
            lf = lf + 1;
            i = i + 1;
        } else {
            i = i + 1;
        }
    }
    (lf, crlf, cr)
}

fn choose_ending(lf: usize, crlf: usize, cr: usize) -> (e: LineEnding)
    ensures
        e == most_common(lf as nat, crlf as nat, cr as nat),
{
    if lf >= crlf && lf >= cr {
        if lf > 0 { LineEnding::Lf } else { LineEnding::native() }
    } else if crlf >= cr {
        LineEnding::CrLf
    } else {
        LineEnding::Cr
    }
}

/// The most common line ending in the text (LF winning ties, then CRLF), or
/// the native ending when the text has none.
pub fn detect_line_ending(text: &str) -> (e: LineEnding)
    ensures
        e == detected_ending(text@),
{
    let t = str_to_chars(text);
    let (lf, crlf, cr) = count_endings(&t);
    choose_ending(lf, crlf, cr)
}

/// The detected line ending together with the counts of each style.
pub fn detect_line_ending_with_stats(text: &str) -> (r: (LineEnding, LineEndingStats))
    ensures
        r.0 == detected_ending(text@),
        r.1.lf == counts_from(text@, 0).0,
        r.1.crlf == counts_from(text@, 0).1,
        r.1.cr == counts_from(text@, 0).2,
{
    let t = str_to_chars(text);
    let (lf, crlf, cr) = count_endings(&t);
    (choose_ending(lf, crlf, cr), LineEndingStats { lf, crlf, cr })
}

fn push_str_chars(s: &mut String, piece: &str)
    ensures
        final(s)@ == old(s)@ + piece@,
{
    s.append(piece);
}

/// The text with every line ending (LF, CRLF or CR) replaced by `target`.
pub fn normalize_line_endings(text: &str, target: LineEnding) -> (s: String)
    ensures
        s@ == normalized_from(text@, 0, ending_chars(target)),
{
    let t = str_to_chars(text);
    let target_str = target.as_str();
    let ghost tg = ending_chars(target);
    let mut result = String::new();
    let mut i: usize = 0;
    while i < t.len()
        invariant
            i <= t.len(),
            t@ == text@,
            target_str@ == tg,
            result@ + normalized_from(t@, i as int, tg) == normalized_from(t@, 0, tg),
        decreases t.len() - i,
    {
        let ghost old_res = result@;
        if t[i] == '\r' {
            push_str_chars(&mut result, target_str);
            if i + 1 < t.len() && t[i + 1] == '\n' {
                i = i + 2;
            } else {
                i = i + 1;
            }
            proof {
                assert(old_res + (tg + normalized_from(t@, i as int, tg)) == result@
                    + normalized_from(t@, i as int, tg));
            }
        } else if t[i] == '\n' {
            push_str_chars(&mut result, target_str);
            i = i + 1;
            proof {
                assert(old_res + (tg + normalized_from(t@, i as int, tg)) == result@
                    + normalized_from(t@, i as int, tg));
            }
        } else {
            string_push(&mut result, t[i]);
            proof {
                assert(old_res + (seq![t@[i as int]] + normalized_from(t@, i + 1, tg)) == result@
                    + normalized_from(t@, i + 1, tg));
            }
            i = i + 1;
        }
    }
    proof {
        assert(result@ + normalized_from(t@, i as int, tg) == result@);
    }
    result
}

/// The number of lines: 0 for empty text, else one more than the number of
/// line endings.
pub fn count_lines(text: &str) -> (n: usize)
    requires
        text@.len() < usize::MAX,
    ensures
        n == line_total(text@),
{
    let t = str_to_chars(text);
    if t.len() == 0 {
        return 0;
    }
    let (lf, crlf, cr) = count_endings(&t);
    proof {
        lemma_counts_bounded(t@, 0);
    }
    lf + crlf + cr + 1
}

/// The lines of the text, each with its own line ending (the last line may
/// have none).
pub fn split_lines_with_endings(text: &str) -> (lines: Vec<String>)
    ensures
        lines@.map_values(|l: String| l@) == split_from(text@, 0),
{
    let t = str_to_chars(text);
    let mut lines: Vec<String> = Vec::new();
    let mut last: usize = 0;
    while last < t.len()
        invariant
            last <= t.len(),
            t@ == text@,
            lines@.map_values(|l: String| l@) + split_from(t@, last as int) == split_from(t@, 0),
        decreases t.len() - last,
    {
        let mut i = last;
        let mut line = String::new();
        let ghost start = last as int;
        proof {
            lemma_line_end_progress(t@, start);
        }
        let mut done = false;
        while !done
            invariant
                t@ == text@,
                0 <= start <= i <= t.len(),
                line@ == t@.subrange(start, i as int),
                done ==> i == line_end_from(t@, start),
                !done ==> i < t.len() && line_end_from(t@, start) == line_end_from(t@, i as int),
            decreases t.len() - i + (if done { 0int } else { 1int }),
        {
            let c = t[i];
            let ghost i0 = i as int;
            proof {
                assert(line_end_from(t@, i0) == (if c == '\r' {
                    if i0 + 1 < t@.len() && t@[i0 + 1] == '\n' { i0 + 2 } else { i0 + 1 }
                } else if c == '\n' { i0 + 1 } else { line_end_from(t@, i0 + 1) }));
                assert(line_end_from(t@, t@.len() as int) == t@.len());
            }
            string_push(&mut line, c);
            proof {
                assert(t@.subrange(start, i + 1) == t@.subrange(start, i as int).push(c));
            }
            if c == '\r' {
                if i + 1 < t.len() && t[i + 1] == '\n' {
                    string_push(&mut line, '\n');
                    proof {
                        assert(t@.subrange(start, i + 2) == t@.subrange(start, i + 1).push('\n'));
                    }
                    i = i + 2;
                } else {
                    i = i + 1;
                }
                done = true;
            } else if c == '\n' {
                i = i + 1;
                done = true;
            } else {
                i = i + 1;
                if i == t.len() {
                    done = true;
                }
            }
        }
        let ghost before = lines@.map_values(|l: String| l@);
        lines.push(line);
        proof {
            assert(lines@.map_values(|l: String| l@) == before.push(t@.subrange(start, i as int)));
            assert(split_from(t@, start) == seq![t@.subrange(start, i as int)] + split_from(
                t@,
                i as int,
            ));
            assert(before + split_from(t@, start) == lines@.map_values(|l: String| l@)
                + split_from(t@, i as int));
        }
        last = i;
    }
    proof {
        assert(lines@.map_values(|l: String| l@) + split_from(t@, last as int) == lines@.map_values(
            |l: String| l@,
        ));
    }
    lines
}

} // verus!
