//! The line structure of a text, as the rope library defines it.
//!
//! A line ends just after a line break; the start of the text and every
//! position just after a break start a line. Breaks are LF, CR, CRLF (one
//! break), VT, FF, NEL, LINE SEPARATOR and PARAGRAPH SEPARATOR.

use vstd::prelude::*;

verus! {

/// Whether `c` is a line-break character.
pub open spec fn is_break_char(c: char) -> bool {
    c == '\n' || c == '\r' || c == '\u{0B}' || c == '\u{0C}' || c == '\u{85}' || c == '\u{2028}'
        || c == '\u{2029}'
}

/// Whether a line ends just before index `p`, so that `p` starts a line.
pub open spec fn ends_line_before(t: Seq<char>, p: int) -> bool {
    &&& 1 <= p <= t.len()
    &&& is_break_char(t[p - 1])
    &&& !(t[p - 1] == '\r' && p < t.len() && t[p] == '\n')
}

/// The start of the line after the one containing index `s`, or
/// `t.len() + 1` when that line is the last.
pub open spec fn next_line_start(t: Seq<char>, s: int) -> int
    decreases t.len() - s,
{
    if s < 0 || s >= t.len() {
        t.len() + 1int
    } else if ends_line_before(t, s + 1) {
        s + 1
    } else {
        next_line_start(t, s + 1)
    }
}

/// The start of the `k`-th line after the line starting at `s`.
pub open spec fn line_start_from(t: Seq<char>, s: int, k: nat) -> int
    decreases k,
{
    if k == 0 {
        s
    } else {
        line_start_from(t, next_line_start(t, s), (k - 1) as nat)
    }
}

/// The start of line `k` (`t.len() + 1` for lines past the last).
pub open spec fn line_start(t: Seq<char>, k: nat) -> int {
    line_start_from(t, 0, k)
}

/// The number of lines from the line starting at `s` to the end.
pub open spec fn lines_from(t: Seq<char>, s: int) -> nat
    decreases t.len() + 1 - s,
{
    if s < 0 || s > t.len() {
        0
    } else {
        proof {
            lemma_next_line_start(t, s);
        }
        1 + lines_from(t, next_line_start(t, s))
    }
}

/// The number of lines of a text (an empty text has one line).
pub open spec fn line_count(t: Seq<char>) -> nat {
    lines_from(t, 0)
}

/// The character index where line `k` starts; for `k == line_count(t)`,
/// the length of the text.
pub open spec fn line_char(t: Seq<char>, k: nat) -> int {
    if line_start(t, k) > t.len() {
        t.len() as int
    } else {
        line_start(t, k)
    }
}

/// The length of line `k` in characters, its line break included.
pub open spec fn line_length(t: Seq<char>, k: nat) -> int {
    line_char(t, k + 1) - line_char(t, k)
}

/// The characters of line `k`, its line break included.
pub open spec fn line_text(t: Seq<char>, k: nat) -> Seq<char> {
    t.subrange(line_char(t, k), line_char(t, k + 1))
}

/// The number of line starts after `s` up to and including `off`.
pub open spec fn line_of_from(t: Seq<char>, s: int, off: int) -> nat
    decreases t.len() + 1 - s,
{
    if s < 0 || s > t.len() {
        0
    } else {
        proof {
            lemma_next_line_start(t, s);
        }
        if next_line_start(t, s) <= off {
            1 + line_of_from(t, next_line_start(t, s), off)
        } else {
            0
        }
    }
}

/// The line that contains character index `off`.
pub open spec fn line_of(t: Seq<char>, off: int) -> nat {
    line_of_from(t, 0, off)
}

/// The next line starts after `s` and at most one past the end.
pub proof fn lemma_next_line_start(t: Seq<char>, s: int)
    requires
        0 <= s <= t.len(),
    ensures
        s < next_line_start(t, s) <= t.len() + 1,
    decreases t.len() - s,
{
    if s < t.len() && !ends_line_before(t, s + 1) {
        lemma_next_line_start(t, s + 1);
    }
}

/// Line starts stay within one past the end of the text.
pub proof fn lemma_line_start_bounded(t: Seq<char>, s: int, k: nat)
    requires
        0 <= s <= t.len() + 1,
    ensures
        s <= line_start_from(t, s, k) <= t.len() + 1,
    decreases k,
{
    if k > 0 {
        if s <= t.len() {
            lemma_next_line_start(t, s);
        }
        lemma_line_start_bounded(t, next_line_start(t, s), (k - 1) as nat);
    }
}

/// A line start lies within the text exactly for the existing lines.
pub proof fn lemma_line_start_count(t: Seq<char>, s: int, k: nat)
    requires
        0 <= s <= t.len() + 1,
    ensures
        (line_start_from(t, s, k) <= t.len()) == (k < lines_from(t, s)),
    decreases k,
{
    if k > 0 {
        if s <= t.len() {
            lemma_next_line_start(t, s);
        }
        lemma_line_start_count(t, next_line_start(t, s), (k - 1) as nat);
    }
}

/// The line after line `k` starts at the next line start.
pub proof fn lemma_line_start_step(t: Seq<char>, s: int, k: nat)
    ensures
        line_start_from(t, s, k + 1) == next_line_start(t, line_start_from(t, s, k)),
    decreases k,
{
    if k > 0 {
        lemma_line_start_step(t, next_line_start(t, s), (k - 1) as nat);
        assert(line_start_from(t, s, k) == line_start_from(t, next_line_start(t, s), (k - 1) as nat));
        assert(line_start_from(t, s, k + 1) == line_start_from(t, next_line_start(t, s), k));
    } else {
        assert(line_start_from(t, s, 1) == line_start_from(t, next_line_start(t, s), 0));
    }
}

/// For an existing line, its start lies within the text and the next
/// line's start (or the end of the text) lies after it.
pub proof fn lemma_line_bounds(t: Seq<char>, k: nat)
    requires
        k < line_count(t),
    ensures
        0 <= line_char(t, k) == line_start(t, k) <= t.len(),
        line_char(t, k) <= line_char(t, k + 1) <= t.len(),
        line_length(t, k) >= 0,
{
    lemma_line_start_count(t, 0, k);
    lemma_line_start_bounded(t, 0, k);
    lemma_line_start_step(t, 0, k);
    lemma_next_line_start(t, line_start(t, k));
}

/// The line containing `off` starts at or before `off`.
pub proof fn lemma_line_of_start(t: Seq<char>, s: int, off: int)
    requires
        0 <= s <= off <= t.len(),
    ensures
        line_start_from(t, s, line_of_from(t, s, off)) <= off,
        line_of_from(t, s, off) < lines_from(t, s),
    decreases t.len() + 1 - s,
{
    lemma_next_line_start(t, s);
    if next_line_start(t, s) <= off {
        lemma_line_of_start(t, next_line_start(t, s), off);
    }
}

/// A line start found by the scan is preceded by a line break.
pub proof fn lemma_next_line_start_ends(t: Seq<char>, s: int)
    requires
        0 <= s,
        next_line_start(t, s) <= t.len(),
    ensures
        ends_line_before(t, next_line_start(t, s)),
    decreases t.len() - s,
{
    if s < t.len() && !ends_line_before(t, s + 1) {
        lemma_next_line_start_ends(t, s + 1);
    }
}

/// Two texts that agree on `[x, q)`, where `q` is the next line start after
/// `x` in the first and also ends a line in the second, have the same next
/// line start after `x`.
proof fn lemma_next_line_start_agree(t1: Seq<char>, t2: Seq<char>, x: int, q: int)
    requires
        0 <= x < q,
        q == next_line_start(t1, x),
        q <= t1.len(),
        q <= t2.len(),
        forall|i: int| x <= i < q ==> t1[i] == t2[i],
        ends_line_before(t2, q),
    ensures
        next_line_start(t2, x) == q,
    decreases q - x,
{
    if x + 1 < q {
        assert(!ends_line_before(t1, x + 1));
        assert(t1[x] == t2[x] && t1[x + 1] == t2[x + 1]);
        assert(!ends_line_before(t2, x + 1));
        lemma_next_line_start_agree(t1, t2, x + 1, q);
    } else {
        assert(ends_line_before(t1, x + 1)) by {
            if !ends_line_before(t1, x + 1) {
                lemma_next_line_start(t1, x + 1);
            }
        }
    }
}

/// Skipping characters that are not line breaks does not change the next
/// line start.
proof fn lemma_next_line_start_skip(t: Seq<char>, y: int, z: int)
    requires
        0 <= y <= z <= t.len(),
        forall|i: int| y <= i < z ==> !is_break_char(#[trigger] t[i]),
    ensures
        next_line_start(t, y) == next_line_start(t, z),
    decreases z - y,
{
    if y < z {
        assert(!ends_line_before(t, y + 1));
        lemma_next_line_start_skip(t, y + 1, z);
    }
}

/// After an insertion of `n` characters at `o`, the scan from past `o`
/// is shifted by `n`.
proof fn lemma_next_line_start_shift(t: Seq<char>, t2: Seq<char>, o: int, n: int, y: int)
    requires
        0 <= o <= y,
        o <= t.len(),
        n >= 0,
        t2.len() == t.len() + n,
        forall|i: int| o <= i < t.len() ==> t2[i + n] == t[i],
    ensures
        next_line_start(t2, y + n) == next_line_start(t, y) + n,
    decreases t.len() - y,
{
    if y < t.len() {
        assert(t2[y + n] == t[y]);
        if y + 1 < t.len() {
            assert(t2[y + 1 + n] == t[y + 1]);
        }
        assert(ends_line_before(t2, y + n + 1) == ends_line_before(t, y + 1));
        lemma_next_line_start_shift(t, t2, o, n, y + 1);
        assert(y + 1 + n == y + n + 1);
    }
}

/// Line starts that lie at or before `o` are unchanged by an insertion of
/// break-free text at `o`.
proof fn lemma_prefix_line_starts(t: Seq<char>, t2: Seq<char>, o: int, s: int, m: nat)
    requires
        0 <= s <= o <= t.len(),
        line_start_from(t, s, m) <= o,
        t2.len() >= t.len(),
        forall|i: int| 0 <= i < o ==> t2[i] == t[i],
        t2 == t || (o < t2.len() && !is_break_char(t2[o])),
    ensures
        line_start_from(t2, s, m) == line_start_from(t, s, m),
    decreases m,
{
    if m > 0 {
        let q = next_line_start(t, s);
        lemma_next_line_start(t, s);
        lemma_line_start_bounded(t, q, (m - 1) as nat);
        assert(q <= o);
        lemma_next_line_start_ends(t, s);
        assert(ends_line_before(t2, q)) by {
            assert(t2[q - 1] == t[q - 1]);
            if q < o {
                assert(t2[q] == t[q]);
            }
        }
        lemma_next_line_start_agree(t, t2, s, q);
        lemma_prefix_line_starts(t, t2, o, q, (m - 1) as nat);
    }
}

/// Inserting text without line breaks inside the content of line `k`
/// (before its line break) keeps the line where it starts and lengthens
/// it by the inserted length.
pub proof fn lemma_insert_within_line(t: Seq<char>, k: nat, col: int, ins: Seq<char>)
    requires
        k < line_count(t),
        0 <= col <= line_length(t, k),
        forall|i: int| line_char(t, k) <= i < line_char(t, k) + col ==> !is_break_char(#[trigger] t[i]),
        forall|i: int| 0 <= i < ins.len() ==> !is_break_char(#[trigger] ins[i]),
    ensures
        ({
            let o = line_char(t, k) + col;
            let t2 = t.take(o) + ins + t.skip(o);
            &&& k < line_count(t2)
            &&& line_char(t2, k) == line_char(t, k)
            &&& line_length(t2, k) == line_length(t, k) + ins.len()
        }),
{
    let a = line_char(t, k);
    let o = a + col;
    let n = ins.len() as int;
    let t2 = t.take(o) + ins + t.skip(o);
    lemma_line_bounds(t, k);
    assert(o <= t.len());
    assert(t2.len() == t.len() + n);
    assert forall|i: int| 0 <= i < o implies t2[i] == t[i] by {}
    assert forall|i: int| o <= i < t.len() implies t2[i + n] == t[i] by {}
    // lines up to k start where they did
    if n == 0 {
        assert(t2 =~= t);
    } else {
        assert(t2[o] == ins[0]);
    }
    lemma_prefix_line_starts(t, t2, o, 0, k);
    assert(line_start(t2, k) == a);
    // the next line start moves by n
    lemma_next_line_start_skip(t, a, o);
    assert forall|i: int| a <= i < o + n implies !is_break_char(#[trigger] t2[i]) by {
        if i >= o {
            assert(t2[i] == ins[i - o]);
        }
    }
    lemma_next_line_start_skip(t2, a, o + n);
    lemma_next_line_start_shift(t, t2, o, n, o);
    lemma_line_start_step(t, 0, k);
    lemma_line_start_step(t2, 0, k);
    assert(line_start(t2, k + 1) == line_start(t, k + 1) + n);
    lemma_line_start_count(t2, 0, k);
    lemma_next_line_start(t, a);
}


/// Counting `j` lines and then `m` more is counting `j + m` lines.
pub proof fn lemma_line_start_compose(t: Seq<char>, s: int, j: nat, m: nat)
    ensures
        line_start_from(t, s, j + m) == line_start_from(t, line_start_from(t, s, j), m),
    decreases j,
{
    if j > 0 {
        lemma_line_start_compose(t, next_line_start(t, s), (j - 1) as nat, m);
        assert(line_start_from(t, s, j + m) == line_start_from(t, next_line_start(t, s), (j - 1 + m) as nat));
    }
}

/// Line starts do not decrease.
pub proof fn lemma_line_start_monotone(t: Seq<char>, j: nat, k: nat)
    requires
        j <= k,
        j < line_count(t),
    ensures
        line_start(t, j) <= line_start(t, k),
{
    lemma_line_start_compose(t, 0, j, (k - j) as nat);
    lemma_line_start_count(t, 0, j);
    lemma_line_start_bounded(t, 0, j);
    lemma_line_start_bounded(t, line_start(t, j), (k - j) as nat);
}

/// Counted from the start of line `j`, an index within line `k` lies
/// `k - j` lines further.
proof fn lemma_line_of_from_start(t: Seq<char>, j: nat, k: nat, off: int)
    requires
        j <= k,
        k < line_count(t),
        line_start(t, k) <= off < line_start(t, k + 1),
        off <= t.len(),
    ensures
        line_of_from(t, line_start(t, j), off) == k - j,
    decreases k - j,
{
    lemma_line_start_count(t, 0, j);
    lemma_line_start_bounded(t, 0, j);
    lemma_line_start_step(t, 0, j);
    if j < k {
        lemma_line_start_monotone(t, j + 1, k);
        lemma_line_of_from_start(t, j + 1, k, off);
    }
}

/// An index within line `k` (its line break included) lies on line `k`.
pub proof fn lemma_line_of_within(t: Seq<char>, k: nat, off: int)
    requires
        k < line_count(t),
        line_start(t, k) <= off < line_start(t, k + 1),
        off <= t.len(),
    ensures
        line_of(t, off) == k,
{
    lemma_line_of_from_start(t, 0, k, off);
}

/// The line after the one containing `off` starts after `off`.
pub proof fn lemma_line_of_end(t: Seq<char>, s: int, off: int)
    requires
        0 <= s <= off <= t.len(),
    ensures
        line_start_from(t, s, line_of_from(t, s, off) + 1) > off,
    decreases t.len() + 1 - s,
{
    lemma_next_line_start(t, s);
    if next_line_start(t, s) <= off {
        lemma_line_of_end(t, next_line_start(t, s), off);
        assert(line_start_from(t, s, line_of_from(t, s, off) + 1) == line_start_from(
            t,
            next_line_start(t, s),
            line_of_from(t, next_line_start(t, s), off) + 1,
        ));
    } else {
        assert(line_start_from(t, s, 1) == line_start_from(t, next_line_start(t, s), 0));
    }
}

/// Each line start inside the text lies at least one character further.
pub proof fn lemma_line_start_at_least(t: Seq<char>, s: int, k: nat)
    requires
        0 <= s,
        line_start_from(t, s, k) <= t.len(),
    ensures
        line_start_from(t, s, k) >= s + k,
    decreases k,
{
    if k > 0 {
        if s <= t.len() {
            lemma_next_line_start(t, s);
        } else {
            lemma_line_start_bounded(t, next_line_start(t, s), (k - 1) as nat);
        }
        lemma_line_start_at_least(t, next_line_start(t, s), (k - 1) as nat);
    }
}

} // verus!
