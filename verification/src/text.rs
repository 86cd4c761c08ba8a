//! Conversions between strings and character vectors, and character-level
//! text utilities (whitespace, prefixes, searching).

use vstd::prelude::*;

verus! {

/// Appends one character to a string (`String::push`).
#[verifier::external_body]
pub(crate) fn string_push(s: &mut String, c: char)
    ensures
        final(s)@ == old(s)@.push(c),
{
    s.push(c);
}

/// The characters of a string slice, in order.
pub fn str_to_chars(s: &str) -> (v: Vec<char>)
    ensures
        v@ == s@,
{
    let mut v: Vec<char> = Vec::new();
    for c in it: s.chars()
        invariant
            v@ == it.seq().take(it.index() as int),
    {
        v.push(c);
    }
    v
}

/// A string made of the given characters.
pub fn chars_to_string(v: &[char]) -> (s: String)
    ensures
        s@ == v@,
{
    let mut s = String::new();
    let mut i: usize = 0;
    while i < v.len()
        invariant
            i <= v.len(),
            s@ == v@.take(i as int),
        decreases v.len() - i,
    {
        string_push(&mut s, v[i]);
        proof {
            assert(v@.take(i + 1) == v@.take(i as int).push(v@[i as int]));
        }
        i = i + 1;
    }
    proof {
        assert(v@.take(v@.len() as int) == v@);
    }
    s
}

/// A string made of the characters of `v` from `start` to `end`.
pub fn subrange_string(v: &[char], start: usize, end: usize) -> (s: String)
    requires
        start <= end <= v@.len(),
    ensures
        s@ == v@.subrange(start as int, end as int),
{
    let mut s = String::new();
    let mut i: usize = start;
    while i < end
        invariant
            start <= i <= end,
            end <= v@.len(),
            s@ == v@.subrange(start as int, i as int),
        decreases end - i,
    {
        string_push(&mut s, v[i]);
        proof {
            assert(v@.subrange(start as int, i + 1) =~= v@.subrange(start as int, i as int).push(v@[i as int]));
        }
        i = i + 1;
    }
    s
}

/// The decimal digit character for `d < 10`.
pub open spec fn digit_char(d: nat) -> char {
    if d == 0 { '0' } else if d == 1 { '1' } else if d == 2 { '2' } else if d == 3 { '3' }
    else if d == 4 { '4' } else if d == 5 { '5' } else if d == 6 { '6' } else if d == 7 { '7' }
    else if d == 8 { '8' } else { '9' }
}

/// The decimal rendering of a natural number, without leading zeros.
pub open spec fn usize_decimal(n: nat) -> Seq<char>
    decreases n,
{
    if n < 10 {
        seq![digit_char(n)]
    } else {
        usize_decimal(n / 10) + seq![digit_char(n % 10)]
    }
}

fn digit_of(d: usize) -> (c: char)
    requires
        d < 10,
    ensures
        c == digit_char(d as nat),
{
    if d == 0 { '0' } else if d == 1 { '1' } else if d == 2 { '2' } else if d == 3 { '3' }
    else if d == 4 { '4' } else if d == 5 { '5' } else if d == 6 { '6' } else if d == 7 { '7' }
    else if d == 8 { '8' } else { '9' }
}

/// The decimal rendering of `n`.
pub fn usize_to_string(n: usize) -> (s: String)
    ensures
        s@ == usize_decimal(n as nat),
    decreases n,
{
    if n < 10 {
        let mut s = String::new();
        string_push(&mut s, digit_of(n));
        s
    } else {
        let mut s = usize_to_string(n / 10);
        string_push(&mut s, digit_of(n % 10));
        s
    }
}

/// Whether `c` has the Unicode `White_Space` property (what
/// `char::is_whitespace` tests).
pub open spec fn is_ws(c: char) -> bool {
    let u = c as u32;
    (0x09 <= u <= 0x0D) || u == 0x20 || u == 0x85 || u == 0xA0 || u == 0x1680 || (0x2000 <= u
        <= 0x200A) || u == 0x2028 || u == 0x2029 || u == 0x202F || u == 0x205F || u == 0x3000
}

/// Whether `c` has the Unicode `White_Space` property.
pub fn is_whitespace(c: char) -> (b: bool)
    ensures
        b == is_ws(c),
{
    let u = c as u32;
    (0x09 <= u && u <= 0x0D) || u == 0x20 || u == 0x85 || u == 0xA0 || u == 0x1680 || (0x2000
        <= u && u <= 0x200A) || u == 0x2028 || u == 0x2029 || u == 0x202F || u == 0x205F || u
        == 0x3000
}

/// The number of whitespace characters at the start of `s`.
pub open spec fn leading_ws(s: Seq<char>) -> nat
    decreases s.len(),
{
    if s.len() > 0 && is_ws(s[0]) {
        1 + leading_ws(s.drop_first())
    } else {
        0
    }
}

/// `s` without its leading whitespace.
pub open spec fn trim_start(s: Seq<char>) -> Seq<char> {
    s.skip(leading_ws(s) as int)
}

/// The number of whitespace characters at the end of `s`.
pub open spec fn trailing_ws(s: Seq<char>) -> nat
    decreases s.len(),
{
    if s.len() > 0 && is_ws(s.last()) {
        1 + trailing_ws(s.drop_last())
    } else {
        0
    }
}

/// `s` without its trailing whitespace.
pub open spec fn trim_end(s: Seq<char>) -> Seq<char> {
    s.take(s.len() - trailing_ws(s))
}

/// Every character of `s` is whitespace.
pub open spec fn all_ws(s: Seq<char>) -> bool {
    forall|i: int| 0 <= i < s.len() ==> is_ws(#[trigger] s[i])
}

/// `s` begins with `p`.
pub open spec fn starts_with(s: Seq<char>, p: Seq<char>) -> bool {
    p.len() <= s.len() && s.subrange(0, p.len() as int) == p
}

/// `s` ends with `p`.
pub open spec fn ends_with(s: Seq<char>, p: Seq<char>) -> bool {
    p.len() <= s.len() && s.subrange(s.len() - p.len(), s.len() as int) == p
}

/// `p` occurs in `s` at index `i`.
pub open spec fn occurs_at(s: Seq<char>, p: Seq<char>, i: int) -> bool {
    0 <= i && i + p.len() <= s.len() && s.subrange(i, i + p.len()) == p
}

/// The first index from `i` on where `p` occurs in `s`.
pub open spec fn find_from(s: Seq<char>, p: Seq<char>, i: int) -> Option<int>
    decreases s.len() + 1 - i,
{
    if i < 0 || i + p.len() > s.len() {
        None
    } else if occurs_at(s, p, i) {
        Some(i)
    } else {
        find_from(s, p, i + 1)
    }
}

/// The first index where `p` occurs in `s`.
pub open spec fn find_sub(s: Seq<char>, p: Seq<char>) -> Option<int> {
    find_from(s, p, 0)
}

pub proof fn lemma_leading_ws_bound(s: Seq<char>)
    ensures
        leading_ws(s) <= s.len(),
        forall|i: int| 0 <= i < leading_ws(s) ==> is_ws(#[trigger] s[i]),
        leading_ws(s) < s.len() ==> !is_ws(s[leading_ws(s) as int]),
    decreases s.len(),
{
    if s.len() > 0 && is_ws(s[0]) {
        lemma_leading_ws_bound(s.drop_first());
        assert forall|i: int| 0 <= i < leading_ws(s) implies is_ws(#[trigger] s[i]) by {
            if i > 0 {
                assert(s[i] == s.drop_first()[i - 1]);
            }
        }
    }
}

/// `leading_ws` is the length of the longest all-whitespace prefix.
pub proof fn lemma_leading_ws(s: Seq<char>, k: int)
    requires
        0 <= k <= s.len(),
        forall|i: int| 0 <= i < k ==> is_ws(#[trigger] s[i]),
        k < s.len() ==> !is_ws(s[k]),
    ensures
        leading_ws(s) == k,
    decreases s.len(),
{
    if k > 0 {
        assert(is_ws(s[0]));
        assert forall|i: int| 0 <= i < k - 1 implies is_ws(#[trigger] s.drop_first()[i]) by {
            assert(s.drop_first()[i] == s[i + 1]);
        }
        if k < s.len() {
            assert(s.drop_first()[k - 1] == s[k]);
        }
        lemma_leading_ws(s.drop_first(), k - 1);
    }
}

/// The number of whitespace characters at the start of `v`.
pub fn leading_ws_count(v: &[char]) -> (n: usize)
    ensures
        n == leading_ws(v@),
        n <= v@.len(),
{
    let mut i: usize = 0;
    while i < v.len() && is_whitespace(v[i])
        invariant
            i <= v@.len(),
            forall|j: int| 0 <= j < i ==> is_ws(#[trigger] v@[j]),
        decreases v@.len() - i,
    {
        i = i + 1;
    }
    proof {
        lemma_leading_ws(v@, i as int);
    }
    i
}

/// Whether `p` occurs in `v` at index `i`.
pub fn occurs_at_exec(v: &[char], p: &[char], i: usize) -> (b: bool)
    ensures
        b == occurs_at(v@, p@, i as int),
{
    if i > v.len() || p.len() > v.len() - i {
        return false;
    }
    let mut k: usize = 0;
    while k < p.len()
        invariant
            i + p@.len() <= v@.len(),
            i + p.len() <= v.len(),
            k <= p@.len(),
            forall|j: int| 0 <= j < k ==> v@[i + j] == #[trigger] p@[j],
        decreases p@.len() - k,
    {
        if v[i + k] != p[k] {
            proof {
                assert(v@.subrange(i as int, i + p@.len())[k as int] != p@[k as int]);
            }
            return false;
        }
        k = k + 1;
    }
    proof {
        assert(v@.subrange(i as int, i + p@.len()) =~= p@);
    }
    true
}

/// The first index where `p` occurs in `v`.
pub fn find_chars(v: &[char], p: &[char]) -> (r: Option<usize>)
    ensures
        r matches Some(i) ==> find_sub(v@, p@) == Some(i as int),
        r is None ==> find_sub(v@, p@) is None,
{
    if p.len() > v.len() {
        return None;
    }
    let mut i: usize = 0;
    while i <= v.len() - p.len()
        invariant
            p@.len() <= v@.len(),
            p.len() <= v.len(),
            i <= v@.len() - p@.len(),
            find_sub(v@, p@) == find_from(v@, p@, i as int),
        decreases v@.len() - i,
    {
        if occurs_at_exec(v, p, i) {
            return Some(i);
        }
        if i == v.len() - p.len() {
            proof {
                assert(find_from(v@, p@, i + 1) is None);
            }
            return None;
        }
        i = i + 1;
    }
    None
}

/// The concatenation of two strings.
pub fn concat(a: &str, b: &str) -> (r: String)
    ensures
        r@ == a@ + b@,
{
    let mut r = a.to_owned();
    let w = str_to_chars(b);
    let mut k: usize = 0;
    while k < w.len()
        invariant
            k <= w@.len(),
            r@ == a@ + w@.take(k as int),
        decreases w@.len() - k,
    {
        string_push(&mut r, w[k]);
        proof {
            assert(w@.take(k + 1) =~= w@.take(k as int).push(w@[k as int]));
        }
        k = k + 1;
    }
    proof {
        assert(w@.take(k as int) =~= w@);
    }
    r
}

/// The decimal rendering of `n`.
pub fn u64_to_string(n: u64) -> (s: String)
    ensures
        s@ == usize_decimal(n as nat),
    decreases n,
{
    if n < 10 {
        let mut s = String::new();
        string_push(&mut s, digit_of(n as usize));
        s
    } else {
        let mut s = u64_to_string(n / 10);
        string_push(&mut s, digit_of((n % 10) as usize));
        s
    }
}

/// Every character is ASCII.
pub open spec fn is_ascii_text(s: Seq<char>) -> bool {
    forall|i: int| 0 <= i < s.len() ==> (#[trigger] s[i] as u32) < 128
}

/// The ASCII lower-case form of a character.
pub open spec fn ascii_lower_char(c: char) -> char {
    if 'A' <= c <= 'Z' {
        ((c as u32) + 32) as char
    } else {
        c
    }
}

/// The ASCII lower-case form of a text.
pub open spec fn ascii_lower(s: Seq<char>) -> Seq<char> {
    s.map_values(|c: char| ascii_lower_char(c))
}

/// Whether two texts are equal.
pub fn str_eq(a: &str, b: &str) -> (r: bool)
    ensures
        r == (a@ == b@),
{
    let x = str_to_chars(a);
    let y = str_to_chars(b);
    if x.len() != y.len() {
        return false;
    }
    let mut i: usize = 0;
    while i < x.len()
        invariant
            x@ == a@,
            y@ == b@,
            x@.len() == y@.len(),
            i <= x@.len(),
            forall|j: int| 0 <= j < i ==> x@[j] == y@[j],
        decreases x@.len() - i,
    {
        if x[i] != y[i] {
            return false;
        }
        i = i + 1;
    }
    proof {
        assert(x@ =~= y@);
    }
    true
}

/// The upper-case mapping of a character (`char::to_uppercase`), which
/// may be several characters.
pub uninterp spec fn char_upper(c: char) -> Seq<char>;

/// The lower-case mapping of a character (`char::to_lowercase`).
pub uninterp spec fn char_lower(c: char) -> Seq<char>;

/// The upper-case form of a string (`str::to_uppercase`).
pub uninterp spec fn str_upper(s: Seq<char>) -> Seq<char>;

/// The lower-case form of a string (`str::to_lowercase`).
pub uninterp spec fn str_lower(s: Seq<char>) -> Seq<char>;

/// The ASCII upper-case form of a character.
pub open spec fn ascii_upper_char(c: char) -> char {
    if 'a' <= c <= 'z' {
        ((c as u32) - 32) as char
    } else {
        c
    }
}

/// The upper-case mapping of a character: the ASCII one on an ASCII
/// character, [`char_upper`] otherwise.
pub open spec fn upper_of(c: char) -> Seq<char> {
    if (c as u32) < 128 {
        seq![ascii_upper_char(c)]
    } else {
        char_upper(c)
    }
}

/// The lower-case form of a text: the ASCII mapping on ASCII text, the
/// Unicode one ([`str_lower`]) otherwise.
pub open spec fn lower_of(s: Seq<char>) -> Seq<char> {
    if is_ascii_text(s) {
        ascii_lower(s)
    } else {
        str_lower(s)
    }
}

/// The ASCII upper-case form of a text.
pub open spec fn ascii_upper(s: Seq<char>) -> Seq<char> {
    s.map_values(|c: char| ascii_upper_char(c))
}

/// The upper-case form of a text: the ASCII mapping on ASCII text, the
/// Unicode one ([`str_upper`]) otherwise.
pub open spec fn upper_text_of(s: Seq<char>) -> Seq<char> {
    if is_ascii_text(s) {
        ascii_upper(s)
    } else {
        str_upper(s)
    }
}

/// The lower-case mapping of a character: the ASCII one on an ASCII
/// character, [`char_lower`] otherwise.
pub open spec fn lower_char_of(c: char) -> Seq<char> {
    if (c as u32) < 128 {
        seq![ascii_lower_char(c)]
    } else {
        char_lower(c)
    }
}

/// `char::to_uppercase`, collected: the result is the name
/// [`char_upper`] of the character; on an ASCII character it is that
/// character in ASCII upper case.
#[verifier::external_body]
pub(crate) fn char_to_upper(c: char) -> (s: String)
    ensures
        s@ == char_upper(c),
        (c as u32) < 128 ==> s@ == seq![ascii_upper_char(c)],
{
    c.to_uppercase().collect()
}

/// `char::to_lowercase`, collected: the result is the name
/// [`char_lower`] of the character; on an ASCII character it is that
/// character in ASCII lower case.
#[verifier::external_body]
pub(crate) fn char_to_lower(c: char) -> (s: String)
    ensures
        s@ == char_lower(c),
        (c as u32) < 128 ==> s@ == seq![ascii_lower_char(c)],
{
    c.to_lowercase().collect()
}

/// `str::to_uppercase`: the result is the name [`str_upper`] of the text;
/// on ASCII text it is the ASCII upper-case mapping.
#[verifier::external_body]
pub(crate) fn string_to_upper(s: &str) -> (r: String)
    ensures
        r@ == str_upper(s@),
        is_ascii_text(s@) ==> r@ == ascii_upper(s@),
{
    s.to_uppercase()
}

/// `str::to_lowercase`: the result is the name [`str_lower`] of the text;
/// on ASCII text it is the ASCII lower-case mapping.
#[verifier::external_body]
pub(crate) fn string_to_lower(s: &str) -> (r: String)
    ensures
        r@ == str_lower(s@),
        is_ascii_text(s@) ==> r@ == ascii_lower(s@),
{
    s.to_lowercase()
}

/// The trailing whitespace counted by `trailing_ws` lies within the text.
pub proof fn lemma_trailing_ws_bound(s: Seq<char>)
    ensures
        trailing_ws(s) <= s.len(),
    decreases s.len(),
{
    if s.len() > 0 && is_ws(s.last()) {
        lemma_trailing_ws_bound(s.drop_last());
    }
}

/// `trailing_ws` is the length of the longest all-whitespace suffix.
pub proof fn lemma_trailing_ws(s: Seq<char>, k: int)
    requires
        0 <= k <= s.len(),
        forall|i: int| s.len() - k <= i < s.len() ==> is_ws(#[trigger] s[i]),
        k < s.len() ==> !is_ws(s[s.len() - k - 1]),
    ensures
        trailing_ws(s) == k,
    decreases s.len(),
{
    if k > 0 {
        assert(is_ws(s[s.len() - 1]));
        assert forall|i: int| s.drop_last().len() - (k - 1) <= i < s.drop_last().len() implies is_ws(#[trigger] s.drop_last()[i]) by {
            assert(s.drop_last()[i] == s[i]);
        }
        if k < s.len() {
            assert(s.drop_last()[s.drop_last().len() - (k - 1) - 1] == s[s.len() - k - 1]);
        }
        lemma_trailing_ws(s.drop_last(), k - 1);
    }
}

/// The number of whitespace characters at the end of `v`.
pub fn trailing_ws_count(v: &[char]) -> (n: usize)
    ensures
        n == trailing_ws(v@),
        n <= v@.len(),
{
    let mut k: usize = 0;
    while k < v.len() && is_whitespace(v[v.len() - 1 - k])
        invariant
            k <= v@.len(),
            forall|i: int| v@.len() - k <= i < v@.len() ==> is_ws(#[trigger] v@[i]),
        decreases v@.len() - k,
    {
        k = k + 1;
    }
    proof {
        lemma_trailing_ws(v@, k as int);
    }
    k
}

/// `s` without whitespace at either end.
pub open spec fn trim(s: Seq<char>) -> Seq<char> {
    trim_end(trim_start(s))
}

/// The characters of `v` without whitespace at either end.
pub fn trim_chars(v: &[char]) -> (r: Vec<char>)
    ensures
        r@ == trim(v@),
{
    let a = leading_ws_count(v);
    let mut t: Vec<char> = Vec::new();
    let mut i: usize = a;
    while i < v.len()
        invariant
            a <= i <= v@.len(),
            t@ == v@.subrange(a as int, i as int),
        decreases v@.len() - i,
    {
        t.push(v[i]);
        proof {
            assert(v@.subrange(a as int, i + 1) =~= v@.subrange(a as int, i as int).push(v@[i as int]));
        }
        i = i + 1;
    }
    proof {
        assert(t@ =~= trim_start(v@));
    }
    let b = trailing_ws_count(t.as_slice());
    let mut r: Vec<char> = Vec::new();
    let mut j: usize = 0;
    while j < t.len() - b
        invariant
            b <= t@.len(),
            j <= t@.len() - b,
            r@ == t@.take(j as int),
        decreases t@.len() - b - j,
    {
        r.push(t[j]);
        proof {
            assert(t@.take(j + 1) =~= t@.take(j as int).push(t@[j as int]));
        }
        j = j + 1;
    }
    r
}

/// The pieces of `s` between occurrences of `sep` (one more piece than
/// there are separators).
pub open spec fn split_on(s: Seq<char>, sep: char) -> Seq<Seq<char>>
    decreases s.len(),
{
    if s.len() == 0 {
        seq![Seq::empty()]
    } else {
        let r = split_on(s.drop_last(), sep);
        if s.last() == sep {
            r.push(Seq::empty())
        } else {
            r.update(r.len() - 1, r.last().push(s.last()))
        }
    }
}

/// `split_on` always gives at least one piece.
pub proof fn lemma_split_on_len(s: Seq<char>, sep: char)
    ensures
        split_on(s, sep).len() >= 1,
    decreases s.len(),
{
    if s.len() > 0 {
        lemma_split_on_len(s.drop_last(), sep);
    }
}

/// The pieces of `v` between occurrences of `sep`.
pub fn split_chars(v: &[char], sep: char) -> (r: Vec<Vec<char>>)
    ensures
        r@.len() >= 1,
        r@.len() == split_on(v@, sep).len(),
        forall|i: int| 0 <= i < r@.len() ==> #[trigger] r@[i]@ == split_on(v@, sep)[i],
{
    let mut r: Vec<Vec<char>> = Vec::new();
    let mut cur: Vec<char> = Vec::new();
    let mut i: usize = 0;
    proof {
        assert(v@.take(0) =~= Seq::<char>::empty());
    }
    while i < v.len()
        invariant
            i <= v@.len(),
            r@.len() + 1 == split_on(v@.take(i as int), sep).len(),
            forall|j: int| 0 <= j < r@.len() ==> #[trigger] r@[j]@ == split_on(v@.take(i as int), sep)[j],
            cur@ == split_on(v@.take(i as int), sep).last(),
        decreases v@.len() - i,
    {
        proof {
            assert(v@.take(i + 1).drop_last() =~= v@.take(i as int));
            assert(v@.take(i + 1).last() == v@[i as int]);
            lemma_split_on_len(v@.take(i as int), sep);
        }
        if v[i] == sep {
            let mut done: Vec<char> = Vec::new();
            std::mem::swap(&mut cur, &mut done);
            r.push(done);
        } else {
            cur.push(v[i]);
        }
        i = i + 1;
    }
    proof {
        assert(v@.take(i as int) =~= v@);
        lemma_split_on_len(v@, sep);
    }
    r.push(cur);
    r
}

/// A text without `sep` is a single piece.
pub proof fn lemma_split_on_single(t: Seq<char>, sep: char)
    requires
        forall|i: int| 0 <= i < t.len() ==> t[i] != sep,
    ensures
        split_on(t, sep) == seq![t],
    decreases t.len(),
{
    if t.len() == 0 {
        assert(t =~= Seq::<char>::empty());
    } else {
        assert forall|i: int| 0 <= i < t.drop_last().len() implies t.drop_last()[i] != sep by {
            assert(t.drop_last()[i] == t[i]);
        }
        lemma_split_on_single(t.drop_last(), sep);
        assert(t.last() == t[t.len() - 1]);
        let r = split_on(t.drop_last(), sep);
        assert(t.drop_last().push(t.last()) =~= t);
        assert(r.update(r.len() - 1, r.last().push(t.last())) =~= seq![t]);
    }
}

/// Splitting `s`, then `sep`, then a text `t` without `sep` gives the
/// pieces of `s` and then `t`.
pub proof fn lemma_split_on_append(s: Seq<char>, t: Seq<char>, sep: char)
    requires
        forall|i: int| 0 <= i < t.len() ==> t[i] != sep,
    ensures
        split_on(s + seq![sep] + t, sep) == split_on(s, sep).push(t),
    decreases t.len(),
{
    let u = s + seq![sep] + t;
    if t.len() == 0 {
        assert(u.drop_last() =~= s);
        assert(u.last() == sep);
        assert(t =~= Seq::<char>::empty());
    } else {
        assert forall|i: int| 0 <= i < t.drop_last().len() implies t.drop_last()[i] != sep by {
            assert(t.drop_last()[i] == t[i]);
        }
        lemma_split_on_append(s, t.drop_last(), sep);
        assert(u.drop_last() =~= s + seq![sep] + t.drop_last());
        assert(u.last() == t.last());
        assert(t.last() == t[t.len() - 1]);
        let r = split_on(u.drop_last(), sep);
        assert(r == split_on(s, sep).push(t.drop_last()));
        assert(t.drop_last().push(t.last()) =~= t);
        assert(r.update(r.len() - 1, r.last().push(t.last())) =~= split_on(s, sep).push(t));
    }
}

/// Splitting pieces that hold no `sep`, joined with `sep`, gives them back.
pub proof fn lemma_split_joined(ls: Seq<Seq<char>>, sep: char)
    requires
        ls.len() >= 1,
        forall|k: int, i: int| 0 <= k < ls.len() && 0 <= i < ls[k].len() ==> #[trigger] ls[k][i] != sep,
    ensures
        split_on(joined(ls, sep), sep) == ls,
    decreases ls.len(),
{
    if ls.len() == 1 {
        lemma_split_on_single(ls[0], sep);
        assert(seq![ls[0]] =~= ls);
    } else {
        assert forall|k: int, i: int| 0 <= k < ls.drop_last().len() && 0 <= i < ls.drop_last()[k].len()
            implies #[trigger] ls.drop_last()[k][i] != sep by {
            assert(ls.drop_last()[k] == ls[k]);
        }
        lemma_split_joined(ls.drop_last(), sep);
        assert forall|i: int| 0 <= i < ls.last().len() implies ls.last()[i] != sep by {
            assert(ls.last()[i] == ls[ls.len() - 1][i]);
        }
        lemma_split_on_append(joined(ls.drop_last(), sep), ls.last(), sep);
        assert(ls.drop_last().push(ls.last()) =~= ls);
    }
}

/// A text that neither begins nor ends with whitespace is its own trim.
pub proof fn lemma_trim_unchanged(s: Seq<char>)
    requires
        s.len() > 0 ==> !is_ws(s[0]) && !is_ws(s.last()),
    ensures
        trim(s) == s,
{
    assert(leading_ws(s) == 0);
    assert(s.skip(0) =~= s);
    assert(trailing_ws(s) == 0);
    assert(s.take(s.len() as int) =~= s);
}

/// The pieces joined, `sep` between each two.
pub open spec fn joined(ls: Seq<Seq<char>>, sep: char) -> Seq<char>
    decreases ls.len(),
{
    if ls.len() == 0 {
        Seq::empty()
    } else if ls.len() == 1 {
        ls[0]
    } else {
        joined(ls.drop_last(), sep) + seq![sep] + ls.last()
    }
}


/// `p` occurs somewhere in `s`.
pub open spec fn contains_sub(s: Seq<char>, p: Seq<char>) -> bool {
    find_sub(s, p) is Some
}

/// Whether `p` occurs in `v`.
pub fn chars_contain(v: &[char], p: &str) -> (b: bool)
    ensures
        b == contains_sub(v@, p@),
{
    let pc = str_to_chars(p);
    find_chars(v, pc.as_slice()).is_some()
}

/// The part of `s` after the last occurrence of `c` (all of `s` when `c`
/// does not occur).
pub open spec fn after_last(s: Seq<char>, c: char) -> Seq<char>
    decreases s.len(),
{
    if s.len() == 0 {
        Seq::empty()
    } else if s.last() == c {
        Seq::empty()
    } else {
        after_last(s.drop_last(), c).push(s.last())
    }
}

/// `after_last` is a suffix of its text.
pub proof fn lemma_after_last(s: Seq<char>, c: char)
    ensures
        after_last(s, c).len() <= s.len(),
        after_last(s, c) == s.subrange(s.len() - after_last(s, c).len(), s.len() as int),
        after_last(s, c).len() < s.len() ==> s[s.len() - after_last(s, c).len() - 1] == c,
        forall|i: int| s.len() - after_last(s, c).len() <= i < s.len() ==> s[i] != c,
    decreases s.len(),
{
    if s.len() > 0 && s.last() != c {
        lemma_after_last(s.drop_last(), c);
        assert(after_last(s, c) =~= s.subrange(s.len() - after_last(s, c).len(), s.len() as int));
        assert forall|i: int| s.len() - after_last(s, c).len() <= i < s.len() implies s[i] != c by {
            if i < s.len() - 1 {
                assert(s[i] == s.drop_last()[i]);
            }
        }
    }
}

/// Where the part of `v` after the last `c` begins.
pub fn after_last_start(v: &[char], c: char) -> (k: usize)
    ensures
        k <= v@.len(),
        v@.subrange(k as int, v@.len() as int) == after_last(v@, c),
{
    let mut k: usize = v.len();
    proof {
        lemma_after_last(v@, c);
    }
    while k > 0 && v[k - 1] != c
        invariant
            k <= v@.len(),
            forall|i: int| k <= i < v@.len() ==> v@[i] != c,
            v@.len() - after_last(v@, c).len() <= k,
            after_last(v@, c).len() <= v@.len(),
            after_last(v@, c) == v@.subrange(v@.len() - after_last(v@, c).len(), v@.len() as int),
            after_last(v@, c).len() < v@.len() ==> v@[v@.len() - after_last(v@, c).len() - 1] == c,
        decreases k,
    {
        k = k - 1;
    }
    k
}


/// What `find_from` finds is an occurrence, at or after where it starts.
pub proof fn lemma_find_from_occurs(s: Seq<char>, p: Seq<char>, i: int)
    ensures
        find_from(s, p, i) matches Some(k) ==> occurs_at(s, p, k) && i <= k,
    decreases s.len() + 1 - i,
{
    if !(i < 0 || i + p.len() > s.len()) && !occurs_at(s, p, i) {
        lemma_find_from_occurs(s, p, i + 1);
    }
}

} // verus!
