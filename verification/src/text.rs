//! Character-level text primitives with their mathematical meaning.
//!
//! Every executable function here works on a slice of `char`s and is tied to a
//! spec function over `Seq<char>`; the spec functions state what the standard
//! string operations used by the rest of the library mean.

use vstd::prelude::*;

verus! {

broadcast use vstd::string::group_string_axioms;

// ───────────────────────────── spec vocabulary ─────────────────────────────

/// Unicode `White_Space`, as tested by `char::is_whitespace`.
pub open spec fn is_ws(c: char) -> bool {
    let u = c as u32;
    ||| (0x9 <= u && u <= 0xd)
    ||| u == 0x20
    ||| u == 0x85
    ||| u == 0xa0
    ||| u == 0x1680
    ||| (0x2000 <= u && u <= 0x200a)
    ||| u == 0x2028
    ||| u == 0x2029
    ||| u == 0x202f
    ||| u == 0x205f
    ||| u == 0x3000
}

/// Number of leading whitespace characters.
pub open spec fn lead_ws(s: Seq<char>) -> nat
    decreases s.len(),
{
    if s.len() > 0 && is_ws(s[0]) {
        1 + lead_ws(s.drop_first())
    } else {
        0
    }
}

/// Number of trailing whitespace characters.
pub open spec fn trail_ws(s: Seq<char>) -> nat
    decreases s.len(),
{
    if s.len() > 0 && is_ws(s.last()) {
        1 + trail_ws(s.drop_last())
    } else {
        0
    }
}

pub open spec fn trim_start(s: Seq<char>) -> Seq<char> {
    s.skip(lead_ws(s) as int)
}

pub open spec fn trim_end(s: Seq<char>) -> Seq<char> {
    s.take(s.len() - trail_ws(s))
}

/// `str::trim`: whitespace removed from both ends.
pub open spec fn trim(s: Seq<char>) -> Seq<char> {
    trim_end(trim_start(s))
}

pub open spec fn starts_with(s: Seq<char>, p: Seq<char>) -> bool {
    p.len() <= s.len() && s.take(p.len() as int) == p
}

pub open spec fn ends_with(s: Seq<char>, p: Seq<char>) -> bool {
    p.len() <= s.len() && s.skip(s.len() - p.len()) == p
}

/// `p` occurs in `s` starting at index `i`.
pub open spec fn occurs_at(s: Seq<char>, p: Seq<char>, i: int) -> bool {
    0 <= i && i + p.len() <= s.len() && s.subrange(i, i + p.len()) == p
}

pub open spec fn contains(s: Seq<char>, p: Seq<char>) -> bool {
    exists|i: int| occurs_at(s, p, i)
}

/// First occurrence of `p` in `s` at an index `>= i`.
pub open spec fn find_from(s: Seq<char>, p: Seq<char>, i: int) -> Option<int>
    decreases s.len() - i,
{
    if i < 0 || i + p.len() > s.len() {
        None
    } else if p.len() == 0 || occurs_at(s, p, i) {
        Some(i)
    } else {
        find_from(s, p, i + 1)
    }
}

pub open spec fn find(s: Seq<char>, p: Seq<char>) -> Option<int> {
    find_from(s, p, 0)
}

/// Index of the first character at or after `i` that equals `a` or `b`
/// (`s.len()` when there is none).
pub open spec fn index_of2_from(s: Seq<char>, a: char, b: char, i: int) -> int
    decreases s.len() - i,
{
    if i < 0 || i >= s.len() {
        s.len() as int
    } else if s[i] == a || s[i] == b {
        i
    } else {
        index_of2_from(s, a, b, i + 1)
    }
}

pub open spec fn index_of2(s: Seq<char>, a: char, b: char) -> int {
    index_of2_from(s, a, b, 0)
}

pub open spec fn index_of(s: Seq<char>, a: char) -> int {
    index_of2(s, a, a)
}

/// The first piece of `s.split(|c| c == a || c == b)`.
pub open spec fn until2(s: Seq<char>, a: char, b: char) -> Seq<char> {
    s.take(index_of2(s, a, b))
}

/// The first piece of `s.split(a)`.
pub open spec fn until(s: Seq<char>, a: char) -> Seq<char> {
    until2(s, a, a)
}

/// `str::trim_start_matches` with a literal pattern: every leading copy of `p` removed.
pub open spec fn strip_all_prefix(s: Seq<char>, p: Seq<char>) -> Seq<char>
    decreases s.len(),
{
    if p.len() > 0 && starts_with(s, p) {
        strip_all_prefix(s.skip(p.len() as int), p)
    } else {
        s
    }
}

/// `str::trim_end_matches` with a literal pattern: every trailing copy of `p` removed.
pub open spec fn strip_all_suffix(s: Seq<char>, p: Seq<char>) -> Seq<char>
    decreases s.len(),
{
    if p.len() > 0 && ends_with(s, p) {
        strip_all_suffix(s.take(s.len() - p.len()), p)
    } else {
        s
    }
}

/// A line as `str::lines` yields it: a single `'\r'` before the `'\n'` is dropped.
pub open spec fn strip_cr(l: Seq<char>) -> Seq<char> {
    if l.len() > 0 && l.last() == '\r' {
        l.drop_last()
    } else {
        l
    }
}

/// `str::lines`: the pieces between `'\n'`s, `"\r\n"` counting as one line
/// ending, and no empty piece after a final line ending.
pub open spec fn lines(s: Seq<char>) -> Seq<Seq<char>>
    decreases s.len(),
{
    if s.len() == 0 {
        seq![]
    } else {
        let i = index_of(s, '\n');
        if i >= s.len() || i < 0 {
            seq![s]
        } else {
            seq![strip_cr(s.take(i))] + lines(s.skip(i + 1))
        }
    }
}

/// Concatenation of `parts` with `sep` between neighbours (`[T]::join`).
pub open spec fn join(parts: Seq<Seq<char>>, sep: Seq<char>) -> Seq<char>
    decreases parts.len(),
{
    if parts.len() == 0 {
        seq![]
    } else if parts.len() == 1 {
        parts[0]
    } else {
        join(parts.drop_last(), sep) + sep + parts.last()
    }
}

/// The part of `s` after the last `c` (all of `s` when there is no `c`):
/// the first item of `s.rsplit(c)`.
pub open spec fn after_last(s: Seq<char>, c: char) -> Seq<char>
    decreases s.len(),
{
    let i = index_of(s, c);
    if 0 <= i < s.len() {
        after_last(s.skip(i + 1), c)
    } else {
        s
    }
}

/// Number of leading characters that are not whitespace.
pub open spec fn lead_non_ws(s: Seq<char>) -> nat
    decreases s.len(),
{
    if s.len() > 0 && !is_ws(s[0]) {
        1 + lead_non_ws(s.drop_first())
    } else {
        0
    }
}

/// `s.split_whitespace().next()`.
pub open spec fn first_token(s: Seq<char>) -> Option<Seq<char>> {
    let t = trim_start(s);
    if t.len() == 0 {
        None
    } else {
        Some(t.take(lead_non_ws(t) as int))
    }
}

/// Index of the first whitespace (`want_ws`) or non-whitespace character at or
/// after `i` (`s.len()` when there is none).
pub open spec fn next_class(s: Seq<char>, want_ws: bool, i: int) -> int
    decreases s.len() - i,
{
    if i < 0 || i >= s.len() {
        s.len() as int
    } else if is_ws(s[i]) == want_ws {
        i
    } else {
        next_class(s, want_ws, i + 1)
    }
}

pub proof fn lemma_next_class(s: Seq<char>, want_ws: bool, i: int)
    requires
        0 <= i <= s.len(),
    ensures
        i <= next_class(s, want_ws, i) <= s.len(),
        forall|j: int| i <= j < next_class(s, want_ws, i) ==> is_ws(#[trigger] s[j]) != want_ws,
        next_class(s, want_ws, i) < s.len() ==> is_ws(s[next_class(s, want_ws, i)]) == want_ws,
    decreases s.len() - i,
{
    if i < s.len() && is_ws(s[i]) != want_ws {
        lemma_next_class(s, want_ws, i + 1);
    }
}

/// `s[i..].split_whitespace()`: the maximal runs of non-whitespace characters.
pub open spec fn words_from(s: Seq<char>, i: int) -> Seq<Seq<char>>
    decreases s.len() - i,
{
    if i < 0 || i >= s.len() {
        seq![]
    } else {
        let j = next_class(s, false, i);
        if j >= s.len() {
            seq![]
        } else {
            let k = next_class(s, true, j + 1);
            proof {
                lemma_next_class(s, false, i);
                lemma_next_class(s, true, j + 1);
            }
            seq![s.subrange(j, k)] + words_from(s, k)
        }
    }
}

/// `str::split_whitespace`.
pub open spec fn words(s: Seq<char>) -> Seq<Seq<char>> {
    words_from(s, 0)
}

/// Number of non-overlapping occurrences of `w` in `s` at or after `i`, found
/// left to right (`str::matches(w).count()` for a non-empty `w`).
pub open spec fn count_from(s: Seq<char>, w: Seq<char>, i: int) -> nat
    decreases s.len() - i,
{
    if w.len() == 0 || i < 0 || i > s.len() {
        0
    } else {
        match find_from(s, w, i) {
            Some(k) => {
                proof {
                    lemma_find_from_some(s, w, i);
                }
                1 + count_from(s, w, k + w.len())
            },
            None => 0,
        }
    }
}

pub open spec fn count_matches(s: Seq<char>, w: Seq<char>) -> nat {
    count_from(s, w, 0)
}

/// The first `n` characters of `s` (all of it when shorter).
pub open spec fn take_chars(s: Seq<char>, n: nat) -> Seq<char> {
    if s.len() > n {
        s.take(n as int)
    } else {
        s
    }
}

/// The character of a decimal digit.
pub open spec fn digit_char(d: nat) -> char {
    (48 + d) as char
}

/// The decimal numeral of `n` (`n.to_string()`).
pub open spec fn decimal(n: nat) -> Seq<char>
    decreases n,
{
    if n < 10 {
        seq![digit_char(n)]
    } else {
        decimal(n / 10).push(digit_char(n % 10))
    }
}

// ───────────────────────────── lemmas ─────────────────────────────

pub proof fn lemma_lead_non_ws(s: Seq<char>, k: int)
    requires
        0 <= k <= s.len(),
        forall|j: int| 0 <= j < k ==> !is_ws(#[trigger] s[j]),
        k == s.len() || is_ws(s[k]),
    ensures
        lead_non_ws(s) == k,
    decreases k,
{
    if k > 0 {
        let t = s.drop_first();
        assert forall|j: int| 0 <= j < k - 1 implies !is_ws(#[trigger] t[j]) by {
            assert(t[j] == s[j + 1]);
        }
        if k - 1 < t.len() {
            assert(t[k - 1] == s[k]);
        }
        lemma_lead_non_ws(t, k - 1);
    }
}

pub proof fn lemma_index_of2_from(s: Seq<char>, a: char, b: char, i: int)
    requires
        0 <= i,
    ensures
        ({
            let r = index_of2_from(s, a, b, i);
            &&& (i <= s.len() ==> i <= r)
            &&& r <= s.len()
            &&& (i > s.len() ==> r == s.len())
            &&& forall|j: int| i <= j < r ==> s[j] != a && s[j] != b
            &&& (r < s.len() ==> (s[r] == a || s[r] == b))
        }),
    decreases s.len() - i,
{
    if i < s.len() && !(s[i] == a || s[i] == b) {
        lemma_index_of2_from(s, a, b, i + 1);
    }
}

pub proof fn lemma_lead_ws(s: Seq<char>, k: int)
    requires
        0 <= k <= s.len(),
        forall|j: int| 0 <= j < k ==> is_ws(#[trigger] s[j]),
        k == s.len() || !is_ws(s[k]),
    ensures
        lead_ws(s) == k,
    decreases k,
{
    if k > 0 {
        let t = s.drop_first();
        assert forall|j: int| 0 <= j < k - 1 implies is_ws(#[trigger] t[j]) by {
            assert(t[j] == s[j + 1]);
        }
        if k - 1 < t.len() {
            assert(t[k - 1] == s[k]);
        }
        lemma_lead_ws(t, k - 1);
    }
}

pub proof fn lemma_trail_ws(s: Seq<char>, k: int)
    requires
        0 <= k <= s.len(),
        forall|j: int| s.len() - k <= j < s.len() ==> is_ws(#[trigger] s[j]),
        k == s.len() || !is_ws(s[s.len() - k - 1]),
    ensures
        trail_ws(s) == k,
    decreases k,
{
    if k > 0 {
        let t = s.drop_last();
        assert forall|j: int| t.len() - (k - 1) <= j < t.len() implies is_ws(#[trigger] t[j]) by {
            assert(t[j] == s[j]);
        }
        if k - 1 < t.len() {
            assert(t[t.len() - (k - 1) - 1] == s[s.len() - k - 1]);
        }
        lemma_trail_ws(t, k - 1);
    }
}

pub proof fn lemma_lead_ws_bound(s: Seq<char>)
    ensures
        lead_ws(s) <= s.len(),
    decreases s.len(),
{
    if s.len() > 0 && is_ws(s[0]) {
        lemma_lead_ws_bound(s.drop_first());
    }
}

pub proof fn lemma_trail_ws_bound(s: Seq<char>)
    ensures
        trail_ws(s) <= s.len(),
    decreases s.len(),
{
    if s.len() > 0 && is_ws(s.last()) {
        lemma_trail_ws_bound(s.drop_last());
    }
}

/// A trimmed string is a piece of the original.
pub proof fn lemma_trim_is_subrange(s: Seq<char>) -> (r: (int, int))
    ensures
        0 <= r.0 <= r.1 <= s.len(),
        trim(s) == s.subrange(r.0, r.1),
{
    lemma_lead_ws_bound(s);
    let a = lead_ws(s) as int;
    let t = s.skip(a);
    lemma_trail_ws_bound(t);
    let b = a + t.len() - trail_ws(t);
    assert(trim(s) =~= s.subrange(a, b));
    (a, b)
}

/// Removing leading copies of a pattern leaves a suffix of the original.
pub proof fn lemma_strip_all_prefix_is_skip(s: Seq<char>, p: Seq<char>) -> (k: int)
    ensures
        0 <= k <= s.len(),
        strip_all_prefix(s, p) == s.skip(k),
    decreases s.len(),
{
    if p.len() > 0 && starts_with(s, p) {
        let k1 = lemma_strip_all_prefix_is_skip(s.skip(p.len() as int), p);
        assert(s.skip(p.len() as int).skip(k1) =~= s.skip(p.len() + k1));
        p.len() + k1
    } else {
        assert(s.skip(0) =~= s);
        0
    }
}

/// A pattern that ends a piece of `s` occurs in `s`.
pub proof fn lemma_ends_with_piece_contains(s: Seq<char>, a: int, b: int, p: Seq<char>)
    requires
        0 <= a <= b <= s.len(),
        ends_with(s.subrange(a, b), p),
    ensures
        contains(s, p),
{
    let i = b - p.len();
    assert(s.subrange(i, i + p.len()) =~= s.subrange(a, b).skip(b - a - p.len()));
    assert(occurs_at(s, p, i));
}

// ───────────────────────────── executable primitives ─────────────────────────────

/// The characters of a string slice.
pub fn chars_of(s: &str) -> (v: Vec<char>)
    ensures
        v@ == s@,
{
    let mut v: Vec<char> = Vec::new();
    for c in it: s.chars()
        invariant
            v@ == it.seq().take(it.index() as int),
    {
        v.push(c);
    }
    v
}


/// `char::is_whitespace`.
pub fn is_ws_char(c: char) -> (r: bool)
    ensures
        r == is_ws(c),
{
    let u = c as u32;
    (0x9 <= u && u <= 0xd) || u == 0x20 || u == 0x85 || u == 0xa0 || u == 0x1680 || (0x2000 <= u
        && u <= 0x200a) || u == 0x2028 || u == 0x2029 || u == 0x202f || u == 0x205f || u == 0x3000
}

/// Bounds `(a, b)` such that `s[a..b]` is `s` trimmed of whitespace.
pub fn trim_bounds(s: &[char]) -> (r: (usize, usize))
    ensures
        r.0 <= r.1 <= s@.len(),
        s@.subrange(r.0 as int, r.1 as int) == trim(s@),
        r.0 == lead_ws(s@),
{
    let n = s.len();
    let mut a: usize = 0;
    while a < n && is_ws_char(s[a])
        invariant
            a <= n == s@.len(),
            forall|j: int| 0 <= j < a ==> is_ws(#[trigger] s@[j]),
        decreases n - a,
    {
        a = a + 1;
    }
    proof {
        lemma_lead_ws(s@, a as int);
    }
    let mut b: usize = n;
    while b > a && is_ws_char(s[b - 1])
        invariant
            a <= b <= n == s@.len(),
            forall|j: int| b <= j < n ==> is_ws(#[trigger] s@[j]),
        decreases b,
    {
        b = b - 1;
    }
    proof {
        let t = s@.skip(a as int);
        let k = (n - b) as int;
        assert forall|j: int| t.len() - k <= j < t.len() implies is_ws(#[trigger] t[j]) by {
            assert(t[j] == s@[a + j]);
        }
        if k < t.len() {
            assert(t[t.len() - k - 1] == s@[b - 1]);
        }
        lemma_trail_ws(t, k);
        assert(trim(s@) =~= s@.subrange(a as int, b as int));
    }
    (a, b)
}

/// Whether `p` occurs in `s` at index `i`.
pub fn occurs_at_exec(s: &[char], p: &[char], i: usize) -> (r: bool)
    ensures
        r == occurs_at(s@, p@, i as int),
{
    if i > s.len() || p.len() > s.len() - i {
        return false;
    }
    let n = s.len();
    let mut j: usize = 0;
    while j < p.len()
        invariant
            n == s@.len(),
            i + p@.len() <= s@.len(),
            j <= p@.len(),
            forall|k: int| 0 <= k < j ==> s@[i + k] == p@[k],
        decreases p.len() - j,
    {
        if s[i + j] != p[j] {
            assert(s@.subrange(i as int, i + p@.len())[j as int] != p@[j as int]);
            return false;
        }
        j = j + 1;
    }
    assert(s@.subrange(i as int, i + p@.len()) =~= p@);
    true
}

pub fn starts_with_exec(s: &[char], p: &[char]) -> (r: bool)
    ensures
        r == starts_with(s@, p@),
{
    let r = occurs_at_exec(s, p, 0);
    assert(s@.subrange(0, p@.len() as int) =~= s@.take(p@.len() as int));
    r
}

pub fn ends_with_exec(s: &[char], p: &[char]) -> (r: bool)
    ensures
        r == ends_with(s@, p@),
{
    if p.len() > s.len() {
        return false;
    }
    let r = occurs_at_exec(s, p, s.len() - p.len());
    assert(s@.subrange(s@.len() - p@.len(), s@.len() as int) =~= s@.skip(s@.len() - p@.len()));
    r
}

/// First occurrence of `p` in `s` at or after `from`.
pub fn find_from_exec(s: &[char], p: &[char], from: usize) -> (r: Option<usize>)
    ensures
        r matches Some(i) ==> find_from(s@, p@, from as int) == Some(i as int),
        r is None <==> find_from(s@, p@, from as int) is None,
{
    let mut i = from;
    while i <= s.len() && p.len() <= s.len() - i
        invariant
            from <= i,
            find_from(s@, p@, from as int) == find_from(s@, p@, i as int),
        decreases s.len() + 1 - i,
    {
        if p.len() == 0 || occurs_at_exec(s, p, i) {
            return Some(i);
        }
        i = i + 1;
    }
    None
}

pub proof fn lemma_find_from_some(s: Seq<char>, p: Seq<char>, i: int)
    requires
        0 <= i,
    ensures
        find_from(s, p, i) matches Some(k) ==> i <= k && occurs_at(s, p, k) && (forall|j: int|
            i <= j < k ==> !occurs_at(s, p, j)),
        find_from(s, p, i) is None ==> (forall|j: int| i <= j ==> !occurs_at(s, p, j)),
    decreases s.len() - i,
{
    if i + p.len() > s.len() {
    } else if p.len() == 0 || occurs_at(s, p, i) {
        if p.len() == 0 {
            assert(s.subrange(i, i) =~= p);
        }
    } else {
        lemma_find_from_some(s, p, i + 1);
    }
}


/// Index of the first character of `s` at or after `from` equal to `a` or `b`
/// (`s.len()` when there is none).
pub fn index_of2_exec(s: &[char], a: char, b: char, from: usize) -> (r: usize)
    requires
        from <= s@.len(),
    ensures
        r == index_of2_from(s@, a, b, from as int),
        from <= r <= s@.len(),
{
    let mut i = from;
    while i < s.len() && s[i] != a && s[i] != b
        invariant
            from <= i <= s@.len(),
            index_of2_from(s@, a, b, from as int) == index_of2_from(s@, a, b, i as int),
        decreases s.len() - i,
    {
        i = i + 1;
    }
    i
}

/// `n` such that `s[n..]` is `strip_all_prefix(s, p)`.
pub fn strip_all_prefix_exec(s: &[char], p: &[char]) -> (r: usize)
    ensures
        r <= s@.len(),
        s@.skip(r as int) == strip_all_prefix(s@, p@),
{
    if p.len() == 0 {
        assert(s@.skip(0) =~= s@);
        return 0;
    }
    let mut k: usize = 0;
    assert(s@.skip(0) =~= s@);
    while k <= s.len() && starts_with_exec(&s[k..s.len()], p)
        invariant
            k <= s@.len(),
            p@.len() > 0,
            strip_all_prefix(s@, p@) == strip_all_prefix(s@.skip(k as int), p@),
        decreases s.len() - k,
    {
        let ghost t = s@.skip(k as int);
        assert(s@.subrange(k as int, s@.len() as int) =~= t);
        assert(t.skip(p@.len() as int) =~= s@.skip(k + p@.len()));
        k = k + p.len();
    }
    proof {
        if k <= s.len() {
            assert(s@.subrange(k as int, s@.len() as int) =~= s@.skip(k as int));
        }
    }
    k
}

/// `n` such that `s[..n]` is `strip_all_suffix(s, p)`.
pub fn strip_all_suffix_exec(s: &[char], p: &[char]) -> (r: usize)
    ensures
        r <= s@.len(),
        s@.take(r as int) == strip_all_suffix(s@, p@),
{
    if p.len() == 0 {
        assert(s@.take(s@.len() as int) =~= s@);
        return s.len();
    }
    let mut k: usize = s.len();
    assert(s@.take(s@.len() as int) =~= s@);
    while ends_with_exec(&s[0..k], p)
        invariant
            k <= s@.len(),
            p@.len() > 0,
            strip_all_suffix(s@, p@) == strip_all_suffix(s@.take(k as int), p@),
        decreases k,
    {
        let ghost t = s@.take(k as int);
        assert(s@.subrange(0, k as int) =~= t);
        assert(t.take(t.len() - p@.len()) =~= s@.take(k - p@.len()));
        k = k - p.len();
    }
    assert(s@.subrange(0, k as int) =~= s@.take(k as int));
    k
}

/// Whether `p` occurs anywhere in `s`.
pub fn contains_exec(s: &[char], p: &[char]) -> (r: bool)
    ensures
        r == contains(s@, p@),
{
    let r = find_from_exec(s, p, 0);
    proof {
        lemma_find_from_some(s@, p@, 0);
        if r is None {
            assert forall|i: int| !occurs_at(s@, p@, i) by {
                if 0 <= i {
                    assert(!occurs_at(s@, p@, i));
                }
            }
        }
    }
    r.is_some()
}

/// The line of `s[pos..]` that `str::lines` yields first, as bounds `(a, b)`,
/// and the position where the remaining lines start.
pub fn next_line(s: &[char], pos: usize) -> (r: (usize, usize, usize))
    requires
        pos < s@.len(),
    ensures
        pos <= r.0 <= r.1 <= r.2 <= s@.len(),
        pos < r.2,
        lines(s@.skip(pos as int)) == seq![s@.subrange(r.0 as int, r.1 as int)] + lines(
            s@.skip(r.2 as int),
        ),
{
    let i = index_of2_exec(s, '\n', '\n', pos);
    let ghost t = s@.skip(pos as int);
    proof {
        lemma_index_of2_from(s@, '\n', '\n', pos as int);
        lemma_index_of2_from(t, '\n', '\n', 0);
        assert forall|j: int| 0 <= j < t.len() implies t[j] == s@[pos + j] by {}
        // the first newline of the suffix is the first newline of `s` at or after `pos`
        let it = index_of2_from(t, '\n', '\n', 0);
        if it < i - pos {
            assert(t[it] == s@[pos + it]);
        } else if it > i - pos {
            if i < s@.len() {
                assert(t[i - pos] == s@[i as int]);
            }
        }
        assert(it == i - pos);
    }
    if i == s.len() {
        assert(t.skip(t.len() as int) =~= s@.skip(s@.len() as int));
        assert(lines(s@.skip(s@.len() as int)) =~= Seq::<Seq<char>>::empty());
        assert(t =~= s@.subrange(pos as int, s@.len() as int));
        (pos, s.len(), s.len())
    } else {
        let b = if i > pos && s[i - 1] == '\r' {
            i - 1
        } else {
            i
        };
        assert(t.skip(i - pos + 1) =~= s@.skip(i + 1));
        assert(strip_cr(t.take(i - pos)) =~= s@.subrange(pos as int, b as int));
        (pos, b, i + 1)
    }
}


/// A `String` holding exactly the given characters.
#[verifier::external_body]
pub(crate) fn string_from_chars(s: &[char]) -> (r: String)
    ensures
        r@ == s@,
{
    s.iter().collect::<String>()
}

/// Whether the characters of `s` are those of the literal `lit`.
pub fn eq_lit(s: &[char], lit: &str) -> (r: bool)
    ensures
        r == (s@ == lit@),
{
    let p = chars_of(lit);
    if p.len() != s.len() {
        return false;
    }
    let r = starts_with_exec(s, p.as_slice());
    assert(s@.take(p@.len() as int) =~= s@);
    r
}

pub fn starts_with_lit(s: &[char], lit: &str) -> (r: bool)
    ensures
        r == starts_with(s@, lit@),
{
    let p = chars_of(lit);
    starts_with_exec(s, p.as_slice())
}

pub fn ends_with_lit(s: &[char], lit: &str) -> (r: bool)
    ensures
        r == ends_with(s@, lit@),
{
    let p = chars_of(lit);
    ends_with_exec(s, p.as_slice())
}

pub fn contains_lit(s: &[char], lit: &str) -> (r: bool)
    ensures
        r == contains(s@, lit@),
{
    let p = chars_of(lit);
    contains_exec(s, p.as_slice())
}

/// `n` such that `s[n..]` is `s` with every leading copy of `lit` removed.
pub fn strip_all_prefix_lit(s: &[char], lit: &str) -> (r: usize)
    ensures
        r <= s@.len(),
        s@.skip(r as int) == strip_all_prefix(s@, lit@),
{
    let p = chars_of(lit);
    strip_all_prefix_exec(s, p.as_slice())
}

/// Start of the part of `s` after its last `c`.
pub fn after_last_exec(s: &[char], c: char) -> (r: usize)
    ensures
        r <= s@.len(),
        s@.skip(r as int) == after_last(s@, c),
{
    let mut k: usize = 0;
    assert(s@.skip(0) =~= s@);
    loop
        invariant
            k <= s@.len(),
            after_last(s@, c) == after_last(s@.skip(k as int), c),
        decreases s.len() - k,
    {
        let i = index_of2_exec(s, c, c, k);
        let ghost t = s@.skip(k as int);
        proof {
            lemma_index_of2_from(s@, c, c, k as int);
            lemma_index_of2_from(t, c, c, 0);
            let it = index_of2_from(t, c, c, 0);
            if it < i - k {
                assert(t[it] == s@[k + it]);
            } else if it > i - k {
                if i < s@.len() {
                    assert(t[i - k] == s@[i as int]);
                }
            }
        }
        if i == s.len() {
            return k;
        }
        assert(t.skip(i - k + 1) =~= s@.skip(i + 1));
        k = i + 1;
    }
}

/// The first whitespace-separated token of `s`, as bounds.
pub fn first_token_exec(s: &[char]) -> (r: Option<(usize, usize)>)
    ensures
        match r {
            Some((a, b)) => a <= b <= s@.len() && first_token(s@) == Some(s@.subrange(a as int, b as int)),
            None => first_token(s@) is None,
        },
{
    let n = s.len();
    let mut a: usize = 0;
    while a < n && is_ws_char(s[a])
        invariant
            a <= n == s@.len(),
            forall|j: int| 0 <= j < a ==> is_ws(#[trigger] s@[j]),
        decreases n - a,
    {
        a = a + 1;
    }
    proof {
        lemma_lead_ws(s@, a as int);
    }
    if a == n {
        assert(trim_start(s@).len() == 0);
        return None;
    }
    let mut b: usize = a;
    while b < n && !is_ws_char(s[b])
        invariant
            a <= b <= n == s@.len(),
            forall|j: int| a <= j < b ==> !is_ws(#[trigger] s@[j]),
        decreases n - b,
    {
        b = b + 1;
    }
    proof {
        let t = trim_start(s@);
        assert(t =~= s@.skip(a as int));
        assert forall|j: int| 0 <= j < b - a implies !is_ws(#[trigger] t[j]) by {
            assert(t[j] == s@[a + j]);
        }
        if b < n {
            assert(t[b - a] == s@[b as int]);
        }
        lemma_lead_non_ws(t, b - a);
        assert(t.take(b - a) =~= s@.subrange(a as int, b as int));
    }
    Some((a, b))
}


/// Appends the characters of `s` to `out`.
pub fn push_all(out: &mut Vec<char>, s: &[char])
    ensures
        final(out)@ == old(out)@ + s@,
{
    out.extend_from_slice(s);
    assert(final(out)@ =~= old(out)@ + s@);
}


/// What `str::to_lowercase` gives for a string (Unicode lowercase mapping).
pub uninterp spec fn lowercase(s: Seq<char>) -> Seq<char>;

/// `str::to_lowercase`; the result is named, not spelled out: it is a function
/// of the string alone, given by the Unicode case tables of the standard library.
#[verifier::external_body]
pub(crate) fn to_lowercase(s: &str) -> (r: String)
    ensures
        r@ == lowercase(s@),
{
    s.to_lowercase()
}


pub open spec fn bounds_view(s: Seq<char>, b: Seq<(usize, usize)>) -> Seq<Seq<char>> {
    b.map_values(|p: (usize, usize)| s.subrange(p.0 as int, p.1 as int))
}

pub open spec fn bounds_ok(s: Seq<char>, b: Seq<(usize, usize)>) -> bool {
    forall|m: int| 0 <= m < b.len() ==> #[trigger] b[m].0 <= b[m].1 <= s.len()
}

/// The bounds of the words of `s` (`str::split_whitespace`), in order.
pub fn words_exec(s: &[char]) -> (r: Vec<(usize, usize)>)
    ensures
        bounds_ok(s@, r@),
        bounds_view(s@, r@) == words(s@),
{
    let n = s.len();
    let mut out: Vec<(usize, usize)> = Vec::new();
    let mut i: usize = 0;
    loop
        invariant
            i <= n == s@.len(),
            bounds_ok(s@, out@),
            words(s@) == bounds_view(s@, out@) + words_from(s@, i as int),
        decreases n - i,
    {
        let mut j = i;
        while j < n && is_ws_char(s[j])
            invariant
                i <= j <= n == s@.len(),
                next_class(s@, false, i as int) == next_class(s@, false, j as int),
            decreases n - j,
        {
            j = j + 1;
        }
        if j == n {
            proof {
                assert(words_from(s@, i as int) =~= Seq::<Seq<char>>::empty());
                assert(bounds_view(s@, out@) + words_from(s@, i as int) =~= bounds_view(s@, out@));
            }
            return out;
        }
        let mut k = j + 1;
        while k < n && !is_ws_char(s[k])
            invariant
                j < k <= n == s@.len(),
                next_class(s@, true, j + 1) == next_class(s@, true, k as int),
            decreases n - k,
        {
            k = k + 1;
        }
        let ghost before = bounds_view(s@, out@);
        out.push((j, k));
        proof {
            assert(bounds_view(s@, out@) =~= before.push(s@.subrange(j as int, k as int)));
            assert(before + words_from(s@, i as int) =~= bounds_view(s@, out@) + words_from(
                s@,
                k as int,
            ));
        }
        i = k;
    }
}

/// Number of non-overlapping occurrences of a non-empty `w` in `s`.
pub fn count_matches_exec(s: &[char], w: &[char]) -> (r: usize)
    requires
        w@.len() > 0,
    ensures
        r == count_matches(s@, w@),
        r <= s@.len(),
{
    let mut c: usize = 0;
    let mut i: usize = 0;
    while i <= s.len()
        invariant
            w@.len() > 0,
            i <= s@.len() + 1,
            c <= i,
            i > s@.len() ==> c <= s@.len(),
            i <= s@.len() ==> count_matches(s@, w@) == c + count_from(s@, w@, i as int),
            i > s@.len() ==> count_matches(s@, w@) == c,
        decreases s.len() + 1 - i,
    {
        match find_from_exec(s, w, i) {
            Some(k) => {
                proof {
                    lemma_find_from_some(s@, w@, i as int);
                }
                c = c + 1;
                i = k + w.len();
                if i > s.len() {
                    // cannot happen: an occurrence ends within `s`
                    return c;
                }
            },
            None => {
                return c;
            },
        }
    }
    c
}

/// The first `n` characters of `s`.
pub fn take_chars_exec(s: &str, n: usize) -> (r: String)
    ensures
        r@ == take_chars(s@, n as nat),
{
    let v = chars_of(s);
    if v.len() > n {
        string_from_chars(&v[0..n])
    } else {
        string_from_chars(v.as_slice())
    }
}


fn digit_exec(d: u64) -> (c: char)
    requires
        d < 10,
    ensures
        c == digit_char(d as nat),
{
    if d == 0 {
        '0'
    } else if d == 1 {
        '1'
    } else if d == 2 {
        '2'
    } else if d == 3 {
        '3'
    } else if d == 4 {
        '4'
    } else if d == 5 {
        '5'
    } else if d == 6 {
        '6'
    } else if d == 7 {
        '7'
    } else if d == 8 {
        '8'
    } else {
        '9'
    }
}

fn decimal_chars(n: u64) -> (r: Vec<char>)
    ensures
        r@ == decimal(n as nat),
    decreases n,
{
    if n < 10 {
        let mut v = Vec::new();
        v.push(digit_exec(n));
        v
    } else {
        let mut v = decimal_chars(n / 10);
        v.push(digit_exec(n % 10));
        v
    }
}

/// The decimal numeral of `n`.
pub fn decimal_string(n: u64) -> (r: String)
    ensures
        r@ == decimal(n as nat),
{
    let v = decimal_chars(n);
    string_from_chars(v.as_slice())
}

/// `a` followed by `b`.
pub fn concat(a: &str, b: &str) -> (r: String)
    ensures
        r@ == a@ + b@,
{
    let mut r = a.to_owned();
    r.append(b);
    r
}

} // verus!
