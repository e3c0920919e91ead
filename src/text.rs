//! Character-level primitives over text: whitespace, trimming, searching
//! for a pattern, and moving between `str` and sequences of characters.
use vstd::prelude::*;

verus! {

/// Unicode `White_Space`, as `char::is_whitespace` and `str::trim` use it.
pub open spec fn is_white(c: char) -> bool {
    let u = c as u32;
    (0x9 <= u <= 0xd) || u == 0x20 || u == 0x85 || u == 0xa0 || u == 0x1680 || (0x2000 <= u
        <= 0x200a) || u == 0x2028 || u == 0x2029 || u == 0x202f || u == 0x205f || u == 0x3000
}

/// `s` without its leading whitespace.
pub open spec fn trim_front(s: Seq<char>) -> Seq<char>
    decreases s.len(),
{
    if s.len() > 0 && is_white(s[0]) {
        trim_front(s.drop_first())
    } else {
        s
    }
}

/// `s` without its trailing whitespace.
pub open spec fn trim_back(s: Seq<char>) -> Seq<char>
    decreases s.len(),
{
    if s.len() > 0 && is_white(s.last()) {
        trim_back(s.drop_last())
    } else {
        s
    }
}

/// `s` without whitespace at either end.
pub open spec fn trimmed(s: Seq<char>) -> Seq<char> {
    trim_back(trim_front(s))
}

/// `pat` stands in `s` starting at index `i`.
pub open spec fn occurs_at(s: Seq<char>, pat: Seq<char>, i: int) -> bool {
    0 <= i && i + pat.len() <= s.len() && s.subrange(i, i + pat.len()) == pat
}

/// The greatest index at or below `i` where `pat` stands in `s`.
pub open spec fn last_at_or_below(s: Seq<char>, pat: Seq<char>, i: int) -> Option<int>
    decreases i + 1,
{
    if i < 0 {
        None
    } else if occurs_at(s, pat, i) {
        Some(i)
    } else {
        last_at_or_below(s, pat, i - 1)
    }
}

/// Where the last occurrence of `pat` in `s` starts.
pub open spec fn last_occurrence(s: Seq<char>, pat: Seq<char>) -> Option<int> {
    last_at_or_below(s, pat, s.len() - pat.len())
}

/// The least index at or above `i` that holds `c`.
pub open spec fn first_at_or_above(s: Seq<char>, c: char, i: int) -> Option<int>
    decreases s.len() - i,
{
    if i < 0 || i >= s.len() {
        None
    } else if s[i] == c {
        Some(i)
    } else {
        first_at_or_above(s, c, i + 1)
    }
}

/// The first index of `s` that holds `c`.
pub open spec fn first_index_of(s: Seq<char>, c: char) -> Option<int> {
    first_at_or_above(s, c, 0)
}

/// The last index of `s` that holds `c`.
pub open spec fn last_index_of(s: Seq<char>, c: char) -> Option<int> {
    last_at_or_below(s, seq![c], s.len() - 1)
}

/// A sub-range of a trimmed sequence is found by moving its two ends inwards.
proof fn lemma_trim_front_step(s: Seq<char>, lo: int, hi: int)
    requires
        0 <= lo < hi <= s.len(),
        is_white(s[lo]),
    ensures
        trim_front(s.subrange(lo, hi)) == trim_front(s.subrange(lo + 1, hi)),
{
    assert(s.subrange(lo, hi).drop_first() =~= s.subrange(lo + 1, hi));
}

proof fn lemma_trim_back_step(s: Seq<char>, lo: int, hi: int)
    requires
        0 <= lo < hi <= s.len(),
        is_white(s[hi - 1]),
    ensures
        trim_back(s.subrange(lo, hi)) == trim_back(s.subrange(lo, hi - 1)),
{
    assert(s.subrange(lo, hi).drop_last() =~= s.subrange(lo, hi - 1));
}

/// `trim_front` drops exactly the leading run of whitespace.
proof fn lemma_trim_front_bounds(s: Seq<char>) -> (p: int)
    ensures
        0 <= p <= s.len(),
        trim_front(s) == s.subrange(p, s.len() as int),
        forall|i: int| 0 <= i < p ==> is_white(#[trigger] s[i]),
        p < s.len() ==> !is_white(s[p]),
    decreases s.len(),
{
    if s.len() > 0 && is_white(s[0]) {
        let rest = s.drop_first();
        let p1 = lemma_trim_front_bounds(rest);
        assert(rest.subrange(p1, rest.len() as int) =~= s.subrange(p1 + 1, s.len() as int));
        assert forall|i: int| 0 <= i < p1 + 1 implies is_white(#[trigger] s[i]) by {
            if i > 0 {
                assert(s[i] == rest[i - 1]);
            }
        }
        p1 + 1
    } else {
        assert(s.subrange(0, s.len() as int) =~= s);
        0
    }
}

/// `trim_back` drops exactly the trailing run of whitespace.
proof fn lemma_trim_back_bounds(s: Seq<char>) -> (q: int)
    ensures
        0 <= q <= s.len(),
        trim_back(s) == s.subrange(0, q),
        forall|i: int| q <= i < s.len() ==> is_white(#[trigger] s[i]),
        q > 0 ==> !is_white(s[q - 1]),
    decreases s.len(),
{
    if s.len() > 0 && is_white(s.last()) {
        let rest = s.drop_last();
        let q1 = lemma_trim_back_bounds(rest);
        assert(rest.subrange(0, q1) =~= s.subrange(0, q1));
        assert forall|i: int| q1 <= i < s.len() implies is_white(#[trigger] s[i]) by {
            if i < s.len() - 1 {
                assert(s[i] == rest[i]);
            }
        }
        q1
    } else {
        assert(s.subrange(0, s.len() as int) =~= s);
        s.len() as int
    }
}

/// `trimmed(s)` is the range of `s` between its leading and trailing runs
/// of whitespace.
pub proof fn lemma_trimmed_bounds(s: Seq<char>) -> (r: (int, int))
    ensures
        0 <= r.0 <= r.1 <= s.len(),
        trimmed(s) == s.subrange(r.0, r.1),
        forall|i: int| 0 <= i < r.0 ==> is_white(#[trigger] s[i]),
        forall|i: int| r.1 <= i < s.len() ==> is_white(#[trigger] s[i]),
        r.0 < r.1 ==> !is_white(s[r.0]) && !is_white(s[r.1 - 1]),
{
    let p = lemma_trim_front_bounds(s);
    let front = s.subrange(p, s.len() as int);
    let q = lemma_trim_back_bounds(front);
    assert(front.subrange(0, q) =~= s.subrange(p, p + q));
    assert forall|i: int| p + q <= i < s.len() implies is_white(#[trigger] s[i]) by {
        assert(s[i] == front[i - p]);
    }
    if 0 < q {
        assert(s[p] == front[0]);
        assert(s[p + q - 1] == front[q - 1]);
    }
    (p, p + q)
}

/// A sequence of whitespace trims to nothing.
pub proof fn lemma_trimmed_white(s: Seq<char>)
    requires
        forall|i: int| 0 <= i < s.len() ==> is_white(#[trigger] s[i]),
    ensures
        trimmed(s).len() == 0,
{
    let r = lemma_trimmed_bounds(s);
    if r.0 < r.1 {
        assert(is_white(s[r.0]));
    }
}

proof fn lemma_first_from(s: Seq<char>, c: char, i: int, a: int)
    requires
        0 <= i <= a < s.len(),
        s[a] == c,
        forall|j: int| i <= j < a ==> s[j] != c,
    ensures
        first_at_or_above(s, c, i) == Some(a),
    decreases a - i,
{
    if i < a {
        lemma_first_from(s, c, i + 1, a);
    }
}

/// The first index holding `c` is the one with no `c` before it.
pub proof fn lemma_first_index(s: Seq<char>, c: char, a: int)
    requires
        0 <= a < s.len(),
        s[a] == c,
        forall|j: int| 0 <= j < a ==> s[j] != c,
    ensures
        first_index_of(s, c) == Some(a),
{
    lemma_first_from(s, c, 0, a);
}

proof fn lemma_last_from(s: Seq<char>, c: char, i: int, z: int)
    requires
        0 <= z <= i < s.len(),
        s[z] == c,
        forall|j: int| z < j <= i ==> s[j] != c,
    ensures
        last_at_or_below(s, seq![c], i) == Some(z),
    decreases i - z,
{
    if i > z {
        assert(s.subrange(i, i + 1)[0] != c);
        lemma_last_from(s, c, i - 1, z);
    } else {
        assert(s.subrange(z, z + 1) =~= seq![c]);
    }
}

/// The last index holding `c` is the one with no `c` after it.
pub proof fn lemma_last_index(s: Seq<char>, c: char, z: int)
    requires
        0 <= z < s.len(),
        s[z] == c,
        forall|j: int| z < j < s.len() ==> s[j] != c,
    ensures
        last_index_of(s, c) == Some(z),
{
    lemma_last_from(s, c, s.len() - 1, z);
}

proof fn lemma_first_from_found(s: Seq<char>, c: char, i: int)
    requires
        0 <= i,
    ensures
        first_at_or_above(s, c, i) matches Some(a) ==> i <= a < s.len() && s[a] == c && forall|
            j: int,
        | i <= j < a ==> s[j] != c,
    decreases s.len() - i,
{
    if i < s.len() && s[i] != c {
        lemma_first_from_found(s, c, i + 1);
    }
}

/// What `first_index_of` finds holds `c`, with no `c` before it.
pub proof fn lemma_first_index_found(s: Seq<char>, c: char)
    ensures
        first_index_of(s, c) matches Some(a) ==> 0 <= a < s.len() && s[a] == c && forall|j: int|
            0 <= j < a ==> s[j] != c,
{
    lemma_first_from_found(s, c, 0);
}

proof fn lemma_last_from_found(s: Seq<char>, c: char, i: int)
    requires
        i < s.len(),
    ensures
        last_at_or_below(s, seq![c], i) matches Some(z) ==> 0 <= z <= i && s[z] == c && forall|
            j: int,
        | z < j <= i ==> s[j] != c,
    decreases i + 1,
{
    if i >= 0 {
        if occurs_at(s, seq![c], i) {
            assert(s.subrange(i, i + 1)[0] == c);
        } else {
            if s[i] == c {
                assert(s.subrange(i, i + 1) =~= seq![c]);
            }
            lemma_last_from_found(s, c, i - 1);
        }
    }
}

/// What `last_index_of` finds holds `c`, with no `c` after it.
pub proof fn lemma_last_index_found(s: Seq<char>, c: char)
    ensures
        last_index_of(s, c) matches Some(z) ==> 0 <= z < s.len() && s[z] == c && forall|j: int|
            z < j < s.len() ==> s[j] != c,
{
    lemma_last_from_found(s, c, s.len() - 1);
}

proof fn lemma_last_at_or_below_found(s: Seq<char>, pat: Seq<char>, i: int)
    ensures
        last_at_or_below(s, pat, i) matches Some(k) ==> k <= i && occurs_at(s, pat, k),
    decreases i + 1,
{
    if i >= 0 && !occurs_at(s, pat, i) {
        lemma_last_at_or_below_found(s, pat, i - 1);
    }
}

/// What `last_occurrence` finds is an occurrence.
pub proof fn lemma_last_occurrence_found(s: Seq<char>, pat: Seq<char>)
    ensures
        last_occurrence(s, pat) matches Some(k) ==> occurs_at(s, pat, k),
{
    lemma_last_at_or_below_found(s, pat, s.len() - pat.len());
}

/// Whether `c` is Unicode whitespace.
pub fn is_white_char(c: char) -> (r: bool)
    ensures
        r == is_white(c),
{
    let u = c as u32;
    (0x9 <= u && u <= 0xd) || u == 0x20 || u == 0x85 || u == 0xa0 || u == 0x1680 || (0x2000 <= u
        && u <= 0x200a) || u == 0x2028 || u == 0x2029 || u == 0x202f || u == 0x205f || u
        == 0x3000
}

/// The bounds, within `s[start..end]`, of that range with whitespace removed at both ends.
pub fn trim_range(s: &[char], start: usize, end: usize) -> (r: (usize, usize))
    requires
        start <= end <= s@.len(),
    ensures
        start <= r.0 <= r.1 <= end,
        s@.subrange(r.0 as int, r.1 as int) == trimmed(s@.subrange(start as int, end as int)),
{
    let mut lo = start;
    while lo < end && is_white_char(s[lo])
        invariant
            start <= lo <= end <= s@.len(),
            trim_front(s@.subrange(start as int, end as int)) == trim_front(
                s@.subrange(lo as int, end as int),
            ),
        decreases end - lo,
    {
        proof {
            lemma_trim_front_step(s@, lo as int, end as int);
        }
        lo = lo + 1;
    }
    let ghost front = s@.subrange(lo as int, end as int);
    assert(trim_front(front) == front);
    let mut hi = end;
    while hi > lo && is_white_char(s[hi - 1])
        invariant
            start <= lo <= hi <= end <= s@.len(),
            trim_back(front) == trim_back(s@.subrange(lo as int, hi as int)),
        decreases hi - lo,
    {
        proof {
            lemma_trim_back_step(s@, lo as int, hi as int);
        }
        hi = hi - 1;
    }
    (lo, hi)
}

/// Whether `pat` stands in `s` at index `i`.
fn matches_at(s: &[char], pat: &[char], i: usize) -> (r: bool)
    requires
        i + pat@.len() <= s@.len(),
    ensures
        r == occurs_at(s@, pat@, i as int),
{
    let n = s.len();
    let mut k: usize = 0;
    while k < pat.len()
        invariant
            k <= pat@.len(),
            i + pat@.len() <= s@.len() == n,
            forall|j: int| 0 <= j < k ==> s@[i + j] == pat@[j],
        decreases pat@.len() - k,
    {
        if s[i + k] != pat[k] {
            assert(s@.subrange(i as int, i + pat@.len())[k as int] != pat@[k as int]);
            return false;
        }
        k = k + 1;
    }
    assert(s@.subrange(i as int, i + pat@.len()) =~= pat@);
    true
}

/// Where the last occurrence of `pat` in `s` starts.
pub fn find_last(s: &[char], pat: &[char]) -> (r: Option<usize>)
    ensures
        r is None <==> last_occurrence(s@, pat@) is None,
        r matches Some(i) ==> last_occurrence(s@, pat@) == Some(i as int),
        r matches Some(i) ==> i + pat@.len() <= s@.len(),
{
    if pat.len() > s.len() {
        return None;
    }
    let mut i = s.len() - pat.len();
    loop
        invariant
            i + pat@.len() <= s@.len(),
            last_occurrence(s@, pat@) == last_at_or_below(s@, pat@, i as int),
        decreases i,
    {
        if matches_at(s, pat, i) {
            return Some(i);
        }
        if i == 0 {
            assert(last_at_or_below(s@, pat@, -1) is None);
            return None;
        }
        i = i - 1;
    }
}

/// The first index of `s` that holds `c`.
pub fn find_char(s: &[char], c: char) -> (r: Option<usize>)
    ensures
        r is None <==> first_index_of(s@, c) is None,
        r matches Some(i) ==> first_index_of(s@, c) == Some(i as int),
        r matches Some(i) ==> i < s@.len(),
{
    let mut i: usize = 0;
    while i < s.len()
        invariant
            i <= s@.len(),
            first_index_of(s@, c) == first_at_or_above(s@, c, i as int),
        decreases s@.len() - i,
    {
        if s[i] == c {
            return Some(i);
        }
        i = i + 1;
    }
    None
}

/// The last index of `s` that holds `c`.
pub fn find_last_char(s: &[char], c: char) -> (r: Option<usize>)
    ensures
        r is None <==> last_index_of(s@, c) is None,
        r matches Some(i) ==> last_index_of(s@, c) == Some(i as int),
        r matches Some(i) ==> i < s@.len(),
{
    let mut i = s.len();
    while i > 0
        invariant
            i <= s@.len(),
            last_index_of(s@, c) == last_at_or_below(s@, seq![c], i - 1),
        decreases i,
    {
        if s[i - 1] == c {
            assert(s@.subrange(i - 1, i as int) =~= seq![c]);
            return Some(i - 1);
        }
        assert(s@.subrange(i - 1, i as int)[0] != c);
        i = i - 1;
    }
    None
}

/// The characters of `s`, in order.
pub fn chars_of(s: &str) -> (r: Vec<char>)
    ensures
        r@ == s@,
{
    let mut v: Vec<char> = Vec::new();
    for c in it: s.chars()
        invariant
            v@ == it.seq().take(it.index() as int),
    {
        v.push(c);
    }
    v
}

/// Relies on `String`'s `FromIterator<char>`: the string holds exactly the given
/// characters, in their order.
#[verifier::external_body]
pub(crate) fn string_from_chars(cs: &[char]) -> (r: String)
    ensures
        r@ == cs@,
{
    cs.iter().collect()
}

} // verus!
