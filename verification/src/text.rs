//! Text scanning on character sequences: whitespace trimming, substring
//! and character search, and equality.
use vstd::prelude::*;

verus! {

/// The Unicode `White_Space` characters (what `char::is_whitespace` tests).
pub open spec fn is_unicode_whitespace(c: char) -> bool {
    let v = c as u32;
    ||| 0x09 <= v <= 0x0D
    ||| v == 0x20
    ||| v == 0x85
    ||| v == 0xA0
    ||| v == 0x1680
    ||| 0x2000 <= v <= 0x200A
    ||| v == 0x2028
    ||| v == 0x2029
    ||| v == 0x202F
    ||| v == 0x205F
    ||| v == 0x3000
}

/// Whether `c` is Unicode white space.
pub fn is_whitespace(c: char) -> (b: bool)
    ensures
        b == is_unicode_whitespace(c),
{
    let v = c as u32;
    (0x09 <= v && v <= 0x0D) || v == 0x20 || v == 0x85 || v == 0xA0 || v == 0x1680 || (0x2000
        <= v && v <= 0x200A) || v == 0x2028 || v == 0x2029 || v == 0x202F || v == 0x205F || v
        == 0x3000
}

/// The first index at or after `i` that does not hold white space (or the
/// length).
pub open spec fn skip_space_from(s: Seq<char>, i: int) -> int
    decreases s.len() - i,
{
    if i >= s.len() || !is_unicode_whitespace(s[i]) {
        i
    } else {
        skip_space_from(s, i + 1)
    }
}

/// The end of `s[lo..j]` once trailing white space is dropped.
pub open spec fn trim_end_from(s: Seq<char>, j: int, lo: int) -> int
    decreases j - lo,
{
    if j <= lo || !is_unicode_whitespace(s[j - 1]) {
        j
    } else {
        trim_end_from(s, j - 1, lo)
    }
}

/// `s` without leading and trailing white space.
pub open spec fn trim_spec(s: Seq<char>) -> Seq<char> {
    let a = skip_space_from(s, 0);
    s.subrange(a, trim_end_from(s, s.len() as int, a))
}

/// `pat` occurs in `s` at index `i`.
pub open spec fn occurs_at(s: Seq<char>, pat: Seq<char>, i: int) -> bool {
    0 <= i && i + pat.len() <= s.len() && s.subrange(i, i + pat.len()) =~= pat
}

/// The first index at or after `i` where `pat` occurs in `s`.
pub open spec fn find_from(s: Seq<char>, pat: Seq<char>, i: int) -> Option<int>
    decreases s.len() - i,
{
    if i < 0 || i + pat.len() > s.len() {
        None
    } else if occurs_at(s, pat, i) {
        Some(i)
    } else {
        find_from(s, pat, i + 1)
    }
}

/// The first index at or after `i` that holds `c`.
pub open spec fn find_char_from(s: Seq<char>, c: char, i: int) -> Option<int>
    decreases s.len() - i,
{
    if i < 0 || i >= s.len() {
        None
    } else if s[i] == c {
        Some(i)
    } else {
        find_char_from(s, c, i + 1)
    }
}


proof fn lemma_skip_space(s: Seq<char>, i: int)
    requires
        0 <= i,
    ensures
        i <= skip_space_from(s, i),
        i <= s.len() ==> skip_space_from(s, i) <= s.len(),
        forall|j: int| i <= j < skip_space_from(s, i) ==> is_unicode_whitespace(#[trigger] s[j]),
        skip_space_from(s, i) < s.len() ==> !is_unicode_whitespace(s[skip_space_from(s, i)]),
    decreases s.len() - i,
{
    if i < s.len() && is_unicode_whitespace(s[i]) {
        lemma_skip_space(s, i + 1);
    }
}

proof fn lemma_trim_end(s: Seq<char>, j: int, lo: int)
    requires
        0 <= lo <= j <= s.len(),
    ensures
        lo <= trim_end_from(s, j, lo) <= j,
        forall|k: int| trim_end_from(s, j, lo) <= k < j ==> is_unicode_whitespace(#[trigger] s[k]),
        trim_end_from(s, j, lo) > lo ==> !is_unicode_whitespace(s[trim_end_from(s, j, lo) - 1]),
    decreases j - lo,
{
    if j > lo && is_unicode_whitespace(s[j - 1]) {
        lemma_trim_end(s, j - 1, lo);
    }
}

/// Trimming keeps a contiguous part of the text and removes only white
/// space, from both ends; what is left neither starts nor ends with white
/// space.
pub proof fn law_trim(s: Seq<char>)
    ensures
        exists|a: int, b: int|
            0 <= a <= b <= s.len() && #[trigger] s.subrange(a, b) == trim_spec(s) && (forall|i: int|
                0 <= i < a ==> is_unicode_whitespace(#[trigger] s[i])) && (forall|i: int|
                b <= i < s.len() ==> is_unicode_whitespace(#[trigger] s[i])),
        trim_spec(s).len() > 0 ==> !is_unicode_whitespace(trim_spec(s)[0])
            && !is_unicode_whitespace(trim_spec(s)[trim_spec(s).len() - 1]),
{
    let a = skip_space_from(s, 0);
    lemma_skip_space(s, 0);
    let b = trim_end_from(s, s.len() as int, a);
    lemma_trim_end(s, s.len() as int, a);
    assert(s.subrange(a, b) == trim_spec(s));
}

proof fn lemma_find_from(s: Seq<char>, pat: Seq<char>, i: int)
    requires
        0 <= i,
    ensures
        match find_from(s, pat, i) {
            Some(p) => i <= p && occurs_at(s, pat, p) && forall|q: int|
                i <= q < p ==> !occurs_at(s, pat, q),
            None => forall|q: int| i <= q ==> !occurs_at(s, pat, q),
        },
    decreases s.len() - i,
{
    if i + pat.len() > s.len() {
    } else if occurs_at(s, pat, i) {
    } else {
        lemma_find_from(s, pat, i + 1);
    }
}

proof fn lemma_find_char_from(s: Seq<char>, c: char, i: int)
    requires
        0 <= i,
    ensures
        match find_char_from(s, c, i) {
            Some(e) => i <= e < s.len() && s[e] == c && forall|q: int|
                i <= q < e ==> #[trigger] s[q] != c,
            None => forall|q: int| i <= q < s.len() ==> #[trigger] s[q] != c,
        },
    decreases s.len() - i,
{
    if i < s.len() && s[i] != c {
        lemma_find_char_from(s, c, i + 1);
    }
}

/// A search for a pattern finds its first occurrence at or after the start,
/// and finds nothing exactly when it does not occur there.
pub proof fn law_find(s: Seq<char>, pat: Seq<char>, from: int)
    requires
        0 <= from,
    ensures
        match find_from(s, pat, from) {
            Some(p) => from <= p && occurs_at(s, pat, p) && forall|q: int|
                from <= q < p ==> !occurs_at(s, pat, q),
            None => forall|q: int| from <= q ==> !occurs_at(s, pat, q),
        },
{
    lemma_find_from(s, pat, from);
}

/// A search for a character finds its first position at or after the
/// start, and finds nothing exactly when it does not occur there.
pub proof fn law_find_char(s: Seq<char>, c: char, from: int)
    requires
        0 <= from,
    ensures
        match find_char_from(s, c, from) {
            Some(e) => from <= e < s.len() && s[e] == c && forall|q: int|
                from <= q < e ==> #[trigger] s[q] != c,
            None => forall|q: int| from <= q < s.len() ==> #[trigger] s[q] != c,
        },
{
    lemma_find_char_from(s, c, from);
}

/// `s` without leading and trailing white space.
pub fn trim(s: &str) -> (t: &str)
    ensures
        t@ == trim_spec(s@),
{
    let n = s.unicode_len();
    let mut a: usize = 0;
    while a < n && is_whitespace(s.get_char(a))
        invariant
            n == s@.len(),
            a <= n,
            skip_space_from(s@, a as int) == skip_space_from(s@, 0),
        decreases n - a,
    {
        a += 1;
    }
    let mut b: usize = n;
    while b > a && is_whitespace(s.get_char(b - 1))
        invariant
            n == s@.len(),
            a <= b <= n,
            a == skip_space_from(s@, 0),
            trim_end_from(s@, b as int, a as int) == trim_end_from(s@, n as int, a as int),
        decreases b,
    {
        b -= 1;
    }
    s.substring_char(a, b)
}

/// Whether `pat` occurs in `s` at character index `i`.
fn occurs_at_exec(s: &str, n: usize, pat: &str, m: usize, i: usize) -> (b: bool)
    requires
        n == s@.len(),
        m == pat@.len(),
        i + m <= n,
    ensures
        b == occurs_at(s@, pat@, i as int),
{
    let mut k: usize = 0;
    while k < m
        invariant
            n == s@.len(),
            m == pat@.len(),
            i + m <= n,
            k <= m,
            forall|j: int| 0 <= j < k ==> s@[i + j] == pat@[j],
        decreases m - k,
    {
        if s.get_char(i + k) != pat.get_char(k) {
            assert(s@.subrange(i as int, i + m)[k as int] != pat@[k as int]);
            return false;
        }
        k += 1;
    }
    assert(s@.subrange(i as int, i + m) =~= pat@);
    true
}

/// Character index of the first occurrence of `pat` in `s`.
pub fn find_str(s: &str, pat: &str) -> (found: Option<usize>)
    ensures
        match found {
            Some(i) => find_from(s@, pat@, 0) == Some(i as int) && i + pat@.len() <= s@.len(),
            None => find_from(s@, pat@, 0) is None,
        },
        s@.len() <= usize::MAX,
{
    let n = s.unicode_len();
    let m = pat.unicode_len();
    if m > n {
        return None;
    }
    let mut i: usize = 0;
    while i <= n - m
        invariant
            n == s@.len(),
            m == pat@.len(),
            m <= n,
            i <= n - m + 1,
            find_from(s@, pat@, i as int) == find_from(s@, pat@, 0),
        decreases n - i,
    {
        if occurs_at_exec(s, n, pat, m, i) {
            return Some(i);
        }
        i += 1;
    }
    None
}

/// Character index of the first `c` in `s` at or after index `from`.
pub fn find_char(s: &str, c: char, from: usize) -> (found: Option<usize>)
    ensures
        match found {
            Some(i) => find_char_from(s@, c, from as int) == Some(i as int) && from <= i < s@.len(),
            None => find_char_from(s@, c, from as int) is None,
        },
{
    let n = s.unicode_len();
    let mut i: usize = from;
    while i < n
        invariant
            n == s@.len(),
            from <= i,
            find_char_from(s@, c, i as int) == find_char_from(s@, c, from as int),
        decreases n - i,
    {
        if s.get_char(i) == c {
            return Some(i);
        }
        i += 1;
    }
    None
}

/// Whether the two strings hold the same characters.
pub fn str_equals(a: &str, b: &str) -> (eq: bool)
    ensures
        eq == (a@ == b@),
{
    let n = a.unicode_len();
    if n != b.unicode_len() {
        return false;
    }
    let mut i: usize = 0;
    while i < n
        invariant
            n == a@.len(),
            n == b@.len(),
            i <= n,
            forall|j: int| 0 <= j < i ==> a@[j] == b@[j],
        decreases n - i,
    {
        if a.get_char(i) != b.get_char(i) {
            return false;
        }
        i += 1;
    }
    assert(a@ =~= b@);
    true
}

} // verus!
