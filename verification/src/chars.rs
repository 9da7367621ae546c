//! Character-level string searching and building blocks.
//!
//! All searching works on the character view of a string, so encoded
//! names that hold multi-byte characters are handled uniformly.

use vstd::prelude::*;
use vstd::string::StrSliceExecFns;
use vstd::string::StringExecFns;

verus! {

/// First index at or after `from` where `c` occurs in `s`, or `s.len()`
/// if it does not occur there.
pub open spec fn next_char(s: Seq<char>, c: char, from: int) -> int
    decreases s.len() - from,
        when 0 <= from <= s.len()
{
    if from == s.len() {
        s.len() as int
    } else if s[from] == c {
        from
    } else {
        next_char(s, c, from + 1)
    }
}

pub proof fn lemma_next_char_bounds(s: Seq<char>, c: char, from: int)
    requires
        0 <= from <= s.len(),
    ensures
        from <= next_char(s, c, from) <= s.len(),
        forall|k: int| from <= k < next_char(s, c, from) ==> s[k] != c,
        next_char(s, c, from) < s.len() ==> s[next_char(s, c, from)] == c,
    decreases s.len() - from,
{
    if from < s.len() && s[from] != c {
        lemma_next_char_bounds(s, c, from + 1);
    }
}

pub proof fn lemma_next_char_unique(s: Seq<char>, c: char, from: int, e: int)
    requires
        0 <= from <= e <= s.len(),
        forall|k: int| from <= k < e ==> s[k] != c,
        e < s.len() ==> s[e] == c,
    ensures
        next_char(s, c, from) == e,
    decreases e - from,
{
    if from < e {
        lemma_next_char_unique(s, c, from + 1, e);
    }
}

/// Whether `c` occurs anywhere in `s`.
pub open spec fn seq_has_char(s: Seq<char>, c: char) -> bool {
    exists|i: int| 0 <= i < s.len() && s[i] == c
}

/// Find the first occurrence of `c` in `s` at or after `from`.
pub fn find_char_from(s: &str, c: char, from: usize) -> (r: Option<usize>)
    requires
        from <= s@.len(),
    ensures
        (match r {
            Some(i) => from <= i && i == next_char(s@, c, from as int) && i < s@.len()
                && s@[i as int] == c,
            None => next_char(s@, c, from as int) == s@.len(),
        }),
{
    let n = s.unicode_len();
    let mut i = from;
    while i < n && s.get_char(i) != c
        invariant
            from <= i <= n,
            n == s@.len(),
            forall|j: int| from <= j < i ==> s@[j] != c,
        decreases n - i,
    {
        i = i + 1;
    }
    proof {
        lemma_next_char_unique(s@, c, from as int, i as int);
    }
    if i < n {
        Some(i)
    } else {
        None
    }
}

/// Whether `c` occurs anywhere in `s`.
pub fn str_has_char(s: &str, c: char) -> (r: bool)
    ensures
        r == seq_has_char(s@, c),
{
    let found = find_char_from(s, c, 0);
    proof {
        lemma_next_char_bounds(s@, c, 0);
    }
    found.is_some()
}

/// Index of the last occurrence of `c` in `s`, or `-1` if there is none.
pub open spec fn last_index_of(s: Seq<char>, c: char) -> int
    decreases s.len(),
{
    if s.len() == 0 {
        -1
    } else if s[s.len() - 1] == c {
        s.len() - 1
    } else {
        last_index_of(s.drop_last(), c)
    }
}

pub proof fn lemma_last_index_bounds(s: Seq<char>, c: char)
    ensures
        -1 <= last_index_of(s, c) < s.len(),
        last_index_of(s, c) >= 0 ==> s[last_index_of(s, c)] == c,
        forall|k: int| last_index_of(s, c) < k < s.len() ==> s[k] != c,
    decreases s.len(),
{
    if s.len() > 0 && s[s.len() - 1] != c {
        lemma_last_index_bounds(s.drop_last(), c);
        assert(forall|k: int| 0 <= k < s.len() - 1 ==> s[k] == s.drop_last()[k]);
    }
}

pub proof fn lemma_last_index_unique(s: Seq<char>, c: char, e: int)
    requires
        -1 <= e < s.len(),
        e >= 0 ==> s[e] == c,
        forall|k: int| e < k < s.len() ==> s[k] != c,
    ensures
        last_index_of(s, c) == e,
    decreases s.len(),
{
    if s.len() > 0 && s[s.len() - 1] != c {
        assert(forall|k: int| 0 <= k < s.len() - 1 ==> s[k] == s.drop_last()[k]);
        lemma_last_index_unique(s.drop_last(), c, e);
    }
}

/// Find the last occurrence of `c` in `s`.
pub fn rfind_char(s: &str, c: char) -> (r: Option<usize>)
    ensures
        (match r {
            Some(i) => i == last_index_of(s@, c) && i < s@.len() && s@[i as int] == c,
            None => last_index_of(s@, c) == -1,
        }),
{
    let n = s.unicode_len();
    let mut i = n;
    while i > 0 && s.get_char(i - 1) != c
        invariant
            0 <= i <= n,
            n == s@.len(),
            forall|j: int| i <= j < n ==> s@[j] != c,
        decreases i,
    {
        i = i - 1;
    }
    if i > 0 {
        proof {
            lemma_last_index_unique(s@, c, i - 1);
        }
        Some(i - 1)
    } else {
        proof {
            lemma_last_index_unique(s@, c, -1);
        }
        None
    }
}

/// Whether `p` is a prefix of `s`.
pub open spec fn has_prefix(s: Seq<char>, p: Seq<char>) -> bool {
    p.len() <= s.len() && s.subrange(0, p.len() as int) == p
}

/// Whether `s` starts with `p`.
pub fn str_has_prefix(s: &str, p: &str) -> (r: bool)
    ensures
        r == has_prefix(s@, p@),
{
    let n = s.unicode_len();
    let m = p.unicode_len();
    if m > n {
        return false;
    }
    let mut i: usize = 0;
    while i < m && s.get_char(i) == p.get_char(i)
        invariant
            0 <= i <= m <= n,
            m == p@.len(),
            n == s@.len(),
            forall|j: int| 0 <= j < i ==> s@[j] == p@[j],
        decreases m - i,
    {
        i = i + 1;
    }
    if i == m {
        proof {
            assert(s@.subrange(0, m as int) =~= p@);
        }
        true
    } else {
        proof {
            assert(s@.subrange(0, m as int)[i as int] != p@[i as int]);
        }
        false
    }
}

/// Whether `needle` matches in `s` at position `i`.
pub open spec fn match_at(s: Seq<char>, needle: Seq<char>, i: int) -> bool {
    0 <= i && i + needle.len() <= s.len() && s.subrange(i, i + needle.len() as int) == needle
}

/// Find the first position where `needle` occurs inside `s`.
pub fn find_substring(s: &str, needle: &str) -> (r: Option<usize>)
    ensures
        (match r {
            Some(i) => match_at(s@, needle@, i as int) && (forall|j: int|
                0 <= j < i ==> !match_at(s@, needle@, j)),
            None => forall|j: int| !match_at(s@, needle@, j),
        }),
{
    let n = s.unicode_len();
    let m = needle.unicode_len();
    if m > n {
        proof {
            assert(forall|j: int| !match_at(s@, needle@, j));
        }
        return None;
    }
    if m == 0 {
        proof {
            assert(s@.subrange(0, 0) =~= needle@);
        }
        return Some(0);
    }
    let mut i: usize = 0;
    while i <= n - m
        invariant
            0 <= i <= n - m + 1,
            0 < m <= n,
            m == needle@.len(),
            n == s@.len(),
            forall|j: int| 0 <= j < i ==> !match_at(s@, needle@, j),
        decreases n + 1 - m - i,
    {
        let mut k: usize = 0;
        let mut differs = false;
        while k < m && !differs
            invariant
                0 <= k <= m,
                i + m <= n,
                m == needle@.len(),
                n == s@.len(),
                !differs ==> forall|j: int| 0 <= j < k ==> s@[i + j] == needle@[j],
                differs ==> !match_at(s@, needle@, i as int),
            decreases m - k + (if differs {
                0int
            } else {
                1int
            }),
        {
            if s.get_char(i + k) != needle.get_char(k) {
                proof {
                    assert(s@.subrange(i as int, i + m as int)[k as int] != needle@[k as int]);
                }
                differs = true;
            } else {
                k = k + 1;
            }
        }
        if !differs {
            proof {
                assert(s@.subrange(i as int, i + m as int) =~= needle@);
            }
            return Some(i);
        }
        i = i + 1;
    }
    proof {
        assert forall|j: int| !match_at(s@, needle@, j) by {
            if 0 <= j && j + needle@.len() <= s@.len() {
                assert(j < i);
            }
        }
    }
    None
}

/// An ASCII whitespace character.
pub open spec fn is_space(c: char) -> bool {
    c == ' ' || c == '\t' || c == '\n' || c == '\r'
}

/// First index at or after `from` holding a non-space character, or
/// `s.len()` if all the rest is whitespace.
pub open spec fn skip_spaces(s: Seq<char>, from: int) -> int
    decreases s.len() - from,
        when 0 <= from <= s.len()
{
    if from == s.len() {
        s.len() as int
    } else if is_space(s[from]) {
        skip_spaces(s, from + 1)
    } else {
        from
    }
}

proof fn lemma_skip_spaces_unique(s: Seq<char>, from: int, e: int)
    requires
        0 <= from <= e <= s.len(),
        forall|k: int| from <= k < e ==> is_space(s[k]),
        e < s.len() ==> !is_space(s[e]),
    ensures
        skip_spaces(s, from) == e,
    decreases e - from,
{
    if from < e {
        lemma_skip_spaces_unique(s, from + 1, e);
    }
}

/// Length of `s` once trailing whitespace is dropped.
pub open spec fn trim_end_len(s: Seq<char>) -> int
    decreases s.len(),
{
    if s.len() == 0 {
        0
    } else if is_space(s[s.len() - 1]) {
        trim_end_len(s.drop_last())
    } else {
        s.len() as int
    }
}

proof fn lemma_trim_end_unique(s: Seq<char>, e: int)
    requires
        0 <= e <= s.len(),
        forall|k: int| e <= k < s.len() ==> is_space(s[k]),
        e > 0 ==> !is_space(s[e - 1]),
    ensures
        trim_end_len(s) == e,
    decreases s.len(),
{
    if s.len() > 0 && is_space(s[s.len() - 1]) {
        assert(forall|k: int| 0 <= k < s.len() - 1 ==> s[k] == s.drop_last()[k]);
        lemma_trim_end_unique(s.drop_last(), e);
    }
}

/// `s` with leading and trailing ASCII whitespace removed.
pub open spec fn trim_spec(s: Seq<char>) -> Seq<char> {
    let lo = skip_spaces(s, 0);
    let hi = trim_end_len(s);
    if lo >= hi {
        Seq::empty()
    } else {
        s.subrange(lo, hi)
    }
}

/// Trim ASCII whitespace from both ends of `s`.
pub fn trim_str<'a>(s: &'a str) -> (r: &'a str)
    ensures
        r@ == trim_spec(s@),
{
    let n = s.unicode_len();
    let mut lo: usize = 0;
    while lo < n && (s.get_char(lo) == ' ' || s.get_char(lo) == '\t' || s.get_char(lo) == '\n'
        || s.get_char(lo) == '\r')
        invariant
            0 <= lo <= n,
            n == s@.len(),
            forall|j: int| 0 <= j < lo ==> is_space(s@[j]),
        decreases n - lo,
    {
        lo = lo + 1;
    }
    proof {
        lemma_skip_spaces_unique(s@, 0, lo as int);
    }
    if lo == n {
        proof {
            lemma_trim_end_unique(s@, 0);
        }
        let r = s.substring_char(n, n);
        proof {
            assert(r@ =~= trim_spec(s@));
        }
        return r;
    }
    let mut hi: usize = n;
    while hi > lo && (s.get_char(hi - 1) == ' ' || s.get_char(hi - 1) == '\t' || s.get_char(hi - 1)
        == '\n' || s.get_char(hi - 1) == '\r')
        invariant
            lo <= hi <= n,
            n == s@.len(),
            forall|j: int| hi <= j < n ==> is_space(s@[j]),
        decreases hi,
    {
        hi = hi - 1;
    }
    proof {
        assert(!is_space(s@[lo as int]));
        assert(hi > lo);
        lemma_trim_end_unique(s@, hi as int);
    }
    s.substring_char(lo, hi)
}

/// Concatenation of two strings.
pub fn str_concat2(a: &str, b: &str) -> (r: String)
    ensures
        r@ == a@ + b@,
{
    let mut out = String::from_str(a);
    out.append(b);
    out
}

/// Concatenation of three strings.
pub fn str_concat3(a: &str, b: &str, c: &str) -> (r: String)
    ensures
        r@ == a@ + b@ + c@,
{
    let mut out = String::from_str(a);
    out.append(b);
    out.append(c);
    out
}

} // verus!
