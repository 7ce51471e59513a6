//! Verified string helpers shared by the naming and path-policy modules:
//! character-wise equality, suffix tests, and locating the last occurrence
//! of a separator character.

use vstd::prelude::*;
use vstd::string::*;

verus! {

/// Relies on `String::push` from std: it appends exactly the given
/// character at the end of the string.
pub assume_specification[ String::push ](s: &mut String, c: char)
    ensures
        final (s)@ == old(s)@.push(c),
;

/// Whether the two strings hold the same characters.
pub fn str_eq(a: &str, b: &str) -> (r: bool)
    ensures
        r == (a@ == b@),
{
    let a_len = a.unicode_len();
    let b_len = b.unicode_len();
    if a_len != b_len {
        proof {
            assert(a@ != b@);
        }
        return false;
    }
    let mut i: usize = 0;
    while i < a_len
        invariant
            i <= a_len,
            a_len == a@.len(),
            a_len == b@.len(),
            forall|j: int| 0 <= j < i ==> a@[j] == b@[j],
        decreases a_len - i,
    {
        if a.get_char(i) != b.get_char(i) {
            return false;
        }
        i = i + 1;
    }
    proof {
        assert(a@ =~= b@);
    }
    true
}

/// Whether `s` ends with `suffix`.
pub open spec fn spec_ends_with(s: Seq<char>, suffix: Seq<char>) -> bool {
    s.len() >= suffix.len() && s.skip(s.len() - suffix.len()) == suffix
}

/// Whether the string ends with the given suffix, compared character-wise.
pub fn str_ends_with(s: &str, suffix: &str) -> (r: bool)
    ensures
        r == spec_ends_with(s@, suffix@),
{
    let s_len = s.unicode_len();
    let m = suffix.unicode_len();
    if s_len < m {
        return false;
    }
    let start = s_len - m;
    let mut i: usize = 0;
    while i < m
        invariant
            i <= m,
            start == s_len - m,
            s_len == s@.len(),
            m == suffix@.len(),
            s_len >= m,
            forall|j: int| 0 <= j < i ==> s@[start + j] == suffix@[j],
        decreases m - i,
    {
        if s.get_char(start + i) != suffix.get_char(i) {
            proof {
                assert(s@.skip(start as int)[i as int] == s@[start + i]);
            }
            return false;
        }
        i = i + 1;
    }
    proof {
        assert(s@.skip(start as int) =~= suffix@);
    }
    true
}

/// Everything after the last occurrence of `c` in `s`; the whole of `s`
/// when `c` does not occur.
pub open spec fn suffix_after_last(s: Seq<char>, c: char) -> Seq<char>
    decreases s.len(),
{
    if s.len() == 0 {
        s
    } else if s.last() == c {
        Seq::empty()
    } else {
        suffix_after_last(s.drop_last(), c).push(s.last())
    }
}

/// When `c` occurs at `i` and nowhere later, the suffix after the last
/// occurrence is everything past `i`.
pub proof fn lemma_suffix_after_last_at(s: Seq<char>, c: char, i: int)
    requires
        0 <= i < s.len(),
        s[i] == c,
        forall|j: int| i < j < s.len() ==> s[j] != c,
    ensures
        suffix_after_last(s, c) =~= s.skip(i + 1),
    decreases s.len(),
{
    if i == s.len() - 1 {
        assert(s.last() == c);
    } else {
        assert(s.last() != c);
        lemma_suffix_after_last_at(s.drop_last(), c, i);
        assert(suffix_after_last(s, c) =~= s.drop_last().skip(i + 1).push(s.last()));
    }
}

/// When `c` does not occur in `s`, the suffix after its last occurrence
/// is `s` itself.
pub proof fn lemma_suffix_after_last_absent(s: Seq<char>, c: char)
    requires
        forall|j: int| 0 <= j < s.len() ==> s[j] != c,
    ensures
        suffix_after_last(s, c) =~= s,
    decreases s.len(),
{
    if s.len() > 0 {
        lemma_suffix_after_last_absent(s.drop_last(), c);
    }
}

/// The index of the last occurrence of `c` in `s`, or `None` when `c`
/// does not occur.
pub fn find_last(s: &str, c: char) -> (r: Option<usize>)
    ensures
        match r {
            Some(i) => i < s@.len() && s@[i as int] == c && forall|j: int|
                i < j < s@.len() ==> s@[j] != c,
            None => forall|j: int| 0 <= j < s@.len() ==> s@[j] != c,
        },
{
    let n = s.unicode_len();
    let mut i: usize = n;
    while i > 0
        invariant
            i <= n,
            n == s@.len(),
            forall|j: int| i <= j < n ==> s@[j] != c,
        decreases i,
    {
        i = i - 1;
        if s.get_char(i) == c {
            return Some(i);
        }
    }
    None
}

} // verus!
