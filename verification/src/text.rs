use vstd::prelude::*;
use crate::json::str_eq;

verus! {

/// Whether `p` is a prefix of `s`.
pub open spec fn starts_with(s: Seq<char>, p: Seq<char>) -> bool {
    p.len() <= s.len() && s.subrange(0, p.len() as int) == p
}

/// Whether `sub` occurs in `s` as a contiguous run.
pub open spec fn contains_sub(s: Seq<char>, sub: Seq<char>) -> bool {
    exists|i: int| 0 <= i && i + sub.len() <= s.len() && #[trigger] s.subrange(i, i + sub.len()) == sub
}

/// The position of the first occurrence of `c` in `s`.
pub open spec fn first_index(s: Seq<char>, c: char) -> Option<int>
    decreases s.len(),
{
    if s.len() == 0 {
        None
    } else if s[0] == c {
        Some(0)
    } else {
        match first_index(s.drop_first(), c) {
            Some(i) => Some(i + 1),
            None => None,
        }
    }
}

pub proof fn lemma_first_index_at(s: Seq<char>, c: char, i: int)
    requires
        0 <= i < s.len(),
        s[i] == c,
        forall|j: int| 0 <= j < i ==> s[j] != c,
    ensures
        first_index(s, c) == Some(i),
    decreases i,
{
    if i > 0 {
        lemma_first_index_at(s.drop_first(), c, i - 1);
    }
}

pub proof fn lemma_first_index_none(s: Seq<char>, c: char)
    requires
        forall|j: int| 0 <= j < s.len() ==> s[j] != c,
    ensures
        first_index(s, c) is None,
    decreases s.len(),
{
    if s.len() > 0 {
        lemma_first_index_none(s.drop_first(), c);
    }
}

pub proof fn lemma_first_index_props(s: Seq<char>, c: char)
    ensures
        match first_index(s, c) {
            Some(i) => 0 <= i < s.len() && s[i] == c && forall|j: int| 0 <= j < i ==> s[j] != c,
            None => forall|j: int| 0 <= j < s.len() ==> s[j] != c,
        },
    decreases s.len(),
{
    if s.len() > 0 && s[0] != c {
        lemma_first_index_props(s.drop_first(), c);
        match first_index(s.drop_first(), c) {
            Some(i) => {
                assert(forall|j: int| 1 <= j < i + 1 ==> s[j] == s.drop_first()[j - 1]);
            },
            None => {
                assert(forall|j: int| 1 <= j < s.len() ==> s[j] == s.drop_first()[j - 1]);
            },
        }
    }
}

/// Whether the characters of `p` stand at the front of `s`.
pub fn starts_with_str(s: &str, p: &str) -> (r: bool)
    ensures
        r == starts_with(s@, p@),
{
    let n = s.unicode_len();
    let m = p.unicode_len();
    if m > n {
        return false;
    }
    let head = s.substring_char(0, m);
    str_eq(head, p)
}

/// Whether the characters of `sub` occur contiguously in `s`.
pub fn contains_str(s: &str, sub: &str) -> (r: bool)
    ensures
        r == contains_sub(s@, sub@),
{
    let n = s.unicode_len();
    let m = sub.unicode_len();
    if m > n {
        return false;
    }
    if m == 0 {
        proof {
            assert(s@.subrange(0, 0 + sub@.len() as int) =~= sub@);
        }
        return true;
    }
    let mut i: usize = 0;
    while i <= n - m
        invariant
            n == s@.len(),
            m == sub@.len(),
            1 <= m <= n,
            i <= n - m + 1,
            forall|j: int| 0 <= j < i ==> #[trigger] s@.subrange(j, j + sub@.len()) != sub@,
        decreases n + 1 - m - i,
    {
        let piece = s.substring_char(i, i + m);
        if str_eq(piece, sub) {
            proof {
                assert(s@.subrange(i as int, i + sub@.len()) == sub@);
            }
            return true;
        }
        i += 1;
    }
    false
}

/// The position of the first occurrence of `c` in `s`.
pub fn find_char(s: &str, c: char) -> (r: Option<usize>)
    ensures
        match r {
            Some(i) => first_index(s@, c) == Some(i as int),
            None => first_index(s@, c) is None,
        },
{
    let n = s.unicode_len();
    let mut i: usize = 0;
    while i < n
        invariant
            n == s@.len(),
            i <= n,
            forall|j: int| 0 <= j < i ==> s@[j] != c,
        decreases n - i,
    {
        if s.get_char(i) == c {
            proof {
                lemma_first_index_at(s@, c, i as int);
            }
            return Some(i);
        }
        i += 1;
    }
    proof {
        lemma_first_index_none(s@, c);
    }
    None
}

} // verus!
