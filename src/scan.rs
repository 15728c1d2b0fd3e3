//! Searching character sequences.
use vstd::prelude::*;

verus! {

/// The first index `j >= i` with `s[j] == c`.
pub open spec fn find_from(s: Seq<char>, i: int, c: char) -> Option<int>
    decreases s.len() - i,
{
    if i < 0 || i >= s.len() {
        None
    } else if s[i] == c {
        Some(i)
    } else {
        find_from(s, i + 1, c)
    }
}

/// What `find_from` returns, stated without recursion.
pub proof fn lemma_find_from(s: Seq<char>, i: int, c: char)
    requires
        0 <= i,
    ensures
        find_from(s, i, c) matches Some(j) ==> i <= j < s.len() && s[j] == c && forall|k: int|
            i <= k < j ==> s[k] != c,
        find_from(s, i, c) is None ==> forall|k: int| i <= k < s.len() ==> s[k] != c,
    decreases s.len() - i,
{
    if i < s.len() && s[i] != c {
        lemma_find_from(s, i + 1, c);
    }
}

pub proof fn lemma_find_skip(s: Seq<char>, i: int, j: int, c: char)
    requires
        0 <= i <= j,
        forall|k: int| i <= k < j ==> s[k] != c,
    ensures
        find_from(s, i, c) == find_from(s, j, c),
    decreases j - i,
{
    if i < j {
        lemma_find_skip(s, i + 1, j, c);
    }
}

/// Finds the first `c` at or after `from`.
pub fn find_char(v: &Vec<char>, from: usize, c: char) -> (r: Option<usize>)
    ensures
        r matches Some(j) ==> find_from(v@, from as int, c) == Some(j as int),
        r is None ==> find_from(v@, from as int, c) is None,
{
    let mut i = from;
    while i < v.len()
        invariant
            from <= i,
            forall|k: int| from <= k < i ==> v@[k] != c,
        decreases v@.len() - i,
    {
        if v[i] == c {
            proof {
                lemma_find_skip(v@, from as int, i as int, c);
            }
            return Some(i);
        }
        i += 1;
    }
    proof {
        lemma_find_skip(v@, from as int, i as int, c);
    }
    None
}

/// Whether `c` occurs in `s`.
pub open spec fn contains_char(s: Seq<char>, c: char) -> bool {
    exists|k: int| 0 <= k < s.len() && s[k] == c
}

/// Whether `c` occurs in `v`.
pub fn has_char(v: &Vec<char>, c: char) -> (r: bool)
    ensures
        r == contains_char(v@, c),
{
    let f = find_char(v, 0, c);
    proof {
        lemma_find_from(v@, 0, c);
    }
    f.is_some()
}

/// Whether `p` occurs in `s` at index `i`.
pub open spec fn has_prefix_at(s: Seq<char>, i: int, p: Seq<char>) -> bool {
    0 <= i && i + p.len() <= s.len() && s.subrange(i, i + p.len()) == p
}

/// Whether the characters of `p` occur in `v` at index `i`.
pub fn prefix_at(v: &Vec<char>, i: usize, p: &str) -> (r: bool)
    ensures
        r == has_prefix_at(v@, i as int, p@),
{
    let pc = crate::text::chars_of(p);
    if i > v.len() || pc.len() > v.len() - i {
        return false;
    }
    let n = v.len();
    let mut k: usize = 0;
    while k < pc.len()
        invariant
            n == v@.len(),
            pc@ == p@,
            i <= v@.len(),
            i + pc@.len() <= v@.len(),
            k <= pc@.len(),
            forall|j: int| 0 <= j < k ==> v@[i + j] == pc@[j],
        decreases pc@.len() - k,
    {
        if v[i + k] != pc[k] {
            proof {
                assert(v@.subrange(i as int, i + pc@.len())[k as int] != pc@[k as int]);
            }
            return false;
        }
        k += 1;
    }
    proof {
        assert(v@.subrange(i as int, i + pc@.len()) =~= pc@);
    }
    true
}

} // verus!
