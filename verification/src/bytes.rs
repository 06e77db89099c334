//! Searching and splitting byte strings, and decimal numerals.

use vstd::prelude::*;
use vstd::slice::slice_subrange;

verus! {

/// The bytes of `pat` stand in `s` starting at index `i`.
pub open spec fn occurs_at(s: Seq<u8>, pat: Seq<u8>, i: int) -> bool {
    &&& 0 <= i
    &&& i + pat.len() <= s.len()
    &&& s.subrange(i, i + pat.len()) == pat
}

/// `i` is the leftmost index at which `pat` stands in `s`.
pub open spec fn is_first_occurrence(s: Seq<u8>, pat: Seq<u8>, i: int) -> bool {
    &&& occurs_at(s, pat, i)
    &&& forall|j: int| 0 <= j < i ==> !occurs_at(s, pat, j)
}

/// The leftmost index at which `pat` stands in `s`, if it stands anywhere.
pub open spec fn first_occurrence(s: Seq<u8>, pat: Seq<u8>) -> Option<int> {
    if exists|i: int| is_first_occurrence(s, pat, i) {
        Some(choose|i: int| is_first_occurrence(s, pat, i))
    } else {
        None
    }
}

/// `s` split around the leftmost occurrence of `pat`: what stands before it
/// and what stands after it.
pub open spec fn cut(s: Seq<u8>, pat: Seq<u8>) -> Option<(Seq<u8>, Seq<u8>)> {
    match first_occurrence(s, pat) {
        Some(i) => Some((s.subrange(0, i), s.subrange(i + pat.len(), s.len() as int))),
        None => None,
    }
}

/// A leftmost occurrence is the only one: it is what `first_occurrence` names.
pub proof fn lemma_first_occurrence_unique(s: Seq<u8>, pat: Seq<u8>, i: int)
    requires
        is_first_occurrence(s, pat, i),
    ensures
        first_occurrence(s, pat) == Some(i),
{
    let k = choose|k: int| is_first_occurrence(s, pat, k);
    assert(is_first_occurrence(s, pat, k));
    if k < i {
        assert(!occurs_at(s, pat, k));
    } else if i < k {
        assert(!occurs_at(s, pat, i));
    }
}

/// Where `pat` stands nowhere in `s`, there is no first occurrence.
pub proof fn lemma_first_occurrence_none(s: Seq<u8>, pat: Seq<u8>)
    requires
        forall|i: int| !occurs_at(s, pat, i),
    ensures
        first_occurrence(s, pat) is None,
{
}

/// What `first_occurrence` names is a leftmost occurrence, and lies in `s`.
pub proof fn lemma_first_occurrence_found(s: Seq<u8>, pat: Seq<u8>)
    ensures
        first_occurrence(s, pat) matches Some(i) ==> is_first_occurrence(s, pat, i),
        first_occurrence(s, pat) is None ==> forall|i: int| !occurs_at(s, pat, i),
{
    if first_occurrence(s, pat) is None {
        assert forall|i: int| !occurs_at(s, pat, i) by {
            if occurs_at(s, pat, i) {
                lemma_leftmost_exists(s, pat, i);
            }
        }
    }
}

/// An occurrence at `i` gives a leftmost occurrence at or before `i`.
proof fn lemma_leftmost_exists(s: Seq<u8>, pat: Seq<u8>, i: int)
    requires
        occurs_at(s, pat, i),
    ensures
        exists|k: int| is_first_occurrence(s, pat, k),
    decreases i,
{
    if forall|j: int| 0 <= j < i ==> !occurs_at(s, pat, j) {
        assert(is_first_occurrence(s, pat, i));
    } else {
        let j = choose|j: int| 0 <= j < i && occurs_at(s, pat, j);
        lemma_leftmost_exists(s, pat, j);
    }
}

/// An occurrence is the leftmost one where no earlier byte of `s` is the
/// first byte of `pat`.
pub proof fn lemma_first_occurrence_at(s: Seq<u8>, pat: Seq<u8>, i: int)
    requires
        pat.len() > 0,
        occurs_at(s, pat, i),
        forall|j: int| 0 <= j < i ==> s[j] != pat[0],
    ensures
        first_occurrence(s, pat) == Some(i),
        cut(s, pat) == Some((s.subrange(0, i), s.subrange(i + pat.len(), s.len() as int))),
{
    assert forall|j: int| 0 <= j < i implies !occurs_at(s, pat, j) by {
        if occurs_at(s, pat, j) {
            assert(s.subrange(j, j + pat.len())[0] == pat[0]);
        }
    }
    lemma_first_occurrence_unique(s, pat, i);
}

/// `pat` stands nowhere in `s` where no byte of `s` is the first byte of
/// `pat`.
pub proof fn lemma_first_occurrence_absent(s: Seq<u8>, pat: Seq<u8>)
    requires
        pat.len() > 0,
        forall|j: int| 0 <= j < s.len() ==> s[j] != pat[0],
    ensures
        first_occurrence(s, pat) is None,
        cut(s, pat) is None,
{
    assert forall|j: int| !occurs_at(s, pat, j) by {
        if occurs_at(s, pat, j) {
            assert(s.subrange(j, j + pat.len())[0] == pat[0]);
        }
    }
    lemma_first_occurrence_none(s, pat);
}

/// The two parts of a cut and the pattern between them make up the whole.
pub proof fn lemma_cut_parts(s: Seq<u8>, pat: Seq<u8>)
    ensures
        cut(s, pat) matches Some((before, after)) ==> {
            &&& before + pat + after == s
            &&& before.len() + pat.len() + after.len() == s.len()
            &&& first_occurrence(s, pat) == Some(before.len() as int)
        },
{
    lemma_first_occurrence_found(s, pat);
    if let Some((before, after)) = cut(s, pat) {
        assert(before + pat + after =~= s);
    }
}

/// Whether two byte strings hold the same bytes.
pub fn same_bytes(a: &[u8], b: &[u8]) -> (r: bool)
    ensures
        r == (a@ == b@),
{
    if a.len() != b.len() {
        return false;
    }
    let mut i: usize = 0;
    while i < a.len()
        invariant
            a.len() == b.len(),
            i <= a.len(),
            forall|k: int| 0 <= k < i ==> a[k] == b[k],
        decreases a.len() - i,
    {
        if a[i] != b[i] {
            return false;
        }
        i += 1;
    }
    assert(a@ =~= b@);
    true
}

/// Whether `pat` stands in `hay` at index `at`.
fn stands_at(hay: &[u8], pat: &[u8], at: usize) -> (r: bool)
    requires
        at + pat.len() <= hay.len(),
    ensures
        r == occurs_at(hay@, pat@, at as int),
{
    same_bytes(slice_subrange(hay, at, at + pat.len()), pat)
}

/// The index of the leftmost occurrence of `pat` in `hay`.
pub fn find(hay: &[u8], pat: &[u8]) -> (r: Option<usize>)
    ensures
        match r {
            Some(i) => first_occurrence(hay@, pat@) == Some(i as int),
            None => first_occurrence(hay@, pat@) is None,
        },
{
    if pat.len() > hay.len() {
        proof {
            lemma_first_occurrence_none(hay@, pat@);
        }
        return None;
    }
    let last: usize = hay.len() - pat.len();
    let mut i: usize = 0;
    loop
        invariant_except_break
            last == hay.len() - pat.len(),
            i <= last,
            forall|j: int| 0 <= j < i ==> !occurs_at(hay@, pat@, j),
        ensures
            forall|j: int| 0 <= j <= last ==> !occurs_at(hay@, pat@, j),
        decreases last - i,
    {
        if stands_at(hay, pat, i) {
            proof {
                lemma_first_occurrence_unique(hay@, pat@, i as int);
            }
            return Some(i);
        }
        if i == last {
            break;
        }
        i += 1;
    }
    proof {
        lemma_first_occurrence_none(hay@, pat@);
    }
    None
}

/// Splits `s` around the leftmost occurrence of `pat`.
pub fn split_once<'a>(s: &'a [u8], pat: &[u8]) -> (r: Option<(&'a [u8], &'a [u8])>)
    ensures
        match r {
            Some((before, after)) => cut(s@, pat@) == Some((before@, after@)),
            None => cut(s@, pat@) is None,
        },
{
    let n = s.len();
    match find(s, pat) {
        Some(i) => {
            proof {
                lemma_first_occurrence_found(s@, pat@);
            }
            Some((slice_subrange(s, 0, i), slice_subrange(s, i + pat.len(), n)))
        },
        None => None,
    }
}

} // verus!
