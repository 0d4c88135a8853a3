//! Raw byte-pattern search over a byte sequence.
use vstd::prelude::*;

verus! {

/// `pat` occurs in `hay` starting at index `i`.
pub open spec fn occurs_at(hay: Seq<u8>, pat: Seq<u8>, i: int) -> bool {
    &&& 0 <= i
    &&& i + pat.len() <= hay.len()
    &&& hay.subrange(i, i + pat.len()) == pat
}

/// `i` is the smallest index at which `pat` occurs in `hay`.
pub open spec fn is_first_occurrence(hay: Seq<u8>, pat: Seq<u8>, i: int) -> bool {
    &&& occurs_at(hay, pat, i)
    &&& forall|j: int| 0 <= j < i ==> !occurs_at(hay, pat, j)
}

/// The index of the first occurrence of `pat` in `hay`, if any.
pub open spec fn first_occurrence(hay: Seq<u8>, pat: Seq<u8>) -> Option<int> {
    if exists|i: int| is_first_occurrence(hay, pat, i) {
        Some(choose|i: int| is_first_occurrence(hay, pat, i))
    } else {
        None
    }
}

/// There is at most one first occurrence.
pub proof fn lemma_first_occurrence_unique(hay: Seq<u8>, pat: Seq<u8>, i: int, j: int)
    requires
        is_first_occurrence(hay, pat, i),
        is_first_occurrence(hay, pat, j),
    ensures
        i == j,
{
}

/// Relies on memchr::memmem::find: the index of the first occurrence of
/// `needle` in `haystack`, or `None` where it does not occur.
#[verifier::external_body]
fn memmem_find(haystack: &[u8], needle: &[u8]) -> (r: Option<usize>)
    ensures
        r matches Some(i) ==> is_first_occurrence(haystack@, needle@, i as int),
        r is None ==> forall|i: int| !occurs_at(haystack@, needle@, i),
{
    memchr::memmem::find(haystack, needle)
}

/// The index of the first occurrence of `needle` in `haystack`.
pub fn find(haystack: &[u8], needle: &[u8]) -> (r: Option<usize>)
    ensures
        r matches Some(i) ==> first_occurrence(haystack@, needle@) == Some(i as int)
            && is_first_occurrence(haystack@, needle@, i as int),
        r is None ==> first_occurrence(haystack@, needle@) is None,
{
    let r = memmem_find(haystack, needle);
    proof {
        if let Some(i) = r {
            let k = choose|k: int| is_first_occurrence(haystack@, needle@, k);
            lemma_first_occurrence_unique(haystack@, needle@, i as int, k);
        }
    }
    r
}

} // verus!
