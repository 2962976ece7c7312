//! First-match search over sequences, shared by the health table and the
//! resolver.

use vstd::prelude::*;

verus! {

/// The index of the first element of `s` satisfying `p`, if any.
pub open spec fn find_first<A>(s: Seq<A>, p: spec_fn(A) -> bool) -> Option<int>
    decreases s.len(),
{
    if s.len() == 0 {
        None
    } else if p(s[0]) {
        Some(0int)
    } else {
        match find_first(s.drop_first(), p) {
            None => None,
            Some(i) => Some(i + 1),
        }
    }
}

/// `find_first` returns the earliest satisfying index, and `None` exactly
/// when no element satisfies `p`.
pub proof fn lemma_find_first<A>(s: Seq<A>, p: spec_fn(A) -> bool)
    ensures
        match find_first(s, p) {
            Some(i) => 0 <= i < s.len() && p(s[i]) && (forall|j: int| 0 <= j < i ==> !p(s[j])),
            None => forall|j: int| 0 <= j < s.len() ==> !p(s[j]),
        },
    decreases s.len(),
{
    if s.len() > 0 && !p(s[0]) {
        lemma_find_first(s.drop_first(), p);
        assert forall|j: int| 1 <= j < s.len() implies s.drop_first()[j - 1] == s[j] by {}
    }
}

} // verus!
