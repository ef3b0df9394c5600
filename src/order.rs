//! Ordering helpers on interned identifiers.
use vstd::prelude::*;

verus! {

/// A sequence in non-decreasing order.
pub open spec fn sorted_u64(s: Seq<u64>) -> bool {
    forall|i: int, j: int| 0 <= i < j < s.len() ==> s[i] <= s[j]
}

/// A sequence in strictly increasing order (sorted, no repeats).
pub open spec fn strictly_sorted_u64(s: Seq<u64>) -> bool {
    forall|i: int, j: int| 0 <= i < j < s.len() ==> s[i] < s[j]
}

/// Relies on `slice::sort_unstable` from std: the slice ends up in
/// ascending order and holds the same items as before.
#[verifier::external_body]
pub(crate) fn sort_u64s(v: &mut Vec<u64>)
    ensures
        sorted_u64(final(v)@),
        final(v)@.to_multiset() == old(v)@.to_multiset(),
{
    v.sort_unstable();
}

} // verus!
