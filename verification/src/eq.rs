//! Element-wise comparison of two sequences.

use vstd::prelude::*;
use vstd::std_specs::cmp::PartialEqSpec;

use crate::{Slice, SliceOwned};

verus! {

/// Whether two sequences hold elements at index `i` that compare equal
/// (by the element type's own equality): both must hold one there.
pub open spec fn slices_agree_at<A, B>(a: &A, b: &B, i: int) -> bool where
    A: Slice,
    B: Slice<Output = A::Output>,
    A::Output: PartialEq,
{
    match (a.spec_get(i), b.spec_get(i)) {
        (Some(x), Some(y)) => x.eq_spec(&y),
        _ => false,
    }
}

/// Compares two sequences element-wise: they are equal when their lengths
/// agree and every index below the length holds elements that compare equal
/// on both sides. An index where either side holds nothing makes the
/// sequences unequal.
pub fn slices_equal<A, B>(a: &A, b: &B) -> (r: bool) where
    A: SliceOwned,
    B: SliceOwned<Output = A::Output>,
    A::Output: PartialEq,

    requires
        a.wf(),
        b.wf(),
        <A::Output as PartialEqSpec>::obeys_eq_spec(),
    ensures
        r <==> (a.spec_len() == b.spec_len() && forall|i: int|
            0 <= i < a.spec_len() ==> slices_agree_at(a, b, i)),
{
    let la = a.len();
    let lb = b.len();
    if la != lb {
        return false;
    }
    let mut i: usize = 0;
    while i < la
        invariant
            a.wf(),
            b.wf(),
            <A::Output as PartialEqSpec>::obeys_eq_spec(),
            la as int == a.spec_len(),
            la as int == b.spec_len(),
            i <= la,
            forall|k: int| 0 <= k < i ==> slices_agree_at(a, b, k),
        decreases la - i,
    {
        let agree = match (a.get_owned(i), b.get_owned(i)) {
            (Some(x), Some(y)) => x == y,
            _ => false,
        };
        if !agree {
            proof {
                assert(!slices_agree_at(a, b, i as int));
            }
            return false;
        }
        i += 1;
    }
    true
}

} // verus!
