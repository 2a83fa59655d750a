//! Pairing of two sequences.

use vstd::prelude::*;

use crate::{Slice, SliceOwned, Unique};

verus! {

/// Two sequences zipped together: index `i` yields the pair of the two
/// elements at `i`, and the length is the shorter of the two inner lengths.
/// Because each lookup builds a fresh pair of owned values, both inner
/// sequences must support owned retrieval.
pub struct Zip<S1, S2>(pub S1, pub S2);

impl<S1, S2> Zip<S1, S2> where S1: SliceOwned, S2: SliceOwned {
    /// Zips `left` and `right` into one sequence of pairs, cut to the
    /// shorter length.
    pub fn new(left: S1, right: S2) -> (r: Zip<S1, S2>)
        ensures
            r == (Zip(left, right)),
    {
        Zip(left, right)
    }
}

impl<S1, S2> Slice for Zip<S1, S2> where S1: SliceOwned, S2: SliceOwned {
    type Output = (S1::Output, S2::Output);

    open spec fn wf(&self) -> bool {
        &&& self.0.wf()
        &&& self.1.wf()
        &&& 0 <= self.0.spec_len()
        &&& 0 <= self.1.spec_len()
    }

    open spec fn spec_len(&self) -> int {
        if self.0.spec_len() < self.1.spec_len() {
            self.0.spec_len()
        } else {
            self.1.spec_len()
        }
    }

    open spec fn spec_get(&self, i: int) -> Option<(S1::Output, S2::Output)> {
        match (self.0.spec_get(i), self.1.spec_get(i)) {
            (Some(x), Some(y)) => Some((x, y)),
            _ => None,
        }
    }

    open spec fn spec_aliases(&self, i: int, j: int) -> bool {
        0 <= i < self.spec_len() && i == j
    }

    fn len(&self) -> (n: usize)
    {
        let la = self.0.len();
        let lb = self.1.len();
        if la < lb {
            la
        } else {
            lb
        }
    }

    fn get_with<F: Fn(&(S1::Output, S2::Output)) -> R, R>(&self, index: usize, f: &F) -> (r: Option<
        R,
    >)
    {
        match (self.0.get_owned(index), self.1.get_owned(index)) {
            (Some(x), Some(y)) => Some(f(&(x, y))),
            _ => None,
        }
    }
}

impl<S1, S2> SliceOwned for Zip<S1, S2> where S1: SliceOwned, S2: SliceOwned {
    fn get_owned(&self, index: usize) -> (r: Option<(S1::Output, S2::Output)>)
    {
        match (self.0.get_owned(index), self.1.get_owned(index)) {
            (Some(x), Some(y)) => Some((x, y)),
            _ => None,
        }
    }
}

impl<S1, S2> Unique for Zip<
    S1,
    S2,
> where S1: SliceOwned + Unique, S2: SliceOwned + Unique {
    proof fn lemma_unique(&self, i: int, j: int) {
    }
}

} // verus!
