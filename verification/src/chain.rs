//! Concatenation of two sequences.

use vstd::prelude::*;

use crate::{Slice, SliceBorrowed, SliceMut, SliceOwned, Unique};

verus! {

/// Two chained sequences: the second starts where the first ends.
///
/// The length is the sum of the two inner lengths, and an index `i` is routed
/// to the first sequence when `i < self.0.len()` and to the second, shifted
/// down by `self.0.len()`, otherwise.
pub struct Chain<S1, S2>(pub S1, pub S2);

impl<S1, S2> Chain<S1, S2> where S1: Slice, S2: Slice<Output = S1::Output> {
    /// Chains `left` and `right` together, back-to-back.
    pub fn new(left: S1, right: S2) -> (r: Chain<S1, S2>)
        ensures
            r == (Chain(left, right)),
    {
        Chain(left, right)
    }
}

impl<S1, S2> Slice for Chain<S1, S2> where S1: Slice, S2: Slice<Output = S1::Output> {
    type Output = S1::Output;

    open spec fn wf(&self) -> bool {
        &&& self.0.wf()
        &&& self.1.wf()
        &&& 0 <= self.0.spec_len()
        &&& 0 <= self.1.spec_len()
        &&& self.0.spec_len() + self.1.spec_len() <= usize::MAX
    }

    open spec fn spec_len(&self) -> int {
        self.0.spec_len() + self.1.spec_len()
    }

    open spec fn spec_get(&self, i: int) -> Option<S1::Output> {
        if i < 0 {
            None
        } else if i < self.0.spec_len() {
            self.0.spec_get(i)
        } else {
            self.1.spec_get(i - self.0.spec_len())
        }
    }

    open spec fn spec_aliases(&self, i: int, j: int) -> bool {
        &&& 0 <= i
        &&& 0 <= j
        &&& {
            ||| (i < self.0.spec_len() && j < self.0.spec_len() && self.0.spec_aliases(i, j))
            ||| (i >= self.0.spec_len() && j >= self.0.spec_len() && self.1.spec_aliases(
                i - self.0.spec_len(),
                j - self.0.spec_len(),
            ))
        }
    }

    fn len(&self) -> (n: usize)
    {
        self.0.len() + self.1.len()
    }

    fn get_with<F: Fn(&S1::Output) -> R, R>(&self, index: usize, f: &F) -> (r: Option<R>)
    {
        let offset = self.0.len();
        if index < offset {
            self.0.get_with(index, f)
        } else {
            self.1.get_with(index - offset, f)
        }
    }
}

impl<S1, S2> SliceOwned for Chain<S1, S2> where S1: SliceOwned, S2: SliceOwned<Output = S1::Output> {
    fn get_owned(&self, index: usize) -> (r: Option<S1::Output>)
    {
        let offset = self.0.len();
        if index < offset {
            self.0.get_owned(index)
        } else {
            self.1.get_owned(index - offset)
        }
    }
}

impl<S1, S2> SliceBorrowed for Chain<
    S1,
    S2,
> where S1: SliceBorrowed, S2: SliceBorrowed<Output = S1::Output> {
    fn get(&self, index: usize) -> (r: Option<&S1::Output>)
    {
        let offset = self.0.len();
        if index < offset {
            self.0.get(index)
        } else {
            self.1.get(index - offset)
        }
    }
}

impl<S1, S2> SliceMut for Chain<S1, S2> where S1: SliceMut, S2: SliceMut<Output = S1::Output> {
    fn get_mut(&mut self, index: usize) -> (r: Option<&mut S1::Output>)
    {
        let offset = self.0.len();
        if index < offset {
            self.0.get_mut(index)
        } else {
            self.1.get_mut(index - offset)
        }
    }
}

impl<S1, S2> Unique for Chain<S1, S2> where S1: Unique, S2: Unique<Output = S1::Output> {
    proof fn lemma_unique(&self, i: int, j: int) {
        if i < self.0.spec_len() && j < self.0.spec_len() {
            self.0.lemma_unique(i, j);
        } else {
            self.1.lemma_unique(i - self.0.spec_len(), j - self.0.spec_len());
        }
    }
}

} // verus!
