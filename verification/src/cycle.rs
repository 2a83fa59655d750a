//! Infinite wraparound over one sequence.

use vstd::prelude::*;

use crate::{Slice, SliceBorrowed, SliceMut, SliceOwned};

verus! {

/// An infinitely looped sequence.
///
/// The reported length is the unbounded sentinel `usize::MAX`; an index `i` is
/// reduced modulo the inner length before delegation. Cycling an empty
/// sequence is a contract violation (the modulus would be zero), so
/// well-formedness demands a nonempty inner sequence.
///
/// Distinct indices that are congruent modulo the inner length reach the same
/// cell, so a cycle never asserts [`crate::Unique`].
pub struct Cycle<S>(pub S);

impl<S> Slice for Cycle<S> where S: Slice {
    type Output = S::Output;

    open spec fn wf(&self) -> bool {
        &&& self.0.wf()
        &&& 0 < self.0.spec_len() <= usize::MAX
    }

    open spec fn spec_len(&self) -> int {
        usize::MAX as int
    }

    open spec fn spec_get(&self, i: int) -> Option<S::Output> {
        if i >= 0 {
            self.0.spec_get(i % self.0.spec_len())
        } else {
            None
        }
    }

    open spec fn spec_aliases(&self, i: int, j: int) -> bool {
        &&& 0 <= i
        &&& 0 <= j
        &&& self.0.spec_aliases(i % self.0.spec_len(), j % self.0.spec_len())
    }

    fn len(&self) -> (n: usize)
    {
        usize::MAX
    }

    fn get_with<F: Fn(&S::Output) -> R, R>(&self, index: usize, f: &F) -> (r: Option<R>)
    {
        self.0.get_with(index % self.0.len(), f)
    }
}

impl<S> SliceOwned for Cycle<S> where S: SliceOwned {
    fn get_owned(&self, index: usize) -> (r: Option<S::Output>)
    {
        self.0.get_owned(index % self.0.len())
    }
}

impl<S> SliceBorrowed for Cycle<S> where S: SliceBorrowed {
    fn get(&self, index: usize) -> (r: Option<&S::Output>)
    {
        self.0.get(index % self.0.len())
    }
}

impl<S> SliceMut for Cycle<S> where S: SliceMut {
    fn get_mut(&mut self, index: usize) -> (r: Option<&mut S::Output>)
    {
        let n = self.0.len();
        self.0.get_mut(index % n)
    }
}

} // verus!
