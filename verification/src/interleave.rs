//! Alternation of two sequences.

use vstd::prelude::*;

use crate::{Slice, SliceBorrowed, SliceMut, SliceOwned, Unique};

verus! {

/// Two interleaved sequences: even indices `2k` read the first sequence at
/// `k`, odd indices `2k + 1` read the second at `k`.
///
/// The length is the sum of the two inner lengths. When the two inner lengths
/// differ this formula overcounts: indices below `len()` whose side is already
/// exhausted yield `None`, and indices at or past `len()` can still yield an
/// element from the longer side. That mismatch is a deliberate caveat of the
/// design, kept rather than silently repaired.
pub struct Interleave<S1, S2>(pub S1, pub S2);

impl<S1, S2> Interleave<S1, S2> where S1: Slice, S2: Slice<Output = S1::Output> {
    /// Interleaves `left` and `right`: even indices read `left`, odd ones
    /// `right`.
    pub fn new(left: S1, right: S2) -> (r: Interleave<S1, S2>)
        ensures
            r == (Interleave(left, right)),
    {
        Interleave(left, right)
    }
}

impl<S1, S2> Slice for Interleave<S1, S2> where S1: Slice, S2: Slice<Output = S1::Output> {
    type Output = S1::Output;

    open spec fn wf(&self) -> bool {
        &&& self.0.wf()
        &&& self.1.wf()
        &&& 0 <= self.0.spec_len()
        &&& 0 <= self.1.spec_len()
        &&& self.0.spec_len() + self.1.spec_len() <= usize::MAX
    }

    open spec fn spec_len(&self) -> int {
        self.0.spec_len() + self.1.spec_len()
    }

    open spec fn spec_get(&self, i: int) -> Option<S1::Output> {
        if i < 0 {
            None
        } else if i % 2 == 0 {
            self.0.spec_get(i / 2)
        } else {
            self.1.spec_get(i / 2)
        }
    }

    open spec fn spec_aliases(&self, i: int, j: int) -> bool {
        &&& 0 <= i
        &&& 0 <= j
        &&& i % 2 == j % 2
        &&& if i % 2 == 0 {
            self.0.spec_aliases(i / 2, j / 2)
        } else {
            self.1.spec_aliases(i / 2, j / 2)
        }
    }

    fn len(&self) -> (n: usize)
    {
        self.0.len() + self.1.len()
    }

    fn get_with<F: Fn(&S1::Output) -> R, R>(&self, index: usize, f: &F) -> (r: Option<R>)
    {
        if index % 2 == 0 {
            self.0.get_with(index / 2, f)
        } else {
            self.1.get_with(index / 2, f)
        }
    }
}

impl<S1, S2> SliceOwned for Interleave<
    S1,
    S2,
> where S1: SliceOwned, S2: SliceOwned<Output = S1::Output> {
    fn get_owned(&self, index: usize) -> (r: Option<S1::Output>)
    {
        if index % 2 == 0 {
            self.0.get_owned(index / 2)
        } else {
            self.1.get_owned(index / 2)
        }
    }
}

impl<S1, S2> SliceBorrowed for Interleave<
    S1,
    S2,
> where S1: SliceBorrowed, S2: SliceBorrowed<Output = S1::Output> {
    fn get(&self, index: usize) -> (r: Option<&S1::Output>)
    {
        if index % 2 == 0 {
            self.0.get(index / 2)
        } else {
            self.1.get(index / 2)
        }
    }
}

impl<S1, S2> SliceMut for Interleave<
    S1,
    S2,
> where S1: SliceMut, S2: SliceMut<Output = S1::Output> {
    fn get_mut(&mut self, index: usize) -> (r: Option<&mut S1::Output>)
    {
        if index % 2 == 0 {
            self.0.get_mut(index / 2)
        } else {
            self.1.get_mut(index / 2)
        }
    }
}

impl<S1, S2> Unique for Interleave<S1, S2> where S1: Unique, S2: Unique<Output = S1::Output> {
    proof fn lemma_unique(&self, i: int, j: int) {
        if i % 2 == 0 {
            self.0.lemma_unique(i / 2, j / 2);
        } else {
            self.1.lemma_unique(i / 2, j / 2);
        }
    }
}

} // verus!
