//! Back-to-front view of one sequence.

use vstd::prelude::*;

use crate::{Slice, SliceBorrowed, SliceMut, SliceOwned, Unique};

verus! {

/// A reversed sequence: index `i` reads the inner element at
/// `len() - 1 - i`. The length passes through unchanged, and indices at or
/// beyond the length yield `None` rather than wrapping.
pub struct Reverse<S>(pub S);

impl<S> Slice for Reverse<S> where S: Slice {
    type Output = S::Output;

    open spec fn wf(&self) -> bool {
        &&& self.0.wf()
        &&& 0 <= self.0.spec_len() <= usize::MAX
    }

    open spec fn spec_len(&self) -> int {
        self.0.spec_len()
    }

    open spec fn spec_get(&self, i: int) -> Option<S::Output> {
        if 0 <= i < self.0.spec_len() {
            self.0.spec_get(self.0.spec_len() - 1 - i)
        } else {
            None
        }
    }

    open spec fn spec_aliases(&self, i: int, j: int) -> bool {
        &&& 0 <= i < self.0.spec_len()
        &&& 0 <= j < self.0.spec_len()
        &&& self.0.spec_aliases(self.0.spec_len() - 1 - i, self.0.spec_len() - 1 - j)
    }

    fn len(&self) -> (n: usize)
    {
        self.0.len()
    }

    fn get_with<F: Fn(&S::Output) -> R, R>(&self, index: usize, f: &F) -> (r: Option<R>)
    {
        let n = self.0.len();
        if index < n {
            self.0.get_with(n - 1 - index, f)
        } else {
            None
        }
    }
}

impl<S> SliceOwned for Reverse<S> where S: SliceOwned {
    fn get_owned(&self, index: usize) -> (r: Option<S::Output>)
    {
        let n = self.0.len();
        if index < n {
            self.0.get_owned(n - 1 - index)
        } else {
            None
        }
    }
}

impl<S> SliceBorrowed for Reverse<S> where S: SliceBorrowed {
    fn get(&self, index: usize) -> (r: Option<&S::Output>)
    {
        let n = self.0.len();
        if index < n {
            self.0.get(n - 1 - index)
        } else {
            None
        }
    }
}

impl<S> SliceMut for Reverse<S> where S: SliceMut {
    fn get_mut(&mut self, index: usize) -> (r: Option<&mut S::Output>)
    {
        let n = self.0.len();
        if index < n {
            self.0.get_mut(n - 1 - index)
        } else {
            None
        }
    }
}

impl<S> Unique for Reverse<S> where S: Unique {
    proof fn lemma_unique(&self, i: int, j: int) {
        self.0.lemma_unique(self.0.spec_len() - 1 - i, self.0.spec_len() - 1 - j);
    }
}

} // verus!
