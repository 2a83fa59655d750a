//! The ground-level sequences: vectors, arrays, references and ranges.

use vstd::prelude::*;

use crate::{ContiguousBorrowed, ContiguousMut, Slice, SliceBorrowed, SliceMut, SliceOwned, Unique};

verus! {

impl<T> Slice for Vec<T> {
    type Output = T;

    open spec fn wf(&self) -> bool {
        true
    }

    open spec fn spec_len(&self) -> int {
        self@.len() as int
    }

    open spec fn spec_get(&self, i: int) -> Option<T> {
        if 0 <= i < self@.len() {
            Some(self@[i])
        } else {
            None
        }
    }

    open spec fn spec_aliases(&self, i: int, j: int) -> bool {
        0 <= i < self@.len() && i == j
    }

    fn len(&self) -> (n: usize)
    {
        Vec::len(self)
    }

    fn get_with<F: Fn(&T) -> R, R>(&self, index: usize, f: &F) -> (r: Option<R>)
    {
        if index < Vec::len(self) {
            Some(f(&self[index]))
        } else {
            None
        }
    }
}

impl<T: Copy> SliceOwned for Vec<T> {
    fn get_owned(&self, index: usize) -> (r: Option<T>)
    {
        if index < Vec::len(self) {
            Some(self[index])
        } else {
            None
        }
    }
}

impl<T> SliceBorrowed for Vec<T> {
    fn get(&self, index: usize) -> (r: Option<&T>)
    {
        if index < Vec::len(self) {
            Some(&self[index])
        } else {
            None
        }
    }
}

impl<T> SliceMut for Vec<T> {
    fn get_mut(&mut self, index: usize) -> (r: Option<&mut T>)
    {
        if index < Vec::len(self) {
            Some(&mut self[index])
        } else {
            None
        }
    }
}

impl<T> Unique for Vec<T> {
    proof fn lemma_unique(&self, i: int, j: int) {
    }
}

impl<T> ContiguousBorrowed for Vec<T> {
    fn contiguous(&self) -> (r: &[T])
    {
        self.as_slice()
    }
}

impl<T> ContiguousMut for Vec<T> {
    fn contiguous_mut(&mut self) -> (r: &mut [T])
    {
        self.as_mut_slice()
    }
}

impl<T, const N: usize> Slice for [T; N] {
    type Output = T;

    open spec fn wf(&self) -> bool {
        true
    }

    open spec fn spec_len(&self) -> int {
        N as int
    }

    open spec fn spec_get(&self, i: int) -> Option<T> {
        if 0 <= i < N {
            Some(self@[i])
        } else {
            None
        }
    }

    open spec fn spec_aliases(&self, i: int, j: int) -> bool {
        0 <= i < N && i == j
    }

    fn len(&self) -> (n: usize)
    {
        N
    }

    fn get_with<F: Fn(&T) -> R, R>(&self, index: usize, f: &F) -> (r: Option<R>)
    {
        if index < N {
            Some(f(&self[index]))
        } else {
            None
        }
    }
}

impl<T: Copy, const N: usize> SliceOwned for [T; N] {
    fn get_owned(&self, index: usize) -> (r: Option<T>)
    {
        if index < N {
            Some(self[index])
        } else {
            None
        }
    }
}

impl<T, const N: usize> SliceBorrowed for [T; N] {
    fn get(&self, index: usize) -> (r: Option<&T>)
    {
        if index < N {
            Some(&self[index])
        } else {
            None
        }
    }
}

impl<T, const N: usize> SliceMut for [T; N] {
    fn get_mut(&mut self, index: usize) -> (r: Option<&mut T>)
    {
        if index < N {
            Some(&mut self[index])
        } else {
            None
        }
    }
}

impl<T, const N: usize> Unique for [T; N] {
    proof fn lemma_unique(&self, i: int, j: int) {
    }
}

impl<T, const N: usize> ContiguousBorrowed for [T; N] {
    fn contiguous(&self) -> (r: &[T])
    {
        self.as_slice()
    }
}

impl<S: Slice> Slice for &S {
    type Output = S::Output;

    open spec fn wf(&self) -> bool {
        (*self).wf()
    }

    open spec fn spec_len(&self) -> int {
        (*self).spec_len()
    }

    open spec fn spec_get(&self, i: int) -> Option<S::Output> {
        (*self).spec_get(i)
    }

    open spec fn spec_aliases(&self, i: int, j: int) -> bool {
        (*self).spec_aliases(i, j)
    }

    fn len(&self) -> (n: usize)
    {
        (*self).len()
    }

    fn get_with<F: Fn(&S::Output) -> R, R>(&self, index: usize, f: &F) -> (r: Option<R>)
    {
        (*self).get_with(index, f)
    }
}

impl<S: SliceOwned> SliceOwned for &S {
    fn get_owned(&self, index: usize) -> (r: Option<S::Output>)
    {
        (*self).get_owned(index)
    }
}

impl<S: SliceBorrowed> SliceBorrowed for &S {
    fn get(&self, index: usize) -> (r: Option<&S::Output>)
    {
        (*self).get(index)
    }
}

impl<S: Unique> Unique for &S {
    proof fn lemma_unique(&self, i: int, j: int) {
        (*self).lemma_unique(i, j);
    }
}

impl<S: ContiguousBorrowed> ContiguousBorrowed for &S {
    fn contiguous(&self) -> (r: &[S::Output])
    {
        (*self).contiguous()
    }
}

impl Slice for core::ops::Range<usize> {
    type Output = usize;

    open spec fn wf(&self) -> bool {
        true
    }

    open spec fn spec_len(&self) -> int {
        if self.start <= self.end {
            self.end - self.start
        } else {
            0
        }
    }

    open spec fn spec_get(&self, i: int) -> Option<usize> {
        if 0 <= i < self.spec_len() {
            Some((self.start + i) as usize)
        } else {
            None
        }
    }

    open spec fn spec_aliases(&self, i: int, j: int) -> bool {
        0 <= i < self.spec_len() && i == j
    }

    fn len(&self) -> (n: usize)
    {
        if self.start <= self.end {
            self.end - self.start
        } else {
            0
        }
    }

    fn get_with<F: Fn(&usize) -> R, R>(&self, index: usize, f: &F) -> (r: Option<R>)
    {
        if self.start <= self.end && index < self.end - self.start {
            Some(f(&(self.start + index)))
        } else {
            None
        }
    }
}

impl SliceOwned for core::ops::Range<usize> {
    fn get_owned(&self, index: usize) -> (r: Option<usize>)
    {
        if self.start <= self.end && index < self.end - self.start {
            Some(self.start + index)
        } else {
            None
        }
    }
}

} // verus!
