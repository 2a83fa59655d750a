//! Overlapping windows over one sequence.

use vstd::prelude::*;

use crate::{Slice, SliceOf, SliceOwned};

verus! {

/// Every overlapping span of `size` consecutive indices of a sequence.
///
/// This is itself a [`Slice`] whose elements are sub-views: window `w` covers
/// the inner indices `[w, w + size)`, and there are `len() - size + 1`
/// windows (none when the sequence is shorter than one window). It also walks
/// front to back through [`Windows::next`], advancing by one index per step.
pub struct Windows<'a, S> {
    /// The sequence the windows cover.
    pub data: &'a S,
    /// The width of every window; never zero.
    pub size: usize,
    /// The cursor of the front-to-back walk: the next window to yield.
    pub i: usize,
}

impl<'a, S> Windows<'a, S> where S: Slice {
    /// Creates the windows of width `size` over `data`. A width of zero is a
    /// contract violation.
    pub fn new(data: &'a S, size: usize) -> (r: Windows<'a, S>)
        requires
            data.wf(),
            size >= 1,
        ensures
            r == (Windows { data, size, i: 0usize }),
    {
        Windows { data, size, i: 0 }
    }

    /// Yields the window at the cursor and advances the cursor by one, or
    /// `None` once every window has been yielded.
    pub fn next(&mut self) -> (r: Option<SliceOf<&'a S>>)
        requires
            old(self).wf(),
        ensures
            final(self).wf(),
            final(self).data == old(self).data,
            final(self).size == old(self).size,
            match r {
                Some(w) => {
                    &&& old(self).spec_get(old(self).i as int) == Some(w)
                    &&& final(self).i == old(self).i + 1
                },
                None => {
                    &&& old(self).i as int >= old(self).spec_len()
                    &&& final(self).i == old(self).i
                },
            },
    {
        let total = self.len();
        if self.i < total {
            let w = match self.get_owned(self.i) {
                Some(w) => w,
                None => unreached(),
            };
            self.i = self.i + 1;
            Some(w)
        } else {
            None
        }
    }
}

impl<'a, S> Slice for Windows<'a, S> where S: Slice {
    type Output = SliceOf<&'a S>;

    open spec fn wf(&self) -> bool {
        &&& self.data.wf()
        &&& self.size >= 1
        &&& self.data.spec_len() <= usize::MAX
    }

    open spec fn spec_len(&self) -> int {
        if self.size > self.data.spec_len() {
            0
        } else {
            self.data.spec_len() - self.size + 1
        }
    }

    open spec fn spec_get(&self, w: int) -> Option<SliceOf<&'a S>> {
        if 0 <= w < self.spec_len() {
            Some(SliceOf { data: self.data, start: w as usize, len: self.size })
        } else {
            None
        }
    }

    open spec fn spec_aliases(&self, i: int, j: int) -> bool {
        0 <= i < self.spec_len() && i == j
    }

    fn len(&self) -> (n: usize)
    {
        let inner = self.data.len();
        if self.size > inner {
            0
        } else {
            inner - self.size + 1
        }
    }

    fn get_with<F: Fn(&SliceOf<&'a S>) -> R, R>(&self, index: usize, f: &F) -> (r: Option<R>)
    {
        match self.get_owned(index) {
            Some(w) => Some(f(&w)),
            None => None,
        }
    }
}

impl<'a, S> SliceOwned for Windows<'a, S> where S: Slice {
    fn get_owned(&self, index: usize) -> (r: Option<SliceOf<&'a S>>)
    {
        let inner = self.data.len();
        if self.size <= inner && index <= inner - self.size {
            Some(SliceOf { data: self.data, start: index, len: self.size })
        } else {
            None
        }
    }
}

/// Every overlapping window of a construction-time fixed width `N`, yielded
/// as a freshly collected row of `N` owned elements.
pub struct ArrayWindows<'a, S, const N: usize> {
    /// The sequence the windows cover.
    pub data: &'a S,
    /// The cursor of the front-to-back walk: the next window to yield.
    pub i: usize,
}

impl<'a, S, const N: usize> ArrayWindows<'a, S, N> where S: SliceOwned {
    /// Well-formedness: the wrapped sequence is well formed, holds an element
    /// at every index below its length, and the width is nonzero.
    pub open spec fn wf(&self) -> bool {
        &&& self.data.wf()
        &&& N >= 1
        &&& self.data.spec_len() <= usize::MAX
        &&& forall|k: int| 0 <= k < self.data.spec_len() ==> self.data.spec_get(k) is Some
    }

    /// How many windows there are: `len() - N + 1`, or none when the
    /// sequence is shorter than one window.
    pub open spec fn spec_len(&self) -> int {
        if N > self.data.spec_len() {
            0
        } else {
            self.data.spec_len() - N + 1
        }
    }

    /// Creates the windows of width `N` over `data`. A width of zero is a
    /// contract violation, as is a sequence with an index holding no element.
    pub fn new(data: &'a S) -> (r: ArrayWindows<'a, S, N>)
        requires
            data.wf(),
            data.spec_len() <= usize::MAX,
            N >= 1,
            forall|k: int| 0 <= k < data.spec_len() ==> data.spec_get(k) is Some,
        ensures
            r == (ArrayWindows::<'a, S, N> { data, i: 0usize }),
            r.wf(),
    {
        ArrayWindows { data, i: 0 }
    }

    /// How many windows there are.
    pub fn len(&self) -> (n: usize)
        requires
            self.wf(),
        ensures
            n as int == self.spec_len(),
    {
        let inner = self.data.len();
        if N > inner {
            0
        } else {
            inner - N + 1
        }
    }

    /// The window at `index`, collected into a row of `N` owned elements, or
    /// `None` if fewer than `N` elements remain at `index`.
    pub fn get_owned(&self, index: usize) -> (r: Option<Vec<S::Output>>)
        requires
            self.wf(),
        ensures
            match r {
                Some(v) => {
                    &&& (index as int) < self.spec_len()
                    &&& v@.len() == N
                    &&& forall|k: int|
                        0 <= k < N ==> Some(#[trigger] v@[k]) == self.data.spec_get(index + k)
                },
                None => index as int >= self.spec_len(),
            },
    {
        let inner = self.data.len();
        if N <= inner && index <= inner - N {
            let mut v: Vec<S::Output> = Vec::new();
            let mut k: usize = 0;
            while k < N
                invariant
                    self.wf(),
                    inner as int == self.data.spec_len(),
                    N <= inner,
                    index <= inner - N,
                    k <= N,
                    v@.len() == k,
                    forall|m: int|
                        0 <= m < k ==> Some(#[trigger] v@[m]) == self.data.spec_get(index + m),
                decreases N - k,
            {
                let x = match self.data.get_owned(index + k) {
                    Some(x) => x,
                    None => unreached(),
                };
                v.push(x);
                k = k + 1;
            }
            Some(v)
        } else {
            None
        }
    }

    /// Yields the window at the cursor and advances the cursor by one, or
    /// `None` once every window has been yielded.
    pub fn next(&mut self) -> (r: Option<Vec<S::Output>>)
        requires
            old(self).wf(),
        ensures
            final(self).wf(),
            final(self).data == old(self).data,
            match r {
                Some(v) => {
                    &&& (old(self).i as int) < old(self).spec_len()
                    &&& v@.len() == N
                    &&& forall|k: int|
                        0 <= k < N ==> Some(#[trigger] v@[k]) == old(self).data.spec_get(
                            old(self).i + k,
                        )
                    &&& final(self).i == old(self).i + 1
                },
                None => {
                    &&& old(self).i as int >= old(self).spec_len()
                    &&& final(self).i == old(self).i
                },
            },
    {
        let total = self.len();
        if self.i < total {
            let r = self.get_owned(self.i);
            self.i = self.i + 1;
            match r {
                Some(v) => Some(v),
                None => unreached(),
            }
        } else {
            None
        }
    }
}

} // verus!
