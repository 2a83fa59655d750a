//! Consecutive, non-overlapping chunks of one sequence.

use vstd::prelude::*;

use crate::{RangeEdge, Slice, SliceOf, SliceOwned, ViewRange};

verus! {

/// How many chunks of width `size` a tail of `remaining` indices still
/// yields: the division rounded up.
pub open spec fn chunk_count(remaining: int, size: int) -> int {
    (remaining + size - 1) / size
}

/// A front-to-back walk over consecutive, non-overlapping spans of a
/// sequence, each `size` indices wide except possibly a shorter final one.
///
/// Each step yields a sub-view covering `[cursor, min(cursor + size, len))`
/// and advances the cursor by the span actually produced; the walk ends when
/// the cursor reaches the length. A full walk therefore yields
/// `chunk_count(len, size)` spans: the length divided by the width, rounded
/// up.
pub struct Chunks<'a, S> {
    /// The sequence the chunks partition.
    pub data: &'a S,
    /// The width of every chunk but possibly the last; never zero.
    pub size: usize,
    /// The cursor: the start of the next chunk to yield.
    pub i: usize,
}

impl<'a, S> Chunks<'a, S> where S: Slice {
    /// Well-formedness: the wrapped sequence is well formed, the width is
    /// nonzero, and the cursor has not passed the length.
    pub open spec fn wf(&self) -> bool {
        &&& self.data.wf()
        &&& self.size >= 1
        &&& self.data.spec_len() <= usize::MAX
        &&& self.i <= self.data.spec_len()
    }

    /// How many chunks the walk still yields.
    pub open spec fn spec_remaining(&self) -> int {
        chunk_count(self.data.spec_len() - self.i, self.size as int)
    }

    /// Creates the walk over the chunks of width `size` of `data`. A width
    /// of zero is a contract violation.
    pub fn new(data: &'a S, size: usize) -> (r: Chunks<'a, S>)
        requires
            data.wf(),
            0 <= data.spec_len() <= usize::MAX,
            size >= 1,
        ensures
            r == (Chunks { data, size, i: 0usize }),
            r.wf(),
            r.spec_remaining() == chunk_count(data.spec_len(), size as int),
    {
        Chunks { data, size, i: 0 }
    }

    /// Creates the walk only when the width divides the length exactly, so
    /// that every chunk is full; returns `None` otherwise. A width of zero is
    /// a contract violation.
    pub fn new_exact(data: &'a S, size: usize) -> (r: Option<Chunks<'a, S>>)
        requires
            data.wf(),
            size >= 1,
        ensures
            match r {
                Some(c) => {
                    &&& data.spec_len() % (size as int) == 0
                    &&& c == (Chunks { data, size, i: 0usize })
                    &&& c.wf()
                    &&& c.spec_remaining() == data.spec_len() / (size as int)
                },
                None => data.spec_len() % (size as int) != 0,
            },
    {
        let total = data.len();
        if total % size == 0 {
            proof {
                let n = total as int;
                let s = size as int;
                vstd::arithmetic::div_mod::lemma_fundamental_div_mod(n, s);
                vstd::arithmetic::div_mod::lemma_div_multiples_vanish_fancy(n / s, s - 1, s);
            }
            Some(Chunks { data, size, i: 0 })
        } else {
            None
        }
    }

    /// Yields the span at the cursor — `size` indices wide, or whatever
    /// shorter tail remains — and advances the cursor past it; `None` once
    /// the cursor has reached the length.
    pub fn next(&mut self) -> (r: Option<SliceOf<&'a S>>)
        requires
            old(self).wf(),
        ensures
            final(self).wf(),
            final(self).data == old(self).data,
            final(self).size == old(self).size,
            match r {
                Some(c) => {
                    &&& (old(self).i as int) < old(self).data.spec_len()
                    &&& c.data == old(self).data
                    &&& c.start == old(self).i
                    &&& c.len as int == (if old(self).size as int <= old(self).data.spec_len()
                        - old(self).i {
                        old(self).size as int
                    } else {
                        old(self).data.spec_len() - old(self).i
                    })
                    &&& final(self).i == old(self).i + c.len
                    &&& final(self).spec_remaining() == old(self).spec_remaining() - 1
                },
                None => {
                    &&& old(self).i as int == old(self).data.spec_len()
                    &&& final(self).i == old(self).i
                    &&& old(self).spec_remaining() == 0
                },
            },
    {
        let total = self.data.len();
        if self.i == total {
            proof {
                vstd::arithmetic::div_mod::lemma_basic_div(self.size as int - 1, self.size as int);
            }
            None
        } else {
            let start = self.i;
            let end = if self.size < total - start {
                start + self.size
            } else {
                total
            };
            self.i = end;
            proof {
                lemma_chunk_step(total as int, start as int, self.size as int);
            }
            match SliceOf::new(
                self.data,
                ViewRange { start: RangeEdge::Included(start), end: RangeEdge::Excluded(end) },
            ) {
                Some(c) => Some(c),
                None => unreached(),
            }
        }
    }
}

/// A front-to-back walk over consecutive, non-overlapping chunks of a
/// construction-time fixed width `N`, each yielded as a freshly collected row
/// of `N` owned elements.
///
/// Only full chunks are yielded: the walk ends as soon as fewer than `N`
/// indices remain, and the leftover tail — the final `len() mod N` indices —
/// is available through [`ArrayChunks::remainder`].
pub struct ArrayChunks<'a, S, const N: usize> {
    /// The sequence the chunks partition.
    pub data: &'a S,
    /// The cursor: the start of the next chunk to yield.
    pub i: usize,
}

impl<'a, S, const N: usize> ArrayChunks<'a, S, N> where S: SliceOwned {
    /// Well-formedness: the wrapped sequence is well formed, holds an element
    /// at every index below its length, the width is nonzero, and the cursor
    /// has not passed the length.
    pub open spec fn wf(&self) -> bool {
        &&& self.data.wf()
        &&& N >= 1
        &&& self.data.spec_len() <= usize::MAX
        &&& self.i <= self.data.spec_len()
        &&& forall|k: int| 0 <= k < self.data.spec_len() ==> self.data.spec_get(k) is Some
    }

    /// How many full chunks the walk still yields.
    pub open spec fn spec_remaining(&self) -> int {
        (self.data.spec_len() - self.i) / (N as int)
    }

    /// Creates the walk over the full chunks of width `N` of `data`. A width
    /// of zero is a contract violation, as is a sequence with an index
    /// holding no element.
    pub fn new(data: &'a S) -> (r: ArrayChunks<'a, S, N>)
        requires
            data.wf(),
            0 <= data.spec_len() <= usize::MAX,
            N >= 1,
            forall|k: int| 0 <= k < data.spec_len() ==> data.spec_get(k) is Some,
        ensures
            r == (ArrayChunks::<'a, S, N> { data, i: 0usize }),
            r.wf(),
            r.spec_remaining() == data.spec_len() / (N as int),
    {
        ArrayChunks { data, i: 0 }
    }

    /// Yields the chunk at the cursor as a row of `N` owned elements and
    /// advances the cursor past it, or `None` once fewer than `N` indices
    /// remain.
    pub fn next(&mut self) -> (r: Option<Vec<S::Output>>)
        requires
            old(self).wf(),
        ensures
            final(self).wf(),
            final(self).data == old(self).data,
            match r {
                Some(v) => {
                    &&& old(self).i + N <= old(self).data.spec_len()
                    &&& v@.len() == N
                    &&& forall|k: int|
                        0 <= k < N ==> Some(#[trigger] v@[k]) == old(self).data.spec_get(
                            old(self).i + k,
                        )
                    &&& final(self).i == old(self).i + N
                    &&& final(self).spec_remaining() == old(self).spec_remaining() - 1
                },
                None => {
                    &&& old(self).data.spec_len() - old(self).i < N
                    &&& final(self).i == old(self).i
                    &&& old(self).spec_remaining() == 0
                },
            },
    {
        let total = self.data.len();
        if total - self.i >= N {
            let start = self.i;
            let mut v: Vec<S::Output> = Vec::new();
            let mut k: usize = 0;
            while k < N
                invariant
                    self.data.wf(),
                    forall|m: int|
                        0 <= m < self.data.spec_len() ==> self.data.spec_get(m) is Some,
                    total as int == self.data.spec_len(),
                    start + N <= total,
                    k <= N,
                    v@.len() == k,
                    forall|m: int|
                        0 <= m < k ==> Some(#[trigger] v@[m]) == self.data.spec_get(start + m),
                decreases N - k,
            {
                let x = match self.data.get_owned(start + k) {
                    Some(x) => x,
                    None => unreached(),
                };
                v.push(x);
                k = k + 1;
            }
            self.i = start + N;
            proof {
                vstd::arithmetic::div_mod::lemma_div_minus_one(
                    total as int - start,
                    N as int,
                );
            }
            Some(v)
        } else {
            proof {
                vstd::arithmetic::div_mod::lemma_basic_div(
                    total as int - self.i,
                    N as int,
                );
            }
            None
        }
    }

    /// The leftover tail the full chunks do not cover: the sub-view over the
    /// final `len() mod N` indices.
    pub fn remainder(&self) -> (r: SliceOf<&'a S>)
        requires
            self.wf(),
        ensures
            r.data == self.data,
            r.start as int == self.data.spec_len() - self.data.spec_len() % (N as int),
            r.len as int == self.data.spec_len() % (N as int),
            r.wf(),
    {
        let total = self.data.len();
        proof {
            vstd::arithmetic::div_mod::lemma_mod_decreases(total as nat, N as nat);
        }
        let start = total - total % N;
        match SliceOf::new(
            self.data,
            ViewRange { start: RangeEdge::Included(start), end: RangeEdge::Excluded(total) },
        ) {
            Some(r) => r,
            None => unreached(),
        }
    }
}

/// One chunk step: taking `min(size, n - start)` indices off a tail of
/// `n - start` lowers the rounded-up chunk count by exactly one.
proof fn lemma_chunk_step(n: int, start: int, size: int)
    requires
        1 <= size,
        0 <= start < n,
    ensures
        chunk_count(n - start, size) == 1 + chunk_count(
            n - (if size <= n - start {
                start + size
            } else {
                n
            }),
            size,
        ),
{
    let rem = n - start;
    if size <= rem {
        vstd::arithmetic::div_mod::lemma_div_minus_one(rem + size - 1, size);
    } else {
        vstd::arithmetic::div_mod::lemma_div_plus_one(rem - 1, size);
        vstd::arithmetic::div_mod::lemma_basic_div(rem - 1, size);
        vstd::arithmetic::div_mod::lemma_basic_div(size - 1, size);
    }
}

} // verus!
