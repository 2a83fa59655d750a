//! Bounded sub-views and the mutable split.

use vstd::prelude::*;

use crate::{Slice, SliceBorrowed, SliceMut, SliceOwned, Unique};

verus! {

/// One edge of an index range: inclusive, exclusive, or absent.
#[derive(Clone, Copy)]
pub enum RangeEdge {
    /// The edge index belongs to the range.
    Included(usize),
    /// The edge index lies just outside the range.
    Excluded(usize),
    /// No edge: the range extends to the start or the end of the sequence.
    Unbounded,
}

/// A pair of range edges selecting a sub-view of a sequence.
///
/// An unbounded start means "from index zero"; an unbounded end means "to the
/// end of the sequence", which is resolved against the sequence's length at
/// construction time (in particular, an empty sequence with an unbounded end
/// yields an empty view rather than an arithmetic underflow).
#[derive(Clone, Copy)]
pub struct ViewRange {
    /// Where the sub-view starts.
    pub start: RangeEdge,
    /// Where the sub-view ends.
    pub end: RangeEdge,
}

impl ViewRange {
    /// The full range, as written `..`.
    pub fn all() -> (r: ViewRange)
        ensures
            r == (ViewRange { start: RangeEdge::Unbounded, end: RangeEdge::Unbounded }),
    {
        ViewRange { start: RangeEdge::Unbounded, end: RangeEdge::Unbounded }
    }

    /// The half-open range `start..end`.
    pub fn span(start: usize, end: usize) -> (r: ViewRange)
        ensures
            r == (ViewRange { start: RangeEdge::Included(start), end: RangeEdge::Excluded(end) }),
    {
        ViewRange { start: RangeEdge::Included(start), end: RangeEdge::Excluded(end) }
    }

    /// The inclusive range `start..=end`.
    pub fn span_inclusive(start: usize, end: usize) -> (r: ViewRange)
        ensures
            r == (ViewRange { start: RangeEdge::Included(start), end: RangeEdge::Included(end) }),
    {
        ViewRange { start: RangeEdge::Included(start), end: RangeEdge::Included(end) }
    }

    /// The tail range `start..`.
    pub fn starting_at(start: usize) -> (r: ViewRange)
        ensures
            r == (ViewRange { start: RangeEdge::Included(start), end: RangeEdge::Unbounded }),
    {
        ViewRange { start: RangeEdge::Included(start), end: RangeEdge::Unbounded }
    }

    /// The head range `..end`.
    pub fn up_to(end: usize) -> (r: ViewRange)
        ensures
            r == (ViewRange { start: RangeEdge::Unbounded, end: RangeEdge::Excluded(end) }),
    {
        ViewRange { start: RangeEdge::Unbounded, end: RangeEdge::Excluded(end) }
    }

    /// The inclusive head range `..=end`.
    pub fn through(end: usize) -> (r: ViewRange)
        ensures
            r == (ViewRange { start: RangeEdge::Unbounded, end: RangeEdge::Included(end) }),
    {
        ViewRange { start: RangeEdge::Unbounded, end: RangeEdge::Included(end) }
    }
}

/// The absolute index where a range starts, once its start edge is resolved:
/// an inclusive edge starts at its own index, an exclusive edge one past it,
/// and an unbounded edge at zero.
pub open spec fn start_offset(range: ViewRange) -> int {
    match range.start {
        RangeEdge::Included(s) => s as int,
        RangeEdge::Excluded(s) => s + 1,
        RangeEdge::Unbounded => 0,
    }
}

/// Whether a range selects a valid sub-view of a sequence of length `n`.
/// Each of the bound-kind combinations is validated by its own rule: the
/// resolved start may not pass the resolved end, and the resolved end may not
/// pass `n`.
pub open spec fn range_valid(range: ViewRange, n: int) -> bool {
    match (range.start, range.end) {
        (RangeEdge::Included(s), RangeEdge::Included(e)) => s <= e && e < n,
        (RangeEdge::Included(s), RangeEdge::Excluded(e)) => s <= e && e <= n,
        (RangeEdge::Included(s), RangeEdge::Unbounded) => s <= n,
        (RangeEdge::Excluded(s), RangeEdge::Included(e)) => s <= e && e < n,
        (RangeEdge::Excluded(s), RangeEdge::Excluded(e)) => s < e && e <= n,
        (RangeEdge::Excluded(s), RangeEdge::Unbounded) => s < n,
        (RangeEdge::Unbounded, RangeEdge::Included(e)) => e < n,
        (RangeEdge::Unbounded, RangeEdge::Excluded(e)) => e <= n,
        (RangeEdge::Unbounded, RangeEdge::Unbounded) => true,
    }
}

/// How many indices a valid range spans over a sequence of length `n`.
pub open spec fn range_span(range: ViewRange, n: int) -> int {
    match (range.start, range.end) {
        (RangeEdge::Included(s), RangeEdge::Included(e)) => e - s + 1,
        (RangeEdge::Included(s), RangeEdge::Excluded(e)) => e - s,
        (RangeEdge::Included(s), RangeEdge::Unbounded) => n - s,
        (RangeEdge::Excluded(s), RangeEdge::Included(e)) => e - s,
        (RangeEdge::Excluded(s), RangeEdge::Excluded(e)) => e - s - 1,
        (RangeEdge::Excluded(s), RangeEdge::Unbounded) => n - s - 1,
        (RangeEdge::Unbounded, RangeEdge::Included(e)) => e + 1,
        (RangeEdge::Unbounded, RangeEdge::Excluded(e)) => e as int,
        (RangeEdge::Unbounded, RangeEdge::Unbounded) => n,
    }
}

/// A sub-view of a sequence: index `i` of the view reads index `start + i`
/// of the wrapped sequence, for `i` below the cached `len`.
pub struct SliceOf<A> {
    /// The wrapped sequence.
    pub data: A,
    /// The absolute offset of the view's first element.
    pub start: usize,
    /// The number of indices the view spans.
    pub len: usize,
}

impl<A> SliceOf<A> where A: Slice {
    /// Creates a sub-view of `data` covering `range`, or `None` when the
    /// range's resolved bounds do not fit the sequence.
    pub fn new(data: A, range: ViewRange) -> (r: Option<SliceOf<A>>)
        requires
            data.wf(),
        ensures
            match r {
                Some(s) => {
                    &&& range_valid(range, data.spec_len())
                    &&& s.wf()
                    &&& s.data == data
                    &&& s.start as int == start_offset(range)
                    &&& s.spec_len() == range_span(range, data.spec_len())
                },
                None => !range_valid(range, data.spec_len()),
            },
    {
        let n = data.len();
        match (range.start, range.end) {
            (RangeEdge::Included(s), RangeEdge::Included(e)) => if s <= e && e < n {
                Some(SliceOf { data, start: s, len: e - s + 1 })
            } else {
                None
            },
            (RangeEdge::Included(s), RangeEdge::Excluded(e)) => if s <= e && e <= n {
                Some(SliceOf { data, start: s, len: e - s })
            } else {
                None
            },
            (RangeEdge::Included(s), RangeEdge::Unbounded) => if s <= n {
                Some(SliceOf { data, start: s, len: n - s })
            } else {
                None
            },
            (RangeEdge::Excluded(s), RangeEdge::Included(e)) => if s <= e && e < n {
                Some(SliceOf { data, start: s + 1, len: e - s })
            } else {
                None
            },
            (RangeEdge::Excluded(s), RangeEdge::Excluded(e)) => if s < e && e <= n {
                Some(SliceOf { data, start: s + 1, len: e - s - 1 })
            } else {
                None
            },
            (RangeEdge::Excluded(s), RangeEdge::Unbounded) => if s < n {
                Some(SliceOf { data, start: s + 1, len: n - s - 1 })
            } else {
                None
            },
            (RangeEdge::Unbounded, RangeEdge::Included(e)) => if e < n {
                Some(SliceOf { data, start: 0, len: e + 1 })
            } else {
                None
            },
            (RangeEdge::Unbounded, RangeEdge::Excluded(e)) => if e <= n {
                Some(SliceOf { data, start: 0, len: e })
            } else {
                None
            },
            (RangeEdge::Unbounded, RangeEdge::Unbounded) => Some(
                SliceOf { data, start: 0, len: n },
            ),
        }
    }
}

impl<A> Slice for SliceOf<A> where A: Slice {
    type Output = A::Output;

    open spec fn wf(&self) -> bool {
        &&& self.data.wf()
        &&& self.data.spec_len() <= usize::MAX
        &&& self.start + self.len <= self.data.spec_len()
    }

    open spec fn spec_len(&self) -> int {
        self.len as int
    }

    open spec fn spec_get(&self, i: int) -> Option<A::Output> {
        if 0 <= i < self.len {
            self.data.spec_get(self.start + i)
        } else {
            None
        }
    }

    open spec fn spec_aliases(&self, i: int, j: int) -> bool {
        &&& 0 <= i < self.len
        &&& 0 <= j < self.len
        &&& self.data.spec_aliases(self.start + i, self.start + j)
    }

    fn len(&self) -> (n: usize)
    {
        self.len
    }

    fn get_with<F: Fn(&A::Output) -> R, R>(&self, index: usize, f: &F) -> (r: Option<R>)
    {
        if index < self.len {
            self.data.get_with(self.start + index, f)
        } else {
            None
        }
    }
}

impl<A> SliceOwned for SliceOf<A> where A: SliceOwned {
    fn get_owned(&self, index: usize) -> (r: Option<A::Output>)
    {
        if index < self.len {
            self.data.get_owned(self.start + index)
        } else {
            None
        }
    }
}

impl<A> SliceBorrowed for SliceOf<A> where A: SliceBorrowed {
    fn get(&self, index: usize) -> (r: Option<&A::Output>)
    {
        if index < self.len {
            self.data.get(self.start + index)
        } else {
            None
        }
    }
}

impl<A> SliceMut for SliceOf<A> where A: SliceMut {
    fn get_mut(&mut self, index: usize) -> (r: Option<&mut A::Output>)
    {
        if index < self.len {
            self.data.get_mut(self.start + index)
        } else {
            None
        }
    }
}

impl<A> Unique for SliceOf<A> where A: Unique {
    proof fn lemma_unique(&self, i: int, j: int) {
        self.data.lemma_unique(self.start + i, self.start + j);
    }
}

/// A sequence split at a pivot into two independently mutable views.
///
/// The left view covers the indices `0` through `at` inclusive — the pivot
/// element belongs to the left half — and the right view covers everything
/// after the pivot. Both views read and write the one wrapped sequence, so
/// handing out two simultaneously live mutable halves is justified only by
/// [`Unique`]: distinct indices never reach the same cell, hence a write
/// through one half can never be observed through the other. The mutating
/// methods state exactly that.
pub struct SplitMut<S> {
    /// The wrapped sequence both halves index into.
    pub data: S,
    /// The pivot: the last index of the left view.
    pub at: usize,
}

impl<S> SplitMut<S> where S: Slice {
    /// Well-formedness: the wrapped sequence is well formed and the pivot
    /// lies inside it.
    pub open spec fn wf(&self) -> bool {
        &&& self.data.wf()
        &&& self.data.spec_len() <= usize::MAX
        &&& self.at < self.data.spec_len()
    }

    /// The length of the left view: the pivot is included.
    pub open spec fn spec_left_len(&self) -> int {
        self.at + 1
    }

    /// The length of the right view: everything after the pivot.
    pub open spec fn spec_right_len(&self) -> int {
        self.data.spec_len() - self.at - 1
    }

    /// The element the left view holds at index `i`.
    pub open spec fn spec_left_get(&self, i: int) -> Option<S::Output> {
        if 0 <= i <= self.at {
            self.data.spec_get(i)
        } else {
            None
        }
    }

    /// The element the right view holds at index `i`.
    pub open spec fn spec_right_get(&self, i: int) -> Option<S::Output> {
        if 0 <= i < self.spec_right_len() {
            self.data.spec_get(self.at + 1 + i)
        } else {
            None
        }
    }

    /// Splits `data` at the pivot `at`, or returns `None` when the pivot is
    /// out of bounds. The left view spans `at + 1` elements, the right view
    /// the remaining `data.len() - at - 1`.
    pub fn new(data: S, at: usize) -> (r: Option<SplitMut<S>>)
        requires
            data.wf(),
        ensures
            match r {
                Some(s) => {
                    &&& (at as int) < data.spec_len()
                    &&& s == (SplitMut { data, at })
                    &&& s.wf()
                    &&& s.spec_left_len() == at + 1
                    &&& s.spec_right_len() == data.spec_len() - at - 1
                },
                None => at as int >= data.spec_len(),
            },
    {
        if at < data.len() {
            Some(SplitMut { data, at })
        } else {
            None
        }
    }

    /// The length of the left view.
    pub fn left_len(&self) -> (n: usize)
        requires
            self.wf(),
        ensures
            n as int == self.spec_left_len(),
    {
        self.at + 1
    }

    /// The length of the right view.
    pub fn right_len(&self) -> (n: usize)
        requires
            self.wf(),
        ensures
            n as int == self.spec_right_len(),
    {
        self.data.len() - self.at - 1
    }

    /// Gives the wrapped sequence back, ending the split.
    pub fn into_inner(self) -> (r: S)
        ensures
            r == self.data,
    {
        self.data
    }

    /// Calls a visitor on the element at `index` of the left view, returning
    /// its result, or `None` if the index is out of bounds.
    pub fn get_left_with<F: Fn(&S::Output) -> R, R>(&self, index: usize, f: &F) -> (r: Option<R>)
        requires
            self.wf(),
            self.spec_left_get(index as int) matches Some(v) ==> call_requires(f, (&v,)),
        ensures
            match r {
                Some(res) => self.spec_left_get(index as int) matches Some(v) && call_ensures(
                    f,
                    (&v,),
                    res,
                ),
                None => self.spec_left_get(index as int) is None,
            },
    {
        if index <= self.at {
            self.data.get_with(index, f)
        } else {
            None
        }
    }

    /// Calls a visitor on the element at `index` of the right view,
    /// returning its result, or `None` if the index is out of bounds.
    pub fn get_right_with<F: Fn(&S::Output) -> R, R>(&self, index: usize, f: &F) -> (r: Option<R>)
        requires
            self.wf(),
            self.spec_right_get(index as int) matches Some(v) ==> call_requires(f, (&v,)),
        ensures
            match r {
                Some(res) => self.spec_right_get(index as int) matches Some(v) && call_ensures(
                    f,
                    (&v,),
                    res,
                ),
                None => self.spec_right_get(index as int) is None,
            },
    {
        if index < self.data.len() - self.at - 1 {
            self.data.get_with(self.at + 1 + index, f)
        } else {
            None
        }
    }
}

impl<S> SplitMut<S> where S: SliceOwned {
    /// Indexes the left view, returning an owned value.
    pub fn get_left_owned(&self, index: usize) -> (r: Option<S::Output>)
        requires
            self.wf(),
        ensures
            r == self.spec_left_get(index as int),
    {
        if index <= self.at {
            self.data.get_owned(index)
        } else {
            None
        }
    }

    /// Indexes the right view, returning an owned value.
    pub fn get_right_owned(&self, index: usize) -> (r: Option<S::Output>)
        requires
            self.wf(),
        ensures
            r == self.spec_right_get(index as int),
    {
        if index < self.data.len() - self.at - 1 {
            self.data.get_owned(self.at + 1 + index)
        } else {
            None
        }
    }
}

impl<S> SplitMut<S> where S: SliceBorrowed {
    /// Indexes the left view, returning a borrowed value.
    pub fn get_left(&self, index: usize) -> (r: Option<&S::Output>)
        requires
            self.wf(),
        ensures
            match r {
                Some(x) => self.spec_left_get(index as int) == Some(*x),
                None => self.spec_left_get(index as int) is None,
            },
    {
        if index <= self.at {
            self.data.get(index)
        } else {
            None
        }
    }

    /// Indexes the right view, returning a borrowed value.
    pub fn get_right(&self, index: usize) -> (r: Option<&S::Output>)
        requires
            self.wf(),
        ensures
            match r {
                Some(x) => self.spec_right_get(index as int) == Some(*x),
                None => self.spec_right_get(index as int) is None,
            },
    {
        if index < self.data.len() - self.at - 1 {
            self.data.get(self.at + 1 + index)
        } else {
            None
        }
    }
}

impl<S> SplitMut<S> where S: SliceMut + Unique {
    /// Indexes the left view, returning a mutably borrowed value. Whatever
    /// the caller leaves behind the borrow is what the left view reads at
    /// `index` afterwards; the right view is untouched either way: a borrow
    /// through one half never contaminates the other.
    pub fn get_left_mut(&mut self, index: usize) -> (r: Option<&mut S::Output>)
        requires
            old(self).wf(),
        ensures
            final(self).wf(),
            final(self).at == old(self).at,
            final(self).data.spec_len() == old(self).data.spec_len(),
            match r {
                Some(m) => {
                    &&& old(self).spec_left_get(index as int) == Some(*m)
                    &&& forall|j: int| #[trigger]
                        final(self).spec_left_get(j) == (if j == index as int {
                            Some(*final(m))
                        } else {
                            old(self).spec_left_get(j)
                        })
                    &&& forall|j: int| #[trigger]
                        final(self).spec_right_get(j) == old(self).spec_right_get(j)
                },
                None => {
                    &&& old(self).spec_left_get(index as int) is None
                    &&& forall|j: int| #[trigger]
                        final(self).spec_left_get(j) == old(self).spec_left_get(j)
                    &&& forall|j: int| #[trigger]
                        final(self).spec_right_get(j) == old(self).spec_right_get(j)
                },
            },
    {
        if index <= self.at {
            let r = self.data.get_mut(index);
            proof {
                assert forall|j: int|
                    old(self).data.spec_aliases(index as int, j) implies j == index as int by {
                    old(self).data.lemma_unique(index as int, j);
                };
            }
            r
        } else {
            None
        }
    }

    /// Indexes the right view, returning a mutably borrowed value. Whatever
    /// the caller leaves behind the borrow is what the right view reads at
    /// `index` afterwards; the left view is untouched either way: a borrow
    /// through one half never contaminates the other.
    pub fn get_right_mut(&mut self, index: usize) -> (r: Option<&mut S::Output>)
        requires
            old(self).wf(),
        ensures
            final(self).wf(),
            final(self).at == old(self).at,
            final(self).data.spec_len() == old(self).data.spec_len(),
            match r {
                Some(m) => {
                    &&& old(self).spec_right_get(index as int) == Some(*m)
                    &&& forall|j: int| #[trigger]
                        final(self).spec_right_get(j) == (if j == index as int {
                            Some(*final(m))
                        } else {
                            old(self).spec_right_get(j)
                        })
                    &&& forall|j: int| #[trigger]
                        final(self).spec_left_get(j) == old(self).spec_left_get(j)
                },
                None => {
                    &&& old(self).spec_right_get(index as int) is None
                    &&& forall|j: int| #[trigger]
                        final(self).spec_right_get(j) == old(self).spec_right_get(j)
                    &&& forall|j: int| #[trigger]
                        final(self).spec_left_get(j) == old(self).spec_left_get(j)
                },
            },
    {
        if index < self.data.len() - self.at - 1 {
            let inner = self.at + 1 + index;
            let r = self.data.get_mut(inner);
            proof {
                assert forall|j: int|
                    old(self).data.spec_aliases(inner as int, j) implies j == inner as int by {
                    old(self).data.lemma_unique(inner as int, j);
                };
            }
            r
        } else {
            None
        }
    }

    /// Overwrites the element at `index` of the left view. The right view is
    /// untouched: writing through one half never contaminates the other.
    pub fn set_left(&mut self, index: usize, value: S::Output) -> (r: bool)
        requires
            old(self).wf(),
        ensures
            final(self).wf(),
            final(self).at == old(self).at,
            final(self).data.spec_len() == old(self).data.spec_len(),
            r <==> old(self).spec_left_get(index as int) is Some,
            forall|j: int| #[trigger]
                final(self).spec_left_get(j) == (if r && j == index as int {
                    Some(value)
                } else {
                    old(self).spec_left_get(j)
                }),
            forall|j: int| #[trigger]
                final(self).spec_right_get(j) == old(self).spec_right_get(j),
    {
        if index <= self.at {
            let r = self.data.set(index, value);
            proof {
                assert forall|j: int|
                    old(self).data.spec_aliases(index as int, j) implies j == index as int by {
                    old(self).data.lemma_unique(index as int, j);
                };
            }
            r
        } else {
            false
        }
    }

    /// Overwrites the element at `index` of the right view. The left view is
    /// untouched: writing through one half never contaminates the other.
    pub fn set_right(&mut self, index: usize, value: S::Output) -> (r: bool)
        requires
            old(self).wf(),
        ensures
            final(self).wf(),
            final(self).at == old(self).at,
            final(self).data.spec_len() == old(self).data.spec_len(),
            r <==> old(self).spec_right_get(index as int) is Some,
            forall|j: int| #[trigger]
                final(self).spec_right_get(j) == (if r && j == index as int {
                    Some(value)
                } else {
                    old(self).spec_right_get(j)
                }),
            forall|j: int| #[trigger]
                final(self).spec_left_get(j) == old(self).spec_left_get(j),
    {
        if index < self.data.len() - self.at - 1 {
            let inner = self.at + 1 + index;
            let r = self.data.set(inner, value);
            proof {
                assert forall|j: int|
                    old(self).data.spec_aliases(inner as int, j) implies j == inner as int by {
                    old(self).data.lemma_unique(inner as int, j);
                };
            }
            r
        } else {
            false
        }
    }
}

} // verus!
