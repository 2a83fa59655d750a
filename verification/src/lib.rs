//! Composable slice views: adapters over sequence-like data that keep
//! random-access indexing and a known length while chaining, cycling,
//! interleaving, reversing, sub-slicing, chunking and windowing, all without
//! copying the underlying elements.
//!
//! Every sequence is modelled by three spec-level quantities: a well-formedness
//! condition [`Slice::wf`], a length [`Slice::spec_len`] (where `usize::MAX`
//! is the sentinel for an unbounded view), and a lookup function
//! [`Slice::spec_get`] mapping each index to the element held there, if any.
//! Adapters re-map indices algebraically and delegate, and their contracts
//! state the index arithmetic exactly.

use vstd::prelude::*;

mod chain;
mod chunks;
mod cycle;
mod eq;
mod fromfn;
mod impls;
mod interleave;
mod iter;
mod laws;
mod map;
mod reverse;
mod slicing;
mod windows;
mod zip;

pub use chain::Chain;
pub use chunks::{ArrayChunks, Chunks, chunk_count};
pub use cycle::Cycle;
pub use eq::{slices_agree_at, slices_equal};
pub use fromfn::{FromFn, from_fn};
pub use interleave::Interleave;
pub use iter::{IterBorrowed, IterOwned};
pub use laws::{lemma_chain_spec, lemma_chunk_count_is_ceil, lemma_cycle_spec, lemma_interleave_spec, lemma_reverse_spec, lemma_slice_of_spec, lemma_split_mut_spec, lemma_windows_spec};
pub use map::{MapBorrowed, MapOwned};
pub use reverse::Reverse;
pub use slicing::{RangeEdge, SliceOf, SplitMut, ViewRange, range_span, range_valid, start_offset};
pub use windows::{ArrayWindows, Windows};
pub use zip::Zip;

verus! {

/// The base capability: an indexable sequence with a known length.
///
/// `wf` gathers the structural conditions under which the executable methods
/// are callable: the wrapped sequences are themselves well formed and the
/// adapter's index arithmetic cannot overflow. `spec_len` is the model length,
/// with `usize::MAX` reserved as the sentinel for an unbounded (cyclic) view.
/// `spec_get` is the model lookup; out-of-domain indices yield `None`.
/// `spec_aliases` records cell identity: whether two indices reach the same
/// underlying storage cell, which underpins mutation contracts and the
/// [`Unique`] capability.
pub trait Slice {
    /// The element type this sequence yields.
    type Output;

    /// Structural well-formedness of this view.
    spec fn wf(&self) -> bool;

    /// The model length; `usize::MAX` denotes an unbounded view.
    spec fn spec_len(&self) -> int;

    /// The element reachable at index `i`, or `None`.
    spec fn spec_get(&self, i: int) -> Option<Self::Output>;

    /// Whether indices `i` and `j` reach the same underlying cell.
    spec fn spec_aliases(&self, i: int, j: int) -> bool;

    /// Returns the length of the sequence.
    fn len(&self) -> (n: usize)
        requires
            self.wf(),
        ensures
            n as int == self.spec_len(),
    ;

    /// Returns whether the sequence is empty, that is, whether `len() == 0`.
    fn is_empty(&self) -> (r: bool)
        requires
            self.wf(),
        ensures
            r == (self.spec_len() == 0),
    {
        self.len() == 0
    }

    /// Calls a visitor on the element at `index`, returning its result, or
    /// `None` if the index is out of bounds. This is the ownership-agnostic
    /// lookup primitive: it borrows the element whatever access mode the
    /// sequence supports.
    fn get_with<F: Fn(&Self::Output) -> R, R>(&self, index: usize, f: &F) -> (r: Option<R>)
        requires
            self.wf(),
            self.spec_get(index as int) matches Some(v) ==> call_requires(f, (&v,)),
        ensures
            match r {
                Some(res) => self.spec_get(index as int) matches Some(v) && call_ensures(
                    f,
                    (&v,),
                    res,
                ),
                None => self.spec_get(index as int) is None,
            },
    ;

    /// Cycles the sequence infinitely.
    fn cycle(self) -> (r: Cycle<Self>) where Self: Sized
        ensures
            r == (Cycle(self)),
    {
        Cycle(self)
    }

    /// Reverses the sequence.
    fn rev(self) -> (r: Reverse<Self>) where Self: Sized
        ensures
            r == (Reverse(self)),
    {
        Reverse(self)
    }
}

/// Splits a sequence into the two borrowed sub-views before and from `at`,
/// that is, `(s[..at], s[at..])`, or `None` if `at` is out of bounds.
pub fn split<S: Slice>(s: &S, at: usize) -> (r: Option<(SliceOf<&S>, SliceOf<&S>)>)
    requires
        s.wf(),
    ensures
        match r {
            Some((left, right)) => {
                &&& at as int <= s.spec_len()
                &&& left.wf()
                &&& right.wf()
                &&& left.data == s
                &&& right.data == s
                &&& left.start == 0
                &&& left.spec_len() == at as int
                &&& right.start == at
                &&& right.spec_len() == s.spec_len() - at
            },
            None => at as int > s.spec_len(),
        },
{
    Some((SliceOf::new(s, ViewRange::up_to(at))?, SliceOf::new(s, ViewRange::starting_at(at))?))
}

/// A [`Slice`] that can hand out owned copies of its elements.
pub trait SliceOwned: Slice {
    /// Indexes the sequence, returning an owned value, or `None` if the index
    /// is out of bounds.
    fn get_owned(&self, index: usize) -> (r: Option<Self::Output>)
        requires
            self.wf(),
        ensures
            r == self.spec_get(index as int),
    ;

    /// Collects the elements into a `Vec`, in index order. Every index below
    /// the length must hold an element.
    fn collect(&self) -> (r: Vec<Self::Output>)
        requires
            self.wf(),
            forall|i: int| 0 <= i < self.spec_len() ==> self.spec_get(i) is Some,
        ensures
            r@.len() as int == self.spec_len(),
            forall|i: int| 0 <= i < self.spec_len() ==> Some(#[trigger] r@[i]) == self.spec_get(i),
    {
        let n = self.len();
        let mut v: Vec<Self::Output> = Vec::new();
        let mut i: usize = 0;
        while i < n
            invariant
                self.wf(),
                forall|k: int| 0 <= k < self.spec_len() ==> self.spec_get(k) is Some,
                n as int == self.spec_len(),
                i <= n,
                v@.len() == i,
                forall|k: int| 0 <= k < i ==> Some(#[trigger] v@[k]) == self.spec_get(k),
            decreases n - i,
        {
            let x = match self.get_owned(i) {
                Some(x) => x,
                None => unreached(),
            };
            v.push(x);
            i += 1;
        }
        v
    }

    /// Collects the elements into a `Vec` of exactly `n` elements, or `None`
    /// if the length differs from `n`.
    fn try_array(&self, n: usize) -> (r: Option<Vec<Self::Output>>)
        requires
            self.wf(),
            self.spec_len() == n ==> forall|i: int|
                0 <= i < self.spec_len() ==> self.spec_get(i) is Some,
        ensures
            match r {
                Some(v) => {
                    &&& self.spec_len() == n
                    &&& v@.len() == n
                    &&& forall|i: int|
                        0 <= i < self.spec_len() ==> Some(#[trigger] v@[i]) == self.spec_get(i)
                },
                None => self.spec_len() != n,
            },
    {
        if self.len() != n {
            None
        } else {
            Some(self.collect())
        }
    }

}

/// A [`Slice`] that can hand out borrowed references to its elements.
pub trait SliceBorrowed: Slice {
    /// Indexes the sequence, returning a borrowed value, or `None` if the
    /// index is out of bounds.
    fn get(&self, index: usize) -> (r: Option<&Self::Output>)
        requires
            self.wf(),
        ensures
            match r {
                Some(x) => self.spec_get(index as int) == Some(*x),
                None => self.spec_get(index as int) is None,
            },
    ;

}

/// A [`Slice`] whose elements can be overwritten in place.
///
/// [`SliceMut::get_mut`] hands out a mutable borrow of the cell an in-bounds
/// index reaches; whatever the caller leaves behind the borrow is what every
/// index reaching that cell reads afterwards (for an aliasing view such as a
/// cycle, that is more than one index). [`SliceMut::set`] is the one-shot
/// form, overwriting the cell with a given value.
pub trait SliceMut: Slice {
    /// Indexes the sequence, returning a mutably borrowed value, or `None`
    /// if the index is out of bounds. On success, every index aliasing
    /// `index` afterwards reads the value the caller leaves behind the
    /// borrow; all other cells, the length and the aliasing structure are
    /// unchanged. On failure nothing changes.
    fn get_mut(&mut self, index: usize) -> (r: Option<&mut Self::Output>)
        requires
            old(self).wf(),
        ensures
            final(self).wf(),
            final(self).spec_len() == old(self).spec_len(),
            forall|i: int, j: int| #[trigger]
                final(self).spec_aliases(i, j) == old(self).spec_aliases(i, j),
            match r {
                Some(m) => {
                    &&& old(self).spec_get(index as int) == Some(*m)
                    &&& old(self).spec_aliases(index as int, index as int)
                    &&& forall|j: int| #[trigger]
                        final(self).spec_get(j) == (if old(self).spec_aliases(index as int, j) {
                            Some(*final(m))
                        } else {
                            old(self).spec_get(j)
                        })
                },
                None => {
                    &&& old(self).spec_get(index as int) is None
                    &&& forall|j: int| #[trigger] final(self).spec_get(j) == old(self).spec_get(j)
                },
            },
    ;

    /// Overwrites the element at `index` with `value`, returning whether the
    /// index was in bounds. On success, every index aliasing `index` now
    /// reads `value`; all other cells, the length and the aliasing structure
    /// are unchanged. On failure nothing changes.
    fn set(&mut self, index: usize, value: Self::Output) -> (r: bool)
        requires
            old(self).wf(),
        ensures
            final(self).wf(),
            final(self).spec_len() == old(self).spec_len(),
            r <==> old(self).spec_get(index as int) is Some,
            r ==> old(self).spec_aliases(index as int, index as int),
            forall|j: int| #[trigger]
                final(self).spec_get(j) == (if r && old(self).spec_aliases(index as int, j) {
                    Some(value)
                } else {
                    old(self).spec_get(j)
                }),
            forall|i: int, j: int| #[trigger]
                final(self).spec_aliases(i, j) == old(self).spec_aliases(i, j),
    {
        match self.get_mut(index) {
            Some(m) => {
                *m = value;
                true
            },
            None => false,
        }
    }

    /// Splits the sequence into two independently mutable views, the left one
    /// covering index `at` inclusive, or `None` if `at` is out of bounds.
    /// Requires [`Unique`]: two live mutable views are sound only when
    /// distinct indices never share a cell.
    fn split_mut(self, at: usize) -> (r: Option<SplitMut<Self>>) where Self: Sized + Unique
        requires
            self.wf(),
        ensures
            match r {
                Some(s) => {
                    &&& (at as int) < self.spec_len()
                    &&& s == (SplitMut { data: self, at })
                    &&& s.wf()
                    &&& s.spec_left_len() == at + 1
                    &&& s.spec_right_len() == self.spec_len() - at - 1
                },
                None => at as int >= self.spec_len(),
            },
    {
        SplitMut::new(self, at)
    }

    /// Copies every element of `src` into the matching index of `self`.
    /// The two lengths must agree, and `self` must accept every index that
    /// `src` provides; indices where `src` holds no element are left alone.
    /// Requires [`Unique`], so that each write lands on its own cell.
    fn copy_from_slice<S>(&mut self, src: &S) where
        Self: Sized + Unique,
        S: SliceOwned<Output = Self::Output>,

        requires
            old(self).wf(),
            src.wf(),
            old(self).spec_len() == src.spec_len(),
            forall|i: int|
                0 <= i < src.spec_len() && #[trigger] src.spec_get(i) is Some ==> old(
                    self,
                ).spec_get(i) is Some,
        ensures
            final(self).wf(),
            final(self).spec_len() == old(self).spec_len(),
            forall|j: int| #[trigger]
                final(self).spec_get(j) == (if 0 <= j < src.spec_len() && src.spec_get(j) is Some {
                    src.spec_get(j)
                } else {
                    old(self).spec_get(j)
                }),
    {
        let n = src.len();
        let mut i: usize = 0;
        while i < n
            invariant
                self.wf(),
                src.wf(),
                n as int == src.spec_len(),
                self.spec_len() == old(self).spec_len(),
                i <= n,
                forall|a: int, b: int| #[trigger]
                    self.spec_aliases(a, b) == old(self).spec_aliases(a, b),
                forall|a: int|
                    0 <= a < src.spec_len() && #[trigger] src.spec_get(a) is Some ==> old(
                        self,
                    ).spec_get(a) is Some,
                forall|j: int| #[trigger]
                    self.spec_get(j) == (if 0 <= j < i && src.spec_get(j) is Some {
                        src.spec_get(j)
                    } else {
                        old(self).spec_get(j)
                    }),
            decreases n - i,
        {
            match src.get_owned(i) {
                Some(x) => {
                    let ghost pre = *self;
                    let ok = self.set(i, x);
                    proof {
                        assert(ok);
                        assert forall|j: int|
                            pre.spec_aliases(i as int, j) implies j == i as int by {
                            pre.lemma_unique(i as int, j);
                        };
                    }
                },
                None => {},
            }
            i += 1;
        }
    }
}

/// The capability asserting that distinct indices never reach the same cell.
///
/// An implementer promises that the aliasing relation of the view is trivial:
/// two indices alias only when they are equal. This is what justifies handing
/// out two simultaneously live mutable views over disjoint index ranges
/// (see `SplitMut`), and what makes a contiguous backing sound.
pub trait Unique: Slice {
    /// Distinct indices never alias.
    proof fn lemma_unique(&self, i: int, j: int)
        requires
            self.wf(),
            self.spec_aliases(i, j),
        ensures
            i == j,
    ;
}

/// A [`SliceBorrowed`] whose backing is one flat region of memory.
///
/// The exposed slice behaves exactly like per-index access: it has the
/// sequence's length and holds the sequence's element at every index.
pub trait ContiguousBorrowed: SliceBorrowed + Unique {
    /// The contiguous backing of this sequence.
    fn contiguous(&self) -> (r: &[Self::Output])
        requires
            self.wf(),
        ensures
            r@.len() as int == self.spec_len(),
            forall|i: int|
                0 <= i < self.spec_len() ==> Some(#[trigger] r@[i]) == self.spec_get(i),
    ;
}

/// A [`SliceMut`] whose backing is one flat region of memory, exposed
/// mutably.
///
/// The exposed slice is the backing itself: it starts out holding the
/// sequence's elements, and whatever the caller leaves in it is what the
/// sequence holds afterwards.
pub trait ContiguousMut: SliceMut + Unique {
    /// The contiguous backing of this sequence, mutably.
    fn contiguous_mut(&mut self) -> (r: &mut [Self::Output])
        requires
            old(self).wf(),
        ensures
            r@.len() as int == old(self).spec_len(),
            forall|i: int|
                0 <= i < old(self).spec_len() ==> Some(#[trigger] r@[i]) == old(self).spec_get(i),
            final(self).wf(),
            final(self).spec_len() == final(r)@.len() as int,
            forall|i: int|
                0 <= i < final(r)@.len() ==> #[trigger] final(self).spec_get(i) == Some(
                    final(r)@[i],
                ),
            forall|i: int| !(0 <= i < final(r)@.len()) ==> #[trigger] final(self).spec_get(i) is None,
    ;
}

} // verus!
