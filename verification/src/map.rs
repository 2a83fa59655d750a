//! Element-wise transformation by a closure.

use vstd::prelude::*;

use crate::{Slice, SliceBorrowed, SliceOwned};

verus! {

/// A sequence that transforms each owned element through a closure on lookup.
///
/// The closure's behaviour cannot be captured by a model lookup function, so
/// this adapter does not join the capability traits: its contracts state the
/// wrapped sequence's element and the closure's postcondition on it.
pub struct MapOwned<S, F>(pub S, pub F);

impl<S, F, U> MapOwned<S, F> where S: SliceOwned, F: Fn(S::Output) -> U {
    /// Maps `f` over `data`, element by element, on access.
    pub fn new(data: S, f: F) -> (r: MapOwned<S, F>)
        ensures
            r == (MapOwned(data, f)),
    {
        MapOwned(data, f)
    }

    /// Returns the length of the underlying sequence.
    pub fn len(&self) -> (n: usize)
        requires
            self.0.wf(),
        ensures
            n as int == self.0.spec_len(),
    {
        self.0.len()
    }

    /// Indexes the underlying sequence and maps the element, or `None` if the
    /// index is out of bounds.
    pub fn get_owned(&self, index: usize) -> (r: Option<U>)
        requires
            self.0.wf(),
            self.0.spec_get(index as int) matches Some(v) ==> call_requires(self.1, (v,)),
        ensures
            match r {
                Some(u) => self.0.spec_get(index as int) matches Some(v) && call_ensures(
                    self.1,
                    (v,),
                    u,
                ),
                None => self.0.spec_get(index as int) is None,
            },
    {
        match self.0.get_owned(index) {
            Some(x) => Some((self.1)(x)),
            None => None,
        }
    }

    /// Calls a visitor on the mapped element at `index`, returning the
    /// visitor's result, or `None` if the index is out of bounds.
    pub fn get_with<W: Fn(&U) -> R, R>(&self, index: usize, w: &W) -> (r: Option<R>)
        requires
            self.0.wf(),
            self.0.spec_get(index as int) matches Some(v) ==> call_requires(self.1, (v,)),
            forall|v: S::Output, u: U|
                (self.0.spec_get(index as int) == Some(v) && #[trigger] call_ensures(
                    self.1,
                    (v,),
                    u,
                )) ==> call_requires(w, (&u,)),
        ensures
            match r {
                Some(res) => exists|v: S::Output, u: U|
                    {
                        &&& self.0.spec_get(index as int) == Some(v)
                        &&& #[trigger] call_ensures(self.1, (v,), u)
                        &&& call_ensures(w, (&u,), res)
                    },
                None => self.0.spec_get(index as int) is None,
            },
    {
        match self.get_owned(index) {
            Some(u) => Some(w(&u)),
            None => None,
        }
    }
}

/// A sequence that transforms each borrowed element through a closure on
/// lookup; the borrowed counterpart of [`MapOwned`].
pub struct MapBorrowed<S, F>(pub S, pub F);

impl<S, F, U> MapBorrowed<S, F> where S: SliceBorrowed, F: Fn(&S::Output) -> U {
    /// Maps `f` over `data`, element by element, on access.
    pub fn new(data: S, f: F) -> (r: MapBorrowed<S, F>)
        ensures
            r == (MapBorrowed(data, f)),
    {
        MapBorrowed(data, f)
    }

    /// Returns the length of the underlying sequence.
    pub fn len(&self) -> (n: usize)
        requires
            self.0.wf(),
        ensures
            n as int == self.0.spec_len(),
    {
        self.0.len()
    }

    /// Indexes the underlying sequence and maps a borrow of the element, or
    /// `None` if the index is out of bounds.
    pub fn get_owned(&self, index: usize) -> (r: Option<U>)
        requires
            self.0.wf(),
            self.0.spec_get(index as int) matches Some(v) ==> call_requires(self.1, (&v,)),
        ensures
            match r {
                Some(u) => self.0.spec_get(index as int) matches Some(v) && call_ensures(
                    self.1,
                    (&v,),
                    u,
                ),
                None => self.0.spec_get(index as int) is None,
            },
    {
        match self.0.get(index) {
            Some(x) => Some((self.1)(x)),
            None => None,
        }
    }

    /// Calls a visitor on the mapped element at `index`, returning the
    /// visitor's result, or `None` if the index is out of bounds.
    pub fn get_with<W: Fn(&U) -> R, R>(&self, index: usize, w: &W) -> (r: Option<R>)
        requires
            self.0.wf(),
            self.0.spec_get(index as int) matches Some(v) ==> call_requires(self.1, (&v,)),
            forall|v: S::Output, u: U|
                (self.0.spec_get(index as int) == Some(v) && #[trigger] call_ensures(
                    self.1,
                    (&v,),
                    u,
                )) ==> call_requires(w, (&u,)),
        ensures
            match r {
                Some(res) => exists|v: S::Output, u: U|
                    {
                        &&& self.0.spec_get(index as int) == Some(v)
                        &&& #[trigger] call_ensures(self.1, (&v,), u)
                        &&& call_ensures(w, (&u,), res)
                    },
                None => self.0.spec_get(index as int) is None,
            },
    {
        match self.get_owned(index) {
            Some(u) => Some(w(&u)),
            None => None,
        }
    }
}

} // verus!
