//! A sequence computed by a closure on the index.

use vstd::prelude::*;

verus! {

/// A sequence that calls a closure on each index lookup.
///
/// The closure itself decides which indices hold an element, so this leaf
/// carries no model lookup function of its own: what is known of a result is
/// exactly what the closure's postcondition says of it. The stored length is
/// `usize::MAX`, the unbounded sentinel, when no length is given.
pub struct FromFn<F> {
    /// The closure computing each element.
    pub f: F,
    /// The reported length; `usize::MAX` when unbounded.
    pub len: usize,
}

impl<F, T> FromFn<F> where F: Fn(usize) -> Option<T> {
    /// Creates a sequence from a closure, with the given length, or unbounded
    /// when `len` is `None`.
    pub fn new(f: F, len: Option<usize>) -> (r: FromFn<F>)
        ensures
            r.f == f,
            r.len == (match len {
                Some(n) => n,
                None => usize::MAX,
            }),
    {
        let n = match len {
            Some(n) => n,
            None => usize::MAX,
        };
        FromFn { f, len: n }
    }

    /// Returns the stored length.
    pub fn len(&self) -> (n: usize)
        ensures
            n == self.len,
    {
        self.len
    }

    /// Returns whether the stored length is zero.
    pub fn is_empty(&self) -> (r: bool)
        ensures
            r == (self.len == 0),
    {
        self.len == 0
    }

    /// Indexes the sequence by running the closure on `index`.
    pub fn get_owned(&self, index: usize) -> (r: Option<T>)
        requires
            call_requires(self.f, (index,)),
        ensures
            call_ensures(self.f, (index,), r),
    {
        (self.f)(index)
    }

    /// Calls a visitor on the element the closure yields at `index`,
    /// returning the visitor's result, or `None` when the closure yields
    /// nothing there.
    pub fn get_with<W: Fn(&T) -> R, R>(&self, index: usize, w: &W) -> (r: Option<R>)
        requires
            call_requires(self.f, (index,)),
            forall|x: T|
                #[trigger] call_ensures(self.f, (index,), Some(x)) ==> call_requires(w, (&x,)),
        ensures
            match r {
                Some(res) => exists|x: T|
                    #[trigger] call_ensures(self.f, (index,), Some(x)) && call_ensures(
                        w,
                        (&x,),
                        res,
                    ),
                None => call_ensures(self.f, (index,), Option::<T>::None),
            },
    {
        match (self.f)(index) {
            Some(x) => Some(w(&x)),
            None => None,
        }
    }
}

/// Builds a sequence from an index-to-optional-element closure and an
/// optional fixed length; the length is unbounded when omitted.
pub fn from_fn<F, T>(f: F, len: Option<usize>) -> (r: FromFn<F>) where F: Fn(usize) -> Option<T>
    ensures
        r.f == f,
        r.len == (match len {
            Some(n) => n,
            None => usize::MAX,
        }),
{
    FromFn::new(f, len)
}

} // verus!
