//! Cursor-based walks over a sequence, front to back and back to front.

use vstd::prelude::*;

use crate::{Slice, SliceBorrowed, SliceOwned};

verus! {

/// A walk over an owned sequence, yielding owned elements.
///
/// Two cursors close in on each other: `next` yields the element at `start`
/// and moves it up, `next_back` the element just below `end` and moves it
/// down. The walk ends when the cursors meet; a walk is restarted only by
/// constructing a new one. An index holding no element stops the walk on the
/// spot, without moving the front cursor (the back cursor has already moved
/// when the miss is discovered, as the probe sits below it).
pub struct IterOwned<S> {
    /// The sequence being walked.
    pub data: S,
    /// The front cursor: the next index `next` yields.
    pub start: usize,
    /// The back cursor: one past the next index `next_back` yields.
    pub end: usize,
}

impl<S> IterOwned<S> where S: SliceOwned {
    /// Well-formedness: the sequence is well formed and the cursors are
    /// ordered within it.
    pub open spec fn wf(&self) -> bool {
        &&& self.data.wf()
        &&& self.start <= self.end
        &&& self.end <= self.data.spec_len()
    }

    /// Creates a walk over all of `data`.
    pub fn new(data: S) -> (r: IterOwned<S>)
        requires
            data.wf(),
        ensures
            r.data == data,
            r.start == 0,
            r.end as int == data.spec_len(),
            r.wf(),
    {
        let end = data.len();
        IterOwned { data, start: 0, end }
    }

    /// Yields the element at the front cursor and advances it, or `None`
    /// when the cursors have met or the index holds no element.
    pub fn next(&mut self) -> (r: Option<S::Output>)
        requires
            old(self).wf(),
        ensures
            final(self).wf(),
            final(self).data == old(self).data,
            final(self).end == old(self).end,
            match r {
                Some(x) => {
                    &&& old(self).start < old(self).end
                    &&& old(self).data.spec_get(old(self).start as int) == Some(x)
                    &&& final(self).start == old(self).start + 1
                },
                None => {
                    &&& old(self).start == old(self).end || old(self).data.spec_get(
                        old(self).start as int,
                    ) is None
                    &&& final(self).start == old(self).start
                },
            },
    {
        if self.start == self.end {
            None
        } else {
            match self.data.get_owned(self.start) {
                Some(x) => {
                    self.start = self.start + 1;
                    Some(x)
                },
                None => None,
            }
        }
    }

    /// Yields the element just below the back cursor and retreats it, or
    /// `None` when the cursors have met; the cursor retreats even when the
    /// probed index holds no element.
    pub fn next_back(&mut self) -> (r: Option<S::Output>)
        requires
            old(self).wf(),
        ensures
            final(self).wf(),
            final(self).data == old(self).data,
            final(self).start == old(self).start,
            match r {
                Some(x) => {
                    &&& old(self).start < old(self).end
                    &&& old(self).data.spec_get(old(self).end - 1) == Some(x)
                    &&& final(self).end == old(self).end - 1
                },
                None => {
                    &&& old(self).start == old(self).end || old(self).data.spec_get(
                        old(self).end - 1,
                    ) is None
                    &&& old(self).start == old(self).end ==> final(self).end == old(self).end
                    &&& old(self).start < old(self).end ==> final(self).end == old(self).end - 1
                },
            },
    {
        if self.start == self.end {
            None
        } else {
            self.end = self.end - 1;
            self.data.get_owned(self.end)
        }
    }
}

/// A walk over a borrowed sequence, yielding borrowed elements; the borrowed
/// counterpart of [`IterOwned`].
pub struct IterBorrowed<'a, S> {
    /// The sequence being walked.
    pub data: &'a S,
    /// The front cursor: the next index `next` yields.
    pub start: usize,
    /// The back cursor: one past the next index `next_back` yields.
    pub end: usize,
}

impl<'a, S> IterBorrowed<'a, S> where S: SliceBorrowed {
    /// Well-formedness: the sequence is well formed and the cursors are
    /// ordered within it.
    pub open spec fn wf(&self) -> bool {
        &&& self.data.wf()
        &&& self.start <= self.end
        &&& self.end <= self.data.spec_len()
    }

    /// Creates a walk over all of `data`.
    pub fn new(data: &'a S) -> (r: IterBorrowed<'a, S>)
        requires
            data.wf(),
        ensures
            r.data == data,
            r.start == 0,
            r.end as int == data.spec_len(),
            r.wf(),
    {
        let end = data.len();
        IterBorrowed { data, start: 0, end }
    }

    /// Yields a borrow of the element at the front cursor and advances it,
    /// or `None` when the cursors have met or the index holds no element.
    pub fn next(&mut self) -> (r: Option<&'a S::Output>)
        requires
            old(self).wf(),
        ensures
            final(self).wf(),
            final(self).data == old(self).data,
            final(self).end == old(self).end,
            match r {
                Some(x) => {
                    &&& old(self).start < old(self).end
                    &&& old(self).data.spec_get(old(self).start as int) == Some(*x)
                    &&& final(self).start == old(self).start + 1
                },
                None => {
                    &&& old(self).start == old(self).end || old(self).data.spec_get(
                        old(self).start as int,
                    ) is None
                    &&& final(self).start == old(self).start
                },
            },
    {
        if self.start == self.end {
            None
        } else {
            let d = self.data;
            match d.get(self.start) {
                Some(x) => {
                    self.start = self.start + 1;
                    Some(x)
                },
                None => None,
            }
        }
    }

    /// Yields a borrow of the element just below the back cursor and
    /// retreats it, or `None` when the cursors have met; the cursor retreats
    /// even when the probed index holds no element.
    pub fn next_back(&mut self) -> (r: Option<&'a S::Output>)
        requires
            old(self).wf(),
        ensures
            final(self).wf(),
            final(self).data == old(self).data,
            final(self).start == old(self).start,
            match r {
                Some(x) => {
                    &&& old(self).start < old(self).end
                    &&& old(self).data.spec_get(old(self).end - 1) == Some(*x)
                    &&& final(self).end == old(self).end - 1
                },
                None => {
                    &&& old(self).start == old(self).end || old(self).data.spec_get(
                        old(self).end - 1,
                    ) is None
                    &&& old(self).start == old(self).end ==> final(self).end == old(self).end
                    &&& old(self).start < old(self).end ==> final(self).end == old(self).end - 1
                },
            },
    {
        if self.start == self.end {
            None
        } else {
            self.end = self.end - 1;
            let d = self.data;
            d.get(self.end)
        }
    }
}

} // verus!
