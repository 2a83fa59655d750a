//! The adapters' index-arithmetic laws, stated and proved once for every
//! well-formed composition.

use vstd::prelude::*;

use crate::{Chain, Cycle, Interleave, Reverse, Slice, SliceOf, SplitMut, Windows, chunk_count};

verus! {

/// Chaining concatenates: the length is the sum of the two inner lengths,
/// and an index below the first length reads the first sequence while any
/// higher index reads the second, shifted down by the first length.
pub proof fn lemma_chain_spec<S1, S2>(c: Chain<S1, S2>, i: int) where
    S1: Slice,
    S2: Slice<Output = S1::Output>,

    requires
        c.wf(),
        0 <= i,
    ensures
        c.spec_len() == c.0.spec_len() + c.1.spec_len(),
        i < c.0.spec_len() ==> c.spec_get(i) == c.0.spec_get(i),
        i >= c.0.spec_len() ==> c.spec_get(i) == c.1.spec_get(i - c.0.spec_len()),
{
}

/// A cycle reports the unbounded sentinel length, and every index reads the
/// inner sequence at that index reduced modulo the inner length.
pub proof fn lemma_cycle_spec<S>(c: Cycle<S>, i: int) where S: Slice
    requires
        c.wf(),
        0 <= i,
    ensures
        c.spec_len() == usize::MAX as int,
        c.spec_get(i) == c.0.spec_get(i % c.0.spec_len()),
{
}

/// Reversal flips the index space: the length passes through, an index below
/// it reads the inner sequence at `len - 1 - i`, and any other index holds
/// nothing.
pub proof fn lemma_reverse_spec<S>(r: Reverse<S>, i: int) where S: Slice
    requires
        r.wf(),
    ensures
        r.spec_len() == r.0.spec_len(),
        0 <= i < r.0.spec_len() ==> r.spec_get(i) == r.0.spec_get(r.0.spec_len() - 1 - i),
        !(0 <= i < r.0.spec_len()) ==> r.spec_get(i) is None,
{
}

/// Interleaving alternates: the length is the sum of the two inner lengths,
/// even indices `2k` read the first sequence at `k` and odd indices `2k + 1`
/// read the second at `k`. (When the two inner lengths differ, the length
/// formula deliberately does not coincide with the set of indices holding an
/// element; the lookup rule here is exact either way.)
pub proof fn lemma_interleave_spec<S1, S2>(w: Interleave<S1, S2>, i: int) where
    S1: Slice,
    S2: Slice<Output = S1::Output>,

    requires
        w.wf(),
        0 <= i,
    ensures
        w.spec_len() == w.0.spec_len() + w.1.spec_len(),
        i % 2 == 0 ==> w.spec_get(i) == w.0.spec_get(i / 2),
        i % 2 == 1 ==> w.spec_get(i) == w.1.spec_get(i / 2),
{
}

/// A sub-view shifts the index space: its length is the cached span, an
/// index below it reads the wrapped sequence at `start + i`, and any other
/// index holds nothing.
pub proof fn lemma_slice_of_spec<A>(s: SliceOf<A>, i: int) where A: Slice
    requires
        s.wf(),
    ensures
        s.spec_len() == s.len as int,
        0 <= i < s.len ==> s.spec_get(i) == s.data.spec_get(s.start + i),
        !(0 <= i < s.len) ==> s.spec_get(i) is None,
{
}

/// The chunk count is the length divided by the chunk width, rounded up.
pub proof fn lemma_chunk_count_is_ceil(n: int, size: int)
    requires
        0 <= n,
        1 <= size,
    ensures
        chunk_count(n, size) == n / size + (if n % size == 0 {
            0int
        } else {
            1int
        }),
{
    let q = n / size;
    let r = n % size;
    vstd::arithmetic::div_mod::lemma_fundamental_div_mod(n, size);
    if r == 0 {
        assert(n + size - 1 == size * q + (size - 1));
        vstd::arithmetic::div_mod::lemma_div_multiples_vanish_fancy(q, size - 1, size);
    } else {
        assert(n + size - 1 == size * (q + 1) + (r - 1)) by (nonlinear_arith)
            requires
                n == size * q + r,
        ;
        vstd::arithmetic::div_mod::lemma_div_multiples_vanish_fancy(q + 1, r - 1, size);
    }
}

/// Each window is a sub-view of the wrapped sequence: window `w` spans the
/// `size` indices starting at `w`, so its element `k` is the wrapped
/// sequence's element at `w + k`; there are `len - size + 1` windows, and
/// none at all when the sequence is shorter than one window.
pub proof fn lemma_windows_spec<S>(ws: Windows<'_, S>, w: int, k: int) where S: Slice
    requires
        ws.wf(),
    ensures
        ws.spec_len() == (if ws.size as int > ws.data.spec_len() {
            0int
        } else {
            ws.data.spec_len() - ws.size + 1
        }),
        0 <= w < ws.spec_len() ==> (ws.spec_get(w) matches Some(v) && {
            &&& v.wf()
            &&& v.spec_len() == ws.size as int
            &&& (0 <= k < ws.size ==> v.spec_get(k) == ws.data.spec_get(w + k))
        }),
        !(0 <= w < ws.spec_len()) ==> ws.spec_get(w) is None,
{
}

/// A mutable split carves the sequence at the pivot: the left view spans the
/// `at + 1` indices up to and including the pivot and the right view the
/// rest, each reading the wrapped sequence at its own offset. (That a write
/// through one view leaves the other untouched is stated by the `set_left`
/// and `set_right` contracts themselves.)
pub proof fn lemma_split_mut_spec<S>(s: SplitMut<S>, i: int) where S: Slice
    requires
        s.wf(),
    ensures
        s.spec_left_len() == s.at + 1,
        s.spec_right_len() == s.data.spec_len() - s.at - 1,
        s.spec_left_len() + s.spec_right_len() == s.data.spec_len(),
        0 <= i <= s.at ==> s.spec_left_get(i) == s.data.spec_get(i),
        0 <= i < s.spec_right_len() ==> s.spec_right_get(i) == s.data.spec_get(s.at + 1 + i),
{
}

} // verus!
