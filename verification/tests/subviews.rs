use slice_utils::{
    ContiguousBorrowed, ContiguousMut, RangeEdge, Slice, SliceBorrowed, SliceMut, SliceOf,
    SliceOwned, SplitMut, ViewRange, Windows, slices_equal, split,
};

#[test]
fn slice_bounds() {
    let data = [1, 2, 3, 4, 5];

    // The four bound-kind combinations, each validated by its own rule.
    let incl_incl = SliceOf::new(data, ViewRange::span_inclusive(1, 3)).unwrap();
    assert_eq!(incl_incl.len(), 3);
    assert_eq!(incl_incl.get_owned(0), Some(2));
    assert!(SliceOf::new(data, ViewRange::span_inclusive(1, 5)).is_none());
    assert!(SliceOf::new(data, ViewRange::span_inclusive(3, 2)).is_none());

    let incl_excl = SliceOf::new(data, ViewRange::span(1, 4)).unwrap();
    assert_eq!(incl_excl.len(), 3);
    assert_eq!(incl_excl.get_owned(2), Some(4));
    assert!(SliceOf::new(data, ViewRange::span(1, 6)).is_none());

    let excl_incl = SliceOf::new(
        data,
        ViewRange { start: RangeEdge::Excluded(1), end: RangeEdge::Included(3) },
    )
    .unwrap();
    assert_eq!(excl_incl.len(), 2);
    assert_eq!(excl_incl.get_owned(0), Some(3));

    let excl_excl = SliceOf::new(
        data,
        ViewRange { start: RangeEdge::Excluded(1), end: RangeEdge::Excluded(4) },
    )
    .unwrap();
    assert_eq!(excl_excl.len(), 2);
    assert_eq!(excl_excl.get_owned(0), Some(3));
    assert!(
        SliceOf::new(data, ViewRange { start: RangeEdge::Excluded(2), end: RangeEdge::Excluded(2) })
            .is_none()
    );

    // An empty sequence with an unbounded end must yield an empty view, not
    // an arithmetic underflow.
    let empty = SliceOf::new(Vec::<i32>::new(), ViewRange::all()).unwrap();
    assert_eq!(empty.len(), 0);
    assert!(empty.is_empty());

    let full = SliceOf::new(data, ViewRange::all()).unwrap();
    assert_eq!(full.len(), 5);
    assert_eq!(full.get_owned(4), Some(5));
    assert_eq!(full.get_owned(5), None);

    let tail = SliceOf::new(data, ViewRange::starting_at(3)).unwrap();
    assert!(slices_equal(&tail, &[4, 5]));
    let head = SliceOf::new(data, ViewRange::up_to(2)).unwrap();
    assert!(slices_equal(&head, &[1, 2]));
    let through = SliceOf::new(data, ViewRange::through(2)).unwrap();
    assert!(slices_equal(&through, &[1, 2, 3]));
}

#[test]
fn slice_of_slice() {
    let slice = SliceOf::new([1, 2, 3, 4, 5], ViewRange::span(1, 4)).unwrap();
    assert!(slices_equal(&slice, &[2, 3, 4]));
    let inner = SliceOf::new(slice, ViewRange::span(1, 3)).unwrap();
    assert!(slices_equal(&inner, &[3, 4]));
}

#[test]
fn split_halves() {
    let slice = [1, 2, 3, 4, 5, 6];
    let (a, b) = split(&slice, 3).unwrap();

    assert!(slices_equal(&a, &[1, 2, 3]));
    assert!(slices_equal(&b, &[4, 5, 6]));
    assert!(split(&slice, 7).is_none());
}

#[test]
fn split_of_empty() {
    let empty: Vec<i32> = Vec::new();
    let (a, b) = split(&empty, 0).unwrap();
    assert_eq!(a.len(), 0);
    assert_eq!(b.len(), 0);
    assert!(split(&empty, 1).is_none());
}

#[test]
fn sub_view_set() {
    let mut view = SliceOf::new([1, 2, 3, 4, 5], ViewRange::span(1, 4)).unwrap();
    assert!(view.set(0, 9));
    assert!(!view.set(3, 9));
    assert_eq!(view.data, [1, 9, 3, 4, 5]);
}

#[test]
fn copy_into_tail() {
    let mut x = SliceOf::new([1, 2, 3, 4, 5], ViewRange::starting_at(3)).unwrap();
    let y = [6, 7];

    x.copy_from_slice(&y);

    assert_eq!(x.data, [1, 2, 3, 6, 7]);
}

#[test]
fn split_mut_independent() {
    let s = SplitMut::new([1, 2, 3, 4, 5], 2).unwrap();
    assert_eq!(s.left_len(), 3);
    assert_eq!(s.right_len(), 2);
    assert_eq!(s.get_left(0), Some(&1));
    assert_eq!(s.get_left(2), Some(&3));
    assert_eq!(s.get_left(3), None);
    assert_eq!(s.get_right(0), Some(&4));
    assert_eq!(s.get_right_owned(1), Some(5));
    assert_eq!(s.get_right(2), None);

    // Mutating index 0 of each half must never contaminate the other half.
    let mut s = s;
    assert!(s.set_left(0, 0));
    assert_eq!(s.get_right(0), Some(&4));
    assert!(s.set_right(0, 0));
    assert_eq!(s.get_left_owned(0), Some(0));
    assert_eq!(s.get_left(1), Some(&2));

    *s.get_left_mut(1).unwrap() = 8;
    assert_eq!(s.get_right(1), Some(&5));
    *s.get_right_mut(1).unwrap() = 6;
    assert_eq!(s.get_left(1), Some(&8));
    assert!(s.get_left_mut(3).is_none());
    assert!(s.get_right_mut(2).is_none());

    assert_eq!(s.into_inner(), [0, 8, 3, 0, 6]);

    assert!(SplitMut::new([1, 2, 3], 3).is_none());
}

#[test]
fn split_mut_via_trait() {
    let s = [1, 2, 3, 4, 5].split_mut(2).unwrap();
    assert_eq!(s.left_len(), 3);
    assert_eq!(s.right_len(), 2);
}

#[test]
fn cycle_slice_windows() {
    // A sliding window over a periodic signal: slice a bounded stretch out of
    // the infinite repetition, then walk its overlapping windows. Each
    // position `p` of the repetition holds `signal[p mod 5]`, so positions
    // 4 through 10 hold 1, 1, 0, 0, 1, 1, 1 (position 10 reduces to
    // position 0, which holds 1).
    let signal = [1, 0, 0, 1, 1];
    let stretch = SliceOf::new(signal.cycle(), ViewRange::span(4, 11)).unwrap();

    assert_eq!(stretch.len(), 7);
    assert!(slices_equal(&stretch, &[1, 1, 0, 0, 1, 1, 1]));

    let mut windows = Windows::new(&stretch, 3);
    let expected: [[i32; 3]; 5] = [[1, 1, 0], [1, 0, 0], [0, 0, 1], [0, 1, 1], [1, 1, 1]];
    let mut sums: Vec<i32> = Vec::new();
    for row in expected.iter() {
        let w = windows.next().unwrap();
        assert!(slices_equal(&w, row));
        sums.push(w.collect().into_iter().sum());
    }
    assert!(windows.next().is_none());
    assert_eq!(sums, vec![2, 1, 1, 2, 3]);
}

#[test]
fn contiguous_backing() {
    let v = vec![1, 2, 3];
    assert_eq!(v.contiguous(), &[1, 2, 3]);
    assert_eq!([4, 5].contiguous(), &[4, 5]);
    assert_eq!((&v).contiguous(), &[1, 2, 3]);

    let mut w = vec![1, 2, 3];
    w.contiguous_mut().copy_from_slice(&[4, 5, 6]);
    assert_eq!(w, [4, 5, 6]);
}
