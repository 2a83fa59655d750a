use slice_utils::{ArrayChunks, ArrayWindows, Chunks, Slice, SliceOwned, Windows, slices_equal};

#[test]
fn chunks_concrete() {
    let data = [1, 2, 3, 4, 5];
    let mut iter = Chunks::new(&data, 2);

    assert!(slices_equal(&iter.next().unwrap(), &[1, 2]));
    assert!(slices_equal(&iter.next().unwrap(), &[3, 4]));
    assert!(slices_equal(&iter.next().unwrap(), &[5]));
    assert!(iter.next().is_none());

    assert!(Chunks::new_exact(&data, 2).is_none());
}

#[test]
fn chunk_counts() {
    // ceil(5 / 2) = 3 spans, all of width 2 except the last.
    let data = [1, 2, 3, 4, 5];
    let mut iter = Chunks::new(&data, 2);
    let mut spans: usize = 0;
    let mut last_len: usize = 0;
    while let Some(c) = iter.next() {
        last_len = c.len();
        if spans < 2 {
            assert_eq!(c.len(), 2);
        }
        spans += 1;
    }
    assert_eq!(spans, 3);
    assert_eq!(last_len, 1);

    // An exact division yields only full chunks.
    let even = [1, 2, 3, 4, 5, 6];
    let mut exact = Chunks::new_exact(&even, 2).unwrap();
    let mut full: usize = 0;
    while let Some(c) = exact.next() {
        assert_eq!(c.len(), 2);
        full += 1;
    }
    assert_eq!(full, 3);
}

#[test]
fn array_chunks_remainder() {
    let data = [1, 2, 3, 4, 5];
    let mut iter = ArrayChunks::<_, 2>::new(&data);

    assert_eq!(iter.next(), Some(vec![1, 2]));
    assert_eq!(iter.next(), Some(vec![3, 4]));
    assert!(iter.next().is_none());
    assert!(slices_equal(&iter.remainder(), &[5]));

    let even = [1, 2, 3, 4];
    let mut iter = ArrayChunks::<_, 2>::new(&even);
    assert_eq!(iter.next(), Some(vec![1, 2]));
    assert_eq!(iter.next(), Some(vec![3, 4]));
    assert!(iter.next().is_none());
    assert_eq!(iter.remainder().len(), 0);
}

#[test]
fn windows_cover() {
    // 5 - 3 + 1 = 3 windows, each shifted by one index.
    let data = [1, 2, 3, 4, 5];
    let mut windows = Windows::new(&data, 3);

    assert!(slices_equal(&windows.next().unwrap(), &[1, 2, 3]));
    assert!(slices_equal(&windows.next().unwrap(), &[2, 3, 4]));
    assert!(slices_equal(&windows.next().unwrap(), &[3, 4, 5]));
    assert!(windows.next().is_none());

    assert_eq!(windows.get_owned(1).map(|w| w.collect()), Some(vec![2, 3, 4]));
    assert_eq!(windows.get_owned(3).map(|w| w.collect()), None);

    // A window wider than the sequence yields no spans at all.
    assert_eq!(Windows::new(&data, 6).len(), 0);
    assert_eq!(Windows::new(&data, 5).len(), 1);
}

#[test]
fn array_windows_rows() {
    let data = [1, 2, 3, 4, 5];
    let mut windows = ArrayWindows::<_, 3>::new(&data);

    assert_eq!(windows.len(), 3);
    assert_eq!(windows.next(), Some(vec![1, 2, 3]));
    assert_eq!(windows.next(), Some(vec![2, 3, 4]));
    assert_eq!(windows.next(), Some(vec![3, 4, 5]));
    assert!(windows.next().is_none());
    assert_eq!(windows.get_owned(1), Some(vec![2, 3, 4]));
}
