use slice_utils::{
    Chain, FromFn, Interleave, IterBorrowed, IterOwned, MapBorrowed, MapOwned, Reverse,
    Slice, SliceBorrowed, SliceMut, SliceOwned, Zip, from_fn, slices_equal,
};

fn foo<S: SliceBorrowed<Output = i32>>(s: S) {
    assert_eq!(s.get(0), Some(&1));
}

fn bar<S: SliceOwned<Output = i32>>(s: S) {
    assert_eq!(s.cycle().get_owned(4), Some(2));
}

#[test]
fn slices() {
    foo(&[1, 2, 3]);
    bar(&[1, 2, 3]);

    assert_eq!((&[1, 2, 3]).rev().get(0), Some(&3));
}

#[test]
fn mutability() {
    let slice = [1, 2, 3];
    let mut cycle = slice.cycle();
    *cycle.get_mut(2).unwrap() = 0;

    assert_eq!(cycle.0, [1, 2, 0]);
}

#[test]
fn mutation_routes_through_adapters() {
    let mut chained = Chain::new([1, 2], [3, 4]);
    *chained.get_mut(3).unwrap() = 9;
    assert!(chained.get_mut(4).is_none());
    assert_eq!(chained.1, [3, 9]);

    let mut reversed = [1, 2, 3].rev();
    assert!(reversed.set(0, 9));
    assert_eq!(reversed.0, [1, 2, 9]);

    let mut wrapped = [1, 2, 3].cycle();
    assert!(wrapped.set(4, 7));
    assert_eq!(wrapped.0, [1, 7, 3]);
}

#[test]
fn ranges() {
    let range = 1..5;
    assert_eq!(range.get_owned(0), Some(1));
    assert_eq!(range.get_owned(3), Some(4));
    assert_eq!(range.get_owned(4), None);
    assert_eq!(Slice::rev(range).get_owned(0), Some(4));
}

#[test]
fn chain_routes_indices() {
    let a = [1, 2, 3];
    let b = [4, 5, 6];
    let c = Chain::new(a, b);

    assert_eq!(c.len(), 6);
    for i in 0..6usize {
        assert_eq!(c.get_owned(i), Some(i as i32 + 1));
    }
    assert_eq!(c.get_owned(6), None);
    assert!(slices_equal(&c, &[1, 2, 3, 4, 5, 6]));
}

#[test]
fn cycle_wraps() {
    let slice = [1, 2, 3].cycle();
    assert_eq!(slice.len(), usize::MAX);
    assert_eq!(slice.get_owned(2), Some(3));
    assert_eq!(slice.get_owned(4), Some(2));
    assert_eq!(slice.get_owned(6), Some(1));
}

#[test]
fn reverse_flips() {
    let r = [1, 2, 3].rev();
    assert_eq!(r.len(), 3);
    assert_eq!(r.get_owned(0), Some(3));
    assert_eq!(r.get_owned(1), Some(2));
    assert_eq!(r.get_owned(2), Some(1));
    assert_eq!(r.get_owned(3), None);

    let empty = Reverse(Vec::<i32>::new());
    assert_eq!(empty.len(), 0);
    assert_eq!(empty.get_owned(0), None);
}

#[test]
fn interleave_alternates() {
    let a = [1, 2, 3];
    let b = [4, 5, 6];
    let c = Interleave::new(a, b);

    assert!(slices_equal(&c, &[1, 4, 2, 5, 3, 6]));
}

#[test]
fn interleave_length_caveat() {
    // With unequal inner lengths the documented length formula overcounts:
    // an index below len() can hold nothing, and one at or past len() can
    // still hold an element of the longer side.
    let c = Interleave([1, 2, 3], [4]);
    assert_eq!(c.len(), 4);
    assert_eq!(c.get_owned(0), Some(1));
    assert_eq!(c.get_owned(1), Some(4));
    assert_eq!(c.get_owned(2), Some(2));
    assert_eq!(c.get_owned(3), None);
    assert_eq!(c.get_owned(4), Some(3));
}

#[test]
fn zip_pairs() {
    let a = [1, 2, 3];
    let b = [4, 5, 6, 7];
    let z = Zip::new(a, b);

    assert_eq!(z.len(), 3);
    assert_eq!(z.get_owned(0), Some((1, 4)));
    assert_eq!(z.get_owned(2), Some((3, 6)));
    assert_eq!(z.get_owned(3), None);
}

#[test]
fn from_fn_squares() {
    let slice = from_fn(|i: usize| Some(i * i), Some(5));
    assert_eq!(slice.len(), 5);
    assert_eq!(slice.get_owned(0), Some(0));
    assert_eq!(slice.get_owned(4), Some(16));

    let unbounded = FromFn::new(|i: usize| if i < 3 { Some(i) } else { None }, None);
    assert_eq!(unbounded.len(), usize::MAX);
    assert_eq!(unbounded.get_owned(2), Some(2));
    assert_eq!(unbounded.get_owned(3), None);
}

#[test]
fn map_on_access() {
    let squares = MapOwned::new([1, 2, 3], |x: i32| x * x);
    assert_eq!(squares.len(), 3);
    assert_eq!(squares.get_owned(1), Some(4));
    assert_eq!(squares.get_owned(3), None);

    let flags = MapBorrowed::new([0, 1, 2], |x: &i32| *x != 0);
    assert_eq!(flags.get_owned(0), Some(false));
    assert_eq!(flags.get_owned(2), Some(true));
}

#[test]
fn get_with_visits() {
    let c = Chain::new([1, 2], [3]);
    assert_eq!(c.get_with(2, &(|x: &i32| x + 10)), Some(13));
    assert_eq!(c.get_with(3, &(|x: &i32| x + 10)), None);
    assert!(!c.is_empty());
}

#[test]
fn collect_and_try_array() {
    let c = Chain::new([1, 2], [3]);
    assert_eq!(c.collect(), vec![1, 2, 3]);
    assert_eq!(c.try_array(3), Some(vec![1, 2, 3]));
    assert_eq!(c.try_array(4), None);
}

#[test]
fn equality_is_elementwise() {
    let a = Chain::new([1, 2], [3]);
    assert!(slices_equal(&a, &[1, 2, 3]));
    assert!(!slices_equal(&a, &[1, 2]));
    assert!(!slices_equal(&a, &[1, 2, 4]));
}

#[test]
fn iteration_stops_at_holes() {
    // An interleave of unequal sides has an index holding nothing below its
    // length; the forward walk stops there for good, without advancing.
    let mut it = IterOwned::new(Interleave::new([1, 2, 3], [9]));
    assert_eq!(it.next(), Some(1));
    assert_eq!(it.next(), Some(9));
    assert_eq!(it.next(), Some(2));
    assert_eq!(it.next(), None);
    assert_eq!(it.next(), None);
}

#[test]
fn iterators_walk() {
    let mut it = IterOwned::new(Chain::new([1, 2], [3]));
    assert_eq!(it.next(), Some(1));
    assert_eq!(it.next(), Some(2));
    assert_eq!(it.next(), Some(3));
    assert_eq!(it.next(), None);

    let chained = Chain::new([1, 2], [3]);
    let mut it = IterBorrowed::new(&chained);
    assert_eq!(it.next(), Some(&1));
    assert_eq!(it.next_back(), Some(&3));
    assert_eq!(it.next(), Some(&2));
    assert_eq!(it.next(), None);
    assert_eq!(it.next_back(), None);
}
