//! Slices.
use goscript::array_obj::ArrayObj;
use goscript::heap::Heap;
use goscript::instruction::ValueType;
use goscript::slice_obj::{SliceObj, SliceRef};
use goscript::value::GosValue;

fn num(n: u64) -> GosValue {
    GosValue::Scalar(ValueType::Int, n)
}

fn ints(ns: &[u64]) -> Vec<GosValue> {
    ns.iter().map(|n| num(*n)).collect()
}

fn numbers(vals: &[GosValue]) -> Vec<u64> {
    vals.iter()
        .map(|v| match v {
            GosValue::Scalar(_, n) => *n,
            GosValue::Nil => 1000,
            _ => panic!("not a number"),
        })
        .collect()
}

fn elements(s: &SliceObj, heap: &Heap) -> Vec<u64> {
    numbers(&s.get_vec(heap))
}

#[test]
fn a_new_slice_has_room() {
    let mut heap = Heap::new();
    let s = SliceObj::new(2, 5, Some(&num(7)), &mut heap);
    assert_eq!((s.begin(), s.end(), s.len(), s.cap()), (0, 2, 2, 5));
    assert_eq!(elements(&s, &heap), vec![7, 7]);
    assert_eq!(heap.vec(s.vec).len(), 5);
    let none = SliceObj::new(0, 0, None, &mut heap);
    assert_eq!((none.len(), none.cap()), (0, 0));
}

#[test]
fn a_slice_of_an_array_shares_its_elements() {
    let mut heap = Heap::new();
    let a = ArrayObj::with_data(ints(&[1, 2, 3]), &mut heap);
    let s = SliceObj::with_array(&a, 1, -1, &heap);
    assert_eq!((s.begin(), s.end(), s.cap()), (1, 3, 3));
    s.set(0, num(9), &mut heap);
    assert_eq!(numbers(a.borrow_data(&heap)), vec![1, 9, 3]);
    let t = SliceObj::with_array(&a, 0, 2, &heap);
    assert_eq!(elements(&t, &heap), vec![1, 9]);
    assert_eq!(numbers(&[t.get(1, &heap).unwrap()]), vec![9]);
}

#[test]
fn pushing_fills_room_or_makes_it() {
    let mut heap = Heap::new();
    let mut s = SliceObj::new(1, 2, Some(&num(0)), &mut heap);
    s.push(num(5), &mut heap);
    assert_eq!(elements(&s, &heap), vec![0, 5]);
    assert_eq!(s.cap(), 2);
    s.push(num(6), &mut heap);
    assert_eq!(elements(&s, &heap), vec![0, 5, 6]);
    assert_eq!(s.cap(), 3);
    assert_eq!(heap.vec(s.vec).len(), 3);
}

#[test]
fn pushing_overwrites_what_follows() {
    let mut heap = Heap::new();
    let a = ArrayObj::with_data(ints(&[1, 2, 3]), &mut heap);
    let mut s = SliceObj::with_array(&a, 0, 1, &heap);
    s.push(num(8), &mut heap);
    assert_eq!(numbers(a.borrow_data(&heap)), vec![1, 8, 3]);
}

#[test]
fn appending_past_the_end_cuts_what_follows() {
    let mut heap = Heap::new();
    let a = ArrayObj::with_data(ints(&[1, 2, 3, 4]), &mut heap);
    let mut s = SliceObj::with_array(&a, 0, 2, &heap);
    let other = SliceObj::with_data(ints(&[7, 8]), &mut heap);
    s.append(&other, &mut heap);
    assert_eq!(elements(&s, &heap), vec![1, 2, 7, 8]);
    assert_eq!(heap.vec(s.vec).len(), 4);
    let more = SliceObj::with_data(ints(&[9, 9, 9]), &mut heap);
    s.append(&more, &mut heap);
    assert_eq!(elements(&s, &heap), vec![1, 2, 7, 8, 9, 9, 9]);
    assert_eq!(s.cap(), 7);
}

#[test]
fn appending_within_room_keeps_the_rest() {
    let mut heap = Heap::new();
    let a = ArrayObj::with_data(ints(&[1, 2, 3, 4]), &mut heap);
    let mut s = SliceObj::with_array(&a, 0, 1, &heap);
    let other = SliceObj::with_data(ints(&[7, 8]), &mut heap);
    s.append(&other, &mut heap);
    assert_eq!(numbers(a.borrow_data(&heap)), vec![1, 7, 8, 4]);
    assert_eq!((s.end(), s.cap()), (3, 4));
}

#[test]
fn copying_takes_as_many_as_both_have() {
    let mut heap = Heap::new();
    let s = SliceObj::with_data(ints(&[1, 2, 3]), &mut heap);
    let short = SliceObj::with_data(ints(&[8]), &mut heap);
    let long = SliceObj::with_data(ints(&[4, 5, 6, 7]), &mut heap);
    assert_eq!(s.copy_from(&short, &mut heap), 1);
    assert_eq!(elements(&s, &heap), vec![8, 2, 3]);
    assert_eq!(s.copy_from(&long, &mut heap), 3);
    assert_eq!(elements(&s, &heap), vec![4, 5, 6]);
}

#[test]
fn elements_behind_the_slice_can_be_read() {
    let mut heap = Heap::new();
    let s = SliceObj::new(1, 2, Some(&num(3)), &mut heap);
    assert!(s.get(1, &heap).is_some());
    assert!(s.get(2, &heap).is_none());
}

#[test]
fn slices_are_cut() {
    let mut heap = Heap::new();
    let s = SliceObj::with_data(ints(&[1, 2, 3, 4]), &mut heap);
    let t = s.slice(1, 3, -1, &mut heap);
    assert_eq!((t.begin(), t.end(), t.cap()), (1, 3, 3));
    assert_eq!(elements(&t, &heap), vec![2, 3]);
    let u = s.slice(0, -1, 6, &mut heap);
    assert_eq!(elements(&u, &heap), vec![1, 2, 3, 4]);
    assert_eq!(numbers(heap.vec(s.vec)), vec![1, 2, 3, 4, 1000, 1000]);
    assert_eq!(u.cap(), 6);
    t.set(0, num(7), &mut heap);
    assert_eq!(elements(&s, &heap), vec![1, 7, 3, 4]);
    s.set(2, num(8), &mut heap);
    assert_eq!(elements(&t, &heap), vec![7, 8]);
}

#[test]
fn the_start_is_counted_twice_when_cutting() {
    let mut heap = Heap::new();
    let s = SliceObj::with_data(ints(&[1, 2, 3, 4, 5]), &mut heap).slice(1, -1, -1, &mut heap);
    assert_eq!((s.begin(), s.end()), (1, 5));
    let t = s.slice(0, 2, -1, &mut heap);
    assert_eq!((t.begin(), t.end()), (2, 4));
}

#[test]
fn a_slice_takes_over_another() {
    let mut heap = Heap::new();
    let mut s = SliceObj::with_data(ints(&[1]), &mut heap);
    let vec = s.vec;
    let other = SliceObj::with_data(ints(&[4, 5, 6]), &mut heap).slice(1, -1, -1, &mut heap);
    s.set_from(&other, &mut heap);
    assert_eq!(s.vec, vec);
    assert_eq!(elements(&s, &heap), vec![5, 6]);
    other.set(0, num(0), &mut heap);
    assert_eq!(elements(&s, &heap), vec![5, 6]);
}

#[test]
fn references_read_the_window() {
    let mut heap = Heap::new();
    let s = SliceObj::with_data(ints(&[1, 2, 3]), &mut heap).slice(1, -1, -1, &mut heap);
    let r: SliceRef = s.borrow(&heap);
    assert_eq!(numbers(r.as_slice()), vec![2, 3]);
    assert_eq!(r.iter().count(), 2);
    assert!(r.get(1).is_some());
    assert!(r.get(2).is_none());
    assert!(r.index(0).eq(&num(2), &heap));
    s.borrow_all_data_mut(&mut heap)[2] = num(7);
    assert_eq!(elements(&s, &heap), vec![2, 7]);
}

#[test]
fn other_stores_are_left_alone() {
    let mut heap = Heap::new();
    let mut s = SliceObj::with_data(ints(&[1]), &mut heap);
    let t = SliceObj::with_data(ints(&[2]), &mut heap);
    s.push(num(3), &mut heap);
    s.set(0, num(4), &mut heap);
    s.append(&t, &mut heap);
    assert_eq!(elements(&t, &heap), vec![2]);
    assert_eq!(elements(&s, &heap), vec![4, 3, 2]);
}

#[test]
fn negative_ends_count_from_one_past_the_length() {
    let mut heap = Heap::new();
    let a = ArrayObj::with_data(ints(&[1, 2, 3]), &mut heap);
    assert_eq!(elements(&SliceObj::with_array(&a, 0, -1, &heap), &heap), vec![1, 2, 3]);
    assert_eq!(elements(&SliceObj::with_array(&a, 0, -2, &heap), &heap), vec![1, 2]);
    assert_eq!(elements(&SliceObj::with_array(&a, 1, -3, &heap), &heap), vec![]);
    assert_eq!(SliceObj::with_array(&a, 0, -4, &heap).end(), 0);
    let s = SliceObj::with_data(ints(&[1, 2, 3, 4]), &mut heap);
    assert_eq!(elements(&s.slice(1, -2, -1, &mut heap), &heap), vec![2, 3]);
    assert_eq!(s.slice(0, -5, -1, &mut heap).end(), 0);
}

#[test]
fn appending_to_a_slice_that_starts_past_its_end() {
    let mut heap = Heap::new();
    let a = ArrayObj::with_data(ints(&[1, 2, 3]), &mut heap);
    let mut s = SliceObj::with_array(&a, 2, 1, &heap);
    assert_eq!((s.begin(), s.end()), (2, 1));
    let other = SliceObj::with_data(ints(&[7, 8, 9]), &mut heap);
    s.append(&other, &mut heap);
    assert_eq!(numbers(a.borrow_data(&heap)), vec![1, 7, 8, 9]);
    assert_eq!((s.begin(), s.end(), s.cap()), (2, 4, 3));
}
