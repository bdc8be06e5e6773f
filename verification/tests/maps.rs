//! Maps.
use goscript::heap::Heap;
use goscript::instruction::ValueType;
use goscript::map_obj::MapObj;
use goscript::string_obj::StringObj;
use goscript::struct_obj::StructObj;
use goscript::value::GosValue;

fn num(n: u64) -> GosValue {
    GosValue::Scalar(ValueType::Int, n)
}

fn text(heap: &mut Heap, s: &str) -> GosValue {
    GosValue::Str(heap.alloc_str(StringObj::with_str(s.to_string())))
}

fn number(v: GosValue) -> u64 {
    match v {
        GosValue::Scalar(_, n) => n,
        _ => panic!("not a number"),
    }
}

#[test]
fn an_inserted_value_is_found() {
    let mut heap = Heap::new();
    let m = MapObj::new(num(0), &mut heap);
    assert_eq!(m.len(&heap), 0);
    assert!(m.insert(num(1), num(10), &mut heap).is_none());
    assert!(m.insert(num(2), num(20), &mut heap).is_none());
    assert_eq!(number(m.get(&num(1), &heap)), 10);
    assert_eq!(number(m.get(&num(2), &heap)), 20);
    assert_eq!(m.len(&heap), 2);
    assert_eq!(number(m.insert(num(1), num(11), &mut heap).unwrap()), 10);
    assert_eq!(number(m.get(&num(1), &heap)), 11);
    assert_eq!(number(m.get(&num(2), &heap)), 20);
    assert_eq!(m.len(&heap), 2);
}

#[test]
fn missing_keys_have_the_default_value() {
    let mut heap = Heap::new();
    let m = MapObj::new(num(99), &mut heap);
    assert_eq!(number(m.get(&num(1), &heap)), 99);
    assert!(m.try_get(&num(1), &heap).is_none());
    assert_eq!(m.len(&heap), 0);
}

#[test]
fn equal_strings_are_one_key() {
    let mut heap = Heap::new();
    let m = MapObj::new(num(0), &mut heap);
    let a = text(&mut heap, "key");
    let b = text(&mut heap, "key");
    let c = text(&mut heap, "other");
    m.insert(a, num(1), &mut heap);
    assert_eq!(number(m.try_get(&b, &heap).unwrap()), 1);
    assert!(m.try_get(&c, &heap).is_none());
    m.insert(b, num(2), &mut heap);
    assert_eq!(m.len(&heap), 1);
    assert!(matches!(m.borrow_data(&heap)[0].key, GosValue::Str(0)));
}

#[test]
fn keys_of_different_types_are_different() {
    let mut heap = Heap::new();
    let m = MapObj::new(num(0), &mut heap);
    m.insert(num(1), num(10), &mut heap);
    m.insert(GosValue::Scalar(ValueType::Int8, 1), num(20), &mut heap);
    assert_eq!(m.len(&heap), 2);
    assert_eq!(m.borrow_data(&heap)[0].hash, m.borrow_data(&heap)[1].hash);
    assert_eq!(number(m.get(&num(1), &heap)), 10);
}

#[test]
fn a_deleted_key_is_gone() {
    let mut heap = Heap::new();
    let m = MapObj::new(num(0), &mut heap);
    for i in 0..4 {
        m.insert(num(i), num(10 * i), &mut heap);
    }
    m.delete(&num(1), &mut heap);
    m.delete(&num(7), &mut heap);
    assert!(m.try_get(&num(1), &heap).is_none());
    assert_eq!(m.len(&heap), 3);
    assert_eq!(number(m.get(&num(3), &heap)), 30);
    let order: Vec<u64> = m.borrow_data(&heap).iter().map(|e| number(e.key)).collect();
    assert_eq!(order, vec![0, 2, 3]);
}

#[test]
fn touching_sets_the_default_value_once() {
    let mut heap = Heap::new();
    let m = MapObj::new(num(5), &mut heap);
    m.touch_key(&num(1), &mut heap);
    assert_eq!(number(m.try_get(&num(1), &heap).unwrap()), 5);
    m.insert(num(1), num(6), &mut heap);
    m.touch_key(&num(1), &mut heap);
    assert_eq!(number(m.get(&num(1), &heap)), 6);
    assert_eq!(m.len(&heap), 1);
}

#[test]
fn copies_of_a_map_share_entries() {
    let mut heap = Heap::new();
    let m = MapObj::new(num(0), &mut heap);
    let n = m.clone();
    m.insert(num(1), num(2), &mut heap);
    assert_eq!(number(n.get(&num(1), &heap)), 2);
    assert_eq!(m.clone_inner(), n.map);
    n.borrow_data_mut(&mut heap).clear();
    assert_eq!(m.len(&heap), 0);
}

#[test]
fn the_text_of_a_map_lists_its_entries() {
    let mut heap = Heap::new();
    let m = MapObj::new(num(0), &mut heap);
    let show = |v: &GosValue| format!("{}", number(*v));
    assert_eq!(m.fmt(&show, &heap), "map[]");
    m.insert(num(1), num(2), &mut heap);
    assert_eq!(m.fmt(&show, &heap), "map[1:2]");
    m.insert(num(3), num(4), &mut heap);
    assert_eq!(m.fmt(&show, &heap), "map[1:2 3:4]");
}

#[test]
fn a_key_has_what_the_last_call_left_there() {
    let mut heap = Heap::new();
    let m = MapObj::new(num(5), &mut heap);
    let a = text(&mut heap, "a");
    let again = text(&mut heap, "a");
    let b = text(&mut heap, "b");
    m.touch_key(&a, &mut heap);
    m.insert(b, num(1), &mut heap);
    assert_eq!(number(m.try_get(&again, &heap).unwrap()), 5);
    m.insert(again, num(2), &mut heap);
    m.touch_key(&a, &mut heap);
    assert_eq!(number(m.try_get(&a, &heap).unwrap()), 2);
    m.delete(&a, &mut heap);
    m.delete(&again, &mut heap);
    assert!(m.try_get(&again, &heap).is_none());
    assert_eq!(number(m.get(&again, &heap)), 5);
    assert_eq!(number(m.try_get(&b, &heap).unwrap()), 1);
    m.insert(a, num(3), &mut heap);
    m.touch_key(&b, &mut heap);
    assert_eq!(number(m.try_get(&again, &heap).unwrap()), 3);
    assert_eq!(number(m.try_get(&b, &heap).unwrap()), 1);
    assert_eq!(m.len(&heap), 2);
}

#[test]
fn keys_that_cannot_be_compared_may_share_a_map() {
    let mut heap = Heap::new();
    let m = MapObj::new(num(0), &mut heap);
    let long = GosValue::Struct(heap.alloc_struct(StructObj { fields: vec![num(1), num(2)] }));
    let short = GosValue::Struct(heap.alloc_struct(StructObj { fields: vec![num(1)] }));
    m.insert(short, num(10), &mut heap);
    m.insert(long, num(20), &mut heap);
    assert_eq!(m.len(&heap), 2);
    assert_eq!(number(m.get(&short, &heap)), 10);
    assert_eq!(number(m.get(&long, &heap)), 20);
}
