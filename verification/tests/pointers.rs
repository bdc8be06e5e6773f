//! Pointers, up values and stacks.
use goscript::array_obj::ArrayObj;
use goscript::heap::Heap;
use goscript::instruction::ValueType;
use goscript::keys::{FunctionKey, PackageKey};
use goscript::map_obj::MapObj;
use goscript::package_val::{PackageObjs, PackageVal};
use goscript::pointer_obj::PointerObj;
use goscript::slice_obj::SliceObj;
use goscript::stack::Stack;
use goscript::struct_obj::StructObj;
use goscript::upvalue::{UpValue, ValueDesc, WeakUpValue};
use goscript::value::GosValue;

fn num(n: u64) -> GosValue {
    GosValue::Scalar(ValueType::Int, n)
}

fn number(v: GosValue) -> u64 {
    match v {
        GosValue::Scalar(_, n) => n,
        _ => panic!("not a number"),
    }
}

fn none() -> PackageObjs {
    PackageObjs::with_capacity(1)
}

fn desc(index: i32, typ: ValueType, stack: usize, base: i32) -> ValueDesc {
    ValueDesc::new(FunctionKey { number: 1 }, index, typ, true).clone_with_stack(Some(stack), base)
}

#[test]
fn a_variable_is_found_on_the_running_stack() {
    let mut heap = Heap::new();
    let mut stack = Stack::new(0);
    for i in 0..5 {
        stack.push(num(i));
    }
    let d = desc(2, ValueType::Uint8, 0, 1);
    assert!(matches!(d.load(&stack, &heap), GosValue::Scalar(ValueType::Uint8, 3)));
    d.store(num(30), &mut stack, &mut heap);
    assert_eq!(number(stack.get_with_type(3, ValueType::Int)), 30);
    assert_eq!(number(stack.pop_with_type(ValueType::Int)), 4);
    assert_eq!(stack.slots.len(), 4);
}

#[test]
fn a_variable_is_found_on_another_stack() {
    let mut heap = Heap::new();
    let id = heap.alloc_stack(vec![num(7), num(8)]);
    let mut stack = Stack::new(55);
    let d = desc(1, ValueType::Int, id, 0);
    assert_eq!(number(d.load(&stack, &heap)), 8);
    d.store(num(9), &mut stack, &mut heap);
    assert_eq!(number(d.load(&stack, &heap)), 9);
    assert_eq!(number(heap.stack(id).unwrap()[0]), 7);
    heap.release_stack(id);
    assert!(heap.stack(id).is_none());
}

#[test]
fn an_up_value_follows_its_variable_until_it_is_closed() {
    let mut heap = Heap::new();
    let mut stack = Stack::new(0);
    stack.push(num(1));
    let uv = UpValue::new(desc(0, ValueType::Int, 0, 0), &mut heap);
    assert!(uv.is_open(&heap));
    assert_eq!(uv.desc(&heap).index, 0);
    uv.set_value(num(5), &mut stack, &mut heap);
    assert_eq!(number(stack.slots[0]), 5);
    assert_eq!(number(uv.value(&stack, &heap)), 5);
    let last = uv.value(&stack, &heap);
    uv.close(last, &mut heap);
    assert!(!uv.is_open(&heap));
    stack.set(0, num(6));
    assert_eq!(number(uv.value(&stack, &heap)), 5);
    uv.set_value(num(7), &mut stack, &mut heap);
    assert_eq!(number(uv.value(&stack, &heap)), 7);
    assert_eq!(number(stack.slots[0]), 6);
}

#[test]
fn a_weak_up_value_knows_whether_it_lives() {
    let mut heap = Heap::new();
    let uv = UpValue::new_closed(num(1), &mut heap);
    let weak = uv.downgrade();
    assert_eq!(weak.upgrade(&heap).unwrap().inner, uv.inner);
    heap.set_upvalue(uv.inner, None);
    assert!(weak.upgrade(&heap).is_none());
    assert!(WeakUpValue { inner: 9 }.upgrade(&heap).is_none());
}

#[test]
fn local_pointers_lead_to_their_values() {
    let heap = Heap::new();
    let stack = Stack::new(0);
    let pkgs = none();
    for val in [
        GosValue::Struct(1),
        GosValue::Array(2),
        GosValue::Slice(3),
        GosValue::GosMap(4),
    ] {
        let p = PointerObj::try_new_local(&val).unwrap();
        assert_eq!(format!("{:?}", p.deref(&stack, &pkgs, &heap)), format!("{:?}", val));
    }
    assert!(PointerObj::try_new_local(&num(1)).is_none());
    assert!(PointerObj::try_new_local(&GosValue::Nil).is_none());
}

#[test]
fn assigning_through_a_pointer_to_a_variable() {
    let mut heap = Heap::new();
    let mut stack = Stack::new(0);
    stack.push(num(1));
    let uv = UpValue::new(desc(0, ValueType::Int, 0, 0), &mut heap);
    let p = PointerObj::UpVal(uv);
    p.set_value(num(4), &mut stack, &none(), &mut heap);
    assert_eq!(number(p.deref(&stack, &none(), &heap)), 4);
}

#[test]
fn assigning_a_struct_copies_its_fields() {
    let mut heap = Heap::new();
    let mut stack = Stack::new(0);
    let inner = GosValue::Struct(heap.alloc_struct(StructObj { fields: vec![num(1)] }));
    let from = GosValue::Struct(heap.alloc_struct(StructObj { fields: vec![inner, num(2)] }));
    let to = heap.alloc_struct(StructObj { fields: vec![num(0), num(0)] });
    PointerObj::Struct(to).set_value(from, &mut stack, &none(), &mut heap);
    assert_eq!(number(heap.fields(to)[1]), 2);
    match heap.fields(to)[0] {
        GosValue::Struct(copy) => {
            assert_ne!(copy, 0);
            assert_eq!(number(heap.fields(copy)[0]), 1);
        }
        _ => panic!("not a struct"),
    }
}

#[test]
fn assigning_an_array_takes_its_elements_over() {
    let mut heap = Heap::new();
    let mut stack = Stack::new(0);
    let a = ArrayObj::with_data(vec![num(1)], &mut heap);
    let b = ArrayObj::with_data(vec![num(2)], &mut heap);
    let to = heap.alloc_array(a);
    let from = heap.alloc_array(b);
    PointerObj::Array(to).set_value(GosValue::Array(from), &mut stack, &none(), &mut heap);
    assert_eq!(number(a.get(0, &heap).unwrap()), 2);
}

#[test]
fn assigning_a_slice_takes_its_window_over() {
    let mut heap = Heap::new();
    let mut stack = Stack::new(0);
    let a = SliceObj::with_data(vec![num(1)], &mut heap);
    let b = SliceObj::with_data(vec![num(2), num(3)], &mut heap).slice(1, -1, -1, &mut heap);
    let to = heap.alloc_slice(a);
    let from = heap.alloc_slice(b);
    PointerObj::Slice(to).set_value(GosValue::Slice(from), &mut stack, &none(), &mut heap);
    let after = heap.slices[to].obj;
    assert_eq!((after.begin, after.end, after.vec), (1, 2, a.vec));
    assert_eq!(number(after.get(0, &heap).unwrap()), 3);
}

#[test]
fn assigning_a_map_takes_its_entries_over() {
    let mut heap = Heap::new();
    let mut stack = Stack::new(0);
    let a = MapObj::new(num(0), &mut heap);
    let b = MapObj::new(num(0), &mut heap);
    b.insert(num(1), num(2), &mut heap);
    let to = heap.alloc_map(a);
    let from = heap.alloc_map(b);
    PointerObj::GosMap(to).set_value(GosValue::GosMap(from), &mut stack, &none(), &mut heap);
    assert_eq!(number(a.get(&num(1), &heap)), 2);
    b.delete(&num(1), &mut heap);
    assert_eq!(a.len(&heap), 1);
}

#[test]
fn assigning_an_element_a_field_and_a_member() {
    let mut heap = Heap::new();
    let mut stack = Stack::new(0);
    let s = SliceObj::with_data(vec![num(1), num(2)], &mut heap);
    let p = PointerObj::SliceMember(heap.alloc_slice(s), 1);
    p.set_value(num(9), &mut stack, &none(), &mut heap);
    assert_eq!(number(p.deref(&stack, &none(), &heap)), 9);

    let id = heap.alloc_struct(StructObj { fields: vec![num(1), num(2)] });
    let p = PointerObj::StructField(id, 0);
    p.set_value(num(8), &mut stack, &none(), &mut heap);
    assert_eq!(number(p.deref(&stack, &none(), &heap)), 8);
    assert_eq!(number(heap.fields(id)[1]), 2);

    let mut pkgs = none();
    let mut pkg = PackageVal::new("main".to_string());
    pkg.add_member("x".to_string(), num(1), ValueType::Int, &mut heap);
    let key: PackageKey = pkgs.insert(pkg);
    let p = PointerObj::PkgMember(key, 0);
    p.set_value(num(7), &mut stack, &pkgs, &mut heap);
    assert_eq!(number(p.deref(&stack, &pkgs, &heap)), 7);
}

#[test]
fn an_element_of_a_later_window_is_written_further_on() {
    let mut heap = Heap::new();
    let mut stack = Stack::new(0);
    let s = SliceObj::with_data(vec![num(0), num(1), num(2), num(3)], &mut heap).slice(
        1, -1, -1, &mut heap,
    );
    let p = PointerObj::SliceMember(heap.alloc_slice(s), 0);
    assert_eq!(number(p.deref(&stack, &none(), &heap)), 1);
    p.set_value(num(9), &mut stack, &none(), &mut heap);
    assert_eq!(number(p.deref(&stack, &none(), &heap)), 1);
    assert_eq!(number(heap.vec(s.vec)[2]), 9);
}

#[test]
fn a_pointer_at_an_array_element_goes_through_a_slice() {
    let mut heap = Heap::new();
    let mut stack = Stack::new(0);
    let a = ArrayObj::with_data(vec![num(1), num(2)], &mut heap);
    let val = GosValue::Array(heap.alloc_array(a));
    let p = PointerObj::new_array_member(&val, 1, &mut heap);
    assert!(matches!(p, PointerObj::SliceMember(0, 1)));
    assert_eq!(number(p.deref(&stack, &none(), &heap)), 2);
    p.set_value(num(5), &mut stack, &none(), &mut heap);
    assert_eq!(number(a.get(1, &heap).unwrap()), 5);
    assert_eq!(heap.slices[0].obj.cap(), 2);
}

#[test]
fn the_text_of_a_pointer_says_where_it_points() {
    assert_eq!(PointerObj::Struct(0).fmt(), "0x0");
    assert_eq!(PointerObj::Array(15).fmt(), "0xf");
    assert_eq!(PointerObj::Slice(16).fmt(), "0x10");
    assert_eq!(PointerObj::GosMap(0xbeef).fmt(), "0xbeef");
    assert_eq!(PointerObj::UpVal(UpValue { inner: 255 }).fmt(), "0xff");
    assert_eq!(PointerObj::SliceMember(26, 120).fmt(), "0x1ai120");
    assert_eq!(PointerObj::StructField(1, -7).fmt(), "0x1i-7");
    assert_eq!(PointerObj::StructField(1, i32::MIN).fmt(), "0x1i-2147483648");
    let key = PackageKey { number: 0x1_0000_0002 };
    assert_eq!(PointerObj::PkgMember(key, 3).fmt(), "100000002i3");
}

#[test]
fn an_element_pointer_sees_what_is_written_later() {
    let mut heap = Heap::new();
    let stack = Stack::new(0);
    let a = ArrayObj::with_data(vec![num(1), num(2), num(3)], &mut heap);
    let val = GosValue::Array(heap.alloc_array(a));
    let p = PointerObj::new_array_member(&val, 2, &mut heap);
    let q = PointerObj::new_array_member(&val, 0, &mut heap);
    heap.vec_mut(a.vec)[2] = num(30);
    SliceObj::with_data(vec![num(8)], &mut heap);
    assert_eq!(number(p.deref(&stack, &none(), &heap)), 30);
    assert_eq!(number(q.deref(&stack, &none(), &heap)), 1);
}
