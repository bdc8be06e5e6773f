//! Comparing, hashing and copying values.
use goscript::array_obj::ArrayObj;
use goscript::heap::Heap;
use goscript::instruction::ValueType;
use goscript::interface_obj::{InterfaceObj, UnderlyingFfi};
use goscript::keys::{FunctionKey, MetadataKey, PackageKey};
use goscript::metadata::Meta;
use goscript::pointer_obj::{PointerHandle, PointerObj, UnsafeData, UnsafePtr, UserData};
use goscript::slice_obj::SliceObj;
use goscript::string_obj::StringObj;
use goscript::struct_obj::StructObj;
use goscript::upvalue::{UpValue, UpValueState, ValueDesc};
use goscript::value::GosValue;
use std::collections::hash_map::DefaultHasher;
use std::hash::Hasher;

fn num(n: u64) -> GosValue {
    GosValue::Scalar(ValueType::Int, n)
}

fn text(heap: &mut Heap, s: &str) -> GosValue {
    GosValue::Str(heap.alloc_str(StringObj::with_str(s.to_string())))
}

fn array(heap: &mut Heap, vals: Vec<GosValue>) -> GosValue {
    let obj = ArrayObj::with_data(vals, heap);
    GosValue::Array(heap.alloc_array(obj))
}

fn record(heap: &mut Heap, fields: Vec<GosValue>) -> GosValue {
    GosValue::Struct(heap.alloc_struct(StructObj { fields }))
}

fn iface(heap: &mut Heap, v: GosValue) -> GosValue {
    GosValue::Interface(heap.alloc_iface(InterfaceObj::Gos(v, None)))
}

fn ffi(heap: &mut Heap, n: usize) -> GosValue {
    GosValue::Interface(heap.alloc_iface(InterfaceObj::Ffi(UnderlyingFfi::new(n, vec![]))))
}

fn desc(index: i32) -> ValueDesc {
    ValueDesc::new(FunctionKey { number: 1 }, index, ValueType::Int, true)
}

#[test]
fn flat_values_are_equal_if_they_are_the_same() {
    let heap = Heap::new();
    assert!(GosValue::Nil.eq(&GosValue::new_nil(), &heap));
    assert!(num(4).eq(&num(4), &heap));
    assert!(!num(4).eq(&num(5), &heap));
    assert!(!num(4).eq(&GosValue::Scalar(ValueType::Uint, 4), &heap));
    assert!(!num(0).eq(&GosValue::Nil, &heap));
    let f = GosValue::Function(FunctionKey { number: 3 });
    assert!(f.eq(&f, &heap));
    assert!(!f.eq(&GosValue::Package(PackageKey { number: 3 }), &heap));
    let m = GosValue::Metadata(Meta { key: MetadataKey { number: 9 } });
    assert!(m.eq(&m, &heap));
}

#[test]
fn strings_are_equal_if_they_read_the_same() {
    let mut heap = Heap::new();
    let a = text(&mut heap, "go");
    let b = text(&mut heap, "go");
    let c = text(&mut heap, "gos");
    assert!(a.eq(&b, &heap));
    assert!(!a.eq(&c, &heap));
}

#[test]
fn arrays_are_equal_by_elements() {
    let mut heap = Heap::new();
    let a = array(&mut heap, vec![num(1), num(2)]);
    let b = array(&mut heap, vec![num(1), num(2)]);
    let c = array(&mut heap, vec![num(1)]);
    let d = array(&mut heap, vec![num(1), num(3)]);
    assert!(a.eq(&b, &heap));
    assert!(!a.eq(&c, &heap));
    assert!(!a.eq(&d, &heap));
    let x = array(&mut heap, vec![a, c]);
    let y = array(&mut heap, vec![b, c]);
    assert!(x.eq(&y, &heap));
    let same = |p: &ArrayObj, q: &ArrayObj| p.eq(q, &heap);
    assert!(same(&heap.arrays[0].obj, &heap.arrays[1].obj));
    assert!(!same(&heap.arrays[0].obj, &heap.arrays[2].obj));
}

#[test]
fn structs_are_equal_as_far_as_the_first_has_fields() {
    let mut heap = Heap::new();
    let a = record(&mut heap, vec![num(1), num(2)]);
    let b = record(&mut heap, vec![num(1), num(2), num(3)]);
    let c = record(&mut heap, vec![num(1), num(9)]);
    assert!(a.eq(&b, &heap));
    assert!(!a.eq(&c, &heap));
    let p = StructObj { fields: vec![num(1)] };
    let q = StructObj { fields: vec![num(1), num(2)] };
    assert!(p.eq(&q, &heap));
}

#[test]
fn interfaces_are_equal_by_what_they_hold() {
    let mut heap = Heap::new();
    let a = iface(&mut heap, num(1));
    let b = iface(&mut heap, num(1));
    let c = iface(&mut heap, num(2));
    let f = ffi(&mut heap, 7);
    let g = ffi(&mut heap, 7);
    let k = ffi(&mut heap, 8);
    assert!(a.eq(&b, &heap));
    assert!(!a.eq(&c, &heap));
    assert!(f.eq(&g, &heap));
    assert!(!f.eq(&k, &heap));
    assert!(!a.eq(&f, &heap));
    assert!(heap.ifaces[0].obj.eq(&heap.ifaces[1].obj, &heap));
    assert!(!heap.ifaces[0].obj.eq(&heap.ifaces[3].obj, &heap));
    assert!(heap.ifaces[0].obj.underlying_value().is_some());
    assert!(heap.ifaces[3].obj.underlying_value().is_none());
}

#[test]
fn slices_maps_and_channels_are_equal_only_to_themselves() {
    let mut heap = Heap::new();
    let s = SliceObj::with_data(vec![num(1)], &mut heap);
    let a = GosValue::Slice(heap.alloc_slice(s));
    let b = GosValue::Slice(heap.alloc_slice(s));
    assert!(a.eq(&a, &heap));
    assert!(!a.eq(&b, &heap));
    assert!(GosValue::Channel(3).eq(&GosValue::Channel(3), &heap));
    assert!(!GosValue::Channel(3).eq(&GosValue::Channel(4), &heap));
    assert!(!GosValue::Closure(3).eq(&GosValue::Closure(4), &heap));
    assert!(!GosValue::GosMap(3).eq(&GosValue::GosMap(4), &heap));
}

#[test]
fn pointers_are_equal_by_what_they_point_at() {
    let mut heap = Heap::new();
    record(&mut heap, vec![num(1)]);
    record(&mut heap, vec![num(1)]);
    record(&mut heap, vec![num(2)]);
    let p = |i: usize| PointerObj::Struct(i);
    assert!(p(0).eq(&p(0), &heap));
    assert!(p(0).eq(&p(1), &heap));
    assert!(!p(0).eq(&p(2), &heap));
    heap.structs[1].rc = 5;
    assert!(!p(0).eq(&p(1), &heap));
    array(&mut heap, vec![num(1)]);
    array(&mut heap, vec![num(1)]);
    assert!(PointerObj::Array(0).eq(&PointerObj::Array(1), &heap));
    assert!(PointerObj::Slice(4).eq(&PointerObj::Slice(4), &heap));
    assert!(PointerObj::GosMap(4).eq(&PointerObj::GosMap(4), &heap));
    assert!(PointerObj::SliceMember(1, 2).eq(&PointerObj::SliceMember(1, 2), &heap));
    assert!(!PointerObj::SliceMember(1, 2).eq(&PointerObj::SliceMember(1, 3), &heap));
    assert!(!PointerObj::StructField(1, 2).eq(&PointerObj::StructField(0, 2), &heap));
    let key = PackageKey { number: 1 };
    assert!(PointerObj::PkgMember(key, 2).eq(&PointerObj::PkgMember(key, 2), &heap));
    assert!(!PointerObj::PkgMember(key, 2).eq(&PointerObj::PkgMember(key, 1), &heap));
    assert!(!p(0).eq(&PointerObj::Array(0), &heap));
}

#[test]
fn up_values_are_equal_by_variable_or_value() {
    let mut heap = Heap::new();
    let a = PointerObj::UpVal(UpValue::new(desc(4), &mut heap));
    let b = PointerObj::UpVal(UpValue::new(desc(4), &mut heap));
    let c = PointerObj::UpVal(UpValue::new(desc(5), &mut heap));
    let d = PointerObj::UpVal(UpValue::new_closed(num(4), &mut heap));
    let e = PointerObj::UpVal(UpValue::new_closed(num(4), &mut heap));
    assert!(a.eq(&a, &heap));
    assert!(a.eq(&b, &heap));
    assert!(!a.eq(&c, &heap));
    assert!(!a.eq(&d, &heap));
    assert!(d.eq(&e, &heap));
    assert!(desc(4).eq(&ValueDesc { stack_base: 9, ..desc(4) }));
    assert!(!desc(4).eq(&desc(3)));
}

#[test]
fn untyped_pointers_are_equal_if_they_come_from_equal_pointers() {
    let mut heap = Heap::new();
    let p = GosValue::Pointer(PointerObj::StructField(0, 1));
    let q = GosValue::Pointer(PointerObj::StructField(0, 2));
    let a = PointerHandle::from_pointer(p, &mut heap);
    let b = PointerHandle::from_pointer(p, &mut heap);
    let c = PointerHandle::from_pointer(q, &mut heap);
    let u = GosValue::UnsafePtr(heap.alloc_unsafe(UnsafeData::User(UserData { number: 1 })));
    assert!(a.eq(&b, &heap));
    assert!(!a.eq(&c, &heap));
    assert!(!a.eq(&u, &heap));
    assert!(!u.eq(&u, &heap));
}

#[test]
fn handles_give_the_pointer_back() {
    let mut heap = Heap::new();
    let p = PointerObj::StructField(3, 1);
    let val = PointerHandle::from_pointer(GosValue::new_pointer(p), &mut heap);
    assert!(matches!(val, GosValue::UnsafePtr(0)));
    match heap.unsafes[0] {
        UnsafeData::Handle(handle) => {
            assert!(matches!(
                handle.to_pointer(),
                GosValue::Pointer(PointerObj::StructField(3, 1))
            ));
            assert!(handle.eq(&handle.as_any(), &heap));
            assert!(!handle.eq(&UnsafeData::User(UserData { number: 0 }), &heap));
            assert!(!handle.can_make_cycle());
            assert_eq!(handle.fmt(), "unsafe pointer");
        }
        UnsafeData::User(_) => panic!("not a handle"),
    }
}

#[test]
fn user_data_does_nothing_by_default() {
    let mut heap = Heap::new();
    let mut queue = vec![];
    let data = UserData { number: 5 };
    assert!(!data.eq(&data.as_any(), &heap));
    data.ref_sub_one(&mut heap);
    data.mark_dirty(&mut queue, &mut heap);
    data.break_cycle(&mut heap);
    assert!(queue.is_empty());
    assert!(!data.can_make_cycle());
    assert_eq!(data.fmt(), "unsafe pointer");
}

#[test]
fn equality_is_an_equivalence() {
    let mut heap = Heap::new();
    let x = array(&mut heap, vec![num(1), num(2)]);
    let y = array(&mut heap, vec![num(1), num(2)]);
    let z = array(&mut heap, vec![num(1), num(2)]);
    assert!(x.eq(&x, &heap));
    assert!(x.eq(&y, &heap) && y.eq(&x, &heap));
    assert!(y.eq(&z, &heap) && x.eq(&z, &heap));
}

#[test]
fn identical_values_are_of_one_type() {
    let heap = Heap::new();
    assert!(num(1).identical(&num(1), &heap));
    assert!(!num(1).identical(&num(2), &heap));
    assert!(!num(1).identical(&GosValue::Scalar(ValueType::Int8, 1), &heap));
    assert!(!num(1).identical(&GosValue::Slice(0), &heap));
}

#[test]
fn hashes_are_made_of_the_parts() {
    let mut heap = Heap::new();
    let a = array(&mut heap, vec![num(1), num(2)]);
    let b = record(&mut heap, vec![num(1), num(2)]);
    let mut state = DefaultHasher::new();
    state.write(&1u64.to_le_bytes());
    state.write(&2u64.to_le_bytes());
    let expected = state.finish();
    assert_eq!(a.hash_number(&heap), expected);
    assert_eq!(b.hash_number(&heap), expected);
    let mut state = DefaultHasher::new();
    heap.arrays[0].obj.hash(&heap, &mut state);
    assert_eq!(state.finish(), expected);
    let mut state = DefaultHasher::new();
    heap.structs[0].obj.hash(&heap, &mut state);
    assert_eq!(state.finish(), expected);
}

#[test]
fn strings_hash_by_their_bytes() {
    let mut heap = Heap::new();
    let s = text(&mut heap, "key");
    let mut state = DefaultHasher::new();
    state.write(b"key");
    assert_eq!(s.hash_number(&heap), state.finish());
}

#[test]
fn equal_values_hash_alike() {
    let mut heap = Heap::new();
    let s = text(&mut heap, "k");
    let t = text(&mut heap, "k");
    let a = record(&mut heap, vec![num(1), s]);
    let b = record(&mut heap, vec![num(1), t]);
    let x = iface(&mut heap, a);
    let y = iface(&mut heap, b);
    assert!(x.eq(&y, &heap));
    assert_eq!(x.hash_number(&heap), y.hash_number(&heap));
    let mut state = DefaultHasher::new();
    heap.ifaces[0].obj.hash(&heap, &mut state);
    assert_eq!(state.finish(), x.hash_number(&heap));
}

#[test]
fn pointers_hash_by_where_they_point() {
    let mut heap = Heap::new();
    record(&mut heap, vec![num(1)]);
    record(&mut heap, vec![num(1)]);
    let p = GosValue::Pointer(PointerObj::Struct(0));
    let q = GosValue::Pointer(PointerObj::Struct(1));
    assert!(p.eq(&q, &heap));
    assert_ne!(p.hash_number(&heap), q.hash_number(&heap));
    let mut state = DefaultHasher::new();
    PointerObj::SliceMember(3, -1).hash(&heap, &mut state);
    let mut expected = DefaultHasher::new();
    expected.write(&3u64.to_le_bytes());
    expected.write(&(-1i32).to_le_bytes());
    assert_eq!(state.finish(), expected.finish());
}

#[test]
fn up_values_hash_by_variable_or_place() {
    let mut heap = Heap::new();
    let a = UpValue::new(desc(4), &mut heap);
    let b = UpValue::new_closed(num(4), &mut heap);
    let mut state = DefaultHasher::new();
    a.hash(&heap, &mut state);
    let mut expected = DefaultHasher::new();
    expected.write(&4i32.to_le_bytes());
    assert_eq!(state.finish(), expected.finish());
    let mut state = DefaultHasher::new();
    b.hash(&heap, &mut state);
    let mut expected = DefaultHasher::new();
    expected.write(&1u64.to_le_bytes());
    assert_eq!(state.finish(), expected.finish());
}

#[test]
fn copies_of_arrays_and_structs_are_new_and_equal() {
    let mut heap = Heap::new();
    let inner = record(&mut heap, vec![num(7)]);
    let a = array(&mut heap, vec![num(1), inner]);
    let b = a.copy_semantic(&mut heap);
    assert!(matches!(b, GosValue::Array(1)));
    assert!(a.eq(&b, &heap));
    assert_eq!(heap.structs.len(), 2);
    heap.fields_mut(1)[0] = num(8);
    assert!(!a.eq(&b, &heap));
    assert!(heap.fields(0)[0].eq(&num(7), &heap));
}

#[test]
fn copies_of_slices_and_maps_share_their_contents() {
    let mut heap = Heap::new();
    let s = SliceObj::with_data(vec![num(1)], &mut heap);
    let a = GosValue::Slice(heap.alloc_slice(s));
    let b = a.copy_semantic(&mut heap);
    assert!(matches!(b, GosValue::Slice(1)));
    assert_eq!(heap.slices[1].obj.vec, heap.slices[0].obj.vec);
    assert!(matches!(num(3).copy_semantic(&mut heap), GosValue::Scalar(ValueType::Int, 3)));
}

#[test]
fn arrays_are_filled_with_copies() {
    let mut heap = Heap::new();
    let inner = array(&mut heap, vec![num(1)]);
    let a = ArrayObj::with_size(3, &inner, &mut heap);
    assert_eq!(a.len(&heap), 3);
    assert!(matches!(a.get(0, &heap), Some(GosValue::Array(1))));
    assert!(matches!(a.get(2, &heap), Some(GosValue::Array(3))));
    assert!(a.get(3, &heap).is_none());
    let zeros = ArrayObj::with_size(2, &num(0), &mut heap);
    assert!(zeros.get(1, &heap).unwrap().eq(&num(0), &heap));
}

#[test]
fn an_array_takes_over_elements() {
    let mut heap = Heap::new();
    let a = ArrayObj::with_data(vec![num(1)], &mut heap);
    let b = ArrayObj::with_data(vec![num(2), num(3)], &mut heap);
    a.set_from(&b, &mut heap);
    assert_eq!(a.len(&heap), 2);
    a.borrow_data_mut(&mut heap)[0] = num(9);
    assert!(b.borrow_data(&heap)[0].eq(&num(2), &heap));
    assert!(a.borrow_data(&heap)[0].eq(&num(9), &heap));
}

#[test]
fn texts_are_rows_of_texts() {
    let mut heap = Heap::new();
    let show = |v: &GosValue| match v {
        GosValue::Scalar(_, n) => format!("{}", n),
        _ => "?".to_string(),
    };
    let a = ArrayObj::with_data(vec![num(1), num(2), GosValue::Nil], &mut heap);
    assert_eq!(a.fmt(&show, &heap), "[1 2 ?]");
    let none = ArrayObj::with_data(vec![], &mut heap);
    assert_eq!(none.fmt(&show, &heap), "[]");
    assert_eq!(StructObj { fields: vec![num(1), num(2)] }.fmt(&show), "{1 2}");
    let s = SliceObj::with_array(&a, 1, -1, &heap);
    assert_eq!(s.fmt(&show, &heap), "[2 ?]");
    let show_ffi = |n: usize| format!("obj{}", n);
    assert_eq!(InterfaceObj::Gos(num(5), None).fmt(&show, &show_ffi), "5");
    let ffi = InterfaceObj::Ffi(UnderlyingFfi::new(3, vec![]));
    assert_eq!(ffi.fmt(&show, &show_ffi), "<ffi>obj3");
}

#[test]
fn embedded_fields_are_reached() {
    let mut heap = Heap::new();
    let inner = record(&mut heap, vec![num(7), num(8)]);
    let outer = record(&mut heap, vec![num(1), inner]);
    assert!(StructObj::get_embeded(outer, &vec![1, 0], &heap).eq(&num(7), &heap));
    assert!(StructObj::get_embeded(outer, &vec![0], &heap).eq(&num(1), &heap));
    assert!(StructObj::get_embeded(outer, &vec![], &heap).eq(&outer, &heap));
}

#[test]
fn copied_arrays_are_independent() {
    let mut heap = Heap::new();
    let a = array(&mut heap, vec![num(1)]);
    let b = a.copy_semantic(&mut heap);
    let source = heap.arrays[0].obj;
    let copied = heap.arrays[1].obj;
    copied.borrow_data_mut(&mut heap)[0] = num(2);
    assert!(heap.arrays[0].obj.get(0, &heap).unwrap().eq(&num(1), &heap));
    source.borrow_data_mut(&mut heap)[0] = num(3);
    assert!(heap.arrays[1].obj.get(0, &heap).unwrap().eq(&num(2), &heap));
    assert!(!a.eq(&b, &heap));
}

#[test]
fn keys_hash_as_one_number() {
    let heap = Heap::new();
    let number = 0x3_0000_0005u64;
    let mut expected = DefaultHasher::new();
    expected.write(&number.to_le_bytes());
    let expected = expected.finish();
    assert_eq!(GosValue::Function(FunctionKey { number }).hash_number(&heap), expected);
    assert_eq!(GosValue::Package(PackageKey { number }).hash_number(&heap), expected);
    let meta = Meta { key: MetadataKey { number } };
    assert_eq!(GosValue::Metadata(meta).hash_number(&heap), expected);
    let mut state = DefaultHasher::new();
    PointerObj::PkgMember(PackageKey { number }, 2).hash(&heap, &mut state);
    let mut expected = DefaultHasher::new();
    expected.write(&number.to_le_bytes());
    expected.write(&2i32.to_le_bytes());
    assert_eq!(state.finish(), expected.finish());
}

#[test]
fn pointers_at_one_thing_hash_alike() {
    let mut heap = Heap::new();
    record(&mut heap, vec![num(1)]);
    let key = PackageKey { number: 0x1_0000_0001 };
    for p in [
        PointerObj::Struct(0),
        PointerObj::StructField(0, 0),
        PointerObj::SliceMember(2, 1),
        PointerObj::PkgMember(key, 0),
    ] {
        let x = GosValue::Pointer(p);
        let y = GosValue::Pointer(p);
        assert!(x.eq(&y, &heap));
        assert_eq!(x.hash_number(&heap), y.hash_number(&heap));
    }
}

#[test]
fn up_values_compare_by_variable_or_value() {
    let mut heap = Heap::new();
    let a = UpValue::new(desc(4), &mut heap);
    let b = UpValue::new(desc(4), &mut heap);
    let c = UpValue::new(desc(5), &mut heap);
    let s = text(&mut heap, "v");
    let t = text(&mut heap, "v");
    let d = UpValue::new_closed(s, &mut heap);
    let e = UpValue::new_closed(t, &mut heap);
    let f = UpValue::new_closed(num(4), &mut heap);
    assert!(a.eq(&a, &heap) && a.eq(&b, &heap) && d.eq(&e, &heap));
    assert!(!a.eq(&c, &heap) && !a.eq(&d, &heap) && !d.eq(&f, &heap));
    assert!(UpValueState::Open(desc(4)).eq(&UpValueState::Open(desc(4)), &heap));
    assert!(!UpValueState::Open(desc(4)).eq(&UpValueState::Open(desc(5)), &heap));
    assert!(UpValueState::Closed(s).eq(&UpValueState::Closed(t), &heap));
    assert!(!UpValueState::Closed(s).eq(&UpValueState::Closed(num(4)), &heap));
    assert!(!UpValueState::Open(desc(4)).eq(&UpValueState::Closed(num(4)), &heap));
    assert!(PointerObj::UpVal(a).eq(&PointerObj::UpVal(b), &heap));
    assert!(!PointerObj::UpVal(a).eq(&PointerObj::UpVal(c), &heap));
}
