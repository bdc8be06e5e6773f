//! Reference counts and closures.
use goscript::closure_obj::{ClosureObj, FfiClosureObj};
use goscript::counting::MARKED;
use goscript::function_val::{FuncFlag, FunctionObjs, FunctionVal};
use goscript::heap::{Heap, RcSlot};
use goscript::instruction::ValueType;
use goscript::interface_obj::{InterfaceObj, UnderlyingFfi};
use goscript::keys::{FunctionKey, MetadataKey, PackageKey};
use goscript::metadata::Meta;
use goscript::pointer_obj::{PointerHandle, PointerObj, UnsafePtr};
use goscript::slice_obj::SliceObj;
use goscript::struct_obj::StructObj;
use goscript::upvalue::{UpValue, ValueDesc};
use goscript::value::GosValue;
use goscript::vm_objects::VMObjects;

fn num(n: u64) -> GosValue {
    GosValue::Scalar(ValueType::Int, n)
}

fn heap_with_struct_and_slice() -> Heap {
    let mut heap = Heap::new();
    heap.alloc_struct(StructObj { fields: vec![] });
    let s = SliceObj::with_data(vec![num(1)], &mut heap);
    heap.alloc_slice(s);
    heap
}

#[test]
fn a_count_goes_down_by_one() {
    let mut heap = heap_with_struct_and_slice();
    heap.set_rc(RcSlot::Struct(0), 3);
    GosValue::Struct(0).ref_sub_one(&mut heap);
    assert_eq!(heap.rc(RcSlot::Struct(0)), 2);
    assert_eq!(heap.rc(RcSlot::Slice(0)), 0);
    num(1).ref_sub_one(&mut heap);
    GosValue::Channel(0).ref_sub_one(&mut heap);
    assert_eq!(heap.rc(RcSlot::Struct(0)), 2);
}

#[test]
fn pointers_count_for_what_they_point_at() {
    let mut heap = heap_with_struct_and_slice();
    PointerObj::Struct(0).ref_sub_one(&mut heap);
    PointerObj::StructField(0, 1).ref_sub_one(&mut heap);
    assert_eq!(heap.rc(RcSlot::Struct(0)), -2);
    PointerObj::Slice(0).ref_sub_one(&mut heap);
    PointerObj::SliceMember(0, 0).ref_sub_one(&mut heap);
    assert_eq!(heap.rc(RcSlot::Slice(0)), -2);
    PointerObj::Array(9).ref_sub_one(&mut heap);
    PointerObj::PkgMember(PackageKey { number: 1 }, 0).ref_sub_one(&mut heap);
    assert_eq!(heap.rc(RcSlot::Struct(0)), -2);
}

#[test]
fn closed_up_values_count_for_what_is_in_them() {
    let mut heap = heap_with_struct_and_slice();
    let inner = UpValue::new_closed(GosValue::Struct(0), &mut heap);
    let outer = UpValue::new_closed(GosValue::Pointer(PointerObj::UpVal(inner)), &mut heap);
    outer.ref_sub_one(&mut heap);
    assert_eq!(heap.rc(RcSlot::Struct(0)), -1);
    let desc = ValueDesc::new(FunctionKey { number: 1 }, 0, ValueType::Int, true);
    let open = UpValue::new(desc, &mut heap);
    open.ref_sub_one(&mut heap);
    assert_eq!(heap.rc(RcSlot::Struct(0)), -1);
}

#[test]
fn untyped_pointers_and_interfaces_count_for_what_is_behind_them() {
    let mut heap = heap_with_struct_and_slice();
    let p = GosValue::Pointer(PointerObj::Struct(0));
    PointerHandle::from_pointer(p, &mut heap).ref_sub_one(&mut heap);
    PointerHandle { ptr: PointerObj::Struct(0) }.ref_sub_one(&mut heap);
    InterfaceObj::Gos(GosValue::Struct(0), None).ref_sub_one(&mut heap);
    InterfaceObj::Ffi(UnderlyingFfi::new(0, vec![])).ref_sub_one(&mut heap);
    assert_eq!(heap.rc(RcSlot::Struct(0)), -3);
}

#[test]
fn objects_without_references_are_queued_once() {
    let mut heap = heap_with_struct_and_slice();
    let mut queue = vec![];
    heap.set_rc(RcSlot::Struct(0), -2);
    heap.set_rc(RcSlot::Slice(0), 1);
    GosValue::Struct(0).mark_dirty(&mut queue, &mut heap);
    GosValue::Slice(0).mark_dirty(&mut queue, &mut heap);
    assert_eq!(queue, vec![-2]);
    assert_eq!(heap.rc(RcSlot::Struct(0)), MARKED);
    assert_eq!(heap.rc(RcSlot::Slice(0)), 1);
    PointerObj::Struct(0).mark_dirty(&mut queue, &mut heap);
    PointerHandle { ptr: PointerObj::Struct(0) }.mark_dirty(&mut queue, &mut heap);
    assert_eq!(queue, vec![-2]);
    heap.set_rc(RcSlot::Slice(0), 0);
    InterfaceObj::Gos(GosValue::Slice(0), None).mark_dirty(&mut queue, &mut heap);
    assert_eq!(queue, vec![-2, 0]);
}

#[test]
fn up_values_mark_what_is_in_them() {
    let mut heap = heap_with_struct_and_slice();
    let mut queue = vec![];
    let uv = UpValue::new_closed(GosValue::Slice(0), &mut heap);
    uv.mark_dirty(&mut queue, &mut heap);
    assert_eq!(queue, vec![0]);
    assert_eq!(heap.rc(RcSlot::Slice(0)), MARKED);
}

fn function_with(ptrs: Vec<ValueDesc>, heap: &mut Heap) -> (FunctionObjs, FunctionKey, Meta) {
    let objs = VMObjects::new();
    let meta = objs.s_meta.default_sig;
    let pkg = PackageKey { number: 1 };
    let mut func = FunctionVal::new(pkg, meta, &objs.metas, heap, FuncFlag::Default);
    func.up_ptrs = ptrs;
    let mut fobjs: FunctionObjs = FunctionObjs::with_capacity(1);
    let key = fobjs.insert(func);
    (fobjs, key, meta)
}

#[test]
fn a_closure_captures_the_variables_of_its_function() {
    let mut heap = Heap::new();
    let key = FunctionKey { number: 1 };
    let ptrs = vec![
        ValueDesc::new(key, 4, ValueType::Int, true),
        ValueDesc::new(key, 5, ValueType::Int, false),
        ValueDesc::new(key, 6, ValueType::Str, true),
    ];
    let (fobjs, fkey, meta) = function_with(ptrs, &mut heap);
    let closure = ClosureObj::new_gos(fkey, &fobjs, Some(num(3)), &mut heap);
    assert_eq!(closure.func, Some(fkey));
    assert_eq!(closure.meta, meta);
    assert!(closure.ffi.is_none());
    let uvs = closure.uvs.as_ref().unwrap();
    assert_eq!(uvs.len(), 2);
    assert!(uvs[&0].is_open(&heap));
    assert_eq!(uvs[&0].desc(&heap).index, 4);
    assert_eq!(uvs[&2].desc(&heap).index, 6);
    assert_ne!(uvs[&0].inner, uvs[&2].inner);
}

#[test]
fn a_closure_without_captured_variables_has_no_up_values() {
    let mut heap = Heap::new();
    let (fobjs, fkey, _) = function_with(vec![], &mut heap);
    let closure = ClosureObj::new_gos(fkey, &fobjs, None, &mut heap);
    assert!(closure.uvs.is_none());
    let key = FunctionKey { number: 1 };
    let ptrs = vec![ValueDesc::new(key, 5, ValueType::Int, false)];
    let (fobjs, fkey, _) = function_with(ptrs, &mut heap);
    let closure = ClosureObj::new_gos(fkey, &fobjs, None, &mut heap);
    assert_eq!(closure.uvs.unwrap().len(), 0);
}

#[test]
fn a_foreign_closure_has_nothing_but_its_function() {
    let meta = Meta { key: MetadataKey { number: 7 } };
    let ffi = FfiClosureObj { ffi: 2, func_name: "f".to_string(), meta };
    let closure = ClosureObj::new_ffi(ffi);
    assert!(closure.func.is_none() && closure.uvs.is_none() && closure.recv.is_none());
    assert_eq!(closure.meta, meta);
    assert_eq!(closure.ffi.as_ref().unwrap().func_name, "f");
    let mut heap = Heap::new();
    let val = GosValue::Closure(heap.alloc_closure(closure));
    val.ref_sub_one(&mut heap);
    assert_eq!(heap.rc(RcSlot::Closure(0)), -1);
}

#[test]
fn a_closure_counts_for_all_that_it_holds() {
    let mut heap = heap_with_struct_and_slice();
    let key = FunctionKey { number: 1 };
    let ptrs = vec![
        ValueDesc::new(key, 0, ValueType::Struct, true),
        ValueDesc::new(key, 1, ValueType::Struct, true),
    ];
    let (fobjs, fkey, _) = function_with(ptrs, &mut heap);
    let closure = ClosureObj::new_gos(fkey, &fobjs, Some(GosValue::Slice(0)), &mut heap);
    for uv in closure.uvs.as_ref().unwrap().values() {
        uv.close(GosValue::Struct(0), &mut heap);
    }
    closure.ref_sub_one(&mut heap);
    assert_eq!(heap.rc(RcSlot::Struct(0)), -2);
    assert_eq!(heap.rc(RcSlot::Slice(0)), -1);
    let mut queue = vec![];
    closure.mark_dirty(&mut queue, &mut heap);
    assert_eq!(queue, vec![-2, -1]);
    let foreign = ClosureObj { func: None, ..closure };
    foreign.ref_sub_one(&mut heap);
    assert_eq!(heap.rc(RcSlot::Slice(0)), MARKED);
}

#[test]
fn the_order_of_taking_off_does_not_matter() {
    let a = GosValue::Struct(0);
    let b = GosValue::Pointer(PointerObj::SliceMember(0, 0));
    let mut one = heap_with_struct_and_slice();
    let mut two = heap_with_struct_and_slice();
    a.ref_sub_one(&mut one);
    b.ref_sub_one(&mut one);
    b.ref_sub_one(&mut two);
    a.ref_sub_one(&mut two);
    assert_eq!(format!("{:?}", one), format!("{:?}", two));
    assert_eq!((one.rc(RcSlot::Struct(0)), one.rc(RcSlot::Slice(0))), (-1, -1));
}

#[test]
fn places_stay_good() {
    let mut heap = heap_with_struct_and_slice();
    let id = heap.alloc_struct(StructObj { fields: vec![num(4)] });
    heap.alloc_vec(vec![]);
    heap.fields_mut(0).push(num(1));
    heap.set_rc(RcSlot::Slice(0), 9);
    assert_eq!(id, 1);
    assert_eq!(heap.fields(id).len(), 1);
    assert_eq!(heap.vec(heap.slices[0].obj.vec).len(), 1);
}
