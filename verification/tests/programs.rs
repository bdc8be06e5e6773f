//! Packages, functions and types.
use goscript::array_obj::ArrayObj;
use goscript::function_val::{EntIndex, FuncFlag, FunctionVal};
use goscript::heap::Heap;
use goscript::instruction::{Instruction, Opcode, ValueType};
use goscript::interface_obj::{Binding4Runtime, IfaceBinding};
use goscript::keys::{FunctionKey, PackageKey};
use goscript::metadata::{
    FieldInfo, Fields, Meta, MetadataObjs, MetadataType, MethodDesc, SigMetadata,
};
use goscript::package_val::PackageVal;
use goscript::stack::Stack;
use goscript::struct_obj::StructObj;
use goscript::upvalue::ValueDesc;
use goscript::value::GosValue;
use goscript::vm_objects::VMObjects;

fn num(n: u64) -> GosValue {
    GosValue::Scalar(ValueType::Int, n)
}

fn number(v: &GosValue) -> u64 {
    match v {
        GosValue::Scalar(_, n) => *n,
        _ => panic!("not a number"),
    }
}

fn name(s: &str) -> String {
    s.to_string()
}

#[test]
fn members_are_found_by_name_and_number() {
    let mut heap = Heap::new();
    let mut pkg = PackageVal::new(name("main"));
    assert_eq!(pkg.get_member_index("a"), None);
    assert_eq!(pkg.add_member(name("a"), num(1), ValueType::Int, &mut heap), 0);
    assert_eq!(pkg.add_member(name("b"), num(2), ValueType::Int, &mut heap), 1);
    assert_eq!(pkg.get_member_index("a"), Some(&0));
    assert_eq!(pkg.get_member_index("b"), Some(&1));
    assert_eq!(number(pkg.member(1, &heap)), 2);
    *pkg.member_mut(1, &mut heap) = num(5);
    assert_eq!(number(pkg.member(1, &heap)), 5);
    assert_eq!(number(pkg.member(0, &heap)), 1);
    assert_eq!(pkg.add_member(name("a"), num(3), ValueType::Int, &mut heap), 2);
    assert_eq!(pkg.get_member_index("a"), Some(&2));
}

#[test]
fn init_functions_are_numbered() {
    let mut pkg = PackageVal::new(name("main"));
    pkg.add_init_func(num(4));
    assert_eq!(number(pkg.init_func(0).unwrap()), 4);
    assert!(pkg.init_func(1).is_none());
    assert!(pkg.init_func(-1).is_none());
}

#[test]
fn variables_get_the_results_of_the_constructor() {
    let mut heap = Heap::new();
    let mut pkg = PackageVal::new(name("main"));
    pkg.add_member(name("x"), GosValue::Nil, ValueType::Int, &mut heap);
    pkg.add_member(name("y"), GosValue::Nil, ValueType::Uint8, &mut heap);
    assert_eq!(pkg.add_var_mapping(name("y"), 0), 1);
    assert_eq!(pkg.add_var_mapping(name("x"), 1), 0);
    let mut stack = Stack::new(0);
    stack.push(num(7));
    stack.push(num(10));
    stack.push(num(20));
    assert!(!pkg.inited());
    pkg.init_vars(&mut stack, &mut heap);
    assert!(matches!(pkg.member(1, &heap), GosValue::Scalar(ValueType::Uint8, 10)));
    assert!(matches!(pkg.member(0, &heap), GosValue::Scalar(ValueType::Int, 20)));
    assert_eq!(stack.slots.len(), 1);
    pkg.set_inited();
    assert!(pkg.inited());
}

fn types() -> (MetadataObjs, Meta, Meta, Meta) {
    let mut metas: MetadataObjs = MetadataObjs::with_capacity(8);
    let basic = Meta { key: metas.insert(MetadataType::Basic(ValueType::Int)) };
    let text = Meta { key: metas.insert(MetadataType::Str(GosValue::Str(0))) };
    let sig = Meta {
        key: metas.insert(MetadataType::Signature(SigMetadata {
            recv: Some(text),
            params: vec![basic, basic],
            results: vec![basic, text],
        })),
    };
    (metas, basic, text, sig)
}

fn function(flag: FuncFlag) -> FunctionVal {
    let mut heap = Heap::new();
    let (metas, _, _, sig) = types();
    FunctionVal::new(PackageKey { number: 3 }, sig, &metas, &mut heap, flag)
}

#[test]
fn a_new_function_has_the_shape_of_its_signature() {
    let f = function(FuncFlag::Default);
    assert_eq!(f.package, PackageKey { number: 3 });
    assert_eq!(f.param_types(), &[ValueType::Str, ValueType::Int, ValueType::Int]);
    assert_eq!(f.param_count(), 3);
    assert_eq!(f.ret_count(), 2);
    assert_eq!(number(&f.ret_zeros[0]), 0);
    assert!(matches!(f.ret_zeros[1], GosValue::Str(0)));
    assert!(f.code().is_empty() && f.pos().is_empty());
    assert!(!f.is_ctor());
    assert!(function(FuncFlag::PkgCtor).is_ctor());
    assert!(!function(FuncFlag::HasDefer).is_ctor());
}

#[test]
fn zero_values_of_arrays_and_structs_are_copies() {
    let mut heap = Heap::new();
    let mut metas: MetadataObjs = MetadataObjs::with_capacity(8);
    let arr = ArrayObj::with_data(vec![num(0)], &mut heap);
    let zero = GosValue::Array(heap.alloc_array(arr));
    let elem = Meta { key: metas.insert(MetadataType::Basic(ValueType::Int)) };
    let array = Meta { key: metas.insert(MetadataType::Array(elem, 1, zero)) };
    assert!(matches!(array.zero(&metas, &mut heap), GosValue::Array(1)));
    assert!(matches!(array.zero(&metas, &mut heap), GosValue::Array(2)));
    let zero = GosValue::Struct(heap.alloc_struct(StructObj { fields: vec![num(0)] }));
    let fields = Fields {
        fields: vec![
            FieldInfo { meta: elem, name: name("A"), exported: true },
            FieldInfo { meta: elem, name: name("b"), exported: false },
        ],
    };
    let record = Meta { key: metas.insert(MetadataType::Struct(fields, zero)) };
    assert!(matches!(record.zero(&metas, &mut heap), GosValue::Struct(1)));
    assert!(StructObj::is_exported(0, &record, &metas));
    assert!(!StructObj::is_exported(1, &record, &metas));
    let pointer = Meta { key: metas.insert(MetadataType::Pointer(elem)) };
    assert!(matches!(pointer.zero(&metas, &mut heap), GosValue::Nil));
    assert_eq!(pointer.value_type(&metas), ValueType::Pointer);
    assert_eq!(record.value_type(&metas), ValueType::Struct);
}

#[test]
fn instructions_are_emitted_with_their_positions() {
    let mut f = function(FuncFlag::Default);
    let op = Opcode { code: 0x12 };
    f.emit_code(op, Some(1));
    f.emit_code_with_type(op, ValueType::Bool, None);
    f.emit_code_with_type2(op, ValueType::Bool, Some(ValueType::Int), Some(2));
    f.emit_code_with_imm(op, -1, None);
    f.emit_code_with_type_imm(op, ValueType::Int, 5, Some(3));
    f.emit_code_with_flag_imm(op, true, 6, Some(4));
    f.emit_code_with_flag_imm(op, false, 6, None);
    f.emit_raw_inst(99, None);
    f.emit_inst(op, [None, None, Some(ValueType::Bool)], Some(1), Some(5));
    f.push_inst_pos(Instruction::from_u64(7), Some(6));
    let words: Vec<u64> = f.code().iter().map(|i| i.val).collect();
    assert_eq!(
        words,
        vec![
            0x1200_0000_0000_0000,
            0x1201_0000_0000_0000,
            0x1201_0200_0000_0000,
            0x1200_0000_ffff_ffff,
            0x1202_0000_0000_0005,
            0x1200_0001_0000_0006,
            0x1200_0000_0000_0006,
            99,
            0x1200_0001_0000_0001,
            7,
        ]
    );
    let places = vec![
        Some(1), None, Some(2), None, Some(3), Some(4), None, None, Some(5), Some(6),
    ];
    assert_eq!(f.pos(), &places);
    assert_eq!(f.next_code_index(), 10);
    assert_eq!(f.offset(4), 6);
    f.instruction_mut(7).val = 100;
    assert_eq!(f.code()[7].val, 100);
}

#[test]
fn constants_are_added_once() {
    let heap = Heap::new();
    let mut f = function(FuncFlag::Default);
    assert_eq!(f.get_const_index(&num(1), &heap), None);
    assert_eq!(f.add_const(Some(70), num(1), &heap), EntIndex::Const(0));
    assert_eq!(f.add_const(None, num(2), &heap), EntIndex::Const(1));
    assert_eq!(f.add_const(None, num(1), &heap), EntIndex::Const(0));
    let byte = GosValue::Scalar(ValueType::Uint8, 1);
    assert_eq!(f.add_const(Some(71), byte, &heap), EntIndex::Const(2));
    assert_eq!(f.get_const_index(&num(2), &heap), Some(EntIndex::Const(1)));
    assert_eq!(number(f.const_val(1)), 2);
    assert_eq!(f.entity_index(&70), Some(&EntIndex::Const(0)));
    assert_eq!(f.entity_index(&71), Some(&EntIndex::Const(2)));
    assert_eq!(f.entity_index(&72), None);
    assert_eq!(f.consts.len(), 3);
}

#[test]
fn locals_are_numbered_in_turn() {
    let mut f = function(FuncFlag::Default);
    for i in 0..5 {
        assert_eq!(f.add_local(None), EntIndex::LocalVar(i));
    }
    assert_eq!(f.local_count(), 0);
    assert_eq!(f.add_local(Some(9)), EntIndex::LocalVar(5));
    assert_eq!(f.local_count(), 1);
    assert_eq!(f.entity_index(&9), Some(&EntIndex::LocalVar(5)));
    f.add_local_zero(num(0), ValueType::Int);
    assert_eq!(f.param_count(), 3);
    assert_eq!(f.stack_temp_types.len(), 4);
}

#[test]
fn up_values_are_added_once() {
    let mut f = function(FuncFlag::Default);
    let desc = ValueDesc::new(FunctionKey { number: 1 }, 0, ValueType::Int, true);
    assert_eq!(f.try_add_upvalue(&5, desc), EntIndex::UpValue(0));
    assert_eq!(f.try_add_upvalue(&6, desc), EntIndex::UpValue(1));
    assert_eq!(f.try_add_upvalue(&5, desc), EntIndex::UpValue(0));
    assert_eq!(f.up_ptrs.len(), 2);
}

#[test]
fn numbered_entities_have_an_index() {
    assert_eq!(EntIndex::Const(3).op_index(), 3);
    assert_eq!(EntIndex::LocalVar(-4).op_index(), -4);
    assert_eq!(EntIndex::UpValue(5).op_index(), 5);
}

#[test]
fn bindings_are_settled() {
    let methods = vec![
        MethodDesc { pointer_recv: false, func: None },
        MethodDesc { pointer_recv: true, func: Some(FunctionKey { number: 8 }) },
    ];
    let binding = Binding4Runtime::from(IfaceBinding::Struct(1, Some(vec![2])), &methods);
    match binding {
        Binding4Runtime::Struct(key, pointer_recv, indices) => {
            assert_eq!(key.number, 8);
            assert!(pointer_recv);
            assert_eq!(indices, Some(vec![2]));
        }
        Binding4Runtime::Iface(_, _) => panic!("not a struct"),
    }
    let binding = Binding4Runtime::from(IfaceBinding::Iface(4, None), &methods);
    assert!(matches!(binding, Binding4Runtime::Iface(4, None)));
}

#[test]
fn a_new_program_has_one_type() {
    let objs = VMObjects::new();
    assert_eq!(objs.metas.len(), 1);
    assert_eq!(objs.functions.len(), 0);
    assert_eq!(objs.packages.len(), 0);
    assert!(matches!(
        objs.metas.at(objs.s_meta.default_sig.key),
        MetadataType::Signature(_)
    ));
}

#[test]
fn clones_of_functions_and_packages_go_their_own_way() {
    let mut f = function(FuncFlag::HasDefer);
    f.emit_code(Opcode { code: 1 }, Some(9));
    let g = f.clone();
    f.emit_code(Opcode { code: 2 }, None);
    assert_eq!((f.code().len(), g.code().len()), (2, 1));
    assert_eq!(g.pos(), &vec![Some(9)]);
    assert_eq!(g.param_count(), f.param_count());

    let mut heap = Heap::new();
    let mut p = PackageVal::new("main".to_string());
    p.add_member("x".to_string(), num(1), ValueType::Int, &mut heap);
    let q = p.clone();
    let y = p.add_member("y".to_string(), num(2), ValueType::Int, &mut heap);
    assert_eq!(q.members.len(), 1);
    assert!(q.get_member_index("y").is_none());
    assert_ne!(p.members[0], p.members[1]);
    *q.member_mut(0, &mut heap) = num(3);
    assert_eq!(number(p.member(0, &heap)), 3);
    assert_eq!(number(p.member(y, &heap)), 2);
}
