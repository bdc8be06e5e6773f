//! Keys, keyed storage and instructions.
use goscript::arena::Arena;
use goscript::instruction::{Instruction, Opcode, ValueType};
use goscript::keys::{
    key_to_u64, null_key, u64_to_key, FunctionKey, MetadataKey, PackageKey, NULL_KEY, VERSION_BIT,
};
use slotmap::{DefaultKey, DenseSlotMap, Key, KeyData};

#[test]
fn a_key_survives_its_number() {
    let mut arena: Arena<PackageKey, u8> = Arena::with_capacity(4);
    let key = arena.insert(7);
    let number = key_to_u64(key);
    let back: PackageKey = u64_to_key(number);
    assert_eq!(back, key);
    assert_eq!(*arena.at(back), 7);
}

#[test]
fn numbers_become_key_numbers() {
    let key: FunctionKey = u64_to_key(5);
    assert_eq!(key.number, 5 | VERSION_BIT);
    assert_eq!(key.number, KeyData::from_ffi(5).as_ffi());
    assert_eq!(key_to_u64(FunctionKey { number: 5 }), 0x1_0000_0005);
    let again: FunctionKey = u64_to_key(key.number);
    assert_eq!(again, key);
}

#[test]
fn the_null_key_is_that_of_slot_maps() {
    let key: MetadataKey = null_key();
    assert_eq!(key.number, NULL_KEY);
    assert_eq!(key.number, DefaultKey::null().data().as_ffi());
}

#[test]
fn keys_are_those_of_a_slot_map() {
    let mut map: DenseSlotMap<DefaultKey, u8> = DenseSlotMap::with_capacity_and_key(4);
    let mut arena: Arena<FunctionKey, u8> = Arena::with_capacity(4);
    for i in 0..5u8 {
        let expected = map.insert(i).data().as_ffi();
        assert_eq!(arena.insert(i).number, expected);
    }
    assert_eq!(arena.len(), 5);
}

#[test]
fn an_arena_finds_what_was_put_in() {
    let mut arena: Arena<FunctionKey, String> = Arena::with_capacity(1);
    let a = arena.insert("a".to_string());
    let b = arena.insert("b".to_string());
    assert_ne!(a, b);
    assert_eq!(arena.at(a), "a");
    arena.at_mut(a).push('!');
    assert_eq!(arena.at(a), "a!");
    assert_eq!(arena.at(b), "b");
    assert_eq!(arena.get(FunctionKey { number: NULL_KEY }), None);
    assert_eq!(arena.get(FunctionKey { number: a.number & 0xffff_ffff }), None);
}

#[test]
fn instructions_are_packed() {
    let op = Opcode { code: 0xab };
    let inst = Instruction::new(op, Some(ValueType::Bool), None, Some(ValueType::Int), Some(-2));
    assert_eq!(inst.val, 0xab01_0002_ffff_fffe);
    let plain = Instruction::new(op, None, None, None, None);
    assert_eq!(plain.val, 0xab00_0000_0000_0000);
    assert_eq!(Instruction::from_u64(77).val, 77);
}

#[test]
fn an_index_replaces_the_third_type() {
    let op = Opcode { code: 1 };
    let mut inst =
        Instruction::new(op, Some(ValueType::Str), Some(ValueType::Bool), None, Some(9));
    inst.set_t2_with_index(-1);
    assert_eq!(inst.val, 0x0110_01ff_0000_0009);
    inst.set_t2_with_index(1);
    assert_eq!(inst.val, 0x0110_0101_0000_0009);
}
