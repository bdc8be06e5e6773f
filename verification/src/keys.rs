//! Keys of the objects that a program is made of.
//!
//! A key is kept as the 64-bit number that `slotmap` hands out for it: the slot
//! in the low half, the version of the slot in the high half.
use slotmap::{DefaultKey, Key, KeyData};
use vstd::prelude::*;

verus! {

/// The lowest bit of a key's version. It is set in every key.
pub const VERSION_BIT: u64 = 0x1_0000_0000;

/// The number of the key that no slot map ever hands out.
pub const NULL_KEY: u64 = 0x1_ffff_ffff;

/// The key number that `value` stands for: its version made odd.
pub open spec fn normal_ffi(value: u64) -> u64 {
    value | VERSION_BIT
}

/// Whether `value` is the number of a key.
pub open spec fn is_key_number(value: u64) -> bool {
    normal_ffi(value) == value
}

/// Calls `slotmap::KeyData::from_ffi` and `as_ffi` on the result. The first splits
/// the number into slot and version and sets the version's lowest bit, the second
/// joins the two again, so what comes back is the number with that bit set.
#[verifier::external_body]
fn key_data_number(value: u64) -> (number: u64)
    ensures
        number == normal_ffi(value),
{
    KeyData::from_ffi(value).as_ffi()
}

/// Calls `slotmap::Key::null`. The null key is slot `u32::MAX` in version 1.
#[verifier::external_body]
fn null_key_number() -> (number: u64)
    ensures
        number == NULL_KEY,
{
    DefaultKey::null().data().as_ffi()
}

/// What the key types have in common.
pub trait SlotKey: Sized + Copy {
    /// The number of the key.
    spec fn number(self) -> u64;

    /// Keys with one number are one key.
    proof fn number_is_identity(a: Self, b: Self)
        requires
            a.number() == b.number(),
        ensures
            a == b,
    ;

    fn to_number(self) -> (number: u64)
        ensures
            number == self.number(),
    ;

    fn from_number(number: u64) -> (key: Self)
        ensures
            key.number() == number,
    ;
}

/// Names a type in the metadata table.
#[derive(Clone, Copy, Debug, PartialEq, Eq, Hash, Structural)]
pub struct MetadataKey {
    pub number: u64,
}

/// Names a function of the program.
#[derive(Clone, Copy, Debug, PartialEq, Eq, Hash, Structural)]
pub struct FunctionKey {
    pub number: u64,
}

/// Names a package of the program.
#[derive(Clone, Copy, Debug, PartialEq, Eq, Hash, Structural)]
pub struct PackageKey {
    pub number: u64,
}

impl SlotKey for MetadataKey {
    open spec fn number(self) -> u64 {
        self.number
    }

    proof fn number_is_identity(a: Self, b: Self) {
    }

    fn to_number(self) -> (number: u64) {
        self.number
    }

    fn from_number(number: u64) -> (key: Self) {
        MetadataKey { number }
    }
}

impl SlotKey for FunctionKey {
    open spec fn number(self) -> u64 {
        self.number
    }

    proof fn number_is_identity(a: Self, b: Self) {
    }

    fn to_number(self) -> (number: u64) {
        self.number
    }

    fn from_number(number: u64) -> (key: Self) {
        FunctionKey { number }
    }
}

impl SlotKey for PackageKey {
    open spec fn number(self) -> u64 {
        self.number
    }

    proof fn number_is_identity(a: Self, b: Self) {
    }

    fn to_number(self) -> (number: u64) {
        self.number
    }

    fn from_number(number: u64) -> (key: Self) {
        PackageKey { number }
    }
}

/// The number of a key, to be kept where only plain words can be.
pub fn key_to_u64<K: SlotKey>(key: K) -> (number: u64)
    ensures
        number == normal_ffi(key.number()),
        is_key_number(key.number()) ==> number == key.number(),
{
    key_data_number(key.to_number())
}

/// The key with the given number. A number that no key has gives the key whose
/// version is the next odd one.
pub fn u64_to_key<K: SlotKey>(u: u64) -> (key: K)
    ensures
        key.number() == normal_ffi(u),
{
    K::from_number(key_data_number(u))
}

/// The key that belongs to no object.
pub fn null_key<K: SlotKey>() -> (key: K)
    ensures
        key.number() == NULL_KEY,
{
    K::from_number(null_key_number())
}

/// A key that went through its number comes back as it was.
pub proof fn law_key_survives_its_number<K: SlotKey>(key: K, back: K)
    requires
        is_key_number(key.number()),
        back.number() == normal_ffi(key.number()),
    ensures
        back == key,
{
    K::number_is_identity(key, back);
}

/// Reading a number as a key gives a key number, and doing it again changes nothing.
pub proof fn law_normal_ffi_is_idempotent(u: u64)
    ensures
        is_key_number(normal_ffi(u)),
        is_key_number(NULL_KEY),
{
    assert((u | 0x1_0000_0000u64) | 0x1_0000_0000u64 == u | 0x1_0000_0000u64) by (bit_vector);
    assert(0x1_ffff_ffffu64 | 0x1_0000_0000u64 == 0x1_ffff_ffffu64) by (bit_vector);
}

/// Reading a number as a key sets the lowest bit of the version and changes no other: the slot
/// stays, and the version does too if it was odd.
pub proof fn law_reading_a_number_sets_one_bit(u: u64)
    ensures
        normal_ffi(u) % 0x1_0000_0000 == u % 0x1_0000_0000,
        normal_ffi(u) / 0x1_0000_0000 % 2 == 1,
        u / 0x1_0000_0000 % 2 == 1 ==> normal_ffi(u) == u,
        u / 0x1_0000_0000 % 2 == 0 ==> normal_ffi(u) == u + 0x1_0000_0000,
        normal_ffi(u) / 0x2_0000_0000 == u / 0x2_0000_0000,
{
    let n = u | 0x1_0000_0000u64;
    assert(n % 0x1_0000_0000 == u % 0x1_0000_0000 && n / 0x1_0000_0000 % 2 == 1 && n
        / 0x2_0000_0000 == u / 0x2_0000_0000) by (bit_vector)
        requires
            n == u | 0x1_0000_0000u64,
    ;
    assert(u / 0x1_0000_0000 % 2 == 1 ==> n == u) by (bit_vector)
        requires
            n == u | 0x1_0000_0000u64,
    ;
    assert(u / 0x1_0000_0000 % 2 == 0 ==> n == u + 0x1_0000_0000) by (bit_vector)
        requires
            n == u | 0x1_0000_0000u64,
    ;
}

} // verus!
