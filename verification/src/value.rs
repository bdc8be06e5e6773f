//! Values of the running program.
use vstd::prelude::*;

use crate::instruction::ValueType;
use crate::keys::{FunctionKey, PackageKey};
use crate::metadata::Meta;
use crate::pointer_obj::PointerObj;

verus! {

/// A value. What does not fit into a word lives on the heap, and the value holds
/// its place there: copies of such a value share the object.
#[derive(Clone, Copy, Debug)]
pub enum GosValue {
    Nil,
    /// A truth value or a number, as the bits that it has in memory.
    Scalar(ValueType, u64),
    Str(usize),
    Function(FunctionKey),
    Package(PackageKey),
    Metadata(Meta),
    Array(usize),
    Slice(usize),
    GosMap(usize),
    Struct(usize),
    Interface(usize),
    Closure(usize),
    Channel(usize),
    Pointer(PointerObj),
    UnsafePtr(usize),
}

impl GosValue {
    /// The type of the value.
    pub open spec fn spec_value_type(self) -> ValueType {
        match self {
            GosValue::Nil => ValueType::Nil,
            GosValue::Scalar(t, _) => t,
            GosValue::Str(_) => ValueType::Str,
            GosValue::Function(_) => ValueType::Function,
            GosValue::Package(_) => ValueType::Package,
            GosValue::Metadata(_) => ValueType::Metadata,
            GosValue::Array(_) => ValueType::Array,
            GosValue::Slice(_) => ValueType::Slice,
            GosValue::GosMap(_) => ValueType::GosMap,
            GosValue::Struct(_) => ValueType::Struct,
            GosValue::Interface(_) => ValueType::Interface,
            GosValue::Closure(_) => ValueType::Closure,
            GosValue::Channel(_) => ValueType::Channel,
            GosValue::Pointer(_) => ValueType::Pointer,
            GosValue::UnsafePtr(_) => ValueType::UnsafePtr,
        }
    }

    pub fn value_type(&self) -> (typ: ValueType)
        ensures
            typ == self.spec_value_type(),
    {
        match self {
            GosValue::Nil => ValueType::Nil,
            GosValue::Scalar(t, _) => *t,
            GosValue::Str(_) => ValueType::Str,
            GosValue::Function(_) => ValueType::Function,
            GosValue::Package(_) => ValueType::Package,
            GosValue::Metadata(_) => ValueType::Metadata,
            GosValue::Array(_) => ValueType::Array,
            GosValue::Slice(_) => ValueType::Slice,
            GosValue::GosMap(_) => ValueType::GosMap,
            GosValue::Struct(_) => ValueType::Struct,
            GosValue::Interface(_) => ValueType::Interface,
            GosValue::Closure(_) => ValueType::Closure,
            GosValue::Channel(_) => ValueType::Channel,
            GosValue::Pointer(_) => ValueType::Pointer,
            GosValue::UnsafePtr(_) => ValueType::UnsafePtr,
        }
    }

    pub fn new_nil() -> (val: GosValue)
        ensures
            val == GosValue::Nil,
    {
        GosValue::Nil
    }

    pub fn new_pointer(ptr: PointerObj) -> (val: GosValue)
        ensures
            val == GosValue::Pointer(ptr),
    {
        GosValue::Pointer(ptr)
    }
}

/// Copies the values of a vector. Objects on the heap are shared, not copied.
pub fn copy_values(values: &Vec<GosValue>) -> (copy: Vec<GosValue>)
    ensures
        copy@ == values@,
{
    let mut copy: Vec<GosValue> = Vec::with_capacity(values.len());
    let mut i: usize = 0;
    while i < values.len()
        invariant
            i <= values.len(),
            copy@ == values@.take(i as int),
        decreases values.len() - i,
    {
        copy.push(values[i]);
        i = i + 1;
        assert(values@.take(i as int) =~= values@.take(i - 1).push(values@[i - 1]));
    }
    assert(values@.take(i as int) =~= values@);
    copy
}

/// A number or truth value is of the type that it carries, and any other value of the type of
/// its kind. So values other than these that are of one type are of one kind.
pub proof fn law_types_of_values(v: GosValue, typ: ValueType, bits: u64)
    ensures
        GosValue::Scalar(typ, bits).spec_value_type() == typ,
        v is Nil ==> v.spec_value_type() == ValueType::Nil,
        v is Str ==> v.spec_value_type() == ValueType::Str,
        v is Function ==> v.spec_value_type() == ValueType::Function,
        v is Package ==> v.spec_value_type() == ValueType::Package,
        v is Metadata ==> v.spec_value_type() == ValueType::Metadata,
        v is Array ==> v.spec_value_type() == ValueType::Array,
        v is Slice ==> v.spec_value_type() == ValueType::Slice,
        v is GosMap ==> v.spec_value_type() == ValueType::GosMap,
        v is Struct ==> v.spec_value_type() == ValueType::Struct,
        v is Interface ==> v.spec_value_type() == ValueType::Interface,
        v is Closure ==> v.spec_value_type() == ValueType::Closure,
        v is Channel ==> v.spec_value_type() == ValueType::Channel,
        v is Pointer ==> v.spec_value_type() == ValueType::Pointer,
        v is UnsafePtr ==> v.spec_value_type() == ValueType::UnsafePtr,
{
}

} // verus!
