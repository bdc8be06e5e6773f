//! What the program knows of its types while it runs.
use vstd::prelude::*;

use crate::arena::Arena;
use crate::copying;
use crate::heap::{Heap, HeapState};
use crate::instruction::ValueType;
use crate::keys::{FunctionKey, MetadataKey};
use crate::value::GosValue;

verus! {

/// Names a type.
#[derive(Clone, Copy, Debug, PartialEq, Eq, Hash, Structural)]
pub struct Meta {
    pub key: MetadataKey,
}

/// A field of a struct type.
#[derive(Clone, Debug)]
pub struct FieldInfo {
    pub meta: Meta,
    pub name: String,
    pub exported: bool,
}

/// The fields of a struct type.
#[derive(Clone, Debug)]
pub struct Fields {
    pub fields: Vec<FieldInfo>,
}

impl Fields {
    /// Whether the field at `index` can be seen outside its package.
    pub fn is_exported(&self, index: usize) -> (exported: bool)
        requires
            index < self.fields.len(),
        ensures
            exported == self.fields[index as int].exported,
    {
        self.fields[index].exported
    }
}

/// The type of a function.
#[derive(Clone, Debug)]
pub struct SigMetadata {
    pub recv: Option<Meta>,
    pub params: Vec<Meta>,
    pub results: Vec<Meta>,
}

/// A type. Types whose zero value lives on the heap keep one to copy from.
#[derive(Clone, Debug)]
pub enum MetadataType {
    Basic(ValueType),
    Str(GosValue),
    Array(Meta, usize, GosValue),
    Struct(Fields, GosValue),
    Slice(Meta),
    GosMap(Meta, Meta),
    Interface,
    Channel(Meta),
    Pointer(Meta),
    UnsafePtr,
    Signature(SigMetadata),
}

/// The types of a program.
pub type MetadataObjs = Arena<MetadataKey, MetadataType>;

/// A method of a type, as far as it is known.
#[derive(Clone, Copy, Debug)]
pub struct MethodDesc {
    pub pointer_recv: bool,
    pub func: Option<FunctionKey>,
}

impl MetadataType {
    /// The type that values of this type have at run time.
    pub open spec fn spec_value_type(self) -> ValueType {
        match self {
            MetadataType::Basic(t) => t,
            MetadataType::Str(_) => ValueType::Str,
            MetadataType::Array(_, _, _) => ValueType::Array,
            MetadataType::Struct(_, _) => ValueType::Struct,
            MetadataType::Slice(_) => ValueType::Slice,
            MetadataType::GosMap(_, _) => ValueType::GosMap,
            MetadataType::Interface => ValueType::Interface,
            MetadataType::Channel(_) => ValueType::Channel,
            MetadataType::Pointer(_) => ValueType::Pointer,
            MetadataType::UnsafePtr => ValueType::UnsafePtr,
            MetadataType::Signature(_) => ValueType::Closure,
        }
    }

    pub fn value_type(&self) -> (typ: ValueType)
        ensures
            typ == self.spec_value_type(),
    {
        match self {
            MetadataType::Basic(t) => *t,
            MetadataType::Str(_) => ValueType::Str,
            MetadataType::Array(_, _, _) => ValueType::Array,
            MetadataType::Struct(_, _) => ValueType::Struct,
            MetadataType::Slice(_) => ValueType::Slice,
            MetadataType::GosMap(_, _) => ValueType::GosMap,
            MetadataType::Interface => ValueType::Interface,
            MetadataType::Channel(_) => ValueType::Channel,
            MetadataType::Pointer(_) => ValueType::Pointer,
            MetadataType::UnsafePtr => ValueType::UnsafePtr,
            MetadataType::Signature(_) => ValueType::Closure,
        }
    }
}

impl MetadataType {
    /// The heap after a zero value of the type was made, and that value. Arrays and
    /// structs are copied from the zero value that the type keeps.
    pub open spec fn spec_zero(self, h: HeapState) -> Option<(HeapState, GosValue)> {
        match self {
            MetadataType::Basic(t) => Some((h, GosValue::Scalar(t, 0))),
            MetadataType::Str(empty) => Some((h, empty)),
            MetadataType::Array(_, _, zero) => copying::copy_value(h, zero),
            MetadataType::Struct(_, zero) => copying::copy_value(h, zero),
            _ => Some((h, GosValue::Nil)),
        }
    }
}

impl Meta {
    /// A zero value of the type.
    pub fn zero(&self, metas: &MetadataObjs, heap: &mut Heap) -> (val: GosValue)
        requires
            metas.wf(),
            metas@.contains_key(self.key),
            metas@[self.key].spec_zero(old(heap)@) is Some,
        ensures
            metas@[self.key].spec_zero(old(heap)@)->0 == (final(heap)@, val),
    {
        match metas.at(self.key) {
            MetadataType::Basic(t) => GosValue::Scalar(*t, 0),
            MetadataType::Str(empty) => *empty,
            MetadataType::Array(_, _, zero) => zero.copy_semantic(heap),
            MetadataType::Struct(_, zero) => zero.copy_semantic(heap),
            _ => GosValue::new_nil(),
        }
    }

    /// The type that values of this type have at run time.
    pub fn value_type(&self, metas: &MetadataObjs) -> (typ: ValueType)
        requires
            metas.wf(),
            metas@.contains_key(self.key),
        ensures
            typ == metas@[self.key].spec_value_type(),
    {
        metas.at(self.key).value_type()
    }
}

/// A zero value of a basic type is zero, of the string type the empty string, of an array or
/// struct type a copy of the zero value that the type keeps, and of any other type nil. Only
/// copies add to the heap.
pub proof fn law_what_a_zero_value_is(t: MetadataType, h: HeapState)
    ensures
        match t {
            MetadataType::Basic(b) => t.spec_zero(h) == Some((h, GosValue::Scalar(b, 0))),
            MetadataType::Str(empty) => t.spec_zero(h) == Some((h, empty)),
            MetadataType::Array(_, _, zero) => t.spec_zero(h) == copying::copy_value(h, zero),
            MetadataType::Struct(_, zero) => t.spec_zero(h) == copying::copy_value(h, zero),
            MetadataType::Slice(_) | MetadataType::GosMap(_, _) | MetadataType::Interface
            | MetadataType::Channel(_) | MetadataType::Pointer(_) | MetadataType::UnsafePtr
            | MetadataType::Signature(_) => t.spec_zero(h) == Some((h, GosValue::Nil)),
        },
{
}

/// Values of a type have the type that belongs to it at run time: a basic type is its own,
/// and that of functions is the type of closures. Where a zero value is not nil, it is of
/// that type, if those that are kept are of theirs.
pub proof fn law_types_at_run_time(t: MetadataType, h: HeapState)
    ensures
        match t {
            MetadataType::Basic(b) => t.spec_value_type() == b,
            MetadataType::Str(_) => t.spec_value_type() == ValueType::Str,
            MetadataType::Array(_, _, _) => t.spec_value_type() == ValueType::Array,
            MetadataType::Struct(_, _) => t.spec_value_type() == ValueType::Struct,
            MetadataType::Slice(_) => t.spec_value_type() == ValueType::Slice,
            MetadataType::GosMap(_, _) => t.spec_value_type() == ValueType::GosMap,
            MetadataType::Interface => t.spec_value_type() == ValueType::Interface,
            MetadataType::Channel(_) => t.spec_value_type() == ValueType::Channel,
            MetadataType::Pointer(_) => t.spec_value_type() == ValueType::Pointer,
            MetadataType::UnsafePtr => t.spec_value_type() == ValueType::UnsafePtr,
            MetadataType::Signature(_) => t.spec_value_type() == ValueType::Closure,
        },
        t is Basic ==> (t.spec_zero(h)->0).1.spec_value_type() == t.spec_value_type(),
        t matches MetadataType::Str(GosValue::Str(_)) ==> (
        t.spec_zero(h)->0).1.spec_value_type() == t.spec_value_type(),
{
}

} // verus!
