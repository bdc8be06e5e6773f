//! Stacks of values.
use vstd::prelude::*;

use crate::instruction::ValueType;
use crate::value::GosValue;

verus! {

/// The stack of one thread of the program. A slot does not know the type of the
/// number in it: whoever reads the slot does.
#[derive(Clone, Debug)]
pub struct Stack {
    pub id: usize,
    pub slots: Vec<GosValue>,
}

/// A slot's value read as one of type `typ`.
pub open spec fn read_as(val: GosValue, typ: ValueType) -> GosValue {
    match val {
        GosValue::Scalar(_, bits) => GosValue::Scalar(typ, bits),
        other => other,
    }
}

/// Reads a slot's value as one of type `typ`.
pub fn typed(val: GosValue, typ: ValueType) -> (read: GosValue)
    ensures
        read == read_as(val, typ),
        !(val is Scalar) ==> read == val,
        val matches GosValue::Scalar(_, bits) ==> read == GosValue::Scalar(typ, bits),
{
    match val {
        GosValue::Scalar(_, bits) => GosValue::Scalar(typ, bits),
        other => other,
    }
}

impl Stack {
    pub fn new(id: usize) -> (stack: Stack)
        ensures
            stack.id == id,
            stack.slots@ == Seq::<GosValue>::empty(),
    {
        Stack { id, slots: Vec::new() }
    }

    pub fn push(&mut self, val: GosValue)
        ensures
            final(self).id == old(self).id,
            final(self).slots@ == old(self).slots@.push(val),
    {
        self.slots.push(val);
    }

    /// The value in slot `index`, read as one of type `typ`.
    pub fn get_with_type(&self, index: usize, typ: ValueType) -> (val: GosValue)
        requires
            index < self.slots.len(),
        ensures
            val == read_as(self.slots[index as int], typ),
            self.slots[index as int].spec_value_type() == typ ==> val == self.slots[index as int],
    {
        typed(self.slots[index], typ)
    }

    pub fn set(&mut self, index: usize, val: GosValue)
        requires
            index < old(self).slots.len(),
        ensures
            final(self).id == old(self).id,
            final(self).slots@ == old(self).slots@.update(index as int, val),
    {
        self.slots[index] = val;
    }

    /// Takes the last value off the stack, read as one of type `typ`.
    pub fn pop_with_type(&mut self, typ: ValueType) -> (val: GosValue)
        requires
            old(self).slots.len() > 0,
        ensures
            final(self).id == old(self).id,
            final(self).slots@ == old(self).slots@.drop_last(),
            val == read_as(old(self).slots@.last(), typ),
            old(self).slots@.last().spec_value_type() == typ ==> val == old(self).slots@.last(),
    {
        let val = self.slots.pop().unwrap();
        typed(val, typ)
    }
}

/// Reading a slot gives what is in it. Only a number or truth value takes the type that is
/// asked for, and it keeps its bits; so a value of that type is read as it is.
pub proof fn law_reading_a_slot(val: GosValue, typ: ValueType)
    ensures
        !(val is Scalar) ==> read_as(val, typ) == val,
        val matches GosValue::Scalar(_, bits) ==> read_as(val, typ) == GosValue::Scalar(
            typ,
            bits,
        ),
        val.spec_value_type() == typ ==> read_as(val, typ) == val,
{
}

} // verus!
