//! Instructions of the virtual machine and the words they are packed into.
use vstd::prelude::*;

verus! {

/// An operand: the number of a register, a constant, a member or a code offset.
pub type OpIndex = i32;

/// The number of an operation.
#[derive(Clone, Copy, Debug, PartialEq, Eq, Hash, Structural)]
pub struct Opcode {
    pub code: u8,
}

/// The types that the machine tells apart at run time.
#[derive(Clone, Copy, Debug, PartialEq, Eq, Hash, Structural)]
pub enum ValueType {
    Nil,
    Bool,
    Int,
    Int8,
    Int16,
    Int32,
    Int64,
    Uint,
    Uint8,
    Uint16,
    Uint32,
    Uint64,
    UintPtr,
    Float32,
    Float64,
    Complex64,
    Str,
    Function,
    Package,
    Metadata,
    Array,
    Slice,
    GosMap,
    Struct,
    Interface,
    Closure,
    Channel,
    Pointer,
    UnsafePtr,
}

impl ValueType {
    /// The number under which the type stands in an instruction.
    pub open spec fn number(self) -> u8 {
        match self {
            ValueType::Nil => 0,
            ValueType::Bool => 1,
            ValueType::Int => 2,
            ValueType::Int8 => 3,
            ValueType::Int16 => 4,
            ValueType::Int32 => 5,
            ValueType::Int64 => 6,
            ValueType::Uint => 7,
            ValueType::Uint8 => 8,
            ValueType::Uint16 => 9,
            ValueType::Uint32 => 10,
            ValueType::Uint64 => 11,
            ValueType::UintPtr => 12,
            ValueType::Float32 => 13,
            ValueType::Float64 => 14,
            ValueType::Complex64 => 15,
            ValueType::Str => 16,
            ValueType::Function => 17,
            ValueType::Package => 18,
            ValueType::Metadata => 19,
            ValueType::Array => 20,
            ValueType::Slice => 21,
            ValueType::GosMap => 22,
            ValueType::Struct => 23,
            ValueType::Interface => 24,
            ValueType::Closure => 25,
            ValueType::Channel => 26,
            ValueType::Pointer => 27,
            ValueType::UnsafePtr => 28,
        }
    }

    pub fn to_u8(self) -> (number: u8)
        ensures
            number == self.number(),
    {
        match self {
            ValueType::Nil => 0,
            ValueType::Bool => 1,
            ValueType::Int => 2,
            ValueType::Int8 => 3,
            ValueType::Int16 => 4,
            ValueType::Int32 => 5,
            ValueType::Int64 => 6,
            ValueType::Uint => 7,
            ValueType::Uint8 => 8,
            ValueType::Uint16 => 9,
            ValueType::Uint32 => 10,
            ValueType::Uint64 => 11,
            ValueType::UintPtr => 12,
            ValueType::Float32 => 13,
            ValueType::Float64 => 14,
            ValueType::Complex64 => 15,
            ValueType::Str => 16,
            ValueType::Function => 17,
            ValueType::Package => 18,
            ValueType::Metadata => 19,
            ValueType::Array => 20,
            ValueType::Slice => 21,
            ValueType::GosMap => 22,
            ValueType::Struct => 23,
            ValueType::Interface => 24,
            ValueType::Closure => 25,
            ValueType::Channel => 26,
            ValueType::Pointer => 27,
            ValueType::UnsafePtr => 28,
        }
    }
}

/// The number that stands for a type that may be absent.
pub open spec fn type_number(typ: Option<ValueType>) -> u8 {
    match typ {
        Some(t) => t.number(),
        None => 0,
    }
}

fn type_to_u8(typ: Option<ValueType>) -> (number: u8)
    ensures
        number == type_number(typ),
{
    match typ {
        Some(t) => t.to_u8(),
        None => 0,
    }
}

/// One instruction, packed into a word: from the top an operation, three types of
/// a byte each and an operand of four bytes.
#[derive(Clone, Copy, Debug, PartialEq, Eq, Hash, Structural)]
pub struct Instruction {
    pub val: u64,
}

/// The word with the given parts.
pub open spec fn packed(op: u8, t0: u8, t1: u8, t2: u8, imm: i32) -> u64 {
    ((op as u64) << 56) | ((t0 as u64) << 48) | ((t1 as u64) << 40) | ((t2 as u64) << 32) | ((
    imm as u32) as u64)
}

/// What an instruction says.
pub struct InstructionParts {
    pub op: u8,
    pub t0: u8,
    pub t1: u8,
    pub t2: u8,
    pub imm: i32,
}

impl Instruction {
    /// The parts of the instruction.
    pub open spec fn parts(self) -> InstructionParts {
        InstructionParts {
            op: (self.val >> 56) as u8,
            t0: (self.val >> 48) as u8,
            t1: (self.val >> 40) as u8,
            t2: (self.val >> 32) as u8,
            imm: (self.val as u32) as i32,
        }
    }

    /// The instruction with the given parts. What is absent counts as zero.
    pub fn new(
        op: Opcode,
        type0: Option<ValueType>,
        type1: Option<ValueType>,
        type2: Option<ValueType>,
        imm: Option<OpIndex>,
    ) -> (inst: Instruction)
        ensures
            inst.val == packed(
                op.code,
                type_number(type0),
                type_number(type1),
                type_number(type2),
                (if imm is Some { imm->0 } else { 0i32 }),
            ),
    {
        let operand: i32 = match imm {
            Some(i) => i,
            None => 0,
        };
        let t0: u8 = type_to_u8(type0);
        let t1: u8 = type_to_u8(type1);
        let t2: u8 = type_to_u8(type2);
        Instruction {
            val: ((op.code as u64) << 56) | ((t0 as u64) << 48) | ((t1 as u64) << 40) | ((
            t2 as u64) << 32) | ((operand as u32) as u64),
        }
    }

    /// The instruction that a raw word stands for.
    pub fn from_u64(v: u64) -> (inst: Instruction)
        ensures
            inst.val == v,
    {
        Instruction { val: v }
    }

    /// Puts an index where the third type stands.
    pub fn set_t2_with_index(&mut self, index: i8)
        ensures
            final(self).parts() == (InstructionParts { t2: index as u8, ..old(self).parts() }),
    {
        let before: u64 = self.val;
        let byte: u8 = index as u8;
        let after: u64 = (before & 0xffff_ff00_ffff_ffff) | ((byte as u64) << 32);
        proof {
            assert(after >> 56 == before >> 56 && (after >> 48) as u8 == (before >> 48) as u8 && (
            after >> 40) as u8 == (before >> 40) as u8 && (after >> 32) as u8 == byte
                && after as u32 == before as u32) by (bit_vector)
                requires
                    after == (before & 0xffff_ff00_ffff_ffff) | ((byte as u64) << 32),
            ;
        }
        self.val = after;
    }
}

/// An instruction says what it was made of.
pub proof fn law_packing_keeps_the_parts(op: u8, t0: u8, t1: u8, t2: u8, imm: i32)
    ensures
        (Instruction { val: packed(op, t0, t1, t2, imm) }).parts() == (InstructionParts {
            op,
            t0,
            t1,
            t2,
            imm,
        }),
{
    let val = packed(op, t0, t1, t2, imm);
    assert((val >> 56) as u8 == op && (val >> 48) as u8 == t0 && (val >> 40) as u8 == t1 && (val
        >> 32) as u8 == t2 && (val as u32) as i32 == imm) by (bit_vector)
        requires
            val == ((op as u64) << 56) | ((t0 as u64) << 48) | ((t1 as u64) << 40) | ((t2 as u64)
                << 32) | ((imm as u32) as u64),
    ;
}

/// An instruction is made of what it says: it has no other parts.
pub proof fn law_the_parts_make_the_instruction(inst: Instruction)
    ensures
        packed(
            inst.parts().op,
            inst.parts().t0,
            inst.parts().t1,
            inst.parts().t2,
            inst.parts().imm,
        ) == inst.val,
{
    let val = inst.val;
    let op = (val >> 56) as u8;
    let t0 = (val >> 48) as u8;
    let t1 = (val >> 40) as u8;
    let t2 = (val >> 32) as u8;
    let imm = (val as u32) as i32;
    assert(((op as u64) << 56) | ((t0 as u64) << 48) | ((t1 as u64) << 40) | ((t2 as u64) << 32)
        | ((imm as u32) as u64) == val) by (bit_vector)
        requires
            op == (val >> 56) as u8,
            t0 == (val >> 48) as u8,
            t1 == (val >> 40) as u8,
            t2 == (val >> 32) as u8,
            imm == (val as u32) as i32,
    ;
}

/// Types are told apart by their numbers, and the number of an absent type is that of nil.
pub proof fn law_types_have_numbers_of_their_own(a: ValueType, b: ValueType)
    ensures
        a.number() == b.number() ==> a == b,
        a.number() < 29,
        type_number(Some(a)) == a.number(),
        type_number(None) == 0,
        ValueType::Nil.number() == 0,
{
}

/// From the top, the bytes of an instruction are its operation and its three types, and the
/// lower half is its operand.
pub proof fn law_where_the_parts_stand(op: u8, t0: u8, t1: u8, t2: u8, imm: i32)
    ensures
        packed(op, t0, t1, t2, imm) / 0x100_0000_0000_0000 == op,
        packed(op, t0, t1, t2, imm) / 0x1_0000_0000_0000 % 0x100 == t0,
        packed(op, t0, t1, t2, imm) / 0x100_0000_0000 % 0x100 == t1,
        packed(op, t0, t1, t2, imm) / 0x1_0000_0000 % 0x100 == t2,
        packed(op, t0, t1, t2, imm) % 0x1_0000_0000 == imm as u32,
{
    let val = packed(op, t0, t1, t2, imm);
    let low = imm as u32;
    assert(val / 0x100_0000_0000_0000 == op && val / 0x1_0000_0000_0000 % 0x100 == t0 && val
        / 0x100_0000_0000 % 0x100 == t1 && val / 0x1_0000_0000 % 0x100 == t2 && val % 0x1_0000_0000
        == low) by (bit_vector)
        requires
            val == ((op as u64) << 56) | ((t0 as u64) << 48) | ((t1 as u64) << 40) | ((t2 as u64)
                << 32) | (low as u64),
    ;
}

} // verus!
