//! Functions of the running program.
use std::collections::HashMap;
use vstd::prelude::*;

use crate::arena::Arena;
use crate::compare;
use crate::heap::{Heap, HeapState};
use crate::instruction;
use crate::instruction::{Instruction, OpIndex, Opcode, ValueType};
use crate::keys::{FunctionKey, MetadataKey, PackageKey};
use crate::metadata::{Meta, MetadataObjs, MetadataType, SigMetadata};
use crate::upvalue::ValueDesc;
use crate::value::GosValue;

verus! {

/// The functions of a program.
pub type FunctionObjs = Arena<FunctionKey, FunctionVal>;

/// What an identifier in a function stands for. Where an entity is known by a key,
/// the number of the key is kept.
#[derive(Clone, Copy, Debug, PartialEq, Eq, Structural)]
pub enum EntIndex {
    Const(OpIndex),
    LocalVar(OpIndex),
    UpValue(OpIndex),
    PackageMember(PackageKey, u64),
    BuiltInVal(Opcode),
    TypeMeta(Meta),
    Blank,
}

impl EntIndex {
    /// Whether the entity has a number of its own in the function.
    pub open spec fn is_numbered(self) -> bool {
        self is Const || self is LocalVar || self is UpValue
    }

    /// The number of a constant, a local variable or an up value.
    pub fn op_index(self) -> (index: OpIndex)
        requires
            self.is_numbered(),
        ensures
            self == EntIndex::Const(index) || self == EntIndex::LocalVar(index) || self
                == EntIndex::UpValue(index),
    {
        match self {
            EntIndex::Const(i) => i,
            EntIndex::LocalVar(i) => i,
            EntIndex::UpValue(i) => i,
            _ => {
                assert(false);
                0
            },
        }
    }
}

#[derive(Clone, Copy, Debug, PartialEq, Eq, Structural)]
pub enum FuncFlag {
    Default,
    PkgCtor,
    HasDefer,
}

/// A function: its code with the position of each instruction in the source, and what
/// the code refers to.
#[derive(Clone, Debug)]
pub struct FunctionVal {
    pub package: PackageKey,
    pub meta: Meta,
    pub code: Vec<Instruction>,
    pub pos: Vec<Option<usize>>,
    pub consts: Vec<GosValue>,
    pub up_ptrs: Vec<ValueDesc>,
    /// The types of the receiver, the parameters and the local variables.
    pub stack_temp_types: Vec<ValueType>,
    pub ret_zeros: Vec<GosValue>,
    pub local_zeros: Vec<GosValue>,
    pub flag: FuncFlag,
    pub entities: HashMap<u64, EntIndex>,
    pub uv_entities: HashMap<u64, EntIndex>,
    pub local_alloc: OpIndex,
}

/// What a function consists of.
#[verifier::ext_equal]
pub struct FunctionState {
    pub package: PackageKey,
    pub meta: Meta,
    pub code: Seq<Instruction>,
    pub pos: Seq<Option<usize>>,
    pub consts: Seq<GosValue>,
    pub up_ptrs: Seq<ValueDesc>,
    pub stack_temp_types: Seq<ValueType>,
    pub ret_zeros: Seq<GosValue>,
    pub local_zeros: Seq<GosValue>,
    pub flag: FuncFlag,
    pub entities: Map<u64, EntIndex>,
    pub uv_entities: Map<u64, EntIndex>,
    pub local_alloc: OpIndex,
}

impl View for FunctionVal {
    type V = FunctionState;

    open spec fn view(&self) -> FunctionState {
        FunctionState {
            package: self.package,
            meta: self.meta,
            code: self.code@,
            pos: self.pos@,
            consts: self.consts@,
            up_ptrs: self.up_ptrs@,
            stack_temp_types: self.stack_temp_types@,
            ret_zeros: self.ret_zeros@,
            local_zeros: self.local_zeros@,
            flag: self.flag,
            entities: self.entities@,
            uv_entities: self.uv_entities@,
            local_alloc: self.local_alloc,
        }
    }
}

/// The heap after a zero value was made for each of the types in turn, and the zero
/// values.
pub open spec fn zeros_of(
    h: HeapState,
    metas: Map<MetadataKey, MetadataType>,
    types: Seq<Meta>,
) -> Option<(HeapState, Seq<GosValue>)>
    decreases types.len(),
{
    if types.len() == 0 {
        Some((h, Seq::empty()))
    } else {
        match zeros_of(h, metas, types.drop_last()) {
            Some((h1, zeros)) => if metas.contains_key(types.last().key) {
                match metas[types.last().key].spec_zero(h1) {
                    Some((h2, zero)) => Some((h2, zeros.push(zero))),
                    None => None,
                }
            } else {
                None
            },
            None => None,
        }
    }
}

/// The types at run time of values of the given types.
pub open spec fn value_types(
    metas: Map<MetadataKey, MetadataType>,
    types: Seq<Meta>,
) -> Seq<ValueType> {
    types.map_values(|m: Meta| metas[m.key].spec_value_type())
}

/// The types of the receiver, if there is one, and of the parameters.
pub open spec fn input_types(sig: SigMetadata) -> Seq<Meta> {
    match sig.recv {
        Some(recv) => seq![recv] + sig.params@,
        None => sig.params@,
    }
}

/// The place of the first constant from `i` on that is of the type of `val` and equal
/// to it, or nothing where there is none.
pub open spec fn find_const(
    h: HeapState,
    consts: Seq<GosValue>,
    val: GosValue,
    i: int,
) -> Option<Option<int>>
    decreases consts.len() - i,
{
    if i >= consts.len() {
        Some(None)
    } else if val.spec_value_type() != consts[i].spec_value_type() {
        find_const(h, consts, val, i + 1)
    } else {
        match compare::eq_value(h, val, consts[i]) {
            Some(true) => Some(Some(i)),
            Some(false) => find_const(h, consts, val, i + 1),
            None => None,
        }
    }
}

impl FunctionState {
    /// A function of the given signature, with nothing in it yet.
    pub open spec fn fresh(
        package: PackageKey,
        meta: Meta,
        types: Seq<ValueType>,
        zeros: Seq<GosValue>,
        flag: FuncFlag,
    ) -> FunctionState {
        FunctionState {
            package,
            meta,
            code: Seq::empty(),
            pos: Seq::empty(),
            consts: Seq::empty(),
            up_ptrs: Seq::empty(),
            stack_temp_types: types,
            ret_zeros: zeros,
            local_zeros: Seq::empty(),
            flag,
            entities: Map::empty(),
            uv_entities: Map::empty(),
            local_alloc: 0,
        }
    }

    /// The function with one more instruction.
    pub open spec fn with_inst(self, val: u64, pos: Option<usize>) -> FunctionState {
        FunctionState {
            code: self.code.push(Instruction { val }),
            pos: self.pos.push(pos),
            ..self
        }
    }

    /// The number of parameters, with the receiver.
    pub open spec fn params(self) -> int {
        self.stack_temp_types.len() - self.local_zeros.len()
    }

    /// The function with one more local variable.
    pub open spec fn with_local(self, entity: Option<u64>) -> FunctionState {
        FunctionState {
            entities: match entity {
                Some(key) => self.entities.insert(key, EntIndex::LocalVar(self.local_alloc)),
                None => self.entities,
            },
            local_alloc: (self.local_alloc + 1) as OpIndex,
            ..self
        }
    }

    /// The function with one more constant.
    pub open spec fn with_const(self, entity: Option<u64>, cst: GosValue) -> FunctionState {
        FunctionState {
            consts: self.consts.push(cst),
            entities: match entity {
                Some(key) => self.entities.insert(
                    key,
                    EntIndex::Const(self.consts.len() as OpIndex),
                ),
                None => self.entities,
            },
            ..self
        }
    }

    /// The function with one more up value.
    pub open spec fn with_upvalue(self, entity: u64, uv: ValueDesc) -> FunctionState {
        FunctionState {
            up_ptrs: self.up_ptrs.push(uv),
            uv_entities: self.uv_entities.insert(
                entity,
                EntIndex::UpValue(self.up_ptrs.len() as OpIndex),
            ),
            ..self
        }
    }
}

/// The word of an instruction.
pub open spec fn inst_word(op: Opcode, types: Seq<Option<ValueType>>, imm: Option<i32>) -> u64 {
    instruction::packed(
        op.code,
        instruction::type_number(types[0]),
        instruction::type_number(types[1]),
        instruction::type_number(types[2]),
        (if imm is Some {
            imm->0
        } else {
            0i32
        }),
    )
}

impl FunctionVal {
    /// A function of the given signature, with nothing in it yet.
    pub fn new(
        package: PackageKey,
        meta: Meta,
        metas: &MetadataObjs,
        heap: &mut Heap,
        flag: FuncFlag,
    ) -> (func: FunctionVal)
        requires
            metas.wf(),
            metas@.contains_key(meta.key),
            metas@[meta.key] matches MetadataType::Signature(sig) && zeros_of(
                old(heap)@,
                metas@,
                sig.results@,
            ) is Some && forall|i: int|
                0 <= i < input_types(sig).len() ==> metas@.contains_key(
                    (#[trigger] input_types(sig)[i]).key,
                ),
        ensures
            metas@[meta.key] matches MetadataType::Signature(sig) && zeros_of(
                old(heap)@,
                metas@,
                sig.results@,
            ) matches Some((h, zeros)) && final(heap)@ == h && func@ == FunctionState::fresh(
                package,
                meta,
                value_types(metas@, input_types(sig)),
                zeros,
                flag,
            ),
            metas@[meta.key] matches MetadataType::Signature(sig) && func@.params()
                == sig.params.len() + (if sig.recv is Some {
                1int
            } else {
                0int
            }),
    {
        broadcast use vstd::std_specs::hash::group_hash_axioms;

        let mut p_types: Vec<ValueType> = Vec::new();
        let mut results: Vec<GosValue> = Vec::new();
        if let MetadataType::Signature(s) = metas.at(meta.key) {
            results = zero_values(&s.results, metas, heap);
            if let Some(recv) = s.recv {
                assert(input_types(*s)[0] == recv);
                p_types.push(recv.value_type(metas));
            }
            proof {
                let first = p_types.len();
                assert forall|k: int| 0 <= k < s.params.len() implies metas@.contains_key(
                    (#[trigger] s.params[k]).key,
                ) by {
                    assert(input_types(*s)[first + k] == s.params[k]);
                }
            }
            p_types.append(&mut type_row(&s.params, metas));
            assert(p_types@ =~= value_types(metas@, input_types(*s)));
        }
        FunctionVal {
            package,
            meta,
            code: Vec::new(),
            pos: Vec::new(),
            consts: Vec::new(),
            up_ptrs: Vec::new(),
            stack_temp_types: p_types,
            ret_zeros: results,
            local_zeros: Vec::new(),
            flag,
            entities: HashMap::new(),
            uv_entities: HashMap::new(),
            local_alloc: 0,
        }
    }

    pub fn code(&self) -> (code: &Vec<Instruction>)
        ensures
            code@ == self@.code,
    {
        &self.code
    }

    /// Instruction `i`, to be changed in place.
    pub fn instruction_mut(&mut self, i: usize) -> (inst: &mut Instruction)
        requires
            i < old(self)@.code.len(),
        ensures
            *inst == old(self)@.code[i as int],
            final(self)@ == (FunctionState {
                code: old(self)@.code.update(i as int, *final(inst)),
                ..old(self)@
            }),
    {
        &mut self.code[i]
    }

    pub fn pos(&self) -> (pos: &Vec<Option<usize>>)
        ensures
            pos@ == self@.pos,
    {
        &self.pos
    }

    /// The number of parameters, with the receiver.
    pub fn param_count(&self) -> (count: usize)
        requires
            self@.params() >= 0,
        ensures
            count == self@.params(),
    {
        self.stack_temp_types.len() - self.local_zeros.len()
    }

    /// The types of the parameters, with the receiver.
    pub fn param_types(&self) -> (types: &[ValueType])
        requires
            self@.params() >= 0,
        ensures
            types@ == self@.stack_temp_types.take(self@.params()),
    {
        vstd::slice::slice_subrange(self.stack_temp_types.as_slice(), 0, self.param_count())
    }

    pub fn ret_count(&self) -> (count: usize)
        ensures
            count == self@.ret_zeros.len(),
    {
        self.ret_zeros.len()
    }

    /// Whether the function is the constructor of its package.
    pub fn is_ctor(&self) -> (ctor: bool)
        ensures
            ctor == (self@.flag == FuncFlag::PkgCtor),
    {
        self.flag == FuncFlag::PkgCtor
    }

    /// The number of local variables besides parameters and results.
    pub fn local_count(&self) -> (count: usize)
        requires
            self@.params() >= 0,
            self@.local_alloc >= self@.params() + self@.ret_zeros.len(),
        ensures
            count == self@.local_alloc - self@.params() - self@.ret_zeros.len(),
    {
        self.local_alloc as usize - self.param_count() - self.ret_count()
    }

    /// What an entity stands for in the function.
    pub fn entity_index(&self, entity: &u64) -> (index: Option<&EntIndex>)
        ensures
            index is Some <==> self@.entities.contains_key(*entity),
            index matches Some(i) ==> *i == self@.entities[*entity],
    {
        broadcast use vstd::std_specs::hash::group_hash_axioms;

        self.entities.get(entity)
    }

    pub fn const_val(&self, index: OpIndex) -> (val: &GosValue)
        requires
            0 <= index < self@.consts.len(),
        ensures
            *val == self@.consts[index as int],
    {
        &self.consts[index as usize]
    }

    /// How far the end of the code is from `loc`.
    pub fn offset(&self, loc: usize) -> (offset: OpIndex)
        requires
            loc <= self@.code.len(),
            self@.code.len() - loc <= i32::MAX,
        ensures
            offset == self@.code.len() - loc,
    {
        (self.code.len() - loc) as OpIndex
    }

    pub fn next_code_index(&self) -> (index: usize)
        ensures
            index == self@.code.len(),
    {
        self.code.len()
    }

    /// Adds an instruction with its position.
    pub fn push_inst_pos(&mut self, i: Instruction, pos: Option<usize>)
        ensures
            final(self)@ == old(self)@.with_inst(i.val, pos),
    {
        self.code.push(i);
        self.pos.push(pos);
    }

    /// Adds an instruction. What is absent counts as zero.
    pub fn emit_inst(
        &mut self,
        op: Opcode,
        types: [Option<ValueType>; 3],
        imm: Option<i32>,
        pos: Option<usize>,
    )
        ensures
            final(self)@ == old(self)@.with_inst(inst_word(op, types@, imm), pos),
    {
        let i = Instruction::new(op, types[0], types[1], types[2], imm);
        self.push_inst_pos(i, pos);
    }

    pub fn emit_raw_inst(&mut self, u: u64, pos: Option<usize>)
        ensures
            final(self)@ == old(self)@.with_inst(u, pos),
    {
        let i = Instruction::from_u64(u);
        self.push_inst_pos(i, pos);
    }

    pub fn emit_code_with_type(&mut self, code: Opcode, t: ValueType, pos: Option<usize>)
        ensures
            final(self)@ == old(self)@.with_inst(
                instruction::packed(code.code, t.number(), 0, 0, 0),
                pos,
            ),
    {
        self.emit_inst(code, [Some(t), None, None], None, pos);
    }

    pub fn emit_code_with_type2(
        &mut self,
        code: Opcode,
        t0: ValueType,
        t1: Option<ValueType>,
        pos: Option<usize>,
    )
        ensures
            final(self)@ == old(self)@.with_inst(
                instruction::packed(code.code, t0.number(), instruction::type_number(t1), 0, 0),
                pos,
            ),
    {
        self.emit_inst(code, [Some(t0), t1, None], None, pos);
    }

    pub fn emit_code_with_imm(&mut self, code: Opcode, imm: OpIndex, pos: Option<usize>)
        ensures
            final(self)@ == old(self)@.with_inst(
                instruction::packed(code.code, 0, 0, 0, imm),
                pos,
            ),
    {
        self.emit_inst(code, [None, None, None], Some(imm), pos);
    }

    pub fn emit_code_with_type_imm(
        &mut self,
        code: Opcode,
        t: ValueType,
        imm: OpIndex,
        pos: Option<usize>,
    )
        ensures
            final(self)@ == old(self)@.with_inst(
                instruction::packed(code.code, t.number(), 0, 0, imm),
                pos,
            ),
    {
        self.emit_inst(code, [Some(t), None, None], Some(imm), pos);
    }

    /// Adds an instruction with a flag where the third type stands.
    pub fn emit_code_with_flag_imm(
        &mut self,
        code: Opcode,
        comma_ok: bool,
        imm: OpIndex,
        pos: Option<usize>,
    )
        ensures
            final(self)@ == old(self)@.with_inst(
                instruction::packed(
                    code.code,
                    0,
                    0,
                    (if comma_ok {
                        1u8
                    } else {
                        0u8
                    }),
                    imm,
                ),
                pos,
            ),
    {
        let mut inst = Instruction::new(code, None, None, None, Some(imm));
        let flag: i8 = if comma_ok {
            1
        } else {
            0
        };
        inst.set_t2_with_index(flag);
        proof {
            instruction::law_packing_keeps_the_parts(code.code, 0, 0, 0, imm);
            instruction::law_the_parts_make_the_instruction(inst);
        }
        self.push_inst_pos(inst, pos);
    }

    pub fn emit_code(&mut self, code: Opcode, pos: Option<usize>)
        ensures
            final(self)@ == old(self)@.with_inst(instruction::packed(code.code, 0, 0, 0, 0), pos),
    {
        self.emit_inst(code, [None, None, None], None, pos);
    }

    /// The number of the first constant that is identical with `val`.
    pub fn get_const_index(&self, val: &GosValue, heap: &Heap) -> (index: Option<EntIndex>)
        requires
            self@.consts.len() <= i32::MAX,
            find_const(heap@, self@.consts, *val, 0) is Some,
        ensures
            index == (match find_const(heap@, self@.consts, *val, 0)->0 {
                Some(i) => Some(EntIndex::Const(i as OpIndex)),
                None => None,
            }),
    {
        let mut i: usize = 0;
        while i < self.consts.len()
            invariant
                i <= self.consts.len() <= i32::MAX,
                find_const(heap@, self@.consts, *val, 0) is Some,
                find_const(heap@, self@.consts, *val, 0) == find_const(
                    heap@,
                    self@.consts,
                    *val,
                    i as int,
                ),
            decreases self.consts.len() - i,
        {
            if val.identical(&self.consts[i], heap) {
                return Some(EntIndex::Const(i as OpIndex));
            }
            i = i + 1;
        }
        None
    }

    /// Adds a local variable for an entity that has none yet.
    pub fn add_local(&mut self, entity: Option<u64>) -> (index: EntIndex)
        requires
            old(self)@.local_alloc < i32::MAX,
            entity matches Some(key) ==> !old(self)@.entities.contains_key(key),
        ensures
            index == EntIndex::LocalVar(old(self)@.local_alloc),
            final(self)@ == old(self)@.with_local(entity),
    {
        broadcast use vstd::std_specs::hash::group_hash_axioms;

        let result: OpIndex = self.local_alloc;
        if let Some(key) = entity {
            self.entities.insert(key, EntIndex::LocalVar(result));
        }
        self.local_alloc = self.local_alloc + 1;
        EntIndex::LocalVar(result)
    }

    /// Adds the type and the zero value of a local variable.
    pub fn add_local_zero(&mut self, zero: GosValue, typ: ValueType)
        ensures
            final(self)@ == (FunctionState {
                stack_temp_types: old(self)@.stack_temp_types.push(typ),
                local_zeros: old(self)@.local_zeros.push(zero),
                ..old(self)@
            }),
    {
        self.stack_temp_types.push(typ);
        self.local_zeros.push(zero);
    }

    /// The number of a constant, which is added if it is not there yet. An entity is
    /// given where the constant is being defined, and then only once.
    pub fn add_const(&mut self, entity: Option<u64>, cst: GosValue, heap: &Heap) -> (index:
        EntIndex)
        requires
            old(self)@.consts.len() <= i32::MAX,
            find_const(heap@, old(self)@.consts, cst, 0) is Some,
            find_const(heap@, old(self)@.consts, cst, 0) == Some(None::<int>) ==> (
            entity matches Some(key) ==> !old(self)@.entities.contains_key(key)),
        ensures
            match find_const(heap@, old(self)@.consts, cst, 0)->0 {
                Some(i) => index == EntIndex::Const(i as OpIndex) && final(self)@ == old(self)@,
                None => index == EntIndex::Const(old(self)@.consts.len() as OpIndex) && final(self)@ == old(self)@.with_const(entity, cst),
            },
    {
        broadcast use vstd::std_specs::hash::group_hash_axioms;

        if let Some(index) = self.get_const_index(&cst, heap) {
            index
        } else {
            self.consts.push(cst);
            let result: OpIndex = (self.consts.len() - 1) as OpIndex;
            if let Some(key) = entity {
                self.entities.insert(key, EntIndex::Const(result));
            }
            EntIndex::Const(result)
        }
    }

    /// The number of the up value for an entity, which is added if there is none yet.
    pub fn try_add_upvalue(&mut self, entity: &u64, uv: ValueDesc) -> (index: EntIndex)
        requires
            old(self)@.up_ptrs.len() <= i32::MAX,
        ensures
            if old(self)@.uv_entities.contains_key(*entity) {
                index == old(self)@.uv_entities[*entity] && final(self)@ == old(self)@
            } else {
                index == EntIndex::UpValue(old(self)@.up_ptrs.len() as OpIndex) && final(self)@
                    == old(self)@.with_upvalue(*entity, uv)
            },
    {
        broadcast use vstd::std_specs::hash::group_hash_axioms;

        if let Some(i) = self.uv_entities.get(entity) {
            return *i;
        }
        self.add_upvalue(entity, uv)
    }

    fn add_upvalue(&mut self, entity: &u64, uv: ValueDesc) -> (index: EntIndex)
        requires
            old(self)@.up_ptrs.len() <= i32::MAX,
        ensures
            index == EntIndex::UpValue(old(self)@.up_ptrs.len() as OpIndex),
            final(self)@ == old(self)@.with_upvalue(*entity, uv),
    {
        broadcast use vstd::std_specs::hash::group_hash_axioms;

        self.up_ptrs.push(uv);
        let i: OpIndex = (self.up_ptrs.len() - 1) as OpIndex;
        let et = EntIndex::UpValue(i);
        self.uv_entities.insert(*entity, et);
        et
    }
}

/// The types at run time of values of the given types.
fn type_row(types: &Vec<Meta>, metas: &MetadataObjs) -> (row: Vec<ValueType>)
    requires
        metas.wf(),
        forall|i: int|
            0 <= i < types.len() ==> metas@.contains_key((#[trigger] types[i]).key),
    ensures
        row@ == value_types(metas@, types@),
{
    let mut row: Vec<ValueType> = Vec::with_capacity(types.len());
    let mut i: usize = 0;
    while i < types.len()
        invariant
            i <= types.len(),
            metas.wf(),
            forall|k: int|
                0 <= k < types.len() ==> metas@.contains_key((#[trigger] types[k]).key),
            row@ == value_types(metas@, types@.take(i as int)),
        decreases types.len() - i,
    {
        row.push(types[i].value_type(metas));
        i = i + 1;
        assert(row@ =~= value_types(metas@, types@.take(i as int)));
    }
    assert(types@.take(i as int) =~= types@);
    row
}

/// Makes a zero value for each of the types.
fn zero_values(types: &Vec<Meta>, metas: &MetadataObjs, heap: &mut Heap) -> (zeros: Vec<GosValue>)
    requires
        metas.wf(),
        zeros_of(old(heap)@, metas@, types@) is Some,
    ensures
        zeros_of(old(heap)@, metas@, types@)->0 == (final(heap)@, zeros@),
{
    let ghost start = heap@;
    let mut zeros: Vec<GosValue> = Vec::with_capacity(types.len());
    let mut i: usize = 0;
    while i < types.len()
        invariant
            i <= types.len(),
            metas.wf(),
            zeros_of(start, metas@, types@) is Some,
            zeros_of(start, metas@, types@.take(i as int)) == Some((heap@, zeros@)),
        decreases types.len() - i,
    {
        proof {
            lemma_fewer_zeros(start, metas@, types@, i + 1);
            assert(types@.take(i + 1).drop_last() =~= types@.take(i as int));
        }
        zeros.push(types[i].zero(metas, heap));
        i = i + 1;
    }
    assert(types@.take(i as int) =~= types@);
    zeros
}

proof fn lemma_fewer_zeros(
    h: HeapState,
    metas: Map<MetadataKey, MetadataType>,
    types: Seq<Meta>,
    n: int,
)
    requires
        0 <= n <= types.len(),
        zeros_of(h, metas, types) is Some,
    ensures
        zeros_of(h, metas, types.take(n)) is Some,
    decreases types.len(),
{
    if n == types.len() {
        assert(types.take(n) =~= types);
    } else {
        lemma_fewer_zeros(h, metas, types.drop_last(), n);
        assert(types.drop_last().take(n) =~= types.take(n));
    }
}

/// Every instruction has a position, whatever is added to the function.
pub proof fn law_every_instruction_has_a_position(
    f: FunctionState,
    val: u64,
    pos: Option<usize>,
    entity: Option<u64>,
    cst: GosValue,
    key: u64,
    uv: ValueDesc,
)
    requires
        f.code.len() == f.pos.len(),
    ensures
        f.with_inst(val, pos).code.len() == f.with_inst(val, pos).pos.len(),
        f.with_local(entity).code.len() == f.with_local(entity).pos.len(),
        f.with_const(entity, cst).code.len() == f.with_const(entity, cst).pos.len(),
        f.with_upvalue(key, uv).code.len() == f.with_upvalue(key, uv).pos.len(),
{
}

/// Looking for a constant among one more constant.
proof fn lemma_find_pushed(
    h: HeapState,
    consts: Seq<GosValue>,
    last: GosValue,
    val: GosValue,
    i: int,
)
    requires
        0 <= i <= consts.len(),
    ensures
        find_const(h, consts.push(last), val, i) == match find_const(h, consts, val, i) {
            Some(None) => find_const(h, consts.push(last), val, consts.len() as int),
            other => other,
        },
    decreases consts.len() - i,
{
    if i < consts.len() {
        assert(consts.push(last)[i] == consts[i]);
        lemma_find_pushed(h, consts, last, val, i + 1);
    }
}

/// A constant that was added is found again under the number it got, and adding more
/// constants does not change that, if the constant equals itself.
pub proof fn law_a_constant_is_added_once(
    h: HeapState,
    consts: Seq<GosValue>,
    cst: GosValue,
    more: GosValue,
)
    requires
        find_const(h, consts, cst, 0) == Some(None::<int>),
        compare::eq_value(h, cst, cst) == Some(true),
    ensures
        find_const(h, consts.push(cst), cst, 0) == Some(Some(consts.len() as int)),
        find_const(h, consts.push(cst).push(more), cst, 0) == Some(Some(consts.len() as int)),
{
    lemma_find_pushed(h, consts, cst, cst, 0);
    assert(consts.push(cst)[consts.len() as int] == cst);
    lemma_find_pushed(h, consts.push(cst), more, cst, 0);
}

/// The constant that is found is there, is of the type of the value and equals it,
/// and no constant before it does.
pub proof fn law_the_first_identical_constant_is_found(
    h: HeapState,
    consts: Seq<GosValue>,
    val: GosValue,
    i: int,
)
    requires
        0 <= i,
        find_const(h, consts, val, i) is Some,
    ensures
        match find_const(h, consts, val, i)->0 {
            Some(k) => {
                &&& i <= k < consts.len()
                &&& consts[k].spec_value_type() == val.spec_value_type()
                &&& compare::eq_value(h, val, consts[k]) == Some(true)
                &&& forall|m: int|
                    i <= m < k && (#[trigger] consts[m]).spec_value_type() == val.spec_value_type()
                        ==> compare::eq_value(h, val, consts[m]) == Some(false)
            },
            None => forall|m: int|
                i <= m < consts.len() && (#[trigger] consts[m]).spec_value_type()
                    == val.spec_value_type() ==> compare::eq_value(h, val, consts[m]) == Some(
                    false,
                ),
        },
    decreases consts.len() - i,
{
    if i < consts.len() {
        if consts[i].spec_value_type() != val.spec_value_type() || compare::eq_value(
            h,
            val,
            consts[i],
        ) == Some(false) {
            law_the_first_identical_constant_is_found(h, consts, val, i + 1);
        }
    }
}

/// An entity gets one up value: asking for it again gives the number it got.
pub proof fn law_an_upvalue_is_added_once(f: FunctionState, entity: u64, uv: ValueDesc)
    ensures
        f.with_upvalue(entity, uv).uv_entities.contains_key(entity),
        f.with_upvalue(entity, uv).uv_entities[entity] == EntIndex::UpValue(
            f.up_ptrs.len() as OpIndex,
        ),
        f.with_upvalue(entity, uv).up_ptrs.last() == uv,
{
}

/// Local variables are numbered one after the other, and adding a local variable or
/// its zero value does not change the number of parameters.
pub proof fn law_locals_are_numbered_in_turn(
    f: FunctionState,
    entity: u64,
    other: Option<u64>,
    zero: GosValue,
    typ: ValueType,
)
    requires
        f.local_alloc < i32::MAX - 1,
        other != Some(entity),
    ensures
        f.with_local(Some(entity)).entities[entity] == EntIndex::LocalVar(f.local_alloc),
        f.with_local(Some(entity)).with_local(other).entities[entity] == EntIndex::LocalVar(
            f.local_alloc,
        ),
        f.with_local(Some(entity)).local_alloc == f.local_alloc + 1,
        f.with_local(other).params() == f.params(),
        (FunctionState {
            stack_temp_types: f.stack_temp_types.push(typ),
            local_zeros: f.local_zeros.push(zero),
            ..f
        }).params() == f.params(),
{
}

/// A new function has a parameter for each of its signature, and one more in front of them
/// if there is a receiver, each of the type that values of that type have at run time. It
/// belongs to the package, has the signature, the zero values and the flag that were given,
/// and holds nothing yet.
pub proof fn law_what_a_new_function_is(
    package: PackageKey,
    meta: Meta,
    sig: SigMetadata,
    metas: Map<MetadataKey, MetadataType>,
    zeros: Seq<GosValue>,
    flag: FuncFlag,
)
    ensures
        ({
            let f = FunctionState::fresh(
                package,
                meta,
                value_types(metas, input_types(sig)),
                zeros,
                flag,
            );
            let k = if sig.recv is Some {
                1int
            } else {
                0int
            };
            &&& f.params() == k + sig.params.len()
            &&& f.stack_temp_types.len() == k + sig.params.len()
            &&& sig.recv matches Some(recv) ==> f.stack_temp_types[0]
                == metas[recv.key].spec_value_type()
            &&& forall|i: int|
                0 <= i < sig.params.len() ==> f.stack_temp_types[k + i] == metas[(
                #[trigger] sig.params[i]).key].spec_value_type()
            &&& f.package == package && f.meta == meta && f.flag == flag
            &&& f.ret_zeros == zeros
            &&& f.code.len() == 0 && f.pos.len() == 0
            &&& f.consts.len() == 0 && f.up_ptrs.len() == 0
            &&& f.local_zeros.len() == 0 && f.local_alloc == 0
            &&& forall|e: u64| !(#[trigger] f.entities.contains_key(e))
            &&& forall|e: u64| !(#[trigger] f.uv_entities.contains_key(e))
        }),
{
}

/// A function has as many zero values for its results as it has results, and each is a zero
/// value of the type at the same place, made after those before it.
pub proof fn law_each_result_has_its_zero_value(
    h: HeapState,
    metas: Map<MetadataKey, MetadataType>,
    types: Seq<Meta>,
    i: int,
)
    requires
        zeros_of(h, metas, types) is Some,
        0 <= i < types.len(),
    ensures
        (zeros_of(h, metas, types)->0).1.len() == types.len(),
        metas.contains_key(types[i].key),
        exists|h1: HeapState|
            (#[trigger] metas[types[i].key].spec_zero(h1)) matches Some((_, zero)) && zero == (
            zeros_of(h, metas, types)->0).1[i],
        match metas[types[i].key] {
            MetadataType::Basic(t) => (zeros_of(h, metas, types)->0).1[i] == GosValue::Scalar(t, 0),
            MetadataType::Str(empty) => (zeros_of(h, metas, types)->0).1[i] == empty,
            MetadataType::Array(_, _, _) => true,
            MetadataType::Struct(_, _) => true,
            _ => (zeros_of(h, metas, types)->0).1[i] == GosValue::Nil,
        },
    decreases types.len(),
{
    let (h1, zeros) = zeros_of(h, metas, types.drop_last())->0;
    let (h2, all) = zeros_of(h, metas, types)->0;
    lemma_as_many_zeros(h, metas, types);
    lemma_as_many_zeros(h, metas, types.drop_last());
    if i < types.len() - 1 {
        law_each_result_has_its_zero_value(h, metas, types.drop_last(), i);
        assert(all[i] == zeros[i]);
        assert(types.drop_last()[i] == types[i]);
    } else {
        assert(metas[types[i].key].spec_zero(h1) == Some((h2, all[i])));
    }
}

/// There are as many zero values as types.
pub proof fn lemma_as_many_zeros(
    h: HeapState,
    metas: Map<MetadataKey, MetadataType>,
    types: Seq<Meta>,
)
    requires
        zeros_of(h, metas, types) is Some,
    ensures
        (zeros_of(h, metas, types)->0).1.len() == types.len(),
    decreases types.len(),
{
    if types.len() > 0 {
        lemma_as_many_zeros(h, metas, types.drop_last());
    }
}

/// An instruction goes behind the others with its position, and changes nothing else.
pub proof fn law_an_instruction_is_added_behind(f: FunctionState, val: u64, pos: Option<usize>)
    ensures
        ({
            let g = f.with_inst(val, pos);
            &&& g == (FunctionState { code: g.code, pos: g.pos, ..f })
            &&& g.code.len() == f.code.len() + 1
            &&& g.pos.len() == f.pos.len() + 1
            &&& g.code.last().val == val
            &&& g.pos.last() == pos
            &&& g.code.drop_last() == f.code
            &&& g.pos.drop_last() == f.pos
        }),
{
    let g = f.with_inst(val, pos);
    assert(g.code.drop_last() =~= f.code);
    assert(g.pos.drop_last() =~= f.pos);
}

/// An emitted instruction says the operation, the types and the operand that it was made of.
/// A type that is absent stands as zero, and so does an absent operand.
pub proof fn law_an_instruction_says_what_was_emitted(
    op: Opcode,
    types: Seq<Option<ValueType>>,
    imm: Option<i32>,
)
    requires
        types.len() == 3,
    ensures
        ({
            let parts = (Instruction { val: inst_word(op, types, imm) }).parts();
            &&& parts.op == op.code
            &&& parts.t0 == (match types[0] {
                Some(t) => t.number(),
                None => 0u8,
            })
            &&& parts.t1 == (match types[1] {
                Some(t) => t.number(),
                None => 0u8,
            })
            &&& parts.t2 == (match types[2] {
                Some(t) => t.number(),
                None => 0u8,
            })
            &&& imm matches Some(i) ==> parts.imm == i
            &&& imm is None ==> parts.imm == 0
        }),
{
    instruction::law_packing_keeps_the_parts(
        op.code,
        instruction::type_number(types[0]),
        instruction::type_number(types[1]),
        instruction::type_number(types[2]),
        if imm is Some {
            imm->0
        } else {
            0i32
        },
    );
}

/// A constant goes behind the others and stands under its number. The entity that it defines
/// stands for that number, all others for what they stood for.
pub proof fn law_a_constant_goes_behind(f: FunctionState, entity: Option<u64>, cst: GosValue)
    requires
        f.consts.len() <= i32::MAX,
    ensures
        ({
            let g = f.with_const(entity, cst);
            &&& g == (FunctionState { consts: g.consts, entities: g.entities, ..f })
            &&& g.consts.len() == f.consts.len() + 1
            &&& g.consts.last() == cst
            &&& g.consts.drop_last() == f.consts
            &&& entity matches Some(key) ==> g.entities.contains_key(key) && (
            g.entities[key] matches EntIndex::Const(i) && g.consts[i as int] == cst && i
                == f.consts.len())
            &&& forall|e: u64|
                entity != Some(e) ==> #[trigger] g.entities.contains_key(e)
                    == f.entities.contains_key(e)
            &&& forall|e: u64|
                entity != Some(e) && f.entities.contains_key(e) ==> #[trigger] g.entities[e]
                    == f.entities[e]
        }),
{
    let g = f.with_const(entity, cst);
    assert(g.consts.drop_last() =~= f.consts);
}

/// An up value goes behind the others and stands under its number. The entity that it is for
/// stands for that number, all others for what they stood for.
pub proof fn law_an_upvalue_goes_behind(f: FunctionState, entity: u64, uv: ValueDesc)
    requires
        f.up_ptrs.len() <= i32::MAX,
    ensures
        ({
            let g = f.with_upvalue(entity, uv);
            &&& g == (FunctionState { up_ptrs: g.up_ptrs, uv_entities: g.uv_entities, ..f })
            &&& g.up_ptrs.len() == f.up_ptrs.len() + 1
            &&& g.up_ptrs.drop_last() == f.up_ptrs
            &&& g.uv_entities.contains_key(entity)
            &&& g.uv_entities[entity] matches EntIndex::UpValue(i) && g.up_ptrs[i as int] == uv
                && i == f.up_ptrs.len()
            &&& forall|e: u64|
                e != entity ==> #[trigger] g.uv_entities.contains_key(e)
                    == f.uv_entities.contains_key(e)
            &&& forall|e: u64|
                e != entity && f.uv_entities.contains_key(e) ==> #[trigger] g.uv_entities[e]
                    == f.uv_entities[e]
        }),
{
    let g = f.with_upvalue(entity, uv);
    assert(g.up_ptrs.drop_last() =~= f.up_ptrs);
}

/// A local variable takes the next number. Its entity stands for that number, all others for
/// what they stood for, and nothing else changes.
pub proof fn law_a_local_takes_the_next_number(f: FunctionState, entity: Option<u64>)
    requires
        f.local_alloc < i32::MAX,
    ensures
        ({
            let g = f.with_local(entity);
            &&& g == (FunctionState { local_alloc: g.local_alloc, entities: g.entities, ..f })
            &&& g.local_alloc == f.local_alloc + 1
            &&& entity matches Some(key) ==> g.entities.contains_key(key) && g.entities[key]
                == EntIndex::LocalVar(f.local_alloc)
            &&& forall|e: u64|
                entity != Some(e) ==> #[trigger] g.entities.contains_key(e)
                    == f.entities.contains_key(e)
            &&& forall|e: u64|
                entity != Some(e) && f.entities.contains_key(e) ==> #[trigger] g.entities[e]
                    == f.entities[e]
        }),
{
}

/// A constant can be looked for if it can be compared with those of its type.
pub proof fn law_constants_can_be_looked_for(
    h: HeapState,
    consts: Seq<GosValue>,
    val: GosValue,
    i: int,
)
    requires
        0 <= i,
        forall|m: int|
            0 <= m < consts.len() && (#[trigger] consts[m]).spec_value_type()
                == val.spec_value_type() ==> compare::eq_value(h, val, consts[m]) is Some,
    ensures
        find_const(h, consts, val, i) is Some,
    decreases consts.len() - i,
{
    if i < consts.len() {
        law_constants_can_be_looked_for(h, consts, val, i + 1);
    }
}

} // verus!
