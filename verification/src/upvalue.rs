//! Variables that outlive the call they were declared in.
use vstd::prelude::*;

use crate::heap::{Heap, HeapState};
use crate::instruction::{OpIndex, ValueType};
use crate::keys::FunctionKey;
use crate::stack;
use crate::stack::{typed, Stack};
use crate::value::GosValue;

verus! {

/// Where a local variable is to be found while its call is running: in the slot
/// `index` above the base of the call on its stack. A description that belongs to no
/// call yet has no stack.
#[derive(Clone, Copy, Debug)]
pub struct ValueDesc {
    pub func: FunctionKey,
    pub index: OpIndex,
    pub typ: ValueType,
    pub is_up_value: bool,
    pub stack: Option<usize>,
    pub stack_base: OpIndex,
}

impl ValueDesc {
    /// The slot of the variable.
    pub open spec fn position(self) -> int {
        self.stack_base + self.index
    }

    /// The stack of the variable, where `running` is the stack of the thread that is
    /// running now. There is none if its thread has come to its end.
    pub open spec fn slots(self, h: HeapState, running: Stack) -> Option<Seq<GosValue>> {
        match self.stack {
            Some(id) => if id == running.id {
                Some(running.slots@)
            } else if id < h.stacks.len() {
                h.stacks[id as int]
            } else {
                None
            },
            None => None,
        }
    }

    /// Whether the variable can be found.
    pub open spec fn reachable(self, h: HeapState, running: Stack) -> bool {
        &&& i32::MIN <= self.position() <= i32::MAX
        &&& self.slots(h, running) matches Some(slots) && 0 <= self.position() < slots.len()
    }

    /// The value of the variable.
    pub open spec fn loaded(self, h: HeapState, running: Stack) -> GosValue {
        stack::read_as(self.slots(h, running)->0[self.position()], self.typ)
    }

    /// The slots of the running stack after the variable was set.
    pub open spec fn stored_slots(self, val: GosValue, running: Stack) -> Seq<GosValue> {
        if self.stack == Some(running.id) {
            running.slots@.update(self.position(), val)
        } else {
            running.slots@
        }
    }

    /// The heap after the variable was set.
    pub open spec fn stored_heap(self, val: GosValue, h: HeapState, running: Stack) -> HeapState {
        if self.stack == Some(running.id) {
            h
        } else {
            h.with_stack(
                self.stack->0,
                Some(self.slots(h, running)->0.update(self.position(), val)),
            )
        }
    }

    pub fn new(func: FunctionKey, index: OpIndex, typ: ValueType, is_up_value: bool) -> (desc:
        ValueDesc)
        ensures
            desc == (ValueDesc { func, index, typ, is_up_value, stack: None, stack_base: 0 }),
    {
        ValueDesc { func, index, typ, is_up_value, stack: None, stack_base: 0 }
    }

    /// The same variable in a call with the given stack and base.
    pub fn clone_with_stack(&self, stack: Option<usize>, stack_base: OpIndex) -> (desc: ValueDesc)
        ensures
            desc == (ValueDesc { stack, stack_base, ..*self }),
    {
        ValueDesc {
            func: self.func,
            index: self.index,
            typ: self.typ,
            is_up_value: self.is_up_value,
            stack,
            stack_base,
        }
    }

    /// Descriptions are told apart by the number of the variable only.
    pub fn eq(&self, other: &ValueDesc) -> (same: bool)
        ensures
            same == (self.index == other.index),
    {
        self.index == other.index
    }

    /// Reads the variable.
    pub fn load(&self, stack: &Stack, heap: &Heap) -> (val: GosValue)
        requires
            self.reachable(heap@, *stack),
        ensures
            val == self.loaded(heap@, *stack),
    {
        let index: usize = (self.stack_base + self.index) as usize;
        match self.stack {
            Some(id) => {
                if id == stack.id {
                    stack.get_with_type(index, self.typ)
                } else {
                    match heap.stack(id) {
                        Some(slots) => typed(slots[index], self.typ),
                        None => GosValue::new_nil(),
                    }
                }
            },
            None => GosValue::new_nil(),
        }
    }

    /// Sets the variable.
    pub fn store(&self, val: GosValue, stack: &mut Stack, heap: &mut Heap)
        requires
            self.reachable(old(heap)@, *old(stack)),
        ensures
            final(stack).id == old(stack).id,
            final(stack).slots@ == self.stored_slots(val, *old(stack)),
            final(heap)@ == self.stored_heap(val, old(heap)@, *old(stack)),
    {
        let index: usize = (self.stack_base + self.index) as usize;
        if let Some(id) = self.stack {
            if id == stack.id {
                stack.set(index, val);
            } else {
                heap.set_stack_slot(id, index, val);
            }
        }
    }
}

#[derive(Clone, Copy, Debug)]
pub enum UpValueState {
    /// The call is still running: the variable is on a stack.
    Open(ValueDesc),
    /// The call is over: the variable has moved into the up value.
    Closed(GosValue),
}

/// A variable that closures and pointers share.
#[derive(Clone, Copy, Debug)]
pub struct UpValue {
    pub inner: usize,
}

impl UpValue {
    /// Whether the up value still exists.
    pub open spec fn alive(self, h: HeapState) -> bool {
        self.inner < h.upvalues.len() && h.upvalues[self.inner as int] is Some
    }

    /// The state of the up value.
    pub open spec fn state(self, h: HeapState) -> UpValueState {
        h.upvalues[self.inner as int]->0
    }

    /// Whether the variable can be found.
    pub open spec fn reachable(self, h: HeapState, running: Stack) -> bool {
        &&& self.alive(h)
        &&& self.state(h) matches UpValueState::Open(desc) ==> desc.reachable(h, running)
    }

    /// The value of the variable.
    pub open spec fn spec_value(self, h: HeapState, running: Stack) -> GosValue {
        match self.state(h) {
            UpValueState::Open(desc) => desc.loaded(h, running),
            UpValueState::Closed(val) => val,
        }
    }

    /// The slots of the running stack after the variable was set.
    pub open spec fn stored_slots(self, val: GosValue, h: HeapState, running: Stack) -> Seq<
        GosValue,
    > {
        match self.state(h) {
            UpValueState::Open(desc) => desc.stored_slots(val, running),
            UpValueState::Closed(_) => running.slots@,
        }
    }

    /// The heap after the variable was set.
    pub open spec fn stored_heap(self, val: GosValue, h: HeapState, running: Stack) -> HeapState {
        match self.state(h) {
            UpValueState::Open(desc) => desc.stored_heap(val, h, running),
            UpValueState::Closed(_) => h.with_upvalue(
                self.inner,
                Some(UpValueState::Closed(val)),
            ),
        }
    }

    /// An up value for a variable on a stack.
    pub fn new(d: ValueDesc, heap: &mut Heap) -> (uv: UpValue)
        ensures
            uv.inner == old(heap)@.upvalues.len(),
            final(heap)@ == old(heap)@.plus_upvalue(UpValueState::Open(d)),
    {
        UpValue { inner: heap.alloc_upvalue(UpValueState::Open(d)) }
    }

    /// An up value with a variable of its own.
    pub fn new_closed(v: GosValue, heap: &mut Heap) -> (uv: UpValue)
        ensures
            uv.inner == old(heap)@.upvalues.len(),
            final(heap)@ == old(heap)@.plus_upvalue(UpValueState::Closed(v)),
    {
        UpValue { inner: heap.alloc_upvalue(UpValueState::Closed(v)) }
    }

    pub fn is_open(&self, heap: &Heap) -> (open: bool)
        requires
            self.alive(heap@),
        ensures
            open == self.state(heap@) is Open,
    {
        match &heap.upvalues[self.inner] {
            Some(UpValueState::Open(_)) => true,
            _ => false,
        }
    }

    pub fn downgrade(&self) -> (weak: WeakUpValue)
        ensures
            weak.inner == self.inner,
    {
        WeakUpValue { inner: self.inner }
    }

    /// Where the variable of an open up value is.
    pub fn desc(&self, heap: &Heap) -> (desc: ValueDesc)
        requires
            self.alive(heap@),
            self.state(heap@) is Open,
        ensures
            self.state(heap@) == UpValueState::Open(desc),
    {
        match &heap.upvalues[self.inner] {
            Some(UpValueState::Open(d)) => *d,
            _ => {
                assert(false);
                ValueDesc::new(FunctionKey { number: 0 }, 0, ValueType::Nil, false)
            },
        }
    }

    /// Moves the variable into the up value, with the given value.
    pub fn close(&self, val: GosValue, heap: &mut Heap)
        requires
            self.alive(old(heap)@),
        ensures
            final(heap)@ == old(heap)@.with_upvalue(
                self.inner,
                Some(UpValueState::Closed(val)),
            ),
    {
        heap.set_upvalue(self.inner, Some(UpValueState::Closed(val)));
    }

    /// Reads the variable.
    pub fn value(&self, stack: &Stack, heap: &Heap) -> (val: GosValue)
        requires
            self.reachable(heap@, *stack),
        ensures
            val == self.spec_value(heap@, *stack),
    {
        match &heap.upvalues[self.inner] {
            Some(UpValueState::Open(desc)) => desc.load(stack, heap),
            Some(UpValueState::Closed(val)) => *val,
            None => GosValue::new_nil(),
        }
    }

    /// Sets the variable.
    pub fn set_value(&self, val: GosValue, stack: &mut Stack, heap: &mut Heap)
        requires
            self.reachable(old(heap)@, *old(stack)),
        ensures
            final(stack).id == old(stack).id,
            final(stack).slots@ == self.stored_slots(val, old(heap)@, *old(stack)),
            final(heap)@ == self.stored_heap(val, old(heap)@, *old(stack)),
    {
        match heap.upvalues[self.inner] {
            Some(UpValueState::Open(desc)) => desc.store(val, stack, heap),
            Some(UpValueState::Closed(_)) => {
                heap.set_upvalue(self.inner, Some(UpValueState::Closed(val)));
            },
            None => {},
        }
    }
}

/// An up value that does not keep its variable alive.
#[derive(Clone, Copy, Debug)]
pub struct WeakUpValue {
    pub inner: usize,
}

impl WeakUpValue {
    /// The up value, if there is one and it still exists.
    pub fn upgrade(&self, heap: &Heap) -> (uv: Option<UpValue>)
        ensures
            uv == (if self.inner < heap@.upvalues.len() && heap@.upvalues[self.inner as int] is Some {
                Some(UpValue { inner: self.inner })
            } else {
                None
            }),
    {
        if self.inner >= heap.upvalues.len() {
            return None;
        }
        match &heap.upvalues[self.inner] {
            Some(_) => Some(UpValue { inner: self.inner }),
            None => None,
        }
    }
}

/// A variable that was set reads back as what it was set to, as far as its slot
/// keeps it: a number takes the type of the variable.
pub proof fn law_a_variable_reads_back(
    h: HeapState,
    running: Stack,
    after: Stack,
    uv: UpValue,
    val: GosValue,
)
    requires
        uv.reachable(h, running),
        after.id == running.id,
        after.slots@ == uv.stored_slots(val, h, running),
    ensures
        uv.reachable(uv.stored_heap(val, h, running), after),
        uv.spec_value(uv.stored_heap(val, h, running), after) == match uv.state(h) {
            UpValueState::Open(desc) => stack::read_as(val, desc.typ),
            UpValueState::Closed(_) => val,
        },
{
}

/// Closing an up value with the value of its variable keeps the value, and from then
/// on the stack plays no part.
pub proof fn law_closing_keeps_the_value(
    h: HeapState,
    running: Stack,
    later: Stack,
    uv: UpValue,
)
    requires
        uv.reachable(h, running),
    ensures
        uv.spec_value(
            h.with_upvalue(
                uv.inner,
                Some(UpValueState::Closed(uv.spec_value(h, running))),
            ),
            later,
        ) == uv.spec_value(h, running),
{
}

/// A variable is in the slot that lies its number above the base of its call, on the
/// running stack or on a kept one. It can be found if that slot is there, and what is read
/// of it is what the slot holds: a number or truth value as one of the type of the variable,
/// anything else as it is.
pub proof fn law_where_a_variable_is(desc: ValueDesc, h: HeapState, running: Stack, at: usize)
    requires
        at == desc.stack_base + desc.index,
        at <= i32::MAX,
    ensures
        desc.stack == Some(running.id) && at < running.slots.len() ==> {
            let slot = running.slots[at as int];
            &&& desc.reachable(h, running)
            &&& !(slot is Scalar) ==> desc.loaded(h, running) == slot
            &&& slot matches GosValue::Scalar(_, bits) ==> desc.loaded(h, running)
                == GosValue::Scalar(desc.typ, bits)
        },
        forall|id: usize|
            desc.stack == Some(id) && id != running.id && id < h.stacks.len() && (
            #[trigger] h.stacks[id as int]) is Some && at < h.stacks[id as int]->0.len() ==> {
                let slot = h.stacks[id as int]->0[at as int];
                &&& desc.reachable(h, running)
                &&& !(slot is Scalar) ==> desc.loaded(h, running) == slot
                &&& slot matches GosValue::Scalar(_, bits) ==> desc.loaded(h, running)
                    == GosValue::Scalar(desc.typ, bits)
            },
        desc.stack is None ==> !desc.reachable(h, running),
{
}

/// Setting a variable puts the value into its slot and changes no other slot, neither of
/// the running stack nor of a kept one, and nothing else on the heap.
pub proof fn law_setting_a_variable_writes_its_slot(
    desc: ValueDesc,
    val: GosValue,
    h: HeapState,
    running: Stack,
)
    requires
        desc.reachable(h, running),
    ensures
        ({
            let at = desc.stack_base + desc.index;
            let slots = desc.stored_slots(val, running);
            let g = desc.stored_heap(val, h, running);
            &&& slots.len() == running.slots.len()
            &&& g.stacks.len() == h.stacks.len()
            &&& g == (HeapState { stacks: g.stacks, ..h })
            &&& forall|k: int|
                0 <= k < slots.len() && !(desc.stack == Some(running.id) && k == at)
                    ==> #[trigger] slots[k] == running.slots[k]
            &&& forall|id: int|
                0 <= id < h.stacks.len() && (desc.stack == Some(running.id) || desc.stack
                    != Some(id as usize) || id > usize::MAX) ==> #[trigger] g.stacks[id]
                    == h.stacks[id]
            &&& desc.stack == Some(running.id) ==> slots[at] == val
            &&& desc.stack != Some(running.id) ==> {
                let id = desc.stack->0 as int;
                &&& g.stacks[id] is Some
                &&& g.stacks[id]->0.len() == h.stacks[id]->0.len()
                &&& g.stacks[id]->0[at] == val
                &&& forall|k: int|
                    0 <= k < h.stacks[id]->0.len() && k != at ==> #[trigger] g.stacks[id]->0[k]
                        == h.stacks[id]->0[k]
            }
        }),
{
}

/// An up value has the value of its variable while open, and its own when closed. Setting
/// it changes the variable while it is open, and only the up value itself when closed.
pub proof fn law_what_an_up_value_stands_for(
    uv: UpValue,
    val: GosValue,
    h: HeapState,
    running: Stack,
)
    requires
        uv.inner < h.upvalues.len(),
    ensures
        h.upvalues[uv.inner as int] matches Some(UpValueState::Closed(own)) ==> {
            let g = uv.stored_heap(val, h, running);
            &&& uv.reachable(h, running)
            &&& uv.spec_value(h, running) == own
            &&& uv.stored_slots(val, h, running) == running.slots@
            &&& g == (HeapState { upvalues: g.upvalues, ..h })
            &&& g.upvalues.len() == h.upvalues.len()
            &&& g.upvalues[uv.inner as int] == Some(UpValueState::Closed(val))
            &&& forall|k: int|
                0 <= k < h.upvalues.len() && k != uv.inner ==> #[trigger] g.upvalues[k]
                    == h.upvalues[k]
        },
        h.upvalues[uv.inner as int] matches Some(UpValueState::Open(desc)) ==> {
            &&& uv.reachable(h, running) == desc.reachable(h, running)
            &&& uv.spec_value(h, running) == desc.loaded(h, running)
            &&& uv.stored_slots(val, h, running) == desc.stored_slots(val, running)
            &&& uv.stored_heap(val, h, running) == desc.stored_heap(val, h, running)
        },
        h.upvalues[uv.inner as int] is None ==> !uv.reachable(h, running),
{
}

/// A variable that was set to a value of its own type reads back as that value, and so
/// does any variable that was set to something else than a number or truth value.
pub proof fn law_a_variable_keeps_its_value(
    h: HeapState,
    running: Stack,
    after: Stack,
    uv: UpValue,
    val: GosValue,
)
    requires
        uv.reachable(h, running),
        after.id == running.id,
        after.slots@ == uv.stored_slots(val, h, running),
        uv.state(h) matches UpValueState::Open(desc) ==> !(val is Scalar)
            || val.spec_value_type() == desc.typ,
    ensures
        uv.spec_value(uv.stored_heap(val, h, running), after) == val,
{
    law_a_variable_reads_back(h, running, after, uv, val);
}

} // verus!
