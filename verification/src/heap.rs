//! The heap: everything that values of the program can share.
//!
//! Objects are known by their place. An object, once made, stays where it is, so a
//! place that was handed out stays good. Each function says what the heap looks like
//! afterwards in terms of [`HeapState`].
use vstd::prelude::*;

use crate::array_obj::ArrayObj;
use crate::channel_obj::{ChannelObj, ChannelQueue};
use crate::closure_obj::ClosureObj;
use crate::interface_obj::InterfaceObj;
use crate::map_obj::{GosHashMap, MapEntry, MapObj};
use crate::pointer_obj::UnsafeData;
use crate::slice_obj::SliceObj;
use crate::string_obj::StringObj;
use crate::struct_obj::StructObj;
use crate::upvalue::UpValueState;
use crate::value::GosValue;

verus! {

/// An object with the number of references to it that the collector counted.
#[derive(Clone, Copy, Debug)]
pub struct Counted<T> {
    pub obj: T,
    pub rc: i32,
}

/// Names an object whose references are counted.
#[derive(Clone, Copy, Debug, PartialEq, Eq, Structural)]
pub enum RcSlot {
    Array(usize),
    Slice(usize),
    GosMap(usize),
    Struct(usize),
    Interface(usize),
    Closure(usize),
}

/// What is in a channel.
#[verifier::ext_equal]
pub struct QueueState {
    pub cap: usize,
    pub queue: Seq<GosValue>,
    pub closed: bool,
    /// How many receivers wait.
    pub waiting: usize,
}

/// What the heap holds.
#[verifier::ext_equal]
pub struct HeapState {
    /// The stores of the elements of arrays and slices.
    pub vecs: Seq<Seq<GosValue>>,
    pub strs: Seq<StringObj>,
    pub arrays: Seq<Counted<ArrayObj>>,
    pub slices: Seq<Counted<SliceObj>>,
    pub structs: Seq<Counted<Seq<GosValue>>>,
    pub ifaces: Seq<Counted<InterfaceObj>>,
    pub closures: Seq<Counted<ClosureObj>>,
    pub maps: Seq<Counted<MapObj>>,
    /// The entries of maps.
    pub map_data: Seq<Seq<MapEntry>>,
    pub channels: Seq<ChannelObj>,
    /// The queues of channels.
    pub queues: Seq<QueueState>,
    /// Up values. One that nothing owns any more is gone.
    pub upvalues: Seq<Option<UpValueState>>,
    /// The members of packages.
    pub cells: Seq<GosValue>,
    /// The stacks of the threads that are not running.
    pub stacks: Seq<Option<Seq<GosValue>>>,
    /// What untyped pointers refer to.
    pub unsafes: Seq<UnsafeData>,
}

impl ChannelQueue {
    pub open spec fn state(self) -> QueueState {
        QueueState {
            cap: self.cap,
            queue: self.queue@,
            closed: self.closed,
            waiting: self.waiting,
        }
    }
}

/// The heap.
#[derive(Debug)]
pub struct Heap {
    pub vecs: Vec<Vec<GosValue>>,
    pub strs: Vec<StringObj>,
    pub arrays: Vec<Counted<ArrayObj>>,
    pub slices: Vec<Counted<SliceObj>>,
    pub structs: Vec<Counted<StructObj>>,
    pub ifaces: Vec<Counted<InterfaceObj>>,
    pub closures: Vec<Counted<ClosureObj>>,
    pub maps: Vec<Counted<MapObj>>,
    pub map_data: Vec<GosHashMap>,
    pub channels: Vec<ChannelObj>,
    pub queues: Vec<ChannelQueue>,
    pub upvalues: Vec<Option<UpValueState>>,
    pub cells: Vec<GosValue>,
    pub stacks: Vec<Option<Vec<GosValue>>>,
    pub unsafes: Vec<UnsafeData>,
}

impl View for Heap {
    type V = HeapState;

    open spec fn view(&self) -> HeapState {
        HeapState {
            vecs: self.vecs@.map_values(|v: Vec<GosValue>| v@),
            strs: self.strs@,
            arrays: self.arrays@,
            slices: self.slices@,
            structs: self.structs@.map_values(
                |s: Counted<StructObj>| Counted { obj: s.obj.fields@, rc: s.rc },
            ),
            ifaces: self.ifaces@,
            closures: self.closures@,
            maps: self.maps@,
            map_data: self.map_data@.map_values(|m: GosHashMap| m@),
            channels: self.channels@,
            queues: self.queues@.map_values(|q: ChannelQueue| q.state()),
            upvalues: self.upvalues@,
            cells: self.cells@,
            stacks: self.stacks@.map_values(
                |s: Option<Vec<GosValue>>|
                    match s {
                        Some(slots) => Some(slots@),
                        None => None,
                    },
            ),
            unsafes: self.unsafes@,
        }
    }
}

impl HeapState {
    /// The heap with nothing in it.
    pub open spec fn empty() -> HeapState {
        HeapState {
            vecs: Seq::empty(),
            strs: Seq::empty(),
            arrays: Seq::empty(),
            slices: Seq::empty(),
            structs: Seq::empty(),
            ifaces: Seq::empty(),
            closures: Seq::empty(),
            maps: Seq::empty(),
            map_data: Seq::empty(),
            channels: Seq::empty(),
            queues: Seq::empty(),
            upvalues: Seq::empty(),
            cells: Seq::empty(),
            stacks: Seq::empty(),
            unsafes: Seq::empty(),
        }
    }

    /// Whether each object has a place that a machine word can hold.
    pub open spec fn addressable(self) -> bool {
        &&& self.vecs.len() <= usize::MAX
        &&& self.strs.len() <= usize::MAX
        &&& self.arrays.len() <= usize::MAX
        &&& self.slices.len() <= usize::MAX
        &&& self.structs.len() <= usize::MAX
        &&& self.ifaces.len() <= usize::MAX
        &&& self.closures.len() <= usize::MAX
        &&& self.maps.len() <= usize::MAX
        &&& self.map_data.len() <= usize::MAX
        &&& self.channels.len() <= usize::MAX
        &&& self.queues.len() <= usize::MAX
        &&& self.upvalues.len() <= usize::MAX
        &&& self.cells.len() <= usize::MAX
        &&& self.stacks.len() <= usize::MAX
        &&& self.unsafes.len() <= usize::MAX
    }

    /// The heap with one more entry in `vecs`.
    pub open spec fn plus_vec(self, obj: Seq<GosValue>) -> HeapState {
        HeapState { vecs: self.vecs.push(obj), ..self }
    }

    /// The heap with one more entry in `strs`.
    pub open spec fn plus_str(self, obj: StringObj) -> HeapState {
        HeapState { strs: self.strs.push(obj), ..self }
    }

    /// The heap with one more entry in `arrays`.
    pub open spec fn plus_array(self, obj: ArrayObj) -> HeapState {
        HeapState { arrays: self.arrays.push(Counted { obj, rc: 0 }), ..self }
    }

    /// The heap with one more entry in `slices`.
    pub open spec fn plus_slice(self, obj: SliceObj) -> HeapState {
        HeapState { slices: self.slices.push(Counted { obj, rc: 0 }), ..self }
    }

    /// The heap with one more entry in `structs`.
    pub open spec fn plus_struct(self, obj: Seq<GosValue>) -> HeapState {
        HeapState { structs: self.structs.push(Counted { obj, rc: 0 }), ..self }
    }

    /// The heap with one more entry in `ifaces`.
    pub open spec fn plus_iface(self, obj: InterfaceObj) -> HeapState {
        HeapState { ifaces: self.ifaces.push(Counted { obj, rc: 0 }), ..self }
    }

    /// The heap with one more entry in `closures`.
    pub open spec fn plus_closure(self, obj: ClosureObj) -> HeapState {
        HeapState { closures: self.closures.push(Counted { obj, rc: 0 }), ..self }
    }

    /// The heap with one more entry in `maps`.
    pub open spec fn plus_map(self, obj: MapObj) -> HeapState {
        HeapState { maps: self.maps.push(Counted { obj, rc: 0 }), ..self }
    }

    /// The heap with one more entry in `map_data`.
    pub open spec fn plus_map_data(self, obj: Seq<MapEntry>) -> HeapState {
        HeapState { map_data: self.map_data.push(obj), ..self }
    }

    /// The heap with one more entry in `channels`.
    pub open spec fn plus_channel(self, obj: ChannelObj) -> HeapState {
        HeapState { channels: self.channels.push(obj), ..self }
    }

    /// The heap with one more entry in `queues`.
    pub open spec fn plus_queue(self, obj: QueueState) -> HeapState {
        HeapState { queues: self.queues.push(obj), ..self }
    }

    /// The heap with one more entry in `upvalues`.
    pub open spec fn plus_upvalue(self, obj: UpValueState) -> HeapState {
        HeapState { upvalues: self.upvalues.push(Some(obj)), ..self }
    }

    /// The heap with one more entry in `cells`.
    pub open spec fn plus_cell(self, obj: GosValue) -> HeapState {
        HeapState { cells: self.cells.push(obj), ..self }
    }

    /// The heap with one more entry in `unsafes`.
    pub open spec fn plus_unsafe(self, obj: UnsafeData) -> HeapState {
        HeapState { unsafes: self.unsafes.push(obj), ..self }
    }

    /// The heap with one more entry in `stacks`.
    pub open spec fn plus_stack(self, slots: Seq<GosValue>) -> HeapState {
        HeapState { stacks: self.stacks.push(Some(slots)), ..self }
    }

    /// The heap with another entry at `id` in `vecs`.
    pub open spec fn with_vec(self, id: usize, obj: Seq<GosValue>) -> HeapState {
        HeapState { vecs: self.vecs.update(id as int, obj), ..self }
    }

    /// The heap with another entry at `id` in `map_data`.
    pub open spec fn with_map_data(self, id: usize, obj: Seq<MapEntry>) -> HeapState {
        HeapState { map_data: self.map_data.update(id as int, obj), ..self }
    }

    /// The heap with another entry at `id` in `queues`.
    pub open spec fn with_queue(self, id: usize, obj: QueueState) -> HeapState {
        HeapState { queues: self.queues.update(id as int, obj), ..self }
    }

    /// The heap with another entry at `id` in `upvalues`.
    pub open spec fn with_upvalue(self, id: usize, obj: Option<UpValueState>) -> HeapState {
        HeapState { upvalues: self.upvalues.update(id as int, obj), ..self }
    }

    /// The heap with another entry at `id` in `cells`.
    pub open spec fn with_cell(self, id: usize, obj: GosValue) -> HeapState {
        HeapState { cells: self.cells.update(id as int, obj), ..self }
    }

    /// The heap with another slice at `id`.
    pub open spec fn with_slice(self, id: usize, obj: SliceObj) -> HeapState {
        HeapState {
            slices: self.slices.update(
                id as int,
                Counted { obj, rc: self.slices[id as int].rc },
            ),
            ..self
        }
    }

    /// The heap with other fields in the struct at `id`.
    pub open spec fn with_struct(self, id: usize, fields: Seq<GosValue>) -> HeapState {
        HeapState {
            structs: self.structs.update(
                id as int,
                Counted { obj: fields, rc: self.structs[id as int].rc },
            ),
            ..self
        }
    }

    /// The heap with other slots in the stack at `id`.
    pub open spec fn with_stack(self, id: usize, slots: Option<Seq<GosValue>>) -> HeapState {
        HeapState { stacks: self.stacks.update(id as int, slots), ..self }
    }

    /// Whether there is an object of this name.
    pub open spec fn has_slot(self, slot: RcSlot) -> bool {
        match slot {
            RcSlot::Array(id) => id < self.arrays.len(),
            RcSlot::Slice(id) => id < self.slices.len(),
            RcSlot::GosMap(id) => id < self.maps.len(),
            RcSlot::Struct(id) => id < self.structs.len(),
            RcSlot::Interface(id) => id < self.ifaces.len(),
            RcSlot::Closure(id) => id < self.closures.len(),
        }
    }

    /// The reference count of an object.
    pub open spec fn rc(self, slot: RcSlot) -> i32 {
        match slot {
            RcSlot::Array(id) => self.arrays[id as int].rc,
            RcSlot::Slice(id) => self.slices[id as int].rc,
            RcSlot::GosMap(id) => self.maps[id as int].rc,
            RcSlot::Struct(id) => self.structs[id as int].rc,
            RcSlot::Interface(id) => self.ifaces[id as int].rc,
            RcSlot::Closure(id) => self.closures[id as int].rc,
        }
    }

    /// The heap with another reference count for one object.
    pub open spec fn with_rc(self, slot: RcSlot, rc: i32) -> HeapState {
        match slot {
            RcSlot::Array(id) => HeapState {
                arrays: self.arrays.update(
                    id as int,
                    Counted { obj: self.arrays[id as int].obj, rc },
                ),
                ..self
            },
            RcSlot::Slice(id) => HeapState {
                slices: self.slices.update(
                    id as int,
                    Counted { obj: self.slices[id as int].obj, rc },
                ),
                ..self
            },
            RcSlot::GosMap(id) => HeapState {
                maps: self.maps.update(id as int, Counted { obj: self.maps[id as int].obj, rc }),
                ..self
            },
            RcSlot::Struct(id) => HeapState {
                structs: self.structs.update(
                    id as int,
                    Counted { obj: self.structs[id as int].obj, rc },
                ),
                ..self
            },
            RcSlot::Interface(id) => HeapState {
                ifaces: self.ifaces.update(
                    id as int,
                    Counted { obj: self.ifaces[id as int].obj, rc },
                ),
                ..self
            },
            RcSlot::Closure(id) => HeapState {
                closures: self.closures.update(
                    id as int,
                    Counted { obj: self.closures[id as int].obj, rc },
                ),
                ..self
            },
        }
    }
}

impl Heap {
    pub fn new() -> (heap: Heap)
        ensures
            heap@ == HeapState::empty(),
    {
        let heap = Heap {
            vecs: Vec::new(),
            strs: Vec::new(),
            arrays: Vec::new(),
            slices: Vec::new(),
            structs: Vec::new(),
            ifaces: Vec::new(),
            closures: Vec::new(),
            maps: Vec::new(),
            map_data: Vec::new(),
            channels: Vec::new(),
            queues: Vec::new(),
            upvalues: Vec::new(),
            cells: Vec::new(),
            stacks: Vec::new(),
            unsafes: Vec::new(),
        };
        assert(heap@ =~= HeapState::empty());
        heap
    }

    pub fn alloc_vec(&mut self, obj: Vec<GosValue>) -> (id: usize)
        ensures
            id == old(self)@.vecs.len(),
            final(self)@ == old(self)@.plus_vec(obj@),
    {
        let id: usize = self.vecs.len();
        self.vecs.push(obj);
        assert(self@ =~= old(self)@.plus_vec(obj@));
        id
    }

    pub fn alloc_str(&mut self, obj: StringObj) -> (id: usize)
        ensures
            id == old(self)@.strs.len(),
            final(self)@ == old(self)@.plus_str(obj),
    {
        let id: usize = self.strs.len();
        self.strs.push(obj);
        assert(self@ =~= old(self)@.plus_str(obj));
        id
    }

    pub fn alloc_array(&mut self, obj: ArrayObj) -> (id: usize)
        ensures
            id == old(self)@.arrays.len(),
            final(self)@ == old(self)@.plus_array(obj),
    {
        let id: usize = self.arrays.len();
        self.arrays.push(Counted { obj, rc: 0 });
        assert(self@ =~= old(self)@.plus_array(obj));
        id
    }

    pub fn alloc_slice(&mut self, obj: SliceObj) -> (id: usize)
        ensures
            id == old(self)@.slices.len(),
            final(self)@ == old(self)@.plus_slice(obj),
    {
        let id: usize = self.slices.len();
        self.slices.push(Counted { obj, rc: 0 });
        assert(self@ =~= old(self)@.plus_slice(obj));
        id
    }

    pub fn alloc_struct(&mut self, obj: StructObj) -> (id: usize)
        ensures
            id == old(self)@.structs.len(),
            final(self)@ == old(self)@.plus_struct(obj.fields@),
    {
        let id: usize = self.structs.len();
        self.structs.push(Counted { obj, rc: 0 });
        assert(self@ =~= old(self)@.plus_struct(obj.fields@));
        id
    }

    pub fn alloc_iface(&mut self, obj: InterfaceObj) -> (id: usize)
        ensures
            id == old(self)@.ifaces.len(),
            final(self)@ == old(self)@.plus_iface(obj),
    {
        let id: usize = self.ifaces.len();
        self.ifaces.push(Counted { obj, rc: 0 });
        assert(self@ =~= old(self)@.plus_iface(obj));
        id
    }

    pub fn alloc_closure(&mut self, obj: ClosureObj) -> (id: usize)
        ensures
            id == old(self)@.closures.len(),
            final(self)@ == old(self)@.plus_closure(obj),
    {
        let id: usize = self.closures.len();
        self.closures.push(Counted { obj, rc: 0 });
        assert(self@ =~= old(self)@.plus_closure(obj));
        id
    }

    pub fn alloc_map(&mut self, obj: MapObj) -> (id: usize)
        ensures
            id == old(self)@.maps.len(),
            final(self)@ == old(self)@.plus_map(obj),
    {
        let id: usize = self.maps.len();
        self.maps.push(Counted { obj, rc: 0 });
        assert(self@ =~= old(self)@.plus_map(obj));
        id
    }

    pub fn alloc_map_data(&mut self, obj: GosHashMap) -> (id: usize)
        ensures
            id == old(self)@.map_data.len(),
            final(self)@ == old(self)@.plus_map_data(obj@),
    {
        let id: usize = self.map_data.len();
        self.map_data.push(obj);
        assert(self@ =~= old(self)@.plus_map_data(obj@));
        id
    }

    pub fn alloc_channel(&mut self, obj: ChannelObj) -> (id: usize)
        ensures
            id == old(self)@.channels.len(),
            final(self)@ == old(self)@.plus_channel(obj),
    {
        let id: usize = self.channels.len();
        self.channels.push(obj);
        assert(self@ =~= old(self)@.plus_channel(obj));
        id
    }

    pub fn alloc_queue(&mut self, obj: ChannelQueue) -> (id: usize)
        ensures
            id == old(self)@.queues.len(),
            final(self)@ == old(self)@.plus_queue(obj.state()),
    {
        let id: usize = self.queues.len();
        self.queues.push(obj);
        assert(self@ =~= old(self)@.plus_queue(obj.state()));
        id
    }

    pub fn alloc_upvalue(&mut self, obj: UpValueState) -> (id: usize)
        ensures
            id == old(self)@.upvalues.len(),
            final(self)@ == old(self)@.plus_upvalue(obj),
    {
        let id: usize = self.upvalues.len();
        self.upvalues.push(Some(obj));
        assert(self@ =~= old(self)@.plus_upvalue(obj));
        id
    }

    pub fn alloc_cell(&mut self, obj: GosValue) -> (id: usize)
        ensures
            id == old(self)@.cells.len(),
            final(self)@ == old(self)@.plus_cell(obj),
    {
        let id: usize = self.cells.len();
        self.cells.push(obj);
        assert(self@ =~= old(self)@.plus_cell(obj));
        id
    }

    pub fn alloc_unsafe(&mut self, obj: UnsafeData) -> (id: usize)
        ensures
            id == old(self)@.unsafes.len(),
            final(self)@ == old(self)@.plus_unsafe(obj),
    {
        let id: usize = self.unsafes.len();
        self.unsafes.push(obj);
        assert(self@ =~= old(self)@.plus_unsafe(obj));
        id
    }

    /// Keeps the stack of a thread that is not running.
    pub fn alloc_stack(&mut self, slots: Vec<GosValue>) -> (id: usize)
        ensures
            id == old(self)@.stacks.len(),
            final(self)@ == old(self)@.plus_stack(slots@),
    {
        let id: usize = self.stacks.len();
        self.stacks.push(Some(slots));
        assert(self@ =~= old(self)@.plus_stack(slots@));
        id
    }

    /// The slots of the stack at `id`, if its thread still exists.
    pub fn stack(&self, id: usize) -> (stack: Option<&Vec<GosValue>>)
        requires
            id < self@.stacks.len(),
        ensures
            stack is Some <==> self@.stacks[id as int] is Some,
            stack matches Some(s) ==> self@.stacks[id as int] == Some(s@),
    {
        match &self.stacks[id] {
            Some(stack) => Some(stack),
            None => None,
        }
    }

    /// Writes a slot of the stack at `id`.
    pub fn set_stack_slot(&mut self, id: usize, index: usize, val: GosValue)
        requires
            id < old(self)@.stacks.len(),
            old(self)@.stacks[id as int] matches Some(slots) && index < slots.len(),
        ensures
            old(self)@.stacks[id as int] matches Some(slots) && final(self)@ == old(self)@.with_stack(id, Some(slots.update(index as int, val))),
    {
        if let Some(mut slots) = self.stacks[id].take() {
            slots[index] = val;
            self.stacks[id] = Some(slots);
        }
        assert(self@.stacks =~= old(self)@.with_stack(
            id,
            Some(old(self)@.stacks[id as int]->0.update(index as int, val)),
        ).stacks);
        assert(self@ =~= old(self)@.with_stack(
            id,
            Some(old(self)@.stacks[id as int]->0.update(index as int, val)),
        ));
    }

    /// Gives up the stack of a thread that has come to its end.
    pub fn release_stack(&mut self, id: usize)
        requires
            id < old(self)@.stacks.len(),
        ensures
            final(self)@ == old(self)@.with_stack(id, None),
    {
        self.stacks[id] = None;
        assert(self@ =~= old(self)@.with_stack(id, None));
    }

    pub fn vec(&self, id: usize) -> (obj: &Vec<GosValue>)
        requires
            id < self@.vecs.len(),
        ensures
            obj@ == self@.vecs[id as int],
    {
        &self.vecs[id]
    }

    pub fn vec_mut(&mut self, id: usize) -> (obj: &mut Vec<GosValue>)
        requires
            id < old(self)@.vecs.len(),
        ensures
            obj@ == old(self)@.vecs[id as int],
            final(self)@ == old(self)@.with_vec(id, final(obj)@),
    {
        &mut self.vecs[id]
    }

    pub fn map_data(&self, id: usize) -> (obj: &GosHashMap)
        requires
            id < self@.map_data.len(),
        ensures
            obj@ == self@.map_data[id as int],
    {
        &self.map_data[id]
    }

    pub fn map_data_mut(&mut self, id: usize) -> (obj: &mut GosHashMap)
        requires
            id < old(self)@.map_data.len(),
        ensures
            obj@ == old(self)@.map_data[id as int],
            final(self)@ == old(self)@.with_map_data(id, final(obj)@),
    {
        &mut self.map_data[id]
    }

    /// The fields of the struct at `id`.
    pub fn fields(&self, id: usize) -> (fields: &Vec<GosValue>)
        requires
            id < self@.structs.len(),
        ensures
            fields@ == self@.structs[id as int].obj,
    {
        &self.structs[id].obj.fields
    }

    pub fn fields_mut(&mut self, id: usize) -> (fields: &mut Vec<GosValue>)
        requires
            id < old(self)@.structs.len(),
        ensures
            fields@ == old(self)@.structs[id as int].obj,
            final(self)@ == old(self)@.with_struct(id, final(fields)@),
    {
        &mut self.structs[id].obj.fields
    }

    pub fn queue_mut(&mut self, id: usize) -> (queue: &mut ChannelQueue)
        requires
            id < old(self)@.queues.len(),
        ensures
            queue.state() == old(self)@.queues[id as int],
            final(self)@ == old(self)@.with_queue(id, final(queue).state()),
    {
        &mut self.queues[id]
    }

    pub fn set_slice(&mut self, id: usize, obj: SliceObj)
        requires
            id < old(self)@.slices.len(),
        ensures
            final(self)@ == old(self)@.with_slice(id, obj),
    {
        let rc: i32 = self.slices[id].rc;
        self.slices[id] = Counted { obj, rc };
        assert(self@ =~= old(self)@.with_slice(id, obj));
    }

    pub fn set_upvalue(&mut self, id: usize, state: Option<UpValueState>)
        requires
            id < old(self)@.upvalues.len(),
        ensures
            final(self)@ == old(self)@.with_upvalue(id, state),
    {
        self.upvalues[id] = state;
        assert(self@ =~= old(self)@.with_upvalue(id, state));
    }

    pub fn cell_mut(&mut self, id: usize) -> (val: &mut GosValue)
        requires
            id < old(self)@.cells.len(),
        ensures
            *val == old(self)@.cells[id as int],
            final(self)@ == old(self)@.with_cell(id, *final(val)),
    {
        &mut self.cells[id]
    }

    pub fn rc(&self, slot: RcSlot) -> (rc: i32)
        requires
            self@.has_slot(slot),
        ensures
            rc == self@.rc(slot),
    {
        match slot {
            RcSlot::Array(id) => self.arrays[id].rc,
            RcSlot::Slice(id) => self.slices[id].rc,
            RcSlot::GosMap(id) => self.maps[id].rc,
            RcSlot::Struct(id) => self.structs[id].rc,
            RcSlot::Interface(id) => self.ifaces[id].rc,
            RcSlot::Closure(id) => self.closures[id].rc,
        }
    }

    pub fn set_rc(&mut self, slot: RcSlot, rc: i32)
        requires
            old(self)@.has_slot(slot),
        ensures
            final(self)@ == old(self)@.with_rc(slot, rc),
    {
        match slot {
            RcSlot::Array(id) => {
                self.arrays[id].rc = rc;
            },
            RcSlot::Slice(id) => {
                self.slices[id].rc = rc;
            },
            RcSlot::GosMap(id) => {
                self.maps[id].rc = rc;
            },
            RcSlot::Struct(id) => {
                self.structs[id].rc = rc;
            },
            RcSlot::Interface(id) => {
                self.ifaces[id].rc = rc;
            },
            RcSlot::Closure(id) => {
                self.closures[id].rc = rc;
            },
        }
        assert(self@ =~= old(self)@.with_rc(slot, rc));
    }
}

/// Whether every place of the heap `h` is a place of the heap `g`.
pub open spec fn keeps_places(h: HeapState, g: HeapState) -> bool {
    &&& h.vecs.len() <= g.vecs.len()
    &&& h.strs.len() <= g.strs.len()
    &&& h.arrays.len() <= g.arrays.len()
    &&& h.slices.len() <= g.slices.len()
    &&& h.structs.len() <= g.structs.len()
    &&& h.ifaces.len() <= g.ifaces.len()
    &&& h.closures.len() <= g.closures.len()
    &&& h.maps.len() <= g.maps.len()
    &&& h.map_data.len() <= g.map_data.len()
    &&& h.channels.len() <= g.channels.len()
    &&& h.queues.len() <= g.queues.len()
    &&& h.upvalues.len() <= g.upvalues.len()
    &&& h.cells.len() <= g.cells.len()
    &&& h.stacks.len() <= g.stacks.len()
    &&& h.unsafes.len() <= g.unsafes.len()
}

/// Making an object takes no place away, and the new object is found at its place.
pub proof fn law_new_objects_take_no_place_away(
    h: HeapState,
    vals: Seq<GosValue>,
    array: ArrayObj,
    slice: SliceObj,
    map: MapObj,
    entries: Seq<MapEntry>,
    state: UpValueState,
    val: GosValue,
)
    ensures
        keeps_places(h, h.plus_vec(vals)),
        h.plus_vec(vals).vecs[h.vecs.len() as int] == vals,
        keeps_places(h, h.plus_array(array)),
        h.plus_array(array).arrays[h.arrays.len() as int].obj == array,
        keeps_places(h, h.plus_slice(slice)),
        h.plus_slice(slice).slices[h.slices.len() as int].obj == slice,
        keeps_places(h, h.plus_struct(vals)),
        h.plus_struct(vals).structs[h.structs.len() as int].obj == vals,
        keeps_places(h, h.plus_map(map)),
        h.plus_map(map).maps[h.maps.len() as int].obj == map,
        keeps_places(h, h.plus_map_data(entries)),
        h.plus_map_data(entries).map_data[h.map_data.len() as int] == entries,
        keeps_places(h, h.plus_upvalue(state)),
        h.plus_upvalue(state).upvalues[h.upvalues.len() as int] == Some(state),
        keeps_places(h, h.plus_cell(val)),
        h.plus_cell(val).cells[h.cells.len() as int] == val,
        keeps_places(h, h.plus_stack(vals)),
        h.plus_stack(vals).stacks[h.stacks.len() as int] == Some(vals),
{
}

/// Changing an object takes no place away.
pub proof fn law_changes_take_no_place_away(
    h: HeapState,
    id: usize,
    vals: Seq<GosValue>,
    slice: SliceObj,
    entries: Seq<MapEntry>,
    state: Option<UpValueState>,
    val: GosValue,
    slot: RcSlot,
    rc: i32,
)
    ensures
        id < h.vecs.len() ==> keeps_places(h, h.with_vec(id, vals)),
        id < h.slices.len() ==> keeps_places(h, h.with_slice(id, slice)),
        id < h.structs.len() ==> keeps_places(h, h.with_struct(id, vals)),
        id < h.map_data.len() ==> keeps_places(h, h.with_map_data(id, entries)),
        id < h.upvalues.len() ==> keeps_places(h, h.with_upvalue(id, state)),
        id < h.cells.len() ==> keeps_places(h, h.with_cell(id, val)),
        id < h.stacks.len() ==> keeps_places(h, h.with_stack(id, Some(vals))),
        h.has_slot(slot) ==> keeps_places(h, h.with_rc(slot, rc)),
{
}

/// A new object goes behind the others of its kind. It has no references counted yet, the others
/// stay what they are, and nothing else on the heap changes.
pub proof fn law_new_objects_go_behind(
    h: HeapState,
    vals: Seq<GosValue>,
    text: StringObj,
    array: ArrayObj,
    slice: SliceObj,
    map: MapObj,
    iface: InterfaceObj,
    closure: ClosureObj,
)
    ensures
        ({
            let g = h.plus_vec(vals);
            &&& g == (HeapState { vecs: g.vecs, ..h })
            &&& g.vecs.len() == h.vecs.len() + 1
            &&& g.vecs.last() == vals
            &&& forall|k: int| 0 <= k < h.vecs.len() ==> #[trigger] g.vecs[k] == h.vecs[k]
        }),
        ({
            let g = h.plus_str(text);
            &&& g == (HeapState { strs: g.strs, ..h })
            &&& g.strs.len() == h.strs.len() + 1
            &&& g.strs.last() == text
            &&& forall|k: int| 0 <= k < h.strs.len() ==> #[trigger] g.strs[k] == h.strs[k]
        }),
        ({
            let g = h.plus_array(array);
            &&& g == (HeapState { arrays: g.arrays, ..h })
            &&& g.arrays.len() == h.arrays.len() + 1
            &&& g.arrays.last() == (Counted { obj: array, rc: 0 })
            &&& forall|k: int| 0 <= k < h.arrays.len() ==> #[trigger] g.arrays[k] == h.arrays[k]
        }),
        ({
            let g = h.plus_slice(slice);
            &&& g == (HeapState { slices: g.slices, ..h })
            &&& g.slices.len() == h.slices.len() + 1
            &&& g.slices.last() == (Counted { obj: slice, rc: 0 })
            &&& forall|k: int| 0 <= k < h.slices.len() ==> #[trigger] g.slices[k] == h.slices[k]
        }),
        ({
            let g = h.plus_struct(vals);
            &&& g == (HeapState { structs: g.structs, ..h })
            &&& g.structs.len() == h.structs.len() + 1
            &&& g.structs.last() == (Counted { obj: vals, rc: 0 })
            &&& forall|k: int| 0 <= k < h.structs.len() ==> #[trigger] g.structs[k] == h.structs[k]
        }),
        ({
            let g = h.plus_map(map);
            &&& g == (HeapState { maps: g.maps, ..h })
            &&& g.maps.len() == h.maps.len() + 1
            &&& g.maps.last() == (Counted { obj: map, rc: 0 })
            &&& forall|k: int| 0 <= k < h.maps.len() ==> #[trigger] g.maps[k] == h.maps[k]
        }),
        ({
            let g = h.plus_iface(iface);
            &&& g == (HeapState { ifaces: g.ifaces, ..h })
            &&& g.ifaces.len() == h.ifaces.len() + 1
            &&& g.ifaces.last() == (Counted { obj: iface, rc: 0 })
            &&& forall|k: int| 0 <= k < h.ifaces.len() ==> #[trigger] g.ifaces[k] == h.ifaces[k]
        }),
        ({
            let g = h.plus_closure(closure);
            &&& g == (HeapState { closures: g.closures, ..h })
            &&& g.closures.len() == h.closures.len() + 1
            &&& g.closures.last() == (Counted { obj: closure, rc: 0 })
            &&& forall|k: int| 0 <= k < h.closures.len() ==> #[trigger] g.closures[k] == h.closures[k]
        }),
{
}

/// The same of entries of maps, channels, queues, up values, cells, stacks and what untyped
/// pointers refer to, which have no counts. A new up value exists, and so does a kept stack.
pub proof fn law_new_entries_go_behind(
    h: HeapState,
    entries: Seq<MapEntry>,
    channel: ChannelObj,
    queue: QueueState,
    state: UpValueState,
    val: GosValue,
    slots: Seq<GosValue>,
    data: UnsafeData,
)
    ensures
        ({
            let g = h.plus_map_data(entries);
            &&& g == (HeapState { map_data: g.map_data, ..h })
            &&& g.map_data.len() == h.map_data.len() + 1
            &&& g.map_data.last() == entries
            &&& forall|k: int| 0 <= k < h.map_data.len() ==> #[trigger] g.map_data[k] == h.map_data[k]
        }),
        ({
            let g = h.plus_channel(channel);
            &&& g == (HeapState { channels: g.channels, ..h })
            &&& g.channels.len() == h.channels.len() + 1
            &&& g.channels.last() == channel
            &&& forall|k: int| 0 <= k < h.channels.len() ==> #[trigger] g.channels[k] == h.channels[k]
        }),
        ({
            let g = h.plus_queue(queue);
            &&& g == (HeapState { queues: g.queues, ..h })
            &&& g.queues.len() == h.queues.len() + 1
            &&& g.queues.last() == queue
            &&& forall|k: int| 0 <= k < h.queues.len() ==> #[trigger] g.queues[k] == h.queues[k]
        }),
        ({
            let g = h.plus_upvalue(state);
            &&& g == (HeapState { upvalues: g.upvalues, ..h })
            &&& g.upvalues.len() == h.upvalues.len() + 1
            &&& g.upvalues.last() == Some(state)
            &&& forall|k: int| 0 <= k < h.upvalues.len() ==> #[trigger] g.upvalues[k] == h.upvalues[k]
        }),
        ({
            let g = h.plus_cell(val);
            &&& g == (HeapState { cells: g.cells, ..h })
            &&& g.cells.len() == h.cells.len() + 1
            &&& g.cells.last() == val
            &&& forall|k: int| 0 <= k < h.cells.len() ==> #[trigger] g.cells[k] == h.cells[k]
        }),
        ({
            let g = h.plus_stack(slots);
            &&& g == (HeapState { stacks: g.stacks, ..h })
            &&& g.stacks.len() == h.stacks.len() + 1
            &&& g.stacks.last() == Some(slots)
            &&& forall|k: int| 0 <= k < h.stacks.len() ==> #[trigger] g.stacks[k] == h.stacks[k]
        }),
        ({
            let g = h.plus_unsafe(data);
            &&& g == (HeapState { unsafes: g.unsafes, ..h })
            &&& g.unsafes.len() == h.unsafes.len() + 1
            &&& g.unsafes.last() == data
            &&& forall|k: int| 0 <= k < h.unsafes.len() ==> #[trigger] g.unsafes[k] == h.unsafes[k]
        }),
{
}

/// Changing an object changes that one: the others of its kind stay what they are, and so does
/// all else on the heap. A slice or struct keeps its count of references.
pub proof fn law_changes_reach_one_object(
    h: HeapState,
    id: usize,
    vals: Seq<GosValue>,
    slice: SliceObj,
    entries: Seq<MapEntry>,
    queue: QueueState,
    state: Option<UpValueState>,
    val: GosValue,
    slots: Option<Seq<GosValue>>,
)
    ensures
        id < h.vecs.len() ==> {
            let g = h.with_vec(id, vals);
            &&& g == (HeapState { vecs: g.vecs, ..h })
            &&& g.vecs.len() == h.vecs.len()
            &&& g.vecs[id as int] == vals
            &&& forall|k: int|
                0 <= k < h.vecs.len() && k != id ==> #[trigger] g.vecs[k] == h.vecs[k]
        },
        id < h.map_data.len() ==> {
            let g = h.with_map_data(id, entries);
            &&& g == (HeapState { map_data: g.map_data, ..h })
            &&& g.map_data.len() == h.map_data.len()
            &&& g.map_data[id as int] == entries
            &&& forall|k: int|
                0 <= k < h.map_data.len() && k != id ==> #[trigger] g.map_data[k] == h.map_data[k]
        },
        id < h.queues.len() ==> {
            let g = h.with_queue(id, queue);
            &&& g == (HeapState { queues: g.queues, ..h })
            &&& g.queues.len() == h.queues.len()
            &&& g.queues[id as int] == queue
            &&& forall|k: int|
                0 <= k < h.queues.len() && k != id ==> #[trigger] g.queues[k] == h.queues[k]
        },
        id < h.upvalues.len() ==> {
            let g = h.with_upvalue(id, state);
            &&& g == (HeapState { upvalues: g.upvalues, ..h })
            &&& g.upvalues.len() == h.upvalues.len()
            &&& g.upvalues[id as int] == state
            &&& forall|k: int|
                0 <= k < h.upvalues.len() && k != id ==> #[trigger] g.upvalues[k] == h.upvalues[k]
        },
        id < h.cells.len() ==> {
            let g = h.with_cell(id, val);
            &&& g == (HeapState { cells: g.cells, ..h })
            &&& g.cells.len() == h.cells.len()
            &&& g.cells[id as int] == val
            &&& forall|k: int|
                0 <= k < h.cells.len() && k != id ==> #[trigger] g.cells[k] == h.cells[k]
        },
        id < h.stacks.len() ==> {
            let g = h.with_stack(id, slots);
            &&& g == (HeapState { stacks: g.stacks, ..h })
            &&& g.stacks.len() == h.stacks.len()
            &&& g.stacks[id as int] == slots
            &&& forall|k: int|
                0 <= k < h.stacks.len() && k != id ==> #[trigger] g.stacks[k] == h.stacks[k]
        },
        id < h.slices.len() ==> {
            let g = h.with_slice(id, slice);
            &&& g == (HeapState { slices: g.slices, ..h })
            &&& g.slices.len() == h.slices.len()
            &&& g.slices[id as int] == (Counted { obj: slice, rc: h.slices[id as int].rc })
            &&& forall|k: int|
                0 <= k < h.slices.len() && k != id ==> #[trigger] g.slices[k] == h.slices[k]
        },
        id < h.structs.len() ==> {
            let g = h.with_struct(id, vals);
            &&& g == (HeapState { structs: g.structs, ..h })
            &&& g.structs.len() == h.structs.len()
            &&& g.structs[id as int] == (Counted { obj: vals, rc: h.structs[id as int].rc })
            &&& forall|k: int|
                0 <= k < h.structs.len() && k != id ==> #[trigger] g.structs[k] == h.structs[k]
        },
{
}

/// The count of an object is the one that is kept with it. Setting it sets that one: no object
/// changes, and no other count.
pub proof fn law_counts_are_kept_with_their_objects(
    h: HeapState,
    slot: RcSlot,
    rc: i32,
    other: RcSlot,
)
    requires
        h.has_slot(slot),
        h.has_slot(other),
    ensures
        match slot {
            RcSlot::Array(id) => id < h.arrays.len() && h.rc(slot) == h.arrays[id as int].rc,
            RcSlot::Slice(id) => id < h.slices.len() && h.rc(slot) == h.slices[id as int].rc,
            RcSlot::GosMap(id) => id < h.maps.len() && h.rc(slot) == h.maps[id as int].rc,
            RcSlot::Struct(id) => id < h.structs.len() && h.rc(slot) == h.structs[id as int].rc,
            RcSlot::Interface(id) => id < h.ifaces.len() && h.rc(slot) == h.ifaces[id as int].rc,
            RcSlot::Closure(id) => id < h.closures.len() && h.rc(slot)
                == h.closures[id as int].rc,
        },
        h.with_rc(slot, rc).has_slot(other),
        h.with_rc(slot, rc).rc(slot) == rc,
        slot != other ==> h.with_rc(slot, rc).rc(other) == h.rc(other),
        h.with_rc(slot, rc).with_rc(slot, h.rc(slot)) == h,
        same_objects(h, h.with_rc(slot, rc)),
{
    assert(h.with_rc(slot, rc).with_rc(slot, h.rc(slot)) =~= h);
}

/// Whether two heaps hold the same objects, whatever their counts.
pub open spec fn same_objects(h: HeapState, g: HeapState) -> bool {
    &&& g.arrays.len() == h.arrays.len()
    &&& forall|i: int| 0 <= i < h.arrays.len() ==> (#[trigger] g.arrays[i]).obj == h.arrays[i].obj
    &&& g.slices.len() == h.slices.len()
    &&& forall|i: int| 0 <= i < h.slices.len() ==> (#[trigger] g.slices[i]).obj == h.slices[i].obj
    &&& g.structs.len() == h.structs.len()
    &&& forall|i: int|
        0 <= i < h.structs.len() ==> (#[trigger] g.structs[i]).obj == h.structs[i].obj
    &&& g.ifaces.len() == h.ifaces.len()
    &&& forall|i: int| 0 <= i < h.ifaces.len() ==> (#[trigger] g.ifaces[i]).obj == h.ifaces[i].obj
    &&& g.closures.len() == h.closures.len()
    &&& forall|i: int|
        0 <= i < h.closures.len() ==> (#[trigger] g.closures[i]).obj == h.closures[i].obj
    &&& g.maps.len() == h.maps.len()
    &&& forall|i: int| 0 <= i < h.maps.len() ==> (#[trigger] g.maps[i]).obj == h.maps[i].obj
    &&& g == (HeapState {
        arrays: g.arrays,
        slices: g.slices,
        structs: g.structs,
        ifaces: g.ifaces,
        closures: g.closures,
        maps: g.maps,
        ..h
    })
}

/// A heap is addressable exactly if no kind of object is more numerous than a machine word can
/// count, and so is an empty one.
pub proof fn law_when_a_heap_is_addressable(h: HeapState)
    ensures
        h.vecs.len() <= usize::MAX && h.strs.len() <= usize::MAX && h.arrays.len() <= usize::MAX
            && h.slices.len() <= usize::MAX && h.structs.len() <= usize::MAX && h.ifaces.len()
            <= usize::MAX && h.closures.len() <= usize::MAX && h.maps.len() <= usize::MAX
            && h.map_data.len() <= usize::MAX && h.channels.len() <= usize::MAX && h.queues.len()
            <= usize::MAX && h.upvalues.len() <= usize::MAX && h.cells.len() <= usize::MAX
            && h.stacks.len() <= usize::MAX && h.unsafes.len() <= usize::MAX
            <==> h.addressable(),
        HeapState::empty().addressable(),
{
}

} // verus!
