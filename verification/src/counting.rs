//! Reference counts, as the collector of unreachable objects works with them.
use std::collections::HashMap;
use vstd::prelude::*;

use crate::heap::{Heap, HeapState, RcSlot};
use crate::instruction::OpIndex;
use crate::interface_obj::InterfaceObj;
use crate::keys::PackageKey;
use crate::closure_obj::ClosureObj;
use crate::pointer_obj::{PointerObj, UnsafeData};
use crate::upvalue::{UpValue, UpValueState};
use crate::value::GosValue;

verus! {

/// The counts of objects that are waiting to be looked at.
pub type RCQueue = Vec<i32>;

/// The count of an object that was put into the queue.
pub const MARKED: i32 = 666;

/// The object `slot`, if there is one.
pub open spec fn known_slot(h: HeapState, slot: RcSlot) -> Option<Option<RcSlot>> {
    if h.has_slot(slot) {
        Some(Some(slot))
    } else {
        None
    }
}

/// The object in whose count a reference held by `v` is counted, or nothing where it
/// is not counted, if that can be told in `fuel` steps.
pub open spec fn slot_at(h: HeapState, v: GosValue, fuel: nat) -> Option<Option<RcSlot>>
    decreases fuel,
{
    if fuel == 0 {
        None
    } else {
        let less = (fuel - 1) as nat;
        match v {
            GosValue::Array(id) => known_slot(h, RcSlot::Array(id)),
            GosValue::Slice(id) => known_slot(h, RcSlot::Slice(id)),
            GosValue::GosMap(id) => known_slot(h, RcSlot::GosMap(id)),
            GosValue::Struct(id) => known_slot(h, RcSlot::Struct(id)),
            GosValue::Interface(id) => known_slot(h, RcSlot::Interface(id)),
            GosValue::Closure(id) => known_slot(h, RcSlot::Closure(id)),
            GosValue::Pointer(p) => pointer_slot_at(h, p, less),
            GosValue::UnsafePtr(id) => if id < h.unsafes.len() {
                match h.unsafes[id as int] {
                    UnsafeData::Handle(handle) => pointer_slot_at(h, handle.ptr, less),
                    UnsafeData::User(_) => Some(None),
                }
            } else {
                None
            },
            _ => Some(None),
        }
    }
}

/// The object in whose count a pointer is counted. A closed up value hands the
/// question on to the value in it. Pointers to arrays and to members of packages
/// are not counted.
pub open spec fn pointer_slot_at(h: HeapState, p: PointerObj, fuel: nat) -> Option<Option<RcSlot>>
    decreases fuel,
{
    if fuel == 0 {
        None
    } else {
        match p {
            PointerObj::UpVal(uv) => if uv.inner < h.upvalues.len() {
                match h.upvalues[uv.inner as int] {
                    Some(UpValueState::Closed(v)) => slot_at(h, v, (fuel - 1) as nat),
                    Some(UpValueState::Open(_)) => Some(None),
                    None => None,
                }
            } else {
                None
            },
            PointerObj::Struct(id) => known_slot(h, RcSlot::Struct(id)),
            PointerObj::Slice(id) => known_slot(h, RcSlot::Slice(id)),
            PointerObj::GosMap(id) => known_slot(h, RcSlot::GosMap(id)),
            PointerObj::SliceMember(id, _) => known_slot(h, RcSlot::Slice(id)),
            PointerObj::StructField(id, _) => known_slot(h, RcSlot::Struct(id)),
            PointerObj::Array(_) | PointerObj::PkgMember(_, _) => Some(None),
        }
    }
}

/// More steps do not change the answer.
pub proof fn lemma_slot_mono(h: HeapState, v: GosValue, fuel: nat, more: nat)
    requires
        fuel <= more,
        slot_at(h, v, fuel) is Some,
    ensures
        slot_at(h, v, more) == slot_at(h, v, fuel),
    decreases fuel,
{
    match v {
        GosValue::Pointer(p) => {
            lemma_pointer_slot_mono(h, p, (fuel - 1) as nat, (more - 1) as nat);
        },
        GosValue::UnsafePtr(id) => {
            match h.unsafes[id as int] {
                UnsafeData::Handle(handle) => {
                    lemma_pointer_slot_mono(h, handle.ptr, (fuel - 1) as nat, (more - 1) as nat);
                },
                _ => {},
            }
        },
        _ => {},
    }
}

proof fn lemma_pointer_slot_mono(h: HeapState, p: PointerObj, fuel: nat, more: nat)
    requires
        fuel <= more,
        pointer_slot_at(h, p, fuel) is Some,
    ensures
        pointer_slot_at(h, p, more) == pointer_slot_at(h, p, fuel),
    decreases fuel,
{
    match p {
        PointerObj::UpVal(uv) => {
            match h.upvalues[uv.inner as int] {
                Some(UpValueState::Closed(v)) => {
                    lemma_slot_mono(h, v, (fuel - 1) as nat, (more - 1) as nat);
                },
                _ => {},
            }
        },
        _ => {},
    }
}

/// The object in whose count a reference held by `v` is counted, or nothing where it
/// is not counted. One step is enough where the value itself names the object.
pub open spec fn value_slot(h: HeapState, v: GosValue) -> Option<Option<RcSlot>> {
    if slot_at(h, v, 1) is Some {
        slot_at(h, v, 1)
    } else if exists|fuel: nat| #[trigger] slot_at(h, v, fuel) is Some {
        slot_at(h, v, choose|fuel: nat| #[trigger] slot_at(h, v, fuel) is Some)
    } else {
        None
    }
}

/// Any number of steps that is enough gives the answer.
pub proof fn lemma_value_slot(h: HeapState, v: GosValue, fuel: nat)
    requires
        slot_at(h, v, fuel) is Some,
    ensures
        value_slot(h, v) == slot_at(h, v, fuel),
{
    let chosen = if slot_at(h, v, 1) is Some {
        1
    } else {
        choose|f: nat| #[trigger] slot_at(h, v, f) is Some
    };
    if chosen <= fuel {
        lemma_slot_mono(h, v, chosen, fuel);
    } else {
        lemma_slot_mono(h, v, fuel, chosen);
    }
}

/// The heap after a reference held by `v` was taken off the count, if the count can
/// go down.
pub open spec fn sub_one(h: HeapState, v: GosValue) -> Option<HeapState> {
    match value_slot(h, v) {
        Some(Some(slot)) => if h.rc(slot) > i32::MIN {
            Some(h.with_rc(slot, (h.rc(slot) - 1) as i32))
        } else {
            None
        },
        Some(None) => Some(h),
        None => None,
    }
}

/// The heap and the queue after the object that `v` refers to was looked at: one
/// with no references left is marked, and its count is put into the queue.
pub open spec fn marked(h: HeapState, queue: Seq<i32>, v: GosValue) -> Option<
    (HeapState, Seq<i32>),
> {
    match value_slot(h, v) {
        Some(Some(slot)) => if h.rc(slot) <= 0 {
            Some((h.with_rc(slot, MARKED), queue.push(h.rc(slot))))
        } else {
            Some((h, queue))
        },
        Some(None) => Some((h, queue)),
        None => None,
    }
}

/// The pointer that goes through an up value.
pub open spec fn through(uv: UpValue) -> GosValue {
    GosValue::Pointer(PointerObj::UpVal(uv))
}

/// The heap after taking one reference off for each of the values in turn.
pub open spec fn sub_all(h: HeapState, vals: Seq<GosValue>) -> Option<HeapState>
    decreases vals.len(),
{
    if vals.len() == 0 {
        Some(h)
    } else {
        match sub_all(h, vals.drop_last()) {
            Some(h1) => sub_one(h1, vals.last()),
            None => None,
        }
    }
}

/// The heap and the queue after marking for each of the values in turn.
pub open spec fn marked_all(h: HeapState, queue: Seq<i32>, vals: Seq<GosValue>) -> Option<
    (HeapState, Seq<i32>),
>
    decreases vals.len(),
{
    if vals.len() == 0 {
        Some((h, queue))
    } else {
        match marked_all(h, queue, vals.drop_last()) {
            Some((h1, q1)) => marked(h1, q1, vals.last()),
            None => None,
        }
    }
}

fn slot_within(heap: &Heap, v: &GosValue, Ghost(fuel): Ghost<nat>) -> (slot: Option<RcSlot>)
    requires
        slot_at(heap@, *v, fuel) is Some,
    ensures
        slot == slot_at(heap@, *v, fuel)->0,
        slot matches Some(s) ==> heap@.has_slot(s),
    decreases fuel,
{
    let ghost less = (fuel - 1) as nat;
    match v {
        GosValue::Array(id) => Some(RcSlot::Array(*id)),
        GosValue::Slice(id) => Some(RcSlot::Slice(*id)),
        GosValue::GosMap(id) => Some(RcSlot::GosMap(*id)),
        GosValue::Struct(id) => Some(RcSlot::Struct(*id)),
        GosValue::Interface(id) => Some(RcSlot::Interface(*id)),
        GosValue::Closure(id) => Some(RcSlot::Closure(*id)),
        GosValue::Pointer(p) => pointer_slot_within(heap, p, Ghost(less)),
        GosValue::UnsafePtr(id) => {
            match heap.unsafes[*id] {
                UnsafeData::Handle(handle) => pointer_slot_within(heap, &handle.ptr, Ghost(less)),
                UnsafeData::User(_) => None,
            }
        },
        _ => None,
    }
}

fn pointer_slot_within(heap: &Heap, p: &PointerObj, Ghost(fuel): Ghost<nat>) -> (slot: Option<
    RcSlot,
>)
    requires
        pointer_slot_at(heap@, *p, fuel) is Some,
    ensures
        slot == pointer_slot_at(heap@, *p, fuel)->0,
        slot matches Some(s) ==> heap@.has_slot(s),
    decreases fuel,
{
    match p {
        PointerObj::UpVal(uv) => {
            match &heap.upvalues[uv.inner] {
                Some(UpValueState::Closed(v)) => slot_within(heap, v, Ghost((fuel - 1) as nat)),
                _ => None,
            }
        },
        PointerObj::Struct(id) => Some(RcSlot::Struct(*id)),
        PointerObj::Slice(id) => Some(RcSlot::Slice(*id)),
        PointerObj::GosMap(id) => Some(RcSlot::GosMap(*id)),
        PointerObj::SliceMember(id, _) => Some(RcSlot::Slice(*id)),
        PointerObj::StructField(id, _) => Some(RcSlot::Struct(*id)),
        PointerObj::Array(_) | PointerObj::PkgMember(_, _) => None,
    }
}

fn slot_of(heap: &Heap, v: &GosValue) -> (slot: Option<RcSlot>)
    requires
        value_slot(heap@, *v) is Some,
    ensures
        slot == value_slot(heap@, *v)->0,
        slot matches Some(s) ==> heap@.has_slot(s),
{
    let ghost fuel = choose|f: nat| #[trigger] slot_at(heap@, *v, f) is Some;
    proof {
        lemma_value_slot(heap@, *v, fuel);
    }
    slot_within(heap, v, Ghost(fuel))
}

impl GosValue {
    /// Takes one reference off the count of the object that the value refers to.
    pub fn ref_sub_one(&self, heap: &mut Heap)
        requires
            sub_one(old(heap)@, *self) is Some,
        ensures
            final(heap)@ == sub_one(old(heap)@, *self)->0,
    {
        if let Some(slot) = slot_of(heap, self) {
            let rc: i32 = heap.rc(slot);
            heap.set_rc(slot, rc - 1);
        }
    }

    /// Marks the object that the value refers to, if no references to it are left.
    pub fn mark_dirty(&self, queue: &mut RCQueue, heap: &mut Heap)
        requires
            marked(old(heap)@, old(queue)@, *self) is Some,
        ensures
            marked(old(heap)@, old(queue)@, *self)->0 == (final(heap)@, final(queue)@),
    {
        if let Some(slot) = slot_of(heap, self) {
            let rc: i32 = heap.rc(slot);
            if rc <= 0 {
                heap.set_rc(slot, MARKED);
                queue.push(rc);
            }
        }
    }
}

impl PointerObj {
    pub fn ref_sub_one(&self, heap: &mut Heap)
        requires
            sub_one(old(heap)@, GosValue::Pointer(*self)) is Some,
        ensures
            final(heap)@ == sub_one(old(heap)@, GosValue::Pointer(*self))->0,
    {
        GosValue::Pointer(*self).ref_sub_one(heap)
    }

    pub fn mark_dirty(&self, queue: &mut RCQueue, heap: &mut Heap)
        requires
            marked(old(heap)@, old(queue)@, GosValue::Pointer(*self)) is Some,
        ensures
            marked(old(heap)@, old(queue)@, GosValue::Pointer(*self))->0 == (
                final(heap)@,
                final(queue)@,
            ),
    {
        GosValue::Pointer(*self).mark_dirty(queue, heap)
    }
}

impl UpValue {
    pub fn ref_sub_one(&self, heap: &mut Heap)
        requires
            sub_one(old(heap)@, through(*self)) is Some,
        ensures
            final(heap)@ == sub_one(old(heap)@, through(*self))->0,
    {
        PointerObj::UpVal(*self).ref_sub_one(heap)
    }

    pub fn mark_dirty(&self, queue: &mut RCQueue, heap: &mut Heap)
        requires
            marked(old(heap)@, old(queue)@, through(*self)) is Some,
        ensures
            marked(old(heap)@, old(queue)@, through(*self))->0 == (final(heap)@, final(queue)@),
    {
        PointerObj::UpVal(*self).mark_dirty(queue, heap)
    }
}

impl InterfaceObj {
    /// Takes one reference off for the value behind the interface.
    pub fn ref_sub_one(&self, heap: &mut Heap)
        requires
            *self matches InterfaceObj::Gos(v, _) ==> sub_one(old(heap)@, v) is Some,
        ensures
            final(heap)@ == match *self {
                InterfaceObj::Gos(v, _) => sub_one(old(heap)@, v)->0,
                InterfaceObj::Ffi(_) => old(heap)@,
            },
    {
        match self {
            InterfaceObj::Gos(v, _) => v.ref_sub_one(heap),
            _ => {},
        }
    }

    /// Marks what the value behind the interface refers to.
    pub fn mark_dirty(&self, queue: &mut RCQueue, heap: &mut Heap)
        requires
            *self matches InterfaceObj::Gos(v, _) ==> marked(old(heap)@, old(queue)@, v) is Some,
        ensures
            (final(heap)@, final(queue)@) == match *self {
                InterfaceObj::Gos(v, _) => marked(old(heap)@, old(queue)@, v)->0,
                InterfaceObj::Ffi(_) => (old(heap)@, old(queue)@),
            },
    {
        match self {
            InterfaceObj::Gos(v, _) => v.mark_dirty(queue, heap),
            _ => {},
        }
    }
}

/// Whether `order` lists the up values of a closure, each once.
pub open spec fn lists(uvs: Map<usize, UpValue>, order: Seq<(usize, UpValue)>) -> bool {
    &&& order.no_duplicates()
    &&& order.to_set() == uvs.kv_pairs()
}

/// The pointers that go through the listed up values.
pub open spec fn all_through(order: Seq<(usize, UpValue)>) -> Seq<GosValue> {
    order.map_values(|entry: (usize, UpValue)| through(entry.1))
}

/// The entries of a hash map, in the order in which it hands them out.
fn entries(uvs: &HashMap<usize, UpValue>) -> (order: Vec<(usize, UpValue)>)
    ensures
        lists(uvs@, order@),
{
    broadcast use vstd::std_specs::hash::group_hash_axioms;

    let mut order: Vec<(usize, UpValue)> = Vec::new();
    let iter = uvs.iter();
    let ghost all = vstd::std_specs::iter::IteratorSpec::remaining(&iter);
    for (key, uv) in it: iter
        invariant
            it.seq() == all,
            order@ == all.unref().take(it.index() as int),
    {
        order.push((*key, *uv));
        assert(order@ =~= all.unref().take(it.index() + 1));
    }
    assert(order@ =~= all.unref());
    assert(order@.no_duplicates()) by {
        assert forall|i: int, j: int| 0 <= i < all.len() && 0 <= j < all.len() && i != j implies
            all.unref()[i] != all.unref()[j] by {
            assert(all[i] != all[j]);
        }
    }
    order
}

proof fn lemma_sub_prefix(h: HeapState, vals: Seq<GosValue>, n: int)
    requires
        0 <= n <= vals.len(),
        sub_all(h, vals) is Some,
    ensures
        sub_all(h, vals.take(n)) is Some,
    decreases vals.len(),
{
    if n == vals.len() {
        assert(vals.take(n) =~= vals);
    } else {
        lemma_sub_prefix(h, vals.drop_last(), n);
        assert(vals.drop_last().take(n) =~= vals.take(n));
    }
}

proof fn lemma_marked_prefix(h: HeapState, queue: Seq<i32>, vals: Seq<GosValue>, n: int)
    requires
        0 <= n <= vals.len(),
        marked_all(h, queue, vals) is Some,
    ensures
        marked_all(h, queue, vals.take(n)) is Some,
    decreases vals.len(),
{
    if n == vals.len() {
        assert(vals.take(n) =~= vals);
    } else {
        lemma_marked_prefix(h, queue, vals.drop_last(), n);
        assert(vals.drop_last().take(n) =~= vals.take(n));
    }
}

impl ClosureObj {
    /// The values that the closure holds on to: its up values in the given order, and
    /// behind them the receiver. A foreign function holds on to nothing.
    pub open spec fn held(self, order: Seq<(usize, UpValue)>) -> Seq<GosValue> {
        if self.func is None {
            Seq::empty()
        } else {
            let captured = match self.uvs {
                Some(_) => all_through(order),
                None => Seq::empty(),
            };
            match self.recv {
                Some(recv) => captured.push(recv),
                None => captured,
            }
        }
    }

    /// Whether `order` lists the up values of the closure.
    pub open spec fn in_order(self, order: Seq<(usize, UpValue)>) -> bool {
        match self.uvs {
            Some(uvs) => lists(uvs@, order),
            None => order.len() == 0,
        }
    }

    /// Takes one reference off for each value that the closure holds on to.
    pub fn ref_sub_one(&self, heap: &mut Heap)
        requires
            forall|order: Seq<(usize, UpValue)>| #[trigger]
                self.in_order(order) ==> sub_all(old(heap)@, self.held(order)) is Some,
        ensures
            exists|order: Seq<(usize, UpValue)>| #[trigger]
                self.in_order(order) && sub_all(old(heap)@, self.held(order)) == Some(
                    final(heap)@,
                ),
    {
        let order: Vec<(usize, UpValue)> = match &self.uvs {
            Some(uvs) => entries(uvs),
            None => Vec::new(),
        };
        assert(self.in_order(order@));
        if self.func.is_some() {
            let ghost vals = self.held(order@);
            let mut i: usize = 0;
            while i < order.len()
                invariant
                    i <= order.len() <= vals.len(),
                    forall|k: int| 0 <= k < order.len() ==> vals[k] == through(order[k].1),
                    sub_all(old(heap)@, vals) is Some,
                    sub_all(old(heap)@, vals.take(i as int)) == Some(heap@),
                decreases order.len() - i,
            {
                proof {
                    lemma_sub_prefix(old(heap)@, vals, i + 1);
                    assert(vals.take(i + 1).drop_last() =~= vals.take(i as int));
                }
                order[i].1.ref_sub_one(heap);
                i = i + 1;
            }
            if let Some(recv) = &self.recv {
                assert(vals.drop_last() =~= vals.take(i as int));
                recv.ref_sub_one(heap);
            }
            assert(vals.take(vals.len() as int) =~= vals);
        }
    }

    /// Marks what the values refer to that the closure holds on to.
    pub fn mark_dirty(&self, queue: &mut RCQueue, heap: &mut Heap)
        requires
            forall|order: Seq<(usize, UpValue)>| #[trigger]
                self.in_order(order) ==> marked_all(
                    old(heap)@,
                    old(queue)@,
                    self.held(order),
                ) is Some,
        ensures
            exists|order: Seq<(usize, UpValue)>| #[trigger]
                self.in_order(order) && marked_all(old(heap)@, old(queue)@, self.held(order))
                    == Some((final(heap)@, final(queue)@)),
    {
        let order: Vec<(usize, UpValue)> = match &self.uvs {
            Some(uvs) => entries(uvs),
            None => Vec::new(),
        };
        assert(self.in_order(order@));
        if self.func.is_some() {
            let ghost vals = self.held(order@);
            let mut i: usize = 0;
            while i < order.len()
                invariant
                    i <= order.len() <= vals.len(),
                    forall|k: int| 0 <= k < order.len() ==> vals[k] == through(order[k].1),
                    marked_all(old(heap)@, old(queue)@, vals) is Some,
                    marked_all(old(heap)@, old(queue)@, vals.take(i as int)) == Some(
                        (heap@, queue@),
                    ),
                decreases order.len() - i,
            {
                proof {
                    lemma_marked_prefix(old(heap)@, old(queue)@, vals, i + 1);
                    assert(vals.take(i + 1).drop_last() =~= vals.take(i as int));
                }
                order[i].1.mark_dirty(queue, heap);
                i = i + 1;
            }
            if let Some(recv) = &self.recv {
                assert(vals.drop_last() =~= vals.take(i as int));
                recv.mark_dirty(queue, heap);
            }
            assert(vals.take(vals.len() as int) =~= vals);
        }
    }
}

proof fn lemma_slot_with_rc(h: HeapState, slot: RcSlot, rc: i32, v: GosValue, fuel: nat)
    requires
        h.has_slot(slot),
    ensures
        slot_at(h.with_rc(slot, rc), v, fuel) == slot_at(h, v, fuel),
    decreases fuel,
{
    if fuel > 0 {
        match v {
            GosValue::Pointer(p) => {
                lemma_pointer_slot_with_rc(h, slot, rc, p, (fuel - 1) as nat);
            },
            GosValue::UnsafePtr(id) => if id < h.unsafes.len() {
                match h.unsafes[id as int] {
                    UnsafeData::Handle(handle) => {
                        lemma_pointer_slot_with_rc(h, slot, rc, handle.ptr, (fuel - 1) as nat);
                    },
                    UnsafeData::User(_) => {},
                }
            },
            _ => {},
        }
    }
}

proof fn lemma_pointer_slot_with_rc(
    h: HeapState,
    slot: RcSlot,
    rc: i32,
    p: PointerObj,
    fuel: nat,
)
    requires
        h.has_slot(slot),
    ensures
        pointer_slot_at(h.with_rc(slot, rc), p, fuel) == pointer_slot_at(h, p, fuel),
    decreases fuel,
{
    if fuel > 0 {
        match p {
            PointerObj::UpVal(uv) => if uv.inner < h.upvalues.len() {
                match h.upvalues[uv.inner as int] {
                    Some(UpValueState::Closed(v)) => {
                        lemma_slot_with_rc(h, slot, rc, v, (fuel - 1) as nat);
                    },
                    _ => {},
                }
            },
            _ => {},
        }
    }
}

/// Changing counts does not change in which count a reference is counted.
pub proof fn law_counts_do_not_decide_what_is_counted(
    h: HeapState,
    slot: RcSlot,
    rc: i32,
    v: GosValue,
)
    requires
        h.has_slot(slot),
    ensures
        value_slot(h.with_rc(slot, rc), v) == value_slot(h, v),
{
    let g = h.with_rc(slot, rc);
    if exists|f: nat| #[trigger] slot_at(h, v, f) is Some {
        let f = choose|f: nat| #[trigger] slot_at(h, v, f) is Some;
        lemma_value_slot(h, v, f);
        lemma_slot_with_rc(h, slot, rc, v, f);
        lemma_value_slot(g, v, f);
    } else {
        assert forall|f: nat| #[trigger] slot_at(g, v, f) is None by {
            lemma_slot_with_rc(h, slot, rc, v, f);
        }
    }
}

proof fn lemma_slot_is_there(h: HeapState, v: GosValue, fuel: nat)
    ensures
        slot_at(h, v, fuel) matches Some(Some(slot)) ==> h.has_slot(slot),
    decreases fuel,
{
    if fuel > 0 {
        match v {
            GosValue::Pointer(p) => lemma_pointer_slot_is_there(h, p, (fuel - 1) as nat),
            GosValue::UnsafePtr(id) => if id < h.unsafes.len() {
                match h.unsafes[id as int] {
                    UnsafeData::Handle(handle) => {
                        lemma_pointer_slot_is_there(h, handle.ptr, (fuel - 1) as nat);
                    },
                    UnsafeData::User(_) => {},
                }
            },
            _ => {},
        }
    }
}

proof fn lemma_pointer_slot_is_there(h: HeapState, p: PointerObj, fuel: nat)
    ensures
        pointer_slot_at(h, p, fuel) matches Some(Some(slot)) ==> h.has_slot(slot),
    decreases fuel,
{
    if fuel > 0 {
        match p {
            PointerObj::UpVal(uv) => if uv.inner < h.upvalues.len() {
                match h.upvalues[uv.inner as int] {
                    Some(UpValueState::Closed(v)) => {
                        lemma_slot_is_there(h, v, (fuel - 1) as nat);
                    },
                    _ => {},
                }
            },
            _ => {},
        }
    }
}

/// Taking a reference off changes the count of one object by one, and nothing else.
pub proof fn law_one_count_goes_down_by_one(h: HeapState, v: GosValue, other: RcSlot)
    requires
        sub_one(h, v) is Some,
        value_slot(h, v)->0 is Some,
        h.has_slot(other),
    ensures
        sub_one(h, v)->0.has_slot(other),
        sub_one(h, v)->0.rc(other) == if value_slot(h, v) == Some(Some(other)) {
            h.rc(other) - 1
        } else {
            h.rc(other) as int
        },
        sub_one(h, v)->0.with_rc(
            value_slot(h, v)->0->0,
            h.rc(value_slot(h, v)->0->0),
        ) == h,
{
    let fuel = choose|f: nat| #[trigger] slot_at(h, v, f) is Some;
    lemma_value_slot(h, v, fuel);
    lemma_slot_is_there(h, v, fuel);
    let slot = value_slot(h, v)->0->0;
    assert(sub_one(h, v)->0.with_rc(slot, h.rc(slot)) =~= h);
}

/// It does not matter in which order two references are taken off.
pub proof fn law_the_order_of_taking_off_does_not_matter(
    h: HeapState,
    a: GosValue,
    b: GosValue,
)
    requires
        sub_one(h, a) is Some,
        sub_one(h, b) is Some,
        sub_one(sub_one(h, a)->0, b) is Some,
    ensures
        sub_one(sub_one(h, b)->0, a) == sub_one(sub_one(h, a)->0, b),
{
    let f = choose|f: nat| #[trigger] slot_at(h, a, f) is Some;
    lemma_value_slot(h, a, f);
    let g = choose|g: nat| #[trigger] slot_at(h, b, g) is Some;
    lemma_value_slot(h, b, g);
    lemma_slot_is_there(h, a, f);
    lemma_slot_is_there(h, b, g);
    match (value_slot(h, a)->0, value_slot(h, b)->0) {
        (Some(s), Some(t)) => {
            law_counts_do_not_decide_what_is_counted(h, s, (h.rc(s) - 1) as i32, b);
            law_counts_do_not_decide_what_is_counted(h, t, (h.rc(t) - 1) as i32, a);
            assert(sub_one(sub_one(h, b)->0, a)->0 =~= sub_one(sub_one(h, a)->0, b)->0);
        },
        (Some(s), None) => {
            law_counts_do_not_decide_what_is_counted(h, s, (h.rc(s) - 1) as i32, b);
        },
        (None, Some(t)) => {
            law_counts_do_not_decide_what_is_counted(h, t, (h.rc(t) - 1) as i32, a);
        },
        (None, None) => {},
    }
}

/// An object is put into the queue once: marking it again changes nothing.
pub proof fn law_an_object_is_queued_once(h: HeapState, queue: Seq<i32>, v: GosValue)
    requires
        marked(h, queue, v) is Some,
    ensures
        ({
            let (g, q) = marked(h, queue, v)->0;
            marked(g, q, v) == Some((g, q))
        }),
{
    let fuel = choose|f: nat| #[trigger] slot_at(h, v, f) is Some;
    lemma_value_slot(h, v, fuel);
    lemma_slot_is_there(h, v, fuel);
    match value_slot(h, v)->0 {
        Some(slot) => law_counts_do_not_decide_what_is_counted(h, slot, MARKED, v),
        None => {},
    }
}

/// In which count a reference is counted: that of the array, slice, map, struct, interface or
/// closure that the value names. A pointer at a struct, slice or map counts for that, and one at
/// an element or field for its slice or struct; pointers at arrays and package members, and all
/// other values, are not counted.
pub proof fn law_what_is_counted(h: HeapState, id: usize, i: OpIndex, key: PackageKey)
    ensures
        id < h.arrays.len() ==> value_slot(h, GosValue::Array(id)) == Some(
            Some(RcSlot::Array(id)),
        ),
        id < h.slices.len() ==> {
            &&& value_slot(h, GosValue::Slice(id)) == Some(Some(RcSlot::Slice(id)))
            &&& value_slot(h, GosValue::Pointer(PointerObj::Slice(id))) == Some(
                Some(RcSlot::Slice(id)),
            )
            &&& value_slot(h, GosValue::Pointer(PointerObj::SliceMember(id, i))) == Some(
                Some(RcSlot::Slice(id)),
            )
        },
        id < h.maps.len() ==> {
            &&& value_slot(h, GosValue::GosMap(id)) == Some(Some(RcSlot::GosMap(id)))
            &&& value_slot(h, GosValue::Pointer(PointerObj::GosMap(id))) == Some(
                Some(RcSlot::GosMap(id)),
            )
        },
        id < h.structs.len() ==> {
            &&& value_slot(h, GosValue::Struct(id)) == Some(Some(RcSlot::Struct(id)))
            &&& value_slot(h, GosValue::Pointer(PointerObj::Struct(id))) == Some(
                Some(RcSlot::Struct(id)),
            )
            &&& value_slot(h, GosValue::Pointer(PointerObj::StructField(id, i))) == Some(
                Some(RcSlot::Struct(id)),
            )
        },
        id < h.ifaces.len() ==> value_slot(h, GosValue::Interface(id)) == Some(
            Some(RcSlot::Interface(id)),
        ),
        id < h.closures.len() ==> value_slot(h, GosValue::Closure(id)) == Some(
            Some(RcSlot::Closure(id)),
        ),
        value_slot(h, GosValue::Pointer(PointerObj::Array(id))) == Some(None::<RcSlot>),
        value_slot(h, GosValue::Pointer(PointerObj::PkgMember(key, i))) == Some(None::<RcSlot>),
{
    lemma_two_steps(h, GosValue::Array(id));
    lemma_two_steps(h, GosValue::Slice(id));
    lemma_two_steps(h, GosValue::GosMap(id));
    lemma_two_steps(h, GosValue::Struct(id));
    lemma_two_steps(h, GosValue::Interface(id));
    lemma_two_steps(h, GosValue::Closure(id));
    lemma_two_steps(h, GosValue::Pointer(PointerObj::Slice(id)));
    lemma_two_steps(h, GosValue::Pointer(PointerObj::SliceMember(id, i)));
    lemma_two_steps(h, GosValue::Pointer(PointerObj::GosMap(id)));
    lemma_two_steps(h, GosValue::Pointer(PointerObj::Struct(id)));
    lemma_two_steps(h, GosValue::Pointer(PointerObj::StructField(id, i)));
    lemma_two_steps(h, GosValue::Pointer(PointerObj::Array(id)));
    lemma_two_steps(h, GosValue::Pointer(PointerObj::PkgMember(key, i)));
}

proof fn lemma_two_steps(h: HeapState, v: GosValue)
    ensures
        slot_at(h, v, 2) is Some ==> value_slot(h, v) == slot_at(h, v, 2),
        v matches GosValue::Pointer(p) ==> slot_at(h, v, 2) == pointer_slot_at(h, p, 1),
{
    if slot_at(h, v, 2) is Some {
        lemma_value_slot(h, v, 2);
    }
}

/// Values that name no array, slice, map, struct, interface or closure and are no pointers are
/// not counted.
pub proof fn law_what_is_not_counted(h: HeapState, v: GosValue)
    requires
        v is Nil || v is Scalar || v is Str || v is Function || v is Package || v is Metadata
            || v is Channel,
    ensures
        value_slot(h, v) == Some(None::<RcSlot>),
{
    lemma_two_steps(h, v);
}

/// A pointer through an up value is not counted while that is open, and counts as the value in it
/// when it is closed. An untyped pointer counts as the pointer that it was made from, and data of
/// an extension is not counted.
pub proof fn law_what_is_counted_through(h: HeapState, uv: UpValue, id: usize)
    ensures
        uv.inner < h.upvalues.len() ==> {
            &&& h.upvalues[uv.inner as int] matches Some(UpValueState::Open(_)) ==> value_slot(
                h,
                through(uv),
            ) == Some(None::<RcSlot>)
            &&& h.upvalues[uv.inner as int] matches Some(UpValueState::Closed(v)) ==> value_slot(
                h,
                through(uv),
            ) == value_slot(h, v)
        },
        id < h.unsafes.len() ==> {
            &&& h.unsafes[id as int] matches UnsafeData::Handle(handle) ==> value_slot(
                h,
                GosValue::UnsafePtr(id),
            ) == value_slot(h, GosValue::Pointer(handle.ptr))
            &&& h.unsafes[id as int] is User ==> value_slot(h, GosValue::UnsafePtr(id)) == Some(
                None::<RcSlot>,
            )
        },
{
    if uv.inner < h.upvalues.len() {
        match h.upvalues[uv.inner as int] {
            Some(UpValueState::Open(_)) => lemma_two_steps(h, through(uv)),
            Some(UpValueState::Closed(v)) => {
                let p = PointerObj::UpVal(uv);
                if value_slot(h, v) is Some {
                    let f = choose|f: nat| #[trigger] slot_at(h, v, f) is Some;
                    lemma_value_slot(h, v, f);
                    assert(pointer_slot_at(h, p, f + 1) == slot_at(h, v, f));
                    assert(slot_at(h, through(uv), f + 2) == slot_at(h, v, f));
                    lemma_value_slot(h, through(uv), f + 2);
                } else if value_slot(h, through(uv)) is Some {
                    let f = choose|f: nat| #[trigger] slot_at(h, through(uv), f) is Some;
                    lemma_value_slot(h, through(uv), f);
                    assert(pointer_slot_at(h, p, (f - 1) as nat) is Some);
                    assert(slot_at(h, v, (f - 2) as nat) is Some);
                }
            },
            None => {},
        }
    }
    if id < h.unsafes.len() {
        let x = GosValue::UnsafePtr(id);
        match h.unsafes[id as int] {
            UnsafeData::Handle(handle) => {
                let y = GosValue::Pointer(handle.ptr);
                assert forall|f: nat| #[trigger] slot_at(h, x, f) == slot_at(h, y, f) by {
                }
                if value_slot(h, y) is Some {
                    let f = choose|f: nat| #[trigger] slot_at(h, y, f) is Some;
                    lemma_value_slot(h, y, f);
                    assert(slot_at(h, x, f) == slot_at(h, y, f));
                    lemma_value_slot(h, x, f);
                } else if value_slot(h, x) is Some {
                    let f = choose|f: nat| #[trigger] slot_at(h, x, f) is Some;
                    lemma_value_slot(h, x, f);
                    assert(slot_at(h, x, f) == slot_at(h, y, f));
                }
            },
            UnsafeData::User(_) => lemma_two_steps(h, x),
        }
    }
}

/// Taking off a reference that is not counted changes nothing. One that is counted can be taken
/// off unless its count is the smallest there is.
pub proof fn law_when_a_reference_is_taken_off(h: HeapState, v: GosValue)
    ensures
        value_slot(h, v) == Some(None::<RcSlot>) ==> sub_one(h, v) == Some(h),
        value_slot(h, v) matches Some(Some(slot)) ==> (sub_one(h, v) is Some <==> h.rc(slot)
            > i32::MIN),
{
}

/// An object with references left is not marked. One without gets the mark for its count, and
/// the count that it had goes to the end of the queue. Nothing else changes.
pub proof fn law_what_is_marked(h: HeapState, queue: Seq<i32>, v: GosValue)
    requires
        value_slot(h, v) is Some,
    ensures
        marked(h, queue, v) is Some,
        value_slot(h, v)->0 is None ==> marked(h, queue, v) == Some((h, queue)),
        value_slot(h, v)->0 matches Some(slot) ==> {
            let (g, q) = marked(h, queue, v)->0;
            &&& h.rc(slot) > 0 ==> g == h && q == queue
            &&& h.rc(slot) <= 0 ==> {
                &&& g.rc(slot) == MARKED
                &&& g.with_rc(slot, h.rc(slot)) == h
                &&& q.len() == queue.len() + 1
                &&& q.last() == h.rc(slot)
                &&& q.drop_last() == queue
            }
        },
        MARKED > 0,
{
    let fuel = choose|f: nat| #[trigger] slot_at(h, v, f) is Some;
    lemma_value_slot(h, v, fuel);
    lemma_slot_is_there(h, v, fuel);
    if let Some(slot) = value_slot(h, v)->0 {
        let (g, q) = marked(h, queue, v)->0;
        if h.rc(slot) <= 0 {
            assert(g.with_rc(slot, h.rc(slot)) =~= h);
            assert(q.drop_last() =~= queue);
        }
    }
}

/// How many of the values are counted in the count of `slot`.
pub open spec fn references(h: HeapState, vals: Seq<GosValue>, slot: RcSlot) -> int
    decreases vals.len(),
{
    if vals.len() == 0 {
        0
    } else {
        references(h, vals.drop_last(), slot) + if value_slot(h, vals.last()) == Some(
            Some(slot),
        ) {
            1int
        } else {
            0int
        }
    }
}

/// Taking off the references of a row of values lowers each count by the number of values that
/// are counted in it.
pub proof fn law_every_reference_is_taken_off(h: HeapState, vals: Seq<GosValue>, slot: RcSlot)
    requires
        sub_all(h, vals) is Some,
        h.has_slot(slot),
    ensures
        sub_all(h, vals)->0.has_slot(slot),
        sub_all(h, vals)->0.rc(slot) == h.rc(slot) - references(h, vals, slot),
{
    lemma_taken_off(h, vals, slot, GosValue::Nil);
}

proof fn lemma_taken_off(h: HeapState, vals: Seq<GosValue>, slot: RcSlot, v: GosValue)
    requires
        sub_all(h, vals) is Some,
        h.has_slot(slot),
    ensures
        sub_all(h, vals)->0.has_slot(slot),
        sub_all(h, vals)->0.rc(slot) == h.rc(slot) - references(h, vals, slot),
        value_slot(sub_all(h, vals)->0, v) == value_slot(h, v),
    decreases vals.len(),
{
    if vals.len() > 0 {
        let last = vals.last();
        lemma_taken_off(h, vals.drop_last(), slot, last);
        lemma_taken_off(h, vals.drop_last(), slot, v);
        let h1 = sub_all(h, vals.drop_last())->0;
        let fuel = choose|f: nat| #[trigger] slot_at(h1, last, f) is Some;
        lemma_value_slot(h1, last, fuel);
        lemma_slot_is_there(h1, last, fuel);
        match value_slot(h1, last)->0 {
            Some(s) => {
                law_one_count_goes_down_by_one(h1, last, slot);
                law_counts_do_not_decide_what_is_counted(h1, s, (h1.rc(s) - 1) as i32, v);
            },
            None => {},
        }
    }
}

/// Marking a row of values marks for each of them in turn.
pub proof fn law_marking_in_turn(
    h: HeapState,
    queue: Seq<i32>,
    vals: Seq<GosValue>,
    v: GosValue,
)
    requires
        marked_all(h, queue, vals) is Some,
    ensures
        ({
            let (h1, q1) = marked_all(h, queue, vals)->0;
            marked_all(h, queue, vals.push(v)) == marked(h1, q1, v)
        }),
        marked_all(h, queue, Seq::empty()) == Some((h, queue)),
{
    assert(vals.push(v).drop_last() =~= vals);
}

/// A closure over a function of the program holds on to each variable that it captured, once,
/// and to its receiver. A foreign function holds on to nothing.
pub proof fn law_what_a_closure_holds_on_to(
    closure: ClosureObj,
    order: Seq<(usize, UpValue)>,
    k: usize,
)
    requires
        closure.in_order(order),
    ensures
        closure.func is None ==> closure.held(order).len() == 0,
        closure.func is Some ==> {
            let held = closure.held(order);
            &&& held.len() == order.len() + (if closure.recv is Some {
                1int
            } else {
                0int
            })
            &&& closure.recv matches Some(recv) ==> held.last() == recv
            &&& forall|i: int|
                0 <= i < order.len() ==> #[trigger] held[i] == GosValue::Pointer(
                    PointerObj::UpVal(order[i].1),
                )
            &&& closure.uvs matches Some(uvs) ==> (uvs@.contains_key(k) ==> held.contains(
                GosValue::Pointer(PointerObj::UpVal(uvs@[k])),
            ))
        },
        closure.uvs matches Some(uvs) ==> forall|i: int|
            0 <= i < order.len() ==> uvs@.contains_key((#[trigger] order[i]).0)
                && uvs@[order[i].0] == order[i].1,
        closure.uvs is Some ==> forall|i: int, j: int|
            0 <= i < j < order.len() ==> (#[trigger] order[i]).0 != (#[trigger] order[j]).0,
        closure.uvs is None ==> order.len() == 0,
{
    if let Some(uvs) = closure.uvs {
        let held = closure.held(order);
        assert forall|i: int| 0 <= i < order.len() implies uvs@.contains_key(
            (#[trigger] order[i]).0,
        ) && uvs@[order[i].0] == order[i].1 by {
            assert(order.to_set().contains(order[i]));
            assert(uvs@.kv_pairs().contains(order[i]));
        }
        assert forall|i: int, j: int| 0 <= i < j < order.len() implies (#[trigger] order[i]).0 != (
        #[trigger] order[j]).0 by {
            assert(order[i] != order[j]);
        }
        if closure.func is Some && uvs@.contains_key(k) {
            assert(uvs@.kv_pairs().contains((k, uvs@[k])));
            assert(order.to_set().contains((k, uvs@[k])));
            let i = choose|i: int| 0 <= i < order.len() && order[i] == (k, uvs@[k]);
            assert(held[i] == GosValue::Pointer(PointerObj::UpVal(uvs@[k])));
        }
    }
}

} // verus!
