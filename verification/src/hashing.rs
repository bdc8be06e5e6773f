//! Hashing of values.
//!
//! A hash is what a hasher makes of the bytes that it was fed, write by write.
//! [`hash_at`] lists the writes. Arrays, structs and interfaces are hashed by what
//! they hold; a pointer is hashed by where it points. Slices, maps and closures
//! have no hash.
use core::hash::Hasher;
use std::collections::hash_map::DefaultHasher;
use vstd::prelude::*;

use crate::heap::{Heap, HeapState};
use crate::instruction::OpIndex;
use crate::interface_obj::InterfaceObj;
use crate::keys::PackageKey;
use crate::pointer_obj::{PointerObj, UnsafeData};
use crate::upvalue::{UpValue, UpValueState};
use crate::value::GosValue;

verus! {

/// One write of eight bytes.
pub open spec fn word(n: u64) -> Seq<Seq<u8>> {
    seq![vstd::bytes::spec_u64_to_le_bytes(n)]
}

/// One write of four bytes.
pub open spec fn half_word(n: u32) -> Seq<Seq<u8>> {
    seq![vstd::bytes::spec_u32_to_le_bytes(n)]
}

/// The writes for the value `x`, if they can be told in `fuel` steps.
pub open spec fn hash_at(h: HeapState, x: GosValue, fuel: nat) -> Option<Seq<Seq<u8>>>
    decreases fuel, 0nat,
{
    if fuel == 0 {
        None
    } else {
        let less = (fuel - 1) as nat;
        match x {
            GosValue::Nil => Some(word(0)),
            GosValue::Scalar(_, bits) => Some(word(bits)),
            GosValue::Str(id) => if id < h.strs.len() && h.strs[id as int].fits() {
                Some(seq![h.strs[id as int].bytes()])
            } else {
                None
            },
            GosValue::Function(key) => Some(word(key.number)),
            GosValue::Package(key) => Some(word(key.number)),
            GosValue::Metadata(meta) => Some(word(meta.key.number)),
            GosValue::Array(id) => if id < h.arrays.len() && h.arrays[id as int].obj.vec
                < h.vecs.len() {
                values_hash_at(h, h.vecs[h.arrays[id as int].obj.vec as int], 0, less)
            } else {
                None
            },
            GosValue::Struct(id) => if id < h.structs.len() {
                values_hash_at(h, h.structs[id as int].obj, 0, less)
            } else {
                None
            },
            GosValue::Interface(id) => if id < h.ifaces.len() {
                match h.ifaces[id as int].obj {
                    InterfaceObj::Gos(v, _) => hash_at(h, v, less),
                    InterfaceObj::Ffi(ffi) => Some(word(ffi.ffi_obj as u64)),
                }
            } else {
                None
            },
            GosValue::Channel(id) => Some(word(id as u64)),
            GosValue::Pointer(p) => pointer_hash(h, p),
            GosValue::UnsafePtr(id) => if id < h.unsafes.len() {
                match h.unsafes[id as int] {
                    UnsafeData::Handle(handle) => pointer_hash(h, handle.ptr),
                    UnsafeData::User(data) => Some(word(data.number)),
                }
            } else {
                None
            },
            GosValue::Slice(_) | GosValue::GosMap(_) | GosValue::Closure(_) => None,
        }
    }
}

/// The writes for the values of `xs` from place `i` on.
pub open spec fn values_hash_at(h: HeapState, xs: Seq<GosValue>, i: int, fuel: nat) -> Option<
    Seq<Seq<u8>>,
>
    decreases fuel, (if i < xs.len() { 1 + xs.len() - i } else { 1 }) as nat,
{
    if i >= xs.len() {
        Some(Seq::empty())
    } else {
        match (hash_at(h, xs[i], fuel), values_hash_at(h, xs, i + 1, fuel)) {
            (Some(first), Some(rest)) => Some(first + rest),
            _ => None,
        }
    }
}

/// The writes for an up value: the number of its variable while open, its own place
/// when closed.
pub open spec fn upvalue_hash(h: HeapState, uv: UpValue) -> Option<Seq<Seq<u8>>> {
    if uv.inner < h.upvalues.len() {
        match h.upvalues[uv.inner as int] {
            Some(UpValueState::Open(desc)) => Some(half_word(desc.index as u32)),
            Some(UpValueState::Closed(_)) => Some(word(uv.inner as u64)),
            None => None,
        }
    } else {
        None
    }
}

/// The writes for a pointer: the place of what it points at, and the number of the
/// member or field. What lies there plays no part.
pub open spec fn pointer_hash(h: HeapState, p: PointerObj) -> Option<Seq<Seq<u8>>> {
    match p {
        PointerObj::UpVal(uv) => upvalue_hash(h, uv),
        PointerObj::Struct(id) => Some(word(id as u64)),
        PointerObj::Array(id) => Some(word(id as u64)),
        PointerObj::Slice(id) => Some(word(id as u64)),
        PointerObj::GosMap(id) => Some(word(id as u64)),
        PointerObj::SliceMember(id, i) => Some(word(id as u64) + half_word(i as u32)),
        PointerObj::StructField(id, i) => Some(word(id as u64) + half_word(i as u32)),
        PointerObj::PkgMember(key, i) => Some(word(key.number) + half_word(i as u32)),
    }
}

/// More steps do not change the writes.
pub proof fn lemma_hash_mono(h: HeapState, x: GosValue, fuel: nat, more: nat)
    requires
        fuel <= more,
        hash_at(h, x, fuel) is Some,
    ensures
        hash_at(h, x, more) == hash_at(h, x, fuel),
    decreases fuel, 0nat,
{
    let f = (fuel - 1) as nat;
    let m = (more - 1) as nat;
    match x {
        GosValue::Array(id) => {
            lemma_values_hash_mono(h, h.vecs[h.arrays[id as int].obj.vec as int], 0, f, m);
        },
        GosValue::Struct(id) => lemma_values_hash_mono(h, h.structs[id as int].obj, 0, f, m),
        GosValue::Interface(id) => {
            match h.ifaces[id as int].obj {
                InterfaceObj::Gos(v, _) => lemma_hash_mono(h, v, f, m),
                _ => {},
            }
        },
        _ => {},
    }
}

proof fn lemma_values_hash_mono(h: HeapState, xs: Seq<GosValue>, i: int, fuel: nat, more: nat)
    requires
        fuel <= more,
        values_hash_at(h, xs, i, fuel) is Some,
    ensures
        values_hash_at(h, xs, i, more) == values_hash_at(h, xs, i, fuel),
    decreases fuel, (if i < xs.len() { 1 + xs.len() - i } else { 1 }) as nat,
{
    if i < xs.len() {
        lemma_hash_mono(h, xs[i], fuel, more);
        lemma_values_hash_mono(h, xs, i + 1, fuel, more);
    }
}

/// The writes for the value `x`, if it can be hashed. One step is enough where the
/// value is all there is to it.
pub open spec fn hash_value(h: HeapState, x: GosValue) -> Option<Seq<Seq<u8>>> {
    if hash_at(h, x, 1) is Some {
        hash_at(h, x, 1)
    } else if exists|fuel: nat| #[trigger] hash_at(h, x, fuel) is Some {
        hash_at(h, x, choose|fuel: nat| #[trigger] hash_at(h, x, fuel) is Some)
    } else {
        None
    }
}

/// Any number of steps that is enough gives the writes.
pub proof fn lemma_hash_value(h: HeapState, x: GosValue, fuel: nat)
    requires
        hash_at(h, x, fuel) is Some,
    ensures
        hash_value(h, x) == hash_at(h, x, fuel),
{
    let chosen = if hash_at(h, x, 1) is Some {
        1
    } else {
        choose|f: nat| #[trigger] hash_at(h, x, f) is Some
    };
    if chosen <= fuel {
        lemma_hash_mono(h, x, chosen, fuel);
    } else {
        lemma_hash_mono(h, x, fuel, chosen);
    }
}

/// The writes for the values of `xs` from place `i` on, if each can be hashed.
pub open spec fn values_hash(h: HeapState, xs: Seq<GosValue>, i: int) -> Option<Seq<Seq<u8>>>
    decreases xs.len() - i,
{
    if i >= xs.len() {
        Some(Seq::empty())
    } else {
        match (hash_value(h, xs[i]), values_hash(h, xs, i + 1)) {
            (Some(first), Some(rest)) => Some(first + rest),
            _ => None,
        }
    }
}

/// The writes for an interface: those for the value that it holds, or the number of
/// the foreign object.
pub open spec fn iface_hash(h: HeapState, iface: InterfaceObj) -> Option<Seq<Seq<u8>>> {
    match iface {
        InterfaceObj::Gos(v, _) => hash_value(h, v),
        InterfaceObj::Ffi(ffi) => Some(word(ffi.ffi_obj as u64)),
    }
}

/// The 64-bit hash of the value `x`.
pub open spec fn key_hash(h: HeapState, x: GosValue) -> Option<u64> {
    match hash_value(h, x) {
        Some(writes) => Some(
            <DefaultHasher as vstd::std_specs::hash::DefaultHasherAdditionalSpecFns>::spec_finish(
                writes,
            ),
        ),
        None => None,
    }
}

fn write_word(n: u64, state: &mut DefaultHasher)
    ensures
        final(state)@ == old(state)@ + word(n),
{
    let bytes: Vec<u8> = vstd::bytes::u64_to_le_bytes(n);
    state.write(bytes.as_slice());
    assert(state@ =~= old(state)@ + word(n));
}

fn write_half_word(n: u32, state: &mut DefaultHasher)
    ensures
        final(state)@ == old(state)@ + half_word(n),
{
    let bytes: Vec<u8> = vstd::bytes::u32_to_le_bytes(n);
    state.write(bytes.as_slice());
    assert(state@ =~= old(state)@ + half_word(n));
}

impl UpValue {
    pub fn hash(&self, heap: &Heap, state: &mut DefaultHasher)
        requires
            upvalue_hash(heap@, *self) is Some,
        ensures
            final(state)@ == old(state)@ + upvalue_hash(heap@, *self)->0,
    {
        match &heap.upvalues[self.inner] {
            Some(UpValueState::Open(desc)) => write_half_word(desc.index as u32, state),
            _ => write_word(self.inner as u64, state),
        }
    }
}

impl PointerObj {
    pub fn hash(&self, heap: &Heap, state: &mut DefaultHasher)
        requires
            pointer_hash(heap@, *self) is Some,
        ensures
            final(state)@ == old(state)@ + pointer_hash(heap@, *self)->0,
    {
        match self {
            PointerObj::UpVal(uv) => uv.hash(heap, state),
            PointerObj::Struct(id) => write_word(*id as u64, state),
            PointerObj::Array(id) => write_word(*id as u64, state),
            PointerObj::Slice(id) => write_word(*id as u64, state),
            PointerObj::GosMap(id) => write_word(*id as u64, state),
            PointerObj::SliceMember(id, index) => {
                write_word(*id as u64, state);
                write_half_word(*index as u32, state);
            },
            PointerObj::StructField(id, index) => {
                write_word(*id as u64, state);
                write_half_word(*index as u32, state);
            },
            PointerObj::PkgMember(key, index) => {
                write_word(key.number, state);
                write_half_word(*index as u32, state);
            },
        }
        assert(state@ =~= old(state)@ + pointer_hash(heap@, *self)->0);
    }
}

fn value_hash_within(
    heap: &Heap,
    x: &GosValue,
    state: &mut DefaultHasher,
    Ghost(fuel): Ghost<nat>,
)
    requires
        hash_at(heap@, *x, fuel) is Some,
    ensures
        final(state)@ == old(state)@ + hash_at(heap@, *x, fuel)->0,
    decreases fuel, 0nat,
{
    let ghost less = (fuel - 1) as nat;
    match x {
        GosValue::Nil => write_word(0, state),
        GosValue::Scalar(_, bits) => write_word(*bits, state),
        GosValue::Str(id) => {
            state.write(heap.strs[*id].as_bytes());
            assert(state@ =~= old(state)@ + hash_at(heap@, *x, fuel)->0);
        },
        GosValue::Function(key) => write_word(key.number, state),
        GosValue::Package(key) => write_word(key.number, state),
        GosValue::Metadata(meta) => write_word(meta.key.number, state),
        GosValue::Array(id) => {
            values_hash_within(heap, heap.vec(heap.arrays[*id].obj.vec), state, Ghost(less));
        },
        GosValue::Struct(id) => values_hash_within(heap, heap.fields(*id), state, Ghost(less)),
        GosValue::Interface(id) => {
            match &heap.ifaces[*id].obj {
                InterfaceObj::Gos(v, _) => value_hash_within(heap, v, state, Ghost(less)),
                InterfaceObj::Ffi(ffi) => write_word(ffi.ffi_obj as u64, state),
            }
        },
        GosValue::Channel(id) => write_word(*id as u64, state),
        GosValue::Pointer(p) => p.hash(heap, state),
        GosValue::UnsafePtr(id) => {
            match heap.unsafes[*id] {
                UnsafeData::Handle(handle) => handle.ptr.hash(heap, state),
                UnsafeData::User(data) => write_word(data.number, state),
            }
        },
        GosValue::Slice(_) | GosValue::GosMap(_) | GosValue::Closure(_) => {},
    }
}

fn values_hash_within(
    heap: &Heap,
    xs: &Vec<GosValue>,
    state: &mut DefaultHasher,
    Ghost(fuel): Ghost<nat>,
)
    requires
        values_hash_at(heap@, xs@, 0, fuel) is Some,
    ensures
        final(state)@ == old(state)@ + values_hash_at(heap@, xs@, 0, fuel)->0,
    decreases fuel, 1nat,
{
    let ghost all = values_hash_at(heap@, xs@, 0, fuel)->0;
    let mut i: usize = 0;
    assert(old(state)@ + all =~= state@ + all);
    while i < xs.len()
        invariant
            i <= xs.len(),
            values_hash_at(heap@, xs@, i as int, fuel) is Some,
            old(state)@ + all == state@ + values_hash_at(heap@, xs@, i as int, fuel)->0,
        decreases xs.len() - i,
    {
        let ghost before = state@;
        value_hash_within(heap, &xs[i], state, Ghost(fuel));
        proof {
            let first = hash_at(heap@, xs@[i as int], fuel)->0;
            let rest = values_hash_at(heap@, xs@, i + 1, fuel)->0;
            assert(before + (first + rest) =~= before + first + rest);
        }
        i = i + 1;
    }
    assert(old(state)@ + all =~= state@);
}

impl GosValue {
    pub fn hash(&self, heap: &Heap, state: &mut DefaultHasher)
        requires
            hash_value(heap@, *self) is Some,
        ensures
            final(state)@ == old(state)@ + hash_value(heap@, *self)->0,
    {
        let ghost fuel = choose|f: nat| #[trigger] hash_at(heap@, *self, f) is Some;
        proof {
            lemma_hash_value(heap@, *self, fuel);
        }
        value_hash_within(heap, self, state, Ghost(fuel))
    }

    /// The 64-bit hash of the value.
    pub fn hash_number(&self, heap: &Heap) -> (hash: u64)
        requires
            hash_value(heap@, *self) is Some,
        ensures
            Some(hash) == key_hash(heap@, *self),
    {
        let mut state = DefaultHasher::new();
        self.hash(heap, &mut state);
        assert(state@ =~= hash_value(heap@, *self)->0);
        state.finish()
    }
}

/// Hashes the values of a row one after the other, see [`values_hash`].
pub(crate) fn hash_row(heap: &Heap, xs: &Vec<GosValue>, state: &mut DefaultHasher)
    requires
        values_hash(heap@, xs@, 0) is Some,
    ensures
        final(state)@ == old(state)@ + values_hash(heap@, xs@, 0)->0,
{
    let ghost all = values_hash(heap@, xs@, 0)->0;
    let mut i: usize = 0;
    assert(old(state)@ + all =~= state@ + all);
    while i < xs.len()
        invariant
            i <= xs.len(),
            values_hash(heap@, xs@, i as int) is Some,
            old(state)@ + all == state@ + values_hash(heap@, xs@, i as int)->0,
        decreases xs.len() - i,
    {
        let ghost before = state@;
        xs[i].hash(heap, state);
        proof {
            let first = hash_value(heap@, xs@[i as int])->0;
            let rest = values_hash(heap@, xs@, i + 1)->0;
            assert(before + (first + rest) =~= before + first + rest);
        }
        i = i + 1;
    }
    assert(old(state)@ + all =~= state@);
}

impl InterfaceObj {
    pub fn hash(&self, heap: &Heap, state: &mut DefaultHasher)
        requires
            iface_hash(heap@, *self) is Some,
        ensures
            final(state)@ == old(state)@ + iface_hash(heap@, *self)->0,
    {
        match self {
            InterfaceObj::Gos(v, _) => v.hash(heap, state),
            InterfaceObj::Ffi(ffi) => write_word(ffi.ffi_obj as u64, state),
        }
    }
}

proof fn lemma_row_from_steps(h: HeapState, xs: Seq<GosValue>, i: int, fuel: nat)
    requires
        values_hash_at(h, xs, i, fuel) is Some,
    ensures
        values_hash(h, xs, i) == values_hash_at(h, xs, i, fuel),
    decreases xs.len() - i,
{
    if i < xs.len() {
        lemma_hash_value(h, xs[i], fuel);
        lemma_row_from_steps(h, xs, i + 1, fuel);
    }
}

proof fn lemma_row_steps(h: HeapState, xs: Seq<GosValue>, i: int) -> (fuel: nat)
    requires
        values_hash(h, xs, i) is Some,
    ensures
        values_hash_at(h, xs, i, fuel) == values_hash(h, xs, i),
    decreases xs.len() - i,
{
    if i < xs.len() {
        let first = choose|f: nat| #[trigger] hash_at(h, xs[i], f) is Some;
        lemma_hash_value(h, xs[i], first);
        let rest = lemma_row_steps(h, xs, i + 1);
        let fuel = if first <= rest {
            rest
        } else {
            first
        };
        lemma_hash_mono(h, xs[i], first, fuel);
        lemma_values_hash_mono(h, xs, i + 1, rest, fuel);
        fuel
    } else {
        0
    }
}

/// An array is hashed by its elements in turn, a struct by its fields, and it can be
/// hashed exactly if these can.
pub proof fn law_arrays_and_structs_hash_by_contents(h: HeapState, id: usize)
    ensures
        id < h.arrays.len() && h.arrays[id as int].obj.vec < h.vecs.len() ==> hash_value(
            h,
            GosValue::Array(id),
        ) == values_hash(h, h.arrays[id as int].obj.data(h), 0),
        id < h.structs.len() ==> hash_value(h, GosValue::Struct(id)) == values_hash(
            h,
            h.structs[id as int].obj,
            0,
        ),
{
    if id < h.arrays.len() && h.arrays[id as int].obj.vec < h.vecs.len() {
        let x = GosValue::Array(id);
        let xs = h.arrays[id as int].obj.data(h);
        if values_hash(h, xs, 0) is Some {
            let fuel = lemma_row_steps(h, xs, 0);
            assert(hash_at(h, x, fuel + 1) is Some);
            lemma_hash_value(h, x, fuel + 1);
        } else if hash_value(h, x) is Some {
            let fuel = choose|f: nat| #[trigger] hash_at(h, x, f) is Some;
            lemma_hash_value(h, x, fuel);
            lemma_row_from_steps(h, xs, 0, (fuel - 1) as nat);
        }
    }
    if id < h.structs.len() {
        let x = GosValue::Struct(id);
        let xs = h.structs[id as int].obj;
        if values_hash(h, xs, 0) is Some {
            let fuel = lemma_row_steps(h, xs, 0);
            assert(hash_at(h, x, fuel + 1) is Some);
            lemma_hash_value(h, x, fuel + 1);
        } else if hash_value(h, x) is Some {
            let fuel = choose|f: nat| #[trigger] hash_at(h, x, f) is Some;
            lemma_hash_value(h, x, fuel);
            lemma_row_from_steps(h, xs, 0, (fuel - 1) as nat);
        }
    }
}

/// An interface is hashed by what it holds, a pointer by where it points, and a string
/// by its bytes in one write.
pub proof fn law_other_values_hash(h: HeapState, id: usize, p: PointerObj)
    ensures
        id < h.ifaces.len() ==> hash_value(h, GosValue::Interface(id)) == iface_hash(
            h,
            h.ifaces[id as int].obj,
        ),
        hash_value(h, GosValue::Pointer(p)) == pointer_hash(h, p),
        id < h.strs.len() && h.strs[id as int].fits() ==> hash_value(h, GosValue::Str(id)) == Some(
            seq![h.strs[id as int].bytes()],
        ),
{
    if id < h.ifaces.len() {
        let x = GosValue::Interface(id);
        match h.ifaces[id as int].obj {
            InterfaceObj::Gos(v, _) => {
                if hash_value(h, v) is Some {
                    let fuel = choose|f: nat| #[trigger] hash_at(h, v, f) is Some;
                    lemma_hash_value(h, v, fuel);
                    assert(hash_at(h, x, fuel + 1) is Some);
                    lemma_hash_value(h, x, fuel + 1);
                } else if hash_value(h, x) is Some {
                    let fuel = choose|f: nat| #[trigger] hash_at(h, x, f) is Some;
                    lemma_hash_value(h, v, (fuel - 1) as nat);
                }
            },
            InterfaceObj::Ffi(_) => {
                assert(hash_at(h, x, 1) is Some);
                lemma_hash_value(h, x, 1);
            },
        }
    }
    let x = GosValue::Pointer(p);
    if pointer_hash(h, p) is Some {
        assert(hash_at(h, x, 1) is Some);
        lemma_hash_value(h, x, 1);
    } else {
        assert forall|f: nat| #[trigger] hash_at(h, x, f) is None by {
        }
    }
    if id < h.strs.len() && h.strs[id as int].fits() {
        assert(hash_at(h, GosValue::Str(id), 1) is Some);
        lemma_hash_value(h, GosValue::Str(id), 1);
    }
}

/// What is all there is to it is hashed as one word: nil as zero, a number or truth value as its
/// bits, a function, package or type as the number of its key. A channel is hashed as its place,
/// and slices, maps and closures have no hash.
pub proof fn law_plain_values_hash_as_one_word(h: HeapState, x: GosValue)
    ensures
        match x {
            GosValue::Nil => hash_value(h, x) == Some(
                seq![vstd::bytes::spec_u64_to_le_bytes(0u64)],
            ),
            GosValue::Scalar(_, bits) => hash_value(h, x) == Some(
                seq![vstd::bytes::spec_u64_to_le_bytes(bits)],
            ),
            GosValue::Function(key) => hash_value(h, x) == Some(
                seq![vstd::bytes::spec_u64_to_le_bytes(key.number)],
            ),
            GosValue::Package(key) => hash_value(h, x) == Some(
                seq![vstd::bytes::spec_u64_to_le_bytes(key.number)],
            ),
            GosValue::Metadata(meta) => hash_value(h, x) == Some(
                seq![vstd::bytes::spec_u64_to_le_bytes(meta.key.number)],
            ),
            GosValue::Channel(id) => hash_value(h, x) == Some(
                seq![vstd::bytes::spec_u64_to_le_bytes(id as u64)],
            ),
            GosValue::Slice(_) | GosValue::GosMap(_) | GosValue::Closure(_) => hash_value(
                h,
                x,
            ) is None,
            _ => true,
        },
{
    if x is Slice || x is GosMap || x is Closure {
        assert forall|f: nat| #[trigger] hash_at(h, x, f) is None by {
        }
    } else if x is Nil || x is Scalar || x is Function || x is Package || x is Metadata
        || x is Channel {
        assert(hash_at(h, x, 1) is Some);
    }
}

/// A pointer at an object is hashed as the place of the object, one at an element, field or
/// package member as the place or the key and then the number. A pointer through an up value is
/// hashed as the number of the variable while that is open, and as its place when it is closed.
pub proof fn law_pointers_hash_by_place(
    h: HeapState,
    id: usize,
    i: OpIndex,
    key: PackageKey,
    uv: UpValue,
)
    ensures
        ({
            let place = vstd::bytes::spec_u64_to_le_bytes(id as u64);
            let number = vstd::bytes::spec_u32_to_le_bytes(i as u32);
            &&& pointer_hash(h, PointerObj::Struct(id)) == Some(seq![place])
            &&& pointer_hash(h, PointerObj::Array(id)) == Some(seq![place])
            &&& pointer_hash(h, PointerObj::Slice(id)) == Some(seq![place])
            &&& pointer_hash(h, PointerObj::GosMap(id)) == Some(seq![place])
            &&& pointer_hash(h, PointerObj::SliceMember(id, i)) == Some(seq![place, number])
            &&& pointer_hash(h, PointerObj::StructField(id, i)) == Some(seq![place, number])
            &&& pointer_hash(h, PointerObj::PkgMember(key, i)) == Some(
                seq![vstd::bytes::spec_u64_to_le_bytes(key.number), number],
            )
        }),
        uv.inner < h.upvalues.len() ==> match h.upvalues[uv.inner as int] {
            Some(UpValueState::Open(desc)) => pointer_hash(h, PointerObj::UpVal(uv)) == Some(
                seq![vstd::bytes::spec_u32_to_le_bytes(desc.index as u32)],
            ) && upvalue_hash(h, uv) == pointer_hash(h, PointerObj::UpVal(uv)),
            Some(UpValueState::Closed(_)) => pointer_hash(h, PointerObj::UpVal(uv)) == Some(
                seq![vstd::bytes::spec_u64_to_le_bytes(uv.inner as u64)],
            ) && upvalue_hash(h, uv) == pointer_hash(h, PointerObj::UpVal(uv)),
            None => true,
        },
{
    let place = vstd::bytes::spec_u64_to_le_bytes(id as u64);
    let number = vstd::bytes::spec_u32_to_le_bytes(i as u32);
    let k = vstd::bytes::spec_u64_to_le_bytes(key.number);
    assert(seq![place] + seq![number] =~= seq![place, number]);
    assert(seq![k] + seq![number] =~= seq![k, number]);
}

/// A row is hashed value by value: an empty one as nothing, one of a single value as that value,
/// and one that is put together of two as the first and then the second.
pub proof fn law_rows_hash_value_by_value(
    h: HeapState,
    xs: Seq<GosValue>,
    ys: Seq<GosValue>,
    x: GosValue,
)
    ensures
        values_hash(h, Seq::empty(), 0) == Some(Seq::<Seq<u8>>::empty()),
        values_hash(h, seq![x], 0) == hash_value(h, x),
        values_hash(h, xs + ys, 0) == match (values_hash(h, xs, 0), values_hash(h, ys, 0)) {
            (Some(first), Some(rest)) => Some(first + rest),
            _ => None,
        },
{
    reveal_with_fuel(values_hash, 2);
    if let Some(writes) = hash_value(h, x) {
        assert(writes + Seq::<Seq<u8>>::empty() =~= writes);
    }
    lemma_rows_join(h, xs, ys, 0);
}

proof fn lemma_rows_join(h: HeapState, xs: Seq<GosValue>, ys: Seq<GosValue>, i: int)
    requires
        0 <= i <= xs.len(),
    ensures
        values_hash(h, xs + ys, i) == match (values_hash(h, xs, i), values_hash(h, ys, 0)) {
            (Some(first), Some(rest)) => Some(first + rest),
            _ => None,
        },
    decreases xs.len() - i,
{
    if i < xs.len() {
        lemma_rows_join(h, xs, ys, i + 1);
        assert((xs + ys)[i] == xs[i]);
        match (hash_value(h, xs[i]), values_hash(h, xs, i + 1), values_hash(h, ys, 0)) {
            (Some(a), Some(b), Some(c)) => {
                assert(a + (b + c) =~= (a + b) + c);
            },
            _ => {},
        }
    } else {
        lemma_rows_shift(h, xs, ys, 0);
        if let Some(rest) = values_hash(h, ys, 0) {
            assert(Seq::<Seq<u8>>::empty() + rest =~= rest);
        }
    }
}

proof fn lemma_rows_shift(h: HeapState, xs: Seq<GosValue>, ys: Seq<GosValue>, i: int)
    requires
        0 <= i <= ys.len(),
    ensures
        values_hash(h, xs + ys, xs.len() + i) == values_hash(h, ys, i),
    decreases ys.len() - i,
{
    if i < ys.len() {
        lemma_rows_shift(h, xs, ys, i + 1);
        assert((xs + ys)[xs.len() + i] == ys[i]);
    }
}

/// An interface is hashed as the value that it holds, or as the number of its foreign object, and
/// an untyped pointer as the pointer that it was made from, or as the number of its data. The
/// hash of a key is what the hasher makes of the writes.
pub proof fn law_what_is_hashed_through(h: HeapState, iface: InterfaceObj, id: usize, x: GosValue)
    ensures
        iface matches InterfaceObj::Gos(v, _) ==> iface_hash(h, iface) == hash_value(h, v),
        iface matches InterfaceObj::Ffi(ffi) ==> iface_hash(h, iface) == Some(
            seq![vstd::bytes::spec_u64_to_le_bytes(ffi.ffi_obj as u64)],
        ),
        id < h.unsafes.len() ==> match h.unsafes[id as int] {
            UnsafeData::Handle(handle) => hash_value(h, GosValue::UnsafePtr(id)) == pointer_hash(
                h,
                handle.ptr,
            ),
            UnsafeData::User(data) => hash_value(h, GosValue::UnsafePtr(id)) == Some(
                seq![vstd::bytes::spec_u64_to_le_bytes(data.number)],
            ),
        },
        hash_value(h, x) matches Some(writes) ==> key_hash(h, x) == Some(
            <DefaultHasher as vstd::std_specs::hash::DefaultHasherAdditionalSpecFns>::spec_finish(
                writes,
            ),
        ),
{
    if id < h.unsafes.len() {
        let p = GosValue::UnsafePtr(id);
        if hash_at(h, p, 1) is None {
            assert forall|f: nat| #[trigger] hash_at(h, p, f) is None by {
            }
        }
    }
}

} // verus!
