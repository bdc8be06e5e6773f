//! Pointers.
use vstd::prelude::*;
use vstd::string::StringExecFns;

use crate::compare;
use crate::copy_laws;
use crate::copying;
use crate::counting;
use crate::counting::RCQueue;
use crate::heap::{Heap, HeapState};
use crate::instruction::OpIndex;
use crate::keys;
use crate::keys::{key_to_u64, PackageKey};
use crate::map_obj::GosHashMap;
use crate::package_val;
use crate::package_val::{PackageObjs, PackageVal};
use crate::slice_obj::SliceObj;
use crate::stack;
use crate::stack::Stack;
use crate::string_obj;
use crate::text;
use crate::text::{hex_text, signed_text};
use crate::upvalue;
use crate::upvalue::{UpValue, UpValueState};
use crate::value::{copy_values, GosValue};

verus! {

/// A pointer. A pointer to a local variable goes through an up value, unless the
/// variable holds an object that can be pointed at itself.
#[derive(Clone, Copy, Debug)]
pub enum PointerObj {
    UpVal(UpValue),
    Struct(usize),
    Array(usize),
    Slice(usize),
    GosMap(usize),
    SliceMember(usize, OpIndex),
    StructField(usize, OpIndex),
    PkgMember(PackageKey, OpIndex),
}

/// Whether copying `x` reads the store `vec` or the fields of the struct `record`, as
/// far as `fuel` steps show.
pub open spec fn copy_reads_at(
    h: HeapState,
    x: GosValue,
    vec: Option<usize>,
    record: Option<usize>,
    fuel: nat,
) -> bool
    decreases fuel,
{
    if fuel == 0 {
        false
    } else {
        let less = (fuel - 1) as nat;
        match x {
            GosValue::Array(id) => {
                let store = h.arrays[id as int].obj.vec;
                vec == Some(store) || exists|i: int|
                    0 <= i < h.vecs[store as int].len() && #[trigger] copy_reads_at(
                        h,
                        h.vecs[store as int][i],
                        vec,
                        record,
                        less,
                    )
            },
            GosValue::Struct(id) => record == Some(id) || exists|i: int|
                0 <= i < h.structs[id as int].obj.len() && #[trigger] copy_reads_at(
                    h,
                    h.structs[id as int].obj[i],
                    vec,
                    record,
                    less,
                ),
            _ => false,
        }
    }
}

/// Whether copying `x` reads the store `vec`.
pub open spec fn copy_reads_store(h: HeapState, x: GosValue, vec: usize) -> bool {
    exists|fuel: nat| #[trigger] copy_reads_at(h, x, Some(vec), None, fuel)
}

/// Whether copying `x` reads the fields of the struct `record`.
pub open spec fn copy_reads_struct(h: HeapState, x: GosValue, record: usize) -> bool {
    exists|fuel: nat| #[trigger] copy_reads_at(h, x, None, Some(record), fuel)
}

/// Whether a package member can be found.
pub open spec fn has_member(
    h: HeapState,
    pkgs: Map<PackageKey, PackageVal>,
    key: PackageKey,
    index: OpIndex,
) -> bool {
    &&& pkgs.contains_key(key)
    &&& 0 <= index < pkgs[key].members.len()
    &&& pkgs[key].members[index as int] < h.cells.len()
}

impl PointerObj {
    /// What the pointer points at, where `running` is the stack of the thread that is
    /// running. There is nothing if the pointer leads nowhere.
    pub open spec fn pointee(
        self,
        h: HeapState,
        running: Stack,
        pkgs: Map<PackageKey, PackageVal>,
    ) -> Option<GosValue> {
        match self {
            PointerObj::UpVal(uv) => if uv.reachable(h, running) {
                Some(uv.spec_value(h, running))
            } else {
                None
            },
            PointerObj::Struct(id) => Some(GosValue::Struct(id)),
            PointerObj::Array(id) => Some(GosValue::Array(id)),
            PointerObj::Slice(id) => Some(GosValue::Slice(id)),
            PointerObj::GosMap(id) => Some(GosValue::GosMap(id)),
            PointerObj::SliceMember(id, index) => {
                let slice = h.slices[id as int].obj;
                if id < h.slices.len() && slice.vec < h.vecs.len() && 0 <= index && slice.begin
                    + index < slice.data(h).len() {
                    Some(slice.data(h)[slice.begin + index])
                } else {
                    None
                }
            },
            PointerObj::StructField(id, index) => if id < h.structs.len() && 0 <= index
                < h.structs[id as int].obj.len() {
                Some(h.structs[id as int].obj[index as int])
            } else {
                None
            },
            PointerObj::PkgMember(key, index) => if has_member(h, pkgs, key, index) {
                Some(package_val::member_value(h, pkgs[key].members@, index as int))
            } else {
                None
            },
        }
    }

    /// The heap and the slots of the running stack after `val` was assigned through
    /// the pointer. There is nothing where that fails: where the pointer leads
    /// nowhere, `val` is of the wrong type, or the target would be read and written
    /// at once.
    pub open spec fn assigned(
        self,
        h: HeapState,
        running: Stack,
        pkgs: Map<PackageKey, PackageVal>,
        val: GosValue,
    ) -> Option<(HeapState, Seq<GosValue>)> {
        match self {
            PointerObj::UpVal(uv) => if uv.reachable(h, running) {
                Some((uv.stored_heap(val, h, running), uv.stored_slots(val, h, running)))
            } else {
                None
            },
            PointerObj::Struct(id) => match copying::copy_value(h, val) {
                Some((h1, GosValue::Struct(copy))) => if id < h1.structs.len() && copy
                    < h1.structs.len() {
                    Some((h1.with_struct(id, h1.structs[copy as int].obj), running.slots@))
                } else {
                    None
                },
                _ => None,
            },
            PointerObj::Array(id) => match val {
                GosValue::Array(v) => {
                    let to = h.arrays[id as int].obj.vec;
                    let from = h.arrays[v as int].obj.vec;
                    if id < h.arrays.len() && v < h.arrays.len() && to < h.vecs.len() && from
                        < h.vecs.len() && to != from {
                        Some((h.with_vec(to, h.vecs[from as int]), running.slots@))
                    } else {
                        None
                    }
                },
                _ => None,
            },
            PointerObj::Slice(id) => match val {
                GosValue::Slice(v) => {
                    let to = h.slices[id as int].obj;
                    let from = h.slices[v as int].obj;
                    if id < h.slices.len() && v < h.slices.len() && to.vec < h.vecs.len()
                        && from.vec < h.vecs.len() && to.vec != from.vec {
                        Some(
                            (
                                h.with_vec(to.vec, from.data(h)).with_slice(
                                    id,
                                    SliceObj { vec: to.vec, ..from },
                                ),
                                running.slots@,
                            ),
                        )
                    } else {
                        None
                    }
                },
                _ => None,
            },
            PointerObj::GosMap(id) => match val {
                GosValue::GosMap(v) => {
                    let to = h.maps[id as int].obj.map;
                    let from = h.maps[v as int].obj.map;
                    if id < h.maps.len() && v < h.maps.len() && to < h.map_data.len() && from
                        < h.map_data.len() && to != from {
                        Some((h.with_map_data(to, h.map_data[from as int]), running.slots@))
                    } else {
                        None
                    }
                },
                _ => None,
            },
            PointerObj::SliceMember(id, index) => {
                let slice = h.slices[id as int].obj;
                let at = 2 * slice.begin + index;
                match copying::copy_value(h, val) {
                    Some((h1, copy)) => if id < h.slices.len() && slice.vec < h.vecs.len() && 0
                        <= index && at < slice.data(h1).len() && !copy_reads_store(
                        h,
                        val,
                        slice.vec,
                    ) {
                        Some((h1.with_vec(slice.vec, slice.data(h1).update(at, copy)), running.slots@))
                    } else {
                        None
                    },
                    None => None,
                }
            },
            PointerObj::StructField(id, index) => match copying::copy_value(h, val) {
                Some((h1, copy)) => if id < h.structs.len() && 0 <= index
                    < h1.structs[id as int].obj.len() && !copy_reads_struct(h, val, id) {
                    Some(
                        (
                            h1.with_struct(
                                id,
                                h1.structs[id as int].obj.update(index as int, copy),
                            ),
                            running.slots@,
                        ),
                    )
                } else {
                    None
                },
                None => None,
            },
            PointerObj::PkgMember(key, index) => match copying::copy_value(h, val) {
                Some((h1, copy)) => if has_member(h, pkgs, key, index) {
                    Some(
                        (
                            h1.with_cell(pkgs[key].members[index as int], copy),
                            running.slots@,
                        ),
                    )
                } else {
                    None
                },
                None => None,
            },
        }
    }

    /// A pointer at what a local variable holds, if that can be pointed at itself.
    pub fn try_new_local(val: &GosValue) -> (ptr: Option<PointerObj>)
        ensures
            ptr == (match *val {
                GosValue::Struct(id) => Some(PointerObj::Struct(id)),
                GosValue::Array(id) => Some(PointerObj::Array(id)),
                GosValue::Slice(id) => Some(PointerObj::Slice(id)),
                GosValue::GosMap(id) => Some(PointerObj::GosMap(id)),
                _ => None,
            }),
    {
        match val {
            GosValue::Struct(id) => Some(PointerObj::Struct(*id)),
            GosValue::Array(id) => Some(PointerObj::Array(*id)),
            GosValue::Slice(id) => Some(PointerObj::Slice(*id)),
            GosValue::GosMap(id) => Some(PointerObj::GosMap(*id)),
            _ => None,
        }
    }

    /// A pointer at element `i` of an array, by way of a slice of the whole array.
    pub fn new_array_member(val: &GosValue, i: OpIndex, heap: &mut Heap) -> (ptr: PointerObj)
        requires
            *val matches GosValue::Array(id) && id < old(heap)@.arrays.len()
                && old(heap)@.arrays[id as int].obj.vec < old(heap)@.vecs.len(),
        ensures
            ptr matches PointerObj::SliceMember(s, k) && s == old(heap)@.slices.len() && k == i,
            *val matches GosValue::Array(id) && final(heap)@ == old(heap)@.plus_slice(
                whole_slice(old(heap)@, old(heap)@.arrays[id as int].obj.vec),
            ),
            *val matches GosValue::Array(id) && final(heap)@.slices.last().obj.end
                == old(heap)@.arrays[id as int].obj.data(old(heap)@).len(),
    {
        match val {
            GosValue::Array(id) => {
                let arr = heap.arrays[*id].obj;
                proof {
                    string_obj::law_where_windows_end(arr.data(heap@).len() as int, -1);
                }
                let slice = SliceObj::with_array(&arr, 0, -1, heap);
                PointerObj::SliceMember(heap.alloc_slice(slice), i)
            },
            _ => PointerObj::SliceMember(0, i),
        }
    }

    /// What the pointer points at.
    pub fn deref(&self, stack: &Stack, pkgs: &PackageObjs, heap: &Heap) -> (val: GosValue)
        requires
            pkgs.wf(),
            self.pointee(heap@, *stack, pkgs@) is Some,
        ensures
            val == self.pointee(heap@, *stack, pkgs@)->0,
    {
        match self {
            PointerObj::UpVal(uv) => uv.value(stack, heap),
            PointerObj::Struct(id) => GosValue::Struct(*id),
            PointerObj::Array(id) => GosValue::Array(*id),
            PointerObj::Slice(id) => GosValue::Slice(*id),
            PointerObj::GosMap(id) => GosValue::GosMap(*id),
            PointerObj::SliceMember(id, index) => {
                let slice = heap.slices[*id].obj;
                let data: &Vec<GosValue> = heap.vec(slice.vec);
                assert(data.len() == data@.len());
                slice.get(*index as usize, heap).unwrap()
            },
            PointerObj::StructField(id, index) => heap.fields(*id)[*index as usize],
            PointerObj::PkgMember(key, index) => *pkgs.at(*key).member(*index, heap),
        }
    }

    /// Assigns a value through the pointer.
    pub fn set_value(
        &self,
        val: GosValue,
        stack: &mut Stack,
        pkgs: &PackageObjs,
        heap: &mut Heap,
    )
        requires
            pkgs.wf(),
            self.assigned(old(heap)@, *old(stack), pkgs@, val) is Some,
        ensures
            final(stack).id == old(stack).id,
            self.assigned(old(heap)@, *old(stack), pkgs@, val)->0 == (
                final(heap)@,
                final(stack).slots@,
            ),
    {
        match self {
            PointerObj::UpVal(uv) => uv.set_value(val, stack, heap),
            PointerObj::Struct(id) => {
                if let GosValue::Struct(copy) = val.copy_semantic(heap) {
                    let fields: Vec<GosValue> = copy_values(heap.fields(copy));
                    *heap.fields_mut(*id) = fields;
                }
            },
            PointerObj::Array(id) => {
                if let GosValue::Array(v) = val {
                    let to = heap.arrays[*id].obj;
                    let from = heap.arrays[v].obj;
                    to.set_from(&from, heap);
                }
            },
            PointerObj::Slice(id) => {
                if let GosValue::Slice(v) = val {
                    let mut to = heap.slices[*id].obj;
                    let from = heap.slices[v].obj;
                    to.set_from(&from, heap);
                    heap.set_slice(*id, to);
                }
            },
            PointerObj::GosMap(id) => {
                if let GosValue::GosMap(v) = val {
                    let to = heap.maps[*id].obj;
                    let from = heap.maps[v].obj;
                    let entries: GosHashMap = copy_entries(from.borrow_data(heap));
                    *to.borrow_data_mut(heap) = entries;
                }
            },
            PointerObj::SliceMember(id, index) => {
                let slice = heap.slices[*id].obj;
                proof {
                    copying::law_copying_only_adds(heap@, val);
                }
                let copy = val.copy_semantic(heap);
                let data: &mut Vec<GosValue> = heap.vec_mut(slice.vec);
                assert(data.len() == data@.len());
                data[slice.begin + (slice.begin + *index as usize)] = copy;
            },
            PointerObj::StructField(id, index) => {
                proof {
                    copying::law_copying_only_adds(heap@, val);
                }
                let copy = val.copy_semantic(heap);
                let fields: &mut Vec<GosValue> = heap.fields_mut(*id);
                fields[*index as usize] = copy;
            },
            PointerObj::PkgMember(key, index) => {
                proof {
                    copying::law_copying_only_adds(heap@, val);
                }
                let copy = val.copy_semantic(heap);
                *pkgs.at(*key).member_mut(*index, heap) = copy;
            },
        }
    }

    /// The text of the pointer: the place of what it points at, with the number of
    /// the member or field.
    pub open spec fn spec_fmt(self) -> Seq<char> {
        match self {
            PointerObj::UpVal(uv) => "0x"@ + text::hex(uv.inner as nat),
            PointerObj::Struct(id) => "0x"@ + text::hex(id as nat),
            PointerObj::Array(id) => "0x"@ + text::hex(id as nat),
            PointerObj::Slice(id) => "0x"@ + text::hex(id as nat),
            PointerObj::GosMap(id) => "0x"@ + text::hex(id as nat),
            PointerObj::SliceMember(id, i) => "0x"@ + text::hex(id as nat) + "i"@ + text::signed(
                i as int,
            ),
            PointerObj::StructField(id, i) => "0x"@ + text::hex(id as nat) + "i"@ + text::signed(
                i as int,
            ),
            PointerObj::PkgMember(key, i) => text::hex(keys::normal_ffi(key.number) as nat) + "i"@
                + text::signed(i as int),
        }
    }

    /// The text of the pointer.
    pub fn fmt(&self) -> (out: String)
        ensures
            out@ == self.spec_fmt(),
    {
        match self {
            PointerObj::UpVal(uv) => place_text(uv.inner),
            PointerObj::Struct(id) => place_text(*id),
            PointerObj::Array(id) => place_text(*id),
            PointerObj::Slice(id) => place_text(*id),
            PointerObj::GosMap(id) => place_text(*id),
            PointerObj::SliceMember(id, i) => with_index(place_text(*id), *i),
            PointerObj::StructField(id, i) => with_index(place_text(*id), *i),
            PointerObj::PkgMember(key, i) => with_index(hex_text(key_to_u64(*key)), *i),
        }
    }
}

/// Writes the place of an object.
fn place_text(id: usize) -> (out: String)
    ensures
        out@ == "0x"@ + text::hex(id as nat),
{
    let mut out = String::from_str("0x");
    out.append(hex_text(id as u64).as_str());
    out
}

/// Adds the number of a member or field.
fn with_index(place: String, i: OpIndex) -> (out: String)
    ensures
        out@ == place@ + "i"@ + text::signed(i as int),
{
    let mut out = place;
    out.append("i");
    out.append(signed_text(i).as_str());
    out
}

/// Copies the entries of a map.
fn copy_entries(entries: &GosHashMap) -> (copy: GosHashMap)
    ensures
        copy@ == entries@,
{
    let mut copy: GosHashMap = Vec::with_capacity(entries.len());
    let mut i: usize = 0;
    while i < entries.len()
        invariant
            i <= entries.len(),
            copy@ == entries@.take(i as int),
        decreases entries.len() - i,
    {
        copy.push(entries[i]);
        i = i + 1;
        assert(copy@ =~= entries@.take(i as int));
    }
    assert(entries@.take(i as int) =~= entries@);
    copy
}

/// The slice of a whole store.
pub open spec fn whole_slice(h: HeapState, vec: usize) -> SliceObj {
    SliceObj {
        begin: 0,
        end: h.vecs[vec as int].len() as usize,
        cap_end: h.vecs[vec as int].len() as usize,
        vec,
    }
}

/// What an untyped pointer refers to: a pointer of the program, or data of an
/// extension.
#[derive(Clone, Copy, Debug)]
pub enum UnsafeData {
    Handle(PointerHandle),
    User(UserData),
}

/// Data of an extension, known by a number only.
#[derive(Clone, Copy, Debug)]
pub struct UserData {
    pub number: u64,
}

/// A pointer that was turned into an untyped one.
#[derive(Clone, Copy, Debug)]
pub struct PointerHandle {
    pub ptr: PointerObj,
}

/// What can stand behind an untyped pointer. Extensions bring types of their own.
pub trait UnsafePtr {
    /// Whether the data can be compared with `other`.
    spec fn comparable(&self, h: HeapState, other: UnsafeData) -> bool;

    /// Whether a reference that the data holds can be taken off its count.
    spec fn can_sub_one(&self, h: HeapState) -> bool;

    /// Whether what the data refers to can be marked.
    spec fn can_mark(&self, h: HeapState, queue: Seq<i32>) -> bool;

    /// What kind of data this is.
    fn as_any(&self) -> (data: UnsafeData);

    /// Whether the data equals `other`.
    fn eq(&self, other: &UnsafeData, heap: &Heap) -> (same: bool)
        requires
            self.comparable(heap@, *other),
        default_ensures
            !same,
    {
        false
    }

    /// Takes one reference off for what the data refers to.
    fn ref_sub_one(&self, heap: &mut Heap)
        requires
            self.can_sub_one(old(heap)@),
        default_ensures
            final(heap)@ == old(heap)@,
    {
    }

    /// Marks what the data refers to.
    fn mark_dirty(&self, queue: &mut RCQueue, heap: &mut Heap)
        requires
            self.can_mark(old(heap)@, old(queue)@),
        default_ensures
            final(heap)@ == old(heap)@,
            final(queue)@ == old(queue)@,
    {
    }

    /// Whether the data can be part of a circle of references.
    fn can_make_cycle(&self) -> (can: bool)
        default_ensures
            !can,
    {
        false
    }

    /// The text of the data.
    fn fmt(&self) -> (out: String)
        default_ensures
            out@ == "unsafe pointer"@,
    {
        String::from_str("unsafe pointer")
    }

    /// Breaks a circle of references that the data is part of.
    fn break_cycle(&self, heap: &mut Heap)
        default_ensures
            final(heap)@ == old(heap)@,
    {
    }
}

impl UnsafePtr for UserData {
    open spec fn comparable(&self, h: HeapState, other: UnsafeData) -> bool {
        true
    }

    open spec fn can_sub_one(&self, h: HeapState) -> bool {
        true
    }

    open spec fn can_mark(&self, h: HeapState, queue: Seq<i32>) -> bool {
        true
    }

    fn as_any(&self) -> (data: UnsafeData)
        ensures
            data == UnsafeData::User(*self),
    {
        UnsafeData::User(*self)
    }
}

impl UnsafePtr for PointerHandle {
    open spec fn comparable(&self, h: HeapState, other: UnsafeData) -> bool {
        other matches UnsafeData::Handle(handle) ==> compare::eq_value(
            h,
            GosValue::Pointer(handle.ptr),
            GosValue::Pointer(self.ptr),
        ) is Some
    }

    open spec fn can_sub_one(&self, h: HeapState) -> bool {
        counting::sub_one(h, GosValue::Pointer(self.ptr)) is Some
    }

    open spec fn can_mark(&self, h: HeapState, queue: Seq<i32>) -> bool {
        counting::marked(h, queue, GosValue::Pointer(self.ptr)) is Some
    }

    fn as_any(&self) -> (data: UnsafeData)
        ensures
            data == UnsafeData::Handle(*self),
    {
        UnsafeData::Handle(*self)
    }

    fn eq(&self, other: &UnsafeData, heap: &Heap) -> (same: bool)
        ensures
            same == match *other {
                UnsafeData::Handle(handle) => compare::eq_value(
                    heap@,
                    GosValue::Pointer(handle.ptr),
                    GosValue::Pointer(self.ptr),
                )->0,
                UnsafeData::User(_) => false,
            },
    {
        match other {
            UnsafeData::Handle(handle) => handle.ptr.eq(&self.ptr, heap),
            UnsafeData::User(_) => false,
        }
    }

    fn ref_sub_one(&self, heap: &mut Heap)
        ensures
            final(heap)@ == counting::sub_one(old(heap)@, GosValue::Pointer(self.ptr))->0,
    {
        self.ptr.ref_sub_one(heap)
    }

    fn mark_dirty(&self, queue: &mut RCQueue, heap: &mut Heap)
        ensures
            counting::marked(old(heap)@, old(queue)@, GosValue::Pointer(self.ptr))->0 == (
                final(heap)@,
                final(queue)@,
            ),
    {
        self.ptr.mark_dirty(queue, heap)
    }
}

impl PointerHandle {
    /// Turns a pointer into an untyped one.
    pub fn from_pointer(ptr: GosValue, heap: &mut Heap) -> (val: GosValue)
        requires
            ptr is Pointer,
        ensures
            val == GosValue::UnsafePtr(old(heap)@.unsafes.len() as usize),
            final(heap)@ == old(heap)@.plus_unsafe(
                UnsafeData::Handle(PointerHandle { ptr: ptr->Pointer_0 }),
            ),
    {
        match ptr {
            GosValue::Pointer(p) => {
                let handle = PointerHandle { ptr: p };
                GosValue::UnsafePtr(heap.alloc_unsafe(UnsafeData::Handle(handle)))
            },
            _ => GosValue::new_nil(),
        }
    }

    /// Turns an untyped pointer back into the pointer that it was made from.
    pub fn to_pointer(self) -> (val: GosValue)
        ensures
            val == GosValue::Pointer(self.ptr),
    {
        GosValue::new_pointer(self.ptr)
    }
}

/// What was assigned through a pointer to an element, a field or a package member is
/// read back through it, as a copy. An element is read back if its slice starts where
/// its store starts.
pub proof fn law_an_assigned_copy_is_read_back(
    h: HeapState,
    running: Stack,
    after: Stack,
    pkgs: Map<PackageKey, PackageVal>,
    p: PointerObj,
    val: GosValue,
)
    requires
        p.assigned(h, running, pkgs, val) is Some,
        p is SliceMember || p is StructField || p is PkgMember,
        p matches PointerObj::SliceMember(id, _) ==> h.slices[id as int].obj.begin == 0,
    ensures
        p.pointee((p.assigned(h, running, pkgs, val)->0).0, after, pkgs) == Some(
            (copying::copy_value(h, val)->0).1,
        ),
{
    copying::law_copying_only_adds(h, val);
}

/// What was assigned through a pointer to a local variable is read back through it,
/// with the type of the variable.
pub proof fn law_an_assigned_variable_is_read_back(
    h: HeapState,
    running: Stack,
    after: Stack,
    pkgs: Map<PackageKey, PackageVal>,
    uv: UpValue,
    val: GosValue,
)
    requires
        PointerObj::UpVal(uv).assigned(h, running, pkgs, val) is Some,
        after.id == running.id,
        after.slots@ == (PointerObj::UpVal(uv).assigned(h, running, pkgs, val)->0).1,
    ensures
        PointerObj::UpVal(uv).pointee(
            (PointerObj::UpVal(uv).assigned(h, running, pkgs, val)->0).0,
            after,
            pkgs,
        ) == Some(
            match uv.state(h) {
                UpValueState::Open(desc) => stack::read_as(val, desc.typ),
                UpValueState::Closed(_) => val,
            },
        ),
{
    upvalue::law_a_variable_reads_back(h, running, after, uv, val);
}

/// After assigning an array, a slice or a map through a pointer, the target has the
/// elements or entries of the source, and a slice also its window. After assigning a
/// struct, it has the fields of a copy of the source.
pub proof fn law_an_assigned_object_has_the_contents(
    h: HeapState,
    running: Stack,
    pkgs: Map<PackageKey, PackageVal>,
    p: PointerObj,
    val: GosValue,
)
    requires
        p.assigned(h, running, pkgs, val) is Some,
    ensures
        ({
            let g = (p.assigned(h, running, pkgs, val)->0).0;
            match (p, val) {
                (PointerObj::Array(id), GosValue::Array(v)) => g.arrays == h.arrays
                    && g.arrays[id as int].obj.data(g) == h.arrays[v as int].obj.data(h),
                (PointerObj::Slice(id), GosValue::Slice(v)) => {
                    let from = h.slices[v as int].obj;
                    let to = g.slices[id as int].obj;
                    to.begin == from.begin && to.end == from.end && to.cap_end == from.cap_end
                        && to.vec == h.slices[id as int].obj.vec && to.data(g) == from.data(h)
                },
                (PointerObj::GosMap(id), GosValue::GosMap(v)) => g.maps == h.maps
                    && g.maps[id as int].obj.entries(g) == h.maps[v as int].obj.entries(h),
                (PointerObj::Struct(id), _) => {
                    let (h1, copy) = copying::copy_value(h, val)->0;
                    copy matches GosValue::Struct(c) && g.structs[id as int].obj
                        == h1.structs[c as int].obj
                },
                _ => true,
            }
        }),
{
}

/// A pointer at what a local variable holds leads to it.
pub proof fn law_a_local_pointer_leads_to_its_value(
    h: HeapState,
    running: Stack,
    pkgs: Map<PackageKey, PackageVal>,
    id: usize,
)
    ensures
        PointerObj::Struct(id).pointee(h, running, pkgs) == Some(GosValue::Struct(id)),
        PointerObj::Array(id).pointee(h, running, pkgs) == Some(GosValue::Array(id)),
        PointerObj::Slice(id).pointee(h, running, pkgs) == Some(GosValue::Slice(id)),
        PointerObj::GosMap(id).pointee(h, running, pkgs) == Some(GosValue::GosMap(id)),
{
}

/// A pointer at an element of an array, made in the heap `h`, leads to that element then
/// and in every later heap `g` in which the array has an element there, whatever was
/// written into the array since.
pub proof fn law_an_element_pointer_leads_to_its_element(
    h: HeapState,
    g: HeapState,
    running: Stack,
    pkgs: Map<PackageKey, PackageVal>,
    id: usize,
    slice: usize,
    i: OpIndex,
)
    requires
        id < h.arrays.len(),
        slice < g.slices.len(),
        g.slices[slice as int].obj == whole_slice(h, h.arrays[id as int].obj.vec),
        id < g.arrays.len(),
        g.arrays[id as int].obj == h.arrays[id as int].obj,
        g.arrays[id as int].obj.vec < g.vecs.len(),
        0 <= i < g.arrays[id as int].obj.data(g).len(),
    ensures
        PointerObj::SliceMember(slice, i).pointee(g, running, pkgs) == Some(
            g.arrays[id as int].obj.data(g)[i as int],
        ),
{
}

/// Making a pointer at an element leaves the array as it is, and the new slice is in
/// the heap afterwards.
pub proof fn law_making_an_element_pointer(h: HeapState, id: usize, slice: usize)
    requires
        id < h.arrays.len(),
        slice == h.slices.len(),
    ensures
        ({
            let vec = h.arrays[id as int].obj.vec;
            let g = h.plus_slice(whole_slice(h, vec));
            &&& slice < g.slices.len()
            &&& g.slices[slice as int].obj == whole_slice(h, vec)
            &&& g.arrays == h.arrays
            &&& g.vecs == h.vecs
        }),
{
}

/// A pointer at a field leads to that field, one at an element to the element of its slice, one
/// at a package member to what the cell of that member holds, and one at a variable to the
/// value of the variable.
pub proof fn law_where_pointers_lead(
    h: HeapState,
    running: Stack,
    pkgs: Map<PackageKey, PackageVal>,
    id: usize,
    key: PackageKey,
    uv: UpValue,
    i: OpIndex,
)
    requires
        0 <= i,
    ensures
        id < h.structs.len() && i < h.structs[id as int].obj.len() ==> PointerObj::StructField(
            id,
            i,
        ).pointee(h, running, pkgs) == Some(h.structs[id as int].obj[i as int]),
        id < h.slices.len() && h.slices[id as int].obj.vec < h.vecs.len() && h.slices[id as int].obj.begin
            + i < h.vecs[h.slices[id as int].obj.vec as int].len() ==> PointerObj::SliceMember(
            id,
            i,
        ).pointee(h, running, pkgs) == Some(
            h.vecs[h.slices[id as int].obj.vec as int][h.slices[id as int].obj.begin + i],
        ),
        pkgs.contains_key(key) && i < pkgs[key].members.len() && pkgs[key].members[i as int]
            < h.cells.len() ==> PointerObj::PkgMember(key, i).pointee(h, running, pkgs) == Some(
            h.cells[pkgs[key].members[i as int] as int],
        ),
        uv.reachable(h, running) ==> PointerObj::UpVal(uv).pointee(h, running, pkgs) == Some(
            uv.spec_value(h, running),
        ),
{
}

/// Assigning through a pointer at a field puts a copy of the value into that field. The other
/// fields of the struct stay, and so does all else that was on the heap.
pub proof fn law_assigning_to_a_field(
    h: HeapState,
    running: Stack,
    pkgs: Map<PackageKey, PackageVal>,
    id: usize,
    i: OpIndex,
    val: GosValue,
)
    requires
        PointerObj::StructField(id, i).assigned(h, running, pkgs, val) is Some,
    ensures
        ({
            let (g, slots) = PointerObj::StructField(id, i).assigned(h, running, pkgs, val)->0;
            let (h1, copy) = copying::copy_value(h, val)->0;
            &&& slots == running.slots@
            &&& 0 <= i < h.structs[id as int].obj.len()
            &&& g.structs[id as int].obj[i as int] == copy
            &&& g.structs[id as int].obj.len() == h.structs[id as int].obj.len()
            &&& g.structs[id as int].rc == h.structs[id as int].rc
            &&& forall|k: int|
                0 <= k < h.structs[id as int].obj.len() && k != i
                    ==> #[trigger] g.structs[id as int].obj[k] == h.structs[id as int].obj[k]
            &&& forall|k: int|
                0 <= k < h.structs.len() && k != id ==> #[trigger] g.structs[k] == h.structs[k]
            &&& g == (HeapState { structs: g.structs, ..h1 })
            &&& copying::extends(h, h1)
        }),
{
    copying::law_copying_only_adds(h, val);
    let h1 = (copying::copy_value(h, val)->0).0;
    assert(h1.structs[id as int] == h.structs[id as int]);
}

/// Assigning through a pointer at an element puts a copy of the value into the store of the
/// slice, at the place of the element where the slice starts with its store. The other elements
/// of the store stay, and so does all else that was on the heap.
pub proof fn law_assigning_to_an_element(
    h: HeapState,
    running: Stack,
    pkgs: Map<PackageKey, PackageVal>,
    id: usize,
    i: OpIndex,
    val: GosValue,
)
    requires
        PointerObj::SliceMember(id, i).assigned(h, running, pkgs, val) is Some,
    ensures
        ({
            let (g, slots) = PointerObj::SliceMember(id, i).assigned(h, running, pkgs, val)->0;
            let (h1, copy) = copying::copy_value(h, val)->0;
            let slice = h.slices[id as int].obj;
            let at = slice.begin + (slice.begin + i);
            &&& slots == running.slots@
            &&& 0 <= i && at < h.vecs[slice.vec as int].len()
            &&& g.vecs[slice.vec as int][at] == copy
            &&& slice.begin == 0 ==> g.vecs[slice.vec as int][i as int] == copy
            &&& g.vecs[slice.vec as int].len() == h.vecs[slice.vec as int].len()
            &&& forall|k: int|
                0 <= k < h.vecs[slice.vec as int].len() && k != at
                    ==> #[trigger] g.vecs[slice.vec as int][k] == h.vecs[slice.vec as int][k]
            &&& forall|v: int|
                0 <= v < h.vecs.len() && v != slice.vec ==> #[trigger] g.vecs[v] == h.vecs[v]
            &&& g == (HeapState { vecs: g.vecs, ..h1 })
            &&& copying::extends(h, h1)
        }),
{
    copying::law_copying_only_adds(h, val);
    let h1 = (copying::copy_value(h, val)->0).0;
    let slice = h.slices[id as int].obj;
    assert(h1.vecs[slice.vec as int] == h.vecs[slice.vec as int]);
}

/// Assigning through a pointer at a package member puts a copy of the value into the cell of
/// that member. The other cells stay, and so does all else that was on the heap.
pub proof fn law_assigning_to_a_package_member(
    h: HeapState,
    running: Stack,
    pkgs: Map<PackageKey, PackageVal>,
    key: PackageKey,
    i: OpIndex,
    val: GosValue,
)
    requires
        PointerObj::PkgMember(key, i).assigned(h, running, pkgs, val) is Some,
    ensures
        ({
            let (g, slots) = PointerObj::PkgMember(key, i).assigned(h, running, pkgs, val)->0;
            let (h1, copy) = copying::copy_value(h, val)->0;
            let cell = pkgs[key].members[i as int];
            &&& slots == running.slots@
            &&& pkgs.contains_key(key) && 0 <= i < pkgs[key].members.len() && cell < h.cells.len()
            &&& g.cells[cell as int] == copy
            &&& g.cells.len() == h.cells.len()
            &&& forall|k: int|
                0 <= k < h.cells.len() && k != cell ==> #[trigger] g.cells[k] == h.cells[k]
            &&& g == (HeapState { cells: g.cells, ..h1 })
            &&& copying::extends(h, h1)
        }),
{
    copying::law_copying_only_adds(h, val);
}

/// Assigning through a pointer at a variable sets the variable to the value itself.
pub proof fn law_assigning_to_a_variable(
    h: HeapState,
    running: Stack,
    pkgs: Map<PackageKey, PackageVal>,
    uv: UpValue,
    val: GosValue,
)
    requires
        uv.reachable(h, running),
    ensures
        PointerObj::UpVal(uv).assigned(h, running, pkgs, val) == Some(
            (uv.stored_heap(val, h, running), uv.stored_slots(val, h, running)),
        ),
{
}

/// Assigning a struct through a pointer gives the target the fields of a copy: each field is a
/// copy of the one at the same place, at every level. The target keeps its count of references,
/// and no other struct changes.
pub proof fn law_assigning_a_struct(
    h: HeapState,
    running: Stack,
    pkgs: Map<PackageKey, PackageVal>,
    id: usize,
    from: usize,
    i: int,
)
    requires
        PointerObj::Struct(id).assigned(h, running, pkgs, GosValue::Struct(from)) is Some,
        (copying::copy_value(h, GosValue::Struct(from))->0).0.addressable(),
        id < h.structs.len(),
        from < h.structs.len(),
        0 <= i < h.structs[from as int].obj.len(),
    ensures
        ({
            let (g, slots) = PointerObj::Struct(id).assigned(
                h,
                running,
                pkgs,
                GosValue::Struct(from),
            )->0;
            let h1 = (copying::copy_value(h, GosValue::Struct(from))->0).0;
            &&& slots == running.slots@
            &&& g == (HeapState { structs: g.structs, ..h1 })
            &&& g.structs[id as int].rc == h.structs[id as int].rc
            &&& g.structs[id as int].obj.len() == h.structs[from as int].obj.len()
            &&& copy_laws::copied(
                h1,
                h.structs[from as int].obj[i],
                g.structs[id as int].obj[i],
            )
            &&& forall|k: int|
                0 <= k < h.structs.len() && k != id ==> #[trigger] g.structs[k] == h.structs[k]
        }),
{
    let x = GosValue::Struct(from);
    copying::law_copying_only_adds(h, x);
    copying::law_what_a_copy_is(h, x);
    copy_laws::law_a_copy_is_one_at_every_level(h, x);
    let (h1, copy) = copying::copy_value(h, x)->0;
    let g = (PointerObj::Struct(id).assigned(h, running, pkgs, x)->0).0;
    let field = h.structs[from as int].obj[i];
    assert(h1.structs[id as int] == h.structs[id as int]);
    assert(h1.structs[from as int] == h.structs[from as int]);
    assert forall|depth: nat| #[trigger] copy_laws::copied_at(
        h1,
        field,
        g.structs[id as int].obj[i],
        depth,
    ) by {
        assert(copy_laws::copied_at(h1, x, copy, depth + 1));
        assert(h1.structs[from as int].obj[i] == field);
    }
}

/// Assigning an array, a slice or a map through a pointer writes the store or the entries of the
/// target only: no other store, no other entries and no other slice change, nor does the stack.
pub proof fn law_assigning_an_object_changes_one(
    h: HeapState,
    running: Stack,
    pkgs: Map<PackageKey, PackageVal>,
    p: PointerObj,
    val: GosValue,
)
    requires
        p.assigned(h, running, pkgs, val) is Some,
        p is Array || p is Slice || p is GosMap,
    ensures
        ({
            let (g, slots) = p.assigned(h, running, pkgs, val)->0;
            &&& slots == running.slots@
            &&& p matches PointerObj::Array(id) ==> {
                let to = h.arrays[id as int].obj.vec;
                &&& g == (HeapState { vecs: g.vecs, ..h })
                &&& g.vecs.len() == h.vecs.len()
                &&& forall|v: int|
                    0 <= v < h.vecs.len() && v != to ==> #[trigger] g.vecs[v] == h.vecs[v]
            }
            &&& p matches PointerObj::Slice(id) ==> {
                let to = h.slices[id as int].obj.vec;
                &&& g == (HeapState { vecs: g.vecs, slices: g.slices, ..h })
                &&& g.vecs.len() == h.vecs.len() && g.slices.len() == h.slices.len()
                &&& g.slices[id as int].rc == h.slices[id as int].rc
                &&& forall|v: int|
                    0 <= v < h.vecs.len() && v != to ==> #[trigger] g.vecs[v] == h.vecs[v]
                &&& forall|k: int|
                    0 <= k < h.slices.len() && k != id ==> #[trigger] g.slices[k] == h.slices[k]
            }
            &&& p matches PointerObj::GosMap(id) ==> {
                let to = h.maps[id as int].obj.map;
                &&& g == (HeapState { map_data: g.map_data, ..h })
                &&& g.map_data.len() == h.map_data.len()
                &&& forall|m: int|
                    0 <= m < h.map_data.len() && m != to ==> #[trigger] g.map_data[m]
                        == h.map_data[m]
            }
        }),
{
}

/// Assigning an array, a slice or a map through a pointer of its kind can be done if both are
/// there and have stores or entries of their own.
pub proof fn law_objects_can_be_assigned(
    h: HeapState,
    running: Stack,
    pkgs: Map<PackageKey, PackageVal>,
    to: usize,
    from: usize,
)
    ensures
        to < h.arrays.len() && from < h.arrays.len() && h.arrays[to as int].obj.vec < h.vecs.len()
            && h.arrays[from as int].obj.vec < h.vecs.len() && h.arrays[to as int].obj.vec
            != h.arrays[from as int].obj.vec ==> PointerObj::Array(to).assigned(
            h,
            running,
            pkgs,
            GosValue::Array(from),
        ) is Some,
        to < h.slices.len() && from < h.slices.len() && h.slices[to as int].obj.vec < h.vecs.len()
            && h.slices[from as int].obj.vec < h.vecs.len() && h.slices[to as int].obj.vec
            != h.slices[from as int].obj.vec ==> PointerObj::Slice(to).assigned(
            h,
            running,
            pkgs,
            GosValue::Slice(from),
        ) is Some,
        to < h.maps.len() && from < h.maps.len() && h.maps[to as int].obj.map < h.map_data.len()
            && h.maps[from as int].obj.map < h.map_data.len() && h.maps[to as int].obj.map
            != h.maps[from as int].obj.map ==> PointerObj::GosMap(to).assigned(
            h,
            running,
            pkgs,
            GosValue::GosMap(from),
        ) is Some,
{
}

/// The slice by which a pointer reaches the elements of an array covers all of the store, and
/// has no room beyond it.
pub proof fn law_a_whole_slice_covers_its_store(h: HeapState, vec: usize)
    requires
        vec < h.vecs.len(),
        h.vecs[vec as int].len() <= usize::MAX,
    ensures
        whole_slice(h, vec).window(h) == h.vecs[vec as int],
        whole_slice(h, vec).begin == 0,
        whole_slice(h, vec).cap_end == h.vecs[vec as int].len(),
        whole_slice(h, vec).vec == vec,
{
    assert(whole_slice(h, vec).window(h) =~= h.vecs[vec as int]);
}

/// The text of a pointer at an object is its place in hexadecimal digits behind `0x`. That of a
/// pointer at an element or field is the text of a pointer at the object, an `i` and the number
/// of the element or field. That of a pointer at a package member has the number of the key in
/// place of a place.
pub proof fn law_the_text_of_a_pointer(id: usize, key: PackageKey, i: OpIndex)
    ensures
        PointerObj::Struct(id).spec_fmt() == "0x"@ + text::hex(id as nat),
        PointerObj::Array(id).spec_fmt() == PointerObj::Struct(id).spec_fmt(),
        PointerObj::Slice(id).spec_fmt() == PointerObj::Struct(id).spec_fmt(),
        PointerObj::GosMap(id).spec_fmt() == PointerObj::Struct(id).spec_fmt(),
        PointerObj::UpVal(UpValue { inner: id }).spec_fmt() == PointerObj::Struct(id).spec_fmt(),
        PointerObj::SliceMember(id, i).spec_fmt() == PointerObj::Slice(id).spec_fmt() + "i"@
            + text::signed(i as int),
        PointerObj::StructField(id, i).spec_fmt() == PointerObj::Struct(id).spec_fmt() + "i"@
            + text::signed(i as int),
        keys::is_key_number(key.number) ==> PointerObj::PkgMember(key, i).spec_fmt() == text::hex(
            key.number as nat,
        ) + "i"@ + text::signed(i as int),
{
}

} // verus!
