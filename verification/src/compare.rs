//! Equality of values.
//!
//! Arrays, structs and what interfaces hold are compared by content, and so are two
//! pointers to different structs or arrays. A comparison may therefore go on for
//! ever, when it follows pointers in a circle, and it may fail, when it meets two
//! things that cannot be compared. [`eq_at`] says what comes out within a given
//! number of steps, if anything does.
use vstd::prelude::*;

use crate::heap::{Heap, HeapState};
use crate::instruction::{OpIndex, ValueType};
use crate::interface_obj::InterfaceObj;
use crate::keys::PackageKey;
use crate::pointer_obj::{PointerObj, UnsafeData};
use crate::upvalue::{UpValue, UpValueState};
use crate::value::GosValue;

verus! {

/// Whether `x` and `y` are equal, if that can be told in `fuel` steps.
pub open spec fn eq_at(h: HeapState, x: GosValue, y: GosValue, fuel: nat) -> Option<bool>
    decreases fuel, 0nat,
{
    if fuel == 0 {
        None
    } else {
        let less = (fuel - 1) as nat;
        match (x, y) {
            (GosValue::Nil, GosValue::Nil) => Some(true),
            (GosValue::Scalar(t, a), GosValue::Scalar(u, b)) => Some(t == u && a == b),
            (GosValue::Str(a), GosValue::Str(b)) => strings_eq(h, a, b),
            (GosValue::Function(a), GosValue::Function(b)) => Some(a == b),
            (GosValue::Package(a), GosValue::Package(b)) => Some(a == b),
            (GosValue::Metadata(a), GosValue::Metadata(b)) => Some(a == b),
            (GosValue::Array(a), GosValue::Array(b)) => arrays_eq_at(h, a, b, less),
            (GosValue::Slice(a), GosValue::Slice(b)) => Some(a == b),
            (GosValue::GosMap(a), GosValue::GosMap(b)) => Some(a == b),
            (GosValue::Struct(a), GosValue::Struct(b)) => structs_eq_at(h, a, b, less),
            (GosValue::Interface(a), GosValue::Interface(b)) => ifaces_eq_at(h, a, b, less),
            (GosValue::Closure(a), GosValue::Closure(b)) => Some(a == b),
            (GosValue::Channel(a), GosValue::Channel(b)) => Some(a == b),
            (GosValue::Pointer(p), GosValue::Pointer(q)) => pointers_eq_at(h, p, q, less),
            (GosValue::UnsafePtr(a), GosValue::UnsafePtr(b)) => unsafes_eq_at(h, a, b, less),
            _ => Some(false),
        }
    }
}

/// Whether two strings on the heap read the same.
pub open spec fn strings_eq(h: HeapState, a: usize, b: usize) -> Option<bool> {
    if a < h.strs.len() && b < h.strs.len() && h.strs[a as int].fits() && h.strs[b as int].fits() {
        Some(h.strs[a as int].bytes() == h.strs[b as int].bytes())
    } else {
        None
    }
}

/// Whether the values of `xs` from place `i` on equal those of `ys`. Comparing
/// stops at the first pair that differs, and fails where `ys` is too short.
pub open spec fn values_eq_at(
    h: HeapState,
    xs: Seq<GosValue>,
    ys: Seq<GosValue>,
    i: int,
    fuel: nat,
) -> Option<bool>
    decreases fuel, (if i < xs.len() { 1 + xs.len() - i } else { 1 }) as nat,
{
    if i >= xs.len() {
        Some(true)
    } else if i < 0 || i >= ys.len() {
        None
    } else {
        match eq_at(h, xs[i], ys[i], fuel) {
            Some(true) => values_eq_at(h, xs, ys, i + 1, fuel),
            other => other,
        }
    }
}

/// Whether two arrays have equal elements.
pub open spec fn arrays_eq_at(h: HeapState, a: usize, b: usize, fuel: nat) -> Option<bool>
    decreases fuel, 0nat,
{
    if fuel > 0 && a < h.arrays.len() && b < h.arrays.len() {
        stores_eq_at(h, h.arrays[a as int].obj.vec, h.arrays[b as int].obj.vec, (fuel - 1) as nat)
    } else {
        None
    }
}

/// Whether two stores of elements are of one length and have equal elements.
pub open spec fn stores_eq_at(h: HeapState, v: usize, w: usize, fuel: nat) -> Option<bool>
    decreases fuel, 0nat,
{
    if fuel > 0 && v < h.vecs.len() && w < h.vecs.len() {
        if h.vecs[v as int].len() != h.vecs[w as int].len() {
            Some(false)
        } else {
            values_eq_at(h, h.vecs[v as int], h.vecs[w as int], 0, (fuel - 1) as nat)
        }
    } else {
        None
    }
}

/// Whether two structs have equal fields.
pub open spec fn structs_eq_at(h: HeapState, a: usize, b: usize, fuel: nat) -> Option<bool>
    decreases fuel, 0nat,
{
    if fuel > 0 && a < h.structs.len() && b < h.structs.len() {
        values_eq_at(
            h,
            h.structs[a as int].obj,
            h.structs[b as int].obj,
            0,
            (fuel - 1) as nat,
        )
    } else {
        None
    }
}

/// Whether two interfaces hold equal values or the same foreign object.
pub open spec fn ifaces_eq_at(h: HeapState, a: usize, b: usize, fuel: nat) -> Option<bool>
    decreases fuel, 0nat,
{
    if fuel > 0 && a < h.ifaces.len() && b < h.ifaces.len() {
        match (h.ifaces[a as int].obj, h.ifaces[b as int].obj) {
            (InterfaceObj::Gos(x, _), InterfaceObj::Gos(y, _)) => eq_at(
                h,
                x,
                y,
                (fuel - 1) as nat,
            ),
            (InterfaceObj::Ffi(x), InterfaceObj::Ffi(y)) => Some(x.ffi_obj == y.ffi_obj),
            _ => Some(false),
        }
    } else {
        None
    }
}

/// Whether two up values are the same, or stand for variables with one number
/// while open, or hold equal values when closed.
pub open spec fn upvalues_eq_at(h: HeapState, a: usize, b: usize, fuel: nat) -> Option<bool>
    decreases fuel, 0nat,
{
    if a == b {
        Some(true)
    } else if fuel > 0 && a < h.upvalues.len() && b < h.upvalues.len() {
        match (h.upvalues[a as int], h.upvalues[b as int]) {
            (Some(UpValueState::Open(d)), Some(UpValueState::Open(e))) => Some(d.index == e.index),
            (Some(UpValueState::Closed(x)), Some(UpValueState::Closed(y))) => eq_at(
                h,
                x,
                y,
                (fuel - 1) as nat,
            ),
            (Some(_), Some(_)) => Some(false),
            _ => None,
        }
    } else {
        None
    }
}

/// Both answers, where the first is needed for the second.
pub open spec fn and_then(first: Option<bool>, second: bool) -> Option<bool> {
    match first {
        Some(true) => Some(second),
        other => other,
    }
}

/// Whether two pointers are equal. Pointers to two different structs or arrays are
/// equal if these and their reference counts are; pointers to two different slices
/// or maps cannot be compared; members and fields are told apart by their place.
pub open spec fn pointers_eq_at(h: HeapState, p: PointerObj, q: PointerObj, fuel: nat) -> Option<
    bool,
>
    decreases fuel, 0nat,
{
    if fuel == 0 {
        None
    } else {
        let less = (fuel - 1) as nat;
        match (p, q) {
            (PointerObj::UpVal(x), PointerObj::UpVal(y)) => upvalues_eq_at(
                h,
                x.inner,
                y.inner,
                less,
            ),
            (PointerObj::Struct(a), PointerObj::Struct(b)) => if a == b {
                Some(true)
            } else {
                and_then(
                    structs_eq_at(h, a, b, less),
                    h.structs[a as int].rc == h.structs[b as int].rc,
                )
            },
            (PointerObj::Array(a), PointerObj::Array(b)) => if a == b {
                Some(true)
            } else {
                and_then(
                    arrays_eq_at(h, a, b, less),
                    h.arrays[a as int].rc == h.arrays[b as int].rc,
                )
            },
            (PointerObj::Slice(a), PointerObj::Slice(b)) => if a == b {
                Some(true)
            } else {
                None
            },
            (PointerObj::GosMap(a), PointerObj::GosMap(b)) => if a == b {
                Some(true)
            } else {
                None
            },
            (PointerObj::SliceMember(a, i), PointerObj::SliceMember(b, j)) => Some(
                a == b && i == j,
            ),
            (PointerObj::StructField(a, i), PointerObj::StructField(b, j)) => Some(
                a == b && i == j,
            ),
            (PointerObj::PkgMember(a, i), PointerObj::PkgMember(b, j)) => Some(a == b && i == j),
            _ => Some(false),
        }
    }
}

/// Whether two untyped pointers are equal: both are pointers of the program, and
/// these are equal.
pub open spec fn unsafes_eq_at(h: HeapState, a: usize, b: usize, fuel: nat) -> Option<bool>
    decreases fuel, 0nat,
{
    if fuel > 0 && a < h.unsafes.len() && b < h.unsafes.len() {
        match (h.unsafes[a as int], h.unsafes[b as int]) {
            (UnsafeData::Handle(x), UnsafeData::Handle(y)) => pointers_eq_at(
                h,
                y.ptr,
                x.ptr,
                (fuel - 1) as nat,
            ),
            _ => Some(false),
        }
    } else {
        None
    }
}

/// More steps do not change an answer.
pub proof fn lemma_eq_mono(h: HeapState, x: GosValue, y: GosValue, fuel: nat, more: nat)
    requires
        fuel <= more,
        eq_at(h, x, y, fuel) is Some,
    ensures
        eq_at(h, x, y, more) == eq_at(h, x, y, fuel),
    decreases fuel, 0nat,
{
    let f = (fuel - 1) as nat;
    let m = (more - 1) as nat;
    match (x, y) {
        (GosValue::Array(a), GosValue::Array(b)) => lemma_arrays_eq_mono(h, a, b, f, m),
        (GosValue::Struct(a), GosValue::Struct(b)) => lemma_structs_eq_mono(h, a, b, f, m),
        (GosValue::Interface(a), GosValue::Interface(b)) => {
            match (h.ifaces[a as int].obj, h.ifaces[b as int].obj) {
                (InterfaceObj::Gos(v, _), InterfaceObj::Gos(w, _)) => {
                    lemma_eq_mono(h, v, w, (f - 1) as nat, (m - 1) as nat);
                },
                _ => {},
            }
        },
        (GosValue::Pointer(p), GosValue::Pointer(q)) => lemma_pointers_eq_mono(h, p, q, f, m),
        (GosValue::UnsafePtr(a), GosValue::UnsafePtr(b)) => {
            match (h.unsafes[a as int], h.unsafes[b as int]) {
                (UnsafeData::Handle(v), UnsafeData::Handle(w)) => {
                    lemma_pointers_eq_mono(h, w.ptr, v.ptr, (f - 1) as nat, (m - 1) as nat);
                },
                _ => {},
            }
        },
        _ => {},
    }
}

proof fn lemma_values_eq_mono(
    h: HeapState,
    xs: Seq<GosValue>,
    ys: Seq<GosValue>,
    i: int,
    fuel: nat,
    more: nat,
)
    requires
        fuel <= more,
        values_eq_at(h, xs, ys, i, fuel) is Some,
    ensures
        values_eq_at(h, xs, ys, i, more) == values_eq_at(h, xs, ys, i, fuel),
    decreases fuel, (if i < xs.len() { 1 + xs.len() - i } else { 1 }) as nat,
{
    if 0 <= i < xs.len() {
        lemma_eq_mono(h, xs[i], ys[i], fuel, more);
        if eq_at(h, xs[i], ys[i], fuel) == Some(true) {
            lemma_values_eq_mono(h, xs, ys, i + 1, fuel, more);
        }
    }
}

proof fn lemma_arrays_eq_mono(h: HeapState, a: usize, b: usize, fuel: nat, more: nat)
    requires
        fuel <= more,
        arrays_eq_at(h, a, b, fuel) is Some,
    ensures
        arrays_eq_at(h, a, b, more) == arrays_eq_at(h, a, b, fuel),
    decreases fuel, 0nat,
{
    let v = h.arrays[a as int].obj.vec;
    let w = h.arrays[b as int].obj.vec;
    lemma_stores_eq_mono(h, v, w, (fuel - 1) as nat, (more - 1) as nat);
}

proof fn lemma_stores_eq_mono(h: HeapState, v: usize, w: usize, fuel: nat, more: nat)
    requires
        fuel <= more,
        stores_eq_at(h, v, w, fuel) is Some,
    ensures
        stores_eq_at(h, v, w, more) == stores_eq_at(h, v, w, fuel),
    decreases fuel, 0nat,
{
    if h.vecs[v as int].len() == h.vecs[w as int].len() {
        lemma_values_eq_mono(
            h,
            h.vecs[v as int],
            h.vecs[w as int],
            0,
            (fuel - 1) as nat,
            (more - 1) as nat,
        );
    }
}

proof fn lemma_structs_eq_mono(h: HeapState, a: usize, b: usize, fuel: nat, more: nat)
    requires
        fuel <= more,
        structs_eq_at(h, a, b, fuel) is Some,
    ensures
        structs_eq_at(h, a, b, more) == structs_eq_at(h, a, b, fuel),
    decreases fuel, 0nat,
{
    lemma_values_eq_mono(
        h,
        h.structs[a as int].obj,
        h.structs[b as int].obj,
        0,
        (fuel - 1) as nat,
        (more - 1) as nat,
    );
}

proof fn lemma_pointers_eq_mono(
    h: HeapState,
    p: PointerObj,
    q: PointerObj,
    fuel: nat,
    more: nat,
)
    requires
        fuel <= more,
        pointers_eq_at(h, p, q, fuel) is Some,
    ensures
        pointers_eq_at(h, p, q, more) == pointers_eq_at(h, p, q, fuel),
    decreases fuel, 0nat,
{
    let f = (fuel - 1) as nat;
    let m = (more - 1) as nat;
    match (p, q) {
        (PointerObj::UpVal(x), PointerObj::UpVal(y)) => {
            if x.inner != y.inner {
                match (h.upvalues[x.inner as int], h.upvalues[y.inner as int]) {
                    (Some(UpValueState::Closed(v)), Some(UpValueState::Closed(w))) => {
                        lemma_eq_mono(h, v, w, (f - 1) as nat, (m - 1) as nat);
                    },
                    _ => {},
                }
            }
        },
        (PointerObj::Struct(a), PointerObj::Struct(b)) => if a != b {
            lemma_structs_eq_mono(h, a, b, f, m);
        },
        (PointerObj::Array(a), PointerObj::Array(b)) => if a != b {
            lemma_arrays_eq_mono(h, a, b, f, m);
        },
        _ => {},
    }
}

/// Whether `x` and `y` are equal, if comparing them comes to an end without failing.
/// Three steps are enough for most values.
pub open spec fn eq_value(h: HeapState, x: GosValue, y: GosValue) -> Option<bool> {
    if eq_at(h, x, y, 3) is Some {
        eq_at(h, x, y, 3)
    } else if exists|fuel: nat| #[trigger] eq_at(h, x, y, fuel) is Some {
        eq_at(h, x, y, choose|fuel: nat| #[trigger] eq_at(h, x, y, fuel) is Some)
    } else {
        None
    }
}

/// Any number of steps that is enough gives the answer.
pub proof fn lemma_eq_value(h: HeapState, x: GosValue, y: GosValue, fuel: nat)
    requires
        eq_at(h, x, y, fuel) is Some,
    ensures
        eq_value(h, x, y) == eq_at(h, x, y, fuel),
{
    let chosen = if eq_at(h, x, y, 3) is Some {
        3
    } else {
        choose|f: nat| #[trigger] eq_at(h, x, y, f) is Some
    };
    if chosen <= fuel {
        lemma_eq_mono(h, x, y, chosen, fuel);
    } else {
        lemma_eq_mono(h, x, y, fuel, chosen);
    }
}

/// Whether the values of `xs` from place `i` on equal those of `ys`. Comparing
/// stops at the first pair that differs, and fails where `ys` is too short.
pub open spec fn values_eq(
    h: HeapState,
    xs: Seq<GosValue>,
    ys: Seq<GosValue>,
    i: int,
) -> Option<bool>
    decreases xs.len() - i,
{
    if i >= xs.len() {
        Some(true)
    } else if i < 0 || i >= ys.len() {
        None
    } else {
        match eq_value(h, xs[i], ys[i]) {
            Some(true) => values_eq(h, xs, ys, i + 1),
            other => other,
        }
    }
}

/// Whether two interfaces hold equal values or the same foreign object.
pub open spec fn ifaces_eq(h: HeapState, a: InterfaceObj, b: InterfaceObj) -> Option<bool> {
    match (a, b) {
        (InterfaceObj::Gos(x, _), InterfaceObj::Gos(y, _)) => eq_value(h, x, y),
        (InterfaceObj::Ffi(x), InterfaceObj::Ffi(y)) => Some(x.ffi_obj == y.ffi_obj),
        _ => Some(false),
    }
}

fn value_eq_within(heap: &Heap, x: &GosValue, y: &GosValue, Ghost(fuel): Ghost<nat>) -> (same: bool)
    requires
        eq_at(heap@, *x, *y, fuel) is Some,
    ensures
        same == eq_at(heap@, *x, *y, fuel)->0,
    decreases fuel, 0nat,
{
    let ghost less = (fuel - 1) as nat;
    match (x, y) {
        (GosValue::Nil, GosValue::Nil) => true,
        (GosValue::Scalar(t, a), GosValue::Scalar(u, b)) => *t == *u && *a == *b,
        (GosValue::Str(a), GosValue::Str(b)) => heap.strs[*a].eq(&heap.strs[*b]),
        (GosValue::Function(a), GosValue::Function(b)) => *a == *b,
        (GosValue::Package(a), GosValue::Package(b)) => *a == *b,
        (GosValue::Metadata(a), GosValue::Metadata(b)) => *a == *b,
        (GosValue::Array(a), GosValue::Array(b)) => arrays_eq_within(heap, *a, *b, Ghost(less)),
        (GosValue::Slice(a), GosValue::Slice(b)) => *a == *b,
        (GosValue::GosMap(a), GosValue::GosMap(b)) => *a == *b,
        (GosValue::Struct(a), GosValue::Struct(b)) => structs_eq_within(heap, *a, *b, Ghost(less)),
        (GosValue::Interface(a), GosValue::Interface(b)) => {
            match (&heap.ifaces[*a].obj, &heap.ifaces[*b].obj) {
                (InterfaceObj::Gos(v, _), InterfaceObj::Gos(w, _)) => value_eq_within(
                    heap,
                    v,
                    w,
                    Ghost((less - 1) as nat),
                ),
                (InterfaceObj::Ffi(v), InterfaceObj::Ffi(w)) => v.ffi_obj == w.ffi_obj,
                _ => false,
            }
        },
        (GosValue::Closure(a), GosValue::Closure(b)) => *a == *b,
        (GosValue::Channel(a), GosValue::Channel(b)) => *a == *b,
        (GosValue::Pointer(p), GosValue::Pointer(q)) => pointers_eq_within(heap, p, q, Ghost(less)),
        (GosValue::UnsafePtr(a), GosValue::UnsafePtr(b)) => {
            match (heap.unsafes[*a], heap.unsafes[*b]) {
                (UnsafeData::Handle(v), UnsafeData::Handle(w)) => pointers_eq_within(
                    heap,
                    &w.ptr,
                    &v.ptr,
                    Ghost((less - 1) as nat),
                ),
                _ => false,
            }
        },
        _ => false,
    }
}

fn values_eq_within(
    heap: &Heap,
    xs: &Vec<GosValue>,
    ys: &Vec<GosValue>,
    Ghost(fuel): Ghost<nat>,
) -> (same: bool)
    requires
        values_eq_at(heap@, xs@, ys@, 0, fuel) is Some,
    ensures
        same == values_eq_at(heap@, xs@, ys@, 0, fuel)->0,
    decreases fuel, 1nat,
{
    let mut i: usize = 0;
    while i < xs.len()
        invariant
            i <= xs.len(),
            values_eq_at(heap@, xs@, ys@, 0, fuel) is Some,
            values_eq_at(heap@, xs@, ys@, 0, fuel) == values_eq_at(
                heap@,
                xs@,
                ys@,
                i as int,
                fuel,
            ),
        decreases xs.len() - i,
    {
        if !value_eq_within(heap, &xs[i], &ys[i], Ghost(fuel)) {
            return false;
        }
        i = i + 1;
    }
    true
}

fn arrays_eq_within(heap: &Heap, a: usize, b: usize, Ghost(fuel): Ghost<nat>) -> (same: bool)
    requires
        arrays_eq_at(heap@, a, b, fuel) is Some,
    ensures
        same == arrays_eq_at(heap@, a, b, fuel)->0,
    decreases fuel, 0nat,
{
    let xs: &Vec<GosValue> = heap.vec(heap.arrays[a].obj.vec);
    let ys: &Vec<GosValue> = heap.vec(heap.arrays[b].obj.vec);
    assert(stores_eq_at(
        heap@,
        heap@.arrays[a as int].obj.vec,
        heap@.arrays[b as int].obj.vec,
        (fuel - 1) as nat,
    ) is Some);
    if xs.len() != ys.len() {
        false
    } else {
        values_eq_within(heap, xs, ys, Ghost((fuel - 2) as nat))
    }
}

fn structs_eq_within(heap: &Heap, a: usize, b: usize, Ghost(fuel): Ghost<nat>) -> (same: bool)
    requires
        structs_eq_at(heap@, a, b, fuel) is Some,
    ensures
        same == structs_eq_at(heap@, a, b, fuel)->0,
    decreases fuel, 0nat,
{
    values_eq_within(heap, heap.fields(a), heap.fields(b), Ghost((fuel - 1) as nat))
}

fn pointers_eq_within(
    heap: &Heap,
    p: &PointerObj,
    q: &PointerObj,
    Ghost(fuel): Ghost<nat>,
) -> (same: bool)
    requires
        pointers_eq_at(heap@, *p, *q, fuel) is Some,
    ensures
        same == pointers_eq_at(heap@, *p, *q, fuel)->0,
    decreases fuel, 0nat,
{
    let ghost less = (fuel - 1) as nat;
    match (p, q) {
        (PointerObj::UpVal(x), PointerObj::UpVal(y)) => {
            if x.inner == y.inner {
                true
            } else {
                match (&heap.upvalues[x.inner], &heap.upvalues[y.inner]) {
                    (Some(UpValueState::Open(d)), Some(UpValueState::Open(e))) => d.index
                        == e.index,
                    (Some(UpValueState::Closed(v)), Some(UpValueState::Closed(w))) => {
                        value_eq_within(heap, v, w, Ghost((less - 1) as nat))
                    },
                    _ => false,
                }
            }
        },
        (PointerObj::Struct(a), PointerObj::Struct(b)) => {
            *a == *b || (structs_eq_within(heap, *a, *b, Ghost(less)) && heap.structs[*a].rc
                == heap.structs[*b].rc)
        },
        (PointerObj::Array(a), PointerObj::Array(b)) => {
            *a == *b || (arrays_eq_within(heap, *a, *b, Ghost(less)) && heap.arrays[*a].rc
                == heap.arrays[*b].rc)
        },
        (PointerObj::Slice(a), PointerObj::Slice(b)) => *a == *b,
        (PointerObj::GosMap(a), PointerObj::GosMap(b)) => *a == *b,
        (PointerObj::SliceMember(a, i), PointerObj::SliceMember(b, j)) => *a == *b && *i == *j,
        (PointerObj::StructField(a, i), PointerObj::StructField(b, j)) => *a == *b && *i == *j,
        (PointerObj::PkgMember(a, i), PointerObj::PkgMember(b, j)) => *a == *b && *i == *j,
        _ => false,
    }
}

impl GosValue {
    /// Whether two values are equal.
    pub fn eq(&self, other: &GosValue, heap: &Heap) -> (same: bool)
        requires
            eq_value(heap@, *self, *other) is Some,
        ensures
            same == eq_value(heap@, *self, *other)->0,
    {
        let ghost fuel = choose|f: nat| #[trigger] eq_at(heap@, *self, *other, f) is Some;
        proof {
            lemma_eq_value(heap@, *self, *other, fuel);
        }
        value_eq_within(heap, self, other, Ghost(fuel))
    }

    /// Whether two values are of one type and equal.
    pub fn identical(&self, other: &GosValue, heap: &Heap) -> (same: bool)
        requires
            self.spec_value_type() == other.spec_value_type() ==> eq_value(
                heap@,
                *self,
                *other,
            ) is Some,
        ensures
            same == (self.spec_value_type() == other.spec_value_type() && eq_value(
                heap@,
                *self,
                *other,
            ) == Some(true)),
    {
        self.value_type() == other.value_type() && self.eq(other, heap)
    }
}

/// Whether two rows of values are equal place by place, see [`values_eq`].
pub(crate) fn same_values(heap: &Heap, xs: &Vec<GosValue>, ys: &Vec<GosValue>) -> (same: bool)
    requires
        values_eq(heap@, xs@, ys@, 0) is Some,
    ensures
        same == values_eq(heap@, xs@, ys@, 0)->0,
{
    let mut i: usize = 0;
    while i < xs.len()
        invariant
            i <= xs.len(),
            values_eq(heap@, xs@, ys@, 0) is Some,
            values_eq(heap@, xs@, ys@, 0) == values_eq(heap@, xs@, ys@, i as int),
        decreases xs.len() - i,
    {
        if !xs[i].eq(&ys[i], heap) {
            return false;
        }
        i = i + 1;
    }
    true
}

impl InterfaceObj {
    /// Whether two interfaces hold equal values or the same foreign object.
    pub fn eq(&self, other: &InterfaceObj, heap: &Heap) -> (same: bool)
        requires
            ifaces_eq(heap@, *self, *other) is Some,
        ensures
            same == ifaces_eq(heap@, *self, *other)->0,
    {
        match (self, other) {
            (InterfaceObj::Gos(x, _), InterfaceObj::Gos(y, _)) => x.eq(y, heap),
            (InterfaceObj::Ffi(x), InterfaceObj::Ffi(y)) => x.ffi_obj == y.ffi_obj,
            _ => false,
        }
    }
}

/// Whether two states of up values are equal: open on variables with one number, or
/// closed on equal values.
pub open spec fn states_eq(h: HeapState, a: UpValueState, b: UpValueState) -> Option<bool> {
    match (a, b) {
        (UpValueState::Open(d), UpValueState::Open(e)) => Some(d.index == e.index),
        (UpValueState::Closed(x), UpValueState::Closed(y)) => eq_value(h, x, y),
        _ => Some(false),
    }
}

impl UpValueState {
    /// Whether two states of up values are equal, see [`states_eq`].
    pub fn eq(&self, other: &UpValueState, heap: &Heap) -> (same: bool)
        requires
            states_eq(heap@, *self, *other) is Some,
        ensures
            same == states_eq(heap@, *self, *other)->0,
    {
        match (self, other) {
            (UpValueState::Open(d), UpValueState::Open(e)) => d.eq(e),
            (UpValueState::Closed(x), UpValueState::Closed(y)) => x.eq(y, heap),
            _ => false,
        }
    }
}

/// Whether two up values are the same or have equal states.
pub open spec fn upvalues_eq(h: HeapState, a: UpValue, b: UpValue) -> Option<bool> {
    if a.inner == b.inner {
        Some(true)
    } else if a.alive(h) && b.alive(h) {
        states_eq(h, a.state(h), b.state(h))
    } else {
        None
    }
}

impl UpValue {
    /// Whether two up values are the same or have equal states.
    pub fn eq(&self, other: &UpValue, heap: &Heap) -> (same: bool)
        requires
            upvalues_eq(heap@, *self, *other) is Some,
        ensures
            same == upvalues_eq(heap@, *self, *other)->0,
    {
        if self.inner == other.inner {
            return true;
        }
        match (&heap.upvalues[self.inner], &heap.upvalues[other.inner]) {
            (Some(a), Some(b)) => a.eq(b, heap),
            _ => false,
        }
    }
}

impl PointerObj {
    /// Whether two pointers are equal, see [`pointers_eq_at`].
    pub fn eq(&self, other: &PointerObj, heap: &Heap) -> (same: bool)
        requires
            eq_value(heap@, GosValue::Pointer(*self), GosValue::Pointer(*other)) is Some,
        ensures
            same == eq_value(heap@, GosValue::Pointer(*self), GosValue::Pointer(*other))->0,
    {
        GosValue::Pointer(*self).eq(&GosValue::Pointer(*other), heap)
    }
}

proof fn lemma_row_from_steps(
    h: HeapState,
    xs: Seq<GosValue>,
    ys: Seq<GosValue>,
    i: int,
    fuel: nat,
)
    requires
        values_eq_at(h, xs, ys, i, fuel) is Some,
    ensures
        values_eq(h, xs, ys, i) == values_eq_at(h, xs, ys, i, fuel),
    decreases xs.len() - i,
{
    if 0 <= i < xs.len() {
        lemma_eq_value(h, xs[i], ys[i], fuel);
        if eq_at(h, xs[i], ys[i], fuel) == Some(true) {
            lemma_row_from_steps(h, xs, ys, i + 1, fuel);
        }
    }
}

proof fn lemma_row_steps(h: HeapState, xs: Seq<GosValue>, ys: Seq<GosValue>, i: int) -> (fuel: nat)
    requires
        values_eq(h, xs, ys, i) is Some,
    ensures
        values_eq_at(h, xs, ys, i, fuel) == values_eq(h, xs, ys, i),
    decreases xs.len() - i,
{
    if 0 <= i < xs.len() {
        let first = choose|f: nat| #[trigger] eq_at(h, xs[i], ys[i], f) is Some;
        lemma_eq_value(h, xs[i], ys[i], first);
        if eq_value(h, xs[i], ys[i]) == Some(true) {
            let rest = lemma_row_steps(h, xs, ys, i + 1);
            let fuel = if first <= rest {
                rest
            } else {
                first
            };
            lemma_eq_mono(h, xs[i], ys[i], first, fuel);
            lemma_values_eq_mono(h, xs, ys, i + 1, rest, fuel);
            fuel
        } else {
            first
        }
    } else {
        0
    }
}

/// Two arrays are equal if they are of one length and their elements are equal in
/// turn, and there is an answer exactly if these comparisons have one.
pub proof fn law_arrays_compare_by_elements(h: HeapState, a: usize, b: usize)
    requires
        a < h.arrays.len(),
        b < h.arrays.len(),
        h.arrays[a as int].obj.vec < h.vecs.len(),
        h.arrays[b as int].obj.vec < h.vecs.len(),
    ensures
        eq_value(h, GosValue::Array(a), GosValue::Array(b)) == h.arrays[a as int].obj.spec_eq(
            h,
            h.arrays[b as int].obj,
        ),
{
    let x = GosValue::Array(a);
    let y = GosValue::Array(b);
    let v = h.arrays[a as int].obj.vec;
    let w = h.arrays[b as int].obj.vec;
    let xs = h.vecs[v as int];
    let ys = h.vecs[w as int];
    if xs.len() != ys.len() {
        assert(stores_eq_at(h, v, w, 1) == Some(false));
        assert(arrays_eq_at(h, a, b, 2) == Some(false));
        assert(eq_at(h, x, y, 3) == Some(false));
        lemma_eq_value(h, x, y, 3);
    } else if values_eq(h, xs, ys, 0) is Some {
        let fuel = lemma_row_steps(h, xs, ys, 0);
        assert(stores_eq_at(h, v, w, fuel + 1) is Some);
        assert(arrays_eq_at(h, a, b, fuel + 2) is Some);
        assert(eq_at(h, x, y, fuel + 3) is Some);
        lemma_eq_value(h, x, y, fuel + 3);
    } else if eq_value(h, x, y) is Some {
        let fuel = choose|f: nat| #[trigger] eq_at(h, x, y, f) is Some;
        lemma_eq_value(h, x, y, fuel);
        assert(stores_eq_at(h, v, w, (fuel - 2) as nat) is Some);
        lemma_row_from_steps(h, xs, ys, 0, (fuel - 3) as nat);
    }
}

/// Two structs are equal if their fields are equal in turn, as far as the first has
/// fields, and there is an answer exactly if these comparisons have one.
pub proof fn law_structs_compare_by_fields(h: HeapState, a: usize, b: usize)
    requires
        a < h.structs.len(),
        b < h.structs.len(),
    ensures
        eq_value(h, GosValue::Struct(a), GosValue::Struct(b)) == values_eq(
            h,
            h.structs[a as int].obj,
            h.structs[b as int].obj,
            0,
        ),
{
    let x = GosValue::Struct(a);
    let y = GosValue::Struct(b);
    let xs = h.structs[a as int].obj;
    let ys = h.structs[b as int].obj;
    if values_eq(h, xs, ys, 0) is Some {
        let fuel = lemma_row_steps(h, xs, ys, 0);
        assert(structs_eq_at(h, a, b, fuel + 1) is Some);
        assert(eq_at(h, x, y, fuel + 2) is Some);
        lemma_eq_value(h, x, y, fuel + 2);
    } else if eq_value(h, x, y) is Some {
        let fuel = choose|f: nat| #[trigger] eq_at(h, x, y, f) is Some;
        lemma_eq_value(h, x, y, fuel);
        lemma_row_from_steps(h, xs, ys, 0, (fuel - 2) as nat);
    }
}

/// Two interfaces are equal if what they hold is.
pub proof fn law_interfaces_compare_by_what_they_hold(h: HeapState, a: usize, b: usize)
    requires
        a < h.ifaces.len(),
        b < h.ifaces.len(),
    ensures
        eq_value(h, GosValue::Interface(a), GosValue::Interface(b)) == ifaces_eq(
            h,
            h.ifaces[a as int].obj,
            h.ifaces[b as int].obj,
        ),
{
    let x = GosValue::Interface(a);
    let y = GosValue::Interface(b);
    match (h.ifaces[a as int].obj, h.ifaces[b as int].obj) {
        (InterfaceObj::Gos(v, _), InterfaceObj::Gos(w, _)) => {
            if eq_value(h, v, w) is Some {
                let fuel = choose|f: nat| #[trigger] eq_at(h, v, w, f) is Some;
                lemma_eq_value(h, v, w, fuel);
                assert(ifaces_eq_at(h, a, b, fuel + 1) is Some);
                assert(eq_at(h, x, y, fuel + 2) is Some);
                lemma_eq_value(h, x, y, fuel + 2);
            } else if eq_value(h, x, y) is Some {
                let fuel = choose|f: nat| #[trigger] eq_at(h, x, y, f) is Some;
                lemma_eq_value(h, v, w, (fuel - 2) as nat);
            }
        },
        _ => {
            assert(ifaces_eq_at(h, a, b, 1) is Some);
            assert(eq_at(h, x, y, 2) is Some);
            lemma_eq_value(h, x, y, 2);
        },
    }
}

/// Two pointers to local variables are equal if their up values are.
pub proof fn law_variable_pointers_compare_by_up_value(h: HeapState, a: UpValue, b: UpValue)
    ensures
        eq_value(
            h,
            GosValue::Pointer(PointerObj::UpVal(a)),
            GosValue::Pointer(PointerObj::UpVal(b)),
        ) == upvalues_eq(h, a, b),
{
    let x = GosValue::Pointer(PointerObj::UpVal(a));
    let y = GosValue::Pointer(PointerObj::UpVal(b));
    let p = PointerObj::UpVal(a);
    let q = PointerObj::UpVal(b);
    if upvalues_eq(h, a, b) is Some {
        let fuel: nat = if a.inner != b.inner && a.state(h) is Closed && b.state(h) is Closed {
            let v = a.state(h)->Closed_0;
            let w = b.state(h)->Closed_0;
            let fuel = choose|f: nat| #[trigger] eq_at(h, v, w, f) is Some;
            lemma_eq_value(h, v, w, fuel);
            fuel
        } else {
            0
        };
        assert(upvalues_eq_at(h, a.inner, b.inner, fuel + 1) == upvalues_eq(h, a, b));
        assert(pointers_eq_at(h, p, q, fuel + 2) == upvalues_eq(h, a, b));
        assert(eq_at(h, x, y, fuel + 3) is Some);
        lemma_eq_value(h, x, y, fuel + 3);
    } else if eq_value(h, x, y) is Some {
        let fuel = choose|f: nat| #[trigger] eq_at(h, x, y, f) is Some;
        lemma_eq_value(h, x, y, fuel);
        assert(pointers_eq_at(h, p, q, (fuel - 1) as nat) is Some);
        assert(upvalues_eq_at(h, a.inner, b.inner, (fuel - 2) as nat) is Some);
        let v = a.state(h)->Closed_0;
        let w = b.state(h)->Closed_0;
        lemma_eq_value(h, v, w, (fuel - 3) as nat);
    }
}

/// Two strings are equal if they read the same.
pub proof fn law_strings_compare_by_bytes(h: HeapState, a: usize, b: usize)
    ensures
        eq_value(h, GosValue::Str(a), GosValue::Str(b)) == strings_eq(h, a, b),
{
    let x = GosValue::Str(a);
    let y = GosValue::Str(b);
    if strings_eq(h, a, b) is Some {
        assert(eq_at(h, x, y, 1) is Some);
        lemma_eq_value(h, x, y, 1);
    } else {
        assert forall|f: nat| #[trigger] eq_at(h, x, y, f) is None by {
        }
    }
}

/// Rows that are equal are so place by place, and where they are not, there is a first place at
/// which they differ.
pub proof fn law_rows_compare_place_by_place(
    h: HeapState,
    xs: Seq<GosValue>,
    ys: Seq<GosValue>,
    i: int,
)
    requires
        0 <= i <= xs.len(),
        values_eq(h, xs, ys, i) is Some,
    ensures
        values_eq(h, xs, ys, i) == Some(true) ==> forall|k: int|
            i <= k < xs.len() ==> k < ys.len() && eq_value(h, #[trigger] xs[k], ys[k]) == Some(
                true,
            ),
        values_eq(h, xs, ys, i) == Some(false) ==> exists|k: int|
            i <= k < xs.len() && k < ys.len() && eq_value(h, #[trigger] xs[k], ys[k]) == Some(
                false,
            ) && forall|m: int|
                i <= m < k ==> eq_value(h, #[trigger] xs[m], ys[m]) == Some(true),
    decreases xs.len() - i,
{
    if i < xs.len() {
        if eq_value(h, xs[i], ys[i]) == Some(true) {
            law_rows_compare_place_by_place(h, xs, ys, i + 1);
            if values_eq(h, xs, ys, i) == Some(false) {
                let k = choose|k: int|
                    i + 1 <= k < xs.len() && k < ys.len() && eq_value(h, #[trigger] xs[k], ys[k])
                        == Some(false) && forall|m: int|
                        i + 1 <= m < k ==> eq_value(h, #[trigger] xs[m], ys[m]) == Some(true);
                assert(eq_value(h, xs[k], ys[k]) == Some(false));
            }
        } else {
            assert(eq_value(h, xs[i], ys[i]) == Some(false));
        }
    }
}

/// Rows that are equal at each place are equal, and rows that differ at a place before which they
/// are equal are not.
pub proof fn law_what_makes_rows_equal(
    h: HeapState,
    xs: Seq<GosValue>,
    ys: Seq<GosValue>,
    i: int,
    end: int,
)
    requires
        0 <= i <= end <= xs.len(),
        end <= ys.len(),
        forall|m: int| i <= m < end ==> eq_value(h, #[trigger] xs[m], ys[m]) == Some(true),
    ensures
        end == xs.len() ==> values_eq(h, xs, ys, i) == Some(true),
        end < xs.len() && end < ys.len() && eq_value(h, xs[end], ys[end]) == Some(false)
            ==> values_eq(h, xs, ys, i) == Some(false),
    decreases end - i,
{
    if i < end {
        assert(eq_value(h, xs[i], ys[i]) == Some(true));
        law_what_makes_rows_equal(h, xs, ys, i + 1, end);
    }
}

/// Arrays are equal exactly if they are of one length and equal at each place: those of different
/// lengths differ, equal ones have equal elements, and equal elements make them equal.
pub proof fn law_when_arrays_are_equal(h: HeapState, a: usize, b: usize, i: int)
    requires
        a < h.arrays.len(),
        b < h.arrays.len(),
        h.arrays[a as int].obj.vec < h.vecs.len(),
        h.arrays[b as int].obj.vec < h.vecs.len(),
    ensures
        ({
            let xs = h.vecs[h.arrays[a as int].obj.vec as int];
            let ys = h.vecs[h.arrays[b as int].obj.vec as int];
            let same = eq_value(h, GosValue::Array(a), GosValue::Array(b));
            &&& xs.len() != ys.len() ==> same == Some(false)
            &&& same == Some(true) && 0 <= i < xs.len() ==> eq_value(h, xs[i], ys[i]) == Some(true)
            &&& xs.len() == ys.len() && (forall|m: int|
                0 <= m < xs.len() ==> eq_value(h, #[trigger] xs[m], ys[m]) == Some(true))
                ==> same == Some(true)
            &&& xs.len() == ys.len() && 0 <= i < xs.len() && eq_value(h, xs[i], ys[i]) == Some(
                false,
            ) && (forall|m: int|
                0 <= m < i ==> eq_value(h, #[trigger] xs[m], ys[m]) == Some(true)) ==> same == Some(
                false,
            )
        }),
{
    let xs = h.vecs[h.arrays[a as int].obj.vec as int];
    let ys = h.vecs[h.arrays[b as int].obj.vec as int];
    law_arrays_compare_by_elements(h, a, b);
    if xs.len() == ys.len() {
        if values_eq(h, xs, ys, 0) is Some {
            law_rows_compare_place_by_place(h, xs, ys, 0);
        }
        if forall|m: int| 0 <= m < xs.len() ==> eq_value(h, #[trigger] xs[m], ys[m]) == Some(true) {
            law_what_makes_rows_equal(h, xs, ys, 0, xs.len() as int);
        }
        if 0 <= i < xs.len() && (forall|m: int|
            0 <= m < i ==> eq_value(h, #[trigger] xs[m], ys[m]) == Some(true)) {
            law_what_makes_rows_equal(h, xs, ys, 0, i);
        }
    }
}

/// Structs are equal exactly if the second has a field for each of the first and these are equal:
/// equal structs have equal fields, and equal fields make them equal.
pub proof fn law_when_structs_are_equal(h: HeapState, a: usize, b: usize, i: int)
    requires
        a < h.structs.len(),
        b < h.structs.len(),
    ensures
        ({
            let xs = h.structs[a as int].obj;
            let ys = h.structs[b as int].obj;
            let same = eq_value(h, GosValue::Struct(a), GosValue::Struct(b));
            &&& same == Some(true) && 0 <= i < xs.len() ==> i < ys.len() && eq_value(
                h,
                xs[i],
                ys[i],
            ) == Some(true)
            &&& xs.len() <= ys.len() && (forall|m: int|
                0 <= m < xs.len() ==> eq_value(h, #[trigger] xs[m], ys[m]) == Some(true))
                ==> same == Some(true)
            &&& 0 <= i < xs.len() && i < ys.len() && eq_value(h, xs[i], ys[i]) == Some(false) && (
            forall|m: int| 0 <= m < i ==> eq_value(h, #[trigger] xs[m], ys[m]) == Some(true))
                ==> same == Some(false)
        }),
{
    let xs = h.structs[a as int].obj;
    let ys = h.structs[b as int].obj;
    law_structs_compare_by_fields(h, a, b);
    if values_eq(h, xs, ys, 0) is Some {
        law_rows_compare_place_by_place(h, xs, ys, 0);
    }
    if xs.len() <= ys.len() && (forall|m: int|
        0 <= m < xs.len() ==> eq_value(h, #[trigger] xs[m], ys[m]) == Some(true)) {
        law_what_makes_rows_equal(h, xs, ys, 0, xs.len() as int);
    }
    if 0 <= i < xs.len() && i < ys.len() && (forall|m: int|
        0 <= m < i ==> eq_value(h, #[trigger] xs[m], ys[m]) == Some(true)) {
        law_what_makes_rows_equal(h, xs, ys, 0, i);
    }
}

/// Values of different kinds are not equal.
pub proof fn law_values_of_different_kinds_differ(h: HeapState, x: GosValue, y: GosValue)
    requires
        ({
            ||| x is Nil && !(y is Nil)
            ||| x is Scalar && !(y is Scalar)
            ||| x is Str && !(y is Str)
            ||| x is Function && !(y is Function)
            ||| x is Package && !(y is Package)
            ||| x is Metadata && !(y is Metadata)
            ||| x is Array && !(y is Array)
            ||| x is Slice && !(y is Slice)
            ||| x is GosMap && !(y is GosMap)
            ||| x is Struct && !(y is Struct)
            ||| x is Interface && !(y is Interface)
            ||| x is Closure && !(y is Closure)
            ||| x is Channel && !(y is Channel)
            ||| x is Pointer && !(y is Pointer)
            ||| x is UnsafePtr && !(y is UnsafePtr)
        }),
    ensures
        eq_value(h, x, y) == Some(false),
{
    assert(eq_at(h, x, y, 1) == Some(false));
    lemma_eq_value(h, x, y, 1);
}

/// Slices, maps, closures and channels are equal if they are one object. Strings are equal if
/// they have the same bytes. Numbers and truth values are equal if they are of one type and have
/// the same bits.
pub proof fn law_values_compare_by_identity(
    h: HeapState,
    a: usize,
    b: usize,
    t: ValueType,
    u: ValueType,
    m: u64,
    n: u64,
)
    ensures
        eq_value(h, GosValue::Slice(a), GosValue::Slice(b)) == Some(a == b),
        eq_value(h, GosValue::GosMap(a), GosValue::GosMap(b)) == Some(a == b),
        eq_value(h, GosValue::Closure(a), GosValue::Closure(b)) == Some(a == b),
        eq_value(h, GosValue::Channel(a), GosValue::Channel(b)) == Some(a == b),
        eq_value(h, GosValue::Scalar(t, m), GosValue::Scalar(u, n)) == Some(t == u && m == n),
        a < h.strs.len() && b < h.strs.len() && h.strs[a as int].fits() && h.strs[b as int].fits()
            ==> eq_value(h, GosValue::Str(a), GosValue::Str(b)) == Some(
            h.strs[a as int].bytes() == h.strs[b as int].bytes(),
        ),
{
    assert(eq_at(h, GosValue::Slice(a), GosValue::Slice(b), 3) is Some);
    assert(eq_at(h, GosValue::GosMap(a), GosValue::GosMap(b), 3) is Some);
    assert(eq_at(h, GosValue::Closure(a), GosValue::Closure(b), 3) is Some);
    assert(eq_at(h, GosValue::Channel(a), GosValue::Channel(b), 3) is Some);
    assert(eq_at(h, GosValue::Scalar(t, m), GosValue::Scalar(u, n), 3) is Some);
    law_strings_compare_by_bytes(h, a, b);
}

/// Interfaces that hold values are equal if the values are, and those on foreign objects if it is
/// one object. One of each kind are not equal.
pub proof fn law_when_interfaces_are_equal(h: HeapState, a: usize, b: usize)
    requires
        a < h.ifaces.len(),
        b < h.ifaces.len(),
    ensures
        eq_value(h, GosValue::Interface(a), GosValue::Interface(b)) == match (
            h.ifaces[a as int].obj,
            h.ifaces[b as int].obj,
        ) {
            (InterfaceObj::Gos(x, _), InterfaceObj::Gos(y, _)) => eq_value(h, x, y),
            (InterfaceObj::Ffi(x), InterfaceObj::Ffi(y)) => Some(x.ffi_obj == y.ffi_obj),
            (InterfaceObj::Gos(_, _), InterfaceObj::Ffi(_)) => Some(false),
            (InterfaceObj::Ffi(_), InterfaceObj::Gos(_, _)) => Some(false),
        },
{
    law_interfaces_compare_by_what_they_hold(h, a, b);
}

/// Up values are equal if they are one, if they are open on variables with one number, or if they
/// are closed on equal values. An open one and a closed one are not equal.
pub proof fn law_when_up_values_are_equal(h: HeapState, a: UpValue, b: UpValue)
    ensures
        a.inner == b.inner ==> upvalues_eq(h, a, b) == Some(true),
        a.inner != b.inner && a.inner < h.upvalues.len() && b.inner < h.upvalues.len()
            ==> match (h.upvalues[a.inner as int], h.upvalues[b.inner as int]) {
            (Some(UpValueState::Open(d)), Some(UpValueState::Open(e))) => upvalues_eq(h, a, b)
                == Some(d.index == e.index),
            (Some(UpValueState::Closed(x)), Some(UpValueState::Closed(y))) => upvalues_eq(h, a, b)
                == eq_value(h, x, y),
            (Some(_), Some(_)) => upvalues_eq(h, a, b) == Some(false),
            _ => true,
        },
{
}

/// Pointers at elements, fields and package members are equal if they point at one place, and
/// pointers at slices and maps if they point at one object, without an answer where they do not.
/// Pointers of different kinds are not equal.
pub proof fn law_pointers_compare_by_place(
    h: HeapState,
    a: usize,
    b: usize,
    i: OpIndex,
    j: OpIndex,
    k: PackageKey,
    l: PackageKey,
)
    ensures
        pointers_eq(h, PointerObj::SliceMember(a, i), PointerObj::SliceMember(b, j)) == Some(
            a == b && i == j,
        ),
        pointers_eq(h, PointerObj::StructField(a, i), PointerObj::StructField(b, j)) == Some(
            a == b && i == j,
        ),
        pointers_eq(h, PointerObj::PkgMember(k, i), PointerObj::PkgMember(l, j)) == Some(
            k == l && i == j,
        ),
        pointers_eq(h, PointerObj::Slice(a), PointerObj::Slice(b)) == (if a == b {
            Some(true)
        } else {
            None
        }),
        pointers_eq(h, PointerObj::GosMap(a), PointerObj::GosMap(b)) == (if a == b {
            Some(true)
        } else {
            None
        }),
        pointers_eq(h, PointerObj::Struct(a), PointerObj::StructField(b, j)) == Some(false),
        pointers_eq(h, PointerObj::Slice(a), PointerObj::SliceMember(b, j)) == Some(false),
        pointers_eq(h, PointerObj::Struct(a), PointerObj::Array(b)) == Some(false),
{
    lemma_pointers_at_three(h, PointerObj::SliceMember(a, i), PointerObj::SliceMember(b, j));
    lemma_pointers_at_three(h, PointerObj::StructField(a, i), PointerObj::StructField(b, j));
    lemma_pointers_at_three(h, PointerObj::PkgMember(k, i), PointerObj::PkgMember(l, j));
    lemma_pointers_at_three(h, PointerObj::Slice(a), PointerObj::Slice(b));
    lemma_pointers_at_three(h, PointerObj::GosMap(a), PointerObj::GosMap(b));
    lemma_pointers_at_three(h, PointerObj::Struct(a), PointerObj::StructField(b, j));
    lemma_pointers_at_three(h, PointerObj::Slice(a), PointerObj::SliceMember(b, j));
    lemma_pointers_at_three(h, PointerObj::Struct(a), PointerObj::Array(b));
    if a != b {
        let p = GosValue::Pointer(PointerObj::Slice(a));
        let q = GosValue::Pointer(PointerObj::Slice(b));
        assert forall|f: nat| #[trigger] eq_at(h, p, q, f) is None by {
            if f > 0 {
                assert(pointers_eq_at(
                    h,
                    PointerObj::Slice(a),
                    PointerObj::Slice(b),
                    (f - 1) as nat,
                ) is None);
            }
        }
        let p = GosValue::Pointer(PointerObj::GosMap(a));
        let q = GosValue::Pointer(PointerObj::GosMap(b));
        assert forall|f: nat| #[trigger] eq_at(h, p, q, f) is None by {
            if f > 0 {
                assert(pointers_eq_at(
                    h,
                    PointerObj::GosMap(a),
                    PointerObj::GosMap(b),
                    (f - 1) as nat,
                ) is None);
            }
        }
    }
}

/// Whether two pointers are equal.
pub open spec fn pointers_eq(h: HeapState, p: PointerObj, q: PointerObj) -> Option<bool> {
    eq_value(h, GosValue::Pointer(p), GosValue::Pointer(q))
}

proof fn lemma_pointers_at_three(h: HeapState, p: PointerObj, q: PointerObj)
    ensures
        pointers_eq_at(h, p, q, 2) is Some ==> pointers_eq(h, p, q) == pointers_eq_at(h, p, q, 2),
{
    assert(eq_at(h, GosValue::Pointer(p), GosValue::Pointer(q), 3) == pointers_eq_at(h, p, q, 2));
}

/// Pointers at one struct are equal, and so are pointers at one array. Those at two structs or two
/// arrays are equal if these are equal and have the same count of references.
pub proof fn law_pointers_at_structs_and_arrays(h: HeapState, a: usize, b: usize)
    requires
        a < h.structs.len() && b < h.structs.len() || a == b,
    ensures
        pointers_eq(h, PointerObj::Struct(a), PointerObj::Struct(b)) == (if a == b {
            Some(true)
        } else {
            match eq_value(h, GosValue::Struct(a), GosValue::Struct(b)) {
                Some(true) => Some(h.structs[a as int].rc == h.structs[b as int].rc),
                other => other,
            }
        }),
        a == b ==> pointers_eq(h, PointerObj::Array(a), PointerObj::Array(b)) == Some(true),
        a != b && a < h.arrays.len() && b < h.arrays.len() ==> pointers_eq(
            h,
            PointerObj::Array(a),
            PointerObj::Array(b),
        ) == (match eq_value(h, GosValue::Array(a), GosValue::Array(b)) {
            Some(true) => Some(h.arrays[a as int].rc == h.arrays[b as int].rc),
            other => other,
        }),
{
    if a == b {
        lemma_pointers_at_three(h, PointerObj::Struct(a), PointerObj::Struct(b));
        lemma_pointers_at_three(h, PointerObj::Array(a), PointerObj::Array(b));
    } else {
        let x = GosValue::Struct(a);
        let y = GosValue::Struct(b);
        let p = PointerObj::Struct(a);
        let q = PointerObj::Struct(b);
        assert forall|f: nat| #[trigger] eq_at(h, x, y, f) is Some implies pointers_eq_at(
            h,
            p,
            q,
            f,
        ) == and_then(eq_at(h, x, y, f), h.structs[a as int].rc == h.structs[b as int].rc) by {
        }
        if eq_value(h, x, y) is Some {
            let f = choose|f: nat| #[trigger] eq_at(h, x, y, f) is Some;
            lemma_eq_value(h, x, y, f);
            assert(eq_at(h, GosValue::Pointer(p), GosValue::Pointer(q), f + 1) == pointers_eq_at(
                h,
                p,
                q,
                f,
            ));
            lemma_eq_value(h, GosValue::Pointer(p), GosValue::Pointer(q), f + 1);
        } else if pointers_eq(h, p, q) is Some {
            let f = choose|f: nat| #[trigger]
                eq_at(h, GosValue::Pointer(p), GosValue::Pointer(q), f) is Some;
            lemma_eq_value(h, GosValue::Pointer(p), GosValue::Pointer(q), f);
            assert(pointers_eq_at(h, p, q, (f - 1) as nat) is Some);
            assert(eq_at(h, x, y, (f - 1) as nat) is Some);
        }
        if a < h.arrays.len() && b < h.arrays.len() {
            let x = GosValue::Array(a);
            let y = GosValue::Array(b);
            let p = PointerObj::Array(a);
            let q = PointerObj::Array(b);
            if eq_value(h, x, y) is Some {
                let f = choose|f: nat| #[trigger] eq_at(h, x, y, f) is Some;
                lemma_eq_value(h, x, y, f);
                assert(pointers_eq_at(h, p, q, f) is Some);
                assert(eq_at(h, GosValue::Pointer(p), GosValue::Pointer(q), f + 1)
                    == pointers_eq_at(h, p, q, f));
                lemma_eq_value(h, GosValue::Pointer(p), GosValue::Pointer(q), f + 1);
            } else if pointers_eq(h, p, q) is Some {
                let f = choose|f: nat| #[trigger]
                    eq_at(h, GosValue::Pointer(p), GosValue::Pointer(q), f) is Some;
                lemma_eq_value(h, GosValue::Pointer(p), GosValue::Pointer(q), f);
                assert(pointers_eq_at(h, p, q, (f - 1) as nat) is Some);
                assert(eq_at(h, x, y, (f - 1) as nat) is Some);
            }
        }
    }
}

/// Untyped pointers are equal if they were made from pointers and these are equal. Data of an
/// extension equals nothing.
pub proof fn law_when_untyped_pointers_are_equal(h: HeapState, a: usize, b: usize)
    requires
        a < h.unsafes.len(),
        b < h.unsafes.len(),
    ensures
        eq_value(h, GosValue::UnsafePtr(a), GosValue::UnsafePtr(b)) == match (
            h.unsafes[a as int],
            h.unsafes[b as int],
        ) {
            (UnsafeData::Handle(x), UnsafeData::Handle(y)) => pointers_eq(h, y.ptr, x.ptr),
            _ => Some(false),
        },
{
    let x = GosValue::UnsafePtr(a);
    let y = GosValue::UnsafePtr(b);
    match (h.unsafes[a as int], h.unsafes[b as int]) {
        (UnsafeData::Handle(v), UnsafeData::Handle(w)) => {
            let p = GosValue::Pointer(w.ptr);
            let q = GosValue::Pointer(v.ptr);
            if eq_value(h, p, q) is Some {
                let f = choose|f: nat| #[trigger] eq_at(h, p, q, f) is Some;
                lemma_eq_value(h, p, q, f);
                assert(unsafes_eq_at(h, a, b, f) == eq_at(h, p, q, f));
                assert(eq_at(h, x, y, f + 1) == unsafes_eq_at(h, a, b, f));
                lemma_eq_value(h, x, y, f + 1);
            } else if eq_value(h, x, y) is Some {
                let f = choose|f: nat| #[trigger] eq_at(h, x, y, f) is Some;
                assert(unsafes_eq_at(h, a, b, (f - 1) as nat) is Some);
                assert(eq_at(h, p, q, (f - 1) as nat) is Some);
            }
        },
        _ => {
            assert(unsafes_eq_at(h, a, b, 1) == Some(false));
            assert(eq_at(h, x, y, 2) == Some(false));
            lemma_eq_value(h, x, y, 2);
        },
    }
}

} // verus!
