//! Copying of values.
//!
//! An assignment copies arrays and structs, with the arrays and structs in them. A
//! slice gets a window of its own into the same store, a map a handle of its own on
//! the same entries. All other values stay what they are.
use vstd::prelude::*;

use crate::array_obj::ArrayObj;
use crate::heap::{Heap, HeapState};
use crate::struct_obj::StructObj;
use crate::value::{copy_values, GosValue};

verus! {

/// The heap after copying `x`, and the copy, if that takes at most `fuel` steps.
pub open spec fn copy_at(h: HeapState, x: GosValue, fuel: nat) -> Option<(HeapState, GosValue)>
    decreases fuel, 0nat,
{
    if fuel == 0 {
        None
    } else {
        let less = (fuel - 1) as nat;
        match x {
            GosValue::Array(id) => if id < h.arrays.len() && h.arrays[id as int].obj.vec
                < h.vecs.len() {
                match values_copy_at(h, h.vecs[h.arrays[id as int].obj.vec as int], 0, less) {
                    Some((h1, copies)) => Some(
                        (with_new_array(h1, copies), GosValue::Array(h1.arrays.len() as usize)),
                    ),
                    None => None,
                }
            } else {
                None
            },
            GosValue::Struct(id) => if id < h.structs.len() {
                match values_copy_at(h, h.structs[id as int].obj, 0, less) {
                    Some((h1, copies)) => Some(
                        (h1.plus_struct(copies), GosValue::Struct(h1.structs.len() as usize)),
                    ),
                    None => None,
                }
            } else {
                None
            },
            GosValue::Slice(id) => if id < h.slices.len() {
                Some(
                    (
                        h.plus_slice(h.slices[id as int].obj),
                        GosValue::Slice(h.slices.len() as usize),
                    ),
                )
            } else {
                None
            },
            GosValue::GosMap(id) => if id < h.maps.len() {
                Some(
                    (h.plus_map(h.maps[id as int].obj), GosValue::GosMap(h.maps.len() as usize)),
                )
            } else {
                None
            },
            other => Some((h, other)),
        }
    }
}

/// The heap with one more array that has the elements `vals`.
pub open spec fn with_new_array(h: HeapState, vals: Seq<GosValue>) -> HeapState {
    h.plus_vec(vals).plus_array(ArrayObj { vec: h.vecs.len() as usize })
}

/// The heap after copying the values of `xs` from place `i` on in their order, and
/// the copies.
pub open spec fn values_copy_at(h: HeapState, xs: Seq<GosValue>, i: int, fuel: nat) -> Option<
    (HeapState, Seq<GosValue>),
>
    decreases fuel, (if i < xs.len() { 1 + xs.len() - i } else { 1 }) as nat,
{
    if i >= xs.len() {
        Some((h, Seq::empty()))
    } else {
        match copy_at(h, xs[i], fuel) {
            Some((h1, first)) => match values_copy_at(h1, xs, i + 1, fuel) {
                Some((h2, rest)) => Some((h2, seq![first] + rest)),
                None => None,
            },
            None => None,
        }
    }
}

/// More steps do not change the copy.
pub proof fn lemma_copy_mono(h: HeapState, x: GosValue, fuel: nat, more: nat)
    requires
        fuel <= more,
        copy_at(h, x, fuel) is Some,
    ensures
        copy_at(h, x, more) == copy_at(h, x, fuel),
    decreases fuel, 0nat,
{
    let f = (fuel - 1) as nat;
    let m = (more - 1) as nat;
    match x {
        GosValue::Array(id) => {
            lemma_values_copy_mono(h, h.vecs[h.arrays[id as int].obj.vec as int], 0, f, m);
        },
        GosValue::Struct(id) => lemma_values_copy_mono(h, h.structs[id as int].obj, 0, f, m),
        _ => {},
    }
}

proof fn lemma_values_copy_mono(h: HeapState, xs: Seq<GosValue>, i: int, fuel: nat, more: nat)
    requires
        fuel <= more,
        values_copy_at(h, xs, i, fuel) is Some,
    ensures
        values_copy_at(h, xs, i, more) == values_copy_at(h, xs, i, fuel),
    decreases fuel, (if i < xs.len() { 1 + xs.len() - i } else { 1 }) as nat,
{
    if i < xs.len() {
        lemma_copy_mono(h, xs[i], fuel, more);
        lemma_values_copy_mono((copy_at(h, xs[i], fuel)->0).0, xs, i + 1, fuel, more);
    }
}

/// The heap after copying `x`, and the copy, if copying comes to an end. One step is
/// enough where there are no elements or fields to copy.
pub open spec fn copy_value(h: HeapState, x: GosValue) -> Option<(HeapState, GosValue)> {
    if copy_at(h, x, 1) is Some {
        copy_at(h, x, 1)
    } else if exists|fuel: nat| #[trigger] copy_at(h, x, fuel) is Some {
        copy_at(h, x, choose|fuel: nat| #[trigger] copy_at(h, x, fuel) is Some)
    } else {
        None
    }
}

/// Any number of steps that is enough gives the copy.
pub proof fn lemma_copy_value(h: HeapState, x: GosValue, fuel: nat)
    requires
        copy_at(h, x, fuel) is Some,
    ensures
        copy_value(h, x) == copy_at(h, x, fuel),
{
    let chosen = if copy_at(h, x, 1) is Some {
        1
    } else {
        choose|f: nat| #[trigger] copy_at(h, x, f) is Some
    };
    if chosen <= fuel {
        lemma_copy_mono(h, x, chosen, fuel);
    } else {
        lemma_copy_mono(h, x, fuel, chosen);
    }
}

/// The heap after copying `x` a number of times, and the copies. Where a copy is the
/// value itself, so are all copies.
pub open spec fn repeated_copy(h: HeapState, x: GosValue, count: nat) -> Option<
    (HeapState, Seq<GosValue>),
>
    decreases count,
{
    if copy_value(h, x) == Some((h, x)) {
        Some((h, Seq::new(count, |i: int| x)))
    } else if count == 0 {
        Some((h, Seq::empty()))
    } else {
        match repeated_copy(h, x, (count - 1) as nat) {
            Some((h1, copies)) => match copy_value(h1, x) {
                Some((h2, last)) => Some((h2, copies.push(last))),
                None => None,
            },
            None => None,
        }
    }
}

/// Puts an array with the given elements on the heap.
pub(crate) fn new_array(heap: &mut Heap, vals: Vec<GosValue>) -> (val: GosValue)
    ensures
        final(heap)@ == with_new_array(old(heap)@, vals@),
        val == GosValue::Array(old(heap)@.arrays.len() as usize),
{
    let vec: usize = heap.alloc_vec(vals);
    let id: usize = heap.alloc_array(ArrayObj { vec });
    GosValue::Array(id)
}

fn value_copy_within(heap: &mut Heap, x: &GosValue, Ghost(fuel): Ghost<nat>) -> (copy: GosValue)
    requires
        copy_at(old(heap)@, *x, fuel) is Some,
    ensures
        copy_at(old(heap)@, *x, fuel)->0 == (final(heap)@, copy),
    decreases fuel, 0nat,
{
    let ghost less = (fuel - 1) as nat;
    match x {
        GosValue::Array(id) => {
            let vals: Vec<GosValue> = copy_values(heap.vec(heap.arrays[*id].obj.vec));
            let copies: Vec<GosValue> = values_copy_within(heap, &vals, Ghost(less));
            new_array(heap, copies)
        },
        GosValue::Struct(id) => {
            let vals: Vec<GosValue> = copy_values(heap.fields(*id));
            let copies: Vec<GosValue> = values_copy_within(heap, &vals, Ghost(less));
            GosValue::Struct(heap.alloc_struct(StructObj { fields: copies }))
        },
        GosValue::Slice(id) => {
            let obj = heap.slices[*id].obj;
            GosValue::Slice(heap.alloc_slice(obj))
        },
        GosValue::GosMap(id) => {
            let obj = heap.maps[*id].obj;
            GosValue::GosMap(heap.alloc_map(obj))
        },
        other => *other,
    }
}

fn values_copy_within(heap: &mut Heap, xs: &Vec<GosValue>, Ghost(fuel): Ghost<nat>) -> (copies:
    Vec<GosValue>)
    requires
        values_copy_at(old(heap)@, xs@, 0, fuel) is Some,
    ensures
        values_copy_at(old(heap)@, xs@, 0, fuel)->0 == (final(heap)@, copies@),
    decreases fuel, 1nat,
{
    let ghost all = values_copy_at(heap@, xs@, 0, fuel)->0;
    let mut copies: Vec<GosValue> = Vec::with_capacity(xs.len());
    let mut i: usize = 0;
    assert(copies@ + all.1 =~= all.1);
    while i < xs.len()
        invariant
            i <= xs.len(),
            values_copy_at(heap@, xs@, i as int, fuel) is Some,
            (values_copy_at(heap@, xs@, i as int, fuel)->0).0 == all.0,
            copies@ + (values_copy_at(heap@, xs@, i as int, fuel)->0).1 == all.1,
        decreases xs.len() - i,
    {
        let ghost done = copies@;
        let copy = value_copy_within(heap, &xs[i], Ghost(fuel));
        copies.push(copy);
        proof {
            let rest = (values_copy_at(heap@, xs@, i + 1, fuel)->0).1;
            assert(done + (seq![copy] + rest) =~= copies@ + rest);
        }
        i = i + 1;
    }
    assert(copies@ =~= all.1);
    copies
}

impl GosValue {
    /// Copies the value as an assignment does.
    pub fn copy_semantic(&self, heap: &mut Heap) -> (copy: GosValue)
        requires
            copy_value(old(heap)@, *self) is Some,
        ensures
            copy_value(old(heap)@, *self)->0 == (final(heap)@, copy),
    {
        let ghost fuel = choose|f: nat| #[trigger] copy_at(heap@, *self, f) is Some;
        proof {
            lemma_copy_value(heap@, *self, fuel);
        }
        value_copy_within(heap, self, Ghost(fuel))
    }
}

/// Whether `b` is `a`, maybe with more behind it.
pub open spec fn grows<T>(a: Seq<T>, b: Seq<T>) -> bool {
    &&& a.len() <= b.len()
    &&& forall|i: int| 0 <= i < a.len() ==> #[trigger] b[i] == a[i]
}

/// Whether all that is on the heap `h` is on the heap `g` unchanged, where `g` may
/// hold more stores, arrays, slices, structs and maps, and nothing else.
pub open spec fn extends(h: HeapState, g: HeapState) -> bool {
    &&& grows(h.vecs, g.vecs)
    &&& grows(h.arrays, g.arrays)
    &&& grows(h.slices, g.slices)
    &&& grows(h.structs, g.structs)
    &&& grows(h.maps, g.maps)
    &&& g == (HeapState {
        vecs: g.vecs,
        arrays: g.arrays,
        slices: g.slices,
        structs: g.structs,
        maps: g.maps,
        ..h
    })
}

/// A copy only adds to the heap, in any number of steps.
pub proof fn lemma_copy_extends(h: HeapState, x: GosValue, fuel: nat)
    requires
        copy_at(h, x, fuel) is Some,
    ensures
        extends(h, (copy_at(h, x, fuel)->0).0),
    decreases fuel, 0nat,
{
    let less = (fuel - 1) as nat;
    match x {
        GosValue::Array(id) => {
            lemma_values_copy_extends(h, h.vecs[h.arrays[id as int].obj.vec as int], 0, less);
        },
        GosValue::Struct(id) => lemma_values_copy_extends(h, h.structs[id as int].obj, 0, less),
        _ => {},
    }
}

/// Copies only add to the heap, and there are as many as there were values.
pub proof fn lemma_values_copy_extends(h: HeapState, xs: Seq<GosValue>, i: int, fuel: nat)
    requires
        values_copy_at(h, xs, i, fuel) is Some,
    ensures
        extends(h, (values_copy_at(h, xs, i, fuel)->0).0),
        i <= xs.len() ==> (values_copy_at(h, xs, i, fuel)->0).1.len() == xs.len() - i,
    decreases fuel, (if i < xs.len() { 1 + xs.len() - i } else { 1 }) as nat,
{
    if i < xs.len() {
        lemma_copy_extends(h, xs[i], fuel);
        lemma_values_copy_extends((copy_at(h, xs[i], fuel)->0).0, xs, i + 1, fuel);
    }
}

/// Copying changes nothing that is there: it only adds objects.
pub proof fn law_copying_only_adds(h: HeapState, x: GosValue)
    requires
        copy_value(h, x) is Some,
    ensures
        extends(h, (copy_value(h, x)->0).0),
{
    let fuel = choose|f: nat| #[trigger] copy_at(h, x, f) is Some;
    lemma_copy_value(h, x, fuel);
    lemma_copy_extends(h, x, fuel);
}

/// A copied array or struct is a new object with as many elements or fields, a copied
/// slice a new object with the same window into the same store, a copied map a new
/// object with the same entries. Anything else is not copied.
pub proof fn law_what_a_copy_is(h: HeapState, x: GosValue)
    requires
        copy_value(h, x) is Some,
        (copy_value(h, x)->0).0.addressable(),
    ensures
        ({
            let (g, copy) = copy_value(h, x)->0;
            match x {
                GosValue::Array(id) => copy matches GosValue::Array(new) && h.arrays.len() <= new
                    < g.arrays.len() && h.vecs.len() <= g.arrays[new as int].obj.vec
                    < g.vecs.len() && g.arrays[new as int].rc == 0
                    && g.arrays[new as int].obj.data(g).len() == h.arrays[id as int].obj.data(
                    h,
                ).len(),
                GosValue::Struct(id) => copy matches GosValue::Struct(new) && h.structs.len()
                    <= new < g.structs.len() && g.structs[new as int].rc == 0
                    && g.structs[new as int].obj.len() == h.structs[id as int].obj.len(),
                GosValue::Slice(id) => copy matches GosValue::Slice(new) && new == h.slices.len()
                    && g.slices[new as int].obj == h.slices[id as int].obj,
                GosValue::GosMap(id) => copy matches GosValue::GosMap(new) && new == h.maps.len()
                    && g.maps[new as int].obj == h.maps[id as int].obj,
                other => copy == other && g == h,
            }
        }),
{
    let fuel = choose|f: nat| #[trigger] copy_at(h, x, f) is Some;
    lemma_copy_value(h, x, fuel);
    let less = (fuel - 1) as nat;
    match x {
        GosValue::Array(id) => {
            lemma_values_copy_extends(h, h.vecs[h.arrays[id as int].obj.vec as int], 0, less);
        },
        GosValue::Struct(id) => lemma_values_copy_extends(h, h.structs[id as int].obj, 0, less),
        _ => {},
    }
}

/// A value that is no array or struct can be copied, if the slice or map that it names is
/// there.
pub proof fn law_most_values_can_be_copied(h: HeapState, x: GosValue)
    requires
        !(x is Array) && !(x is Struct),
        x matches GosValue::Slice(id) ==> id < h.slices.len(),
        x matches GosValue::GosMap(id) ==> id < h.maps.len(),
    ensures
        copy_value(h, x) is Some,
{
    assert(copy_at(h, x, 1) is Some);
}

} // verus!
