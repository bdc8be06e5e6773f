//! Arrays.
use std::collections::hash_map::DefaultHasher;
use vstd::prelude::*;

use crate::compare;
use crate::compare::same_values;
use crate::copying;
use crate::hashing;
use crate::hashing::hash_row;
use crate::heap::{Heap, HeapState};
use crate::text;
use crate::text::row_text;
use crate::value::{copy_values, GosValue};

verus! {

/// An array. Its elements are in a store that slices of the array share.
#[derive(Clone, Copy, Debug)]
pub struct ArrayObj {
    pub vec: usize,
}

/// Elements of arrays and slices.
pub type GosVec = Vec<GosValue>;

impl ArrayObj {
    /// The elements of the array.
    pub open spec fn data(self, h: HeapState) -> Seq<GosValue> {
        h.vecs[self.vec as int]
    }

    /// Whether two arrays are of one length and have equal elements.
    pub open spec fn spec_eq(self, h: HeapState, other: ArrayObj) -> Option<bool> {
        if self.data(h).len() != other.data(h).len() {
            Some(false)
        } else {
            compare::values_eq(h, self.data(h), other.data(h), 0)
        }
    }

    /// An array of `size` copies of one value.
    pub fn with_size(size: usize, val: &GosValue, heap: &mut Heap) -> (array: ArrayObj)
        requires
            copying::repeated_copy(old(heap)@, *val, size as nat) is Some,
        ensures
            copying::repeated_copy(old(heap)@, *val, size as nat) matches Some((h, copies))
                && final(heap)@ == h.plus_vec(copies) && array.vec == h.vecs.len(),
    {
        let ghost start = heap@;
        let mut v: GosVec = Vec::with_capacity(size);
        let mut i: usize = 0;
        while i < size
            invariant
                i <= size,
                copying::repeated_copy(start, *val, size as nat) is Some,
                copying::repeated_copy(start, *val, i as nat) == Some((heap@, v@)),
            decreases size - i,
        {
            proof {
                lemma_fewer_copies(start, *val, (i + 1) as nat, size as nat);
            }
            v.push(val.copy_semantic(heap));
            i = i + 1;
        }
        ArrayObj { vec: heap.alloc_vec(v) }
    }

    /// An array with the given elements.
    pub fn with_data(val: Vec<GosValue>, heap: &mut Heap) -> (array: ArrayObj)
        ensures
            array.vec == old(heap)@.vecs.len(),
            final(heap)@ == old(heap)@.plus_vec(val@),
    {
        ArrayObj { vec: heap.alloc_vec(val) }
    }

    pub fn len(&self, heap: &Heap) -> (len: usize)
        requires
            self.vec < heap@.vecs.len(),
        ensures
            len == self.data(heap@).len(),
    {
        self.borrow_data(heap).len()
    }

    /// The elements, to be changed in place.
    pub fn borrow_data_mut<'a>(&self, heap: &'a mut Heap) -> (data: &'a mut GosVec)
        requires
            self.vec < old(heap)@.vecs.len(),
        ensures
            data@ == self.data(old(heap)@),
            final(heap)@ == old(heap)@.with_vec(self.vec, final(data)@),
    {
        heap.vec_mut(self.vec)
    }

    pub fn borrow_data<'a>(&self, heap: &'a Heap) -> (data: &'a GosVec)
        requires
            self.vec < heap@.vecs.len(),
        ensures
            data@ == self.data(heap@),
    {
        heap.vec(self.vec)
    }

    pub fn get(&self, i: usize, heap: &Heap) -> (val: Option<GosValue>)
        requires
            self.vec < heap@.vecs.len(),
        ensures
            val == (if i < self.data(heap@).len() {
                Some(self.data(heap@)[i as int])
            } else {
                None
            }),
    {
        let data: &GosVec = self.borrow_data(heap);
        if i < data.len() {
            Some(data[i])
        } else {
            None
        }
    }

    /// Takes over the elements of another array.
    pub fn set_from(&self, other: &ArrayObj, heap: &mut Heap)
        requires
            self.vec != other.vec,
            self.vec < old(heap)@.vecs.len(),
            other.vec < old(heap)@.vecs.len(),
        ensures
            final(heap)@ == old(heap)@.with_vec(self.vec, other.data(old(heap)@)),
    {
        let all: GosVec = copy_values(other.borrow_data(heap));
        *self.borrow_data_mut(heap) = all;
    }

    /// The text of the array, with `show` for the elements.
    pub fn fmt<F: Fn(&GosValue) -> String>(&self, show: &F, heap: &Heap) -> (out: String)
        requires
            self.vec < heap@.vecs.len(),
            forall|i: int|
                0 <= i < self.data(heap@).len() ==> call_requires(
                    show,
                    (&#[trigger] self.data(heap@)[i],),
                ),
        ensures
            text::is_row_text(*show, "["@, self.data(heap@), "]"@, out@),
    {
        row_text(show, "[", self.borrow_data(heap).as_slice(), "]")
    }

    /// Hashes the elements one after the other.
    pub fn hash(&self, heap: &Heap, state: &mut DefaultHasher)
        requires
            self.vec < heap@.vecs.len(),
            hashing::values_hash(heap@, self.data(heap@), 0) is Some,
        ensures
            final(state)@ == old(state)@ + hashing::values_hash(heap@, self.data(heap@), 0)->0,
    {
        hash_row(heap, self.borrow_data(heap), state)
    }

    /// Whether two arrays are of one length and have equal elements.
    pub fn eq(&self, b: &ArrayObj, heap: &Heap) -> (same: bool)
        requires
            self.vec < heap@.vecs.len(),
            b.vec < heap@.vecs.len(),
            self.spec_eq(heap@, *b) is Some,
        ensures
            same == self.spec_eq(heap@, *b)->0,
    {
        let xs: &GosVec = self.borrow_data(heap);
        let ys: &GosVec = b.borrow_data(heap);
        if xs.len() != ys.len() {
            return false;
        }
        same_values(heap, xs, ys)
    }
}

proof fn lemma_fewer_copies(h: HeapState, x: GosValue, few: nat, many: nat)
    requires
        few <= many,
        copying::repeated_copy(h, x, many) is Some,
    ensures
        copying::repeated_copy(h, x, few) is Some,
    decreases many - few,
{
    if few < many {
        lemma_fewer_copies(h, x, few, (many - 1) as nat);
    }
}

/// Arrays of different lengths are not equal. Equal ones have equal elements, and equal elements
/// make arrays of one length equal.
pub proof fn law_arrays_are_equal_place_by_place(h: HeapState, a: ArrayObj, b: ArrayObj, i: int)
    ensures
        ({
            let xs = h.vecs[a.vec as int];
            let ys = h.vecs[b.vec as int];
            &&& xs.len() != ys.len() ==> a.spec_eq(h, b) == Some(false)
            &&& a.spec_eq(h, b) == Some(true) && 0 <= i < xs.len() ==> compare::eq_value(
                h,
                xs[i],
                ys[i],
            ) == Some(true)
            &&& xs.len() == ys.len() && (forall|m: int|
                0 <= m < xs.len() ==> compare::eq_value(h, #[trigger] xs[m], ys[m]) == Some(true))
                ==> a.spec_eq(h, b) == Some(true)
        }),
{
    let xs = h.vecs[a.vec as int];
    let ys = h.vecs[b.vec as int];
    if xs.len() == ys.len() {
        if compare::values_eq(h, xs, ys, 0) is Some {
            compare::law_rows_compare_place_by_place(h, xs, ys, 0);
        }
        if forall|m: int|
            0 <= m < xs.len() ==> compare::eq_value(h, #[trigger] xs[m], ys[m]) == Some(true) {
            compare::law_what_makes_rows_equal(h, xs, ys, 0, xs.len() as int);
        }
    }
}

} // verus!
