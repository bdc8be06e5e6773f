//! Slices.
use core::slice::Iter;
use vstd::prelude::*;

use crate::array_obj::ArrayObj;
use crate::heap::{Heap, HeapState};
use crate::string_obj;
use crate::string_obj::window_end_index;
use crate::text;
use crate::text::row_text;
use crate::value::{copy_values, GosValue};

verus! {

/// A window into a store of elements, with room to grow up to its capacity.
#[derive(Clone, Copy, Debug)]
pub struct SliceObj {
    pub begin: usize,
    pub end: usize,
    pub cap_end: usize,
    pub vec: usize,
}

/// Walks over the elements of a slice.
pub type SliceIter<'a> = Iter<'a, GosValue>;

/// Walks over the elements of a slice and counts them.
pub type SliceEnumIter<'a> = core::iter::Enumerate<SliceIter<'a>>;

/// What comes of writing `items` over `data` from `end` on. Where they reach its
/// end, nothing of `data` is left behind them.
pub open spec fn appended(data: Seq<GosValue>, end: int, items: Seq<GosValue>) -> Seq<GosValue> {
    if data.len() - end <= items.len() {
        data.take(end) + items
    } else {
        data.take(end) + items + data.skip(end + items.len())
    }
}

/// What comes of writing `items` over `data` from `begin` on.
pub open spec fn overwritten(data: Seq<GosValue>, begin: int, items: Seq<GosValue>) -> Seq<
    GosValue,
> {
    data.take(begin) + items + data.skip(begin + items.len())
}

/// `data`, made at least `len` long with nil.
pub open spec fn padded(data: Seq<GosValue>, len: int) -> Seq<GosValue> {
    if len <= data.len() {
        data
    } else {
        data + Seq::new((len - data.len()) as nat, |i: int| GosValue::Nil)
    }
}

/// The smaller of two numbers.
pub open spec fn smaller(a: int, b: int) -> int {
    if a <= b {
        a
    } else {
        b
    }
}

impl SliceObj {
    /// The store that the slice is a window into.
    pub open spec fn data(self, h: HeapState) -> Seq<GosValue> {
        h.vecs[self.vec as int]
    }

    /// Whether the store exists and the window lies in it.
    pub open spec fn fits(self, h: HeapState) -> bool {
        &&& self.vec < h.vecs.len()
        &&& self.begin <= self.end <= self.data(h).len()
    }

    /// The elements of the slice.
    pub open spec fn window(self, h: HeapState) -> Seq<GosValue> {
        self.data(h).subrange(self.begin as int, self.end as int)
    }

    /// The heap after element `i` was replaced.
    pub open spec fn after_set(self, h: HeapState, i: usize, val: GosValue) -> HeapState {
        h.with_vec(self.vec, self.data(h).update(self.begin + i, val))
    }

    /// The slice after an element was added.
    pub open spec fn pushed(self) -> SliceObj {
        SliceObj {
            end: (self.end + 1) as usize,
            cap_end: if self.cap_end < self.end + 1 {
                (self.cap_end + 1) as usize
            } else {
                self.cap_end
            },
            ..self
        }
    }

    /// The heap after an element was added to the slice: behind everything in a
    /// store that the slice covers, else over what follows the slice.
    pub open spec fn after_push(self, h: HeapState, val: GosValue) -> HeapState {
        let data = self.data(h);
        h.with_vec(
            self.vec,
            if data.len() == self.end - self.begin {
                data.push(val)
            } else {
                data.update(self.end as int, val)
            },
        )
    }

    /// The slice after the elements of another were added.
    pub open spec fn grown(self, other: SliceObj) -> SliceObj {
        let end = self.end + (other.end - other.begin);
        SliceObj {
            end: end as usize,
            cap_end: if self.cap_end < end {
                end as usize
            } else {
                self.cap_end
            },
            ..self
        }
    }

    /// The heap after the elements of another slice were added.
    pub open spec fn after_append(self, h: HeapState, other: SliceObj) -> HeapState {
        h.with_vec(self.vec, appended(self.data(h), self.end as int, other.window(h)))
    }

    /// The number of elements that copying from another slice writes.
    pub open spec fn copy_count(self, other: SliceObj) -> int {
        smaller(self.end - self.begin, other.end - other.begin)
    }

    /// The heap after elements of another slice were copied over those of this one.
    pub open spec fn after_copy_from(self, h: HeapState, other: SliceObj) -> HeapState {
        h.with_vec(
            self.vec,
            overwritten(
                self.data(h),
                self.begin as int,
                other.window(h).take(self.copy_count(other)),
            ),
        )
    }

    /// A slice with a new store of `cap` times the same value.
    pub fn new(
        len: usize,
        cap: usize,
        default_val: Option<&GosValue>,
        heap: &mut Heap,
    ) -> (slice: SliceObj)
        requires
            cap >= len,
            cap > 0 ==> default_val is Some,
        ensures
            slice == (SliceObj {
                begin: 0,
                end: len,
                cap_end: cap,
                vec: old(heap)@.vecs.len() as usize,
            }),
            final(heap)@ == old(heap)@.plus_vec(Seq::new(cap as nat, |i: int| *default_val->0)),
            slice.vec == old(heap)@.vecs.len(),
            slice.fits(final(heap)@),
    {
        let mut val: Vec<GosValue> = Vec::with_capacity(cap);
        let mut i: usize = 0;
        while i < cap
            invariant
                i <= cap,
                cap > 0 ==> default_val is Some,
                val@ == Seq::new(i as nat, |k: int| *default_val->0),
            decreases cap - i,
        {
            val.push(*default_val.unwrap());
            i = i + 1;
            assert(val@ =~= Seq::new(i as nat, |k: int| *default_val->0));
        }
        let vec: usize = heap.alloc_vec(val);
        SliceObj { begin: 0, end: len, cap_end: cap, vec }
    }

    /// A slice with a new store that holds `val`.
    pub fn with_data(val: Vec<GosValue>, heap: &mut Heap) -> (slice: SliceObj)
        ensures
            slice == (SliceObj {
                begin: 0,
                end: val.len(),
                cap_end: val.len(),
                vec: old(heap)@.vecs.len() as usize,
            }),
            final(heap)@ == old(heap)@.plus_vec(val@),
            slice.vec == old(heap)@.vecs.len(),
            slice.fits(final(heap)@),
            slice.window(final(heap)@) == val@,
    {
        let len: usize = val.len();
        let ghost vals = val@;
        let vec: usize = heap.alloc_vec(val);
        assert(vals.subrange(0, len as int) =~= vals);
        SliceObj { begin: 0, end: len, cap_end: len, vec }
    }

    /// The slice of an array from `begin` to `end`. A negative `end` counts from one
    /// past the length of the array.
    pub fn with_array(arr: &ArrayObj, begin: isize, end: isize, heap: &Heap) -> (slice: SliceObj)
        requires
            arr.vec < heap@.vecs.len(),
            end <= arr.data(heap@).len() || arr.data(heap@).len() + 1 + end <= isize::MAX,
            begin != 0 ==> begin as usize + arr.data(heap@).len() <= usize::MAX,
        ensures
            slice == (SliceObj {
                begin: begin as usize,
                end: string_obj::window_end(arr.data(heap@).len() as int, end as int) as usize,
                cap_end: (begin as usize + arr.data(heap@).len()) as usize,
                vec: arr.vec,
            }),
            slice.cap_end - slice.begin == arr.data(heap@).len(),
            string_obj::names_end(arr.data(heap@).len() as int, end as int) ==> slice.end
                == string_obj::named_end(arr.data(heap@).len() as int, end as int),
    {
        let len: usize = heap.vec(arr.vec).len();
        let bi: usize = begin as usize;
        let ei: usize = window_end_index(len, end);
        SliceObj { begin: bi, end: ei, cap_end: bi + len, vec: arr.vec }
    }

    /// Takes over the window of another slice, and all that its store holds.
    pub fn set_from(&mut self, other: &SliceObj, heap: &mut Heap)
        requires
            old(self).vec != other.vec,
            old(self).vec < old(heap)@.vecs.len(),
            other.vec < old(heap)@.vecs.len(),
        ensures
            *final(self) == (SliceObj { vec: old(self).vec, ..*other }),
            final(heap)@ == old(heap)@.with_vec(old(self).vec, other.data(old(heap)@)),
    {
        self.begin = other.begin;
        self.end = other.end;
        self.cap_end = other.cap_end;
        let all: Vec<GosValue> = copy_values(heap.vec(other.vec));
        *heap.vec_mut(self.vec) = all;
    }

    pub fn begin(&self) -> (begin: usize)
        ensures
            begin == self.begin,
    {
        self.begin
    }

    pub fn end(&self) -> (end: usize)
        ensures
            end == self.end,
    {
        self.end
    }

    pub fn len(&self) -> (len: usize)
        requires
            self.begin <= self.end,
        ensures
            len == self.end - self.begin,
    {
        self.end - self.begin
    }

    pub fn cap(&self) -> (cap: usize)
        requires
            self.begin <= self.cap_end,
        ensures
            cap == self.cap_end - self.begin,
    {
        self.cap_end - self.begin
    }

    pub fn borrow<'a>(&self, heap: &'a Heap) -> (slice: SliceRef<'a>)
        requires
            self.vec < heap@.vecs.len(),
        ensures
            slice.vec_ref@ == self.data(heap@),
            slice.begin == self.begin,
            slice.end == self.end,
    {
        SliceRef::new(self, heap)
    }

    /// Adds an element at the end.
    pub fn push(&mut self, val: GosValue, heap: &mut Heap)
        requires
            old(self).vec < old(heap)@.vecs.len(),
            old(self).begin <= old(self).end < usize::MAX,
            old(self).data(old(heap)@).len() == old(self).end - old(self).begin || old(self).end
                < old(self).data(old(heap)@).len(),
        ensures
            *final(self) == old(self).pushed(),
            final(self).begin == old(self).begin,
            final(self).end == old(self).end + 1,
            old(self).end < old(self).cap_end ==> final(self).cap_end == old(self).cap_end,
            old(self).end >= old(self).cap_end ==> final(self).cap_end == old(self).cap_end + 1,
            final(heap)@ == old(self).after_push(old(heap)@, val),
    {
        let len: usize = self.len();
        let data: &mut Vec<GosValue> = heap.vec_mut(self.vec);
        if data.len() == len {
            data.push(val);
        } else {
            data[self.end] = val;
        }
        self.end = self.end + 1;
        if self.cap_end < self.end {
            self.cap_end = self.cap_end + 1;
        }
    }

    /// Adds the elements of another slice at the end.
    pub fn append(&mut self, other: &SliceObj, heap: &mut Heap)
        requires
            old(self).vec != other.vec,
            old(self).vec < old(heap)@.vecs.len(),
            old(self).end <= old(self).data(old(heap)@).len(),
            other.fits(old(heap)@),
            old(self).end + (other.end - other.begin) <= usize::MAX,
        ensures
            *final(self) == old(self).grown(*other),
            final(heap)@ == old(self).after_append(old(heap)@, *other),
    {
        let new_end: usize = self.end + other.len();
        let items: Vec<GosValue> = other.get_vec(heap);
        let ghost before = self.data(heap@);
        let data: &mut Vec<GosValue> = heap.vec_mut(self.vec);
        let after_end_len: usize = data.len() - self.end;
        if after_end_len <= items.len() {
            data.truncate(self.end);
        }
        write_over(data, self.end, &items);
        assert(data@ =~= appended(before, self.end as int, items@));
        self.end = new_end;
        if self.cap_end < self.end {
            self.cap_end = self.end;
        }
    }

    /// Copies elements of another slice over those of this one, as many as the
    /// shorter of the two has, and returns how many that were.
    pub fn copy_from(&self, other: &SliceObj, heap: &mut Heap) -> (count: usize)
        requires
            self.vec != other.vec,
            self.vec < old(heap)@.vecs.len(),
            self.begin <= self.end,
            other.fits(old(heap)@),
            self.begin + self.copy_count(*other) <= self.data(old(heap)@).len(),
        ensures
            count == self.copy_count(*other),
            final(heap)@ == self.after_copy_from(old(heap)@, *other),
    {
        let mut items: Vec<GosValue> = other.get_vec(heap);
        let ghost all = items@;
        if self.len() < items.len() {
            items.truncate(self.len());
        }
        assert(items@ =~= all.take(self.copy_count(*other)));
        let ghost before = self.data(heap@);
        let data: &mut Vec<GosValue> = heap.vec_mut(self.vec);
        write_over(data, self.begin, &items);
        assert(data@ =~= overwritten(before, self.begin as int, items@));
        items.len()
    }

    /// Element `i` of the slice, or what follows the slice in its store.
    pub fn get(&self, i: usize, heap: &Heap) -> (val: Option<GosValue>)
        requires
            self.vec < heap@.vecs.len(),
            self.begin + i <= usize::MAX,
        ensures
            val == (if self.begin + i < self.data(heap@).len() {
                Some(self.data(heap@)[self.begin + i])
            } else {
                None
            }),
    {
        let data: &Vec<GosValue> = heap.vec(self.vec);
        if self.begin + i < data.len() {
            Some(data[self.begin + i])
        } else {
            None
        }
    }

    pub fn set(&self, i: usize, val: GosValue, heap: &mut Heap)
        requires
            self.vec < old(heap)@.vecs.len(),
            self.begin + i < self.data(old(heap)@).len(),
        ensures
            final(heap)@ == self.after_set(old(heap)@, i, val),
    {
        let data: &mut Vec<GosValue> = heap.vec_mut(self.vec);
        assert(data.len() == data@.len());
        data[self.begin + i] = val;
    }

    /// A slice of the slice. A negative `end` counts from one past the length, a
    /// negative `max` keeps the capacity. The store is filled up with nil to the new
    /// capacity. The start of this slice is counted in twice.
    pub fn slice(&self, begin: isize, end: isize, max: isize, heap: &mut Heap) -> (slice: SliceObj)
        requires
            self.vec < old(heap)@.vecs.len(),
            self.begin <= self.end,
            end <= self.end - self.begin || self.end - self.begin + 1 + end <= isize::MAX,
            2 * self.begin + begin as usize <= usize::MAX,
            2 * self.begin + string_obj::window_end(
                self.end - self.begin,
                end as int,
            ) as usize <= usize::MAX,
            max < 0 ==> self.cap_end <= isize::MAX,
        ensures
            string_obj::names_end(self.end - self.begin, end as int) ==> slice.end == 2
                * self.begin + string_obj::named_end(self.end - self.begin, end as int),
            slice == (SliceObj {
                begin: (2 * self.begin + begin as usize) as usize,
                end: (2 * self.begin + string_obj::window_end(
                    self.end - self.begin,
                    end as int,
                ) as usize) as usize,
                cap_end: if max < 0 {
                    self.cap_end
                } else {
                    max as usize
                },
                vec: self.vec,
            }),
            final(heap)@ == old(heap)@.with_vec(
                self.vec,
                padded(self.data(old(heap)@), slice.cap_end as int),
            ),
    {
        let bi: usize = self.begin + begin as usize;
        let ei: usize = self.begin + window_end_index(self.len(), end);
        let cap: usize = if max < 0 {
            self.cap_end
        } else {
            max as usize
        };
        pad(heap.vec_mut(self.vec), cap);
        SliceObj { begin: self.begin + bi, end: self.begin + ei, cap_end: cap, vec: self.vec }
    }

    /// The elements of the slice.
    pub fn get_vec(&self, heap: &Heap) -> (vals: Vec<GosValue>)
        requires
            self.fits(heap@),
        ensures
            vals@ == self.window(heap@),
    {
        let data: &Vec<GosValue> = heap.vec(self.vec);
        let mut vals: Vec<GosValue> = Vec::with_capacity(self.len());
        let mut i: usize = self.begin;
        while i < self.end
            invariant
                self.begin <= i <= self.end <= data.len(),
                vals@ == data@.subrange(self.begin as int, i as int),
            decreases self.end - i,
        {
            vals.push(data[i]);
            i = i + 1;
            assert(vals@ =~= data@.subrange(self.begin as int, i as int));
        }
        vals
    }

    /// The text of the slice, with `show` for the elements.
    pub fn fmt<F: Fn(&GosValue) -> String>(&self, show: &F, heap: &Heap) -> (out: String)
        requires
            self.fits(heap@),
            forall|i: int|
                0 <= i < self.window(heap@).len() ==> call_requires(
                    show,
                    (&#[trigger] self.window(heap@)[i],),
                ),
        ensures
            text::is_row_text(*show, "["@, self.window(heap@), "]"@, out@),
    {
        let vals: &[GosValue] = self.borrow(heap).as_slice();
        assert(vals@ == self.window(heap@));
        row_text(show, "[", vals, "]")
    }

    /// The store of the slice, to be changed in place.
    pub fn borrow_all_data_mut<'a>(&self, heap: &'a mut Heap) -> (data: &'a mut Vec<GosValue>)
        requires
            self.vec < old(heap)@.vecs.len(),
        ensures
            data@ == self.data(old(heap)@),
            final(heap)@ == old(heap)@.with_vec(self.vec, final(data)@),
    {
        heap.vec_mut(self.vec)
    }
}

/// Fills `data` up with nil until it is `len` long.
fn pad(data: &mut Vec<GosValue>, len: usize)
    ensures
        final(data)@ == padded(old(data)@, len as int),
{
    let ghost before = data@;
    assert(data@ =~= padded(before, data.len() as int));
    while data.len() < len
        invariant
            before.len() <= data.len(),
            data.len() <= len || data@ == before,
            data@ == padded(before, data.len() as int),
        decreases len - data.len(),
    {
        data.push(GosValue::new_nil());
        assert(data@ =~= padded(before, data.len() as int));
    }
}

/// Writes `items` into `data` from `begin` on, past its end if need be.
fn write_over(data: &mut Vec<GosValue>, begin: usize, items: &Vec<GosValue>)
    requires
        begin <= old(data).len(),
        begin == old(data).len() || begin + items.len() <= old(data).len(),
        begin + items.len() <= usize::MAX,
    ensures
        final(data)@ == if begin == old(data).len() {
            old(data)@ + items@
        } else {
            overwritten(old(data)@, begin as int, items@)
        },
{
    let ghost before = data@;
    let at_end = begin == data.len();
    let mut i: usize = 0;
    while i < items.len()
        invariant
            i <= items.len(),
            begin <= before.len(),
            at_end == (begin == before.len()),
            at_end || begin + items.len() <= before.len(),
            begin + items.len() <= usize::MAX,
            at_end ==> data@ == before + items@.take(i as int),
            !at_end ==> data@ == overwritten(before, begin as int, items@.take(i as int)),
        decreases items.len() - i,
    {
        if at_end {
            data.push(items[i]);
            assert(data@ =~= before + items@.take(i + 1));
        } else {
            data[begin + i] = items[i];
            assert(data@ =~= overwritten(before, begin as int, items@.take(i + 1)));
        }
        i = i + 1;
    }
    assert(items@.take(i as int) =~= items@);
}

/// The elements of a slice, for reading.
pub struct SliceRef<'a> {
    pub vec_ref: &'a Vec<GosValue>,
    pub begin: usize,
    pub end: usize,
}

impl<'a> SliceRef<'a> {
    pub fn new(s: &SliceObj, heap: &'a Heap) -> (slice: SliceRef<'a>)
        requires
            s.vec < heap@.vecs.len(),
        ensures
            slice.vec_ref@ == s.data(heap@),
            slice.begin == s.begin,
            slice.end == s.end,
    {
        SliceRef { vec_ref: heap.vec(s.vec), begin: s.begin, end: s.end }
    }

    /// Walks over the elements of the slice.
    pub fn iter(&self) -> (iter: SliceIter<'a>)
        requires
            self.begin <= self.end <= self.vec_ref.len(),
        ensures
            vstd::std_specs::iter::IteratorSpec::remaining(&iter) == self.vec_ref@.subrange(
                self.begin as int,
                self.end as int,
            ).as_ref(),
    {
        self.as_slice().iter()
    }

    /// Element `i` of the slice, or what follows the slice in its store.
    pub fn get(&self, i: usize) -> (val: Option<&'a GosValue>)
        requires
            self.begin + i <= usize::MAX,
        ensures
            val is Some <==> self.begin + i < self.vec_ref.len(),
            val is Some ==> *val->0 == self.vec_ref[self.begin + i],
    {
        if self.begin + i < self.vec_ref.len() {
            Some(&self.vec_ref[self.begin + i])
        } else {
            None
        }
    }

    pub fn as_slice(&self) -> (slice: &'a [GosValue])
        requires
            self.begin <= self.end <= self.vec_ref.len(),
        ensures
            slice@ == self.vec_ref@.subrange(self.begin as int, self.end as int),
    {
        vstd::slice::slice_subrange(self.vec_ref.as_slice(), self.begin, self.end)
    }

    /// Element `i` of the slice, or what follows the slice in its store.
    pub fn index(&self, i: usize) -> (val: &'a GosValue)
        requires
            self.begin + i < self.vec_ref.len(),
        ensures
            *val == self.vec_ref[self.begin + i],
    {
        self.get(i).unwrap()
    }
}

/// Pushing an element puts it behind the others, and the window stays in its store.
pub proof fn law_push_adds_the_element(h: HeapState, s: SliceObj, val: GosValue)
    requires
        s.fits(h),
        s.end < usize::MAX,
        s.data(h).len() == s.end - s.begin || s.end < s.data(h).len(),
    ensures
        s.pushed().fits(s.after_push(h, val)),
        s.pushed().window(s.after_push(h, val)) == s.window(h).push(val),
{
    assert(s.pushed().window(s.after_push(h, val)) =~= s.window(h).push(val));
}

/// Appending a slice puts its elements behind the others in their order, and the
/// window stays in its store.
pub proof fn law_append_joins_the_elements(h: HeapState, s: SliceObj, other: SliceObj)
    requires
        s.fits(h),
        other.fits(h),
        s.vec != other.vec,
        s.end + (other.end - other.begin) <= usize::MAX,
    ensures
        s.grown(other).fits(s.after_append(h, other)),
        s.grown(other).window(s.after_append(h, other)) == s.window(h) + other.window(h),
{
    assert(s.grown(other).window(s.after_append(h, other)) =~= s.window(h) + other.window(h));
}

/// Copying from a slice replaces the first elements by the first of that slice, as
/// many as both have, and keeps the rest.
pub proof fn law_copy_replaces_the_first_elements(h: HeapState, s: SliceObj, other: SliceObj)
    requires
        s.fits(h),
        other.fits(h),
        s.vec != other.vec,
    ensures
        s.fits(s.after_copy_from(h, other)),
        s.window(s.after_copy_from(h, other)) == other.window(h).take(s.copy_count(other))
            + s.window(h).skip(s.copy_count(other)),
{
    assert(s.window(s.after_copy_from(h, other)) =~= other.window(h).take(s.copy_count(other))
        + s.window(h).skip(s.copy_count(other)));
}

/// Room is never smaller than what is in it: pushing and appending keep the length
/// within the capacity.
pub proof fn law_the_length_stays_within_the_capacity(s: SliceObj, other: SliceObj)
    requires
        s.begin <= s.end <= s.cap_end,
        other.begin <= other.end,
        s.end < usize::MAX,
        s.end + (other.end - other.begin) <= usize::MAX,
    ensures
        s.pushed().begin <= s.pushed().end <= s.pushed().cap_end,
        s.grown(other).begin <= s.grown(other).end <= s.grown(other).cap_end,
{
}

/// What is written through one slice is read through every slice of the same store
/// at the same place, and nowhere else.
pub proof fn law_slices_of_one_store_share_elements(
    h: HeapState,
    s: SliceObj,
    i: usize,
    val: GosValue,
    t: SliceObj,
    j: usize,
)
    requires
        s.vec < h.vecs.len(),
        t.vec < h.vecs.len(),
        s.begin + i < s.data(h).len(),
        t.begin + j < t.data(h).len(),
    ensures
        t.data(s.after_set(h, i, val))[t.begin + j] == if s.vec == t.vec && s.begin + i == t.begin
            + j {
            val
        } else {
            t.data(h)[t.begin + j]
        },
{
}

/// Nothing that is done to a slice reaches the elements of another store.
pub proof fn law_other_stores_are_left_alone(
    h: HeapState,
    s: SliceObj,
    i: usize,
    val: GosValue,
    other: SliceObj,
    t: SliceObj,
)
    requires
        s.vec != t.vec,
        s.vec < h.vecs.len(),
        t.vec < h.vecs.len(),
    ensures
        t.window(s.after_set(h, i, val)) == t.window(h),
        t.window(s.after_push(h, val)) == t.window(h),
        t.window(s.after_append(h, other)) == t.window(h),
        t.window(s.after_copy_from(h, other)) == t.window(h),
{
}

/// The slice of an array from `begin` to the place that `end` names has those elements and
/// as much capacity as the array has elements. What is written through it is written into
/// the array.
pub proof fn law_slicing_an_array(
    h: HeapState,
    arr: ArrayObj,
    begin: isize,
    end: isize,
    s: SliceObj,
    i: usize,
    val: GosValue,
)
    requires
        arr.vec < h.vecs.len(),
        string_obj::names_end(arr.data(h).len() as int, end as int),
        0 <= begin <= string_obj::named_end(arr.data(h).len() as int, end as int),
        begin + arr.data(h).len() <= usize::MAX,
        s == (SliceObj {
            begin: begin as usize,
            end: string_obj::window_end(arr.data(h).len() as int, end as int) as usize,
            cap_end: (begin as usize + arr.data(h).len()) as usize,
            vec: arr.vec,
        }),
    ensures
        ({
            let e = string_obj::named_end(arr.data(h).len() as int, end as int);
            &&& s.fits(h)
            &&& s.begin == begin && s.end == e
            &&& s.cap_end - s.begin == arr.data(h).len()
            &&& s.window(h) == arr.data(h).subrange(begin as int, e)
            &&& begin + i < e ==> arr.data(s.after_set(h, i, val))[begin + i] == val
        }),
{
    string_obj::law_where_windows_end(arr.data(h).len() as int, end as int);
}

/// A slice `s` that starts where its store starts, cut from `begin` to the place that
/// `end` names, gives a slice `t` of those elements in the same store, with the capacity
/// up to `max` or that of `s`. The store is filled up with nil to that capacity, and `s`
/// has the elements that it had. What is then written through either is seen through the
/// other.
pub proof fn law_cutting_a_slice(
    h: HeapState,
    s: SliceObj,
    begin: isize,
    end: isize,
    max: isize,
    t: SliceObj,
    i: usize,
    val: GosValue,
)
    requires
        s.fits(h),
        s.begin == 0,
        string_obj::names_end(s.end as int, end as int),
        0 <= begin <= string_obj::named_end(s.end as int, end as int),
        t == (SliceObj {
            begin: (2 * s.begin + begin as usize) as usize,
            end: (2 * s.begin + string_obj::window_end(s.end - s.begin, end as int) as usize) as usize,
            cap_end: if max < 0 {
                s.cap_end
            } else {
                max as usize
            },
            vec: s.vec,
        }),
    ensures
        ({
            let e = string_obj::named_end(s.end as int, end as int);
            let m = if max < 0 {
                s.cap_end as int
            } else {
                max as int
            };
            let g = h.with_vec(s.vec, padded(s.data(h), t.cap_end as int));
            &&& t.begin == begin && t.end == e && t.cap_end == m
            &&& t.vec == s.vec
            &&& t.fits(g)
            &&& t.window(g) == s.window(h).subrange(begin as int, e)
            &&& s.fits(g)
            &&& s.window(g) == s.window(h)
            &&& s.data(g).len() == (if s.data(h).len() < m {
                m
            } else {
                s.data(h).len() as int
            })
            &&& s.data(g).take(s.data(h).len() as int) == s.data(h)
            &&& forall|k: int|
                s.data(h).len() <= k < s.data(g).len() ==> #[trigger] s.data(g)[k] == GosValue::Nil
            &&& begin + i < e ==> {
                &&& s.window(t.after_set(g, i, val))[begin + i] == val
                &&& t.window(s.after_set(g, (begin + i) as usize, val))[i as int] == val
            }
        }),
{
    string_obj::law_where_windows_end(s.end as int, end as int);
    let e = string_obj::named_end(s.end as int, end as int);
    let g = h.with_vec(s.vec, padded(s.data(h), t.cap_end as int));
    assert(t.window(g) =~= s.window(h).subrange(begin as int, e));
    assert(s.window(g) =~= s.window(h));
    assert(s.data(g).take(s.data(h).len() as int) =~= s.data(h));
}

/// Pushing onto a slice with room leaves its capacity as it was, and onto a full one makes
/// the capacity one larger. The slice is one longer then, starts where it started and is a
/// window into the same store.
pub proof fn law_pushing_and_capacity(s: SliceObj)
    requires
        s.begin <= s.end <= s.cap_end,
        s.end < usize::MAX,
    ensures
        s.end < s.cap_end ==> s.pushed().cap_end - s.pushed().begin == s.cap_end - s.begin,
        s.end == s.cap_end ==> s.pushed().cap_end - s.pushed().begin == s.cap_end - s.begin + 1,
        s.pushed().end - s.pushed().begin == s.end - s.begin + 1,
        s.pushed().begin == s.begin,
        s.pushed().vec == s.vec,
{
}

/// Appending makes the capacity larger only if the elements do not fit, and then just as
/// large as they need. The slice is longer by what was appended, starts where it started
/// and is a window into the same store.
pub proof fn law_appending_and_capacity(s: SliceObj, other: SliceObj)
    requires
        s.begin <= s.end <= s.cap_end,
        other.begin <= other.end,
        s.end + (other.end - other.begin) <= usize::MAX,
    ensures
        s.end + (other.end - other.begin) <= s.cap_end ==> s.grown(other).cap_end == s.cap_end,
        s.end + (other.end - other.begin) > s.cap_end ==> s.grown(other).cap_end == s.end + (
        other.end - other.begin),
        s.grown(other).end == s.end + (other.end - other.begin),
        s.grown(other).begin == s.begin,
        s.grown(other).vec == s.vec,
{
}

/// Pushing writes one place of the store, the one behind the slice, which is added if it is
/// not there. It changes no other element and nothing else on the heap.
pub proof fn law_pushing_writes_one_place(h: HeapState, s: SliceObj, val: GosValue)
    requires
        s.fits(h),
        s.data(h).len() == s.end - s.begin || s.end < s.data(h).len(),
    ensures
        ({
            let g = s.after_push(h, val);
            &&& g == (HeapState { vecs: g.vecs, ..h })
            &&& g.vecs.len() == h.vecs.len()
            &&& s.data(g)[s.end as int] == val
            &&& s.data(g).len() == (if s.end < s.data(h).len() {
                s.data(h).len() as int
            } else {
                s.end + 1
            })
            &&& forall|k: int|
                0 <= k < s.data(h).len() && k != s.end ==> #[trigger] s.data(g)[k] == s.data(h)[k]
            &&& forall|v: int|
                0 <= v < h.vecs.len() && v != s.vec ==> #[trigger] g.vecs[v] == h.vecs[v]
        }),
{
}

/// Appending writes the places behind the slice, one for each element, and those that are
/// not there are added. It changes no other element and nothing else on the heap.
pub proof fn law_appending_writes_behind_the_slice(h: HeapState, s: SliceObj, other: SliceObj)
    requires
        s.vec < h.vecs.len(),
        s.end <= s.data(h).len(),
        other.fits(h),
    ensures
        ({
            let g = s.after_append(h, other);
            let n = other.end - other.begin;
            &&& g == (HeapState { vecs: g.vecs, ..h })
            &&& g.vecs.len() == h.vecs.len()
            &&& s.data(g).len() == (if s.end + n < s.data(h).len() {
                s.data(h).len() as int
            } else {
                s.end + n
            })
            &&& forall|k: int|
                0 <= k < n ==> #[trigger] s.data(g)[s.end + k] == other.data(h)[other.begin + k]
            &&& forall|k: int|
                0 <= k < s.data(h).len() && !(s.end <= k < s.end + n) ==> #[trigger] s.data(g)[k]
                    == s.data(h)[k]
            &&& forall|v: int|
                0 <= v < h.vecs.len() && v != s.vec ==> #[trigger] g.vecs[v] == h.vecs[v]
        }),
{
}

/// Copying from a slice writes as many elements as the shorter of the two has, from the
/// first on. It changes no other element and nothing else on the heap.
pub proof fn law_copying_from_a_slice(h: HeapState, s: SliceObj, other: SliceObj)
    requires
        s.fits(h),
        other.fits(h),
    ensures
        ({
            let g = s.after_copy_from(h, other);
            let n = s.copy_count(other);
            &&& n <= s.end - s.begin && n <= other.end - other.begin
            &&& n == s.end - s.begin || n == other.end - other.begin
            &&& g == (HeapState { vecs: g.vecs, ..h })
            &&& g.vecs.len() == h.vecs.len()
            &&& s.data(g).len() == s.data(h).len()
            &&& forall|k: int|
                0 <= k < n ==> #[trigger] s.data(g)[s.begin + k] == other.data(h)[other.begin + k]
            &&& forall|k: int|
                0 <= k < s.data(h).len() && !(s.begin <= k < s.begin + n)
                    ==> #[trigger] s.data(g)[k] == s.data(h)[k]
            &&& forall|v: int|
                0 <= v < h.vecs.len() && v != s.vec ==> #[trigger] g.vecs[v] == h.vecs[v]
        }),
{
}

/// An element of a slice is that of its store, counted from where the slice starts, and
/// setting it changes that one place and nothing else.
pub proof fn law_setting_an_element(h: HeapState, s: SliceObj, i: usize, val: GosValue)
    requires
        s.fits(h),
        i < s.end - s.begin,
    ensures
        ({
            let g = s.after_set(h, i, val);
            &&& s.window(h).len() == s.end - s.begin
            &&& s.window(h)[i as int] == h.vecs[s.vec as int][s.begin + i]
            &&& s.window(g)[i as int] == val
            &&& g == (HeapState { vecs: g.vecs, ..h })
            &&& g.vecs.len() == h.vecs.len()
            &&& g.vecs[s.vec as int].len() == h.vecs[s.vec as int].len()
            &&& forall|k: int|
                0 <= k < h.vecs[s.vec as int].len() && k != s.begin + i
                    ==> #[trigger] g.vecs[s.vec as int][k] == h.vecs[s.vec as int][k]
            &&& forall|v: int|
                0 <= v < h.vecs.len() && v != s.vec ==> #[trigger] g.vecs[v] == h.vecs[v]
        }),
{
}

/// A store that is filled up keeps what it has and gets nil behind it, up to the length
/// asked for and no further.
pub proof fn law_filling_up(data: Seq<GosValue>, len: int)
    ensures
        padded(data, len).len() == (if data.len() < len {
            len
        } else {
            data.len() as int
        }),
        forall|k: int| 0 <= k < data.len() ==> #[trigger] padded(data, len)[k] == data[k],
        forall|k: int|
            data.len() <= k < padded(data, len).len() ==> #[trigger] padded(data, len)[k]
                == GosValue::Nil,
{
}

/// A slice fits if its store is there and its two ends lie in it in their order. Its elements are
/// then those of the store between them.
pub proof fn law_when_a_slice_fits(h: HeapState, s: SliceObj, i: int)
    ensures
        s.vec < h.vecs.len() && s.begin <= s.end && s.end <= h.vecs[s.vec as int].len() <==> s.fits(
            h,
        ),
        s.fits(h) ==> s.window(h).len() == s.end - s.begin,
        s.fits(h) && 0 <= i < s.end - s.begin ==> s.window(h)[i] == h.vecs[s.vec as int][s.begin
            + i],
{
}

} // verus!
