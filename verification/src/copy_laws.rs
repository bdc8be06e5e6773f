//! What copies promise.
use vstd::prelude::*;

use crate::compare;
use crate::copying;
use crate::equality_laws;
use crate::heap::HeapState;
use crate::value::GosValue;

verus! {

/// Whether no slice and no map is in `x`, in the arrays and structs in it, and so on,
/// as far as `fuel` steps show.
pub open spec fn no_windows_at(h: HeapState, x: GosValue, fuel: nat) -> bool
    decreases fuel,
{
    if fuel == 0 {
        true
    } else {
        let less = (fuel - 1) as nat;
        match x {
            GosValue::Slice(_) => false,
            GosValue::GosMap(_) => false,
            GosValue::Array(id) => {
                let xs = h.vecs[h.arrays[id as int].obj.vec as int];
                forall|i: int| 0 <= i < xs.len() ==> no_windows_at(h, #[trigger] xs[i], less)
            },
            GosValue::Struct(id) => {
                let xs = h.structs[id as int].obj;
                forall|i: int| 0 <= i < xs.len() ==> no_windows_at(h, #[trigger] xs[i], less)
            },
            _ => true,
        }
    }
}

/// Whether no slice and no map is in `x`, in the arrays and structs in it, and so on.
pub open spec fn no_windows(h: HeapState, x: GosValue) -> bool {
    forall|fuel: nat| #[trigger] no_windows_at(h, x, fuel)
}

proof fn lemma_extends_trans(a: HeapState, b: HeapState, c: HeapState)
    requires
        copying::extends(a, b),
        copying::extends(b, c),
    ensures
        copying::extends(a, c),
{
    assert forall|i: int| 0 <= i < a.vecs.len() implies #[trigger] c.vecs[i] == a.vecs[i] by {
        assert(b.vecs[i] == a.vecs[i]);
    }
    assert forall|i: int| 0 <= i < a.arrays.len() implies #[trigger] c.arrays[i] == a.arrays[i] by {
        assert(b.arrays[i] == a.arrays[i]);
    }
    assert forall|i: int| 0 <= i < a.slices.len() implies #[trigger] c.slices[i] == a.slices[i] by {
        assert(b.slices[i] == a.slices[i]);
    }
    assert forall|i: int|
        0 <= i < a.structs.len() implies #[trigger] c.structs[i] == a.structs[i] by {
        assert(b.structs[i] == a.structs[i]);
    }
    assert forall|i: int| 0 <= i < a.maps.len() implies #[trigger] c.maps[i] == a.maps[i] by {
        assert(b.maps[i] == a.maps[i]);
    }
}

proof fn lemma_copy_equal(h: HeapState, x: GosValue, fuel: nat, g: HeapState, k: nat)
    requires
        copying::copy_at(h, x, fuel) is Some,
        copying::extends((copying::copy_at(h, x, fuel)->0).0, g),
        g.addressable(),
        equality_laws::no_user_data(g),
        no_windows_at(g, x, fuel),
    ensures
        compare::eq_at(g, x, (copying::copy_at(h, x, fuel)->0).1, k) != Some(false),
    decreases fuel, 0nat,
{
    let less = (fuel - 1) as nat;
    let (h1, copy) = copying::copy_at(h, x, fuel)->0;
    copying::lemma_copy_extends(h, x, fuel);
    lemma_extends_trans(h, h1, g);
    match x {
        GosValue::Array(id) => {
            let v = h.arrays[id as int].obj.vec;
            let xs = h.vecs[v as int];
            let (h2, copies) = copying::values_copy_at(h, xs, 0, less)->0;
            let new = h2.arrays.len() as usize;
            let w = h2.vecs.len() as usize;
            assert(copying::extends(h2, h1));
            copying::lemma_values_copy_extends(h, xs, 0, less);
            lemma_extends_trans(h2, h1, g);
            assert(g.arrays[id as int] == h.arrays[id as int]);
            assert(g.vecs[v as int] == xs);
            assert(h1.arrays[new as int].obj.vec == w);
            assert(g.arrays[new as int] == h1.arrays[new as int]);
            assert(h1.vecs[w as int] == copies);
            assert(g.vecs[w as int] == copies);
            assert(copies.skip(0) =~= copies);
            if k >= 3 {
                lemma_copies_equal(h, xs, 0, less, g, copies, (k - 3) as nat);
                assert(compare::stores_eq_at(g, v, w, (k - 2) as nat) != Some(false));
            } else if k == 2 {
                assert(compare::stores_eq_at(g, v, w, 0) is None);
            }
            if k >= 2 {
                assert(compare::arrays_eq_at(g, id, new, (k - 1) as nat) != Some(false));
            } else if k == 1 {
                assert(compare::arrays_eq_at(g, id, new, 0) is None);
            }
        },
        GosValue::Struct(id) => {
            let xs = h.structs[id as int].obj;
            let (h2, copies) = copying::values_copy_at(h, xs, 0, less)->0;
            let new = h2.structs.len() as usize;
            assert(copying::extends(h2, h1));
            lemma_extends_trans(h2, h1, g);
            assert(g.structs[id as int] == h.structs[id as int]);
            assert(h1.structs[new as int].obj == copies);
            assert(g.structs[new as int] == h1.structs[new as int]);
            assert(copies.skip(0) =~= copies);
            if k >= 2 {
                lemma_copies_equal(h, xs, 0, less, g, copies, (k - 2) as nat);
                assert(compare::structs_eq_at(g, id, new, (k - 1) as nat) != Some(false));
            } else if k == 1 {
                assert(compare::structs_eq_at(g, id, new, 0) is None);
            }
        },
        _ => {
            equality_laws::lemma_refl(g, x, k);
        },
    }
}

proof fn lemma_copies_equal(
    h: HeapState,
    xs: Seq<GosValue>,
    i: int,
    fuel: nat,
    g: HeapState,
    all: Seq<GosValue>,
    k: nat,
)
    requires
        0 <= i <= xs.len(),
        copying::values_copy_at(h, xs, i, fuel) is Some,
        copying::extends((copying::values_copy_at(h, xs, i, fuel)->0).0, g),
        all.skip(i) == (copying::values_copy_at(h, xs, i, fuel)->0).1,
        i <= all.len(),
        g.addressable(),
        equality_laws::no_user_data(g),
        forall|j: int| 0 <= j < xs.len() ==> no_windows_at(g, #[trigger] xs[j], fuel),
    ensures
        compare::values_eq_at(g, xs, all, i, k) != Some(false),
    decreases fuel, 1 + xs.len() - i,
{
    if i < xs.len() {
        let (h1, first) = copying::copy_at(h, xs[i], fuel)->0;
        let (h2, rest) = copying::values_copy_at(h1, xs, i + 1, fuel)->0;
        assert(all.skip(i) == seq![first] + rest);
        assert(all.skip(i)[0] == first);
        assert(all[i] == first);
        assert(all.skip(i + 1) =~= rest) by {
            assert(all.skip(i).skip(1) =~= all.skip(i + 1));
            assert((seq![first] + rest).skip(1) =~= rest);
        }
        copying::lemma_values_copy_extends(h1, xs, i + 1, fuel);
        lemma_extends_trans(h1, h2, g);
        lemma_copy_equal(h, xs[i], fuel, g, k);
        lemma_copies_equal(h1, xs, i + 1, fuel, g, all, k);
    }
}

/// A copy equals what it was made from, if the two can be compared, no slice or map is in it
/// and no data of an extension is about.
pub proof fn law_a_copy_equals_its_source(h: HeapState, x: GosValue)
    requires
        copying::copy_value(h, x) is Some,
        (copying::copy_value(h, x)->0).0.addressable(),
        equality_laws::no_user_data(h),
        no_windows((copying::copy_value(h, x)->0).0, x),
        compare::eq_value(
            (copying::copy_value(h, x)->0).0,
            x,
            (copying::copy_value(h, x)->0).1,
        ) is Some,
    ensures
        compare::eq_value(
            (copying::copy_value(h, x)->0).0,
            x,
            (copying::copy_value(h, x)->0).1,
        ) == Some(true),
{
    let fuel = choose|f: nat| #[trigger] copying::copy_at(h, x, f) is Some;
    copying::lemma_copy_value(h, x, fuel);
    let (g, copy) = copying::copy_value(h, x)->0;
    copying::lemma_copy_extends(h, x, fuel);
    let k = choose|k: nat| #[trigger] compare::eq_at(g, x, copy, k) is Some;
    compare::lemma_eq_value(g, x, copy, k);
    assert(no_windows_at(g, x, fuel));
    lemma_copy_equal(h, x, fuel, g, k);
}

/// What is written into a copied array does not reach its source, and what is
/// written into the source does not reach the copy.
pub proof fn law_a_copied_array_is_independent(
    h: HeapState,
    id: usize,
    vals: Seq<GosValue>,
)
    requires
        copying::copy_value(h, GosValue::Array(id)) is Some,
        (copying::copy_value(h, GosValue::Array(id))->0).0.addressable(),
    ensures
        ({
            let (g, copy) = copying::copy_value(h, GosValue::Array(id))->0;
            copy matches GosValue::Array(new) && {
                let from = g.arrays[id as int].obj;
                let to = g.arrays[new as int].obj;
                &&& from == h.arrays[id as int].obj
                &&& from.data(g) == h.arrays[id as int].obj.data(h)
                &&& from.data(g.with_vec(to.vec, vals)) == from.data(g)
                &&& to.data(g.with_vec(from.vec, vals)) == to.data(g)
            }
        }),
{
    copying::law_what_a_copy_is(h, GosValue::Array(id));
    copying::law_copying_only_adds(h, GosValue::Array(id));
}

/// What is written into a copied struct does not reach its source, and what is
/// written into the source does not reach the copy.
pub proof fn law_a_copied_struct_is_independent(
    h: HeapState,
    id: usize,
    vals: Seq<GosValue>,
)
    requires
        copying::copy_value(h, GosValue::Struct(id)) is Some,
        (copying::copy_value(h, GosValue::Struct(id))->0).0.addressable(),
    ensures
        ({
            let (g, copy) = copying::copy_value(h, GosValue::Struct(id))->0;
            copy matches GosValue::Struct(new) && {
                &&& g.structs[id as int] == h.structs[id as int]
                &&& g.with_struct(new, vals).structs[id as int] == g.structs[id as int]
                &&& g.with_struct(id, vals).structs[new as int] == g.structs[new as int]
            }
        }),
{
    copying::law_what_a_copy_is(h, GosValue::Struct(id));
    copying::law_copying_only_adds(h, GosValue::Struct(id));
}

/// Whether `c` is a copy of `x`, as far as `depth` levels show: an array or struct of its own
/// whose elements or fields are copies of those at the same places, a slice of its own with
/// the same start, end, capacity and store, a map of its own with the same entries and the
/// same value for missing ones, or else `x` itself.
pub open spec fn copied_at(g: HeapState, x: GosValue, c: GosValue, depth: nat) -> bool
    decreases depth,
{
    if depth == 0 {
        true
    } else {
        let less = (depth - 1) as nat;
        match x {
            GosValue::Array(id) => c matches GosValue::Array(new) && new != id && {
                let from = g.arrays[id as int].obj.vec;
                let to = g.arrays[new as int].obj.vec;
                let xs = g.vecs[from as int];
                let cs = g.vecs[to as int];
                &&& from != to
                &&& xs.len() == cs.len()
                &&& forall|i: int|
                    0 <= i < xs.len() ==> copied_at(g, #[trigger] xs[i], cs[i], less)
            },
            GosValue::Struct(id) => c matches GosValue::Struct(new) && new != id && {
                let xs = g.structs[id as int].obj;
                let cs = g.structs[new as int].obj;
                &&& xs.len() == cs.len()
                &&& forall|i: int|
                    0 <= i < xs.len() ==> copied_at(g, #[trigger] xs[i], cs[i], less)
            },
            GosValue::Slice(id) => c matches GosValue::Slice(new) && new != id && {
                let from = g.slices[id as int].obj;
                let to = g.slices[new as int].obj;
                &&& to.begin == from.begin && to.end == from.end
                &&& to.cap_end == from.cap_end && to.vec == from.vec
            },
            GosValue::GosMap(id) => c matches GosValue::GosMap(new) && new != id && {
                let from = g.maps[id as int].obj;
                let to = g.maps[new as int].obj;
                to.map == from.map && to.default_val == from.default_val
            },
            _ => c == x,
        }
    }
}

/// Whether `c` is a copy of `x` at every level.
pub open spec fn copied(g: HeapState, x: GosValue, c: GosValue) -> bool {
    forall|depth: nat| #[trigger] copied_at(g, x, c, depth)
}

proof fn lemma_copied(h: HeapState, x: GosValue, fuel: nat, g: HeapState, depth: nat)
    requires
        copying::copy_at(h, x, fuel) is Some,
        copying::extends((copying::copy_at(h, x, fuel)->0).0, g),
        g.addressable(),
    ensures
        copied_at(g, x, (copying::copy_at(h, x, fuel)->0).1, depth),
    decreases fuel, 0nat,
{
    let less = (fuel - 1) as nat;
    let (h1, copy) = copying::copy_at(h, x, fuel)->0;
    copying::lemma_copy_extends(h, x, fuel);
    lemma_extends_trans(h, h1, g);
    if depth > 0 {
        match x {
            GosValue::Array(id) => {
                let v = h.arrays[id as int].obj.vec;
                let xs = h.vecs[v as int];
                let (h2, copies) = copying::values_copy_at(h, xs, 0, less)->0;
                let new = h2.arrays.len() as usize;
                let w = h2.vecs.len() as usize;
                assert(copying::extends(h2, h1));
                copying::lemma_values_copy_extends(h, xs, 0, less);
                lemma_extends_trans(h2, h1, g);
                assert(g.arrays[id as int] == h.arrays[id as int]);
                assert(g.vecs[v as int] == xs);
                assert(h1.arrays[new as int].obj.vec == w);
                assert(g.arrays[new as int] == h1.arrays[new as int]);
                assert(h1.vecs[w as int] == copies);
                assert(g.vecs[w as int] == copies);
                assert(copies.skip(0) =~= copies);
                lemma_all_copied(h, xs, 0, less, g, copies, (depth - 1) as nat);
            },
            GosValue::Struct(id) => {
                let xs = h.structs[id as int].obj;
                let (h2, copies) = copying::values_copy_at(h, xs, 0, less)->0;
                let new = h2.structs.len() as usize;
                assert(copying::extends(h2, h1));
                copying::lemma_values_copy_extends(h, xs, 0, less);
                lemma_extends_trans(h2, h1, g);
                assert(g.structs[id as int] == h.structs[id as int]);
                assert(h1.structs[new as int].obj == copies);
                assert(g.structs[new as int] == h1.structs[new as int]);
                assert(copies.skip(0) =~= copies);
                lemma_all_copied(h, xs, 0, less, g, copies, (depth - 1) as nat);
            },
            GosValue::Slice(id) => {
                let new = h.slices.len() as usize;
                assert(g.slices[id as int] == h.slices[id as int]);
                assert(g.slices[new as int] == h1.slices[new as int]);
            },
            GosValue::GosMap(id) => {
                let new = h.maps.len() as usize;
                assert(g.maps[id as int] == h.maps[id as int]);
                assert(g.maps[new as int] == h1.maps[new as int]);
            },
            _ => {},
        }
    }
}

proof fn lemma_all_copied(
    h: HeapState,
    xs: Seq<GosValue>,
    i: int,
    fuel: nat,
    g: HeapState,
    all: Seq<GosValue>,
    depth: nat,
)
    requires
        0 <= i <= xs.len(),
        copying::values_copy_at(h, xs, i, fuel) is Some,
        copying::extends((copying::values_copy_at(h, xs, i, fuel)->0).0, g),
        i <= all.len(),
        all.skip(i) == (copying::values_copy_at(h, xs, i, fuel)->0).1,
        g.addressable(),
    ensures
        forall|k: int| i <= k < xs.len() ==> copied_at(g, #[trigger] xs[k], all[k], depth),
    decreases fuel, 1 + xs.len() - i,
{
    if i < xs.len() {
        let (h1, first) = copying::copy_at(h, xs[i], fuel)->0;
        let (h2, rest) = copying::values_copy_at(h1, xs, i + 1, fuel)->0;
        assert(all.skip(i) == seq![first] + rest);
        assert(all.skip(i)[0] == first);
        assert(all[i] == first);
        assert(all.skip(i + 1) =~= rest) by {
            assert(all.skip(i).skip(1) =~= all.skip(i + 1));
            assert((seq![first] + rest).skip(1) =~= rest);
        }
        copying::lemma_values_copy_extends(h1, xs, i + 1, fuel);
        lemma_extends_trans(h1, h2, g);
        lemma_copied(h, xs[i], fuel, g, depth);
        lemma_all_copied(h1, xs, i + 1, fuel, g, all, depth);
    }
}

/// A copy is a copy at every level: each element of a copied array and each field of a copied
/// struct is itself a copy of the one at the same place, be it an array, a struct, a slice, a
/// map or anything else.
pub proof fn law_a_copy_is_one_at_every_level(h: HeapState, x: GosValue)
    requires
        copying::copy_value(h, x) is Some,
        (copying::copy_value(h, x)->0).0.addressable(),
    ensures
        copied((copying::copy_value(h, x)->0).0, x, (copying::copy_value(h, x)->0).1),
{
    let fuel = choose|f: nat| #[trigger] copying::copy_at(h, x, f) is Some;
    copying::lemma_copy_value(h, x, fuel);
    let (g, copy) = copying::copy_value(h, x)->0;
    assert forall|depth: nat| #[trigger] copied_at(g, x, copy, depth) by {
        lemma_copied(h, x, fuel, g, depth);
    }
}

/// In the copy of a struct, a field that holds a slice holds a slice with the same start, end,
/// capacity and store, a field that holds a map one with the same entries, and a field that
/// holds neither of these, nor an array or struct, the same value. The struct that was copied
/// keeps its fields.
pub proof fn law_the_fields_of_a_copy(h: HeapState, id: usize, i: int)
    requires
        copying::copy_value(h, GosValue::Struct(id)) is Some,
        (copying::copy_value(h, GosValue::Struct(id))->0).0.addressable(),
        id < h.structs.len(),
        0 <= i < h.structs[id as int].obj.len(),
    ensures
        ({
            let (g, copy) = copying::copy_value(h, GosValue::Struct(id))->0;
            let field = h.structs[id as int].obj[i];
            &&& copy is Struct
            &&& g.structs[id as int] == h.structs[id as int]
            &&& g.structs[copy->Struct_0 as int].obj.len() == h.structs[id as int].obj.len()
            &&& part_is_copied(g, field, g.structs[copy->Struct_0 as int].obj[i])
        }),
{
    let x = GosValue::Struct(id);
    law_a_copy_is_one_at_every_level(h, x);
    copying::law_copying_only_adds(h, x);
    let (g, copy) = copying::copy_value(h, x)->0;
    assert(copied_at(g, x, copy, 2));
    assert(g.structs[id as int] == h.structs[id as int]);
    let field = g.structs[id as int].obj[i];
    assert(copied_at(g, field, g.structs[copy->Struct_0 as int].obj[i], 1));
}

/// In the copy of an array, an element that is a slice or map is one with the same contents,
/// and any other element that is no array or struct is the same. The array that was copied
/// keeps its elements.
pub proof fn law_the_elements_of_a_copy(h: HeapState, id: usize, i: int)
    requires
        copying::copy_value(h, GosValue::Array(id)) is Some,
        (copying::copy_value(h, GosValue::Array(id))->0).0.addressable(),
        id < h.arrays.len(),
        h.arrays[id as int].obj.vec < h.vecs.len(),
        0 <= i < h.vecs[h.arrays[id as int].obj.vec as int].len(),
    ensures
        ({
            let (g, copy) = copying::copy_value(h, GosValue::Array(id))->0;
            let store = h.arrays[id as int].obj.vec as int;
            let element = h.vecs[store][i];
            &&& copy is Array
            &&& g.arrays[id as int] == h.arrays[id as int]
            &&& g.vecs[store] == h.vecs[store]
            &&& g.vecs[g.arrays[copy->Array_0 as int].obj.vec as int].len() == h.vecs[store].len()
            &&& part_is_copied(
                g,
                element,
                g.vecs[g.arrays[copy->Array_0 as int].obj.vec as int][i],
            )
        }),
{
    let x = GosValue::Array(id);
    law_a_copy_is_one_at_every_level(h, x);
    copying::law_copying_only_adds(h, x);
    let (g, copy) = copying::copy_value(h, x)->0;
    let store = h.arrays[id as int].obj.vec as int;
    assert(copied_at(g, x, copy, 2));
    assert(g.arrays[id as int] == h.arrays[id as int]);
    assert(g.vecs[store] == h.vecs[store]);
    let element = g.vecs[store][i];
    assert(copied_at(g, element, g.vecs[g.arrays[copy->Array_0 as int].obj.vec as int][i], 1));
}

/// Whether `c`, which stands in a copied array or struct where `x` stood, is what an assignment
/// makes of `x`, arrays and structs in it aside.
pub open spec fn part_is_copied(g: HeapState, x: GosValue, c: GosValue) -> bool {
    match x {
        GosValue::Array(_) => c is Array,
        GosValue::Struct(_) => c is Struct,
        GosValue::Slice(s) => c is Slice && {
            let from = g.slices[s as int].obj;
            let to = g.slices[c->Slice_0 as int].obj;
            &&& to.begin == from.begin && to.end == from.end
            &&& to.cap_end == from.cap_end && to.vec == from.vec
        },
        GosValue::GosMap(m) => c is GosMap && {
            let from = g.maps[m as int].obj;
            let to = g.maps[c->GosMap_0 as int].obj;
            to.map == from.map && to.default_val == from.default_val
        },
        other => c == other,
    }
}

/// The place of the object that a copied value names, among those of its kind.
spec fn object_of(x: GosValue) -> int {
    match x {
        GosValue::Array(id) => id as int,
        GosValue::Struct(id) => id as int,
        GosValue::Slice(id) => id as int,
        GosValue::GosMap(id) => id as int,
        _ => 0,
    }
}

/// How many objects of the kind of `x` are on the heap.
spec fn objects_like(h: HeapState, x: GosValue) -> int {
    match x {
        GosValue::Array(_) => h.arrays.len() as int,
        GosValue::Struct(_) => h.structs.len() as int,
        GosValue::Slice(_) => h.slices.len() as int,
        GosValue::GosMap(_) => h.maps.len() as int,
        _ => 0,
    }
}

/// Any number of copies of a value are that many, each a copy of it at every level, and no two
/// of them are one array, struct, slice or map. What was on the heap is left alone.
pub proof fn law_repeated_copies(h: HeapState, x: GosValue, count: nat, i: int, j: int)
    requires
        copying::repeated_copy(h, x, count) is Some,
        (copying::repeated_copy(h, x, count)->0).0.addressable(),
        0 <= i < count,
        0 <= j < count,
    ensures
        ({
            let (g, copies) = copying::repeated_copy(h, x, count)->0;
            &&& copies.len() == count
            &&& copied(g, x, copies[i])
            &&& copying::extends(h, g)
            &&& i != j && (x is Array || x is Struct || x is Slice || x is GosMap) ==> copies[i]
                != copies[j]
        }),
{
    let g = (copying::repeated_copy(h, x, count)->0).0;
    lemma_repeated(h, x, count, g);
}

proof fn lemma_repeated(h: HeapState, x: GosValue, count: nat, g: HeapState)
    requires
        copying::repeated_copy(h, x, count) is Some,
        copying::extends((copying::repeated_copy(h, x, count)->0).0, g),
        g.addressable(),
    ensures
        ({
            let (h1, copies) = copying::repeated_copy(h, x, count)->0;
            &&& copies.len() == count
            &&& copying::extends(h, h1)
            &&& forall|i: int| 0 <= i < count ==> copied(g, x, #[trigger] copies[i])
            &&& x is Array || x is Struct || x is Slice || x is GosMap ==> {
                &&& forall|i: int|
                    0 <= i < count ==> object_of(#[trigger] copies[i]) < objects_like(h1, x)
                &&& forall|i: int, j: int|
                    0 <= i < j < count ==> #[trigger] copies[i] != #[trigger] copies[j]
            }
        }),
    decreases count,
{
    if copying::copy_value(h, x) == Some((h, x)) {
        let fuel = choose|f: nat| #[trigger] copying::copy_at(h, x, f) is Some;
        copying::lemma_copy_value(h, x, fuel);
        assert forall|depth: nat| #[trigger] copied_at(g, x, x, depth) by {
            lemma_copied(h, x, fuel, g, depth);
        }
        assert(copied_at(g, x, x, 1));
    } else if count > 0 {
        let (h1, copies) = copying::repeated_copy(h, x, (count - 1) as nat)->0;
        let (h2, last) = copying::copy_value(h1, x)->0;
        let fuel = choose|f: nat| #[trigger] copying::copy_at(h1, x, f) is Some;
        copying::lemma_copy_value(h1, x, fuel);
        copying::lemma_copy_extends(h1, x, fuel);
        lemma_extends_trans(h1, h2, g);
        lemma_repeated(h, x, (count - 1) as nat, g);
        lemma_extends_trans(h, h1, h2);
        assert forall|depth: nat| #[trigger] copied_at(g, x, last, depth) by {
            lemma_copied(h1, x, fuel, g, depth);
        }
        copying::law_what_a_copy_is(h1, x);
        let all = copies.push(last);
        assert forall|i: int| 0 <= i < count implies copied(g, x, #[trigger] all[i]) by {
            if i < count - 1 {
                assert(all[i] == copies[i]);
            }
        }
        if x is Array || x is Struct || x is Slice || x is GosMap {
            assert forall|i: int| 0 <= i < count implies object_of(#[trigger] all[i])
                < objects_like(h2, x) by {
                if i < count - 1 {
                    assert(all[i] == copies[i]);
                }
            }
            assert forall|i: int, j: int| 0 <= i < j < count implies #[trigger] all[i]
                != #[trigger] all[j] by {
                assert(all[i] == copies[i]);
                if j < count - 1 {
                    assert(all[j] == copies[j]);
                } else {
                    assert(object_of(copies[i]) < objects_like(h1, x));
                }
            }
        }
    }
}

} // verus!
