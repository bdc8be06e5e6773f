//! What equality of values promises: it is reflexive, symmetric and transitive, as
//! far as the comparisons have an answer.
use vstd::prelude::*;

use crate::compare;
use crate::copying;
use crate::hashing;
use crate::heap::HeapState;
use crate::interface_obj::InterfaceObj;
use crate::pointer_obj::{PointerObj, UnsafeData};
use crate::upvalue::UpValueState;
use crate::value::GosValue;

verus! {

/// Whether every untyped pointer of the heap refers to something of the program.
pub open spec fn no_user_data(h: HeapState) -> bool {
    forall|i: int| 0 <= i < h.unsafes.len() ==> #[trigger] h.unsafes[i] is Handle
}

/// A value that can be compared with itself equals itself.
pub proof fn lemma_refl(h: HeapState, x: GosValue, f: nat)
    requires
        no_user_data(h),
    ensures
        compare::eq_at(h, x, x, f) != Some(false),
    decreases f, 0nat,
{
    if f > 0 {
        let less = (f - 1) as nat;
        match x {
            GosValue::Array(a) => lemma_refl_arrays(h, a, less),
            GosValue::Struct(a) => if less > 0 && a < h.structs.len() {
                lemma_refl_values(h, h.structs[a as int].obj, 0, (less - 1) as nat);
            },
            GosValue::Interface(a) => if less > 0 && a < h.ifaces.len() {
                match h.ifaces[a as int].obj {
                    InterfaceObj::Gos(v, _) => lemma_refl(h, v, (less - 1) as nat),
                    _ => {},
                }
            },
            GosValue::UnsafePtr(a) => if less > 0 && a < h.unsafes.len() {
                match h.unsafes[a as int] {
                    UnsafeData::Handle(v) => lemma_refl_pointers(h, v.ptr, (less - 1) as nat),
                    UnsafeData::User(_) => {},
                }
            },
            GosValue::Pointer(p) => lemma_refl_pointers(h, p, less),
            _ => {},
        }
    }
}

proof fn lemma_refl_pointers(h: HeapState, p: PointerObj, f: nat)
    ensures
        compare::pointers_eq_at(h, p, p, f) != Some(false),
{
}

proof fn lemma_refl_arrays(h: HeapState, a: usize, f: nat)
    requires
        no_user_data(h),
    ensures
        compare::arrays_eq_at(h, a, a, f) != Some(false),
    decreases f, 0nat,
{
    if f > 1 && a < h.arrays.len() && h.arrays[a as int].obj.vec < h.vecs.len() {
        lemma_refl_values(h, h.vecs[h.arrays[a as int].obj.vec as int], 0, (f - 2) as nat);
    }
}

proof fn lemma_refl_values(h: HeapState, xs: Seq<GosValue>, i: int, f: nat)
    requires
        no_user_data(h),
    ensures
        compare::values_eq_at(h, xs, xs, i, f) != Some(false),
    decreases f, (if i < xs.len() { 1 + xs.len() - i } else { 1 }) as nat,
{
    if 0 <= i < xs.len() {
        lemma_refl(h, xs[i], f);
        lemma_refl_values(h, xs, i + 1, f);
    }
}

/// Every value equals itself, if it can be compared with itself and no data of an
/// extension is about.
pub proof fn law_equality_is_reflexive(h: HeapState, x: GosValue)
    requires
        no_user_data(h),
        compare::eq_value(h, x, x) is Some,
    ensures
        compare::eq_value(h, x, x) == Some(true),
{
    let f = choose|f: nat| #[trigger] compare::eq_at(h, x, x, f) is Some;
    compare::lemma_eq_value(h, x, x, f);
    lemma_refl(h, x, f);
}

proof fn lemma_sym(h: HeapState, x: GosValue, y: GosValue, f: nat, g: nat)
    requires
        compare::eq_at(h, x, y, f) is Some,
        compare::eq_at(h, y, x, g) is Some,
    ensures
        compare::eq_at(h, x, y, f) == compare::eq_at(h, y, x, g),
    decreases f, 0nat,
{
    let f1 = (f - 1) as nat;
    let g1 = (g - 1) as nat;
    match (x, y) {
        (GosValue::Array(a), GosValue::Array(b)) => lemma_sym_arrays(h, a, b, f1, g1),
        (GosValue::Struct(a), GosValue::Struct(b)) => lemma_sym_structs(h, a, b, f1, g1),
        (GosValue::Interface(a), GosValue::Interface(b)) => {
            match (h.ifaces[a as int].obj, h.ifaces[b as int].obj) {
                (InterfaceObj::Gos(v, _), InterfaceObj::Gos(w, _)) => {
                    lemma_sym(h, v, w, (f1 - 1) as nat, (g1 - 1) as nat);
                },
                _ => {},
            }
        },
        (GosValue::Pointer(p), GosValue::Pointer(q)) => lemma_sym_pointers(h, p, q, f1, g1),
        (GosValue::UnsafePtr(a), GosValue::UnsafePtr(b)) => {
            match (h.unsafes[a as int], h.unsafes[b as int]) {
                (UnsafeData::Handle(v), UnsafeData::Handle(w)) => {
                    lemma_sym_pointers(h, w.ptr, v.ptr, (f1 - 1) as nat, (g1 - 1) as nat);
                },
                _ => {},
            }
        },
        _ => {},
    }
}

proof fn lemma_sym_values(
    h: HeapState,
    xs: Seq<GosValue>,
    ys: Seq<GosValue>,
    i: int,
    f: nat,
    g: nat,
)
    requires
        compare::values_eq_at(h, xs, ys, i, f) is Some,
        compare::values_eq_at(h, ys, xs, i, g) is Some,
    ensures
        compare::values_eq_at(h, xs, ys, i, f) == compare::values_eq_at(h, ys, xs, i, g),
    decreases f, (if i < xs.len() { 1 + xs.len() - i } else { 1 }) as nat,
{
    if 0 <= i < xs.len() && i < ys.len() {
        lemma_sym(h, xs[i], ys[i], f, g);
        if compare::eq_at(h, xs[i], ys[i], f) == Some(true) {
            lemma_sym_values(h, xs, ys, i + 1, f, g);
        }
    }
}

proof fn lemma_sym_arrays(h: HeapState, a: usize, b: usize, f: nat, g: nat)
    requires
        compare::arrays_eq_at(h, a, b, f) is Some,
        compare::arrays_eq_at(h, b, a, g) is Some,
    ensures
        compare::arrays_eq_at(h, a, b, f) == compare::arrays_eq_at(h, b, a, g),
    decreases f, 0nat,
{
    let v = h.arrays[a as int].obj.vec;
    let w = h.arrays[b as int].obj.vec;
    assert(compare::stores_eq_at(h, v, w, (f - 1) as nat) is Some);
    assert(compare::stores_eq_at(h, w, v, (g - 1) as nat) is Some);
    if h.vecs[v as int].len() == h.vecs[w as int].len() {
        lemma_sym_values(
            h,
            h.vecs[v as int],
            h.vecs[w as int],
            0,
            (f - 2) as nat,
            (g - 2) as nat,
        );
    }
}

proof fn lemma_sym_structs(h: HeapState, a: usize, b: usize, f: nat, g: nat)
    requires
        compare::structs_eq_at(h, a, b, f) is Some,
        compare::structs_eq_at(h, b, a, g) is Some,
    ensures
        compare::structs_eq_at(h, a, b, f) == compare::structs_eq_at(h, b, a, g),
    decreases f, 0nat,
{
    lemma_sym_values(
        h,
        h.structs[a as int].obj,
        h.structs[b as int].obj,
        0,
        (f - 1) as nat,
        (g - 1) as nat,
    );
}

proof fn lemma_sym_pointers(h: HeapState, p: PointerObj, q: PointerObj, f: nat, g: nat)
    requires
        compare::pointers_eq_at(h, p, q, f) is Some,
        compare::pointers_eq_at(h, q, p, g) is Some,
    ensures
        compare::pointers_eq_at(h, p, q, f) == compare::pointers_eq_at(h, q, p, g),
    decreases f, 0nat,
{
    let f1 = (f - 1) as nat;
    let g1 = (g - 1) as nat;
    match (p, q) {
        (PointerObj::UpVal(x), PointerObj::UpVal(y)) => {
            if x.inner != y.inner {
                match (h.upvalues[x.inner as int], h.upvalues[y.inner as int]) {
                    (Some(UpValueState::Closed(v)), Some(UpValueState::Closed(w))) => {
                        lemma_sym(h, v, w, (f1 - 1) as nat, (g1 - 1) as nat);
                    },
                    _ => {},
                }
            }
        },
        (PointerObj::Struct(a), PointerObj::Struct(b)) => if a != b {
            lemma_sym_structs(h, a, b, f1, g1);
        },
        (PointerObj::Array(a), PointerObj::Array(b)) => if a != b {
            lemma_sym_arrays(h, a, b, f1, g1);
        },
        _ => {},
    }
}

/// If `x` can be compared with `y` and `y` with `x`, the answers are the same.
pub proof fn law_equality_is_symmetric(h: HeapState, x: GosValue, y: GosValue)
    requires
        compare::eq_value(h, x, y) is Some,
        compare::eq_value(h, y, x) is Some,
    ensures
        compare::eq_value(h, x, y) == compare::eq_value(h, y, x),
{
    let f = choose|f: nat| #[trigger] compare::eq_at(h, x, y, f) is Some;
    compare::lemma_eq_value(h, x, y, f);
    let g = choose|g: nat| #[trigger] compare::eq_at(h, y, x, g) is Some;
    compare::lemma_eq_value(h, y, x, g);
    lemma_sym(h, x, y, f, g);
}

proof fn lemma_trans(
    h: HeapState,
    x: GosValue,
    y: GosValue,
    z: GosValue,
    f: nat,
    g: nat,
    k: nat,
)
    requires
        compare::eq_at(h, x, y, f) == Some(true),
        compare::eq_at(h, y, z, g) == Some(true),
        compare::eq_at(h, x, z, k) is Some,
    ensures
        compare::eq_at(h, x, z, k) == Some(true),
    decreases k, 0nat,
{
    let f1 = (f - 1) as nat;
    let g1 = (g - 1) as nat;
    let k1 = (k - 1) as nat;
    match (x, y, z) {
        (GosValue::Array(a), GosValue::Array(b), GosValue::Array(c)) => {
            lemma_trans_arrays(h, a, b, c, f1, g1, k1);
        },
        (GosValue::Struct(a), GosValue::Struct(b), GosValue::Struct(c)) => {
            lemma_trans_structs(h, a, b, c, f1, g1, k1);
        },
        (GosValue::Interface(a), GosValue::Interface(b), GosValue::Interface(c)) => {
            match (h.ifaces[a as int].obj, h.ifaces[b as int].obj, h.ifaces[c as int].obj) {
                (
                    InterfaceObj::Gos(u, _),
                    InterfaceObj::Gos(v, _),
                    InterfaceObj::Gos(w, _),
                ) => {
                    lemma_trans(
                        h,
                        u,
                        v,
                        w,
                        (f1 - 1) as nat,
                        (g1 - 1) as nat,
                        (k1 - 1) as nat,
                    );
                },
                _ => {},
            }
        },
        (GosValue::Pointer(p), GosValue::Pointer(q), GosValue::Pointer(r)) => {
            lemma_trans_pointers(h, p, q, r, f1, g1, k1);
        },
        (GosValue::UnsafePtr(a), GosValue::UnsafePtr(b), GosValue::UnsafePtr(c)) => {
            match (h.unsafes[a as int], h.unsafes[b as int], h.unsafes[c as int]) {
                (UnsafeData::Handle(u), UnsafeData::Handle(v), UnsafeData::Handle(w)) => {
                    lemma_trans_pointers(
                        h,
                        w.ptr,
                        v.ptr,
                        u.ptr,
                        (g1 - 1) as nat,
                        (f1 - 1) as nat,
                        (k1 - 1) as nat,
                    );
                },
                _ => {},
            }
        },
        _ => {},
    }
}

proof fn lemma_trans_values(
    h: HeapState,
    xs: Seq<GosValue>,
    ys: Seq<GosValue>,
    zs: Seq<GosValue>,
    i: int,
    f: nat,
    g: nat,
    k: nat,
)
    requires
        compare::values_eq_at(h, xs, ys, i, f) == Some(true),
        compare::values_eq_at(h, ys, zs, i, g) == Some(true),
        compare::values_eq_at(h, xs, zs, i, k) is Some,
    ensures
        compare::values_eq_at(h, xs, zs, i, k) == Some(true),
    decreases k, (if i < xs.len() { 1 + xs.len() - i } else { 1 }) as nat,
{
    if 0 <= i < xs.len() {
        lemma_trans(h, xs[i], ys[i], zs[i], f, g, k);
        lemma_trans_values(h, xs, ys, zs, i + 1, f, g, k);
    }
}

proof fn lemma_trans_arrays(
    h: HeapState,
    a: usize,
    b: usize,
    c: usize,
    f: nat,
    g: nat,
    k: nat,
)
    requires
        compare::arrays_eq_at(h, a, b, f) == Some(true),
        compare::arrays_eq_at(h, b, c, g) == Some(true),
        compare::arrays_eq_at(h, a, c, k) is Some,
    ensures
        compare::arrays_eq_at(h, a, c, k) == Some(true),
    decreases k, 0nat,
{
    let u = h.arrays[a as int].obj.vec;
    let v = h.arrays[b as int].obj.vec;
    let w = h.arrays[c as int].obj.vec;
    assert(compare::stores_eq_at(h, u, v, (f - 1) as nat) is Some);
    assert(compare::stores_eq_at(h, v, w, (g - 1) as nat) is Some);
    assert(compare::stores_eq_at(h, u, w, (k - 1) as nat) is Some);
    lemma_trans_values(
        h,
        h.vecs[u as int],
        h.vecs[v as int],
        h.vecs[w as int],
        0,
        (f - 2) as nat,
        (g - 2) as nat,
        (k - 2) as nat,
    );
}

proof fn lemma_trans_structs(
    h: HeapState,
    a: usize,
    b: usize,
    c: usize,
    f: nat,
    g: nat,
    k: nat,
)
    requires
        compare::structs_eq_at(h, a, b, f) == Some(true),
        compare::structs_eq_at(h, b, c, g) == Some(true),
        compare::structs_eq_at(h, a, c, k) is Some,
    ensures
        compare::structs_eq_at(h, a, c, k) == Some(true),
    decreases k, 0nat,
{
    lemma_trans_values(
        h,
        h.structs[a as int].obj,
        h.structs[b as int].obj,
        h.structs[c as int].obj,
        0,
        (f - 1) as nat,
        (g - 1) as nat,
        (k - 1) as nat,
    );
}

/// Two answers to one question about values are the same answer.
proof fn lemma_agree(h: HeapState, x: GosValue, y: GosValue, f: nat, g: nat)
    requires
        compare::eq_at(h, x, y, f) is Some,
        compare::eq_at(h, x, y, g) is Some,
    ensures
        compare::eq_at(h, x, y, f) == compare::eq_at(h, x, y, g),
{
    compare::lemma_eq_value(h, x, y, f);
    compare::lemma_eq_value(h, x, y, g);
}

proof fn lemma_trans_pointers(
    h: HeapState,
    p: PointerObj,
    q: PointerObj,
    r: PointerObj,
    f: nat,
    g: nat,
    k: nat,
)
    requires
        compare::pointers_eq_at(h, p, q, f) == Some(true),
        compare::pointers_eq_at(h, q, r, g) == Some(true),
        compare::pointers_eq_at(h, p, r, k) is Some,
    ensures
        compare::pointers_eq_at(h, p, r, k) == Some(true),
    decreases k, 0nat,
{
    if p == q {
        assert(compare::eq_at(h, GosValue::Pointer(q), GosValue::Pointer(r), g + 1) == Some(true));
        lemma_agree(h, GosValue::Pointer(q), GosValue::Pointer(r), g + 1, k + 1);
    } else if q == r {
        assert(compare::eq_at(h, GosValue::Pointer(p), GosValue::Pointer(q), f + 1) == Some(true));
        lemma_agree(h, GosValue::Pointer(p), GosValue::Pointer(q), f + 1, k + 1);
    } else {
        let f1 = (f - 1) as nat;
        let g1 = (g - 1) as nat;
        let k1 = (k - 1) as nat;
        match (p, q, r) {
            (PointerObj::UpVal(x), PointerObj::UpVal(y), PointerObj::UpVal(z)) => {
                if x.inner != z.inner {
                    match (
                        h.upvalues[x.inner as int],
                        h.upvalues[y.inner as int],
                        h.upvalues[z.inner as int],
                    ) {
                        (
                            Some(UpValueState::Closed(u)),
                            Some(UpValueState::Closed(v)),
                            Some(UpValueState::Closed(w)),
                        ) => {
                            lemma_trans(
                                h,
                                u,
                                v,
                                w,
                                (f1 - 1) as nat,
                                (g1 - 1) as nat,
                                (k1 - 1) as nat,
                            );
                        },
                        _ => {},
                    }
                }
            },
            (PointerObj::Struct(a), PointerObj::Struct(b), PointerObj::Struct(c)) => if a != c {
                lemma_trans_structs(h, a, b, c, f1, g1, k1);
            },
            (PointerObj::Array(a), PointerObj::Array(b), PointerObj::Array(c)) => if a != c {
                lemma_trans_arrays(h, a, b, c, f1, g1, k1);
            },
            _ => {},
        }
    }
}

/// What equals the same value is equal, if it can be compared.
pub proof fn law_equality_is_transitive(h: HeapState, x: GosValue, y: GosValue, z: GosValue)
    requires
        compare::eq_value(h, x, y) == Some(true),
        compare::eq_value(h, y, z) == Some(true),
        compare::eq_value(h, x, z) is Some,
    ensures
        compare::eq_value(h, x, z) == Some(true),
{
    let f = choose|f: nat| #[trigger] compare::eq_at(h, x, y, f) is Some;
    compare::lemma_eq_value(h, x, y, f);
    let g = choose|g: nat| #[trigger] compare::eq_at(h, y, z, g) is Some;
    compare::lemma_eq_value(h, y, z, g);
    let k = choose|k: nat| #[trigger] compare::eq_at(h, x, z, k) is Some;
    compare::lemma_eq_value(h, x, z, k);
    lemma_trans(h, x, y, z, f, g, k);
}

/// Whether two pointers, if they are equal, point at one thing: they do not lead to two
/// structs, two arrays or two closed up values, which may be equal by what they hold.
pub open spec fn point_alike(h: HeapState, p: PointerObj, q: PointerObj) -> bool {
    match (p, q) {
        (PointerObj::Struct(a), PointerObj::Struct(b)) => a == b,
        (PointerObj::Array(a), PointerObj::Array(b)) => a == b,
        (PointerObj::UpVal(a), PointerObj::UpVal(b)) => a.inner == b.inner || !(
        h.upvalues[a.inner as int] matches Some(UpValueState::Closed(_))),
        _ => true,
    }
}

/// Whether comparing `x` and `y` meets no pointers to two things that may be equal by
/// what they hold, and no structs with different numbers of fields, as far as `f` steps
/// show.
pub open spec fn plain_at(h: HeapState, x: GosValue, y: GosValue, f: nat) -> bool
    decreases f,
{
    if f == 0 {
        true
    } else {
        let less = (f - 1) as nat;
        match (x, y) {
            (GosValue::Array(a), GosValue::Array(b)) => {
                let xs = h.vecs[h.arrays[a as int].obj.vec as int];
                let ys = h.vecs[h.arrays[b as int].obj.vec as int];
                forall|i: int|
                    0 <= i < xs.len() && i < ys.len() ==> plain_at(
                        h,
                        #[trigger] xs[i],
                        ys[i],
                        less,
                    )
            },
            (GosValue::Struct(a), GosValue::Struct(b)) => {
                let xs = h.structs[a as int].obj;
                let ys = h.structs[b as int].obj;
                &&& xs.len() == ys.len()
                &&& forall|i: int|
                    0 <= i < xs.len() ==> plain_at(h, #[trigger] xs[i], ys[i], less)
            },
            (GosValue::Interface(a), GosValue::Interface(b)) => {
                match (h.ifaces[a as int].obj, h.ifaces[b as int].obj) {
                    (InterfaceObj::Gos(v, _), InterfaceObj::Gos(w, _)) => plain_at(h, v, w, less),
                    _ => true,
                }
            },
            (GosValue::Pointer(p), GosValue::Pointer(q)) => point_alike(h, p, q),
            (GosValue::UnsafePtr(a), GosValue::UnsafePtr(b)) => {
                match (h.unsafes[a as int], h.unsafes[b as int]) {
                    (UnsafeData::Handle(v), UnsafeData::Handle(w)) => point_alike(h, w.ptr, v.ptr),
                    _ => true,
                }
            },
            _ => true,
        }
    }
}

/// Whether comparing `x` and `y` meets no pointers to two things that may be equal by
/// what they hold, and no structs with different numbers of fields.
pub open spec fn plain(h: HeapState, x: GosValue, y: GosValue) -> bool {
    forall|f: nat| #[trigger] plain_at(h, x, y, f)
}

proof fn lemma_hash(h: HeapState, x: GosValue, y: GosValue, f: nat, g: nat, k: nat)
    requires
        plain_at(h, x, y, f),
        compare::eq_at(h, x, y, f) == Some(true),
        hashing::hash_at(h, x, g) is Some,
        hashing::hash_at(h, y, k) is Some,
    ensures
        hashing::hash_at(h, x, g) == hashing::hash_at(h, y, k),
    decreases f, 0nat,
{
    let f1 = (f - 1) as nat;
    let g1 = (g - 1) as nat;
    let k1 = (k - 1) as nat;
    match (x, y) {
        (GosValue::Array(a), GosValue::Array(b)) => {
            let v = h.arrays[a as int].obj.vec;
            let w = h.arrays[b as int].obj.vec;
            let xs = h.vecs[v as int];
            let ys = h.vecs[w as int];
            assert(compare::stores_eq_at(h, v, w, (f1 - 1) as nat) == Some(true));
            let f3 = (f1 - 2) as nat;
            assert forall|i: int| 0 <= i < xs.len() implies plain_at(
                h,
                #[trigger] xs[i],
                ys[i],
                f3,
            ) by {
                assert(plain_at(h, xs[i], ys[i], f1));
                lemma_plain_less(h, xs[i], ys[i], f1, f3);
            }
            lemma_hash_values(h, xs, ys, 0, f3, g1, k1);
        },
        (GosValue::Struct(a), GosValue::Struct(b)) => {
            let xs = h.structs[a as int].obj;
            let ys = h.structs[b as int].obj;
            let f2 = (f1 - 1) as nat;
            assert forall|i: int| 0 <= i < xs.len() implies plain_at(
                h,
                #[trigger] xs[i],
                ys[i],
                f2,
            ) by {
                assert(plain_at(h, xs[i], ys[i], f1));
                lemma_plain_less(h, xs[i], ys[i], f1, f2);
            }
            lemma_hash_values(h, xs, ys, 0, f2, g1, k1);
        },
        (GosValue::Interface(a), GosValue::Interface(b)) => {
            match (h.ifaces[a as int].obj, h.ifaces[b as int].obj) {
                (InterfaceObj::Gos(v, _), InterfaceObj::Gos(w, _)) => {
                    lemma_plain_less(h, v, w, f1, (f1 - 1) as nat);
                    lemma_hash(h, v, w, (f1 - 1) as nat, g1, k1);
                },
                _ => {},
            }
        },
        (GosValue::Pointer(p), GosValue::Pointer(q)) => lemma_hash_pointers(h, p, q, f1),
        (GosValue::UnsafePtr(a), GosValue::UnsafePtr(b)) => {
            match (h.unsafes[a as int], h.unsafes[b as int]) {
                (UnsafeData::Handle(v), UnsafeData::Handle(w)) => {
                    lemma_hash_pointers(h, w.ptr, v.ptr, (f1 - 1) as nat);
                },
                _ => {},
            }
        },
        _ => {},
    }
}

proof fn lemma_hash_pointers(h: HeapState, p: PointerObj, q: PointerObj, f: nat)
    requires
        point_alike(h, p, q),
        compare::pointers_eq_at(h, p, q, f) == Some(true),
    ensures
        hashing::pointer_hash(h, p) == hashing::pointer_hash(h, q),
{
}

proof fn lemma_plain_less(h: HeapState, x: GosValue, y: GosValue, f: nat, less: nat)
    requires
        less <= f,
        plain_at(h, x, y, f),
    ensures
        plain_at(h, x, y, less),
    decreases f,
{
    if less > 0 {
        let f1 = (f - 1) as nat;
        let l1 = (less - 1) as nat;
        match (x, y) {
            (GosValue::Array(a), GosValue::Array(b)) => {
                let xs = h.vecs[h.arrays[a as int].obj.vec as int];
                let ys = h.vecs[h.arrays[b as int].obj.vec as int];
                assert forall|i: int| 0 <= i < xs.len() && i < ys.len() implies plain_at(
                    h,
                    #[trigger] xs[i],
                    ys[i],
                    l1,
                ) by {
                    lemma_plain_less(h, xs[i], ys[i], f1, l1);
                }
            },
            (GosValue::Struct(a), GosValue::Struct(b)) => {
                let xs = h.structs[a as int].obj;
                let ys = h.structs[b as int].obj;
                assert forall|i: int| 0 <= i < xs.len() implies plain_at(
                    h,
                    #[trigger] xs[i],
                    ys[i],
                    l1,
                ) by {
                    lemma_plain_less(h, xs[i], ys[i], f1, l1);
                }
            },
            (GosValue::Interface(a), GosValue::Interface(b)) => {
                match (h.ifaces[a as int].obj, h.ifaces[b as int].obj) {
                    (InterfaceObj::Gos(v, _), InterfaceObj::Gos(w, _)) => {
                        lemma_plain_less(h, v, w, f1, l1);
                    },
                    _ => {},
                }
            },
            _ => {},
        }
    }
}

proof fn lemma_hash_values(
    h: HeapState,
    xs: Seq<GosValue>,
    ys: Seq<GosValue>,
    i: int,
    f: nat,
    g: nat,
    k: nat,
)
    requires
        0 <= i,
        xs.len() == ys.len(),
        forall|j: int| 0 <= j < xs.len() ==> plain_at(h, #[trigger] xs[j], ys[j], f),
        compare::values_eq_at(h, xs, ys, i, f) == Some(true),
        hashing::values_hash_at(h, xs, i, g) is Some,
        hashing::values_hash_at(h, ys, i, k) is Some,
    ensures
        hashing::values_hash_at(h, xs, i, g) == hashing::values_hash_at(h, ys, i, k),
    decreases f, (if i < xs.len() { 1 + xs.len() - i } else { 1 }) as nat,
{
    if i < xs.len() {
        lemma_hash(h, xs[i], ys[i], f, g, k);
        lemma_hash_values(h, xs, ys, i + 1, f, g, k);
    }
}

/// Equal values have the same hash, if comparing them meets no pointers to two things that
/// may be equal by what they hold, and no structs with different numbers of fields.
pub proof fn law_equal_values_hash_alike(h: HeapState, x: GosValue, y: GosValue)
    requires
        plain(h, x, y),
        compare::eq_value(h, x, y) == Some(true),
        hashing::hash_value(h, x) is Some,
        hashing::hash_value(h, y) is Some,
    ensures
        hashing::hash_value(h, x) == hashing::hash_value(h, y),
        hashing::key_hash(h, x) == hashing::key_hash(h, y),
{
    let f = choose|f: nat| #[trigger] compare::eq_at(h, x, y, f) is Some;
    compare::lemma_eq_value(h, x, y, f);
    let g = choose|g: nat| #[trigger] hashing::hash_at(h, x, g) is Some;
    hashing::lemma_hash_value(h, x, g);
    let k = choose|k: nat| #[trigger] hashing::hash_at(h, y, k) is Some;
    hashing::lemma_hash_value(h, y, k);
    assert(plain_at(h, x, y, f));
    lemma_hash(h, x, y, f, g, k);
}

/// Whether a value is all there is to it: nothing on the heap belongs to it.
pub open spec fn flat(x: GosValue) -> bool {
    match x {
        GosValue::Nil => true,
        GosValue::Scalar(_, _) => true,
        GosValue::Function(_) => true,
        GosValue::Package(_) => true,
        GosValue::Metadata(_) => true,
        _ => false,
    }
}

/// Values that are all there is to them can always be compared, hashed and copied:
/// they are equal if they are the same, and a copy is the value itself.
pub proof fn law_flat_values_are_simple(h: HeapState, x: GosValue, y: GosValue)
    requires
        flat(x),
        flat(y),
    ensures
        compare::eq_value(h, x, y) == Some(x == y),
        hashing::hash_value(h, x) is Some,
        hashing::key_hash(h, x) is Some,
        copying::copy_value(h, x) == Some((h, x)),
{
    assert(compare::eq_at(h, x, y, 1) is Some);
    compare::lemma_eq_value(h, x, y, 1);
    assert(hashing::hash_at(h, x, 1) is Some);
    hashing::lemma_hash_value(h, x, 1);
    assert(copying::copy_at(h, x, 1) is Some);
    copying::lemma_copy_value(h, x, 1);
}

/// Any number of copies of a value that is all there is to it are that value.
pub proof fn law_flat_values_repeat(h: HeapState, x: GosValue, count: nat)
    requires
        flat(x),
    ensures
        copying::repeated_copy(h, x, count) == Some((h, Seq::new(count, |i: int| x))),
    decreases count,
{
    law_flat_values_are_simple(h, x, x);
    if count > 0 {
        law_flat_values_repeat(h, x, (count - 1) as nat);
        assert(Seq::new((count - 1) as nat, |i: int| x).push(x) =~= Seq::new(count, |i: int| x));
    } else {
        assert(Seq::new(0, |i: int| x) =~= Seq::<GosValue>::empty());
    }
}

} // verus!
