//! What maps promise.
use vstd::prelude::*;

use crate::compare;
use crate::equality_laws;
use crate::hashing;
use crate::heap::HeapState;
use crate::interface_obj::InterfaceObj;
use crate::map_obj;
use crate::map_obj::{MapEntry, MapObj};
use crate::pointer_obj::{PointerObj, UnsafeData};
use crate::upvalue::UpValueState;
use crate::value::GosValue;

verus! {

/// Whether two heaps differ at most in the entries of maps.
pub open spec fn alike(h: HeapState, g: HeapState) -> bool {
    g == (HeapState { map_data: g.map_data, ..h })
}

proof fn lemma_eq_alike(h: HeapState, g: HeapState, x: GosValue, y: GosValue, f: nat)
    requires
        alike(h, g),
    ensures
        compare::eq_at(h, x, y, f) == compare::eq_at(g, x, y, f),
    decreases f, 0nat,
{
    if f > 0 {
        let f1 = (f - 1) as nat;
        match (x, y) {
            (GosValue::Array(a), GosValue::Array(b)) => lemma_arrays_alike(h, g, a, b, f1),
            (GosValue::Struct(a), GosValue::Struct(b)) => lemma_structs_alike(h, g, a, b, f1),
            (GosValue::Interface(a), GosValue::Interface(b)) => if f1 > 0 && a < h.ifaces.len()
                && b < h.ifaces.len() {
                match (h.ifaces[a as int].obj, h.ifaces[b as int].obj) {
                    (InterfaceObj::Gos(v, _), InterfaceObj::Gos(w, _)) => {
                        lemma_eq_alike(h, g, v, w, (f1 - 1) as nat);
                    },
                    _ => {},
                }
            },
            (GosValue::Pointer(p), GosValue::Pointer(q)) => lemma_pointers_alike(h, g, p, q, f1),
            (GosValue::UnsafePtr(a), GosValue::UnsafePtr(b)) => if f1 > 0 && a < h.unsafes.len()
                && b < h.unsafes.len() {
                match (h.unsafes[a as int], h.unsafes[b as int]) {
                    (UnsafeData::Handle(v), UnsafeData::Handle(w)) => {
                        lemma_pointers_alike(h, g, w.ptr, v.ptr, (f1 - 1) as nat);
                    },
                    _ => {},
                }
            },
            _ => {},
        }
    }
}

proof fn lemma_values_alike(
    h: HeapState,
    g: HeapState,
    xs: Seq<GosValue>,
    ys: Seq<GosValue>,
    i: int,
    f: nat,
)
    requires
        alike(h, g),
    ensures
        compare::values_eq_at(h, xs, ys, i, f) == compare::values_eq_at(g, xs, ys, i, f),
    decreases f, (if i < xs.len() { 1 + xs.len() - i } else { 1 }) as nat,
{
    if 0 <= i < xs.len() && i < ys.len() {
        lemma_eq_alike(h, g, xs[i], ys[i], f);
        lemma_values_alike(h, g, xs, ys, i + 1, f);
    }
}

proof fn lemma_arrays_alike(h: HeapState, g: HeapState, a: usize, b: usize, f: nat)
    requires
        alike(h, g),
    ensures
        compare::arrays_eq_at(h, a, b, f) == compare::arrays_eq_at(g, a, b, f),
    decreases f, 0nat,
{
    if f > 0 && a < h.arrays.len() && b < h.arrays.len() {
        let v = h.arrays[a as int].obj.vec;
        let w = h.arrays[b as int].obj.vec;
        let f1 = (f - 1) as nat;
        if f1 > 0 && v < h.vecs.len() && w < h.vecs.len() {
            lemma_values_alike(h, g, h.vecs[v as int], h.vecs[w as int], 0, (f1 - 1) as nat);
        }
        assert(compare::stores_eq_at(h, v, w, f1) == compare::stores_eq_at(g, v, w, f1));
    }
}

proof fn lemma_structs_alike(h: HeapState, g: HeapState, a: usize, b: usize, f: nat)
    requires
        alike(h, g),
    ensures
        compare::structs_eq_at(h, a, b, f) == compare::structs_eq_at(g, a, b, f),
    decreases f, 0nat,
{
    if f > 0 && a < h.structs.len() && b < h.structs.len() {
        lemma_values_alike(
            h,
            g,
            h.structs[a as int].obj,
            h.structs[b as int].obj,
            0,
            (f - 1) as nat,
        );
    }
}

proof fn lemma_pointers_alike(h: HeapState, g: HeapState, p: PointerObj, q: PointerObj, f: nat)
    requires
        alike(h, g),
    ensures
        compare::pointers_eq_at(h, p, q, f) == compare::pointers_eq_at(g, p, q, f),
    decreases f, 0nat,
{
    if f > 0 {
        let f1 = (f - 1) as nat;
        match (p, q) {
            (PointerObj::UpVal(x), PointerObj::UpVal(y)) => {
                if f1 > 0 && x.inner < h.upvalues.len() && y.inner < h.upvalues.len() {
                    match (h.upvalues[x.inner as int], h.upvalues[y.inner as int]) {
                        (Some(UpValueState::Closed(v)), Some(UpValueState::Closed(w))) => {
                            lemma_eq_alike(h, g, v, w, (f1 - 1) as nat);
                        },
                        _ => {},
                    }
                }
            },
            (PointerObj::Struct(a), PointerObj::Struct(b)) => lemma_structs_alike(h, g, a, b, f1),
            (PointerObj::Array(a), PointerObj::Array(b)) => lemma_arrays_alike(h, g, a, b, f1),
            _ => {},
        }
    }
}

proof fn lemma_hash_alike(h: HeapState, g: HeapState, x: GosValue, f: nat)
    requires
        alike(h, g),
    ensures
        hashing::hash_at(h, x, f) == hashing::hash_at(g, x, f),
    decreases f, 0nat,
{
    if f > 0 {
        let f1 = (f - 1) as nat;
        match x {
            GosValue::Array(id) => if id < h.arrays.len() && h.arrays[id as int].obj.vec
                < h.vecs.len() {
                lemma_values_hash_alike(
                    h,
                    g,
                    h.vecs[h.arrays[id as int].obj.vec as int],
                    0,
                    f1,
                );
            },
            GosValue::Struct(id) => if id < h.structs.len() {
                lemma_values_hash_alike(h, g, h.structs[id as int].obj, 0, f1);
            },
            GosValue::Interface(id) => if id < h.ifaces.len() {
                match h.ifaces[id as int].obj {
                    InterfaceObj::Gos(v, _) => lemma_hash_alike(h, g, v, f1),
                    _ => {},
                }
            },
            _ => {},
        }
    }
}

proof fn lemma_values_hash_alike(h: HeapState, g: HeapState, xs: Seq<GosValue>, i: int, f: nat)
    requires
        alike(h, g),
    ensures
        hashing::values_hash_at(h, xs, i, f) == hashing::values_hash_at(g, xs, i, f),
    decreases f, (if i < xs.len() { 1 + xs.len() - i } else { 1 }) as nat,
{
    if i < xs.len() {
        lemma_hash_alike(h, g, xs[i], f);
        lemma_values_hash_alike(h, g, xs, i + 1, f);
    }
}

/// What is in maps plays no part in comparing and hashing.
pub proof fn law_comparing_and_hashing_ignore_maps(
    h: HeapState,
    g: HeapState,
    x: GosValue,
    y: GosValue,
)
    requires
        alike(h, g),
    ensures
        compare::eq_value(h, x, y) == compare::eq_value(g, x, y),
        hashing::hash_value(h, x) == hashing::hash_value(g, x),
{
    assert forall|f: nat| #[trigger] compare::eq_at(h, x, y, f) == compare::eq_at(g, x, y, f) by {
        lemma_eq_alike(h, g, x, y, f);
    }
    if exists|f: nat| #[trigger] compare::eq_at(h, x, y, f) is Some {
        let f = choose|f: nat| #[trigger] compare::eq_at(h, x, y, f) is Some;
        compare::lemma_eq_value(g, x, y, f);
    } else {
        assert forall|f: nat| #[trigger] compare::eq_at(g, x, y, f) is None by {
            lemma_eq_alike(h, g, x, y, f);
        }
    }
    if exists|f: nat| #[trigger] hashing::hash_at(h, x, f) is Some {
        let f = choose|f: nat| #[trigger] hashing::hash_at(h, x, f) is Some;
        hashing::lemma_hash_value(h, x, f);
        lemma_hash_alike(h, g, x, f);
        hashing::lemma_hash_value(g, x, f);
    } else {
        assert forall|f: nat| #[trigger] hashing::hash_at(g, x, f) is None by {
            lemma_hash_alike(h, g, x, f);
        }
    }
}

/// Looking for a key meets the same entries in heaps that are alike.
proof fn lemma_find_alike(
    h: HeapState,
    g: HeapState,
    entries: Seq<MapEntry>,
    hash: u64,
    key: GosValue,
    i: int,
)
    requires
        alike(h, g),
        0 <= i,
    ensures
        map_obj::find_from(h, entries, hash, key, i) == map_obj::find_from(
            g,
            entries,
            hash,
            key,
            i,
        ),
    decreases entries.len() - i,
{
    if i < entries.len() {
        law_comparing_and_hashing_ignore_maps(h, g, key, entries[i].key);
        lemma_find_alike(h, g, entries, hash, key, i + 1);
    }
}

/// Where a key was found does not depend on values, and what is found lies in the map.
proof fn lemma_find_by_keys(
    h: HeapState,
    entries: Seq<MapEntry>,
    others: Seq<MapEntry>,
    hash: u64,
    key: GosValue,
    i: int,
)
    requires
        0 <= i,
        entries.len() == others.len(),
        forall|k: int|
            0 <= k < entries.len() ==> #[trigger] entries[k].hash == others[k].hash
                && entries[k].key == others[k].key,
    ensures
        map_obj::find_from(h, entries, hash, key, i) == map_obj::find_from(
            h,
            others,
            hash,
            key,
            i,
        ),
    decreases entries.len() - i,
{
    if i < entries.len() {
        assert(entries[i].hash == others[i].hash);
        lemma_find_by_keys(h, entries, others, hash, key, i + 1);
    }
}

/// What is found lies in the map, has the hash, and is equal to the key; what comes
/// before it is not.
proof fn lemma_found(h: HeapState, entries: Seq<MapEntry>, hash: u64, key: GosValue, i: int)
    requires
        0 <= i,
        map_obj::find_from(h, entries, hash, key, i) is Some,
    ensures
        match map_obj::find_from(h, entries, hash, key, i)->0 {
            Some(j) => {
                &&& i <= j < entries.len()
                &&& entries[j].hash == hash
                &&& compare::eq_value(h, key, entries[j].key) == Some(true)
                &&& forall|k: int|
                    i <= k < j && #[trigger] entries[k].hash == hash ==> compare::eq_value(
                        h,
                        key,
                        entries[k].key,
                    ) == Some(false)
            },
            None => forall|k: int|
                i <= k < entries.len() && #[trigger] entries[k].hash == hash
                    ==> compare::eq_value(h, key, entries[k].key) == Some(false),
        },
    decreases entries.len() - i,
{
    if i < entries.len() {
        if entries[i].hash != hash || compare::eq_value(h, key, entries[i].key) == Some(false) {
            lemma_found(h, entries, hash, key, i + 1);
        }
    }
}

/// Looking for a key in a map with one more entry.
proof fn lemma_find_pushed(
    h: HeapState,
    entries: Seq<MapEntry>,
    last: MapEntry,
    hash: u64,
    key: GosValue,
    i: int,
)
    requires
        0 <= i <= entries.len(),
    ensures
        map_obj::find_from(h, entries.push(last), hash, key, i) == match map_obj::find_from(
            h,
            entries,
            hash,
            key,
            i,
        ) {
            Some(None) => map_obj::find_from(
                h,
                entries.push(last),
                hash,
                key,
                entries.len() as int,
            ),
            other => other,
        },
    decreases entries.len() - i,
{
    if i < entries.len() {
        assert(entries.push(last)[i] == entries[i]);
        lemma_find_pushed(h, entries, last, hash, key, i + 1);
    }
}

proof fn lemma_find_in_last(h: HeapState, entries: Seq<MapEntry>, hash: u64, key: GosValue)
    requires
        entries.len() > 0,
    ensures
        map_obj::find_from(h, entries, hash, key, entries.len() - 1) == if entries.last().hash
            != hash {
            Some(None)
        } else {
            match compare::eq_value(h, key, entries.last().key) {
                Some(true) => Some(Some(entries.len() - 1)),
                Some(false) => Some(None),
                None => None,
            }
        },
{
    reveal_with_fuel(map_obj::find_from, 2);
}

/// No key occurs twice.
pub open spec fn distinct(h: HeapState, entries: Seq<MapEntry>) -> bool {
    forall|i: int, j: int|
        #![trigger entries[i], entries[j]]
        0 <= i < entries.len() && 0 <= j < entries.len() && i != j && entries[i].hash
            == entries[j].hash ==> compare::eq_value(h, entries[i].key, entries[j].key) != Some(
            true,
        )
}

/// Inserting keeps the keys of a map distinct.
pub proof fn law_insert_keeps_keys_distinct(
    h: HeapState,
    map: MapObj,
    key: GosValue,
    val: GosValue,
)
    requires
        map.map < h.map_data.len(),
        map.lookup(h, key) is Some,
        distinct(h, map.entries(h)),
    ensures
        distinct(map.after_insert(h, key, val), map.entries(map.after_insert(h, key, val))),
{
    let g = map.after_insert(h, key, val);
    let before = map.entries(h);
    let after = map.entries(g);
    assert(alike(h, g));
    lemma_found(h, before, hashing::key_hash(h, key)->0, key, 0);
    assert forall|i: int, j: int|
        #![trigger after[i], after[j]]
        0 <= i < after.len() && 0 <= j < after.len() && i != j && after[i].hash
            == after[j].hash implies compare::eq_value(g, after[i].key, after[j].key) != Some(
        true,
    ) by {
        law_comparing_and_hashing_ignore_maps(h, g, after[i].key, after[j].key);
        if i < before.len() && j < before.len() {
            assert(before[i].key == after[i].key && before[i].hash == after[i].hash);
            assert(before[j].key == after[j].key && before[j].hash == after[j].hash);
        } else if i < before.len() {
            assert(before[i] == after[i]);
            if compare::eq_value(h, before[i].key, key) is Some {
                equality_laws::law_equality_is_symmetric(h, key, before[i].key);
            }
        } else {
            assert(before[j] == after[j]);
        }
    }
}

/// Taking a key out keeps the keys of a map distinct.
pub proof fn law_delete_keeps_keys_distinct(h: HeapState, map: MapObj, key: GosValue)
    requires
        map.map < h.map_data.len(),
        map.lookup(h, key) is Some,
        distinct(h, map.entries(h)),
    ensures
        distinct(map.after_delete(h, key), map.entries(map.after_delete(h, key))),
{
    let g = map.after_delete(h, key);
    let before = map.entries(h);
    let after = map.entries(g);
    assert(alike(h, g));
    lemma_found(h, before, hashing::key_hash(h, key)->0, key, 0);
    let at = match map.lookup(h, key)->0 {
        Some(i) => i,
        None => before.len() as int,
    };
    assert forall|i: int, j: int|
        #![trigger after[i], after[j]]
        0 <= i < after.len() && 0 <= j < after.len() && i != j && after[i].hash
            == after[j].hash implies compare::eq_value(g, after[i].key, after[j].key) != Some(
        true,
    ) by {
        law_comparing_and_hashing_ignore_maps(h, g, after[i].key, after[j].key);
        let p = if i < at {
            i
        } else {
            i + 1
        };
        let q = if j < at {
            j
        } else {
            j + 1
        };
        assert(before[p] == after[i]);
        assert(before[q] == after[j]);
    }
}

/// There is nothing to find in a row of entries none of which the key equals.
proof fn lemma_find_nothing(
    h: HeapState,
    entries: Seq<MapEntry>,
    hash: u64,
    key: GosValue,
    i: int,
)
    requires
        0 <= i,
        forall|k: int|
            0 <= k < entries.len() && #[trigger] entries[k].hash == hash ==> compare::eq_value(
                h,
                key,
                entries[k].key,
            ) == Some(false),
    ensures
        map_obj::find_from(h, entries, hash, key, i) == Some(None::<int>),
    decreases entries.len() - i,
{
    if i < entries.len() {
        lemma_find_nothing(h, entries, hash, key, i + 1);
    }
}

/// Looking for a key in a map from which an entry for another key was removed.
proof fn lemma_find_removed(
    h: HeapState,
    entries: Seq<MapEntry>,
    at: int,
    hash: u64,
    key: GosValue,
    i: int,
)
    requires
        0 <= i <= at < entries.len() || (0 <= at < i <= entries.len()),
        map_obj::find_from(h, entries, hash, key, i) is Some,
        map_obj::find_from(h, entries, hash, key, i)->0 != Some(at),
    ensures
        map_obj::find_from(
            h,
            entries.remove(at),
            hash,
            key,
            if i <= at {
                i
            } else {
                i - 1
            },
        ) == Some(
            match map_obj::find_from(h, entries, hash, key, i)->0 {
                Some(j) => Some(
                    if j < at {
                        j
                    } else {
                        j - 1
                    },
                ),
                None => None,
            },
        ),
    decreases entries.len() - i,
{
    let rest = entries.remove(at);
    if i < entries.len() {
        if i < at {
            assert(rest[i] == entries[i]);
        } else if i > at {
            assert(rest[i - 1] == entries[i]);
        }
        if entries[i].hash != hash || compare::eq_value(h, key, entries[i].key) == Some(false) {
            lemma_find_removed(h, entries, at, hash, key, i + 1);
        } else {
            lemma_found(h, entries, hash, key, i);
        }
    }
}

/// Whether a map holds the same under two keys: they have one hash and the first equals
/// the second.
pub open spec fn same_key(h: HeapState, a: GosValue, b: GosValue) -> bool {
    hashing::key_hash(h, a) == hashing::key_hash(h, b) && compare::eq_value(h, a, b) == Some(true)
}

/// Whether two keys can be hashed, and compared both ways if they have one hash.
pub open spec fn told_apart(h: HeapState, a: GosValue, b: GosValue) -> bool {
    &&& hashing::key_hash(h, a) is Some
    &&& hashing::key_hash(h, b) is Some
    &&& hashing::key_hash(h, a) == hashing::key_hash(h, b) ==> {
        &&& compare::eq_value(h, a, b) is Some
        &&& compare::eq_value(h, b, a) is Some
    }
}

/// Whether `key` can be hashed, and `key` and those keys of the entries that have its hash
/// can be compared with one another.
pub open spec fn comparable(h: HeapState, entries: Seq<MapEntry>, key: GosValue) -> bool {
    &&& hashing::key_hash(h, key) is Some
    &&& forall|i: int|
        0 <= i < entries.len() && Some((#[trigger] entries[i]).hash) == hashing::key_hash(h, key)
            ==> compare::eq_value(h, key, entries[i].key) is Some && compare::eq_value(
            h,
            entries[i].key,
            key,
        ) is Some
    &&& forall|i: int, j: int|
        #![trigger entries[i], entries[j]]
        0 <= i < entries.len() && 0 <= j < entries.len() && Some(entries[i].hash)
            == hashing::key_hash(h, key) && entries[j].hash == entries[i].hash
            ==> compare::eq_value(h, entries[i].key, entries[j].key) is Some
}

/// A key can be looked for if it can be hashed and compared with those keys of the map
/// that have its hash.
pub proof fn law_comparable_keys_can_be_looked_for(
    h: HeapState,
    entries: Seq<MapEntry>,
    key: GosValue,
)
    requires
        hashing::key_hash(h, key) is Some,
        forall|i: int|
            0 <= i < entries.len() && Some((#[trigger] entries[i]).hash) == hashing::key_hash(
                h,
                key,
            ) ==> compare::eq_value(h, key, entries[i].key) is Some,
    ensures
        map_obj::find(h, entries, key) is Some,
{
    lemma_can_find(h, entries, hashing::key_hash(h, key)->0, key, 0);
}

proof fn lemma_can_find(h: HeapState, entries: Seq<MapEntry>, hash: u64, key: GosValue, i: int)
    requires
        0 <= i,
        forall|k: int|
            0 <= k < entries.len() && (#[trigger] entries[k]).hash == hash ==> compare::eq_value(
                h,
                key,
                entries[k].key,
            ) is Some,
    ensures
        map_obj::find_from(h, entries, hash, key, i) is Some,
    decreases entries.len() - i,
{
    if i < entries.len() {
        lemma_can_find(h, entries, hash, key, i + 1);
    }
}

/// Two keys that are equal to the same entries are found at the same place.
proof fn lemma_find_same(
    h: HeapState,
    entries: Seq<MapEntry>,
    hash: u64,
    a: GosValue,
    b: GosValue,
    i: int,
)
    requires
        0 <= i,
        forall|k: int|
            0 <= k < entries.len() && (#[trigger] entries[k]).hash == hash ==> compare::eq_value(
                h,
                a,
                entries[k].key,
            ) == compare::eq_value(h, b, entries[k].key),
    ensures
        map_obj::find_from(h, entries, hash, a, i) == map_obj::find_from(h, entries, hash, b, i),
    decreases entries.len() - i,
{
    if i < entries.len() {
        lemma_find_same(h, entries, hash, a, b, i + 1);
    }
}

/// Keys that are the same to a map are equal to the same entries, and so have one entry.
proof fn lemma_same_keys_agree(h: HeapState, entries: Seq<MapEntry>, key: GosValue, k: GosValue)
    requires
        comparable(h, entries, key),
        comparable(h, entries, k),
        told_apart(h, k, key),
        same_key(h, k, key),
    ensures
        map_obj::find(h, entries, k) == map_obj::find(h, entries, key),
{
    let hash = hashing::key_hash(h, key)->0;
    equality_laws::law_equality_is_symmetric(h, k, key);
    assert forall|i: int|
        0 <= i < entries.len() && (#[trigger] entries[i]).hash == hash implies compare::eq_value(
        h,
        k,
        entries[i].key,
    ) == compare::eq_value(h, key, entries[i].key) by {
        let e = entries[i].key;
        assert(compare::eq_value(h, k, e) is Some);
        assert(compare::eq_value(h, key, e) is Some);
        if compare::eq_value(h, key, e) == Some(true) {
            equality_laws::law_equality_is_transitive(h, k, key, e);
        }
        if compare::eq_value(h, k, e) == Some(true) {
            equality_laws::law_equality_is_transitive(h, key, k, e);
        }
    }
    lemma_find_same(h, entries, hash, k, key, 0);
}

/// Keys with one entry are the same to a map.
proof fn lemma_one_entry_one_key(h: HeapState, entries: Seq<MapEntry>, key: GosValue, k: GosValue)
    requires
        comparable(h, entries, key),
        comparable(h, entries, k),
        told_apart(h, k, key),
        map_obj::find(h, entries, key) matches Some(Some(_)),
        map_obj::find(h, entries, k) == map_obj::find(h, entries, key),
    ensures
        same_key(h, k, key),
{
    let at = map_obj::find(h, entries, key)->0->0;
    lemma_found(h, entries, hashing::key_hash(h, key)->0, key, 0);
    lemma_found(h, entries, hashing::key_hash(h, k)->0, k, 0);
    let e = entries[at].key;
    assert(entries[at].hash == hashing::key_hash(h, key)->0);
    equality_laws::law_equality_is_symmetric(h, key, e);
    equality_laws::law_equality_is_transitive(h, k, e, key);
}

/// After putting a value under a key, that value is found under all keys that are the same
/// to the map, and what was found before is found under all others, `twin` being any handle
/// on the entries. The map has one entry more exactly if the key had none.
pub proof fn law_insert_sets_one_key(
    h: HeapState,
    map: MapObj,
    twin: MapObj,
    key: GosValue,
    val: GosValue,
    k: GosValue,
)
    requires
        map.map < h.map_data.len(),
        twin.map == map.map,
        comparable(h, map.entries(h), key),
        comparable(h, map.entries(h), k),
        told_apart(h, k, key),
    ensures
        ({
            let g = map.after_insert(h, key, val);
            &&& map.lookup(h, key) is Some
            &&& map.lookup(g, k) is Some
            &&& twin.value_of(g, k) == (if same_key(h, k, key) {
                Some(val)
            } else {
                map.value_of(h, k)
            })
            &&& map.entries(g).len() == map.entries(h).len() + (if map.value_of(h, key) is None {
                1int
            } else {
                0int
            })
            &&& alike(h, g)
        }),
{
    let g = map.after_insert(h, key, val);
    let before = map.entries(h);
    let after = map.entries(g);
    let hash = hashing::key_hash(h, k)->0;
    law_comparable_keys_can_be_looked_for(h, before, key);
    law_comparable_keys_can_be_looked_for(h, before, k);
    lemma_found(h, before, hashing::key_hash(h, key)->0, key, 0);
    lemma_found(h, before, hash, k, 0);
    assert(alike(h, g));
    law_comparing_and_hashing_ignore_maps(h, g, k, key);
    lemma_find_alike(h, g, after, hash, k, 0);
    if same_key(h, k, key) {
        lemma_same_keys_agree(h, before, key, k);
    }
    match map.lookup(h, key)->0 {
        Some(i) => {
            lemma_find_by_keys(h, before, after, hash, k, 0);
            if map.lookup(h, k) == map.lookup(h, key) {
                lemma_one_entry_one_key(h, before, key, k);
            }
        },
        None => {
            lemma_find_pushed(h, before, after.last(), hash, k, 0);
            assert(before.push(after.last()) =~= after);
            lemma_find_in_last(h, after, hash, k);
        },
    }
}

/// After taking a key out of a map whose keys are distinct, nothing is found under all keys
/// that are the same to the map, and what was found before is found under all others. The
/// map has one entry less exactly if the key had one. Taking out a key that has none
/// changes nothing.
pub proof fn law_delete_unsets_one_key(
    h: HeapState,
    map: MapObj,
    twin: MapObj,
    key: GosValue,
    k: GosValue,
)
    requires
        map.map < h.map_data.len(),
        twin.map == map.map,
        distinct(h, map.entries(h)),
        comparable(h, map.entries(h), key),
        comparable(h, map.entries(h), k),
        told_apart(h, k, key),
    ensures
        ({
            let g = map.after_delete(h, key);
            &&& map.lookup(h, key) is Some
            &&& map.lookup(g, k) is Some
            &&& twin.value_of(g, k) == (if same_key(h, k, key) {
                None
            } else {
                map.value_of(h, k)
            })
            &&& map.entries(g).len() == map.entries(h).len() - (if map.value_of(h, key) is None {
                0int
            } else {
                1int
            })
            &&& map.value_of(h, key) is None ==> g == h
            &&& alike(h, g)
        }),
{
    let g = map.after_delete(h, key);
    let before = map.entries(h);
    let after = map.entries(g);
    let hash = hashing::key_hash(h, k)->0;
    law_comparable_keys_can_be_looked_for(h, before, key);
    law_comparable_keys_can_be_looked_for(h, before, k);
    lemma_found(h, before, hashing::key_hash(h, key)->0, key, 0);
    lemma_found(h, before, hash, k, 0);
    assert(alike(h, g));
    law_comparing_and_hashing_ignore_maps(h, g, k, key);
    lemma_find_alike(h, g, after, hash, k, 0);
    match map.lookup(h, key)->0 {
        Some(at) => {
            if same_key(h, k, key) {
                lemma_same_keys_agree(h, before, key, k);
                let gone = before[at].key;
                assert forall|i: int|
                    0 <= i < after.len() && #[trigger] after[i].hash == hash implies
                    compare::eq_value(h, k, after[i].key) == Some(false) by {
                    let p = if i < at {
                        i
                    } else {
                        i + 1
                    };
                    let left = before[p].key;
                    assert(before[p] == after[i]);
                    assert(before[at].hash == hash);
                    assert(compare::eq_value(h, gone, left) is Some);
                    if compare::eq_value(h, k, left) == Some(true) {
                        equality_laws::law_equality_is_symmetric(h, gone, k);
                        equality_laws::law_equality_is_transitive(h, gone, k, left);
                    }
                }
                lemma_find_nothing(h, after, hash, k, 0);
            } else {
                if map.lookup(h, k) == map.lookup(h, key) {
                    lemma_one_entry_one_key(h, before, key, k);
                }
                lemma_find_removed(h, before, at, hash, k, 0);
            }
        },
        None => {
            if same_key(h, k, key) {
                lemma_same_keys_agree(h, before, key, k);
            }
            assert(h.map_data.update(map.map as int, before) =~= h.map_data);
        },
    }
}

/// Taking a key out a second time changes nothing.
pub proof fn law_a_second_delete_changes_nothing(h: HeapState, map: MapObj, key: GosValue)
    requires
        map.map < h.map_data.len(),
        distinct(h, map.entries(h)),
        comparable(h, map.entries(h), key),
        compare::eq_value(h, key, key) is Some,
    ensures
        map.lookup(map.after_delete(h, key), key) == Some(None::<int>),
        map.after_delete(map.after_delete(h, key), key) == map.after_delete(h, key),
{
    let g = map.after_delete(h, key);
    law_delete_unsets_one_key(h, map, map, key, key);
    if !same_key(h, key, key) {
        if map.value_of(h, key) is Some {
            lemma_one_entry_one_key(h, map.entries(h), key, key);
        }
    }
    assert(g.map_data.update(map.map as int, map.entries(g)) =~= g.map_data);
}

/// After touching a key, all keys that are the same to the map have the value that they had,
/// or the value that stands for missing ones, and what was found before is found under all
/// others. So what stands under any key, missing or not, stays what it was. The map has one
/// entry more exactly if the key had none. Touching a key that equals itself a second time
/// changes nothing.
pub proof fn law_touch_sets_a_missing_key(
    h: HeapState,
    map: MapObj,
    twin: MapObj,
    key: GosValue,
    k: GosValue,
)
    requires
        map.map < h.map_data.len(),
        twin.map == map.map,
        comparable(h, map.entries(h), key),
        comparable(h, map.entries(h), k),
        told_apart(h, k, key),
        told_apart(h, key, key),
    ensures
        ({
            let g = map.after_touch(h, key);
            &&& map.lookup(h, key) is Some
            &&& map.lookup(g, k) is Some
            &&& twin.value_of(g, k) == (if same_key(h, k, key) {
                Some(value_or(map.value_of(h, k), map.default_val))
            } else {
                map.value_of(h, k)
            })
            &&& value_or(map.value_of(g, k), map.default_val) == value_or(
                map.value_of(h, k),
                map.default_val,
            )
            &&& map.entries(g).len() == map.entries(h).len() + (if map.value_of(h, key) is None {
                1int
            } else {
                0int
            })
            &&& compare::eq_value(h, key, key) == Some(true) ==> map.after_touch(g, key) == g
            &&& alike(h, g)
        }),
{
    law_comparable_keys_can_be_looked_for(h, map.entries(h), key);
    law_comparable_keys_can_be_looked_for(h, map.entries(h), k);
    law_insert_sets_one_key(h, map, twin, key, map.default_val, k);
    law_insert_sets_one_key(h, map, map, key, map.default_val, key);
    if same_key(h, k, key) {
        lemma_same_keys_agree(h, map.entries(h), key, k);
    }
}

/// The value, or the other one where there is none.
pub open spec fn value_or(val: Option<GosValue>, other: GosValue) -> GosValue {
    match val {
        Some(v) => v,
        None => other,
    }
}

/// What can be done to a map.
pub enum MapCall {
    Insert(GosValue, GosValue),
    Delete(GosValue),
    Touch(GosValue),
}

impl MapCall {
    /// The key that is meant.
    pub open spec fn key(self) -> GosValue {
        match self {
            MapCall::Insert(key, _) => key,
            MapCall::Delete(key) => key,
            MapCall::Touch(key) => key,
        }
    }

    /// The heap after the call.
    pub open spec fn after(self, h: HeapState, map: MapObj) -> HeapState {
        match self {
            MapCall::Insert(key, val) => map.after_insert(h, key, val),
            MapCall::Delete(key) => map.after_delete(h, key),
            MapCall::Touch(key) => map.after_touch(h, key),
        }
    }
}

/// The heap after a run of calls.
pub open spec fn after_calls(h: HeapState, map: MapObj, calls: Seq<MapCall>) -> HeapState
    decreases calls.len(),
{
    if calls.len() == 0 {
        h
    } else {
        calls.last().after(after_calls(h, map, calls.drop_last()), map)
    }
}

/// What a map has under `k` after a run of calls: the value that was last inserted under
/// it, or the default value where touching put it there, or nothing where it was deleted
/// after that; and what it had at first where no call meant `k`.
pub open spec fn held(h: HeapState, map: MapObj, calls: Seq<MapCall>, k: GosValue) -> Option<
    GosValue,
>
    decreases calls.len(),
{
    if calls.len() == 0 {
        map.value_of(h, k)
    } else {
        let before = held(h, map, calls.drop_last(), k);
        if !same_key(h, k, calls.last().key()) {
            before
        } else {
            match calls.last() {
                MapCall::Insert(_, val) => Some(val),
                MapCall::Delete(_) => None,
                MapCall::Touch(_) => Some(value_or(before, map.default_val)),
            }
        }
    }
}

/// Whether the keys can all be told apart from one another.
pub open spec fn all_told_apart(h: HeapState, keys: Set<GosValue>) -> bool {
    forall|a: GosValue, b: GosValue|
        #![trigger keys.contains(a), keys.contains(b)]
        keys.contains(a) && keys.contains(b) ==> told_apart(h, a, b)
}

/// Whether the calls mean keys among the given ones.
pub open spec fn call_keys_within(calls: Seq<MapCall>, keys: Set<GosValue>) -> bool {
    forall|i: int| 0 <= i < calls.len() ==> keys.contains((#[trigger] calls[i]).key())
}

/// Whether the entries have keys among the given ones, with their hashes.
pub open spec fn entries_within(h: HeapState, entries: Seq<MapEntry>, keys: Set<GosValue>) -> bool {
    forall|i: int|
        0 <= i < entries.len() ==> keys.contains((#[trigger] entries[i]).key)
            && hashing::key_hash(h, entries[i].key) == Some(entries[i].hash)
}

proof fn lemma_within_comparable(
    h: HeapState,
    entries: Seq<MapEntry>,
    keys: Set<GosValue>,
    key: GosValue,
)
    requires
        all_told_apart(h, keys),
        entries_within(h, entries, keys),
        keys.contains(key),
    ensures
        comparable(h, entries, key),
{
    assert(told_apart(h, key, key));
    assert forall|i: int|
        0 <= i < entries.len() && Some((#[trigger] entries[i]).hash) == hashing::key_hash(
            h,
            key,
        ) implies compare::eq_value(h, key, entries[i].key) is Some && compare::eq_value(
        h,
        entries[i].key,
        key,
    ) is Some by {
        assert(keys.contains(entries[i].key));
        assert(told_apart(h, key, entries[i].key));
    }
    assert forall|i: int, j: int|
        #![trigger entries[i], entries[j]]
        0 <= i < entries.len() && 0 <= j < entries.len() && Some(entries[i].hash)
            == hashing::key_hash(h, key) && entries[j].hash
            == entries[i].hash implies compare::eq_value(
        h,
        entries[i].key,
        entries[j].key,
    ) is Some by {
        assert(keys.contains(entries[i].key) && keys.contains(entries[j].key));
        assert(told_apart(h, entries[i].key, entries[j].key));
    }
}

/// In heaps that are alike, keys are told apart alike.
proof fn lemma_told_apart_alike(h: HeapState, g: HeapState, a: GosValue, b: GosValue)
    requires
        alike(h, g),
    ensures
        told_apart(h, a, b) == told_apart(g, a, b),
        same_key(h, a, b) == same_key(g, a, b),
        hashing::key_hash(h, a) == hashing::key_hash(g, a),
{
    law_comparing_and_hashing_ignore_maps(h, g, a, b);
    law_comparing_and_hashing_ignore_maps(h, g, b, a);
}

proof fn lemma_calls_keep_order(
    h: HeapState,
    map: MapObj,
    calls: Seq<MapCall>,
    keys: Set<GosValue>,
)
    requires
        map.map < h.map_data.len(),
        distinct(h, map.entries(h)),
        entries_within(h, map.entries(h), keys),
        all_told_apart(h, keys),
        call_keys_within(calls, keys),
    ensures
        ({
            let g = after_calls(h, map, calls);
            &&& alike(h, g)
            &&& map.map < g.map_data.len()
            &&& all_told_apart(g, keys)
            &&& entries_within(g, map.entries(g), keys)
            &&& distinct(g, map.entries(g))
        }),
    decreases calls.len(),
{
    if calls.len() > 0 {
        let before = after_calls(h, map, calls.drop_last());
        let call = calls.last();
        let key = call.key();
        let g = call.after(before, map);
        assert forall|i: int| 0 <= i < calls.drop_last().len() implies keys.contains(
            (#[trigger] calls.drop_last()[i]).key(),
        ) by {
            assert(calls[i] == calls.drop_last()[i]);
        }
        lemma_calls_keep_order(h, map, calls.drop_last(), keys);
        assert(keys.contains(calls[calls.len() - 1].key()));
        lemma_within_comparable(before, map.entries(before), keys, key);
        assert(told_apart(before, key, key));
        match call {
            MapCall::Insert(_, val) => {
                law_insert_sets_one_key(before, map, map, key, val, key);
                law_insert_keeps_keys_distinct(before, map, key, val);
            },
            MapCall::Delete(_) => {
                law_delete_unsets_one_key(before, map, map, key, key);
                law_delete_keeps_keys_distinct(before, map, key);
            },
            MapCall::Touch(_) => {
                law_touch_sets_a_missing_key(before, map, map, key, key);
                law_insert_keeps_keys_distinct(before, map, key, map.default_val);
            },
        }
        assert(alike(before, g));
        assert forall|a: GosValue, b: GosValue|
            #![trigger keys.contains(a), keys.contains(b)]
            keys.contains(a) && keys.contains(b) implies told_apart(g, a, b) by {
            lemma_told_apart_alike(before, g, a, b);
        }
        lemma_found(
            before,
            map.entries(before),
            hashing::key_hash(before, key)->0,
            key,
            0,
        );
        let old_entries = map.entries(before);
        let new_entries = map.entries(g);
        assert forall|i: int| 0 <= i < new_entries.len() implies keys.contains(
            (#[trigger] new_entries[i]).key,
        ) && hashing::key_hash(g, new_entries[i].key) == Some(new_entries[i].hash) by {
            lemma_told_apart_alike(before, g, new_entries[i].key, key);
            let at = match map.lookup(before, key)->0 {
                Some(at) => at,
                None => old_entries.len() as int,
            };
            if call is Delete {
                let p = if i < at {
                    i
                } else {
                    i + 1
                };
                assert(new_entries[i] == old_entries[p]);
            } else if i < old_entries.len() {
                assert(new_entries[i].key == old_entries[i].key);
                assert(new_entries[i].hash == old_entries[i].hash);
            } else {
                assert(new_entries[i].key == key);
            }
        }
    }
}

/// After any run of insertions, deletions and touches, a map has under a key what the run
/// left there: the value last inserted, the default value where touching put it there,
/// nothing where the key was deleted after that, and what it had before the run where no
/// call meant the key. In a map that was empty, that is nothing. Looking the key up can be
/// done after any such run.
pub proof fn law_what_a_map_holds(
    h: HeapState,
    map: MapObj,
    calls: Seq<MapCall>,
    keys: Set<GosValue>,
    k: GosValue,
)
    requires
        map.map < h.map_data.len(),
        distinct(h, map.entries(h)),
        entries_within(h, map.entries(h), keys),
        all_told_apart(h, keys),
        call_keys_within(calls, keys),
        keys.contains(k),
    ensures
        map.lookup(after_calls(h, map, calls), k) is Some,
        map.value_of(after_calls(h, map, calls), k) == held(h, map, calls, k),
        map.entries(h).len() == 0 ==> map.value_of(h, k) is None,
        alike(h, after_calls(h, map, calls)),
    decreases calls.len(),
{
    let g = after_calls(h, map, calls);
    lemma_calls_keep_order(h, map, calls, keys);
    lemma_within_comparable(g, map.entries(g), keys, k);
    law_comparable_keys_can_be_looked_for(g, map.entries(g), k);
    if map.entries(h).len() == 0 {
        lemma_within_comparable(h, map.entries(h), keys, k);
        law_comparable_keys_can_be_looked_for(h, map.entries(h), k);
        lemma_found(h, map.entries(h), hashing::key_hash(h, k)->0, k, 0);
    }
    if calls.len() > 0 {
        let before = after_calls(h, map, calls.drop_last());
        let call = calls.last();
        let key = call.key();
        assert forall|i: int| 0 <= i < calls.drop_last().len() implies keys.contains(
            (#[trigger] calls.drop_last()[i]).key(),
        ) by {
            assert(calls[i] == calls.drop_last()[i]);
        }
        assert(keys.contains(calls[calls.len() - 1].key()));
        law_what_a_map_holds(h, map, calls.drop_last(), keys, k);
        lemma_calls_keep_order(h, map, calls.drop_last(), keys);
        lemma_within_comparable(before, map.entries(before), keys, key);
        lemma_within_comparable(before, map.entries(before), keys, k);
        lemma_told_apart_alike(h, before, k, key);
        assert(told_apart(before, k, key));
        assert(told_apart(before, key, key));
        match call {
            MapCall::Insert(_, val) => law_insert_sets_one_key(before, map, map, key, val, k),
            MapCall::Delete(_) => law_delete_unsets_one_key(before, map, map, key, k),
            MapCall::Touch(_) => law_touch_sets_a_missing_key(before, map, map, key, k),
        }
    }
}

/// What is found under a key is in an entry with the hash of the key whose key the given one
/// equals, and no entry before it is for the key. Where nothing is found, no entry is for it.
pub proof fn law_what_a_lookup_finds(h: HeapState, map: MapObj, key: GosValue)
    requires
        map.lookup(h, key) is Some,
    ensures
        ({
            let entries = h.map_data[map.map as int];
            match map.lookup(h, key)->0 {
                Some(i) => {
                    &&& 0 <= i < entries.len()
                    &&& hashing::key_hash(h, key) == Some(entries[i].hash)
                    &&& compare::eq_value(h, key, entries[i].key) == Some(true)
                    &&& map.value_of(h, key) == Some(entries[i].val)
                    &&& forall|k: int|
                        0 <= k < i && hashing::key_hash(h, key) == Some(
                            #[trigger] entries[k].hash,
                        ) ==> compare::eq_value(h, key, entries[k].key) == Some(false)
                },
                None => {
                    &&& map.value_of(h, key) is None
                    &&& forall|k: int|
                        0 <= k < entries.len() && hashing::key_hash(h, key) == Some(
                            #[trigger] entries[k].hash,
                        ) ==> compare::eq_value(h, key, entries[k].key) == Some(false)
                },
            }
        }),
{
    lemma_found(h, map.entries(h), hashing::key_hash(h, key)->0, key, 0);
}

/// Putting a value under a key that has an entry changes the value of that entry only, and the
/// entry keeps its key. Under any other key it adds an entry with that key, its hash and the
/// value. Other maps and all else on the heap stay.
pub proof fn law_insert_changes_one_entry(
    h: HeapState,
    map: MapObj,
    key: GosValue,
    val: GosValue,
)
    requires
        map.map < h.map_data.len(),
        map.lookup(h, key) is Some,
    ensures
        ({
            let g = map.after_insert(h, key, val);
            let before = h.map_data[map.map as int];
            let after = g.map_data[map.map as int];
            let at = match map.lookup(h, key)->0 {
                Some(i) => i,
                None => before.len() as int,
            };
            &&& g == (HeapState { map_data: g.map_data, ..h })
            &&& g.map_data.len() == h.map_data.len()
            &&& forall|m: int|
                0 <= m < h.map_data.len() && m != map.map ==> #[trigger] g.map_data[m]
                    == h.map_data[m]
            &&& after[at].val == val
            &&& at < before.len() ==> after.len() == before.len() && after[at].key
                == before[at].key && after[at].hash == before[at].hash
            &&& at == before.len() ==> after.len() == before.len() + 1 && after[at].key == key
                && Some(after[at].hash) == hashing::key_hash(h, key)
            &&& forall|k: int|
                0 <= k < before.len() && k != at ==> #[trigger] after[k] == before[k]
        }),
{
    lemma_found(h, map.entries(h), hashing::key_hash(h, key)->0, key, 0);
}

/// Taking a key out takes its entry out and keeps all others, in their order. Other maps and all
/// else on the heap stay.
pub proof fn law_delete_takes_one_entry_out(h: HeapState, map: MapObj, key: GosValue)
    requires
        map.map < h.map_data.len(),
        map.lookup(h, key) is Some,
    ensures
        ({
            let g = map.after_delete(h, key);
            let before = h.map_data[map.map as int];
            let after = g.map_data[map.map as int];
            &&& g == (HeapState { map_data: g.map_data, ..h })
            &&& g.map_data.len() == h.map_data.len()
            &&& forall|m: int|
                0 <= m < h.map_data.len() && m != map.map ==> #[trigger] g.map_data[m]
                    == h.map_data[m]
            &&& map.lookup(h, key)->0 is None ==> after == before
            &&& map.lookup(h, key)->0 matches Some(at) ==> {
                &&& after.len() == before.len() - 1
                &&& forall|k: int| 0 <= k < at ==> #[trigger] after[k] == before[k]
                &&& forall|k: int| at <= k < after.len() ==> #[trigger] after[k] == before[k + 1]
            }
        }),
{
    lemma_found(h, map.entries(h), hashing::key_hash(h, key)->0, key, 0);
}

/// Touching a key puts the value that stands for missing ones under it if it has none, and changes
/// nothing otherwise.
pub proof fn law_touch_puts_the_default_value(h: HeapState, map: MapObj, key: GosValue)
    requires
        map.lookup(h, key) is Some,
    ensures
        map.value_of(h, key) is Some ==> map.after_touch(h, key) == h,
        map.value_of(h, key) is None ==> map.after_touch(h, key) == map.after_insert(
            h,
            key,
            map.default_val,
        ),
{
}

} // verus!
