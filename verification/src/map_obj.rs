//! Maps.
use vstd::prelude::*;
use vstd::string::StringExecFns;

use crate::compare;
use crate::hashing;
use crate::heap::{Heap, HeapState};
use crate::text;
use crate::value::GosValue;

verus! {

/// A key of a map with its hash and its value.
#[derive(Clone, Copy, Debug)]
pub struct MapEntry {
    pub hash: u64,
    pub key: GosValue,
    pub val: GosValue,
}

/// The entries of a map, in the order in which their keys came in.
pub type GosHashMap = Vec<MapEntry>;

/// Walks over the entries of a map.
pub type GosHashMapIter<'a> = core::slice::Iter<'a, MapEntry>;

/// A map, with the value that stands for missing ones. Copies share the entries.
#[derive(Clone, Copy, Debug)]
pub struct MapObj {
    pub default_val: GosValue,
    pub map: usize,
}

/// The place of the first entry from `i` on that has the given hash and whose key
/// `key` equals, or nothing where there is none. Keys are compared only where the
/// hashes agree; there is no answer if such a comparison has none.
pub open spec fn find_from(
    h: HeapState,
    entries: Seq<MapEntry>,
    hash: u64,
    key: GosValue,
    i: int,
) -> Option<Option<int>>
    decreases entries.len() - i,
{
    if i >= entries.len() {
        Some(None)
    } else if entries[i].hash != hash {
        find_from(h, entries, hash, key, i + 1)
    } else {
        match compare::eq_value(h, key, entries[i].key) {
            Some(true) => Some(Some(i)),
            Some(false) => find_from(h, entries, hash, key, i + 1),
            None => None,
        }
    }
}

/// The place of the entry for `key`, or nothing where there is none. There is no
/// answer for a key that cannot be hashed or compared.
pub open spec fn find(h: HeapState, entries: Seq<MapEntry>, key: GosValue) -> Option<Option<int>> {
    match hashing::key_hash(h, key) {
        Some(hash) => find_from(h, entries, hash, key, 0),
        None => None,
    }
}

/// The entries after `val` was put under `key`, which is looked for at `place`: the
/// entry for the key keeps its key, a new one goes behind the others.
pub open spec fn inserted(
    entries: Seq<MapEntry>,
    place: Option<int>,
    hash: u64,
    key: GosValue,
    val: GosValue,
) -> Seq<MapEntry> {
    match place {
        Some(i) => entries.update(i, MapEntry { val, ..entries[i] }),
        None => entries.push(MapEntry { hash, key, val }),
    }
}

/// The entries without the one at `place`.
pub open spec fn deleted(entries: Seq<MapEntry>, place: Option<int>) -> Seq<MapEntry> {
    match place {
        Some(i) => entries.remove(i),
        None => entries,
    }
}

/// Looks for the entry for `key`.
fn position(heap: &Heap, entries: &GosHashMap, hash: u64, key: &GosValue) -> (place: Option<usize>)
    requires
        find_from(heap@, entries@, hash, *key, 0) is Some,
    ensures
        match find_from(heap@, entries@, hash, *key, 0)->0 {
            Some(i) => place == Some(i as usize) && 0 <= i < entries.len(),
            None => place is None,
        },
{
    let mut i: usize = 0;
    while i < entries.len()
        invariant
            i <= entries.len(),
            find_from(heap@, entries@, hash, *key, 0) is Some,
            find_from(heap@, entries@, hash, *key, 0) == find_from(
                heap@,
                entries@,
                hash,
                *key,
                i as int,
            ),
        decreases entries.len() - i,
    {
        if entries[i].hash == hash && key.eq(&entries[i].key, heap) {
            return Some(i);
        }
        i = i + 1;
    }
    None
}

impl MapObj {
    /// The entries of the map.
    pub open spec fn entries(self, h: HeapState) -> Seq<MapEntry> {
        h.map_data[self.map as int]
    }

    /// The place of the entry for `key`, see [`find`].
    pub open spec fn lookup(self, h: HeapState, key: GosValue) -> Option<Option<int>> {
        find(h, self.entries(h), key)
    }

    /// The value under `key`.
    pub open spec fn value_of(self, h: HeapState, key: GosValue) -> Option<GosValue> {
        match self.lookup(h, key) {
            Some(Some(i)) => Some(self.entries(h)[i].val),
            _ => None,
        }
    }

    /// The heap after `val` was put under `key`.
    pub open spec fn after_insert(self, h: HeapState, key: GosValue, val: GosValue) -> HeapState {
        h.with_map_data(
            self.map,
            inserted(
                self.entries(h),
                self.lookup(h, key)->0,
                hashing::key_hash(h, key)->0,
                key,
                val,
            ),
        )
    }

    /// The heap after what is under `key` was taken out.
    pub open spec fn after_delete(self, h: HeapState, key: GosValue) -> HeapState {
        h.with_map_data(self.map, deleted(self.entries(h), self.lookup(h, key)->0))
    }

    /// The heap after `key` was made to have a value.
    pub open spec fn after_touch(self, h: HeapState, key: GosValue) -> HeapState {
        if self.lookup(h, key) == Some(None::<int>) {
            self.after_insert(h, key, self.default_val)
        } else {
            h
        }
    }

    /// An empty map.
    pub fn new(default_val: GosValue, heap: &mut Heap) -> (map: MapObj)
        ensures
            map.default_val == default_val,
            map.map == old(heap)@.map_data.len(),
            final(heap)@ == old(heap)@.plus_map_data(Seq::empty()),
    {
        MapObj { default_val, map: heap.alloc_map_data(Vec::new()) }
    }

    /// Puts `val` under `key`, and returns what was there before.
    pub fn insert(&self, key: GosValue, val: GosValue, heap: &mut Heap) -> (before: Option<
        GosValue,
    >)
        requires
            self.map < old(heap)@.map_data.len(),
            self.lookup(old(heap)@, key) is Some,
        ensures
            before == self.value_of(old(heap)@, key),
            final(heap)@ == self.after_insert(old(heap)@, key, val),
    {
        let hash: u64 = key.hash_number(heap);
        match position(heap, self.borrow_data(heap), hash, &key) {
            Some(i) => {
                let entries: &mut GosHashMap = self.borrow_data_mut(heap);
                let entry = entries[i];
                entries[i] = MapEntry { hash: entry.hash, key: entry.key, val };
                Some(entry.val)
            },
            None => {
                let entries: &mut GosHashMap = self.borrow_data_mut(heap);
                entries.push(MapEntry { hash, key, val });
                None
            },
        }
    }

    /// The value under `key`, or the value that stands for missing ones.
    pub fn get(&self, key: &GosValue, heap: &Heap) -> (val: GosValue)
        requires
            self.map < heap@.map_data.len(),
            self.lookup(heap@, *key) is Some,
        ensures
            val == (match self.value_of(heap@, *key) {
                Some(found) => found,
                None => self.default_val,
            }),
    {
        match self.try_get(key, heap) {
            Some(found) => found,
            None => self.default_val,
        }
    }

    /// The value under `key`.
    pub fn try_get(&self, key: &GosValue, heap: &Heap) -> (val: Option<GosValue>)
        requires
            self.map < heap@.map_data.len(),
            self.lookup(heap@, *key) is Some,
        ensures
            val == self.value_of(heap@, *key),
    {
        let hash: u64 = key.hash_number(heap);
        let entries: &GosHashMap = self.borrow_data(heap);
        match position(heap, entries, hash, key) {
            Some(i) => Some(entries[i].val),
            None => None,
        }
    }

    /// Takes out what is under `key`.
    pub fn delete(&self, key: &GosValue, heap: &mut Heap)
        requires
            self.map < old(heap)@.map_data.len(),
            self.lookup(old(heap)@, *key) is Some,
        ensures
            final(heap)@ == self.after_delete(old(heap)@, *key),
    {
        let hash: u64 = key.hash_number(heap);
        match position(heap, self.borrow_data(heap), hash, key) {
            Some(i) => {
                let entries: &mut GosHashMap = self.borrow_data_mut(heap);
                let _entry = entries.remove(i);
            },
            None => {
                assert(heap@ =~= self.after_delete(heap@, *key));
            },
        }
    }

    /// Makes sure that there is a value under `key`: where there is none, the value
    /// that stands for missing ones is put there.
    pub fn touch_key(&self, key: &GosValue, heap: &mut Heap)
        requires
            self.map < old(heap)@.map_data.len(),
            self.lookup(old(heap)@, *key) is Some,
        ensures
            final(heap)@ == self.after_touch(old(heap)@, *key),
    {
        if self.try_get(key, heap).is_none() {
            let _before = self.insert(*key, self.default_val, heap);
        }
    }

    /// The number of entries.
    pub fn len(&self, heap: &Heap) -> (len: usize)
        requires
            self.map < heap@.map_data.len(),
        ensures
            len == self.entries(heap@).len(),
    {
        self.borrow_data(heap).len()
    }

    /// The entries, to be changed in place.
    pub fn borrow_data_mut<'a>(&self, heap: &'a mut Heap) -> (data: &'a mut GosHashMap)
        requires
            self.map < old(heap)@.map_data.len(),
        ensures
            data@ == self.entries(old(heap)@),
            final(heap)@ == old(heap)@.with_map_data(self.map, final(data)@),
    {
        heap.map_data_mut(self.map)
    }

    pub fn borrow_data<'a>(&self, heap: &'a Heap) -> (data: &'a GosHashMap)
        requires
            self.map < heap@.map_data.len(),
        ensures
            data@ == self.entries(heap@),
    {
        heap.map_data(self.map)
    }

    /// Another handle on the entries.
    pub fn clone_inner(&self) -> (map: usize)
        ensures
            map == self.map,
    {
        self.map
    }

    /// The text of the map, with `show` for keys and values.
    pub fn fmt<F: Fn(&GosValue) -> String>(&self, show: &F, heap: &Heap) -> (out: String)
        requires
            self.map < heap@.map_data.len(),
            forall|i: int|
                0 <= i < self.entries(heap@).len() ==> {
                    let entry = #[trigger] self.entries(heap@)[i];
                    call_requires(show, (&entry.key,)) && call_requires(show, (&entry.val,))
                },
        ensures
            is_map_text(*show, self.entries(heap@), out@),
    {
        let entries: &GosHashMap = self.borrow_data(heap);
        let mut out = String::from_str("map[");
        let ghost mut keys: Seq<String> = Seq::empty();
        let ghost mut vals: Seq<String> = Seq::empty();
        assert(out@ =~= "map["@ + text::spaced(pair_texts(keys, vals)));
        let mut i: usize = 0;
        while i < entries.len()
            invariant
                i <= entries.len(),
                forall|k: int|
                    0 <= k < entries.len() ==> {
                        let entry = #[trigger] entries[k];
                        call_requires(show, (&entry.key,)) && call_requires(show, (&entry.val,))
                    },
                keys.len() == i,
                vals.len() == i,
                shown_entries(*show, entries@.take(i as int), keys, vals),
                out@ == "map["@ + text::spaced(pair_texts(keys, vals)),
            decreases entries.len() - i,
        {
            let key = show(&entries[i].key);
            let val = show(&entries[i].val);
            proof {
                reveal_strlit(" ");
                reveal_strlit(":");
                let next = pair_texts(keys.push(key), vals.push(val));
                assert(next.drop_last() =~= pair_texts(keys, vals));
                assert(next.last() == key@ + seq![':'] + val@);
                assert(" "@ =~= seq![' ']);
                assert(":"@ =~= seq![':']);
            }
            if i > 0 {
                out.append(" ");
            }
            out.append(key.as_str());
            out.append(":");
            out.append(val.as_str());
            proof {
                keys = keys.push(key);
                vals = vals.push(val);
                assert(out@ =~= "map["@ + text::spaced(pair_texts(keys, vals)));
            }
            i = i + 1;
        }
        out.append("]");
        assert(entries@.take(i as int) =~= entries@);
        assert(shown_entries(*show, entries@, keys, vals));
        out
    }
}

/// Whether `keys` and `vals` are what `show` makes of the entries.
pub open spec fn shown_entries<F: Fn(&GosValue) -> String>(
    show: F,
    entries: Seq<MapEntry>,
    keys: Seq<String>,
    vals: Seq<String>,
) -> bool {
    &&& keys.len() == entries.len()
    &&& vals.len() == entries.len()
    &&& forall|i: int|
        0 <= i < entries.len() ==> call_ensures(show, (&entries[i].key,), #[trigger] keys[i])
    &&& forall|i: int|
        0 <= i < entries.len() ==> call_ensures(show, (&entries[i].val,), #[trigger] vals[i])
}

/// Each key with its value, and a colon between them.
pub open spec fn pair_texts(keys: Seq<String>, vals: Seq<String>) -> Seq<Seq<char>> {
    Seq::new(keys.len(), |i: int| keys[i]@ + seq![':'] + vals[i]@)
}

/// Whether `out` is the text of a map with the given entries.
pub open spec fn is_map_text<F: Fn(&GosValue) -> String>(
    show: F,
    entries: Seq<MapEntry>,
    out: Seq<char>,
) -> bool {
    exists|keys: Seq<String>, vals: Seq<String>| #[trigger]
        shown_entries(show, entries, keys, vals) && out == "map["@ + text::spaced(
            pair_texts(keys, vals),
        ) + "]"@
}

/// The text of a map is enclosed by `map[` and `]`, with the texts of all keys and values in
/// between. An empty map has nothing there, and one with a single entry the text of the key, a
/// colon and the text of the value.
pub proof fn law_the_text_of_a_map<F: Fn(&GosValue) -> String>(
    show: F,
    entries: Seq<MapEntry>,
    out: Seq<char>,
)
    requires
        is_map_text(show, entries, out),
    ensures
        out.len() >= 5,
        out.take(4) == "map["@,
        out.last() == ']',
        exists|keys: Seq<String>, vals: Seq<String>|
            #![trigger pair_texts(keys, vals)]
            keys.len() == entries.len() && vals.len() == entries.len() && (forall|i: int|
                0 <= i < entries.len() ==> call_ensures(
                    show,
                    (&entries[i].key,),
                    #[trigger] keys[i],
                )) && (forall|i: int|
                0 <= i < entries.len() ==> call_ensures(
                    show,
                    (&entries[i].val,),
                    #[trigger] vals[i],
                )) && out == "map["@ + text::spaced(pair_texts(keys, vals)) + "]"@,
        entries.len() == 0 ==> out == "map[]"@,
        entries.len() == 1 ==> exists|key: String, val: String|
            #[trigger] call_ensures(show, (&entries[0].key,), key) && #[trigger] call_ensures(
                show,
                (&entries[0].val,),
                val,
            ) && out == "map["@ + key@ + ":"@ + val@ + "]"@,
{
    let (keys, vals) = choose|keys: Seq<String>, vals: Seq<String>| #[trigger]
        shown_entries(show, entries, keys, vals) && out == "map["@ + text::spaced(
            pair_texts(keys, vals),
        ) + "]"@;
    reveal_strlit("map[");
    reveal_strlit("]");
    reveal_strlit("map[]");
    reveal_strlit(":");
    assert(pair_texts(keys, vals).len() == entries.len());
    assert(out.take(4) =~= "map["@);
    assert(out.last() == ']');
    if entries.len() == 0 {
        assert(pair_texts(keys, vals) =~= Seq::empty());
        assert(out =~= "map[]"@);
    }
    if entries.len() == 1 {
        assert(call_ensures(show, (&entries[0].key,), keys[0]));
        assert(call_ensures(show, (&entries[0].val,), vals[0]));
        assert(pair_texts(keys, vals)[0] == keys[0]@ + seq![':'] + vals[0]@);
        assert(out =~= "map["@ + keys[0]@ + ":"@ + vals[0]@ + "]"@);
    }
}

/// In the text of a map each entry is its key, a colon and its value, and the entries stand in
/// their order with one blank between any two.
pub proof fn law_entries_are_written_in_order(
    keys: Seq<String>,
    vals: Seq<String>,
    key: String,
    val: String,
)
    requires
        keys.len() == vals.len(),
    ensures
        keys.len() == 0 ==> text::spaced(pair_texts(keys.push(key), vals.push(val))) == key@ + ":"@
            + val@,
        keys.len() > 0 ==> text::spaced(pair_texts(keys.push(key), vals.push(val)))
            == text::spaced(pair_texts(keys, vals)) + " "@ + key@ + ":"@ + val@,
{
    reveal_strlit(":");
    reveal_strlit(" ");
    let all = pair_texts(keys.push(key), vals.push(val));
    assert(all.drop_last() =~= pair_texts(keys, vals));
    assert(all.last() == key@ + seq![':'] + val@);
    assert(":"@ =~= seq![':']);
    assert(" "@ =~= seq![' ']);
    if keys.len() == 0 {
        assert(text::spaced(all) =~= key@ + ":"@ + val@);
    } else {
        assert(text::spaced(all) =~= text::spaced(pair_texts(keys, vals)) + " "@ + key@ + ":"@
            + val@);
    }
}

} // verus!
