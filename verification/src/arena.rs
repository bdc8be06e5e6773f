//! Keyed storage for the objects that a program is made of.
use core::marker::PhantomData;
use slotmap::{DefaultKey, DenseSlotMap, KeyData};
use vstd::prelude::*;

use crate::keys;
use crate::keys::{SlotKey, NULL_KEY, VERSION_BIT};

verus! {

/// A `DenseSlotMap` of the `slotmap` crate that keeps a position under each key.
#[verifier::external_body]
pub struct Slots {
    map: DenseSlotMap<DefaultKey, usize>,
}

/// What a slot map holds: the value of each live key, under the key's number.
pub uninterp spec fn slot_entries(slots: Slots) -> Map<u64, usize>;

/// The most objects that a slot map takes.
pub const MAX_SLOTS: usize = 0xffff_fffe;

/// Calls `DenseSlotMap::with_capacity_and_key`. A new slot map holds nothing. The
/// capacity is bounded, since a larger allocation may fail.
#[verifier::external_body]
fn slots_with_capacity(capacity: usize) -> (slots: Slots)
    requires
        capacity <= 0x1_0000,
    ensures
        slot_entries(slots).dom() == Set::<u64>::empty(),
{
    Slots { map: DenseSlotMap::with_capacity_and_key(capacity) }
}

/// Calls `DenseSlotMap::insert`, which panics on a full slot map. It stores the
/// value under a key that was not in use, whose version is odd and which is not the
/// null key, and leaves the other entries as they were.
#[verifier::external_body]
fn slots_insert(slots: &mut Slots, value: usize) -> (number: u64)
    requires
        slot_entries(*old(slots)).len() < MAX_SLOTS,
    ensures
        !slot_entries(*old(slots)).contains_key(number),
        slot_entries(*final(slots)) == slot_entries(*old(slots)).insert(number, value),
        keys::is_key_number(number),
        number != NULL_KEY,
{
    slotmap::Key::data(&slots.map.insert(value)).as_ffi()
}

/// Calls `DenseSlotMap::get`: the value of the key with the given number, if the
/// slot map has that key.
#[verifier::external_body]
fn slots_get(slots: &Slots, number: u64) -> (value: Option<usize>)
    ensures
        value is Some <==> slot_entries(*slots).contains_key(keys::normal_ffi(number)),
        value is Some ==> value->0 == slot_entries(*slots)[keys::normal_ffi(number)],
{
    slots.map.get(DefaultKey::from(KeyData::from_ffi(number))).copied()
}

/// Objects of one kind, each under a key of its own. Keys stay valid: nothing is
/// ever taken out.
pub struct Arena<K: SlotKey, V> {
    slots: Slots,
    items: Vec<V>,
    kind: PhantomData<K>,
}

impl<K: SlotKey, V> View for Arena<K, V> {
    type V = Map<K, V>;

    closed spec fn view(&self) -> Map<K, V> {
        Map::new(
            |key: K| slot_entries(self.slots).contains_key(key.number()),
            |key: K| self.items[slot_entries(self.slots)[key.number()] as int],
        )
    }
}

impl<K: SlotKey, V> Arena<K, V> {
    /// Every key names an item of its own, and every item has a key.
    pub closed spec fn wf(self) -> bool {
        let entries = slot_entries(self.slots);
        &&& entries.dom().finite()
        &&& entries.len() == self.items.len()
        &&& forall|n: u64| #[trigger]
            entries.contains_key(n) ==> entries[n] < self.items.len() && keys::is_key_number(n) && n
                != NULL_KEY
        &&& forall|m: u64, n: u64|
            #![trigger entries[m], entries[n]]
            entries.contains_key(m) && entries.contains_key(n) && entries[m] == entries[n] ==> m
                == n
    }

    /// The number of objects.
    pub closed spec fn size(self) -> nat {
        self.items.len() as nat
    }

    pub fn with_capacity(capacity: usize) -> (arena: Self)
        requires
            capacity <= 0x1_0000,
        ensures
            arena.wf(),
            arena.size() == 0,
            arena@ == Map::<K, V>::empty(),
    {
        let arena: Self = Arena {
            slots: slots_with_capacity(capacity),
            items: Vec::new(),
            kind: PhantomData,
        };
        assert(arena@ =~= Map::<K, V>::empty());
        arena
    }

    pub fn len(&self) -> (len: usize)
        ensures
            len == self.size(),
    {
        self.items.len()
    }

    /// Stores an object under a new key.
    pub fn insert(&mut self, item: V) -> (key: K)
        requires
            old(self).wf(),
            old(self).size() < MAX_SLOTS,
        ensures
            final(self).wf(),
            final(self).size() == old(self).size() + 1,
            !old(self)@.contains_key(key),
            final(self)@ == old(self)@.insert(key, item),
            keys::is_key_number(key.number()),
            key.number() != NULL_KEY,
    {
        let position: usize = self.items.len();
        let number: u64 = slots_insert(&mut self.slots, position);
        self.items.push(item);
        let key = K::from_number(number);
        proof {
            let before = old(self)@;
            assert forall|k: K| #[trigger] self@.contains_key(k) <==> before.insert(
                key,
                item,
            ).contains_key(k) by {
                if k.number() == number {
                    K::number_is_identity(k, key);
                }
            }
            assert(self@ =~= before.insert(key, item));
        }
        key
    }

    /// The object under `key`, if there is one.
    pub fn get(&self, key: K) -> (item: Option<&V>)
        requires
            self.wf(),
        ensures
            item is Some <==> self@.contains_key(key),
            item is Some ==> *item->0 == self@[key],
    {
        let number: u64 = key.to_number();
        if number | VERSION_BIT != number {
            return None;
        }
        match slots_get(&self.slots, number) {
            Some(position) => Some(&self.items[position]),
            None => None,
        }
    }

    /// The object under `key`.
    pub fn at(&self, key: K) -> (item: &V)
        requires
            self.wf(),
            self@.contains_key(key),
        ensures
            *item == self@[key],
    {
        self.get(key).unwrap()
    }

    /// The object under `key`, to be changed in place.
    pub fn at_mut(&mut self, key: K) -> (item: &mut V)
        requires
            old(self).wf(),
            old(self)@.contains_key(key),
        ensures
            *item == old(self)@[key],
            final(self).wf(),
            final(self).size() == old(self).size(),
            final(self)@ == old(self)@.insert(key, *final(item)),
    {
        let number: u64 = key.to_number();
        let position: usize = slots_get(&self.slots, number).unwrap();
        proof {
            assert forall|k: K| #[trigger] k.number() == number implies k == key by {
                K::number_is_identity(k, key);
            }
        }
        &mut self.items[position]
    }
}

} // verus!
