//! A map whose entries live while someone holds them.
//!
//! Inserting a value hands back a holder of its entry, and reading an entry
//! hands out one more. Each holder is given back with
//! [`WeakMap::release`]; when the last holder of an entry is released, the
//! entry leaves the map.

use std::collections::HashMap;
use std::hash::Hash;
use vstd::prelude::*;
use vstd::std_specs::hash::obeys_key_model;

use crate::ids::{is_random_uuid, new_random_id};

verus! {

broadcast use vstd::std_specs::hash::group_hash_axioms;

/// A value of the map and the number of holders of its entry.
pub struct HeldEntry<V> {
    pub value: V,
    pub holders: nat,
}

struct Slot<V> {
    value: V,
    holders: u64,
}

/// A map of entries kept while they are held.
pub struct WeakMap<Key, V> {
    map: HashMap<Key, Slot<V>>,
}

/// A map keyed by UUIDs, held as their 128-bit value.
pub type WeakUuidMap<V> = WeakMap<u128, V>;

/// A holder of the entry stored under a key.
pub struct WeakMapEntryArc<Key> {
    id: Key,
}

impl<Key> View for WeakMapEntryArc<Key> {
    type V = Key;

    closed spec fn view(&self) -> Key {
        self.id
    }
}

impl<Key: Copy> WeakMapEntryArc<Key> {
    /// The key of the entry held.
    pub fn id(&self) -> (r: Key)
        ensures
            r == self@,
    {
        self.id
    }
}

impl<Key, V> View for WeakMap<Key, V> {
    type V = Map<Key, HeldEntry<V>>;

    closed spec fn view(&self) -> Map<Key, HeldEntry<V>> {
        self.map@.map_values(|s: Slot<V>| HeldEntry { value: s.value, holders: s.holders as nat })
    }
}

/// Every entry of the map has a holder.
pub open spec fn weak_map_wf<Key, V>(m: Map<Key, HeldEntry<V>>) -> bool {
    forall|k: Key| #[trigger] m.contains_key(k) ==> m[k].holders > 0
}

/// The map after `key` was given a fresh entry holding `value`, with one
/// holder.
pub open spec fn spec_insert<Key, V>(m: Map<Key, HeldEntry<V>>, key: Key, value: V) -> Map<Key, HeldEntry<V>> {
    m.insert(key, HeldEntry { value, holders: 1 })
}

/// The map after the entry of `key` got one more holder.
pub open spec fn spec_hold<Key, V>(m: Map<Key, HeldEntry<V>>, key: Key) -> Map<Key, HeldEntry<V>> {
    m.insert(key, HeldEntry { value: m[key].value, holders: m[key].holders + 1 })
}

/// The map after a holder of the entry of `key` was given back: the entry
/// leaves with its last holder. A key without entry changes nothing.
pub open spec fn spec_release<Key, V>(m: Map<Key, HeldEntry<V>>, key: Key) -> Map<Key, HeldEntry<V>> {
    if !m.contains_key(key) {
        m
    } else if m[key].holders <= 1 {
        m.remove(key)
    } else {
        m.insert(key, HeldEntry { value: m[key].value, holders: (m[key].holders - 1) as nat })
    }
}

impl<Key: Copy + Eq + Hash, V> WeakMap<Key, V> {
    /// An empty map.
    pub fn new() -> (r: Self)
        ensures
            r@ == Map::<Key, HeldEntry<V>>::empty(),
            weak_map_wf(r@),
    {
        let r = WeakMap { map: HashMap::new() };
        proof {
            assert(r@ =~= Map::<Key, HeldEntry<V>>::empty());
        }
        r
    }

    /// Number of entries.
    pub fn len(&self) -> (r: usize)
        ensures
            obeys_key_model::<Key>() ==> r == self@.len(),
    {
        proof {
            assert(self@.dom() =~= self.map@.dom());
        }
        self.map.len()
    }

    /// The map has no entry.
    pub fn is_empty(&self) -> (r: bool)
        ensures
            r == (self@.len() == 0),
    {
        proof {
            assert(self@.dom() =~= self.map@.dom());
        }
        self.map.is_empty()
    }

    /// Stores `value` under `key`, replacing an entry stored there, and
    /// hands back the key with the first holder of the new entry.
    pub fn insert(&mut self, key: Key, value: V) -> (r: (Key, WeakMapEntryArc<Key>))
        requires
            weak_map_wf(old(self)@),
        ensures
            obeys_key_model::<Key>() ==> weak_map_wf(final(self)@),
            r.0 == key,
            r.1@ == key,
            obeys_key_model::<Key>() ==> final(self)@ == spec_insert(old(self)@, key, value),
    {
        self.map.insert(key, Slot { value, holders: 1 });
        proof {
            if obeys_key_model::<Key>() {
                assert(self@ =~= spec_insert(old(self)@, key, value));
                assert forall|k: Key| #[trigger] self@.contains_key(k) implies self@[k].holders > 0 by {
                    if k != key {
                        assert(old(self)@.contains_key(k));
                    }
                }
            }
        }
        (key, WeakMapEntryArc { id: key })
    }

    /// A new holder of the entry stored under `id`; `None` when there is no
    /// such entry.
    pub fn get(&mut self, id: &Key) -> (r: Option<WeakMapEntryArc<Key>>)
        requires
            weak_map_wf(old(self)@),
            old(self)@.contains_key(*id) ==> old(self)@[*id].holders < u64::MAX,
        ensures
            obeys_key_model::<Key>() ==> weak_map_wf(final(self)@),
            obeys_key_model::<Key>() ==> match r {
                Some(h) => old(self)@.contains_key(*id) && h@ == *id && final(self)@ == spec_hold(
                    old(self)@,
                    *id,
                ),
                None => !old(self)@.contains_key(*id) && final(self)@ == old(self)@,
            },
    {
        match self.map.remove(id) {
            None => {
                proof {
                    if obeys_key_model::<Key>() {
                        assert(self@ =~= old(self)@);
                    }
                }
                None
            },
            Some(slot) => {
                let key = *id;
                let holders = if slot.holders < u64::MAX {
                    slot.holders + 1
                } else {
                    slot.holders
                };
                self.map.insert(key, Slot { value: slot.value, holders });
                proof {
                    if obeys_key_model::<Key>() {
                        assert(old(self).map@.contains_key(*id));
                        assert(self@ =~= spec_hold(old(self)@, *id));
                        assert forall|k: Key| #[trigger] self@.contains_key(k) implies self@[k].holders
                            > 0 by {
                            if k != key {
                                assert(old(self)@.contains_key(k));
                            }
                        }
                    }
                }
                Some(WeakMapEntryArc { id: key })
            },
        }
    }

    /// The value of the entry that `entry` holds, while it is in the map.
    pub fn value(&self, entry: &WeakMapEntryArc<Key>) -> (r: Option<&V>)
        ensures
            obeys_key_model::<Key>() ==> match r {
                Some(v) => self@.contains_key(entry@) && *v == self@[entry@].value,
                None => !self@.contains_key(entry@),
            },
    {
        match self.map.get(&entry.id) {
            Some(slot) => Some(&slot.value),
            None => None,
        }
    }

    /// Gives back a holder; the entry leaves the map with its last holder.
    pub fn release(&mut self, entry: WeakMapEntryArc<Key>)
        requires
            weak_map_wf(old(self)@),
        ensures
            obeys_key_model::<Key>() ==> weak_map_wf(final(self)@),
            obeys_key_model::<Key>() ==> final(self)@ == spec_release(old(self)@, entry@),
    {
        let key = entry.id;
        match self.map.remove(&key) {
            None => {
                proof {
                    if obeys_key_model::<Key>() {
                        assert(self@ =~= old(self)@);
                    }
                }
            },
            Some(slot) => {
                if slot.holders > 1 {
                    self.map.insert(key, Slot { value: slot.value, holders: slot.holders - 1 });
                }
                proof {
                    if obeys_key_model::<Key>() {
                        assert(old(self)@.contains_key(key));
                        assert(self@ =~= spec_release(old(self)@, key));
                        assert forall|k: Key| #[trigger] self@.contains_key(k) implies self@[k].holders
                            > 0 by {
                            if k != key {
                                assert(old(self)@.contains_key(k));
                            }
                        }
                    }
                }
            },
        }
    }
}

impl<V> WeakMap<u128, V> {
    /// Stores `value` under a new random UUID, and hands back the UUID with
    /// the first holder of the entry.
    pub fn insert_random_key(&mut self, value: V) -> (r: (u128, WeakMapEntryArc<u128>))
        requires
            weak_map_wf(old(self)@),
        ensures
            weak_map_wf(final(self)@),
            is_random_uuid(r.0),
            r.1@ == r.0,
            final(self)@ == spec_insert(old(self)@, r.0, value),
    {
        let id = new_random_id();
        self.insert(id, value)
    }
}

/// An entry lives exactly as long as it is held: the holder that inserting
/// hands back keeps it; one more holder keeps it after the first is given
/// back; it leaves the map when its last holder is given back. Other
/// entries are not touched.
pub proof fn law_entry_lives_while_held<Key, V>(m: Map<Key, HeldEntry<V>>, key: Key, value: V, other: Key)
    requires
        weak_map_wf(m),
        other != key,
    ensures
        ({
            let inserted = spec_insert(m, key, value);
            let held = spec_hold(inserted, key);
            &&& weak_map_wf(inserted)
            &&& inserted.contains_key(key) && inserted[key].value == value
            &&& !spec_release(inserted, key).contains_key(key)
            &&& spec_release(held, key).contains_key(key)
            &&& spec_release(held, key)[key].value == value
            &&& !spec_release(spec_release(held, key), key).contains_key(key)
            &&& spec_release(inserted, key).contains_key(other) == m.contains_key(other)
        }),
{
}

/// Giving back one holder takes exactly one holder away: an entry with
/// more than one holder stays, with its value and one holder fewer; an entry
/// with one holder leaves the map; every other entry is untouched. A new
/// holder adds exactly one, and giving it back again restores the map.
pub proof fn law_release_takes_one_holder<Key, V>(m: Map<Key, HeldEntry<V>>, key: Key)
    requires
        weak_map_wf(m),
        m.contains_key(key),
    ensures
        m[key].holders > 1 ==> {
            &&& spec_release(m, key).contains_key(key)
            &&& spec_release(m, key)[key].holders + 1 == m[key].holders
            &&& spec_release(m, key)[key].value == m[key].value
        },
        m[key].holders == 1 ==> !spec_release(m, key).contains_key(key),
        forall|k: Key|
            k != key ==> (#[trigger] spec_release(m, key).contains_key(k) == m.contains_key(k) && (
            m.contains_key(k) ==> spec_release(m, key)[k] == m[k])),
        spec_hold(m, key)[key].holders == m[key].holders + 1,
        spec_hold(m, key)[key].value == m[key].value,
        spec_release(spec_hold(m, key), key) == m,
        weak_map_wf(spec_release(m, key)),
        weak_map_wf(spec_hold(m, key)),
{
    assert(spec_release(spec_hold(m, key), key) =~= m);
}

/// An entry with `n` holders stays in the map, with its value, through
/// every release but the last: after `j < n` releases it has `n - j`
/// holders.
pub proof fn law_entry_stays_until_last_release<Key, V>(m: Map<Key, HeldEntry<V>>, key: Key, j: nat)
    requires
        weak_map_wf(m),
        m.contains_key(key),
        j < m[key].holders,
    ensures
        releases(m, key, j).contains_key(key),
        releases(m, key, j)[key].holders + j == m[key].holders,
        releases(m, key, j)[key].value == m[key].value,
        !releases(m, key, m[key].holders).contains_key(key),
    decreases j,
{
    if j > 0 {
        law_entry_stays_until_last_release(m, key, (j - 1) as nat);
    }
    lemma_releases_all(m, key, m[key].holders);
}

proof fn lemma_releases_all<Key, V>(m: Map<Key, HeldEntry<V>>, key: Key, n: nat)
    requires
        m.contains_key(key),
        m[key].holders == n,
        n > 0,
    ensures
        !releases(m, key, n).contains_key(key),
    decreases n,
{
    lemma_releases_shift(m, key, (n - 1) as nat);
    let m1 = spec_release(m, key);
    if n > 1 {
        assert(m1.contains_key(key) && m1[key].holders == n - 1);
        lemma_releases_all(m1, key, (n - 1) as nat);
    } else {
        assert(releases(m1, key, 0) == m1);
    }
}

proof fn lemma_releases_shift<Key, V>(m: Map<Key, HeldEntry<V>>, key: Key, j: nat)
    ensures
        releases(m, key, j + 1) == releases(spec_release(m, key), key, j),
    decreases j,
{
    if j > 0 {
        lemma_releases_shift(m, key, (j - 1) as nat);
        assert(releases(m, key, j + 1) == spec_release(releases(m, key, j), key));
        assert(releases(spec_release(m, key), key, j) == spec_release(
            releases(spec_release(m, key), key, (j - 1) as nat),
            key,
        ));
    } else {
        assert(releases(m, key, 1) == spec_release(releases(m, key, 0), key));
        assert(releases(spec_release(m, key), key, 0) == spec_release(m, key));
    }
}

/// The map after `j` holders of the entry of `key` were given back.
pub open spec fn releases<Key, V>(m: Map<Key, HeldEntry<V>>, key: Key, j: nat) -> Map<Key, HeldEntry<V>>
    decreases j,
{
    if j == 0 {
        m
    } else {
        spec_release(releases(m, key, (j - 1) as nat), key)
    }
}

} // verus!
