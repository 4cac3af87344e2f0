//! A map that lets you remove the entries that have not been used for some
//! time.
//!
//! Every entry carries the time it was last inserted or read, in nanoseconds
//! since the Unix epoch. The map does not remove entries by itself, only when
//! [`TimedMap::timeout`] is called.

use std::time::SystemTime;
use vstd::prelude::*;

use crate::clock::ClockReading;

verus! {

#[verifier::external_type_specification]
#[verifier::external_body]
pub struct ExSystemTime(SystemTime);

/// Calls `std::time::SystemTime::now`. The time is read from the system
/// clock: nothing is claimed of it.
#[verifier::external_body]
fn system_time_now() -> (t: SystemTime) {
    SystemTime::now()
}

/// Calls `SystemTime::duration_since` with the Unix epoch and converts the
/// duration to whole nanoseconds (`Duration::as_nanos`). `None` stands for the
/// error that `duration_since` returns for a time before the epoch. Nothing is
/// claimed of the value, which comes from the clock.
#[verifier::external_body]
fn nanos_since_epoch(t: &SystemTime) -> (r: Option<u128>) {
    match t.duration_since(SystemTime::UNIX_EPOCH) {
        Ok(d) => Some(d.as_nanos()),
        Err(_) => None,
    }
}

/// Nanoseconds in a second.
pub const NANOS_PER_SEC: u128 = 1_000_000_000u128;

/// A length of time, as whole seconds and the nanoseconds past them.
#[derive(Clone, Copy, Debug, PartialEq, Eq, Structural)]
pub struct TimeSpan {
    pub secs: u64,
    pub nanos: u32,
}

/// The length of a span in nanoseconds.
pub open spec fn span_nanos(d: TimeSpan) -> int {
    d.secs * NANOS_PER_SEC + d.nanos
}

impl TimeSpan {
    /// A span of `secs` whole seconds.
    pub fn from_secs(secs: u64) -> (r: TimeSpan)
        ensures
            span_nanos(r) == secs * NANOS_PER_SEC,
            r.nanos == 0,
    {
        TimeSpan { secs, nanos: 0 }
    }

    /// A span of `millis` milliseconds.
    pub fn from_millis(millis: u64) -> (r: TimeSpan)
        ensures
            span_nanos(r) == millis * 1_000_000,
            r.nanos < NANOS_PER_SEC,
    {
        let r = TimeSpan { secs: millis / 1000, nanos: ((millis % 1000) as u32) * 1_000_000 };
        assert(span_nanos(r) == millis * 1_000_000) by (nonlinear_arith)
            requires
                r.secs == millis / 1000,
                r.nanos == (millis % 1000) * 1_000_000,
                NANOS_PER_SEC == 1_000_000_000,
        ;
        r
    }

    /// The span in whole nanoseconds.
    pub fn as_nanos(&self) -> (r: u128)
        ensures
            r == span_nanos(*self),
    {
        assert(self.secs * NANOS_PER_SEC + self.nanos <= u128::MAX) by (nonlinear_arith)
            requires
                self.secs <= u64::MAX,
                self.nanos <= u32::MAX,
                NANOS_PER_SEC == 1_000_000_000,
        ;
        (self.secs as u128) * NANOS_PER_SEC + (self.nanos as u128)
    }
}

/// The current time in nanoseconds since the Unix epoch; 0 when the clock
/// reads a time before the epoch.
pub fn timestamp_now() -> (r: u128) {
    let t = system_time_now();
    match nanos_since_epoch(&t) {
        Some(n) => n,
        None => 0,
    }
}

/// The earliest time of use that an entry may have to survive a timeout
/// with the given `window` at time `now`. When the window reaches back
/// before the epoch, no entry is too old.
pub open spec fn spec_expiry(now: u128, window: u128) -> u128 {
    if window <= now {
        (now - window) as u128
    } else {
        0
    }
}

/// Computes [`spec_expiry`].
pub fn expiry(now: u128, window: u128) -> (r: u128)
    ensures
        r == spec_expiry(now, window),
{
    if window <= now {
        now - window
    } else {
        0
    }
}

/// A value and the time it was last inserted or read.
pub struct TimedMapEntry<Val> {
    pub stamp: u128,
    pub value: Val,
}

/// An entry survives a timeout with expiry time `expired` when it was used
/// at `expired` or later.
pub open spec fn spec_is_fresh<Val>(entry: TimedMapEntry<Val>, expired: u128) -> bool {
    entry.stamp >= expired
}

/// Computes [`spec_is_fresh`].
pub fn is_fresh<Val>(entry: &TimedMapEntry<Val>, expired: u128) -> (r: bool)
    ensures
        r == spec_is_fresh(*entry, expired),
{
    entry.stamp >= expired
}

/// The entries of `m` that survive a timeout with expiry time `expired`.
pub open spec fn spec_retain_fresh<Key, Val>(
    m: Map<Key, TimedMapEntry<Val>>,
    expired: u128,
) -> Map<Key, TimedMapEntry<Val>> {
    m.restrict(m.dom().filter(|k: Key| spec_is_fresh(m[k], expired)))
}

/// A type of keys: two keys are the same key when their views are equal.
pub trait TimedKey: View + Sized {
    /// `self` and `other` are the same key.
    fn same_key(&self, other: &Self) -> (r: bool)
        ensures
            r == (self@ == other@),
    ;
}

impl TimedKey for String {
    fn same_key(&self, other: &Self) -> (r: bool) {
        self.eq(other)
    }
}

impl<'a> TimedKey for &'a str {
    fn same_key(&self, other: &Self) -> (r: bool) {
        let n = self.unicode_len();
        if n != other.unicode_len() {
            return false;
        }
        let mut i: usize = 0;
        while i < n
            invariant
                n == self@.len(),
                n == other@.len(),
                i <= n,
                forall|j: int| 0 <= j < i ==> self@[j] == other@[j],
            decreases n - i,
        {
            if self.get_char(i) != other.get_char(i) {
                return false;
            }
            i = i + 1;
        }
        proof {
            assert(self@ =~= other@);
        }
        true
    }
}

impl TimedKey for i32 {
    fn same_key(&self, other: &Self) -> (r: bool) {
        *self == *other
    }
}

impl TimedKey for i64 {
    fn same_key(&self, other: &Self) -> (r: bool) {
        *self == *other
    }
}

impl TimedKey for u32 {
    fn same_key(&self, other: &Self) -> (r: bool) {
        *self == *other
    }
}

impl TimedKey for u64 {
    fn same_key(&self, other: &Self) -> (r: bool) {
        *self == *other
    }
}

impl TimedKey for u128 {
    fn same_key(&self, other: &Self) -> (r: bool) {
        *self == *other
    }
}

impl TimedKey for usize {
    fn same_key(&self, other: &Self) -> (r: bool) {
        *self == *other
    }
}

/// An entry of the map: its key, the time it was last used and its value.
struct Slot<Key, Val> {
    key: Key,
    stamp: u128,
    value: Val,
}

spec fn slot_entry<Key, Val>(s: Slot<Key, Val>) -> TimedMapEntry<Val> {
    TimedMapEntry { stamp: s.stamp, value: s.value }
}

/// The map that a sequence of entries stands for.
spec fn slots_map<Key: View, Val>(s: Seq<Slot<Key, Val>>) -> Map<Key::V, TimedMapEntry<Val>>
    decreases s.len(),
{
    if s.len() == 0 {
        Map::empty()
    } else {
        slots_map(s.drop_last()).insert(s.last().key@, slot_entry(s.last()))
    }
}

/// No key occurs twice.
spec fn keys_unique<Key: View, Val>(s: Seq<Slot<Key, Val>>) -> bool {
    forall|i: int, j: int| 0 <= i < j < s.len() ==> s[i].key@ != s[j].key@
}

/// `key` is the key of some entry of `s`.
spec fn has_key<Key: View, Val>(s: Seq<Slot<Key, Val>>, key: Key::V) -> bool {
    exists|i: int| 0 <= i < s.len() && s[i].key@ == key
}

proof fn lemma_slots_map<Key: View, Val>(s: Seq<Slot<Key, Val>>)
    requires
        keys_unique(s),
    ensures
        forall|k: Key::V| #[trigger] slots_map(s).contains_key(k) <==> has_key(s, k),
        forall|i: int|
            0 <= i < s.len() ==> #[trigger] slots_map(s)[s[i].key@] == slot_entry(s[i]),
    decreases s.len(),
{
    if s.len() > 0 {
        let p = s.drop_last();
        assert(keys_unique(p));
        lemma_slots_map(p);
        assert forall|k: Key::V| #[trigger] slots_map(s).contains_key(k) <==> has_key(s, k) by {
            let m = slots_map(p);
            assert(slots_map(s) == m.insert(s.last().key@, slot_entry(s.last())));
            if k == s.last().key@ {
                assert(s[s.len() - 1].key@ == k);
            } else {
                assert(slots_map(s).contains_key(k) == m.contains_key(k));
                if m.contains_key(k) {
                    let i = choose|i: int| 0 <= i < p.len() && p[i].key@ == k;
                    assert(s[i] == p[i]);
                }
                if has_key(s, k) {
                    let i = choose|i: int| 0 <= i < s.len() && s[i].key@ == k;
                    assert(i < p.len());
                    assert(p[i] == s[i]);
                    assert(has_key(p, k));
                }
            }
        }
        assert forall|i: int| 0 <= i < s.len() implies #[trigger] slots_map(s)[s[i].key@] == slot_entry(
            s[i],
        ) by {
            if i < p.len() {
                assert(p[i] == s[i]);
                assert(s[i].key@ != s[s.len() - 1].key@);
                assert(slots_map(p)[p[i].key@] == slot_entry(p[i]));
            } else {
                assert(s[i] == s.last());
            }
        }
    }
}

/// A sequence of entries without repeated keys stands for `m` when `m` holds
/// exactly its keys, each with the entry that carries it.
proof fn lemma_slots_map_is<Key: View, Val>(s: Seq<Slot<Key, Val>>, m: Map<Key::V, TimedMapEntry<Val>>)
    requires
        keys_unique(s),
        forall|k: Key::V| #[trigger] m.contains_key(k) <==> has_key(s, k),
        forall|i: int| 0 <= i < s.len() ==> #[trigger] m[s[i].key@] == slot_entry(s[i]),
    ensures
        slots_map(s) == m,
{
    lemma_slots_map(s);
    assert forall|k: Key::V| #[trigger] m.contains_key(k) implies slots_map(s)[k] == m[k] by {
        let i = choose|i: int| 0 <= i < s.len() && s[i].key@ == k;
    }
    assert(slots_map(s) =~= m);
}

/// A map that lets you remove entries after some time without use.
pub struct TimedMap<Key, Val> {
    slots: Vec<Slot<Key, Val>>,
}

impl<Key: View, Val> View for TimedMap<Key, Val> {
    type V = Map<Key::V, TimedMapEntry<Val>>;

    closed spec fn view(&self) -> Self::V {
        slots_map(self.slots@)
    }
}

/// Where `key` is stored in `s`, if it is.
fn find_key<Key: TimedKey, Val>(s: &Vec<Slot<Key, Val>>, key: &Key) -> (r: Option<usize>)
    ensures
        match r {
            Some(i) => i < s@.len() && s@[i as int].key@ == key@,
            None => !has_key(s@, key@),
        },
{
    let mut i: usize = 0;
    while i < s.len()
        invariant
            i <= s@.len(),
            forall|j: int| 0 <= j < i ==> s@[j].key@ != key@,
        decreases s@.len() - i,
    {
        if s[i].key.same_key(key) {
            return Some(i);
        }
        i = i + 1;
    }
    None
}

impl<Key: TimedKey, Val> TimedMap<Key, Val> {
    /// The map is well formed: no key is stored twice.
    pub closed spec fn well_formed(&self) -> bool {
        keys_unique(self.slots@)
    }

    /// Creates an empty map.
    pub fn new() -> (r: Self)
        ensures
            r.well_formed(),
            r@ == Map::<Key::V, TimedMapEntry<Val>>::empty(),
    {
        let r = TimedMap { slots: Vec::new() };
        proof {
            assert(r.slots@.len() == 0);
        }
        r
    }

    /// Returns true if the map contains no elements.
    pub fn is_empty(&self) -> (r: bool)
        requires
            self.well_formed(),
        ensures
            r == self@.is_empty(),
    {
        proof {
            lemma_slots_map(self.slots@);
            if self.slots@.len() > 0 {
                assert(self@.contains_key(self.slots@[0].key@));
            } else {
                assert(self@ =~= Map::<Key::V, TimedMapEntry<Val>>::empty());
            }
        }
        self.slots.len() == 0
    }

    /// Inserts an element, used at time `now`. An element stored under the
    /// same key is replaced.
    pub fn insert_at(&mut self, key: Key, value: Val, now: u128)
        requires
            old(self).well_formed(),
        ensures
            final(self).well_formed(),
            final(self)@ == old(self)@.insert(key@, TimedMapEntry { stamp: now, value }),
    {
        let ghost s = self.slots@;
        let ghost target = old(self)@.insert(key@, TimedMapEntry { stamp: now, value });
        proof {
            lemma_slots_map(s);
        }
        match find_key(&self.slots, &key) {
            Some(i) => {
                self.slots.set(i, Slot { key, stamp: now, value });
                proof {
                    let t = self.slots@;
                    assert forall|a: int, b: int| 0 <= a < b < t.len() implies t[a].key@ != t[b].key@ by {
                        assert(s[a].key@ != s[b].key@);
                    }
                    assert forall|k: Key::V| #[trigger] target.contains_key(k) <==> has_key(t, k) by {
                        if has_key(s, k) {
                            let j = choose|j: int| 0 <= j < s.len() && s[j].key@ == k;
                            assert(t[j].key@ == k);
                        }
                        if has_key(t, k) {
                            let j = choose|j: int| 0 <= j < t.len() && t[j].key@ == k;
                            if j != i {
                                assert(s[j] == t[j]);
                                assert(has_key(s, k));
                            }
                        }
                    }
                    assert forall|j: int| 0 <= j < t.len() implies #[trigger] target[t[j].key@]
                        == slot_entry(t[j]) by {
                        if j != i {
                            assert(s[j] == t[j]);
                            assert(s[j].key@ != s[i as int].key@);
                        }
                    }
                    lemma_slots_map_is(t, target);
                }
            },
            None => {
                self.slots.push(Slot { key, stamp: now, value });
                proof {
                    let t = self.slots@;
                    assert(t.drop_last() == s);
                    assert forall|a: int, b: int| 0 <= a < b < t.len() implies t[a].key@ != t[b].key@ by {
                        if b < s.len() {
                            assert(s[a].key@ != s[b].key@);
                        } else {
                            assert(t[a] == s[a]);
                        }
                    }
                }
            },
        }
    }

    /// Inserts an element and sets its time of use to the current time.
    /// Hands back the clock reading that became the element's time of use.
    pub fn insert(&mut self, key: Key, value: Val) -> (reading: ClockReading)
        requires
            old(self).well_formed(),
        ensures
            final(self).well_formed(),
            exists|now: u128|
                final(self)@ == old(self)@.insert(key@, TimedMapEntry { stamp: now, value }),
            final(self)@ == old(self)@.insert(key@, TimedMapEntry { stamp: reading@, value }),
    {
        let now = ClockReading::read();
        self.insert_at(key, value, now.nanos());
        now
    }

    /// Removes the element stored under `key`, if any.
    pub fn remove(&mut self, key: &Key)
        requires
            old(self).well_formed(),
        ensures
            final(self).well_formed(),
            final(self)@ == old(self)@.remove(key@),
    {
        let ghost s = self.slots@;
        let ghost target = old(self)@.remove(key@);
        proof {
            lemma_slots_map(s);
        }
        match find_key(&self.slots, key) {
            None => {
                proof {
                    assert(old(self)@ =~= target);
                }
            },
            Some(i) => {
                let _ = self.slots.remove(i);
                proof {
                    let t = self.slots@;
                    assert forall|j: int| 0 <= j < t.len() implies #[trigger] t[j] == s[if j < i {
                        j
                    } else {
                        j + 1
                    }] by {}
                    assert forall|a: int, b: int| 0 <= a < b < t.len() implies t[a].key@ != t[b].key@ by {
                        assert(t[a] == s[if a < i { a } else { a + 1 }]);
                        assert(t[b] == s[if b < i { b } else { b + 1 }]);
                    }
                    assert forall|k: Key::V| #[trigger] target.contains_key(k) <==> has_key(t, k) by {
                        if has_key(t, k) {
                            let j = choose|j: int| 0 <= j < t.len() && t[j].key@ == k;
                            let jj = if j < i { j } else { j + 1 };
                            assert(t[j] == s[jj]);
                            assert(s[jj].key@ != s[i as int].key@);
                            assert(has_key(s, k));
                        }
                        if target.contains_key(k) {
                            let j = choose|j: int| 0 <= j < s.len() && s[j].key@ == k;
                            assert(j != i);
                            let jj = if j < i { j } else { j - 1 };
                            assert(t[jj] == s[j]);
                        }
                    }
                    assert forall|j: int| 0 <= j < t.len() implies #[trigger] target[t[j].key@]
                        == slot_entry(t[j]) by {
                        let jj = if j < i { j } else { j + 1 };
                        assert(t[j] == s[jj]);
                        assert(s[jj].key@ != s[i as int].key@);
                    }
                    lemma_slots_map_is(t, target);
                }
            },
        }
    }

    /// Returns the element stored under `key`, and sets its time of use to
    /// `now`.
    pub fn get_at(&mut self, key: &Key, now: u128) -> (r: Option<&Val>)
        requires
            old(self).well_formed(),
        ensures
            final(self).well_formed(),
            match r {
                Some(v) => {
                    &&& old(self)@.contains_key(key@)
                    &&& *v == old(self)@[key@].value
                    &&& final(self)@ == old(self)@.insert(
                        key@,
                        TimedMapEntry { stamp: now, value: old(self)@[key@].value },
                    )
                },
                None => !old(self)@.contains_key(key@) && final(self)@ == old(self)@,
            },
    {
        let ghost s = self.slots@;
        proof {
            lemma_slots_map(s);
        }
        match find_key(&self.slots, key) {
            None => None,
            Some(i) => {
                let ghost target = old(self)@.insert(
                    key@,
                    TimedMapEntry { stamp: now, value: old(self)@[key@].value },
                );
                self.slots[i].stamp = now;
                proof {
                    let t = self.slots@;
                    assert(t == s.update(i as int, Slot { stamp: now, ..s[i as int] }));
                    assert forall|a: int, b: int| 0 <= a < b < t.len() implies t[a].key@ != t[b].key@ by {
                        assert(s[a].key@ != s[b].key@);
                    }
                    assert forall|k: Key::V| #[trigger] target.contains_key(k) <==> has_key(t, k) by {
                        if has_key(s, k) {
                            let j = choose|j: int| 0 <= j < s.len() && s[j].key@ == k;
                            assert(t[j].key@ == k);
                        }
                        if has_key(t, k) {
                            let j = choose|j: int| 0 <= j < t.len() && t[j].key@ == k;
                            assert(s[j].key@ == t[j].key@);
                        }
                    }
                    assert forall|j: int| 0 <= j < t.len() implies #[trigger] target[t[j].key@]
                        == slot_entry(t[j]) by {
                        if j != i {
                            assert(s[j] == t[j]);
                            assert(s[j].key@ != s[i as int].key@);
                        }
                    }
                    lemma_slots_map_is(t, target);
                }
                Some(&self.slots[i].value)
            },
        }
    }

    /// Returns the element stored under `key`, and sets its time of use to
    /// the current time.
    pub fn get(&mut self, key: &Key) -> (r: Option<&Val>)
        requires
            old(self).well_formed(),
        ensures
            final(self).well_formed(),
            match r {
                Some(v) => {
                    &&& old(self)@.contains_key(key@)
                    &&& *v == old(self)@[key@].value
                    &&& exists|now: u128|
                        final(self)@ == old(self)@.insert(
                            key@,
                            TimedMapEntry { stamp: now, value: old(self)@[key@].value },
                        )
                },
                None => !old(self)@.contains_key(key@) && final(self)@ == old(self)@,
            },
    {
        let now = timestamp_now();
        self.get_at(key, now)
    }

    /// Removes every element that was last used before `now - window`
    /// (nanoseconds); when `window` exceeds `now`, no element is removed.
    pub fn timeout_at(&mut self, window: u128, now: u128)
        requires
            old(self).well_formed(),
        ensures
            final(self).well_formed(),
            final(self)@ == spec_retain_fresh(old(self)@, spec_expiry(now, window)),
    {
        let expired = expiry(now, window);
        let ghost s = self.slots@;
        let ghost target = spec_retain_fresh(old(self)@, expired);
        proof {
            lemma_slots_map(s);
        }
        let mut kept: Vec<Slot<Key, Val>> = Vec::new();
        let ghost mut origin: Seq<int> = Seq::empty();
        while self.slots.len() > 0
            invariant
                keys_unique(s),
                self.slots@ == s.take(self.slots@.len() as int),
                self.slots@.len() <= s.len(),
                origin.len() == kept@.len(),
                forall|j: int|
                    0 <= j < kept@.len() ==> self.slots@.len() <= #[trigger] origin[j] < s.len()
                        && kept@[j] == s[origin[j]] && spec_is_fresh(slot_entry(s[origin[j]]), expired),
                forall|x: int|
                    self.slots@.len() <= x < s.len() && spec_is_fresh(slot_entry(s[x]), expired)
                        ==> has_key(kept@, #[trigger] s[x].key@),
                keys_unique(kept@),
                forall|j: int, x: int|
                    0 <= j < kept@.len() && 0 <= x < self.slots@.len() ==> #[trigger] kept@[j].key@
                        != #[trigger] s[x].key@,
            decreases self.slots@.len(),
        {
            let ghost n = self.slots@.len() as int;
            let slot = self.slots.pop().unwrap();
            proof {
                assert(slot == s[n - 1]);
            }
            if is_fresh_slot(&slot, expired) {
                let ghost before = kept@;
                let ghost before_origin = origin;
                kept.push(slot);
                proof {
                    origin = origin.push(n - 1);
                    assert forall|j: int| 0 <= j < kept@.len() implies n - 1 <= #[trigger] origin[j]
                        < s.len() && kept@[j] == s[origin[j]] && spec_is_fresh(
                        slot_entry(s[origin[j]]),
                        expired,
                    ) by {
                        if j < before.len() {
                            assert(kept@[j] == before[j]);
                            assert(origin[j] == before_origin[j]);
                        }
                    }
                    assert forall|a: int, b: int| 0 <= a < b < kept@.len() implies kept@[a].key@
                        != kept@[b].key@ by {
                        if b == before.len() {
                            assert(kept@[a] == before[a]);
                        } else {
                            assert(kept@[a] == before[a]);
                            assert(kept@[b] == before[b]);
                        }
                    }
                    assert forall|x: int|
                        n - 1 <= x < s.len() && spec_is_fresh(slot_entry(s[x]), expired) implies has_key(
                        kept@,
                        #[trigger] s[x].key@,
                    ) by {
                        if x == n - 1 {
                            assert(kept@[before.len() as int] == slot);
                        } else {
                            let j = choose|j: int| 0 <= j < before.len() && before[j].key@ == s[x].key@;
                            assert(kept@[j] == before[j]);
                        }
                    }
                    assert forall|j: int, x: int|
                        0 <= j < kept@.len() && 0 <= x < n - 1 implies #[trigger] kept@[j].key@
                        != #[trigger] s[x].key@ by {
                        if j < before.len() {
                            assert(kept@[j] == before[j]);
                        } else {
                            assert(kept@[j] == s[n - 1]);
                        }
                    }
                }
            } else {
                proof {
                    assert forall|x: int|
                        n - 1 <= x < s.len() && spec_is_fresh(slot_entry(s[x]), expired) implies has_key(
                        kept@,
                        #[trigger] s[x].key@,
                    ) by {
                        assert(x != n - 1);
                    }
                }
            }
        }
        self.slots = kept;
        proof {
            let t = self.slots@;
            assert forall|k: Key::V| #[trigger] target.contains_key(k) <==> has_key(t, k) by {
                if target.contains_key(k) {
                    let x = choose|x: int| 0 <= x < s.len() && s[x].key@ == k;
                    assert(old(self)@[k] == slot_entry(s[x]));
                    assert(has_key(t, s[x].key@));
                }
                if has_key(t, k) {
                    let j = choose|j: int| 0 <= j < t.len() && t[j].key@ == k;
                    let x = origin[j];
                    assert(s[x].key@ == k);
                    assert(has_key(s, k));
                    assert(old(self)@[k] == slot_entry(s[x]));
                }
            }
            assert forall|j: int| 0 <= j < t.len() implies #[trigger] target[t[j].key@] == slot_entry(
                t[j],
            ) by {
                let x = origin[j];
                assert(t[j] == s[x]);
                assert(old(self)@[s[x].key@] == slot_entry(s[x]));
            }
            lemma_slots_map_is(t, target);
        }
    }

    /// Removes all elements that have not been used for a period greater
    /// than `duration`, counted back from the current time.
    /// Hands back the clock reading from which the period was counted back.
    pub fn timeout(&mut self, duration: TimeSpan) -> (reading: ClockReading)
        requires
            old(self).well_formed(),
        ensures
            final(self).well_formed(),
            exists|now: u128|
                final(self)@ == spec_retain_fresh(
                    old(self)@,
                    #[trigger] spec_expiry(now, span_nanos(duration) as u128),
                ),
            final(self)@ == spec_retain_fresh(old(self)@, spec_expiry(reading@, span_nanos(duration) as u128)),
    {
        let window = duration.as_nanos();
        let now = ClockReading::read();
        self.timeout_at(window, now.nanos());
        assert(spec_expiry(now@, span_nanos(duration) as u128) == spec_expiry(now@, window));
        now
    }
}

/// The entry of a slot survives a timeout with expiry time `expired`.
fn is_fresh_slot<Key, Val>(slot: &Slot<Key, Val>, expired: u128) -> (r: bool)
    ensures
        r == spec_is_fresh(slot_entry(*slot), expired),
{
    slot.stamp >= expired
}

/// A timeout keeps exactly the entries used at the expiry time or later,
/// with their values and times of use, and drops every older entry.
pub proof fn law_timeout_keeps_recent_entries<Key, Val>(
    m: Map<Key, TimedMapEntry<Val>>,
    now: u128,
    window: u128,
)
    ensures
        forall|k: Key|
            #[trigger] spec_retain_fresh(m, spec_expiry(now, window)).contains_key(k) <==> (
            m.contains_key(k) && m[k].stamp >= spec_expiry(now, window)),
        forall|k: Key|
            #[trigger] spec_retain_fresh(m, spec_expiry(now, window)).contains_key(k) ==> spec_retain_fresh(
                m,
                spec_expiry(now, window),
            )[k] == m[k],
{
}

/// An entry used at time `t` survives every timeout at a time `now` with a
/// window that reaches back to `t` or earlier: reading an entry keeps it
/// alive, as inserting it does.
pub proof fn law_use_keeps_entry_alive<Key, Val>(
    m: Map<Key, TimedMapEntry<Val>>,
    key: Key,
    value: Val,
    t: u128,
    now: u128,
    window: u128,
)
    requires
        now <= t + window,
    ensures
        spec_retain_fresh(m.insert(key, TimedMapEntry { stamp: t, value }), spec_expiry(now, window)).contains_key(
            key,
        ),
{
    let m1 = m.insert(key, TimedMapEntry { stamp: t, value });
    assert(m1.dom().filter(|k: Key| spec_is_fresh(m1[k], spec_expiry(now, window))).contains(key));
}

/// Removing the only element of a map leaves it empty.
pub proof fn law_insert_then_remove_is_empty<Key, Val>(key: Key, entry: TimedMapEntry<Val>)
    ensures
        Map::<Key, TimedMapEntry<Val>>::empty().insert(key, entry).remove(key).is_empty(),
{
    assert(Map::<Key, TimedMapEntry<Val>>::empty().insert(key, entry).remove(key) =~= Map::<
        Key,
        TimedMapEntry<Val>,
    >::empty());
}

/// A span in nanoseconds fits in a `u128`.
proof fn lemma_span_fits(d: TimeSpan)
    ensures
        0 <= span_nanos(d) <= u128::MAX,
{
    assert(d.secs * NANOS_PER_SEC + d.nanos <= u128::MAX) by (nonlinear_arith)
        requires
            d.secs <= u64::MAX,
            d.nanos <= u32::MAX,
            NANOS_PER_SEC == 1_000_000_000,
    ;
}

/// A timeout with span `d` at clock reading `now` counts back from `now`:
/// when the span reaches no further back than the epoch, an entry survives
/// exactly when it was used no more than `d` before `now`; a longer span
/// removes nothing. Values and times of use of what survives are unchanged.
pub proof fn law_timeout_counts_back_from_now<Key, Val>(
    m: Map<Key, TimedMapEntry<Val>>,
    now: u128,
    d: TimeSpan,
)
    ensures
        ({
            let kept = spec_retain_fresh(m, spec_expiry(now, span_nanos(d) as u128));
            &&& forall|k: Key|
                #[trigger] kept.contains_key(k) ==> m.contains_key(k) && kept[k] == m[k]
            &&& span_nanos(d) <= now ==> forall|k: Key|
                m.contains_key(k) ==> (#[trigger] kept.contains_key(k) <==> m[k].stamp + span_nanos(d)
                    >= now)
            &&& span_nanos(d) > now ==> forall|k: Key|
                m.contains_key(k) ==> #[trigger] kept.contains_key(k)
        }),
{
    lemma_span_fits(d);
    law_timeout_keeps_recent_entries(m, now, span_nanos(d) as u128);
}

/// An element inserted at clock reading `t` and a timeout with span `d` at
/// a later reading `now`: the element is removed exactly when more than `d`
/// passed between the two readings.
pub proof fn law_insert_then_timeout<Key, Val>(
    m: Map<Key, TimedMapEntry<Val>>,
    key: Key,
    value: Val,
    t: u128,
    now: u128,
    d: TimeSpan,
)
    requires
        t <= now,
    ensures
        spec_retain_fresh(
            m.insert(key, TimedMapEntry { stamp: t, value }),
            spec_expiry(now, span_nanos(d) as u128),
        ).contains_key(key) <==> now - t <= span_nanos(d),
{
    lemma_span_fits(d);
    let m1 = m.insert(key, TimedMapEntry { stamp: t, value });
    law_timeout_keeps_recent_entries(m1, now, span_nanos(d) as u128);
}

} // verus!
