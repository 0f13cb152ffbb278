//! An unbounded map from keys to values, for what providers keep between
//! requests, and values that go stale.
use crate::text;
use vstd::prelude::*;

verus! {

/// What values are kept under. Keys with the same `id` are the same key.
pub trait CacheKey: Sized {
    type Id;

    spec fn id(self) -> Self::Id;

    fn is_same(&self, other: &Self) -> (r: bool)
        ensures
            r == (self.id() == other.id()),
    ;
}

impl CacheKey for String {
    type Id = Seq<char>;

    open spec fn id(self) -> Seq<char> {
        self@
    }

    fn is_same(&self, other: &Self) -> (r: bool) {
        text::same(self, other)
    }
}

/// A value under its key.
#[derive(Debug)]
pub struct Slot<K, V> {
    pub key: K,
    pub value: V,
}

/// Values by key.
#[derive(Debug)]
pub struct KeyedCache<K, V> {
    slots: Vec<Slot<K, V>>,
}

/// The position of a key from `i` on, or the number of slots.
pub open spec fn slot_position<K: CacheKey, V>(s: Seq<Slot<K, V>>, id: K::Id, i: int) -> int
    decreases s.len() - i,
{
    if 0 <= i < s.len() && s[i].key.id() != id {
        slot_position(s, id, i + 1)
    } else {
        i
    }
}

/// The value that is kept for a key.
pub open spec fn value_for<K: CacheKey, V>(s: Seq<Slot<K, V>>, id: K::Id) -> Option<V> {
    let i = slot_position(s, id, 0);
    if i < s.len() {
        Some(s[i].value)
    } else {
        None
    }
}

/// The slots with one set.
pub open spec fn with_slot<K: CacheKey, V>(s: Seq<Slot<K, V>>, e: Slot<K, V>) -> Seq<Slot<K, V>> {
    let i = slot_position(s, e.key.id(), 0);
    if i < s.len() {
        s.update(i, e)
    } else {
        s.push(e)
    }
}

proof fn lemma_slot_position<K: CacheKey, V>(s: Seq<Slot<K, V>>, id: K::Id, i: int)
    requires
        0 <= i <= s.len(),
    ensures
        i <= slot_position(s, id, i) <= s.len(),
        slot_position(s, id, i) < s.len() ==> s[slot_position(s, id, i)].key.id() == id,
        forall|j: int| i <= j < slot_position(s, id, i) ==> (#[trigger] s[j]).key.id() != id,
    decreases s.len() - i,
{
    if i < s.len() && s[i].key.id() != id {
        lemma_slot_position(s, id, i + 1);
    }
}

proof fn lemma_found_at<K: CacheKey, V>(s: Seq<Slot<K, V>>, id: K::Id, i: int, n: int)
    requires
        0 <= i <= n <= s.len(),
        n < s.len() ==> s[n].key.id() == id,
        forall|j: int| i <= j < n ==> (#[trigger] s[j]).key.id() != id,
    ensures
        slot_position(s, id, i) == n,
    decreases n - i,
{
    if i < n {
        lemma_found_at(s, id, i + 1, n);
    }
}

/// A key has the value that was stored last.
pub proof fn law_stored_value<K: CacheKey, V>(s: Seq<Slot<K, V>>, e: Slot<K, V>)
    ensures
        value_for(with_slot(s, e), e.key.id()) == Some(e.value),
{
    let id = e.key.id();
    let i = slot_position(s, id, 0);
    lemma_slot_position(s, id, 0);
    let r = with_slot(s, e);
    assert(r[i] == e);
    assert forall|j: int| 0 <= j < i implies (#[trigger] r[j]).key.id() != id by {
        assert(r[j] == s[j]);
    }
    lemma_found_at(r, id, 0, i);
}

/// Storing a value changes no other key's value.
pub proof fn law_other_values<K: CacheKey, V>(s: Seq<Slot<K, V>>, e: Slot<K, V>, id: K::Id)
    requires
        id != e.key.id(),
    ensures
        value_for(with_slot(s, e), id) == value_for(s, id),
{
    let i = slot_position(s, e.key.id(), 0);
    let p = slot_position(s, id, 0);
    lemma_slot_position(s, e.key.id(), 0);
    lemma_slot_position(s, id, 0);
    let r = with_slot(s, e);
    if p < s.len() {
        assert(p != i);
        assert(r[p] == s[p]);
        assert forall|j: int| 0 <= j < p implies (#[trigger] r[j]).key.id() != id by {
            if j != i {
                assert(r[j] == s[j]);
            }
        }
        lemma_found_at(r, id, 0, p);
    } else {
        assert forall|j: int| 0 <= j < r.len() implies (#[trigger] r[j]).key.id() != id by {
            if j != i {
                assert(r[j] == s[j]);
            }
        }
        lemma_found_at(r, id, 0, r.len() as int);
    }
}

impl<K: CacheKey, V> KeyedCache<K, V> {
    /// The slots, in the order in which their keys were first stored.
    pub closed spec fn items(&self) -> Seq<Slot<K, V>> {
        self.slots@
    }

    /// A cache without values.
    pub fn new() -> (r: KeyedCache<K, V>)
        ensures
            r.items() == Seq::<Slot<K, V>>::empty(),
    {
        KeyedCache { slots: Vec::new() }
    }

    /// The number of keys.
    pub fn len(&self) -> (r: usize)
        ensures
            r == self.items().len(),
    {
        self.slots.len()
    }

    fn position(&self, key: &K) -> (r: usize)
        ensures
            r == slot_position(self.items(), key.id(), 0),
            r <= self.items().len(),
    {
        let mut i: usize = 0;
        while i < self.slots.len()
            invariant
                i <= self.slots.len(),
                slot_position(self.items(), key.id(), 0) == slot_position(
                    self.items(),
                    key.id(),
                    i as int,
                ),
            decreases self.slots.len() - i,
        {
            if self.slots[i].key.is_same(key) {
                return i;
            }
            i += 1;
        }
        i
    }

    /// The value that is kept for a key.
    pub fn get(&self, key: &K) -> (r: Option<&V>)
        ensures
            match r {
                Some(v) => value_for(self.items(), key.id()) == Some(*v),
                None => value_for(self.items(), key.id()) is None,
            },
    {
        let i = self.position(key);
        if i < self.slots.len() {
            Some(&self.slots[i].value)
        } else {
            None
        }
    }

    /// Keeps a value for a key.
    pub fn store(&mut self, key: K, value: V)
        ensures
            final(self).items() == with_slot(old(self).items(), Slot { key, value }),
    {
        let i = self.position(&key);
        let e = Slot { key, value };
        if i < self.slots.len() {
            self.slots[i] = e;
        } else {
            self.slots.push(e);
        }
    }
}

/// A value and when it was stored, in milliseconds.
#[derive(Debug)]
pub struct Timed<V> {
    pub stored_at: u64,
    pub value: V,
}

/// Whether less than `ttl` has passed since a value was stored. A clock that
/// seems to run backwards counts as no time passed.
pub open spec fn is_fresh(stored_at: u64, now: u64, ttl: u64) -> bool {
    if now < stored_at {
        ttl > 0
    } else {
        now - stored_at < ttl
    }
}

/// What was stored is fresh at once, and no longer when its time has passed.
pub proof fn law_fresh(stored_at: u64, ttl: u64)
    requires
        ttl > 0,
    ensures
        is_fresh(stored_at, stored_at, ttl),
        stored_at + ttl <= u64::MAX ==> !is_fresh(stored_at, (stored_at + ttl) as u64, ttl),
{
}

impl<V> Timed<V> {
    /// Whether the value can still be used.
    pub fn fresh(&self, now: u64, ttl: u64) -> (r: bool)
        ensures
            r == is_fresh(self.stored_at, now, ttl),
    {
        if now < self.stored_at {
            ttl > 0
        } else {
            now - self.stored_at < ttl
        }
    }
}

/// The value of a key, if there is one and it can still be used.
pub open spec fn fresh_value<K: CacheKey, V>(
    s: Seq<Slot<K, Timed<V>>>,
    id: K::Id,
    now: u64,
    ttl: u64,
) -> Option<V> {
    match value_for(s, id) {
        Some(t) => if is_fresh(t.stored_at, now, ttl) {
            Some(t.value)
        } else {
            None
        },
        None => None,
    }
}

/// The value of a key, if there is one and it can still be used.
pub fn get_fresh<'a, K: CacheKey, V>(
    cache: &'a KeyedCache<K, Timed<V>>,
    key: &K,
    now: u64,
    ttl: u64,
) -> (r: Option<&'a V>)
    ensures
        match r {
            Some(v) => fresh_value(cache.items(), key.id(), now, ttl) == Some(*v),
            None => fresh_value(cache.items(), key.id(), now, ttl) is None,
        },
{
    match cache.get(key) {
        Some(t) => if t.fresh(now, ttl) {
            Some(&t.value)
        } else {
            None
        },
        None => None,
    }
}

} // verus!
