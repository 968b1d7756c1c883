//! A bounded registry of pending ceremonies with least-recently-used eviction.

use vstd::prelude::*;
use lru::LruCache;
use crate::webauthn::backend::CeremonyState;

verus! {

/// The cache that holds the pending ceremonies.
#[verifier::external_type_specification]
#[verifier::external_body]
#[verifier::reject_recursive_types(K)]
#[verifier::reject_recursive_types(V)]
#[verifier::reject_recursive_types(S)]
pub struct ExLruCache<K, V, S>(LruCache<K, V, S>);

/// The hasher that the cache uses when none is given.
#[verifier::external_type_specification]
#[verifier::external_body]
pub struct ExDefaultHasher(lru::DefaultHasher);

/// A user key with the ceremony pending for it.
pub type Entry = (Seq<u8>, CeremonyState);

/// The entries of a cache, the most recently used first.
pub uninterp spec fn cache_entries(cache: LruCache<Vec<u8>, CeremonyState>) -> Seq<Entry>;

/// The number of entries that a cache was made to hold.
pub uninterp spec fn cache_limit(cache: LruCache<Vec<u8>, CeremonyState>) -> nat;

/// Whether some entry is filed under `key`.
pub open spec fn holds(entries: Seq<Entry>, key: Seq<u8>) -> bool {
    exists|i: int| 0 <= i < entries.len() && (#[trigger] entries[i]).0 == key
}

/// The place of the entry filed under `key`, where there is one.
pub open spec fn slot(entries: Seq<Entry>, key: Seq<u8>) -> int {
    choose|i: int| 0 <= i < entries.len() && (#[trigger] entries[i]).0 == key
}

/// The ceremony pending for `key`, if any.
pub open spec fn lookup(entries: Seq<Entry>, key: Seq<u8>) -> Option<CeremonyState> {
    if holds(entries, key) {
        Some(entries[slot(entries, key)].1)
    } else {
        None
    }
}

/// The entries with the one for `key` taken out; the others keep their order.
pub open spec fn without(entries: Seq<Entry>, key: Seq<u8>) -> Seq<Entry> {
    if holds(entries, key) {
        entries.remove(slot(entries, key))
    } else {
        entries
    }
}

/// No two entries share a key.
pub open spec fn distinct_keys(entries: Seq<Entry>) -> bool {
    forall|i: int, j: int|
        0 <= i < j < entries.len() ==> (#[trigger] entries[i]).0 != (#[trigger] entries[j]).0
}

/// The entries after `state` is filed under `key` in a registry that holds at
/// most `limit` of them. A key already present is replaced and becomes the
/// most recent. A new key in a full registry displaces the entry used longest
/// ago, which is the last one. A registry of capacity zero keeps nothing.
pub open spec fn after_put(entries: Seq<Entry>, limit: nat, key: Seq<u8>, state: CeremonyState) -> Seq<
    Entry,
> {
    if holds(entries, key) {
        seq![(key, state)] + without(entries, key)
    } else if limit == 0 {
        entries
    } else if entries.len() == limit {
        seq![(key, state)] + entries.drop_last()
    } else {
        seq![(key, state)] + entries
    }
}

/// With distinct keys, the entry under a key is the only one there.
pub proof fn lemma_slot_unique(entries: Seq<Entry>, key: Seq<u8>, i: int)
    requires
        distinct_keys(entries),
        0 <= i < entries.len(),
        entries[i].0 == key,
    ensures
        holds(entries, key),
        slot(entries, key) == i,
        lookup(entries, key) == Some(entries[i].1),
{
    let j = slot(entries, key);
    assert(0 <= j < entries.len() && entries[j].0 == key);
    if j < i {
        assert(entries[j].0 != entries[i].0);
    } else if i < j {
        assert(entries[i].0 != entries[j].0);
    }
}

/// Taking a key out leaves distinct keys distinct, removes that key and keeps
/// what is pending for every other key.
pub proof fn lemma_without(entries: Seq<Entry>, key: Seq<u8>)
    requires
        distinct_keys(entries),
    ensures
        distinct_keys(without(entries, key)),
        !holds(without(entries, key), key),
        without(entries, key).len() == entries.len() - (if holds(entries, key) { 1int } else { 0int }),
        forall|other: Seq<u8>| other != key ==> lookup(without(entries, key), other) == lookup(entries, other),
{
    let rest = without(entries, key);
    if holds(entries, key) {
        let p = slot(entries, key);
        assert(0 <= p < entries.len() && entries[p].0 == key);
        assert forall|i: int| 0 <= i < rest.len() implies (#[trigger] rest[i]) == entries[if i < p { i } else { i + 1 }] by {}
        assert forall|i: int, j: int| 0 <= i < j < rest.len() implies (#[trigger] rest[i]).0 != (#[trigger] rest[j]).0 by {
            let a = if i < p { i } else { i + 1 };
            let b = if j < p { j } else { j + 1 };
            assert(entries[a].0 != entries[b].0);
        }
        if holds(rest, key) {
            let q = slot(rest, key);
            let a = if q < p { q } else { q + 1 };
            assert(rest[q].0 == key);
            assert(entries[a].0 == key);
            lemma_slot_unique(entries, key, a);
        }
        assert forall|other: Seq<u8>| other != key implies lookup(rest, other) == lookup(entries, other) by {
            if holds(entries, other) {
                let q = slot(entries, other);
                assert(entries[q].0 == other);
                let a = if q < p { q } else { q - 1 };
                assert(rest[a] == entries[q]);
                lemma_slot_unique(rest, other, a);
            } else if holds(rest, other) {
                let q = slot(rest, other);
                let a = if q < p { q } else { q + 1 };
                assert(rest[q].0 == other);
                assert(entries[a].0 == other);
            }
        }
    } else {
        assert forall|other: Seq<u8>| other != key implies lookup(rest, other) == lookup(entries, other) by {}
    }
}

/// What filing a ceremony does: the entries stay distinct and within the
/// limit, the key holds the new ceremony, and every other key keeps what it
/// had, but for the one entry that a new key displaces from a full registry.
pub proof fn lemma_after_put(entries: Seq<Entry>, limit: nat, key: Seq<u8>, state: CeremonyState)
    requires
        distinct_keys(entries),
        entries.len() <= limit,
    ensures
        distinct_keys(after_put(entries, limit, key, state)),
        after_put(entries, limit, key, state).len() <= limit,
        limit > 0 ==> lookup(after_put(entries, limit, key, state), key) == Some(state),
        limit > 0 ==> after_put(entries, limit, key, state)[0] == (key, state),
        forall|other: Seq<u8>|
            other != key && !displaced(entries, limit, key, other) ==> lookup(
                after_put(entries, limit, key, state),
                other,
            ) == lookup(entries, other),
        forall|other: Seq<u8>|
            displaced(entries, limit, key, other) ==> !holds(after_put(entries, limit, key, state), other),
{
    let next = after_put(entries, limit, key, state);
    let front = seq![(key, state)];
    if holds(entries, key) {
        lemma_without(entries, key);
        let rest = without(entries, key);
        lemma_front(rest, key, state);
        assert(next == front + rest);
        assert forall|other: Seq<u8>| other != key implies lookup(next, other) == lookup(entries, other) by {
            assert(lookup(next, other) == lookup(rest, other));
        }
        assert forall|other: Seq<u8>| displaced(entries, limit, key, other) implies !holds(next, other) by {}
    } else if limit == 0 {
        assert(entries.len() == 0);
        assert forall|other: Seq<u8>| displaced(entries, limit, key, other) implies !holds(next, other) by {}
    } else if entries.len() == limit {
        let rest = entries.drop_last();
        let last = entries.len() - 1;
        assert forall|i: int| 0 <= i < rest.len() implies (#[trigger] rest[i]) == entries[i] by {}
        assert(distinct_keys(rest)) by {
            assert forall|i: int, j: int| 0 <= i < j < rest.len() implies (#[trigger] rest[i]).0 != (
            #[trigger] rest[j]).0 by {
                assert(entries[i].0 != entries[j].0);
            }
        }
        assert(!holds(rest, key)) by {
            if holds(rest, key) {
                let q = slot(rest, key);
                assert(entries[q].0 == key);
            }
        }
        lemma_front(rest, key, state);
        assert(next == front + rest);
        assert(!holds(rest, entries[last].0)) by {
            if holds(rest, entries[last].0) {
                let q = slot(rest, entries[last].0);
                assert(entries[q].0 != entries[last].0);
            }
        }
        assert forall|other: Seq<u8>| other != key && !displaced(entries, limit, key, other) implies lookup(
            next,
            other,
        ) == lookup(entries, other) by {
            assert(lookup(next, other) == lookup(rest, other));
            if holds(entries, other) {
                let q = slot(entries, other);
                assert(entries[q].0 == other);
                assert(q != last);
                assert(rest[q] == entries[q]);
                lemma_slot_unique(rest, other, q);
            } else if holds(rest, other) {
                let q = slot(rest, other);
                assert(entries[q].0 == other);
            }
        }
        assert forall|other: Seq<u8>| displaced(entries, limit, key, other) implies !holds(next, other) by {
            assert(other == entries[last].0);
            assert(lookup(next, other) == lookup(rest, other));
        }
    } else {
        lemma_front(entries, key, state);
        assert(next == front + entries);
        assert forall|other: Seq<u8>| other != key implies lookup(next, other) == lookup(entries, other) by {
            assert(lookup(next, other) == lookup(entries, other));
        }
        assert forall|other: Seq<u8>| displaced(entries, limit, key, other) implies !holds(next, other) by {}
    }
}

/// Whether filing under `key` displaces the entry of `other`: the key is
/// new, the registry is full, and `other` is the key used longest ago.
pub open spec fn displaced(entries: Seq<Entry>, limit: nat, key: Seq<u8>, other: Seq<u8>) -> bool {
    &&& !holds(entries, key)
    &&& limit > 0
    &&& entries.len() == limit
    &&& entries.last().0 == other
}

/// An entry put in front of entries that lack its key: the keys stay
/// distinct, the new key is found, and every other key is found as before.
proof fn lemma_front(rest: Seq<Entry>, key: Seq<u8>, state: CeremonyState)
    requires
        distinct_keys(rest),
        !holds(rest, key),
    ensures
        distinct_keys(seq![(key, state)] + rest),
        lookup(seq![(key, state)] + rest, key) == Some(state),
        forall|other: Seq<u8>|
            other != key ==> lookup(seq![(key, state)] + rest, other) == lookup(rest, other) && holds(
                seq![(key, state)] + rest,
                other,
            ) == holds(rest, other),
{
    let all = seq![(key, state)] + rest;
    assert(all[0] == (key, state));
    assert forall|i: int| 1 <= i < all.len() implies (#[trigger] all[i]) == rest[i - 1] by {}
    assert forall|i: int, j: int| 0 <= i < j < all.len() implies (#[trigger] all[i]).0 != (#[trigger] all[j]).0 by {
        if i == 0 {
            assert(rest[j - 1].0 != key);
        } else {
            assert(rest[i - 1].0 != rest[j - 1].0);
        }
    }
    lemma_slot_unique(all, key, 0);
    assert forall|other: Seq<u8>| other != key implies lookup(all, other) == lookup(rest, other) && holds(
        all,
        other,
    ) == holds(rest, other) by {
        if holds(rest, other) {
            let q = slot(rest, other);
            assert(all[q + 1] == rest[q]);
            lemma_slot_unique(all, other, q + 1);
        } else if holds(all, other) {
            let q = slot(all, other);
            assert(q != 0);
            assert(rest[q - 1].0 == other);
        }
    }
}

/// Every entry left after a key is taken out was an entry before.
pub proof fn lemma_without_keeps(entries: Seq<Entry>, key: Seq<u8>)
    ensures
        forall|i: int|
            0 <= i < without(entries, key).len() ==> entries.contains(#[trigger] without(entries, key)[i]),
{
    let rest = without(entries, key);
    if holds(entries, key) {
        let p = slot(entries, key);
        assert forall|i: int| 0 <= i < rest.len() implies entries.contains(#[trigger] rest[i]) by {
            let a = if i < p { i } else { i + 1 };
            assert(rest[i] == entries[a]);
        }
    } else {
        assert forall|i: int| 0 <= i < rest.len() implies entries.contains(#[trigger] rest[i]) by {
            assert(rest[i] == entries[i]);
        }
    }
}

/// Every entry present after a ceremony is filed is the new one or was an
/// entry before.
pub proof fn lemma_after_put_keeps(entries: Seq<Entry>, limit: nat, key: Seq<u8>, state: CeremonyState)
    ensures
        forall|i: int|
            0 <= i < after_put(entries, limit, key, state).len() ==> (#[trigger] after_put(
                entries,
                limit,
                key,
                state,
            )[i]) == (key, state) || entries.contains(after_put(entries, limit, key, state)[i]),
{
    let next = after_put(entries, limit, key, state);
    lemma_without_keeps(entries, key);
    assert forall|i: int| 0 <= i < next.len() implies (#[trigger] next[i]) == (key, state) || entries.contains(
        next[i],
    ) by {
        if holds(entries, key) {
            if i > 0 {
                assert(next[i] == without(entries, key)[i - 1]);
            }
        } else if limit == 0 {
            assert(next[i] == entries[i]);
        } else if entries.len() == limit {
            if i > 0 {
                assert(next[i] == entries[i - 1]);
            }
        } else {
            if i > 0 {
                assert(next[i] == entries[i - 1]);
            }
        }
    }
}

/// `LruCache::unbounded`: an empty cache with the largest limit there is.
/// It sets no room aside.
#[verifier::external_body]
fn cache_unbounded() -> (cache: LruCache<Vec<u8>, CeremonyState>)
    ensures
        cache_entries(cache) == Seq::<Entry>::empty(),
        cache_limit(cache) == usize::MAX,
{
    LruCache::unbounded()
}

/// `LruCache::resize`: sets the limit to `cap`. Entries beyond the new limit
/// leave, those used longest ago first; the others keep their order.
#[verifier::external_body]
fn cache_resize(cache: &mut LruCache<Vec<u8>, CeremonyState>, cap: usize)
    requires
        cache_entries(*old(cache)).len() <= cache_limit(*old(cache)),
    ensures
        cache_limit(*final(cache)) == cap,
        cache_entries(*final(cache)) == if cache_entries(*old(cache)).len() <= cap {
            cache_entries(*old(cache))
        } else {
            cache_entries(*old(cache)).subrange(0, cap as int)
        },
{
    cache.resize(cap)
}

/// `LruCache::put`: files `state` under `key` as the most recent entry and
/// hands back what the key held before. A new key in a full cache takes the
/// place of the entry at the far end of the recency order; a cache made for
/// no entries keeps nothing. The call does not unwind.
#[verifier::external_body]
fn cache_put(cache: &mut LruCache<Vec<u8>, CeremonyState>, key: Vec<u8>, state: CeremonyState) -> (previous:
    Option<CeremonyState>)
    requires
        distinct_keys(cache_entries(*old(cache))),
    ensures
        cache_entries(*final(cache)) == after_put(
            cache_entries(*old(cache)),
            cache_limit(*old(cache)),
            key@,
            state,
        ),
        cache_limit(*final(cache)) == cache_limit(*old(cache)),
        previous == lookup(cache_entries(*old(cache)), key@),
    no_unwind
{
    cache.put(key, state)
}

/// `LruCache::pop`: takes the entry for `key` out and hands its ceremony
/// back; the other entries keep their order. The call does not unwind.
#[verifier::external_body]
fn cache_pop(cache: &mut LruCache<Vec<u8>, CeremonyState>, key: &Vec<u8>) -> (taken: Option<CeremonyState>)
    requires
        distinct_keys(cache_entries(*old(cache))),
    ensures
        cache_entries(*final(cache)) == without(cache_entries(*old(cache)), key@),
        cache_limit(*final(cache)) == cache_limit(*old(cache)),
        taken == lookup(cache_entries(*old(cache)), key@),
    no_unwind
{
    cache.pop(key)
}

/// `LruCache::len`: the number of entries in the cache.
#[verifier::external_body]
fn cache_len(cache: &LruCache<Vec<u8>, CeremonyState>) -> (n: usize)
    ensures
        n == cache_entries(*cache).len(),
{
    cache.len()
}

/// `LruCache::cap`: the number of entries the cache was made to hold.
#[verifier::external_body]
fn cache_cap(cache: &LruCache<Vec<u8>, CeremonyState>) -> (n: usize)
    ensures
        n == cache_limit(*cache),
{
    cache.cap()
}

/// At most one pending ceremony per user key, bounded in number; when a new
/// key arrives at a full registry, the entry used longest ago gives way.
pub struct ChallengeRegistry {
    cache: LruCache<Vec<u8>, CeremonyState>,
}

impl View for ChallengeRegistry {
    type V = Seq<Entry>;

    /// The pending ceremonies, the most recently used first.
    closed spec fn view(&self) -> Seq<Entry> {
        cache_entries(self.cache)
    }
}

impl ChallengeRegistry {
    /// The number of entries the registry holds at most.
    pub closed spec fn capacity(&self) -> nat {
        cache_limit(self.cache)
    }

    /// Keys are distinct and the entries fit the capacity.
    #[verifier::type_invariant]
    pub open spec fn wf(&self) -> bool {
        &&& distinct_keys(self@)
        &&& self@.len() <= self.capacity()
    }

    /// An empty registry for at most `capacity` pending ceremonies.
    pub fn new(capacity: usize) -> (registry: ChallengeRegistry)
        ensures
            registry@ == Seq::<Entry>::empty(),
            registry.capacity() == capacity,
            registry.wf(),
    {
        let mut cache = cache_unbounded();
        cache_resize(&mut cache, capacity);
        ChallengeRegistry { cache }
    }

    /// Files `state` as the ceremony pending for `key`, in place of any
    /// earlier one, and marks the key as the most recently used.
    pub fn put(&mut self, key: Vec<u8>, state: CeremonyState)
        ensures
            final(self)@ == after_put(old(self)@, old(self).capacity(), key@, state),
            final(self).capacity() == old(self).capacity(),
            final(self).wf(),
    {
        proof {
            use_type_invariant(&*self);
            lemma_after_put(self@, self.capacity(), key@, state);
        }
        let _ = cache_put(&mut self.cache, key, state);
    }

    /// Takes the ceremony pending for `key` out of the registry and returns
    /// it; `None` where nothing is pending for the key.
    pub fn pop(&mut self, key: &Vec<u8>) -> (taken: Option<CeremonyState>)
        ensures
            taken == lookup(old(self)@, key@),
            final(self)@ == without(old(self)@, key@),
            final(self).capacity() == old(self).capacity(),
            final(self).wf(),
    {
        proof {
            use_type_invariant(&*self);
            lemma_without(self@, key@);
        }
        cache_pop(&mut self.cache, key)
    }

    /// The number of pending ceremonies.
    pub fn len(&self) -> (n: usize)
        ensures
            n == self@.len(),
    {
        cache_len(&self.cache)
    }

    /// The number of ceremonies that can be pending at once.
    pub fn cap(&self) -> (n: usize)
        ensures
            n == self.capacity(),
    {
        cache_cap(&self.cache)
    }
}

} // verus!
