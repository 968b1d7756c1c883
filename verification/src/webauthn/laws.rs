//! What holds of the registry and the store across several steps.

use vstd::prelude::*;
use crate::webauthn::actors::pending_registration;
use crate::webauthn::backend::{CeremonyState, Credential};
use crate::webauthn::registry::{
    after_put, distinct_keys, holds, lemma_after_put, lemma_slot_unique, lemma_without, lookup,
    without, Entry,
};
use crate::webauthn::store::{
    ascending, has_id, lemma_ascending_unique, lemma_with_credential, registered, stored, valid,
    Holdings,
};

verus! {

/// A pending ceremony is consumed at most once: when it has been taken out
/// under its key, nothing is pending for the key any more.
pub proof fn law_consumed_once(entries: Seq<Entry>, key: Seq<u8>)
    requires
        distinct_keys(entries),
    ensures
        lookup(without(entries, key), key) is None,
        without(without(entries, key), key) == without(entries, key),
{
    lemma_without(entries, key);
}

/// Before any challenge is issued, no registration is pending for any user.
pub proof fn law_nothing_pending_at_start(key: Seq<u8>)
    ensures
        pending_registration(Seq::<Entry>::empty(), key) is None,
{
}

/// The entries of a registry of capacity `limit` that started empty, after
/// `states[0]` was filed under `keys[0]`, then `states[1]` under `keys[1]`,
/// and so on.
pub open spec fn filed(limit: nat, keys: Seq<Seq<u8>>, states: Seq<CeremonyState>) -> Seq<Entry>
    decreases keys.len(),
{
    if keys.len() == 0 || states.len() != keys.len() {
        Seq::empty()
    } else {
        after_put(filed(limit, keys.drop_last(), states.drop_last()), limit, keys.last(), states.last())
    }
}

/// Distinct keys stay distinct when the last one is left out.
proof fn lemma_earlier_keys(keys: Seq<Seq<u8>>)
    requires
        keys.no_duplicates(),
        keys.len() > 0,
    ensures
        keys.drop_last().no_duplicates(),
{
    let earlier_keys = keys.drop_last();
    assert forall|i: int, j: int|
        0 <= i < earlier_keys.len() && 0 <= j < earlier_keys.len() && i != j implies earlier_keys[i]
        != earlier_keys[j] by {
        assert(keys[i] != keys[j]);
    }
}

/// Entries filed under all keys but the last, the latest first, hold
/// nothing under the last key when the keys are distinct.
proof fn lemma_last_key_new(keys: Seq<Seq<u8>>, states: Seq<CeremonyState>, before: Seq<Entry>)
    requires
        keys.no_duplicates(),
        keys.len() > 0,
        states.len() == keys.len(),
        before == Seq::new(
            (keys.len() - 1) as nat,
            |i: int| (keys.drop_last()[keys.len() - 2 - i], states.drop_last()[keys.len() - 2 - i]),
        ),
    ensures
        !holds(before, keys.last()),
{
    let n = keys.len() as int;
    if holds(before, keys.last()) {
        let i = choose|i: int| 0 <= i < before.len() && (#[trigger] before[i]).0 == keys.last();
        assert(before[i].0 == keys.drop_last()[n - 2 - i]);
        assert(keys[n - 2 - i] != keys[n - 1]);
    }
}

/// While a registry has room, it holds everything filed under distinct
/// keys, the latest first.
proof fn lemma_filed_within(limit: nat, keys: Seq<Seq<u8>>, states: Seq<CeremonyState>)
    requires
        keys.no_duplicates(),
        states.len() == keys.len(),
        keys.len() <= limit,
    ensures
        filed(limit, keys, states) == Seq::new(
            keys.len(),
            |i: int| (keys[keys.len() - 1 - i], states[keys.len() - 1 - i]),
        ),
        distinct_keys(filed(limit, keys, states)),
    decreases keys.len(),
{
    let n = keys.len() as int;
    let all = Seq::new(keys.len(), |i: int| (keys[n - 1 - i], states[n - 1 - i]));
    assert(distinct_keys(all)) by {
        assert forall|i: int, j: int| 0 <= i < j < all.len() implies (#[trigger] all[i]).0 != (#[trigger] all[j]).0 by {
            assert(keys[n - 1 - i] != keys[n - 1 - j]);
        }
    }
    if n == 0 {
        assert(filed(limit, keys, states) =~= all);
    } else {
        let earlier_keys = keys.drop_last();
        let earlier_states = states.drop_last();
        lemma_earlier_keys(keys);
        lemma_filed_within(limit, earlier_keys, earlier_states);
        let before = filed(limit, earlier_keys, earlier_states);
        lemma_last_key_new(keys, states, before);
        assert(filed(limit, keys, states) == seq![(keys.last(), states.last())] + before);
        assert(seq![(keys.last(), states.last())] + before =~= all);
    }
}

/// The capacity bounds the registry, and the key used longest ago gives
/// way: after ceremonies are filed under one more distinct key than an empty
/// registry can hold, the first key is absent and every later key still has
/// the ceremony filed under it.
pub proof fn law_capacity_bound(limit: nat, keys: Seq<Seq<u8>>, states: Seq<CeremonyState>)
    requires
        keys.no_duplicates(),
        keys.len() == limit + 1,
        states.len() == keys.len(),
    ensures
        filed(limit, keys, states).len() == limit,
        !holds(filed(limit, keys, states), keys[0]),
        forall|i: int| 1 <= i < keys.len() ==> lookup(filed(limit, keys, states), #[trigger] keys[i]) == Some(states[i]),
{
    let n = keys.len() as int;
    let earlier_keys = keys.drop_last();
    let earlier_states = states.drop_last();
    lemma_earlier_keys(keys);
    lemma_filed_within(limit, earlier_keys, earlier_states);
    let before = filed(limit, earlier_keys, earlier_states);
    let after = filed(limit, keys, states);
    assert(after == after_put(before, limit, keys.last(), states.last()));
    lemma_last_key_new(keys, states, before);
    lemma_after_put(before, limit, keys.last(), states.last());
    if limit == 0 {
        assert(after =~= Seq::<Entry>::empty());
    } else {
        assert(before.last() == (keys[0], states[0]));
        assert(after =~= seq![(keys.last(), states.last())] + before.drop_last());
        assert forall|i: int| 1 <= i < keys.len() implies lookup(after, #[trigger] keys[i]) == Some(states[i]) by {
            if i < n - 1 {
                assert(before[n - 2 - i] == (keys[i], states[i]));
                lemma_slot_unique(before, keys[i], n - 2 - i);
                assert(keys[i] != keys[0]);
                assert(keys[i] != keys[n - 1]);
            }
        }
    }
}

/// Ceremonies of different users do not interfere: after one is filed for
/// each of two users in a registry with room for two, each user's own
/// ceremony is pending, and consuming one leaves the other in place.
pub proof fn law_independent_users(
    entries: Seq<Entry>,
    limit: nat,
    one: Seq<u8>,
    one_state: CeremonyState,
    other: Seq<u8>,
    other_state: CeremonyState,
)
    requires
        distinct_keys(entries),
        entries.len() <= limit,
        limit >= 2,
        one != other,
    ensures
        ({
            let both = after_put(after_put(entries, limit, one, one_state), limit, other, other_state);
            &&& lookup(both, one) == Some(one_state)
            &&& lookup(both, other) == Some(other_state)
            &&& lookup(without(both, one), other) == Some(other_state)
            &&& lookup(without(both, other), one) == Some(one_state)
        }),
{
    let first = after_put(entries, limit, one, one_state);
    lemma_after_put(entries, limit, one, one_state);
    let both = after_put(first, limit, other, other_state);
    lemma_after_put(first, limit, other, other_state);
    assert(first[0].0 == one);
    if first.len() == limit {
        assert(first[0].0 != first[first.len() - 1].0);
    }
    lemma_without(both, one);
    lemma_without(both, other);
}

/// Exactly one of the credentials has the identifier `id`.
pub open spec fn held_once(creds: Seq<Credential>, id: Seq<u8>) -> bool {
    exists|i: int|
        0 <= i < creds.len() && (#[trigger] creds[i]).cred_id@ == id && forall|j: int|
            0 <= j < creds.len() && (#[trigger] creds[j]).cred_id@ == id ==> j == i
}

/// A second credential with the identifier of one just stored for the same
/// user is a duplicate, and the user holds exactly one credential with that
/// identifier.
pub proof fn law_duplicate_rejected(holdings: Holdings, user: Seq<u8>, first: Credential, second: Credential)
    requires
        valid(holdings),
        !registered(holdings, user, first.cred_id@),
        second.cred_id@ == first.cred_id@,
    ensures
        valid(stored(holdings, user, first)),
        registered(stored(holdings, user, first), user, second.cred_id@),
        held_once(stored(holdings, user, first)[user], first.cred_id@),
{
    lemma_stored(holdings, user, first);
    lemma_held_once(stored(holdings, user, first)[user], first.cred_id@);
}

/// Ascending credentials that hold an identifier hold it exactly once.
proof fn lemma_held_once(creds: Seq<Credential>, id: Seq<u8>)
    requires
        ascending(creds),
        has_id(creds, id),
    ensures
        held_once(creds, id),
{
    let i = choose|i: int| 0 <= i < creds.len() && (#[trigger] creds[i]).cred_id@ == id;
    assert forall|j: int| 0 <= j < creds.len() && (#[trigger] creds[j]).cred_id@ == id implies j == i by {
        lemma_ascending_unique(creds, i, j);
    }
}

/// Storing a credential with a new identifier keeps the holdings valid and
/// puts the identifier among the user's credentials.
proof fn lemma_stored(holdings: Holdings, user: Seq<u8>, credential: Credential)
    requires
        valid(holdings),
        !registered(holdings, user, credential.cred_id@),
    ensures
        valid(stored(holdings, user, credential)),
        stored(holdings, user, credential).contains_key(user),
        ascending(stored(holdings, user, credential)[user]),
        has_id(stored(holdings, user, credential)[user], credential.cred_id@),
{
    let next = stored(holdings, user, credential);
    let creds = next[user];
    assert(creds.len() > 0 && ascending(creds) && has_id(creds, credential.cred_id@)) by {
        if holdings.contains_key(user) {
            lemma_with_credential(holdings[user], credential);
        } else {
            assert(creds[0] == credential);
        }
    }
    assert forall|other: Seq<u8>| #[trigger] next.contains_key(other) implies next[other].len() > 0 && ascending(
        next[other],
    ) by {
        if other != user {
            assert(holdings.contains_key(other));
            assert(next[other] == holdings[other]);
        }
    }
}

} // verus!
