//! The credentials registered for each user, guarded against duplicate
//! identifiers.

use vstd::prelude::*;
use crate::webauthn::backend::{CeremonyError, Credential};
use crate::webauthn::bytes::{
    compare, lemma_lex_irreflexive, lemma_lex_total, lemma_lex_transitive, lex_less, same_bytes,
    Rank,
};

verus! {

/// What the store holds: for each user with credentials, those credentials.
pub type Holdings = Map<Seq<u8>, Seq<Credential>>;

/// Whether one of the credentials has the identifier `id`.
pub open spec fn has_id(creds: Seq<Credential>, id: Seq<u8>) -> bool {
    exists|i: int| 0 <= i < creds.len() && (#[trigger] creds[i]).cred_id@ == id
}

/// The credentials stand in the strict lexicographic order of their
/// identifiers, so no identifier occurs twice.
pub open spec fn ascending(creds: Seq<Credential>) -> bool {
    forall|i: int, j: int|
        0 <= i < j < creds.len() ==> lex_less((#[trigger] creds[i]).cred_id@, (#[trigger] creds[j]).cred_id@)
}

/// The number of leading credentials whose identifier comes before `id`.
pub open spec fn place(creds: Seq<Credential>, id: Seq<u8>) -> int
    decreases creds.len(),
{
    if creds.len() > 0 && lex_less(creds[0].cred_id@, id) {
        1 + place(creds.drop_first(), id)
    } else {
        0
    }
}

/// The credentials with `credential` put where its identifier belongs.
pub open spec fn with_credential(creds: Seq<Credential>, credential: Credential) -> Seq<Credential> {
    creds.insert(place(creds, credential.cred_id@), credential)
}

/// Every user on file has at least one credential, and each user's
/// credentials are in ascending order.
pub open spec fn valid(holdings: Holdings) -> bool {
    forall|user: Seq<u8>| #[trigger]
        holdings.contains_key(user) ==> holdings[user].len() > 0 && ascending(holdings[user])
}

/// Whether `user` holds a credential with the identifier `id`.
pub open spec fn registered(holdings: Holdings, user: Seq<u8>, id: Seq<u8>) -> bool {
    holdings.contains_key(user) && has_id(holdings[user], id)
}

/// The holdings after `credential` is added to those of `user`.
pub open spec fn stored(holdings: Holdings, user: Seq<u8>, credential: Credential) -> Holdings {
    holdings.insert(
        user,
        if holdings.contains_key(user) {
            with_credential(holdings[user], credential)
        } else {
            seq![credential]
        },
    )
}

/// Where the identifiers before `p` come before `id` and the one at `p`, if
/// any, does not, `p` is the place of `id`.
proof fn lemma_place(creds: Seq<Credential>, id: Seq<u8>, p: int)
    requires
        0 <= p <= creds.len(),
        forall|k: int| 0 <= k < p ==> lex_less((#[trigger] creds[k]).cred_id@, id),
        p < creds.len() ==> !lex_less(creds[p].cred_id@, id),
    ensures
        place(creds, id) == p,
    decreases p,
{
    if p > 0 {
        assert(lex_less(creds[0].cred_id@, id));
        let rest = creds.drop_first();
        assert forall|k: int| 0 <= k < p - 1 implies lex_less((#[trigger] rest[k]).cred_id@, id) by {
            assert(rest[k] == creds[k + 1]);
        }
        if p - 1 < rest.len() {
            assert(rest[p - 1] == creds[p]);
        }
        lemma_place(rest, id, p - 1);
    }
}

/// The place of an identifier lies within the credentials, with the smaller
/// identifiers before it; in ascending credentials that lack the identifier,
/// the larger ones follow.
pub proof fn lemma_place_splits(creds: Seq<Credential>, id: Seq<u8>)
    ensures
        0 <= place(creds, id) <= creds.len(),
        forall|k: int| 0 <= k < place(creds, id) ==> lex_less((#[trigger] creds[k]).cred_id@, id),
        place(creds, id) < creds.len() ==> !lex_less(creds[place(creds, id)].cred_id@, id),
        ascending(creds) && !has_id(creds, id) ==> forall|k: int|
            place(creds, id) <= k < creds.len() ==> lex_less(id, (#[trigger] creds[k]).cred_id@),
    decreases creds.len(),
{
    let p = place(creds, id);
    if creds.len() > 0 && lex_less(creds[0].cred_id@, id) {
        let rest = creds.drop_first();
        lemma_place_splits(rest, id);
        assert forall|k: int| 0 <= k < p implies lex_less((#[trigger] creds[k]).cred_id@, id) by {
            if k > 0 {
                assert(rest[k - 1] == creds[k]);
            }
        }
        if p < creds.len() {
            assert(rest[p - 1] == creds[p]);
        }
    }
    if ascending(creds) && !has_id(creds, id) {
        assert forall|k: int| p <= k < creds.len() implies lex_less(id, (#[trigger] creds[k]).cred_id@) by {
            assert(creds[k].cred_id@ != id);
            assert(!lex_less(creds[p].cred_id@, id));
            assert(creds[p].cred_id@ != id);
            lemma_lex_total(creds[p].cred_id@, id);
            if p < k {
                lemma_lex_transitive(id, creds[p].cred_id@, creds[k].cred_id@);
            }
        }
    }
}

/// A credential with a new identifier, put in its place, leaves the
/// credentials ascending; they then hold its identifier once, and every
/// other identifier exactly where they held it before.
pub proof fn lemma_with_credential(creds: Seq<Credential>, credential: Credential)
    requires
        ascending(creds),
        !has_id(creds, credential.cred_id@),
    ensures
        ascending(with_credential(creds, credential)),
        with_credential(creds, credential).len() == creds.len() + 1,
        has_id(with_credential(creds, credential), credential.cred_id@),
        forall|id: Seq<u8>|
            id != credential.cred_id@ ==> has_id(with_credential(creds, credential), id) == has_id(creds, id),
{
    let id = credential.cred_id@;
    let p = place(creds, id);
    let next = with_credential(creds, credential);
    lemma_place_splits(creds, id);
    assert(next[p] == credential);
    assert forall|k: int| 0 <= k < next.len() && k != p implies (#[trigger] next[k]) == creds[if k < p {
        k
    } else {
        k - 1
    }] by {}
    assert forall|i: int, j: int| 0 <= i < j < next.len() implies lex_less(
        (#[trigger] next[i]).cred_id@,
        (#[trigger] next[j]).cred_id@,
    ) by {
        let a = if i < p { i } else { i - 1 };
        let b = if j < p { j } else { j - 1 };
        if i == p {
            assert(lex_less(id, creds[b].cred_id@));
        } else if j == p {
            assert(lex_less(creds[a].cred_id@, id));
        } else {
            assert(lex_less(creds[a].cred_id@, creds[b].cred_id@));
        }
    }
    assert forall|other: Seq<u8>| other != id implies has_id(next, other) == has_id(creds, other) by {
        if has_id(creds, other) {
            let k = choose|k: int| 0 <= k < creds.len() && (#[trigger] creds[k]).cred_id@ == other;
            let a = if k < p { k } else { k + 1 };
            assert(next[a] == creds[k]);
        }
        if has_id(next, other) {
            let k = choose|k: int| 0 <= k < next.len() && (#[trigger] next[k]).cred_id@ == other;
            let a = if k < p { k } else { k - 1 };
            assert(next[k] == creds[a]);
        }
    }
}

/// In ascending credentials an identifier is held at one place at most.
pub proof fn lemma_ascending_unique(creds: Seq<Credential>, i: int, j: int)
    requires
        ascending(creds),
        0 <= i < creds.len(),
        0 <= j < creds.len(),
        creds[i].cred_id@ == creds[j].cred_id@,
    ensures
        i == j,
{
    lemma_lex_irreflexive(creds[i].cred_id@);
    if i < j {
        assert(lex_less(creds[i].cred_id@, creds[j].cred_id@));
    } else if j < i {
        assert(lex_less(creds[j].cred_id@, creds[i].cred_id@));
    }
}

/// One user's credentials as the store keeps them.
struct UserCredentials {
    user: Vec<u8>,
    credentials: Vec<Credential>,
}

spec fn has_user(users: Seq<UserCredentials>, user: Seq<u8>) -> bool {
    exists|i: int| 0 <= i < users.len() && (#[trigger] users[i]).user@ == user
}

spec fn user_at(users: Seq<UserCredentials>, user: Seq<u8>) -> int {
    choose|i: int| 0 <= i < users.len() && (#[trigger] users[i]).user@ == user
}

spec fn as_holdings(users: Seq<UserCredentials>) -> Holdings {
    Map::new(|user: Seq<u8>| has_user(users, user), |user: Seq<u8>| users[user_at(users, user)].credentials@)
}

spec fn distinct_users(users: Seq<UserCredentials>) -> bool {
    forall|i: int, j: int| 0 <= i < j < users.len() ==> (#[trigger] users[i]).user@ != (#[trigger] users[j]).user@
}

spec fn sound(users: Seq<UserCredentials>) -> bool {
    &&& distinct_users(users)
    &&& forall|i: int|
        0 <= i < users.len() ==> (#[trigger] users[i]).credentials@.len() > 0 && ascending(
            users[i].credentials@,
        )
}

proof fn lemma_user_at(users: Seq<UserCredentials>, i: int)
    requires
        distinct_users(users),
        0 <= i < users.len(),
    ensures
        has_user(users, users[i].user@),
        user_at(users, users[i].user@) == i,
        as_holdings(users).contains_key(users[i].user@),
        as_holdings(users)[users[i].user@] == users[i].credentials@,
{
    let j = user_at(users, users[i].user@);
    assert(0 <= j < users.len() && users[j].user@ == users[i].user@);
    if j < i {
        assert(users[j].user@ != users[i].user@);
    } else if i < j {
        assert(users[i].user@ != users[j].user@);
    }
}

/// The per-user credential sets. A user is on file from the first credential
/// on, and no user holds two credentials with one identifier.
pub struct CredentialStore {
    users: Vec<UserCredentials>,
}

impl View for CredentialStore {
    type V = Holdings;

    closed spec fn view(&self) -> Holdings {
        as_holdings(self.users@)
    }
}

impl CredentialStore {
    /// The store is consistent: one record per user, each as `valid` asks.
    pub closed spec fn wf(&self) -> bool {
        sound(self.users@)
    }

    /// In a consistent store every user on file has credentials, and no
    /// user holds two with one identifier.
    pub proof fn law_valid(&self)
        requires
            self.wf(),
        ensures
            valid(self@),
    {
        assert forall|user: Seq<u8>| #[trigger] self@.contains_key(user) implies self@[user].len() > 0
            && ascending(self@[user]) by {
            let i = user_at(self.users@, user);
            assert(0 <= i < self.users@.len() && self.users@[i].user@ == user);
        }
    }

    /// A store with no user on file.
    pub fn new() -> (store: CredentialStore)
        ensures
            store.wf(),
            store@ == Map::<Seq<u8>, Seq<Credential>>::empty(),
    {
        let store = CredentialStore { users: Vec::new() };
        assert(store@ =~= Map::<Seq<u8>, Seq<Credential>>::empty());
        store
    }

    fn find_user(&self, user_key: &Vec<u8>) -> (found: Option<usize>)
        requires
            self.wf(),
        ensures
            match found {
                Some(i) => i < self.users@.len() && self.users@[i as int].user@ == user_key@ && self@.contains_key(
                    user_key@,
                ) && self@[user_key@] == self.users@[i as int].credentials@,
                None => !self@.contains_key(user_key@),
            },
    {
        let mut i: usize = 0;
        while i < self.users.len()
            invariant
                i <= self.users@.len(),
                self.wf(),
                forall|k: int| 0 <= k < i ==> (#[trigger] self.users@[k]).user@ != user_key@,
            decreases self.users@.len() - i,
        {
            if same_bytes(&self.users[i].user, user_key) {
                proof {
                    lemma_user_at(self.users@, i as int);
                }
                return Some(i);
            }
            i += 1;
        }
        None
    }

    /// Whether `candidate_id` is already registered for the user.
    pub fn duplicate_predicate(&self, user_key: &Vec<u8>, candidate_id: &Vec<u8>) -> (known: bool)
        requires
            self.wf(),
        ensures
            known == registered(self@, user_key@, candidate_id@),
    {
        match self.find_user(user_key) {
            None => false,
            Some(i) => {
                let creds = &self.users[i].credentials;
                let mut k: usize = 0;
                while k < creds.len()
                    invariant
                        k <= creds@.len(),
                        self@.contains_key(user_key@),
                        self@[user_key@] == creds@,
                        forall|j: int| 0 <= j < k ==> (#[trigger] creds@[j]).cred_id@ != candidate_id@,
                    decreases creds@.len() - k,
                {
                    if same_bytes(&creds[k].cred_id, candidate_id) {
                        return true;
                    }
                    k += 1;
                }
                false
            },
        }
    }

    /// All credentials of the user, in the order of their identifiers.
    /// A user without credentials gets `CredentialRetrievalError`.
    pub fn list(&self, user_key: &Vec<u8>) -> (found: Result<&Vec<Credential>, CeremonyError>)
        requires
            self.wf(),
        ensures
            match found {
                Ok(creds) => self@.contains_key(user_key@) && creds@ == self@[user_key@] && creds@.len() > 0
                    && ascending(creds@),
                Err(e) => !self@.contains_key(user_key@) && e is CredentialRetrievalError,
            },
    {
        match self.find_user(user_key) {
            None => Err(CeremonyError::CredentialRetrievalError),
            Some(i) => Ok(&self.users[i].credentials),
        }
    }

    /// Adds `credential` to those of the user, who comes on file with the
    /// first one. An identifier the user already holds is refused with
    /// `DuplicateCredential`, and the store stays as it was.
    pub fn insert(&mut self, user_key: Vec<u8>, credential: Credential) -> (outcome: Result<(), CeremonyError>)
        requires
            old(self).wf(),
        ensures
            final(self).wf(),
            match outcome {
                Ok(()) => !registered(old(self)@, user_key@, credential.cred_id@) && final(self)@ == stored(
                    old(self)@,
                    user_key@,
                    credential,
                ),
                Err(e) => registered(old(self)@, user_key@, credential.cred_id@) && final(self)@ == old(self)@
                    && e is DuplicateCredential,
            },
    {
        match self.find_user(&user_key) {
            None => {
                let ghost before = self.users@;
                let mut credentials = Vec::new();
                credentials.push(credential);
                self.users.push(UserCredentials { user: user_key, credentials });
                proof {
                    let after = self.users@;
                    let last = before.len() as int;
                    assert forall|k: int| 0 <= k < last implies (#[trigger] after[k]) == before[k] by {}
                    assert(!has_user(before, user_key@));
                    assert(distinct_users(after)) by {
                        assert forall|i: int, j: int| 0 <= i < j < after.len() implies (#[trigger] after[i]).user@ != (
                        #[trigger] after[j]).user@ by {
                            if j == last {
                                assert(before[i].user@ != user_key@);
                            } else {
                                assert(before[i].user@ != before[j].user@);
                            }
                        }
                    }
                    assert(after[last].credentials@ =~= seq![credential]);
                    assert(ascending(seq![credential]));
                    assert(sound(after));
                    lemma_user_at(after, last);
                    assert(as_holdings(after) =~= stored(as_holdings(before), user_key@, credential)) by {
                        assert forall|user: Seq<u8>| has_user(after, user) == (user == user_key@ || has_user(
                            before,
                            user,
                        )) by {
                            if has_user(before, user) {
                                let k = user_at(before, user);
                                assert(after[k].user@ == user);
                            }
                            if has_user(after, user) && user != user_key@ {
                                let k = user_at(after, user);
                                assert(before[k].user@ == user);
                            }
                        }
                        assert forall|user: Seq<u8>| has_user(before, user) implies as_holdings(after)[user]
                            == as_holdings(before)[user] by {
                            let k = user_at(before, user);
                            assert(after[k] == before[k]);
                            lemma_user_at(after, k);
                        }
                    }
                }
                Ok(())
            },
            Some(i) => {
                let ghost before = self.users@;
                let ghost held = self.users@[i as int].credentials@;
                let mut p: usize = 0;
                let mut reached = false;
                while !reached && p < self.users[i].credentials.len()
                    invariant
                        self.users@ == before,
                        sound(before),
                        i < before.len(),
                        held == before[i as int].credentials@,
                        p <= held.len(),
                        forall|k: int| 0 <= k < p ==> lex_less((#[trigger] held[k]).cred_id@, credential.cred_id@),
                        reached ==> p < held.len() && lex_less(credential.cred_id@, held[p as int].cred_id@),
                        self@.contains_key(user_key@),
                        self@[user_key@] == held,
                    decreases held.len() - p, if reached { 0int } else { 1int },
                {
                    match compare(&self.users[i].credentials[p].cred_id, &credential.cred_id) {
                        Rank::Below => {
                            p += 1;
                        },
                        Rank::Same => {
                            assert(held[p as int].cred_id@ == credential.cred_id@);
                            return Err(CeremonyError::DuplicateCredential);
                        },
                        Rank::Above => {
                            reached = true;
                        },
                    }
                }
                proof {
                    let id = credential.cred_id@;
                    if p < held.len() {
                        lemma_lex_total(held[p as int].cred_id@, id);
                    }
                    lemma_place(held, id, p as int);
                    assert(!has_id(held, id)) by {
                        if has_id(held, id) {
                            let k = choose|k: int| 0 <= k < held.len() && (#[trigger] held[k]).cred_id@ == id;
                            lemma_lex_irreflexive(id);
                            if k < p {
                                assert(lex_less(held[k].cred_id@, id));
                            } else if k > p {
                                assert(lex_less(held[p as int].cred_id@, held[k].cred_id@));
                                lemma_lex_transitive(id, held[p as int].cred_id@, held[k].cred_id@);
                            }
                        }
                    }
                    lemma_with_credential(held, credential);
                }
                let mut entry = self.users.remove(i);
                entry.credentials.insert(p, credential);
                self.users.insert(i, entry);
                proof {
                    let after = self.users@;
                    assert(after.len() == before.len());
                    assert(after[i as int].user@ == user_key@);
                    assert(after[i as int].credentials@ == with_credential(held, credential));
                    assert forall|k: int| 0 <= k < after.len() && k != i implies (#[trigger] after[k]) == before[k] by {}
                    assert forall|k: int| 0 <= k < after.len() implies (#[trigger] after[k]).user@ == before[k].user@ by {}
                    assert(distinct_users(after)) by {
                        assert forall|a: int, b: int| 0 <= a < b < after.len() implies (#[trigger] after[a]).user@ != (
                        #[trigger] after[b]).user@ by {
                            assert(before[a].user@ != before[b].user@);
                        }
                    }
                    assert(sound(after)) by {
                        assert forall|k: int| 0 <= k < after.len() implies (#[trigger] after[k]).credentials@.len() > 0
                            && ascending(after[k].credentials@) by {
                            if k != i {
                                assert(before[k].credentials@.len() > 0);
                            }
                        }
                    }
                    assert(as_holdings(after) =~= stored(as_holdings(before), user_key@, credential)) by {
                        assert forall|user: Seq<u8>| has_user(after, user) == has_user(before, user) by {
                            if has_user(before, user) {
                                let k = user_at(before, user);
                                assert(after[k].user@ == user);
                            }
                            if has_user(after, user) {
                                let k = user_at(after, user);
                                assert(before[k].user@ == user);
                            }
                        }
                        lemma_user_at(after, i as int);
                        assert forall|user: Seq<u8>| has_user(before, user) && user != user_key@ implies as_holdings(
                            after,
                        )[user] == as_holdings(before)[user] by {
                            let k = user_at(before, user);
                            assert(before[k].user@ == user);
                            assert(after[k] == before[k]);
                            lemma_user_at(after, k);
                        }
                    }
                }
                Ok(())
            },
        }
    }
}

} // verus!
