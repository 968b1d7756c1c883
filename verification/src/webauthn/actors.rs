//! The ceremony manager: issues challenges, consumes each at most once, and
//! keeps the credentials that registrations mint.

use vstd::prelude::*;
use vstd::string::*;
use webauthn_rs::ephemeral::WebauthnEphemeralConfig;
use webauthn_rs::error::WebauthnError;
use webauthn_rs::proto::{
    CreationChallengeResponse, PublicKeyCredential, RegisterPublicKeyCredential,
    RequestChallengeResponse,
};
use webauthn_rs::{AuthenticationState, RegistrationState, Webauthn};
use crate::models::{CreateUser, User};
use crate::webauthn::backend::{
    attestation_object, authenticate_credential, authentication_challenge,
    authentication_verdict, generate_challenge_authenticate, generate_challenge_register,
    may_be_refused_format, mixed_policies, new_verifier, refused_format, register_credential,
    registration_challenge, registration_verdict, relying_party_of, CeremonyError, CeremonyState,
    Credential,
};
use crate::webauthn::bytes::contains;
use crate::webauthn::registry::{
    after_put, distinct_keys, lemma_after_put_keeps, lemma_without_keeps, lookup, without,
    ChallengeRegistry, Entry,
};
use crate::webauthn::store::{registered, stored, valid, CredentialStore, Holdings};

verus! {

/// The number of ceremonies of one kind that can be pending at once.
pub const CHALLENGE_CACHE_SIZE: usize = 256;

/// What a completed registration gives back.
#[derive(Debug, Clone)]
pub struct Registered {
    /// The durable identifier of the user the credential is bound to.
    pub user_id: i64,
    /// The identifier of the new credential.
    pub credential_id: Vec<u8>,
}

/// The key under which a user's ceremonies and credentials are filed: the
/// bytes of the user's name.
pub open spec fn key_of(nick: Seq<char>) -> Seq<u8> {
    vstd::utf8::encode_utf8(nick)
}

/// The registration that is pending for `key`, if any.
pub open spec fn pending_registration(entries: Seq<Entry>, key: Seq<u8>) -> Option<RegistrationState> {
    match lookup(entries, key) {
        Some(CeremonyState::Registration(state)) => Some(state),
        _ => None,
    }
}

/// The authentication that is pending for `key`, if any.
pub open spec fn pending_authentication(entries: Seq<Entry>, key: Seq<u8>) -> Option<AuthenticationState> {
    match lookup(entries, key) {
        Some(CeremonyState::Authentication(state)) => Some(state),
        _ => None,
    }
}

/// Every entry is a registration.
pub open spec fn all_registrations(entries: Seq<Entry>) -> bool {
    forall|i: int| 0 <= i < entries.len() ==> (#[trigger] entries[i]).1 is Registration
}

/// Every entry is an authentication.
pub open spec fn all_authentications(entries: Seq<Entry>) -> bool {
    forall|i: int| 0 <= i < entries.len() ==> (#[trigger] entries[i]).1 is Authentication
}

/// The key of the user named `nick`.
pub fn user_key(nick: &str) -> (key: Vec<u8>)
    ensures
        key@ == nick.spec_bytes(),
{
    nick.as_bytes_vec()
}

/// The ceremony manager. It owns the verifier, one registry of pending
/// registrations, one of pending authentications, and the credential store.
pub struct WebauthnActor {
    wan: Webauthn<WebauthnEphemeralConfig>,
    reg_chals: ChallengeRegistry,
    auth_chals: ChallengeRegistry,
    creds: CredentialStore,
}

impl WebauthnActor {
    /// The verifier, set up for the relying party the manager was made for.
    pub closed spec fn relying_party(&self) -> Webauthn<WebauthnEphemeralConfig> {
        self.wan
    }

    /// The pending registrations, the most recently used first.
    pub closed spec fn registrations(&self) -> Seq<Entry> {
        self.reg_chals@
    }

    /// The pending authentications, the most recently used first.
    pub closed spec fn authentications(&self) -> Seq<Entry> {
        self.auth_chals@
    }

    /// The credentials on file, user by user.
    pub closed spec fn credentials(&self) -> Holdings {
        self.creds@
    }

    /// The registries and the store are consistent, each registry holds
    /// ceremonies of its own kind only, and at most `CHALLENGE_CACHE_SIZE`
    /// of them.
    pub closed spec fn wf(&self) -> bool {
        &&& self.reg_chals.wf()
        &&& self.auth_chals.wf()
        &&& self.creds.wf()
        &&& self.reg_chals.capacity() == CHALLENGE_CACHE_SIZE
        &&& self.auth_chals.capacity() == CHALLENGE_CACHE_SIZE
        &&& all_registrations(self.reg_chals@)
        &&& all_authentications(self.auth_chals@)
    }

    /// What holds of a consistent manager at all times: no user has two
    /// pending ceremonies of one kind, neither registry exceeds its
    /// capacity or holds a ceremony of the other kind, every user on file
    /// has credentials, and no user holds two with one identifier.
    pub proof fn law_invariants(&self)
        requires
            self.wf(),
        ensures
            distinct_keys(self.registrations()),
            distinct_keys(self.authentications()),
            self.registrations().len() <= CHALLENGE_CACHE_SIZE,
            self.authentications().len() <= CHALLENGE_CACHE_SIZE,
            all_registrations(self.registrations()),
            all_authentications(self.authentications()),
            valid(self.credentials()),
    {
        self.creds.law_valid();
    }

    /// A manager for the relying party that `config` describes, with nothing
    /// pending and no credential on file.
    pub fn new(config: WebauthnEphemeralConfig) -> (actor: WebauthnActor)
        ensures
            actor.wf(),
            actor.relying_party() == relying_party_of(config),
            actor.registrations() == Seq::<Entry>::empty(),
            actor.authentications() == Seq::<Entry>::empty(),
            actor.credentials() == Map::<Seq<u8>, Seq<Credential>>::empty(),
    {
        WebauthnActor {
            wan: new_verifier(config),
            reg_chals: ChallengeRegistry::new(CHALLENGE_CACHE_SIZE),
            auth_chals: ChallengeRegistry::new(CHALLENGE_CACHE_SIZE),
            creds: CredentialStore::new(),
        }
    }

    /// Files what the verifier issued for a registration: the state becomes
    /// the one pending registration of `user_key`, in place of any earlier
    /// one, and the challenge goes back to the caller. A refusal of the
    /// verifier is passed on as `Internal` and files nothing.
    pub fn file_registration(
        &mut self,
        user_key: Vec<u8>,
        issued: Result<(CreationChallengeResponse, RegistrationState), WebauthnError>,
    ) -> (challenge: Result<CreationChallengeResponse, CeremonyError>)
        requires
            old(self).wf(),
        ensures
            final(self).wf(),
            final(self).relying_party() == old(self).relying_party(),
            final(self).authentications() == old(self).authentications(),
            final(self).credentials() == old(self).credentials(),
            match issued {
                Ok((payload, state)) => challenge == Ok::<CreationChallengeResponse, CeremonyError>(payload)
                    && final(self).registrations() == after_put(
                    old(self).registrations(),
                    CHALLENGE_CACHE_SIZE as nat,
                    user_key@,
                    CeremonyState::Registration(state),
                ),
                Err(e) => challenge == Err::<CreationChallengeResponse, CeremonyError>(CeremonyError::Internal(e))
                    && final(self).registrations() == old(self).registrations(),
            },
    {
        match issued {
            Ok((payload, state)) => {
                proof {
                    lemma_after_put_keeps(
                        self.reg_chals@,
                        CHALLENGE_CACHE_SIZE as nat,
                        user_key@,
                        CeremonyState::Registration(state),
                    );
                }
                self.reg_chals.put(user_key, CeremonyState::Registration(state));
                Ok(payload)
            },
            Err(e) => Err(CeremonyError::Internal(e)),
        }
    }

    /// Issues a registration challenge for the user named `nick` and keeps
    /// its state as the user's one pending registration. Every name but the
    /// empty one gets a challenge.
    pub fn challenge_register(&mut self, nick: String) -> (challenge: Result<
        CreationChallengeResponse,
        CeremonyError,
    >)
        requires
            old(self).wf(),
        ensures
            final(self).wf(),
            final(self).relying_party() == old(self).relying_party(),
            final(self).authentications() == old(self).authentications(),
            final(self).credentials() == old(self).credentials(),
            challenge is Ok <==> nick@.len() > 0,
            match challenge {
                Ok(payload) => exists|state: RegistrationState|
                    payload == #[trigger] registration_challenge(old(self).relying_party(), nick@, state)
                        && final(self).registrations() == after_put(
                        old(self).registrations(),
                        CHALLENGE_CACHE_SIZE as nat,
                        key_of(nick@),
                        CeremonyState::Registration(state),
                    ),
                Err(e) => e is Internal && final(self).registrations() == old(self).registrations(),
            },
    {
        let issued = generate_challenge_register(&self.wan, nick.as_str(), false);
        let key = user_key(nick.as_str());
        let ghost witness = issued;
        let challenge = self.file_registration(key, issued);
        proof {
            if let Ok((payload, state)) = witness {
                assert(payload == registration_challenge(old(self).relying_party(), nick@, state)
                    && self.registrations() == after_put(
                    old(self).registrations(),
                    CHALLENGE_CACHE_SIZE as nat,
                    key_of(nick@),
                    CeremonyState::Registration(state),
                ));
            }
        }
        challenge
    }

    /// Consumes the registration pending for `user_key`. Whatever was filed
    /// under the key is gone afterwards; `ChallengeNotFound` where no
    /// registration was pending.
    pub fn take_registration(&mut self, user_key: &Vec<u8>) -> (taken: Result<RegistrationState, CeremonyError>)
        requires
            old(self).wf(),
        ensures
            final(self).wf(),
            final(self).relying_party() == old(self).relying_party(),
            final(self).registrations() == without(old(self).registrations(), user_key@),
            final(self).authentications() == old(self).authentications(),
            final(self).credentials() == old(self).credentials(),
            match taken {
                Ok(state) => pending_registration(old(self).registrations(), user_key@) == Some(state),
                Err(e) => e is ChallengeNotFound && lookup(old(self).registrations(), user_key@) is None,
            },
    {
        proof {
            lemma_without_keeps(self.reg_chals@, user_key@);
        }
        match self.reg_chals.pop(user_key) {
            Some(CeremonyState::Registration(state)) => Ok(state),
            _ => Err(CeremonyError::ChallengeNotFound),
        }
    }

    /// Acts on the verifier's verdict on a registration. An accepted
    /// credential is added to those of `user_key`, unless the user already
    /// holds its identifier, which is `DuplicateCredential`. A rejection is
    /// passed on unchanged. Nothing is stored unless the step succeeds.
    pub fn complete_registration(
        &mut self,
        user_key: Vec<u8>,
        user_id: i64,
        outcome: Result<Credential, WebauthnError>,
    ) -> (done: Result<Registered, CeremonyError>)
        requires
            old(self).wf(),
        ensures
            final(self).wf(),
            final(self).relying_party() == old(self).relying_party(),
            final(self).registrations() == old(self).registrations(),
            final(self).authentications() == old(self).authentications(),
            match outcome {
                Ok(credential) => if registered(old(self).credentials(), user_key@, credential.cred_id@) {
                    &&& done matches Err(e)
                    &&& e is DuplicateCredential
                    &&& final(self).credentials() == old(self).credentials()
                } else {
                    &&& done matches Ok(registration)
                    &&& registration.user_id == user_id
                    &&& registration.credential_id@ == credential.cred_id@
                    &&& final(self).credentials() == stored(old(self).credentials(), user_key@, credential)
                },
                Err(reason) => done == Err::<Registered, CeremonyError>(CeremonyError::VerificationError(reason))
                    && final(self).credentials() == old(self).credentials(),
            },
    {
        match outcome {
            Ok(credential) => {
                let credential_id = credential.cred_id.clone();
                assert(credential_id@ =~= credential.cred_id@);
                match self.creds.insert(user_key, credential) {
                    Ok(()) => Ok(Registered { user_id, credential_id }),
                    Err(e) => Err(e),
                }
            },
            Err(reason) => Err(CeremonyError::VerificationError(reason)),
        }
    }

    /// What a registration leaves behind, and what it returns. The pending
    /// registration is gone whatever happens. Where one was pending, an
    /// answer that may be of the refused attestation format ends with
    /// `AttestationNotSupported`. On any other answer the verifier decides:
    /// a credential it accepts is stored and returned with the user's
    /// identifier, a rejection is passed on. Nothing is stored unless the
    /// step succeeds.
    pub open spec fn registration_done(
        before: WebauthnActor,
        after: WebauthnActor,
        user: CreateUser,
        registered_user: User,
        reg: RegisterPublicKeyCredential,
        done: Result<Registered, CeremonyError>,
    ) -> bool {
        let key = key_of(user.nick@);
        &&& after.relying_party() == before.relying_party()
        &&& after.registrations() == without(before.registrations(), key)
        &&& after.authentications() == before.authentications()
        &&& pending_registration(before.registrations(), key) matches Some(state) ==> if may_be_refused_format(
            reg,
        ) {
            done matches Err(e) && e is AttestationNotSupported
        } else {
            match registration_verdict(before.relying_party(), reg, state, before.credentials(), key) {
                Ok(credential) => {
                    &&& done matches Ok(registration)
                    &&& registration.user_id == registered_user.id
                    &&& registration.credential_id@ == credential.cred_id@
                    &&& after.credentials() == stored(before.credentials(), key, credential)
                },
                Err(reason) => done == Err::<Registered, CeremonyError>(CeremonyError::VerificationError(reason)),
            }
        }
        &&& match done {
            Ok(registration) => {
                &&& pending_registration(before.registrations(), key) is Some
                &&& !may_be_refused_format(reg)
                &&& registration.user_id == registered_user.id
                &&& !registered(before.credentials(), key, registration.credential_id@)
                &&& exists|credential: Credential|
                    credential.cred_id@ == registration.credential_id@ && after.credentials() == stored(
                        before.credentials(),
                        key,
                        credential,
                    )
            },
            Err(e) => {
                &&& after.credentials() == before.credentials()
                &&& e is ChallengeNotFound || e is VerificationError || e is AttestationNotSupported
                &&& e is ChallengeNotFound <==> pending_registration(before.registrations(), key) is None
                &&& e is AttestationNotSupported ==> may_be_refused_format(reg)
            },
        }
    }

    /// Completes a registration for `user`, whom the identity directory has
    /// resolved to `registered_user`. The pending registration is consumed
    /// first, so an answer counts only against a challenge that was issued
    /// here and not consumed since. An answer whose attestation object
    /// holds the name of the format `apple` is refused with
    /// `AttestationNotSupported`, because the verifier does not return on
    /// every answer of that format. On any other answer the verifier
    /// decides, and an accepted credential is stored.
    pub fn register(&mut self, user: &CreateUser, registered_user: &User, reg: &RegisterPublicKeyCredential) -> (done:
        Result<Registered, CeremonyError>)
        requires
            old(self).wf(),
        ensures
            final(self).wf(),
            Self::registration_done(*old(self), *final(self), *user, *registered_user, *reg, done),
    {
        let key = user_key(user.nick.as_str());
        match self.take_registration(&key) {
            Err(e) => Err(e),
            Ok(state) => {
                let mut name: Vec<u8> = Vec::new();
                name.push(0x61);
                name.push(0x70);
                name.push(0x70);
                name.push(0x6c);
                name.push(0x65);
                assert(name@ =~= refused_format());
                if contains(attestation_object(reg), &name) {
                    Err(CeremonyError::AttestationNotSupported)
                } else {
                    let outcome = register_credential(&self.wan, reg, &state, &self.creds, &key);
                    self.complete_registration(key, registered_user.id, outcome)
                }
            },
        }
    }

    /// Completes a registration once the identity directory has answered.
    /// Where the user could not be resolved, the failure is returned as it
    /// is and the manager stays untouched: no challenge is consumed. Where
    /// the user was resolved, this is `register`.
    pub fn register_resolved(
        &mut self,
        user: &CreateUser,
        resolved: Result<User, CeremonyError>,
        reg: &RegisterPublicKeyCredential,
    ) -> (done: Result<Registered, CeremonyError>)
        requires
            old(self).wf(),
        ensures
            final(self).wf(),
            match resolved {
                Ok(registered_user) => Self::registration_done(
                    *old(self),
                    *final(self),
                    *user,
                    registered_user,
                    *reg,
                    done,
                ),
                Err(e) => {
                    &&& done == Err::<Registered, CeremonyError>(e)
                    &&& final(self).relying_party() == old(self).relying_party()
                    &&& final(self).registrations() == old(self).registrations()
                    &&& final(self).authentications() == old(self).authentications()
                    &&& final(self).credentials() == old(self).credentials()
                },
            },
    {
        match resolved {
            Ok(registered_user) => self.register(user, &registered_user, reg),
            Err(e) => Err(e),
        }
    }

    /// Files what the verifier issued for an authentication, as
    /// `file_registration` does for a registration.
    pub fn file_authentication(
        &mut self,
        user_key: Vec<u8>,
        issued: Result<(RequestChallengeResponse, AuthenticationState), WebauthnError>,
    ) -> (challenge: Result<RequestChallengeResponse, CeremonyError>)
        requires
            old(self).wf(),
        ensures
            final(self).wf(),
            final(self).relying_party() == old(self).relying_party(),
            final(self).registrations() == old(self).registrations(),
            final(self).credentials() == old(self).credentials(),
            match issued {
                Ok((payload, state)) => challenge == Ok::<RequestChallengeResponse, CeremonyError>(payload)
                    && final(self).authentications() == after_put(
                    old(self).authentications(),
                    CHALLENGE_CACHE_SIZE as nat,
                    user_key@,
                    CeremonyState::Authentication(state),
                ),
                Err(e) => challenge == Err::<RequestChallengeResponse, CeremonyError>(CeremonyError::Internal(e))
                    && final(self).authentications() == old(self).authentications(),
            },
    {
        match issued {
            Ok((payload, state)) => {
                proof {
                    lemma_after_put_keeps(
                        self.auth_chals@,
                        CHALLENGE_CACHE_SIZE as nat,
                        user_key@,
                        CeremonyState::Authentication(state),
                    );
                }
                self.auth_chals.put(user_key, CeremonyState::Authentication(state));
                Ok(payload)
            },
            Err(e) => Err(CeremonyError::Internal(e)),
        }
    }

    /// Issues an authentication challenge against the credentials of the
    /// user named `nick` and keeps its state as the user's one pending
    /// authentication. A user without credentials gets
    /// `CredentialRetrievalError`; credentials registered under conflicting
    /// policies make the verifier refuse, which is `Internal`.
    pub fn challenge_authenticate(&mut self, nick: &String) -> (challenge: Result<
        RequestChallengeResponse,
        CeremonyError,
    >)
        requires
            old(self).wf(),
        ensures
            final(self).wf(),
            final(self).relying_party() == old(self).relying_party(),
            final(self).registrations() == old(self).registrations(),
            final(self).credentials() == old(self).credentials(),
            challenge is Ok <==> old(self).credentials().contains_key(key_of(nick@)) && !mixed_policies(
                old(self).credentials()[key_of(nick@)],
            ),
            match challenge {
                Ok(payload) => exists|state: AuthenticationState|
                    payload == #[trigger] authentication_challenge(old(self).relying_party(), state)
                        && final(self).authentications() == after_put(
                        old(self).authentications(),
                        CHALLENGE_CACHE_SIZE as nat,
                        key_of(nick@),
                        CeremonyState::Authentication(state),
                    ),
                Err(e) => {
                    &&& final(self).authentications() == old(self).authentications()
                    &&& e is CredentialRetrievalError || e is Internal
                    &&& e is CredentialRetrievalError <==> !old(self).credentials().contains_key(key_of(nick@))
                },
            },
    {
        let key = user_key(nick.as_str());
        let issued = match self.creds.list(&key) {
            Err(e) => {
                return Err(e);
            },
            Ok(creds) => generate_challenge_authenticate(&self.wan, creds),
        };
        let ghost witness = issued;
        let challenge = self.file_authentication(key, issued);
        proof {
            if let Ok((payload, state)) = witness {
                assert(payload == authentication_challenge(old(self).relying_party(), state)
                    && self.authentications() == after_put(
                    old(self).authentications(),
                    CHALLENGE_CACHE_SIZE as nat,
                    key_of(nick@),
                    CeremonyState::Authentication(state),
                ));
            }
        }
        challenge
    }

    /// Consumes the authentication pending for `user_key`, as
    /// `take_registration` does for a registration.
    pub fn take_authentication(&mut self, user_key: &Vec<u8>) -> (taken: Result<
        AuthenticationState,
        CeremonyError,
    >)
        requires
            old(self).wf(),
        ensures
            final(self).wf(),
            final(self).relying_party() == old(self).relying_party(),
            final(self).authentications() == without(old(self).authentications(), user_key@),
            final(self).registrations() == old(self).registrations(),
            final(self).credentials() == old(self).credentials(),
            match taken {
                Ok(state) => pending_authentication(old(self).authentications(), user_key@) == Some(state),
                Err(e) => e is ChallengeNotFound && lookup(old(self).authentications(), user_key@) is None,
            },
    {
        proof {
            lemma_without_keeps(self.auth_chals@, user_key@);
        }
        match self.auth_chals.pop(user_key) {
            Some(CeremonyState::Authentication(state)) => Ok(state),
            _ => Err(CeremonyError::ChallengeNotFound),
        }
    }

    /// Completes an authentication for `user`: consumes the pending
    /// authentication, lets the verifier decide, and on acceptance returns
    /// the user's durable identifier. No credential is added.
    pub fn authenticate(&mut self, user: &User, rsp: &PublicKeyCredential) -> (done: Result<i64, CeremonyError>)
        requires
            old(self).wf(),
        ensures
            final(self).wf(),
            final(self).relying_party() == old(self).relying_party(),
            final(self).authentications() == without(old(self).authentications(), key_of(user.nick@)),
            final(self).registrations() == old(self).registrations(),
            final(self).credentials() == old(self).credentials(),
            pending_authentication(old(self).authentications(), key_of(user.nick@)) matches Some(state)
                ==> match authentication_verdict(old(self).relying_party(), *rsp, state) {
                Ok(_) => done == Ok::<i64, CeremonyError>(user.id),
                Err(reason) => done == Err::<i64, CeremonyError>(CeremonyError::VerificationError(reason)),
            },
            match done {
                Ok(id) => id == user.id && pending_authentication(
                    old(self).authentications(),
                    key_of(user.nick@),
                ) is Some,
                Err(e) => {
                    &&& e is ChallengeNotFound || e is VerificationError
                    &&& e is ChallengeNotFound <==> pending_authentication(
                        old(self).authentications(),
                        key_of(user.nick@),
                    ) is None
                },
            },
    {
        let key = user_key(user.nick.as_str());
        match self.take_authentication(&key) {
            Err(e) => Err(e),
            Ok(state) => confirm_authentication(user.id, authenticate_credential(&self.wan, rsp, &state)),
        }
    }
}

/// Acts on the verifier's verdict on an authentication: acceptance confirms
/// the user, a rejection is passed on unchanged.
pub fn confirm_authentication(user_id: i64, outcome: Result<Vec<u8>, WebauthnError>) -> (done: Result<
    i64,
    CeremonyError,
>)
    ensures
        match outcome {
            Ok(_) => done == Ok::<i64, CeremonyError>(user_id),
            Err(reason) => done == Err::<i64, CeremonyError>(CeremonyError::VerificationError(reason)),
        },
{
    match outcome {
        Ok(_) => Ok(user_id),
        Err(reason) => Err(CeremonyError::VerificationError(reason)),
    }
}

} // verus!
