//! The types of the attestation and assertion verifier, and the values that
//! pass between it and the ceremony manager.

use vstd::prelude::*;
use webauthn_rs::ephemeral::WebauthnEphemeralConfig;
use webauthn_rs::error::WebauthnError;
use webauthn_rs::proto::{
    COSEKey, CreationChallengeResponse, PublicKeyCredential, RegisterPublicKeyCredential,
    RequestChallengeResponse, UserVerificationPolicy,
};
use crate::webauthn::bytes::occurs;
use crate::webauthn::store::{registered, CredentialStore, Holdings};
use webauthn_rs::{AuthenticationState, RegistrationState, Webauthn};

verus! {

/// The verifier, set up for one relying party.
#[verifier::external_type_specification]
#[verifier::external_body]
#[verifier::reject_recursive_types(T)]
pub struct ExWebauthn<T>(Webauthn<T>);

/// The relying party's parameters.
#[verifier::external_type_specification]
#[verifier::external_body]
pub struct ExWebauthnEphemeralConfig(WebauthnEphemeralConfig);

/// The verifier's reason for a refusal.
#[verifier::external_type_specification]
#[verifier::external_body]
pub struct ExWebauthnError(WebauthnError);

/// Server-side state of a registration ceremony, as the verifier made it.
#[verifier::external_type_specification]
#[verifier::external_body]
pub struct ExRegistrationState(RegistrationState);

/// Server-side state of an authentication ceremony, as the verifier made it.
#[verifier::external_type_specification]
#[verifier::external_body]
pub struct ExAuthenticationState(AuthenticationState);

/// The registration challenge that goes to the client.
#[verifier::external_type_specification]
#[verifier::external_body]
pub struct ExCreationChallengeResponse(CreationChallengeResponse);

/// The authentication challenge that goes to the client.
#[verifier::external_type_specification]
#[verifier::external_body]
pub struct ExRequestChallengeResponse(RequestChallengeResponse);

/// The client's signed answer to a registration challenge.
#[verifier::external_type_specification]
#[verifier::external_body]
pub struct ExRegisterPublicKeyCredential(RegisterPublicKeyCredential);

/// The client's signed answer to an authentication challenge.
#[verifier::external_type_specification]
#[verifier::external_body]
pub struct ExPublicKeyCredential(PublicKeyCredential);

/// Public-key material of a credential; never interpreted here.
#[verifier::external_type_specification]
#[verifier::external_body]
pub struct ExCOSEKey(COSEKey);

/// What a challenge registry keeps for a user between the issue of a
/// challenge and its consumption.
#[derive(Debug)]
pub enum CeremonyState {
    Registration(RegistrationState),
    Authentication(AuthenticationState),
}

/// The user-verification policy a credential was registered under.
#[derive(Clone, Copy, Debug, PartialEq, Eq, Structural)]
pub enum VerificationPolicy {
    Required,
    Preferred,
    Discouraged,
}

/// A public-key credential bound to a user.
#[derive(Debug)]
pub struct Credential {
    /// The identifier, unique within the user's credentials.
    pub cred_id: Vec<u8>,
    /// The public key.
    pub cred: COSEKey,
    /// How often the authenticator has been used.
    pub counter: u32,
    /// Whether the user was verified at registration.
    pub verified: bool,
    /// The policy requested at registration.
    pub registration_policy: VerificationPolicy,
}

/// Why a ceremony step was refused.
#[derive(Debug)]
pub enum CeremonyError {
    /// No challenge is pending for the user: none was issued, or it was
    /// consumed or displaced.
    ChallengeNotFound,
    /// The user has no credentials on file.
    CredentialRetrievalError,
    /// The user already holds a credential with this identifier.
    DuplicateCredential,
    /// The user was neither found nor created.
    UserResolutionFailed,
    /// The answer comes in an attestation format that is not taken here.
    AttestationNotSupported,
    /// The verifier rejected the response; its reason is passed on.
    VerificationError(WebauthnError),
    /// Challenge generation failed.
    Internal(WebauthnError),
}

/// Whether the credentials were registered under both kinds of policy: some
/// with verification required, some without.
pub open spec fn mixed_policies(creds: Seq<Credential>) -> bool {
    &&& exists|i: int| 0 <= i < creds.len() && (#[trigger] creds[i]).registration_policy == VerificationPolicy::Required
    &&& exists|j: int| 0 <= j < creds.len() && (#[trigger] creds[j]).registration_policy != VerificationPolicy::Required
}

/// What `Webauthn::register_credential` makes of the answer `reg` to the
/// challenge whose state is `state`, for the user `user` with the
/// credentials in `holdings`. It reads nothing but the answer, the state, the
/// relying party's parameters and whether the user holds an identifier.
pub uninterp spec fn registration_verdict(
    wan: Webauthn<WebauthnEphemeralConfig>,
    reg: RegisterPublicKeyCredential,
    state: RegistrationState,
    holdings: Holdings,
    user: Seq<u8>,
) -> Result<Credential, WebauthnError>;

/// What `Webauthn::authenticate_credential` makes of the assertion `rsp`
/// against the challenge whose state is `state`: the identifier of the
/// credential that signed it, or the reason for the rejection. It reads
/// nothing but the assertion, the state and the relying party's parameters.
pub uninterp spec fn authentication_verdict(
    wan: Webauthn<WebauthnEphemeralConfig>,
    rsp: PublicKeyCredential,
    state: AuthenticationState,
) -> Result<Seq<u8>, WebauthnError>;

/// The challenge that `Webauthn::generate_challenge_register` hands out for
/// the user named `nick` together with the state `state`: the relying
/// party's parameters, the user's name, and the nonce and policy of the
/// state.
pub uninterp spec fn registration_challenge(
    wan: Webauthn<WebauthnEphemeralConfig>,
    nick: Seq<char>,
    state: RegistrationState,
) -> CreationChallengeResponse;

/// The challenge that `Webauthn::generate_challenge_authenticate` hands out
/// together with the state `state`: the relying party's parameters, and the
/// nonce, policy and credentials of the state.
pub uninterp spec fn authentication_challenge(
    wan: Webauthn<WebauthnEphemeralConfig>,
    state: AuthenticationState,
) -> RequestChallengeResponse;

/// The attestation object of the answer `reg`, byte for byte as the client
/// sent it.
pub uninterp spec fn attestation_object_of(reg: RegisterPublicKeyCredential) -> Seq<u8>;

/// The name of the attestation format that is not taken: `apple`.
pub open spec fn refused_format() -> Seq<u8> {
    seq![0x61u8, 0x70u8, 0x70u8, 0x6cu8, 0x65u8]
}

/// Whether the answer `reg` may come in the refused attestation format.
/// The verifier reads the format's name out of the attestation object where
/// it stands, so an object that nowhere holds the name is of another format.
pub open spec fn may_be_refused_format(reg: RegisterPublicKeyCredential) -> bool {
    occurs(attestation_object_of(reg), refused_format())
}

/// The field `response.attestation_object` of a `RegisterPublicKeyCredential`.
#[verifier::external_body]
pub(crate) fn attestation_object(reg: &RegisterPublicKeyCredential) -> (bytes: &Vec<u8>)
    ensures
        bytes@ == attestation_object_of(*reg),
{
    &reg.response.attestation_object.0
}

/// The verifier that `Webauthn::new` sets up for the relying party that
/// `config` describes.
pub uninterp spec fn relying_party_of(config: WebauthnEphemeralConfig) -> Webauthn<WebauthnEphemeralConfig>;

/// `Webauthn::new`: a verifier for the relying party that `config`
/// describes, which is `relying_party_of(config)`.
#[verifier::external_body]
pub(crate) fn new_verifier(config: WebauthnEphemeralConfig) -> (wan: Webauthn<WebauthnEphemeralConfig>)
    ensures
        wan == relying_party_of(config),
{
    Webauthn::new(config)
}

/// `Webauthn::generate_challenge_register`: a fresh random challenge for the
/// user named `nick`, with the state to keep until the answer comes. It is
/// refused for the empty name and for no other. The challenge handed out is
/// `registration_challenge` of the verifier, the name and the state.
#[verifier::external_body]
pub(crate) fn generate_challenge_register(
    wan: &Webauthn<WebauthnEphemeralConfig>,
    nick: &str,
    verification_required: bool,
) -> (issued: Result<(CreationChallengeResponse, RegistrationState), WebauthnError>)
    ensures
        issued is Ok <==> nick@.len() > 0,
        issued matches Ok(pair) ==> pair.0 == registration_challenge(*wan, nick@, pair.1),
{
    wan.generate_challenge_register(nick, verification_required)
}

/// `Webauthn::register_credential`: checks the client's answer against the
/// state of the challenge and gives the credential it attests, which is
/// `registration_verdict` of what it was handed. The verifier asks whether
/// the user already holds the credential's identifier and accepts none that
/// the user holds. On some answers of the attestation format `apple` the
/// verifier does not return: where the certificate's key has a coordinate
/// that is not 32 bytes long. Every answer that may be of that format is
/// left out.
#[verifier::external_body]
pub(crate) fn register_credential(
    wan: &Webauthn<WebauthnEphemeralConfig>,
    reg: &RegisterPublicKeyCredential,
    state: &RegistrationState,
    store: &CredentialStore,
    user_key: &Vec<u8>,
) -> (outcome: Result<Credential, WebauthnError>)
    requires
        store.wf(),
        !may_be_refused_format(*reg),
    ensures
        outcome == registration_verdict(*wan, *reg, *state, store@, user_key@),
        outcome matches Ok(credential) ==> !registered(store@, user_key@, credential.cred_id@),
{
    let (c, _) = wan.register_credential(reg, state, |id| Ok(store.duplicate_predicate(user_key, id)))?;
    let registration_policy = match c.registration_policy {
        UserVerificationPolicy::Required => VerificationPolicy::Required,
        UserVerificationPolicy::Preferred_DO_NOT_USE => VerificationPolicy::Preferred,
        UserVerificationPolicy::Discouraged => VerificationPolicy::Discouraged,
    };
    Ok(Credential { cred_id: c.cred_id, cred: c.cred, counter: c.counter, verified: c.verified, registration_policy })
}

/// `Webauthn::generate_challenge_authenticate`: a fresh random challenge
/// that any of `creds` may answer, with the state to keep until the answer
/// comes. It is refused where some of the credentials were registered with
/// verification required and some without, and in no other case. The
/// challenge handed out is `authentication_challenge` of the verifier and
/// the state.
#[verifier::external_body]
pub(crate) fn generate_challenge_authenticate(
    wan: &Webauthn<WebauthnEphemeralConfig>,
    creds: &Vec<Credential>,
) -> (issued: Result<(RequestChallengeResponse, AuthenticationState), WebauthnError>)
    ensures
        issued is Ok <==> !mixed_policies(creds@),
        issued matches Ok(pair) ==> pair.0 == authentication_challenge(*wan, pair.1),
{
    wan.generate_challenge_authenticate(creds.iter().map(|c| webauthn_rs::proto::Credential {
        cred_id: c.cred_id.clone(),
        cred: c.cred.clone(),
        counter: c.counter,
        verified: c.verified,
        registration_policy: match c.registration_policy {
            VerificationPolicy::Required => UserVerificationPolicy::Required,
            VerificationPolicy::Preferred => UserVerificationPolicy::Preferred_DO_NOT_USE,
            VerificationPolicy::Discouraged => UserVerificationPolicy::Discouraged,
        },
    }).collect())
}

/// `Webauthn::authenticate_credential`: checks the client's assertion
/// against the state of the challenge and gives the identifier of the
/// credential that signed it, which is `authentication_verdict` of what it
/// was handed.
#[verifier::external_body]
pub(crate) fn authenticate_credential(
    wan: &Webauthn<WebauthnEphemeralConfig>,
    rsp: &PublicKeyCredential,
    state: &AuthenticationState,
) -> (outcome: Result<Vec<u8>, WebauthnError>)
    ensures
        outcome is Ok <==> authentication_verdict(*wan, *rsp, *state) is Ok,
        outcome matches Ok(id) ==> authentication_verdict(*wan, *rsp, *state)->Ok_0 == id@,
        outcome matches Err(reason) ==> authentication_verdict(*wan, *rsp, *state)->Err_0 == reason,
{
    wan.authenticate_credential(rsp, state).map(|(id, _)| id.clone())
}

} // verus!
