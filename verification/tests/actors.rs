use webauthn_core::models::{CreateUser, User};
use webauthn_core::webauthn::actors::{
    confirm_authentication, user_key, WebauthnActor, CHALLENGE_CACHE_SIZE,
};
use webauthn_core::webauthn::backend::{CeremonyError, Credential, VerificationPolicy};
use webauthn_core::webauthn::directory::{after_creation, after_lookup, on_file, Lookup};
use webauthn_rs::base64_data::Base64UrlSafeData;
use webauthn_rs::ephemeral::WebauthnEphemeralConfig;
use webauthn_rs::error::WebauthnError;
use webauthn_rs::proto::{
    AuthenticatorAssertionResponseRaw, AuthenticatorAttestationResponseRaw, COSEAlgorithm,
    COSEKey, COSEKeyType, PublicKeyCredential, RegisterPublicKeyCredential,
};

fn actor() -> WebauthnActor {
    WebauthnActor::new(WebauthnEphemeralConfig::new(
        "Lists",
        "https://lists.example.org",
        "lists.example.org",
        None,
    ))
}

fn create_user(nick: &str) -> CreateUser {
    CreateUser { nick: nick.to_string(), email: format!("{}@example.org", nick) }
}

fn user(id: i64, nick: &str) -> User {
    User { id, nick: nick.to_string(), email: format!("{}@example.org", nick) }
}

fn credential(id: &[u8], policy: VerificationPolicy) -> Credential {
    Credential {
        cred_id: id.to_vec(),
        cred: COSEKey { type_: COSEAlgorithm::ES256, key: COSEKeyType::EC_OKP },
        counter: 0,
        verified: false,
        registration_policy: policy,
    }
}

fn unsigned_registration() -> RegisterPublicKeyCredential {
    RegisterPublicKeyCredential {
        id: "AQID".to_string(),
        raw_id: Base64UrlSafeData(vec![1, 2, 3]),
        response: AuthenticatorAttestationResponseRaw {
            attestation_object: Base64UrlSafeData(vec![]),
            client_data_json: Base64UrlSafeData(vec![]),
        },
        type_: "public-key".to_string(),
    }
}

fn answer_with(attestation_object: &[u8]) -> RegisterPublicKeyCredential {
    RegisterPublicKeyCredential {
        id: "AQID".to_string(),
        raw_id: Base64UrlSafeData(vec![1, 2, 3]),
        response: AuthenticatorAttestationResponseRaw {
            attestation_object: Base64UrlSafeData(attestation_object.to_vec()),
            client_data_json: Base64UrlSafeData(vec![]),
        },
        type_: "public-key".to_string(),
    }
}

fn unsigned_assertion(id: &[u8]) -> PublicKeyCredential {
    PublicKeyCredential {
        id: "AQID".to_string(),
        raw_id: Base64UrlSafeData(id.to_vec()),
        response: AuthenticatorAssertionResponseRaw {
            authenticator_data: Base64UrlSafeData(vec![]),
            client_data_json: Base64UrlSafeData(vec![]),
            signature: Base64UrlSafeData(vec![]),
            user_handle: None,
        },
        extensions: None,
        type_: "public-key".to_string(),
    }
}

#[test]
fn the_cache_size_is_256() {
    assert_eq!(CHALLENGE_CACHE_SIZE, 256);
}

#[test]
fn the_user_key_is_the_bytes_of_the_name() {
    assert_eq!(user_key("alice"), b"alice".to_vec());
    assert_eq!(user_key(""), Vec::<u8>::new());
    assert_eq!(user_key("zoë"), vec![b'z', b'o', 0xc3, 0xab]);
}

#[test]
fn register_without_a_challenge_is_refused() {
    let mut actor = actor();
    let done = actor.register(&create_user("alice"), &user(1, "alice"), &unsigned_registration());
    assert!(matches!(done, Err(CeremonyError::ChallengeNotFound)));
}

#[test]
fn a_challenge_is_consumed_by_the_first_registration() {
    let mut actor = actor();
    assert!(actor.challenge_register("alice".to_string()).is_ok());
    let state = actor.take_registration(&user_key("alice"));
    assert!(state.is_ok());
    let done = actor
        .complete_registration(user_key("alice"), 41, Ok(credential(&[9, 9], VerificationPolicy::Discouraged)))
        .unwrap();
    assert_eq!(done.user_id, 41);
    assert_eq!(done.credential_id, vec![9, 9]);
    let again = actor.register(&create_user("alice"), &user(41, "alice"), &unsigned_registration());
    assert!(matches!(again, Err(CeremonyError::ChallengeNotFound)));
    assert!(matches!(
        actor.take_registration(&user_key("alice")),
        Err(CeremonyError::ChallengeNotFound)
    ));
}

#[test]
fn a_rejected_answer_consumes_the_challenge_and_stores_nothing() {
    let mut actor = actor();
    assert!(actor.challenge_register("alice".to_string()).is_ok());
    let first = actor.register(&create_user("alice"), &user(1, "alice"), &unsigned_registration());
    assert!(matches!(first, Err(CeremonyError::VerificationError(_))));
    let second = actor.register(&create_user("alice"), &user(1, "alice"), &unsigned_registration());
    assert!(matches!(second, Err(CeremonyError::ChallengeNotFound)));
    assert!(matches!(
        actor.challenge_authenticate(&"alice".to_string()),
        Err(CeremonyError::CredentialRetrievalError)
    ));
}

#[test]
fn a_registration_for_another_user_finds_no_challenge() {
    let mut actor = actor();
    assert!(actor.challenge_register("alice".to_string()).is_ok());
    let done = actor.register(&create_user("bob"), &user(2, "bob"), &unsigned_registration());
    assert!(matches!(done, Err(CeremonyError::ChallengeNotFound)));
    assert!(actor.take_registration(&user_key("alice")).is_ok());
}

#[test]
fn the_empty_name_gets_no_challenge() {
    let mut actor = actor();
    let challenge = actor.challenge_register(String::new());
    assert!(matches!(challenge, Err(CeremonyError::Internal(WebauthnError::InvalidUsername))));
    assert!(matches!(actor.take_registration(&vec![]), Err(CeremonyError::ChallengeNotFound)));
}

#[test]
fn the_challenge_names_the_user() {
    let mut actor = actor();
    let challenge = actor.challenge_register("alice".to_string()).unwrap();
    assert_eq!(challenge.public_key.user.name, "alice");
    assert_eq!(challenge.public_key.user.id, Base64UrlSafeData(b"alice".to_vec()));
    assert_eq!(challenge.public_key.rp.id, "lists.example.org");
}

#[test]
fn a_new_challenge_replaces_the_pending_one() {
    let mut actor = actor();
    let first = actor.challenge_register("alice".to_string()).unwrap();
    let second = actor.challenge_register("alice".to_string()).unwrap();
    assert_ne!(first.public_key.challenge, second.public_key.challenge);
    assert!(actor.take_registration(&user_key("alice")).is_ok());
    assert!(actor.take_registration(&user_key("alice")).is_err());
}

#[test]
fn two_users_register_side_by_side() {
    let mut actor = actor();
    assert!(actor.challenge_register("alice".to_string()).is_ok());
    assert!(actor.challenge_register("bob".to_string()).is_ok());
    assert!(actor.take_registration(&user_key("alice")).is_ok());
    assert!(actor.take_registration(&user_key("bob")).is_ok());
    let alice = actor.complete_registration(
        user_key("alice"),
        1,
        Ok(credential(&[1], VerificationPolicy::Discouraged)),
    );
    let bob = actor.complete_registration(
        user_key("bob"),
        2,
        Ok(credential(&[1], VerificationPolicy::Discouraged)),
    );
    assert_eq!(alice.unwrap().user_id, 1);
    assert_eq!(bob.unwrap().user_id, 2);
}

#[test]
fn the_257th_user_displaces_the_first() {
    let mut actor = actor();
    for i in 0..257 {
        assert!(actor.challenge_register(format!("user{}", i)).is_ok());
    }
    assert!(matches!(
        actor.take_registration(&user_key("user0")),
        Err(CeremonyError::ChallengeNotFound)
    ));
    for i in 1..257 {
        assert!(actor.take_registration(&user_key(&format!("user{}", i))).is_ok());
    }
}

#[test]
fn an_accepted_duplicate_is_refused_by_the_store() {
    let mut actor = actor();
    let first = actor.complete_registration(
        user_key("alice"),
        1,
        Ok(credential(&[4, 2], VerificationPolicy::Discouraged)),
    );
    assert!(first.is_ok());
    let second = actor.complete_registration(
        user_key("alice"),
        1,
        Ok(credential(&[4, 2], VerificationPolicy::Required)),
    );
    assert!(matches!(second, Err(CeremonyError::DuplicateCredential)));
    assert!(actor.challenge_authenticate(&"alice".to_string()).is_ok());
}

#[test]
fn a_rejection_is_passed_on_unchanged() {
    let mut actor = actor();
    let done = actor.complete_registration(user_key("alice"), 1, Err(WebauthnError::MismatchedChallenge));
    assert!(matches!(
        done,
        Err(CeremonyError::VerificationError(WebauthnError::MismatchedChallenge))
    ));
    assert!(matches!(
        actor.challenge_authenticate(&"alice".to_string()),
        Err(CeremonyError::CredentialRetrievalError)
    ));
}

#[test]
fn a_user_without_credentials_gets_no_authentication_challenge() {
    let mut actor = actor();
    assert!(matches!(
        actor.challenge_authenticate(&"alice".to_string()),
        Err(CeremonyError::CredentialRetrievalError)
    ));
    assert!(matches!(
        actor.take_authentication(&user_key("alice")),
        Err(CeremonyError::ChallengeNotFound)
    ));
}

#[test]
fn the_authentication_challenge_allows_the_users_credentials_in_order() {
    let mut actor = actor();
    for id in [vec![3u8], vec![1, 1], vec![2]] {
        assert!(actor
            .complete_registration(user_key("alice"), 1, Ok(credential(&id, VerificationPolicy::Discouraged)))
            .is_ok());
    }
    let challenge = actor.challenge_authenticate(&"alice".to_string()).unwrap();
    let allowed: Vec<Vec<u8>> =
        challenge.public_key.allow_credentials.iter().map(|c| c.id.0.clone()).collect();
    assert_eq!(allowed, vec![vec![1, 1], vec![2], vec![3]]);
    assert!(actor.take_authentication(&user_key("alice")).is_ok());
    assert!(actor.take_authentication(&user_key("alice")).is_err());
}

#[test]
fn credentials_under_conflicting_policies_get_no_challenge() {
    let mut actor = actor();
    assert!(actor
        .complete_registration(user_key("alice"), 1, Ok(credential(&[1], VerificationPolicy::Required)))
        .is_ok());
    assert!(actor.challenge_authenticate(&"alice".to_string()).is_ok());
    assert!(actor
        .complete_registration(user_key("alice"), 1, Ok(credential(&[2], VerificationPolicy::Preferred)))
        .is_ok());
    let challenge = actor.challenge_authenticate(&"alice".to_string());
    assert!(matches!(
        challenge,
        Err(CeremonyError::Internal(WebauthnError::InconsistentUserVerificationPolicy))
    ));
    assert!(actor.take_authentication(&user_key("alice")).is_ok());
}

#[test]
fn credentials_all_with_verification_required_get_a_challenge() {
    let mut actor = actor();
    for id in [vec![1u8], vec![2]] {
        assert!(actor
            .complete_registration(user_key("alice"), 1, Ok(credential(&id, VerificationPolicy::Required)))
            .is_ok());
    }
    assert!(actor.challenge_authenticate(&"alice".to_string()).is_ok());
}

#[test]
fn authenticate_without_a_challenge_is_refused() {
    let mut actor = actor();
    let done = actor.authenticate(&user(1, "alice"), &unsigned_assertion(&[1]));
    assert!(matches!(done, Err(CeremonyError::ChallengeNotFound)));
}

#[test]
fn a_rejected_assertion_consumes_the_challenge() {
    let mut actor = actor();
    assert!(actor
        .complete_registration(user_key("alice"), 1, Ok(credential(&[1], VerificationPolicy::Discouraged)))
        .is_ok());
    assert!(actor.challenge_authenticate(&"alice".to_string()).is_ok());
    let first = actor.authenticate(&user(1, "alice"), &unsigned_assertion(&[1]));
    assert!(matches!(first, Err(CeremonyError::VerificationError(_))));
    let second = actor.authenticate(&user(1, "alice"), &unsigned_assertion(&[1]));
    assert!(matches!(second, Err(CeremonyError::ChallengeNotFound)));
}

#[test]
fn an_assertion_by_an_unknown_credential_is_rejected() {
    let mut actor = actor();
    assert!(actor
        .complete_registration(user_key("alice"), 1, Ok(credential(&[1], VerificationPolicy::Discouraged)))
        .is_ok());
    assert!(actor.challenge_authenticate(&"alice".to_string()).is_ok());
    let done = actor.authenticate(&user(1, "alice"), &unsigned_assertion(&[2]));
    assert!(matches!(
        done,
        Err(CeremonyError::VerificationError(WebauthnError::CredentialNotFound))
    ));
}

#[test]
fn the_two_kinds_of_ceremony_are_kept_apart() {
    let mut actor = actor();
    assert!(actor
        .complete_registration(user_key("alice"), 1, Ok(credential(&[1], VerificationPolicy::Discouraged)))
        .is_ok());
    assert!(actor.challenge_authenticate(&"alice".to_string()).is_ok());
    assert!(matches!(
        actor.take_registration(&user_key("alice")),
        Err(CeremonyError::ChallengeNotFound)
    ));
    assert!(actor.challenge_register("alice".to_string()).is_ok());
    assert!(actor.take_authentication(&user_key("alice")).is_ok());
    assert!(actor.take_registration(&user_key("alice")).is_ok());
}

#[test]
fn an_accepted_assertion_confirms_the_user() {
    assert_eq!(confirm_authentication(17, Ok(vec![1, 2])).unwrap(), 17);
    assert!(matches!(
        confirm_authentication(17, Err(WebauthnError::UserNotPresent)),
        Err(CeremonyError::VerificationError(WebauthnError::UserNotPresent))
    ));
}

#[test]
fn a_user_on_file_is_resolved_by_the_lookup() {
    match after_lookup(create_user("alice"), Some(user(5, "alice"))) {
        Lookup::Resolved(found) => {
            assert_eq!(found.id, 5);
            assert_eq!(found.nick, "alice");
        }
        Lookup::Create(_) => panic!("a user on file is not created again"),
    }
}

#[test]
fn a_user_not_on_file_is_to_be_created() {
    match after_lookup(create_user("alice"), None) {
        Lookup::Create(wanted) => {
            assert_eq!(wanted.nick, "alice");
            assert_eq!(wanted.email, "alice@example.org");
        }
        Lookup::Resolved(_) => panic!("nobody was found"),
    }
}

#[test]
fn a_failed_creation_ends_the_registration() {
    assert!(matches!(after_creation(None), Err(CeremonyError::UserResolutionFailed)));
    let created = after_creation(Some(user(8, "alice"))).unwrap();
    assert_eq!(created.id, 8);
    assert_eq!(created.email, "alice@example.org");
}

#[test]
fn a_ceremony_needs_a_user_on_file() {
    assert!(matches!(on_file(None), Err(CeremonyError::UserResolutionFailed)));
    let found = on_file(Some(user(3, "bob"))).unwrap();
    assert_eq!(found.id, 3);
    assert_eq!(found.nick, "bob");
}

#[test]
fn an_answer_in_the_refused_format_is_not_taken() {
    let mut actor = actor();
    assert!(actor.challenge_register("alice".to_string()).is_ok());
    // a CBOR map that begins with the text "fmt" and the text "apple"
    let object = [0xa3, 0x63, b'f', b'm', b't', 0x65, b'a', b'p', b'p', b'l', b'e'];
    let done = actor.register(&create_user("alice"), &user(1, "alice"), &answer_with(&object));
    assert!(matches!(done, Err(CeremonyError::AttestationNotSupported)));
    let again = actor.register(&create_user("alice"), &user(1, "alice"), &answer_with(&object));
    assert!(matches!(again, Err(CeremonyError::ChallengeNotFound)));
    assert!(matches!(
        actor.challenge_authenticate(&"alice".to_string()),
        Err(CeremonyError::CredentialRetrievalError)
    ));
}

#[test]
fn the_name_of_the_refused_format_anywhere_is_enough() {
    let mut actor = actor();
    assert!(actor.challenge_register("alice".to_string()).is_ok());
    let done = actor.register(&create_user("alice"), &user(1, "alice"), &answer_with(b"xxapplexx"));
    assert!(matches!(done, Err(CeremonyError::AttestationNotSupported)));
}

#[test]
fn an_answer_of_another_format_goes_to_the_verifier() {
    let mut actor = actor();
    assert!(actor.challenge_register("alice".to_string()).is_ok());
    let object = [0xa3, 0x63, b'f', b'm', b't', 0x64, b'n', b'o', b'n', b'e'];
    let done = actor.register(&create_user("alice"), &user(1, "alice"), &answer_with(&object));
    assert!(matches!(done, Err(CeremonyError::VerificationError(_))));
    assert!(actor.challenge_register("alice".to_string()).is_ok());
    let done = actor.register(&create_user("alice"), &user(1, "alice"), &answer_with(b"appl e"));
    assert!(matches!(done, Err(CeremonyError::VerificationError(_))));
}

#[test]
fn the_refused_format_counts_only_after_the_challenge() {
    let mut actor = actor();
    let done = actor.register(&create_user("alice"), &user(1, "alice"), &answer_with(b"apple"));
    assert!(matches!(done, Err(CeremonyError::ChallengeNotFound)));
}

#[test]
fn an_unresolved_user_leaves_the_challenge_pending() {
    let mut actor = actor();
    assert!(actor.challenge_register("alice".to_string()).is_ok());
    let done = actor.register_resolved(
        &create_user("alice"),
        Err(CeremonyError::UserResolutionFailed),
        &unsigned_registration(),
    );
    assert!(matches!(done, Err(CeremonyError::UserResolutionFailed)));
    assert!(actor.take_registration(&user_key("alice")).is_ok());
}

#[test]
fn a_resolved_user_registers_as_usual() {
    let mut actor = actor();
    let none = actor.register_resolved(&create_user("alice"), Ok(user(1, "alice")), &unsigned_registration());
    assert!(matches!(none, Err(CeremonyError::ChallengeNotFound)));
    assert!(actor.challenge_register("alice".to_string()).is_ok());
    let done = actor.register_resolved(&create_user("alice"), Ok(user(1, "alice")), &unsigned_registration());
    assert!(matches!(done, Err(CeremonyError::VerificationError(_))));
    assert!(matches!(
        actor.take_registration(&user_key("alice")),
        Err(CeremonyError::ChallengeNotFound)
    ));
}

#[test]
fn the_authentication_challenge_is_fresh_each_time() {
    let mut actor = actor();
    assert!(actor
        .complete_registration(user_key("alice"), 1, Ok(credential(&[1], VerificationPolicy::Discouraged)))
        .is_ok());
    let first = actor.challenge_authenticate(&"alice".to_string()).unwrap();
    let second = actor.challenge_authenticate(&"alice".to_string()).unwrap();
    assert_ne!(first.public_key.challenge, second.public_key.challenge);
    assert_eq!(first.public_key.rp_id, "lists.example.org");
}
