use webauthn_core::errors::{
    cause_of, describe, handle_rejection, ApiError, DatabaseFailure, ErrorType, Rejection,
};
use webauthn_core::webauthn::backend::CeremonyError;
use webauthn_rs::error::WebauthnError;

#[test]
fn a_new_error_keeps_its_words_and_kind() {
    let error = ApiError::new("List not found", ErrorType::NotFound);
    assert_eq!(error.message, "List not found");
    assert_eq!(error.err_type, ErrorType::NotFound);
    assert_eq!(error.to_string(), "List not found");
}

#[test]
fn each_kind_has_its_status() {
    assert_eq!(ApiError::new("", ErrorType::NotFound).to_http_status(), 404);
    assert_eq!(ApiError::new("", ErrorType::Internal).to_http_status(), 500);
    assert_eq!(ApiError::new("", ErrorType::BadRequest).to_http_status(), 400);
    assert_eq!(ApiError::new("", ErrorType::Webauthn).to_http_status(), 401);
}

#[test]
fn a_description_follows_its_context() {
    assert_eq!(describe("while creating list", "boom"), "while creating list: boom");
    assert_eq!(describe("", ""), ": ");
}

#[test]
fn a_missing_row_is_not_found() {
    let error = ApiError::from_diesel_err(diesel::result::Error::NotFound, "while loading single list with items");
    assert_eq!(error.err_type, ErrorType::NotFound);
    assert_eq!(error.message, "while loading single list with items: NotFound");
}

#[test]
fn a_taken_unique_value_is_a_bad_request() {
    let error = ApiError::from_diesel_err(
        diesel::result::Error::DatabaseError(
            diesel::result::DatabaseErrorKind::UniqueViolation,
            Box::new("duplicate key value".to_string()),
        ),
        "while creating list",
    );
    assert_eq!(error.err_type, ErrorType::BadRequest);
    assert_eq!(error.message, "while creating list: duplicate key value");
}

#[test]
fn other_database_failures_are_internal() {
    let violation = ApiError::from_diesel_err(
        diesel::result::Error::DatabaseError(
            diesel::result::DatabaseErrorKind::ForeignKeyViolation,
            Box::new("no such list".to_string()),
        ),
        "while creating item",
    );
    assert_eq!(violation.err_type, ErrorType::Internal);
    assert_eq!(violation.message, "while creating item: no such list");
    let rollback = ApiError::from_diesel_err(diesel::result::Error::RollbackTransaction, "while updating item");
    assert_eq!(rollback.err_type, ErrorType::Internal);
    assert_eq!(rollback.message, "while updating item: The current transaction was aborted");
}

#[test]
fn a_database_error_is_reported_by_its_kind() {
    let taken = ApiError::database_error(DatabaseFailure::UniqueViolation, "taken", "while creating list");
    assert_eq!(taken.err_type, ErrorType::BadRequest);
    assert_eq!(taken.message, "while creating list: taken");
    let missing = ApiError::database_error(DatabaseFailure::NotFound, "NotFound", "ctx");
    assert_eq!(missing.err_type, ErrorType::NotFound);
    assert_eq!(missing.to_http_status(), 404);
    let others = [
        DatabaseFailure::InvalidCString,
        DatabaseFailure::ForeignKeyViolation,
        DatabaseFailure::UnableToSendCommand,
        DatabaseFailure::SerializationFailure,
        DatabaseFailure::DatabaseError,
        DatabaseFailure::QueryBuilderError,
        DatabaseFailure::DeserializationError,
        DatabaseFailure::SerializationError,
        DatabaseFailure::RollbackTransaction,
        DatabaseFailure::AlreadyInTransaction,
        DatabaseFailure::Other,
    ];
    for failure in others {
        let other = ApiError::database_error(failure, "x", "ctx");
        assert_eq!(other.err_type, ErrorType::Internal);
        assert_eq!(other.message, "ctx: x");
        assert_eq!(other.to_http_status(), 500);
    }
}

#[test]
fn failures_that_are_neither_taken_values_nor_missing_rows_are_internal() {
    let failures = vec![
        diesel::result::Error::DatabaseError(
            diesel::result::DatabaseErrorKind::UnableToSendCommand,
            Box::new("not sent".to_string()),
        ),
        diesel::result::Error::DatabaseError(
            diesel::result::DatabaseErrorKind::SerializationFailure,
            Box::new("not sent".to_string()),
        ),
        diesel::result::Error::QueryBuilderError("not sent".into()),
        diesel::result::Error::DeserializationError("not sent".into()),
        diesel::result::Error::SerializationError("not sent".into()),
    ];
    for failure in failures {
        let error = ApiError::from_diesel_err(failure, "while listing lists");
        assert_eq!(error.err_type, ErrorType::Internal);
        assert_eq!(error.message, "while listing lists: not sent");
    }
    let open = ApiError::from_diesel_err(diesel::result::Error::AlreadyInTransaction, "while listing lists");
    assert_eq!(open.err_type, ErrorType::Internal);
}

#[test]
fn a_missing_route_counts_before_everything_else() {
    let cause = cause_of(true, Some(ApiError::new("x", ErrorType::Internal)), true, true);
    assert!(matches!(cause, Rejection::NotFound));
    assert!(matches!(cause_of(true, None, false, false), Rejection::NotFound));
}

#[test]
fn a_failed_handler_counts_before_body_and_method() {
    match cause_of(false, Some(ApiError::new("List not found", ErrorType::NotFound)), true, true) {
        Rejection::Api(error) => {
            assert_eq!(error.message, "List not found");
            assert_eq!(error.err_type, ErrorType::NotFound);
        }
        _ => panic!("the handler's failure is the cause"),
    }
}

#[test]
fn an_unreadable_body_counts_before_the_method() {
    assert!(matches!(cause_of(false, None, true, true), Rejection::InvalidBody));
    assert!(matches!(cause_of(false, None, true, false), Rejection::InvalidBody));
    assert!(matches!(cause_of(false, None, false, true), Rejection::MethodNotAllowed));
}

#[test]
fn a_rejection_without_a_known_cause_is_unhandled() {
    assert!(matches!(cause_of(false, None, false, false), Rejection::Unhandled));
    let reply = handle_rejection(cause_of(false, None, false, false));
    assert_eq!((reply.code, reply.message.as_str()), (500, "Unhandled rejection"));
}

#[test]
fn a_refusal_of_the_verifier_is_unauthorized() {
    let error = ApiError::from_webauthn_error(WebauthnError::ChallengeNotFound, "register");
    assert_eq!(error.err_type, ErrorType::Webauthn);
    assert_eq!(error.message, "register: There are no challenges associated to the UserId");
    assert_eq!(error.to_http_status(), 401);
}

#[test]
fn a_refused_ceremony_step_is_unauthorized() {
    let cases = vec![
        (CeremonyError::ChallengeNotFound, "register: no challenge is pending for the user"),
        (CeremonyError::CredentialRetrievalError, "register: the user has no credentials"),
        (CeremonyError::DuplicateCredential, "register: the credential already exists"),
        (CeremonyError::UserResolutionFailed, "register: the user could not be resolved"),
        (CeremonyError::AttestationNotSupported, "register: the attestation format is not supported"),
        (
            CeremonyError::VerificationError(WebauthnError::UserNotPresent),
            "register: The user present bit is not set, and required",
        ),
        (
            CeremonyError::Internal(WebauthnError::InvalidUsername),
            "register: Invalid UserID supplied for registration",
        ),
    ];
    for (err, expected) in cases {
        let error = ApiError::from_ceremony_error(err, "register");
        assert_eq!(error.err_type, ErrorType::Webauthn);
        assert_eq!(error.message, expected);
    }
}

#[test]
fn each_rejection_has_its_reply() {
    let reply = handle_rejection(Rejection::NotFound);
    assert_eq!((reply.code, reply.message.as_str()), (404, "Not Found"));
    let reply = handle_rejection(Rejection::InvalidBody);
    assert_eq!((reply.code, reply.message.as_str()), (400, "Invalid Body"));
    let reply = handle_rejection(Rejection::MethodNotAllowed);
    assert_eq!((reply.code, reply.message.as_str()), (405, "Method Not Allowed"));
    let reply = handle_rejection(Rejection::Unhandled);
    assert_eq!((reply.code, reply.message.as_str()), (500, "Unhandled rejection"));
}

#[test]
fn a_failed_handler_is_answered_with_its_own_words() {
    let reply = handle_rejection(Rejection::Api(ApiError::new("Item not found", ErrorType::NotFound)));
    assert_eq!((reply.code, reply.message.as_str()), (404, "Item not found"));
    let reply = handle_rejection(Rejection::Api(ApiError::new("register: nope", ErrorType::Webauthn)));
    assert_eq!((reply.code, reply.message.as_str()), (401, "register: nope"));
    let reply = handle_rejection(Rejection::Api(ApiError::new("taken", ErrorType::BadRequest)));
    assert_eq!((reply.code, reply.message.as_str()), (400, "taken"));
    let reply = handle_rejection(Rejection::Api(ApiError::new("oops", ErrorType::Internal)));
    assert_eq!((reply.code, reply.message.as_str()), (500, "oops"));
}
