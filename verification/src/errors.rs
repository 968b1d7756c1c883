//! The failures the service reports, and the status each one is sent with.

use vstd::prelude::*;
use vstd::string::*;
use diesel::result::{DatabaseErrorKind, Error};
use webauthn_rs::error::WebauthnError;
use crate::webauthn::backend::CeremonyError;

verus! {

/// The kinds of failure.
#[derive(Debug, Clone, Copy, PartialEq, Eq, Structural)]
pub enum ErrorType {
    NotFound,
    Internal,
    BadRequest,
    Webauthn,
}

/// A failure with the words that describe it.
#[derive(Debug)]
pub struct ApiError {
    pub err_type: ErrorType,
    pub message: String,
}

/// What goes to the client when a request fails.
#[derive(Debug)]
pub struct ErrorMessage {
    pub code: u16,
    pub message: String,
}

/// Why a request was turned away.
#[derive(Debug)]
pub enum Rejection {
    /// No route matched.
    NotFound,
    /// A handler failed.
    Api(ApiError),
    /// The body could not be read as what the route expects.
    InvalidBody,
    /// The route exists, but not for this method.
    MethodNotAllowed,
    /// None of the above.
    Unhandled,
}

/// What went wrong in the database: the failures that diesel tells apart,
/// a database error by its kind.
#[derive(Debug, Clone, Copy, PartialEq, Eq, Structural)]
pub enum DatabaseFailure {
    /// The query held a nul byte.
    InvalidCString,
    /// A value that must be unique is already on file.
    UniqueViolation,
    /// A reference points at no row.
    ForeignKeyViolation,
    /// The command did not reach the database.
    UnableToSendCommand,
    /// A serializable transaction could not be committed.
    SerializationFailure,
    /// A database error of another kind.
    DatabaseError,
    /// The query found no row.
    NotFound,
    /// The query could not be built.
    QueryBuilderError,
    /// What came from the database could not be read.
    DeserializationError,
    /// What goes to the database could not be written.
    SerializationError,
    /// The transaction was rolled back.
    RollbackTransaction,
    /// A transaction was already open.
    AlreadyInTransaction,
    /// A failure that diesel does not name.
    Other,
}

/// The failure as diesel reports it.
#[verifier::external_type_specification]
#[verifier::external_body]
pub struct ExDieselError(Error);

/// Which failure a `diesel::result::Error` is: its variant, and within a
/// database error the variant of its `DatabaseErrorKind`. `Other` stands for
/// the one variant that diesel keeps in reserve.
pub uninterp spec fn failure_of(err: Error) -> DatabaseFailure;

/// Tells the variants of `diesel::result::Error` apart, and those of
/// `DatabaseErrorKind` within a database error, one for one; the result is
/// `failure_of(err)`.
#[verifier::external_body]
fn database_failure(err: &Error) -> (failure: DatabaseFailure)
    ensures
        failure == failure_of(*err),
{
    match err {
        Error::InvalidCString(_) => DatabaseFailure::InvalidCString,
        Error::DatabaseError(DatabaseErrorKind::UniqueViolation, _) => DatabaseFailure::UniqueViolation,
        Error::DatabaseError(DatabaseErrorKind::ForeignKeyViolation, _) => DatabaseFailure::ForeignKeyViolation,
        Error::DatabaseError(DatabaseErrorKind::UnableToSendCommand, _) => DatabaseFailure::UnableToSendCommand,
        Error::DatabaseError(DatabaseErrorKind::SerializationFailure, _) => DatabaseFailure::SerializationFailure,
        Error::DatabaseError(_, _) => DatabaseFailure::DatabaseError,
        Error::NotFound => DatabaseFailure::NotFound,
        Error::QueryBuilderError(_) => DatabaseFailure::QueryBuilderError,
        Error::DeserializationError(_) => DatabaseFailure::DeserializationError,
        Error::SerializationError(_) => DatabaseFailure::SerializationError,
        Error::RollbackTransaction => DatabaseFailure::RollbackTransaction,
        Error::AlreadyInTransaction => DatabaseFailure::AlreadyInTransaction,
        _ => DatabaseFailure::Other,
    }
}

/// The words for a refused ceremony step that the verifier did not word
/// itself.
pub open spec fn words_of(err: CeremonyError) -> Seq<char> {
    match err {
        CeremonyError::ChallengeNotFound => "no challenge is pending for the user"@,
        CeremonyError::CredentialRetrievalError => "the user has no credentials"@,
        CeremonyError::DuplicateCredential => "the credential already exists"@,
        CeremonyError::UserResolutionFailed => "the user could not be resolved"@,
        CeremonyError::AttestationNotSupported => "the attestation format is not supported"@,
        _ => Seq::empty(),
    }
}

/// Whether `message` is what the verifier has to say of `reason`, in
/// `context`.
pub open spec fn in_words_of(reason: WebauthnError, context: Seq<char>, message: Seq<char>) -> bool {
    exists|detail: String| #[trigger]
        to_string_from_display_ensures::<WebauthnError>(&reason, detail) && message == in_context(
            context,
            detail@,
        )
}

/// The words for a database failure that diesel has no words for.
pub open spec fn unnamed_failure() -> Seq<char> {
    "unknown database failure"@
}

/// The kind of failure that a database failure is reported as: a bad
/// request where a unique value is taken, not found where no row came back,
/// internal otherwise.
pub open spec fn kind_of(failure: DatabaseFailure) -> ErrorType {
    match failure {
        DatabaseFailure::UniqueViolation => ErrorType::BadRequest,
        DatabaseFailure::NotFound => ErrorType::NotFound,
        _ => ErrorType::Internal,
    }
}

/// Why a request was turned away, from what its rejection holds. A missing
/// route counts first, then a failed handler, then an unreadable body, then
/// a refused method.
pub fn cause_of(not_found: bool, failure: Option<ApiError>, invalid_body: bool, refused_method: bool) -> (cause:
    Rejection)
    ensures
        cause == (if not_found {
            Rejection::NotFound
        } else if let Some(error) = failure {
            Rejection::Api(error)
        } else if invalid_body {
            Rejection::InvalidBody
        } else if refused_method {
            Rejection::MethodNotAllowed
        } else {
            Rejection::Unhandled
        }),
{
    if not_found {
        return Rejection::NotFound;
    }
    match failure {
        Some(error) => Rejection::Api(error),
        None => {
            if invalid_body {
                Rejection::InvalidBody
            } else if refused_method {
                Rejection::MethodNotAllowed
            } else {
                Rejection::Unhandled
            }
        },
    }
}

/// What the client is told about a rejection.
pub open spec fn reply_to(cause: Rejection) -> (u16, Seq<char>) {
    match cause {
        Rejection::NotFound => (404, "Not Found"@),
        Rejection::Api(error) => (status_of(error.err_type), error.message@),
        Rejection::InvalidBody => (400, "Invalid Body"@),
        Rejection::MethodNotAllowed => (405, "Method Not Allowed"@),
        Rejection::Unhandled => (500, "Unhandled rejection"@),
    }
}

/// The message that answers a rejected request.
pub fn handle_rejection(cause: Rejection) -> (reply: ErrorMessage)
    ensures
        (reply.code, reply.message@) == reply_to(cause),
{
    match cause {
        Rejection::NotFound => ErrorMessage { code: 404, message: String::from_str("Not Found") },
        Rejection::Api(error) => ErrorMessage { code: error.to_http_status(), message: error.message },
        Rejection::InvalidBody => ErrorMessage { code: 400, message: String::from_str("Invalid Body") },
        Rejection::MethodNotAllowed => ErrorMessage {
            code: 405,
            message: String::from_str("Method Not Allowed"),
        },
        Rejection::Unhandled => ErrorMessage { code: 500, message: String::from_str("Unhandled rejection") },
    }
}

/// The status code that a failure of the given kind is sent with.
pub open spec fn status_of(err_type: ErrorType) -> u16 {
    match err_type {
        ErrorType::NotFound => 404,
        ErrorType::Internal => 500,
        ErrorType::BadRequest => 400,
        ErrorType::Webauthn => 401,
    }
}

/// A description in its context: the context, a colon and a space, the
/// description.
pub open spec fn in_context(context: Seq<char>, detail: Seq<char>) -> Seq<char> {
    context + seq![':', ' '] + detail
}

/// `detail` in its context, as one string.
pub fn describe(context: &str, detail: &str) -> (message: String)
    ensures
        message@ == in_context(context@, detail@),
{
    let mut message = String::from_str(context);
    message.append(": ");
    message.append(detail);
    proof {
        reveal_strlit(": ");
        assert(": "@ =~= seq![':', ' ']);
    }
    message
}

impl ApiError {
    pub fn new(message: &str, err_type: ErrorType) -> (error: ApiError)
        ensures
            error.message@ == message@,
            error.err_type == err_type,
    {
        ApiError { message: String::from_str(message), err_type }
    }

    /// The status code the failure is sent with.
    pub fn to_http_status(&self) -> (code: u16)
        ensures
            code == status_of(self.err_type),
    {
        match self.err_type {
            ErrorType::NotFound => 404,
            ErrorType::Internal => 500,
            ErrorType::BadRequest => 400,
            ErrorType::Webauthn => 401,
        }
    }

    /// The words of the failure.
    pub fn to_string(&self) -> (words: String)
        ensures
            words == self.message,
    {
        self.message.clone()
    }

    /// A database failure of the given kind, reported in `context` with the
    /// words `detail`.
    pub fn database_error(failure: DatabaseFailure, detail: &str, context: &str) -> (error: ApiError)
        ensures
            error.err_type == kind_of(failure),
            error.message@ == in_context(context@, detail@),
    {
        let err_type = match failure {
            DatabaseFailure::UniqueViolation => ErrorType::BadRequest,
            DatabaseFailure::NotFound => ErrorType::NotFound,
            _ => ErrorType::Internal,
        };
        ApiError { message: describe(context, detail), err_type }
    }

    /// A failure of the database, reported in `context`: a bad request
    /// where a unique value is taken, not found where no row came back,
    /// internal otherwise. The words are those diesel has for the failure;
    /// for the variant it keeps in reserve it has none, and the words are
    /// `unnamed_failure`.
    pub fn from_diesel_err(err: Error, context: &str) -> (error: ApiError)
        ensures
            error.err_type == kind_of(failure_of(err)),
            if failure_of(err) == DatabaseFailure::Other {
                error.message@ == in_context(context@, unnamed_failure())
            } else {
                exists|detail: String| #[trigger]
                    to_string_from_display_ensures::<Error>(&err, detail) && error.message@ == in_context(
                        context@,
                        detail@,
                    )
            },
    {
        let failure = database_failure(&err);
        if failure == DatabaseFailure::Other {
            return ApiError::database_error(failure, "unknown database failure", context);
        }
        let detail = err.to_string();
        ApiError::database_error(failure, detail.as_str(), context)
    }

    /// A refused ceremony step, reported in `context`: in the verifier's
    /// words where the verifier refused, in the words of `words_of`
    /// otherwise.
    pub fn from_ceremony_error(err: CeremonyError, context: &str) -> (error: ApiError)
        ensures
            error.err_type == ErrorType::Webauthn,
            match err {
                CeremonyError::VerificationError(reason) | CeremonyError::Internal(reason) => in_words_of(
                    reason,
                    context@,
                    error.message@,
                ),
                _ => error.message@ == in_context(context@, words_of(err)),
            },
    {
        let words = match err {
            CeremonyError::VerificationError(reason) => {
                return ApiError::from_webauthn_error(reason, context);
            },
            CeremonyError::Internal(reason) => {
                return ApiError::from_webauthn_error(reason, context);
            },
            CeremonyError::ChallengeNotFound => "no challenge is pending for the user",
            CeremonyError::CredentialRetrievalError => "the user has no credentials",
            CeremonyError::DuplicateCredential => "the credential already exists",
            CeremonyError::UserResolutionFailed => "the user could not be resolved",
            CeremonyError::AttestationNotSupported => "the attestation format is not supported",
        };
        ApiError { message: describe(context, words), err_type: ErrorType::Webauthn }
    }

    /// A refusal of the verifier, reported in `context` with the words the
    /// verifier has for it.
    pub fn from_webauthn_error(err: WebauthnError, context: &str) -> (error: ApiError)
        ensures
            error.err_type == ErrorType::Webauthn,
            in_words_of(err, context@, error.message@),
    {
        let detail = err.to_string();
        let message = describe(context, detail.as_str());
        ApiError { message, err_type: ErrorType::Webauthn }
    }
}

} // verus!
