//! Resolving the user of a registration through the identity directory.

use vstd::prelude::*;
use crate::models::{CreateUser, User};
use crate::webauthn::backend::CeremonyError;

verus! {

/// What to do once the directory has been asked for a user.
#[derive(Debug)]
pub enum Lookup {
    /// The user is on file.
    Resolved(User),
    /// The user is not on file and is to be created.
    Create(CreateUser),
}

/// The step after the lookup: a user that was found is resolved, one that
/// was not is to be created from `user`.
pub fn after_lookup(user: CreateUser, found: Option<User>) -> (step: Lookup)
    ensures
        step == (match found {
            Some(existing) => Lookup::Resolved(existing),
            None => Lookup::Create(user),
        }),
{
    match found {
        Some(existing) => Lookup::Resolved(existing),
        None => Lookup::Create(user),
    }
}

/// The user the directory came up with; where it came up with none, the
/// ceremony ends with `UserResolutionFailed`.
pub fn on_file(found: Option<User>) -> (resolved: Result<User, CeremonyError>)
    ensures
        match found {
            Some(user) => resolved == Ok::<User, CeremonyError>(user),
            None => resolved matches Err(e) && e is UserResolutionFailed,
        },
{
    match found {
        Some(user) => Ok(user),
        None => Err(CeremonyError::UserResolutionFailed),
    }
}

/// The step after the creation: the new user is resolved; where creation
/// failed as well, the registration ends with `UserResolutionFailed`.
pub fn after_creation(created: Option<User>) -> (resolved: Result<User, CeremonyError>)
    ensures
        match created {
            Some(user) => resolved == Ok::<User, CeremonyError>(user),
            None => resolved matches Err(e) && e is UserResolutionFailed,
        },
{
    on_file(created)
}

} // verus!
