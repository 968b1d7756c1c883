//! What the service makes of the database's answers.

use vstd::prelude::*;
use crate::errors::{ApiError, ErrorType};
use crate::models::{Item, List};

verus! {

/// The outcome of an update or a delete that touched `count` rows: the
/// count, or a not-found failure with the words `missing` where it touched
/// none.
pub fn affected(count: usize, missing: &str) -> (outcome: Result<usize, ApiError>)
    ensures
        match outcome {
            Ok(n) => n == count && count > 0,
            Err(e) => count == 0 && e.err_type == ErrorType::NotFound && e.message@ == missing@,
        },
{
    if count == 0 {
        Err(ApiError::new(missing, ErrorType::NotFound))
    } else {
        Ok(count)
    }
}

/// A list with its items; a list whose items could not be loaded is shown
/// with none.
pub fn with_items(list: List, items: Option<Vec<Item>>) -> (found: (List, Vec<Item>))
    ensures
        found.0 == list,
        found.1@ == (match items {
            Some(loaded) => loaded@,
            None => Seq::<Item>::empty(),
        }),
{
    match items {
        Some(loaded) => (list, loaded),
        None => (list, Vec::new()),
    }
}

} // verus!
