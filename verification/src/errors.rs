//! The error taxonomy shared across lifecycle operations.

use vstd::prelude::*;
use crate::valid_app_name;
use crate::is_valid_app_name;

verus! {

/// A failure of a lifecycle operation, as surfaced to callers.
#[derive(Clone, PartialEq, Eq, Debug)]
pub enum BinaryDropError {
    AppNotFound(String),
    AppAlreadyExists(String),
    InvalidAppName(String),
    BinaryNotFound(String),
    ProcessError(String),
    DatabaseError(String),
    ConfigError(String),
}

/// Accept or reject a candidate app name: non-empty, at most 64
/// characters, only `[a-z0-9_-]`.
pub fn validate_app_name(name: &str) -> (r: Result<(), BinaryDropError>)
    ensures
        r is Ok <==> valid_app_name(name@),
        r matches Err(e) ==> e is InvalidAppName,
{
    if is_valid_app_name(name) {
        Ok(())
    } else {
        Err(BinaryDropError::InvalidAppName(String::from_str(name)))
    }
}

} // verus!
