//! Errors reported by the library.

use vstd::prelude::*;

verus! {

/// What can go wrong in the game; the text of a variant describes its cause.
#[derive(Clone, Debug, PartialEq, Eq)]
pub enum GameError {
    /// An entity or a request names an enemy kind that the table lacks.
    UnknownEntityKind(u32),
    NotFoundError(String),
    InvalidState(String),
    Timeout(String),
    AssetLoadFailure(String),
    UnsupportedOperation(String),
    Io(String),
    ParseInt(String),
    Unexpected(String),
    IllegalArgument(String),
    MQError(String),
    Misc(String),
}

/// Result of an operation that yields nothing but may fail.
pub type Nresult = Result<(), GameError>;

} // verus!
