//! Shared value types and the pluggable-diagnostic trait.

use vstd::prelude::*;

verus! {

/// A named value as a storage collaborator would receive it.
pub struct TableValue<T>(pub String, pub T);

/// The name of a table.
pub struct TableName(pub String);

/// A diagnostic carrier: an error that can be created from a message and
/// extended by appending additional context.
pub trait DBError: Sized {
    /// Creates an error from a first message.
    fn cause(msg: &str) -> Self;

    /// Appends additional context to an existing error.
    fn and_cause(self, msg: &str) -> Self;
}

} // verus!
