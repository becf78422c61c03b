//! The library's error type.

use vstd::prelude::*;

verus! {

/// Errors of the aggregator.
#[derive(Debug, Clone, PartialEq, Eq)]
pub enum AppError {
    /// An internal failure, with its message.
    InternalError(String),
    /// A message could not be encoded or decoded, with the decoder's message.
    SerializationError(String),
}

/// A result whose error is an `AppError`.
pub type AppResult<T> = Result<T, AppError>;

} // verus!
