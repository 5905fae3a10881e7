//! Error taxonomy of the resolution engine.

use vstd::prelude::*;

verus! {

/// What can go wrong across the engine. A lookup miss is not an error:
/// misses are data, carried in the results themselves.
#[derive(Clone, Copy, Debug, PartialEq, Eq, Structural)]
pub enum ErrorKind {
    /// The catalog or the similarity index is unreachable: a hard
    /// failure, surfaced to the caller.
    StoreUnavailable,
    /// The embedding computation failed: degrades semantic search and
    /// mirror updates only, and never aborts a committed catalog write.
    EmbeddingFailure,
    /// The input was rejected before any store access.
    ValidationError,
}

impl ErrorKind {
    /// A short stable name for the error, for logs and transports.
    pub fn name(&self) -> (r: &'static str)
        ensures
            *self is StoreUnavailable ==> r@ == "store_unavailable"@,
            *self is EmbeddingFailure ==> r@ == "embedding_failure"@,
            *self is ValidationError ==> r@ == "validation_error"@,
    {
        match self {
            ErrorKind::StoreUnavailable => "store_unavailable",
            ErrorKind::EmbeddingFailure => "embedding_failure",
            ErrorKind::ValidationError => "validation_error",
        }
    }
}

} // verus!
