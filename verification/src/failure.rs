//! What can go wrong when a view loads or refreshes its data.

use vstd::prelude::*;

verus! {

/// The kinds of failure.
#[derive(Debug, Clone, Copy, PartialEq, Eq, Structural)]
pub enum FailureKind {
    /// The store could not be reached, or the call failed.
    Transport,
    /// What was asked for is not there: the end of a stream, a record that
    /// was never written. This is an empty result, not an error to show.
    ResourceNotFound,
    /// A payload had an unexpected shape.
    Malformed,
}

/// A failure of a load or a refresh, with the message to show.
#[derive(Debug, Clone)]
pub struct Failure {
    pub kind: FailureKind,
    pub message: String,
}

/// One step of reading a stream page by page: the end of the stream, told
/// as a missing resource, is the end of the pages and no failure; any other
/// failure stays one.
pub fn read_stream_next<T>(step: Result<Option<T>, Failure>) -> (next: Result<Option<T>, Failure>)
    ensures
        match step {
            Ok(item) => next == Ok::<Option<T>, Failure>(item),
            Err(e) => if e.kind == FailureKind::ResourceNotFound {
                next == Ok::<Option<T>, Failure>(None)
            } else {
                next == Err::<Option<T>, Failure>(e)
            },
        },
{
    match step {
        Err(e) => {
            if let FailureKind::ResourceNotFound = e.kind {
                return Ok(None);
            }
            Err(e)
        },
        Ok(v) => Ok(v),
    }
}

} // verus!
