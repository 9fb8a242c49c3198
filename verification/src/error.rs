//! The uniform failure channel shared by every constructor callback.
use vstd::prelude::*;

verus! {

/// An error reported by a user-supplied constructor or hook, or by the
/// engine itself when a creation call cannot finish.  It carries a plain
/// message and is propagated verbatim to the caller of the creation entry
/// point that was running when it arose.
#[derive(Debug)]
pub struct Error {
    /// Human-readable description of the failure.
    pub message: String,
}

impl Error {
    /// Wraps a message into an `Error`.
    pub fn new(message: String) -> (r: Error)
        ensures
            r.message == message,
    {
        Error { message }
    }
}

} // verus!
