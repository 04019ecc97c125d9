//! What to make of one attempt at a read or write on a descriptor that does
//! not block.
//!
//! An attempt that would have blocked, or that a signal cut short before it
//! moved anything, is no failure: the operation is made again, and the
//! session never hears of it. Every other result is handed on.

use vstd::prelude::*;

verus! {

/// How one attempt at a read or write went.
#[derive(Debug, Clone, Copy, PartialEq, Eq, Structural)]
pub enum Attempt {
    /// The call returned a count of bytes.
    Done,
    /// The descriptor was not ready after all; the call would have blocked.
    WouldBlock,
    /// A signal interrupted the call before it moved anything.
    Interrupted,
    /// The call failed for another reason.
    Failed,
}

/// What follows an attempt.
#[derive(Debug, Clone, Copy, PartialEq, Eq, Structural)]
pub enum AfterAttempt {
    /// Hand the result on, be it a count or an error.
    Return,
    /// Wait until the descriptor is ready and make the call again.
    Retry,
}

/// Whether an attempt that went this way is made again.
pub open spec fn is_retried(attempt: Attempt) -> bool {
    attempt == Attempt::WouldBlock || attempt == Attempt::Interrupted
}

/// What follows an attempt that went this way.
pub fn after_attempt(attempt: Attempt) -> (then: AfterAttempt)
    ensures
        then == if is_retried(attempt) {
            AfterAttempt::Retry
        } else {
            AfterAttempt::Return
        },
{
    match attempt {
        Attempt::WouldBlock | Attempt::Interrupted => AfterAttempt::Retry,
        Attempt::Done | Attempt::Failed => AfterAttempt::Return,
    }
}

} // verus!
