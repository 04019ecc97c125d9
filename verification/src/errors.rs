//! Why a server session failed.

use vstd::prelude::*;

verus! {

/// The direction in which a server session stopped forwarding.
#[derive(Debug, Clone, Copy, PartialEq, Eq, Structural)]
pub enum HandleClientError {
    /// Input from the client did not reach the pseudo-terminal.
    ClientToPtyFailed,
    /// Output of the pseudo-terminal did not reach the client.
    PtyToClientFailed,
}

impl HandleClientError {
    /// The sentence that describes the error to an operator.
    pub fn message(&self) -> (text: &'static str)
        ensures
            text@ == match *self {
                HandleClientError::ClientToPtyFailed => "Failed to forward client data to PTY"@,
                HandleClientError::PtyToClientFailed => "Failed to forward PTY data to client"@,
            },
    {
        match self {
            HandleClientError::ClientToPtyFailed => "Failed to forward client data to PTY",
            HandleClientError::PtyToClientFailed => "Failed to forward PTY data to client",
        }
    }
}

} // verus!
