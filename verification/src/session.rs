//! What client and server sessions have in common.

use crate::errors::HandleClientError;
use vstd::prelude::*;

verus! {

/// Where a session stands in its life.
#[derive(Debug, Clone, Copy, PartialEq, Eq, Structural)]
pub enum SessionState {
    /// The channel is there; forwarding has not begun.
    Connected,
    /// Forwarding in both directions.
    Running,
    /// Over. A closed session stays closed.
    Closed,
}

/// How a session came to its end.
#[derive(Debug, Clone, Copy, PartialEq, Eq, Structural)]
pub enum Outcome {
    /// One side had nothing more to say: a read returned no bytes, or the
    /// shell exited.
    Ended,
    /// An operation failed. Where the failure stopped one direction of a
    /// server session's forwarding, that direction is named.
    Failed(Option<HandleClientError>),
}

} // verus!
