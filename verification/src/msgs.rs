//! The messages a client sends to the server.

use vstd::prelude::*;

verus! {

/// Size of a terminal window, in character cells.
#[derive(Debug, Clone, Copy, PartialEq, Eq, Structural)]
pub struct TermDimensions {
    pub rows: u16,
    pub columns: u16,
}

/// A message from client to server. Traffic in the other direction is raw
/// shell output and has no message type.
#[derive(Debug, Clone, Copy, PartialEq, Eq)]
pub enum ServerMsg<'a> {
    /// Bytes for the shell's input.
    Data(&'a [u8]),
    /// The client's terminal has this size now.
    SetDimensions(TermDimensions),
}

/// What a [`ServerMsg`] says, with the borrowed bytes as a sequence.
pub enum Msg {
    Data(Seq<u8>),
    SetDimensions(TermDimensions),
}

impl Msg {
    /// Whether the message can be written out: the count of its bytes has
    /// to fit the 64 bits that the wire layout gives it. Every message that
    /// a program holds does.
    pub open spec fn fits(self) -> bool {
        self matches Msg::Data(bytes) ==> bytes.len() <= u64::MAX
    }
}

impl<'a> View for ServerMsg<'a> {
    type V = Msg;

    open spec fn view(&self) -> Msg {
        match *self {
            ServerMsg::Data(bytes) => Msg::Data(bytes@),
            ServerMsg::SetDimensions(dim) => Msg::SetDimensions(dim),
        }
    }
}

} // verus!
