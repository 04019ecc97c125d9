//! The server's side of a session: what to do on each thing that happens.
//!
//! A server session belongs to one accepted connection. It owns the master
//! side of a pseudo-terminal and the shell attached to the other side.
//! Frames from the channel carry messages: input goes to the pseudo-terminal,
//! a size change becomes a resize. What the pseudo-terminal reads goes to the
//! channel as it is. The caller does the reading, writing and waiting and
//! reports each result as an event; the session answers with the next thing
//! to do.

use crate::errors::HandleClientError;
use crate::msgs::{Msg, ServerMsg, TermDimensions};
use crate::session::{Outcome, SessionState};
use crate::stream::{accepted, shell_input};
use crate::wire::{decoding, deserialize};
use vstd::prelude::*;

verus! {

/// A step of a server session that can fail.
#[derive(Debug, Clone, Copy, PartialEq, Eq, Structural)]
pub enum Operation {
    /// Opening the pseudo-terminal and starting the shell.
    Spawn,
    /// Reading from the channel.
    ReadChannel,
    /// Writing a message's bytes to the pseudo-terminal.
    WritePty,
    /// Setting the pseudo-terminal's window size.
    Resize,
    /// Reading from the pseudo-terminal.
    ReadPty,
    /// Writing the pseudo-terminal's output to the channel.
    WriteChannel,
}

/// Something that happened to a server session.
#[derive(Debug, Clone, Copy, PartialEq, Eq)]
pub enum ServerEvent<'a> {
    /// The shell runs on a fresh pseudo-terminal.
    Started,
    /// A read from the channel put this many more bytes into the frame
    /// buffer.
    ChannelRead(usize),
    /// A whole frame came off the frame buffer; this is its payload.
    Frame(&'a [u8]),
    /// A read from the pseudo-terminal returned these bytes.
    PtyRead(&'a [u8]),
    /// The shell exited.
    ShellExited,
    /// This operation failed.
    Failed(Operation),
}

/// What the caller of a server session does next.
#[derive(Debug, Clone, Copy, PartialEq, Eq)]
pub enum ServerAction<'a> {
    /// Write these bytes to the pseudo-terminal.
    WritePty(&'a [u8]),
    /// Give the pseudo-terminal this window size.
    Resize(TermDimensions),
    /// Write these bytes, as they are and unframed, to the channel.
    WriteChannel(&'a [u8]),
    /// End the shell, wait for it, drop the channel and leave the loop: the
    /// session is over.
    Close(Outcome),
    /// Nothing: the event asks for no work.
    Nothing,
}

/// A [`ServerAction`] with the borrowed bytes as a sequence.
pub enum ServerActionView {
    WritePty(Seq<u8>),
    Resize(TermDimensions),
    WriteChannel(Seq<u8>),
    Close(Outcome),
    Nothing,
}

impl<'a> View for ServerAction<'a> {
    type V = ServerActionView;

    open spec fn view(&self) -> ServerActionView {
        match *self {
            ServerAction::WritePty(bytes) => ServerActionView::WritePty(bytes@),
            ServerAction::Resize(dim) => ServerActionView::Resize(dim),
            ServerAction::WriteChannel(bytes) => ServerActionView::WriteChannel(bytes@),
            ServerAction::Close(outcome) => ServerActionView::Close(outcome),
            ServerAction::Nothing => ServerActionView::Nothing,
        }
    }
}

/// The direction of forwarding that stops when `operation` fails, if it is
/// one of the two that have a name.
pub open spec fn failure_of(operation: Operation) -> Option<HandleClientError> {
    match operation {
        Operation::ReadChannel | Operation::WritePty | Operation::Resize => Some(
            HandleClientError::ClientToPtyFailed,
        ),
        Operation::WriteChannel => Some(HandleClientError::PtyToClientFailed),
        Operation::Spawn | Operation::ReadPty => None,
    }
}

/// What a message asks the server to do.
pub open spec fn request_of(msg: Msg) -> ServerActionView {
    match msg {
        Msg::Data(bytes) => ServerActionView::WritePty(bytes),
        Msg::SetDimensions(dim) => ServerActionView::Resize(dim),
    }
}

/// Whether `event` ends a running server session.
pub open spec fn ends_server(event: ServerEvent<'_>) -> bool {
    match event {
        ServerEvent::ChannelRead(n) => n == 0,
        ServerEvent::PtyRead(bytes) => bytes@.len() == 0,
        ServerEvent::ShellExited => true,
        ServerEvent::Failed(_) => true,
        ServerEvent::Started | ServerEvent::Frame(_) => false,
    }
}

/// The state that `event` takes a server session to.
///
/// A session that is connected waits for its shell. A running one goes on
/// until a read returns no bytes, the shell exits or an operation fails. A
/// payload that reads as no message ends nothing. A closed session stays
/// closed.
pub open spec fn server_next(state: SessionState, event: ServerEvent<'_>) -> SessionState {
    match state {
        SessionState::Connected => match event {
            ServerEvent::Started => SessionState::Running,
            ServerEvent::Failed(_) => SessionState::Closed,
            _ => SessionState::Connected,
        },
        SessionState::Running => if ends_server(event) {
            SessionState::Closed
        } else {
            SessionState::Running
        },
        SessionState::Closed => SessionState::Closed,
    }
}

/// What a server session in `state` asks for on `event`.
pub open spec fn server_reaction(state: SessionState, event: ServerEvent<'_>) -> ServerActionView {
    match state {
        SessionState::Connected => match event {
            ServerEvent::Failed(operation) => ServerActionView::Close(
                Outcome::Failed(failure_of(operation)),
            ),
            _ => ServerActionView::Nothing,
        },
        SessionState::Running => match event {
            ServerEvent::Frame(payload) => match decoding(payload@) {
                Some(msg) => request_of(msg),
                None => ServerActionView::Nothing,
            },
            ServerEvent::ChannelRead(n) => if n == 0 {
                ServerActionView::Close(
                    Outcome::Failed(Some(HandleClientError::ClientToPtyFailed)),
                )
            } else {
                ServerActionView::Nothing
            },
            ServerEvent::PtyRead(bytes) => if bytes@.len() == 0 {
                ServerActionView::Close(Outcome::Ended)
            } else {
                ServerActionView::WriteChannel(bytes@)
            },
            ServerEvent::ShellExited => ServerActionView::Close(Outcome::Ended),
            ServerEvent::Failed(operation) => ServerActionView::Close(
                Outcome::Failed(failure_of(operation)),
            ),
            ServerEvent::Started => ServerActionView::Nothing,
        },
        SessionState::Closed => ServerActionView::Nothing,
    }
}

/// The direction of forwarding that stops when `operation` fails.
pub fn failure(operation: Operation) -> (r: Option<HandleClientError>)
    ensures
        r == failure_of(operation),
{
    match operation {
        Operation::ReadChannel | Operation::WritePty | Operation::Resize => Some(
            HandleClientError::ClientToPtyFailed,
        ),
        Operation::WriteChannel => Some(HandleClientError::PtyToClientFailed),
        Operation::Spawn | Operation::ReadPty => None,
    }
}

/// What `msg` asks the server to do.
pub fn handle_msg<'a>(msg: ServerMsg<'a>) -> (action: ServerAction<'a>)
    ensures
        action@ == request_of(msg@),
{
    match msg {
        ServerMsg::Data(data) => ServerAction::WritePty(data),
        ServerMsg::SetDimensions(dim) => ServerAction::Resize(dim),
    }
}

/// One server session.
#[derive(Debug)]
pub struct ServerSession {
    state: SessionState,
}

impl ServerSession {
    /// Where the session stands.
    pub closed spec fn state(&self) -> SessionState {
        self.state
    }

    /// A session for a connection that was just accepted.
    pub fn new() -> (session: ServerSession)
        ensures
            session.state() == SessionState::Connected,
    {
        ServerSession { state: SessionState::Connected }
    }

    /// Where the session stands.
    pub fn current(&self) -> (state: SessionState)
        ensures
            state == self.state(),
    {
        self.state
    }

    /// Takes note of `event` and says what to do about it.
    pub fn step<'a>(&mut self, event: ServerEvent<'a>) -> (action: ServerAction<'a>)
        ensures
            final(self).state() == server_next(old(self).state(), event),
            action@ == server_reaction(old(self).state(), event),
    {
        match self.state {
            SessionState::Connected => match event {
                ServerEvent::Started => {
                    self.state = SessionState::Running;
                    ServerAction::Nothing
                },
                ServerEvent::Failed(operation) => {
                    self.state = SessionState::Closed;
                    ServerAction::Close(Outcome::Failed(failure(operation)))
                },
                _ => ServerAction::Nothing,
            },
            SessionState::Running => match event {
                ServerEvent::Frame(payload) => match deserialize(payload) {
                    Some(msg) => handle_msg(msg),
                    None => ServerAction::Nothing,
                },
                ServerEvent::ChannelRead(n) => {
                    if n == 0 {
                        self.state = SessionState::Closed;
                        ServerAction::Close(
                            Outcome::Failed(Some(HandleClientError::ClientToPtyFailed)),
                        )
                    } else {
                        ServerAction::Nothing
                    }
                },
                ServerEvent::PtyRead(bytes) => {
                    if bytes.len() == 0 {
                        self.state = SessionState::Closed;
                        ServerAction::Close(Outcome::Ended)
                    } else {
                        ServerAction::WriteChannel(bytes)
                    }
                },
                ServerEvent::ShellExited => {
                    self.state = SessionState::Closed;
                    ServerAction::Close(Outcome::Ended)
                },
                ServerEvent::Failed(operation) => {
                    self.state = SessionState::Closed;
                    ServerAction::Close(Outcome::Failed(failure(operation)))
                },
                ServerEvent::Started => ServerAction::Nothing,
            },
            SessionState::Closed => ServerAction::Nothing,
        }
    }
}

/// Where a server session stands after `events`, one after another.
pub open spec fn server_after(state: SessionState, events: Seq<ServerEvent<'_>>) -> SessionState
    decreases events.len(),
{
    if events.len() == 0 {
        state
    } else {
        server_after(server_next(state, events[0]), events.drop_first())
    }
}

/// How often a server session that goes through `events` asks to be closed.
pub open spec fn server_closes(state: SessionState, events: Seq<ServerEvent<'_>>) -> nat
    decreases events.len(),
{
    if events.len() == 0 {
        0
    } else {
        let now: nat = if server_reaction(state, events[0]) is Close {
            1
        } else {
            0
        };
        now + server_closes(server_next(state, events[0]), events.drop_first())
    }
}

/// Zero-length read termination. A read that returns no bytes ends a running
/// server session: in good order when the pseudo-terminal has no more
/// output, as a failure of the client's direction when the channel has no
/// more input.
pub proof fn lemma_server_empty_read_ends(output: &[u8])
    requires
        output@.len() == 0,
    ensures
        server_next(SessionState::Running, ServerEvent::PtyRead(output)) == SessionState::Closed,
        server_reaction(SessionState::Running, ServerEvent::PtyRead(output))
            == ServerActionView::Close(Outcome::Ended),
        server_next(SessionState::Running, ServerEvent::ChannelRead(0)) == SessionState::Closed,
        server_reaction(SessionState::Running, ServerEvent::ChannelRead(0))
            == ServerActionView::Close(
            Outcome::Failed(Some(HandleClientError::ClientToPtyFailed)),
        ),
{
}

/// A payload that reads as no message changes nothing: the session runs on
/// and asks for no work.
pub proof fn lemma_server_drops_bad_payload(payload: &[u8])
    requires
        decoding(payload@) is None,
    ensures
        server_next(SessionState::Running, ServerEvent::Frame(payload)) == SessionState::Running,
        server_reaction(SessionState::Running, ServerEvent::Frame(payload))
            == ServerActionView::Nothing,
{
}

/// Once closed, closed after any further events.
pub proof fn lemma_server_stays_closed(events: Seq<ServerEvent<'_>>)
    ensures
        server_after(SessionState::Closed, events) == SessionState::Closed,
        server_closes(SessionState::Closed, events) == 0,
    decreases events.len(),
{
    if events.len() > 0 {
        lemma_server_stays_closed(events.drop_first());
    }
}

/// Going through one run of events and then another is going through both.
pub proof fn lemma_server_after_both(
    state: SessionState,
    first: Seq<ServerEvent<'_>>,
    second: Seq<ServerEvent<'_>>,
)
    ensures
        server_after(state, first + second) == server_after(server_after(state, first), second),
    decreases first.len(),
{
    if first.len() == 0 {
        assert(first + second =~= second);
    } else {
        assert((first + second).drop_first() =~= first.drop_first() + second);
        lemma_server_after_both(server_next(state, first[0]), first.drop_first(), second);
    }
}

/// Nothing after the end. Once a server session is closed, at whatever point
/// of a run of events, it stays closed and asks for no work on any later
/// event: nothing is read or written after the end.
pub proof fn lemma_server_silent_after_close(
    state: SessionState,
    events: Seq<ServerEvent<'_>>,
    closed_at: int,
    later: int,
)
    requires
        0 <= closed_at <= later < events.len(),
        server_after(state, events.take(closed_at)) == SessionState::Closed,
    ensures
        server_after(state, events.take(later)) == SessionState::Closed,
        server_reaction(server_after(state, events.take(later)), events[later])
            == ServerActionView::Nothing,
        server_after(state, events) == SessionState::Closed,
{
    let between = events.subrange(closed_at, later);
    let rest = events.subrange(closed_at, events.len() as int);
    assert(events.take(later) =~= events.take(closed_at) + between);
    assert(events =~= events.take(closed_at) + rest);
    lemma_server_after_both(state, events.take(closed_at), between);
    lemma_server_after_both(state, events.take(closed_at), rest);
    lemma_server_stays_closed(between);
    lemma_server_stays_closed(rest);
}

/// A server session asks to be closed at most once, and exactly once if it
/// ends: on whichever event ends it, be that an empty read, the shell's
/// exit or a failure. So the shell is ended and waited for once on every way
/// out, by a caller that does so when asked to close.
pub proof fn lemma_server_closes_once(state: SessionState, events: Seq<ServerEvent<'_>>)
    ensures
        server_closes(state, events) <= 1,
        server_closes(state, events) == 1 <==> state != SessionState::Closed && server_after(
            state,
            events,
        ) == SessionState::Closed,
    decreases events.len(),
{
    if events.len() > 0 {
        let next = server_next(state, events[0]);
        lemma_server_closes_once(next, events.drop_first());
        if next == SessionState::Closed {
            lemma_server_stays_closed(events.drop_first());
        }
    }
}

/// The bytes that a server session asks to have written to the channel as it
/// goes through `events`, end to end.
pub open spec fn server_to_channel(state: SessionState, events: Seq<ServerEvent<'_>>) -> Seq<u8>
    decreases events.len(),
{
    if events.len() == 0 {
        Seq::empty()
    } else {
        let now = match server_reaction(state, events[0]) {
            ServerActionView::WriteChannel(bytes) => bytes,
            _ => Seq::empty(),
        };
        now + server_to_channel(server_next(state, events[0]), events.drop_first())
    }
}

/// The bytes that a server session asks to have written to the
/// pseudo-terminal as it goes through `events`, end to end.
pub open spec fn server_to_pty(state: SessionState, events: Seq<ServerEvent<'_>>) -> Seq<u8>
    decreases events.len(),
{
    if events.len() == 0 {
        Seq::empty()
    } else {
        let now = match server_reaction(state, events[0]) {
            ServerActionView::WritePty(bytes) => bytes,
            _ => Seq::empty(),
        };
        now + server_to_pty(server_next(state, events[0]), events.drop_first())
    }
}

/// What the pseudo-terminal's reads in `events` returned, end to end.
pub open spec fn pty_output(events: Seq<ServerEvent<'_>>) -> Seq<u8>
    decreases events.len(),
{
    if events.len() == 0 {
        Seq::empty()
    } else {
        let now = match events[0] {
            ServerEvent::PtyRead(bytes) => bytes@,
            _ => Seq::empty(),
        };
        now + pty_output(events.drop_first())
    }
}

/// The payloads of the frames in `events`, in order.
pub open spec fn payloads_in(events: Seq<ServerEvent<'_>>) -> Seq<Seq<u8>>
    decreases events.len(),
{
    if events.len() == 0 {
        Seq::empty()
    } else {
        let now = match events[0] {
            ServerEvent::Frame(payload) => seq![payload@],
            _ => Seq::empty(),
        };
        now + payloads_in(events.drop_first())
    }
}

/// Verbatim relay on the server. As long as the session runs, what it asks
/// to have written to the channel is what the pseudo-terminal read, byte for
/// byte and in order, and what it asks to have written to the
/// pseudo-terminal is the shell's input in the messages that its frames
/// carried, in order.
pub proof fn lemma_server_relays_verbatim(events: Seq<ServerEvent<'_>>)
    requires
        server_after(SessionState::Running, events) == SessionState::Running,
    ensures
        server_to_channel(SessionState::Running, events) == pty_output(events),
        server_to_pty(SessionState::Running, events) == shell_input(
            accepted(payloads_in(events)),
        ),
    decreases events.len(),
{
    if events.len() > 0 {
        let rest = events.drop_first();
        if server_next(SessionState::Running, events[0]) == SessionState::Closed {
            lemma_server_stays_closed(rest);
        }
        lemma_server_relays_verbatim(rest);
        match events[0] {
            ServerEvent::Frame(payload) => {
                let payloads = seq![payload@] + payloads_in(rest);
                assert(payloads.drop_first() =~= payloads_in(rest));
                match decoding(payload@) {
                    Some(msg) => {
                        let msgs = seq![msg] + accepted(payloads_in(rest));
                        assert(msgs.drop_first() =~= accepted(payloads_in(rest)));
                        assert(accepted(payloads) == msgs);
                    },
                    None => {
                        assert(accepted(payloads) == accepted(payloads_in(rest)));
                        assert(Seq::<u8>::empty() + server_to_pty(SessionState::Running, rest)
                            =~= server_to_pty(SessionState::Running, rest));
                    },
                }
                assert(Seq::<u8>::empty() + pty_output(rest) =~= pty_output(rest));
            },
            ServerEvent::PtyRead(bytes) => {
                assert(Seq::<Seq<u8>>::empty() + payloads_in(rest) =~= payloads_in(rest));
                assert(Seq::<u8>::empty() + server_to_pty(SessionState::Running, rest)
                    =~= server_to_pty(SessionState::Running, rest));
            },
            _ => {
                assert(Seq::<Seq<u8>>::empty() + payloads_in(rest) =~= payloads_in(rest));
                assert(Seq::<u8>::empty() + server_to_pty(SessionState::Running, rest)
                    =~= server_to_pty(SessionState::Running, rest));
                assert(Seq::<u8>::empty() + pty_output(rest) =~= pty_output(rest));
            },
        }
    }
}

} // verus!
