//! The client's side of a session: what to do on each thing that happens.
//!
//! The client owns the user's terminal and one channel to the server. What
//! the terminal reads goes to the server as `Data` messages, what the channel
//! reads goes to the terminal as it is, and the terminal's size goes to the
//! server once at the start and again whenever it changes. The caller does
//! the reading and writing and reports each result as an event; the session
//! answers with the next thing to do.

use crate::frame::{fits_frame, frame_msg, frame_of};
use crate::msgs::{Msg, ServerMsg, TermDimensions};
use crate::session::{Outcome, SessionState};
use crate::stream::{encodings, frames_of};
use crate::wire::encoding;
use vstd::prelude::*;

verus! {

/// Something that happened to a client session.
#[derive(Debug, Clone, Copy, PartialEq, Eq)]
pub enum ClientEvent<'a> {
    /// The terminal is in raw mode and has this size.
    Started(TermDimensions),
    /// A read from the channel returned these bytes.
    ChannelRead(&'a [u8]),
    /// A read from the terminal returned these bytes.
    TerminalRead(&'a [u8]),
    /// The terminal's window changed; it has this size now.
    Resized(TermDimensions),
    /// A read, a write or a terminal query failed.
    Failed,
}

/// What the caller of a client session does next.
#[derive(Debug, PartialEq, Eq)]
pub enum ClientAction<'a> {
    /// Write these bytes, as they are, to the terminal.
    WriteTerminal(&'a [u8]),
    /// Write these bytes, one frame, to the channel.
    WriteChannel(Vec<u8>),
    /// Restore the terminal and leave the loop: the session is over.
    Close(Outcome),
    /// Nothing: the event asks for no work.
    Nothing,
}

/// A [`ClientAction`] with its bytes as sequences.
pub enum ClientActionView {
    WriteTerminal(Seq<u8>),
    WriteChannel(Seq<u8>),
    Close(Outcome),
    Nothing,
}

impl<'a> View for ClientAction<'a> {
    type V = ClientActionView;

    open spec fn view(&self) -> ClientActionView {
        match *self {
            ClientAction::WriteTerminal(bytes) => ClientActionView::WriteTerminal(bytes@),
            ClientAction::WriteChannel(frame) => ClientActionView::WriteChannel(frame@),
            ClientAction::Close(outcome) => ClientActionView::Close(outcome),
            ClientAction::Nothing => ClientActionView::Nothing,
        }
    }
}

/// The state that `event` takes a client session to.
///
/// A session that is connected waits for its start. A running one goes on
/// until a read returns no bytes, an operation fails, or the terminal hands
/// over more input than a frame can carry. A closed one stays closed.
pub open spec fn client_next(state: SessionState, event: ClientEvent<'_>) -> SessionState {
    match state {
        SessionState::Connected => match event {
            ClientEvent::Started(_) => SessionState::Running,
            ClientEvent::Failed => SessionState::Closed,
            _ => SessionState::Connected,
        },
        SessionState::Running => match event {
            ClientEvent::ChannelRead(bytes) => if bytes@.len() == 0 {
                SessionState::Closed
            } else {
                SessionState::Running
            },
            ClientEvent::TerminalRead(bytes) => if bytes@.len() == 0 || !fits_frame(bytes@) {
                SessionState::Closed
            } else {
                SessionState::Running
            },
            ClientEvent::Failed => SessionState::Closed,
            ClientEvent::Started(_) | ClientEvent::Resized(_) => SessionState::Running,
        },
        SessionState::Closed => SessionState::Closed,
    }
}

/// What a client session in `state` asks for on `event`.
pub open spec fn client_reaction(state: SessionState, event: ClientEvent<'_>) -> ClientActionView {
    match state {
        SessionState::Connected => match event {
            ClientEvent::Started(dim) => ClientActionView::WriteChannel(
                frame_of(encoding(Msg::SetDimensions(dim))),
            ),
            ClientEvent::Failed => ClientActionView::Close(Outcome::Failed(None)),
            _ => ClientActionView::Nothing,
        },
        SessionState::Running => match event {
            ClientEvent::ChannelRead(bytes) => if bytes@.len() == 0 {
                ClientActionView::Close(Outcome::Ended)
            } else {
                ClientActionView::WriteTerminal(bytes@)
            },
            ClientEvent::TerminalRead(bytes) => if bytes@.len() == 0 {
                ClientActionView::Close(Outcome::Ended)
            } else if !fits_frame(bytes@) {
                ClientActionView::Close(Outcome::Failed(None))
            } else {
                ClientActionView::WriteChannel(frame_of(encoding(Msg::Data(bytes@))))
            },
            ClientEvent::Resized(dim) => ClientActionView::WriteChannel(
                frame_of(encoding(Msg::SetDimensions(dim))),
            ),
            ClientEvent::Failed => ClientActionView::Close(Outcome::Failed(None)),
            ClientEvent::Started(_) => ClientActionView::Nothing,
        },
        SessionState::Closed => ClientActionView::Nothing,
    }
}

/// One client session.
#[derive(Debug)]
pub struct ClientSession {
    state: SessionState,
}

impl ClientSession {
    /// Where the session stands.
    pub closed spec fn state(&self) -> SessionState {
        self.state
    }

    /// A session whose channel is connected and that has not begun.
    pub fn new() -> (session: ClientSession)
        ensures
            session.state() == SessionState::Connected,
    {
        ClientSession { state: SessionState::Connected }
    }

    /// Where the session stands.
    pub fn current(&self) -> (state: SessionState)
        ensures
            state == self.state(),
    {
        self.state
    }

    /// Takes note of `event` and says what to do about it.
    pub fn step<'a>(&mut self, event: ClientEvent<'a>) -> (action: ClientAction<'a>)
        ensures
            final(self).state() == client_next(old(self).state(), event),
            action@ == client_reaction(old(self).state(), event),
    {
        match self.state {
            SessionState::Connected => match event {
                ClientEvent::Started(dim) => {
                    self.state = SessionState::Running;
                    send_term_dimensions(dim)
                },
                ClientEvent::Failed => {
                    self.state = SessionState::Closed;
                    ClientAction::Close(Outcome::Failed(None))
                },
                _ => ClientAction::Nothing,
            },
            SessionState::Running => match event {
                ClientEvent::ChannelRead(bytes) => {
                    if bytes.len() == 0 {
                        self.state = SessionState::Closed;
                        ClientAction::Close(Outcome::Ended)
                    } else {
                        ClientAction::WriteTerminal(bytes)
                    }
                },
                ClientEvent::TerminalRead(bytes) => {
                    if bytes.len() == 0 {
                        self.state = SessionState::Closed;
                        ClientAction::Close(Outcome::Ended)
                    } else {
                        match frame_msg(&ServerMsg::Data(bytes)) {
                            Some(frame) => ClientAction::WriteChannel(frame),
                            None => {
                                self.state = SessionState::Closed;
                                ClientAction::Close(Outcome::Failed(None))
                            },
                        }
                    }
                },
                ClientEvent::Resized(dim) => send_term_dimensions(dim),
                ClientEvent::Failed => {
                    self.state = SessionState::Closed;
                    ClientAction::Close(Outcome::Failed(None))
                },
                ClientEvent::Started(_) => ClientAction::Nothing,
            },
            SessionState::Closed => ClientAction::Nothing,
        }
    }
}

/// The action that tells the server the terminal's size. Such a message is
/// eight bytes long, so it always has a frame.
fn send_term_dimensions<'a>(dim: TermDimensions) -> (action: ClientAction<'a>)
    ensures
        action@ == ClientActionView::WriteChannel(frame_of(encoding(Msg::SetDimensions(dim)))),
{
    let msg = ServerMsg::SetDimensions(dim);
    assert(encoding(msg@).len() == 8);
    match frame_msg(&msg) {
        Some(frame) => ClientAction::WriteChannel(frame),
        None => ClientAction::Nothing,
    }
}

/// Where a client session stands after `events`, one after another.
pub open spec fn client_after(state: SessionState, events: Seq<ClientEvent<'_>>) -> SessionState
    decreases events.len(),
{
    if events.len() == 0 {
        state
    } else {
        client_after(client_next(state, events[0]), events.drop_first())
    }
}

/// How often a client session that goes through `events` asks to be closed.
pub open spec fn client_closes(state: SessionState, events: Seq<ClientEvent<'_>>) -> nat
    decreases events.len(),
{
    if events.len() == 0 {
        0
    } else {
        let now: nat = if client_reaction(state, events[0]) is Close {
            1
        } else {
            0
        };
        now + client_closes(client_next(state, events[0]), events.drop_first())
    }
}

/// Zero-length read termination. A read that returns no bytes, from the
/// channel or from the terminal, ends a running client session in good order.
pub proof fn lemma_client_empty_read_ends(event: ClientEvent<'_>)
    requires
        (event matches ClientEvent::ChannelRead(bytes) && bytes@.len() == 0) || (
        event matches ClientEvent::TerminalRead(bytes) && bytes@.len() == 0),
    ensures
        client_next(SessionState::Running, event) == SessionState::Closed,
        client_reaction(SessionState::Running, event) == ClientActionView::Close(Outcome::Ended),
{
}

/// Going through one run of events and then another is going through both.
pub proof fn lemma_client_after_both(
    state: SessionState,
    first: Seq<ClientEvent<'_>>,
    second: Seq<ClientEvent<'_>>,
)
    ensures
        client_after(state, first + second) == client_after(client_after(state, first), second),
    decreases first.len(),
{
    if first.len() == 0 {
        assert(first + second =~= second);
    } else {
        assert((first + second).drop_first() =~= first.drop_first() + second);
        lemma_client_after_both(client_next(state, first[0]), first.drop_first(), second);
    }
}

/// Nothing after the end. Once a client session is closed, at whatever point
/// of a run of events, it stays closed and asks for no work on any later
/// event: nothing is read or written after the end.
pub proof fn lemma_client_silent_after_close(
    state: SessionState,
    events: Seq<ClientEvent<'_>>,
    closed_at: int,
    later: int,
)
    requires
        0 <= closed_at <= later < events.len(),
        client_after(state, events.take(closed_at)) == SessionState::Closed,
    ensures
        client_after(state, events.take(later)) == SessionState::Closed,
        client_reaction(client_after(state, events.take(later)), events[later])
            == ClientActionView::Nothing,
        client_after(state, events) == SessionState::Closed,
{
    let between = events.subrange(closed_at, later);
    let rest = events.subrange(closed_at, events.len() as int);
    assert(events.take(later) =~= events.take(closed_at) + between);
    assert(events =~= events.take(closed_at) + rest);
    lemma_client_after_both(state, events.take(closed_at), between);
    lemma_client_after_both(state, events.take(closed_at), rest);
    lemma_client_stays_closed(between);
    lemma_client_stays_closed(rest);
}

/// Once closed, closed after any further events.
pub proof fn lemma_client_stays_closed(events: Seq<ClientEvent<'_>>)
    ensures
        client_after(SessionState::Closed, events) == SessionState::Closed,
        client_closes(SessionState::Closed, events) == 0,
    decreases events.len(),
{
    if events.len() > 0 {
        lemma_client_stays_closed(events.drop_first());
    }
}

/// A client session asks to be closed at most once, and exactly once if it
/// ends: on whichever event ends it, be that an empty read, a failure or
/// input too long for a frame. So the terminal is restored once on every way
/// out, by a caller that restores it when asked to close.
pub proof fn lemma_client_closes_once(state: SessionState, events: Seq<ClientEvent<'_>>)
    ensures
        client_closes(state, events) <= 1,
        client_closes(state, events) == 1 <==> state != SessionState::Closed && client_after(
            state,
            events,
        ) == SessionState::Closed,
    decreases events.len(),
{
    if events.len() > 0 {
        let next = client_next(state, events[0]);
        lemma_client_closes_once(next, events.drop_first());
        if next == SessionState::Closed {
            lemma_client_stays_closed(events.drop_first());
        }
    }
}

/// The bytes that a client session asks to have written to the terminal as
/// it goes through `events`, end to end.
pub open spec fn client_to_terminal(state: SessionState, events: Seq<ClientEvent<'_>>) -> Seq<u8>
    decreases events.len(),
{
    if events.len() == 0 {
        Seq::empty()
    } else {
        let now = match client_reaction(state, events[0]) {
            ClientActionView::WriteTerminal(bytes) => bytes,
            _ => Seq::empty(),
        };
        now + client_to_terminal(client_next(state, events[0]), events.drop_first())
    }
}

/// The bytes that a client session asks to have written to the channel as it
/// goes through `events`, end to end.
pub open spec fn client_to_channel(state: SessionState, events: Seq<ClientEvent<'_>>) -> Seq<u8>
    decreases events.len(),
{
    if events.len() == 0 {
        Seq::empty()
    } else {
        let now = match client_reaction(state, events[0]) {
            ClientActionView::WriteChannel(bytes) => bytes,
            _ => Seq::empty(),
        };
        now + client_to_channel(client_next(state, events[0]), events.drop_first())
    }
}

/// What the channel's reads in `events` returned, end to end.
pub open spec fn channel_input(events: Seq<ClientEvent<'_>>) -> Seq<u8>
    decreases events.len(),
{
    if events.len() == 0 {
        Seq::empty()
    } else {
        let now = match events[0] {
            ClientEvent::ChannelRead(bytes) => bytes@,
            _ => Seq::empty(),
        };
        now + channel_input(events.drop_first())
    }
}

/// The messages that a running client owes the server for `events`, in
/// order: the terminal's input read by read, and each new size.
pub open spec fn messages_for(events: Seq<ClientEvent<'_>>) -> Seq<Msg>
    decreases events.len(),
{
    if events.len() == 0 {
        Seq::empty()
    } else {
        let now = match events[0] {
            ClientEvent::TerminalRead(bytes) => seq![Msg::Data(bytes@)],
            ClientEvent::Resized(dim) => seq![Msg::SetDimensions(dim)],
            _ => Seq::empty(),
        };
        now + messages_for(events.drop_first())
    }
}

/// Verbatim relay on the client. As long as the session runs, what it asks
/// to have written to the terminal is what the channel read, byte for byte
/// and in order, and what it asks to have written to the channel is the
/// frames of the messages it owes, back to back and in order.
pub proof fn lemma_client_relays_verbatim(events: Seq<ClientEvent<'_>>)
    requires
        client_after(SessionState::Running, events) == SessionState::Running,
    ensures
        client_to_terminal(SessionState::Running, events) == channel_input(events),
        client_to_channel(SessionState::Running, events) == frames_of(
            encodings(messages_for(events)),
        ),
    decreases events.len(),
{
    if events.len() > 0 {
        let rest = events.drop_first();
        if client_next(SessionState::Running, events[0]) == SessionState::Closed {
            lemma_client_stays_closed(rest);
        }
        lemma_client_relays_verbatim(rest);
        let later = messages_for(rest);
        match events[0] {
            ClientEvent::TerminalRead(bytes) => {
                let msgs = seq![Msg::Data(bytes@)] + later;
                assert(encodings(msgs).drop_first() =~= encodings(later));
                assert(Seq::<u8>::empty() + channel_input(rest) =~= channel_input(rest));
            },
            ClientEvent::Resized(dim) => {
                let msgs = seq![Msg::SetDimensions(dim)] + later;
                assert(encodings(msgs).drop_first() =~= encodings(later));
                assert(Seq::<u8>::empty() + channel_input(rest) =~= channel_input(rest));
            },
            ClientEvent::ChannelRead(bytes) => {
                assert(Seq::<Msg>::empty() + later =~= later);
                assert(Seq::<u8>::empty() + client_to_channel(SessionState::Running, rest)
                    =~= client_to_channel(SessionState::Running, rest));
            },
            _ => {
                assert(Seq::<Msg>::empty() + later =~= later);
                assert(Seq::<u8>::empty() + client_to_channel(SessionState::Running, rest)
                    =~= client_to_channel(SessionState::Running, rest));
                assert(Seq::<u8>::empty() + channel_input(rest) =~= channel_input(rest));
            },
        }
    }
}

} // verus!
