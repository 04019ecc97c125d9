//! One-way forwarding through a buffer, for readers and writers that may not
//! be ready.
//!
//! A forwarder is polled. On each poll it reads from its source into its
//! buffer until the source has nothing more for now, then writes the buffer
//! to its sink until the buffer is empty or the sink takes no more for now.
//! It is done when the source is at its end and the buffer is written out,
//! or when the sink is closed; while bytes wait for a sink that is not ready
//! it asks to be polled again, so that nothing that was read is lost. The
//! caller makes the reads and writes and reports how each went; the
//! forwarder says what comes next.

use crate::buffer::{advance, buffered};
use bytes::BytesMut;
use vstd::prelude::*;

verus! {

/// Room to make in the buffer before each read.
pub const READ_ROOM: usize = 1024;

/// How a read or write that does not block went.
#[derive(Debug, Clone, Copy, PartialEq, Eq, Structural)]
pub enum Progress {
    /// It moved this many bytes. None at all means the other side is closed.
    Ready(usize),
    /// It would have blocked.
    NotReady,
}

/// What the caller of a forwarder does next.
#[derive(Debug, Clone, Copy, PartialEq, Eq, Structural)]
pub enum Next {
    /// Make `READ_ROOM` bytes of room and read from the source onto the end
    /// of the buffer.
    Read,
    /// Write the buffer to the sink.
    Write,
    /// Leave the poll: done for good if `true`, to be polled again if `false`.
    Return(bool),
}

/// Forwards bytes from `from` to `to`.
pub struct Forwarder<F, T> {
    pub from: F,
    pub to: T,
    /// What was read and is not written yet.
    pub buffer: BytesMut,
    /// Whether the source reported its end in the poll that is under way.
    pub read_closed: bool,
}

impl<F, T> Forwarder<F, T> {
    /// The bytes that wait to be written.
    pub open spec fn pending(&self) -> Seq<u8> {
        buffered(self.buffer)
    }

    /// A forwarder with an empty buffer.
    pub fn new(from: F, to: T) -> (forwarder: Self)
        ensures
            forwarder.from == from,
            forwarder.to == to,
            forwarder.pending() == Seq::<u8>::empty(),
            !forwarder.read_closed,
    {
        Forwarder { from: from, to: to, buffer: BytesMut::new(), read_closed: false }
    }

    /// Starts a poll: the source counts as open again and is read first.
    pub fn begin(&mut self) -> (next: Next)
        ensures
            next == Next::Read,
            !final(self).read_closed,
            final(self).from == old(self).from,
            final(self).to == old(self).to,
            final(self).buffer == old(self).buffer,
    {
        self.read_closed = false;
        Next::Read
    }

    /// What to do once the poll is through with reading: write, if anything
    /// waits to be written, else leave, for good if the source is at its end.
    pub open spec fn after_reading(&self) -> Next {
        if self.pending().len() > 0 {
            Next::Write
        } else {
            Next::Return(self.read_closed)
        }
    }

    /// Takes note of how a read went. The bytes it read are in the buffer
    /// already. A read that moved bytes is followed by another; the end of
    /// the source, or a read that would block, ends the reading.
    pub fn on_read(&mut self, progress: Progress) -> (next: Next)
        ensures
            final(self).from == old(self).from,
            final(self).to == old(self).to,
            final(self).buffer == old(self).buffer,
            final(self).read_closed == (old(self).read_closed || progress == Progress::Ready(0)),
            next == match progress {
                Progress::Ready(n) => if n == 0 {
                    final(self).after_reading()
                } else {
                    Next::Read
                },
                Progress::NotReady => final(self).after_reading(),
            },
            next == Next::Return(true) ==> final(self).pending().len() == 0,
    {
        match progress {
            Progress::Ready(n) => {
                if n == 0 {
                    self.read_closed = true;
                    if self.buffer.len() > 0 {
                        Next::Write
                    } else {
                        Next::Return(true)
                    }
                } else {
                    Next::Read
                }
            },
            Progress::NotReady => {
                if self.buffer.is_empty() {
                    Next::Return(self.read_closed)
                } else {
                    Next::Write
                }
            },
        }
    }

    /// Takes note of how a write of the buffer went, and drops from the
    /// buffer what was written. A sink that takes no byte is closed, and the
    /// forwarder is done. A sink that is not ready keeps the forwarder
    /// waiting for as long as bytes are left, whether or not the source is at
    /// its end. A write cannot move more bytes than it was given.
    pub fn on_write(&mut self, progress: Progress) -> (next: Next)
        requires
            progress matches Progress::Ready(n) ==> n <= old(self).pending().len(),
        ensures
            final(self).from == old(self).from,
            final(self).to == old(self).to,
            final(self).read_closed == old(self).read_closed,
            final(self).pending() == match progress {
                Progress::Ready(n) => old(self).pending().subrange(
                    n as int,
                    old(self).pending().len() as int,
                ),
                Progress::NotReady => old(self).pending(),
            },
            next == match progress {
                Progress::Ready(n) => if n == 0 {
                    Next::Return(true)
                } else {
                    final(self).after_reading()
                },
                Progress::NotReady => Next::Return(
                    old(self).read_closed && old(self).pending().len() == 0,
                ),
            },
            next == Next::Return(true) ==> final(self).pending().len() == 0 || progress
                == Progress::Ready(0),
    {
        match progress {
            Progress::Ready(n) => {
                if n == 0 {
                    assert(self.pending().subrange(0, self.pending().len() as int)
                        =~= self.pending());
                    Next::Return(true)
                } else {
                    advance(&mut self.buffer, n);
                    if self.buffer.is_empty() {
                        Next::Return(self.read_closed)
                    } else {
                        Next::Write
                    }
                }
            },
            Progress::NotReady => Next::Return(self.read_closed && self.buffer.is_empty()),
        }
    }
}

} // verus!
