//! Writing a whole buffer through a writer that may take only part of it.

use vstd::prelude::*;

verus! {

/// How far the writing of a buffer has come.
#[derive(Debug, Clone, Copy, PartialEq, Eq, Structural)]
pub struct WriteAll {
    written: usize,
    total: usize,
}

impl WriteAll {
    /// Bytes written so far.
    pub closed spec fn written(&self) -> usize {
        self.written
    }

    /// Bytes to write in all.
    pub closed spec fn total(&self) -> usize {
        self.total
    }

    /// What the type keeps true: no more is written than there is.
    #[verifier::type_invariant]
    spec fn in_bounds(&self) -> bool {
        self.written <= self.total
    }

    /// The start of writing a buffer of `total` bytes.
    pub fn new(total: usize) -> (progress: Self)
        ensures
            progress.written() == 0,
            progress.total() == total,
    {
        WriteAll { written: 0, total: total }
    }

    /// Where the next write starts, or `None` when all is written. The next
    /// write is given the buffer from that offset to its end.
    pub fn next_offset(&self) -> (offset: Option<usize>)
        ensures
            offset == if self.written() < self.total() {
                Some(self.written())
            } else {
                None
            },
            self.written() <= self.total(),
    {
        proof {
            use_type_invariant(self);
        }
        if self.written < self.total {
            Some(self.written)
        } else {
            None
        }
    }

    /// Takes note that a write moved `count` bytes. A write that claims
    /// more than was left to write counts as having written all of it.
    pub fn wrote(&mut self, count: usize)
        ensures
            final(self).written() == if old(self).written() + count <= old(self).total() {
                old(self).written() + count
            } else {
                old(self).total() as int
            },
            final(self).total() == old(self).total(),
    {
        proof {
            use_type_invariant(&*self);
        }
        if count <= self.total - self.written {
            self.written = self.written + count;
        } else {
            self.written = self.total;
        }
    }
}

} // verus!
