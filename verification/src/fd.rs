//! A bare file descriptor and the reading of what a system call returned.

use vstd::prelude::*;

verus! {

/// A file descriptor that nobody closes.
#[derive(Debug, Clone, Copy, PartialEq, Eq, Structural)]
pub struct Fd(pub i32);

impl Fd {
    /// The descriptor's number.
    pub fn as_raw_fd(&self) -> (fd: i32)
        ensures
            fd == self.0,
    {
        self.0
    }

    /// What a `read` or `write` system call achieved, told from its return
    /// value: a negative one means failure, any other is the count of bytes
    /// moved.
    pub fn transferred(rc: isize) -> (count: Option<usize>)
        ensures
            count == if rc < 0 {
                None
            } else {
                Some(rc as usize)
            },
    {
        if rc < 0 {
            None
        } else {
            Some(rc as usize)
        }
    }
}

} // verus!
