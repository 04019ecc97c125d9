//! A wrapper that marks an I/O object as one to register with an event loop.

use vstd::prelude::*;

verus! {

/// An I/O object, held for an event loop.
pub struct EventedIo<T> {
    inner: T,
}

impl<T> View for EventedIo<T> {
    type V = T;

    /// The object inside.
    closed spec fn view(&self) -> T {
        self.inner
    }
}

impl<T> EventedIo<T> {
    /// Wraps `inner`.
    pub fn new(inner: T) -> (io: Self)
        ensures
            io@ == inner,
    {
        EventedIo { inner: inner }
    }

    /// Hands the object back.
    pub fn into_inner(self) -> (inner: T)
        ensures
            inner == self@,
    {
        self.inner
    }

    /// The object inside, to read its descriptor.
    pub fn get_ref(&self) -> (inner: &T)
        ensures
            *inner == self@,
    {
        &self.inner
    }

    /// The object inside, to read from it or write to it. What the caller
    /// makes of it is what the wrapper holds afterwards.
    pub fn get_mut(&mut self) -> (inner: &mut T)
        ensures
            *inner == old(self)@,
            final(self)@ == *final(inner),
    {
        &mut self.inner
    }
}

} // verus!
