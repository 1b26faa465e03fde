//! A future that resolves to the next item of a stream.

use vstd::prelude::*;
use core::task::Context;
use crate::poll::Poll;
use crate::par_stream::ParallelStream;

verus! {

/// The next item of a stream that is borrowed for as long as it takes.
///
/// This `struct` is created by the `next` method on [`ParallelStream`].
pub struct NextFuture<'a, S> {
    /// The borrowed stream.
    pub stream: &'a mut S,
}

impl<'a, S> NextFuture<'a, S> {
    /// Borrows `stream` for its next item.
    pub fn new(stream: &'a mut S) -> (next: Self)
        ensures
            *next.stream == *old(stream),
            *final(next.stream) == *final(stream),
    {
        NextFuture { stream }
    }
}

impl<'a, S: ParallelStream> NextFuture<'a, S> {
    /// Asks for the item: one poll of the borrowed stream, answered as the
    /// stream answers.
    pub fn poll(&mut self, cx: &mut Context<'_>) -> (out: Poll<Option<S::Item>>)
        ensures
            S::polled(*old(self).stream, *final(self).stream, out),
            *final(final(self).stream) == *final(old(self).stream),
    {
        self.stream.poll_next(cx)
    }
}

} // verus!
