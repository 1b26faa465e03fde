//! A stream that does not poll another stream beyond its end.

use vstd::prelude::*;
use core::task::Context;
use crate::poll::Poll;
use crate::par_stream::{Fused, ParallelStream};

verus! {

/// A stream that passes on what another stream yields and remembers its
/// end: once the wrapped stream has signalled its end it is not polled
/// again, whatever it would yield.
///
/// This `struct` is created by the `fuse` method on [`ParallelStream`].
#[derive(Clone, Debug)]
pub struct Fuse<S> {
    stream: S,
    done: bool,
}

/// What a [`Fuse`] holds.
pub struct FuseView<S> {
    /// The wrapped stream.
    pub stream: S,
    /// Whether the wrapped stream has signalled its end.
    pub done: bool,
}

impl<S> View for Fuse<S> {
    type V = FuseView<S>;

    closed spec fn view(&self) -> FuseView<S> {
        FuseView { stream: self.stream, done: self.done }
    }
}

impl<S> Fuse<S> {
    /// Wraps `stream`, which has not signalled its end yet.
    pub fn new(stream: S) -> (fused: Self)
        ensures
            fused@ == (FuseView { stream, done: false }),
    {
        Fuse { stream, done: false }
    }
}

impl<S: ParallelStream> ParallelStream for Fuse<S> {
    type Item = S::Item;

    /// The wrapped stream has signalled its end.
    open spec fn exhausted(&self) -> bool {
        self@.done
    }

    /// A stream that has ended stays as it is and answers with the end.
    /// Otherwise the wrapped stream is polled once, its answer is passed
    /// on, and its end is remembered.
    open spec fn polled(pre: Self, post: Self, out: Poll<Option<S::Item>>) -> bool {
        if pre@.done {
            out == Poll::<Option<S::Item>>::Ready(None) && post == pre
        } else {
            &&& S::polled(pre@.stream, post@.stream, out)
            &&& post@.done == (out == Poll::<Option<S::Item>>::Ready(None))
        }
    }

    fn poll_next(&mut self, cx: &mut Context<'_>) -> (out: Poll<Option<S::Item>>) {
        if self.done {
            return Poll::Ready(None);
        }
        let answer = self.stream.poll_next(cx);
        match &answer {
            Poll::Ready(None) => {
                self.done = true;
            },
            _ => {},
        }
        answer
    }

    /// Sets the limit of the wrapped stream.
    fn limit(self, limit: Option<usize>) -> (limited: Self)
        ensures
            call_ensures(S::limit, (self@.stream, limit), limited@.stream),
            limited@.done == self@.done,
    {
        let done = self.done;
        Fuse { stream: self.stream.limit(limit), done }
    }

    /// The limit of the wrapped stream.
    fn get_limit(&self) -> (limit: Option<usize>)
        ensures
            call_ensures(S::get_limit, (&self@.stream,), limit),
    {
        self.stream.get_limit()
    }
}

impl<S: ParallelStream> Fused for Fuse<S> {
    proof fn lemma_end_is_final(pre: Self, post: Self, out: Poll<Option<S::Item>>) {
    }
}

} // verus!
