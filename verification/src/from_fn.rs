//! The consumer's side of a stream that is fed by a closure.

use vstd::prelude::*;
use core::task::Context;
use async_std::channel::Receiver;
use crate::handoff::Handoff;
use crate::poll::Poll;
use crate::par_stream::{Fused, ParallelStream};

verus! {

/// The next move of the pump that feeds a stream from a closure.
#[derive(Debug, PartialEq, Eq)]
pub enum FeedAction<T> {
    /// Hand this value over to the consumer.
    Send(T),
    /// The closure has yielded nothing: leave the loop.
    Stop,
}

/// The move for what the closure has made: a value is sent, and nothing
/// ends the loop.
pub open spec fn feed_for<T>(made: Option<T>) -> FeedAction<T> {
    match made {
        Some(value) => FeedAction::Send(value),
        None => FeedAction::Stop,
    }
}

/// Computes [`feed_for`].
pub fn feed_step<T>(made: Option<T>) -> (action: FeedAction<T>)
    ensures
        action == feed_for(made),
{
    match made {
        Some(value) => FeedAction::Send(value),
        None => FeedAction::Stop,
    }
}

/// Whether the pump calls the closure again after a send: it does if the
/// value was taken, and leaves the loop if the consumer is gone.
pub fn goes_on(sent: bool) -> (on: bool)
    ensures
        on == sent,
{
    sent
}

/// A parallel stream that yields elements by calling a closure.
///
/// A pump calls the closure again and again and hands each value over
/// through a rendezvous channel, until the closure yields nothing; this is
/// the end of the channel that the consumer polls.
#[derive(Debug)]
#[verifier::reject_recursive_types(T)]
pub struct FromFn<T, F> {
    handoff: Handoff<T>,
    f: F,
    limit: Option<usize>,
}

/// What a [`FromFn`] holds.
#[verifier::reject_recursive_types(T)]
pub struct FromFnView<T, F> {
    /// The receiving end of the pump's channel.
    pub handoff: Handoff<T>,
    /// The closure.
    pub f: F,
    /// The max concurrency limit.
    pub limit: Option<usize>,
}

impl<T, F> View for FromFn<T, F> {
    type V = FromFnView<T, F>;

    closed spec fn view(&self) -> FromFnView<T, F> {
        FromFnView { handoff: self.handoff, f: self.f, limit: self.limit }
    }
}

impl<T, F> FromFn<T, F> {
    /// Creates the consumer's side of a stream fed by `f`, over the
    /// receiving end of the pump's channel. It has no limit.
    pub fn new(receiver: Receiver<T>, f: F) -> (stream: Self)
        ensures
            stream@.handoff.receiver_of() == receiver,
            !stream@.handoff.is_closed(),
            stream@.f == f,
            stream@.limit is None,
    {
        FromFn { handoff: Handoff::new(receiver), f, limit: None }
    }
}

impl<T, F> ParallelStream for FromFn<T, F> where
    T: Send + Sync + 'static,
    F: Send + Sync + Copy + 'static,
 {
    type Item = T;

    /// The channel has been seen to end.
    open spec fn exhausted(&self) -> bool {
        self@.handoff.is_closed()
    }

    /// One poll is one poll of the handoff; see [`Handoff::polled`].
    open spec fn polled(pre: Self, post: Self, out: Poll<Option<T>>) -> bool {
        &&& Handoff::polled(pre@.handoff, post@.handoff, out)
        &&& post@.f == pre@.f
        &&& post@.limit == pre@.limit
    }

    fn poll_next(&mut self, cx: &mut Context<'_>) -> (out: Poll<Option<T>>) {
        self.handoff.poll(cx)
    }

    fn limit(self, limit: Option<usize>) -> (limited: Self)
        ensures
            limited@ == (FromFnView { limit, ..self@ }),
    {
        let mut limited = self;
        limited.limit = limit;
        limited
    }

    fn get_limit(&self) -> (limit: Option<usize>)
        ensures
            limit == self@.limit,
    {
        self.limit
    }
}

impl<T, F> Fused for FromFn<T, F> where
    T: Send + Sync + 'static,
    F: Send + Sync + Copy + 'static,
 {
    proof fn lemma_end_is_final(pre: Self, post: Self, out: Poll<Option<T>>) {
    }
}

} // verus!
