//! The consumer's side of a concurrent map stage.

use vstd::prelude::*;
use core::task::Context;
use async_std::channel::Receiver;
use crate::handoff::Handoff;
use crate::poll::Poll;
use crate::par_stream::{Fused, ParallelStream};

verus! {

/// A parallel stream that maps value of another stream with a function.
///
/// The pump and the work units of the stage hand their results over through
/// a rendezvous channel; this is the end of it that the consumer polls. The
/// results arrive in the order in which the work units complete.
#[derive(Debug)]
#[verifier::reject_recursive_types(T)]
pub struct ParMap<T> {
    handoff: Handoff<T>,
    limit: Option<usize>,
}

/// What a [`ParMap`] holds.
#[verifier::reject_recursive_types(T)]
pub struct ParMapView<T> {
    /// The receiving end of the stage's channel.
    pub handoff: Handoff<T>,
    /// The max concurrency limit.
    pub limit: Option<usize>,
}

impl<T> View for ParMap<T> {
    type V = ParMapView<T>;

    closed spec fn view(&self) -> ParMapView<T> {
        ParMapView { handoff: self.handoff, limit: self.limit }
    }
}

impl<T: Send + 'static> ParMap<T> {
    /// Create a new instance of `ParMap` over the receiving end of the
    /// stage's channel, with the limit of the stage's upstream.
    pub fn new(receiver: Receiver<T>, limit: Option<usize>) -> (mapped: Self)
        ensures
            mapped@.handoff.receiver_of() == receiver,
            !mapped@.handoff.is_closed(),
            mapped@.limit == limit,
    {
        ParMap { handoff: Handoff::new(receiver), limit }
    }
}

impl<T: Send + 'static> ParallelStream for ParMap<T> {
    type Item = T;

    /// The channel has been seen to end.
    open spec fn exhausted(&self) -> bool {
        self@.handoff.is_closed()
    }

    /// One poll is one poll of the handoff; see [`Handoff::polled`].
    open spec fn polled(pre: Self, post: Self, out: Poll<Option<T>>) -> bool {
        &&& Handoff::polled(pre@.handoff, post@.handoff, out)
        &&& post@.limit == pre@.limit
    }

    fn poll_next(&mut self, cx: &mut Context<'_>) -> (out: Poll<Option<T>>) {
        self.handoff.poll(cx)
    }

    fn limit(self, limit: Option<usize>) -> (limited: Self)
        ensures
            limited@ == (ParMapView { limit, ..self@ }),
    {
        let mut limited = self;
        limited.limit = limit;
        limited
    }

    fn get_limit(&self) -> (limit: Option<usize>)
        ensures
            limit == self@.limit,
    {
        self.limit
    }
}

impl<T: Send + 'static> Fused for ParMap<T> {
    proof fn lemma_end_is_final(pre: Self, post: Self, out: Poll<Option<T>>) {
    }
}

} // verus!
