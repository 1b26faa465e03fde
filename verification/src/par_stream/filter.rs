//! The consumer's side of a concurrent filter stage.

use vstd::prelude::*;
use core::task::Context;
use async_std::channel::Receiver;
use crate::handoff::Handoff;
use crate::poll::Poll;
use crate::par_stream::{Fused, ParallelStream};

verus! {

/// A parallel stream that filters value of another stream with a function.
///
/// The pump and the work units of the stage hand the items that pass over
/// through a rendezvous channel; this is the end of it that the consumer
/// polls. The items arrive in the order in which the work units complete.
pub struct Filter<S> where S: ParallelStream {
    handoff: Handoff<S::Item>,
    limit: Option<usize>,
}

/// What a [`Filter`] holds.
pub struct FilterView<S: ParallelStream> {
    /// The receiving end of the stage's channel.
    pub handoff: Handoff<S::Item>,
    /// The max concurrency limit.
    pub limit: Option<usize>,
}

impl<S: ParallelStream> View for Filter<S> {
    type V = FilterView<S>;

    closed spec fn view(&self) -> FilterView<S> {
        FilterView { handoff: self.handoff, limit: self.limit }
    }
}

impl<S> Filter<S> where S: ParallelStream {
    /// Create a new instance of `Filter` over the receiving end of the
    /// stage's channel, with the limit of the stage's upstream.
    pub fn new(receiver: Receiver<S::Item>, limit: Option<usize>) -> (filtered: Self)
        ensures
            filtered@.handoff.receiver_of() == receiver,
            !filtered@.handoff.is_closed(),
            filtered@.limit == limit,
    {
        Filter { handoff: Handoff::new(receiver), limit }
    }
}

impl<S> ParallelStream for Filter<S> where S: ParallelStream {
    type Item = S::Item;

    /// The channel has been seen to end.
    open spec fn exhausted(&self) -> bool {
        self@.handoff.is_closed()
    }

    /// One poll is one poll of the handoff; see [`Handoff::polled`].
    open spec fn polled(pre: Self, post: Self, out: Poll<Option<S::Item>>) -> bool {
        &&& Handoff::polled(pre@.handoff, post@.handoff, out)
        &&& post@.limit == pre@.limit
    }

    fn poll_next(&mut self, cx: &mut Context<'_>) -> (out: Poll<Option<S::Item>>) {
        self.handoff.poll(cx)
    }

    fn limit(self, limit: Option<usize>) -> (limited: Self)
        ensures
            limited@ == (FilterView { limit, ..self@ }),
    {
        let mut limited = self;
        limited.limit = limit;
        limited
    }

    fn get_limit(&self) -> (limit: Option<usize>)
        ensures
            limit == self@.limit,
    {
        self.limit
    }
}

impl<S> Fused for Filter<S> where S: ParallelStream {
    proof fn lemma_end_is_final(pre: Self, post: Self, out: Poll<Option<S::Item>>) {
    }
}

} // verus!
