//! The consumer's side of a concurrent filter-map stage.

use vstd::prelude::*;
use core::task::Context;
use async_std::channel::Receiver;
use crate::handoff::Handoff;
use crate::poll::Poll;
use crate::par_stream::{Fused, ParallelStream};

verus! {

/// A parallel stream that maps the values of another stream with a function
/// and keeps the results that are present.
///
/// The pump and the work units of the stage hand their results over through
/// a rendezvous channel; this is the end of it that the consumer polls. The
/// results arrive in the order in which the work units complete.
#[derive(Debug)]
#[verifier::reject_recursive_types(T)]
pub struct FilterMap<T> {
    handoff: Handoff<T>,
    limit: Option<usize>,
}

/// What a [`FilterMap`] holds.
#[verifier::reject_recursive_types(T)]
pub struct FilterMapView<T> {
    /// The receiving end of the stage's channel.
    pub handoff: Handoff<T>,
    /// The max concurrency limit.
    pub limit: Option<usize>,
}

impl<T> View for FilterMap<T> {
    type V = FilterMapView<T>;

    closed spec fn view(&self) -> FilterMapView<T> {
        FilterMapView { handoff: self.handoff, limit: self.limit }
    }
}

impl<T: Send + 'static> FilterMap<T> {
    /// Create a new instance of `FilterMap` over the receiving end of the
    /// stage's channel, with the limit of the stage's upstream.
    pub fn new(receiver: Receiver<T>, limit: Option<usize>) -> (filtered: Self)
        ensures
            filtered@.handoff.receiver_of() == receiver,
            !filtered@.handoff.is_closed(),
            filtered@.limit == limit,
    {
        FilterMap { handoff: Handoff::new(receiver), limit }
    }
}

impl<T: Send + 'static> ParallelStream for FilterMap<T> {
    type Item = T;

    /// The channel has been seen to end.
    open spec fn exhausted(&self) -> bool {
        self@.handoff.is_closed()
    }

    /// One poll is one poll of the handoff; see [`Handoff::polled`].
    open spec fn polled(pre: Self, post: Self, out: Poll<Option<T>>) -> bool {
        &&& Handoff::polled(pre@.handoff, post@.handoff, out)
        &&& post@.limit == pre@.limit
    }

    fn poll_next(&mut self, cx: &mut Context<'_>) -> (out: Poll<Option<T>>) {
        self.handoff.poll(cx)
    }

    fn limit(self, limit: Option<usize>) -> (limited: Self)
        ensures
            limited@ == (FilterMapView { limit, ..self@ }),
    {
        let mut limited = self;
        limited.limit = limit;
        limited
    }

    fn get_limit(&self) -> (limit: Option<usize>)
        ensures
            limit == self@.limit,
    {
        self.limit
    }
}

impl<T: Send + 'static> Fused for FilterMap<T> {
    proof fn lemma_end_is_final(pre: Self, post: Self, out: Poll<Option<T>>) {
    }
}

} // verus!
