//! A stream that never ends.

use vstd::prelude::*;
use core::task::Context;
use crate::poll::Poll;
use crate::par_stream::{Fused, ParallelStream};

verus! {

/// A parallel stream that yields the same item again and again, forever.
///
/// This stream is created by the [`repeat`] function.
#[derive(Clone, Debug)]
pub struct Repeat<T> {
    item: T,
    limit: Option<usize>,
}

/// What a [`Repeat`] holds.
pub struct RepeatView<T> {
    /// The item that is yielded.
    pub item: T,
    /// The max concurrency limit.
    pub limit: Option<usize>,
}

impl<T> View for Repeat<T> {
    type V = RepeatView<T>;

    closed spec fn view(&self) -> RepeatView<T> {
        RepeatView { item: self.item, limit: self.limit }
    }
}

/// Creates a parallel stream that yields `item` forever. It has no limit.
pub fn repeat<T: Copy>(item: T) -> (stream: Repeat<T>)
    ensures
        stream@ == (RepeatView { item, limit: None }),
{
    Repeat { item, limit: None }
}

impl<T: Copy + Send + Sync + 'static> ParallelStream for Repeat<T> {
    type Item = T;

    /// The stream never ends.
    open spec fn exhausted(&self) -> bool {
        false
    }

    /// Every poll yields the item and leaves the stream as it is.
    open spec fn polled(pre: Self, post: Self, out: Poll<Option<T>>) -> bool {
        out == Poll::Ready(Some(pre@.item)) && post == pre
    }

    fn poll_next(&mut self, cx: &mut Context<'_>) -> (out: Poll<Option<T>>) {
        Poll::Ready(Some(self.item))
    }

    fn limit(self, limit: Option<usize>) -> (limited: Self)
        ensures
            limited@ == (RepeatView { limit, ..self@ }),
    {
        let mut limited = self;
        limited.limit = limit;
        limited
    }

    fn get_limit(&self) -> (limit: Option<usize>)
        ensures
            limit == self@.limit,
    {
        self.limit
    }
}

impl<T: Copy + Send + Sync + 'static> Fused for Repeat<T> {
    proof fn lemma_end_is_final(pre: Self, post: Self, out: Poll<Option<T>>) {
    }
}

} // verus!
