//! A stream that stops after a fixed number of items.

use vstd::prelude::*;
use core::task::Context;
use crate::poll::{lemma_yields_take, yields, Poll};
use crate::par_stream::{is_poll_run, Fused, ParallelStream};

verus! {

/// A stream that yields the first `n` items of another stream.
///
/// This `struct` is created by the `take` method on [`ParallelStream`].
#[derive(Clone, Debug)]
pub struct Take<S> {
    stream: S,
    remaining: usize,
    limit: Option<usize>,
}

/// What a [`Take`] holds.
pub struct TakeView<S> {
    /// The wrapped stream.
    pub stream: S,
    /// How many more items may be forwarded.
    pub remaining: usize,
    /// The max concurrency limit.
    pub limit: Option<usize>,
}

impl<S> View for Take<S> {
    type V = TakeView<S>;

    closed spec fn view(&self) -> TakeView<S> {
        TakeView { stream: self.stream, remaining: self.remaining, limit: self.limit }
    }
}

/// The quota left after a poll of the wrapped stream answered `out` while
/// `remaining` items could still be forwarded: an item uses up one, the end
/// of the wrapped stream uses up all.
pub open spec fn quota_after<T>(remaining: usize, out: Poll<Option<T>>) -> usize {
    match out {
        Poll::Ready(Some(_)) => (remaining - 1) as usize,
        Poll::Ready(None) => 0,
        Poll::Pending => remaining,
    }
}

impl<S> Take<S> {
    /// A `Take` over `stream` with these parts.
    pub(crate) fn from_parts(stream: S, remaining: usize, limit: Option<usize>) -> (taken: Self)
        ensures
            taken@ == (TakeView { stream, remaining, limit }),
    {
        Take { stream, remaining, limit }
    }
}

impl<S: ParallelStream> Take<S> {
    /// Wraps `stream` so that at most `remaining` of its items come through.
    /// The new stream starts with the limit that `stream` reports.
    pub fn new(stream: S, remaining: usize) -> (taken: Self)
        ensures
            taken@.stream == stream,
            taken@.remaining == remaining,
            call_ensures(S::get_limit, (&stream,), taken@.limit),
    {
        let limit = stream.get_limit();
        Take::from_parts(stream, remaining, limit)
    }
}

impl<S: ParallelStream> ParallelStream for Take<S> {
    type Item = S::Item;

    /// The quota is used up.
    open spec fn exhausted(&self) -> bool {
        self@.remaining == 0
    }

    /// With no quota left the stream ends without touching the wrapped
    /// stream. Otherwise the wrapped stream is polled once, its answer is
    /// passed on, and the quota follows [`quota_after`].
    open spec fn polled(pre: Self, post: Self, out: Poll<Option<S::Item>>) -> bool {
        if pre@.remaining == 0 {
            out == Poll::<Option<S::Item>>::Ready(None) && post == pre
        } else {
            &&& S::polled(pre@.stream, post@.stream, out)
            &&& post@.remaining == quota_after(pre@.remaining, out)
            &&& post@.limit == pre@.limit
        }
    }

    fn poll_next(&mut self, cx: &mut Context<'_>) -> (out: Poll<Option<S::Item>>) {
        if self.remaining == 0 {
            Poll::Ready(None)
        } else {
            let next = self.stream.poll_next(cx);
            match &next {
                Poll::Ready(Some(_)) => {
                    self.remaining = self.remaining - 1;
                },
                Poll::Ready(None) => {
                    self.remaining = 0;
                },
                Poll::Pending => {},
            }
            next
        }
    }

    fn limit(self, limit: Option<usize>) -> (limited: Self)
        ensures
            limited@ == (TakeView { limit, ..self@ }),
    {
        let mut limited = self;
        limited.limit = limit;
        limited
    }

    fn get_limit(&self) -> (limit: Option<usize>)
        ensures
            limit == self@.limit,
    {
        self.limit
    }
}

impl<S: ParallelStream> Fused for Take<S> {
    proof fn lemma_end_is_final(pre: Self, post: Self, out: Poll<Option<S::Item>>) {
    }
}

proof fn lemma_take_yields_upto<S: ParallelStream>(
    states: Seq<Take<S>>,
    outs: Seq<Poll<Option<S::Item>>>,
    upto: int,
)
    requires
        is_poll_run(states, outs),
        0 <= upto <= outs.len(),
    ensures
        yields(outs.take(upto)).len() + states[upto]@.remaining <= states[0]@.remaining,
    decreases upto,
{
    if upto == 0 {
        assert(outs.take(0) =~= Seq::empty());
    } else {
        let at = upto - 1;
        lemma_take_yields_upto(states, outs, at);
        lemma_yields_take(outs, at);
        assert(Take::polled(states[at], states[at + 1], outs[at]));
    }
}

/// A `Take` yields no more items than it was made to let through: in every
/// run, the number of items yielded so far and the quota that is left add up
/// to no more than the quota at the start.
pub proof fn lemma_take_yields_at_most<S: ParallelStream>(
    states: Seq<Take<S>>,
    outs: Seq<Poll<Option<S::Item>>>,
)
    requires
        is_poll_run(states, outs),
    ensures
        yields(outs).len() + states.last()@.remaining <= states[0]@.remaining,
{
    lemma_take_yields_upto(states, outs, outs.len() as int);
    assert(outs.take(outs.len() as int) =~= outs);
}

} // verus!
