//! The consumer's side of a concurrent effect-only stage.

use vstd::prelude::*;
use core::task::Context;
use async_std::channel::Receiver;
use crate::handoff::Handoff;
use crate::poll::Poll;

verus! {

/// Call a closure on each element of the stream.
///
/// A `ForEach` is what the caller awaits. It resolves when the completion
/// signal arrives on the stage's channel, or when that channel closes, which
/// happens once the pump and every work unit are gone.
#[derive(Debug)]
pub struct ForEach {
    // Receives the completion signal.
    handoff: Handoff<()>,
    // Max concurrency limit.
    limit: Option<usize>,
}

/// What a poll of a [`ForEach`] answers when its channel answers `answer`:
/// it is ready as soon as the channel is, with a signal or with its end.
pub open spec fn completion<T>(answer: Poll<Option<T>>) -> Poll<()> {
    match answer {
        Poll::Ready(_) => Poll::Ready(()),
        Poll::Pending => Poll::Pending,
    }
}

/// Computes [`completion`].
pub fn completion_of<T>(answer: Poll<Option<T>>) -> (out: Poll<()>)
    ensures
        out == completion(answer),
{
    match answer {
        Poll::Ready(_) => Poll::Ready(()),
        Poll::Pending => Poll::Pending,
    }
}

impl ForEach {
    /// The channel on which the completion signal arrives.
    pub closed spec fn handoff(&self) -> Handoff<()> {
        self.handoff
    }

    /// The max concurrency limit.
    pub closed spec fn limit(&self) -> Option<usize> {
        self.limit
    }

    /// Create a new instance of `ForEach` over the receiving end of the
    /// stage's channel, with the limit of the stage's upstream.
    pub fn new(receiver: Receiver<()>, limit: Option<usize>) -> (each: Self)
        ensures
            each.handoff().receiver_of() == receiver,
            !each.handoff().is_closed(),
            each.limit() == limit,
    {
        ForEach { handoff: Handoff::new(receiver), limit }
    }

    /// The max concurrency limit.
    pub fn get_limit(&self) -> (limit: Option<usize>)
        ensures
            limit == self.limit(),
    {
        self.limit
    }

    /// Asks whether the stage has completed: one poll of the handoff (see
    /// [`Handoff::polled`]), answered as [`completion`] says.
    pub fn poll(&mut self, cx: &mut Context<'_>) -> (out: Poll<()>)
        ensures
            final(self).limit() == old(self).limit(),
            exists|answer: Poll<Option<()>>|
                Handoff::polled(old(self).handoff(), final(self).handoff(), answer) && out
                    == #[trigger] completion(answer),
    {
        let answer = self.handoff.poll(cx);
        completion_of(answer)
    }
}

} // verus!
