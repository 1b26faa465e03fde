//! The rendezvous channel of a stage, and the consumer's end of it.

use vstd::prelude::*;
use core::pin::Pin;
use core::task::Context;
use async_std::channel::{bounded, Receiver, Sender};
use async_std::stream::Stream;
use crate::poll::Poll;

verus! {

/// `async_std::channel::Receiver`: the receiving end of a channel. Nothing
/// is known of what it holds, nor of what the channel holds.
#[verifier::external_type_specification]
#[verifier::external_body]
#[verifier::reject_recursive_types(T)]
pub struct ExReceiver<T>(Receiver<T>);

/// `async_std::channel::Sender`: a sending end of a channel. Nothing is
/// known of what it holds, nor of what the channel holds.
#[verifier::external_type_specification]
#[verifier::external_body]
#[verifier::reject_recursive_types(T)]
pub struct ExSender<T>(Sender<T>);

/// The capacity of a rendezvous channel: one value that has been sent and
/// not yet received.
pub const RENDEZVOUS_CAPACITY: usize = 1;

/// Creates a channel through `async_std::channel::bounded`, which gives the
/// two ends of a new channel for at most `cap` values at a time and panics
/// if `cap` is 0.
///
/// Nothing is claimed of the two ends.
#[verifier::external_body]
fn bounded_channel<T>(cap: usize) -> (ends: (Sender<T>, Receiver<T>))
    requires
        cap > 0,
{
    bounded(cap)
}

/// Creates the rendezvous channel of a stage: a channel with room for one
/// value ([`RENDEZVOUS_CAPACITY`]). A work unit that has a result while
/// another result waits in the channel is held up until the consumer has
/// taken that one out; this is the stage's backpressure.
pub fn rendezvous<T>() -> (ends: (Sender<T>, Receiver<T>)) {
    bounded_channel(RENDEZVOUS_CAPACITY)
}

/// Polls the channel through `Stream::poll_next` of
/// `async_std::channel::Receiver`: a value that a sender has handed over,
/// the end once the channel is empty and every sender is gone, or
/// `Pending` with the task registered for the next send or close.
///
/// Which of these comes back depends on what the other tasks have done, so
/// nothing is claimed of the answer.
#[verifier::external_body]
fn poll_receiver<T>(receiver: &mut Receiver<T>, cx: &mut Context<'_>) -> (out: Poll<Option<T>>) {
    match Stream::poll_next(Pin::new(receiver), cx) {
        core::task::Poll::Ready(next) => Poll::Ready(next),
        core::task::Poll::Pending => Poll::Pending,
    }
}

/// The receiving end of a rendezvous channel, which remembers that the
/// channel has ended: after the first end-of-stream it is not asked again.
#[derive(Debug)]
#[verifier::reject_recursive_types(T)]
pub struct Handoff<T> {
    receiver: Receiver<T>,
    closed: bool,
}

impl<T> Handoff<T> {
    /// Whether the channel has been seen to end.
    pub closed spec fn is_closed(&self) -> bool {
        self.closed
    }

    /// The receiving end that is polled.
    pub closed spec fn receiver_of(&self) -> Receiver<T> {
        self.receiver
    }

    /// Takes over `receiver`, the receiving end of a channel that has not
    /// ended yet.
    pub fn new(receiver: Receiver<T>) -> (handoff: Self)
        ensures
            handoff.receiver_of() == receiver,
            !handoff.is_closed(),
    {
        Handoff { receiver, closed: false }
    }

    /// Whether one poll may take the handoff from `pre` to `post` with the
    /// answer `out`: a closed handoff stays as it is and answers with the
    /// end; an open one answers as the channel does, and is closed
    /// afterwards exactly if that answer was the end.
    pub open spec fn polled(pre: Self, post: Self, out: Poll<Option<T>>) -> bool {
        if pre.is_closed() {
            out == Poll::<Option<T>>::Ready(None) && post == pre
        } else {
            post.is_closed() == (out == Poll::<Option<T>>::Ready(None))
        }
    }

    /// What an open handoff makes of the channel's answer `answer`: the
    /// answer is handed on as it is, and the handoff is closed afterwards
    /// exactly if the answer was the end. The receiving end stays the same.
    pub fn hand_on(&mut self, answer: Poll<Option<T>>) -> (out: Poll<Option<T>>)
        requires
            !old(self).is_closed(),
        ensures
            out == answer,
            final(self).is_closed() == (answer == Poll::<Option<T>>::Ready(None)),
            final(self).receiver_of() == old(self).receiver_of(),
    {
        match &answer {
            Poll::Ready(None) => {
                self.closed = true;
            },
            _ => {},
        }
        answer
    }

    /// Asks for the next value: a closed handoff answers with the end, an
    /// open one polls the channel and hands the answer on through
    /// [`Handoff::hand_on`]; see [`Handoff::polled`].
    pub fn poll(&mut self, cx: &mut Context<'_>) -> (out: Poll<Option<T>>)
        ensures
            Self::polled(*old(self), *final(self), out),
    {
        if self.closed {
            Poll::Ready(None)
        } else {
            let answer = poll_receiver(&mut self.receiver, cx);
            self.hand_on(answer)
        }
    }
}

} // verus!
