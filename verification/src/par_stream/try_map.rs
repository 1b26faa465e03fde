//! The consumer's side of a concurrent stage whose transform can fail.

use vstd::prelude::*;
use core::task::Context;
use async_std::channel::Receiver;
use crate::engine::outcome::{Outcome, Policy};
use crate::handoff::Handoff;
use crate::poll::Poll;
use crate::par_stream::{Fused, ParallelStream};
use crate::task::wake_again;

verus! {

/// A parallel stream of the results of a function that can fail, over the
/// values of another stream.
///
/// The work units of the stage hand the outcome of every item over through a
/// rendezvous channel. The consumer's side yields a value as `Ok` and an
/// error as `Err`, and passes over an item that was left out: it wakes the
/// task, so that it polls again at once, and answers `Pending`. What
/// happens after an error is the stage's [`Policy`]: the stream ends for
/// good, or goes on. Work units that were started before the stream ended
/// still run to their end.
#[derive(Debug)]
#[verifier::reject_recursive_types(T)]
#[verifier::reject_recursive_types(E)]
pub struct TryMap<T, E> {
    handoff: Handoff<Outcome<T, E>>,
    policy: Policy,
    limit: Option<usize>,
    failed: bool,
}

/// What a [`TryMap`] holds.
#[verifier::reject_recursive_types(T)]
#[verifier::reject_recursive_types(E)]
pub struct TryMapView<T, E> {
    /// The receiving end of the stage's channel.
    pub handoff: Handoff<Outcome<T, E>>,
    /// What to do after an error.
    pub policy: Policy,
    /// The max concurrency limit.
    pub limit: Option<usize>,
    /// Whether the stream has ended because of an error.
    pub failed: bool,
}

impl<T, E> View for TryMap<T, E> {
    type V = TryMapView<T, E>;

    closed spec fn view(&self) -> TryMapView<T, E> {
        TryMapView {
            handoff: self.handoff,
            policy: self.policy,
            limit: self.limit,
            failed: self.failed,
        }
    }
}

/// What a poll answers when the channel has answered `answer`: a value as
/// `Ok`, an error as `Err`, `Pending` for an item that was left out, and
/// the end or `Pending` as they are.
pub open spec fn settled<T, E>(answer: Poll<Option<Outcome<T, E>>>) -> Poll<Option<Result<T, E>>> {
    match answer {
        Poll::Ready(Some(Outcome::Success(value))) => Poll::Ready(Some(Ok(value))),
        Poll::Ready(Some(Outcome::Errored(error))) => Poll::Ready(Some(Err(error))),
        Poll::Ready(Some(Outcome::FilteredOut)) => Poll::Pending,
        Poll::Ready(None) => Poll::Ready(None),
        Poll::Pending => Poll::Pending,
    }
}

/// Whether the channel's answer `answer` ends the stream under `policy`: an
/// error does, if the policy is to fail fast.
pub open spec fn fails<T, E>(policy: Policy, answer: Poll<Option<Outcome<T, E>>>) -> bool {
    policy == Policy::FailFast && answer matches Poll::Ready(Some(Outcome::Errored(_)))
}

impl<T, E> TryMap<T, E> where T: Send + 'static, E: Send + 'static {
    /// Create a new instance of `TryMap` over the receiving end of the
    /// stage's channel, with the stage's policy and the limit of the
    /// stage's upstream. Nothing has failed yet.
    pub fn new(receiver: Receiver<Outcome<T, E>>, policy: Policy, limit: Option<usize>) -> (tried:
        Self)
        ensures
            tried@.handoff.receiver_of() == receiver,
            !tried@.handoff.is_closed(),
            tried@.policy == policy,
            tried@.limit == limit,
            !tried@.failed,
    {
        TryMap { handoff: Handoff::new(receiver), policy, limit, failed: false }
    }

    /// What a stream that has not failed makes of the handoff's answer
    /// `answer`: it answers [`settled`]`(answer)`, and has ended because of
    /// an error afterwards as [`fails`] says. Nothing else changes.
    pub fn settle(&mut self, answer: Poll<Option<Outcome<T, E>>>) -> (out: Poll<
        Option<Result<T, E>>,
    >)
        requires
            !old(self)@.failed,
        ensures
            out == settled(answer),
            final(self)@.failed == fails(old(self)@.policy, answer),
            final(self)@.policy == old(self)@.policy,
            final(self)@.limit == old(self)@.limit,
            final(self)@.handoff == old(self)@.handoff,
    {
        match answer {
            Poll::Ready(Some(Outcome::Success(value))) => Poll::Ready(Some(Ok(value))),
            Poll::Ready(Some(Outcome::Errored(error))) => {
                match self.policy {
                    Policy::FailFast => {
                        self.failed = true;
                    },
                    Policy::CollectErrors => {},
                }
                Poll::Ready(Some(Err(error)))
            },
            Poll::Ready(Some(Outcome::FilteredOut)) => Poll::Pending,
            Poll::Ready(None) => Poll::Ready(None),
            Poll::Pending => Poll::Pending,
        }
    }

    /// What to do after an error.
    pub fn policy(&self) -> (policy: Policy)
        ensures
            policy == self@.policy,
    {
        self.policy
    }
}

impl<T, E> ParallelStream for TryMap<T, E> where T: Send + 'static, E: Send + 'static {
    type Item = Result<T, E>;

    /// The stream has ended because of an error, or the channel has been
    /// seen to end.
    open spec fn exhausted(&self) -> bool {
        self@.failed || self@.handoff.is_closed()
    }

    /// A stream that has ended because of an error stays as it is and
    /// answers with the end. Otherwise one poll is one poll of the handoff
    /// (see [`Handoff::polled`]), which answers some `answer` that goes
    /// through [`TryMap::settle`]: the poll answers [`settled`]`(answer)`,
    /// and the stream has ended because of an error afterwards as
    /// [`fails`] says.
    open spec fn polled(pre: Self, post: Self, out: Poll<Option<Result<T, E>>>) -> bool {
        if pre@.failed {
            out == Poll::<Option<Result<T, E>>>::Ready(None) && post == pre
        } else {
            exists|answer: Poll<Option<Outcome<T, E>>>|
                {
                    &&& Handoff::polled(pre@.handoff, post@.handoff, answer)
                    &&& out == #[trigger] settled(answer)
                    &&& post@.failed == fails(pre@.policy, answer)
                    &&& post@.policy == pre@.policy
                    &&& post@.limit == pre@.limit
                }
        }
    }

    fn poll_next(&mut self, cx: &mut Context<'_>) -> (out: Poll<Option<Result<T, E>>>) {
        if self.failed {
            return Poll::Ready(None);
        }
        let answer = self.handoff.poll(cx);
        let left_out = match &answer {
            Poll::Ready(Some(Outcome::FilteredOut)) => true,
            _ => false,
        };
        let out = self.settle(answer);
        if left_out {
            wake_again(cx);
        }
        out
    }

    fn limit(self, limit: Option<usize>) -> (limited: Self)
        ensures
            limited@ == (TryMapView { limit, ..self@ }),
    {
        let mut limited = self;
        limited.limit = limit;
        limited
    }

    fn get_limit(&self) -> (limit: Option<usize>)
        ensures
            limit == self@.limit,
    {
        self.limit
    }
}

impl<T, E> Fused for TryMap<T, E> where T: Send + 'static, E: Send + 'static {
    proof fn lemma_end_is_final(pre: Self, post: Self, out: Poll<Option<Result<T, E>>>) {
    }
}

/// A stage that fails fast yields nothing after its first error, and a
/// stage that collects errors does not end because of one: a poll that
/// yields an error leaves the stream exhausted if the policy is to fail
/// fast, and not ended by an error otherwise.
pub proof fn lemma_error_ends_by_policy<T, E>(
    pre: TryMap<T, E>,
    post: TryMap<T, E>,
    out: Poll<Option<Result<T, E>>>,
) where T: Send + 'static, E: Send + 'static
    requires
        TryMap::polled(pre, post, out),
        out matches Poll::Ready(Some(Err(_))),
    ensures
        pre@.policy == Policy::FailFast ==> post.exhausted(),
        pre@.policy == Policy::CollectErrors ==> !post@.failed,
{
}

} // verus!
