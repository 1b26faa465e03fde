//! The consumer's side of a concurrent find-map stage.

use vstd::prelude::*;
use core::task::Context;
use async_std::channel::Receiver;
use crate::handoff::Handoff;
use crate::poll::{lemma_yields_take, yields, Poll};
use crate::par_stream::{is_poll_run, Fused, ParallelStream};

verus! {

/// A parallel stream that yields the first present result of a function
/// over the values of another stream, and then ends.
///
/// The work units of the stage hand every present result over through a
/// rendezvous channel. The consumer's side passes on the first one to
/// arrive and remembers that it has; from then on it answers with the end
/// and leaves the channel alone. Work units that were started before the
/// match still run to their end.
#[derive(Debug)]
#[verifier::reject_recursive_types(T)]
pub struct FindMap<T> {
    handoff: Handoff<T>,
    limit: Option<usize>,
    already_sent: bool,
}

/// What a [`FindMap`] holds.
#[verifier::reject_recursive_types(T)]
pub struct FindMapView<T> {
    /// The receiving end of the stage's channel.
    pub handoff: Handoff<T>,
    /// The max concurrency limit.
    pub limit: Option<usize>,
    /// Whether a match has been passed on.
    pub already_sent: bool,
}

impl<T> View for FindMap<T> {
    type V = FindMapView<T>;

    closed spec fn view(&self) -> FindMapView<T> {
        FindMapView { handoff: self.handoff, limit: self.limit, already_sent: self.already_sent }
    }
}

impl<T> FindMap<T> where T: Send + 'static {
    /// Create a new instance of `FindMap` over the receiving end of the
    /// stage's channel, with the limit of the stage's upstream. No match
    /// has been passed on yet.
    pub fn new(receiver: Receiver<T>, limit: Option<usize>) -> (found: Self)
        ensures
            found@.handoff.receiver_of() == receiver,
            !found@.handoff.is_closed(),
            found@.limit == limit,
            !found@.already_sent,
    {
        FindMap { handoff: Handoff::new(receiver), limit, already_sent: false }
    }

    /// What a stream that has passed no match on makes of the handoff's
    /// answer `answer`: the answer is passed on as it is, and an item in it
    /// is remembered as the match. Nothing else changes.
    pub fn pass_on(&mut self, answer: Poll<Option<T>>) -> (out: Poll<Option<T>>)
        requires
            !old(self)@.already_sent,
        ensures
            out == answer,
            final(self)@.already_sent == (answer is Ready && answer->Ready_0 is Some),
            final(self)@.handoff == old(self)@.handoff,
            final(self)@.limit == old(self)@.limit,
    {
        match &answer {
            Poll::Ready(Some(_)) => {
                self.already_sent = true;
            },
            _ => {},
        }
        answer
    }
}

impl<T> ParallelStream for FindMap<T> where T: Send + 'static {
    type Item = T;

    /// A match has been passed on, or the channel has been seen to end.
    open spec fn exhausted(&self) -> bool {
        self@.already_sent || self@.handoff.is_closed()
    }

    /// Once a match has been passed on, the stream stays as it is and
    /// answers with the end. Before that one poll is one poll of the
    /// handoff (see [`Handoff::polled`]), whose answer goes through
    /// [`FindMap::pass_on`]: it is passed on, and an item in it is
    /// remembered as the match.
    open spec fn polled(pre: Self, post: Self, out: Poll<Option<T>>) -> bool {
        if pre@.already_sent {
            out == Poll::<Option<T>>::Ready(None) && post == pre
        } else {
            &&& Handoff::polled(pre@.handoff, post@.handoff, out)
            &&& post@.already_sent == (out is Ready && out->Ready_0 is Some)
            &&& post@.limit == pre@.limit
        }
    }

    fn poll_next(&mut self, cx: &mut Context<'_>) -> (out: Poll<Option<T>>) {
        if self.already_sent {
            return Poll::Ready(None);
        }
        let answer = self.handoff.poll(cx);
        self.pass_on(answer)
    }

    fn limit(self, limit: Option<usize>) -> (limited: Self)
        ensures
            limited@ == (FindMapView { limit, ..self@ }),
    {
        let mut limited = self;
        limited.limit = limit;
        limited
    }

    fn get_limit(&self) -> (limit: Option<usize>)
        ensures
            limit == self@.limit,
    {
        self.limit
    }
}

impl<T> Fused for FindMap<T> where T: Send + 'static {
    proof fn lemma_end_is_final(pre: Self, post: Self, out: Poll<Option<T>>) {
    }
}

/// Whether `answers` are what the handoff answered in the polls of the run
/// `states`, `outs`: poll number `i` of a stream that had passed no match
/// on got `answers[i]` from the handoff and passed it on as
/// [`FindMap::pass_on`] says. For a poll of a stream that had passed its
/// match on, in which the handoff is not asked, `answers[i]` is `Pending`.
pub open spec fn is_find_map_run_over<T: Send + 'static>(
    states: Seq<FindMap<T>>,
    outs: Seq<Poll<Option<T>>>,
    answers: Seq<Poll<Option<T>>>,
) -> bool {
    &&& states.len() == outs.len() + 1
    &&& answers.len() == outs.len()
    &&& forall|i: int|
        #![trigger states[i]]
        0 <= i < outs.len() ==> if states[i]@.already_sent {
            &&& outs[i] == Poll::<Option<T>>::Ready(None)
            &&& states[i + 1] == states[i]
            &&& answers[i] is Pending
        } else {
            &&& Handoff::polled(states[i]@.handoff, states[i + 1]@.handoff, answers[i])
            &&& outs[i] == answers[i]
            &&& states[i + 1]@.already_sent == (answers[i] is Ready && answers[i]->Ready_0 is Some)
        }
}

/// What the handoff answered in poll number `at` of a run, with `Pending`
/// standing for a poll in which it was not asked.
pub open spec fn handoff_answered<T: Send + 'static>(
    states: Seq<FindMap<T>>,
    outs: Seq<Poll<Option<T>>>,
    at: int,
) -> Poll<Option<T>> {
    if states[at]@.already_sent {
        Poll::Pending
    } else {
        outs[at]
    }
}

/// Every run of a `FindMap` has the answers of the handoff that it is a
/// run over.
pub proof fn lemma_find_map_run_has_answers<T: Send + 'static>(
    states: Seq<FindMap<T>>,
    outs: Seq<Poll<Option<T>>>,
) -> (answers: Seq<Poll<Option<T>>>)
    requires
        is_poll_run(states, outs),
    ensures
        is_find_map_run_over(states, outs, answers),
{
    let answers = Seq::new(outs.len(), |i: int| handoff_answered(states, outs, i));
    assert forall|i: int| #![trigger states[i]] 0 <= i < outs.len() implies if states[i]@.already_sent {
        &&& outs[i] == Poll::<Option<T>>::Ready(None)
        &&& states[i + 1] == states[i]
        &&& answers[i] is Pending
    } else {
        &&& Handoff::polled(states[i]@.handoff, states[i + 1]@.handoff, answers[i])
        &&& outs[i] == answers[i]
        &&& states[i + 1]@.already_sent == (answers[i] is Ready && answers[i]->Ready_0 is Some)
    } by {
        assert(FindMap::polled(states[i], states[i + 1], outs[i]));
    }
    answers
}

/// The first of `items`, alone, and nothing if there is none.
pub open spec fn first_of<T>(items: Seq<T>) -> Seq<T> {
    if items.len() > 0 {
        seq![items[0]]
    } else {
        Seq::empty()
    }
}

proof fn lemma_find_map_yields_upto<T: Send + 'static>(
    states: Seq<FindMap<T>>,
    outs: Seq<Poll<Option<T>>>,
    answers: Seq<Poll<Option<T>>>,
    upto: int,
)
    requires
        is_find_map_run_over(states, outs, answers),
        !states[0]@.already_sent,
        0 <= upto <= outs.len(),
    ensures
        yields(outs.take(upto)) == yields(answers.take(upto)),
        yields(outs.take(upto)).len() <= 1,
        states[upto]@.already_sent == (yields(outs.take(upto)).len() == 1),
    decreases upto,
{
    if upto == 0 {
        assert(outs.take(0) =~= Seq::empty());
        assert(answers.take(0) =~= Seq::empty());
    } else {
        let at = upto - 1;
        lemma_find_map_yields_upto(states, outs, answers, at);
        lemma_yields_take(outs, at);
        lemma_yields_take(answers, at);
        assert(yields(outs.take(upto)) =~= yields(answers.take(upto)));
    }
}

/// A `FindMap` yields the first item that the handoff hands over, and
/// nothing after it: in every run of a stream that starts with no match
/// passed on, what the stream has yielded is what the handoff has handed
/// over while it was asked, which is one item at most, and the stream has
/// passed a match on exactly if it has yielded one.
pub proof fn lemma_find_map_yields<T: Send + 'static>(
    states: Seq<FindMap<T>>,
    outs: Seq<Poll<Option<T>>>,
    answers: Seq<Poll<Option<T>>>,
)
    requires
        is_find_map_run_over(states, outs, answers),
        !states[0]@.already_sent,
    ensures
        yields(outs) == yields(answers),
        yields(outs) == first_of(yields(answers)),
        states.last()@.already_sent == (yields(outs).len() == 1),
{
    lemma_find_map_yields_upto(states, outs, answers, outs.len() as int);
    assert(outs.take(outs.len() as int) =~= outs);
    assert(answers.take(outs.len() as int) =~= answers);
    assert(yields(outs) =~= first_of(yields(answers)));
}

} // verus!
