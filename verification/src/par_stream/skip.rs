//! A stream that leaves out the first items of another stream.

use vstd::prelude::*;
use core::task::Context;
use crate::poll::{lemma_yields_take, yields, Poll};
use crate::par_stream::{is_poll_run, Fused, ParallelStream};
use crate::task::wake_again;

verus! {

/// A stream that skips the first `n` items of another stream.
///
/// Each poll polls the wrapped stream once. While items are still to be
/// skipped, an item that arrives is dropped, the task is woken so that it
/// polls again at once, and the poll answers `Pending`. After that every
/// answer of the wrapped stream is passed on as it is, in order. Once the
/// wrapped stream has signalled its end it is not polled again.
///
/// This `struct` is created by the `skip` method on [`ParallelStream`].
#[derive(Clone, Debug)]
pub struct Skip<S> {
    stream: S,
    remaining: usize,
    limit: Option<usize>,
    done: bool,
}

/// What a [`Skip`] holds.
pub struct SkipView<S> {
    /// The wrapped stream.
    pub stream: S,
    /// How many more items are to be dropped.
    pub remaining: usize,
    /// The max concurrency limit.
    pub limit: Option<usize>,
    /// Whether the wrapped stream has signalled its end.
    pub done: bool,
}

impl<S> View for Skip<S> {
    type V = SkipView<S>;

    closed spec fn view(&self) -> SkipView<S> {
        SkipView {
            stream: self.stream,
            remaining: self.remaining,
            limit: self.limit,
            done: self.done,
        }
    }
}

/// Whether the answer `answer` of the wrapped stream is dropped while
/// `remaining` items are still to be skipped: it is, if it holds an item and
/// `remaining` is not 0.
pub open spec fn drops<T>(remaining: usize, answer: Poll<Option<T>>) -> bool {
    remaining > 0 && answer is Ready && answer->Ready_0 is Some
}

/// What a poll answers when the wrapped stream has answered `answer` while
/// `remaining` items were still to be skipped.
pub open spec fn skipped<T>(remaining: usize, answer: Poll<Option<T>>) -> Poll<Option<T>> {
    if drops(remaining, answer) {
        Poll::Pending
    } else {
        answer
    }
}

/// How many items are still to be skipped after the wrapped stream has
/// answered `answer` while `remaining` were.
pub open spec fn to_skip_after<T>(remaining: usize, answer: Poll<Option<T>>) -> usize {
    if drops(remaining, answer) {
        (remaining - 1) as usize
    } else {
        remaining
    }
}

/// One round of a [`Skip`] that has not ended, given the answer `answer`
/// of one poll of the wrapped stream: the poll answers
/// [`skipped`]`(remaining, answer)`, the number of items still to be
/// skipped follows [`to_skip_after`], and the end of the wrapped stream is
/// remembered.
pub open spec fn skip_round<S: ParallelStream>(
    pre: SkipView<S>,
    post: SkipView<S>,
    out: Poll<Option<S::Item>>,
    answer: Poll<Option<S::Item>>,
) -> bool {
    &&& S::polled(pre.stream, post.stream, answer)
    &&& out == skipped(pre.remaining, answer)
    &&& post.remaining == to_skip_after(pre.remaining, answer)
    &&& post.done == (answer == Poll::<Option<S::Item>>::Ready(None))
    &&& post.limit == pre.limit
}

impl<S> Skip<S> {
    /// A `Skip` over `stream` that has not ended, with these parts.
    pub(crate) fn from_parts(stream: S, remaining: usize, limit: Option<usize>) -> (skipping: Self)
        ensures
            skipping@ == (SkipView { stream, remaining, limit, done: false }),
    {
        Skip { stream, remaining, limit, done: false }
    }
}

impl<S: ParallelStream> Skip<S> {
    /// Wraps `stream` so that its first `skipped` items are left out. The
    /// new stream starts with the limit that `stream` reports.
    pub fn new(stream: S, skipped: usize) -> (skipping: Self)
        ensures
            skipping@.stream == stream,
            skipping@.remaining == skipped,
            !skipping@.done,
            call_ensures(S::get_limit, (&stream,), skipping@.limit),
    {
        let limit = stream.get_limit();
        Skip::from_parts(stream, skipped, limit)
    }
}

impl<S: ParallelStream> ParallelStream for Skip<S> {
    type Item = S::Item;

    /// The wrapped stream has signalled its end.
    open spec fn exhausted(&self) -> bool {
        self@.done
    }

    /// A stream that has ended stays as it is and answers with the end.
    /// Otherwise the poll is one round; see [`skip_round`].
    open spec fn polled(pre: Self, post: Self, out: Poll<Option<S::Item>>) -> bool {
        if pre@.done {
            out == Poll::<Option<S::Item>>::Ready(None) && post == pre
        } else {
            exists|answer: Poll<Option<S::Item>>| skip_round(pre@, post@, out, answer)
        }
    }

    fn poll_next(&mut self, cx: &mut Context<'_>) -> (out: Poll<Option<S::Item>>) {
        if self.done {
            return Poll::Ready(None);
        }
        let answer = self.stream.poll_next(cx);
        let ghost seen = answer;
        let out = match answer {
            Poll::Ready(Some(item)) => {
                if self.remaining > 0 {
                    self.remaining = self.remaining - 1;
                    wake_again(cx);
                    Poll::Pending
                } else {
                    Poll::Ready(Some(item))
                }
            },
            Poll::Ready(None) => {
                self.done = true;
                Poll::Ready(None)
            },
            Poll::Pending => Poll::Pending,
        };
        assert(skip_round(old(self)@, self@, out, seen));
        out
    }

    fn limit(self, limit: Option<usize>) -> (limited: Self)
        ensures
            limited@ == (SkipView { limit, ..self@ }),
    {
        let mut limited = self;
        limited.limit = limit;
        limited
    }

    fn get_limit(&self) -> (limit: Option<usize>)
        ensures
            limit == self@.limit,
    {
        self.limit
    }
}

impl<S: ParallelStream> Fused for Skip<S> {
    proof fn lemma_end_is_final(pre: Self, post: Self, out: Poll<Option<S::Item>>) {
    }
}

/// Whether `answers` are what the wrapped stream answered in the polls of
/// the run `states`, `outs`: poll number `i` of a stream that had not ended
/// was the round [`skip_round`] with `answers[i]`. For a poll of a stream
/// that had ended, in which the wrapped stream is not asked, `answers[i]`
/// is `Pending`.
pub open spec fn is_skip_run_over<S: ParallelStream>(
    states: Seq<Skip<S>>,
    outs: Seq<Poll<Option<S::Item>>>,
    answers: Seq<Poll<Option<S::Item>>>,
) -> bool {
    &&& states.len() == outs.len() + 1
    &&& answers.len() == outs.len()
    &&& forall|i: int|
        #![trigger states[i]]
        0 <= i < outs.len() ==> if states[i]@.done {
            &&& outs[i] == Poll::<Option<S::Item>>::Ready(None)
            &&& states[i + 1] == states[i]
            &&& answers[i] is Pending
        } else {
            skip_round(states[i]@, states[i + 1]@, outs[i], answers[i])
        }
}

/// `items` without its first `n`, and nothing if it has no more than `n`.
pub open spec fn without_first<T>(items: Seq<T>, n: int) -> Seq<T> {
    if n <= items.len() {
        items.skip(n)
    } else {
        Seq::empty()
    }
}

/// An answer of the wrapped stream that makes the round, if there is one.
pub open spec fn some_answer<S: ParallelStream>(
    pre: Skip<S>,
    post: Skip<S>,
    out: Poll<Option<S::Item>>,
) -> Poll<Option<S::Item>> {
    if pre@.done {
        Poll::Pending
    } else {
        choose|answer: Poll<Option<S::Item>>| skip_round(pre@, post@, out, answer)
    }
}

/// Every run of a `Skip` has the answers of the wrapped stream that it is a
/// run over.
pub proof fn lemma_skip_run_has_answers<S: ParallelStream>(
    states: Seq<Skip<S>>,
    outs: Seq<Poll<Option<S::Item>>>,
) -> (answers: Seq<Poll<Option<S::Item>>>)
    requires
        is_poll_run(states, outs),
    ensures
        is_skip_run_over(states, outs, answers),
{
    let answers = Seq::new(outs.len(), |i: int| some_answer(states[i], states[i + 1], outs[i]));
    assert forall|i: int| #![trigger states[i]] 0 <= i < outs.len() implies if states[i]@.done {
        &&& outs[i] == Poll::<Option<S::Item>>::Ready(None)
        &&& states[i + 1] == states[i]
        &&& answers[i] is Pending
    } else {
        skip_round(states[i]@, states[i + 1]@, outs[i], answers[i])
    } by {
        assert(Skip::polled(states[i], states[i + 1], outs[i]));
    }
    answers
}

proof fn lemma_skip_yields_upto<S: ParallelStream>(
    states: Seq<Skip<S>>,
    outs: Seq<Poll<Option<S::Item>>>,
    answers: Seq<Poll<Option<S::Item>>>,
    upto: int,
)
    requires
        is_skip_run_over(states, outs, answers),
        0 <= upto <= outs.len(),
    ensures
        yields(outs.take(upto)) == without_first(
            yields(answers.take(upto)),
            states[0]@.remaining as int,
        ),
        states[upto]@.remaining == if yields(answers.take(upto)).len() <= states[0]@.remaining {
            states[0]@.remaining - yields(answers.take(upto)).len()
        } else {
            0
        },
    decreases upto,
{
    let n = states[0]@.remaining as int;
    if upto == 0 {
        assert(outs.take(0) =~= Seq::empty());
        assert(answers.take(0) =~= Seq::empty());
        assert(yields(outs.take(0)) =~= without_first(yields(answers.take(0)), n));
    } else {
        let at = upto - 1;
        lemma_skip_yields_upto(states, outs, answers, at);
        lemma_yields_take(outs, at);
        lemma_yields_take(answers, at);
        assert(yields(outs.take(upto)) =~= without_first(yields(answers.take(upto)), n));
    }
}

/// A `Skip` leaves out the first items of the wrapped stream, as many as it
/// was made to skip, and yields every item after them unchanged and in
/// order: in every run, what the `Skip` has yielded is what the wrapped
/// stream has yielded without its first `remaining` items.
pub proof fn lemma_skip_yields<S: ParallelStream>(
    states: Seq<Skip<S>>,
    outs: Seq<Poll<Option<S::Item>>>,
    answers: Seq<Poll<Option<S::Item>>>,
)
    requires
        is_skip_run_over(states, outs, answers),
    ensures
        yields(outs) == without_first(yields(answers), states[0]@.remaining as int),
{
    lemma_skip_yields_upto(states, outs, answers, outs.len() as int);
    assert(outs.take(outs.len() as int) =~= outs);
    assert(answers.take(outs.len() as int) =~= answers);
}

} // verus!
