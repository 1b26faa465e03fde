//! A stream that numbers the items of another stream.

use vstd::prelude::*;
use core::task::Context;
use crate::poll::{lemma_yields_take, yields, Poll};
use crate::par_stream::{is_poll_run, Fused, ParallelStream};

verus! {

/// A stream that yields the current count and element.
///
/// The first item is numbered 0, and each item one more than the item
/// before it. No number is given twice: a stream that has given out every
/// number below `usize::MAX` ends. Once the wrapped stream has signalled its
/// end it is not polled again.
///
/// This `struct` is created by the `enumerate` method on
/// [`ParallelStream`].
#[derive(Clone, Debug)]
pub struct Enumerate<S> {
    stream: S,
    count: usize,
    limit: Option<usize>,
    done: bool,
}

/// What an [`Enumerate`] holds.
pub struct EnumerateView<S> {
    /// The wrapped stream.
    pub stream: S,
    /// The number of the next item.
    pub count: usize,
    /// The max concurrency limit.
    pub limit: Option<usize>,
    /// Whether the wrapped stream has signalled its end.
    pub done: bool,
}

impl<S> View for Enumerate<S> {
    type V = EnumerateView<S>;

    closed spec fn view(&self) -> EnumerateView<S> {
        EnumerateView {
            stream: self.stream,
            count: self.count,
            limit: self.limit,
            done: self.done,
        }
    }
}

/// The answer `answer` with its item, if it has one, numbered `count`.
pub open spec fn numbered<T>(answer: Poll<Option<T>>, count: usize) -> Poll<Option<(usize, T)>> {
    match answer {
        Poll::Ready(Some(item)) => Poll::Ready(Some((count, item))),
        Poll::Ready(None) => Poll::Ready(None),
        Poll::Pending => Poll::Pending,
    }
}

/// The number of the next item after the wrapped stream has answered
/// `answer` while the next item's number was `count`.
pub open spec fn count_after<T>(count: usize, answer: Poll<Option<T>>) -> usize {
    match answer {
        Poll::Ready(Some(_)) => (count + 1) as usize,
        _ => count,
    }
}

/// One round of an [`Enumerate`] that is not exhausted, given the answer
/// `answer` of one poll of the wrapped stream: the poll answers
/// [`numbered`]`(answer, count)`, the count follows [`count_after`], and the
/// end of the wrapped stream is remembered.
pub open spec fn enumerate_round<S: ParallelStream>(
    pre: EnumerateView<S>,
    post: EnumerateView<S>,
    out: Poll<Option<(usize, S::Item)>>,
    answer: Poll<Option<S::Item>>,
) -> bool {
    &&& S::polled(pre.stream, post.stream, answer)
    &&& out == numbered(answer, pre.count)
    &&& post.count == count_after(pre.count, answer)
    &&& post.done == (answer == Poll::<Option<S::Item>>::Ready(None))
    &&& post.limit == pre.limit
}

/// Computes [`numbered`].
pub fn number<T>(answer: Poll<Option<T>>, count: usize) -> (out: Poll<Option<(usize, T)>>)
    ensures
        out == numbered(answer, count),
{
    match answer {
        Poll::Ready(Some(item)) => Poll::Ready(Some((count, item))),
        Poll::Ready(None) => Poll::Ready(None),
        Poll::Pending => Poll::Pending,
    }
}

impl<S> Enumerate<S> {
    /// An `Enumerate` over `stream` that has not ended, with these parts.
    pub(crate) fn from_parts(stream: S, count: usize, limit: Option<usize>) -> (numbering: Self)
        ensures
            numbering@ == (EnumerateView { stream, count, limit, done: false }),
    {
        Enumerate { stream, count, limit, done: false }
    }
}

impl<S: ParallelStream> Enumerate<S> {
    /// Wraps `stream` so that its items come numbered from 0. The new
    /// stream starts with the limit that `stream` reports.
    pub fn new(stream: S) -> (numbering: Self)
        ensures
            numbering@.stream == stream,
            numbering@.count == 0,
            !numbering@.done,
            call_ensures(S::get_limit, (&stream,), numbering@.limit),
    {
        let limit = stream.get_limit();
        Enumerate::from_parts(stream, 0, limit)
    }
}

impl<S: ParallelStream> ParallelStream for Enumerate<S> {
    type Item = (usize, S::Item);

    /// The wrapped stream has signalled its end, or the numbers are used
    /// up.
    open spec fn exhausted(&self) -> bool {
        self@.done || self@.count == usize::MAX
    }

    /// An exhausted stream stays as it is and answers with the end.
    /// Otherwise the poll is one round; see [`enumerate_round`].
    open spec fn polled(pre: Self, post: Self, out: Poll<Option<(usize, S::Item)>>) -> bool {
        if pre.exhausted() {
            out == Poll::<Option<(usize, S::Item)>>::Ready(None) && post == pre
        } else {
            exists|answer: Poll<Option<S::Item>>| enumerate_round(pre@, post@, out, answer)
        }
    }

    fn poll_next(&mut self, cx: &mut Context<'_>) -> (out: Poll<Option<(usize, S::Item)>>) {
        if self.done || self.count == usize::MAX {
            return Poll::Ready(None);
        }
        let answer = self.stream.poll_next(cx);
        let ghost seen = answer;
        let count = self.count;
        match &answer {
            Poll::Ready(Some(_)) => {
                self.count = count + 1;
            },
            Poll::Ready(None) => {
                self.done = true;
            },
            Poll::Pending => {},
        }
        let out = number(answer, count);
        assert(enumerate_round(old(self)@, self@, out, seen));
        out
    }

    fn limit(self, limit: Option<usize>) -> (limited: Self)
        ensures
            limited@ == (EnumerateView { limit, ..self@ }),
    {
        let mut limited = self;
        limited.limit = limit;
        limited
    }

    fn get_limit(&self) -> (limit: Option<usize>)
        ensures
            limit == self@.limit,
    {
        self.limit
    }
}

impl<S: ParallelStream> Fused for Enumerate<S> {
    proof fn lemma_end_is_final(pre: Self, post: Self, out: Poll<Option<(usize, S::Item)>>) {
    }
}

/// Whether `answers` are what the wrapped stream answered in the polls of
/// the run `states`, `outs`: poll number `i` of a stream that was not
/// exhausted was the round [`enumerate_round`] with `answers[i]`. For a poll
/// of an exhausted stream, in which the wrapped stream is not asked,
/// `answers[i]` is `Pending`.
pub open spec fn is_enumerate_run_over<S: ParallelStream>(
    states: Seq<Enumerate<S>>,
    outs: Seq<Poll<Option<(usize, S::Item)>>>,
    answers: Seq<Poll<Option<S::Item>>>,
) -> bool {
    &&& states.len() == outs.len() + 1
    &&& answers.len() == outs.len()
    &&& forall|i: int|
        #![trigger states[i]]
        0 <= i < outs.len() ==> if states[i].exhausted() {
            &&& outs[i] == Poll::<Option<(usize, S::Item)>>::Ready(None)
            &&& states[i + 1] == states[i]
            &&& answers[i] is Pending
        } else {
            enumerate_round(states[i]@, states[i + 1]@, outs[i], answers[i])
        }
}

/// An answer of the wrapped stream that makes the round, if there is one.
pub open spec fn some_answer<S: ParallelStream>(
    pre: Enumerate<S>,
    post: Enumerate<S>,
    out: Poll<Option<(usize, S::Item)>>,
) -> Poll<Option<S::Item>> {
    if pre.exhausted() {
        Poll::Pending
    } else {
        choose|answer: Poll<Option<S::Item>>| enumerate_round(pre@, post@, out, answer)
    }
}

/// Every run of an `Enumerate` has the answers of the wrapped stream that
/// it is a run over.
pub proof fn lemma_enumerate_run_has_answers<S: ParallelStream>(
    states: Seq<Enumerate<S>>,
    outs: Seq<Poll<Option<(usize, S::Item)>>>,
) -> (answers: Seq<Poll<Option<S::Item>>>)
    requires
        is_poll_run(states, outs),
    ensures
        is_enumerate_run_over(states, outs, answers),
{
    let answers = Seq::new(outs.len(), |i: int| some_answer(states[i], states[i + 1], outs[i]));
    assert forall|i: int| #![trigger states[i]] 0 <= i < outs.len() implies if states[i].exhausted() {
        &&& outs[i] == Poll::<Option<(usize, S::Item)>>::Ready(None)
        &&& states[i + 1] == states[i]
        &&& answers[i] is Pending
    } else {
        enumerate_round(states[i]@, states[i + 1]@, outs[i], answers[i])
    } by {
        assert(Enumerate::polled(states[i], states[i + 1], outs[i]));
    }
    answers
}

/// `items`, each with its number, counting from `base`.
pub open spec fn numbered_from<T>(items: Seq<T>, base: int) -> Seq<(usize, T)> {
    Seq::new(items.len(), |j: int| ((base + j) as usize, items[j]))
}

proof fn lemma_enumerate_yields_upto<S: ParallelStream>(
    states: Seq<Enumerate<S>>,
    outs: Seq<Poll<Option<(usize, S::Item)>>>,
    answers: Seq<Poll<Option<S::Item>>>,
    upto: int,
)
    requires
        is_enumerate_run_over(states, outs, answers),
        0 <= upto <= outs.len(),
    ensures
        yields(outs.take(upto)) == numbered_from(
            yields(answers.take(upto)),
            states[0]@.count as int,
        ),
        states[upto]@.count == states[0]@.count + yields(answers.take(upto)).len(),
    decreases upto,
{
    let base = states[0]@.count as int;
    if upto == 0 {
        assert(outs.take(0) =~= Seq::empty());
        assert(answers.take(0) =~= Seq::empty());
        assert(yields(outs.take(0)) =~= numbered_from(yields(answers.take(0)), base));
    } else {
        let at = upto - 1;
        lemma_enumerate_yields_upto(states, outs, answers, at);
        lemma_yields_take(outs, at);
        lemma_yields_take(answers, at);
        assert(yields(outs.take(upto)) =~= numbered_from(yields(answers.take(upto)), base));
    }
}

/// An `Enumerate` yields the items of the wrapped stream unchanged and in
/// order, each with a number that is one more than the number before it: in
/// every run, what the `Enumerate` has yielded is what the wrapped stream
/// has yielded, numbered from where the count stood at the start.
pub proof fn lemma_enumerate_yields<S: ParallelStream>(
    states: Seq<Enumerate<S>>,
    outs: Seq<Poll<Option<(usize, S::Item)>>>,
    answers: Seq<Poll<Option<S::Item>>>,
)
    requires
        is_enumerate_run_over(states, outs, answers),
    ensures
        yields(outs) == numbered_from(yields(answers), states[0]@.count as int),
        states.last()@.count == states[0]@.count + yields(answers).len(),
{
    lemma_enumerate_yields_upto(states, outs, answers, outs.len() as int);
    assert(outs.take(outs.len() as int) =~= outs);
    assert(answers.take(outs.len() as int) =~= answers);
}

} // verus!
