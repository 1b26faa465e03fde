//! Parallel types for `Vec`.
//!
//! You will rarely need to interact with this module directly unless you need to
//! name one of the stream types.

use vstd::prelude::*;
use core::task::Context;
use crate::into_parallel_stream::IntoParallelStream;
use crate::poll::{lemma_yields_take, yields, Poll};
use crate::par_stream::{is_poll_run, Fused, ParallelStream};
use crate::task::wake_again;

verus! {

/// Parallel stream that moves out of a vector.
///
/// It yields the vector's items in their order, one with every poll, and
/// then ends.
#[derive(Debug)]
pub struct IntoParStream<T> {
    // The items that are left, last one first.
    stack: Vec<T>,
    limit: Option<usize>,
}

/// What an [`IntoParStream`] holds.
pub struct IntoParStreamView<T> {
    /// The items that are left, next one first.
    pub remaining: Seq<T>,
    /// The max concurrency limit.
    pub limit: Option<usize>,
}

impl<T> View for IntoParStream<T> {
    type V = IntoParStreamView<T>;

    closed spec fn view(&self) -> IntoParStreamView<T> {
        IntoParStreamView { remaining: self.stack@.reverse(), limit: self.limit }
    }
}

/// The answer of a stream with the items `remaining` left: the first of
/// them, or the end.
pub open spec fn front<T>(remaining: Seq<T>) -> Poll<Option<T>> {
    if remaining.len() > 0 {
        Poll::Ready(Some(remaining[0]))
    } else {
        Poll::Ready(None)
    }
}

/// The items left after one of `remaining` has been yielded, if there was
/// one.
pub open spec fn rest<T>(remaining: Seq<T>) -> Seq<T> {
    if remaining.len() > 0 {
        remaining.drop_first()
    } else {
        remaining
    }
}

impl<T: Send + Sync + 'static> ParallelStream for IntoParStream<T> {
    type Item = T;

    /// No item is left.
    open spec fn exhausted(&self) -> bool {
        self@.remaining.len() == 0
    }

    /// Every poll is ready: with the first of the items that are left,
    /// which is then no longer among them, or with the end.
    open spec fn polled(pre: Self, post: Self, out: Poll<Option<T>>) -> bool {
        &&& out == front(pre@.remaining)
        &&& post@.remaining == rest(pre@.remaining)
        &&& post@.limit == pre@.limit
    }

    fn poll_next(&mut self, cx: &mut Context<'_>) -> (out: Poll<Option<T>>) {
        let next = self.stack.pop();
        proof {
            let before = old(self).stack@;
            if before.len() > 0 {
                assert(before.reverse()[0] == before.last());
                assert(before.drop_last().reverse() =~= before.reverse().drop_first());
            }
        }
        Poll::Ready(next)
    }

    fn limit(self, limit: Option<usize>) -> (limited: Self)
        ensures
            limited@ == (IntoParStreamView { limit, ..self@ }),
    {
        let mut limited = self;
        limited.limit = limit;
        limited
    }

    fn get_limit(&self) -> (limit: Option<usize>)
        ensures
            limit == self@.limit,
    {
        self.limit
    }
}

impl<T: Send + Sync + 'static> Fused for IntoParStream<T> {
    proof fn lemma_end_is_final(pre: Self, post: Self, out: Poll<Option<T>>) {
    }
}

impl<T: Send + Sync + 'static> IntoParallelStream for Vec<T> {
    type Item = T;

    type IntoParStream = IntoParStream<T>;

    /// A stream of the vector's items in their order, with no limit.
    #[inline]
    fn into_par_stream(self) -> (stream: IntoParStream<T>)
        ensures
            stream@ == (IntoParStreamView { remaining: self@, limit: None }),
    {
        let ghost items = self@;
        let mut source = self;
        let mut stack: Vec<T> = Vec::new();
        while source.len() > 0
            invariant
                source@ + stack@.reverse() == items,
            decreases source.len(),
        {
            let ghost before = source@;
            let ghost stacked = stack@;
            let item = source.pop().unwrap();
            stack.push(item);
            assert(stacked.push(item).reverse() =~= seq![item] + stacked.reverse());
            assert(before =~= before.drop_last() + seq![item]);
            assert(source@ + stack@.reverse() =~= before + stacked.reverse());
        }
        assert(stack@.reverse() =~= items);
        IntoParStream { stack, limit: None }
    }
}

/// Collects the items of a stream into a vector, in the order in which the
/// stream yields them.
///
/// Each poll polls the stream once. An item is kept, the task is woken so
/// that it polls again at once, and the poll answers `Pending`; the end of
/// the stream resolves to the vector of the items kept so far.
pub struct Collect<S> where S: ParallelStream {
    stream: S,
    items: Vec<S::Item>,
}

/// What a [`Collect`] holds.
pub struct CollectView<S: ParallelStream> {
    /// The stream that is collected.
    pub stream: S,
    /// The items kept so far.
    pub items: Seq<S::Item>,
}

impl<S: ParallelStream> View for Collect<S> {
    type V = CollectView<S>;

    closed spec fn view(&self) -> CollectView<S> {
        CollectView { stream: self.stream, items: self.items@ }
    }
}

/// The items kept after the stream has answered `answer` while `items` were
/// kept: an item is added at the end, and the end of the stream hands
/// everything out.
pub open spec fn kept_after<T>(items: Seq<T>, answer: Poll<Option<T>>) -> Seq<T> {
    match answer {
        Poll::Ready(Some(item)) => items.push(item),
        Poll::Ready(None) => Seq::empty(),
        Poll::Pending => items,
    }
}

/// Whether `out` is what a poll answers when the stream has answered
/// `answer` while `items` were kept: the vector of `items` at the end of
/// the stream, and `Pending` before.
pub open spec fn collected<T>(items: Seq<T>, answer: Poll<Option<T>>, out: Poll<Vec<T>>) -> bool {
    match answer {
        Poll::Ready(None) => out matches Poll::Ready(all) && all@ == items,
        _ => out is Pending,
    }
}

impl<S: ParallelStream> Collect<S> {
    /// Starts to collect the items of `stream`, with none kept yet.
    pub fn new(stream: S) -> (collecting: Self)
        ensures
            collecting@ == (CollectView { stream, items: Seq::empty() }),
    {
        Collect { stream, items: Vec::with_capacity(0) }
    }

    /// Whether one poll may take the future from `pre` to `post` with the
    /// answer `out`: the stream is polled once and answers some `answer`,
    /// the items kept follow [`kept_after`], and the poll answers as
    /// [`collected`] says.
    pub open spec fn polled(pre: Self, post: Self, out: Poll<Vec<S::Item>>) -> bool {
        exists|answer: Poll<Option<S::Item>>|
            {
                &&& S::polled(pre@.stream, post@.stream, answer)
                &&& #[trigger] collected(pre@.items, answer, out)
                &&& post@.items == kept_after(pre@.items, answer)
            }
    }

    /// Asks for the vector; see [`Collect::polled`].
    pub fn poll(&mut self, cx: &mut Context<'_>) -> (out: Poll<Vec<S::Item>>)
        ensures
            Self::polled(*old(self), *final(self), out),
    {
        let answer = self.stream.poll_next(cx);
        let ghost seen = answer;
        let out = match answer {
            Poll::Ready(Some(item)) => {
                self.items.push(item);
                wake_again(cx);
                Poll::Pending
            },
            Poll::Ready(None) => {
                let mut all: Vec<S::Item> = Vec::new();
                core::mem::swap(&mut self.items, &mut all);
                Poll::Ready(all)
            },
            Poll::Pending => Poll::Pending,
        };
        assert(collected(old(self)@.items, seen, out));
        out
    }
}

proof fn lemma_vec_yields_upto<T: Send + Sync + 'static>(
    states: Seq<IntoParStream<T>>,
    outs: Seq<Poll<Option<T>>>,
    upto: int,
)
    requires
        is_poll_run(states, outs),
        0 <= upto <= outs.len(),
    ensures
        yields(outs.take(upto)) + states[upto]@.remaining == states[0]@.remaining,
    decreases upto,
{
    if upto == 0 {
        assert(outs.take(0) =~= Seq::empty());
        assert(yields(outs.take(0)) + states[0]@.remaining =~= states[0]@.remaining);
    } else {
        let at = upto - 1;
        lemma_vec_yields_upto(states, outs, at);
        lemma_yields_take(outs, at);
        assert(IntoParStream::polled(states[at], states[at + 1], outs[at]));
        assert(yields(outs.take(upto)) + states[upto]@.remaining =~= yields(outs.take(at))
            + states[at]@.remaining);
    }
}

/// A stream out of a vector yields the vector's items, in their order: in
/// every run, what has been yielded, followed by what is left, is what was
/// there at the start.
pub proof fn lemma_vec_yields<T: Send + Sync + 'static>(
    states: Seq<IntoParStream<T>>,
    outs: Seq<Poll<Option<T>>>,
)
    requires
        is_poll_run(states, outs),
    ensures
        yields(outs) + states.last()@.remaining == states[0]@.remaining,
{
    lemma_vec_yields_upto(states, outs, outs.len() as int);
    assert(outs.take(outs.len() as int) =~= outs);
}

/// Whether `answers` are what the stream answered in the polls of the run
/// `states`, `outs` of a `Collect`: poll number `i` got `answers[i]` from
/// it and made `outs[i]` of it.
pub open spec fn is_collect_run_over<S: ParallelStream>(
    states: Seq<Collect<S>>,
    outs: Seq<Poll<Vec<S::Item>>>,
    answers: Seq<Poll<Option<S::Item>>>,
) -> bool {
    &&& states.len() == outs.len() + 1
    &&& answers.len() == outs.len()
    &&& forall|i: int|
        #![trigger states[i]]
        0 <= i < outs.len() ==> {
            &&& S::polled(states[i]@.stream, states[i + 1]@.stream, answers[i])
            &&& collected(states[i]@.items, answers[i], outs[i])
            &&& states[i + 1]@.items == kept_after(states[i]@.items, answers[i])
        }
}

/// Whether `states` and `outs` record consecutive polls of one `Collect`:
/// poll number `i` found it as `states[i]`, answered `outs[i]` and left it
/// as `states[i + 1]`.
pub open spec fn is_collect_run<S: ParallelStream>(
    states: Seq<Collect<S>>,
    outs: Seq<Poll<Vec<S::Item>>>,
) -> bool {
    &&& states.len() == outs.len() + 1
    &&& forall|i: int|
        0 <= i < outs.len() ==> Collect::polled(#[trigger] states[i], states[i + 1], outs[i])
}

/// An answer of the stream that makes the poll, if there is one.
pub open spec fn some_answer<S: ParallelStream>(
    pre: Collect<S>,
    post: Collect<S>,
    out: Poll<Vec<S::Item>>,
) -> Poll<Option<S::Item>> {
    choose|answer: Poll<Option<S::Item>>|
        {
            &&& S::polled(pre@.stream, post@.stream, answer)
            &&& #[trigger] collected(pre@.items, answer, out)
            &&& post@.items == kept_after(pre@.items, answer)
        }
}

/// Every run of a `Collect` has the answers of the stream that it is a run
/// over.
pub proof fn lemma_collect_run_has_answers<S: ParallelStream>(
    states: Seq<Collect<S>>,
    outs: Seq<Poll<Vec<S::Item>>>,
) -> (answers: Seq<Poll<Option<S::Item>>>)
    requires
        is_collect_run(states, outs),
    ensures
        is_collect_run_over(states, outs, answers),
{
    let answers = Seq::new(outs.len(), |i: int| some_answer(states[i], states[i + 1], outs[i]));
    assert forall|i: int| #![trigger states[i]] 0 <= i < outs.len() implies {
        &&& S::polled(states[i]@.stream, states[i + 1]@.stream, answers[i])
        &&& collected(states[i]@.items, answers[i], outs[i])
        &&& states[i + 1]@.items == kept_after(states[i]@.items, answers[i])
    } by {
        assert(Collect::polled(states[i], states[i + 1], outs[i]));
    }
    answers
}

proof fn lemma_collect_keeps_upto<S: ParallelStream>(
    states: Seq<Collect<S>>,
    outs: Seq<Poll<Vec<S::Item>>>,
    answers: Seq<Poll<Option<S::Item>>>,
    upto: int,
)
    requires
        is_collect_run_over(states, outs, answers),
        0 <= upto <= outs.len(),
        forall|i: int| 0 <= i < upto ==> #[trigger] answers[i] != Poll::<Option<S::Item>>::Ready(None),
    ensures
        states[upto]@.items == states[0]@.items + yields(answers.take(upto)),
    decreases upto,
{
    if upto == 0 {
        assert(answers.take(0) =~= Seq::empty());
        assert(states[0]@.items =~= states[0]@.items + yields(answers.take(0)));
    } else {
        let at = upto - 1;
        lemma_collect_keeps_upto(states, outs, answers, at);
        lemma_yields_take(answers, at);
        assert(states[at + 1]@.items == kept_after(states[at]@.items, answers[at]));
        assert(answers[at] != Poll::<Option<S::Item>>::Ready(None));
        assert(states[upto]@.items =~= states[0]@.items + yields(answers.take(upto)));
    }
}

/// A `Collect` resolves to what its stream has handed over, in order: in
/// every run, if poll number `at` is the first in which the stream ends,
/// it answers with a vector of the items kept at the start followed by the
/// items that the stream has yielded until then, and every poll before it
/// answers `Pending`.
pub proof fn lemma_collect_collects<S: ParallelStream>(
    states: Seq<Collect<S>>,
    outs: Seq<Poll<Vec<S::Item>>>,
    answers: Seq<Poll<Option<S::Item>>>,
    at: int,
)
    requires
        is_collect_run_over(states, outs, answers),
        0 <= at < outs.len(),
        answers[at] == Poll::<Option<S::Item>>::Ready(None),
        forall|i: int| 0 <= i < at ==> #[trigger] answers[i] != Poll::<Option<S::Item>>::Ready(None),
    ensures
        outs[at] matches Poll::Ready(all) && all@ == states[0]@.items + yields(answers.take(at)),
        forall|i: int| 0 <= i < at ==> #[trigger] outs[i] is Pending,
{
    lemma_collect_keeps_upto(states, outs, answers, at);
    assert(collected(states[at]@.items, answers[at], outs[at]));
    assert forall|i: int| 0 <= i < at implies #[trigger] outs[i] is Pending by {
        assert(collected(states[i]@.items, answers[i], outs[i]));
        assert(answers[i] != Poll::<Option<S::Item>>::Ready(None));
    }
}

} // verus!
