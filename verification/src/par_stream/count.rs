//! A future that counts the items of a stream.

use vstd::prelude::*;
use core::task::Context;
use crate::poll::{lemma_yields_take, yields, Poll};
use crate::par_stream::take::Take;
use crate::par_stream::ParallelStream;
use crate::repeat::Repeat;
use crate::task::wake_again;

verus! {

/// Count the number of items of the stream.
///
/// Each poll polls the stream once. An item is counted, the task is woken
/// so that it polls again at once, and the poll answers `Pending`; the end
/// of the stream resolves to the count. The count stops at `usize::MAX`.
///
/// This `struct` is created by the `count` method on [`ParallelStream`].
#[derive(Clone, Debug)]
pub struct Count<S> {
    stream: S,
    count: usize,
}

/// What a [`Count`] holds.
pub struct CountView<S> {
    /// The stream that is counted.
    pub stream: S,
    /// The number of items seen so far.
    pub count: usize,
}

impl<S> View for Count<S> {
    type V = CountView<S>;

    closed spec fn view(&self) -> CountView<S> {
        CountView { stream: self.stream, count: self.count }
    }
}

/// The count after the stream has answered `answer` while the count was
/// `count`: an item adds one, up to `usize::MAX`.
pub open spec fn counted<T>(count: usize, answer: Poll<Option<T>>) -> usize {
    match answer {
        Poll::Ready(Some(_)) => if count < usize::MAX {
            (count + 1) as usize
        } else {
            count
        },
        _ => count,
    }
}

/// What a poll answers when the stream has answered `answer` while the
/// count was `count`: the count at the end of the stream, and `Pending`
/// before.
pub open spec fn total<T>(count: usize, answer: Poll<Option<T>>) -> Poll<usize> {
    match answer {
        Poll::Ready(None) => Poll::Ready(count),
        _ => Poll::Pending,
    }
}

impl<S> Count<S> {
    /// Starts to count the items of `stream`, at 0.
    pub fn new(stream: S) -> (counting: Self)
        ensures
            counting@ == (CountView { stream, count: 0 }),
    {
        Count { stream, count: 0 }
    }
}

impl<S: ParallelStream> Count<S> {
    /// Whether one poll may take the future from `pre` to `post` with the
    /// answer `out`: the stream is polled once and answers some `answer`,
    /// the count follows [`counted`], and the poll answers [`total`].
    pub open spec fn polled(pre: Self, post: Self, out: Poll<usize>) -> bool {
        exists|answer: Poll<Option<S::Item>>|
            {
                &&& S::polled(pre@.stream, post@.stream, answer)
                &&& out == #[trigger] total(pre@.count, answer)
                &&& post@.count == counted(pre@.count, answer)
            }
    }

    /// Asks for the count; see [`Count::polled`].
    pub fn poll(&mut self, cx: &mut Context<'_>) -> (out: Poll<usize>)
        ensures
            Self::polled(*old(self), *final(self), out),
    {
        let answer = self.stream.poll_next(cx);
        let ghost seen = answer;
        let out = match answer {
            Poll::Ready(None) => Poll::Ready(self.count),
            Poll::Ready(Some(_)) => {
                if self.count < usize::MAX {
                    self.count = self.count + 1;
                }
                wake_again(cx);
                Poll::Pending
            },
            Poll::Pending => Poll::Pending,
        };
        assert(out == total(old(self)@.count, seen));
        out
    }
}

/// Whether `states` and `outs` record consecutive polls of one count: poll
/// number `i` found it as `states[i]`, answered `outs[i]` and left it as
/// `states[i + 1]`.
pub open spec fn is_count_run<S: ParallelStream>(
    states: Seq<Count<S>>,
    outs: Seq<Poll<usize>>,
) -> bool {
    &&& states.len() == outs.len() + 1
    &&& forall|i: int|
        0 <= i < outs.len() ==> Count::polled(#[trigger] states[i], states[i + 1], outs[i])
}

/// Whether `answers` are what the stream answered in the polls of the run
/// `states`, `outs`: poll number `i` got `answers[i]` from it and made
/// `outs[i]` of it.
pub open spec fn is_count_run_over<S: ParallelStream>(
    states: Seq<Count<S>>,
    outs: Seq<Poll<usize>>,
    answers: Seq<Poll<Option<S::Item>>>,
) -> bool {
    &&& states.len() == outs.len() + 1
    &&& answers.len() == outs.len()
    &&& forall|i: int|
        #![trigger states[i]]
        0 <= i < outs.len() ==> {
            &&& S::polled(states[i]@.stream, states[i + 1]@.stream, answers[i])
            &&& outs[i] == total(states[i]@.count, answers[i])
            &&& states[i + 1]@.count == counted(states[i]@.count, answers[i])
        }
}

/// Every run of a `Count` has the answers of the stream that it is a run
/// over.
pub proof fn lemma_count_run_has_answers<S: ParallelStream>(
    states: Seq<Count<S>>,
    outs: Seq<Poll<usize>>,
) -> (answers: Seq<Poll<Option<S::Item>>>)
    requires
        is_count_run(states, outs),
    ensures
        is_count_run_over(states, outs, answers),
{
    let answers = Seq::new(
        outs.len(),
        |i: int|
            choose|answer: Poll<Option<S::Item>>|
                {
                    &&& S::polled(states[i]@.stream, states[i + 1]@.stream, answer)
                    &&& outs[i] == #[trigger] total(states[i]@.count, answer)
                    &&& states[i + 1]@.count == counted(states[i]@.count, answer)
                },
    );
    assert forall|i: int| #![trigger states[i]] 0 <= i < outs.len() implies {
        &&& S::polled(states[i]@.stream, states[i + 1]@.stream, answers[i])
        &&& outs[i] == total(states[i]@.count, answers[i])
        &&& states[i + 1]@.count == counted(states[i]@.count, answers[i])
    } by {
        assert(Count::polled(states[i], states[i + 1], outs[i]));
    }
    answers
}

proof fn lemma_count_counts_upto<S: ParallelStream>(
    states: Seq<Count<S>>,
    outs: Seq<Poll<usize>>,
    answers: Seq<Poll<Option<S::Item>>>,
    upto: int,
)
    requires
        is_count_run_over(states, outs, answers),
        0 <= upto <= outs.len(),
    ensures
        states[upto]@.count == at_most(
            states[0]@.count + yields(answers.take(upto)).len(),
            usize::MAX as int,
        ),
    decreases upto,
{
    if upto == 0 {
        assert(answers.take(0) =~= Seq::empty());
    } else {
        let at = upto - 1;
        lemma_count_counts_upto(states, outs, answers, at);
        lemma_yields_take(answers, at);
        assert(states[at + 1]@.count == counted(states[at]@.count, answers[at]));
    }
}

/// A `Count` resolves to the number of items that its stream has handed
/// over: in every run, each poll in which the stream ends answers with the
/// count at the start and the number of items that the stream has yielded
/// until then, or with `usize::MAX` if that is less; every other poll
/// answers `Pending`.
pub proof fn lemma_count_counts<S: ParallelStream>(
    states: Seq<Count<S>>,
    outs: Seq<Poll<usize>>,
    answers: Seq<Poll<Option<S::Item>>>,
)
    requires
        is_count_run_over(states, outs, answers),
    ensures
        forall|i: int|
            0 <= i < outs.len() ==> #[trigger] outs[i] == if answers[i] == Poll::<
                Option<S::Item>,
            >::Ready(None) {
                Poll::Ready(
                    at_most(
                        states[0]@.count + yields(answers.take(i)).len(),
                        usize::MAX as int,
                    ) as usize,
                )
            } else {
                Poll::<usize>::Pending
            },
{
    assert forall|i: int| 0 <= i < outs.len() implies #[trigger] outs[i] == if answers[i]
        == Poll::<Option<S::Item>>::Ready(None) {
        Poll::Ready(
            at_most(states[0]@.count + yields(answers.take(i)).len(), usize::MAX as int) as usize,
        )
    } else {
        Poll::<usize>::Pending
    } by {
        lemma_count_counts_upto(states, outs, answers, i);
        assert(outs[i] == total(states[i]@.count, answers[i]));
    }
}

/// The smaller of two numbers.
pub open spec fn at_most(a: int, b: int) -> int {
    if a <= b {
        a
    } else {
        b
    }
}

proof fn lemma_count_of_take_of_repeat_step<T: Copy + Send + Sync + 'static>(
    n: usize,
    pre: Count<Take<Repeat<T>>>,
    post: Count<Take<Repeat<T>>>,
    out: Poll<usize>,
    before: int,
)
    requires
        Count::polled(pre, post, out),
        0 <= before,
        pre@.count == at_most(before, n as int),
        pre@.stream@.remaining == n - at_most(before, n as int),
    ensures
        post@.count == at_most(before + 1, n as int),
        post@.stream@.remaining == n - at_most(before + 1, n as int),
        out == if before < n {
            Poll::<usize>::Pending
        } else {
            Poll::Ready(n)
        },
{
    let answer = choose|answer: Poll<Option<T>>|
        {
            &&& Take::<Repeat<T>>::polled(pre@.stream, post@.stream, answer)
            &&& out == #[trigger] total(pre@.count, answer)
            &&& post@.count == counted(pre@.count, answer)
        };
    if before < n {
        assert(pre@.stream@.remaining > 0);
        assert(answer is Ready && answer->Ready_0 is Some);
    } else {
        assert(pre@.stream@.remaining == 0);
        assert(answer == Poll::<Option<T>>::Ready(None));
    }
}

proof fn lemma_count_of_take_of_repeat_at<T: Copy + Send + Sync + 'static>(
    n: usize,
    states: Seq<Count<Take<Repeat<T>>>>,
    outs: Seq<Poll<usize>>,
    at: int,
)
    requires
        is_count_run(states, outs),
        states[0]@.count == 0,
        states[0]@.stream@.remaining == n,
        0 <= at < states.len(),
    ensures
        states[at]@.count == at_most(at, n as int),
        states[at]@.stream@.remaining == n - at_most(at, n as int),
        at > 0 ==> outs[at - 1] == if at - 1 < n {
            Poll::<usize>::Pending
        } else {
            Poll::Ready(n)
        },
    decreases at,
{
    if at > 0 {
        lemma_count_of_take_of_repeat_at(n, states, outs, at - 1);
        let pre = states[at - 1];
        let post = states[at];
        let out = outs[at - 1];
        assert(Count::polled(pre, post, out));
        lemma_count_of_take_of_repeat_step(n, pre, post, out, at - 1);
    }
}

/// Counting the first `n` items of a stream that yields one item forever
/// gives exactly `n`, for every `n`: the first `n` polls of the count
/// answer `Pending`, one for each item, and every poll after them answers
/// with `n`.
pub proof fn lemma_count_of_take_of_repeat<T: Copy + Send + Sync + 'static>(
    n: usize,
    states: Seq<Count<Take<Repeat<T>>>>,
    outs: Seq<Poll<usize>>,
)
    requires
        is_count_run(states, outs),
        states[0]@.count == 0,
        states[0]@.stream@.remaining == n,
    ensures
        forall|i: int|
            0 <= i < outs.len() ==> #[trigger] outs[i] == if i < n {
                Poll::<usize>::Pending
            } else {
                Poll::Ready(n)
            },
{
    assert forall|i: int| 0 <= i < outs.len() implies #[trigger] outs[i] == if i < n {
        Poll::<usize>::Pending
    } else {
        Poll::Ready(n)
    } by {
        lemma_count_of_take_of_repeat_at(n, states, outs, i + 1);
    }
}

} // verus!
