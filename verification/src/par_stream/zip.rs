//! A stream that pairs up the items of two streams.

use vstd::prelude::*;
use core::task::Context;
use crate::poll::{lemma_yields_take, yielded, yields, Poll};
use crate::par_stream::{is_poll_run, Fused, ParallelStream};

verus! {

/// A stream that yields two streams simultaneously.
///
/// Each round takes one item from either side and yields the pair. An item
/// that arrives before its partner is kept until the partner arrives. The
/// stream ends, for good, as soon as either side signals its end; an item
/// that was waiting for a partner is then dropped.
#[derive(Debug)]
pub struct Zip<A, B> where A: ParallelStream, B: ParallelStream {
    stream: A,
    other: B,
    limit: Option<usize>,
    queued1: Option<A::Item>,
    queued2: Option<B::Item>,
    done: bool,
}

/// What a [`Zip`] holds.
pub struct ZipView<A: ParallelStream, B: ParallelStream> {
    /// The first stream.
    pub stream: A,
    /// The second stream.
    pub other: B,
    /// The max concurrency limit.
    pub limit: Option<usize>,
    /// An item of the first stream that waits for its partner.
    pub queued1: Option<A::Item>,
    /// An item of the second stream that waits for its partner.
    pub queued2: Option<B::Item>,
    /// Whether the stream has ended.
    pub done: bool,
}

impl<A: ParallelStream, B: ParallelStream> View for Zip<A, B> {
    type V = ZipView<A, B>;

    closed spec fn view(&self) -> ZipView<A, B> {
        ZipView {
            stream: self.stream,
            other: self.other,
            limit: self.limit,
            queued1: self.queued1,
            queued2: self.queued2,
            done: self.done,
        }
    }
}

/// The smaller of two limits, where no limit is smaller than any limit, as
/// in the standard ordering of `Option`.
pub open spec fn min_limit(first: Option<usize>, second: Option<usize>) -> Option<usize> {
    match (first, second) {
        (Some(a), Some(b)) => Some(if a <= b { a } else { b }),
        _ => None,
    }
}

/// The smaller of two limits; see [`min_limit`].
pub fn smaller_limit(first: Option<usize>, second: Option<usize>) -> (least: Option<usize>)
    ensures
        least == min_limit(first, second),
{
    match (first, second) {
        (Some(a), Some(b)) => Some(if a <= b { a } else { b }),
        _ => None,
    }
}

/// What one side contributes to a round: the item that was already waiting,
/// with the stream left alone, or else the answer of one poll.
pub open spec fn side_answered<S: ParallelStream>(
    pre: S,
    post: S,
    queued: Option<S::Item>,
    answer: Poll<Option<S::Item>>,
) -> bool {
    if queued is Some {
        post == pre && answer == Poll::Ready(queued)
    } else {
        S::polled(pre, post, answer)
    }
}

/// The state and the answer of a [`Zip`] that has just ended.
pub open spec fn zip_ended<A: ParallelStream, B: ParallelStream>(
    post: ZipView<A, B>,
    out: Poll<Option<(A::Item, B::Item)>>,
) -> bool {
    &&& out == Poll::<Option<(A::Item, B::Item)>>::Ready(None)
    &&& post.queued1 is None
    &&& post.queued2 is None
    &&& post.done
}

/// One round of a [`Zip`] that has not ended, given what the two sides
/// contribute.
///
/// The first side is asked first. If it has ended, the second side is not
/// asked and the stream ends. Otherwise the second side is asked, and if it
/// has ended the stream ends. With an item from both sides the pair is
/// yielded and nothing is kept. In every other case the answer is
/// `Pending`, and each side's item, if it gave one, is kept for later.
pub open spec fn zip_round<A: ParallelStream, B: ParallelStream>(
    pre: ZipView<A, B>,
    post: ZipView<A, B>,
    out: Poll<Option<(A::Item, B::Item)>>,
    first: Poll<Option<A::Item>>,
    second: Poll<Option<B::Item>>,
) -> bool {
    &&& post.limit == pre.limit
    &&& side_answered(pre.stream, post.stream, pre.queued1, first)
    &&& if first == Poll::<Option<A::Item>>::Ready(None) {
        post.other == pre.other && zip_ended(post, out)
    } else {
        &&& side_answered(pre.other, post.other, pre.queued2, second)
        &&& if second == Poll::<Option<B::Item>>::Ready(None) {
            zip_ended(post, out)
        } else if yielded(first) is Some && yielded(second) is Some {
            &&& out == Poll::Ready(Some((yielded(first)->0, yielded(second)->0)))
            &&& post.queued1 is None
            &&& post.queued2 is None
            &&& !post.done
        } else {
            &&& out == Poll::<Option<(A::Item, B::Item)>>::Pending
            &&& post.queued1 == yielded(first)
            &&& post.queued2 == yielded(second)
            &&& !post.done
        }
    }
}

impl<A, B> Zip<A, B> where A: ParallelStream, B: ParallelStream {
    /// Pairs `stream` with `other`. Nothing is queued yet, and the limit is
    /// the smaller of the limits that the two streams report.
    pub fn new(stream: A, other: B) -> (zipped: Self)
        ensures
            zipped@.stream == stream,
            zipped@.other == other,
            zipped@.queued1 is None,
            zipped@.queued2 is None,
            !zipped@.done,
            exists|first: Option<usize>, second: Option<usize>|
                #![trigger min_limit(first, second)]
                call_ensures(A::get_limit, (&stream,), first) && call_ensures(
                    B::get_limit,
                    (&other,),
                    second,
                ) && zipped@.limit == min_limit(first, second),
    {
        let first = stream.get_limit();
        let second = other.get_limit();
        let limit = smaller_limit(first, second);
        assert(limit == min_limit(first, second));
        Zip { stream, other, limit, queued1: None, queued2: None, done: false }
    }
}

impl<A, B> ParallelStream for Zip<A, B> where
    A: ParallelStream,
    B: ParallelStream,
    A::Item: Sync,
    B::Item: Sync,
 {
    type Item = (A::Item, B::Item);

    /// The stream has ended.
    open spec fn exhausted(&self) -> bool {
        self@.done
    }

    /// A stream that has ended stays as it is and answers with the end.
    /// Otherwise the poll is one round; see [`zip_round`].
    open spec fn polled(pre: Self, post: Self, out: Poll<Option<(A::Item, B::Item)>>) -> bool {
        if pre@.done {
            out == Poll::<Option<(A::Item, B::Item)>>::Ready(None) && post == pre
        } else {
            exists|first: Poll<Option<A::Item>>, second: Poll<Option<B::Item>>|
                zip_round(pre@, post@, out, first, second)
        }
    }

    fn poll_next(&mut self, cx: &mut Context<'_>) -> (out: Poll<Option<(A::Item, B::Item)>>) {
        if self.done {
            return Poll::Ready(None);
        }
        let ghost mut first: Poll<Option<A::Item>> = Poll::Ready(self.queued1);
        let ghost mut second: Poll<Option<B::Item>> = Poll::Ready(self.queued2);
        if self.queued1.is_none() {
            let answer = self.stream.poll_next(cx);
            proof {
                first = answer;
            }
            match answer {
                Poll::Ready(Some(item)) => {
                    self.queued1 = Some(item);
                },
                Poll::Ready(None) => {
                    self.queued2 = None;
                    self.done = true;
                    assert(zip_round(old(self)@, self@, Poll::Ready(None), first, second));
                    return Poll::Ready(None);
                },
                Poll::Pending => {},
            }
        }
        if self.queued2.is_none() {
            let answer = self.other.poll_next(cx);
            proof {
                second = answer;
            }
            match answer {
                Poll::Ready(Some(item)) => {
                    self.queued2 = Some(item);
                },
                Poll::Ready(None) => {
                    self.queued1 = None;
                    self.done = true;
                    assert(zip_round(old(self)@, self@, Poll::Ready(None), first, second));
                    return Poll::Ready(None);
                },
                Poll::Pending => {},
            }
        }
        if self.queued1.is_some() && self.queued2.is_some() {
            let item1 = self.queued1.take().unwrap();
            let item2 = self.queued2.take().unwrap();
            let out = Poll::Ready(Some((item1, item2)));
            assert(zip_round(old(self)@, self@, out, first, second));
            out
        } else {
            assert(zip_round(old(self)@, self@, Poll::Pending, first, second));
            Poll::Pending
        }
    }

    fn limit(self, limit: Option<usize>) -> (limited: Self)
        ensures
            limited@ == (ZipView { limit, ..self@ }),
    {
        let mut limited = self;
        limited.limit = limit;
        limited
    }

    fn get_limit(&self) -> (limit: Option<usize>)
        ensures
            limit == self@.limit,
    {
        self.limit
    }
}

impl<A, B> Fused for Zip<A, B> where
    A: ParallelStream,
    B: ParallelStream,
    A::Item: Sync,
    B::Item: Sync,
 {
    proof fn lemma_end_is_final(pre: Self, post: Self, out: Poll<Option<(A::Item, B::Item)>>) {
    }
}

/// Whether `firsts` and `seconds` are what the two sides contributed to the
/// rounds of the run `states`, `outs`: poll number `i` of a stream that had
/// not ended was the round [`zip_round`] with `firsts[i]` and `seconds[i]`.
pub open spec fn is_zip_run_over<A: ParallelStream, B: ParallelStream>(
    states: Seq<ZipView<A, B>>,
    outs: Seq<Poll<Option<(A::Item, B::Item)>>>,
    firsts: Seq<Poll<Option<A::Item>>>,
    seconds: Seq<Poll<Option<B::Item>>>,
) -> bool {
    &&& states.len() == outs.len() + 1
    &&& firsts.len() == outs.len()
    &&& seconds.len() == outs.len()
    &&& forall|i: int|
        #![trigger states[i]]
        0 <= i < outs.len() ==> if states[i].done {
            outs[i] == Poll::<Option<(A::Item, B::Item)>>::Ready(None) && states[i + 1]
                == states[i]
        } else {
            zip_round(states[i], states[i + 1], outs[i], firsts[i], seconds[i])
        }
}

/// The views of the states of a run.
pub open spec fn zip_views<A: ParallelStream, B: ParallelStream>(states: Seq<Zip<A, B>>) -> Seq<
    ZipView<A, B>,
> {
    Seq::new(states.len(), |i: int| states[i]@)
}

/// Whether some contribution of the second side makes the round with
/// `first` from the first side.
pub open spec fn zip_round_with<A: ParallelStream, B: ParallelStream>(
    pre: ZipView<A, B>,
    post: ZipView<A, B>,
    out: Poll<Option<(A::Item, B::Item)>>,
    first: Poll<Option<A::Item>>,
) -> bool {
    exists|second: Poll<Option<B::Item>>| zip_round(pre, post, out, first, second)
}

/// A contribution of the first side that makes the round, if there is one.
pub open spec fn some_first<A: ParallelStream, B: ParallelStream>(
    pre: ZipView<A, B>,
    post: ZipView<A, B>,
    out: Poll<Option<(A::Item, B::Item)>>,
) -> Poll<Option<A::Item>> {
    choose|first: Poll<Option<A::Item>>| zip_round_with(pre, post, out, first)
}

/// A contribution of the second side that makes the round with
/// [`some_first`], if there is one.
pub open spec fn some_second<A: ParallelStream, B: ParallelStream>(
    pre: ZipView<A, B>,
    post: ZipView<A, B>,
    out: Poll<Option<(A::Item, B::Item)>>,
) -> Poll<Option<B::Item>> {
    choose|second: Poll<Option<B::Item>>|
        zip_round(pre, post, out, some_first(pre, post, out), second)
}

/// Every run of a `Zip` has the contributions of the two sides that it is a
/// run over.
pub proof fn lemma_zip_run_has_sides<A, B>(
    states: Seq<Zip<A, B>>,
    outs: Seq<Poll<Option<(A::Item, B::Item)>>>,
) -> (sides: (Seq<Poll<Option<A::Item>>>, Seq<Poll<Option<B::Item>>>)) where
    A: ParallelStream,
    B: ParallelStream,
    A::Item: Sync,
    B::Item: Sync,

    requires
        is_poll_run(states, outs),
    ensures
        is_zip_run_over(zip_views(states), outs, sides.0, sides.1),
{
    let views = zip_views(states);
    let firsts = Seq::new(outs.len(), |i: int| some_first(views[i], views[i + 1], outs[i]));
    let seconds = Seq::new(outs.len(), |i: int| some_second(views[i], views[i + 1], outs[i]));
    assert forall|i: int| #![trigger views[i]] 0 <= i < outs.len() implies if views[i].done {
        outs[i] == Poll::<Option<(A::Item, B::Item)>>::Ready(None) && views[i + 1] == views[i]
    } else {
        zip_round(views[i], views[i + 1], outs[i], firsts[i], seconds[i])
    } by {
        let pre = views[i];
        let post = views[i + 1];
        let out = outs[i];
        assert(Zip::polled(states[i], states[i + 1], out));
        if !pre.done {
            let witness = choose|first: Poll<Option<A::Item>>, second: Poll<Option<B::Item>>|
                zip_round(pre, post, out, first, second);
            assert(zip_round(pre, post, out, witness.0, witness.1));
            assert(zip_round_with(pre, post, out, witness.0));
            assert(zip_round_with(pre, post, out, firsts[i]));
        }
    }
    (firsts, seconds)
}

/// What the first stream answered in poll number `at` of such a run, with
/// `Pending` standing for a poll in which it was not asked.
pub open spec fn first_asked<A: ParallelStream, B: ParallelStream>(
    states: Seq<ZipView<A, B>>,
    firsts: Seq<Poll<Option<A::Item>>>,
    at: int,
) -> Poll<Option<A::Item>> {
    if !states[at].done && states[at].queued1 is None {
        firsts[at]
    } else {
        Poll::Pending
    }
}

/// What the second stream answered in poll number `at` of such a run, with
/// `Pending` standing for a poll in which it was not asked.
pub open spec fn second_asked<A: ParallelStream, B: ParallelStream>(
    states: Seq<ZipView<A, B>>,
    firsts: Seq<Poll<Option<A::Item>>>,
    seconds: Seq<Poll<Option<B::Item>>>,
    at: int,
) -> Poll<Option<B::Item>> {
    if !states[at].done && firsts[at] != Poll::<Option<A::Item>>::Ready(None)
        && states[at].queued2 is None {
        seconds[at]
    } else {
        Poll::Pending
    }
}

/// What the first stream answered over the whole run; see [`first_asked`].
pub open spec fn firsts_asked<A: ParallelStream, B: ParallelStream>(
    states: Seq<ZipView<A, B>>,
    firsts: Seq<Poll<Option<A::Item>>>,
) -> Seq<Poll<Option<A::Item>>> {
    Seq::new(firsts.len(), |at: int| first_asked(states, firsts, at))
}

/// What the second stream answered over the whole run; see
/// [`second_asked`].
pub open spec fn seconds_asked<A: ParallelStream, B: ParallelStream>(
    states: Seq<ZipView<A, B>>,
    firsts: Seq<Poll<Option<A::Item>>>,
    seconds: Seq<Poll<Option<B::Item>>>,
) -> Seq<Poll<Option<B::Item>>> {
    Seq::new(seconds.len(), |at: int| second_asked(states, firsts, seconds, at))
}

/// Whether every pair in `pairs` is made of the items at its place in
/// `lefts` and in `rights`.
pub open spec fn pairs_up<L, R>(pairs: Seq<(L, R)>, lefts: Seq<L>, rights: Seq<R>) -> bool {
    &&& pairs.len() <= lefts.len()
    &&& pairs.len() <= rights.len()
    &&& forall|j: int| 0 <= j < pairs.len() ==> #[trigger] pairs[j] == (lefts[j], rights[j])
}

/// Whether a side whose stream has yielded `items` so far, of which
/// `paired` have gone into pairs, is in order with `queued` waiting: the
/// one item beyond the pairs is the one that waits.
pub open spec fn side_in_step<T>(items: Seq<T>, paired: int, queued: Option<T>) -> bool {
    match queued {
        Some(item) => items.len() == paired + 1 && items.last() == item,
        None => items.len() == paired,
    }
}

proof fn lemma_zip_yields_upto<A: ParallelStream, B: ParallelStream>(
    states: Seq<ZipView<A, B>>,
    outs: Seq<Poll<Option<(A::Item, B::Item)>>>,
    firsts: Seq<Poll<Option<A::Item>>>,
    seconds: Seq<Poll<Option<B::Item>>>,
    upto: int,
)
    requires
        is_zip_run_over(states, outs, firsts, seconds),
        !states[0].done,
        states[0].queued1 is None,
        states[0].queued2 is None,
        0 <= upto <= outs.len(),
    ensures
        pairs_up(
            yields(outs.take(upto)),
            yields(firsts_asked(states, firsts).take(upto)),
            yields(seconds_asked(states, firsts, seconds).take(upto)),
        ),
        !states[upto].done ==> side_in_step(
            yields(firsts_asked(states, firsts).take(upto)),
            yields(outs.take(upto)).len() as int,
            states[upto].queued1,
        ) && side_in_step(
            yields(seconds_asked(states, firsts, seconds).take(upto)),
            yields(outs.take(upto)).len() as int,
            states[upto].queued2,
        ),
    decreases upto,
{
    let lefts = firsts_asked(states, firsts);
    let rights = seconds_asked(states, firsts, seconds);
    if upto == 0 {
        assert(outs.take(0) =~= Seq::empty());
        assert(lefts.take(0) =~= Seq::empty());
        assert(rights.take(0) =~= Seq::empty());
    } else {
        let at = upto - 1;
        lemma_zip_yields_upto(states, outs, firsts, seconds, at);
        lemma_yields_take(outs, at);
        lemma_yields_take(lefts, at);
        lemma_yields_take(rights, at);
        let pre = states[at];
        let post = states[at + 1];
        assert(lefts[at] == first_asked(states, firsts, at));
        assert(rights[at] == second_asked(states, firsts, seconds, at));
        if !pre.done {
            assert(zip_round(pre, post, outs[at], firsts[at], seconds[at]));
        }
    }
}

/// A `Zip` that starts with nothing queued pairs the items of its two
/// streams up in order: in every run, the pair at each place among those
/// yielded is made of the item at that place among those that the first
/// stream has handed over and the item at that place among those that the
/// second stream has handed over.
pub proof fn lemma_zip_yields<A: ParallelStream, B: ParallelStream>(
    states: Seq<ZipView<A, B>>,
    outs: Seq<Poll<Option<(A::Item, B::Item)>>>,
    firsts: Seq<Poll<Option<A::Item>>>,
    seconds: Seq<Poll<Option<B::Item>>>,
)
    requires
        is_zip_run_over(states, outs, firsts, seconds),
        !states[0].done,
        states[0].queued1 is None,
        states[0].queued2 is None,
    ensures
        pairs_up(
            yields(outs),
            yields(firsts_asked(states, firsts)),
            yields(seconds_asked(states, firsts, seconds)),
        ),
{
    let upto = outs.len() as int;
    lemma_zip_yields_upto(states, outs, firsts, seconds, upto);
    assert(outs.take(upto) =~= outs);
    assert(firsts_asked(states, firsts).take(upto) =~= firsts_asked(states, firsts));
    assert(seconds_asked(states, firsts, seconds).take(upto) =~= seconds_asked(
        states,
        firsts,
        seconds,
    ));
}

} // verus!
