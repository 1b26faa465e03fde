//! The parallel stream interface and the combinators built on it.

use vstd::prelude::*;
use core::task::Context;
use crate::poll::Poll;

pub use count::{Count, CountView};
pub use enumerate::{Enumerate, EnumerateView};
pub use filter::{Filter, FilterView};
pub use filter_map::{FilterMap, FilterMapView};
pub use find_map::{FindMap, FindMapView};
pub use for_each::ForEach;
pub use fuse::{Fuse, FuseView};
pub use map::{ParMap, ParMapView};
pub use next::NextFuture;
pub use skip::{Skip, SkipView};
pub use take::{Take, TakeView};
pub use try_map::{TryMap, TryMapView};
pub use zip::{Zip, ZipView};

pub mod count;
pub mod enumerate;
pub mod filter;
pub mod filter_map;
pub mod find_map;
pub mod for_each;
pub mod fuse;
pub mod map;
pub mod next;
pub mod skip;
pub mod take;
pub mod try_map;
pub mod zip;

verus! {

/// A sequence of items that is produced on demand: each poll either hands
/// over the next item, signals the end, or asks the caller to come back.
///
/// An implementation describes itself with two specification functions.
/// Both have a default that claims nothing, so an implementation that only
/// writes the executable methods is still a correct one; the combinators
/// then promise of it only what holds of every stream.
pub trait ParallelStream: Sized + Send + Sync + 'static {
    /// The type of items yielded by this stream.
    type Item: Send;

    /// Whether this stream is known to have reached its end.
    open spec fn exhausted(&self) -> bool {
        false
    }

    /// Whether one poll may take the stream from `pre` to `post` with the
    /// answer `out`.
    open spec fn polled(pre: Self, post: Self, out: Poll<Option<Self::Item>>) -> bool {
        true
    }

    /// Attempts to receive the next item from the stream.
    fn poll_next(&mut self, cx: &mut Context<'_>) -> (out: Poll<Option<Self::Item>>)
        ensures
            Self::polled(*old(self), *final(self), out),
    ;

    /// Set a max concurrency limit
    fn limit(self, limit: Option<usize>) -> Self;

    /// Get the max concurrency limit
    fn get_limit(&self) -> Option<usize>;

    /// Counts the number of items of this stream.
    fn count(self) -> (counting: Count<Self>)
        ensures
            counting@ == (CountView { stream: self, count: 0 }),
    {
        Count::new(self)
    }

    /// Borrows this stream for its next item.
    fn next(&mut self) -> (next: NextFuture<'_, Self>)
        ensures
            *next.stream == *old(self),
            *final(next.stream) == *final(self),
    {
        NextFuture::new(self)
    }

    /// Creates a stream that yields each element with its number, from 0.
    fn enumerate(self) -> (numbering: Enumerate<Self>)
        ensures
            numbering@.stream == self,
            numbering@.count == 0,
            !numbering@.done,
            call_ensures(Self::get_limit, (&self,), numbering@.limit),
    {
        let limit = self.get_limit();
        Enumerate::from_parts(self, 0, limit)
    }

    /// Creates a stream that does not poll this one beyond its end.
    fn fuse(self) -> (fused: Fuse<Self>)
        ensures
            fused@ == (FuseView { stream: self, done: false }),
    {
        Fuse::new(self)
    }

    /// Creates a stream that leaves out its first `n` elements.
    fn skip(self, n: usize) -> (skipping: Skip<Self>)
        ensures
            skipping@.stream == self,
            skipping@.remaining == n,
            !skipping@.done,
            call_ensures(Self::get_limit, (&self,), skipping@.limit),
    {
        let limit = self.get_limit();
        Skip::from_parts(self, n, limit)
    }

    /// Creates a stream that yields its first `n` elements.
    fn take(self, n: usize) -> (taken: Take<Self>)
        ensures
            taken@.stream == self,
            taken@.remaining == n,
            call_ensures(Self::get_limit, (&self,), taken@.limit),
    {
        let limit = self.get_limit();
        Take::from_parts(self, n, limit)
    }
}

/// A stream whose end is final: once it has signalled its end, or is known
/// to be exhausted, every later poll signals the end again.
pub trait Fused: ParallelStream {
    /// A poll of an exhausted stream answers with the end and leaves the
    /// stream exhausted, and a poll that answers with the end leaves the
    /// stream exhausted.
    proof fn lemma_end_is_final(pre: Self, post: Self, out: Poll<Option<Self::Item>>)
        ensures
            Self::polled(pre, post, out) && pre.exhausted() ==> out == Poll::<
                Option<Self::Item>,
            >::Ready(None),
            Self::polled(pre, post, out) && (pre.exhausted() || out == Poll::<
                Option<Self::Item>,
            >::Ready(None)) ==> post.exhausted(),
    ;
}

/// Whether `states` and `outs` record consecutive polls of one stream:
/// poll number `i` found the stream as `states[i]`, answered `outs[i]` and
/// left the stream as `states[i + 1]`.
pub open spec fn is_poll_run<S: ParallelStream>(
    states: Seq<S>,
    outs: Seq<Poll<Option<S::Item>>>,
) -> bool {
    &&& states.len() == outs.len() + 1
    &&& forall|i: int|
        0 <= i < outs.len() ==> S::polled(#[trigger] states[i], states[i + 1], outs[i])
}

/// Polling an exhausted stream again and again always answers with the end
/// of the stream: if poll number `from` finds the stream exhausted, that
/// poll and every later one answer with the end and leave it exhausted.
pub proof fn lemma_exhausted_keeps_ending<S: Fused>(
    states: Seq<S>,
    outs: Seq<Poll<Option<S::Item>>>,
    from: int,
)
    requires
        is_poll_run(states, outs),
        0 <= from < states.len(),
        states[from].exhausted(),
    ensures
        forall|i: int|
            from <= i < outs.len() ==> #[trigger] outs[i] == Poll::<Option<S::Item>>::Ready(None)
                && states[i + 1].exhausted(),
    decreases outs.len() - from,
{
    if from < outs.len() {
        S::lemma_end_is_final(states[from], states[from + 1], outs[from]);
        lemma_exhausted_keeps_ending(states, outs, from + 1);
    }
}

/// Once a stream has answered with its end, it answers every later poll
/// with its end: if poll number `at` answers with the end, so does every
/// poll after it.
pub proof fn lemma_end_keeps_ending<S: Fused>(
    states: Seq<S>,
    outs: Seq<Poll<Option<S::Item>>>,
    at: int,
)
    requires
        is_poll_run(states, outs),
        0 <= at < outs.len(),
        outs[at] == Poll::<Option<S::Item>>::Ready(None),
    ensures
        forall|i: int|
            at <= i < outs.len() ==> #[trigger] outs[i] == Poll::<Option<S::Item>>::Ready(None),
{
    S::lemma_end_is_final(states[at], states[at + 1], outs[at]);
    lemma_exhausted_keeps_ending(states, outs, at + 1);
}

} // verus!
