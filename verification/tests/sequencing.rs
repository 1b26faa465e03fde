use parallel_stream::into_parallel_stream::IntoParallelStream;
use parallel_stream::par_stream::zip::smaller_limit;
use parallel_stream::par_stream::{
    Count, Enumerate, Fuse, NextFuture, ParallelStream, Skip, Take, Zip,
};
use parallel_stream::poll::Poll;
use parallel_stream::repeat::repeat;
use parallel_stream::vec::Collect;
use std::sync::atomic::{AtomicUsize, Ordering};
use std::sync::Arc;
use std::task::{Context, Waker};

/// A stream that gives the answers it was made with, one with every poll,
/// and the end after them.
struct Script<T> {
    answers: Vec<Poll<Option<T>>>,
    limit: Option<usize>,
    polls: Arc<AtomicUsize>,
}

fn script<T>(mut answers: Vec<Poll<Option<T>>>) -> Script<T> {
    answers.reverse();
    Script { answers, limit: None, polls: Arc::new(AtomicUsize::new(0)) }
}

impl<T> Script<T> {
    /// A counter of the polls of this stream.
    fn polls(&self) -> Arc<AtomicUsize> {
        self.polls.clone()
    }
}

impl<T: Send + Sync + 'static> ParallelStream for Script<T> {
    type Item = T;

    fn poll_next(&mut self, _cx: &mut Context<'_>) -> Poll<Option<T>> {
        self.polls.fetch_add(1, Ordering::SeqCst);
        self.answers.pop().unwrap_or(Poll::Ready(None))
    }

    fn limit(mut self, limit: Option<usize>) -> Self {
        self.limit = limit;
        self
    }

    fn get_limit(&self) -> Option<usize> {
        self.limit
    }
}

/// Polls `stream` until it ends and returns what it yielded, in order.
/// A `Pending` is answered with another poll, at most `budget` times in all.
fn drain<S: ParallelStream>(stream: &mut S, budget: usize) -> Vec<S::Item> {
    let mut cx = Context::from_waker(Waker::noop());
    let mut output = vec![];
    for _ in 0..budget {
        match stream.poll_next(&mut cx) {
            Poll::Ready(Some(item)) => output.push(item),
            Poll::Ready(None) => return output,
            Poll::Pending => {}
        }
    }
    panic!("the stream did not end within {} polls", budget);
}

/// Polls `counting` until it resolves.
fn resolve_count<S: ParallelStream>(counting: &mut Count<S>, budget: usize) -> usize {
    let mut cx = Context::from_waker(Waker::noop());
    for _ in 0..budget {
        if let Poll::Ready(total) = counting.poll(&mut cx) {
            return total;
        }
    }
    panic!("the count did not resolve within {} polls", budget);
}

#[test]
fn count_smoke() {
    let s = repeat(5usize);

    let cnt = resolve_count(&mut s.take(10).count(), 100);

    assert_eq!(cnt, 10);
}

#[test]
fn enumerate_smoke() {
    let s = repeat(5usize).enumerate().take(3);
    let mut output = vec![];
    let mut stream = s;
    let mut cx = Context::from_waker(Waker::noop());
    while let Poll::Ready(Some(n)) = stream.next().poll(&mut cx) {
        output.push(n);
    }
    assert_eq!(output, vec![(0, 5), (1, 5), (2, 5)]);
}

#[test]
fn skip_smoke() {
    let s = vec![1, 2, 3, 4, 5, 6];
    let mut stream = s.into_par_stream().skip(3);
    let output = drain(&mut stream, 100);
    assert_eq!(output, vec![4, 5, 6]);
}

#[test]
fn zip_smoke() {
    let s = Zip::new(repeat(5usize), repeat(10usize)).take(3);
    let mut output = vec![];
    let mut stream = s;
    let mut cx = Context::from_waker(Waker::noop());
    while let Poll::Ready(Some(n)) = stream.next().poll(&mut cx) {
        output.push(n);
    }
    assert_eq!(output, vec![(5, 10), (5, 10), (5, 10)]);
}

#[test]
fn take_count_is_n_for_small_n() {
    for n in 0..20usize {
        let mut counting = repeat(7u8).take(n).count();
        let mut cx = Context::from_waker(Waker::noop());
        for _ in 0..n {
            assert_eq!(counting.poll(&mut cx), Poll::Pending);
        }
        assert_eq!(counting.poll(&mut cx), Poll::Ready(n));
        assert_eq!(counting.poll(&mut cx), Poll::Ready(n));
    }
}

#[test]
fn take_zero_never_polls_upstream() {
    let mut cx = Context::from_waker(Waker::noop());
    let upstream = script(vec![Poll::Ready(Some(1)), Poll::Ready(Some(2))]);
    let polls = upstream.polls();
    let mut taken = Take::new(upstream, 0);
    assert_eq!(taken.poll_next(&mut cx), Poll::Ready(None));
    assert_eq!(taken.poll_next(&mut cx), Poll::Ready(None));
    assert_eq!(polls.load(Ordering::SeqCst), 0);
}

#[test]
fn take_leaves_upstream_alone_once_the_quota_is_used() {
    let mut cx = Context::from_waker(Waker::noop());
    let upstream = script(vec![Poll::Ready(Some(1)), Poll::Ready(Some(2)), Poll::Ready(Some(3))]);
    let polls = upstream.polls();
    let mut taken = Take::new(upstream, 2);
    assert_eq!(drain(&mut taken, 10), vec![1, 2]);
    assert_eq!(polls.load(Ordering::SeqCst), 2);
    for _ in 0..5 {
        assert_eq!(taken.poll_next(&mut cx), Poll::Ready(None));
    }
    assert_eq!(polls.load(Ordering::SeqCst), 2);
}

#[test]
fn take_stops_at_quota_and_stays_ended() {
    let mut cx = Context::from_waker(Waker::noop());
    let mut taken = vec![1, 2, 3].into_par_stream().take(2);
    assert_eq!(taken.poll_next(&mut cx), Poll::Ready(Some(1)));
    assert_eq!(taken.poll_next(&mut cx), Poll::Ready(Some(2)));
    for _ in 0..5 {
        assert_eq!(taken.poll_next(&mut cx), Poll::Ready(None));
    }
}

#[test]
fn take_ends_with_a_short_upstream() {
    let mut taken = vec![1, 2].into_par_stream().take(5);
    assert_eq!(drain(&mut taken, 10), vec![1, 2]);
    assert_eq!(drain(&mut taken, 10), Vec::<i32>::new());
}

#[test]
fn skip_drops_with_pending_then_forwards() {
    let mut cx = Context::from_waker(Waker::noop());
    let mut skipping = Skip::new(vec![10, 20, 30].into_par_stream(), 2);
    assert_eq!(skipping.poll_next(&mut cx), Poll::Pending);
    assert_eq!(skipping.poll_next(&mut cx), Poll::Pending);
    assert_eq!(skipping.poll_next(&mut cx), Poll::Ready(Some(30)));
    assert_eq!(skipping.poll_next(&mut cx), Poll::Ready(None));
    assert_eq!(skipping.poll_next(&mut cx), Poll::Ready(None));
}

#[test]
fn skip_more_than_there_is_yields_nothing() {
    let mut skipping = vec![1, 2, 3].into_par_stream().skip(7);
    assert_eq!(drain(&mut skipping, 20), Vec::<i32>::new());
}

#[test]
fn skip_zero_forwards_everything() {
    let mut skipping = vec![1, 2, 3].into_par_stream().skip(0);
    assert_eq!(drain(&mut skipping, 20), vec![1, 2, 3]);
}

#[test]
fn enumerate_numbers_from_zero() {
    let mut numbering = Enumerate::new(vec!['a', 'b', 'c'].into_par_stream());
    assert_eq!(drain(&mut numbering, 10), vec![(0, 'a'), (1, 'b'), (2, 'c')]);
    assert_eq!(drain(&mut numbering, 10), vec![]);
}

#[test]
fn zip_ends_with_the_shorter_side() {
    let left = vec![1, 2, 3].into_par_stream();
    let right = vec!['x', 'y'].into_par_stream();
    let mut zipped = Zip::new(left, right);
    assert_eq!(drain(&mut zipped, 10), vec![(1, 'x'), (2, 'y')]);
    let mut cx = Context::from_waker(Waker::noop());
    for _ in 0..3 {
        assert_eq!(zipped.poll_next(&mut cx), Poll::Ready(None));
    }
}

#[test]
fn zip_ends_at_once_when_the_first_side_is_empty() {
    let left = Vec::<u8>::new().into_par_stream();
    let right = vec![1u8, 2].into_par_stream();
    let mut cx = Context::from_waker(Waker::noop());
    let mut zipped = Zip::new(left, right);
    assert_eq!(zipped.poll_next(&mut cx), Poll::Ready(None));
    assert_eq!(zipped.poll_next(&mut cx), Poll::Ready(None));
}

#[test]
fn zip_keeps_an_early_item_until_its_partner_arrives() {
    // The right side answers `Pending` twice before its first item, while
    // the left side has its item at once.
    let left = vec![1, 2].into_par_stream();
    let right = vec![7, 8, 9, 10].into_par_stream().skip(2);
    let mut cx = Context::from_waker(Waker::noop());
    let mut zipped = Zip::new(left, right);
    assert_eq!(zipped.poll_next(&mut cx), Poll::Pending);
    assert_eq!(zipped.poll_next(&mut cx), Poll::Pending);
    assert_eq!(zipped.poll_next(&mut cx), Poll::Ready(Some((1, 9))));
    assert_eq!(zipped.poll_next(&mut cx), Poll::Ready(Some((2, 10))));
    assert_eq!(zipped.poll_next(&mut cx), Poll::Ready(None));
}

#[test]
fn zip_limit_is_the_smaller_one() {
    let zipped = Zip::new(repeat(1u8).limit(Some(4)), repeat(2u8).limit(Some(3)));
    assert_eq!(zipped.get_limit(), Some(3));
    let zipped = Zip::new(repeat(1u8).limit(Some(2)), repeat(2u8).limit(Some(9)));
    assert_eq!(zipped.get_limit(), Some(2));
    let zipped = Zip::new(repeat(1u8), repeat(2u8).limit(Some(3)));
    assert_eq!(zipped.get_limit(), None);
    let zipped = Zip::new(repeat(1u8).limit(Some(3)), repeat(2u8));
    assert_eq!(zipped.get_limit(), None);
}

#[test]
fn smaller_limit_follows_the_order_of_option() {
    assert_eq!(smaller_limit(Some(1), Some(2)), Some(1));
    assert_eq!(smaller_limit(Some(2), Some(1)), Some(1));
    assert_eq!(smaller_limit(Some(5), Some(5)), Some(5));
    assert_eq!(smaller_limit(None, Some(5)), None);
    assert_eq!(smaller_limit(Some(5), None), None);
    assert_eq!(smaller_limit(None, None), None);
    assert_eq!(smaller_limit(Some(0), Some(usize::MAX)), std::cmp::min(Some(0), Some(usize::MAX)));
    assert_eq!(smaller_limit(None, Some(0)), std::cmp::min(None, Some(0usize)));
}

#[test]
fn limit_is_handed_down_and_can_be_set() {
    let source = vec![1, 2, 3].into_par_stream();
    assert_eq!(source.get_limit(), None);
    let source = source.limit(Some(8));
    assert_eq!(source.get_limit(), Some(8));
    let taken = source.take(2);
    assert_eq!(taken.get_limit(), Some(8));
    let skipping = taken.skip(1);
    assert_eq!(skipping.get_limit(), Some(8));
    let numbering = skipping.enumerate();
    assert_eq!(numbering.get_limit(), Some(8));
    let numbering = numbering.limit(None);
    assert_eq!(numbering.get_limit(), None);
    let mut numbering = numbering.limit(Some(1));
    assert_eq!(numbering.get_limit(), Some(1));
    assert_eq!(drain(&mut numbering, 10), vec![(0, 2)]);
}

#[test]
fn vec_stream_yields_in_order_and_stays_ended() {
    let mut cx = Context::from_waker(Waker::noop());
    let mut stream = vec!["a", "b", "c"].into_par_stream();
    assert_eq!(stream.poll_next(&mut cx), Poll::Ready(Some("a")));
    assert_eq!(stream.poll_next(&mut cx), Poll::Ready(Some("b")));
    assert_eq!(stream.poll_next(&mut cx), Poll::Ready(Some("c")));
    for _ in 0..4 {
        assert_eq!(stream.poll_next(&mut cx), Poll::Ready(None));
    }
}

#[test]
fn a_stream_is_its_own_conversion() {
    let mut stream = repeat(3u8).take(2).into_par_stream();
    assert_eq!(drain(&mut stream, 10), vec![3, 3]);
}

#[test]
fn repeat_never_ends() {
    let mut cx = Context::from_waker(Waker::noop());
    let mut stream = repeat(9u32);
    for _ in 0..1000 {
        assert_eq!(stream.poll_next(&mut cx), Poll::Ready(Some(9)));
    }
}

#[test]
fn next_polls_the_borrowed_stream() {
    let mut cx = Context::from_waker(Waker::noop());
    let mut stream = vec![1, 2].into_par_stream();
    {
        let mut next = NextFuture::new(&mut stream);
        assert_eq!(next.poll(&mut cx), Poll::Ready(Some(1)));
    }
    assert_eq!(stream.next().poll(&mut cx), Poll::Ready(Some(2)));
    assert_eq!(stream.next().poll(&mut cx), Poll::Ready(None));
    assert_eq!(stream.poll_next(&mut cx), Poll::Ready(None));
}

#[test]
fn count_of_an_empty_stream_is_zero() {
    let mut counting = Vec::<u8>::new().into_par_stream().count();
    let mut cx = Context::from_waker(Waker::noop());
    assert_eq!(counting.poll(&mut cx), Poll::Ready(0));
}

#[test]
fn count_answers_pending_once_for_each_item() {
    let mut counting = Count::new(vec![1, 2, 3].into_par_stream());
    let mut cx = Context::from_waker(Waker::noop());
    assert_eq!(counting.poll(&mut cx), Poll::Pending);
    assert_eq!(counting.poll(&mut cx), Poll::Pending);
    assert_eq!(counting.poll(&mut cx), Poll::Pending);
    assert_eq!(counting.poll(&mut cx), Poll::Ready(3));
}

#[test]
fn collect_keeps_the_order() {
    let mut collecting = Collect::new(vec![3, 1, 2].into_par_stream().skip(1));
    let mut cx = Context::from_waker(Waker::noop());
    assert_eq!(collecting.poll(&mut cx), Poll::Pending);
    assert_eq!(collecting.poll(&mut cx), Poll::Pending);
    assert_eq!(collecting.poll(&mut cx), Poll::Pending);
    assert_eq!(collecting.poll(&mut cx), Poll::Ready(vec![1, 2]));
    assert_eq!(collecting.poll(&mut cx), Poll::Ready(vec![]));
}

#[test]
fn exhausted_streams_keep_ending() {
    let mut cx = Context::from_waker(Waker::noop());
    let mut taken = repeat(1u8).take(1);
    let mut skipping = vec![1u8].into_par_stream().skip(1);
    let mut numbering = vec![1u8].into_par_stream().enumerate();
    let mut zipped = Zip::new(vec![1u8].into_par_stream(), repeat(2u8));
    assert_eq!(drain(&mut taken, 10), vec![1]);
    assert_eq!(drain(&mut skipping, 10), vec![]);
    assert_eq!(drain(&mut numbering, 10), vec![(0, 1)]);
    assert_eq!(drain(&mut zipped, 10), vec![(1, 2)]);
    for _ in 0..10 {
        assert_eq!(taken.poll_next(&mut cx), Poll::Ready(None));
        assert_eq!(skipping.poll_next(&mut cx), Poll::Ready(None));
        assert_eq!(numbering.poll_next(&mut cx), Poll::Ready(None));
        assert_eq!(zipped.poll_next(&mut cx), Poll::Ready(None));
    }
}

#[test]
fn poll_says_which_it_is() {
    assert!(Poll::Ready(1).is_ready());
    assert!(!Poll::Ready(1).is_pending());
    assert!(Poll::<u8>::Pending.is_pending());
    assert!(!Poll::<u8>::Pending.is_ready());
}

#[test]
fn take_does_not_count_a_pending_poll() {
    let mut cx = Context::from_waker(Waker::noop());
    let upstream = script(vec![
        Poll::Pending,
        Poll::Ready(Some(1)),
        Poll::Pending,
        Poll::Pending,
        Poll::Ready(Some(2)),
        Poll::Ready(Some(3)),
    ]);
    let mut taken = Take::new(upstream, 2);
    assert_eq!(taken.poll_next(&mut cx), Poll::Pending);
    assert_eq!(taken.poll_next(&mut cx), Poll::Ready(Some(1)));
    assert_eq!(taken.poll_next(&mut cx), Poll::Pending);
    assert_eq!(taken.poll_next(&mut cx), Poll::Pending);
    assert_eq!(taken.poll_next(&mut cx), Poll::Ready(Some(2)));
    assert_eq!(taken.poll_next(&mut cx), Poll::Ready(None));
    assert_eq!(taken.poll_next(&mut cx), Poll::Ready(None));
}

#[test]
fn combinators_stay_ended_over_a_stream_that_comes_back() {
    let mut cx = Context::from_waker(Waker::noop());
    // Each of these streams yields again after it has signalled its end.
    let comes_back = || script(vec![Poll::Ready(Some(1)), Poll::Ready(None), Poll::Ready(Some(2))]);
    let mut taken = comes_back().take(5);
    let mut skipping = comes_back().skip(0);
    let mut numbering = comes_back().enumerate();
    let mut zipped = Zip::new(comes_back(), repeat(0u8));
    let mut zipped_second = Zip::new(repeat(0u8), comes_back());
    assert_eq!(taken.poll_next(&mut cx), Poll::Ready(Some(1)));
    assert_eq!(skipping.poll_next(&mut cx), Poll::Ready(Some(1)));
    assert_eq!(numbering.poll_next(&mut cx), Poll::Ready(Some((0, 1))));
    assert_eq!(zipped.poll_next(&mut cx), Poll::Ready(Some((1, 0))));
    assert_eq!(zipped_second.poll_next(&mut cx), Poll::Ready(Some((0, 1))));
    for _ in 0..4 {
        assert_eq!(taken.poll_next(&mut cx), Poll::Ready(None));
        assert_eq!(skipping.poll_next(&mut cx), Poll::Ready(None));
        assert_eq!(numbering.poll_next(&mut cx), Poll::Ready(None));
        assert_eq!(zipped.poll_next(&mut cx), Poll::Ready(None));
        assert_eq!(zipped_second.poll_next(&mut cx), Poll::Ready(None));
    }
}

#[test]
fn zip_drops_a_waiting_item_when_the_other_side_ends() {
    let mut cx = Context::from_waker(Waker::noop());
    // The first side has its item at once; the second side is pending once
    // and then ends.
    let left = script(vec![Poll::Ready(Some('a')), Poll::Ready(Some('b'))]);
    let right = script(vec![Poll::<Option<u8>>::Pending, Poll::Ready(None), Poll::Ready(Some(1))]);
    let mut zipped = Zip::new(left, right);
    assert_eq!(zipped.poll_next(&mut cx), Poll::Pending);
    assert_eq!(zipped.poll_next(&mut cx), Poll::Ready(None));
    assert_eq!(zipped.poll_next(&mut cx), Poll::Ready(None));
}

#[test]
fn zip_does_not_ask_the_second_side_when_the_first_has_ended() {
    let mut cx = Context::from_waker(Waker::noop());
    let left = script(Vec::<Poll<Option<u8>>>::new());
    let right = script(vec![Poll::Ready(Some(1)), Poll::Ready(Some(2))]);
    let asked_left = left.polls();
    let asked_right = right.polls();
    let mut zipped = Zip::new(left, right);
    assert_eq!(zipped.poll_next(&mut cx), Poll::Ready(None));
    assert_eq!(zipped.poll_next(&mut cx), Poll::Ready(None));
    assert_eq!(asked_left.load(Ordering::SeqCst), 1);
    assert_eq!(asked_right.load(Ordering::SeqCst), 0);
}

#[test]
fn zip_asks_a_side_again_only_when_nothing_of_it_waits() {
    let mut cx = Context::from_waker(Waker::noop());
    let left = script(vec![Poll::Ready(Some(1)), Poll::Ready(Some(2)), Poll::Ready(Some(3))]);
    let right = script(vec![
        Poll::Pending,
        Poll::Pending,
        Poll::Ready(Some('x')),
        Poll::Ready(Some('y')),
    ]);
    let asked_left = left.polls();
    let asked_right = right.polls();
    let mut zipped = Zip::new(left, right);
    assert_eq!(zipped.poll_next(&mut cx), Poll::Pending);
    assert_eq!(zipped.poll_next(&mut cx), Poll::Pending);
    // The first side was asked once, and its item has been waiting since.
    assert_eq!(asked_left.load(Ordering::SeqCst), 1);
    assert_eq!(asked_right.load(Ordering::SeqCst), 2);
    assert_eq!(zipped.poll_next(&mut cx), Poll::Ready(Some((1, 'x'))));
    assert_eq!(zipped.poll_next(&mut cx), Poll::Ready(Some((2, 'y'))));
    assert_eq!(zipped.poll_next(&mut cx), Poll::Ready(None));
    assert_eq!(asked_left.load(Ordering::SeqCst), 3);
    assert_eq!(asked_right.load(Ordering::SeqCst), 5);
    assert_eq!(zipped.poll_next(&mut cx), Poll::Ready(None));
    assert_eq!(asked_left.load(Ordering::SeqCst), 3);
    assert_eq!(asked_right.load(Ordering::SeqCst), 5);
}

#[test]
fn enumerate_and_skip_pass_pending_on() {
    let mut cx = Context::from_waker(Waker::noop());
    let upstream = script(vec![Poll::Pending, Poll::Ready(Some('a')), Poll::Pending, Poll::Ready(Some('b'))]);
    let mut numbering = Enumerate::new(Skip::new(upstream, 1));
    assert_eq!(numbering.poll_next(&mut cx), Poll::Pending);
    assert_eq!(numbering.poll_next(&mut cx), Poll::Pending);
    assert_eq!(numbering.poll_next(&mut cx), Poll::Pending);
    assert_eq!(numbering.poll_next(&mut cx), Poll::Ready(Some((0, 'b'))));
    assert_eq!(numbering.poll_next(&mut cx), Poll::Ready(None));
}

#[test]
fn count_and_collect_wait_through_pending() {
    let mut cx = Context::from_waker(Waker::noop());
    let mut counting = script(vec![Poll::Pending, Poll::Ready(Some(1)), Poll::Pending]).count();
    assert_eq!(counting.poll(&mut cx), Poll::Pending);
    assert_eq!(counting.poll(&mut cx), Poll::Pending);
    assert_eq!(counting.poll(&mut cx), Poll::Pending);
    assert_eq!(counting.poll(&mut cx), Poll::Ready(1));
    let mut collecting = Collect::new(script(vec![Poll::Pending, Poll::Ready(Some(1))]));
    assert_eq!(collecting.poll(&mut cx), Poll::Pending);
    assert_eq!(collecting.poll(&mut cx), Poll::Pending);
    assert_eq!(collecting.poll(&mut cx), Poll::Ready(vec![1]));
}

#[test]
fn limit_of_a_stream_of_the_caller_is_handed_down() {
    let upstream = script(vec![Poll::Ready(Some(1))]).limit(Some(6));
    let zipped = Zip::new(upstream.take(1), repeat(1u8).limit(Some(9)));
    assert_eq!(zipped.get_limit(), Some(6));
}

#[test]
fn fuse_passes_on_and_stays_ended() {
    let mut cx = Context::from_waker(Waker::noop());
    let upstream = script(vec![
        Poll::Pending,
        Poll::Ready(Some(1)),
        Poll::Ready(None),
        Poll::Ready(Some(2)),
    ]);
    let polls = upstream.polls();
    let mut fused = Fuse::new(upstream);
    assert_eq!(fused.poll_next(&mut cx), Poll::Pending);
    assert_eq!(fused.poll_next(&mut cx), Poll::Ready(Some(1)));
    assert_eq!(fused.poll_next(&mut cx), Poll::Ready(None));
    for _ in 0..4 {
        assert_eq!(fused.poll_next(&mut cx), Poll::Ready(None));
    }
    assert_eq!(polls.load(Ordering::SeqCst), 3);
}

#[test]
fn fuse_has_the_limit_of_what_it_wraps() {
    let fused = repeat(1u8).limit(Some(3)).fuse();
    assert_eq!(fused.get_limit(), Some(3));
    let fused = fused.limit(Some(5));
    assert_eq!(fused.get_limit(), Some(5));
    let mut fused = fused.limit(None).take(2);
    assert_eq!(fused.get_limit(), None);
    assert_eq!(drain(&mut fused, 10), vec![1, 1]);
}
