//! A model of one concurrent transform stage, and the proof that what comes
//! out of it is, as a multiset, exactly what the transform makes of what
//! went in.
//!
//! The stage is a pump, the work units it has started, the rendezvous
//! channel with its single place, and the consumer. The model lists their
//! steps; a run takes them in any order, so its states are all that any
//! interleaving can reach. Nothing is said of the order in which results
//! arrive: there is none to keep.

use vstd::prelude::*;
use vstd::multiset::Multiset;
use vstd::seq_lib::to_multiset_build;

verus! {

/// What a work unit hands to the channel for one item: the value to
/// forward, or nothing.
pub type Work<X, Y> = spec_fn(X) -> Option<Y>;

/// The work of a map stage: the transform's output, always.
pub open spec fn map_work<X, Y>(f: spec_fn(X) -> Y) -> Work<X, Y> {
    |item: X| Some(f(item))
}

/// What a filter stage forwards for `item` when the predicate has resolved
/// to `keep`: the item itself, or nothing.
pub open spec fn kept<X>(item: X, keep: bool) -> Option<X> {
    if keep {
        Some(item)
    } else {
        None
    }
}

/// The work of a filter stage: the item itself, if the predicate holds.
pub open spec fn filter_work<X>(keep: spec_fn(X) -> bool) -> Work<X, X> {
    |item: X| kept(item, keep(item))
}

/// The multiset with `value` in it, if there is one, and nothing else.
pub open spec fn bag_of<Y>(value: Option<Y>) -> Multiset<Y> {
    match value {
        Some(y) => Multiset::singleton(y),
        None => Multiset::empty(),
    }
}

/// The multiset of the values that `work` forwards for `items`.
pub open spec fn forwarded<X, Y>(work: Work<X, Y>, items: Seq<X>) -> Multiset<Y>
    decreases items.len(),
{
    if items.len() == 0 {
        Multiset::empty()
    } else {
        forwarded(work, items.drop_last()).add(bag_of(work(items.last())))
    }
}

/// One more item adds what `work` forwards for it.
pub proof fn lemma_forwarded_push<X, Y>(work: Work<X, Y>, items: Seq<X>, item: X)
    ensures
        forwarded(work, items.push(item)) == forwarded(work, items).add(bag_of(work(item))),
{
    assert(items.push(item).drop_last() =~= items);
}

/// Taking the item at `at` out takes away what `work` forwards for it.
pub proof fn lemma_forwarded_remove<X, Y>(work: Work<X, Y>, items: Seq<X>, at: int)
    requires
        0 <= at < items.len(),
    ensures
        forwarded(work, items) == forwarded(work, items.remove(at)).add(bag_of(work(items[at]))),
    decreases items.len(),
{
    if at == items.len() - 1 {
        assert(items.remove(at) =~= items.drop_last());
    } else {
        let front = items.drop_last();
        lemma_forwarded_remove(work, front, at);
        assert(items.remove(at) =~= front.remove(at).push(items.last()));
        lemma_forwarded_push(work, front.remove(at), items.last());
        assert(forwarded(work, items) =~= forwarded(work, items.remove(at)).add(
            bag_of(work(items[at])),
        ));
    }
}

/// Whatever is forwarded for a list of items is what `work` makes of one of
/// them.
pub proof fn lemma_forwarded_has_source<X, Y>(work: Work<X, Y>, items: Seq<X>, value: Y) -> (at:
    int)
    requires
        forwarded(work, items).count(value) > 0,
    ensures
        0 <= at < items.len(),
        work(items[at]) == Some(value),
    decreases items.len(),
{
    if items.len() == 0 {
        0
    } else if work(items.last()) == Some(value) {
        items.len() - 1
    } else {
        assert(bag_of(work(items.last())).count(value) == 0);
        lemma_forwarded_has_source(work, items.drop_last(), value)
    }
}

/// What `work` makes of an item of a list is among what is forwarded for
/// the list.
pub proof fn lemma_source_is_forwarded<X, Y>(work: Work<X, Y>, items: Seq<X>, at: int)
    requires
        0 <= at < items.len(),
        work(items[at]) is Some,
    ensures
        forwarded(work, items).count(work(items[at])->0) > 0,
    decreases items.len(),
{
    if at == items.len() - 1 {
        assert(bag_of(work(items.last())).count(work(items[at])->0) == 1);
    } else {
        lemma_source_is_forwarded(work, items.drop_last(), at);
    }
}

/// A map stage forwards the image of its input.
pub proof fn lemma_forwarded_map<X, Y>(f: spec_fn(X) -> Y, items: Seq<X>)
    ensures
        forwarded(map_work(f), items) == items.map_values(f).to_multiset(),
    decreases items.len(),
{
    if items.len() == 0 {
        assert(items.map_values(f) =~= Seq::<Y>::empty());
        assert(Seq::<Y>::empty().to_multiset() =~= Multiset::<Y>::empty()) by {
            Seq::<Y>::empty().to_multiset_ensures();
            assert(Seq::<Y>::empty().to_multiset().len() == 0);
        }
    } else {
        let front = items.drop_last();
        lemma_forwarded_map(f, front);
        assert(items.map_values(f) =~= front.map_values(f).push(f(items.last())));
        to_multiset_build(front.map_values(f), f(items.last()));
        assert(forwarded(map_work(f), items) =~= items.map_values(f).to_multiset());
    }
}

/// The state of a transform stage.
pub struct StageState<X, Y> {
    /// The items that the upstream has yet to hand over, next one first.
    pub upstream: Seq<X>,
    /// Whether the pump is still in its loop (and holds its sender).
    pub pumping: bool,
    /// The items of the work units that were started and are not done.
    pub running: Seq<X>,
    /// The one place of the rendezvous channel.
    pub slot: Option<Y>,
    /// What the consumer has received, in the order of arrival.
    pub delivered: Seq<Y>,
    /// Whether the consumer has seen the end of the stream.
    pub ended: bool,
}

/// The steps of a transform stage.
pub enum StageEvent {
    /// The pump has pulled an item and started a work unit for it.
    Pull,
    /// The pump has seen the end of the upstream and left its loop.
    PumpEnd,
    /// The work unit at this place among the running ones has run the
    /// transform, handed over what it had to forward, and is done.
    Complete(int),
    /// The consumer has taken the value out of the channel.
    Receive,
    /// The consumer has found the channel empty and closed.
    End,
}

/// The state of a stage over `input` before anything has happened.
pub open spec fn stage_init<X, Y>(input: Seq<X>) -> StageState<X, Y> {
    StageState {
        upstream: input,
        pumping: true,
        running: Seq::empty(),
        slot: None,
        delivered: Seq::empty(),
        ended: false,
    }
}

/// Whether a work unit may start while `running` of them run under `limit`.
pub open spec fn may_start(running: nat, limit: Option<usize>) -> bool {
    limit matches Some(most) ==> running < most
}

/// Whether the step `event` takes a stage that does `work`, with the
/// concurrency limit `limit`, from `pre` to `post`.
///
/// A work unit with a value to forward can only complete while the channel's
/// place is free: that is the stage's backpressure. The channel closes when
/// the pump and every work unit have dropped their senders.
pub open spec fn stage_step<X, Y>(
    work: Work<X, Y>,
    limit: Option<usize>,
    pre: StageState<X, Y>,
    post: StageState<X, Y>,
    event: StageEvent,
) -> bool {
    match event {
        StageEvent::Pull => {
            &&& pre.pumping
            &&& pre.upstream.len() > 0
            &&& may_start(pre.running.len(), limit)
            &&& post == StageState {
                upstream: pre.upstream.drop_first(),
                running: pre.running.push(pre.upstream[0]),
                ..pre
            }
        },
        StageEvent::PumpEnd => {
            &&& pre.pumping
            &&& pre.upstream.len() == 0
            &&& post == StageState { pumping: false, ..pre }
        },
        StageEvent::Complete(at) => {
            &&& 0 <= at < pre.running.len()
            &&& work(pre.running[at]) is Some ==> pre.slot is None
            &&& post == StageState {
                running: pre.running.remove(at),
                slot: if work(pre.running[at]) is Some {
                    work(pre.running[at])
                } else {
                    pre.slot
                },
                ..pre
            }
        },
        StageEvent::Receive => {
            &&& pre.slot is Some
            &&& !pre.ended
            &&& post == StageState {
                slot: None,
                delivered: pre.delivered.push(pre.slot->0),
                ..pre
            }
        },
        StageEvent::End => {
            &&& pre.slot is None
            &&& !pre.pumping
            &&& pre.running.len() == 0
            &&& post == StageState { ended: true, ..pre }
        },
    }
}

/// Whether some step takes the stage from `pre` to `post`.
pub open spec fn stage_next<X, Y>(
    work: Work<X, Y>,
    limit: Option<usize>,
    pre: StageState<X, Y>,
    post: StageState<X, Y>,
) -> bool {
    exists|event: StageEvent| stage_step(work, limit, pre, post, event)
}

/// Whether `states` is a run of a stage over `input`: it starts in the
/// initial state and every state follows from the one before by some step.
pub open spec fn is_stage_run<X, Y>(
    work: Work<X, Y>,
    limit: Option<usize>,
    input: Seq<X>,
    states: Seq<StageState<X, Y>>,
) -> bool {
    &&& states.len() > 0
    &&& states[0] == stage_init::<X, Y>(input)
    &&& forall|i: int|
        0 <= i < states.len() - 1 ==> stage_next(work, limit, #[trigger] states[i], states[i + 1])
}

/// Everything that the stage will ever forward, wherever it is now: still
/// to be pulled, being worked on, in the channel, or delivered.
pub open spec fn accounted<X, Y>(work: Work<X, Y>, s: StageState<X, Y>) -> Multiset<Y> {
    forwarded(work, s.upstream).add(forwarded(work, s.running)).add(bag_of(s.slot)).add(
        s.delivered.to_multiset(),
    )
}

/// What holds of every state that a stage over `input` can reach: nothing
/// is lost and nothing is made up, the limit is kept, and the stream ends
/// only when nothing is left anywhere but with the consumer.
pub open spec fn stage_inv<X, Y>(
    work: Work<X, Y>,
    limit: Option<usize>,
    input: Seq<X>,
    s: StageState<X, Y>,
) -> bool {
    &&& accounted(work, s) == forwarded(work, input)
    &&& limit matches Some(most) ==> s.running.len() <= most
    &&& !s.pumping ==> s.upstream.len() == 0
    &&& s.ended ==> !s.pumping && s.running.len() == 0 && s.slot is None
}

/// Every step keeps [`stage_inv`].
pub proof fn lemma_stage_step_keeps_inv<X, Y>(
    work: Work<X, Y>,
    limit: Option<usize>,
    input: Seq<X>,
    pre: StageState<X, Y>,
    post: StageState<X, Y>,
    event: StageEvent,
)
    requires
        stage_inv(work, limit, input, pre),
        stage_step(work, limit, pre, post, event),
    ensures
        stage_inv(work, limit, input, post),
{
    match event {
        StageEvent::Pull => {
            assert(pre.upstream.drop_first() =~= pre.upstream.remove(0));
            lemma_forwarded_remove(work, pre.upstream, 0);
            lemma_forwarded_push(work, pre.running, pre.upstream[0]);
            assert(accounted(work, post) =~= accounted(work, pre));
        },
        StageEvent::PumpEnd => {},
        StageEvent::Complete(at) => {
            lemma_forwarded_remove(work, pre.running, at);
            assert(accounted(work, post) =~= accounted(work, pre));
        },
        StageEvent::Receive => {
            to_multiset_build(pre.delivered, pre.slot->0);
            assert(accounted(work, post) =~= accounted(work, pre));
        },
        StageEvent::End => {},
    }
}

/// Every state of a run satisfies [`stage_inv`].
pub proof fn lemma_stage_run_inv<X, Y>(
    work: Work<X, Y>,
    limit: Option<usize>,
    input: Seq<X>,
    states: Seq<StageState<X, Y>>,
    at: int,
)
    requires
        is_stage_run(work, limit, input, states),
        0 <= at < states.len(),
    ensures
        stage_inv(work, limit, input, states[at]),
    decreases at,
{
    if at == 0 {
        assert(Seq::<Y>::empty().to_multiset() =~= Multiset::<Y>::empty()) by {
            Seq::<Y>::empty().to_multiset_ensures();
            assert(Seq::<Y>::empty().to_multiset().len() == 0);
        }
        assert(accounted(work, states[0]) =~= forwarded(work, input));
    } else {
        lemma_stage_run_inv(work, limit, input, states, at - 1);
        let pre = states[at - 1];
        let post = states[at];
        assert(stage_next(work, limit, pre, post));
        let event = choose|event: StageEvent| stage_step(work, limit, pre, post, event);
        lemma_stage_step_keeps_inv(work, limit, input, pre, post, event);
    }
}

/// In every run of a transform stage, under every interleaving: what the
/// consumer has received is part of what `work` forwards for the input,
/// and once the consumer has seen the end of the stream it has received all
/// of it, each value as often as the input gives it.
pub proof fn lemma_stage_delivers_what_is_forwarded<X, Y>(
    work: Work<X, Y>,
    limit: Option<usize>,
    input: Seq<X>,
    states: Seq<StageState<X, Y>>,
)
    requires
        is_stage_run(work, limit, input, states),
    ensures
        forall|i: int|
            0 <= i < states.len() ==> {
                let s = #[trigger] states[i];
                &&& s.delivered.to_multiset().subset_of(forwarded(work, input))
                &&& s.ended ==> s.delivered.to_multiset() == forwarded(work, input)
                &&& limit matches Some(most) ==> s.running.len() <= most
            },
{
    assert forall|i: int| 0 <= i < states.len() implies {
        let s = #[trigger] states[i];
        &&& s.delivered.to_multiset().subset_of(forwarded(work, input))
        &&& s.ended ==> s.delivered.to_multiset() == forwarded(work, input)
        &&& limit matches Some(most) ==> s.running.len() <= most
    } by {
        lemma_stage_run_inv(work, limit, input, states, i);
        let s = states[i];
        assert(s.delivered.to_multiset().subset_of(accounted(work, s)));
        if s.ended {
            assert(s.upstream =~= Seq::<X>::empty());
            assert(s.running =~= Seq::<X>::empty());
            assert(s.delivered.to_multiset() =~= accounted(work, s));
        }
    }
}

/// For every finite input and every transform `f`, the outputs of a
/// concurrent map stage that has run to its end are, as a multiset, the
/// values of `f` on the input.
pub proof fn lemma_map_stage_outputs<X, Y>(
    f: spec_fn(X) -> Y,
    limit: Option<usize>,
    input: Seq<X>,
    states: Seq<StageState<X, Y>>,
)
    requires
        is_stage_run(map_work(f), limit, input, states),
        states.last().ended,
    ensures
        states.last().delivered.to_multiset() == input.map_values(f).to_multiset(),
{
    lemma_stage_delivers_what_is_forwarded(map_work(f), limit, input, states);
    lemma_forwarded_map(f, input);
}

/// In every run of a transform stage, under every interleaving, every
/// value that the consumer has received is what `work` makes of some item
/// of the input.
pub proof fn lemma_delivered_has_source<X, Y>(
    work: Work<X, Y>,
    limit: Option<usize>,
    input: Seq<X>,
    states: Seq<StageState<X, Y>>,
    at: int,
    place: int,
) -> (source: int)
    requires
        is_stage_run(work, limit, input, states),
        0 <= at < states.len(),
        0 <= place < states[at].delivered.len(),
    ensures
        0 <= source < input.len(),
        work(input[source]) == Some(states[at].delivered[place]),
{
    lemma_stage_delivers_what_is_forwarded(work, limit, input, states);
    let s = states[at];
    let value = s.delivered[place];
    s.delivered.to_multiset_ensures();
    assert(s.delivered.contains(value));
    assert(s.delivered.to_multiset().count(value) > 0);
    assert(forwarded(work, input).count(value) > 0);
    lemma_forwarded_has_source(work, input, value)
}

/// A transform stage that has run to its end has delivered something
/// exactly if `work` forwards something for some item of the input: a
/// stage over an input with a match does not end before it has delivered
/// one, and a stage over an input without a match delivers nothing.
pub proof fn lemma_stage_delivers_exactly_if_matched<X, Y>(
    work: Work<X, Y>,
    limit: Option<usize>,
    input: Seq<X>,
    states: Seq<StageState<X, Y>>,
)
    requires
        is_stage_run(work, limit, input, states),
        states.last().ended,
    ensures
        states.last().delivered.len() > 0 <==> exists|i: int|
            0 <= i < input.len() && work(#[trigger] input[i]) is Some,
{
    lemma_stage_delivers_what_is_forwarded(work, limit, input, states);
    let s = states.last();
    s.delivered.to_multiset_ensures();
    if s.delivered.len() > 0 {
        let source = lemma_delivered_has_source(work, limit, input, states, states.len() - 1, 0);
        assert(work(input[source]) is Some);
    }
    if exists|i: int| 0 <= i < input.len() && work(#[trigger] input[i]) is Some {
        let i = choose|i: int| 0 <= i < input.len() && work(#[trigger] input[i]) is Some;
        lemma_source_is_forwarded(work, input, i);
        let value = work(input[i])->0;
        assert(s.delivered.to_multiset().count(value) > 0);
        assert(s.delivered.contains(value));
    }
}

} // verus!
