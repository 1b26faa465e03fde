//! A model of one effect-only stage, and the proofs that the effect runs
//! exactly once on every item, that the completion signal is fired exactly
//! once, by the last one out, and that the stage does complete.
//!
//! The stage is a pump, the work units it has started, the tracker they
//! share, and the consumer that waits for completion. Each of them advances
//! by steps that are atomic with respect to the tracker, in any order; the
//! model lists those steps, and its states are all that any interleaving can
//! reach. The steps apply to the tracker's word exactly the operations of
//! [`crate::engine::tracker::Tracker`] and take the decisions of
//! [`crate::engine::word`].

use vstd::prelude::*;
use crate::engine::transform::{
    forwarded,
    lemma_forwarded_map,
    lemma_forwarded_push,
    lemma_forwarded_remove,
    map_work,
    Work,
};
use crate::engine::word::{
    exhaust_completes,
    finish_completes,
    has_room,
    in_flight,
    is_exhausted,
    lemma_raised,
    raised,
    ONE_UNIT,
};

verus! {

/// The state of an effect-only stage over items of type `X`.
pub struct SinkState<X> {
    /// The items that the upstream has yet to hand over, next one first.
    pub waiting: Seq<X>,
    /// The tracker's word.
    pub word: u64,
    /// The items of the work units that were started and have not counted
    /// themselves out.
    pub running: Seq<X>,
    /// The items on which the effect has run to its end, one entry for each
    /// invocation, in the order in which they ended.
    pub done: Seq<X>,
    /// How often the completion signal has been fired.
    pub signals: nat,
    /// Whether the consumer has seen the stage complete.
    pub resolved: bool,
}

/// The steps of an effect-only stage.
pub enum SinkEvent {
    /// The pump has pulled an item, counted a work unit in and started it.
    Begin,
    /// The work unit at this place among the running ones has run the
    /// effect to its end and counted itself out.
    Finish(int),
    /// The pump has seen the end of the upstream and raised the flag.
    Exhaust,
    /// The consumer has seen the completion signal, or the channel closed
    /// because the pump and every work unit are gone.
    Resolve,
}

/// The state of a stage over `input` before anything has happened.
pub open spec fn sink_init<X>(input: Seq<X>) -> SinkState<X> {
    SinkState {
        waiting: input,
        word: 0,
        running: Seq::empty(),
        done: Seq::empty(),
        signals: 0,
        resolved: false,
    }
}

/// Whether the step `event` takes a stage with the concurrency limit `limit`
/// from `pre` to `post`.
pub open spec fn sink_step<X>(
    limit: Option<usize>,
    pre: SinkState<X>,
    post: SinkState<X>,
    event: SinkEvent,
) -> bool {
    match event {
        SinkEvent::Begin => {
            &&& !is_exhausted(pre.word)
            &&& pre.waiting.len() > 0
            &&& has_room(pre.word, limit)
            &&& post == SinkState {
                waiting: pre.waiting.drop_first(),
                word: (pre.word + ONE_UNIT) as u64,
                running: pre.running.push(pre.waiting[0]),
                ..pre
            }
        },
        SinkEvent::Finish(at) => {
            &&& 0 <= at < pre.running.len()
            &&& post == SinkState {
                word: (pre.word - ONE_UNIT) as u64,
                running: pre.running.remove(at),
                done: pre.done.push(pre.running[at]),
                signals: if finish_completes(pre.word) {
                    pre.signals + 1
                } else {
                    pre.signals
                },
                ..pre
            }
        },
        SinkEvent::Exhaust => {
            &&& !is_exhausted(pre.word)
            &&& pre.waiting.len() == 0
            &&& post == SinkState {
                word: raised(pre.word),
                signals: if exhaust_completes(pre.word) {
                    pre.signals + 1
                } else {
                    pre.signals
                },
                ..pre
            }
        },
        SinkEvent::Resolve => {
            &&& !pre.resolved
            &&& pre.signals > 0 || (is_exhausted(pre.word) && pre.running.len() == 0)
            &&& post == SinkState { resolved: true, ..pre }
        },
    }
}

/// Whether some step takes the stage from `pre` to `post`.
pub open spec fn sink_next<X>(limit: Option<usize>, pre: SinkState<X>, post: SinkState<X>) -> bool {
    exists|event: SinkEvent| sink_step(limit, pre, post, event)
}

/// Whether `states` is a run of a stage over `input`: it starts in the
/// initial state and every state follows from the one before by some step.
pub open spec fn is_sink_run<X>(
    limit: Option<usize>,
    input: Seq<X>,
    states: Seq<SinkState<X>>,
) -> bool {
    &&& states.len() > 0
    &&& states[0] == sink_init(input)
    &&& forall|i: int|
        0 <= i < states.len() - 1 ==> sink_next(limit, #[trigger] states[i], states[i + 1])
}

/// The item itself.
pub open spec fn itself<X>() -> spec_fn(X) -> X {
    |item: X| item
}

/// The work of an effect-only stage, as far as the items go: every item is
/// accounted for as itself.
pub open spec fn each<X>() -> Work<X, X> {
    map_work(itself())
}

/// What holds of every state that a stage over `input` can reach.
///
/// The word counts exactly the work units that run; every item is waiting,
/// being worked on, or done, and is so once; the flag is raised only once
/// nothing is waiting; and the signal has been fired once if the flag is
/// raised and nothing runs, and not at all otherwise.
pub open spec fn sink_inv<X>(limit: Option<usize>, input: Seq<X>, s: SinkState<X>) -> bool {
    &&& in_flight(s.word) == s.running.len()
    &&& forwarded(each(), s.waiting).add(forwarded(each(), s.running)).add(
        forwarded(each(), s.done),
    ) == forwarded(each(), input)
    &&& s.done.len() + s.running.len() + s.waiting.len() == input.len()
    &&& is_exhausted(s.word) ==> s.waiting.len() == 0
    &&& s.signals == if is_exhausted(s.word) && s.running.len() == 0 {
        1nat
    } else {
        0nat
    }
    &&& s.resolved ==> s.signals == 1
    &&& limit matches Some(most) ==> s.running.len() <= most
}

/// Every step keeps [`sink_inv`].
pub proof fn lemma_sink_step_keeps_inv<X>(
    limit: Option<usize>,
    input: Seq<X>,
    pre: SinkState<X>,
    post: SinkState<X>,
    event: SinkEvent,
)
    requires
        sink_inv(limit, input, pre),
        sink_step(limit, pre, post, event),
    ensures
        sink_inv(limit, input, post),
{
    lemma_raised(pre.word);
    let before = forwarded(each(), pre.waiting).add(forwarded(each(), pre.running)).add(
        forwarded(each(), pre.done),
    );
    let after = forwarded(each(), post.waiting).add(forwarded(each(), post.running)).add(
        forwarded(each(), post.done),
    );
    match event {
        SinkEvent::Begin => {
            assert(pre.waiting.drop_first() =~= pre.waiting.remove(0));
            lemma_forwarded_remove(each(), pre.waiting, 0);
            lemma_forwarded_push(each(), pre.running, pre.waiting[0]);
            assert(after =~= before);
        },
        SinkEvent::Finish(at) => {
            lemma_forwarded_remove(each(), pre.running, at);
            lemma_forwarded_push(each(), pre.done, pre.running[at]);
            assert(after =~= before);
        },
        SinkEvent::Exhaust => {},
        SinkEvent::Resolve => {},
    }
}

/// Every state of a run satisfies [`sink_inv`].
pub proof fn lemma_sink_run_inv<X>(
    limit: Option<usize>,
    input: Seq<X>,
    states: Seq<SinkState<X>>,
    at: int,
)
    requires
        is_sink_run(limit, input, states),
        0 <= at < states.len(),
    ensures
        sink_inv(limit, input, states[at]),
    decreases at,
{
    if at == 0 {
        let start = states[0];
        assert(forwarded(each(), start.waiting).add(forwarded(each(), start.running)).add(
            forwarded(each(), start.done),
        ) =~= forwarded(each(), input));
    } else {
        lemma_sink_run_inv(limit, input, states, at - 1);
        let pre = states[at - 1];
        let post = states[at];
        assert(sink_next(limit, pre, post));
        let event = choose|event: SinkEvent| sink_step(limit, pre, post, event);
        lemma_sink_step_keeps_inv(limit, input, pre, post, event);
    }
}

/// What [`forwarded`] makes of a list of items under [`each`] is the list
/// as a multiset.
pub proof fn lemma_each_is_to_multiset<X>(items: Seq<X>)
    ensures
        forwarded(each(), items) == items.to_multiset(),
{
    lemma_forwarded_map(itself::<X>(), items);
    assert(items.map_values(itself::<X>()) =~= items);
}

/// In every run of an effect-only stage over `input`, under every
/// interleaving: the effect has run on no item more often than the input
/// holds it, and once the stage is seen to complete it has run exactly once
/// on every item of the input, none skipped and none repeated.
pub proof fn lemma_effect_runs_once_on_every_item<X>(
    limit: Option<usize>,
    input: Seq<X>,
    states: Seq<SinkState<X>>,
)
    requires
        is_sink_run(limit, input, states),
    ensures
        forall|i: int|
            0 <= i < states.len() ==> {
                let s = #[trigger] states[i];
                &&& s.done.to_multiset().subset_of(input.to_multiset())
                &&& s.resolved ==> s.done.to_multiset() == input.to_multiset()
            },
{
    assert forall|i: int| 0 <= i < states.len() implies {
        let s = #[trigger] states[i];
        &&& s.done.to_multiset().subset_of(input.to_multiset())
        &&& s.resolved ==> s.done.to_multiset() == input.to_multiset()
    } by {
        lemma_sink_run_inv(limit, input, states, i);
        let s = states[i];
        lemma_each_is_to_multiset(s.done);
        lemma_each_is_to_multiset(input);
        let all = forwarded(each(), s.waiting).add(forwarded(each(), s.running)).add(
            forwarded(each(), s.done),
        );
        assert(forwarded(each(), s.done).subset_of(all));
        if s.resolved {
            assert(s.waiting =~= Seq::<X>::empty());
            assert(s.running =~= Seq::<X>::empty());
            assert(forwarded(each(), s.done) =~= all);
        }
    }
}

/// In every run of an effect-only stage over `input`, under every
/// interleaving: the stage is seen to complete only when the effect has run
/// to its end once for every item; the completion signal is never fired
/// before that, and never more than once; and it has been fired once the
/// upstream is exhausted and no work unit runs.
pub proof fn lemma_completes_once_after_all_effects<X>(
    limit: Option<usize>,
    input: Seq<X>,
    states: Seq<SinkState<X>>,
)
    requires
        is_sink_run(limit, input, states),
    ensures
        forall|i: int|
            0 <= i < states.len() ==> {
                let s = #[trigger] states[i];
                &&& s.resolved ==> s.done.len() == input.len()
                &&& s.done.len() < input.len() ==> s.signals == 0
                &&& s.signals <= 1
                &&& s.done.len() <= input.len()
                &&& is_exhausted(s.word) && s.running.len() == 0 ==> s.signals == 1 && s.done.len()
                    == input.len()
            },
{
    assert forall|i: int| 0 <= i < states.len() implies {
        let s = #[trigger] states[i];
        &&& s.resolved ==> s.done.len() == input.len()
        &&& s.done.len() < input.len() ==> s.signals == 0
        &&& s.signals <= 1
        &&& s.done.len() <= input.len()
        &&& is_exhausted(s.word) && s.running.len() == 0 ==> s.signals == 1 && s.done.len()
            == input.len()
    } by {
        lemma_sink_run_inv(limit, input, states, i);
    }
}

/// In every run of an effect-only stage with a concurrency limit, no more
/// work units than the limit run at any time.
pub proof fn lemma_sink_respects_limit<X>(
    limit: Option<usize>,
    input: Seq<X>,
    states: Seq<SinkState<X>>,
)
    requires
        is_sink_run(limit, input, states),
    ensures
        forall|i: int|
            0 <= i < states.len() ==> (limit matches Some(most) ==> (
            #[trigger] states[i]).running.len() <= most),
{
    assert forall|i: int| 0 <= i < states.len() implies (limit matches Some(most) ==> (
    #[trigger] states[i]).running.len() <= most) by {
        lemma_sink_run_inv(limit, input, states, i);
    }
}

/// How many steps a stage in the state `s` has yet to take: two for every
/// item that waits (it begins and it finishes), one for every work unit
/// that runs, one for the pump to raise the flag, and one for the consumer
/// to see the stage complete.
pub open spec fn steps_left<X>(s: SinkState<X>) -> nat {
    2 * s.waiting.len() + s.running.len() + if is_exhausted(s.word) {
        0nat
    } else {
        1nat
    } + if s.resolved {
        0nat
    } else {
        1nat
    }
}

/// Every step of a stage over `input` takes one off [`steps_left`].
pub proof fn lemma_sink_step_is_progress<X>(
    limit: Option<usize>,
    input: Seq<X>,
    pre: SinkState<X>,
    post: SinkState<X>,
    event: SinkEvent,
)
    requires
        sink_inv(limit, input, pre),
        sink_step(limit, pre, post, event),
    ensures
        steps_left(post) + 1 == steps_left(pre),
{
    lemma_raised(pre.word);
}

/// A stage that has not been seen to complete can take a step, whatever
/// has happened so far, unless an item waits under a limit of 0: a work
/// unit that runs can finish, an item that waits can begin or waits for one
/// that runs, the pump can raise the flag once nothing waits, and the
/// consumer can see the completion once the last one is out.
pub proof fn lemma_sink_can_go_on<X>(limit: Option<usize>, input: Seq<X>, s: SinkState<X>) -> (next:
    (SinkState<X>, SinkEvent))
    requires
        sink_inv(limit, input, s),
        !s.resolved,
        limit == Some(0usize) ==> s.waiting.len() == 0,
    ensures
        sink_step(limit, s, next.0, next.1),
{
    lemma_raised(s.word);
    if s.running.len() > 0 {
        let post = SinkState {
            word: (s.word - ONE_UNIT) as u64,
            running: s.running.remove(0),
            done: s.done.push(s.running[0]),
            signals: if finish_completes(s.word) {
                s.signals + 1
            } else {
                s.signals
            },
            ..s
        };
        (post, SinkEvent::Finish(0))
    } else if is_exhausted(s.word) {
        (SinkState { resolved: true, ..s }, SinkEvent::Resolve)
    } else if s.waiting.len() > 0 {
        let post = SinkState {
            waiting: s.waiting.drop_first(),
            word: (s.word + ONE_UNIT) as u64,
            running: s.running.push(s.waiting[0]),
            ..s
        };
        (post, SinkEvent::Begin)
    } else {
        let post = SinkState {
            word: raised(s.word),
            signals: if exhaust_completes(s.word) {
                s.signals + 1
            } else {
                s.signals
            },
            ..s
        };
        (post, SinkEvent::Exhaust)
    }
}

proof fn lemma_sink_run_counts_down<X>(
    limit: Option<usize>,
    input: Seq<X>,
    states: Seq<SinkState<X>>,
    at: int,
)
    requires
        is_sink_run(limit, input, states),
        0 <= at < states.len(),
    ensures
        steps_left(states[at]) + at == 2 * input.len() + 2,
    decreases at,
{
    if at > 0 {
        lemma_sink_run_counts_down(limit, input, states, at - 1);
        let pre = states[at - 1];
        let post = states[at];
        assert(sink_next(limit, pre, post));
        let event = choose|event: SinkEvent| sink_step(limit, pre, post, event);
        lemma_sink_run_inv(limit, input, states, at - 1);
        lemma_sink_step_is_progress(limit, input, pre, post, event);
    }
}

/// An effect-only stage over a finite input does complete, also over an
/// empty one: no run takes more than two steps for every item and two more,
/// a run that has taken that many has been seen to complete, and a run
/// that has not been seen to complete can always take another step, unless
/// an item waits under a limit of 0.
pub proof fn lemma_sink_completes<X>(
    limit: Option<usize>,
    input: Seq<X>,
    states: Seq<SinkState<X>>,
)
    requires
        is_sink_run(limit, input, states),
    ensures
        states.len() <= 2 * input.len() + 3,
        states.len() == 2 * input.len() + 3 ==> states.last().resolved,
        !states.last().resolved && (limit == Some(0usize) ==> input.len() == 0) ==> exists|
            post: SinkState<X>,
        | sink_next(limit, states.last(), post),
{
    let last = states.len() - 1;
    lemma_sink_run_counts_down(limit, input, states, last);
    lemma_sink_run_inv(limit, input, states, last);
    if !states.last().resolved && (limit == Some(0usize) ==> input.len() == 0) {
        let next = lemma_sink_can_go_on(limit, input, states.last());
        assert(sink_next(limit, states.last(), next.0));
    }
}

} // verus!
