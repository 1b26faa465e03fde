use parallel_stream::engine::pump::{decide, pump_step, PumpAction};
use parallel_stream::engine::tracker::Tracker;
use parallel_stream::engine::word::{
    count, fresh, last_on_exhaust, last_on_finish, room_for_one, with_one_more, EXHAUSTED,
    MAX_IN_FLIGHT, ONE_UNIT,
};
use parallel_stream::engine::work::{filter_forwards, filter_map_forwards, map_forwards};
use parallel_stream::par_stream::for_each::completion_of;
use parallel_stream::poll::Poll;

#[test]
fn fresh_word_is_empty_and_open() {
    let word = fresh();
    assert_eq!(word, 0);
    assert_eq!(count(word), 0);
    assert!(last_on_exhaust(word));
}

#[test]
fn word_holds_count_and_flag_side_by_side() {
    assert_eq!(EXHAUSTED, 1);
    assert_eq!(ONE_UNIT, 2);
    assert_eq!(count(7), 3);
    assert_eq!(count(6), 3);
    assert_eq!(count(1), 0);
    assert_eq!(count(u64::MAX), MAX_IN_FLIGHT);
    assert_eq!(MAX_IN_FLIGHT, (1u64 << 63) - 1);
}

#[test]
fn one_more_moves_the_count_only() {
    assert_eq!(with_one_more(0), 2);
    assert_eq!(with_one_more(5), 7);
    let word = with_one_more(with_one_more(fresh()));
    assert_eq!(count(word), 2);
    assert!(!last_on_exhaust(word));
    assert_eq!(count(with_one_more(9)), 5);
}

#[test]
fn room_depends_on_the_count_and_the_limit() {
    assert!(room_for_one(0, None));
    assert!(room_for_one(0, Some(1)));
    assert!(!room_for_one(0, Some(0)));
    assert!(room_for_one(2, Some(2)));
    assert!(!room_for_one(4, Some(2)));
    assert!(!room_for_one(5, Some(2)));
    assert!(room_for_one(4, Some(3)));
    assert!(room_for_one(4, None));
    // The flag does not count.
    assert!(room_for_one(3, Some(2)));
    // A full word has no room, whatever the limit.
    assert!(!room_for_one(u64::MAX, None));
    assert!(!room_for_one(u64::MAX - 1, Some(usize::MAX)));
    assert!(room_for_one(u64::MAX - 3, None));
}

#[test]
fn only_the_last_finish_after_exhaustion_completes() {
    assert!(last_on_finish(3));
    assert!(!last_on_finish(2));
    assert!(!last_on_finish(5));
    assert!(!last_on_finish(4));
    assert!(!last_on_finish(1));
    assert!(!last_on_finish(0));
}

#[test]
fn exhaustion_completes_only_with_nothing_in_flight() {
    assert!(last_on_exhaust(0));
    assert!(!last_on_exhaust(1));
    assert!(!last_on_exhaust(2));
    assert!(!last_on_exhaust(3));
    assert!(!last_on_exhaust(4));
}

#[test]
fn tracker_of_an_empty_stage_completes_on_exhaustion() {
    let tracker = Tracker::new();
    assert!(tracker.exhaust());
}

#[test]
fn tracker_fires_once_with_the_last_one_out() {
    let tracker = Tracker::new();
    assert!(tracker.try_begin(None));
    assert!(tracker.try_begin(None));
    assert!(tracker.try_begin(None));
    assert!(!tracker.finish());
    assert!(!tracker.exhaust());
    assert!(!tracker.finish());
    assert!(tracker.finish());
}

#[test]
fn tracker_does_not_fire_at_an_early_zero() {
    let tracker = Tracker::new();
    assert!(tracker.try_begin(None));
    // The count goes back to zero before the upstream is exhausted.
    assert!(!tracker.finish());
    assert!(tracker.try_begin(None));
    assert!(!tracker.finish());
    // Nothing runs when the flag is raised: the pump fires.
    assert!(tracker.exhaust());
}

#[test]
fn tracker_keeps_the_limit() {
    let tracker = Tracker::new();
    assert!(tracker.try_begin(Some(2)));
    assert!(tracker.try_begin(Some(2)));
    assert!(!tracker.try_begin(Some(2)));
    assert!(!tracker.try_begin(Some(2)));
    assert!(!tracker.finish());
    assert!(tracker.try_begin(Some(2)));
    assert!(!tracker.try_begin(Some(2)));
    assert!(tracker.try_begin(Some(3)));
    assert!(tracker.try_begin(None));
}

#[test]
fn tracker_with_limit_zero_lets_nothing_start() {
    let tracker = Tracker::new();
    assert!(!tracker.try_begin(Some(0)));
    assert!(!tracker.try_begin(Some(0)));
}

#[test]
fn pump_decides_by_what_was_pulled_and_the_answer() {
    assert_eq!(decide(Some(7), None, true), PumpAction::Start(7));
    assert_eq!(decide(Some(7), None, false), PumpAction::Hold(7));
    assert_eq!(decide(Some(7), Some(3), true), PumpAction::Start(7));
    assert_eq!(decide(Some(7), Some(3), false), PumpAction::Hold(7));
    assert_eq!(decide(Some(7), Some(0), true), PumpAction::Park(7));
    assert_eq!(decide(Some(7), Some(0), false), PumpAction::Park(7));
    assert_eq!(decide(None::<u8>, None, true), PumpAction::Stop { fire: true });
    assert_eq!(decide(None::<u8>, Some(0), false), PumpAction::Stop { fire: false });
    assert_eq!(decide(None::<u8>, Some(0), true), PumpAction::Stop { fire: true });
}

#[test]
fn pump_step_starts_holds_and_stops() {
    let tracker = Tracker::new();
    assert_eq!(pump_step(&tracker, Some(1), Some('a')), PumpAction::Start('a'));
    assert_eq!(pump_step(&tracker, Some(1), Some('b')), PumpAction::Hold('b'));
    assert_eq!(pump_step(&tracker, Some(1), Some('b')), PumpAction::Hold('b'));
    assert!(!tracker.finish());
    assert_eq!(pump_step(&tracker, Some(1), Some('b')), PumpAction::Start('b'));
    assert_eq!(pump_step(&tracker, Some(1), None::<char>), PumpAction::Stop { fire: false });
    assert!(tracker.finish());
}

#[test]
fn pump_step_parks_an_item_under_a_limit_of_zero() {
    let tracker = Tracker::new();
    assert_eq!(pump_step(&tracker, Some(0), Some('a')), PumpAction::Park('a'));
    assert_eq!(pump_step(&tracker, Some(0), Some('a')), PumpAction::Park('a'));
    // Nothing was counted in: the end of the upstream finds nothing in flight.
    assert_eq!(pump_step(&tracker, Some(0), None::<char>), PumpAction::Stop { fire: true });
}

#[test]
fn pump_step_of_an_empty_upstream_fires() {
    let tracker = Tracker::new();
    assert_eq!(pump_step(&tracker, None, None::<u8>), PumpAction::Stop { fire: true });
}

#[test]
fn work_units_forward_by_kind() {
    assert_eq!(map_forwards(10), Some(10));
    assert_eq!(filter_forwards(4, true), Some(4));
    assert_eq!(filter_forwards(4, false), None);
    assert_eq!(filter_map_forwards(Some(42)), Some(42));
    assert_eq!(filter_map_forwards(None::<u8>), None);
}

#[test]
fn completion_is_ready_with_a_signal_or_the_end() {
    assert_eq!(completion_of(Poll::Ready(Some(()))), Poll::Ready(()));
    assert_eq!(completion_of(Poll::Ready(None::<()>)), Poll::Ready(()));
    assert_eq!(completion_of(Poll::<Option<()>>::Pending), Poll::Pending);
}

/// Runs an effect-only stage over `len` items on one thread, finishing the
/// newest or the oldest work unit first, and returns how many effects had run
/// when the completion signal was fired, for each signal.
fn run_sink(len: usize, limit: Option<usize>, newest_first: bool) -> Vec<usize> {
    let tracker = Tracker::new();
    let mut running: Vec<usize> = vec![];
    let mut effects = 0;
    let mut fired_at = vec![];
    let finish_one = |running: &mut Vec<usize>, effects: &mut usize, fired_at: &mut Vec<usize>| {
        if newest_first {
            running.pop();
        } else {
            running.remove(0);
        }
        *effects += 1;
        if tracker.finish() {
            fired_at.push(*effects);
        }
    };
    for item in 0..len {
        let mut pulled = Some(item);
        loop {
            match pump_step(&tracker, limit, pulled) {
                PumpAction::Start(item) => {
                    running.push(item);
                    break;
                }
                PumpAction::Hold(item) => {
                    finish_one(&mut running, &mut effects, &mut fired_at);
                    pulled = Some(item);
                }
                PumpAction::Park(_) | PumpAction::Stop { .. } => unreachable!(),
            }
        }
        if let Some(most) = limit {
            assert!(running.len() <= most);
        }
    }
    match pump_step(&tracker, limit, None::<usize>) {
        PumpAction::Stop { fire } => {
            if fire {
                fired_at.push(effects);
            }
        }
        _ => unreachable!(),
    }
    while !running.is_empty() {
        finish_one(&mut running, &mut effects, &mut fired_at);
    }
    fired_at
}

#[test]
fn sink_fires_once_when_every_effect_has_run() {
    for len in 0..12 {
        for limit in [None, Some(1), Some(2), Some(5)] {
            for newest_first in [false, true] {
                assert_eq!(run_sink(len, limit, newest_first), vec![len]);
            }
        }
    }
}
