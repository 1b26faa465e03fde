//! What the pump of a stage does with what it has pulled from the upstream.

use vstd::prelude::*;
use crate::engine::tracker::Tracker;

verus! {

/// The pump's next move.
#[derive(Debug, PartialEq, Eq)]
pub enum PumpAction<X> {
    /// Start a work unit for this item; it has been counted in.
    Start(X),
    /// There is no room for another work unit yet: keep the item, wait, and
    /// offer it again.
    Hold(X),
    /// The limit is 0, so that no work unit can ever start: keep the item
    /// and wait for ever.
    Park(X),
    /// The upstream has ended: leave the loop. `fire` says whether the pump
    /// is the last one out and has to fire the completion signal.
    Stop { fire: bool },
}

/// Whether a work unit can ever start under `limit`: not under a limit of
/// 0.
pub open spec fn can_start(limit: Option<usize>) -> bool {
    limit != Some(0usize)
}

/// The move for what was pulled under `limit`, given the tracker's answer:
/// for an item, whether it was counted in; for the end of the upstream,
/// whether the pump is the last one out. An item under a limit of 0 is
/// parked, whatever the answer.
pub open spec fn action_for<X>(pulled: Option<X>, limit: Option<usize>, answer: bool) -> PumpAction<
    X,
> {
    match pulled {
        Some(item) => if !can_start(limit) {
            PumpAction::Park(item)
        } else if answer {
            PumpAction::Start(item)
        } else {
            PumpAction::Hold(item)
        },
        None => PumpAction::Stop { fire: answer },
    }
}

/// Computes [`action_for`].
pub fn decide<X>(pulled: Option<X>, limit: Option<usize>, answer: bool) -> (action: PumpAction<X>)
    ensures
        action == action_for(pulled, limit, answer),
{
    match pulled {
        Some(item) => match limit {
            Some(0) => PumpAction::Park(item),
            _ => if answer {
                PumpAction::Start(item)
            } else {
                PumpAction::Hold(item)
            },
        },
        None => PumpAction::Stop { fire: answer },
    }
}

/// One turn of the pump's loop. For an item the tracker is asked to count a
/// work unit in under `limit`; for the end of the upstream the tracker's
/// flag is raised. The move is [`action_for`] what was pulled and the
/// tracker's answer, whatever that answer is; under a limit of 0 an item is
/// parked.
pub fn pump_step<X>(tracker: &Tracker, limit: Option<usize>, pulled: Option<X>) -> (action:
    PumpAction<X>)
    ensures
        action == action_for(pulled, limit, true) || action == action_for(pulled, limit, false),
        pulled is Some && !can_start(limit) ==> action == PumpAction::Park(pulled->0),
{
    match pulled {
        Some(item) => match limit {
            Some(0) => PumpAction::Park(item),
            _ => {
                let begun = tracker.try_begin(limit);
                decide(Some(item), limit, begun)
            },
        },
        None => {
            let last = tracker.exhaust();
            decide(None, limit, last)
        },
    }
}

} // verus!
