//! The completion tracker that the pump and the work units of one stage
//! share.

use vstd::prelude::*;
use std::sync::atomic::AtomicU64;
use std::sync::atomic::Ordering;
use crate::engine::word::{fresh, last_on_exhaust, last_on_finish, room_for_one, with_one_more};
use crate::engine::word::{EXHAUSTED, ONE_UNIT};

verus! {

/// Counts the work units in flight and remembers whether the upstream is
/// exhausted, in one atomic word (see [`crate::engine::word`]).
///
/// Every method is one sequentially consistent operation on that word. What
/// it finds there depends on what the other tasks have done, so nothing is
/// promised of a single answer; what the answers add up to, over every
/// interleaving, is proved of the model in [`crate::engine::sink`].
#[derive(Debug)]
pub struct Tracker {
    word: AtomicU64,
}

impl Tracker {
    /// A tracker with nothing in flight and the upstream not exhausted.
    pub fn new() -> Self {
        Tracker { word: AtomicU64::new(fresh()) }
    }

    /// Called by the pump before it starts a work unit: counts the unit in
    /// if there is room for it under `limit` right now.
    ///
    /// A `false` means that the unit must not start yet. The caller waits
    /// and asks again. Under a limit of 0 nothing ever starts.
    pub fn try_begin(&self, limit: Option<usize>) -> (begun: bool)
        ensures
            limit == Some(0usize) ==> !begun,
    {
        let seen = self.word.load(Ordering::SeqCst);
        if room_for_one(seen, limit) {
            let next = with_one_more(seen);
            self.word.compare_exchange(seen, next, Ordering::SeqCst, Ordering::SeqCst).is_ok()
        } else {
            false
        }
    }

    /// Called by a work unit when it is done: counts the unit out. Returns
    /// whether this unit was the last one out and has to fire the
    /// completion signal.
    pub fn finish(&self) -> (last: bool) {
        let before = self.word.fetch_sub(ONE_UNIT, Ordering::SeqCst);
        last_on_finish(before)
    }

    /// Called by the pump when the upstream has signalled its end: raises
    /// the flag. Returns whether the pump is the last one out and has to
    /// fire the completion signal.
    pub fn exhaust(&self) -> (last: bool) {
        let before = self.word.fetch_or(EXHAUSTED, Ordering::SeqCst);
        last_on_exhaust(before)
    }
}

} // verus!
