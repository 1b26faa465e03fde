//! The completion tracker's state, packed into one machine word.
//!
//! A stage counts the work units that are in flight and remembers whether
//! its upstream is exhausted. Both live in a single `u64`, so that one atomic
//! read-modify-write updates them together and hands back the state it
//! found: bit 0 is the exhaustion flag, the bits above it hold the count.

use vstd::prelude::*;

verus! {

/// The exhaustion flag.
pub const EXHAUSTED: u64 = 1;

/// What one work unit in flight adds to the word.
pub const ONE_UNIT: u64 = 2;

/// The largest count that a word can hold.
pub const MAX_IN_FLIGHT: u64 = 0x7fff_ffff_ffff_ffff;

/// The number of work units in flight that `word` records.
pub open spec fn in_flight(word: u64) -> nat {
    (word / 2) as nat
}

/// Whether `word` records that the upstream is exhausted.
pub open spec fn is_exhausted(word: u64) -> bool {
    word % 2 == 1
}

/// Whether one more work unit may start in the state `word` under `limit`:
/// the count stays representable, and below the limit where there is one.
pub open spec fn has_room(word: u64, limit: Option<usize>) -> bool {
    &&& in_flight(word) < MAX_IN_FLIGHT
    &&& limit matches Some(most) ==> in_flight(word) < most
}

/// Whether a work unit that found `before` when it reported its end is the
/// last one out: the upstream was exhausted and it was the only one left.
pub open spec fn finish_completes(before: u64) -> bool {
    is_exhausted(before) && in_flight(before) == 1
}

/// Whether the pump that found `before` when it raised the flag is the last
/// one out: the flag was not raised yet and no work unit was in flight.
pub open spec fn exhaust_completes(before: u64) -> bool {
    !is_exhausted(before) && in_flight(before) == 0
}

/// The initial word: nothing in flight, upstream not exhausted.
pub fn fresh() -> (word: u64)
    ensures
        in_flight(word) == 0,
        !is_exhausted(word),
        word == 0,
{
    0
}

/// The count in `word`.
pub fn count(word: u64) -> (units: u64)
    ensures
        units == in_flight(word),
        units <= MAX_IN_FLIGHT,
{
    word / 2
}

/// Decides whether one more work unit may start; see [`has_room`].
pub fn room_for_one(word: u64, limit: Option<usize>) -> (room: bool)
    ensures
        room == has_room(word, limit),
{
    let units = count(word);
    match limit {
        Some(most) => units < MAX_IN_FLIGHT && units < most as u64,
        None => units < MAX_IN_FLIGHT,
    }
}

/// The word after one more work unit has started.
pub fn with_one_more(word: u64) -> (next: u64)
    requires
        in_flight(word) < MAX_IN_FLIGHT,
    ensures
        next == word + ONE_UNIT,
        in_flight(next) == in_flight(word) + 1,
        is_exhausted(next) == is_exhausted(word),
{
    word + ONE_UNIT
}

/// `word` with the exhaustion flag raised.
pub open spec fn raised(word: u64) -> u64 {
    word | EXHAUSTED
}

/// Raising the flag leaves the count alone, and adds one to a word whose
/// flag was not raised.
pub proof fn lemma_raised(word: u64)
    ensures
        is_exhausted(raised(word)),
        in_flight(raised(word)) == in_flight(word),
        !is_exhausted(word) ==> raised(word) == word + EXHAUSTED,
        is_exhausted(word) ==> raised(word) == word,
{
    assert((word | 1) % 2 == 1 && (word | 1) / 2 == word / 2) by (bit_vector);
    assert(word % 2 == 0 ==> (word | 1) == word + 1) by (bit_vector);
    assert(word % 2 == 1 ==> (word | 1) == word) by (bit_vector);
}

/// Decides, from the word that a finishing work unit replaced, whether it
/// has to fire the completion signal; see [`finish_completes`].
pub fn last_on_finish(before: u64) -> (last: bool)
    ensures
        last == finish_completes(before),
        last == (before == ONE_UNIT + EXHAUSTED),
{
    before == ONE_UNIT + EXHAUSTED
}

/// Decides, from the word that the pump replaced when it raised the flag,
/// whether it has to fire the completion signal; see [`exhaust_completes`].
pub fn last_on_exhaust(before: u64) -> (last: bool)
    ensures
        last == exhaust_completes(before),
        last == (before == 0),
{
    before == 0
}

} // verus!
