//! How the work on one item ended, told apart: a value, nothing, or an error.
//!
//! A stage whose transform can fail sends the outcome of every item through
//! its channel, so that an item that was filtered out and an item that
//! failed do not look the same to the consumer.

use vstd::prelude::*;

verus! {

/// The outcome of the work on one item.
#[derive(Debug, PartialEq, Eq)]
pub enum Outcome<T, E> {
    /// The transform has made this value of the item.
    Success(T),
    /// The transform has left the item out.
    FilteredOut,
    /// The transform has failed on the item, with this error.
    Errored(E),
}

/// What the consumer's side of a stage does when an item has failed.
#[derive(Clone, Copy, Debug, PartialEq, Eq)]
pub enum Policy {
    /// Pass the first error on and end the stream.
    FailFast,
    /// Pass every error on, among the values, and go on.
    CollectErrors,
}

/// The outcome that stands for the transform's result `result`.
pub open spec fn tagged<T, E>(result: Result<Option<T>, E>) -> Outcome<T, E> {
    match result {
        Ok(Some(value)) => Outcome::Success(value),
        Ok(None) => Outcome::FilteredOut,
        Err(error) => Outcome::Errored(error),
    }
}

/// What a work unit sends once the transform has resolved to `result`; see
/// [`tagged`].
pub fn tag<T, E>(result: Result<Option<T>, E>) -> (outcome: Outcome<T, E>)
    ensures
        outcome == tagged(result),
{
    match result {
        Ok(Some(value)) => Outcome::Success(value),
        Ok(None) => Outcome::FilteredOut,
        Err(error) => Outcome::Errored(error),
    }
}

} // verus!
