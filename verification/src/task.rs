//! The handle through which a polled stream arranges to be polled again.

use vstd::prelude::*;
use core::task::{Context, Waker};

verus! {

/// `core::task::Context`: the context of the task that polls. It is handed
/// on from poll to poll, and nothing is known of what it holds.
#[verifier::external_type_specification]
#[verifier::external_body]
pub struct ExContext<'a>(Context<'a>);

/// `core::task::Waker`: the handle that wakes a task. Nothing is known of
/// what it holds.
#[verifier::external_type_specification]
#[verifier::external_body]
pub struct ExWaker(Waker);

/// `Context::waker` hands out the waker of the task that is polling.
/// Nothing is claimed of it.
pub assume_specification<'a>[ Context::<'a>::waker ](cx: &Context<'a>) -> &'a Waker;

/// `Waker::wake_by_ref` asks the executor to poll the waker's task again.
/// Nothing is claimed of it.
pub assume_specification[ Waker::wake_by_ref ](waker: &Waker);

/// Asks for the polling task to be polled again soon, without waiting for
/// anything: used by a poll that has made progress but has no answer yet.
pub(crate) fn wake_again(cx: &mut Context<'_>) {
    cx.waker().wake_by_ref();
}

} // verus!
