//! The answer a stream or a future gives when it is polled.

use vstd::prelude::*;

verus! {

/// Whether a value is available now.
///
/// `Ready(v)` carries the value; `Pending` says that the caller has been
/// registered for a wake-up and should poll again once woken.
#[derive(Clone, Copy, Debug, PartialEq, Eq)]
pub enum Poll<T> {
    Ready(T),
    Pending,
}

impl<T> Poll<T> {
    /// `true` exactly for `Ready`.
    pub fn is_ready(&self) -> (ready: bool)
        ensures
            ready == (*self is Ready),
    {
        match self {
            Poll::Ready(_) => true,
            Poll::Pending => false,
        }
    }

    /// `true` exactly for `Pending`.
    pub fn is_pending(&self) -> (pending: bool)
        ensures
            pending == (*self is Pending),
    {
        match self {
            Poll::Ready(_) => false,
            Poll::Pending => true,
        }
    }
}

/// The item that a stream's answer hands over, if it hands one over.
pub open spec fn yielded<T>(out: Poll<Option<T>>) -> Option<T> {
    match out {
        Poll::Ready(Some(item)) => Some(item),
        _ => None,
    }
}

/// The items that a sequence of answers hands over, in their order.
pub open spec fn yields<T>(outs: Seq<Poll<Option<T>>>) -> Seq<T>
    decreases outs.len(),
{
    if outs.len() == 0 {
        Seq::empty()
    } else {
        match yielded(outs.last()) {
            Some(item) => yields(outs.drop_last()).push(item),
            None => yields(outs.drop_last()),
        }
    }
}

/// One more answer adds its item, if it has one, at the end.
pub proof fn lemma_yields_push<T>(outs: Seq<Poll<Option<T>>>, out: Poll<Option<T>>)
    ensures
        yields(outs.push(out)) == match yielded(out) {
            Some(item) => yields(outs).push(item),
            None => yields(outs),
        },
{
    assert(outs.push(out).drop_last() =~= outs);
}

/// The first `upto` answers with one more are the first `upto + 1`.
pub proof fn lemma_yields_take<T>(outs: Seq<Poll<Option<T>>>, upto: int)
    requires
        0 <= upto < outs.len(),
    ensures
        yields(outs.take(upto + 1)) == match yielded(outs[upto]) {
            Some(item) => yields(outs.take(upto)).push(item),
            None => yields(outs.take(upto)),
        },
{
    assert(outs.take(upto + 1) =~= outs.take(upto).push(outs[upto]));
    lemma_yields_push(outs.take(upto), outs[upto]);
}

} // verus!
