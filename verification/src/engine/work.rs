//! What a work unit hands to the rendezvous channel once the transform has
//! resolved, for each kind of transform stage.

use vstd::prelude::*;
use crate::engine::transform::kept;

verus! {

/// A map stage always forwards the transform's output.
pub fn map_forwards<Y>(output: Y) -> (sent: Option<Y>)
    ensures
        sent == Some(output),
{
    Some(output)
}

/// A filter stage forwards the item itself if and only if the predicate
/// has resolved to `true`.
pub fn filter_forwards<X>(item: X, keep: bool) -> (sent: Option<X>)
    ensures
        sent == kept(item, keep),
{
    if keep {
        Some(item)
    } else {
        None
    }
}

/// A filter-map stage, and a find-map stage, forward the transform's output
/// if and only if it is a present value.
pub fn filter_map_forwards<Y>(output: Option<Y>) -> (sent: Option<Y>)
    ensures
        sent == output,
{
    output
}

} // verus!
