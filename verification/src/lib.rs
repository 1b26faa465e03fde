//! Parallel streams: run an asynchronous transform or effect over every item
//! of a pull-based sequence, many items at a time.
//!
//! This crate holds everything of such a pipeline that decides something,
//! and proves what it decides:
//!
//! * [`par_stream`]: the [`ParallelStream`] interface, the sequencing
//!   combinators that wrap any stream (`take`, `skip`, `enumerate`, `zip`,
//!   `count`) and the consumer's side of the concurrent stages (`map`,
//!   `filter`, `filter_map`, `find_map`, `try_map`, `for_each`). Each comes
//!   with the exact relation between one poll of it and the polls of what
//!   it wraps.
//! * [`engine`]: what the pump and the work units of a concurrent stage
//!   decide, the completion tracker they share, and a model of a whole stage
//!   on which the stage's guarantees are proved for every interleaving.
//! * [`vec`], [`repeat`] and [`from_fn`]: streams to start from, and the
//!   collection of a stream into a vector.
//! * [`handoff`] and [`task`]: the two places where the crate meets the
//!   executor, the rendezvous channel and the waker.
//!
//! Scheduling itself (spawning tasks, awaiting futures) is left to the
//! caller: nothing here starts a task or blocks.

pub mod engine;
pub mod from_fn;
pub mod handoff;
pub mod into_parallel_stream;
pub mod par_stream;
pub mod poll;
pub mod repeat;
pub mod task;
pub mod vec;

pub use from_fn::FromFn;
pub use into_parallel_stream::IntoParallelStream;
pub use par_stream::{
    Count, Enumerate, Filter, FilterMap, FindMap, ForEach, Fuse, Fused, NextFuture, ParMap,
    ParallelStream, Skip, Take, TryMap, Zip,
};
pub use poll::Poll;
pub use repeat::{repeat, Repeat};
pub use vec::{Collect, IntoParStream};
