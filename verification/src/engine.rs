//! The concurrency engine: what the pump, the work units and the consumer of
//! one concurrent stage decide, and the proofs that those decisions add up.

pub mod outcome;
pub mod pump;
pub mod sink;
pub mod tracker;
pub mod transform;
pub mod work;
pub mod word;
