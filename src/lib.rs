//! Bookkeeping of a broadcast thread pool, proved with Verus.
//!
//! A broadcast runs one callback once on every worker of a pool and returns
//! only after every one of those invocations has finished. The threads, the
//! channels and the locks live with the caller; this crate holds the decisions
//! they are driven by: the in-flight counter of one broadcast, the progress of
//! one broadcast round, the plan of a pool and the order of its teardown.

mod flags;
mod job_count;
mod pool;
mod round;

pub use job_count::JobCount;
pub use pool::{apply_times, lemma_inline_matches_workers, lemma_teardown_order, Pool, PoolView};
pub use round::{lemma_join_barrier, Round, RoundView};
