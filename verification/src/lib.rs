//! A lightweight thread pool library with specialized pool types.
//!
//! This crate holds the decisions of the pools: how the inputs of a parallel
//! map are split into chunks and put back together in input order, what a
//! worker does with each message it receives, how the runtime sends jobs and
//! stop messages to its workers, how a finished job settles the task that
//! waits for it, and the sequential pool, which runs everything in place.
//! Threads are started, and panics caught, by the code that drives these
//! pieces.

pub mod chunks;
pub mod dispatch;
pub mod error;
pub mod future;
pub mod map;
pub mod sequential;

pub use chunks::{plan_chunks, Chunk};
pub use dispatch::{Dispatcher, JobQueue, WorkerStep};
pub use error::{job_outcome, PoolError};
pub use future::{task_channel, Promise, Task};
pub use map::{assemble_chunks, collect_parts, run_chunk};
pub use sequential::SeqPool;
