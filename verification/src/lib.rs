//! venturi is a durable job queue, with PostgreSQL as its default storage.
//!
//! Work is modelled as a [`task::Task`]: a plain struct that is both the payload and
//! the identity of a job. Producers submit tasks ([`queue`]); workers claim, run, and
//! settle them ([`worker`]). The library holds everything the queue decides, stated
//! in contracts and proved: the lifecycle of a job ([`lifecycle`]) and what it
//! guarantees ([`guarantees`]), an in-memory store ([`memory`]), the worker's loop as
//! a state machine, and the statements of the PostgreSQL adapter ([`postgres`]).
//! Connections, tasks, and clocks belong to the application around it.
use vstd::prelude::*;

pub mod backoff;
pub mod context;
pub mod error;
pub mod guarantees;
pub mod ids;
pub mod instants;
pub mod kinds;
pub mod lifecycle;
pub mod memory;
pub mod outcome;
pub mod postgres;
pub mod queue;
pub mod store;
pub mod task;
pub mod text;
pub mod worker;

pub use backoff::Backoff;
pub use context::{Context, JournalEntry};
pub use error::Error;
pub use outcome::{Outcome, TaskError};
pub use task::{DedupKey, Merge, Pending, Priority, Task};
pub use worker::config::{Worker, WorkerBuilder};

verus! {

} // verus!
