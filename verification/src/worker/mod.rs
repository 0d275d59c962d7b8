//! The worker: a bounded claim-and-dispatch loop over a store.
//!
//! A worker keeps an in-flight set of at most `N` running handlers and feeds it
//! from the queue. Each iteration fills every free slot by claiming one job at a
//! time, then waits until a handler finishes, new work might be available, or a
//! shutdown is signalled. When a handler finishes, the worker settles its outcome
//! against the store. Horizontal scale comes from running more worker processes,
//! each its own loop.
//!
//! # Clock assumption
//!
//! Two clocks are in play. Claim eligibility and lease expiry are evaluated in
//! database time, while the scheduling instants the worker writes back
//! (retry/pause `visible_at`, `finished_at`, and journal `recorded_at`) are taken
//! from the worker's clock. The two are assumed reasonably aligned (e.g. NTP-synced
//! hosts). Under worker clock skew, retry and pause schedules shift relative to the
//! lease arithmetic by roughly the skew; lease ownership stays correct because its
//! guard is evaluated entirely in database time.
use vstd::prelude::*;

pub mod config;
pub mod registry;
pub mod rotation;
pub mod run_loop;
pub mod settle;
pub mod system;
pub mod whole_run;

verus! {

} // verus!
