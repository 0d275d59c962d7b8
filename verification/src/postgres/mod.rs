//! The PostgreSQL storage adapter's rules.
//!
//! Everything the adapter decides is here: what a store is opened with, which prefixes
//! name its tables safely, the statements it runs with their parameters, which writes
//! follow a guarded update, how rows become records, and how migrations are rendered.
//! [`sql`] says what a statement of these forms means, and [`effects`] and [`answers`]
//! prove of each that run on stored rows it is the transition, or gives the answer, that
//! the store promises. Running the statements on a connection is the caller's part. All of
//! the adapter's tables and indexes are named from a configurable prefix, letting several
//! independent queues share one database.
use vstd::prelude::*;

pub mod answers;
pub mod connection;
pub mod effects;
pub mod migrations;
pub mod notify;
pub mod prefix;
pub mod rows;
pub mod sql;
pub mod statements;

verus! {

} // verus!
