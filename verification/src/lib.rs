//! Aggregation of runtime instrumentation.
//!
//! An [`Aggregator`](aggregator::Aggregator) collects what an instrumented
//! async runtime reports about its tasks, resources and async operations, and
//! streams it to any number of subscribers: the whole known state when a
//! subscriber arrives, and afterwards, at every publish, only what changed.

pub mod access;
pub mod aggregator;
pub mod entities;
pub mod event;
pub mod flush;
pub mod id_data;
pub mod laws;
pub mod operation_laws;
pub mod outlet;
pub mod part_laws;
pub mod proto;
pub mod release;
pub mod run;
pub mod run_laws;
pub mod shared;
pub mod state;
pub mod stats;
pub mod time;
pub mod watch;
