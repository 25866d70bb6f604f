//! What producers and subscribers tell the aggregator.

use crate::proto::{TaskDetails, Update};
use crate::stats::{AsyncOpStats, ResourceStats, TaskStats};
use crate::watch::{Watch, WatchRequest};
use console_api::register_metadata::NewMetadata;
use console_api::resources::resource::Kind;
use console_api::{Field, Location};
use vstd::prelude::*;

verus! {

/// Something that happened in the instrumented runtime. Spans and callsites
/// are given by their numbers.
#[allow(inconsistent_fields)]
pub enum Event {
    /// A callsite was registered.
    Metadata(NewMetadata),
    /// A task was spawned.
    Spawn {
        id: u64,
        metadata: u64,
        stats: TaskStats,
        fields: Vec<Field>,
        location: Option<Location>,
    },
    /// A resource was created.
    Resource {
        id: u64,
        parent_id: Option<u64>,
        metadata: u64,
        kind: Kind,
        concrete_type: String,
        location: Option<Location>,
        is_internal: bool,
        stats: ResourceStats,
    },
    /// An async operation on a resource was polled.
    PollOp {
        metadata: u64,
        resource_id: u64,
        op_name: String,
        async_op_id: u64,
        task_id: u64,
        is_ready: bool,
    },
    /// An async operation on a resource began.
    AsyncResourceOp {
        id: u64,
        parent_id: Option<u64>,
        resource_id: u64,
        metadata: u64,
        source: String,
        stats: AsyncOpStats,
    },
}

/// What a client asks for.
pub enum Command {
    /// To receive updates about the whole runtime.
    Instrument(Watch<Update>),
    /// To receive the details of one task.
    WatchTaskDetail(WatchRequest<TaskDetails>),
    /// That no updates be published.
    Pause,
    /// That updates be published again.
    Resume,
}

} // verus!
