//! The messages that subscribers receive.
//!
//! The messages that the aggregator puts together are plain types of this
//! crate. What it only passes on (field values, source locations, resource
//! kinds, callsite metadata and the statistics themselves) are messages of
//! `console_api`, which stay opaque here.

use crate::time::Timestamp;
use console_api::register_metadata::NewMetadata;
use console_api::resources::resource::Kind;
use console_api::{Field, Location};
use std::collections::HashMap;
use vstd::prelude::*;

verus! {

// ==== messages of console_api that are only passed on ====

/// `console_api::Field`: the name and value of one recorded span field.
#[verifier::external_type_specification]
#[verifier::external_body]
pub struct ExField(console_api::Field);

/// `console_api::Location`: a place in source code.
#[verifier::external_type_specification]
#[verifier::external_body]
pub struct ExLocation(console_api::Location);

/// `console_api::resources::resource::Kind`: the kind of a resource.
#[verifier::external_type_specification]
#[verifier::external_body]
pub struct ExKind(console_api::resources::resource::Kind);

/// `console_api::register_metadata::NewMetadata`: the metadata of a callsite
/// together with its identifier.
#[verifier::external_type_specification]
#[verifier::external_body]
pub struct ExNewMetadata(console_api::register_metadata::NewMetadata);

/// `console_api::tasks::Stats`: the statistics of one task.
#[verifier::external_type_specification]
#[verifier::external_body]
pub struct ExTaskStatsMessage(console_api::tasks::Stats);

/// `console_api::resources::Stats`: the statistics of one resource.
#[verifier::external_type_specification]
#[verifier::external_body]
pub struct ExResourceStatsMessage(console_api::resources::Stats);

/// `console_api::async_ops::Stats`: the statistics of one async operation.
#[verifier::external_type_specification]
#[verifier::external_body]
pub struct ExAsyncOpStatsMessage(console_api::async_ops::Stats);

/// `Clone` of `console_api::Field` is derived over plain data: the copy equals
/// the value it was made from.
pub assume_specification[ <console_api::Field as Clone>::clone ](
    field: &console_api::Field,
) -> (copy: console_api::Field)
    ensures
        copy == *field,
;

/// `Clone` of `console_api::Location` is derived over plain data: the copy
/// equals the value it was made from.
pub assume_specification[ <console_api::Location as Clone>::clone ](
    location: &console_api::Location,
) -> (copy: console_api::Location)
    ensures
        copy == *location,
;

/// `Clone` of `console_api::resources::resource::Kind` is derived over plain
/// data: the copy equals the value it was made from.
pub assume_specification[ <console_api::resources::resource::Kind as Clone>::clone ](
    kind: &console_api::resources::resource::Kind,
) -> (copy: console_api::resources::resource::Kind)
    ensures
        copy == *kind,
;

/// `Clone` of `console_api::register_metadata::NewMetadata` is derived over
/// plain data: the copy equals the value it was made from.
pub assume_specification[ <console_api::register_metadata::NewMetadata as Clone>::clone ](
    metadata: &console_api::register_metadata::NewMetadata,
) -> (copy: console_api::register_metadata::NewMetadata)
    ensures
        copy == *metadata,
;

/// `Clone` of `console_api::tasks::Stats` is derived over plain data: the copy
/// equals the value it was made from.
pub assume_specification[ <console_api::tasks::Stats as Clone>::clone ](
    stats: &console_api::tasks::Stats,
) -> (copy: console_api::tasks::Stats)
    ensures
        copy == *stats,
;

/// `Clone` of `console_api::resources::Stats` is derived over plain data: the
/// copy equals the value it was made from.
pub assume_specification[ <console_api::resources::Stats as Clone>::clone ](
    stats: &console_api::resources::Stats,
) -> (copy: console_api::resources::Stats)
    ensures
        copy == *stats,
;

/// `Clone` of `console_api::async_ops::Stats` is derived over plain data: the
/// copy equals the value it was made from.
pub assume_specification[ <console_api::async_ops::Stats as Clone>::clone ](
    stats: &console_api::async_ops::Stats,
) -> (copy: console_api::async_ops::Stats)
    ensures
        copy == *stats,
;

/// The number by which a task message says that the task was spawned.
pub const SPAWN_KIND: i32 = 0;

/// Reads the number of `console_api::tasks::task::Kind::Spawn`, whose
/// discriminant is zero.
#[verifier::external_body]
pub(crate) fn spawn_kind() -> (kind: i32)
    ensures
        kind == SPAWN_KIND,
{
    console_api::tasks::task::Kind::Spawn as i32
}

// ==== messages put together here ====

/// What is announced of a task: `id`, `metadata` and `parents` are the numbers
/// of spans and callsites.
pub struct TaskMessage {
    pub id: Option<u64>,
    pub kind: i32,
    pub metadata: Option<u64>,
    pub parents: Vec<u64>,
    pub fields: Vec<Field>,
    pub location: Option<Location>,
}

/// What is announced of a resource.
pub struct ResourceMessage {
    pub id: Option<u64>,
    pub parent_resource_id: Option<u64>,
    pub kind: Option<Kind>,
    pub metadata: Option<u64>,
    pub concrete_type: String,
    pub location: Option<Location>,
    pub is_internal: bool,
}

/// What is announced of an async operation.
pub struct AsyncOpMessage {
    pub id: Option<u64>,
    pub metadata: Option<u64>,
    pub resource_id: Option<u64>,
    pub source: String,
    pub parent_async_op_id: Option<u64>,
}

/// One poll of an async operation on a resource.
pub struct PollOp {
    pub metadata: Option<u64>,
    pub resource_id: Option<u64>,
    pub name: String,
    pub task_id: Option<u64>,
    pub async_op_id: Option<u64>,
    pub is_ready: bool,
}

impl Clone for PollOp {
    fn clone(&self) -> (copy: Self)
        ensures
            copy == *self,
    {
        PollOp {
            metadata: self.metadata,
            resource_id: self.resource_id,
            name: self.name.clone(),
            task_id: self.task_id,
            async_op_id: self.async_op_id,
            is_ready: self.is_ready,
        }
    }
}

/// Callsite metadata that a subscriber should know.
pub struct RegisterMetadata {
    pub metadata: Vec<NewMetadata>,
}

/// The task part of an [`Update`].
pub struct TaskUpdate {
    pub new_tasks: Vec<TaskMessage>,
    pub stats_update: HashMap<u64, console_api::tasks::Stats>,
    pub dropped_events: u64,
}

/// The resource part of an [`Update`].
pub struct ResourceUpdate {
    pub new_resources: Vec<ResourceMessage>,
    pub stats_update: HashMap<u64, console_api::resources::Stats>,
    pub new_poll_ops: Vec<PollOp>,
    pub dropped_events: u64,
}

/// The async operation part of an [`Update`].
pub struct AsyncOpUpdate {
    pub new_async_ops: Vec<AsyncOpMessage>,
    pub stats_update: HashMap<u64, console_api::async_ops::Stats>,
    pub dropped_events: u64,
}

/// What a subscriber to the whole runtime receives.
pub struct Update {
    pub now: Option<Timestamp>,
    pub task_update: Option<TaskUpdate>,
    pub resource_update: Option<ResourceUpdate>,
    pub async_op_update: Option<AsyncOpUpdate>,
    pub new_metadata: Option<RegisterMetadata>,
}

/// What a subscriber to the details of one task receives: the poll times come
/// as a serialized histogram.
pub struct TaskDetails {
    pub task_id: Option<u64>,
    pub now: Option<Timestamp>,
    pub poll_times_histogram: Option<Vec<u8>>,
}

} // verus!
