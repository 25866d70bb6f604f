//! What holds of the operations of the aggregator: what a call gives back and
//! leaves behind, said of the values that go in and come out.

use crate::aggregator::{Aggregator, Builder, DroppedWatchers};
use crate::entities::{AsyncOp, Resource, Task};
use crate::event::{Command, Event};
use crate::flush::Exchange;
use crate::id_data::{Include, ToProto, Unsent};
use crate::part_laws::{
    counts_taken, ended_long_ago, got, had_no_room, lemma_accepts_is_got,
    lemma_asked_is_one_attempt, lemma_delivered_is_shared_out, lemma_lists, lemma_tabulates,
    lemma_took_is_counts_taken, lists, number_those, one_attempt, shared_out, tabulates,
    tells_async_op, tells_resource, tells_task, without,
};
use crate::proto::{AsyncOpMessage, PollOp, ResourceMessage, TaskDetails, TaskMessage, Update};
use crate::release::Released;
use crate::run::{Cycle, Handled, Next, Polled, Reply, Wake};
use crate::shared::{DroppedEvents, Shared};
use crate::state::{Departed, DetailsRequested, State, Temporality};
use crate::stats::{AsyncOpStats, ResourceStats, TaskStats};
use crate::time::Timestamp;
use crate::watch::{channel_capacity, Message, Status, Watch, WatchRequest};
use console_api::register_metadata::NewMetadata;
use std::sync::Arc;
use std::time::Duration;
use tokio::sync::{mpsc, oneshot};
use vstd::prelude::*;

verus! {

// ==== what stays ====

/// Nobody who subscribed was sent anything, added or dropped.
pub open spec fn same_subscribers(before: State, after: State) -> bool {
    &&& after.watchers == before.watchers
    &&& after.details_watchers == before.details_watchers
}

/// Neither how the aggregator was set up nor whether it publishes changed.
pub open spec fn same_settings(before: State, after: State) -> bool {
    &&& after.publish_interval == before.publish_interval
    &&& after.retention == before.retention
    &&& after.shared == before.shared
    &&& after.temporality == before.temporality
}

/// Nothing was learned or forgotten of callsites and polls.
pub open spec fn same_history(before: State, after: State) -> bool {
    &&& after.all_metadata == before.all_metadata
    &&& after.new_metadata == before.new_metadata
    &&& after.all_poll_ops == before.all_poll_ops
    &&& after.new_poll_ops == before.new_poll_ops
}

/// Nothing was learned or forgotten of tasks, resources and async operations.
pub open spec fn same_entities(before: State, after: State) -> bool {
    &&& after.tasks == before.tasks
    &&& after.task_stats == before.task_stats
    &&& after.resources == before.resources
    &&& after.resource_stats == before.resource_stats
    &&& after.async_ops == before.async_ops
    &&& after.async_op_stats == before.async_op_stats
}

// ==== setting up ====

/// A new aggregator is set up as was asked, publishes, and knows nothing and
/// nobody. It has done nothing to what is shared.
pub proof fn law_new_aggregator_knows_nothing(
    builder: Builder,
    shared: Arc<Shared>,
    aggregator: Aggregator,
)
    requires
        call_ensures(Aggregator::new, (&builder, shared), aggregator),
    ensures
        ({
            let state = aggregator@;
            &&& state.publish_interval == builder.publish_interval
            &&& state.retention == builder.retention
            &&& state.shared == shared
            &&& state.temporality == Temporality::Live
            &&& state.deeds.len() == 0
            &&& state.watchers.len() == 0
            &&& state.all_metadata.len() == 0 && state.new_metadata.len() == 0
            &&& state.all_poll_ops.len() == 0 && state.new_poll_ops.len() == 0
            &&& forall|id: u64|
                {
                    &&& !#[trigger] state.details_watchers.contains_key(id)
                    &&& !state.tasks.contains_key(id) && !state.task_stats.contains_key(id)
                    &&& !state.resources.contains_key(id) && !state.resource_stats.contains_key(id)
                    &&& !state.async_ops.contains_key(id) && !state.async_op_stats.contains_key(id)
                }
        }),
{
}

/// What an aggregator says of itself is so, and setting whether it publishes
/// does that and no more.
pub proof fn law_aggregator_speaks_of_itself(
    aggregator: Aggregator,
    interval: Duration,
    temporality: Temporality,
    id: u64,
    known: bool,
    has_watchers: bool,
    set: &mut Aggregator,
    wanted: Temporality,
)
    requires
        call_ensures(Aggregator::publish_interval, (&aggregator,), interval),
        call_ensures(Aggregator::temporality, (&aggregator,), temporality),
        call_ensures(Aggregator::knows_task, (&aggregator, id), known),
        call_ensures(Aggregator::has_watchers, (&aggregator,), has_watchers),
        call_ensures(Aggregator::set_temporality, (set, wanted), ()),
    ensures
        interval == aggregator@.publish_interval,
        temporality == aggregator@.temporality,
        known <==> aggregator@.task_stats.contains_key(id),
        has_watchers <==> aggregator@.watchers.len() > 0,
        final(set)@.temporality == wanted,
        final(set)@.publish_interval == old(set)@.publish_interval,
        final(set)@.retention == old(set)@.retention,
        final(set)@.shared == old(set)@.shared,
        final(set)@.deeds == old(set)@.deeds,
        same_subscribers(old(set)@, final(set)@),
        same_history(old(set)@, final(set)@),
        same_entities(old(set)@, final(set)@),
{
}

// ==== events ====

/// `after` is `before` with `item` under `id`.
pub open spec fn has_put<A>(before: Map<u64, A>, id: u64, item: A, after: Map<u64, A>) -> bool {
    forall|other: u64|
        {
            &&& #[trigger] after.contains_key(other) <==> other == id || before.contains_key(other)
            &&& other == id ==> after[other] == item
            &&& other != id && before.contains_key(other) ==> after[other] == before[other]
        }
}

/// `after` is `before` with one item more at the end.
pub open spec fn one_longer<A>(before: Seq<A>, after: Seq<A>) -> bool {
    &&& after.len() == before.len() + 1
    &&& after.drop_last() == before
}

/// What `event` says is known afterwards: an entity and its statistics under its
/// number, value for value and marked as not sent, or a callsite or a poll at the
/// end of what is known and of what is new. Nothing else is learned.
pub open spec fn learned(before: State, event: Event, after: State) -> bool {
    match event {
        Event::Metadata(metadata) => {
            &&& one_longer(before.all_metadata, after.all_metadata)
            &&& one_longer(before.new_metadata, after.new_metadata)
            &&& after.all_metadata.last() == metadata
            &&& after.new_metadata.last() == metadata
            &&& after.all_poll_ops == before.all_poll_ops
            &&& after.new_poll_ops == before.new_poll_ops
            &&& same_entities(before, after)
        },
        Event::PollOp { metadata, resource_id, op_name, async_op_id, task_id, is_ready } => {
            &&& one_longer(before.all_poll_ops, after.all_poll_ops)
            &&& one_longer(before.new_poll_ops, after.new_poll_ops)
            &&& after.new_poll_ops.last() == after.all_poll_ops.last()
            &&& after.all_poll_ops.last().metadata == Some(metadata)
            &&& after.all_poll_ops.last().resource_id == Some(resource_id)
            &&& after.all_poll_ops.last().name == op_name
            &&& after.all_poll_ops.last().async_op_id == Some(async_op_id)
            &&& after.all_poll_ops.last().task_id == Some(task_id)
            &&& after.all_poll_ops.last().is_ready == is_ready
            &&& after.all_metadata == before.all_metadata
            &&& after.new_metadata == before.new_metadata
            &&& same_entities(before, after)
        },
        Event::Spawn { id, metadata, stats, fields, location } => {
            &&& has_put(before.tasks, id, after.tasks[id], after.tasks)
            &&& has_put(before.task_stats, id, stats, after.task_stats)
            &&& after.tasks[id].id == id
            &&& after.tasks[id].is_dirty
            &&& after.tasks[id].metadata == metadata
            &&& after.tasks[id].fields == fields
            &&& after.tasks[id].location == location
            &&& after.resources == before.resources
            &&& after.resource_stats == before.resource_stats
            &&& after.async_ops == before.async_ops
            &&& after.async_op_stats == before.async_op_stats
            &&& same_history(before, after)
        },
        Event::Resource {
            id,
            parent_id,
            metadata,
            kind,
            concrete_type,
            location,
            is_internal,
            stats,
        } => {
            &&& has_put(before.resources, id, after.resources[id], after.resources)
            &&& has_put(before.resource_stats, id, stats, after.resource_stats)
            &&& after.resources[id].id == id
            &&& after.resources[id].is_dirty
            &&& after.resources[id].parent_id == parent_id
            &&& after.resources[id].metadata == metadata
            &&& after.resources[id].kind == kind
            &&& after.resources[id].concrete_type == concrete_type
            &&& after.resources[id].location == location
            &&& after.resources[id].is_internal == is_internal
            &&& after.tasks == before.tasks
            &&& after.task_stats == before.task_stats
            &&& after.async_ops == before.async_ops
            &&& after.async_op_stats == before.async_op_stats
            &&& same_history(before, after)
        },
        Event::AsyncResourceOp { id, parent_id, resource_id, metadata, source, stats } => {
            &&& has_put(before.async_ops, id, after.async_ops[id], after.async_ops)
            &&& has_put(before.async_op_stats, id, stats, after.async_op_stats)
            &&& after.async_ops[id].id == id
            &&& after.async_ops[id].is_dirty
            &&& after.async_ops[id].parent_id == parent_id
            &&& after.async_ops[id].resource_id == resource_id
            &&& after.async_ops[id].metadata == metadata
            &&& after.async_ops[id].source == source
            &&& after.tasks == before.tasks
            &&& after.task_stats == before.task_stats
            &&& after.resources == before.resources
            &&& after.resource_stats == before.resource_stats
            &&& same_history(before, after)
        },
    }
}

/// Taking in an event, the aggregator learns what the event says, field for
/// field, and nothing else.
pub proof fn law_event_is_learned_field_for_field(aggregator: &mut Aggregator, event: Event)
    requires
        call_ensures(Aggregator::update_state, (aggregator, event), ()),
    ensures
        learned(old(aggregator)@, event, final(aggregator)@),
        same_subscribers(old(aggregator)@, final(aggregator)@),
        same_settings(old(aggregator)@, final(aggregator)@),
        final(aggregator)@.deeds == old(aggregator)@.deeds,
{
    lemma_updated_is_learned(old(aggregator)@, event);
}

/// What the model says of an event is what the event says.
pub(crate) proof fn lemma_updated_is_learned(before: State, event: Event)
    ensures
        learned(before, event, before.updated(event)),
        same_subscribers(before, before.updated(event)),
        same_settings(before, before.updated(event)),
        before.updated(event).deeds == before.deeds,
{
    let after = before.updated(event);
    if let Event::Metadata(metadata) = event {
        assert(after.all_metadata.drop_last() =~= before.all_metadata);
        assert(after.new_metadata.drop_last() =~= before.new_metadata);
    }
    if let Event::PollOp { .. } = event {
        assert(after.all_poll_ops.drop_last() =~= before.all_poll_ops);
        assert(after.new_poll_ops.drop_last() =~= before.new_poll_ops);
    }
}

// ==== observations ====

/// An observation of a known task replaces its statistics, which stay marked if
/// they were; one of another task does nothing. Nothing else changes.
pub proof fn law_task_stats_are_as_observed(
    aggregator: &mut Aggregator,
    id: u64,
    newer: TaskStats,
    known: bool,
)
    requires
        call_ensures(Aggregator::observe_task_stats, (aggregator, id, newer), known),
    ensures
        ({
            let before = old(aggregator)@;
            let after = final(aggregator)@;
            &&& known <==> before.task_stats.contains_key(id)
            &&& !known ==> after == before
            &&& known ==> {
                let stats = after.task_stats[id];
                &&& has_put(before.task_stats, id, stats, after.task_stats)
                &&& stats.is_dirty == (before.task_stats[id].is_dirty || newer.is_dirty)
                &&& stats.dropped_at == newer.dropped_at
                &&& stats.message == newer.message
                &&& stats.poll_times_histogram == newer.poll_times_histogram
            }
            &&& after == State { task_stats: after.task_stats, ..before }
        }),
{
    assert(!known ==> final(aggregator)@ =~= old(aggregator)@);
}

/// An observation of a known resource replaces its statistics, which stay marked
/// if they were; one of another resource does nothing. Nothing else changes.
pub proof fn law_resource_stats_are_as_observed(
    aggregator: &mut Aggregator,
    id: u64,
    newer: ResourceStats,
    known: bool,
)
    requires
        call_ensures(Aggregator::observe_resource_stats, (aggregator, id, newer), known),
    ensures
        ({
            let before = old(aggregator)@;
            let after = final(aggregator)@;
            &&& known <==> before.resource_stats.contains_key(id)
            &&& !known ==> after == before
            &&& known ==> {
                let stats = after.resource_stats[id];
                &&& has_put(before.resource_stats, id, stats, after.resource_stats)
                &&& stats.is_dirty == (before.resource_stats[id].is_dirty || newer.is_dirty)
                &&& stats.dropped_at == newer.dropped_at
                &&& stats.message == newer.message
            }
            &&& after == State { resource_stats: after.resource_stats, ..before }
        }),
{
    assert(!known ==> final(aggregator)@ =~= old(aggregator)@);
}

/// An observation of a known async operation replaces its statistics, which stay
/// marked if they were; one of another does nothing. Nothing else changes.
pub proof fn law_async_op_stats_are_as_observed(
    aggregator: &mut Aggregator,
    id: u64,
    newer: AsyncOpStats,
    known: bool,
)
    requires
        call_ensures(Aggregator::observe_async_op_stats, (aggregator, id, newer), known),
    ensures
        ({
            let before = old(aggregator)@;
            let after = final(aggregator)@;
            &&& known <==> before.async_op_stats.contains_key(id)
            &&& !known ==> after == before
            &&& known ==> {
                let stats = after.async_op_stats[id];
                &&& has_put(before.async_op_stats, id, stats, after.async_op_stats)
                &&& stats.is_dirty == (before.async_op_stats[id].is_dirty || newer.is_dirty)
                &&& stats.dropped_at == newer.dropped_at
                &&& stats.message == newer.message
            }
            &&& after == State { async_op_stats: after.async_op_stats, ..before }
        }),
{
    assert(!known ==> final(aggregator)@ =~= old(aggregator)@);
}

// ==== dropping what is not needed any more ====

/// Given up are, of each sort, those entities and their statistics that ended
/// longer before `now` than the aggregator's own retention, and whose statistics
/// are not marked or which nobody is to be told of. All others are kept as they
/// are, and nothing else changes.
pub open spec fn cleaned_up(before: State, now: Timestamp, after: State) -> bool {
    let watched = before.watchers.len() > 0;
    &&& without(
        before.task_stats,
        |id: u64|
            {
                &&& ended_long_ago(before.task_stats[id].dropped_at, now, before.retention)
                &&& !(watched && before.task_stats[id].is_dirty)
            },
        after.task_stats,
    )
    &&& without(
        before.resource_stats,
        |id: u64|
            {
                &&& ended_long_ago(before.resource_stats[id].dropped_at, now, before.retention)
                &&& !(watched && before.resource_stats[id].is_dirty)
            },
        after.resource_stats,
    )
    &&& without(
        before.async_op_stats,
        |id: u64|
            {
                &&& ended_long_ago(before.async_op_stats[id].dropped_at, now, before.retention)
                &&& !(watched && before.async_op_stats[id].is_dirty)
            },
        after.async_op_stats,
    )
    &&& without(before.tasks, |id: u64| !after.task_stats.contains_key(id), after.tasks)
    &&& without(before.resources, |id: u64| !after.resource_stats.contains_key(id), after.resources)
    &&& without(before.async_ops, |id: u64| !after.async_op_stats.contains_key(id), after.async_ops)
    &&& same_history(before, after)
    &&& same_subscribers(before, after)
    &&& same_settings(before, after)
    &&& after.deeds == before.deeds
}

/// Cleaning up gives up what ended longer ago than the retention that the
/// aggregator was set up with and was sent or has nobody to be sent to, of
/// tasks, resources and async operations alike, and keeps everything else.
pub proof fn law_cleanup_keeps_for_the_retention(aggregator: &mut Aggregator, now: Timestamp)
    requires
        call_ensures(Aggregator::cleanup_closed, (aggregator, now), ()),
    ensures
        cleaned_up(old(aggregator)@, now, final(aggregator)@),
{
    lemma_cleaned_is_cleaned_up(old(aggregator)@, now);
}

/// What the model says of cleaning is that what is needed is kept.
pub(crate) proof fn lemma_cleaned_is_cleaned_up(before: State, now: Timestamp)
    ensures
        cleaned_up(before, now, before.cleaned(now)),
{
}

// ==== updates ====

/// `update` tells, at `now`, of every task, resource and async operation once and
/// of the statistics of each, or of those alone that are marked as not sent if
/// not `everything` is to be told; and of all callsites and polls, or of the new
/// ones.
pub open spec fn tells(before: State, everything: bool, now: Timestamp, update: Update) -> bool {
    &&& update.now == Some(now)
    &&& update.task_update is Some
    &&& update.resource_update is Some
    &&& update.async_op_update is Some
    &&& lists(
        before.tasks,
        |task: Task| everything || task.is_dirty,
        |task: Task, message: TaskMessage| tells_task(task, message),
        update.task_update->0.new_tasks@,
    )
    &&& tabulates(
        before.task_stats,
        |stats: TaskStats| everything || stats.is_dirty,
        |stats: TaskStats, message: console_api::tasks::Stats| message == stats.message,
        update.task_update->0.stats_update@,
    )
    &&& lists(
        before.resources,
        |resource: Resource| everything || resource.is_dirty,
        |resource: Resource, message: ResourceMessage| tells_resource(resource, message),
        update.resource_update->0.new_resources@,
    )
    &&& tabulates(
        before.resource_stats,
        |stats: ResourceStats| everything || stats.is_dirty,
        |stats: ResourceStats, message: console_api::resources::Stats| message == stats.message,
        update.resource_update->0.stats_update@,
    )
    &&& lists(
        before.async_ops,
        |async_op: AsyncOp| everything || async_op.is_dirty,
        |async_op: AsyncOp, message: AsyncOpMessage| tells_async_op(async_op, message),
        update.async_op_update->0.new_async_ops@,
    )
    &&& tabulates(
        before.async_op_stats,
        |stats: AsyncOpStats| everything || stats.is_dirty,
        |stats: AsyncOpStats, message: console_api::async_ops::Stats| message == stats.message,
        update.async_op_update->0.stats_update@,
    )
    &&& everything ==> {
        &&& update.resource_update->0.new_poll_ops@ == before.all_poll_ops
        &&& update.new_metadata is Some
        &&& update.new_metadata->0.metadata@ == before.all_metadata
    }
    &&& !everything ==> {
        &&& update.resource_update->0.new_poll_ops@ == before.new_poll_ops
        &&& update.new_metadata is None <==> before.new_metadata.len() == 0
        &&& update.new_metadata is Some ==> update.new_metadata->0.metadata@ == before.new_metadata
    }
}

/// The update tells of these numbers of lost events.
pub open spec fn tells_lost(update: Update, tasks: u64, resources: u64, async_ops: u64) -> bool {
    &&& update.task_update->0.dropped_events == tasks
    &&& update.resource_update->0.dropped_events == resources
    &&& update.async_op_update->0.dropped_events == async_ops
}

/// Lists that go by the same rules are the same.
proof fn lemma_lists_alike<A, M>(
    entries: Map<u64, A>,
    which: spec_fn(A) -> bool,
    tells: spec_fn(A, M) -> bool,
    other_which: spec_fn(A) -> bool,
    other_tells: spec_fn(A, M) -> bool,
    messages: Seq<M>,
)
    requires
        lists(entries, which, tells, messages),
        forall|item: A| #[trigger] other_which(item) == which(item),
        forall|item: A, message: M| #[trigger] other_tells(item, message) == tells(item, message),
    ensures
        lists(entries, other_which, other_tells, messages),
{
    let ids = choose|ids: Seq<u64>|
        {
            &&& ids.len() == messages.len()
            &&& #[trigger] number_those(entries, which, ids)
            &&& forall|i: int|
                0 <= i < messages.len() ==> tells(entries[ids[i]], #[trigger] messages[i])
        };
    let holds = |id: u64| entries.contains_key(id) && which(entries[id]);
    let other_holds = |id: u64| entries.contains_key(id) && other_which(entries[id]);
    assert forall|i: int| 0 <= i < ids.len() implies other_holds(#[trigger] ids[i]) by {
        assert(holds(ids[i]));
        assert(other_which(entries[ids[i]]) == which(entries[ids[i]]));
    }
    assert forall|id: u64| #[trigger] other_holds(id) implies ids.contains(id) by {
        assert(other_which(entries[id]) == which(entries[id]));
        assert(holds(id));
    }
    assert(number_those(entries, other_which, ids));
    assert forall|i: int| 0 <= i < messages.len() implies other_tells(
        entries[ids[i]],
        #[trigger] messages[i],
    ) by {
        assert(other_tells(entries[ids[i]], messages[i]) == tells(entries[ids[i]], messages[i]));
    }
}

/// What the model says of an update is what the update tells.
pub(crate) proof fn lemma_update_tells(
    before: State,
    now: Timestamp,
    dropped: DroppedEvents,
    update: Update,
)
    ensures
        before.is_initial_update(now, dropped, update) ==> tells(before, true, now, update),
        before.is_next_update(now, dropped, update) ==> tells(before, false, now, update),
        before.is_initial_update(now, dropped, update) || before.is_next_update(
            now,
            dropped,
            update,
        ) ==> tells_lost(update, dropped.tasks, dropped.resources, dropped.async_ops),
{
    if before.is_initial_update(now, dropped, update) {
        lemma_entities_told(before, Include::All, now, dropped, update);
    }
    if before.is_next_update(now, dropped, update) {
        lemma_entities_told(before, Include::UpdatedOnly, now, dropped, update);
    }
}

/// What the model says of entities in an update is what the update tells.
proof fn lemma_entities_told(
    before: State,
    which: Include,
    now: Timestamp,
    dropped: DroppedEvents,
    update: Update,
)
    requires
        before.is_update_on_entities(which, now, dropped, update),
    ensures
        ({
            let everything = which is All;
            &&& lists(
                before.tasks,
                |task: Task| everything || task.is_dirty,
                |task: Task, message: TaskMessage| tells_task(task, message),
                update.task_update->0.new_tasks@,
            )
            &&& tabulates(
                before.task_stats,
                |stats: TaskStats| everything || stats.is_dirty,
                |stats: TaskStats, message: console_api::tasks::Stats| message == stats.message,
                update.task_update->0.stats_update@,
            )
            &&& lists(
                before.resources,
                |resource: Resource| everything || resource.is_dirty,
                |resource: Resource, message: ResourceMessage| tells_resource(resource, message),
                update.resource_update->0.new_resources@,
            )
            &&& tabulates(
                before.resource_stats,
                |stats: ResourceStats| everything || stats.is_dirty,
                |stats: ResourceStats, message: console_api::resources::Stats|
                    message == stats.message,
                update.resource_update->0.stats_update@,
            )
            &&& lists(
                before.async_ops,
                |async_op: AsyncOp| everything || async_op.is_dirty,
                |async_op: AsyncOp, message: AsyncOpMessage| tells_async_op(async_op, message),
                update.async_op_update->0.new_async_ops@,
            )
            &&& tabulates(
                before.async_op_stats,
                |stats: AsyncOpStats| everything || stats.is_dirty,
                |stats: AsyncOpStats, message: console_api::async_ops::Stats|
                    message == stats.message,
                update.async_op_update->0.stats_update@,
            )
        }),
{
    let everything = which is All;
    lemma_lists(before.tasks, which, update.task_update->0.new_tasks@);
    assert forall|task: Task, message: TaskMessage| #[trigger]
        tells_task(task, message) == task.encoded_by(message) by {
        assert(tells_task(task, message) ==> message.parents@ =~= Seq::empty());
    }
    lemma_lists_alike(
        before.tasks,
        |item: Task| which is All || item.unsent(),
        |item: Task, message: TaskMessage| item.encoded_by(message),
        |task: Task| everything || task.is_dirty,
        |task: Task, message: TaskMessage| tells_task(task, message),
        update.task_update->0.new_tasks@,
    );
    lemma_tabulates(before.task_stats, which, update.task_update->0.stats_update@);
    lemma_lists(before.resources, which, update.resource_update->0.new_resources@);
    assert forall|resource: Resource, message: ResourceMessage| #[trigger]
        tells_resource(resource, message) == resource.encoded_by(message) by {
        assert(tells_resource(resource, message) ==> resource.encoded_by(message));
    }
    lemma_lists_alike(
        before.resources,
        |item: Resource| which is All || item.unsent(),
        |item: Resource, message: ResourceMessage| item.encoded_by(message),
        |resource: Resource| everything || resource.is_dirty,
        |resource: Resource, message: ResourceMessage| tells_resource(resource, message),
        update.resource_update->0.new_resources@,
    );
    lemma_tabulates(before.resource_stats, which, update.resource_update->0.stats_update@);
    lemma_lists(before.async_ops, which, update.async_op_update->0.new_async_ops@);
    assert forall|async_op: AsyncOp, message: AsyncOpMessage| #[trigger]
        tells_async_op(async_op, message) == async_op.encoded_by(message) by {
        assert(tells_async_op(async_op, message) ==> async_op.encoded_by(message));
    }
    lemma_lists_alike(
        before.async_ops,
        |item: AsyncOp| which is All || item.unsent(),
        |item: AsyncOp, message: AsyncOpMessage| item.encoded_by(message),
        |async_op: AsyncOp| everything || async_op.is_dirty,
        |async_op: AsyncOp, message: AsyncOpMessage| tells_async_op(async_op, message),
        update.async_op_update->0.new_async_ops@,
    );
    lemma_tabulates(before.async_op_stats, which, update.async_op_update->0.stats_update@);
}

/// All that is known is known afterwards, but nothing of it is marked and none
/// of it is new.
pub open spec fn nothing_is_new(before: State, after: State) -> bool {
    &&& forall|id: u64|
        {
            &&& #[trigger] after.tasks.contains_key(id) <==> before.tasks.contains_key(id)
            &&& after.tasks.contains_key(id) ==> after.tasks[id] == Task {
                is_dirty: false,
                ..before.tasks[id]
            }
        }
    &&& forall|id: u64|
        {
            &&& #[trigger] after.task_stats.contains_key(id) <==> before.task_stats.contains_key(id)
            &&& after.task_stats.contains_key(id) ==> after.task_stats[id] == TaskStats {
                is_dirty: false,
                ..before.task_stats[id]
            }
        }
    &&& forall|id: u64|
        {
            &&& #[trigger] after.resources.contains_key(id) <==> before.resources.contains_key(id)
            &&& after.resources.contains_key(id) ==> after.resources[id] == Resource {
                is_dirty: false,
                ..before.resources[id]
            }
        }
    &&& forall|id: u64|
        {
            &&& #[trigger] after.resource_stats.contains_key(id)
                <==> before.resource_stats.contains_key(id)
            &&& after.resource_stats.contains_key(id) ==> after.resource_stats[id]
                == ResourceStats { is_dirty: false, ..before.resource_stats[id] }
        }
    &&& forall|id: u64|
        {
            &&& #[trigger] after.async_ops.contains_key(id) <==> before.async_ops.contains_key(id)
            &&& after.async_ops.contains_key(id) ==> after.async_ops[id] == AsyncOp {
                is_dirty: false,
                ..before.async_ops[id]
            }
        }
    &&& forall|id: u64|
        {
            &&& #[trigger] after.async_op_stats.contains_key(id)
                <==> before.async_op_stats.contains_key(id)
            &&& after.async_op_stats.contains_key(id) ==> after.async_op_stats[id]
                == AsyncOpStats { is_dirty: false, ..before.async_op_stats[id] }
        }
    &&& after.all_metadata == before.all_metadata
    &&& after.all_poll_ops == before.all_poll_ops
    &&& after.new_metadata.len() == 0
    &&& after.new_poll_ops.len() == 0
}

/// The first update tells everything, and leaves everything as it was.
pub proof fn law_initial_update_tells_everything(
    aggregator: &mut Aggregator,
    now: Timestamp,
    dropped: DroppedEvents,
    update: Update,
)
    requires
        call_ensures(Aggregator::initial_update, (aggregator, now, dropped), update),
    ensures
        tells(old(aggregator)@, true, now, update),
        tells_lost(update, dropped.tasks, dropped.resources, dropped.async_ops),
        final(aggregator)@ == old(aggregator)@,
{
    lemma_update_tells(old(aggregator)@, now, dropped, update);
}

/// The next update tells what is new or marked, after which nothing is.
pub proof fn law_next_update_tells_what_is_new(
    aggregator: &mut Aggregator,
    now: Timestamp,
    dropped: DroppedEvents,
    update: Update,
)
    requires
        call_ensures(Aggregator::next_update, (aggregator, now, dropped), update),
    ensures
        tells(old(aggregator)@, false, now, update),
        tells_lost(update, dropped.tasks, dropped.resources, dropped.async_ops),
        nothing_is_new(old(aggregator)@, final(aggregator)@),
        same_subscribers(old(aggregator)@, final(aggregator)@),
        same_settings(old(aggregator)@, final(aggregator)@),
        final(aggregator)@.deeds == old(aggregator)@.deeds,
{
    lemma_update_tells(old(aggregator)@, now, dropped, update);
}

// ==== publishing ====

/// The subscribers that are listed under `id`.
pub open spec fn listed<A>(lists: Map<u64, Seq<A>>, id: u64) -> Seq<A> {
    if lists.contains_key(id) {
        lists[id]
    } else {
        Seq::empty()
    }
}

/// `details` are those of task `id` at `now`, with its histogram.
pub open spec fn tells_details(
    before: State,
    id: u64,
    now: Timestamp,
    details: TaskDetails,
) -> bool {
    let histogram = before.task_stats[id].poll_times_histogram;
    &&& details.task_id == Some(id)
    &&& details.now == Some(now)
    &&& details.poll_times_histogram is Some <==> histogram is Some
    &&& histogram is Some ==> details.poll_times_histogram->0@ == histogram->0@
}

/// What became of those who subscribed to the details of task `id`: if the task
/// is known, ended or not, its details were shared out among them; otherwise all
/// of them are `gone` as they were.
pub open spec fn details_sent(
    before: State,
    now: Timestamp,
    after: State,
    id: u64,
    gone: Seq<Watch<TaskDetails>>,
) -> bool {
    let subscribed = listed(before.details_watchers, id);
    let staying = listed(after.details_watchers, id);
    &&& before.details_watchers.contains_key(id) && before.task_stats.contains_key(id)
        ==> exists|details: Arc<TaskDetails>| #[trigger]
        shared_out(subscribed, details, staying, gone) && tells_details(before, id, now, *details)
    &&& !before.task_stats.contains_key(id) ==> staying.len() == 0 && gone == subscribed
    &&& !before.details_watchers.contains_key(id) ==> staying.len() == 0 && gone.len() == 0
    &&& after.details_watchers.contains_key(id) ==> staying.len() > 0
}

/// What is new was told to all who subscribed, by one and the same update, and
/// the details of tasks to those who subscribed to these. Who had no room for a
/// message is `gone`. Nothing is new any more, the counts of lost events were
/// told and start from zero, and nothing else changed.
pub open spec fn sent_to_all(
    before: State,
    now: Timestamp,
    gone: Seq<Watch<Update>>,
    details_gone: spec_fn(u64) -> Seq<Watch<TaskDetails>>,
    after: State,
) -> bool {
    &&& exists|update: Arc<Update>| #[trigger]
        shared_out(before.watchers, update, after.watchers, gone) && tells(
            before,
            false,
            now,
            *update,
        ) && counts_taken(
            *before.shared,
            before.deeds,
            update.task_update->0.dropped_events,
            update.resource_update->0.dropped_events,
            update.async_op_update->0.dropped_events,
            after.deeds,
        )
    &&& forall|id: u64| #[trigger] details_sent(before, now, after, id, details_gone(id))
    &&& nothing_is_new(before, after)
    &&& same_settings(before, after)
}

/// What the model says of publishing is that all are sent what is new.
pub(crate) proof fn lemma_published_is_sent_to_all(
    before: State,
    now: Timestamp,
    departed: Departed,
    after: State,
)
    requires
        before.published(now, departed, after),
    ensures
        sent_to_all(
            before,
            now,
            departed.watchers,
            |id: u64| listed(departed.details_watchers, id),
            after,
        ),
{
    let (dropped, update) = choose|dropped: DroppedEvents, update: Arc<Update>| #[trigger]
        before.published_as(now, dropped, update, departed, after);
    let details_gone = |id: u64| listed(departed.details_watchers, id);
    lemma_update_tells_by(before, now, dropped, update);
    lemma_delivered_is_shared_out(before.watchers, update, after.watchers, departed.watchers);
    lemma_took_is_counts_taken(&*before.shared, before.deeds, dropped, after.deeds);
    assert(shared_out(before.watchers, update, after.watchers, departed.watchers));
    assert forall|id: u64| #[trigger]
        details_sent(before, now, after, id, details_gone(id)) by {
        assert(crate::state::details_published_of(
            before.details_watchers,
            before.task_stats,
            now,
            after.details_watchers,
            departed.details_watchers,
            id,
        ));
        let gone = details_gone(id);
        if before.details_watchers.contains_key(id) && before.task_stats.contains_key(id) {
            let (details, kept, refusing) = choose|
                details: Arc<TaskDetails>,
                kept: Seq<Watch<TaskDetails>>,
                refusing: Seq<Watch<TaskDetails>>,
            |
                {
                    &&& crate::state::is_details(before.task_stats, id, now, *details)
                    &&& #[trigger] crate::watch::delivered(
                        before.details_watchers[id],
                        details,
                        kept,
                        refusing,
                    )
                    &&& crate::state::holds_list(after.details_watchers, id, kept)
                    &&& crate::state::holds_list(departed.details_watchers, id, refusing)
                };
            lemma_delivered_is_shared_out(before.details_watchers[id], details, kept, refusing);
            assert(listed(after.details_watchers, id) =~= kept);
            assert(gone =~= refusing);
            assert(shared_out(
                listed(before.details_watchers, id),
                details,
                listed(after.details_watchers, id),
                gone,
            ));
            assert(tells_details(before, id, now, *details));
        } else {
            assert(gone =~= listed(before.details_watchers, id));
        }
    }
}

/// As [`lemma_update_tells`], of an update that is shared.
proof fn lemma_update_tells_by(
    before: State,
    now: Timestamp,
    dropped: DroppedEvents,
    update: Arc<Update>,
)
    requires
        before.is_next_update(now, dropped, *update) || before.is_initial_update(
            now,
            dropped,
            *update,
        ),
    ensures
        before.is_next_update(now, dropped, *update) ==> tells(before, false, now, *update),
        before.is_initial_update(now, dropped, *update) ==> tells(before, true, now, *update),
        tells_lost(*update, dropped.tasks, dropped.resources, dropped.async_ops),
{
    lemma_update_tells_all(before, now, dropped);
}

/// As [`lemma_update_tells`], of every update.
proof fn lemma_update_tells_all(before: State, now: Timestamp, dropped: DroppedEvents)
    ensures
        forall|update: Update| #[trigger]
            before.is_next_update(now, dropped, update) ==> tells(before, false, now, update)
                && tells_lost(update, dropped.tasks, dropped.resources, dropped.async_ops),
        forall|update: Update| #[trigger]
            before.is_initial_update(now, dropped, update) ==> tells(before, true, now, update)
                && tells_lost(update, dropped.tasks, dropped.resources, dropped.async_ops),
{
    assert forall|update: Update| #[trigger]
        before.is_next_update(now, dropped, update) implies tells(before, false, now, update)
        && tells_lost(update, dropped.tasks, dropped.resources, dropped.async_ops) by {
        lemma_update_tells(before, now, dropped, update);
    }
    assert forall|update: Update| #[trigger]
        before.is_initial_update(now, dropped, update) implies tells(before, true, now, update)
        && tells_lost(update, dropped.tasks, dropped.resources, dropped.async_ops) by {
        lemma_update_tells(before, now, dropped, update);
    }
}

/// What the receipts are for.
pub open spec fn behind<A>(receipts: Seq<Released<A>>) -> Seq<A> {
    Seq::new(receipts.len(), |j: int| receipts[j]@)
}

/// Publishing sends what is new to all who subscribed, and to those who
/// subscribed to the details of a known task its details, whether it ended or
/// not.
pub proof fn law_publish_sends_to_all(
    aggregator: &mut Aggregator,
    now: Timestamp,
    departed: DroppedWatchers,
)
    requires
        call_ensures(Aggregator::publish, (aggregator, now), departed),
    ensures
        sent_to_all(
            old(aggregator)@,
            now,
            behind(departed.watchers@),
            |id: u64|
                if departed.details_watchers@.contains_key(id) {
                    behind(departed.details_watchers@[id]@)
                } else {
                    Seq::empty()
                },
            final(aggregator)@,
        ),
{
    let before = old(aggregator)@;
    let after = final(aggregator)@;
    lemma_published_is_sent_to_all(before, now, departed@, after);
    assert(behind(departed.watchers@) =~= departed@.watchers);
    let model = |id: u64| listed(departed@.details_watchers, id);
    let gone = |id: u64|
        if departed.details_watchers@.contains_key(id) {
            behind(departed.details_watchers@[id]@)
        } else {
            Seq::<Watch<TaskDetails>>::empty()
        };
    assert forall|id: u64| #[trigger] details_sent(before, now, after, id, gone(id)) by {
        assert(details_sent(before, now, after, id, model(id)));
        if departed.details_watchers@.contains_key(id) {
            assert(behind(departed.details_watchers@[id]@)
                =~= departed@.details_watchers[id]);
        }
        assert(gone(id) =~= model(id));
    }
}

// ==== subscribing ====

/// A new subscriber was offered an update that tells everything, and the counts
/// of lost events, which start from zero. If it got the update it is the last of
/// the subscribers; if it had no room it was let go of as it was. Nothing else
/// changed.
pub open spec fn joined(
    before: State,
    subscription: Watch<Update>,
    now: Timestamp,
    turned_away: Option<Released<Watch<Update>>>,
    after: State,
) -> bool {
    &&& exists|update: Arc<Update>| #[trigger]
        first_update_offered(before, subscription, now, turned_away, update, after)
    &&& after.details_watchers == before.details_watchers
    &&& same_settings(before, after)
    &&& same_history(before, after)
    &&& same_entities(before, after)
}

/// The new subscriber was offered `update`, which tells everything.
pub open spec fn first_update_offered(
    before: State,
    subscription: Watch<Update>,
    now: Timestamp,
    turned_away: Option<Released<Watch<Update>>>,
    update: Arc<Update>,
    after: State,
) -> bool {
    &&& tells(before, true, now, *update)
    &&& counts_taken(
        *before.shared,
        before.deeds,
        update.task_update->0.dropped_events,
        update.resource_update->0.dropped_events,
        update.async_op_update->0.dropped_events,
        after.deeds,
    )
    &&& turned_away is None ==> one_longer(before.watchers, after.watchers) && got(
        subscription,
        update,
        after.watchers.last(),
    )
    &&& turned_away is Some ==> after.watchers == before.watchers && had_no_room(
        subscription,
        turned_away->0@,
    )
}

/// What the model says of subscribing is that the subscriber is offered
/// everything.
pub(crate) proof fn lemma_subscribed_is_joined(
    before: State,
    subscription: Watch<Update>,
    now: Timestamp,
    turned_away: Option<Released<Watch<Update>>>,
    after: State,
)
    requires
        before.subscribed(subscription, now, turned_away, after),
    ensures
        joined(before, subscription, now, turned_away, after),
{
    let (dropped, update) = choose|dropped: DroppedEvents, update: Arc<Update>| #[trigger]
        before.subscribed_as(subscription, now, dropped, update, turned_away, after);
    lemma_update_tells_by(before, now, dropped, update);
    lemma_took_is_counts_taken(&*before.shared, before.deeds, dropped, after.deeds);
    if turned_away is None {
        assert(after.watchers.drop_last() =~= before.watchers);
        lemma_accepts_is_got(subscription, update, after.watchers.last());
    } else {
        lemma_accepts_is_got(subscription, update, turned_away->0@);
    }
    assert(first_update_offered(before, subscription, now, turned_away, update, after));
}

/// Who subscribes to updates is sent everything first, and is then a subscriber,
/// if its channel has room.
pub proof fn law_subscriber_is_told_everything_first(
    aggregator: &mut Aggregator,
    subscription: Watch<Update>,
    now: Timestamp,
    turned_away: Option<Released<Watch<Update>>>,
)
    requires
        call_ensures(
            Aggregator::add_instrument_subscription,
            (aggregator, subscription, now),
            turned_away,
        ),
    ensures
        joined(old(aggregator)@, subscription, now, turned_away, final(aggregator)@),
{
    lemma_subscribed_is_joined(
        old(aggregator)@,
        subscription,
        now,
        turned_away,
        final(aggregator)@,
    );
}

/// Only who accepted is enrolled, and nobody else is touched.
pub proof fn law_who_accepted_is_enrolled(
    aggregator: &mut Aggregator,
    subscription: Watch<Update>,
    accepted: bool,
    turned_away: Option<Released<Watch<Update>>>,
    listing: &mut Aggregator,
    id: u64,
    watch: Watch<TaskDetails>,
)
    requires
        call_ensures(Aggregator::enroll, (aggregator, subscription, accepted), turned_away),
        call_ensures(Aggregator::add_details_watcher, (listing, id, watch), ()),
    ensures
        accepted <==> turned_away is None,
        !accepted ==> turned_away->0@ == subscription && final(aggregator)@ == old(aggregator)@,
        accepted ==> {
            &&& one_longer(old(aggregator)@.watchers, final(aggregator)@.watchers)
            &&& final(aggregator)@.watchers.last() == subscription
        },
        final(aggregator)@ == (State {
            watchers: final(aggregator)@.watchers,
            ..old(aggregator)@
        }),
        listed_last(old(listing)@, id, watch, final(listing)@),
{
    let after = final(aggregator)@;
    if accepted {
        assert(after.watchers.drop_last() =~= old(aggregator)@.watchers);
    }
    assert(after =~= State { watchers: after.watchers, ..old(aggregator)@ });
    lemma_listed_last(old(listing)@, id, watch);
}

/// `watch` is the last of those who subscribed to the details of task `id`, and
/// nothing else changed.
pub open spec fn listed_last(
    before: State,
    id: u64,
    watch: Watch<TaskDetails>,
    after: State,
) -> bool {
    &&& one_longer(listed(before.details_watchers, id), listed(after.details_watchers, id))
    &&& listed(after.details_watchers, id).last() == watch
    &&& forall|other: u64|
        other != id ==> {
            &&& #[trigger] after.details_watchers.contains_key(other)
                <==> before.details_watchers.contains_key(other)
            &&& after.details_watchers.contains_key(other) ==> after.details_watchers[other]
                == before.details_watchers[other]
        }
    &&& after == State { details_watchers: after.details_watchers, ..before }
}

/// Who is added to the details of a task is the last of those listed.
proof fn lemma_listed_last(before: State, id: u64, watch: Watch<TaskDetails>)
    ensures
        listed_last(before, id, watch, before.with_details_watcher(id, watch)),
{
    let after = before.with_details_watcher(id, watch);
    assert(listed(after.details_watchers, id).drop_last() =~= listed(before.details_watchers, id));
    assert(after =~= State { details_watchers: after.details_watchers, ..before });
}

/// A channel with room for as many messages as were asked for was made, of which
/// `sender` and `receiver` are the ends, and the receiving end was handed to the
/// requester, which gave `answer`.
pub open spec fn channel_offered(
    request: WatchRequest<TaskDetails>,
    sender: mpsc::Sender<Message<TaskDetails>>,
    receiver: mpsc::Receiver<Message<TaskDetails>>,
    answer: Result<(), mpsc::Receiver<Message<TaskDetails>>>,
) -> bool {
    &&& call_ensures(
        mpsc::channel::<Message<TaskDetails>>,
        (request.buffer,),
        (sender, receiver),
    )
    &&& call_ensures(
        oneshot::Sender::<mpsc::Receiver<Message<TaskDetails>>>::send,
        (request.stream_sender, receiver),
        answer,
    )
}

/// The requester took the receiving end of the channel of `sender`.
pub open spec fn channel_taken(
    request: WatchRequest<TaskDetails>,
    sender: mpsc::Sender<Message<TaskDetails>>,
) -> bool {
    exists|
        receiver: mpsc::Receiver<Message<TaskDetails>>,
        answer: Result<(), mpsc::Receiver<Message<TaskDetails>>>,
    | #[trigger]
        channel_offered(request, sender, receiver, answer) && answer is Ok
}

/// `watch` was sent the details of the task as its first message.
pub open spec fn first_details_sent(
    before: State,
    request: WatchRequest<TaskDetails>,
    now: Timestamp,
    watch: Watch<TaskDetails>,
    details: Arc<TaskDetails>,
) -> bool {
    &&& tells_details(before, request.id, now, *details)
    &&& watch@.len() == 1
    &&& watch@[0] == Ok::<Arc<TaskDetails>, Status>(details)
    &&& exists|permit: mpsc::Permit<'_, Message<TaskDetails>>|
        {
            &&& #[trigger] call_ensures(
                mpsc::Sender::<Message<TaskDetails>>::try_reserve,
                (&watch.channel(),),
                Ok::<mpsc::Permit<'_, Message<TaskDetails>>, mpsc::error::TrySendError<()>>(permit),
            )
            &&& call_ensures(
                mpsc::Permit::<Message<TaskDetails>>::send,
                (permit, Ok::<Arc<TaskDetails>, Status>(details)),
                (),
            )
        }
}

/// A request for the details of an unknown task was let go of unanswered. The
/// requester of those of a known task, ended or not, was offered a channel of the
/// size that it asked for; if it took that and the channel had room, it was sent
/// the details and is the last of those who subscribed to them. In every other
/// case nothing changed.
pub open spec fn details_asked_for(
    before: State,
    request: WatchRequest<TaskDetails>,
    now: Timestamp,
    outcome: DetailsRequested,
    after: State,
) -> bool {
    let known = before.task_stats.contains_key(request.id);
    match outcome {
        DetailsRequested::NotFound(receipt) => {
            !known && receipt@ == request.stream_sender && after == before
        },
        DetailsRequested::Abandoned => {
            &&& known
            &&& after == before
            &&& exists|
                sender: mpsc::Sender<Message<TaskDetails>>,
                receiver: mpsc::Receiver<Message<TaskDetails>>,
                answer: Result<(), mpsc::Receiver<Message<TaskDetails>>>,
            | #[trigger]
                channel_offered(request, sender, receiver, answer) && answer is Err
        },
        DetailsRequested::Refused(receipt) => {
            &&& known
            &&& after == before
            &&& receipt@@.len() == 0
            &&& channel_taken(request, receipt@.channel())
            &&& had_no_room(receipt@, receipt@)
        },
        DetailsRequested::Subscribed => {
            let watch = listed(after.details_watchers, request.id).last();
            &&& known
            &&& channel_taken(request, watch.channel())
            &&& exists|details: Arc<TaskDetails>| #[trigger]
                first_details_sent(before, request, now, watch, details)
            &&& listed_last(before, request.id, watch, after)
        },
    }
}

/// What the model says of a request for details is what the requester gets.
pub(crate) proof fn lemma_details_requested_is_asked_for(
    before: State,
    request: WatchRequest<TaskDetails>,
    now: Timestamp,
    outcome: DetailsRequested,
    after: State,
)
    requires
        before.details_requested(request, now, outcome, after),
    ensures
        details_asked_for(before, request, now, outcome, after),
{
    match outcome {
        DetailsRequested::NotFound(_) => {},
        DetailsRequested::Abandoned => {
            let (sender, receiver) = choose|
                sender: mpsc::Sender<Message<TaskDetails>>,
                receiver: mpsc::Receiver<Message<TaskDetails>>,
            |
                {
                    &&& #[trigger] crate::watch::opened(request.buffer, sender, receiver)
                    &&& crate::watch::handed(
                        request.stream_sender,
                        receiver,
                        Err::<(), _>(receiver),
                    )
                };
            assert(channel_offered(request, sender, receiver, Err::<(), _>(receiver)));
        },
        DetailsRequested::Refused(receipt) => {
            lemma_answered_is_taken(request, receipt@.channel());
        },
        DetailsRequested::Subscribed => {
            let (watch, details) = choose|watch: Watch<TaskDetails>, details: Arc<TaskDetails>|
                {
                    &&& crate::state::answered_by(request, watch.channel())
                    &&& #[trigger] crate::outlet::received(
                        watch.channel(),
                        Ok::<Arc<TaskDetails>, Status>(details),
                    )
                    &&& crate::state::is_details(before.task_stats, request.id, now, *details)
                    &&& watch@ == seq![Ok::<Arc<TaskDetails>, Status>(details)]
                    &&& after == before.with_details_watcher(request.id, watch)
                };
            lemma_listed_last(before, request.id, watch);
            lemma_answered_is_taken(request, watch.channel());
            let permit = choose|permit: mpsc::Permit<'_, Message<TaskDetails>>| #[trigger]
                crate::outlet::reserved(watch.channel(), permit) && crate::outlet::filled(
                    permit,
                    Ok::<Arc<TaskDetails>, Status>(details),
                );
            assert(call_ensures(
                mpsc::Sender::<Message<TaskDetails>>::try_reserve,
                (&watch.channel(),),
                Ok::<mpsc::Permit<'_, Message<TaskDetails>>, mpsc::error::TrySendError<()>>(permit),
            ));
            assert(first_details_sent(before, request, now, watch, details));
        },
    }
}

/// A requester that was answered took its channel.
proof fn lemma_answered_is_taken(
    request: WatchRequest<TaskDetails>,
    channel: mpsc::Sender<Message<TaskDetails>>,
)
    requires
        crate::state::answered_by(request, channel),
    ensures
        channel_taken(request, channel),
{
    let (receiver, answer) = choose|
        receiver: mpsc::Receiver<Message<TaskDetails>>,
        answer: Result<(), mpsc::Receiver<Message<TaskDetails>>>,
    |
        {
            &&& crate::watch::opened(request.buffer, channel, receiver)
            &&& #[trigger] crate::watch::handed(request.stream_sender, receiver, answer)
            &&& answer is Ok
        };
    assert(channel_offered(request, channel, receiver, answer));
}

/// Who asks for the details of a known task gets a channel of the size it asked
/// for, the details as they are, and more with every publish; who asks for those
/// of an unknown task gets no answer.
pub proof fn law_details_are_sent_on_request(
    aggregator: &mut Aggregator,
    request: WatchRequest<TaskDetails>,
    now: Timestamp,
    outcome: DetailsRequested,
)
    requires
        call_ensures(
            Aggregator::add_task_detail_subscription,
            (aggregator, request, now),
            outcome,
        ),
    ensures
        details_asked_for(old(aggregator)@, request, now, outcome, final(aggregator)@),
{
    lemma_details_requested_is_asked_for(
        old(aggregator)@,
        request,
        now,
        outcome,
        final(aggregator)@,
    );
}

/// A requester that did not take its channel is sent nothing and is not
/// subscribed. One that did is sent the details, and is subscribed if its channel
/// had room for them.
pub proof fn law_who_took_the_channel_is_sent_details(
    aggregator: &mut Aggregator,
    id: u64,
    details: Arc<TaskDetails>,
    subscription: Watch<TaskDetails>,
    answer: Result<(), mpsc::Receiver<Message<TaskDetails>>>,
    outcome: DetailsRequested,
)
    requires
        call_ensures(
            Aggregator::enroll_for_details,
            (aggregator, id, &details, subscription, answer),
            outcome,
        ),
    ensures
        ({
            let before = old(aggregator)@;
            let after = final(aggregator)@;
            &&& answer is Err <==> outcome is Abandoned
            &&& !(outcome is NotFound)
            &&& outcome !is Subscribed ==> after == before
            &&& outcome matches DetailsRequested::Refused(receipt) ==> had_no_room(
                subscription,
                receipt@,
            )
            &&& outcome is Subscribed ==> {
                let watch = listed(after.details_watchers, id).last();
                &&& got(subscription, details, watch)
                &&& listed_last(before, id, watch, after)
            }
        }),
{
    let before = old(aggregator)@;
    let after = final(aggregator)@;
    if outcome is Subscribed {
        let watch = after.details_watchers[id].last();
        lemma_accepts_is_got(subscription, details, watch);
        lemma_listed_last(before, id, watch);
    }
    if let DetailsRequested::Refused(receipt) = outcome {
        lemma_accepts_is_got(subscription, details, receipt@);
    }
}

// ==== cycles ====

/// The aggregator ends after waking exactly if no client is left. Whatever else
/// wakes it, any command among it, it drains the buffer next, and an update is
/// due exactly if the publish interval elapsed while it publishes.
pub proof fn law_only_the_last_client_ends_it(
    aggregator: &mut Aggregator,
    wake: Wake,
    now: Timestamp,
    handled: Handled,
)
    requires
        call_ensures(Aggregator::wake, (aggregator, wake, now), handled),
    ensures
        handled.next is Terminate <==> wake is CommandsClosed,
        handled.next !is Terminate ==> {
            &&& handled.next is Drain
            &&& !handled.next->Drain_0.drained
            &&& handled.next->Drain_0.should_send <==> wake is Tick
                && old(aggregator)@.temporality == Temporality::Live
        },
{
}

/// A command is carried out, and it is told what became of it. Nothing else that
/// wakes the aggregator changes anything.
pub proof fn law_waking_carries_out_commands(
    aggregator: &mut Aggregator,
    wake: Wake,
    now: Timestamp,
    handled: Handled,
)
    requires
        call_ensures(Aggregator::wake, (aggregator, wake, now), handled),
    ensures
        ({
            let before = old(aggregator)@;
            let after = final(aggregator)@;
            &&& wake matches Wake::Command(Command::Instrument(subscription)) ==> {
                &&& handled.reply matches Reply::Instrument(turned_away)
                &&& joined(before, subscription, now, turned_away, after)
            }
            &&& wake matches Wake::Command(Command::WatchTaskDetail(request)) ==> {
                &&& handled.reply matches Reply::WatchTaskDetail(outcome)
                &&& details_asked_for(before, request, now, outcome, after)
            }
            &&& wake == Wake::Command(Command::Pause) ==> {
                &&& handled.reply is Done
                &&& after == State { temporality: after.temporality, ..before }
                &&& after.temporality == Temporality::Paused
            }
            &&& wake == Wake::Command(Command::Resume) ==> {
                &&& handled.reply is Done
                &&& after == State { temporality: after.temporality, ..before }
                &&& after.temporality == Temporality::Live
            }
            &&& wake !is Command ==> handled.reply is Done && after == before
        }),
{
    let before = old(aggregator)@;
    let after = final(aggregator)@;
    if let Wake::Command(command) = wake {
        if let Command::Instrument(subscription) = command {
            lemma_subscribed_is_joined(
                before,
                subscription,
                now,
                handled.reply->Instrument_0,
                after,
            );
        }
        if let Command::WatchTaskDetail(request) = command {
            lemma_details_requested_is_asked_for(
                before,
                request,
                now,
                handled.reply->WatchTaskDetail_0,
                after,
            );
        }
    }
}

/// The aggregator can be woken by anything but a request for the details of a
/// known task by a channel that cannot be made: one without room, or with more
/// than an eighth of what can be counted.
pub proof fn law_every_possible_command_is_accepted(
    aggregator: &mut Aggregator,
    wake: Wake,
    now: Timestamp,
    asked: &mut Aggregator,
    request: WatchRequest<TaskDetails>,
)
    requires
        wake matches Wake::Command(Command::WatchTaskDetail(request)) ==> 0 < request.buffer
            <= usize::MAX / 8 || !old(aggregator)@.task_stats.contains_key(request.id),
        0 < request.buffer <= usize::MAX / 8 || !old(asked)@.task_stats.contains_key(request.id),
    ensures
        call_requires(Aggregator::wake, (aggregator, wake, now)),
        call_requires(Aggregator::add_task_detail_subscription, (asked, request, now)),
{
}

/// Every other operation can be called at any time and with any values.
pub proof fn law_operations_can_be_called_at_any_time(
    builder: Builder,
    shared: Arc<Shared>,
    aggregator: &mut Aggregator,
    event: Event,
    now: Timestamp,
    dropped: DroppedEvents,
    subscription: Watch<Update>,
    accepted: bool,
    id: u64,
    watch: Watch<TaskDetails>,
    details: Arc<TaskDetails>,
    answer: Result<(), mpsc::Receiver<Message<TaskDetails>>>,
    task_stats: TaskStats,
    resource_stats: ResourceStats,
    async_op_stats: AsyncOpStats,
    cycle: Cycle,
    polled: Polled,
    temporality: Temporality,
)
    ensures
        call_requires(Aggregator::new, (&builder, shared)),
        call_requires(Aggregator::update_state, (aggregator, event)),
        call_requires(Aggregator::initial_update, (aggregator, now, dropped)),
        call_requires(Aggregator::next_update, (aggregator, now, dropped)),
        call_requires(Aggregator::publish, (aggregator, now)),
        call_requires(Aggregator::add_instrument_subscription, (aggregator, subscription, now)),
        call_requires(Aggregator::enroll, (aggregator, subscription, accepted)),
        call_requires(Aggregator::add_details_watcher, (aggregator, id, watch)),
        call_requires(
            Aggregator::enroll_for_details,
            (aggregator, id, &details, watch, answer),
        ),
        call_requires(Aggregator::cleanup_closed, (aggregator, now)),
        call_requires(Aggregator::observe_task_stats, (aggregator, id, task_stats)),
        call_requires(Aggregator::observe_resource_stats, (aggregator, id, resource_stats)),
        call_requires(Aggregator::observe_async_op_stats, (aggregator, id, async_op_stats)),
        call_requires(Aggregator::set_temporality, (aggregator, temporality)),
        call_requires(Aggregator::has_flushed, (aggregator,)),
        call_requires(Aggregator::drain, (aggregator, cycle, polled, now)),
        call_requires(Aggregator::finish, (aggregator, cycle, now)),
{
}

/// A channel can be made with room for at least one message and at most an eighth
/// of what can be counted.
pub proof fn law_channels_have_room(buffer: usize)
    ensures
        channel_capacity(buffer) <==> 0 < buffer <= usize::MAX / 8,
        channel_capacity(buffer) ==> call_requires(
            mpsc::channel::<Message<TaskDetails>>,
            (buffer,),
        ),
{
}

/// An event is taken in, and the buffer is asked again. A closed buffer ends the
/// aggregator, and nothing else is done. When the buffer is empty, what is new is
/// sent to all if an update is due and somebody subscribed to updates, whatever
/// the buffer held before; otherwise nothing is done. Then it is time to clean up.
pub proof fn law_draining(
    aggregator: &mut Aggregator,
    cycle: Cycle,
    polled: Polled,
    now: Timestamp,
    next: Next,
)
    requires
        call_ensures(Aggregator::drain, (aggregator, cycle, polled, now), next),
    ensures
        ({
            let before = old(aggregator)@;
            let after = final(aggregator)@;
            &&& polled matches Polled::Event(event) ==> {
                &&& learned(before, event, after)
                &&& same_subscribers(before, after)
                &&& same_settings(before, after)
                &&& after.deeds == before.deeds
                &&& next is Drain
                &&& next->Drain_0.drained
                &&& next->Drain_0.should_send == cycle.should_send
            }
            &&& polled is Closed ==> next is Terminate && after == before
            &&& polled is Empty ==> {
                &&& next is Clean
                &&& next->Clean_0.should_send == cycle.should_send
                &&& next->Clean_0.drained == cycle.drained
                &&& cycle.should_send && before.watchers.len() > 0 ==> exists|
                    gone: Seq<Watch<Update>>,
                    details_gone: spec_fn(u64) -> Seq<Watch<TaskDetails>>,
                | #[trigger]
                    sent_to_all(before, now, gone, details_gone, after)
                &&& !cycle.should_send || before.watchers.len() == 0 ==> after == before
            }
        }),
{
    let before = old(aggregator)@;
    let after = final(aggregator)@;
    if let Polled::Event(event) = polled {
        lemma_updated_is_learned(before, event);
    }
    if polled is Empty && cycle.should_send && before.watchers.len() > 0 {
        let departed = choose|departed: Departed| #[trigger]
            before.published(now, departed, after);
        lemma_published_is_sent_to_all(before, now, departed, after);
    }
}

/// At the end of a cycle what is not needed any more at that time is given up.
/// Then one attempt is made to clear the flag of the request to drain, exactly if
/// the buffer held an event.
pub proof fn law_finishing(aggregator: &mut Aggregator, cycle: Cycle, now: Timestamp, next: Next)
    requires
        call_ensures(Aggregator::finish, (aggregator, cycle, now), next),
    ensures
        ({
            let before = old(aggregator)@;
            let after = final(aggregator)@;
            &&& next is Wait
            &&& cleaned_up(before, now, State { deeds: before.deeds, ..after })
            &&& cycle.drained <==> next->flushed is Some
            &&& cycle.drained ==> one_attempt(
                before.deeds,
                true,
                false,
                false,
                next->flushed->0,
                after.deeds,
            )
            &&& cycle.drained ==> cleared(before, next->flushed->0)
            &&& !cycle.drained ==> after.deeds == before.deeds
        }),
{
    let before = old(aggregator)@;
    let after = final(aggregator)@;
    lemma_cleaned_is_cleaned_up(before, now);
    assert((State { deeds: before.deeds, ..after }) =~= before.cleaned(now));
    if cycle.drained {
        lemma_asked_is_one_attempt(before.deeds, next->flushed->0, after.deeds);
        lemma_attempted_is_cleared(before, next->flushed->0);
    }
}

/// The flag was asked to be changed from set to cleared, and `exchange` says what
/// it answered.
pub open spec fn cleared(before: State, exchange: Exchange) -> bool {
    &&& !exchange.after
    &&& exists|answer: Result<bool, bool>| #[trigger]
        before.shared.flush.flag().answered(true, false, answer) && (answer is Ok
            <==> exchange.before)
}

/// An attempt to clear the flag is what its answer says.
proof fn lemma_attempted_is_cleared(before: State, exchange: Exchange)
    requires
        before.shared.flush.attempted(true, false, exchange),
    ensures
        cleared(before, exchange),
{
    let answer = choose|answer: Result<bool, bool>| #[trigger]
        before.shared.flush.flag().answered(true, false, answer) && exchange
            == crate::flush::reading(true, false, answer);
    assert(before.shared.flush.flag().answered(true, false, answer) && (answer is Ok
        <==> exchange.before));
}

/// Saying that the buffer was drained makes one attempt to clear the flag, and
/// does nothing else.
pub proof fn law_flushing_clears_the_flag_once(aggregator: &mut Aggregator, exchange: Exchange)
    requires
        call_ensures(Aggregator::has_flushed, (aggregator,), exchange),
    ensures
        one_attempt(
            old(aggregator)@.deeds,
            true,
            false,
            false,
            exchange,
            final(aggregator)@.deeds,
        ),
        cleared(old(aggregator)@, exchange),
        final(aggregator)@ == (State { deeds: final(aggregator)@.deeds, ..old(aggregator)@ }),
{
    lemma_asked_is_one_attempt(old(aggregator)@.deeds, exchange, final(aggregator)@.deeds);
    lemma_attempted_is_cleared(old(aggregator)@, exchange);
}

/// What holds of a valid state: entities and their statistics are known together
/// and under their own numbers, what is new came last, and no task is listed that
/// nobody watches.
pub proof fn law_valid_states(state: State)
    requires
        state.valid(),
    ensures
        forall|id: u64| #[trigger]
            state.tasks.contains_key(id) <==> state.task_stats.contains_key(id),
        forall|id: u64| #[trigger]
            state.resources.contains_key(id) <==> state.resource_stats.contains_key(id),
        forall|id: u64| #[trigger]
            state.async_ops.contains_key(id) <==> state.async_op_stats.contains_key(id),
        forall|id: u64| #[trigger] state.tasks.contains_key(id) ==> state.tasks[id].id == id,
        forall|id: u64| #[trigger]
            state.resources.contains_key(id) ==> state.resources[id].id == id,
        forall|id: u64| #[trigger]
            state.async_ops.contains_key(id) ==> state.async_ops[id].id == id,
        exists|told: Seq<NewMetadata>| state.all_metadata == #[trigger] (told
            + state.new_metadata),
        exists|told: Seq<PollOp>| state.all_poll_ops == #[trigger] (told + state.new_poll_ops),
        forall|id: u64| #[trigger]
            state.details_watchers.contains_key(id) ==> state.details_watchers[id].len() > 0,
{
    let told_metadata = state.all_metadata.take(
        state.all_metadata.len() - state.new_metadata.len(),
    );
    let told_poll_ops = state.all_poll_ops.take(
        state.all_poll_ops.len() - state.new_poll_ops.len(),
    );
    assert(state.tasks.dom() == state.task_stats.dom());
    assert(state.all_metadata =~= told_metadata + state.new_metadata);
    assert(state.all_poll_ops =~= told_poll_ops + state.new_poll_ops);
    assert forall|id: u64| #[trigger]
        state.tasks.contains_key(id) <==> state.task_stats.contains_key(id) by {
        assert(state.tasks.dom().contains(id) == state.task_stats.dom().contains(id));
    }
    assert forall|id: u64| #[trigger]
        state.resources.contains_key(id) <==> state.resource_stats.contains_key(id) by {
        assert(state.resources.dom().contains(id) == state.resource_stats.dom().contains(id));
    }
    assert forall|id: u64| #[trigger]
        state.async_ops.contains_key(id) <==> state.async_op_stats.contains_key(id) by {
        assert(state.async_ops.dom().contains(id) == state.async_op_stats.dom().contains(id));
    }
}

/// The aggregator is in a valid state from the start, and every operation keeps
/// it in one.
pub proof fn law_operations_keep_the_state_valid(
    builder: Builder,
    shared: Arc<Shared>,
    new: Aggregator,
    woken: &mut Aggregator,
    wake: Wake,
    woken_at: Timestamp,
    handled: Handled,
    drained: &mut Aggregator,
    cycle: Cycle,
    polled: Polled,
    drained_at: Timestamp,
    next: Next,
    finished: &mut Aggregator,
    last: Cycle,
    finished_at: Timestamp,
    waiting: Next,
)
    requires
        call_ensures(Aggregator::new, (&builder, shared), new),
        call_ensures(Aggregator::wake, (woken, wake, woken_at), handled),
        call_ensures(Aggregator::drain, (drained, cycle, polled, drained_at), next),
        call_ensures(Aggregator::finish, (finished, last, finished_at), waiting),
    ensures
        new@.valid(),
        old(woken)@.valid() ==> final(woken)@.valid(),
        old(drained)@.valid() ==> final(drained)@.valid(),
        old(finished)@.valid() ==> final(finished)@.valid(),
{
}

} // verus!
