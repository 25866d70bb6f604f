//! What holds of the functions of the parts: what a call gives back and leaves
//! behind, said of the values that go in and come out.

use crate::access::{Counter, Deed, Handle, Journal};
use crate::entities::{AsyncOp, Resource, Task};
use crate::flush::{Exchange, Flush};
use crate::id_data::{is_expired, keys, DroppedAt, IdData, Include, ToProto, Unsent};
use crate::outlet::{Place, Sent};
use crate::proto::{AsyncOpMessage, PollOp, ResourceMessage, TaskMessage};
use crate::release::{release, release_all, Released};
use crate::shared::{DroppedEvents, Shared};
use crate::stats::{AsyncOpStats, Observed, ResourceStats, TaskStats};
use crate::time::{elapsed_nanos, Timestamp};
use crate::watch::{
    negated, offer, offered, put, retain_delivered, retain_flagged, select, Message, Status, Watch,
};
use std::collections::HashMap;
use std::sync::Arc;
use tokio::sync::mpsc;
use vstd::prelude::*;

verus! {

// ==== time ====

/// A time on a scale of nanoseconds.
pub open spec fn nanos(time: Timestamp) -> int {
    time.seconds * 1_000_000_000 + time.nanos
}

/// A time is counted in nanoseconds since the epoch.
pub proof fn law_as_nanos(time: Timestamp, total: i128)
    requires
        call_ensures(Timestamp::as_nanos, (&time,), total),
    ensures
        total == nanos(time),
{
}

/// What has elapsed is the distance of the two times, and nothing where the
/// first is still to come: adding it to the first time leads to the second.
pub proof fn law_elapsed(earlier: Timestamp, now: Timestamp, elapsed: u128)
    requires
        call_ensures(elapsed_nanos, (earlier, now), elapsed),
    ensures
        nanos(earlier) <= nanos(now) ==> nanos(earlier) + elapsed == nanos(now),
        nanos(earlier) > nanos(now) ==> elapsed == 0,
{
}

/// An entity that ended at `dropped_at`, if it did, ended more than `retention`
/// nanoseconds before `now`.
pub open spec fn ended_long_ago(
    dropped_at: Option<Timestamp>,
    now: Timestamp,
    retention: u128,
) -> bool {
    dropped_at matches Some(end) && nanos(now) - nanos(end) > retention
}

// ==== messages ====

/// `message` tells of `task` all there is to tell.
pub open spec fn tells_task(task: Task, message: TaskMessage) -> bool {
    &&& message.id == Some(task.id)
    &&& message.kind == 0
    &&& message.metadata == Some(task.metadata)
    &&& message.parents@.len() == 0
    &&& message.fields@ == task.fields@
    &&& message.location == task.location
}

/// `message` tells of `resource` all there is to tell.
pub open spec fn tells_resource(resource: Resource, message: ResourceMessage) -> bool {
    &&& message.id == Some(resource.id)
    &&& message.parent_resource_id == resource.parent_id
    &&& message.kind == Some(resource.kind)
    &&& message.metadata == Some(resource.metadata)
    &&& message.concrete_type == resource.concrete_type
    &&& message.location == resource.location
    &&& message.is_internal == resource.is_internal
}

/// `message` tells of `async_op` all there is to tell.
pub open spec fn tells_async_op(async_op: AsyncOp, message: AsyncOpMessage) -> bool {
    &&& message.id == Some(async_op.id)
    &&& message.metadata == Some(async_op.metadata)
    &&& message.resource_id == Some(async_op.resource_id)
    &&& message.source == async_op.source
    &&& message.parent_async_op_id == async_op.parent_id
}

/// The message about a task says of it what is known, whether or not it was
/// said before.
pub proof fn law_task_message(task: Task, message: TaskMessage)
    requires
        call_ensures(<Task as ToProto>::to_proto, (&task,), message),
    ensures
        tells_task(task, message),
{
}

/// The message about a resource says of it what is known.
pub proof fn law_resource_message(resource: Resource, message: ResourceMessage)
    requires
        call_ensures(<Resource as ToProto>::to_proto, (&resource,), message),
    ensures
        tells_resource(resource, message),
{
}

/// The message about an async operation says of it what is known.
pub proof fn law_async_op_message(async_op: AsyncOp, message: AsyncOpMessage)
    requires
        call_ensures(<AsyncOp as ToProto>::to_proto, (&async_op,), message),
    ensures
        tells_async_op(async_op, message),
{
}

/// The messages about statistics are those that were observed.
pub proof fn law_stats_messages(
    task: TaskStats,
    task_message: console_api::tasks::Stats,
    resource: ResourceStats,
    resource_message: console_api::resources::Stats,
    async_op: AsyncOpStats,
    async_op_message: console_api::async_ops::Stats,
)
    requires
        call_ensures(<TaskStats as ToProto>::to_proto, (&task,), task_message),
        call_ensures(<ResourceStats as ToProto>::to_proto, (&resource,), resource_message),
        call_ensures(<AsyncOpStats as ToProto>::to_proto, (&async_op,), async_op_message),
    ensures
        task_message == task.message,
        resource_message == resource.message,
        async_op_message == async_op.message,
{
}

/// What is known of an entity meets what it is used by: messages tell all there
/// is to tell, and the mark is the only thing that sending changes.
pub proof fn law_entities(
    task: Task,
    task_message: TaskMessage,
    resource: Resource,
    resource_message: ResourceMessage,
    async_op: AsyncOp,
    async_op_message: AsyncOpMessage,
)
    ensures
        task.encoded_by(task_message) <==> tells_task(task, task_message),
        resource.encoded_by(resource_message) <==> tells_resource(resource, resource_message),
        async_op.encoded_by(async_op_message) <==> tells_async_op(async_op, async_op_message),
        task.unsent() == task.is_dirty,
        resource.unsent() == resource.is_dirty,
        async_op.unsent() == async_op.is_dirty,
        task.marked_sent() == (Task { is_dirty: false, ..task }),
        resource.marked_sent() == (Resource { is_dirty: false, ..resource }),
        async_op.marked_sent() == (AsyncOp { is_dirty: false, ..async_op }),
{
    if task.encoded_by(task_message) || tells_task(task, task_message) {
        assert(task_message.parents@ =~= Seq::empty());
    }
    if tells_resource(resource, resource_message) {
        assert(resource.encoded_by(resource_message));
    }
    if tells_async_op(async_op, async_op_message) {
        assert(async_op.encoded_by(async_op_message));
    }
}

/// Statistics meet what they are used by in the same way, and say when their
/// entity ended.
pub proof fn law_stats(
    task: TaskStats,
    task_message: console_api::tasks::Stats,
    resource: ResourceStats,
    resource_message: console_api::resources::Stats,
    async_op: AsyncOpStats,
    async_op_message: console_api::async_ops::Stats,
)
    ensures
        task.encoded_by(task_message) <==> task_message == task.message,
        resource.encoded_by(resource_message) <==> resource_message == resource.message,
        async_op.encoded_by(async_op_message) <==> async_op_message == async_op.message,
        task.unsent() == task.is_dirty,
        resource.unsent() == resource.is_dirty,
        async_op.unsent() == async_op.is_dirty,
        task.dropped_at_spec() == task.dropped_at,
        resource.dropped_at_spec() == resource.dropped_at,
        async_op.dropped_at_spec() == async_op.dropped_at,
        task.marked_sent() == (TaskStats { is_dirty: false, ..task }),
        resource.marked_sent() == (ResourceStats { is_dirty: false, ..resource }),
        async_op.marked_sent() == (AsyncOpStats { is_dirty: false, ..async_op }),
{
}

/// A poll is copied as it is.
pub proof fn law_poll_op_copy(poll_op: PollOp, copy: PollOp)
    requires
        call_ensures(<PollOp as Clone>::clone, (&poll_op,), copy),
    ensures
        copy == poll_op,
{
}

/// The histogram of a task is handed out byte for byte.
pub proof fn law_serialize_histogram(stats: TaskStats, histogram: Option<Vec<u8>>)
    requires
        call_ensures(TaskStats::serialize_histogram, (&stats,), histogram),
    ensures
        histogram is Some <==> stats.poll_times_histogram is Some,
        histogram matches Some(bytes) ==> bytes@ == stats.poll_times_histogram->0@,
{
}

// ==== marks and observations ====

/// Taking the mark of an entity tells whether it was there and changes nothing
/// else.
pub proof fn law_take_unsent_of_entities(
    task: &mut Task,
    task_was: bool,
    resource: &mut Resource,
    resource_was: bool,
    async_op: &mut AsyncOp,
    async_op_was: bool,
)
    requires
        call_ensures(<Task as Unsent>::take_unsent, (task,), task_was),
        call_ensures(<Resource as Unsent>::take_unsent, (resource,), resource_was),
        call_ensures(<AsyncOp as Unsent>::take_unsent, (async_op,), async_op_was),
    ensures
        task_was == old(task).is_dirty,
        *final(task) == (Task { is_dirty: false, ..*old(task) }),
        resource_was == old(resource).is_dirty,
        *final(resource) == (Resource { is_dirty: false, ..*old(resource) }),
        async_op_was == old(async_op).is_dirty,
        *final(async_op) == (AsyncOp { is_dirty: false, ..*old(async_op) }),
{
}

/// Taking the mark of statistics tells whether it was there and changes nothing
/// else.
pub proof fn law_take_unsent_of_stats(
    task: &mut TaskStats,
    task_was: bool,
    resource: &mut ResourceStats,
    resource_was: bool,
    async_op: &mut AsyncOpStats,
    async_op_was: bool,
)
    requires
        call_ensures(<TaskStats as Unsent>::take_unsent, (task,), task_was),
        call_ensures(<ResourceStats as Unsent>::take_unsent, (resource,), resource_was),
        call_ensures(<AsyncOpStats as Unsent>::take_unsent, (async_op,), async_op_was),
    ensures
        task_was == old(task).is_dirty,
        *final(task) == (TaskStats { is_dirty: false, ..*old(task) }),
        resource_was == old(resource).is_dirty,
        *final(resource) == (ResourceStats { is_dirty: false, ..*old(resource) }),
        async_op_was == old(async_op).is_dirty,
        *final(async_op) == (AsyncOpStats { is_dirty: false, ..*old(async_op) }),
{
}

/// Statistics are what was observed last, and are marked if they were or if
/// what was observed is new.
pub proof fn law_absorb(
    task: &mut TaskStats,
    newer_task: TaskStats,
    resource: &mut ResourceStats,
    newer_resource: ResourceStats,
    async_op: &mut AsyncOpStats,
    newer_async_op: AsyncOpStats,
)
    requires
        call_ensures(<TaskStats as Observed>::absorb, (task, newer_task), ()),
        call_ensures(<ResourceStats as Observed>::absorb, (resource, newer_resource), ()),
        call_ensures(<AsyncOpStats as Observed>::absorb, (async_op, newer_async_op), ()),
    ensures
        final(task).is_dirty == (old(task).is_dirty || newer_task.is_dirty),
        final(task).dropped_at == newer_task.dropped_at,
        final(task).message == newer_task.message,
        final(task).poll_times_histogram == newer_task.poll_times_histogram,
        final(resource).is_dirty == (old(resource).is_dirty || newer_resource.is_dirty),
        final(resource).dropped_at == newer_resource.dropped_at,
        final(resource).message == newer_resource.message,
        final(async_op).is_dirty == (old(async_op).is_dirty || newer_async_op.is_dirty),
        final(async_op).dropped_at == newer_async_op.dropped_at,
        final(async_op).message == newer_async_op.message,
{
}

// ==== data by number ====

/// Data that was put in under a number is found there, as is what was there
/// under other numbers; what was taken out is gone.
pub proof fn law_data_is_found<T>(
    empty: IdData<T>,
    data: &mut IdData<T>,
    id: u64,
    item: T,
    found: Option<&T>,
    emptied: &mut IdData<T>,
    taken: Option<T>,
    other: u64,
)
    requires
        call_ensures(<IdData<T> as Default>::default, (), empty),
        call_ensures(IdData::<T>::insert, (data, id, item), ()),
        call_ensures(IdData::<T>::get, (final(data), other), found),
        *old(emptied) == *final(data),
        call_ensures(IdData::<T>::take, (emptied, other), taken),
    ensures
        !empty@.contains_key(other),
        other == id ==> found is Some && *found->0 == item,
        other != id ==> {
            &&& found is Some <==> old(data)@.contains_key(other)
            &&& found is Some ==> *found->0 == old(data)@[other]
        },
        taken is Some <==> found is Some,
        taken is Some ==> taken->0 == *found->0,
        !final(emptied)@.contains_key(other),
        forall|third: u64|
            third != other ==> {
                &&& #[trigger] final(emptied)@.contains_key(third) <==> final(data)@.contains_key(
                    third,
                )
                &&& final(emptied)@.contains_key(third) ==> final(emptied)@[third] == final(data)@[third]
            },
{
}

/// `ids` are the numbers for which `holds`, each of them once.
pub open spec fn are_just(ids: Seq<u64>, holds: spec_fn(u64) -> bool) -> bool {
    &&& forall|i: int, j: int| 0 <= i < j < ids.len() ==> ids[i] != ids[j]
    &&& forall|i: int| 0 <= i < ids.len() ==> holds(#[trigger] ids[i])
    &&& forall|id: u64| #[trigger] holds(id) ==> ids.contains(id)
}

/// All numbers are told, each once.
pub proof fn law_all_numbers<T, V>(
    data: IdData<T>,
    ids: Vec<u64>,
    map: HashMap<u64, V>,
    map_ids: Vec<u64>,
)
    requires
        call_ensures(IdData::<T>::all, (&data,), ids),
        call_ensures(keys::<V>, (&map,), map_ids),
    ensures
        are_just(ids@, |id: u64| data@.contains_key(id)),
        are_just(map_ids@, |id: u64| map@.contains_key(id)),
{
    assert forall|i: int| 0 <= i < ids.len() implies data@.contains_key(#[trigger] ids@[i]) by {
        assert(ids@.to_set().contains(ids@[i]));
    }
    assert forall|id: u64| #[trigger] data@.contains_key(id) implies ids@.contains(id) by {
        assert(ids@.to_set().contains(id));
    }
    assert forall|i: int| 0 <= i < map_ids.len() implies map@.contains_key(
        #[trigger] map_ids@[i],
    ) by {
        assert(map_ids@.to_set().contains(map_ids@[i]));
    }
    assert forall|id: u64| #[trigger] map@.contains_key(id) implies map_ids@.contains(id) by {
        assert(map_ids@.to_set().contains(id));
    }
}

/// The numbers of marked data are told, each once, and all marks are gone
/// afterwards, while the rest of the data is as it was.
pub proof fn law_since_last_update<T: Unsent>(data: &mut IdData<T>, updated: Vec<u64>)
    requires
        call_ensures(IdData::<T>::since_last_update, (data,), updated),
    ensures
        are_just(updated@, |id: u64| old(data)@.contains_key(id) && old(data)@[id].unsent()),
        forall|id: u64| #[trigger]
            final(data)@.contains_key(id) <==> old(data)@.contains_key(id),
        forall|id: u64| #[trigger]
            final(data)@.contains_key(id) ==> {
                &&& !final(data)@[id].unsent()
                &&& !old(data)@[id].unsent() ==> final(data)@[id] == old(data)@[id]
                &&& final(data)@[id] == old(data)@[id].marked_sent()
            },
{
    let before = old(data)@;
    assert forall|i: int| 0 <= i < updated.len() implies before.contains_key(
        #[trigger] updated@[i],
    ) && before[updated@[i]].unsent() by {
        assert(updated@.to_set().contains(updated@[i]));
    }
    assert forall|id: u64| before.contains_key(id) && #[trigger] before[id].unsent() implies
        updated@.contains(id) by {
        assert(updated@.to_set().contains(id));
    }
    assert forall|id: u64| #[trigger] final(data)@.contains_key(id) implies {
        &&& !final(data)@[id].unsent()
        &&& !before[id].unsent() ==> final(data)@[id] == before[id]
        &&& final(data)@[id] == before[id].marked_sent()
    } by {
        before[id].lemma_marked_sent();
    }
}

/// Statistics are given up exactly where their entity ended longer ago than the
/// retention, and where they are not marked or nobody watches.
pub proof fn law_is_expired<R: DroppedAt + Unsent>(
    stats: R,
    now: Timestamp,
    retention: u128,
    has_watchers: bool,
    expired: bool,
)
    requires
        call_ensures(is_expired::<R>, (&stats, now, retention, has_watchers), expired),
    ensures
        expired <==> ended_long_ago(stats.dropped_at_spec(), now, retention) && (
        !stats.unsent() || !has_watchers),
{
}

/// `after` is what is left of `before` once those were given up who `leave`.
pub open spec fn without<A>(
    before: Map<u64, A>,
    leave: spec_fn(u64) -> bool,
    after: Map<u64, A>,
) -> bool {
    forall|id: u64|
        {
            &&& #[trigger] after.contains_key(id) <==> before.contains_key(id) && !leave(id)
            &&& after.contains_key(id) ==> after[id] == before[id]
        }
}

/// Dropping what has ended gives up statistics that expired, and the entities
/// without statistics.
pub proof fn law_drop_closed<T, R: DroppedAt + Unsent>(
    data: &mut IdData<T>,
    stats: &mut IdData<R>,
    now: Timestamp,
    retention: u128,
    has_watchers: bool,
)
    requires
        call_ensures(
            IdData::<T>::drop_closed::<R>,
            (data, stats, now, retention, has_watchers),
            (),
        ),
    ensures
        without(
            old(stats)@,
            |id: u64|
                ended_long_ago(old(stats)@[id].dropped_at_spec(), now, retention) && (
                !old(stats)@[id].unsent() || !has_watchers),
            final(stats)@,
        ),
        without(old(data)@, |id: u64| !final(stats)@.contains_key(id), final(data)@),
{
}

/// An observation of a known entity replaces its statistics and no others; one
/// of another entity does nothing.
pub proof fn law_observe<S: Observed>(
    stats: &mut IdData<S>,
    id: u64,
    newer: S,
    known: bool,
    other: u64,
)
    requires
        call_ensures(IdData::<S>::observe, (stats, id, newer), known),
    ensures
        known <==> old(stats)@.contains_key(id),
        final(stats)@.contains_key(other) <==> old(stats)@.contains_key(other),
        other != id && old(stats)@.contains_key(other) ==> final(stats)@[other] == old(stats)@[other],
        known ==> {
            &&& final(stats)@[id].unsent() == (old(stats)@[id].unsent() || newer.unsent())
            &&& final(stats)@[id].dropped_at_spec() == newer.dropped_at_spec()
            &&& forall|message: S::Output| #[trigger]
                final(stats)@[id].encoded_by(message) == newer.encoded_by(message)
        },
{
    if known {
        old(stats)@[id].lemma_absorbed(newer);
    }
}

/// `ids` are the numbers of the entries for which `which` holds, each once.
pub open spec fn number_those<A>(
    entries: Map<u64, A>,
    which: spec_fn(A) -> bool,
    ids: Seq<u64>,
) -> bool {
    are_just(ids, |id: u64| entries.contains_key(id) && which(entries[id]))
}

/// `messages` are, in some order, one for each of the entries for which `which`
/// holds, and tell of it.
pub open spec fn lists<A, M>(
    entries: Map<u64, A>,
    which: spec_fn(A) -> bool,
    tells: spec_fn(A, M) -> bool,
    messages: Seq<M>,
) -> bool {
    exists|ids: Seq<u64>|
        {
            &&& ids.len() == messages.len()
            &&& #[trigger] number_those(entries, which, ids)
            &&& forall|i: int|
                0 <= i < messages.len() ==> tells(entries[ids[i]], #[trigger] messages[i])
        }
}

/// `messages` hold, under its number, one for each of the entries for which
/// `which` holds, and tell of it.
pub open spec fn tabulates<A, M>(
    entries: Map<u64, A>,
    which: spec_fn(A) -> bool,
    tells: spec_fn(A, M) -> bool,
    messages: Map<u64, M>,
) -> bool {
    forall|id: u64|
        {
            &&& #[trigger] messages.contains_key(id) <==> entries.contains_key(id) && which(
                entries[id],
            )
            &&& messages.contains_key(id) ==> tells(entries[id], messages[id])
        }
}

/// What is left of data after an update: nothing is marked any more if that was
/// about what was marked, and nothing else changed.
pub open spec fn marks_cleared<T: Unsent>(
    before: Map<u64, T>,
    which: Include,
    after: Map<u64, T>,
) -> bool {
    forall|id: u64|
        {
            &&& #[trigger] after.contains_key(id) <==> before.contains_key(id)
            &&& after.contains_key(id) && which is All ==> after[id] == before[id]
            &&& after.contains_key(id) && which is UpdatedOnly ==> after[id]
                == before[id].marked_sent() && !after[id].unsent()
        }
}

/// The messages of an update tell of all data or of what is marked, each once.
pub proof fn law_as_list<T: ToProto>(
    data: &mut IdData<T>,
    which: Include,
    messages: Vec<T::Output>,
)
    requires
        call_ensures(IdData::<T>::as_list, (data, which), messages),
    ensures
        lists(
            old(data)@,
            |item: T| which is All || item.unsent(),
            |item: T, message: T::Output| item.encoded_by(message),
            messages@,
        ),
        marks_cleared(old(data)@, which, final(data)@),
{
    lemma_lists(old(data)@, which, messages@);
    lemma_marks_cleared(old(data)@, which);
}

/// The messages of an update by number tell of all data or of what is marked.
pub proof fn law_as_proto<T: ToProto>(
    data: &mut IdData<T>,
    which: Include,
    messages: HashMap<u64, T::Output>,
)
    requires
        call_ensures(IdData::<T>::as_proto, (data, which), messages),
    ensures
        tabulates(
            old(data)@,
            |item: T| which is All || item.unsent(),
            |item: T, message: T::Output| item.encoded_by(message),
            messages@,
        ),
        marks_cleared(old(data)@, which, final(data)@),
{
    lemma_tabulates(old(data)@, which, messages@);
    lemma_marks_cleared(old(data)@, which);
}

/// An update clears the marks that it is about.
pub(crate) proof fn lemma_marks_cleared<T: Unsent>(entries: Map<u64, T>, which: Include)
    ensures
        marks_cleared(entries, which, crate::id_data::after_update(entries, which)),
{
    let after = crate::id_data::after_update(entries, which);
    assert forall|id: u64|
        {
            &&& #[trigger] after.contains_key(id) <==> entries.contains_key(id)
            &&& after.contains_key(id) && which is All ==> after[id] == entries[id]
            &&& after.contains_key(id) && which is UpdatedOnly ==> after[id]
                == entries[id].marked_sent() && !after[id].unsent()
        } by {
        entries[id].lemma_marked_sent();
    }
}

/// A list of messages in the model lists what is chosen.
pub(crate) proof fn lemma_lists<T: ToProto>(
    entries: Map<u64, T>,
    which: Include,
    messages: Seq<T::Output>,
)
    requires
        crate::id_data::encoded_as_list(crate::id_data::included(entries, which), messages),
    ensures
        lists(
            entries,
            |item: T| which is All || item.unsent(),
            |item: T, message: T::Output| item.encoded_by(message),
            messages,
        ),
{
    let chosen = crate::id_data::included(entries, which);
    let ids = choose|ids: Seq<u64>| #[trigger]
        crate::id_data::enumerates(ids, chosen.dom()) && crate::id_data::encoded_in_order(
            chosen,
            ids,
            messages,
        );
    let wanted = |item: T| which is All || item.unsent();
    let holds = |id: u64| entries.contains_key(id) && wanted(entries[id]);
    assert forall|i: int| 0 <= i < ids.len() implies holds(#[trigger] ids[i]) by {
        assert(ids.to_set().contains(ids[i]));
        assert(chosen.contains_key(ids[i]));
    }
    assert forall|id: u64| #[trigger] holds(id) implies ids.contains(id) by {
        assert(chosen.contains_key(id));
        assert(ids.to_set().contains(id));
    }
    assert(number_those(entries, wanted, ids));
    assert forall|i: int| 0 <= i < messages.len() implies entries[ids[i]].encoded_by(
        #[trigger] messages[i],
    ) by {
        assert(holds(ids[i]));
    }
}

/// Messages by number in the model tabulate what is chosen.
pub(crate) proof fn lemma_tabulates<T: ToProto>(
    entries: Map<u64, T>,
    which: Include,
    messages: Map<u64, T::Output>,
)
    requires
        crate::id_data::encoded_as_map(crate::id_data::included(entries, which), messages),
    ensures
        tabulates(
            entries,
            |item: T| which is All || item.unsent(),
            |item: T, message: T::Output| item.encoded_by(message),
            messages,
        ),
{
    let chosen = crate::id_data::included(entries, which);
    assert forall|id: u64|
        {
            &&& #[trigger] messages.contains_key(id) <==> entries.contains_key(id) && (which is All
                || entries[id].unsent())
            &&& messages.contains_key(id) ==> entries[id].encoded_by(messages[id])
        } by {
        assert(messages.contains_key(id) == messages.dom().contains(id));
        assert(chosen.dom().contains(id) == chosen.contains_key(id));
    }
}

// ==== subscribers ====

/// The channel of `before` was asked for a place and gave one, `message` was
/// put into it, and `after` is the subscriber with one message more.
pub open spec fn got<T>(before: Watch<T>, message: Arc<T>, after: Watch<T>) -> bool {
    &&& exists|permit: mpsc::Permit<'_, Message<T>>|
        {
            &&& #[trigger] call_ensures(
                mpsc::Sender::<Message<T>>::try_reserve,
                (&before.channel(),),
                Ok::<mpsc::Permit<'_, Message<T>>, mpsc::error::TrySendError<()>>(permit),
            )
            &&& call_ensures(
                mpsc::Permit::<Message<T>>::send,
                (permit, Ok::<Arc<T>, Status>(message)),
                (),
            )
        }
    &&& after.channel() == before.channel()
    &&& after@.len() == before@.len() + 1
    &&& after@.last() == Ok::<Arc<T>, Status>(message)
    &&& after@.drop_last() == before@
}

/// The channel of `before` was asked for a place and had none, and `after` is
/// the subscriber as it was.
pub open spec fn had_no_room<T>(before: Watch<T>, after: Watch<T>) -> bool {
    &&& exists|error: mpsc::error::TrySendError<()>| #[trigger]
        call_ensures(
            mpsc::Sender::<Message<T>>::try_reserve,
            (&before.channel(),),
            Err::<mpsc::Permit<'_, Message<T>>, mpsc::error::TrySendError<()>>(error),
        )
    &&& after == before
}

/// A new subscriber is reached by the channel that it was made for, and was
/// sent nothing.
pub proof fn law_new_subscriber<T>(sender: mpsc::Sender<Message<T>>, watch: Watch<T>)
    requires
        call_ensures(Watch::<T>::new, (sender,), watch),
    ensures
        watch.channel() == sender,
        watch@.len() == 0,
{
}

/// A subscriber gets the message if its channel has a place, and the caller is
/// told whether it has.
pub proof fn law_update_reaches_who_has_room<T>(
    watch: &mut Watch<T>,
    update: Arc<T>,
    delivered: bool,
)
    requires
        call_ensures(Watch::<T>::update, (watch, &update), delivered),
    ensures
        delivered ==> got(*old(watch), update, *final(watch)),
        !delivered ==> had_no_room(*old(watch), *final(watch)),
{
    lemma_accepts_is_got(*old(watch), update, *final(watch));
}

/// Who accepts got the message, and who refuses had no room.
pub(crate) proof fn lemma_accepts_is_got<T>(before: Watch<T>, update: Arc<T>, after: Watch<T>)
    ensures
        crate::watch::accepts(before, update, after) ==> got(before, update, after),
        crate::watch::refuses(before, after) ==> had_no_room(before, after),
{
    if crate::watch::accepts(before, update, after) {
        assert(after@.drop_last() =~= before@);
        let permit = choose|permit: mpsc::Permit<'_, Message<T>>| #[trigger]
            crate::outlet::reserved(before.channel(), permit) && crate::outlet::filled(
                permit,
                Ok::<Arc<T>, Status>(update),
            );
        assert(call_ensures(
            mpsc::Sender::<Message<T>>::try_reserve,
            (&before.channel(),),
            Ok::<mpsc::Permit<'_, Message<T>>, mpsc::error::TrySendError<()>>(permit),
        ));
    }
}

/// A reserved place is filled with the message, and it is told whether there was
/// one.
pub proof fn law_put_fills_the_place<T>(
    place: Result<
        (Place<'_, Message<T>>, &mut Sent<Message<T>>),
        mpsc::error::TrySendError<()>,
    >,
    update: Arc<T>,
    delivered: bool,
)
    requires
        call_ensures(put::<T>, (place, &update), delivered),
    ensures
        delivered <==> place is Ok,
        place matches Ok((place, sent)) ==> {
            &&& call_ensures(
                mpsc::Permit::<Message<T>>::send,
                (place.permit(), Ok::<Arc<T>, Status>(update)),
                (),
            )
            &&& final(sent)@.len() == sent@.len() + 1
            &&& final(sent)@.last() == Ok::<Arc<T>, Status>(update)
            &&& final(sent)@.drop_last() == sent@
        },
{
    if let Ok((place, sent)) = place {
        assert(final(sent)@.drop_last() =~= sent@);
    }
}

/// Each subscriber is offered the message, and it is told of each whether it
/// got it.
pub proof fn law_offer_reaches_all_with_room<T>(
    watchers: &mut Vec<Watch<T>>,
    update: Arc<T>,
    flags: Vec<bool>,
)
    requires
        call_ensures(offer::<T>, (watchers, &update), flags),
    ensures
        flags.len() == old(watchers).len(),
        final(watchers).len() == old(watchers).len(),
        forall|i: int|
            #![trigger final(watchers)@[i]]
            0 <= i < flags.len() ==> {
                &&& flags@[i] ==> got(old(watchers)@[i], update, final(watchers)@[i])
                &&& !flags@[i] ==> had_no_room(old(watchers)@[i], final(watchers)@[i])
            },
{
    assert forall|i: int|
        #![trigger final(watchers)@[i]]
        0 <= i < flags.len() implies {
        &&& flags@[i] ==> got(old(watchers)@[i], update, final(watchers)@[i])
        &&& !flags@[i] ==> had_no_room(old(watchers)@[i], final(watchers)@[i])
    } by {
        lemma_accepts_is_got(old(watchers)@[i], update, final(watchers)@[i]);
    }
}

/// `some` are the items of `all` at `places`, in the order of `all`.
pub open spec fn at_places<A>(all: Seq<A>, places: Seq<int>, some: Seq<A>) -> bool {
    &&& places.len() == some.len()
    &&& forall|j: int, k: int| 0 <= j < k < places.len() ==> places[j] < places[k]
    &&& forall|j: int|
        #![trigger places[j]]
        0 <= j < places.len() ==> 0 <= places[j] < all.len() && some[j] == all[places[j]]
}

/// The places of the items with a flag and of those without are all places.
pub open spec fn parted(flags: Seq<bool>, with: Seq<int>, without: Seq<int>) -> bool {
    forall|i: int|
        #![trigger flags[i]]
        0 <= i < flags.len() ==> (flags[i] <==> with.contains(i)) && (!flags[i]
            <==> without.contains(i))
}

/// What is selected stands at the places of the flags, and all of these count.
proof fn lemma_select_at_places<A>(items: Seq<A>, flags: Seq<bool>) -> (places: Seq<int>)
    requires
        items.len() == flags.len(),
    ensures
        at_places(items, places, select(items, flags)),
        forall|i: int| #[trigger] places.contains(i) <==> 0 <= i < flags.len() && flags[i],
    decreases items.len(),
{
    if items.len() == 0 {
        let places = Seq::<int>::empty();
        assert(at_places(items, places, select(items, flags)));
        places
    } else {
        let fewer = lemma_select_at_places(items.drop_last(), flags.drop_last());
        let last = items.len() - 1;
        assert forall|j: int| #![trigger fewer[j]] 0 <= j < fewer.len() implies fewer[j] < last by {
            assert(0 <= fewer[j] < items.drop_last().len());
        }
        if flags.last() {
            let places = fewer.push(last);
            assert forall|j: int|
                #![trigger places[j]]
                0 <= j < places.len() implies 0 <= places[j] < items.len() && select(
                items,
                flags,
            )[j] == items[places[j]] by {
                if j < fewer.len() {
                    assert(places[j] == fewer[j]);
                }
            }
            assert forall|j: int, k: int| 0 <= j < k < places.len() implies places[j]
                < places[k] by {
                assert(places[j] == fewer[j]);
                if k < fewer.len() {
                    assert(places[k] == fewer[k]);
                }
            }
            assert forall|i: int| #[trigger] places.contains(i) <==> 0 <= i < flags.len()
                && flags[i] by {
                crate::id_data::lemma_push_contains(fewer, last, i);
                if 0 <= i < last {
                    assert(flags.drop_last()[i] == flags[i]);
                }
            }
            places
        } else {
            assert forall|j: int|
                #![trigger fewer[j]]
                0 <= j < fewer.len() implies 0 <= fewer[j] < items.len() && select(
                items,
                flags,
            )[j] == items[fewer[j]] by {}
            assert forall|i: int| #[trigger] fewer.contains(i) <==> 0 <= i < flags.len()
                && flags[i] by {
                if 0 <= i < last {
                    assert(flags.drop_last()[i] == flags[i]);
                }
            }
            fewer
        }
    }
}

/// Each item is kept if it has a flag and let go of otherwise, and neither those
/// nor these change their order.
pub proof fn law_retain_parts_the_items<A>(
    items: &mut Vec<A>,
    flags: Vec<bool>,
    others: Vec<Released<A>>,
)
    requires
        flags.len() == old(items).len(),
        call_ensures(retain_flagged::<A>, (items, &flags), others),
    ensures
        exists|with: Seq<int>, without: Seq<int>|
            {
                &&& #[trigger] parted(flags@, with, without)
                &&& at_places(old(items)@, with, final(items)@)
                &&& at_places(
                    old(items)@,
                    without,
                    Seq::new(others@.len(), |j: int| others@[j]@),
                )
            },
{
    let with = lemma_select_at_places(old(items)@, flags@);
    let without = lemma_select_at_places(old(items)@, negated(flags@));
    assert(Seq::new(others@.len(), |j: int| others@[j]@) =~= select(
        old(items)@,
        negated(flags@),
    ));
    assert forall|i: int| #![trigger flags@[i]] 0 <= i < flags@.len() implies (flags@[i]
        <==> with.contains(i)) && (!flags@[i] <==> without.contains(i)) by {
        assert(negated(flags@)[i] == !flags@[i]);
    }
    assert(parted(flags@, with, without));
}

/// A message was offered once to each of `before`. `kept` are those who got it
/// and `dropped` are those who had no room for it, both in their order.
pub open spec fn shared_out<T>(
    before: Seq<Watch<T>>,
    message: Arc<T>,
    kept: Seq<Watch<T>>,
    dropped: Seq<Watch<T>>,
) -> bool {
    exists|staying: Seq<int>, leaving: Seq<int>| #[trigger]
        shared_out_at(before, message, staying, kept, leaving, dropped)
}

/// Those at `staying` got the message and became `kept`, and those at `leaving`
/// had no room for it and became `dropped`; and these are all.
pub open spec fn shared_out_at<T>(
    before: Seq<Watch<T>>,
    message: Arc<T>,
    staying: Seq<int>,
    kept: Seq<Watch<T>>,
    leaving: Seq<int>,
    dropped: Seq<Watch<T>>,
) -> bool {
    &&& staying.len() == kept.len()
    &&& leaving.len() == dropped.len()
    &&& forall|j: int, k: int| 0 <= j < k < staying.len() ==> staying[j] < staying[k]
    &&& forall|j: int, k: int| 0 <= j < k < leaving.len() ==> leaving[j] < leaving[k]
    &&& forall|j: int|
        #![trigger staying[j]]
        0 <= j < staying.len() ==> 0 <= staying[j] < before.len() && got(
            before[staying[j]],
            message,
            kept[j],
        )
    &&& forall|j: int|
        #![trigger leaving[j]]
        0 <= j < leaving.len() ==> 0 <= leaving[j] < before.len() && had_no_room(
            before[leaving[j]],
            dropped[j],
        )
    &&& forall|i: int|
        #![trigger before[i]]
        0 <= i < before.len() ==> (staying.contains(i) <==> !leaving.contains(i))
}

/// What was delivered was shared out.
pub(crate) proof fn lemma_delivered_is_shared_out<T>(
    before: Seq<Watch<T>>,
    message: Arc<T>,
    kept: Seq<Watch<T>>,
    dropped: Seq<Watch<T>>,
)
    requires
        crate::watch::delivered(before, message, kept, dropped),
    ensures
        shared_out(before, message, kept, dropped),
{
    let (flags, all) = choose|flags: Seq<bool>, all: Seq<Watch<T>>|
        {
            &&& #[trigger] offered(before, flags, message, all)
            &&& kept == select(all, flags)
            &&& dropped == select(all, negated(flags))
        };
    let staying = lemma_select_at_places(all, flags);
    let leaving = lemma_select_at_places(all, negated(flags));
    assert forall|j: int|
        #![trigger staying[j]]
        0 <= j < staying.len() implies 0 <= staying[j] < before.len() && got(
        before[staying[j]],
        message,
        kept[j],
    ) by {
        assert(staying.contains(staying[j]));
        assert(kept[j] == all[staying[j]]);
        lemma_accepts_is_got(before[staying[j]], message, all[staying[j]]);
    }
    assert forall|j: int|
        #![trigger leaving[j]]
        0 <= j < leaving.len() implies 0 <= leaving[j] < before.len() && had_no_room(
        before[leaving[j]],
        dropped[j],
    ) by {
        assert(leaving.contains(leaving[j]));
        assert(negated(flags)[leaving[j]]);
        assert(dropped[j] == all[leaving[j]]);
        lemma_accepts_is_got(before[leaving[j]], message, all[leaving[j]]);
    }
    assert forall|i: int| #![trigger before[i]] 0 <= i < before.len() implies (staying.contains(i)
        <==> !leaving.contains(i)) by {
        assert(negated(flags)[i] == !flags[i]);
    }
    assert(shared_out_at(before, message, staying, kept, leaving, dropped));
}

/// Who gets the message stays, and who has no room for it is let go of.
pub proof fn law_retain_keeps_who_got_the_message<T>(
    watchers: &mut Vec<Watch<T>>,
    update: Arc<T>,
    dropped: Vec<Released<Watch<T>>>,
)
    requires
        call_ensures(retain_delivered::<T>, (watchers, &update), dropped),
    ensures
        shared_out(
            old(watchers)@,
            update,
            final(watchers)@,
            Seq::new(dropped@.len(), |j: int| dropped@[j]@),
        ),
{
    let gone = Seq::new(dropped@.len(), |j: int| dropped@[j]@);
    assert(gone =~= crate::release::released(dropped@));
    lemma_delivered_is_shared_out(old(watchers)@, update, final(watchers)@, gone);
}

/// A receipt is for the value that was let go of.
pub proof fn law_receipts_are_for_what_was_released<A>(
    value: A,
    receipt: Released<A>,
    values: Vec<A>,
    receipts: Vec<Released<A>>,
)
    requires
        call_ensures(release::<A>, (value,), receipt),
        call_ensures(release_all::<A>, (values,), receipts),
    ensures
        receipt@ == value,
        receipts.len() == values.len(),
        forall|i: int| 0 <= i < values.len() ==> (#[trigger] receipts@[i])@ == values@[i],
{
    assert(crate::release::released(receipts@) == values@);
    assert(crate::release::released(receipts@).len() == receipts@.len());
    assert forall|i: int| 0 <= i < values.len() implies (#[trigger] receipts@[i])@ == values@[i] by {
        assert(crate::release::released(receipts@)[i] == receipts@[i]@);
    }
}

// ==== requests to drain, and counts ====

/// The answer of an exchange says what the flag held: what was expected of it if
/// it was changed, and otherwise the opposite, which it still holds.
pub proof fn law_answer_of_an_exchange(
    current: bool,
    new: bool,
    answer: Result<bool, bool>,
    exchange: Exchange,
)
    requires
        call_ensures(Exchange::read, (current, new, answer), exchange),
    ensures
        answer is Ok ==> exchange.before == current && exchange.after == new,
        answer is Err ==> exchange.before != current && exchange.after == exchange.before,
{
}

/// The journal tells of one attempt more to change the flag from `current` to
/// `new`, and then of one wake-up more if that is to come with success and the
/// attempt succeeded. `exchange` is what became of the flag.
pub open spec fn one_attempt(
    before: Seq<Deed>,
    current: bool,
    new: bool,
    wakes: bool,
    exchange: Exchange,
    after: Seq<Deed>,
) -> bool {
    exists|answer: Result<bool, bool>|
        {
            &&& answer is Ok <==> exchange.before == current
            &&& exchange.after == (if answer is Ok {
                new
            } else {
                !current
            })
            &&& after.len() == before.len() + 1 + if wakes && answer is Ok {
                1int
            } else {
                0int
            }
            &&& after.take(before.len() as int) == before
            &&& after[before.len() as int] == #[trigger] attempt_deed(current, new, answer)
            &&& wakes && answer is Ok ==> after.last() is Woke
        }
}

/// The entry for an attempt to change the flag.
pub open spec fn attempt_deed(current: bool, new: bool, answer: Result<bool, bool>) -> Deed {
    Deed::Exchanged { current, new, answer }
}

/// Asking, and saying that the buffer was drained, is one attempt each.
pub(crate) proof fn lemma_asked_is_one_attempt(
    before: Seq<Deed>,
    exchange: Exchange,
    after: Seq<Deed>,
)
    ensures
        crate::flush::asked(before, exchange, after) ==> one_attempt(
            before,
            false,
            true,
            true,
            exchange,
            after,
        ),
        crate::flush::drained(before, exchange, after) ==> one_attempt(
            before,
            true,
            false,
            false,
            exchange,
            after,
        ),
{
    if crate::flush::asked(before, exchange, after) {
        let answer = choose|answer: Result<bool, bool>|
            {
                &&& exchange == #[trigger] crate::flush::reading(false, true, answer)
                &&& after == if !exchange.before {
                    before.push(Deed::Exchanged { current: false, new: true, answer }).push(
                        Deed::Woke,
                    )
                } else {
                    before.push(Deed::Exchanged { current: false, new: true, answer })
                }
            };
        assert(after.take(before.len() as int) =~= before);
        assert(after[before.len() as int] == attempt_deed(false, true, answer));
    }
    if crate::flush::drained(before, exchange, after) {
        let answer = choose|answer: Result<bool, bool>|
            {
                &&& exchange == #[trigger] crate::flush::reading(true, false, answer)
                &&& after == before.push(Deed::Exchanged { current: true, new: false, answer })
            };
        assert(after.take(before.len() as int) =~= before);
        assert(after[before.len() as int] == attempt_deed(true, false, answer));
    }
}

/// Asking for the buffer to be drained tries once to set the flag, and gives one
/// wake-up exactly if it was not set. Nothing else is done.
pub proof fn law_asking_sets_the_flag(flush: Flush, journal: &mut Journal, exchange: Exchange)
    requires
        call_ensures(Flush::trigger, (&flush, journal), exchange),
    ensures
        one_attempt(old(journal)@, false, true, true, exchange, final(journal)@),
        exchange.after,
        exists|answer: Result<bool, bool>| #[trigger]
            flush.flag().answered(false, true, answer) && (answer is Ok <==> !exchange.before),
        !exchange.before ==> flush.signal().given(),
{
    lemma_asked_is_one_attempt(old(journal)@, exchange, final(journal)@);
    let answer = choose|answer: Result<bool, bool>| #[trigger]
        flush.flag().answered(false, true, answer) && exchange == crate::flush::reading(
            false,
            true,
            answer,
        );
    assert(flush.flag().answered(false, true, answer) && (answer is Ok <==> !exchange.before));
}

/// Saying that the buffer was drained tries once to clear the flag, and nothing
/// else is done.
pub proof fn law_flushing_clears_the_flag(
    flush: Flush,
    journal: &mut Journal,
    exchange: Exchange,
)
    requires
        call_ensures(Flush::has_flushed, (&flush, journal), exchange),
    ensures
        one_attempt(old(journal)@, true, false, false, exchange, final(journal)@),
        !exchange.after,
        exists|answer: Result<bool, bool>| #[trigger]
            flush.flag().answered(true, false, answer) && (answer is Ok <==> exchange.before),
{
    lemma_asked_is_one_attempt(old(journal)@, exchange, final(journal)@);
    let answer = choose|answer: Result<bool, bool>| #[trigger]
        flush.flag().answered(true, false, answer) && exchange == crate::flush::reading(
            true,
            false,
            answer,
        );
    assert(flush.flag().answered(true, false, answer) && (answer is Ok <==> exchange.before));
}

/// A request that was made anew is not made, and no event is lost at first.
pub proof fn law_nothing_at_first(flush: Flush, shared: Shared)
    requires
        call_ensures(<Flush as Default>::default, (), flush),
        call_ensures(<Shared as Default>::default, (), shared),
    ensures
        flush.flag().holds_at_first(false),
        flush.signal().is_new(),
        shared.flush.flag().holds_at_first(false),
        shared.flush.signal().is_new(),
        shared.dropped_tasks.holds_at_first(0),
        shared.dropped_resources.holds_at_first(0),
        shared.dropped_async_ops.holds_at_first(0),
{
}

/// The entry for a counter that was swapped for zero.
pub open spec fn take_deed(counter: Counter, count: usize) -> Deed {
    Deed::Took { counter, count }
}

/// Each counter was swapped for zero once, `tasks`, `resources` and `async_ops`
/// are what they held, and nothing else was done.
pub open spec fn counts_taken(
    shared: Shared,
    before: Seq<Deed>,
    tasks: u64,
    resources: u64,
    async_ops: u64,
    after: Seq<Deed>,
) -> bool {
    exists|t: usize, r: usize, a: usize|
        {
            &&& shared.dropped_tasks.gave(t) && t == tasks
            &&& shared.dropped_resources.gave(r) && r == resources
            &&& shared.dropped_async_ops.gave(a) && a == async_ops
            &&& after.len() == before.len() + 3
            &&& after.take(before.len() as int) == before
            &&& after[before.len() as int] == #[trigger] take_deed(shared.dropped_tasks, t)
            &&& after[before.len() as int + 1] == #[trigger] take_deed(shared.dropped_resources, r)
            &&& after[before.len() as int + 2] == #[trigger] take_deed(shared.dropped_async_ops, a)
        }
}

/// Taking the counts of lost events swaps each for zero once and tells what they
/// were.
pub proof fn law_counts_are_taken_once(
    shared: Shared,
    journal: &mut Journal,
    dropped: DroppedEvents,
)
    requires
        call_ensures(Shared::take_dropped, (&shared, journal), dropped),
    ensures
        counts_taken(
            shared,
            old(journal)@,
            dropped.tasks,
            dropped.resources,
            dropped.async_ops,
            final(journal)@,
        ),
{
    lemma_took_is_counts_taken(&shared, old(journal)@, dropped, final(journal)@);
}

/// What was taken in the model are the counts.
pub(crate) proof fn lemma_took_is_counts_taken(
    shared: &Shared,
    before: Seq<Deed>,
    dropped: DroppedEvents,
    after: Seq<Deed>,
)
    requires
        shared.dropped_taken(dropped),
        shared.took(before, dropped, after),
    ensures
        counts_taken(*shared, before, dropped.tasks, dropped.resources, dropped.async_ops, after),
{
    let (t, r, a) = choose|t: usize, r: usize, a: usize|
        {
            &&& after == before + #[trigger] shared.takings(t, r, a)
            &&& dropped.tasks == t
            &&& dropped.resources == r
            &&& dropped.async_ops == a
        };
    assert(after.take(before.len() as int) =~= before);
    assert(shared.dropped_tasks.gave(t));
    assert(shared.dropped_resources.gave(r));
    assert(shared.dropped_async_ops.gave(a));
    assert(after[before.len() as int] == take_deed(shared.dropped_tasks, t));
    assert(after[before.len() as int + 1] == take_deed(shared.dropped_resources, r));
    assert(after[before.len() as int + 2] == take_deed(shared.dropped_async_ops, a));
}

/// A handle does to what it was made from what is asked of it, and to nothing
/// else.
pub proof fn law_handle_does_what_is_asked(
    shared: Arc<Shared>,
    new: Handle,
    asking: &mut Handle,
    asked: Exchange,
    flushing: &mut Handle,
    flushed: Exchange,
    taking: &mut Handle,
    dropped: DroppedEvents,
)
    requires
        call_ensures(Handle::new, (shared,), new),
        call_ensures(Handle::trigger, (asking,), asked),
        call_ensures(Handle::has_flushed, (flushing,), flushed),
        call_ensures(Handle::take_dropped, (taking,), dropped),
    ensures
        new.shared() == shared,
        new@.len() == 0,
        final(asking).shared() == old(asking).shared(),
        one_attempt(old(asking)@, false, true, true, asked, final(asking)@),
        !asked.before ==> old(asking).shared().flush.signal().given(),
        final(flushing).shared() == old(flushing).shared(),
        one_attempt(old(flushing)@, true, false, false, flushed, final(flushing)@),
        final(taking).shared() == old(taking).shared(),
        counts_taken(
            *old(taking).shared(),
            old(taking)@,
            dropped.tasks,
            dropped.resources,
            dropped.async_ops,
            final(taking)@,
        ),
{
    lemma_asked_is_one_attempt(old(asking)@, asked, final(asking)@);
    lemma_asked_is_one_attempt(old(flushing)@, flushed, final(flushing)@);
    lemma_took_is_counts_taken(&*old(taking).shared(), old(taking)@, dropped, final(taking)@);
}

/// What the parts offer can be called at any time and with any values; only a
/// journal has to be about what it is to tell of.
pub proof fn law_parts_can_be_used_at_any_time<T: ToProto, R: DroppedAt + Unsent, S: Observed, M>(
    time: Timestamp,
    now: Timestamp,
    data: &mut IdData<T>,
    stats: &mut IdData<R>,
    observed: &mut IdData<S>,
    one: R,
    newer: S,
    id: u64,
    which: Include,
    retention: u128,
    has_watchers: bool,
    watch: &mut Watch<M>,
    watchers: &mut Vec<Watch<M>>,
    message: Arc<M>,
    flush: Flush,
    journal: &mut Journal,
    handle: &mut Handle,
)
    ensures
        call_requires(Timestamp::as_nanos, (&time,)),
        call_requires(elapsed_nanos, (time, now)),
        call_requires(is_expired::<R>, (&one, now, retention, has_watchers)),
        call_requires(IdData::<T>::since_last_update, (data,)),
        call_requires(IdData::<T>::as_list, (data, which)),
        call_requires(IdData::<T>::as_proto, (data, which)),
        call_requires(
            IdData::<T>::drop_closed::<R>,
            (data, stats, now, retention, has_watchers),
        ),
        call_requires(IdData::<S>::observe, (observed, id, newer)),
        call_requires(Watch::<M>::update, (watch, &message)),
        call_requires(offer::<M>, (watchers, &message)),
        call_requires(retain_delivered::<M>, (watchers, &message)),
        old(journal).flag() == flush.flag() && old(journal).signal() == flush.signal() ==> {
            &&& call_requires(Flush::trigger, (&flush, journal))
            &&& call_requires(Flush::has_flushed, (&flush, journal))
        },
        call_requires(Handle::trigger, (handle,)),
        call_requires(Handle::has_flushed, (handle,)),
        call_requires(Handle::take_dropped, (handle,)),
{
}

} // verus!
