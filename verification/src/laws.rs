//! What holds of the aggregator as a whole.

use crate::access::Deed;
use crate::event::{Command, Event};
use crate::flush::{asked, attempt, drained, reading, Exchange};
use crate::id_data::{
    encoded_as_list, encoded_in_order, enumerates, expired, included, retained, DroppedAt, Include,
    ToProto, Unsent,
};
use crate::outlet::refused;
use crate::proto::{TaskDetails, Update};
use crate::release::Released;
use crate::run::{
    finished, next_after_wake, published_if_due, woken, Cycle, Next, Reply, Wake,
};
use crate::shared::{DroppedEvents, Shared};
use crate::state::{
    details_published_of, holds_list, is_suffix, Departed, DetailsRequested, State, Temporality,
};
use crate::stats::{observed, AsyncOpStats, Observed, ResourceStats, TaskStats};
use crate::time::Timestamp;
use crate::watch::{accepts, delivered, negated, offered, refuses, select, Watch, WatchRequest};
use console_api::register_metadata::NewMetadata;
use std::sync::Arc;
use std::time::Duration;
use vstd::prelude::*;

verus! {

// ==== every state is valid ====

/// One of the things that the aggregator does, other than publishing, turns
/// `before` into `after`.
pub open spec fn quiet_step(before: State, after: State) -> bool {
    ||| exists|wake: Wake, now: Timestamp, reply: Reply| woken(before, wake, now, reply, after)
    ||| exists|event: Event| after == before.updated(event)
    ||| exists|now: Timestamp| after == before.cleaned(now)
    ||| exists|exchange: Exchange| before.flushed(exchange, after)
    ||| exists|id: u64, newer: TaskStats| after == before.with_task_stats(id, newer)
    ||| exists|id: u64, newer: ResourceStats| after == before.with_resource_stats(id, newer)
    ||| exists|id: u64, newer: AsyncOpStats| after == before.with_async_op_stats(id, newer)
}

/// One of the things that the aggregator does turns `before` into `after`.
pub open spec fn step(before: State, after: State) -> bool {
    ||| quiet_step(before, after)
    ||| exists|now: Timestamp, departed: Departed| before.published(now, departed, after)
}

/// The state before anything happened is valid.
pub proof fn law_initial_state_is_valid(
    publish_interval: Duration,
    retention: u128,
    shared: Arc<Shared>,
)
    ensures
        State::initial(publish_interval, retention, shared).valid(),
{
    let state = State::initial(publish_interval, retention, shared);
    assert(state.tasks.dom() =~= state.task_stats.dom());
    assert(state.resources.dom() =~= state.resource_stats.dom());
    assert(state.async_ops.dom() =~= state.async_op_stats.dom());
    assert(state.new_metadata =~= state.all_metadata.skip(0));
    assert(state.new_poll_ops =~= state.all_poll_ops.skip(0));
}

/// An event keeps the state valid.
pub proof fn law_event_keeps_state_valid(before: State, event: Event)
    requires
        before.valid(),
    ensures
        before.updated(event).valid(),
{
    let after = before.updated(event);
    lemma_push_keeps_suffix(before.new_metadata, before.all_metadata);
    lemma_push_keeps_suffix(before.new_poll_ops, before.all_poll_ops);
    assert(after.tasks.dom() =~= after.task_stats.dom());
    assert(after.resources.dom() =~= after.resource_stats.dom());
    assert(after.async_ops.dom() =~= after.async_op_stats.dom());
}

/// What is new stays the last part of what is known when both grow alike.
proof fn lemma_push_keeps_suffix<A>(part: Seq<A>, whole: Seq<A>)
    requires
        is_suffix(part, whole),
    ensures
        forall|item: A| is_suffix(#[trigger] part.push(item), whole.push(item)),
{
    assert forall|item: A| is_suffix(#[trigger] part.push(item), whole.push(item)) by {
        assert(part.push(item) =~= whole.push(item).skip(whole.len() - part.len()));
    }
}

/// Saying that nothing is new any more keeps the state valid.
pub proof fn law_nothing_new_keeps_state_valid(before: State)
    requires
        before.valid(),
    ensures
        before.nothing_new().valid(),
{
    let after = before.nothing_new();
    assert(after.tasks.dom() =~= after.task_stats.dom());
    assert(after.resources.dom() =~= after.resource_stats.dom());
    assert(after.async_ops.dom() =~= after.async_op_stats.dom());
    assert(after.new_metadata =~= after.all_metadata.skip(after.all_metadata.len() as int));
    assert(after.new_poll_ops =~= after.all_poll_ops.skip(after.all_poll_ops.len() as int));
}

/// Publishing keeps the state valid.
pub proof fn law_publishing_keeps_state_valid(
    before: State,
    now: Timestamp,
    departed: Departed,
    after: State,
)
    requires
        before.valid(),
        before.published(now, departed, after),
    ensures
        after.valid(),
{
    law_nothing_new_keeps_state_valid(before);
    assert forall|id: u64| #[trigger]
        after.details_watchers.contains_key(id) implies after.details_watchers[id].len() > 0 by {
        assert(details_published_of(
            before.details_watchers,
            before.task_stats,
            now,
            after.details_watchers,
            departed.details_watchers,
            id,
        ));
    }
}

/// Dropping what is not needed any more keeps the state valid.
pub proof fn law_cleaning_keeps_state_valid(before: State, now: Timestamp)
    requires
        before.valid(),
    ensures
        before.cleaned(now).valid(),
{
    let after = before.cleaned(now);
    assert(after.tasks.dom() =~= after.task_stats.dom());
    assert(after.resources.dom() =~= after.resource_stats.dom());
    assert(after.async_ops.dom() =~= after.async_op_stats.dom());
}

/// Whatever the aggregator does, its state stays valid: entities and their
/// statistics are known together, what is new was recorded last, and no task
/// is listed as watched that nobody watches.
pub proof fn law_every_step_keeps_state_valid(before: State, after: State)
    requires
        before.valid(),
        step(before, after),
    ensures
        after.valid(),
{
    if exists|event: Event| after == before.updated(event) {
        let event = choose|event: Event| after == before.updated(event);
        law_event_keeps_state_valid(before, event);
    } else if exists|now: Timestamp, departed: Departed| before.published(now, departed, after) {
        let (now, departed) = choose|now: Timestamp, departed: Departed|
            before.published(now, departed, after);
        law_publishing_keeps_state_valid(before, now, departed, after);
    } else if exists|now: Timestamp| after == before.cleaned(now) {
        let now = choose|now: Timestamp| after == before.cleaned(now);
        law_cleaning_keeps_state_valid(before, now);
    } else if exists|id: u64, newer: TaskStats| after == before.with_task_stats(id, newer) {
        let (id, newer) = choose|id: u64, newer: TaskStats|
            after == before.with_task_stats(id, newer);
        assert(after.task_stats.dom() =~= before.task_stats.dom());
    } else if exists|id: u64, newer: ResourceStats| after == before.with_resource_stats(id, newer) {
        let (id, newer) = choose|id: u64, newer: ResourceStats|
            after == before.with_resource_stats(id, newer);
        assert(after.resource_stats.dom() =~= before.resource_stats.dom());
    } else if exists|id: u64, newer: AsyncOpStats| after == before.with_async_op_stats(id, newer) {
        let (id, newer) = choose|id: u64, newer: AsyncOpStats|
            after == before.with_async_op_stats(id, newer);
        assert(after.async_op_stats.dom() =~= before.async_op_stats.dom());
    }
}

/// Whatever the aggregator does, what it once recorded for new subscribers
/// stays recorded, what it did to what is shared stays done, and how it was set
/// up does not change.
pub proof fn law_every_step_keeps_history(before: State, after: State)
    requires
        step(before, after),
    ensures
        before.all_metadata.is_prefix_of(after.all_metadata),
        before.all_poll_ops.is_prefix_of(after.all_poll_ops),
        before.deeds.is_prefix_of(after.deeds),
        after.publish_interval == before.publish_interval,
        after.retention == before.retention,
        after.shared == before.shared,
{
}

// ==== what is left alone ====

/// What producers and aggregator share was left alone, and nobody was sent
/// anything, added or dropped; nor did the aggregator pause or resume.
pub open spec fn others_left_alone(before: State, after: State) -> bool {
    &&& after.shared == before.shared
    &&& after.deeds == before.deeds
    &&& after.watchers == before.watchers
    &&& after.details_watchers == before.details_watchers
    &&& after.temporality == before.temporality
    &&& after.publish_interval == before.publish_interval
    &&& after.retention == before.retention
}

/// An event changes only what is known: the flag, the wake-up and the counters
/// that are shared with the producers are left alone, and so is everybody who
/// subscribed.
pub proof fn law_event_leaves_others_alone(before: State, event: Event)
    ensures
        others_left_alone(before, before.updated(event)),
{
}

/// Cleaning only removes entities and their statistics, together and as they
/// are. What is shared with the producers is left alone, and so is everybody who
/// subscribed, all metadata and all polls.
pub proof fn law_cleaning_only_removes_entities(before: State, now: Timestamp)
    requires
        before.valid(),
    ensures
        ({
            let after = before.cleaned(now);
            &&& others_left_alone(before, after)
            &&& after.all_metadata == before.all_metadata
            &&& after.new_metadata == before.new_metadata
            &&& after.all_poll_ops == before.all_poll_ops
            &&& after.new_poll_ops == before.new_poll_ops
            &&& after.tasks.submap_of(before.tasks)
            &&& after.task_stats.submap_of(before.task_stats)
            &&& after.tasks.dom() == after.task_stats.dom()
            &&& after.resources.submap_of(before.resources)
            &&& after.resource_stats.submap_of(before.resource_stats)
            &&& after.resources.dom() == after.resource_stats.dom()
            &&& after.async_ops.submap_of(before.async_ops)
            &&& after.async_op_stats.submap_of(before.async_op_stats)
            &&& after.async_ops.dom() == after.async_op_stats.dom()
        }),
{
    law_cleaning_keeps_state_valid(before, now);
}

/// A request for details adds at most one subscriber to the details of that
/// task. Everything else, the counts of lost events and the other subscribers
/// among it, is left alone.
pub proof fn law_details_request_leaves_others_alone(
    before: State,
    request: WatchRequest<TaskDetails>,
    now: Timestamp,
    outcome: DetailsRequested,
    after: State,
)
    requires
        before.details_requested(request, now, outcome, after),
    ensures
        after == (State { details_watchers: after.details_watchers, ..before }),
        outcome !is Subscribed ==> after == before,
        outcome is Subscribed ==> {
            &&& after.details_watchers_of(request.id).drop_last() == before.details_watchers_of(
                request.id,
            )
            &&& after.details_watchers.remove(request.id) == before.details_watchers.remove(
                request.id,
            )
        },
{
    if outcome is Subscribed {
        assert(after.details_watchers_of(request.id).drop_last() =~= before.details_watchers_of(
            request.id,
        ));
        assert(after.details_watchers.remove(request.id) =~= before.details_watchers.remove(
            request.id,
        ));
    }
}

/// When the clients are gone, nothing is done: no event is taken in, nobody is
/// sent anything, and what is shared with the producers is left alone.
pub proof fn law_nothing_is_done_without_clients(
    before: State,
    now: Timestamp,
    reply: Reply,
    after: State,
)
    requires
        woken(before, Wake::CommandsClosed, now, reply, after),
    ensures
        next_after_wake(before, Wake::CommandsClosed) == Next::Terminate,
        after == before,
{
}

// ==== updates ====

/// An update is sent once: after what is new was published, nothing is new
/// until something happens.
pub proof fn law_nothing_is_published_twice(
    before: State,
    first: Timestamp,
    departed: Departed,
    after: State,
    second: Timestamp,
    dropped: DroppedEvents,
    update: Update,
)
    requires
        before.published(first, departed, after),
        after.is_next_update(second, dropped, update),
    ensures
        update.task_update->0.new_tasks.len() == 0,
        update.task_update->0.stats_update@.is_empty(),
        update.resource_update->0.new_resources.len() == 0,
        update.resource_update->0.stats_update@.is_empty(),
        update.resource_update->0.new_poll_ops.len() == 0,
        update.async_op_update->0.new_async_ops.len() == 0,
        update.async_op_update->0.stats_update@.is_empty(),
        update.new_metadata is None,
{
    lemma_marked_sent_has_no_unsent(before.tasks);
    lemma_marked_sent_has_no_unsent(before.task_stats);
    lemma_marked_sent_has_no_unsent(before.resources);
    lemma_marked_sent_has_no_unsent(before.resource_stats);
    lemma_marked_sent_has_no_unsent(before.async_ops);
    lemma_marked_sent_has_no_unsent(before.async_op_stats);
    lemma_empty_list(after.tasks, update.task_update->0.new_tasks@);
    lemma_empty_list(after.resources, update.resource_update->0.new_resources@);
    lemma_empty_list(after.async_ops, update.async_op_update->0.new_async_ops@);
}

/// Data without marks is not part of an update about what was not sent.
proof fn lemma_marked_sent_has_no_unsent<T: Unsent>(entries: Map<u64, T>)
    ensures
        crate::id_data::unsent_entries(crate::id_data::all_marked_sent(entries)).dom() =~= Set::<
            u64,
        >::empty(),
{
    let marked = crate::id_data::all_marked_sent(entries);
    assert forall|id: u64| marked.contains_key(id) implies !(#[trigger] marked[id]).unsent() by {
        entries[id].lemma_marked_sent();
    }
}

/// No entries, no messages.
proof fn lemma_empty_list<T: ToProto>(entries: Map<u64, T>, messages: Seq<T::Output>)
    requires
        encoded_as_list(included(entries, Include::UpdatedOnly), messages),
        included(entries, Include::UpdatedOnly).dom() =~= Set::<u64>::empty(),
    ensures
        messages.len() == 0,
{
    let unsent = included(entries, Include::UpdatedOnly);
    let ids = choose|ids: Seq<u64>| #[trigger]
        enumerates(ids, unsent.dom()) && encoded_in_order(unsent, ids, messages);
    if ids.len() > 0 {
        assert(ids.to_set().contains(ids[0]));
    }
}

/// Some of `messages` tells of `data`.
pub open spec fn tells_of<T: ToProto>(messages: Seq<T::Output>, data: T) -> bool {
    exists|i: int| 0 <= i < messages.len() && data.encoded_by(#[trigger] messages[i])
}

/// `message` tells of some of `entries`.
pub open spec fn is_told_of<T: ToProto>(entries: Map<u64, T>, message: T::Output) -> bool {
    exists|id: u64| #[trigger] entries.contains_key(id) && entries[id].encoded_by(message)
}

/// `messages` tell of exactly the entities in `entries`, in as many messages
/// as there are entities.
pub open spec fn tells_exactly<T: ToProto>(
    entries: Map<u64, T>,
    messages: Seq<T::Output>,
) -> bool {
    &&& messages.len() == entries.dom().len()
    &&& forall|id: u64| #[trigger]
        entries.contains_key(id) ==> tells_of(messages, entries[id])
    &&& forall|i: int| 0 <= i < messages.len() ==> is_told_of(entries, #[trigger] messages[i])
}

/// A list of the messages about entities tells of exactly these, in as many
/// messages as there are entities.
pub proof fn law_list_tells_exactly<T: ToProto>(entries: Map<u64, T>, messages: Seq<T::Output>)
    requires
        encoded_as_list(entries, messages),
    ensures
        tells_exactly(entries, messages),
{
    let ids = choose|ids: Seq<u64>| #[trigger]
        enumerates(ids, entries.dom()) && encoded_in_order(entries, ids, messages);
    ids.unique_seq_to_set();
    assert forall|id: u64| #[trigger] entries.contains_key(id) implies tells_of(
        messages,
        entries[id],
    ) by {
        assert(ids.to_set().contains(id));
        let i = choose|i: int| 0 <= i < ids.len() && ids[i] == id;
        assert(entries[ids[i]].encoded_by(messages[i]));
    }
    assert forall|i: int| 0 <= i < messages.len() implies is_told_of(
        entries,
        #[trigger] messages[i],
    ) by {
        assert(ids.to_set().contains(ids[i]));
        assert(entries.contains_key(ids[i]));
    }
}

/// No entity is told of twice in one update: its messages have different
/// numbers.
pub proof fn law_no_entity_is_told_of_twice(
    before: State,
    which: Include,
    now: Timestamp,
    dropped: DroppedEvents,
    update: Update,
)
    requires
        before.valid(),
        before.is_update_on_entities(which, now, dropped, update),
    ensures
        ({
            let tasks = update.task_update->0.new_tasks@;
            let resources = update.resource_update->0.new_resources@;
            let async_ops = update.async_op_update->0.new_async_ops@;
            &&& forall|i: int, j: int| 0 <= i < j < tasks.len() ==> tasks[i].id != tasks[j].id
            &&& forall|i: int, j: int|
                0 <= i < j < resources.len() ==> resources[i].id != resources[j].id
            &&& forall|i: int, j: int|
                0 <= i < j < async_ops.len() ==> async_ops[i].id != async_ops[j].id
        }),
{
    let tasks = included(before.tasks, which);
    let resources = included(before.resources, which);
    let async_ops = included(before.async_ops, which);
    let task_ids = lemma_each_message_is_of_one_entity(tasks, update.task_update->0.new_tasks@);
    let resource_ids = lemma_each_message_is_of_one_entity(
        resources,
        update.resource_update->0.new_resources@,
    );
    let async_op_ids = lemma_each_message_is_of_one_entity(
        async_ops,
        update.async_op_update->0.new_async_ops@,
    );
    assert(forall|i: int|
        0 <= i < task_ids.len() ==> before.tasks.contains_key(#[trigger] task_ids[i]));
    assert(forall|i: int|
        0 <= i < resource_ids.len() ==> before.resources.contains_key(#[trigger] resource_ids[i]));
    assert(forall|i: int|
        0 <= i < async_op_ids.len() ==> before.async_ops.contains_key(#[trigger] async_op_ids[i]));
}

/// The numbers of the entities that the messages in a list are of.
proof fn lemma_each_message_is_of_one_entity<T: ToProto>(
    entries: Map<u64, T>,
    messages: Seq<T::Output>,
) -> (ids: Seq<u64>)
    requires
        encoded_as_list(entries, messages),
    ensures
        ids.no_duplicates(),
        ids.len() == messages.len(),
        forall|i: int|
            #![trigger ids[i]]
            #![trigger messages[i]]
            0 <= i < ids.len() ==> entries.contains_key(ids[i]) && entries[ids[i]].encoded_by(
                messages[i],
            ),
{
    let ids = choose|ids: Seq<u64>| #[trigger]
        enumerates(ids, entries.dom()) && encoded_in_order(entries, ids, messages);
    assert forall|i: int|
        #![trigger ids[i]]
        #![trigger messages[i]]
        0 <= i < ids.len() implies entries.contains_key(ids[i]) && entries[ids[i]].encoded_by(
        messages[i],
    ) by {
        assert(ids.to_set().contains(ids[i]));
    }
    ids
}

/// A new subscriber is told of everything: every known task, resource and
/// async operation, the statistics of each, all callsite metadata and all
/// polls of async operations.
pub proof fn law_new_subscriber_learns_everything(
    before: State,
    now: Timestamp,
    dropped: DroppedEvents,
    update: Update,
)
    requires
        before.is_initial_update(now, dropped, update),
    ensures
        tells_exactly(before.tasks, update.task_update->0.new_tasks@),
        tells_exactly(before.resources, update.resource_update->0.new_resources@),
        tells_exactly(before.async_ops, update.async_op_update->0.new_async_ops@),
        update.task_update->0.stats_update@.dom() == before.task_stats.dom(),
        update.resource_update->0.stats_update@.dom() == before.resource_stats.dom(),
        update.async_op_update->0.stats_update@.dom() == before.async_op_stats.dom(),
        update.new_metadata->0.metadata@ == before.all_metadata,
        update.resource_update->0.new_poll_ops@ == before.all_poll_ops,
{
    law_list_tells_exactly(before.tasks, update.task_update->0.new_tasks@);
    law_list_tells_exactly(before.resources, update.resource_update->0.new_resources@);
    law_list_tells_exactly(before.async_ops, update.async_op_update->0.new_async_ops@);
}

/// The last of the states that follow `before`.
pub open spec fn last_state(before: State, states: Seq<State>) -> State {
    if states.len() == 0 {
        before
    } else {
        states.last()
    }
}

/// The aggregator goes from `before` through `states`, one after the other,
/// without publishing.
pub open spec fn quiet_run(before: State, states: Seq<State>) -> bool
    decreases states.len(),
{
    states.len() > 0 ==> {
        &&& quiet_run(before, states.drop_last())
        &&& quiet_step(last_state(before, states.drop_last()), states.last())
    }
}

/// The callsite metadata in an update.
pub open spec fn metadata_in(update: Update) -> Seq<NewMetadata> {
    match update.new_metadata {
        Some(registered) => registered.metadata@,
        None => Seq::empty(),
    }
}

/// What was added to what is known was added to what is new, and nothing was
/// taken from either.
pub(crate) open spec fn grew_alike<A>(
    all_before: Seq<A>,
    new_before: Seq<A>,
    all_after: Seq<A>,
    new_after: Seq<A>,
) -> bool {
    &&& new_before.is_prefix_of(new_after)
    &&& all_after == all_before + new_after.skip(new_before.len() as int)
}

/// Growing by one item each carries on with growing alike.
proof fn lemma_grow_alike<A>(
    all_before: Seq<A>,
    new_before: Seq<A>,
    all: Seq<A>,
    new: Seq<A>,
)
    requires
        grew_alike(all_before, new_before, all, new),
    ensures
        forall|item: A|
            grew_alike(all_before, new_before, #[trigger] all.push(item), new.push(item)),
{
    assert forall|item: A|
        grew_alike(all_before, new_before, #[trigger] all.push(item), new.push(item)) by {
        assert(all.push(item) =~= all_before + new.push(item).skip(new_before.len() as int));
    }
}

/// While nothing is published, what becomes known is new.
pub(crate) proof fn lemma_quiet_run_grows_alike(before: State, states: Seq<State>)
    requires
        quiet_run(before, states),
    ensures
        ({
            let after = last_state(before, states);
            &&& grew_alike(
                before.all_metadata,
                before.new_metadata,
                after.all_metadata,
                after.new_metadata,
            )
            &&& grew_alike(
                before.all_poll_ops,
                before.new_poll_ops,
                after.all_poll_ops,
                after.new_poll_ops,
            )
        }),
    decreases states.len(),
{
    if states.len() > 0 {
        let earlier = last_state(before, states.drop_last());
        lemma_quiet_run_grows_alike(before, states.drop_last());
        lemma_grow_alike(
            before.all_metadata,
            before.new_metadata,
            earlier.all_metadata,
            earlier.new_metadata,
        );
        lemma_grow_alike(
            before.all_poll_ops,
            before.new_poll_ops,
            earlier.all_poll_ops,
            earlier.new_poll_ops,
        );
    } else {
        assert(before.all_metadata =~= before.all_metadata + before.new_metadata.skip(
            before.new_metadata.len() as int,
        ));
        assert(before.all_poll_ops =~= before.all_poll_ops + before.new_poll_ops.skip(
            before.new_poll_ops.len() as int,
        ));
    }
}

/// A subscriber misses nothing between its first update and the next: what the
/// two tell of callsite metadata and of polls, without what they both tell, is
/// all there is.
pub proof fn law_next_update_continues_initial_update(
    before: State,
    states: Seq<State>,
    first: Timestamp,
    first_dropped: DroppedEvents,
    initial: Update,
    second: Timestamp,
    second_dropped: DroppedEvents,
    next: Update,
)
    requires
        before.is_initial_update(first, first_dropped, initial),
        quiet_run(before, states),
        last_state(before, states).is_next_update(second, second_dropped, next),
    ensures
        last_state(before, states).all_metadata == metadata_in(initial) + metadata_in(next).skip(
            before.new_metadata.len() as int,
        ),
        last_state(before, states).all_poll_ops == initial.resource_update->0.new_poll_ops@
            + next.resource_update->0.new_poll_ops@.skip(before.new_poll_ops.len() as int),
{
    lemma_quiet_run_grows_alike(before, states);
    assert(metadata_in(next) =~= last_state(before, states).new_metadata);
}

/// From one publish to the next nothing is missed or repeated: the next update
/// tells of exactly the callsite metadata and the polls that became known since
/// the last one.
pub proof fn law_next_update_continues_last_update(
    before: State,
    first: Timestamp,
    departed: Departed,
    between: State,
    states: Seq<State>,
    second: Timestamp,
    dropped: DroppedEvents,
    next: Update,
)
    requires
        before.published(first, departed, between),
        quiet_run(between, states),
        last_state(between, states).is_next_update(second, dropped, next),
    ensures
        last_state(between, states).all_metadata == before.all_metadata + metadata_in(next),
        last_state(between, states).all_poll_ops == before.all_poll_ops
            + next.resource_update->0.new_poll_ops@,
{
    let after = last_state(between, states);
    lemma_quiet_run_grows_alike(between, states);
    assert(metadata_in(next) =~= after.new_metadata);
    assert(after.new_metadata.skip(0) =~= after.new_metadata);
    assert(after.new_poll_ops.skip(0) =~= after.new_poll_ops);
}

/// What is known of an entity afterwards is marked, or is as it was.
pub(crate) open spec fn marked_or_unchanged<T: Unsent>(
    before: Map<u64, T>,
    after: Map<u64, T>,
) -> bool {
    forall|id: u64| #[trigger]
        after.contains_key(id) ==> after[id].unsent() || before.contains_key(id) && after[id]
            == before[id]
}

/// While nothing is published, an entity that is not marked is as it was.
proof fn lemma_quiet_run_marks_entities(before: State, states: Seq<State>)
    requires
        quiet_run(before, states),
    ensures
        ({
            let after = last_state(before, states);
            &&& marked_or_unchanged(before.tasks, after.tasks)
            &&& marked_or_unchanged(before.resources, after.resources)
            &&& marked_or_unchanged(before.async_ops, after.async_ops)
        }),
    decreases states.len(),
{
    if states.len() > 0 {
        lemma_quiet_run_marks_entities(before, states.drop_last());
        lemma_quiet_step_marks_entities(last_state(before, states.drop_last()), states.last());
    }
}

/// One step other than publishing leaves an entity as it was, or marked.
proof fn lemma_quiet_step_marks_entities(before: State, after: State)
    requires
        quiet_step(before, after),
    ensures
        marked_or_unchanged(before.tasks, after.tasks),
        marked_or_unchanged(before.resources, after.resources),
        marked_or_unchanged(before.async_ops, after.async_ops),
{
}

/// Every entity in `after` is told of by some of `messages`, or is as it was in
/// `before`.
pub open spec fn told_or_unchanged<T: ToProto>(
    before: Map<u64, T>,
    after: Map<u64, T>,
    messages: Seq<T::Output>,
) -> bool {
    forall|id: u64| #[trigger]
        after.contains_key(id) ==> tells_of(messages, after[id]) || before.contains_key(id)
            && after[id] == before[id]
}

/// What is marked is told of by those messages that tell of all that is marked.
proof fn lemma_told_or_unchanged<T: ToProto + Unsent>(
    before: Map<u64, T>,
    after: Map<u64, T>,
    messages: Seq<T::Output>,
)
    requires
        marked_or_unchanged(before, after),
        tells_exactly(included(after, Include::UpdatedOnly), messages),
    ensures
        told_or_unchanged(before, after, messages),
{
    assert forall|id: u64| #[trigger] after.contains_key(id) implies tells_of(messages, after[id])
        || before.contains_key(id) && after[id] == before[id] by {
        if after[id].unsent() {
            assert(included(after, Include::UpdatedOnly).contains_key(id));
        }
    }
}

/// Every entity is told of by some of `first` or of `second`.
pub open spec fn told_by_either<T: ToProto>(
    entries: Map<u64, T>,
    first: Seq<T::Output>,
    second: Seq<T::Output>,
) -> bool {
    forall|id: u64| #[trigger]
        entries.contains_key(id) ==> tells_of(first, entries[id]) || tells_of(second, entries[id])
}

/// A subscriber misses no entity between its first update and the next: every
/// task, resource and async operation that is known by then was told of by
/// one of the two.
pub proof fn law_no_entity_is_missed(
    before: State,
    states: Seq<State>,
    first: Timestamp,
    first_dropped: DroppedEvents,
    initial: Update,
    second: Timestamp,
    second_dropped: DroppedEvents,
    next: Update,
)
    requires
        before.is_initial_update(first, first_dropped, initial),
        quiet_run(before, states),
        last_state(before, states).is_next_update(second, second_dropped, next),
    ensures
        ({
            let after = last_state(before, states);
            &&& told_by_either(
                after.tasks,
                initial.task_update->0.new_tasks@,
                next.task_update->0.new_tasks@,
            )
            &&& told_by_either(
                after.resources,
                initial.resource_update->0.new_resources@,
                next.resource_update->0.new_resources@,
            )
            &&& told_by_either(
                after.async_ops,
                initial.async_op_update->0.new_async_ops@,
                next.async_op_update->0.new_async_ops@,
            )
        }),
{
    law_new_subscriber_learns_everything(before, first, first_dropped, initial);
    law_no_entity_is_missed_later(before, states, second, second_dropped, next);
}

/// From one publish to the next no entity is missed: whatever happens after
/// `between`, the next update tells of every task, resource and async operation
/// that is not as it was.
pub proof fn law_no_entity_is_missed_later(
    between: State,
    states: Seq<State>,
    now: Timestamp,
    dropped: DroppedEvents,
    next: Update,
)
    requires
        quiet_run(between, states),
        last_state(between, states).is_next_update(now, dropped, next),
    ensures
        ({
            let after = last_state(between, states);
            &&& told_or_unchanged(between.tasks, after.tasks, next.task_update->0.new_tasks@)
            &&& told_or_unchanged(
                between.resources,
                after.resources,
                next.resource_update->0.new_resources@,
            )
            &&& told_or_unchanged(
                between.async_ops,
                after.async_ops,
                next.async_op_update->0.new_async_ops@,
            )
        }),
{
    let after = last_state(between, states);
    lemma_quiet_run_marks_entities(between, states);
    law_next_update_tells_of_all_marked(after, now, dropped, next);
    lemma_told_or_unchanged(between.tasks, after.tasks, next.task_update->0.new_tasks@);
    lemma_told_or_unchanged(
        between.resources,
        after.resources,
        next.resource_update->0.new_resources@,
    );
    lemma_told_or_unchanged(
        between.async_ops,
        after.async_ops,
        next.async_op_update->0.new_async_ops@,
    );
}

/// An update tells of exactly the entities that are marked.
pub proof fn law_next_update_tells_of_all_marked(
    before: State,
    now: Timestamp,
    dropped: DroppedEvents,
    update: Update,
)
    requires
        before.is_next_update(now, dropped, update),
    ensures
        tells_exactly(
            included(before.tasks, Include::UpdatedOnly),
            update.task_update->0.new_tasks@,
        ),
        tells_exactly(
            included(before.resources, Include::UpdatedOnly),
            update.resource_update->0.new_resources@,
        ),
        tells_exactly(
            included(before.async_ops, Include::UpdatedOnly),
            update.async_op_update->0.new_async_ops@,
        ),
{
    let which = Include::UpdatedOnly;
    law_list_tells_exactly(included(before.tasks, which), update.task_update->0.new_tasks@);
    law_list_tells_exactly(
        included(before.resources, which),
        update.resource_update->0.new_resources@,
    );
    law_list_tells_exactly(
        included(before.async_ops, which),
        update.async_op_update->0.new_async_ops@,
    );
}

// ==== subscribers ====

/// The places of the flags that are set, in their order.
pub open spec fn set_flags(flags: Seq<bool>) -> Seq<int>
    decreases flags.len(),
{
    if flags.len() == 0 {
        Seq::empty()
    } else if flags.last() {
        set_flags(flags.drop_last()).push(flags.len() - 1)
    } else {
        set_flags(flags.drop_last())
    }
}

/// What is selected stands at the places of the flags that are set.
proof fn lemma_select_by_place<A>(items: Seq<A>, flags: Seq<bool>)
    requires
        items.len() == flags.len(),
    ensures
        ({
            let places = set_flags(flags);
            &&& select(items, flags).len() == places.len()
            &&& forall|j: int|
                #![trigger places[j]]
                0 <= j < places.len() ==> {
                    &&& 0 <= places[j] < items.len()
                    &&& flags[places[j]]
                    &&& select(items, flags)[j] == items[places[j]]
                }
            &&& forall|j: int, k: int| 0 <= j < k < places.len() ==> places[j] < places[k]
        }),
    decreases items.len(),
{
    if items.len() > 0 {
        lemma_select_by_place(items.drop_last(), flags.drop_last());
        let fewer = set_flags(flags.drop_last());
        let places = set_flags(flags);
        assert forall|j: int|
            #![trigger places[j]]
            0 <= j < places.len() implies 0 <= places[j] < items.len() && flags[places[j]]
            && select(items, flags)[j] == items[places[j]] by {
            if j < fewer.len() {
                assert(places[j] == fewer[j]);
                assert(flags.drop_last()[fewer[j]]);
            }
        }
        assert forall|j: int, k: int| 0 <= j < k < places.len() implies places[j] < places[k] by {
            if k < fewer.len() {
                assert(fewer[j] < fewer[k]);
            } else {
                assert(places[j] == fewer[j]);
            }
        }
    }
}

/// `after` are some of the subscribers `before`, in the same order, each of
/// which was sent `update` and nothing else.
pub open spec fn each_was_sent<T>(
    before: Seq<Watch<T>>,
    update: Arc<T>,
    after: Seq<Watch<T>>,
    places: Seq<int>,
) -> bool {
    &&& places.len() == after.len()
    &&& forall|j: int, k: int| 0 <= j < k < places.len() ==> places[j] < places[k]
    &&& forall|j: int|
        #![trigger places[j]]
        0 <= j < places.len() ==> 0 <= places[j] < before.len() && accepts(
            before[places[j]],
            update,
            after[j],
        )
}

/// Publishing drops subscribers, but neither adds nor reorders them, and who
/// stays was sent the update. All get the same one.
pub proof fn law_who_stays_was_sent_the_update<T>(
    before: Seq<Watch<T>>,
    update: Arc<T>,
    after: Seq<Watch<T>>,
    dropped: Seq<Watch<T>>,
)
    requires
        delivered(before, update, after, dropped),
    ensures
        after.len() <= before.len(),
        exists|places: Seq<int>| each_was_sent(before, update, after, places),
{
    let (flags, all) = choose|flags: Seq<bool>, all: Seq<Watch<T>>|
        {
            &&& #[trigger] offered(before, flags, update, all)
            &&& after == select(all, flags)
            &&& dropped == select(all, negated(flags))
        };
    lemma_select_by_place(all, flags);
    lemma_select_is_shorter(all, flags);
    let places = set_flags(flags);
    assert forall|j: int|
        #![trigger places[j]]
        0 <= j < places.len() implies 0 <= places[j] < before.len() && accepts(
        before[places[j]],
        update,
        after[j],
    ) by {
        assert(all[places[j]] == after[j]);
    }
    assert(each_was_sent(before, update, after, places));
}

/// No more is selected than there is.
proof fn lemma_select_is_shorter<A>(items: Seq<A>, flags: Seq<bool>)
    requires
        items.len() == flags.len(),
    ensures
        select(items, flags).len() <= items.len(),
    decreases items.len(),
{
    if items.len() > 0 {
        lemma_select_is_shorter(items.drop_last(), flags.drop_last());
    }
}

/// Where an item stands in what is selected: behind those before it that have
/// a flag.
spec fn place_in_selection(flags: Seq<bool>, i: int) -> int {
    set_flags(flags.take(i)).len() as int
}

/// What has a flag is selected.
proof fn lemma_flagged_is_selected<A>(items: Seq<A>, flags: Seq<bool>, i: int)
    requires
        items.len() == flags.len(),
        0 <= i < items.len(),
        flags[i],
    ensures
        0 <= place_in_selection(flags, i) < select(items, flags).len(),
        select(items, flags)[place_in_selection(flags, i)] == items[i],
    decreases items.len(),
{
    let fewer = flags.drop_last();
    if i < items.len() - 1 {
        lemma_flagged_is_selected(items.drop_last(), fewer, i);
        assert(fewer.take(i) =~= flags.take(i));
    } else {
        lemma_select_by_place(items.drop_last(), fewer);
        assert(flags.take(i) =~= fewer);
    }
}

/// Who has a flag and who has none are all.
proof fn lemma_selections_are_all<A>(items: Seq<A>, flags: Seq<bool>)
    requires
        items.len() == flags.len(),
    ensures
        select(items, flags).len() + select(items, negated(flags)).len() == items.len(),
    decreases items.len(),
{
    if items.len() > 0 {
        assert(negated(flags).drop_last() =~= negated(flags.drop_last()));
        lemma_selections_are_all(items.drop_last(), flags.drop_last());
    }
}

/// Some of `after` is the subscriber `before`, which was sent `update` and
/// nothing else.
pub open spec fn stayed<T>(before: Watch<T>, update: Arc<T>, after: Seq<Watch<T>>) -> bool {
    exists|j: int| 0 <= j < after.len() && accepts(before, update, #[trigger] after[j])
}

/// Nobody is dropped who accepts: each subscriber either stays and was sent the
/// update, or is dropped as it was because its own channel had no place.
pub proof fn law_nobody_who_accepts_is_dropped<T>(
    before: Seq<Watch<T>>,
    update: Arc<T>,
    kept: Seq<Watch<T>>,
    dropped: Seq<Watch<T>>,
)
    requires
        delivered(before, update, kept, dropped),
    ensures
        kept.len() + dropped.len() == before.len(),
        forall|i: int|
            #![trigger before[i]]
            0 <= i < before.len() ==> {
                ||| stayed(before[i], update, kept)
                ||| refused(before[i].channel()) && dropped.contains(before[i])
            },
{
    let (flags, all) = choose|flags: Seq<bool>, all: Seq<Watch<T>>|
        {
            &&& #[trigger] offered(before, flags, update, all)
            &&& kept == select(all, flags)
            &&& dropped == select(all, negated(flags))
        };
    lemma_selections_are_all(all, flags);
    assert forall|i: int| #![trigger before[i]] 0 <= i < before.len() implies {
        ||| stayed(before[i], update, kept)
        ||| refused(before[i].channel()) && dropped.contains(before[i])
    } by {
        if flags[i] {
            lemma_flagged_is_selected(all, flags, i);
            let j = place_in_selection(flags, i);
            assert(accepts(before[i], update, all[i]));
            assert(accepts(before[i], update, kept[j]));
        } else {
            assert(refuses(before[i], all[i]));
            lemma_flagged_is_selected(all, negated(flags), i);
        }
    }
}

/// Where nobody is dropped, all stay in their places and were sent the update.
pub proof fn law_all_stay_where_nobody_is_dropped<T>(
    before: Seq<Watch<T>>,
    update: Arc<T>,
    kept: Seq<Watch<T>>,
    dropped: Seq<Watch<T>>,
)
    requires
        delivered(before, update, kept, dropped),
        dropped.len() == 0,
    ensures
        kept.len() == before.len(),
        forall|i: int|
            #![trigger kept[i]]
            0 <= i < before.len() ==> accepts(before[i], update, kept[i]),
{
    let (flags, all) = choose|flags: Seq<bool>, all: Seq<Watch<T>>|
        {
            &&& #[trigger] offered(before, flags, update, all)
            &&& kept == select(all, flags)
            &&& dropped == select(all, negated(flags))
        };
    assert forall|i: int| 0 <= i < flags.len() implies flags[i] by {
        if !flags[i] {
            lemma_flagged_is_selected(all, negated(flags), i);
        }
    }
    lemma_all_are_selected(all, flags);
}

/// When all have a flag, all are selected.
proof fn lemma_all_are_selected<A>(items: Seq<A>, flags: Seq<bool>)
    requires
        items.len() == flags.len(),
        forall|i: int| 0 <= i < flags.len() ==> flags[i],
    ensures
        select(items, flags) == items,
    decreases items.len(),
{
    if items.len() > 0 {
        lemma_all_are_selected(items.drop_last(), flags.drop_last());
        assert(items.drop_last().push(items.last()) =~= items);
    } else {
        assert(select(items, flags) =~= items);
    }
}

/// The subscribers to a task that is not known any more are dropped when
/// details are published, and nothing is sent to them: they leave as they were.
pub proof fn law_subscribers_of_forgotten_tasks_are_sent_nothing(
    before: State,
    now: Timestamp,
    departed: Departed,
    after: State,
    id: u64,
)
    requires
        before.published(now, departed, after),
        before.details_watchers.contains_key(id),
        !before.task_stats.contains_key(id),
    ensures
        !after.details_watchers.contains_key(id),
        holds_list(departed.details_watchers, id, before.details_watchers[id]),
{
    assert(details_published_of(
        before.details_watchers,
        before.task_stats,
        now,
        after.details_watchers,
        departed.details_watchers,
        id,
    ));
}

/// After details were published, only tasks that are known are watched, and
/// each of them by somebody.
pub proof fn law_only_known_tasks_stay_watched(
    before: State,
    now: Timestamp,
    departed: Departed,
    after: State,
)
    requires
        before.published(now, departed, after),
    ensures
        forall|id: u64| #[trigger]
            after.details_watchers.contains_key(id) ==> {
                &&& before.details_watchers.contains_key(id)
                &&& after.task_stats.contains_key(id)
                &&& after.details_watchers[id].len() > 0
            },
{
    assert forall|id: u64| #[trigger] after.details_watchers.contains_key(id) implies {
        &&& before.details_watchers.contains_key(id)
        &&& after.task_stats.contains_key(id)
        &&& after.details_watchers[id].len() > 0
    } by {
        assert(details_published_of(
            before.details_watchers,
            before.task_stats,
            now,
            after.details_watchers,
            departed.details_watchers,
            id,
        ));
    }
}

/// A new subscriber takes nothing away from the others: what is new for them
/// is still new, and nothing was sent to them.
pub proof fn law_subscribing_leaves_others_alone(
    before: State,
    subscription: Watch<Update>,
    now: Timestamp,
    turned_away: Option<Released<Watch<Update>>>,
    after: State,
)
    requires
        before.subscribed(subscription, now, turned_away, after),
    ensures
        after.watchers.take(before.watchers.len() as int) == before.watchers,
        after.watchers.len() == before.watchers.len() + if turned_away is None {
            1int
        } else {
            0int
        },
        after.details_watchers == before.details_watchers,
        forall|later: Timestamp, dropped: DroppedEvents, update: Update|
            after.is_next_update(later, dropped, update) == #[trigger] before.is_next_update(
                later,
                dropped,
                update,
            ),
{
    assert(after.watchers.take(before.watchers.len() as int) =~= before.watchers);
}

// ==== pausing ====

/// Only the publish interval makes an update due, and not while the aggregator
/// is paused.
pub proof fn law_update_is_due_on_live_tick_only(before: State, wake: Wake, cycle: Cycle)
    requires
        next_after_wake(before, wake) == Next::Drain(cycle),
    ensures
        cycle.should_send <==> wake is Tick && before.temporality == Temporality::Live,
        !cycle.drained,
{
}

/// A cycle in which no update is due sends nothing to anybody, what is new stays
/// new, and the counts of lost events are left alone. So does one in which
/// nobody subscribed to updates, whoever subscribed to details.
pub proof fn law_nothing_is_sent_unless_due(
    before: State,
    cycle: Cycle,
    published_at: Timestamp,
    between: State,
    cleaned_at: Timestamp,
    flushed: Option<Exchange>,
    after: State,
)
    requires
        published_if_due(before, cycle, published_at, between),
        finished(between, cycle, cleaned_at, flushed, after),
        !cycle.should_send || before.watchers.len() == 0,
    ensures
        between == before,
        after == (State { deeds: after.deeds, ..before.cleaned(cleaned_at) }),
        after.watchers == before.watchers,
        after.details_watchers == before.details_watchers,
        after.new_metadata == before.new_metadata,
        after.new_poll_ops == before.new_poll_ops,
        !cycle.drained ==> after.deeds == before.deeds,
{
}

/// Resuming undoes pausing.
pub proof fn law_resuming_undoes_pausing(
    before: State,
    first: Timestamp,
    first_reply: Reply,
    paused: State,
    second: Timestamp,
    second_reply: Reply,
    after: State,
)
    requires
        before.temporality == Temporality::Live,
        woken(before, Wake::Command(Command::Pause), first, first_reply, paused),
        woken(paused, Wake::Command(Command::Resume), second, second_reply, after),
    ensures
        after == before,
{
}

/// Pausing, as well as resuming, a second time changes nothing more.
pub proof fn law_pausing_twice_is_pausing_once(
    before: State,
    first: Timestamp,
    first_reply: Reply,
    once: State,
    second: Timestamp,
    second_reply: Reply,
    twice: State,
    command: Command,
)
    requires
        command is Pause || command is Resume,
        woken(before, Wake::Command(command), first, first_reply, once),
        woken(once, Wake::Command(command), second, second_reply, twice),
    ensures
        twice == once,
{
}

// ==== dropping what is not needed any more ====

/// What is still needed is kept as it is: the statistics of entities that have
/// not ended, that ended not longer ago than the retention, and, while there
/// are subscribers, of those whose final statistics were not sent.
pub proof fn law_needed_statistics_are_kept<R: DroppedAt + Unsent>(
    stats: Map<u64, R>,
    now: Timestamp,
    retention: u128,
    has_watchers: bool,
    id: u64,
)
    requires
        stats.contains_key(id),
        stats[id].dropped_at_spec() matches Some(dropped_at) ==> {
            ||| crate::time::elapsed(dropped_at, now) <= retention
            ||| has_watchers && stats[id].unsent()
        },
    ensures
        retained(stats, now, retention, has_watchers).contains_key(id),
        retained(stats, now, retention, has_watchers)[id] == stats[id],
{
}

/// What is not needed any more is dropped: the statistics of entities that
/// ended longer ago than the retention, once they were sent or when there is
/// nobody to send them to.
pub proof fn law_expired_statistics_are_dropped<R: DroppedAt + Unsent>(
    stats: Map<u64, R>,
    now: Timestamp,
    retention: u128,
    has_watchers: bool,
    id: u64,
)
    requires
        stats[id].dropped_at_spec() matches Some(dropped_at) && crate::time::elapsed(
            dropped_at,
            now,
        ) > retention,
        !has_watchers || !stats[id].unsent(),
    ensures
        !retained(stats, now, retention, has_watchers).contains_key(id),
{
    assert(expired(stats[id], now, retention, has_watchers));
}

/// An entity is dropped together with its statistics and never without them.
pub proof fn law_entities_go_with_their_statistics(before: State, now: Timestamp)
    requires
        before.valid(),
    ensures
        forall|id: u64| #[trigger]
            before.tasks.contains_key(id) ==> before.cleaned(now).tasks.contains_key(id)
                == before.cleaned(now).task_stats.contains_key(id),
        forall|id: u64| #[trigger]
            before.resources.contains_key(id) ==> before.cleaned(now).resources.contains_key(id)
                == before.cleaned(now).resource_stats.contains_key(id),
        forall|id: u64| #[trigger]
            before.async_ops.contains_key(id) ==> before.cleaned(now).async_ops.contains_key(id)
                == before.cleaned(now).async_op_stats.contains_key(id),
{
}

/// Cleaning a second time at the same time drops nothing more.
pub proof fn law_cleaning_twice_is_cleaning_once(before: State, now: Timestamp)
    ensures
        before.cleaned(now).cleaned(now) == before.cleaned(now),
{
    let once = before.cleaned(now);
    let twice = once.cleaned(now);
    assert(twice.task_stats =~= once.task_stats);
    assert(twice.resource_stats =~= once.resource_stats);
    assert(twice.async_op_stats =~= once.async_op_stats);
    assert(twice.tasks =~= once.tasks);
    assert(twice.resources =~= once.resources);
    assert(twice.async_ops =~= once.async_ops);
    assert(twice =~= once);
}

/// Final statistics reach the subscribers before they are dropped: statistics
/// that were not sent survive the cleaning of a cycle that does not publish, if
/// there are subscribers.
pub proof fn law_unsent_statistics_survive_until_published(
    before: State,
    cycle: Cycle,
    published_at: Timestamp,
    between: State,
    cleaned_at: Timestamp,
    flushed: Option<Exchange>,
    after: State,
)
    requires
        published_if_due(before, cycle, published_at, between),
        finished(between, cycle, cleaned_at, flushed, after),
        !cycle.should_send,
        before.watchers.len() > 0,
    ensures
        forall|id: u64| #[trigger]
            before.task_stats.contains_key(id) && before.task_stats[id].unsent()
                ==> after.task_stats.contains_key(id) && after.task_stats[id]
                == before.task_stats[id],
        forall|id: u64| #[trigger]
            before.resource_stats.contains_key(id) && before.resource_stats[id].unsent()
                ==> after.resource_stats.contains_key(id) && after.resource_stats[id]
                == before.resource_stats[id],
        forall|id: u64| #[trigger]
            before.async_op_stats.contains_key(id) && before.async_op_stats[id].unsent()
                ==> after.async_op_stats.contains_key(id) && after.async_op_stats[id]
                == before.async_op_stats[id],
{
}

/// Statistics that were not sent, final ones among them, are sent by the next
/// update, as they are.
pub proof fn law_unsent_statistics_are_published(
    before: State,
    now: Timestamp,
    dropped: DroppedEvents,
    update: Update,
    id: u64,
)
    requires
        before.is_next_update(now, dropped, update),
    ensures
        before.task_stats.contains_key(id) && before.task_stats[id].unsent()
            ==> update.task_update->0.stats_update@.contains_key(id)
            && update.task_update->0.stats_update@[id] == before.task_stats[id].message,
        before.resource_stats.contains_key(id) && before.resource_stats[id].unsent()
            ==> update.resource_update->0.stats_update@.contains_key(id)
            && update.resource_update->0.stats_update@[id] == before.resource_stats[id].message,
        before.async_op_stats.contains_key(id) && before.async_op_stats[id].unsent()
            ==> update.async_op_update->0.stats_update@.contains_key(id)
            && update.async_op_update->0.stats_update@[id] == before.async_op_stats[id].message,
{
    let which = Include::UpdatedOnly;
    if before.task_stats.contains_key(id) && before.task_stats[id].unsent() {
        assert(included(before.task_stats, which).contains_key(id));
        assert(update.task_update->0.stats_update@.contains_key(id));
    }
    if before.resource_stats.contains_key(id) && before.resource_stats[id].unsent() {
        assert(included(before.resource_stats, which).contains_key(id));
        assert(update.resource_update->0.stats_update@.contains_key(id));
    }
    if before.async_op_stats.contains_key(id) && before.async_op_stats[id].unsent() {
        assert(included(before.async_op_stats, which).contains_key(id));
        assert(update.async_op_update->0.stats_update@.contains_key(id));
    }
}

// ==== observations ====

/// What an observation found to be new stays new until it is published, even
/// if a later one finds nothing new. Apart from that the later one counts.
pub proof fn law_observing_forgets_no_news<S: Observed>(
    stats: Map<u64, S>,
    id: u64,
    newer: S,
    message: S::Output,
)
    requires
        stats.contains_key(id),
    ensures
        observed(stats, id, newer).dom() == stats.dom(),
        observed(stats, id, newer)[id].unsent() == (stats[id].unsent() || newer.unsent()),
        observed(stats, id, newer)[id].dropped_at_spec() == newer.dropped_at_spec(),
        observed(stats, id, newer)[id].encoded_by(message) == newer.encoded_by(message),
{
    stats[id].lemma_absorbed(newer);
    assert(observed(stats, id, newer).dom() =~= stats.dom());
}

// ==== requests to drain ====

/// What happens to the flag by which draining is asked for.
pub enum FlagOp {
    /// Somebody asks for the buffer to be drained.
    Trigger,
    /// The buffer was drained.
    Flushed,
}

/// The flag after `op`.
pub open spec fn flag_after(flag: bool, op: FlagOp) -> bool {
    match op {
        FlagOp::Trigger => attempt(flag, false, true).after,
        FlagOp::Flushed => attempt(flag, true, false).after,
    }
}

/// The flag after `ops`, one after the other.
pub open spec fn flag_after_all(flag: bool, ops: Seq<FlagOp>) -> bool
    decreases ops.len(),
{
    if ops.len() == 0 {
        flag
    } else {
        flag_after(flag_after_all(flag, ops.drop_last()), ops.last())
    }
}

/// How many of `ops` wake the aggregator.
pub open spec fn wakeups(flag: bool, ops: Seq<FlagOp>) -> nat
    decreases ops.len(),
{
    if ops.len() == 0 {
        0
    } else {
        wakeups(flag, ops.drop_last()) + if ops.last() is Trigger && !flag_after_all(
            flag,
            ops.drop_last(),
        ) {
            1nat
        } else {
            0nat
        }
    }
}

/// How many of `ops` clear a flag that was set.
pub open spec fn clearings(flag: bool, ops: Seq<FlagOp>) -> nat
    decreases ops.len(),
{
    if ops.len() == 0 {
        0
    } else {
        clearings(flag, ops.drop_last()) + if ops.last() is Flushed && flag_after_all(
            flag,
            ops.drop_last(),
        ) {
            1nat
        } else {
            0nat
        }
    }
}

/// However often draining is asked for, the aggregator is woken once until the
/// buffer was drained: in any order of events, wake-ups and drainings take
/// turns, and the flag is set exactly while a wake-up was not answered.
pub proof fn law_one_wakeup_per_draining(ops: Seq<FlagOp>)
    ensures
        wakeups(false, ops) == clearings(false, ops) + if flag_after_all(false, ops) {
            1nat
        } else {
            0nat
        },
    decreases ops.len(),
{
    if ops.len() > 0 {
        law_one_wakeup_per_draining(ops.drop_last());
    }
}

/// How many wake-ups were given.
pub open spec fn wakeups_in(deeds: Seq<Deed>) -> nat
    decreases deeds.len(),
{
    if deeds.len() == 0 {
        0
    } else {
        wakeups_in(deeds.drop_last()) + if deeds.last() is Woke {
            1nat
        } else {
            0nat
        }
    }
}

/// One more deed counts if it is a wake-up.
pub(crate) proof fn lemma_wakeups_grow(deeds: Seq<Deed>, deed: Deed)
    ensures
        wakeups_in(deeds.push(deed)) == wakeups_in(deeds) + if deed is Woke {
            1nat
        } else {
            0nat
        },
{
    assert(deeds.push(deed).drop_last() =~= deeds);
}

/// A request gives one wake-up if it sets the flag, and none otherwise.
proof fn lemma_wakeups_by_asking(before: Seq<Deed>, exchange: Exchange, after: Seq<Deed>)
    requires
        asked(before, exchange, after),
    ensures
        wakeups_in(after) == wakeups_in(before) + if exchange.before {
            0nat
        } else {
            1nat
        },
{
    let answer = choose|answer: Result<bool, bool>|
        {
            &&& exchange == #[trigger] reading(false, true, answer)
            &&& after == if !exchange.before {
                before.push(Deed::Exchanged { current: false, new: true, answer }).push(Deed::Woke)
            } else {
                before.push(Deed::Exchanged { current: false, new: true, answer })
            }
        };
    let deed = Deed::Exchanged { current: false, new: true, answer };
    lemma_wakeups_grow(before, deed);
    lemma_wakeups_grow(before.push(deed), Deed::Woke);
}

/// Saying that the buffer was drained gives no wake-up.
pub(crate) proof fn lemma_wakeups_by_draining(before: Seq<Deed>, exchange: Exchange, after: Seq<Deed>)
    requires
        drained(before, exchange, after),
    ensures
        wakeups_in(after) == wakeups_in(before),
{
    let answer = choose|answer: Result<bool, bool>|
        {
            &&& exchange == #[trigger] reading(true, false, answer)
            &&& after == before.push(Deed::Exchanged { current: true, new: false, answer })
        };
    lemma_wakeups_grow(before, Deed::Exchanged { current: true, new: false, answer });
}

/// Asking a second time gives no wake-up, if nobody changed the flag since the
/// first time. The first time gives one, unless the flag was set.
pub proof fn law_asking_twice_wakes_once(
    start: Seq<Deed>,
    first: Exchange,
    between: Seq<Deed>,
    second: Exchange,
    end: Seq<Deed>,
)
    requires
        asked(start, first, between),
        asked(between, second, end),
        second.before == first.after,
    ensures
        second.after,
        wakeups_in(between) == wakeups_in(start) + if first.before {
            0nat
        } else {
            1nat
        },
        wakeups_in(end) == wakeups_in(between),
{
    lemma_wakeups_by_asking(start, first, between);
    lemma_wakeups_by_asking(between, second, end);
}

/// Saying that the buffer was drained gives no wake-up, and the next request
/// gives one again, if nobody changed the flag in between.
pub proof fn law_draining_wakes_nobody_and_allows_the_next_request(
    start: Seq<Deed>,
    first: Exchange,
    between: Seq<Deed>,
    second: Exchange,
    end: Seq<Deed>,
)
    requires
        drained(start, first, between),
        asked(between, second, end),
        second.before == first.after,
    ensures
        wakeups_in(between) == wakeups_in(start),
        wakeups_in(end) == wakeups_in(between) + 1,
{
    lemma_wakeups_by_draining(start, first, between);
    lemma_wakeups_by_asking(between, second, end);
}

} // verus!
