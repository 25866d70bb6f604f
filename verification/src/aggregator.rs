//! The aggregator.

use crate::access::Handle;
use crate::entities::{AsyncOp, Resource, Task};
use crate::event::Event;
use crate::flush::Exchange;
use crate::id_data::{enumerates, keys, lemma_push_contains, IdData, Include};
use crate::laws::{
    law_cleaning_keeps_state_valid, law_event_keeps_state_valid, law_initial_state_is_valid,
    law_nothing_new_keeps_state_valid, law_publishing_keeps_state_valid,
};
use crate::proto::{
    AsyncOpUpdate, PollOp, RegisterMetadata, ResourceUpdate, TaskDetails, TaskUpdate, Update,
};
use crate::release::{release, release_all, released, Released};
use crate::shared::{DroppedEvents, Shared};
use crate::state::{
    details_published, details_published_of, Departed, DetailsRequested, State, Temporality,
};
use crate::stats::{same_histogram, AsyncOpStats, ResourceStats, TaskStats};
use crate::time::Timestamp;
use crate::watch::{
    accepts, channel_capacity, delivered, handed, opened, refuses, retain_delivered, Message, Watch,
    WatchRequest,
};
use console_api::register_metadata::NewMetadata;
use std::collections::HashMap;
use std::sync::Arc;
use std::time::Duration;
use tokio::sync::mpsc;
use vstd::prelude::*;

verus! {

broadcast use vstd::std_specs::hash::group_hash_axioms;

/// How an aggregator is set up.
pub struct Builder {
    /// How often updates are published.
    pub publish_interval: Duration,
    /// How long the data about an entity is kept after the entity ended, in
    /// nanoseconds.
    pub retention: u128,
}

/// Collects what an instrumented runtime reports, and tells its subscribers.
/// Its view is a [`State`].
pub struct Aggregator {
    publish_interval: Duration,
    retention: u128,
    shared: Handle,
    watchers: Vec<Watch<Update>>,
    details_watchers: HashMap<u64, Vec<Watch<TaskDetails>>>,
    all_metadata: Vec<NewMetadata>,
    new_metadata: Vec<NewMetadata>,
    tasks: IdData<Task>,
    task_stats: IdData<TaskStats>,
    resources: IdData<Resource>,
    resource_stats: IdData<ResourceStats>,
    async_ops: IdData<AsyncOp>,
    async_op_stats: IdData<AsyncOpStats>,
    all_poll_ops: Vec<PollOp>,
    new_poll_ops: Vec<PollOp>,
    temporality: Temporality,
}

/// Receipts for the subscribers that were dropped by a publish.
pub struct DroppedWatchers {
    /// Of the subscribers to updates.
    pub watchers: Vec<Released<Watch<Update>>>,
    /// Of the subscribers to the details of a task, by its number.
    pub details_watchers: HashMap<u64, Vec<Released<Watch<TaskDetails>>>>,
}

impl View for DroppedWatchers {
    type V = Departed;

    open spec fn view(&self) -> Departed {
        Departed {
            watchers: released(self.watchers@),
            details_watchers: as_released(self.details_watchers@),
        }
    }
}

/// The lists of receipts as sequences of what they are for.
pub open spec fn as_released(
    receipts: Map<u64, Vec<Released<Watch<TaskDetails>>>>,
) -> Map<u64, Seq<Watch<TaskDetails>>> {
    receipts.map_values(|list: Vec<Released<Watch<TaskDetails>>>| released(list@))
}

/// The lists of subscribers as sequences.
pub open spec fn as_sequences(
    watchers: Map<u64, Vec<Watch<TaskDetails>>>,
) -> Map<u64, Seq<Watch<TaskDetails>>> {
    watchers.map_values(|list: Vec<Watch<TaskDetails>>| list@)
}

impl View for Aggregator {
    type V = State;

    closed spec fn view(&self) -> State {
        State {
            publish_interval: self.publish_interval,
            retention: self.retention,
            shared: self.shared.shared(),
            deeds: self.shared@,
            watchers: self.watchers@,
            details_watchers: as_sequences(self.details_watchers@),
            all_metadata: self.all_metadata@,
            new_metadata: self.new_metadata@,
            tasks: self.tasks@,
            task_stats: self.task_stats@,
            resources: self.resources@,
            resource_stats: self.resource_stats@,
            async_ops: self.async_ops@,
            async_op_stats: self.async_op_stats@,
            all_poll_ops: self.all_poll_ops@,
            new_poll_ops: self.new_poll_ops@,
            temporality: self.temporality,
        }
    }
}

/// Empties `items` and returns what was in it.
fn take_all<A>(items: &mut Vec<A>) -> (taken: Vec<A>)
    ensures
        taken@ == old(items)@,
        final(items)@ == Seq::<A>::empty(),
{
    let mut taken: Vec<A> = Vec::new();
    core::mem::swap(items, &mut taken);
    taken
}

/// The details of task `id` at `now`.
fn task_details(id: u64, stats: &TaskStats, now: Timestamp) -> (details: TaskDetails)
    ensures
        details.task_id == Some(id),
        details.now == Some(now),
        same_histogram(details.poll_times_histogram, stats.poll_times_histogram),
{
    TaskDetails {
        task_id: Some(id),
        now: Some(now),
        poll_times_histogram: stats.serialize_histogram(),
    }
}

/// Publishes the details of tasks to those who subscribed to them. Drops the
/// subscribers who have gone away or whose channel is full, and those of tasks
/// that are not known any more.
fn publish_details(
    watchers: &mut HashMap<u64, Vec<Watch<TaskDetails>>>,
    stats: &IdData<TaskStats>,
    now: Timestamp,
) -> (dropped: HashMap<u64, Vec<Released<Watch<TaskDetails>>>>)
    ensures
        details_published(
            as_sequences(old(watchers)@),
            stats@,
            now,
            as_sequences(final(watchers)@),
            as_released(dropped@),
        ),
{
    let ghost before = as_sequences(watchers@);
    let mut dropped: HashMap<u64, Vec<Released<Watch<TaskDetails>>>> = HashMap::new();
    let ids = keys(watchers);
    assert(before.dom() =~= watchers@.dom());
    let mut i: usize = 0;
    while i < ids.len()
        invariant
            i <= ids.len(),
            enumerates(ids@, before.dom()),
            forall|id: u64|
                #![trigger details_published_of(before, stats@, now, as_sequences(watchers@), as_released(dropped@), id)]
                ids@.take(i as int).contains(id) || !before.contains_key(id)
                    ==> details_published_of(
                    before,
                    stats@,
                    now,
                    as_sequences(watchers@),
                    as_released(dropped@),
                    id,
                ),
            forall|j: int|
                #![trigger ids@[j]]
                i <= j < ids.len() ==> {
                    &&& as_sequences(watchers@).contains_key(ids@[j])
                    &&& as_sequences(watchers@)[ids@[j]] == before[ids@[j]]
                    &&& !as_released(dropped@).contains_key(ids@[j])
                },
        decreases ids.len() - i,
    {
        let id: u64 = ids[i];
        let ghost earlier = as_sequences(watchers@);
        let ghost earlier_dropped = as_released(dropped@);
        proof {
            assert(ids@[i as int] == id);
            assert(ids@.to_set().contains(ids@[i as int]));
        }
        if let Some(mut list) = watchers.remove(&id) {
            assert(list@ == before[id]);
            let leaving = if let Some(task_stats) = stats.get(id) {
                let details = Arc::new(task_details(id, task_stats, now));
                let refusing = retain_delivered(&mut list, &details);
                assert(delivered(before[id], details, list@, released(refusing@)));
                if !list.is_empty() {
                    watchers.insert(id, list);
                }
                refusing
            } else {
                release_all(list)
            };
            if !leaving.is_empty() {
                dropped.insert(id, leaving);
            }
        }
        proof {
            let later = as_sequences(watchers@);
            let later_dropped = as_released(dropped@);
            assert(details_published_of(before, stats@, now, later, later_dropped, id));
            assert forall|other: u64| other != id implies {
                &&& later.contains_key(other) == earlier.contains_key(other)
                &&& later.contains_key(other) ==> later[other] == earlier[other]
                &&& later_dropped.contains_key(other) == earlier_dropped.contains_key(other)
                &&& later_dropped.contains_key(other) ==> later_dropped[other]
                    == earlier_dropped[other]
            } by {}
            assert forall|other: u64|
                #![trigger details_published_of(before, stats@, now, later, later_dropped, other)]
                ids@.take(i + 1).contains(other) || !before.contains_key(
                    other,
                ) implies details_published_of(
                before,
                stats@,
                now,
                later,
                later_dropped,
                other,
            ) by {
                if other != id {
                    assert(ids@.take(i + 1) == ids@.take(i as int).push(id));
                    lemma_push_contains(ids@.take(i as int), id, other);
                    assert(details_published_of(
                        before,
                        stats@,
                        now,
                        earlier,
                        earlier_dropped,
                        other,
                    ));
                }
            }
        }
        i = i + 1;
    }
    proof {
        let after = as_sequences(watchers@);
        assert(ids@.take(ids.len() as int) == ids@);
        assert forall|id: u64| #[trigger]
            details_published_of(before, stats@, now, after, as_released(dropped@), id) by {
            if before.contains_key(id) {
                assert(ids@.to_set().contains(id));
            }
        }
    }
    dropped
}

impl Aggregator {
    /// An aggregator that knows nothing yet.
    pub fn new(builder: &Builder, shared: Arc<Shared>) -> (aggregator: Self)
        ensures
            aggregator@ == State::initial(builder.publish_interval, builder.retention, shared),
            aggregator@.valid(),
    {
        let aggregator = Aggregator {
            publish_interval: builder.publish_interval,
            retention: builder.retention,
            shared: Handle::new(shared),
            watchers: Vec::new(),
            details_watchers: HashMap::new(),
            all_metadata: Vec::new(),
            new_metadata: Vec::new(),
            tasks: IdData::default(),
            task_stats: IdData::default(),
            resources: IdData::default(),
            resource_stats: IdData::default(),
            async_ops: IdData::default(),
            async_op_stats: IdData::default(),
            all_poll_ops: Vec::new(),
            new_poll_ops: Vec::new(),
            temporality: Temporality::Live,
        };
        assert(aggregator@ =~= State::initial(
            builder.publish_interval,
            builder.retention,
            shared,
        ));
        proof {
            law_initial_state_is_valid(builder.publish_interval, builder.retention, shared);
        }
        aggregator
    }

    /// Takes in one event.
    pub fn update_state(&mut self, event: Event)
        ensures
            final(self)@ == old(self)@.updated(event),
            old(self)@.valid() ==> final(self)@.valid(),
    {
        match event {
            Event::Metadata(metadata) => {
                self.all_metadata.push(metadata.clone());
                self.new_metadata.push(metadata);
            },
            Event::Spawn { id, metadata, stats, fields, location } => {
                self.tasks.insert(
                    id,
                    Task {
                        id,
                        is_dirty: true,
                        metadata,
                        fields,
                        location,
                    },
                );
                self.task_stats.insert(id, stats);
            },
            Event::Resource {
                id,
                parent_id,
                metadata,
                kind,
                concrete_type,
                location,
                is_internal,
                stats,
            } => {
                self.resources.insert(
                    id,
                    Resource {
                        id,
                        is_dirty: true,
                        parent_id,
                        metadata,
                        concrete_type,
                        kind,
                        location,
                        is_internal,
                    },
                );
                self.resource_stats.insert(id, stats);
            },
            Event::PollOp { metadata, resource_id, op_name, async_op_id, task_id, is_ready } => {
                let poll_op = PollOp {
                    metadata: Some(metadata),
                    resource_id: Some(resource_id),
                    name: op_name,
                    task_id: Some(task_id),
                    async_op_id: Some(async_op_id),
                    is_ready,
                };
                self.all_poll_ops.push(poll_op.clone());
                self.new_poll_ops.push(poll_op);
            },
            Event::AsyncResourceOp { id, parent_id, resource_id, metadata, source, stats } => {
                self.async_ops.insert(
                    id,
                    AsyncOp {
                        id,
                        is_dirty: true,
                        parent_id,
                        resource_id,
                        metadata,
                        source,
                    },
                );
                self.async_op_stats.insert(id, stats);
            },
        }
        assert(self@ =~= old(self)@.updated(event));
        proof {
            if old(self)@.valid() {
                law_event_keeps_state_valid(old(self)@, event);
            }
        }
    }

    /// Everything that is known, for a new subscriber.
    pub fn initial_update(&mut self, now: Timestamp, dropped: DroppedEvents) -> (update: Update)
        ensures
            final(self)@ == old(self)@,
            old(self)@.is_initial_update(now, dropped, update),
    {
        let new_poll_ops = self.all_poll_ops.clone();
        assert(new_poll_ops@ == self.all_poll_ops@);
        let metadata = self.all_metadata.clone();
        assert(metadata@ == self.all_metadata@);
        Update {
            task_update: Some(
                TaskUpdate {
                    new_tasks: self.tasks.as_list(Include::All),
                    stats_update: self.task_stats.as_proto(Include::All),
                    dropped_events: dropped.tasks,
                },
            ),
            resource_update: Some(
                ResourceUpdate {
                    new_resources: self.resources.as_list(Include::All),
                    stats_update: self.resource_stats.as_proto(Include::All),
                    new_poll_ops,
                    dropped_events: dropped.resources,
                },
            ),
            async_op_update: Some(
                AsyncOpUpdate {
                    new_async_ops: self.async_ops.as_list(Include::All),
                    stats_update: self.async_op_stats.as_proto(Include::All),
                    dropped_events: dropped.async_ops,
                },
            ),
            now: Some(now),
            new_metadata: Some(RegisterMetadata { metadata }),
        }
    }

    /// What is new since the last update. Nothing is new afterwards.
    pub fn next_update(&mut self, now: Timestamp, dropped: DroppedEvents) -> (update: Update)
        ensures
            final(self)@ == old(self)@.nothing_new(),
            old(self)@.valid() ==> final(self)@.valid(),
            old(self)@.is_next_update(now, dropped, update),
    {
        let new_metadata = if !self.new_metadata.is_empty() {
            Some(RegisterMetadata { metadata: take_all(&mut self.new_metadata) })
        } else {
            None
        };
        let new_poll_ops = take_all(&mut self.new_poll_ops);
        let update = Update {
            now: Some(now),
            new_metadata,
            task_update: Some(
                TaskUpdate {
                    new_tasks: self.tasks.as_list(Include::UpdatedOnly),
                    stats_update: self.task_stats.as_proto(Include::UpdatedOnly),
                    dropped_events: dropped.tasks,
                },
            ),
            resource_update: Some(
                ResourceUpdate {
                    new_resources: self.resources.as_list(Include::UpdatedOnly),
                    stats_update: self.resource_stats.as_proto(Include::UpdatedOnly),
                    new_poll_ops,
                    dropped_events: dropped.resources,
                },
            ),
            async_op_update: Some(
                AsyncOpUpdate {
                    new_async_ops: self.async_ops.as_list(Include::UpdatedOnly),
                    stats_update: self.async_op_stats.as_proto(Include::UpdatedOnly),
                    dropped_events: dropped.async_ops,
                },
            ),
        };
        assert(self@ =~= old(self)@.nothing_new());
        proof {
            if old(self)@.valid() {
                law_nothing_new_keeps_state_valid(old(self)@);
            }
        }
        update
    }

    /// Sends what is new to all subscribers, and the details of tasks to those
    /// who subscribed to them. Drops the subscribers who have gone away or
    /// whose channel is full, and those of tasks that are not known any more.
    pub fn publish(&mut self, now: Timestamp) -> (departed: DroppedWatchers)
        ensures
            old(self)@.published(now, departed@, final(self)@),
            old(self)@.valid() ==> final(self)@.valid(),
    {
        let dropped = self.shared.take_dropped();
        let update = Arc::new(self.next_update(now, dropped));
        let watchers = retain_delivered(&mut self.watchers, &update);
        let details_watchers = publish_details(&mut self.details_watchers, &self.task_stats, now);
        let departed = DroppedWatchers { watchers, details_watchers };
        proof {
            let before = old(self)@;
            assert forall|id: u64| #[trigger]
                details_published_of(
                    before.details_watchers,
                    before.task_stats,
                    now,
                    self@.details_watchers,
                    departed@.details_watchers,
                    id,
                ) by {
                assert(details_published_of(
                    before.details_watchers,
                    self@.task_stats,
                    now,
                    self@.details_watchers,
                    departed@.details_watchers,
                    id,
                ));
            }
            assert(self@ =~= State {
                deeds: self@.deeds,
                watchers: self@.watchers,
                details_watchers: self@.details_watchers,
                ..before.nothing_new()
            });
            assert(before.published_as(now, dropped, update, departed@, self@));
            if before.valid() {
                law_publishing_keeps_state_valid(before, now, departed@, self@);
            }
        }
        departed
    }

    /// Sends everything that is known to a new subscriber, and adds it to the
    /// subscribers. One that has already gone away, or whose channel is full,
    /// is turned away.
    pub fn add_instrument_subscription(
        &mut self,
        subscription: Watch<Update>,
        now: Timestamp,
    ) -> (turned_away: Option<Released<Watch<Update>>>)
        ensures
            old(self)@.subscribed(subscription, now, turned_away, final(self)@),
            old(self)@.valid() ==> final(self)@.valid(),
    {
        let dropped = self.shared.take_dropped();
        let update = Arc::new(self.initial_update(now, dropped));
        let mut subscription = subscription;
        let ghost arriving = subscription;
        let accepted = subscription.update(&update);
        let turned_away = self.enroll(subscription, accepted);
        proof {
            assert(old(self)@.subscribed_as(arriving, now, dropped, update, turned_away, self@));
        }
        turned_away
    }

    /// Adds a new subscriber to the subscribers if it accepted its first
    /// update, and lets go of it otherwise.
    pub fn enroll(&mut self, subscription: Watch<Update>, accepted: bool) -> (turned_away: Option<
        Released<Watch<Update>>,
    >)
        ensures
            accepted ==> turned_away is None && final(self)@ == old(self)@.with_watcher(
                subscription,
            ),
            !accepted ==> {
                &&& turned_away matches Some(receipt)
                &&& receipt@ == subscription
                &&& final(self)@ == old(self)@
            },
            old(self)@.valid() ==> final(self)@.valid(),
    {
        if accepted {
            self.watchers.push(subscription);
            assert(self@ =~= old(self)@.with_watcher(subscription));
            None
        } else {
            Some(release(subscription))
        }
    }

    /// Adds `watch` to the subscribers to the details of task `id`.
    pub fn add_details_watcher(&mut self, id: u64, watch: Watch<TaskDetails>)
        ensures
            final(self)@ == old(self)@.with_details_watcher(id, watch),
            old(self)@.valid() ==> final(self)@.valid(),
    {
        self.details_watchers.entry(id).or_insert(Vec::new()).push(watch);
        assert(self@ =~= old(self)@.with_details_watcher(id, watch));
    }

    /// Answers a request for the details of a task, if the task is known: sends
    /// back the receiving end of a new channel, puts the details as they are
    /// now into the channel, and adds the requester to the subscribers unless
    /// it has already gone away.
    pub fn add_task_detail_subscription(
        &mut self,
        watch_request: WatchRequest<TaskDetails>,
        now: Timestamp,
    ) -> (outcome: DetailsRequested)
        requires
            old(self)@.task_stats.contains_key(watch_request.id) ==> channel_capacity(
                watch_request.buffer,
            ),
        ensures
            old(self)@.details_requested(watch_request, now, outcome, final(self)@),
            old(self)@.valid() ==> final(self)@.valid(),
    {
        let WatchRequest { id, stream_sender, buffer } = watch_request;
        let details = match self.task_stats.get(id) {
            Some(stats) => Arc::new(task_details(id, stats, now)),
            None => {
                return DetailsRequested::NotFound(release(stream_sender));
            },
        };
        let (sender, receiver) = mpsc::channel::<Message<TaskDetails>>(buffer);
        assert(opened(buffer, sender, receiver));
        let subscription = Watch::new(sender);
        let answer = stream_sender.send(receiver);
        assert(handed(watch_request.stream_sender, receiver, answer));
        let outcome = self.enroll_for_details(id, &details, subscription, answer);
        proof {
            if outcome is Subscribed {
                let watch = self@.details_watchers[id].last();
                assert(accepts(subscription, details, watch));
                assert(watch@ =~= seq![Ok(details)]);
            }
        }
        outcome
    }

    /// Sends the first details to a requester who was answered, and adds it to
    /// the subscribers to the details of task `id` if it accepts them. To one
    /// that did not wait for the answer, nothing is sent.
    pub fn enroll_for_details(
        &mut self,
        id: u64,
        details: &Arc<TaskDetails>,
        subscription: Watch<TaskDetails>,
        answer: Result<(), mpsc::Receiver<Message<TaskDetails>>>,
    ) -> (outcome: DetailsRequested)
        ensures
            answer is Err ==> outcome is Abandoned && final(self)@ == old(self)@,
            answer is Ok ==> match outcome {
                DetailsRequested::Subscribed => {
                    let watch = final(self)@.details_watchers[id].last();
                    &&& accepts(subscription, *details, watch)
                    &&& final(self)@ == old(self)@.with_details_watcher(id, watch)
                },
                DetailsRequested::Refused(receipt) => {
                    refuses(subscription, receipt@) && final(self)@ == old(self)@
                },
                _ => false,
            },
            old(self)@.valid() ==> final(self)@.valid(),
    {
        if answer.is_err() {
            return DetailsRequested::Abandoned;
        }
        let mut subscription = subscription;
        if subscription.update(details) {
            self.add_details_watcher(id, subscription);
            assert(self@.details_watchers[id].last() == subscription);
            DetailsRequested::Subscribed
        } else {
            DetailsRequested::Refused(release(subscription))
        }
    }

    /// Drops what is known of the entities that ended long enough ago and whose
    /// final data was sent to the subscribers, if there are any.
    pub fn cleanup_closed(&mut self, now: Timestamp)
        ensures
            final(self)@ == old(self)@.cleaned(now),
            old(self)@.valid() ==> final(self)@.valid(),
    {
        let has_watchers = !self.watchers.is_empty();
        self.tasks.drop_closed(&mut self.task_stats, now, self.retention, has_watchers);
        self.resources.drop_closed(&mut self.resource_stats, now, self.retention, has_watchers);
        self.async_ops.drop_closed(&mut self.async_op_stats, now, self.retention, has_watchers);
        assert(self@ =~= old(self)@.cleaned(now));
        proof {
            if old(self)@.valid() {
                law_cleaning_keeps_state_valid(old(self)@, now);
            }
        }
    }

    /// Takes in an observation of the statistics of task `id`, if it is known,
    /// and tells whether it is.
    pub fn observe_task_stats(&mut self, id: u64, newer: TaskStats) -> (known: bool)
        ensures
            known == old(self)@.task_stats.contains_key(id),
            final(self)@ == old(self)@.with_task_stats(id, newer),
            old(self)@.valid() ==> final(self)@.valid(),
    {
        let known = self.task_stats.observe(id, newer);
        assert(self@.task_stats.dom() =~= old(self)@.task_stats.dom());
        known
    }

    /// Takes in an observation of the statistics of resource `id`, if it is
    /// known, and tells whether it is.
    pub fn observe_resource_stats(&mut self, id: u64, newer: ResourceStats) -> (known: bool)
        ensures
            known == old(self)@.resource_stats.contains_key(id),
            final(self)@ == old(self)@.with_resource_stats(id, newer),
            old(self)@.valid() ==> final(self)@.valid(),
    {
        let known = self.resource_stats.observe(id, newer);
        assert(self@.resource_stats.dom() =~= old(self)@.resource_stats.dom());
        known
    }

    /// Takes in an observation of the statistics of async operation `id`, if it
    /// is known, and tells whether it is.
    pub fn observe_async_op_stats(&mut self, id: u64, newer: AsyncOpStats) -> (known: bool)
        ensures
            known == old(self)@.async_op_stats.contains_key(id),
            final(self)@ == old(self)@.with_async_op_stats(id, newer),
            old(self)@.valid() ==> final(self)@.valid(),
    {
        let known = self.async_op_stats.observe(id, newer);
        assert(self@.async_op_stats.dom() =~= old(self)@.async_op_stats.dom());
        known
    }

    /// How often updates are published.
    pub fn publish_interval(&self) -> (interval: Duration)
        ensures
            interval == self@.publish_interval,
    {
        self.publish_interval
    }

    /// Whether updates are published.
    pub fn temporality(&self) -> (temporality: Temporality)
        ensures
            temporality == self@.temporality,
    {
        self.temporality
    }

    /// Sets whether updates are published.
    pub fn set_temporality(&mut self, temporality: Temporality)
        ensures
            final(self)@ == (State { temporality, ..old(self)@ }),
            old(self)@.valid() ==> final(self)@.valid(),
    {
        self.temporality = temporality;
    }

    /// Whether task `id` is known.
    pub fn knows_task(&self, id: u64) -> (known: bool)
        ensures
            known == self@.task_stats.contains_key(id),
    {
        self.task_stats.get(id).is_some()
    }

    /// Whether there are subscribers to updates.
    pub fn has_watchers(&self) -> (result: bool)
        ensures
            result == (self@.watchers.len() > 0),
    {
        !self.watchers.is_empty()
    }

    /// Says to the producers that the event buffer was drained.
    pub fn has_flushed(&mut self) -> (exchange: Exchange)
        ensures
            old(self)@.flushed(exchange, final(self)@),
            old(self)@.valid() ==> final(self)@.valid(),
    {
        let exchange = self.shared.has_flushed();
        assert(self@ =~= State { deeds: self@.deeds, ..old(self)@ });
        exchange
    }
}

} // verus!
