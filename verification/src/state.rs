//! The state of the aggregator as a mathematical value, and what the
//! operations of the aggregator do to it.

use crate::access::Deed;
use crate::entities::{AsyncOp, Resource, Task};
use crate::event::Event;
use crate::flush::{drained, Exchange};
use crate::id_data::{
    all_marked_sent, encoded_as_list, encoded_as_map, included, retained, Include,
};
use crate::outlet::{received, refused};
use crate::proto::{PollOp, TaskDetails, Update};
use crate::release::Released;
use crate::shared::{DroppedEvents, Shared};
use crate::stats::{observed, same_histogram, AsyncOpStats, ResourceStats, TaskStats};
use crate::time::Timestamp;
use crate::watch::{accepts, delivered, handed, opened, refuses, Message, Status, Watch, WatchRequest};
use console_api::register_metadata::NewMetadata;
use std::sync::Arc;
use std::time::Duration;
use tokio::sync::{mpsc, oneshot};
use vstd::prelude::*;

verus! {

/// Whether updates are published.
#[derive(Clone, Copy, Debug, PartialEq, Eq, Structural)]
pub enum Temporality {
    Live,
    Paused,
}

/// What the aggregator knows.
#[verifier::ext_equal]
pub struct State {
    /// How often updates are published.
    pub publish_interval: Duration,
    /// How long the data about an entity is kept after the entity ended, in
    /// nanoseconds.
    pub retention: u128,
    /// What is shared with the producers of events.
    pub shared: Arc<Shared>,
    /// What the aggregator did to what is shared, oldest first.
    pub deeds: Seq<Deed>,
    /// The subscribers to updates.
    pub watchers: Seq<Watch<Update>>,
    /// The subscribers to the details of a task, by its number.
    pub details_watchers: Map<u64, Seq<Watch<TaskDetails>>>,
    /// All callsite metadata, for new subscribers.
    pub all_metadata: Seq<NewMetadata>,
    /// The callsite metadata that was registered since the last update.
    pub new_metadata: Seq<NewMetadata>,
    pub tasks: Map<u64, Task>,
    pub task_stats: Map<u64, TaskStats>,
    pub resources: Map<u64, Resource>,
    pub resource_stats: Map<u64, ResourceStats>,
    pub async_ops: Map<u64, AsyncOp>,
    pub async_op_stats: Map<u64, AsyncOpStats>,
    /// All polls of async operations, for new subscribers.
    pub all_poll_ops: Seq<PollOp>,
    /// The polls of async operations since the last update.
    pub new_poll_ops: Seq<PollOp>,
    pub temporality: Temporality,
}

/// `part` are the last items of `whole`.
pub open spec fn is_suffix<A>(part: Seq<A>, whole: Seq<A>) -> bool {
    &&& part.len() <= whole.len()
    &&& part == whole.skip(whole.len() - part.len())
}

/// `details` are the details of task `id` at `now`.
pub open spec fn is_details(
    stats: Map<u64, TaskStats>,
    id: u64,
    now: Timestamp,
    details: TaskDetails,
) -> bool {
    &&& details.task_id == Some(id)
    &&& details.now == Some(now)
    &&& same_histogram(details.poll_times_histogram, stats[id].poll_times_histogram)
}

/// Under `id`, `lists` holds `list`, unless that is empty and nothing is there.
pub open spec fn holds_list<A>(lists: Map<u64, Seq<A>>, id: u64, list: Seq<A>) -> bool {
    &&& lists.contains_key(id) <==> list.len() > 0
    &&& lists.contains_key(id) ==> lists[id] == list
}

/// What becomes of the subscribers to the details of task `id` when details
/// are published. Those who accept the details of a known task stay, and those
/// who refuse them are dropped. The subscribers to a task that is not known any
/// more are dropped as they are.
pub open spec fn details_published_of(
    before: Map<u64, Seq<Watch<TaskDetails>>>,
    stats: Map<u64, TaskStats>,
    now: Timestamp,
    after: Map<u64, Seq<Watch<TaskDetails>>>,
    dropped: Map<u64, Seq<Watch<TaskDetails>>>,
    id: u64,
) -> bool {
    if !before.contains_key(id) {
        !after.contains_key(id) && !dropped.contains_key(id)
    } else if stats.contains_key(id) {
        exists|
            details: Arc<TaskDetails>,
            kept: Seq<Watch<TaskDetails>>,
            refusing: Seq<Watch<TaskDetails>>,
        |
            {
                &&& is_details(stats, id, now, *details)
                &&& #[trigger] delivered(before[id], details, kept, refusing)
                &&& holds_list(after, id, kept)
                &&& holds_list(dropped, id, refusing)
            }
    } else {
        !after.contains_key(id) && holds_list(dropped, id, before[id])
    }
}

/// What becomes of all subscribers to details when details are published.
pub open spec fn details_published(
    before: Map<u64, Seq<Watch<TaskDetails>>>,
    stats: Map<u64, TaskStats>,
    now: Timestamp,
    after: Map<u64, Seq<Watch<TaskDetails>>>,
    dropped: Map<u64, Seq<Watch<TaskDetails>>>,
) -> bool {
    forall|id: u64| #[trigger] details_published_of(before, stats, now, after, dropped, id)
}

/// The subscribers that were dropped by a publish.
#[verifier::ext_equal]
pub struct Departed {
    /// Of the subscribers to updates.
    pub watchers: Seq<Watch<Update>>,
    /// Of the subscribers to the details of a task, by its number.
    pub details_watchers: Map<u64, Seq<Watch<TaskDetails>>>,
}

/// What became of a request for the details of a task.
pub enum DetailsRequested {
    /// The task is not known. The means of answering was let go of unused, by
    /// which the requester learns that no answer comes.
    NotFound(Released<oneshot::Sender<mpsc::Receiver<Message<TaskDetails>>>>),
    /// The requester did not wait for the answer.
    Abandoned,
    /// The requester was answered, but refused the first details and was let go
    /// of.
    Refused(Released<Watch<TaskDetails>>),
    /// The requester was answered, was sent the first details and is
    /// subscribed to more.
    Subscribed,
}

/// The request was answered by the receiving end of `channel`, which was made
/// with the room that was asked for.
pub open spec fn answered_by(
    request: WatchRequest<TaskDetails>,
    channel: mpsc::Sender<Message<TaskDetails>>,
) -> bool {
    exists|
        receiver: mpsc::Receiver<Message<TaskDetails>>,
        answer: Result<(), mpsc::Receiver<Message<TaskDetails>>>,
    |
        {
            &&& opened(request.buffer, channel, receiver)
            &&& #[trigger] handed(request.stream_sender, receiver, answer)
            &&& answer is Ok
        }
}

/// The receiving end of a channel that was made with the room that was asked
/// for came back, for the requester did not wait for it.
pub open spec fn abandoned(request: WatchRequest<TaskDetails>) -> bool {
    exists|
        sender: mpsc::Sender<Message<TaskDetails>>,
        receiver: mpsc::Receiver<Message<TaskDetails>>,
    |
        {
            &&& #[trigger] opened(request.buffer, sender, receiver)
            &&& handed(request.stream_sender, receiver, Err::<(), _>(receiver))
        }
}

impl State {
    /// What holds of every state that the aggregator can be in: entities and
    /// their statistics are known together and under their own numbers, what
    /// is new was recorded last, and nobody is listed without subscribing.
    pub open spec fn valid(self) -> bool {
        &&& self.tasks.dom() == self.task_stats.dom()
        &&& self.resources.dom() == self.resource_stats.dom()
        &&& self.async_ops.dom() == self.async_op_stats.dom()
        &&& forall|id: u64| #[trigger] self.tasks.contains_key(id) ==> self.tasks[id].id == id
        &&& forall|id: u64| #[trigger]
            self.resources.contains_key(id) ==> self.resources[id].id == id
        &&& forall|id: u64| #[trigger]
            self.async_ops.contains_key(id) ==> self.async_ops[id].id == id
        &&& is_suffix(self.new_metadata, self.all_metadata)
        &&& is_suffix(self.new_poll_ops, self.all_poll_ops)
        &&& forall|id: u64| #[trigger]
            self.details_watchers.contains_key(id) ==> self.details_watchers[id].len() > 0
    }

    /// The state before anything happened.
    pub open spec fn initial(
        publish_interval: Duration,
        retention: u128,
        shared: Arc<Shared>,
    ) -> State {
        State {
            publish_interval,
            retention,
            shared,
            deeds: Seq::empty(),
            watchers: Seq::empty(),
            details_watchers: Map::empty(),
            all_metadata: Seq::empty(),
            new_metadata: Seq::empty(),
            tasks: Map::empty(),
            task_stats: Map::empty(),
            resources: Map::empty(),
            resource_stats: Map::empty(),
            async_ops: Map::empty(),
            async_op_stats: Map::empty(),
            all_poll_ops: Seq::empty(),
            new_poll_ops: Seq::empty(),
            temporality: Temporality::Live,
        }
    }

    /// The state after `event` happened.
    pub open spec fn updated(self, event: Event) -> State {
        match event {
            Event::Metadata(metadata) => State {
                all_metadata: self.all_metadata.push(metadata),
                new_metadata: self.new_metadata.push(metadata),
                ..self
            },
            Event::Spawn { id, metadata, stats, fields, location } => State {
                tasks: self.tasks.insert(
                    id,
                    Task { id, is_dirty: true, metadata, fields, location },
                ),
                task_stats: self.task_stats.insert(id, stats),
                ..self
            },
            Event::Resource {
                id,
                parent_id,
                metadata,
                kind,
                concrete_type,
                location,
                is_internal,
                stats,
            } => State {
                resources: self.resources.insert(
                    id,
                    Resource {
                        id,
                        is_dirty: true,
                        parent_id,
                        metadata,
                        concrete_type,
                        kind,
                        location,
                        is_internal,
                    },
                ),
                resource_stats: self.resource_stats.insert(id, stats),
                ..self
            },
            Event::PollOp { metadata, resource_id, op_name, async_op_id, task_id, is_ready } => {
                let poll_op = PollOp {
                    metadata: Some(metadata),
                    resource_id: Some(resource_id),
                    name: op_name,
                    task_id: Some(task_id),
                    async_op_id: Some(async_op_id),
                    is_ready,
                };
                State {
                    all_poll_ops: self.all_poll_ops.push(poll_op),
                    new_poll_ops: self.new_poll_ops.push(poll_op),
                    ..self
                }
            },
            Event::AsyncResourceOp { id, parent_id, resource_id, metadata, source, stats } => State {
                async_ops: self.async_ops.insert(
                    id,
                    AsyncOp { id, is_dirty: true, parent_id, resource_id, metadata, source },
                ),
                async_op_stats: self.async_op_stats.insert(id, stats),
                ..self
            },
        }
    }

    /// `update` tells, at `now`, of the entities that `which` stands for and
    /// of the events that were lost.
    pub open spec fn is_update_on_entities(
        self,
        which: Include,
        now: Timestamp,
        dropped: DroppedEvents,
        update: Update,
    ) -> bool {
        &&& update.now == Some(now)
        &&& update.task_update matches Some(tasks)
        &&& encoded_as_list(included(self.tasks, which), tasks.new_tasks@)
        &&& encoded_as_map(included(self.task_stats, which), tasks.stats_update@)
        &&& tasks.dropped_events == dropped.tasks
        &&& update.resource_update matches Some(resources)
        &&& encoded_as_list(included(self.resources, which), resources.new_resources@)
        &&& encoded_as_map(included(self.resource_stats, which), resources.stats_update@)
        &&& resources.dropped_events == dropped.resources
        &&& update.async_op_update matches Some(async_ops)
        &&& encoded_as_list(included(self.async_ops, which), async_ops.new_async_ops@)
        &&& encoded_as_map(included(self.async_op_stats, which), async_ops.stats_update@)
        &&& async_ops.dropped_events == dropped.async_ops
    }

    /// `update` tells a new subscriber everything that is known.
    pub open spec fn is_initial_update(
        self,
        now: Timestamp,
        dropped: DroppedEvents,
        update: Update,
    ) -> bool {
        &&& self.is_update_on_entities(Include::All, now, dropped, update)
        &&& update.resource_update->0.new_poll_ops@ == self.all_poll_ops
        &&& update.new_metadata matches Some(registered)
        &&& registered.metadata@ == self.all_metadata
    }

    /// `update` tells the subscribers what is new since the last update.
    pub open spec fn is_next_update(
        self,
        now: Timestamp,
        dropped: DroppedEvents,
        update: Update,
    ) -> bool {
        &&& self.is_update_on_entities(Include::UpdatedOnly, now, dropped, update)
        &&& update.resource_update->0.new_poll_ops@ == self.new_poll_ops
        &&& update.new_metadata is Some <==> self.new_metadata.len() > 0
        &&& update.new_metadata matches Some(registered) ==> registered.metadata@
            == self.new_metadata
    }

    /// The state in which nothing is new any more.
    pub open spec fn nothing_new(self) -> State {
        State {
            new_metadata: Seq::empty(),
            tasks: all_marked_sent(self.tasks),
            task_stats: all_marked_sent(self.task_stats),
            resources: all_marked_sent(self.resources),
            resource_stats: all_marked_sent(self.resource_stats),
            async_ops: all_marked_sent(self.async_ops),
            async_op_stats: all_marked_sent(self.async_op_stats),
            new_poll_ops: Seq::empty(),
            ..self
        }
    }

    /// `after` is the state once what is new was published at `now`, and
    /// `departed` are the subscribers that were dropped.
    pub open spec fn published(self, now: Timestamp, departed: Departed, after: State) -> bool {
        exists|dropped: DroppedEvents, update: Arc<Update>| #[trigger]
            self.published_as(now, dropped, update, departed, after)
    }

    /// `after` is the state once `update`, and with it the details of tasks,
    /// was published at `now`. The update tells what is new, and of the
    /// `dropped` events, of which the producers had kept count and which are
    /// counted from zero again. `departed` are the subscribers that were
    /// dropped.
    pub open spec fn published_as(
        self,
        now: Timestamp,
        dropped: DroppedEvents,
        update: Arc<Update>,
        departed: Departed,
        after: State,
    ) -> bool {
        &&& self.shared.dropped_taken(dropped)
        &&& self.shared.took(self.deeds, dropped, after.deeds)
        &&& self.is_next_update(now, dropped, *update)
        &&& delivered(self.watchers, update, after.watchers, departed.watchers)
        &&& details_published(
            self.details_watchers,
            self.task_stats,
            now,
            after.details_watchers,
            departed.details_watchers,
        )
        &&& after == State {
            deeds: after.deeds,
            watchers: after.watchers,
            details_watchers: after.details_watchers,
            ..self.nothing_new()
        }
    }

    /// `after` is the state once a subscriber arrived at `now` and was offered
    /// everything that is known. One that refused it was turned away.
    pub open spec fn subscribed(
        self,
        subscription: Watch<Update>,
        now: Timestamp,
        turned_away: Option<Released<Watch<Update>>>,
        after: State,
    ) -> bool {
        exists|dropped: DroppedEvents, update: Arc<Update>| #[trigger]
            self.subscribed_as(subscription, now, dropped, update, turned_away, after)
    }

    /// `after` is the state once the subscriber was offered `update`. The update
    /// tells everything that is known, and of the `dropped` events, of which the
    /// producers had kept count and which are counted from zero again.
    pub open spec fn subscribed_as(
        self,
        subscription: Watch<Update>,
        now: Timestamp,
        dropped: DroppedEvents,
        update: Arc<Update>,
        turned_away: Option<Released<Watch<Update>>>,
        after: State,
    ) -> bool {
        &&& self.shared.dropped_taken(dropped)
        &&& self.shared.took(self.deeds, dropped, after.deeds)
        &&& self.is_initial_update(now, dropped, *update)
        &&& match turned_away {
            None => {
                &&& after.watchers.len() == self.watchers.len() + 1
                &&& accepts(subscription, update, after.watchers.last())
                &&& after == (State { deeds: after.deeds, ..self }).with_watcher(
                    after.watchers.last(),
                )
            },
            Some(receipt) => {
                &&& refuses(subscription, receipt@)
                &&& after == State { deeds: after.deeds, ..self }
            },
        }
    }

    /// `after` is the state once it was said that the event buffer was drained,
    /// and `exchange` is what became of the flag.
    pub open spec fn flushed(self, exchange: Exchange, after: State) -> bool {
        &&& self.shared.flush.attempted(true, false, exchange)
        &&& drained(self.deeds, exchange, after.deeds)
        &&& after == State { deeds: after.deeds, ..self }
    }

    /// The state once `watch` subscribed to updates.
    pub open spec fn with_watcher(self, watch: Watch<Update>) -> State {
        State { watchers: self.watchers.push(watch), ..self }
    }

    /// The subscribers to the details of task `id`.
    pub open spec fn details_watchers_of(self, id: u64) -> Seq<Watch<TaskDetails>> {
        if self.details_watchers.contains_key(id) {
            self.details_watchers[id]
        } else {
            Seq::empty()
        }
    }

    /// The state once `watch` subscribed to the details of task `id`.
    pub open spec fn with_details_watcher(self, id: u64, watch: Watch<TaskDetails>) -> State {
        State {
            details_watchers: self.details_watchers.insert(
                id,
                self.details_watchers_of(id).push(watch),
            ),
            ..self
        }
    }

    /// `after` is the state once `outcome` became of `request`, which arrived at
    /// `now`.
    pub open spec fn details_requested(
        self,
        request: WatchRequest<TaskDetails>,
        now: Timestamp,
        outcome: DetailsRequested,
        after: State,
    ) -> bool {
        &&& outcome is NotFound <==> !self.task_stats.contains_key(request.id)
        &&& match outcome {
            DetailsRequested::NotFound(receipt) => {
                receipt@ == request.stream_sender && after == self
            },
            DetailsRequested::Abandoned => abandoned(request) && after == self,
            DetailsRequested::Refused(receipt) => {
                &&& answered_by(request, receipt@.channel())
                &&& refused(receipt@.channel())
                &&& receipt@@ == Seq::<Message<TaskDetails>>::empty()
                &&& after == self
            },
            DetailsRequested::Subscribed => self.details_subscribed(request, now, after),
        }
    }

    /// `after` is the state once a new subscriber to the details of a task, who
    /// was answered by the receiving end of its channel, was sent the details
    /// at `now`, and nothing else.
    pub open spec fn details_subscribed(
        self,
        request: WatchRequest<TaskDetails>,
        now: Timestamp,
        after: State,
    ) -> bool {
        exists|watch: Watch<TaskDetails>, details: Arc<TaskDetails>|
            {
                &&& answered_by(request, watch.channel())
                &&& #[trigger] received(watch.channel(), Ok::<Arc<TaskDetails>, Status>(details))
                &&& is_details(self.task_stats, request.id, now, *details)
                &&& watch@ == seq![Ok::<Arc<TaskDetails>, Status>(details)]
                &&& after == self.with_details_watcher(request.id, watch)
            }
    }

    /// The state once what is not needed any more at `now` was dropped.
    pub open spec fn cleaned(self, now: Timestamp) -> State {
        let has_watchers = self.watchers.len() > 0;
        let task_stats = retained(self.task_stats, now, self.retention, has_watchers);
        let resource_stats = retained(self.resource_stats, now, self.retention, has_watchers);
        let async_op_stats = retained(self.async_op_stats, now, self.retention, has_watchers);
        State {
            tasks: self.tasks.restrict(task_stats.dom()),
            task_stats,
            resources: self.resources.restrict(resource_stats.dom()),
            resource_stats,
            async_ops: self.async_ops.restrict(async_op_stats.dom()),
            async_op_stats,
            ..self
        }
    }

    /// The state once `newer` was observed of task `id`.
    pub open spec fn with_task_stats(self, id: u64, newer: TaskStats) -> State {
        State { task_stats: observed(self.task_stats, id, newer), ..self }
    }

    /// The state once `newer` was observed of resource `id`.
    pub open spec fn with_resource_stats(self, id: u64, newer: ResourceStats) -> State {
        State { resource_stats: observed(self.resource_stats, id, newer), ..self }
    }

    /// The state once `newer` was observed of async operation `id`.
    pub open spec fn with_async_op_stats(self, id: u64, newer: AsyncOpStats) -> State {
        State { async_op_stats: observed(self.async_op_stats, id, newer), ..self }
    }
}

} // verus!
