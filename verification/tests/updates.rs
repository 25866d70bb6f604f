use console_aggregator::access::Handle;
use console_aggregator::aggregator::{Aggregator, Builder};
use console_aggregator::event::Event;
use console_aggregator::proto::Update;
use console_aggregator::shared::{DroppedEvents, Shared};
use console_aggregator::stats::{AsyncOpStats, ResourceStats, TaskStats};
use console_aggregator::time::{elapsed_nanos, Timestamp};
use console_aggregator::watch::{Status, Watch};
use console_api::register_metadata::NewMetadata;
use console_api::resources::resource::{kind, Kind};
use console_api::{field, Field, Location, MetaId};
use std::sync::Arc;
use std::time::Duration;
use tokio::sync::mpsc;

fn at(seconds: i64) -> Timestamp {
    Timestamp { seconds, nanos: 0 }
}

const NONE_DROPPED: DroppedEvents = DroppedEvents { tasks: 0, resources: 0, async_ops: 0 };

fn aggregator(shared: &Arc<Shared>) -> Aggregator {
    let builder = Builder { publish_interval: Duration::from_secs(1), retention: 60_000_000_000 };
    Aggregator::new(&builder, shared.clone())
}

fn task_message(wakes: u64) -> console_api::tasks::Stats {
    console_api::tasks::Stats { wakes, ..Default::default() }
}

fn task_stats(wakes: u64, is_dirty: bool) -> TaskStats {
    TaskStats {
        is_dirty,
        dropped_at: None,
        message: task_message(wakes),
        poll_times_histogram: Some(vec![1, 2, 3]),
    }
}

fn field(name: &str) -> Field {
    Field {
        metadata_id: Some(MetaId { id: 9 }),
        name: Some(field::Name::from(name)),
        value: Some(field::Value::from(5u64)),
    }
}

fn location(line: u32) -> Location {
    Location { file: Some(String::from("main.rs")), line: Some(line), ..Default::default() }
}

fn spawn(id: u64) -> Event {
    Event::Spawn {
        id,
        metadata: 100 + id,
        stats: task_stats(id, true),
        fields: vec![field("a"), field("b")],
        location: Some(location(7)),
    }
}

fn timer() -> Kind {
    Kind { kind: Some(kind::Kind::Known(kind::Known::Timer as i32)) }
}

fn resource(id: u64) -> Event {
    Event::Resource {
        id,
        parent_id: Some(1),
        metadata: 200,
        kind: timer(),
        concrete_type: String::from("Sleep"),
        location: Some(location(8)),
        is_internal: true,
        stats: ResourceStats {
            is_dirty: true,
            dropped_at: None,
            message: console_api::resources::Stats { attributes: vec![], ..Default::default() },
        },
    }
}

fn async_op(id: u64) -> Event {
    Event::AsyncResourceOp {
        id,
        parent_id: None,
        resource_id: 11,
        metadata: 300,
        source: String::from("Sleep::new"),
        stats: AsyncOpStats {
            is_dirty: true,
            dropped_at: None,
            message: console_api::async_ops::Stats { task_id: Some(4u64.into()), ..Default::default() },
        },
    }
}

fn poll_op(name: &str) -> Event {
    Event::PollOp {
        metadata: 400,
        resource_id: 11,
        op_name: String::from(name),
        async_op_id: 21,
        task_id: 1,
        is_ready: true,
    }
}

fn metadata(id: u64) -> NewMetadata {
    NewMetadata { id: Some(MetaId { id }), metadata: None }
}

fn task_ids(update: &Update) -> Vec<u64> {
    let tasks = &update.task_update.as_ref().unwrap().new_tasks;
    let mut ids: Vec<u64> = tasks.iter().map(|task| task.id.unwrap()).collect();
    ids.sort();
    ids
}

type Item = Result<Arc<Update>, Status>;

fn receive(receiver: &mut mpsc::Receiver<Item>) -> Arc<Update> {
    match receiver.try_recv() {
        Ok(Ok(update)) => update,
        _ => panic!("an update was expected"),
    }
}

#[test]
fn new_aggregator_knows_nothing() {
    let shared = Arc::new(Shared::default());
    let mut aggregator = aggregator(&shared);
    let update = aggregator.initial_update(at(5), NONE_DROPPED);
    assert_eq!(update.now, Some(at(5)));
    assert!(task_ids(&update).is_empty());
    assert!(update.task_update.unwrap().stats_update.is_empty());
    let resources = update.resource_update.unwrap();
    assert!(resources.new_resources.is_empty() && resources.new_poll_ops.is_empty());
    assert!(update.async_op_update.unwrap().new_async_ops.is_empty());
    // A new subscriber is told of the metadata even if there is none.
    assert!(update.new_metadata.unwrap().metadata.is_empty());
    assert_eq!(aggregator.publish_interval(), Duration::from_secs(1));
}

#[test]
fn spawned_task_is_announced_as_it_is() {
    let shared = Arc::new(Shared::default());
    let mut aggregator = aggregator(&shared);
    aggregator.update_state(spawn(1));
    let update = aggregator.next_update(at(1), NONE_DROPPED);
    let tasks = update.task_update.unwrap();
    assert_eq!(tasks.new_tasks.len(), 1);
    let task = &tasks.new_tasks[0];
    assert_eq!(task.id, Some(1));
    assert_eq!(task.kind, console_api::tasks::task::Kind::Spawn as i32);
    assert_eq!(task.metadata, Some(101));
    assert!(task.parents.is_empty());
    assert_eq!(task.fields, vec![field("a"), field("b")]);
    assert_eq!(task.location, Some(location(7)));
    assert_eq!(tasks.stats_update.len(), 1);
    assert_eq!(tasks.stats_update[&1], task_message(1));
}

#[test]
fn created_resource_is_announced_as_it_is() {
    let shared = Arc::new(Shared::default());
    let mut aggregator = aggregator(&shared);
    aggregator.update_state(resource(11));
    let update = aggregator.next_update(at(1), NONE_DROPPED);
    let resources = update.resource_update.unwrap();
    assert_eq!(resources.new_resources.len(), 1);
    let resource = &resources.new_resources[0];
    assert_eq!(resource.id, Some(11));
    assert_eq!(resource.parent_resource_id, Some(1));
    assert_eq!(resource.kind, Some(timer()));
    assert_eq!(resource.metadata, Some(200));
    assert_eq!(resource.concrete_type, "Sleep");
    assert_eq!(resource.location, Some(location(8)));
    assert!(resource.is_internal);
    assert_eq!(resources.stats_update[&11], console_api::resources::Stats::default());
}

#[test]
fn async_op_is_announced_as_it_is() {
    let shared = Arc::new(Shared::default());
    let mut aggregator = aggregator(&shared);
    aggregator.update_state(async_op(21));
    let update = aggregator.next_update(at(1), NONE_DROPPED);
    let async_ops = update.async_op_update.unwrap();
    assert_eq!(async_ops.new_async_ops.len(), 1);
    let async_op = &async_ops.new_async_ops[0];
    assert_eq!(async_op.id, Some(21));
    assert_eq!(async_op.metadata, Some(300));
    assert_eq!(async_op.resource_id, Some(11));
    assert_eq!(async_op.source, "Sleep::new");
    assert_eq!(async_op.parent_async_op_id, None);
    assert_eq!(async_ops.stats_update[&21].task_id, Some(4u64.into()));
}

#[test]
fn poll_op_is_announced_as_it_is() {
    let shared = Arc::new(Shared::default());
    let mut aggregator = aggregator(&shared);
    aggregator.update_state(poll_op("poll_elapsed"));
    let update = aggregator.next_update(at(1), NONE_DROPPED);
    let poll_ops = update.resource_update.unwrap().new_poll_ops;
    assert_eq!(poll_ops.len(), 1);
    assert_eq!(poll_ops[0].metadata, Some(400));
    assert_eq!(poll_ops[0].resource_id, Some(11));
    assert_eq!(poll_ops[0].name, "poll_elapsed");
    assert_eq!(poll_ops[0].task_id, Some(1));
    assert_eq!(poll_ops[0].async_op_id, Some(21));
    assert!(poll_ops[0].is_ready);
}

#[test]
fn second_update_has_nothing_new() {
    let shared = Arc::new(Shared::default());
    let mut aggregator = aggregator(&shared);
    aggregator.update_state(Event::Metadata(metadata(1)));
    aggregator.update_state(spawn(1));
    aggregator.update_state(resource(11));
    aggregator.update_state(async_op(21));
    aggregator.update_state(poll_op("poll"));
    let first = aggregator.next_update(at(1), NONE_DROPPED);
    assert_eq!(first.new_metadata.unwrap().metadata, vec![metadata(1)]);
    let second = aggregator.next_update(at(2), NONE_DROPPED);
    assert!(second.new_metadata.is_none());
    assert!(task_ids(&second).is_empty());
    assert!(second.task_update.unwrap().stats_update.is_empty());
    let resources = second.resource_update.unwrap();
    assert!(resources.new_resources.is_empty());
    assert!(resources.stats_update.is_empty());
    assert!(resources.new_poll_ops.is_empty());
    let async_ops = second.async_op_update.unwrap();
    assert!(async_ops.new_async_ops.is_empty() && async_ops.stats_update.is_empty());
}

#[test]
fn initial_update_has_everything_and_changes_nothing() {
    let shared = Arc::new(Shared::default());
    let mut aggregator = aggregator(&shared);
    aggregator.update_state(Event::Metadata(metadata(1)));
    aggregator.update_state(spawn(1));
    aggregator.update_state(poll_op("first"));
    aggregator.next_update(at(1), NONE_DROPPED);
    aggregator.update_state(Event::Metadata(metadata(2)));
    aggregator.update_state(spawn(2));
    aggregator.update_state(poll_op("second"));
    let initial = aggregator.initial_update(at(2), NONE_DROPPED);
    assert_eq!(task_ids(&initial), vec![1, 2]);
    assert_eq!(initial.new_metadata.unwrap().metadata, vec![metadata(1), metadata(2)]);
    let poll_ops = initial.resource_update.unwrap().new_poll_ops;
    assert_eq!(poll_ops.len(), 2);
    assert_eq!((poll_ops[0].name.as_str(), poll_ops[1].name.as_str()), ("first", "second"));
    // What was new before is still new for the others.
    let next = aggregator.next_update(at(3), NONE_DROPPED);
    assert_eq!(task_ids(&next), vec![2]);
    assert_eq!(next.new_metadata.unwrap().metadata, vec![metadata(2)]);
}

#[test]
fn subscriber_misses_nothing_between_two_updates() {
    let shared = Arc::new(Shared::default());
    let mut aggregator = aggregator(&shared);
    aggregator.update_state(Event::Metadata(metadata(1)));
    aggregator.update_state(spawn(1));
    let (sender, mut receiver) = mpsc::channel(4);
    assert!(aggregator.add_instrument_subscription(Watch::new(sender), at(1)).is_none());
    aggregator.update_state(Event::Metadata(metadata(2)));
    aggregator.update_state(spawn(2));
    aggregator.publish(at(2));
    let initial = receive(&mut receiver);
    let next = receive(&mut receiver);
    assert_eq!(initial.now, Some(at(1)));
    assert_eq!(next.now, Some(at(2)));
    assert_eq!(task_ids(&initial), vec![1]);
    assert_eq!(task_ids(&next), vec![1, 2]);
    assert_eq!(initial.new_metadata.as_ref().unwrap().metadata, vec![metadata(1)]);
    assert_eq!(next.new_metadata.as_ref().unwrap().metadata, vec![metadata(1), metadata(2)]);
}

#[test]
fn joined_updates_tell_everything_once_and_in_order() {
    let shared = Arc::new(Shared::default());
    let mut aggregator = aggregator(&shared);
    aggregator.update_state(Event::Metadata(metadata(1)));
    aggregator.next_update(at(0), NONE_DROPPED);
    aggregator.update_state(Event::Metadata(metadata(2)));
    aggregator.update_state(poll_op("a"));
    let (sender, mut receiver) = mpsc::channel(8);
    assert!(aggregator.add_instrument_subscription(Watch::new(sender), at(1)).is_none());
    aggregator.update_state(Event::Metadata(metadata(3)));
    aggregator.publish(at(2));
    aggregator.publish(at(3));
    aggregator.update_state(poll_op("b"));
    aggregator.update_state(Event::Metadata(metadata(4)));
    aggregator.update_state(Event::Metadata(metadata(5)));
    aggregator.publish(at(4));
    let told = |updates: &[Arc<Update>]| -> (Vec<NewMetadata>, Vec<String>) {
        let mut joined = (vec![], vec![]);
        for update in updates {
            if let Some(registered) = &update.new_metadata {
                joined.0.extend(registered.metadata.clone());
            }
            for poll_op in &update.resource_update.as_ref().unwrap().new_poll_ops {
                joined.1.push(poll_op.name.clone());
            }
        }
        joined
    };
    let updates = [(); 4].map(|_| receive(&mut receiver));
    let (metadata_of_all, polls_of_all) = told(&updates[1..]);
    assert_eq!(metadata_of_all, vec![metadata(2), metadata(3), metadata(4), metadata(5)]);
    assert_eq!(polls_of_all, vec!["a", "b"]);
    // The first update tells of what was known, of which one of each was new.
    let (known_metadata, known_polls) = told(&updates[..1]);
    assert_eq!(known_metadata, vec![metadata(1), metadata(2)]);
    assert_eq!(known_polls, vec!["a"]);
}

#[test]
fn respawned_id_is_announced_again() {
    let shared = Arc::new(Shared::default());
    let mut aggregator = aggregator(&shared);
    aggregator.update_state(spawn(1));
    aggregator.next_update(at(1), NONE_DROPPED);
    aggregator.update_state(spawn(1));
    assert_eq!(task_ids(&aggregator.next_update(at(2), NONE_DROPPED)), vec![1]);
    assert_eq!(task_ids(&aggregator.initial_update(at(2), NONE_DROPPED)), vec![1]);
}

#[test]
fn observed_statistics_are_sent_once() {
    let shared = Arc::new(Shared::default());
    let mut aggregator = aggregator(&shared);
    aggregator.update_state(spawn(1));
    aggregator.next_update(at(1), NONE_DROPPED);
    assert!(aggregator.observe_task_stats(1, task_stats(50, true)));
    assert!(!aggregator.observe_task_stats(2, task_stats(60, true)));
    let update = aggregator.next_update(at(2), NONE_DROPPED);
    assert!(task_ids(&update).is_empty());
    let stats = update.task_update.unwrap().stats_update;
    assert_eq!(stats.len(), 1);
    assert_eq!(stats[&1], task_message(50));
    let update = aggregator.next_update(at(3), NONE_DROPPED);
    assert!(update.task_update.unwrap().stats_update.is_empty());
}

#[test]
fn later_observation_forgets_no_news() {
    let shared = Arc::new(Shared::default());
    let mut aggregator = aggregator(&shared);
    aggregator.update_state(spawn(1));
    // The statistics of the spawned task are new, and stay so.
    assert!(aggregator.observe_task_stats(1, task_stats(2, false)));
    let update = aggregator.next_update(at(1), NONE_DROPPED);
    assert_eq!(update.task_update.unwrap().stats_update[&1], task_message(2));
    assert!(aggregator.observe_task_stats(1, task_stats(3, false)));
    let update = aggregator.next_update(at(2), NONE_DROPPED);
    assert!(update.task_update.unwrap().stats_update.is_empty());
    let update = aggregator.initial_update(at(2), NONE_DROPPED);
    assert_eq!(update.task_update.unwrap().stats_update[&1], task_message(3));
}

#[test]
fn other_statistics_can_be_observed() {
    let shared = Arc::new(Shared::default());
    let mut aggregator = aggregator(&shared);
    aggregator.update_state(resource(11));
    aggregator.update_state(async_op(21));
    aggregator.next_update(at(1), NONE_DROPPED);
    let message = console_api::resources::Stats { attributes: vec![Default::default()], ..Default::default() };
    let newer = ResourceStats { is_dirty: true, dropped_at: None, message: message.clone() };
    assert!(aggregator.observe_resource_stats(11, newer));
    let newer = AsyncOpStats { is_dirty: true, dropped_at: None, message: Default::default() };
    assert!(aggregator.observe_async_op_stats(21, newer));
    let newer = AsyncOpStats { is_dirty: true, dropped_at: None, message: Default::default() };
    assert!(!aggregator.observe_async_op_stats(22, newer));
    let update = aggregator.next_update(at(2), NONE_DROPPED);
    assert_eq!(update.resource_update.unwrap().stats_update[&11], message);
    assert_eq!(update.async_op_update.unwrap().stats_update[&21].task_id, None);
}

#[test]
fn lost_events_are_counted_once() {
    let shared = Arc::new(Shared::default());
    let mut aggregator = aggregator(&shared);
    let mut producer = Handle::new(shared.clone());
    producer.count_dropped(3, 4, 5);
    let (sender, mut receiver) = mpsc::channel(4);
    assert!(aggregator.add_instrument_subscription(Watch::new(sender), at(1)).is_none());
    let initial = receive(&mut receiver);
    assert_eq!(initial.task_update.as_ref().unwrap().dropped_events, 3);
    assert_eq!(initial.resource_update.as_ref().unwrap().dropped_events, 4);
    assert_eq!(initial.async_op_update.as_ref().unwrap().dropped_events, 5);
    assert_eq!(producer.take_dropped(), NONE_DROPPED);
    producer.count_dropped(0, 6, 0);
    aggregator.publish(at(2));
    let next = receive(&mut receiver);
    assert_eq!(next.task_update.as_ref().unwrap().dropped_events, 0);
    assert_eq!(next.resource_update.as_ref().unwrap().dropped_events, 6);
    assert_eq!(next.async_op_update.as_ref().unwrap().dropped_events, 0);
    assert_eq!(producer.take_dropped(), NONE_DROPPED);
}

#[test]
fn timestamps_count_nanoseconds() {
    let early = Timestamp { seconds: -1, nanos: 500_000_000 };
    let late = Timestamp { seconds: 2, nanos: 5 };
    assert_eq!(early.as_nanos(), -500_000_000);
    assert_eq!(late.as_nanos(), 2_000_000_005);
    assert_eq!(elapsed_nanos(early, late), 2_500_000_005);
    assert_eq!(elapsed_nanos(late, early), 0);
}
