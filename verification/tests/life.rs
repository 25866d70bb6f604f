use console_aggregator::access::Handle;
use console_aggregator::aggregator::{Aggregator, Builder};
use console_aggregator::event::{Command, Event};
use console_aggregator::flush::{Exchange, Flush};
use console_aggregator::id_data::{is_expired, DroppedAt, IdData, Include, ToProto, Unsent};
use console_aggregator::proto::{TaskDetails, Update};
use console_aggregator::run::{Cycle, Next, Polled, Reply, Wake};
use console_aggregator::shared::{DroppedEvents, Shared};
use console_aggregator::state::{DetailsRequested, Temporality};
use console_aggregator::stats::{AsyncOpStats, ResourceStats, TaskStats};
use console_aggregator::time::Timestamp;
use console_aggregator::watch::{Message, Watch, WatchRequest};
use futures::FutureExt;
use std::sync::Arc;
use std::time::Duration;
use tokio::sync::{mpsc, oneshot};

const NONE_DROPPED: DroppedEvents = DroppedEvents { tasks: 0, resources: 0, async_ops: 0 };

fn at(seconds: i64) -> Timestamp {
    Timestamp { seconds, nanos: 0 }
}

fn with_shared(shared: &Arc<Shared>) -> Aggregator {
    let builder = Builder { publish_interval: Duration::from_secs(1), retention: 10_000_000_000 };
    Aggregator::new(&builder, shared.clone())
}

fn aggregator() -> Aggregator {
    with_shared(&Arc::new(Shared::default()))
}

fn stats(is_dirty: bool, dropped_at: Option<Timestamp>) -> TaskStats {
    TaskStats { is_dirty, dropped_at, message: Default::default(), poll_times_histogram: None }
}

fn spawn(id: u64, stats: TaskStats) -> Event {
    Event::Spawn { id, metadata: 1, stats, fields: vec![], location: None }
}

fn subscribe(aggregator: &mut Aggregator) -> mpsc::Receiver<Message<Update>> {
    let (sender, mut receiver) = mpsc::channel(8);
    assert!(aggregator.add_instrument_subscription(Watch::new(sender), at(0)).is_none());
    assert!(receiver.try_recv().is_ok());
    receiver
}

fn known(aggregator: &mut Aggregator) -> Vec<u64> {
    let update = aggregator.initial_update(at(0), NONE_DROPPED);
    let tasks = update.task_update.unwrap();
    let mut ids: Vec<u64> = tasks.new_tasks.iter().map(|task| task.id.unwrap()).collect();
    ids.sort();
    let mut with_stats: Vec<u64> = tasks.stats_update.keys().copied().collect();
    with_stats.sort();
    assert_eq!(ids, with_stats);
    ids
}

#[test]
fn running_task_is_kept() {
    let mut aggregator = aggregator();
    aggregator.update_state(spawn(1, stats(false, None)));
    aggregator.cleanup_closed(at(1_000_000));
    assert_eq!(known(&mut aggregator), vec![1]);
}

#[test]
fn ended_task_is_kept_for_the_retention() {
    let mut aggregator = aggregator();
    aggregator.update_state(spawn(1, stats(false, Some(at(100)))));
    aggregator.cleanup_closed(at(110));
    assert_eq!(known(&mut aggregator), vec![1]);
    aggregator.cleanup_closed(Timestamp { seconds: 110, nanos: 1 });
    assert!(known(&mut aggregator).is_empty());
}

#[test]
fn task_that_ends_in_the_future_is_kept() {
    let mut aggregator = aggregator();
    aggregator.update_state(spawn(1, stats(false, Some(at(100)))));
    aggregator.cleanup_closed(at(1));
    assert_eq!(known(&mut aggregator), vec![1]);
}

#[test]
fn final_statistics_are_kept_until_they_are_sent() {
    let mut aggregator = aggregator();
    let mut receiver = subscribe(&mut aggregator);
    aggregator.update_state(spawn(1, stats(true, Some(at(100)))));
    aggregator.cleanup_closed(at(1_000));
    assert_eq!(known(&mut aggregator), vec![1]);
    aggregator.publish(at(1_001));
    let update = receiver.try_recv().unwrap().unwrap_or_else(|_| panic!());
    assert!(update.task_update.as_ref().unwrap().stats_update.contains_key(&1));
    aggregator.cleanup_closed(at(1_002));
    assert!(known(&mut aggregator).is_empty());
}

#[test]
fn final_statistics_are_not_kept_for_nobody() {
    let mut aggregator = aggregator();
    aggregator.update_state(spawn(1, stats(true, Some(at(100)))));
    aggregator.update_state(spawn(2, stats(true, None)));
    aggregator.cleanup_closed(at(1_000));
    assert_eq!(known(&mut aggregator), vec![2]);
}

#[test]
fn ended_resources_and_async_ops_are_dropped() {
    let mut aggregator = aggregator();
    for (id, dropped_at) in [(1, None), (2, Some(at(100)))] {
        aggregator.update_state(Event::Resource {
            id,
            parent_id: None,
            metadata: 1,
            kind: Default::default(),
            concrete_type: String::new(),
            location: None,
            is_internal: false,
            stats: ResourceStats { is_dirty: false, dropped_at, message: Default::default() },
        });
        aggregator.update_state(Event::AsyncResourceOp {
            id: id + 10,
            parent_id: Some(1),
            resource_id: id,
            metadata: 1,
            source: String::new(),
            stats: AsyncOpStats { is_dirty: false, dropped_at, message: Default::default() },
        });
    }
    aggregator.cleanup_closed(at(1_000));
    let update = aggregator.initial_update(at(0), NONE_DROPPED);
    let resources = update.resource_update.unwrap();
    assert_eq!(resources.new_resources.len(), 1);
    assert_eq!(resources.new_resources[0].id, Some(1));
    assert_eq!(resources.stats_update.len(), 1);
    let async_ops = update.async_op_update.unwrap();
    assert_eq!(async_ops.new_async_ops.len(), 1);
    assert_eq!(async_ops.new_async_ops[0].id, Some(11));
    assert!(async_ops.stats_update.contains_key(&11));
}

#[test]
fn cleaning_twice_drops_nothing_more() {
    let mut aggregator = aggregator();
    aggregator.update_state(spawn(1, stats(false, Some(at(100)))));
    aggregator.update_state(spawn(2, stats(false, Some(at(200)))));
    aggregator.cleanup_closed(at(150));
    assert_eq!(known(&mut aggregator), vec![2]);
    aggregator.cleanup_closed(at(150));
    assert_eq!(known(&mut aggregator), vec![2]);
}

#[test]
fn expiry_looks_at_time_marks_and_watchers() {
    let ended = |is_dirty| stats(is_dirty, Some(at(0)));
    assert!(is_expired(&ended(false), at(2), 1_000_000_000, true));
    assert!(is_expired(&ended(true), at(2), 1_000_000_000, false));
    assert!(!is_expired(&ended(true), at(2), 1_000_000_000, true));
    assert!(!is_expired(&ended(false), at(1), 1_000_000_000, true));
    assert!(!is_expired(&stats(false, None), at(2), 0, false));
}

#[test]
fn marks_are_taken_away_once() {
    let mut stats = stats(true, Some(at(3)));
    assert!(stats.is_unsent());
    assert!(stats.take_unsent());
    assert!(!stats.is_unsent());
    assert!(!stats.take_unsent());
    assert_eq!(stats.dropped_at(), Some(at(3)));
    assert_eq!(stats.to_proto(), console_api::tasks::Stats::default());
}

#[test]
fn data_is_found_by_its_number() {
    let mut data: IdData<TaskStats> = IdData::default();
    data.insert(1, stats(true, None));
    data.insert(2, stats(false, None));
    data.insert(3, stats(true, Some(at(1))));
    assert!(data.get(2).is_some() && data.get(4).is_none());
    assert_eq!(data.as_list(Include::All).len(), 3);
    assert!(data.get(1).unwrap().is_unsent());
    let mut updated = data.since_last_update();
    updated.sort();
    assert_eq!(updated, vec![1, 3]);
    assert!(data.since_last_update().is_empty());
    let mut all = data.all();
    all.sort();
    assert_eq!(all, vec![1, 2, 3]);
    assert_eq!(data.as_proto(Include::All).len(), 3);
    assert!(data.as_proto(Include::UpdatedOnly).is_empty());
    assert!(data.take(2).is_some());
    assert!(data.take(2).is_none());
}

#[test]
fn tick_makes_an_update_due() {
    let mut aggregator = aggregator();
    let next = aggregator.wake(Wake::Tick, at(1)).next;
    assert_eq!(next, Next::Drain(Cycle { should_send: true, drained: false }));
}

#[test]
fn nothing_but_a_tick_makes_an_update_due() {
    let mut aggregator = aggregator();
    let not_due = Next::Drain(Cycle { should_send: false, drained: false });
    assert_eq!(aggregator.wake(Wake::FlushRequested, at(1)).next, not_due);
    assert_eq!(aggregator.wake(Wake::Command(Command::Resume), at(1)).next, not_due);
    let (sender, _receiver) = mpsc::channel(1);
    let subscribe = Wake::Command(Command::Instrument(Watch::new(sender)));
    let handled = aggregator.wake(subscribe, at(1));
    assert_eq!(handled.next, not_due);
    assert!(matches!(handled.reply, Reply::Instrument(None)));
    assert!(aggregator.has_watchers());
}

#[test]
fn paused_aggregator_publishes_nothing() {
    let mut aggregator = aggregator();
    let mut receiver = subscribe(&mut aggregator);
    aggregator.wake(Wake::Command(Command::Pause), at(1));
    assert_eq!(aggregator.temporality(), Temporality::Paused);
    let next = aggregator.wake(Wake::Tick, at(2)).next;
    let cycle = Cycle { should_send: false, drained: false };
    assert_eq!(next, Next::Drain(cycle));
    aggregator.drain(cycle, Polled::Event(spawn(1, stats(true, None))), at(2));
    let drained = Cycle { should_send: false, drained: true };
    assert_eq!(aggregator.drain(drained, Polled::Empty, at(2)), Next::Clean(drained));
    aggregator.finish(drained, at(2));
    assert!(receiver.try_recv().is_err());
    // What happened meanwhile is published once it is resumed.
    aggregator.wake(Wake::Command(Command::Resume), at(3));
    assert_eq!(aggregator.temporality(), Temporality::Live);
    let next = aggregator.wake(Wake::Tick, at(4)).next;
    let due = Cycle { should_send: true, drained: false };
    assert_eq!(next, Next::Drain(due));
    assert_eq!(aggregator.drain(due, Polled::Empty, at(4)), Next::Clean(due));
    assert_eq!(aggregator.finish(due, at(4)), Next::Wait { flushed: None });
    let update = receiver.try_recv().unwrap().unwrap_or_else(|_| panic!());
    assert_eq!(update.now, Some(at(4)));
    assert_eq!(update.task_update.as_ref().unwrap().new_tasks.len(), 1);
}

#[test]
fn pausing_twice_is_pausing_once() {
    let mut aggregator = aggregator();
    aggregator.wake(Wake::Command(Command::Pause), at(1));
    aggregator.wake(Wake::Command(Command::Pause), at(2));
    assert_eq!(aggregator.temporality(), Temporality::Paused);
    aggregator.wake(Wake::Command(Command::Resume), at(3));
    assert_eq!(aggregator.temporality(), Temporality::Live);
}

#[test]
fn aggregator_ends_without_clients_or_producers() {
    let mut aggregator = aggregator();
    assert_eq!(aggregator.wake(Wake::CommandsClosed, at(1)).next, Next::Terminate);
    let cycle = Cycle { should_send: true, drained: false };
    assert_eq!(aggregator.drain(cycle, Polled::Closed, at(1)), Next::Terminate);
}

#[test]
fn events_are_drained_one_by_one() {
    let mut aggregator = aggregator();
    let cycle = Cycle { should_send: true, drained: false };
    let next = aggregator.drain(cycle, Polled::Event(spawn(1, stats(true, None))), at(1));
    assert_eq!(next, Next::Drain(Cycle { should_send: true, drained: true }));
    assert_eq!(known(&mut aggregator), vec![1]);
}

#[test]
fn cycle_without_subscribers_keeps_what_is_new() {
    let mut aggregator = aggregator();
    aggregator.update_state(spawn(1, stats(true, None)));
    let due = Cycle { should_send: true, drained: false };
    aggregator.drain(due, Polled::Empty, at(1));
    aggregator.finish(due, at(1));
    let update = aggregator.next_update(at(2), NONE_DROPPED);
    assert_eq!(update.task_update.unwrap().new_tasks.len(), 1);
}

#[test]
fn cycle_publishes_before_it_cleans() {
    let mut aggregator = aggregator();
    let mut receiver = subscribe(&mut aggregator);
    aggregator.update_state(spawn(1, stats(true, Some(at(100)))));
    let due = Cycle { should_send: true, drained: false };
    aggregator.drain(due, Polled::Empty, at(1_000));
    let update = receiver.try_recv().unwrap().unwrap_or_else(|_| panic!());
    assert!(update.task_update.as_ref().unwrap().stats_update.contains_key(&1));
    assert_eq!(known(&mut aggregator), vec![1]);
    aggregator.finish(due, at(1_000));
    assert!(known(&mut aggregator).is_empty());
}

#[test]
fn details_can_be_asked_for_by_command() {
    let mut aggregator = aggregator();
    aggregator.update_state(spawn(1, stats(true, None)));
    let (stream_sender, mut answer) = oneshot::channel();
    let request: WatchRequest<TaskDetails> = WatchRequest { id: 1, stream_sender, buffer: 1 };
    let handled = aggregator.wake(Wake::Command(Command::WatchTaskDetail(request)), at(3));
    assert!(matches!(handled.reply, Reply::WatchTaskDetail(DetailsRequested::Subscribed)));
    let mut receiver = answer.try_recv().unwrap();
    let details = receiver.try_recv().unwrap().unwrap_or_else(|_| panic!());
    assert_eq!(details.task_id, Some(1));
}

#[test]
fn unknown_task_needs_no_channel() {
    let mut aggregator = aggregator();
    let (stream_sender, mut answer) = oneshot::channel();
    let request: WatchRequest<TaskDetails> = WatchRequest { id: 1, stream_sender, buffer: 0 };
    let handled = aggregator.wake(Wake::Command(Command::WatchTaskDetail(request)), at(3));
    assert!(matches!(handled.reply, Reply::WatchTaskDetail(DetailsRequested::NotFound(_))));
    assert!(matches!(answer.try_recv(), Err(oneshot::error::TryRecvError::Closed)));
}

#[test]
fn draining_is_asked_for_once() {
    let shared = Arc::new(Shared::default());
    let mut handle = Handle::new(shared.clone());
    assert_eq!(handle.trigger(), Exchange { before: false, after: true });
    assert_eq!(handle.trigger(), Exchange { before: true, after: true });
    assert_eq!(handle.has_flushed(), Exchange { before: true, after: false });
    assert_eq!(handle.has_flushed(), Exchange { before: false, after: false });
    assert_eq!(handle.trigger(), Exchange { before: false, after: true });
}

#[test]
fn request_works_on_its_own() {
    let mut flush = Flush::default();
    let mut journal = flush.journal();
    assert_eq!(flush.has_flushed(&mut journal), Exchange { before: false, after: false });
    assert_eq!(flush.trigger(&mut journal), Exchange { before: false, after: true });
    assert_eq!(flush.trigger(&mut journal), Exchange { before: true, after: true });
    assert!(flush.should_flush.notified().now_or_never().is_some());
    assert!(flush.should_flush.notified().now_or_never().is_none());
}

#[test]
fn asking_for_draining_wakes_who_waits() {
    let shared = Arc::new(Shared::default());
    let mut handle = Handle::new(shared.clone());
    let flush = &shared.flush;
    assert!(flush.should_flush.notified().now_or_never().is_none());
    handle.trigger();
    Handle::new(shared.clone()).trigger();
    assert!(flush.should_flush.notified().now_or_never().is_some());
    // It was asked for twice, but there is one wake-up until it is drained.
    assert!(flush.should_flush.notified().now_or_never().is_none());
    handle.trigger();
    assert!(flush.should_flush.notified().now_or_never().is_none());
    handle.has_flushed();
    // That the buffer was drained wakes nobody.
    assert!(flush.should_flush.notified().now_or_never().is_none());
    handle.trigger();
    assert!(flush.should_flush.notified().now_or_never().is_some());
}

#[test]
fn owner_keeps_a_journal_of_all_parts() {
    let mut shared = Shared::default();
    let mut journal = shared.journal();
    shared.dropped_tasks.count(2, &mut journal);
    shared.dropped_tasks.count(3, &mut journal);
    shared.dropped_async_ops.count(7, &mut journal);
    assert_eq!(shared.flush.trigger(&mut journal), Exchange { before: false, after: true });
    let dropped = shared.take_dropped(&mut journal);
    assert_eq!(dropped, DroppedEvents { tasks: 5, resources: 0, async_ops: 7 });
    assert_eq!(shared.take_dropped(&mut journal), NONE_DROPPED);
}

#[test]
fn nothing_was_lost_or_asked_for_at_first() {
    let shared = Arc::new(Shared::default());
    let mut aggregator = with_shared(&shared);
    assert_eq!(aggregator.has_flushed(), Exchange { before: false, after: false });
    let (sender, mut receiver) = mpsc::channel(1);
    assert!(aggregator.add_instrument_subscription(Watch::new(sender), at(0)).is_none());
    let update = receiver.try_recv().unwrap().unwrap_or_else(|_| panic!());
    assert_eq!(update.task_update.as_ref().unwrap().dropped_events, 0);
    assert_eq!(update.resource_update.as_ref().unwrap().dropped_events, 0);
    assert_eq!(update.async_op_update.as_ref().unwrap().dropped_events, 0);
}

#[test]
fn last_command_decides() {
    let mut aggregator = aggregator();
    let commands = [
        (Wake::Command(Command::Pause), Temporality::Paused),
        (Wake::Tick, Temporality::Paused),
        (Wake::Command(Command::Pause), Temporality::Paused),
        (Wake::FlushRequested, Temporality::Paused),
        (Wake::Command(Command::Resume), Temporality::Live),
        (Wake::Tick, Temporality::Live),
        (Wake::Command(Command::Pause), Temporality::Paused),
    ];
    for (wake, temporality) in commands {
        let handled = aggregator.wake(wake, at(1));
        assert!(matches!(handled.reply, Reply::Done));
        if let Next::Drain(cycle) = handled.next {
            aggregator.drain(cycle, Polled::Empty, at(1));
            aggregator.finish(cycle, at(1));
        }
        assert_eq!(aggregator.temporality(), temporality);
    }
}

#[test]
fn turned_away_subscription_comes_back() {
    let mut aggregator = aggregator();
    let (sender, receiver) = mpsc::channel(1);
    drop(receiver);
    let subscribe = Wake::Command(Command::Instrument(Watch::new(sender)));
    let handled = aggregator.wake(subscribe, at(1));
    assert!(matches!(handled.reply, Reply::Instrument(Some(_))));
    assert!(!aggregator.has_watchers());
}

#[test]
fn drained_cycle_lets_draining_be_asked_for_again() {
    let shared = Arc::new(Shared::default());
    let mut aggregator = with_shared(&shared);
    let mut producer = Handle::new(shared.clone());
    producer.trigger();
    let empty = Cycle { should_send: false, drained: false };
    assert_eq!(aggregator.drain(empty, Polled::Empty, at(1)), Next::Clean(empty));
    assert_eq!(aggregator.finish(empty, at(1)), Next::Wait { flushed: None });
    assert!(producer.trigger().before);
    let drained = Cycle { should_send: false, drained: true };
    let flushed = Some(Exchange { before: true, after: false });
    assert_eq!(aggregator.drain(drained, Polled::Empty, at(1)), Next::Clean(drained));
    assert!(producer.trigger().before);
    assert_eq!(aggregator.finish(drained, at(1)), Next::Wait { flushed });
    // The wake-up of the first request is there, and no other.
    assert!(shared.flush.should_flush.notified().now_or_never().is_some());
    assert!(shared.flush.should_flush.notified().now_or_never().is_none());
    assert!(!producer.trigger().before);
}

#[test]
fn request_stands_when_the_aggregator_ends() {
    let shared = Arc::new(Shared::default());
    let mut aggregator = with_shared(&shared);
    let mut producer = Handle::new(shared.clone());
    producer.trigger();
    aggregator.wake(Wake::CommandsClosed, at(1));
    assert!(producer.trigger().before);
    let drained = Cycle { should_send: true, drained: true };
    aggregator.drain(drained, Polled::Closed, at(1));
    assert!(producer.trigger().before);
}

#[test]
fn counts_are_read_only_for_an_update() {
    let shared = Arc::new(Shared::default());
    let mut aggregator = with_shared(&shared);
    let mut producer = Handle::new(shared.clone());
    producer.count_dropped(1, 2, 3);
    aggregator.update_state(spawn(1, stats(false, Some(at(0)))));
    let (stream_sender, _answer) = oneshot::channel();
    let request: WatchRequest<TaskDetails> = WatchRequest { id: 1, stream_sender, buffer: 1 };
    aggregator.add_task_detail_subscription(request, at(1));
    // An update is due, but only details are subscribed to.
    let due = Cycle { should_send: true, drained: true };
    aggregator.drain(due, Polled::Empty, at(2));
    aggregator.finish(due, at(1_000));
    aggregator.cleanup_closed(at(1_001));
    let dropped = producer.take_dropped();
    assert_eq!(dropped, DroppedEvents { tasks: 1, resources: 2, async_ops: 3 });
}

#[test]
fn cycle_ends_by_a_later_clock_than_it_publishes() {
    let mut aggregator = aggregator();
    let mut receiver = subscribe(&mut aggregator);
    aggregator.update_state(spawn(1, stats(true, Some(at(100)))));
    let due = Cycle { should_send: true, drained: false };
    aggregator.drain(due, Polled::Empty, at(110));
    let update = receiver.try_recv().unwrap().unwrap_or_else(|_| panic!());
    assert_eq!(update.now, Some(at(110)));
    aggregator.finish(due, at(111));
    assert!(known(&mut aggregator).is_empty());
}

#[test]
fn answers_of_an_exchange_are_read() {
    assert_eq!(Exchange::read(false, true, Ok(false)), Exchange { before: false, after: true });
    assert_eq!(Exchange::read(false, true, Err(true)), Exchange { before: true, after: true });
    assert_eq!(Exchange::read(true, false, Ok(true)), Exchange { before: true, after: false });
    assert_eq!(Exchange::read(true, false, Err(false)), Exchange { before: false, after: false });
}
