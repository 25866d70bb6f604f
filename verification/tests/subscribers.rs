use console_aggregator::aggregator::{Aggregator, Builder};
use console_aggregator::event::Event;
use console_aggregator::proto::{TaskDetails, Update};
use console_aggregator::release::{release, release_all};
use console_aggregator::shared::{DroppedEvents, Shared};
use console_aggregator::state::DetailsRequested;
use console_aggregator::stats::TaskStats;
use console_aggregator::time::Timestamp;
use console_aggregator::watch::{offer, retain_delivered, retain_flagged, Message, Watch, WatchRequest};
use std::sync::Arc;
use std::time::Duration;
use tokio::sync::{mpsc, oneshot};

fn at(seconds: i64) -> Timestamp {
    Timestamp { seconds, nanos: 0 }
}

fn aggregator() -> Aggregator {
    let builder = Builder { publish_interval: Duration::from_secs(1), retention: 1_000_000_000 };
    Aggregator::new(&builder, Arc::new(Shared::default()))
}

fn stats(histogram: Option<Vec<u8>>, dropped_at: Option<Timestamp>) -> TaskStats {
    TaskStats {
        is_dirty: false,
        dropped_at,
        message: Default::default(),
        poll_times_histogram: histogram,
    }
}

fn spawn(id: u64, histogram: Option<Vec<u8>>) -> Event {
    Event::Spawn {
        id,
        metadata: 1,
        stats: stats(histogram, None),
        fields: vec![],
        location: None,
    }
}

type Answer = oneshot::Receiver<mpsc::Receiver<Message<TaskDetails>>>;

fn request(id: u64, buffer: usize) -> (WatchRequest<TaskDetails>, Answer) {
    let (stream_sender, answer) = oneshot::channel();
    (WatchRequest { id, stream_sender, buffer }, answer)
}

fn watch<T>(buffer: usize) -> (Watch<T>, mpsc::Receiver<Message<T>>) {
    let (sender, receiver) = mpsc::channel(buffer);
    (Watch::new(sender), receiver)
}

fn received<T>(receiver: &mut mpsc::Receiver<Message<T>>) -> Option<Arc<T>> {
    match receiver.try_recv() {
        Ok(Ok(message)) => Some(message),
        _ => None,
    }
}

#[test]
fn update_reaches_a_subscriber_with_room() {
    let (mut watch, mut receiver) = watch::<u32>(2);
    assert!(watch.update(&Arc::new(5)));
    assert!(watch.update(&Arc::new(6)));
    assert_eq!(received(&mut receiver), Some(Arc::new(5)));
    assert_eq!(received(&mut receiver), Some(Arc::new(6)));
    assert_eq!(received(&mut receiver), None);
}

#[test]
fn update_is_refused_by_a_full_channel() {
    let (mut watch, mut receiver) = watch::<u32>(1);
    assert!(watch.update(&Arc::new(5)));
    assert!(!watch.update(&Arc::new(6)));
    assert_eq!(received(&mut receiver), Some(Arc::new(5)));
    // There is room again.
    assert!(watch.update(&Arc::new(7)));
    assert_eq!(received(&mut receiver), Some(Arc::new(7)));
}

#[test]
fn update_is_refused_by_a_subscriber_who_left() {
    let (mut watch, receiver) = watch::<u32>(1);
    drop(receiver);
    assert!(!watch.update(&Arc::new(5)));
}

#[test]
fn offering_tells_who_accepted() {
    let (first, mut first_receiver) = watch::<u32>(1);
    let (second, second_receiver) = watch::<u32>(1);
    let (third, mut third_receiver) = watch::<u32>(1);
    drop(second_receiver);
    let mut watchers = vec![first, second, third];
    assert_eq!(offer(&mut watchers, &Arc::new(9)), vec![true, false, true]);
    assert_eq!(watchers.len(), 3);
    assert_eq!(received(&mut first_receiver), Some(Arc::new(9)));
    assert_eq!(received(&mut third_receiver), Some(Arc::new(9)));
}

#[test]
fn flagged_items_stay_in_order() {
    let mut items = vec![1, 2, 3, 4, 5];
    let others = retain_flagged(&mut items, &vec![true, false, false, true, true]);
    assert_eq!((&items, others.len()), (&vec![1, 4, 5], 2));
    let others = retain_flagged(&mut items, &vec![true, true, true]);
    assert_eq!((&items, others.len()), (&vec![1, 4, 5], 0));
    let others = retain_flagged(&mut items, &vec![false, false, false]);
    assert_eq!((&items, others.len()), (&vec![], 3));
}

#[test]
fn those_who_do_not_accept_are_dropped() {
    let (first, first_receiver) = watch::<u32>(1);
    let (second, mut second_receiver) = watch::<u32>(2);
    let (third, mut third_receiver) = watch::<u32>(1);
    drop(first_receiver);
    let mut watchers = vec![first, second, third];
    assert_eq!(retain_delivered(&mut watchers, &Arc::new(1)).len(), 1);
    assert_eq!(watchers.len(), 2);
    // The third one has no room left.
    assert_eq!(retain_delivered(&mut watchers, &Arc::new(2)).len(), 1);
    assert_eq!(watchers.len(), 1);
    assert_eq!(received(&mut second_receiver), Some(Arc::new(1)));
    assert_eq!(received(&mut second_receiver), Some(Arc::new(2)));
    assert_eq!(received(&mut third_receiver), Some(Arc::new(1)));
    assert!(matches!(third_receiver.try_recv(), Err(mpsc::error::TryRecvError::Disconnected)));
}

#[test]
fn dead_subscription_is_not_added() {
    let mut aggregator = aggregator();
    let (watch, receiver) = watch::<Update>(1);
    drop(receiver);
    assert!(aggregator.add_instrument_subscription(watch, at(1)).is_some());
    assert!(!aggregator.has_watchers());
}

#[test]
fn full_subscription_is_let_go_of_at_once() {
    let mut aggregator = aggregator();
    let (mut watch, mut receiver) = watch::<Update>(1);
    let known = Arc::new(aggregator.initial_update(
        at(0),
        DroppedEvents { tasks: 0, resources: 0, async_ops: 0 },
    ));
    assert!(watch.update(&known));
    let turned_away = aggregator.add_instrument_subscription(watch, at(1));
    assert_eq!(received(&mut receiver).unwrap().now, Some(at(0)));
    assert!(matches!(receiver.try_recv(), Err(mpsc::error::TryRecvError::Disconnected)));
    assert!(turned_away.is_some());
}

#[test]
fn released_values_are_gone() {
    let (first, first_receiver) = watch::<u32>(1);
    let (second, second_receiver) = watch::<u32>(1);
    let receipt = release(first);
    assert!(first_receiver.is_closed() && !second_receiver.is_closed());
    let receipts = release_all(vec![second]);
    assert!(second_receiver.is_closed());
    drop((receipt, receipts));
}

#[test]
fn live_subscription_is_added() {
    let mut aggregator = aggregator();
    let (watch, mut receiver) = watch::<Update>(1);
    assert!(aggregator.add_instrument_subscription(watch, at(1)).is_none());
    assert!(aggregator.has_watchers());
    assert_eq!(received(&mut receiver).unwrap().now, Some(at(1)));
}

#[test]
fn only_those_who_accepted_are_enrolled() {
    let mut aggregator = aggregator();
    let (refusing, _refusing_receiver) = watch::<Update>(1);
    assert!(aggregator.enroll(refusing, false).is_some());
    assert!(!aggregator.has_watchers());
    let (accepting, mut accepting_receiver) = watch::<Update>(1);
    assert!(aggregator.enroll(accepting, true).is_none());
    assert!(aggregator.has_watchers());
    aggregator.publish(at(1));
    assert_eq!(received(&mut accepting_receiver).unwrap().now, Some(at(1)));
}

#[test]
fn publishing_drops_full_and_closed_subscribers() {
    let mut aggregator = aggregator();
    let (full, mut full_receiver) = watch::<Update>(1);
    let (closed, closed_receiver) = watch::<Update>(4);
    let (open, mut open_receiver) = watch::<Update>(4);
    assert!(aggregator.add_instrument_subscription(full, at(1)).is_none());
    assert!(aggregator.add_instrument_subscription(closed, at(2)).is_none());
    assert!(aggregator.add_instrument_subscription(open, at(3)).is_none());
    drop(closed_receiver);
    assert_eq!(aggregator.publish(at(4)).watchers.len(), 2);
    assert!(aggregator.has_watchers());
    assert_eq!(aggregator.publish(at(5)).watchers.len(), 0);
    assert_eq!(received(&mut full_receiver).unwrap().now, Some(at(1)));
    assert!(matches!(full_receiver.try_recv(), Err(mpsc::error::TryRecvError::Disconnected)));
    assert_eq!(received(&mut open_receiver).unwrap().now, Some(at(3)));
    assert_eq!(received(&mut open_receiver).unwrap().now, Some(at(4)));
    assert_eq!(received(&mut open_receiver).unwrap().now, Some(at(5)));
    drop(open_receiver);
    aggregator.publish(at(6));
    assert!(!aggregator.has_watchers());
}

#[test]
fn details_of_unknown_task_are_not_found() {
    let mut aggregator = aggregator();
    let (request, mut answer) = request(7, 1);
    let outcome = aggregator.add_task_detail_subscription(request, at(1));
    assert!(matches!(outcome, DetailsRequested::NotFound(_)));
    assert!(!aggregator.knows_task(7));
    // The requester learns of it at once.
    assert!(matches!(answer.try_recv(), Err(oneshot::error::TryRecvError::Closed)));
}

#[test]
fn details_of_known_task_are_sent_at_once() {
    let mut aggregator = aggregator();
    aggregator.update_state(spawn(7, Some(vec![1, 2])));
    let (request, mut answer) = request(7, 4);
    let outcome = aggregator.add_task_detail_subscription(request, at(1));
    assert!(matches!(outcome, DetailsRequested::Subscribed));
    let mut receiver = answer.try_recv().unwrap();
    let details = received(&mut receiver).unwrap();
    assert_eq!(details.task_id, Some(7));
    assert_eq!(details.now, Some(at(1)));
    assert_eq!(details.poll_times_histogram, Some(vec![1, 2]));
    // Later details come with every publish.
    assert!(aggregator.observe_task_stats(7, stats(Some(vec![3]), None)));
    aggregator.publish(at(2));
    let details = received(&mut receiver).unwrap();
    assert_eq!(details.now, Some(at(2)));
    assert_eq!(details.poll_times_histogram, Some(vec![3]));
    assert!(received(&mut receiver).is_none());
}

#[test]
fn details_without_histogram_have_none() {
    let mut aggregator = aggregator();
    aggregator.update_state(spawn(7, None));
    let (request, mut answer) = request(7, 1);
    aggregator.add_task_detail_subscription(request, at(1));
    let mut receiver = answer.try_recv().unwrap();
    assert_eq!(received(&mut receiver).unwrap().poll_times_histogram, None);
}

#[test]
fn abandoned_request_is_not_subscribed() {
    let mut aggregator = aggregator();
    aggregator.update_state(spawn(7, None));
    let (request, answer) = request(7, 1);
    drop(answer);
    let outcome = aggregator.add_task_detail_subscription(request, at(1));
    assert!(matches!(outcome, DetailsRequested::Abandoned));
}

#[test]
fn details_go_to_the_watchers_of_the_task_only() {
    let mut aggregator = aggregator();
    aggregator.update_state(spawn(7, Some(vec![7])));
    aggregator.update_state(spawn(8, Some(vec![8])));
    let (seven, mut seven_answer) = request(7, 4);
    let (also_seven, mut also_seven_answer) = request(7, 4);
    let (eight, mut eight_answer) = request(8, 4);
    aggregator.add_task_detail_subscription(seven, at(1));
    aggregator.add_task_detail_subscription(also_seven, at(1));
    aggregator.add_task_detail_subscription(eight, at(1));
    aggregator.publish(at(2));
    for answer in [&mut seven_answer, &mut also_seven_answer] {
        let mut receiver = answer.try_recv().unwrap();
        for _ in 0..2 {
            let details = received(&mut receiver).unwrap();
            assert_eq!((details.task_id, &details.poll_times_histogram), (Some(7), &Some(vec![7])));
        }
        assert!(received(&mut receiver).is_none());
    }
    let mut receiver = eight_answer.try_recv().unwrap();
    assert_eq!(received(&mut receiver).unwrap().task_id, Some(8));
    assert_eq!(received(&mut receiver).unwrap().task_id, Some(8));
}

#[test]
fn watchers_of_a_forgotten_task_are_dropped() {
    let mut aggregator = aggregator();
    aggregator.update_state(spawn(7, None));
    let (request, mut answer) = request(7, 4);
    aggregator.add_task_detail_subscription(request, at(1));
    let mut receiver = answer.try_recv().unwrap();
    assert!(received(&mut receiver).is_some());
    assert!(aggregator.observe_task_stats(7, stats(None, Some(at(1)))));
    aggregator.cleanup_closed(at(10));
    assert!(!aggregator.observe_task_stats(7, stats(None, None)));
    assert!(matches!(receiver.try_recv(), Err(mpsc::error::TryRecvError::Empty)));
    let departed = aggregator.publish(at(11));
    assert_eq!(departed.details_watchers.len(), 1);
    assert_eq!(departed.details_watchers[&7].len(), 1);
    // Nothing was sent to them, and they learn of it at once.
    assert!(matches!(receiver.try_recv(), Err(mpsc::error::TryRecvError::Disconnected)));
}

#[test]
fn details_watcher_without_room_is_dropped() {
    let mut aggregator = aggregator();
    aggregator.update_state(spawn(7, None));
    let (request, mut answer) = request(7, 1);
    aggregator.add_task_detail_subscription(request, at(1));
    // The first details were not received yet.
    assert_eq!(aggregator.publish(at(2)).details_watchers[&7].len(), 1);
    let mut receiver = answer.try_recv().unwrap();
    assert_eq!(received(&mut receiver).unwrap().now, Some(at(1)));
    assert!(matches!(receiver.try_recv(), Err(mpsc::error::TryRecvError::Disconnected)));
}

#[test]
fn details_come_by_a_channel_of_the_requested_size() {
    let mut aggregator = aggregator();
    aggregator.update_state(spawn(7, None));
    for buffer in [1, 3, 64] {
        let (request, mut answer) = request(7, buffer);
        aggregator.add_task_detail_subscription(request, at(1));
        assert_eq!(answer.try_recv().unwrap().max_capacity(), buffer);
    }
}

#[test]
fn answered_requester_who_refuses_is_not_subscribed() {
    let mut aggregator = aggregator();
    aggregator.update_state(spawn(7, None));
    let details = Arc::new(TaskDetails { task_id: Some(7), now: None, poll_times_histogram: None });
    let (refusing, receiver) = watch::<TaskDetails>(1);
    drop(receiver);
    let outcome = aggregator.enroll_for_details(7, &details, refusing, Ok(()));
    assert!(matches!(outcome, DetailsRequested::Refused(_)));
    let (accepting, mut receiver) = watch::<TaskDetails>(2);
    let outcome = aggregator.enroll_for_details(7, &details, accepting, Ok(()));
    assert!(matches!(outcome, DetailsRequested::Subscribed));
    assert_eq!(received(&mut receiver).unwrap().now, None);
    aggregator.publish(at(2));
    assert_eq!(received(&mut receiver).unwrap().now, Some(at(2)));
}

#[test]
fn nothing_is_sent_to_a_requester_who_did_not_wait() {
    let mut aggregator = aggregator();
    aggregator.update_state(spawn(7, None));
    let details = Arc::new(TaskDetails { task_id: Some(7), now: None, poll_times_histogram: None });
    let (abandoned, mut receiver) = watch::<TaskDetails>(1);
    let (_sender, returned) = mpsc::channel(1);
    let outcome = aggregator.enroll_for_details(7, &details, abandoned, Err(returned));
    assert!(matches!(outcome, DetailsRequested::Abandoned));
    assert!(matches!(receiver.try_recv(), Err(mpsc::error::TryRecvError::Disconnected)));
}

#[test]
fn who_has_room_gets_every_update_in_order() {
    let mut aggregator = aggregator();
    let (watch, mut receiver) = watch::<Update>(8);
    assert!(aggregator.add_instrument_subscription(watch, at(0)).is_none());
    for second in 1..6 {
        assert!(aggregator.publish(at(second)).watchers.is_empty());
    }
    for second in 0..6 {
        assert_eq!(received(&mut receiver).unwrap().now, Some(at(second)));
    }
    assert!(received(&mut receiver).is_none());
}
