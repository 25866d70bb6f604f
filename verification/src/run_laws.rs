//! What holds of the aggregator over many publishes and many cycles.

use crate::access::Deed;
use crate::entities::{AsyncOp, Resource, Task};
use crate::event::{Command, Event};
use crate::flush::{drained, reading, Exchange};
use crate::laws::{
    last_state, law_nobody_who_accepts_is_dropped, lemma_quiet_run_grows_alike,
    lemma_wakeups_by_draining, lemma_wakeups_grow, metadata_in, others_left_alone, quiet_run,
    quiet_step, stayed, wakeups_in,
};
use crate::operation_laws::{
    learned, lemma_published_is_sent_to_all, lemma_updated_is_learned, listed, sent_to_all, tells,
};
use crate::outlet::refused;
use crate::part_laws::{
    counts_taken, lists, number_those, shared_out, shared_out_at, tells_async_op, tells_resource,
    tells_task,
};
use crate::proto::{AsyncOpMessage, PollOp, ResourceMessage, TaskDetails, TaskMessage, Update};
use crate::run::{
    finished, next_after_wake, published_if_due, woken, Cycle, Next, Reply, Wake,
};
use crate::shared::{DroppedEvents, Shared};
use crate::state::{Departed, State, Temporality};
use crate::stats::{AsyncOpStats, ResourceStats, TaskStats};
use crate::time::Timestamp;
use crate::watch::{accepts, Message, Status, Watch};
use console_api::register_metadata::NewMetadata;
use std::sync::Arc;
use vstd::prelude::*;

verus! {

// ==== many publishes ====

/// What happened up to a publish, and the publish.
pub struct Publish {
    /// The states through which the aggregator went before it published.
    pub states: Seq<State>,
    pub now: Timestamp,
    pub dropped: DroppedEvents,
    pub update: Arc<Update>,
    pub departed: Departed,
    /// The state after the publish.
    pub after: State,
}

/// The aggregator goes from `before` to a publish without any other.
pub open spec fn leads_to(before: State, publish: Publish) -> bool {
    let ready = last_state(before, publish.states);
    &&& quiet_run(before, publish.states)
    &&& ready.published_as(
        publish.now,
        publish.dropped,
        publish.update,
        publish.departed,
        publish.after,
    )
}

/// The state after `publishes`.
pub open spec fn after_publishes(before: State, publishes: Seq<Publish>) -> State {
    if publishes.len() == 0 {
        before
    } else {
        publishes.last().after
    }
}

/// The aggregator goes from `before` through `publishes`, one after the other.
pub open spec fn publishes_in_turn(before: State, publishes: Seq<Publish>) -> bool
    decreases publishes.len(),
{
    publishes.len() > 0 ==> {
        &&& publishes_in_turn(before, publishes.drop_last())
        &&& leads_to(after_publishes(before, publishes.drop_last()), publishes.last())
    }
}

/// The callsite metadata in all updates, one update after the other.
pub open spec fn joined_metadata(publishes: Seq<Publish>) -> Seq<NewMetadata>
    decreases publishes.len(),
{
    if publishes.len() == 0 {
        Seq::empty()
    } else {
        joined_metadata(publishes.drop_last()) + metadata_in(*publishes.last().update)
    }
}

/// The polls in all updates, one update after the other.
pub open spec fn joined_poll_ops(publishes: Seq<Publish>) -> Seq<PollOp>
    decreases publishes.len(),
{
    if publishes.len() == 0 {
        Seq::empty()
    } else {
        joined_poll_ops(publishes.drop_last())
            + publishes.last().update.resource_update->0.new_poll_ops@
    }
}

/// The updates as messages, one after the other.
pub open spec fn messages(publishes: Seq<Publish>) -> Seq<Message<Update>>
    decreases publishes.len(),
{
    if publishes.len() == 0 {
        Seq::empty()
    } else {
        messages(publishes.drop_last()).push(Ok(publishes.last().update))
    }
}

/// What is known and not new.
pub open spec fn not_new<A>(all: Seq<A>, new: Seq<A>) -> Seq<A> {
    all.take(all.len() - new.len())
}

/// Over any number of publishes, all callsite metadata and all polls are told
/// once and in order: what was not new before the first publish, followed by
/// what the updates tell and by what is still new, is all that is known.
pub proof fn law_updates_tell_everything_once(before: State, publishes: Seq<Publish>)
    requires
        before.valid(),
        publishes_in_turn(before, publishes),
    ensures
        ({
            let after = after_publishes(before, publishes);
            &&& after.all_metadata == not_new(before.all_metadata, before.new_metadata)
                + joined_metadata(publishes) + after.new_metadata
            &&& after.all_poll_ops == not_new(before.all_poll_ops, before.new_poll_ops)
                + joined_poll_ops(publishes) + after.new_poll_ops
            &&& publishes.len() > 0 ==> after.new_metadata.len() == 0 && after.new_poll_ops.len()
                == 0
        }),
    decreases publishes.len(),
{
    let told_metadata = not_new(before.all_metadata, before.new_metadata);
    let told_poll_ops = not_new(before.all_poll_ops, before.new_poll_ops);
    if publishes.len() == 0 {
        assert(before.all_metadata =~= told_metadata + Seq::empty() + before.new_metadata);
        assert(before.all_poll_ops =~= told_poll_ops + Seq::empty() + before.new_poll_ops);
    } else {
        let earlier = after_publishes(before, publishes.drop_last());
        let last = publishes.last();
        let ready = last_state(earlier, last.states);
        law_updates_tell_everything_once(before, publishes.drop_last());
        lemma_quiet_run_grows_alike(earlier, last.states);
        assert(metadata_in(*last.update) =~= ready.new_metadata);
        assert(ready.all_metadata =~= told_metadata + joined_metadata(publishes)
            + last.after.new_metadata) by {
            assert(ready.all_metadata == told_metadata + joined_metadata(publishes.drop_last())
                + earlier.new_metadata + ready.new_metadata.skip(
                earlier.new_metadata.len() as int,
            ));
            assert(earlier.new_metadata =~= ready.new_metadata.take(
                earlier.new_metadata.len() as int,
            ));
        }
        assert(ready.all_poll_ops =~= told_poll_ops + joined_poll_ops(publishes)
            + last.after.new_poll_ops) by {
            assert(ready.all_poll_ops == told_poll_ops + joined_poll_ops(publishes.drop_last())
                + earlier.new_poll_ops + ready.new_poll_ops.skip(
                earlier.new_poll_ops.len() as int,
            ));
            assert(earlier.new_poll_ops =~= ready.new_poll_ops.take(
                earlier.new_poll_ops.len() as int,
            ));
        }
    }
}

/// A subscriber is told everything once and in order: its first update followed
/// by those of any number of publishes, without what is in both the first and
/// the second, is all that is known.
pub proof fn law_subscriber_is_told_everything_once(
    before: State,
    now: Timestamp,
    dropped: DroppedEvents,
    initial: Update,
    publishes: Seq<Publish>,
)
    requires
        before.valid(),
        before.is_initial_update(now, dropped, initial),
        publishes_in_turn(before, publishes),
        publishes.len() > 0,
    ensures
        after_publishes(before, publishes).all_metadata == metadata_in(initial) + joined_metadata(
            publishes,
        ).skip(before.new_metadata.len() as int),
        after_publishes(before, publishes).all_poll_ops
            == initial.resource_update->0.new_poll_ops@ + joined_poll_ops(publishes).skip(
            before.new_poll_ops.len() as int,
        ),
{
    let after = after_publishes(before, publishes);
    let told_metadata = not_new(before.all_metadata, before.new_metadata);
    let told_poll_ops = not_new(before.all_poll_ops, before.new_poll_ops);
    law_updates_tell_everything_once(before, publishes);
    lemma_publishes_keep_history(before, publishes);
    assert(after.all_metadata =~= told_metadata + joined_metadata(publishes));
    assert(after.all_poll_ops =~= told_poll_ops + joined_poll_ops(publishes));
    assert(after.all_metadata =~= before.all_metadata + joined_metadata(publishes).skip(
        before.new_metadata.len() as int,
    ));
    assert(after.all_poll_ops =~= before.all_poll_ops + joined_poll_ops(publishes).skip(
        before.new_poll_ops.len() as int,
    ));
}

/// What is known stays known over any number of publishes.
proof fn lemma_publishes_keep_history(before: State, publishes: Seq<Publish>)
    requires
        publishes_in_turn(before, publishes),
    ensures
        before.all_metadata.is_prefix_of(after_publishes(before, publishes).all_metadata),
        before.all_poll_ops.is_prefix_of(after_publishes(before, publishes).all_poll_ops),
    decreases publishes.len(),
{
    if publishes.len() > 0 {
        let earlier = after_publishes(before, publishes.drop_last());
        lemma_publishes_keep_history(before, publishes.drop_last());
        lemma_quiet_run_grows_alike(earlier, publishes.last().states);
    }
}

/// Some of `after` is the subscriber `before`, which was sent all updates of
/// `publishes`, in order, and nothing else.
pub open spec fn got_every_update(
    before: Watch<Update>,
    publishes: Seq<Publish>,
    after: Seq<Watch<Update>>,
) -> bool {
    exists|j: int|
        {
            &&& 0 <= j < after.len()
            &&& (#[trigger] after[j]).channel() == before.channel()
            &&& after[j]@ == before@ + messages(publishes)
        }
}

/// The subscriber `before` was sent the updates of all publishes before the one
/// numbered `k`, in order and nothing else. In that one its channel had no
/// place, and it was dropped.
pub open spec fn was_dropped_by(before: Watch<Update>, publishes: Seq<Publish>, k: int) -> bool {
    &&& 0 <= k < publishes.len()
    &&& refused(before.channel())
    &&& got_every_update(before, publishes.take(k), publishes[k].departed.watchers)
}

/// A subscriber is sent every update, in order and nothing else, until it is
/// dropped because its channel had no place.
pub proof fn law_subscriber_gets_every_update_until_dropped(
    before: State,
    publishes: Seq<Publish>,
    i: int,
)
    requires
        publishes_in_turn(before, publishes),
        0 <= i < before.watchers.len(),
    ensures
        ({
            ||| got_every_update(
                before.watchers[i],
                publishes,
                after_publishes(before, publishes).watchers,
            )
            ||| exists|k: int| was_dropped_by(before.watchers[i], publishes, k)
        }),
    decreases publishes.len(),
{
    let watch = before.watchers[i];
    if publishes.len() == 0 {
        assert(before.watchers[i]@ =~= watch@ + messages(publishes));
    } else {
        let fewer = publishes.drop_last();
        let earlier = after_publishes(before, fewer);
        law_subscriber_gets_every_update_until_dropped(before, fewer, i);
        if got_every_update(watch, fewer, earlier.watchers) {
            lemma_last_publish_reaches_or_drops(before, publishes, watch);
        } else {
            let k = choose|k: int| was_dropped_by(watch, fewer, k);
            assert(fewer.take(k) =~= publishes.take(k));
            assert(fewer[k] == publishes[k]);
            assert(was_dropped_by(watch, publishes, k));
        }
    }
}

/// Who was sent all updates but the last is sent that one too, or is dropped.
proof fn lemma_last_publish_reaches_or_drops(
    before: State,
    publishes: Seq<Publish>,
    watch: Watch<Update>,
)
    requires
        publishes_in_turn(before, publishes),
        publishes.len() > 0,
        got_every_update(
            watch,
            publishes.drop_last(),
            after_publishes(before, publishes.drop_last()).watchers,
        ),
    ensures
        ({
            ||| got_every_update(watch, publishes, publishes.last().after.watchers)
            ||| was_dropped_by(watch, publishes, publishes.len() - 1)
        }),
{
    let earlier = after_publishes(before, publishes.drop_last());
    let last = publishes.last();
    let ready = last_state(earlier, last.states);
    let j = choose|j: int|
        {
            &&& 0 <= j < earlier.watchers.len()
            &&& (#[trigger] earlier.watchers[j]).channel() == watch.channel()
            &&& earlier.watchers[j]@ == watch@ + messages(publishes.drop_last())
        };
    lemma_quiet_run_leaves_watchers_alone(earlier, last.states);
    assert(ready.watchers[j] == earlier.watchers[j]);
    law_nobody_who_accepts_is_dropped(
        ready.watchers,
        last.update,
        last.after.watchers,
        last.departed.watchers,
    );
    if stayed(ready.watchers[j], last.update, last.after.watchers) {
        let k = choose|k: int|
            0 <= k < last.after.watchers.len() && accepts(
                ready.watchers[j],
                last.update,
                #[trigger] last.after.watchers[k],
            );
        assert(last.after.watchers[k]@ =~= watch@ + messages(publishes));
    } else {
        let dropped = last.departed.watchers;
        let k = choose|k: int| 0 <= k < dropped.len() && dropped[k] == ready.watchers[j];
        assert(dropped[k].channel() == watch.channel());
        assert(publishes.take(publishes.len() - 1) =~= publishes.drop_last());
    }
}

/// `later` are the lists `earlier`, to which subscribers may have been added.
pub open spec fn only_added(
    earlier: Map<u64, Seq<Watch<TaskDetails>>>,
    later: Map<u64, Seq<Watch<TaskDetails>>>,
) -> bool {
    forall|id: u64| #[trigger]
        earlier.contains_key(id) ==> later.contains_key(id) && earlier[id].is_prefix_of(later[id])
}

/// While nothing is published, nothing is sent to those who subscribed before,
/// and nobody is dropped.
proof fn lemma_quiet_run_leaves_watchers_alone(before: State, states: Seq<State>)
    requires
        quiet_run(before, states),
    ensures
        before.watchers.is_prefix_of(last_state(before, states).watchers),
        only_added(before.details_watchers, last_state(before, states).details_watchers),
    decreases states.len(),
{
    if states.len() > 0 {
        let earlier = last_state(before, states.drop_last());
        let after = states.last();
        lemma_quiet_run_leaves_watchers_alone(before, states.drop_last());
        assert(quiet_step(earlier, after));
        assert(earlier.watchers.is_prefix_of(after.watchers));
        assert(only_added(earlier.details_watchers, after.details_watchers));
        assert forall|id: u64| #[trigger]
            before.details_watchers.contains_key(id) implies after.details_watchers.contains_key(id)
            && before.details_watchers[id].is_prefix_of(after.details_watchers[id]) by {
            assert(earlier.details_watchers.contains_key(id));
        }
    }
}

// ==== many cycles ====

/// What was observed of some entity turns `before` into `after`.
pub open spec fn observes(before: State, after: State) -> bool {
    ||| exists|id: u64, newer: TaskStats| after == before.with_task_stats(id, newer)
    ||| exists|id: u64, newer: ResourceStats| after == before.with_resource_stats(id, newer)
    ||| exists|id: u64, newer: AsyncOpStats| after == before.with_async_op_stats(id, newer)
}

/// The aggregator goes from `before` through `states` by taking in one
/// observation after the other.
pub open spec fn observing(before: State, states: Seq<State>) -> bool
    decreases states.len(),
{
    states.len() > 0 ==> {
        &&& observing(before, states.drop_last())
        &&& observes(last_state(before, states.drop_last()), states.last())
    }
}

/// One cycle: what woke the aggregator and what came of that, the events that
/// the buffer held, and the end. Statistics are observed before each of these.
pub struct Round {
    pub observed_before_waking: Seq<State>,
    pub wake: Wake,
    pub woken_at: Timestamp,
    pub reply: Reply,
    /// The state once what woke the aggregator was handled.
    pub woken: State,
    pub events: Seq<Event>,
    pub observed_when_empty: Seq<State>,
    pub published_at: Timestamp,
    /// The state once what is new was published, if that was due.
    pub published: State,
    pub observed_before_end: Seq<State>,
    pub cleaned_at: Timestamp,
    pub flushed: Option<Exchange>,
    /// The state after the cycle.
    pub after: State,
}

impl Round {
    /// The state that was woken, if the cycle began in `before`.
    pub open spec fn waking(self, before: State) -> State {
        last_state(before, self.observed_before_waking)
    }

    /// The state when the buffer was found to be empty.
    pub open spec fn emptied(self) -> State {
        last_state(updated_by_all(self.woken, self.events), self.observed_when_empty)
    }

    /// The state before what is not needed any more was dropped.
    pub open spec fn ending(self) -> State {
        last_state(self.published, self.observed_before_end)
    }
}

/// The state after `events`, one after the other.
pub open spec fn updated_by_all(before: State, events: Seq<Event>) -> State
    decreases events.len(),
{
    if events.len() == 0 {
        before
    } else {
        updated_by_all(before, events.drop_last()).updated(events.last())
    }
}

/// The aggregator goes from `before` through one cycle.
pub open spec fn goes_round(before: State, round: Round) -> bool {
    &&& observing(before, round.observed_before_waking)
    &&& woken(round.waking(before), round.wake, round.woken_at, round.reply, round.woken)
    &&& next_after_wake(round.waking(before), round.wake) matches Next::Drain(cycle)
    &&& observing(updated_by_all(round.woken, round.events), round.observed_when_empty)
    &&& ({
        let drained = Cycle { drained: round.events.len() > 0, ..cycle };
        &&& published_if_due(round.emptied(), drained, round.published_at, round.published)
        &&& observing(round.published, round.observed_before_end)
        &&& finished(round.ending(), drained, round.cleaned_at, round.flushed, round.after)
    })
}

/// The state after `rounds`.
pub open spec fn after_rounds(before: State, rounds: Seq<Round>) -> State {
    if rounds.len() == 0 {
        before
    } else {
        rounds.last().after
    }
}

/// The aggregator goes from `before` through `rounds`, one after the other.
pub open spec fn goes_rounds(before: State, rounds: Seq<Round>) -> bool
    decreases rounds.len(),
{
    rounds.len() > 0 ==> {
        &&& goes_rounds(before, rounds.drop_last())
        &&& goes_round(after_rounds(before, rounds.drop_last()), rounds.last())
    }
}

/// What the last of the commands to pause and to resume asks for, or `at_first`
/// where there was none.
pub open spec fn last_command(at_first: Temporality, rounds: Seq<Round>) -> Temporality
    decreases rounds.len(),
{
    if rounds.len() == 0 {
        at_first
    } else {
        match rounds.last().wake {
            Wake::Command(Command::Pause) => Temporality::Paused,
            Wake::Command(Command::Resume) => Temporality::Live,
            _ => last_command(at_first, rounds.drop_last()),
        }
    }
}

/// The aggregator is paused if the last of the commands to pause and to resume
/// was to pause, whatever else happened.
pub proof fn law_last_command_decides(before: State, rounds: Seq<Round>)
    requires
        goes_rounds(before, rounds),
    ensures
        after_rounds(before, rounds).temporality == last_command(before.temporality, rounds),
    decreases rounds.len(),
{
    if rounds.len() > 0 {
        let round = rounds.last();
        let earlier = after_rounds(before, rounds.drop_last());
        law_last_command_decides(before, rounds.drop_last());
        lemma_observing_leaves_others_alone(earlier, round.observed_before_waking);
        lemma_events_leave_others_alone(round.woken, round.events);
        lemma_observing_leaves_others_alone(
            updated_by_all(round.woken, round.events),
            round.observed_when_empty,
        );
        lemma_observing_leaves_others_alone(round.published, round.observed_before_end);
    }
}

/// Events change only what is known.
proof fn lemma_events_leave_others_alone(before: State, events: Seq<Event>)
    ensures
        others_left_alone(before, updated_by_all(before, events)),
    decreases events.len(),
{
    if events.len() > 0 {
        lemma_events_leave_others_alone(before, events.drop_last());
    }
}

/// Observations change only statistics.
proof fn lemma_observing_leaves_others_alone(before: State, states: Seq<State>)
    requires
        observing(before, states),
    ensures
        others_left_alone(before, last_state(before, states)),
    decreases states.len(),
{
    if states.len() > 0 {
        lemma_observing_leaves_others_alone(before, states.drop_last());
    }
}

/// The aggregator gets from `before` to `after` without publishing.
pub open spec fn quietly_leads_to(before: State, after: State) -> bool {
    exists|states: Seq<State>| #[trigger]
        quiet_run(before, states) && last_state(before, states) == after
}

/// While the aggregator is paused, nothing is published and nothing is lost:
/// those who subscribed stay and are sent nothing, and what is new stays new and
/// is only added to, so that the update after the pause tells of it.
pub proof fn law_nothing_is_sent_or_lost_while_paused(before: State, rounds: Seq<Round>)
    requires
        goes_rounds(before, rounds),
        before.temporality == Temporality::Paused,
        forall|i: int|
            #![trigger rounds[i]]
            0 <= i < rounds.len() ==> rounds[i].wake != Wake::Command(Command::Resume),
    ensures
        ({
            let after = after_rounds(before, rounds);
            &&& after.temporality == Temporality::Paused
            &&& quietly_leads_to(before, after)
            &&& before.watchers.is_prefix_of(after.watchers)
            &&& only_added(before.details_watchers, after.details_watchers)
            &&& before.all_metadata.is_prefix_of(after.all_metadata)
            &&& before.new_metadata.is_prefix_of(after.new_metadata)
            &&& before.all_poll_ops.is_prefix_of(after.all_poll_ops)
            &&& before.new_poll_ops.is_prefix_of(after.new_poll_ops)
        }),
{
    let states = lemma_paused_rounds_are_quiet(before, rounds);
    lemma_quiet_run_leaves_watchers_alone(before, states);
    lemma_quiet_run_grows_alike(before, states);
}

/// The states through which the aggregator goes while it is paused.
proof fn lemma_paused_rounds_are_quiet(before: State, rounds: Seq<Round>) -> (states: Seq<State>)
    requires
        goes_rounds(before, rounds),
        before.temporality == Temporality::Paused,
        forall|i: int|
            #![trigger rounds[i]]
            0 <= i < rounds.len() ==> rounds[i].wake != Wake::Command(Command::Resume),
    ensures
        quiet_run(before, states),
        last_state(before, states) == after_rounds(before, rounds),
        after_rounds(before, rounds).temporality == Temporality::Paused,
    decreases rounds.len(),
{
    if rounds.len() == 0 {
        Seq::empty()
    } else {
        let earlier = after_rounds(before, rounds.drop_last());
        let round = rounds.last();
        assert forall|i: int|
            #![trigger rounds.drop_last()[i]]
            0 <= i < rounds.drop_last().len() implies rounds.drop_last()[i].wake != Wake::Command(
            Command::Resume,
        ) by {
            assert(rounds.drop_last()[i] == rounds[i]);
        }
        let states = lemma_paused_rounds_are_quiet(before, rounds.drop_last());
        assert(rounds[rounds.len() - 1] == round);
        assert(round.wake != Wake::Command(Command::Resume));
        lemma_observing_leaves_others_alone(earlier, round.observed_before_waking);
        let to_waking = lemma_observing_is_quiet(before, states, round.observed_before_waking);
        assert(quiet_step(round.waking(earlier), round.woken));
        let to_woken = to_waking.push(round.woken);
        assert(to_woken.drop_last() =~= to_waking);
        assert(quiet_run(before, to_woken));
        let taken_in = updated_by_all(round.woken, round.events);
        lemma_events_leave_others_alone(round.woken, round.events);
        let to_taken_in = lemma_events_are_quiet(before, to_woken, round.events);
        lemma_observing_leaves_others_alone(taken_in, round.observed_when_empty);
        let to_emptied = lemma_observing_is_quiet(
            before,
            to_taken_in,
            round.observed_when_empty,
        );
        assert(round.published == round.emptied());
        lemma_observing_leaves_others_alone(round.published, round.observed_before_end);
        let to_ending = lemma_observing_is_quiet(before, to_emptied, round.observed_before_end);
        let cleaned = round.ending().cleaned(round.cleaned_at);
        assert(quiet_step(round.ending(), cleaned));
        let to_cleaned = to_ending.push(cleaned);
        assert(to_cleaned.drop_last() =~= to_ending);
        assert(quiet_run(before, to_cleaned));
        match round.flushed {
            Some(exchange) => {
                assert(cleaned.flushed(exchange, round.after));
                assert(quiet_step(cleaned, round.after));
                let to_end = to_cleaned.push(round.after);
                assert(to_end.drop_last() =~= to_cleaned);
                assert(quiet_run(before, to_end));
                to_end
            },
            None => to_cleaned,
        }
    }
}

/// The states through which the aggregator goes while it takes in observations.
proof fn lemma_observing_is_quiet(before: State, states: Seq<State>, observed: Seq<State>) -> (
    longer: Seq<State>)
    requires
        quiet_run(before, states),
        observing(last_state(before, states), observed),
    ensures
        quiet_run(before, longer),
        last_state(before, longer) == last_state(last_state(before, states), observed),
    decreases observed.len(),
{
    if observed.len() == 0 {
        states
    } else {
        let shorter = lemma_observing_is_quiet(before, states, observed.drop_last());
        assert(observes(last_state(before, shorter), observed.last()));
        assert(quiet_step(last_state(before, shorter), observed.last()));
        let longer = shorter.push(observed.last());
        assert(longer.drop_last() =~= shorter);
        longer
    }
}

/// The states through which the aggregator goes while it takes in events.
proof fn lemma_events_are_quiet(before: State, states: Seq<State>, events: Seq<Event>) -> (longer:
    Seq<State>)
    requires
        quiet_run(before, states),
    ensures
        quiet_run(before, longer),
        last_state(before, longer) == updated_by_all(last_state(before, states), events),
    decreases events.len(),
{
    if events.len() == 0 {
        states
    } else {
        let shorter = lemma_events_are_quiet(before, states, events.drop_last());
        let after = updated_by_all(last_state(before, states), events);
        assert(after == last_state(before, shorter).updated(events.last()));
        assert(quiet_step(last_state(before, shorter), after));
        let longer = shorter.push(after);
        assert(longer.drop_last() =~= shorter);
        longer
    }
}

// ==== what one cycle does to what is shared ====

/// How often somebody tried to change the flag.
pub open spec fn attempts_in(deeds: Seq<Deed>) -> nat
    decreases deeds.len(),
{
    if deeds.len() == 0 {
        0
    } else {
        attempts_in(deeds.drop_last()) + if deeds.last() is Exchanged {
            1nat
        } else {
            0nat
        }
    }
}

/// One more deed counts if it is an attempt.
proof fn lemma_attempts_grow(deeds: Seq<Deed>, deed: Deed)
    ensures
        attempts_in(deeds.push(deed)) == attempts_in(deeds) + if deed is Exchanged {
            1nat
        } else {
            0nat
        },
{
    assert(deeds.push(deed).drop_last() =~= deeds);
}

/// Reading the counts of lost events touches neither the flag nor the wake-up.
proof fn lemma_taking_leaves_flag_alone(
    shared: Arc<Shared>,
    before: Seq<Deed>,
    dropped: DroppedEvents,
    after: Seq<Deed>,
)
    requires
        shared.took(before, dropped, after),
    ensures
        attempts_in(after) == attempts_in(before),
        wakeups_in(after) == wakeups_in(before),
{
    let (tasks, resources, async_ops) = choose|tasks: usize, resources: usize, async_ops: usize|
        {
            &&& after == before + #[trigger] shared.takings(tasks, resources, async_ops)
            &&& dropped.tasks == tasks
            &&& dropped.resources == resources
            &&& dropped.async_ops == async_ops
        };
    let takings = after.skip(before.len() as int);
    assert(takings =~= shared.takings(tasks, resources, async_ops));
    let first = before.push(takings[0]);
    let second = first.push(takings[1]);
    assert(after =~= second.push(takings[2]));
    lemma_attempts_grow(before, takings[0]);
    lemma_attempts_grow(first, takings[1]);
    lemma_attempts_grow(second, takings[2]);
    lemma_wakeups_grow(before, takings[0]);
    lemma_wakeups_grow(first, takings[1]);
    lemma_wakeups_grow(second, takings[2]);
}

/// In a cycle the flag is cleared once, at its end, if the buffer held an event,
/// and is left alone otherwise. No wake-up is given.
pub proof fn law_flag_is_cleared_once_if_drained(before: State, round: Round)
    requires
        goes_round(before, round),
    ensures
        round.flushed is Some <==> round.events.len() > 0,
        round.flushed matches Some(exchange) ==> drained(
            round.ending().deeds,
            exchange,
            round.after.deeds,
        ),
        attempts_in(round.ending().deeds) == attempts_in(before.deeds),
        attempts_in(round.after.deeds) == attempts_in(before.deeds) + if round.events.len() > 0 {
            1nat
        } else {
            0nat
        },
        wakeups_in(round.after.deeds) == wakeups_in(before.deeds),
{
    let waking = round.waking(before);
    let emptied = round.emptied();
    let ending = round.ending();
    lemma_observing_leaves_others_alone(before, round.observed_before_waking);
    if let Wake::Command(Command::Instrument(subscription)) = round.wake {
        let turned_away = round.reply->Instrument_0;
        let (dropped, update) = choose|dropped: DroppedEvents, update: Arc<Update>| #[trigger]
            waking.subscribed_as(
                subscription,
                round.woken_at,
                dropped,
                update,
                turned_away,
                round.woken,
            );
        lemma_taking_leaves_flag_alone(waking.shared, waking.deeds, dropped, round.woken.deeds);
    }
    lemma_events_leave_others_alone(round.woken, round.events);
    lemma_observing_leaves_others_alone(
        updated_by_all(round.woken, round.events),
        round.observed_when_empty,
    );
    if round.published != emptied {
        let departed = choose|departed: Departed| #[trigger]
            emptied.published(round.published_at, departed, round.published);
        let (dropped, update) = choose|dropped: DroppedEvents, update: Arc<Update>| #[trigger]
            emptied.published_as(round.published_at, dropped, update, departed, round.published);
        lemma_taking_leaves_flag_alone(
            emptied.shared,
            emptied.deeds,
            dropped,
            round.published.deeds,
        );
    }
    lemma_observing_leaves_others_alone(round.published, round.observed_before_end);
    if let Some(exchange) = round.flushed {
        lemma_wakeups_by_draining(ending.deeds, exchange, round.after.deeds);
        let answer = choose|answer: Result<bool, bool>|
            {
                &&& exchange == #[trigger] reading(true, false, answer)
                &&& round.after.deeds == ending.deeds.push(
                    Deed::Exchanged { current: true, new: false, answer },
                )
            };
        lemma_attempts_grow(
            ending.deeds,
            Deed::Exchanged { current: true, new: false, answer },
        );
    }
}

/// A cycle that sends no update leaves the counts of lost events alone: one that
/// no new subscriber began, and in which no update is due or nobody subscribed
/// to updates.
pub proof fn law_counts_are_read_only_for_an_update(before: State, round: Round)
    requires
        goes_round(before, round),
        !(round.wake matches Wake::Command(Command::Instrument(_))),
        !(round.wake is Tick && before.temporality == Temporality::Live)
            || before.watchers.len() == 0,
    ensures
        round.ending().deeds == before.deeds,
        round.events.len() == 0 ==> round.after.deeds == before.deeds,
{
    lemma_observing_leaves_others_alone(before, round.observed_before_waking);
    lemma_events_leave_others_alone(round.woken, round.events);
    lemma_observing_leaves_others_alone(
        updated_by_all(round.woken, round.events),
        round.observed_when_empty,
    );
    lemma_observing_leaves_others_alone(round.published, round.observed_before_end);
}

// ==== what a cycle tells ====

/// Some message in `messages` is about task `id`.
pub open spec fn announces_task(messages: Seq<TaskMessage>, id: u64) -> bool {
    exists|k: int| 0 <= k < messages.len() && (#[trigger] messages[k]).id == Some(id)
}

/// Some message in `messages` is about resource `id`.
pub open spec fn announces_resource(messages: Seq<ResourceMessage>, id: u64) -> bool {
    exists|k: int| 0 <= k < messages.len() && (#[trigger] messages[k]).id == Some(id)
}

/// Some message in `messages` is about async operation `id`.
pub open spec fn announces_async_op(messages: Seq<AsyncOpMessage>, id: u64) -> bool {
    exists|k: int| 0 <= k < messages.len() && (#[trigger] messages[k]).id == Some(id)
}

/// Some of `polls` is the poll that `event` tells of.
pub open spec fn announces_poll(polls: Seq<PollOp>, event: Event) -> bool {
    exists|k: int| 0 <= k < polls.len() && tells_poll(event, #[trigger] polls[k])
}

/// `update` announces what `event` tells of: the entity, the callsite or the poll.
pub open spec fn announces(update: Update, event: Event) -> bool {
    match event {
        Event::Metadata(metadata) => {
            &&& update.new_metadata is Some
            &&& update.new_metadata->0.metadata@.contains(metadata)
        },
        Event::Spawn { id, .. } => announces_task(update.task_update->0.new_tasks@, id),
        Event::Resource { id, .. } => announces_resource(
            update.resource_update->0.new_resources@,
            id,
        ),
        Event::PollOp { .. } => announces_poll(update.resource_update->0.new_poll_ops@, event),
        Event::AsyncResourceOp { id, .. } => announces_async_op(
            update.async_op_update->0.new_async_ops@,
            id,
        ),
    }
}

/// `poll_op` says of a poll what `event` says of it.
pub open spec fn tells_poll(event: Event, poll_op: PollOp) -> bool {
    event matches Event::PollOp {
        metadata,
        resource_id,
        op_name,
        async_op_id,
        task_id,
        is_ready,
    } && poll_op.metadata == Some(metadata) && poll_op.resource_id == Some(resource_id)
        && poll_op.name == op_name && poll_op.async_op_id == Some(async_op_id) && poll_op.task_id
        == Some(task_id) && poll_op.is_ready == is_ready
}

/// In `state`, what `event` tells of is known, and is new or marked as not sent.
pub open spec fn owed(state: State, event: Event) -> bool {
    match event {
        Event::Metadata(metadata) => state.new_metadata.contains(metadata),
        Event::Spawn { id, .. } => {
            state.tasks.contains_key(id) && state.tasks[id].is_dirty && state.tasks[id].id == id
        },
        Event::Resource { id, .. } => {
            state.resources.contains_key(id) && state.resources[id].is_dirty
                && state.resources[id].id == id
        },
        Event::PollOp { .. } => announces_poll(state.new_poll_ops, event),
        Event::AsyncResourceOp { id, .. } => {
            state.async_ops.contains_key(id) && state.async_ops[id].is_dirty
                && state.async_ops[id].id == id
        },
    }
}

/// What happened is owed to the subscribers, and stays owed while more happens.
proof fn lemma_events_are_owed(before: State, events: Seq<Event>, i: int)
    requires
        0 <= i < events.len(),
    ensures
        owed(updated_by_all(before, events), events[i]),
    decreases events.len(),
{
    let fewer = events.drop_last();
    let earlier = updated_by_all(before, fewer);
    let event = events.last();
    let after = updated_by_all(before, events);
    lemma_updated_is_learned(earlier, event);
    if i == events.len() - 1 {
        lemma_event_is_owed(earlier, event, after);
    } else {
        lemma_events_are_owed(before, fewer, i);
        assert(fewer[i] == events[i]);
        lemma_owed_stays_owed(earlier, event, after, events[i]);
    }
}

/// What an event says is owed.
proof fn lemma_event_is_owed(before: State, event: Event, after: State)
    requires
        learned(before, event, after),
    ensures
        owed(after, event),
{
    match event {
        Event::Metadata(metadata) => {
            assert(after.new_metadata[after.new_metadata.len() - 1] == metadata);
        },
        Event::PollOp { .. } => {
            assert(tells_poll(event, after.new_poll_ops[after.new_poll_ops.len() - 1]));
        },
        Event::Spawn { id, .. } => {
            assert(after.tasks.contains_key(id));
        },
        Event::Resource { id, .. } => {
            assert(after.resources.contains_key(id));
        },
        Event::AsyncResourceOp { id, .. } => {
            assert(after.async_ops.contains_key(id));
        },
    }
}

/// What is owed stays owed when more happens.
proof fn lemma_owed_stays_owed(before: State, event: Event, after: State, earlier: Event)
    requires
        learned(before, event, after),
        owed(before, earlier),
    ensures
        owed(after, earlier),
{
    match earlier {
        Event::Metadata(metadata) => {
            let k = choose|k: int|
                0 <= k < before.new_metadata.len() && before.new_metadata[k] == metadata;
            if event is Metadata {
                assert(after.new_metadata.drop_last()[k] == metadata);
                assert(after.new_metadata[k] == metadata);
            }
        },
        Event::PollOp { .. } => {
            let k = choose|k: int|
                0 <= k < before.new_poll_ops.len() && tells_poll(
                    earlier,
                    #[trigger] before.new_poll_ops[k],
                );
            if event is PollOp {
                assert(after.new_poll_ops.drop_last()[k] == before.new_poll_ops[k]);
                assert(tells_poll(earlier, after.new_poll_ops[k]));
            } else {
                assert(tells_poll(earlier, after.new_poll_ops[k]));
            }
        },
        Event::Spawn { id, .. } => {
            assert(after.tasks.contains_key(id));
        },
        Event::Resource { id, .. } => {
            assert(after.resources.contains_key(id));
        },
        Event::AsyncResourceOp { id, .. } => {
            assert(after.async_ops.contains_key(id));
        },
    }
}

/// What is owed is announced by the update that tells what is new.
proof fn lemma_owed_is_announced(before: State, now: Timestamp, update: Update, event: Event)
    requires
        owed(before, event),
        tells(before, false, now, update),
    ensures
        announces(update, event),
{
    let everything = false;
    match event {
        Event::Metadata(metadata) => {},
        Event::PollOp { .. } => {
            let k = choose|k: int|
                0 <= k < before.new_poll_ops.len() && tells_poll(
                    event,
                    #[trigger] before.new_poll_ops[k],
                );
            assert(tells_poll(event, update.resource_update->0.new_poll_ops@[k]));
        },
        Event::Spawn { id, .. } => {
            let messages = update.task_update->0.new_tasks@;
            let k = lemma_listed_is_told(
                before.tasks,
                |task: Task| everything || task.is_dirty,
                |task: Task, message: TaskMessage| tells_task(task, message),
                messages,
                id,
            );
            assert(messages[k].id == Some(id));
        },
        Event::Resource { id, .. } => {
            let messages = update.resource_update->0.new_resources@;
            let k = lemma_listed_is_told(
                before.resources,
                |resource: Resource| everything || resource.is_dirty,
                |resource: Resource, message: ResourceMessage| tells_resource(resource, message),
                messages,
                id,
            );
            assert(messages[k].id == Some(id));
        },
        Event::AsyncResourceOp { id, .. } => {
            let messages = update.async_op_update->0.new_async_ops@;
            let k = lemma_listed_is_told(
                before.async_ops,
                |async_op: AsyncOp| everything || async_op.is_dirty,
                |async_op: AsyncOp, message: AsyncOpMessage| tells_async_op(async_op, message),
                messages,
                id,
            );
            assert(messages[k].id == Some(id));
        },
    }
}

/// The place of the message about an entry in the list of messages.
proof fn lemma_listed_is_told<A, M>(
    entries: Map<u64, A>,
    which: spec_fn(A) -> bool,
    tells: spec_fn(A, M) -> bool,
    messages: Seq<M>,
    id: u64,
) -> (k: int)
    requires
        lists(entries, which, tells, messages),
        entries.contains_key(id),
        which(entries[id]),
    ensures
        0 <= k < messages.len(),
        tells(entries[id], messages[k]),
{
    let ids = choose|ids: Seq<u64>|
        {
            &&& ids.len() == messages.len()
            &&& #[trigger] number_those(entries, which, ids)
            &&& forall|i: int|
                0 <= i < messages.len() ==> tells(entries[ids[i]], #[trigger] messages[i])
        };
    let holds = |id: u64| entries.contains_key(id) && which(entries[id]);
    assert(holds(id));
    assert(ids.contains(id));
    let k = choose|k: int| 0 <= k < ids.len() && ids[k] == id;
    assert(tells(entries[ids[k]], messages[k]));
    k
}

/// Observations leave alone what is owed.
proof fn lemma_observing_keeps_owed(before: State, states: Seq<State>, event: Event)
    requires
        observing(before, states),
        owed(before, event),
    ensures
        owed(last_state(before, states), event),
    decreases states.len(),
{
    if states.len() > 0 {
        let earlier = last_state(before, states.drop_last());
        let after = states.last();
        lemma_observing_keeps_owed(before, states.drop_last(), event);
        assert(observes(earlier, after));
        assert(after.new_poll_ops == earlier.new_poll_ops);
        if event is PollOp {
            let k = choose|k: int|
                0 <= k < earlier.new_poll_ops.len() && tells_poll(
                    event,
                    #[trigger] earlier.new_poll_ops[k],
                );
            assert(tells_poll(event, after.new_poll_ops[k]));
        }
    }
}

/// `update` tells what is new and marked when the buffer was found to be empty,
/// announces every event of the cycle, and is the last message that all
/// subscribers got who are left.
pub open spec fn told_in_cycle(round: Round, update: Arc<Update>) -> bool {
    &&& tells(round.emptied(), false, round.published_at, *update)
    &&& forall|i: int| 0 <= i < round.events.len() ==> announces(*update, #[trigger] round.events[i])
    &&& forall|j: int|
        #![trigger round.published.watchers[j]]
        0 <= j < round.published.watchers.len() ==> {
            &&& round.published.watchers[j]@.len() > 0
            &&& round.published.watchers[j]@.last() == Ok::<Arc<Update>, Status>(update)
        }
}

/// In every cycle that a tick of the publish interval began while the aggregator
/// publishes, and in which somebody subscribed to updates, what is new is sent to
/// all, whatever the buffer held. In particular the update announces what
/// happened in that cycle, and everybody who is left got it.
pub proof fn law_live_tick_tells_all_that_happened(before: State, round: Round)
    requires
        goes_round(before, round),
        round.wake is Tick,
        before.temporality == Temporality::Live,
        round.emptied().watchers.len() > 0,
    ensures
        exists|
            gone: Seq<Watch<Update>>,
            details_gone: spec_fn(u64) -> Seq<Watch<TaskDetails>>,
        | #[trigger]
            sent_to_all(round.emptied(), round.published_at, gone, details_gone, round.published),
        exists|update: Arc<Update>| told_in_cycle(round, update),
{
    let emptied = round.emptied();
    let taken_in = updated_by_all(round.woken, round.events);
    lemma_observing_leaves_others_alone(before, round.observed_before_waking);
    let departed = choose|departed: Departed| #[trigger]
        emptied.published(round.published_at, departed, round.published);
    lemma_published_is_sent_to_all(emptied, round.published_at, departed, round.published);
    let details_gone = |id: u64| listed(departed.details_watchers, id);
    assert(sent_to_all(
        emptied,
        round.published_at,
        departed.watchers,
        details_gone,
        round.published,
    ));
    let update = choose|update: Arc<Update>| #[trigger]
        shared_out(emptied.watchers, update, round.published.watchers, departed.watchers)
            && tells(emptied, false, round.published_at, *update) && counts_taken(
            *emptied.shared,
            emptied.deeds,
            update.task_update->0.dropped_events,
            update.resource_update->0.dropped_events,
            update.async_op_update->0.dropped_events,
            round.published.deeds,
        );
    assert forall|i: int| 0 <= i < round.events.len() implies announces(
        *update,
        #[trigger] round.events[i],
    ) by {
        lemma_events_are_owed(round.woken, round.events, i);
        lemma_observing_keeps_owed(taken_in, round.observed_when_empty, round.events[i]);
        lemma_owed_is_announced_by(emptied, round.published_at, update, round.events[i]);
    }
    let (staying, leaving) = choose|staying: Seq<int>, leaving: Seq<int>| #[trigger]
        shared_out_at(
            emptied.watchers,
            update,
            staying,
            round.published.watchers,
            leaving,
            departed.watchers,
        );
    assert forall|j: int|
        #![trigger round.published.watchers[j]]
        0 <= j < round.published.watchers.len() implies {
        &&& round.published.watchers[j]@.len() > 0
        &&& round.published.watchers[j]@.last() == Ok::<Arc<Update>, Status>(update)
    } by {
        assert(0 <= staying[j] < emptied.watchers.len());
    }
    assert(told_in_cycle(round, update));
}

/// As [`lemma_owed_is_announced`], of an update that is shared.
proof fn lemma_owed_is_announced_by(
    before: State,
    now: Timestamp,
    update: Arc<Update>,
    event: Event,
)
    requires
        owed(before, event),
        tells(before, false, now, *update),
    ensures
        announces(*update, event),
{
    assert forall|any: Update| #[trigger] tells(before, false, now, any) implies announces(
        any,
        event,
    ) by {
        lemma_owed_is_announced(before, now, any, event);
    }
}

} // verus!
