//! The life of an aggregator: a cycle that begins whenever something wakes it.
//!
//! In each cycle it handles what woke it, drains the event buffer, publishes
//! if that is due, and drops what is not needed any more. Waiting, taking
//! events from the buffer, and reading the clock is left to whoever runs it.

use crate::aggregator::Aggregator;
use crate::event::{Command, Event};
use crate::flush::Exchange;
use crate::proto::Update;
use crate::release::Released;
use crate::state::{Departed, DetailsRequested, State, Temporality};
use crate::time::Timestamp;
use crate::watch::{channel_capacity, Watch};
use vstd::prelude::*;

verus! {

/// What wakes the aggregator.
pub enum Wake {
    /// The publish interval elapsed.
    Tick,
    /// The event buffer is approaching its capacity.
    FlushRequested,
    /// A client sent a command.
    Command(Command),
    /// No client can send commands any more.
    CommandsClosed,
}

/// What the event buffer held.
pub enum Polled {
    /// An event.
    Event(Event),
    /// Nothing at the moment.
    Empty,
    /// Nothing, for no producer is left.
    Closed,
}

/// A cycle in which the event buffer is being drained.
#[derive(Clone, Copy, Debug, PartialEq, Eq, Structural)]
pub struct Cycle {
    /// An update is due.
    pub should_send: bool,
    /// The buffer held at least one event.
    pub drained: bool,
}

/// What the aggregator does next.
#[derive(Clone, Copy, Debug, PartialEq, Eq, Structural)]
pub enum Next {
    /// Takes the next event from the buffer.
    Drain(Cycle),
    /// Drops what is not needed any more.
    Clean(Cycle),
    /// Waits until something wakes it. If the buffer was drained, this was
    /// said to the producers, and `flushed` tells what it did.
    Wait { flushed: Option<Exchange> },
    /// Ends.
    Terminate,
}

/// What became of the client's command.
pub enum Reply {
    /// There was no command, or it was carried out without more ado.
    Done,
    /// Of a subscription to updates, with a receipt if it was turned away.
    Instrument(Option<Released<Watch<Update>>>),
    /// Of a request for the details of a task.
    WatchTaskDetail(DetailsRequested),
}

/// What came of waking the aggregator.
pub struct Handled {
    pub next: Next,
    pub reply: Reply,
}

/// The command can be carried out: a client that wants the details of a known
/// task asks for a channel that can be made.
pub open spec fn can_handle(before: State, wake: Wake) -> bool {
    match wake {
        Wake::Command(Command::WatchTaskDetail(request)) => {
            before.task_stats.contains_key(request.id) ==> channel_capacity(request.buffer)
        },
        _ => true,
    }
}

/// What the aggregator does next when it was woken.
pub open spec fn next_after_wake(before: State, wake: Wake) -> Next {
    match wake {
        Wake::Tick => Next::Drain(
            Cycle { should_send: before.temporality == Temporality::Live, drained: false },
        ),
        Wake::FlushRequested => Next::Drain(Cycle { should_send: false, drained: false }),
        Wake::Command(_) => Next::Drain(Cycle { should_send: false, drained: false }),
        Wake::CommandsClosed => Next::Terminate,
    }
}

/// `after` is the state once what woke the aggregator was handled, and `reply`
/// is what became of the command, if that was one.
pub open spec fn woken(
    before: State,
    wake: Wake,
    now: Timestamp,
    reply: Reply,
    after: State,
) -> bool {
    match wake {
        Wake::Command(Command::Instrument(subscription)) => {
            &&& reply matches Reply::Instrument(turned_away)
            &&& before.subscribed(subscription, now, turned_away, after)
        },
        Wake::Command(Command::WatchTaskDetail(request)) => {
            &&& reply matches Reply::WatchTaskDetail(outcome)
            &&& before.details_requested(request, now, outcome, after)
        },
        Wake::Command(Command::Pause) => {
            reply is Done && after == State { temporality: Temporality::Paused, ..before }
        },
        Wake::Command(Command::Resume) => {
            reply is Done && after == State { temporality: Temporality::Live, ..before }
        },
        _ => reply is Done && after == before,
    }
}

/// `after` is the state once the buffer was found to be empty at `now`: what is
/// new was published, if an update was due and somebody subscribed to updates.
pub open spec fn published_if_due(
    before: State,
    cycle: Cycle,
    now: Timestamp,
    after: State,
) -> bool {
    if cycle.should_send && before.watchers.len() > 0 {
        exists|departed: Departed| #[trigger] before.published(now, departed, after)
    } else {
        after == before
    }
}

/// `after` is the state at the end of a cycle: what is not needed any more at
/// `now` was dropped. Then, if the buffer held an event, this was said to the
/// producers, of which `flushed` came; otherwise nothing was said.
pub open spec fn finished(
    before: State,
    cycle: Cycle,
    now: Timestamp,
    flushed: Option<Exchange>,
    after: State,
) -> bool {
    match flushed {
        Some(exchange) => cycle.drained && before.cleaned(now).flushed(exchange, after),
        None => !cycle.drained && after == before.cleaned(now),
    }
}

impl Aggregator {
    /// Handles what woke the aggregator.
    pub fn wake(&mut self, wake: Wake, now: Timestamp) -> (handled: Handled)
        requires
            can_handle(old(self)@, wake),
        ensures
            handled.next == next_after_wake(old(self)@, wake),
            woken(old(self)@, wake, now, handled.reply, final(self)@),
            old(self)@.valid() ==> final(self)@.valid(),
    {
        let mut reply = Reply::Done;
        let should_send = match wake {
            Wake::Tick => match self.temporality() {
                Temporality::Live => true,
                Temporality::Paused => false,
            },
            Wake::FlushRequested => false,
            Wake::Command(command) => {
                match command {
                    Command::Instrument(subscription) => {
                        reply = Reply::Instrument(
                            self.add_instrument_subscription(subscription, now),
                        );
                    },
                    Command::WatchTaskDetail(watch_request) => {
                        reply = Reply::WatchTaskDetail(
                            self.add_task_detail_subscription(watch_request, now),
                        );
                    },
                    Command::Pause => {
                        self.set_temporality(Temporality::Paused);
                    },
                    Command::Resume => {
                        self.set_temporality(Temporality::Live);
                    },
                }
                false
            },
            Wake::CommandsClosed => {
                return Handled { next: Next::Terminate, reply };
            },
        };
        Handled { next: Next::Drain(Cycle { should_send, drained: false }), reply }
    }

    /// Handles what the event buffer held.
    pub fn drain(&mut self, cycle: Cycle, polled: Polled, now: Timestamp) -> (next: Next)
        ensures
            match polled {
                Polled::Event(event) => {
                    &&& next == Next::Drain(Cycle { drained: true, ..cycle })
                    &&& final(self)@ == old(self)@.updated(event)
                },
                Polled::Closed => next == Next::Terminate && final(self)@ == old(self)@,
                Polled::Empty => {
                    &&& next == Next::Clean(cycle)
                    &&& published_if_due(old(self)@, cycle, now, final(self)@)
                },
            },
            old(self)@.valid() ==> final(self)@.valid(),
    {
        match polled {
            Polled::Event(event) => {
                self.update_state(event);
                Next::Drain(Cycle { should_send: cycle.should_send, drained: true })
            },
            Polled::Closed => Next::Terminate,
            Polled::Empty => {
                if self.has_watchers() && cycle.should_send {
                    let departed = self.publish(now);
                    assert(old(self)@.published(now, departed@, self@));
                }
                Next::Clean(cycle)
            },
        }
    }

    /// Ends a cycle.
    pub fn finish(&mut self, cycle: Cycle, now: Timestamp) -> (next: Next)
        ensures
            next matches Next::Wait { flushed } && finished(
                old(self)@,
                cycle,
                now,
                flushed,
                final(self)@,
            ),
            old(self)@.valid() ==> final(self)@.valid(),
    {
        self.cleanup_closed(now);
        let flushed = if cycle.drained {
            Some(self.has_flushed())
        } else {
            None
        };
        Next::Wait { flushed }
    }
}

} // verus!
