//! The parts of what the aggregator shares with the producers of events: a flag,
//! a wake-up and counters, each with one function for each thing that can be
//! done to it, and a journal of what was done.
//!
//! Nothing else stands here. Only this module reaches what is inside the parts
//! and writes journals. Each of its functions enters what it does in the journal
//! that it is given, which has to be about the part. Journals are started for
//! who owns what is shared, and inside a [`Handle`], which does not let go of
//! what it was made from; so who was given a journal or a handle has no other
//! way to reach the parts.

use crate::flush::{asked, drained, Exchange, Flush};
use crate::shared::{DroppedEvents, Shared};
use std::sync::atomic::{AtomicBool, AtomicUsize, Ordering};
use std::sync::Arc;
use tokio::sync::futures::Notified;
use tokio::sync::Notify;
use vstd::prelude::*;

verus! {

// ==== wake-ups of tokio ====

/// `tokio::sync::Notify`: wakes a task that waits for it.
#[verifier::external_type_specification]
#[verifier::external_body]
pub struct ExNotify(Notify);

/// `tokio::sync::futures::Notified`: a task's wait for a wake-up.
#[verifier::external_type_specification]
#[verifier::external_body]
pub struct ExNotified<'a>(Notified<'a>);

/// `tokio::sync::Notify::new` makes a wake-up that nobody has given yet.
/// Nothing is claimed of it.
pub assume_specification[ Notify::new ]() -> (notify: Notify)
;

/// `tokio::sync::Notify::notify_one` wakes one waiting task, or the next one
/// that waits. It returns nothing, and nothing is claimed of it.
pub assume_specification[ Notify::notify_one ](notify: &Notify)
;

/// `tokio::sync::Notify::notified` is the wait for a wake-up. When it ends rests
/// with those who give the wake-up, so nothing is claimed of it.
pub assume_specification[ Notify::notified ](notify: &Notify) -> (wait: Notified<'_>)
;

// ==== journals ====

/// What can be done to the parts.
pub enum Deed {
    /// The flag was to be changed from `current` to `new`, and gave `answer`.
    Exchanged { current: bool, new: bool, answer: Result<bool, bool> },
    /// The wake-up was given.
    Woke,
    /// `counter` was swapped for zero, and gave `count`.
    Took { counter: Counter, count: usize },
    /// `lost` was added to `counter`.
    Counted { counter: Counter, lost: usize },
}

/// What was done to some parts, kept for proofs alone. Its view is the sequence
/// of the deeds, oldest first.
pub struct Journal {
    flag: Ghost<Flag>,
    signal: Ghost<Signal>,
    counters: Ghost<Set<Counter>>,
    deeds: Ghost<Seq<Deed>>,
}

impl View for Journal {
    type V = Seq<Deed>;

    closed spec fn view(&self) -> Seq<Deed> {
        self.deeds@
    }
}

impl Journal {
    /// The flag that the journal is about.
    pub closed spec fn flag(self) -> Flag {
        self.flag@
    }

    /// The wake-up that the journal is about.
    pub closed spec fn signal(self) -> Signal {
        self.signal@
    }

    /// The counters that the journal is about.
    pub closed spec fn counters(self) -> Set<Counter> {
        self.counters@
    }

    /// The journal is about the same parts as `other`.
    pub open spec fn is_about_the_same_as(self, other: Journal) -> bool {
        &&& self.flag() == other.flag()
        &&& self.signal() == other.signal()
        &&& self.counters() == other.counters()
    }
}

impl Flush {
    /// An empty journal about this request, for its owner.
    pub fn journal(&mut self) -> (journal: Journal)
        ensures
            *final(self) == *old(self),
            old(self).is_told_in(journal),
            journal@ == Seq::<Deed>::empty(),
    {
        Journal {
            flag: Ghost(self.flag()),
            signal: Ghost(self.signal()),
            counters: Ghost(Set::empty()),
            deeds: Ghost(Seq::empty()),
        }
    }
}

impl Shared {
    /// An empty journal about all parts, for their owner.
    pub fn journal(&mut self) -> (journal: Journal)
        ensures
            *final(self) == *old(self),
            old(self).is_told_in(journal),
            journal@ == Seq::<Deed>::empty(),
    {
        Journal {
            flag: Ghost(self.flush.flag()),
            signal: Ghost(self.flush.signal()),
            counters: Ghost(self.counters()),
            deeds: Ghost(Seq::empty()),
        }
    }
}

// ==== parts ====

/// A flag that many can change.
pub struct Flag {
    flag: AtomicBool,
}

impl Flag {
    /// The flag was made with `value` in it.
    pub closed spec fn holds_at_first(self, value: bool) -> bool {
        call_ensures(AtomicBool::new, (value,), self.flag)
    }

    /// `answer` is what the flag answered to a compare-and-exchange from
    /// `current` to `new`.
    pub closed spec fn answered(self, current: bool, new: bool, answer: Result<bool, bool>) -> bool {
        call_ensures(
            AtomicBool::compare_exchange,
            (&self.flag, current, new, Ordering::AcqRel, Ordering::Acquire),
            answer,
        )
    }

    /// A flag with `value` in it.
    pub fn new(value: bool) -> (flag: Self)
        ensures
            flag.holds_at_first(value),
    {
        Flag { flag: AtomicBool::new(value) }
    }

    /// Changes the flag to `new` if it holds `current`. Others may change it at
    /// the same time, so whether it did is not known here.
    pub fn exchange(&self, current: bool, new: bool, journal: &mut Journal) -> (answer: Result<
        bool,
        bool,
    >)
        requires
            old(journal).flag() == *self,
        ensures
            self.answered(current, new, answer),
            final(journal).is_about_the_same_as(*old(journal)),
            final(journal)@ == old(journal)@.push(Deed::Exchanged { current, new, answer }),
    {
        let answer = self.flag.compare_exchange(
            current,
            new,
            Ordering::AcqRel,
            Ordering::Acquire,
        );
        proof {
            journal.deeds@ = journal.deeds@.push(Deed::Exchanged { current, new, answer });
        }
        answer
    }
}

/// A wake-up for the task that waits for it.
pub struct Signal {
    notify: Notify,
}

impl Signal {
    /// The wake-up was given.
    pub closed spec fn given(self) -> bool {
        call_ensures(Notify::notify_one, (&self.notify,), ())
    }

    /// The wake-up was made anew.
    pub closed spec fn is_new(self) -> bool {
        call_ensures(Notify::new, (), self.notify)
    }

    /// `wait` is a wait for this wake-up.
    pub closed spec fn waited_for_by(self, wait: Notified<'_>) -> bool {
        call_ensures(Notify::notified, (&self.notify,), wait)
    }

    /// A wake-up that nobody has given yet.
    pub fn new() -> (signal: Self)
        ensures
            signal.is_new(),
    {
        Signal { notify: Notify::new() }
    }

    /// Gives the wake-up: one waiting task wakes, or the next one that waits.
    pub fn wake(&self, journal: &mut Journal)
        requires
            old(journal).signal() == *self,
        ensures
            self.given(),
            final(journal).is_about_the_same_as(*old(journal)),
            final(journal)@ == old(journal)@.push(Deed::Woke),
    {
        self.notify.notify_one();
        proof {
            journal.deeds@ = journal.deeds@.push(Deed::Woke);
        }
    }

    /// Waits for the wake-up.
    pub fn notified(&self) -> (wait: Notified<'_>)
        ensures
            self.waited_for_by(wait),
    {
        self.notify.notified()
    }
}

/// A count that many can add to.
pub struct Counter {
    count: AtomicUsize,
}

impl Counter {
    /// The counter was made with `value` in it.
    pub closed spec fn holds_at_first(self, value: usize) -> bool {
        call_ensures(AtomicUsize::new, (value,), self.count)
    }

    /// `count` is what the counter answered when it was swapped for zero.
    pub closed spec fn gave(self, count: usize) -> bool {
        call_ensures(AtomicUsize::swap, (&self.count, 0usize, Ordering::AcqRel), count)
    }

    /// `lost` was added to the counter.
    pub closed spec fn grew(self, lost: usize) -> bool {
        exists|before: usize| #[trigger]
            call_ensures(AtomicUsize::fetch_add, (&self.count, lost, Ordering::Release), before)
    }

    /// A counter with `value` in it.
    pub fn new(value: usize) -> (counter: Self)
        ensures
            counter.holds_at_first(value),
    {
        Counter { count: AtomicUsize::new(value) }
    }

    /// Reads the counter and starts it again from zero. Others may add to it at
    /// the same time, so what is read is not known here.
    pub fn take(&self, journal: &mut Journal) -> (count: usize)
        requires
            old(journal).counters().contains(*self),
        ensures
            self.gave(count),
            final(journal).is_about_the_same_as(*old(journal)),
            final(journal)@ == old(journal)@.push(Deed::Took { counter: *self, count }),
    {
        let count: usize = self.count.swap(0, Ordering::AcqRel);
        proof {
            journal.deeds@ = journal.deeds@.push(Deed::Took { counter: *self, count });
        }
        count
    }

    /// Adds to the counter.
    pub fn count(&self, lost: usize, journal: &mut Journal)
        requires
            old(journal).counters().contains(*self),
        ensures
            self.grew(lost),
            final(journal).is_about_the_same_as(*old(journal)),
            final(journal)@ == old(journal)@.push(Deed::Counted { counter: *self, lost }),
    {
        let before: usize = self.count.fetch_add(lost, Ordering::Release);
        proof {
            assert(call_ensures(
                AtomicUsize::fetch_add,
                (&self.count, lost, Ordering::Release),
                before,
            ));
            journal.deeds@ = journal.deeds@.push(Deed::Counted { counter: *self, lost });
        }
    }
}

// ==== handles ====

/// Access to the parts for one of those who share them, with a journal of what
/// was done by this access. Its view is the sequence of the deeds, oldest first.
pub struct Handle {
    shared: Arc<Shared>,
    deeds: Ghost<Seq<Deed>>,
}

impl View for Handle {
    type V = Seq<Deed>;

    closed spec fn view(&self) -> Seq<Deed> {
        self.deeds@
    }
}

impl Handle {
    /// What is shared.
    pub closed spec fn shared(self) -> Arc<Shared> {
        self.shared
    }

    /// Access to `shared`, by which nothing was done yet.
    pub fn new(shared: Arc<Shared>) -> (handle: Self)
        ensures
            handle.shared() == shared,
            handle@ == Seq::<Deed>::empty(),
    {
        Handle { shared, deeds: Ghost(Seq::empty()) }
    }

    /// What is shared.
    spec fn parts(self) -> Shared {
        *self.shared
    }

    /// The journal so far.
    fn journal(&self) -> (journal: Journal)
        ensures
            self.shared.is_told_in(journal),
            journal@ == self@,
    {
        Journal {
            flag: Ghost(self.parts().flush.flag()),
            signal: Ghost(self.parts().flush.signal()),
            counters: Ghost(self.parts().counters()),
            deeds: Ghost(self.deeds@),
        }
    }

    /// Asks for the buffer to be drained, unless somebody else already did.
    pub fn trigger(&mut self) -> (exchange: Exchange)
        ensures
            final(self).shared() == old(self).shared(),
            old(self).shared().flush.attempted(false, true, exchange),
            !exchange.before ==> old(self).shared().flush.signal().given(),
            asked(old(self)@, exchange, final(self)@),
    {
        let mut journal = self.journal();
        let exchange = self.shared.flush.trigger(&mut journal);
        self.deeds = journal.deeds;
        exchange
    }

    /// Says that the buffer was drained, so that it can be asked for again.
    pub fn has_flushed(&mut self) -> (exchange: Exchange)
        ensures
            final(self).shared() == old(self).shared(),
            old(self).shared().flush.attempted(true, false, exchange),
            drained(old(self)@, exchange, final(self)@),
    {
        let mut journal = self.journal();
        let exchange = self.shared.flush.has_flushed(&mut journal);
        self.deeds = journal.deeds;
        exchange
    }

    /// Reads the counts of lost events and starts them again from zero.
    pub fn take_dropped(&mut self) -> (dropped: DroppedEvents)
        ensures
            final(self).shared() == old(self).shared(),
            old(self).shared().dropped_taken(dropped),
            old(self).shared().took(old(self)@, dropped, final(self)@),
    {
        let mut journal = self.journal();
        let dropped = self.shared.take_dropped(&mut journal);
        self.deeds = journal.deeds;
        dropped
    }

    /// Counts lost events.
    pub fn count_dropped(&mut self, tasks: usize, resources: usize, async_ops: usize)
        ensures
            final(self).shared() == old(self).shared(),
            old(self).shared().dropped_tasks.grew(tasks),
            old(self).shared().dropped_resources.grew(resources),
            old(self).shared().dropped_async_ops.grew(async_ops),
            final(self)@ == old(self)@.push(
                Deed::Counted { counter: old(self).shared().dropped_tasks, lost: tasks },
            ).push(
                Deed::Counted { counter: old(self).shared().dropped_resources, lost: resources },
            ).push(
                Deed::Counted { counter: old(self).shared().dropped_async_ops, lost: async_ops },
            ),
    {
        let mut journal = self.journal();
        self.shared.dropped_tasks.count(tasks, &mut journal);
        self.shared.dropped_resources.count(resources, &mut journal);
        self.shared.dropped_async_ops.count(async_ops, &mut journal);
        self.deeds = journal.deeds;
    }
}

// ==== what the functions above do ====

/// `after` tells what `before` tells, and then of `deed`.
spec fn tells_also(before: Journal, deed: Deed, after: Journal) -> bool {
    &&& after@.len() == before@.len() + 1
    &&& after@.last() == deed
    &&& after@.drop_last() == before@
    &&& after.flag@ == before.flag@
    &&& after.signal@ == before.signal@
    &&& after.counters@ == before.counters@
}

/// A flag holds what it was made with, and an exchange asks the atomic inside it
/// once and tells what that answered.
proof fn law_flag_is_its_atomic(
    value: bool,
    new_flag: Flag,
    flag: Flag,
    current: bool,
    new: bool,
    journal: &mut Journal,
    answer: Result<bool, bool>,
)
    requires
        call_ensures(Flag::new, (value,), new_flag),
        call_ensures(Flag::exchange, (&flag, current, new, journal), answer),
    ensures
        call_ensures(AtomicBool::new, (value,), new_flag.flag),
        call_ensures(
            AtomicBool::compare_exchange,
            (&flag.flag, current, new, Ordering::AcqRel, Ordering::Acquire),
            answer,
        ),
        tells_also(*old(journal), Deed::Exchanged { current, new, answer }, *final(journal)),
{
    assert(final(journal)@.drop_last() =~= old(journal)@);
}

/// What a flag is said to have answered is what the atomic inside it answered.
proof fn law_answers_are_those_of_the_atomic(
    flag: Flag,
    value: bool,
    current: bool,
    new: bool,
    answer: Result<bool, bool>,
)
    ensures
        flag.holds_at_first(value) ==> call_ensures(AtomicBool::new, (value,), flag.flag),
        flag.answered(current, new, answer) ==> call_ensures(
            AtomicBool::compare_exchange,
            (&flag.flag, current, new, Ordering::AcqRel, Ordering::Acquire),
            answer,
        ),
{
}

/// A wake-up is made by `tokio`, given by it, and waited for by it.
proof fn law_signal_is_its_notify(
    new_signal: Signal,
    signal: Signal,
    journal: &mut Journal,
    wait: Notified<'_>,
)
    requires
        call_ensures(Signal::new, (), new_signal),
        call_ensures(Signal::wake, (&signal, journal), ()),
        call_ensures(Signal::notified, (&signal,), wait),
    ensures
        call_ensures(Notify::new, (), new_signal.notify),
        call_ensures(Notify::notify_one, (&signal.notify,), ()),
        call_ensures(Notify::notified, (&signal.notify,), wait),
        tells_also(*old(journal), Deed::Woke, *final(journal)),
{
    assert(final(journal)@.drop_last() =~= old(journal)@);
}

/// What is said of a wake-up is what `tokio` was asked.
proof fn law_wakeups_are_those_of_the_notify(signal: Signal)
    ensures
        signal.given() ==> call_ensures(Notify::notify_one, (&signal.notify,), ()),
        signal.is_new() ==> call_ensures(Notify::new, (), signal.notify),
{
}

/// A counter holds what it was made with. Taking swaps it for zero once and tells
/// what was in it, and counting adds to it once.
proof fn law_counter_is_its_atomic(
    value: usize,
    new_counter: Counter,
    taken: Counter,
    taking: &mut Journal,
    count: usize,
    grown: Counter,
    lost: usize,
    counting: &mut Journal,
)
    requires
        call_ensures(Counter::new, (value,), new_counter),
        call_ensures(Counter::take, (&taken, taking), count),
        call_ensures(Counter::count, (&grown, lost, counting), ()),
    ensures
        call_ensures(AtomicUsize::new, (value,), new_counter.count),
        call_ensures(AtomicUsize::swap, (&taken.count, 0usize, Ordering::AcqRel), count),
        exists|before: usize| #[trigger]
            call_ensures(AtomicUsize::fetch_add, (&grown.count, lost, Ordering::Release), before),
        tells_also(*old(taking), Deed::Took { counter: taken, count }, *final(taking)),
        tells_also(*old(counting), Deed::Counted { counter: grown, lost }, *final(counting)),
{
    assert(final(taking)@.drop_last() =~= old(taking)@);
    assert(final(counting)@.drop_last() =~= old(counting)@);
}

/// What a counter is said to have given is what the atomic inside it gave.
proof fn law_counts_are_those_of_the_atomic(counter: Counter, value: usize, count: usize)
    ensures
        counter.holds_at_first(value) ==> call_ensures(AtomicUsize::new, (value,), counter.count),
        counter.gave(count) ==> call_ensures(
            AtomicUsize::swap,
            (&counter.count, 0usize, Ordering::AcqRel),
            count,
        ),
{
}

/// A journal that is started is empty and about what it was started for, which
/// is left as it is.
proof fn law_journals_start_empty(
    flush: &mut Flush,
    of_flush: Journal,
    shared: &mut Shared,
    of_shared: Journal,
)
    requires
        call_ensures(Flush::journal, (flush,), of_flush),
        call_ensures(Shared::journal, (shared,), of_shared),
    ensures
        *final(flush) == *old(flush),
        of_flush.deeds@.len() == 0,
        of_flush.flag@ == old(flush).flag(),
        of_flush.signal@ == old(flush).signal(),
        *final(shared) == *old(shared),
        of_shared.deeds@.len() == 0,
        of_shared.flag@ == old(shared).flush.flag(),
        of_shared.signal@ == old(shared).flush.signal(),
        of_shared.counters@.contains(old(shared).dropped_tasks),
        of_shared.counters@.contains(old(shared).dropped_resources),
        of_shared.counters@.contains(old(shared).dropped_async_ops),
{
}

/// Lost events are counted by the handle, each sort by its own counter and once.
proof fn law_handle_counts_lost_events(
    handle: &mut Handle,
    tasks: usize,
    resources: usize,
    async_ops: usize,
)
    requires
        call_ensures(Handle::count_dropped, (handle, tasks, resources, async_ops), ()),
    ensures
        ({
            let shared = old(handle).shared;
            let deeds = final(handle)@;
            &&& final(handle).shared == shared
            &&& shared.dropped_tasks.grew(tasks)
            &&& shared.dropped_resources.grew(resources)
            &&& shared.dropped_async_ops.grew(async_ops)
            &&& deeds =~= old(handle)@ + seq![
                Deed::Counted { counter: shared.dropped_tasks, lost: tasks },
                Deed::Counted { counter: shared.dropped_resources, lost: resources },
                Deed::Counted { counter: shared.dropped_async_ops, lost: async_ops },
            ]
        }),
{
}

} // verus!
