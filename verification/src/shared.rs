//! What the aggregator shares with the producers of events.

use crate::access::{Counter, Deed, Journal};
use crate::flush::Flush;
use vstd::prelude::*;

verus! {

/// The request to drain the event buffer, and how many events were lost
/// because the buffer was full.
pub struct Shared {
    pub flush: Flush,
    pub dropped_tasks: Counter,
    pub dropped_resources: Counter,
    pub dropped_async_ops: Counter,
}

impl Default for Shared {
    /// No request was made yet, and no event was lost.
    fn default() -> (shared: Self)
        ensures
            shared.flush.is_new(),
            shared.dropped_tasks.holds_at_first(0),
            shared.dropped_resources.holds_at_first(0),
            shared.dropped_async_ops.holds_at_first(0),
    {
        Shared {
            flush: Flush::default(),
            dropped_tasks: Counter::new(0),
            dropped_resources: Counter::new(0),
            dropped_async_ops: Counter::new(0),
        }
    }
}

/// How many events were lost since the last update.
#[derive(Clone, Copy, Debug, PartialEq, Eq, Structural)]
pub struct DroppedEvents {
    pub tasks: u64,
    pub resources: u64,
    pub async_ops: u64,
}

impl DroppedEvents {
    /// The same counts as they stand in a message.
    fn new(tasks: usize, resources: usize, async_ops: usize) -> (dropped: Self)
        ensures
            dropped.tasks == tasks,
            dropped.resources == resources,
            dropped.async_ops == async_ops,
    {
        DroppedEvents {
            tasks: tasks as u64,
            resources: resources as u64,
            async_ops: async_ops as u64,
        }
    }
}

/// `lost` stands for what `counter` answered when it was swapped for zero.
pub open spec fn taken_as(counter: Counter, lost: u64) -> bool {
    exists|count: usize| #[trigger] counter.gave(count) && lost == count
}

impl Shared {
    /// The counters of lost events.
    pub open spec fn counters(self) -> Set<Counter> {
        set![self.dropped_tasks, self.dropped_resources, self.dropped_async_ops]
    }

    /// `journal` is about what is shared here.
    pub open spec fn is_told_in(self, journal: Journal) -> bool {
        &&& self.flush.is_told_in(journal)
        &&& journal.counters() == self.counters()
    }

    /// `dropped` are the counts that were swapped for zero.
    pub open spec fn dropped_taken(self, dropped: DroppedEvents) -> bool {
        &&& taken_as(self.dropped_tasks, dropped.tasks)
        &&& taken_as(self.dropped_resources, dropped.resources)
        &&& taken_as(self.dropped_async_ops, dropped.async_ops)
    }

    /// Each counter was swapped for zero once, and gave these counts.
    pub open spec fn takings(self, tasks: usize, resources: usize, async_ops: usize) -> Seq<Deed> {
        seq![
            Deed::Took { counter: self.dropped_tasks, count: tasks },
            Deed::Took { counter: self.dropped_resources, count: resources },
            Deed::Took { counter: self.dropped_async_ops, count: async_ops },
        ]
    }

    /// `after` tells what `before` tells, and then that each counter was swapped
    /// for zero once and gave `dropped`, and of nothing else.
    pub open spec fn took(
        self,
        before: Seq<Deed>,
        dropped: DroppedEvents,
        after: Seq<Deed>,
    ) -> bool {
        exists|tasks: usize, resources: usize, async_ops: usize|
            {
                &&& after == before + #[trigger] self.takings(tasks, resources, async_ops)
                &&& dropped.tasks == tasks
                &&& dropped.resources == resources
                &&& dropped.async_ops == async_ops
            }
    }

    /// Reads the counts of lost events and starts them again from zero. The
    /// producers count at the same time, so what is read is not known here.
    pub fn take_dropped(&self, journal: &mut Journal) -> (dropped: DroppedEvents)
        requires
            self.is_told_in(*old(journal)),
        ensures
            self.dropped_taken(dropped),
            final(journal).is_about_the_same_as(*old(journal)),
            self.took(old(journal)@, dropped, final(journal)@),
    {
        let tasks: usize = self.dropped_tasks.take(journal);
        let resources: usize = self.dropped_resources.take(journal);
        let async_ops: usize = self.dropped_async_ops.take(journal);
        assert(journal@ =~= old(journal)@ + self.takings(tasks, resources, async_ops));
        DroppedEvents::new(tasks, resources, async_ops)
    }
}

} // verus!
