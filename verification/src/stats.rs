//! Statistics of tasks, resources and async operations.
//!
//! They change while the entity lives. The aggregator holds what was last
//! observed of them.

use crate::id_data::{DroppedAt, IdData, ToProto, Unsent};
use crate::time::Timestamp;
use vstd::prelude::*;

verus! {

/// Statistics that are observed again and again.
pub trait Observed: ToProto + DroppedAt {
    /// These statistics once `newer` was observed.
    spec fn absorbed(&self, newer: Self) -> Self;

    /// An observation says anew what the statistics are, but what subscribers
    /// were owed stays owed to them.
    proof fn lemma_absorbed(&self, newer: Self)
        ensures
            self.absorbed(newer).unsent() == (self.unsent() || newer.unsent()),
            self.absorbed(newer).dropped_at_spec() == newer.dropped_at_spec(),
            forall|message: Self::Output| #[trigger]
                self.absorbed(newer).encoded_by(message) == newer.encoded_by(message),
    ;

    /// Replaces the statistics by a later observation. What subscribers have
    /// not been told of before stays owed to them.
    fn absorb(&mut self, newer: Self)
        ensures
            *final(self) == old(self).absorbed(newer),
    ;
}

impl<S: Observed> IdData<S> {
    /// Takes in an observation of the statistics of entity `id`, if it is
    /// known, and tells whether it is.
    pub fn observe(&mut self, id: u64, newer: S) -> (known: bool)
        ensures
            known == old(self)@.contains_key(id),
            final(self)@ == observed(old(self)@, id, newer),
    {
        match self.take(id) {
            Some(mut stats) => {
                stats.absorb(newer);
                self.insert(id, stats);
                assert(self@ =~= observed(old(self)@, id, newer));
                true
            },
            None => false,
        }
    }
}

/// The statistics once `newer` was observed of entity `id`. Entities that are
/// not known do not become so.
pub open spec fn observed<S: Observed>(stats: Map<u64, S>, id: u64, newer: S) -> Map<u64, S> {
    if stats.contains_key(id) {
        stats.insert(id, stats[id].absorbed(newer))
    } else {
        stats
    }
}

/// The statistics of a task. `message` is what is sent of them, and
/// `poll_times_histogram` the serialized histogram of its poll times.
pub struct TaskStats {
    pub is_dirty: bool,
    pub dropped_at: Option<Timestamp>,
    pub message: console_api::tasks::Stats,
    pub poll_times_histogram: Option<Vec<u8>>,
}

/// The statistics of a resource.
pub struct ResourceStats {
    pub is_dirty: bool,
    pub dropped_at: Option<Timestamp>,
    pub message: console_api::resources::Stats,
}

/// The statistics of an async operation.
pub struct AsyncOpStats {
    pub is_dirty: bool,
    pub dropped_at: Option<Timestamp>,
    pub message: console_api::async_ops::Stats,
}

/// Two serialized histograms are the same.
pub open spec fn same_histogram(left: Option<Vec<u8>>, right: Option<Vec<u8>>) -> bool {
    match (left, right) {
        (Some(l), Some(r)) => l@ == r@,
        (None, None) => true,
        _ => false,
    }
}

impl TaskStats {
    /// The serialized histogram of the poll times.
    pub fn serialize_histogram(&self) -> (histogram: Option<Vec<u8>>)
        ensures
            same_histogram(histogram, self.poll_times_histogram),
    {
        match &self.poll_times_histogram {
            Some(bytes) => {
                let copy = bytes.clone();
                assert(copy@ == bytes@);
                Some(copy)
            },
            None => None,
        }
    }
}

impl Unsent for TaskStats {
    open spec fn unsent(&self) -> bool {
        self.is_dirty
    }

    open spec fn marked_sent(&self) -> Self {
        TaskStats { is_dirty: false, ..*self }
    }

    proof fn lemma_marked_sent(&self) {
    }

    fn take_unsent(&mut self) -> (was_unsent: bool) {
        let was_unsent = self.is_dirty;
        self.is_dirty = false;
        was_unsent
    }

    fn is_unsent(&self) -> (unsent: bool) {
        self.is_dirty
    }
}

impl ToProto for TaskStats {
    type Output = console_api::tasks::Stats;

    open spec fn encoded_by(&self, message: console_api::tasks::Stats) -> bool {
        message == self.message
    }

    proof fn lemma_encoded_when_sent(&self, message: console_api::tasks::Stats) {
    }

    fn to_proto(&self) -> (message: console_api::tasks::Stats) {
        self.message.clone()
    }
}

impl DroppedAt for TaskStats {
    open spec fn dropped_at_spec(&self) -> Option<Timestamp> {
        self.dropped_at
    }

    fn dropped_at(&self) -> (time: Option<Timestamp>) {
        self.dropped_at
    }
}

impl Observed for TaskStats {
    open spec fn absorbed(&self, newer: Self) -> Self {
        TaskStats { is_dirty: self.is_dirty || newer.is_dirty, ..newer }
    }

    proof fn lemma_absorbed(&self, newer: Self) {
    }

    fn absorb(&mut self, newer: Self) {
        let is_dirty = self.is_dirty || newer.is_dirty;
        *self = TaskStats { is_dirty, ..newer };
    }
}

impl Unsent for ResourceStats {
    open spec fn unsent(&self) -> bool {
        self.is_dirty
    }

    open spec fn marked_sent(&self) -> Self {
        ResourceStats { is_dirty: false, ..*self }
    }

    proof fn lemma_marked_sent(&self) {
    }

    fn take_unsent(&mut self) -> (was_unsent: bool) {
        let was_unsent = self.is_dirty;
        self.is_dirty = false;
        was_unsent
    }

    fn is_unsent(&self) -> (unsent: bool) {
        self.is_dirty
    }
}

impl ToProto for ResourceStats {
    type Output = console_api::resources::Stats;

    open spec fn encoded_by(&self, message: console_api::resources::Stats) -> bool {
        message == self.message
    }

    proof fn lemma_encoded_when_sent(&self, message: console_api::resources::Stats) {
    }

    fn to_proto(&self) -> (message: console_api::resources::Stats) {
        self.message.clone()
    }
}

impl DroppedAt for ResourceStats {
    open spec fn dropped_at_spec(&self) -> Option<Timestamp> {
        self.dropped_at
    }

    fn dropped_at(&self) -> (time: Option<Timestamp>) {
        self.dropped_at
    }
}

impl Observed for ResourceStats {
    open spec fn absorbed(&self, newer: Self) -> Self {
        ResourceStats { is_dirty: self.is_dirty || newer.is_dirty, ..newer }
    }

    proof fn lemma_absorbed(&self, newer: Self) {
    }

    fn absorb(&mut self, newer: Self) {
        let is_dirty = self.is_dirty || newer.is_dirty;
        *self = ResourceStats { is_dirty, ..newer };
    }
}

impl Unsent for AsyncOpStats {
    open spec fn unsent(&self) -> bool {
        self.is_dirty
    }

    open spec fn marked_sent(&self) -> Self {
        AsyncOpStats { is_dirty: false, ..*self }
    }

    proof fn lemma_marked_sent(&self) {
    }

    fn take_unsent(&mut self) -> (was_unsent: bool) {
        let was_unsent = self.is_dirty;
        self.is_dirty = false;
        was_unsent
    }

    fn is_unsent(&self) -> (unsent: bool) {
        self.is_dirty
    }
}

impl ToProto for AsyncOpStats {
    type Output = console_api::async_ops::Stats;

    open spec fn encoded_by(&self, message: console_api::async_ops::Stats) -> bool {
        message == self.message
    }

    proof fn lemma_encoded_when_sent(&self, message: console_api::async_ops::Stats) {
    }

    fn to_proto(&self) -> (message: console_api::async_ops::Stats) {
        self.message.clone()
    }
}

impl DroppedAt for AsyncOpStats {
    open spec fn dropped_at_spec(&self) -> Option<Timestamp> {
        self.dropped_at
    }

    fn dropped_at(&self) -> (time: Option<Timestamp>) {
        self.dropped_at
    }
}

impl Observed for AsyncOpStats {
    open spec fn absorbed(&self, newer: Self) -> Self {
        AsyncOpStats { is_dirty: self.is_dirty || newer.is_dirty, ..newer }
    }

    proof fn lemma_absorbed(&self, newer: Self) {
    }

    fn absorb(&mut self, newer: Self) {
        let is_dirty = self.is_dirty || newer.is_dirty;
        *self = AsyncOpStats { is_dirty, ..newer };
    }
}

} // verus!
