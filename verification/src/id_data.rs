//! Data about instrumented entities, by the number of the entity.

use crate::time::{elapsed, elapsed_nanos, Timestamp};
use std::collections::HashMap;
use vstd::prelude::*;

verus! {

broadcast use vstd::std_specs::hash::group_hash_axioms;

/// Data with a mark that says that subscribers have not been told of its
/// latest state.
pub trait Unsent: Sized {
    /// Whether the mark is there.
    spec fn unsent(&self) -> bool;

    /// The same data without the mark.
    spec fn marked_sent(&self) -> Self;

    /// Taking the mark away leaves none, and does nothing where there was none.
    proof fn lemma_marked_sent(&self)
        ensures
            !self.marked_sent().unsent(),
            !self.unsent() ==> self.marked_sent() == *self,
    ;

    /// Takes the mark away, and tells whether it was there.
    fn take_unsent(&mut self) -> (was_unsent: bool)
        ensures
            was_unsent == old(self).unsent(),
            *final(self) == old(self).marked_sent(),
    ;

    /// Tells whether the mark is there.
    fn is_unsent(&self) -> (unsent: bool)
        ensures
            unsent == self.unsent(),
    ;
}

/// Data that is announced to subscribers by a message.
pub trait ToProto: Unsent {
    type Output;

    /// `message` is the message about this data.
    spec fn encoded_by(&self, message: Self::Output) -> bool;

    /// What is announced does not depend on whether it was announced before.
    proof fn lemma_encoded_when_sent(&self, message: Self::Output)
        ensures
            self.marked_sent().encoded_by(message) == self.encoded_by(message),
    ;

    /// Makes the message about this data.
    fn to_proto(&self) -> (message: Self::Output)
        ensures
            self.encoded_by(message),
    ;
}

/// Data about an entity that ends at some time.
pub trait DroppedAt {
    /// When the entity ended, if it did.
    spec fn dropped_at_spec(&self) -> Option<Timestamp>;

    /// When the entity ended, if it did.
    fn dropped_at(&self) -> (time: Option<Timestamp>)
        ensures
            time == self.dropped_at_spec(),
    ;
}

/// Which of the data an update is about.
#[derive(Clone, Copy, Debug, PartialEq, Eq, Structural)]
pub enum Include {
    /// All of it.
    All,
    /// What subscribers have not been told of.
    UpdatedOnly,
}

// ==== what the operations mean on maps ====

/// The entries whose data is marked as unsent.
pub open spec fn unsent_entries<T: Unsent>(entries: Map<u64, T>) -> Map<u64, T> {
    entries.restrict(entries.dom().filter(|id: u64| entries[id].unsent()))
}

/// The same entries, none of them marked as unsent.
pub open spec fn all_marked_sent<T: Unsent>(entries: Map<u64, T>) -> Map<u64, T> {
    entries.map_values(|data: T| data.marked_sent())
}

/// The entries that an update is about.
pub open spec fn included<T: Unsent>(entries: Map<u64, T>, which: Include) -> Map<u64, T> {
    match which {
        Include::All => entries,
        Include::UpdatedOnly => unsent_entries(entries),
    }
}

/// What is left of the entries after an update about them: the data that it
/// was owed is no longer marked.
pub open spec fn after_update<T: Unsent>(entries: Map<u64, T>, which: Include) -> Map<u64, T> {
    match which {
        Include::All => entries,
        Include::UpdatedOnly => all_marked_sent(entries),
    }
}

/// `ids` are the numbers in `set`, each of them once, in some order.
pub open spec fn enumerates(ids: Seq<u64>, set: Set<u64>) -> bool {
    &&& ids.no_duplicates()
    &&& ids.to_set() == set
}

/// `messages` are the messages about the entries `ids`, in this order.
pub open spec fn encoded_in_order<T: ToProto>(
    entries: Map<u64, T>,
    ids: Seq<u64>,
    messages: Seq<T::Output>,
) -> bool {
    &&& messages.len() == ids.len()
    &&& forall|i: int|
        #![trigger messages[i]]
        0 <= i < ids.len() ==> entries[ids[i]].encoded_by(messages[i])
}

/// `messages` are the messages about the entries, one for each, in some order.
pub open spec fn encoded_as_list<T: ToProto>(
    entries: Map<u64, T>,
    messages: Seq<T::Output>,
) -> bool {
    exists|ids: Seq<u64>| #[trigger]
        enumerates(ids, entries.dom()) && encoded_in_order(entries, ids, messages)
}

/// `messages` are the messages about the entries, by their numbers.
pub open spec fn encoded_as_map<T: ToProto>(
    entries: Map<u64, T>,
    messages: Map<u64, T::Output>,
) -> bool {
    &&& messages.dom() == entries.dom()
    &&& forall|id: u64| #[trigger]
        messages.contains_key(id) ==> entries[id].encoded_by(messages[id])
}

/// The statistics of an entity are not needed any more: the entity ended more
/// than `retention` nanoseconds ago, and its final statistics were sent, or
/// there is nobody to send them to.
pub open spec fn expired<R: DroppedAt + Unsent>(
    stats: R,
    now: Timestamp,
    retention: u128,
    has_watchers: bool,
) -> bool {
    &&& stats.dropped_at_spec() matches Some(dropped_at)
    &&& elapsed(dropped_at, now) > retention
    &&& !(has_watchers && stats.unsent())
}

/// The statistics that are still needed.
pub open spec fn retained<R: DroppedAt + Unsent>(
    stats: Map<u64, R>,
    now: Timestamp,
    retention: u128,
    has_watchers: bool,
) -> Map<u64, R> {
    stats.restrict(
        stats.dom().filter(|id: u64| !expired(stats[id], now, retention, has_watchers)),
    )
}

/// Computes [`expired`].
pub fn is_expired<R: DroppedAt + Unsent>(
    stats: &R,
    now: Timestamp,
    retention: u128,
    has_watchers: bool,
) -> (result: bool)
    ensures
        result == expired(*stats, now, retention, has_watchers),
{
    match stats.dropped_at() {
        Some(dropped_at) => {
            let dropped_for: u128 = elapsed_nanos(dropped_at, now);
            dropped_for > retention && !(has_watchers && stats.is_unsent())
        },
        None => false,
    }
}

// ==== the collection ====

/// Data about entities of one sort. Its view is the map from the number of an
/// entity to the data.
pub struct IdData<T> {
    data: HashMap<u64, T>,
}

impl<T> View for IdData<T> {
    type V = Map<u64, T>;

    closed spec fn view(&self) -> Map<u64, T> {
        self.data@
    }
}

impl<T> Default for IdData<T> {
    fn default() -> (data: Self)
        ensures
            data@ == Map::<u64, T>::empty(),
    {
        IdData { data: HashMap::new() }
    }
}

/// The keys of `map`, each of them once, in some order.
pub fn keys<V>(map: &HashMap<u64, V>) -> (ids: Vec<u64>)
    ensures
        enumerates(ids@, map@.dom()),
{
    let mut ids: Vec<u64> = Vec::new();
    let ghost order = vstd::std_specs::iter::IteratorSpec::remaining(
        &vstd::std_specs::hash::spec_keys_iter(map),
    );
    for id in it: map.keys()
        invariant
            it.seq() == order,
            ids@ == order.unref().take(it.index() as int),
    {
        ids.push(*id);
    }
    proof {
        assert(ids@ == order.unref());
        assert forall|i: int, j: int|
            0 <= i < ids.len() && 0 <= j < ids.len() && i != j implies ids@[i] != ids@[j] by {
            assert(order[i] != order[j]);
        }
    }
    ids
}

impl<T> IdData<T> {
    /// Adds the data about entity `id`; what was known of it before is gone.
    pub fn insert(&mut self, id: u64, data: T)
        ensures
            final(self)@ == old(self)@.insert(id, data),
    {
        self.data.insert(id, data);
    }

    /// The data about entity `id`.
    pub fn get(&self, id: u64) -> (data: Option<&T>)
        ensures
            match data {
                Some(found) => self@.contains_key(id) && *found == self@[id],
                None => !self@.contains_key(id),
            },
    {
        self.data.get(&id)
    }

    /// Takes the data about entity `id` out.
    pub fn take(&mut self, id: u64) -> (data: Option<T>)
        ensures
            match data {
                Some(found) => old(self)@.contains_key(id) && found == old(self)@[id],
                None => !old(self)@.contains_key(id),
            },
            final(self)@ == old(self)@.remove(id),
    {
        self.data.remove(&id)
    }

    /// The numbers of all entities.
    pub fn all(&self) -> (ids: Vec<u64>)
        ensures
            enumerates(ids@, self@.dom()),
    {
        keys(&self.data)
    }
}

impl<T: Unsent> IdData<T> {
    /// The numbers of the entities whose data is marked as unsent. The marks
    /// are taken away.
    pub fn since_last_update(&mut self) -> (updated: Vec<u64>)
        ensures
            enumerates(updated@, unsent_entries(old(self)@).dom()),
            final(self)@ == all_marked_sent(old(self)@),
    {
        let ghost before = self.data@;
        let ids = keys(&self.data);
        let mut updated: Vec<u64> = Vec::new();
        let mut i: usize = 0;
        while i < ids.len()
            invariant
                i <= ids.len(),
                enumerates(ids@, before.dom()),
                self.data@.dom() == before.dom(),
                forall|j: int|
                    #![trigger ids@[j]]
                    0 <= j < i ==> self.data@[ids@[j]] == before[ids@[j]].marked_sent(),
                forall|j: int|
                    #![trigger ids@[j]]
                    i <= j < ids.len() ==> self.data@[ids@[j]] == before[ids@[j]],
                updated@.no_duplicates(),
                forall|id: u64| #[trigger]
                    updated@.contains(id) <==> ids@.take(i as int).contains(id)
                        && before[id].unsent(),
            decreases ids.len() - i,
        {
            let id: u64 = ids[i];
            let ghost known = updated@;
            let ghost seen = ids@.take(i as int);
            proof {
                assert(ids@.to_set().contains(ids@[i as int]));
                assert(ids@.take(i + 1) == seen.push(id));
                assert(!seen.contains(id));
                assert(!known.contains(id));
            }
            if let Some(mut data) = self.data.remove(&id) {
                let was_unsent = data.take_unsent();
                self.data.insert(id, data);
                if was_unsent {
                    updated.push(id);
                    assert(updated@.last() == id);
                }
            }
            assert forall|other: u64| #[trigger]
                updated@.contains(other) <==> ids@.take(i + 1).contains(other)
                    && before[other].unsent() by {
                lemma_push_contains(seen, id, other);
                lemma_push_contains(known, id, other);
            }
            i = i + 1;
        }
        proof {
            assert(ids@.take(ids.len() as int) == ids@);
            assert forall|id: u64| #[trigger] self.data@.contains_key(id) implies self.data@[id]
                == before[id].marked_sent() by {
                assert(ids@.to_set().contains(id));
                let j = choose|j: int| 0 <= j < ids.len() && ids@[j] == id;
                assert(ids@[j] == id);
            }
            assert(self.data@ == all_marked_sent(before));
            assert forall|id: u64| #[trigger]
                updated@.to_set().contains(id) <==> unsent_entries(before).dom().contains(id) by {
                assert(updated@.contains(id) <==> ids@.contains(id) && before[id].unsent());
                assert(ids@.to_set().contains(id) <==> before.dom().contains(id));
            }
            assert(updated@.to_set() == unsent_entries(before).dom());
        }
        updated
    }
}

impl<T: ToProto> IdData<T> {
    /// The messages about the entities `ids`, in this order.
    fn messages(&self, ids: &Vec<u64>) -> (messages: Vec<T::Output>)
        requires
            forall|i: int| 0 <= i < ids.len() ==> self@.contains_key(#[trigger] ids@[i]),
        ensures
            encoded_in_order(self@, ids@, messages@),
    {
        let mut messages: Vec<T::Output> = Vec::new();
        let mut i: usize = 0;
        while i < ids.len()
            invariant
                i <= ids.len(),
                messages.len() == i,
                forall|j: int| 0 <= j < ids.len() ==> self@.contains_key(#[trigger] ids@[j]),
                forall|j: int|
                    #![trigger messages@[j]]
                    0 <= j < i ==> self@[ids@[j]].encoded_by(messages@[j]),
            decreases ids.len() - i,
        {
            assert(self@.contains_key(ids@[i as int]));
            if let Some(data) = self.get(ids[i]) {
                messages.push(data.to_proto());
            }
            i = i + 1;
        }
        messages
    }

    /// The messages about the entities that an update is about, in some order.
    /// An update about what was not sent before takes the marks away.
    pub fn as_list(&mut self, which: Include) -> (messages: Vec<T::Output>)
        ensures
            encoded_as_list(included(old(self)@, which), messages@),
            final(self)@ == after_update(old(self)@, which),
    {
        let ids = match which {
            Include::All => self.all(),
            Include::UpdatedOnly => self.since_last_update(),
        };
        let ghost entries = included(old(self)@, which);
        assert forall|i: int| 0 <= i < ids.len() implies self@.contains_key(#[trigger] ids@[i])
            && entries.contains_key(ids@[i]) by {
            assert(ids@.to_set().contains(ids@[i]));
        }
        let messages = self.messages(&ids);
        proof {
            self.lemma_messages_of_included(*old(self), which, ids@, messages@);
            assert(enumerates(ids@, entries.dom()));
        }
        messages
    }

    /// The messages about the entities that an update is about, by their
    /// numbers. An update about what was not sent before takes the marks away.
    pub fn as_proto(&mut self, which: Include) -> (messages: HashMap<u64, T::Output>)
        ensures
            encoded_as_map(included(old(self)@, which), messages@),
            final(self)@ == after_update(old(self)@, which),
    {
        let ids = match which {
            Include::All => self.all(),
            Include::UpdatedOnly => self.since_last_update(),
        };
        let ghost entries = included(old(self)@, which);
        let mut messages: HashMap<u64, T::Output> = HashMap::new();
        let mut i: usize = 0;
        assert(ids@.take(0).to_set() =~= Set::<u64>::empty());
        while i < ids.len()
            invariant
                i <= ids.len(),
                enumerates(ids@, entries.dom()),
                entries == included(old(self)@, which),
                self@ == after_update(old(self)@, which),
                messages@.dom() == ids@.take(i as int).to_set(),
                forall|id: u64| #[trigger]
                    messages@.contains_key(id) ==> entries[id].encoded_by(messages@[id]),
            decreases ids.len() - i,
        {
            let id: u64 = ids[i];
            let ghost seen = ids@.take(i as int);
            proof {
                assert(ids@.to_set().contains(ids@[i as int]));
                assert(ids@.take(i + 1) == seen.push(id));
                assert forall|other: u64| #[trigger]
                    seen.push(id).to_set().contains(other) <==> seen.to_set().insert(id).contains(
                        other,
                    ) by {
                    lemma_push_contains(seen, id, other);
                }
                assert(seen.push(id).to_set() =~= seen.to_set().insert(id));
            }
            if let Some(data) = self.get(id) {
                let message = data.to_proto();
                proof {
                    old(self)@[id].lemma_encoded_when_sent(message);
                }
                messages.insert(id, message);
            }
            i = i + 1;
        }
        assert(ids@.take(ids.len() as int) == ids@);
        messages
    }

    /// Messages made after an update took the marks away are the messages
    /// about the entries as they were before it.
    proof fn lemma_messages_of_included(
        &self,
        before: Self,
        which: Include,
        ids: Seq<u64>,
        messages: Seq<T::Output>,
    )
        requires
            self@ == after_update(before@, which),
            forall|i: int|
                0 <= i < ids.len() ==> included(before@, which).contains_key(#[trigger] ids[i]),
            encoded_in_order(self@, ids, messages),
        ensures
            encoded_in_order(included(before@, which), ids, messages),
    {
        let entries = included(before@, which);
        assert forall|i: int|
            #![trigger messages[i]]
            0 <= i < ids.len() implies entries[ids[i]].encoded_by(messages[i]) by {
            assert(entries.contains_key(ids[i]));
            before@[ids[i]].lemma_encoded_when_sent(messages[i]);
        }
    }
}

impl<T> IdData<T> {
    /// Drops the entries that `keep` does not hold.
    fn retain_keys<R>(&mut self, keep: &IdData<R>)
        ensures
            final(self)@ == old(self)@.restrict(keep@.dom()),
    {
        let ghost before = self.data@;
        let ids = keys(&self.data);
        let mut i: usize = 0;
        while i < ids.len()
            invariant
                i <= ids.len(),
                enumerates(ids@, before.dom()),
                forall|id: u64| #[trigger]
                    self.data@.contains_key(id) <==> before.contains_key(id) && (
                    keep@.contains_key(id) || !ids@.take(i as int).contains(id)),
                forall|id: u64| #[trigger]
                    self.data@.contains_key(id) ==> self.data@[id] == before[id],
            decreases ids.len() - i,
        {
            let id: u64 = ids[i];
            let ghost seen = ids@.take(i as int);
            assert(ids@.take(i + 1) == seen.push(id));
            if keep.get(id).is_none() {
                self.data.remove(&id);
            }
            assert forall|other: u64| #[trigger]
                self.data@.contains_key(other) <==> before.contains_key(other) && (
                keep@.contains_key(other) || !ids@.take(i + 1).contains(other)) by {
                lemma_push_contains(seen, id, other);
            }
            i = i + 1;
        }
        proof {
            assert(ids@.take(ids.len() as int) == ids@);
            assert forall|id: u64| #[trigger] before.contains_key(id) implies ids@.contains(id) by {
                assert(ids@.to_set().contains(id));
            }
            assert(self.data@ =~= before.restrict(keep@.dom()));
        }
    }

    /// Drops the statistics that are not needed any more, and with them the
    /// entities that they were about.
    pub fn drop_closed<R: DroppedAt + Unsent>(
        &mut self,
        stats: &mut IdData<R>,
        now: Timestamp,
        retention: u128,
        has_watchers: bool,
    )
        ensures
            final(stats)@ == retained(old(stats)@, now, retention, has_watchers),
            final(self)@ == old(self)@.restrict(final(stats)@.dom()),
    {
        stats.drop_expired(now, retention, has_watchers);
        self.retain_keys(stats);
    }
}

impl<R: DroppedAt + Unsent> IdData<R> {
    /// Drops the statistics that are not needed any more.
    fn drop_expired(&mut self, now: Timestamp, retention: u128, has_watchers: bool)
        ensures
            final(self)@ == retained(old(self)@, now, retention, has_watchers),
    {
        let ghost before = self.data@;
        let ids = keys(&self.data);
        let mut i: usize = 0;
        while i < ids.len()
            invariant
                i <= ids.len(),
                enumerates(ids@, before.dom()),
                forall|id: u64| #[trigger]
                    self.data@.contains_key(id) <==> before.contains_key(id) && (!expired(
                        before[id],
                        now,
                        retention,
                        has_watchers,
                    ) || !ids@.take(i as int).contains(id)),
                forall|id: u64| #[trigger]
                    self.data@.contains_key(id) ==> self.data@[id] == before[id],
            decreases ids.len() - i,
        {
            let id: u64 = ids[i];
            let ghost seen = ids@.take(i as int);
            proof {
                assert(ids@.take(i + 1) == seen.push(id));
                assert(ids@.to_set().contains(ids@[i as int]));
                assert(!seen.contains(id));
                assert(self.data@.contains_key(id));
            }
            let drop_it = match self.data.get(&id) {
                Some(stats) => is_expired(stats, now, retention, has_watchers),
                None => false,
            };
            if drop_it {
                self.data.remove(&id);
            }
            assert forall|other: u64| #[trigger]
                self.data@.contains_key(other) <==> before.contains_key(other) && (!expired(
                    before[other],
                    now,
                    retention,
                    has_watchers,
                ) || !ids@.take(i + 1).contains(other)) by {
                lemma_push_contains(seen, id, other);
            }
            i = i + 1;
        }
        proof {
            assert(ids@.take(ids.len() as int) == ids@);
            assert forall|id: u64| #[trigger] before.contains_key(id) implies ids@.contains(id) by {
                assert(ids@.to_set().contains(id));
            }
            assert(self.data@ =~= retained(before, now, retention, has_watchers));
        }
    }
}

/// What a sequence holds after one item was added at its end.
pub(crate) proof fn lemma_push_contains<A>(items: Seq<A>, last: A, item: A)
    ensures
        items.push(last).contains(item) <==> items.contains(item) || item == last,
{
    let longer = items.push(last);
    assert(longer[items.len() as int] == last);
    if items.contains(item) {
        let i = choose|i: int| 0 <= i < items.len() && items[i] == item;
        assert(longer[i] == item);
    }
}

} // verus!
