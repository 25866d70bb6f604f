//! Subscribers: the sending end of a bounded channel each.

use crate::outlet::{filled, received, refused, Outlet, Place, Sent};
use crate::release::{release, released, Released};
use std::sync::Arc;
use tokio::sync::{mpsc, oneshot};
use vstd::prelude::*;

verus! {

// ==== channels of tokio ====

/// `tokio::sync::mpsc::Receiver`: the receiving end of a bounded channel.
#[verifier::external_type_specification]
#[verifier::external_body]
#[verifier::reject_recursive_types(T)]
pub struct ExReceiver<T>(mpsc::Receiver<T>);

/// `tokio::sync::oneshot::Sender`: the sending end of a channel for one value.
#[verifier::external_type_specification]
#[verifier::external_body]
#[verifier::reject_recursive_types(T)]
pub struct ExOneshotSender<T>(oneshot::Sender<T>);

/// A number of messages for which a bounded channel can have room.
pub open spec fn channel_capacity(buffer: usize) -> bool {
    0 < buffer <= usize::MAX / 8
}

/// `tokio::sync::mpsc::channel` makes a channel with room for `buffer`
/// messages. It panics when there is no room at all, and when `buffer` exceeds
/// the number of permits that its semaphore can count, an eighth of the range
/// of `usize`. That the two ends belong together, and what room there is, is not
/// claimed.
pub assume_specification<T>[ mpsc::channel::<T> ](buffer: usize) -> (ends: (
    mpsc::Sender<T>,
    mpsc::Receiver<T>,
))
    requires
        channel_capacity(buffer),
;

/// `tokio::sync::oneshot::Sender::send` hands `value` to the requester. Whether
/// the requester still waits is not known here; if not, the value is claimed to
/// come back.
pub assume_specification<T>[ oneshot::Sender::<T>::send ](
    sender: oneshot::Sender<T>,
    value: T,
) -> (answer: Result<(), T>)
    ensures
        answer matches Err(returned) ==> returned == value,
;

/// `sender` and `receiver` are the two ends of a channel that was made with
/// room for `buffer` messages.
pub open spec fn opened<M>(
    buffer: usize,
    sender: mpsc::Sender<M>,
    receiver: mpsc::Receiver<M>,
) -> bool {
    call_ensures(mpsc::channel::<M>, (buffer,), (sender, receiver))
}

/// `answer` is what `requester` answered when `value` was handed over.
pub open spec fn handed<A>(
    requester: oneshot::Sender<A>,
    value: A,
    answer: Result<(), A>,
) -> bool {
    call_ensures(oneshot::Sender::<A>::send, (requester, value), answer)
}

// ==== subscribers ====

/// The error by which a stream can end. The aggregator itself sends none.
pub struct Status {
    pub code: i32,
    pub message: String,
}

/// What a subscriber to messages of type `T` receives. A message is shared by
/// the subscribers that it is sent to.
pub type Message<T> = Result<Arc<T>, Status>;

/// A subscriber to messages of type `T`.
///
/// Its view is the sequence of the messages that were sent to it.
#[verifier::reject_recursive_types(T)]
pub struct Watch<T> {
    outlet: Outlet<Message<T>>,
}

impl<T> View for Watch<T> {
    type V = Seq<Message<T>>;

    closed spec fn view(&self) -> Seq<Message<T>> {
        self.outlet.sent()@
    }
}

impl<T> Watch<T> {
    /// The channel by which the subscriber is reached.
    pub closed spec fn channel(self) -> mpsc::Sender<Message<T>> {
        self.outlet.channel()
    }

    /// A subscriber that is reached by `sender`, before its first message.
    pub fn new(sender: mpsc::Sender<Message<T>>) -> (watch: Self)
        ensures
            watch.channel() == sender,
            watch@ == Seq::<Message<T>>::empty(),
    {
        Watch { outlet: Outlet::new(sender) }
    }

    /// Asks the channel once for a place, and sends `update` unless there is
    /// none because the subscriber has gone away or the channel is full. Tells
    /// whether it was sent, which is what the channel answered.
    pub fn update(&mut self, update: &Arc<T>) -> (delivered: bool)
        ensures
            delivered ==> accepts(*old(self), *update, *final(self)),
            !delivered ==> refuses(*old(self), *final(self)),
    {
        put(self.outlet.reserve(), update)
    }
}

/// Puts `update` into the place that was reserved for it, if one was, and
/// tells whether one was.
pub fn put<'a, T>(
    place: Result<
        (Place<'a, Message<T>>, &'a mut Sent<Message<T>>),
        mpsc::error::TrySendError<()>,
    >,
    update: &Arc<T>,
) -> (delivered: bool)
    requires
        place matches Ok((place, sent)) ==> place.outlet() == sent.outlet(),
    ensures
        delivered == place is Ok,
        place matches Ok((place, sent)) ==> {
            &&& filled(place.permit(), Ok::<Arc<T>, Status>(*update))
            &&& final(sent)@ == sent@.push(Ok(*update))
        },
{
    match place {
        Ok((place, sent)) => {
            place.put(Ok(update.clone()), sent);
            true
        },
        Err(_) => false,
    }
}

/// A request to watch the entity with number `id`. The receiving end of a
/// channel with room for `buffer` messages is sent back by `stream_sender`.
#[verifier::reject_recursive_types(T)]
pub struct WatchRequest<T> {
    pub id: u64,
    pub stream_sender: oneshot::Sender<mpsc::Receiver<Message<T>>>,
    pub buffer: usize,
}

/// `after` is the subscriber `before` once its channel was asked for a place,
/// had one, and `update` was put into it, and nothing else was sent.
pub open spec fn accepts<T>(before: Watch<T>, update: Arc<T>, after: Watch<T>) -> bool {
    &&& received(before.channel(), Ok::<Arc<T>, Status>(update))
    &&& after.channel() == before.channel()
    &&& after@ == before@.push(Ok(update))
}

/// `after` is the subscriber `before` once its channel was asked for a place
/// and had none, so that nothing was sent.
pub open spec fn refuses<T>(before: Watch<T>, after: Watch<T>) -> bool {
    &&& refused(before.channel())
    &&& after == before
}

// ==== sending to many ====

/// `update` was offered once to each of `before`, and `after` is what became of
/// them: those with a flag accepted it, the others refused it.
pub open spec fn offered<T>(
    before: Seq<Watch<T>>,
    flags: Seq<bool>,
    update: Arc<T>,
    after: Seq<Watch<T>>,
) -> bool {
    &&& flags.len() == before.len()
    &&& after.len() == before.len()
    &&& forall|i: int|
        #![trigger after[i]]
        0 <= i < before.len() ==> if flags[i] {
            accepts(before[i], update, after[i])
        } else {
            refuses(before[i], after[i])
        }
}

/// The items that have a flag, in their order.
pub open spec fn select<A>(items: Seq<A>, flags: Seq<bool>) -> Seq<A>
    recommends
        items.len() == flags.len(),
    decreases items.len(),
{
    if items.len() == 0 {
        Seq::empty()
    } else {
        let rest = select(items.drop_last(), flags.drop_last());
        if flags.last() {
            rest.push(items.last())
        } else {
            rest
        }
    }
}

/// Who has no flag of those who have one.
pub open spec fn negated(flags: Seq<bool>) -> Seq<bool> {
    flags.map_values(|flag: bool| !flag)
}

/// `update` was offered once to each of `before`: `kept` are those who accepted
/// it and `dropped` are those who refused it, in their order.
pub open spec fn delivered<T>(
    before: Seq<Watch<T>>,
    update: Arc<T>,
    kept: Seq<Watch<T>>,
    dropped: Seq<Watch<T>>,
) -> bool {
    exists|flags: Seq<bool>, all: Seq<Watch<T>>|
        {
            &&& #[trigger] offered(before, flags, update, all)
            &&& kept == select(all, flags)
            &&& dropped == select(all, negated(flags))
        }
}

/// Offers `update` to every subscriber, the first one first, and tells which
/// of them accepted it.
pub fn offer<T>(watchers: &mut Vec<Watch<T>>, update: &Arc<T>) -> (flags: Vec<bool>)
    ensures
        offered(old(watchers)@, flags@, *update, final(watchers)@),
{
    let mut flags: Vec<bool> = Vec::new();
    let mut i: usize = 0;
    while i < watchers.len()
        invariant
            i <= watchers.len(),
            watchers.len() == old(watchers).len(),
            flags.len() == i,
            forall|j: int|
                #![trigger watchers@[j]]
                0 <= j < i ==> if flags@[j] {
                    accepts(old(watchers)@[j], *update, watchers@[j])
                } else {
                    refuses(old(watchers)@[j], watchers@[j])
                },
            forall|j: int| i <= j < watchers.len() ==> watchers@[j] == old(watchers)@[j],
        decreases watchers.len() - i,
    {
        let flag = watchers[i].update(update);
        flags.push(flag);
        i = i + 1;
    }
    flags
}

/// Keeps the items that have a flag, and lets go of the others, both in their
/// order.
pub fn retain_flagged<A>(items: &mut Vec<A>, flags: &Vec<bool>) -> (others: Vec<Released<A>>)
    requires
        flags.len() == old(items).len(),
    ensures
        final(items)@ == select(old(items)@, flags@),
        released(others@) == select(old(items)@, negated(flags@)),
{
    let mut all: Vec<A> = Vec::new();
    core::mem::swap(items, &mut all);
    let mut others: Vec<Released<A>> = Vec::new();
    let ghost before = all@;
    let ghost not = negated(flags@);
    let mut i: usize = 0;
    for item in it: all
        invariant
            it.seq() == before,
            i == it.index(),
            flags.len() == before.len(),
            not == negated(flags@),
            items@ == select(before.take(i as int), flags@.take(i as int)),
            released(others@) == select(before.take(i as int), not.take(i as int)),
    {
        proof {
            assert(before.take(i + 1).drop_last() == before.take(i as int));
            assert(flags@.take(i + 1).drop_last() == flags@.take(i as int));
            assert(not.take(i + 1).drop_last() == not.take(i as int));
        }
        if flags[i] {
            items.push(item);
        } else {
            let ghost earlier = released(others@);
            others.push(release(item));
            assert(released(others@) =~= earlier.push(item));
        }
        i = i + 1;
    }
    proof {
        assert(before.take(before.len() as int) == before);
        assert(flags@.take(before.len() as int) == flags@);
        assert(not.take(before.len() as int) == not);
    }
    others
}

/// Sends `update` to every subscriber, and drops those who have gone away or
/// whose channel is full.
pub fn retain_delivered<T>(watchers: &mut Vec<Watch<T>>, update: &Arc<T>) -> (dropped: Vec<
    Released<Watch<T>>,
>)
    ensures
        delivered(old(watchers)@, *update, final(watchers)@, released(dropped@)),
{
    let flags = offer(watchers, update);
    let ghost all = watchers@;
    let dropped = retain_flagged(watchers, &flags);
    assert(offered(old(watchers)@, flags@, *update, all));
    dropped
}

} // verus!
