//! The sending end of a bounded channel, with a record of what was sent.
//!
//! Nothing else stands here. Only this module reaches the channel of an outlet
//! and writes the record, so a message cannot be sent through an outlet without
//! being recorded, nor be recorded without being sent.

use tokio::sync::mpsc;
use vstd::prelude::*;

verus! {

/// `tokio::sync::mpsc::Sender`: the sending end of a bounded channel.
#[verifier::external_type_specification]
#[verifier::external_body]
#[verifier::reject_recursive_types(T)]
pub struct ExSender<T>(mpsc::Sender<T>);

/// `tokio::sync::mpsc::Permit`: a reserved place in a bounded channel.
#[verifier::external_type_specification]
#[verifier::external_body]
#[verifier::reject_recursive_types(T)]
pub struct ExPermit<'a, T>(mpsc::Permit<'a, T>);

/// `tokio::sync::mpsc::error::TrySendError`: why no place could be reserved.
#[verifier::external_type_specification]
#[verifier::external_body]
#[verifier::reject_recursive_types(T)]
pub struct ExTrySendError<T>(mpsc::error::TrySendError<T>);

/// `tokio::sync::mpsc::Sender::try_reserve` reserves a place in the channel
/// without waiting. Whether there is one rests with the receiving end, which
/// may have been dropped or may not keep up, so nothing is claimed of it.
pub assume_specification<T>[ mpsc::Sender::<T>::try_reserve ](
    sender: &mpsc::Sender<T>,
) -> (permit: Result<mpsc::Permit<'_, T>, mpsc::error::TrySendError<()>>)
;

/// `tokio::sync::mpsc::Permit::send` puts `value` into the reserved place. It
/// returns nothing, and nothing is claimed of it.
pub assume_specification<'a, T>[ mpsc::Permit::<'a, T>::send ](
    permit: mpsc::Permit<'a, T>,
    value: T,
)
;

/// `channel` was asked for a place and gave `permit`.
pub open spec fn reserved<M>(channel: mpsc::Sender<M>, permit: mpsc::Permit<'_, M>) -> bool {
    call_ensures(
        mpsc::Sender::<M>::try_reserve,
        (&channel,),
        Ok::<mpsc::Permit<'_, M>, mpsc::error::TrySendError<()>>(permit),
    )
}

/// `message` was put into the place that `permit` held.
pub open spec fn filled<M>(permit: mpsc::Permit<'_, M>, message: M) -> bool {
    call_ensures(mpsc::Permit::<M>::send, (permit, message), ())
}

/// `channel` was asked for a place, gave one, and `message` was put into it.
pub open spec fn received<M>(channel: mpsc::Sender<M>, message: M) -> bool {
    exists|permit: mpsc::Permit<'_, M>| #[trigger]
        reserved(channel, permit) && filled(permit, message)
}

/// `channel` was asked for a place and had none.
pub open spec fn refused<M>(channel: mpsc::Sender<M>) -> bool {
    exists|error: mpsc::error::TrySendError<()>| #[trigger]
        call_ensures(
            mpsc::Sender::<M>::try_reserve,
            (&channel,),
            Err::<mpsc::Permit<'_, M>, mpsc::error::TrySendError<()>>(error),
        )
}

/// The record of an [`Outlet`], kept for proofs alone. Its view is the sequence
/// of the messages that were sent through the outlet, oldest first.
#[verifier::reject_recursive_types(M)]
pub struct Sent<M> {
    outlet: Ghost<mpsc::Sender<M>>,
    messages: Ghost<Seq<M>>,
}

impl<M> View for Sent<M> {
    type V = Seq<M>;

    closed spec fn view(&self) -> Seq<M> {
        self.messages@
    }
}

impl<M> Sent<M> {
    /// The outlet whose record this is.
    pub closed spec fn outlet(self) -> mpsc::Sender<M> {
        self.outlet@
    }
}

/// A place that was reserved through an [`Outlet`].
#[verifier::reject_recursive_types(M)]
pub struct Place<'a, M> {
    outlet: Ghost<mpsc::Sender<M>>,
    permit: mpsc::Permit<'a, M>,
}

impl<'a, M> Place<'a, M> {
    /// The outlet through which the place was reserved.
    pub closed spec fn outlet(self) -> mpsc::Sender<M> {
        self.outlet@
    }

    /// What the channel gave for the place.
    pub closed spec fn permit(self) -> mpsc::Permit<'a, M> {
        self.permit
    }

    /// Puts `message` into the place, and records it in the record of the
    /// outlet through which the place was reserved.
    pub fn put(self, message: M, sent: &mut Sent<M>)
        requires
            self.outlet() == old(sent).outlet(),
        ensures
            filled(self.permit(), message),
            final(sent).outlet() == old(sent).outlet(),
            final(sent)@ == old(sent)@.push(message),
    {
        self.permit.send(message);
        proof {
            sent.messages@ = sent.messages@.push(message);
        }
    }
}

/// The sending end of a bounded channel, which can be reached in no other way.
#[verifier::reject_recursive_types(M)]
pub struct Outlet<M> {
    sender: mpsc::Sender<M>,
    sent: Sent<M>,
}

impl<M> Outlet<M> {
    /// The channel that messages are sent into.
    pub closed spec fn channel(self) -> mpsc::Sender<M> {
        self.sender
    }

    /// What was sent.
    pub closed spec fn sent(self) -> Sent<M> {
        self.sent
    }

    /// The outlet into the channel of `sender`, with an empty record.
    pub fn new(sender: mpsc::Sender<M>) -> (outlet: Self)
        ensures
            outlet.channel() == sender,
            outlet.sent()@ == Seq::<M>::empty(),
    {
        Outlet { sent: Sent { outlet: Ghost(sender), messages: Ghost(Seq::empty()) }, sender }
    }

    /// Asks the channel once for a place. Where there is one, it comes with the
    /// record in which what is put there is to be recorded.
    pub fn reserve<'a>(&'a mut self) -> (place: Result<
        (Place<'a, M>, &'a mut Sent<M>),
        mpsc::error::TrySendError<()>,
    >)
        ensures
            final(self).channel() == old(self).channel(),
            match place {
                Ok((place, sent)) => {
                    &&& reserved(old(self).channel(), place.permit())
                    &&& place.outlet() == sent.outlet()
                    &&& *sent == old(self).sent()
                    &&& final(self).sent() == *final(sent)
                },
                Err(_) => {
                    &&& refused(old(self).channel())
                    &&& *final(self) == *old(self)
                },
            },
    {
        match self.sender.try_reserve() {
            Ok(permit) => Ok((Place { outlet: Ghost(self.sent.outlet@), permit }, &mut self.sent)),
            Err(error) => Err(error),
        }
    }
}

// ==== what the functions above do ====

/// An outlet reaches the channel that it was made for, and has sent nothing at
/// first.
proof fn law_outlet_is_its_channel<M>(sender: mpsc::Sender<M>, new: Outlet<M>, outlet: Outlet<M>)
    requires
        call_ensures(Outlet::<M>::new, (sender,), new),
    ensures
        new.sender == sender,
        new.sent@.len() == 0,
        outlet.channel() == outlet.sender,
        outlet.sent() == outlet.sent,
        outlet.sent()@ == outlet.sent.messages@,
{
}

/// Reserving asks the channel of the outlet once. Where there is no place,
/// nothing changes; where there is one, it comes with the record of that outlet,
/// which is then what that record becomes.
proof fn law_reserving_asks_the_channel<'a, M>(
    outlet: &'a mut Outlet<M>,
    place: Result<(Place<'a, M>, &'a mut Sent<M>), mpsc::error::TrySendError<()>>,
)
    requires
        call_ensures(Outlet::<M>::reserve, (outlet,), place),
    ensures
        final(outlet).sender == old(outlet).sender,
        place matches Ok((place, sent)) ==> {
            &&& call_ensures(
                mpsc::Sender::<M>::try_reserve,
                (&old(outlet).sender,),
                Ok::<mpsc::Permit<'_, M>, mpsc::error::TrySendError<()>>(place.permit),
            )
            &&& *sent == old(outlet).sent
            &&& final(outlet).sent == *final(sent)
        },
        place is Err ==> {
            &&& *final(outlet) == *old(outlet)
            &&& exists|error: mpsc::error::TrySendError<()>| #[trigger]
                call_ensures(
                    mpsc::Sender::<M>::try_reserve,
                    (&old(outlet).sender,),
                    Err::<mpsc::Permit<'_, M>, mpsc::error::TrySendError<()>>(error),
                )
        },
{
}

/// Putting a message into a place sends it there, and the record grows by it.
proof fn law_putting_sends_the_message<'a, M>(place: Place<'a, M>, message: M, sent: &mut Sent<M>)
    requires
        call_ensures(Place::<'a, M>::put, (place, message, sent), ()),
    ensures
        call_ensures(mpsc::Permit::<M>::send, (place.permit, message), ()),
        final(sent).messages@.len() == old(sent).messages@.len() + 1,
        final(sent).messages@.last() == message,
        final(sent).messages@.drop_last() == old(sent).messages@,
{
    assert(final(sent).messages@.drop_last() =~= old(sent).messages@);
}

} // verus!
