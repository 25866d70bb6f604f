//! The request by which a producer asks for the event buffer to be drained.

use crate::access::{Deed, Flag, Journal, Signal};
use vstd::prelude::*;

verus! {

/// What the flag held before and after an attempt to change it.
#[derive(Clone, Copy, Debug, PartialEq, Eq, Structural)]
pub struct Exchange {
    pub before: bool,
    pub after: bool,
}

/// An attempt to change a flag from `current` to `new`, which does nothing to
/// a flag that does not hold `current`.
pub open spec fn attempt(before: bool, current: bool, new: bool) -> Exchange {
    Exchange {
        before,
        after: if before == current {
            new
        } else {
            before
        },
    }
}

/// What the answer of a compare-and-exchange from `current` to `new` says: it
/// succeeds exactly when the flag held `current`.
pub open spec fn reading(current: bool, new: bool, answer: Result<bool, bool>) -> Exchange {
    attempt(
        if answer is Ok {
            current
        } else {
            !current
        },
        current,
        new,
    )
}

impl Exchange {
    /// Reads the answer of a compare-and-exchange from `current` to `new`: it
    /// succeeds exactly when the flag held `current`.
    pub fn read(current: bool, new: bool, answer: Result<bool, bool>) -> (exchange: Self)
        ensures
            exchange == reading(current, new, answer),
    {
        if answer.is_ok() {
            Exchange { before: current, after: new }
        } else {
            Exchange { before: !current, after: !current }
        }
    }
}

/// A request to drain the event buffer, which is made at most once until the
/// buffer was drained.
pub struct Flush {
    pub should_flush: Signal,
    triggered: Flag,
}

impl Default for Flush {
    /// A request that nobody has made yet.
    fn default() -> (flush: Self)
        ensures
            flush.is_new(),
    {
        Flush { should_flush: Signal::new(), triggered: Flag::new(false) }
    }
}

impl Flush {
    /// The flag that is set while the request stands.
    pub closed spec fn flag(self) -> Flag {
        self.triggered
    }

    /// The wake-up that is given when the request is made.
    pub closed spec fn signal(self) -> Signal {
        self.should_flush
    }

    /// The request was made anew, with a flag that is not set.
    pub open spec fn is_new(self) -> bool {
        self.flag().holds_at_first(false) && self.signal().is_new()
    }

    /// `journal` is about this request.
    pub open spec fn is_told_in(self, journal: Journal) -> bool {
        &&& journal.flag() == self.flag()
        &&& journal.signal() == self.signal()
    }

    /// `exchange` is what became of an attempt to change the flag of this
    /// request from `current` to `new`, as the flag answered it.
    pub open spec fn attempted(self, current: bool, new: bool, exchange: Exchange) -> bool {
        exists|answer: Result<bool, bool>| #[trigger]
            self.flag().answered(current, new, answer) && exchange == reading(current, new, answer)
    }

    /// Asks for the buffer to be drained, unless somebody else already did:
    /// tries once to set the flag, and gives the wake-up if that set it.
    pub fn trigger(&self, journal: &mut Journal) -> (exchange: Exchange)
        requires
            self.is_told_in(*old(journal)),
        ensures
            self.attempted(false, true, exchange),
            !exchange.before ==> self.signal().given(),
            final(journal).is_about_the_same_as(*old(journal)),
            asked(old(journal)@, exchange, final(journal)@),
    {
        let answer = self.triggered.exchange(false, true, journal);
        let exchange = Exchange::read(false, true, answer);
        if !exchange.before {
            self.should_flush.wake(journal);
        }
        exchange
    }

    /// Says that the buffer was drained, so that it can be asked for again:
    /// tries once to clear the flag.
    pub fn has_flushed(&self, journal: &mut Journal) -> (exchange: Exchange)
        requires
            self.is_told_in(*old(journal)),
        ensures
            self.attempted(true, false, exchange),
            final(journal).is_about_the_same_as(*old(journal)),
            drained(old(journal)@, exchange, final(journal)@),
    {
        let answer = self.triggered.exchange(true, false, journal);
        Exchange::read(true, false, answer)
    }
}

/// `after` tells what `before` tells, and then of one attempt to change the flag
/// from `current` to `new`, of which `exchange` became, and of one wake-up if
/// `woke`, and of nothing else.
pub open spec fn told(
    before: Seq<Deed>,
    current: bool,
    new: bool,
    exchange: Exchange,
    woke: bool,
    after: Seq<Deed>,
) -> bool {
    exists|answer: Result<bool, bool>|
        {
            &&& exchange == #[trigger] reading(current, new, answer)
            &&& after == if woke {
                before.push(Deed::Exchanged { current, new, answer }).push(Deed::Woke)
            } else {
                before.push(Deed::Exchanged { current, new, answer })
            }
        }
}

/// A request was made: one attempt to set the flag, and one wake-up if that set
/// it, and nothing else. `exchange` is what became of the flag.
pub open spec fn asked(before: Seq<Deed>, exchange: Exchange, after: Seq<Deed>) -> bool {
    &&& exchange == attempt(exchange.before, false, true)
    &&& told(before, false, true, exchange, !exchange.before, after)
}

/// It was said that the buffer was drained: one attempt to clear the flag, and
/// nothing else. `exchange` is what became of the flag.
pub open spec fn drained(before: Seq<Deed>, exchange: Exchange, after: Seq<Deed>) -> bool {
    &&& exchange == attempt(exchange.before, true, false)
    &&& told(before, true, false, exchange, false, after)
}

} // verus!
