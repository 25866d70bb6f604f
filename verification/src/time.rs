//! Points in time, as plain numbers.

use vstd::prelude::*;

verus! {

/// Nanoseconds in one second.
pub const NANOS_PER_SEC: i128 = 1_000_000_000;

/// A wall-clock time: whole seconds since the Unix epoch, which may be
/// negative, and the nanoseconds since the start of that second.
#[derive(Clone, Copy, Debug, PartialEq, Eq, Structural)]
pub struct Timestamp {
    pub seconds: i64,
    pub nanos: u32,
}

impl Timestamp {
    /// The same time as a number of nanoseconds since the Unix epoch.
    pub open spec fn as_nanos_spec(self) -> int {
        self.seconds * 1_000_000_000 + self.nanos
    }

    /// Nanoseconds since the Unix epoch.
    pub fn as_nanos(&self) -> (total: i128)
        ensures
            total == self.as_nanos_spec(),
    {
        (self.seconds as i128) * NANOS_PER_SEC + (self.nanos as i128)
    }
}

/// How many nanoseconds have passed at `now` since `earlier`; none when the
/// clock says that `earlier` is still to come.
pub open spec fn elapsed(earlier: Timestamp, now: Timestamp) -> int {
    if now.as_nanos_spec() >= earlier.as_nanos_spec() {
        now.as_nanos_spec() - earlier.as_nanos_spec()
    } else {
        0
    }
}

/// Computes [`elapsed`].
pub fn elapsed_nanos(earlier: Timestamp, now: Timestamp) -> (nanos: u128)
    ensures
        nanos == elapsed(earlier, now),
{
    let from: i128 = earlier.as_nanos();
    let to: i128 = now.as_nanos();
    if to >= from {
        (to - from) as u128
    } else {
        0
    }
}

} // verus!
