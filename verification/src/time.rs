//! Points in time.

use vstd::prelude::*;

verus! {

/// A UTC instant: whole seconds since 1970 and the nanoseconds past them.
///
/// Within a leap second the nanoseconds run on past one billion.
#[derive(Debug, Clone, Copy, PartialEq, Eq, PartialOrd, Ord)]
pub struct Timestamp {
    /// Whole seconds since 1970-01-01T00:00:00Z.
    pub seconds: i64,
    /// Nanoseconds past the whole second.
    pub nanos: u32,
}

/// `left` is earlier than `right`.
pub open spec fn earlier(left: Timestamp, right: Timestamp) -> bool {
    left.seconds < right.seconds || (left.seconds == right.seconds && left.nanos < right.nanos)
}

/// The instant a number of milliseconds after another.
pub open spec fn later(start: Timestamp, millis: nat) -> Timestamp {
    let nanos = start.nanos + (millis % 1_000) * 1_000_000;
    Timestamp {
        seconds: (start.seconds + millis / 1_000 + nanos / 1_000_000_000) as i64,
        nanos: (nanos % 1_000_000_000) as u32,
    }
}

/// The instant a number of milliseconds after another can be written down.
pub open spec fn representable(start: Timestamp, millis: nat) -> bool {
    start.nanos < 1_000_000_000 && start.seconds + millis / 1_000 + 1 <= i64::MAX
}

impl Timestamp {
    /// The instant a number of milliseconds after this one.
    pub fn plus_millis(&self, millis: u64) -> (r: Timestamp)
        requires
            representable(*self, millis as nat),
        ensures
            r == later(*self, millis as nat),
    {
        let nanos: u64 = self.nanos as u64 + (millis % 1_000) * 1_000_000;
        let whole: i64 = (millis / 1_000) as i64;
        Timestamp {
            seconds: self.seconds + whole + (nanos / 1_000_000_000) as i64,
            nanos: (nanos % 1_000_000_000) as u32,
        }
    }

    /// Tells whether this instant comes before another.
    pub fn is_before(&self, other: &Timestamp) -> (r: bool)
        ensures
            r == earlier(*self, *other),
    {
        self.seconds < other.seconds || (self.seconds == other.seconds && self.nanos < other.nanos)
    }
}

/// Instants are ordered as numbers of nanoseconds.
pub proof fn instants_are_ordered(left: Timestamp, right: Timestamp)
    requires
        left.nanos < 1_000_000_000,
        right.nanos < 1_000_000_000,
    ensures
        earlier(left, right) == (left.seconds * 1_000_000_000 + left.nanos < right.seconds
            * 1_000_000_000 + right.nanos),
{
}

/// Adding milliseconds moves an instant by as many millions of nanoseconds.
pub proof fn milliseconds_pass(start: Timestamp, millis: nat)
    requires
        representable(start, millis),
    ensures
        ({
            let end = later(start, millis);
            &&& end.seconds * 1_000_000_000 + end.nanos == start.seconds * 1_000_000_000
                + start.nanos + millis * 1_000_000
            &&& end.nanos < 1_000_000_000
        }),
{
}

} // verus!
