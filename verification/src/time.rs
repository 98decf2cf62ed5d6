//! Timestamps and durations as the codec stores them.

use vstd::prelude::*;

verus! {

/// A point in time: seconds since the Unix epoch and the nanoseconds within
/// the second.
#[derive(Clone, Copy, Debug, PartialEq, Eq, Structural)]
pub struct Timestamp {
    pub secs: i64,
    pub nanos: u32,
}

/// A signed span of time: whole seconds and the nanoseconds beyond them.
#[derive(Clone, Copy, Debug, PartialEq, Eq, Structural)]
pub struct Duration {
    pub secs: i64,
    pub nanos: i32,
}

/// The number of nanoseconds in a second.
pub const NANOS_PER_SEC: i32 = 1_000_000_000;

/// The largest number of whole seconds in a supported duration.
pub open spec fn max_duration_secs() -> int {
    9_223_372_036_854_775
}

/// The largest supported duration in nanoseconds: `i64::MAX` milliseconds.
pub open spec fn max_duration_nanos() -> int {
    9_223_372_036_854_775_807_000_000
}

/// Whether a span of `secs` seconds and `nanos` nanoseconds lies within the
/// supported range, whatever the signs of the two parts.
pub open spec fn duration_in_range(secs: int, nanos: int) -> bool {
    &&& -max_duration_secs() <= secs <= max_duration_secs()
    &&& -max_duration_nanos() <= secs * 1_000_000_000 + nanos <= max_duration_nanos()
}

/// Whether `(secs, nanos)` is the one accepted way to write a duration: the
/// two parts do not differ in sign, the nanoseconds stay below one second
/// in magnitude, and the whole lies in the supported range.
pub open spec fn duration_valid(secs: int, nanos: int) -> bool {
    &&& !(secs > 0 && nanos < 0)
    &&& !(secs < 0 && nanos > 0)
    &&& -1_000_000_000 < nanos < 1_000_000_000
    &&& duration_in_range(secs, nanos)
}

/// `chrono::TimeDelta::try_seconds` followed by `TimeDelta::checked_add` of
/// `TimeDelta::nanoseconds`: the first accepts up to `i64::MAX / 1000`
/// seconds in either direction, the second a sum of up to `i64::MAX`
/// milliseconds in either direction.
#[verifier::external_body]
fn chrono_accepts(secs: i64, nanos: i32) -> (r: bool)
    ensures
        r == duration_in_range(secs as int, nanos as int),
{
    match chrono::TimeDelta::try_seconds(secs) {
        Some(whole) => {
            whole.checked_add(&chrono::TimeDelta::nanoseconds(i64::from(nanos))).is_some()
        },
        None => false,
    }
}

impl Duration {
    /// The duration of `secs` seconds and `nanos` nanoseconds, if that is
    /// the accepted way to write it.
    pub fn new(secs: i64, nanos: i32) -> (r: Option<Duration>)
        ensures
            r == if duration_valid(secs as int, nanos as int) {
                Some(Duration { secs, nanos })
            } else {
                None
            },
    {
        let d = Duration { secs, nanos };
        if d.is_valid() {
            Some(d)
        } else {
            None
        }
    }

    /// Whether this is the accepted way to write the duration.
    pub open spec fn valid(self) -> bool {
        duration_valid(self.secs as int, self.nanos as int)
    }

    /// Whether this is the accepted way to write the duration.
    pub fn is_valid(&self) -> (r: bool)
        ensures
            r == self.valid(),
    {
        if (self.secs > 0 && self.nanos < 0) || (self.secs < 0 && self.nanos > 0) {
            return false;
        }
        if self.nanos <= -NANOS_PER_SEC || self.nanos >= NANOS_PER_SEC {
            return false;
        }
        chrono_accepts(self.secs, self.nanos)
    }
}

} // verus!
