//! Plain-value time representations.
//!
//! A capture instant is a signed offset from the Unix epoch, an elapsed
//! duration a non-negative span.  Both split the offset into whole seconds
//! and a sub-second nanosecond part, so no arithmetic here can overflow
//! silently: conversions to a flat nanosecond count are explicit and
//! checked.

use vstd::prelude::*;

verus! {

/// A point in time: `secs` whole seconds since the Unix epoch plus `nanos`
/// nanoseconds.  Instants before the epoch have negative `secs`.
#[derive(Clone, Copy, Debug, PartialEq, Eq, Structural)]
pub struct Timestamp {
    pub secs: i64,
    pub nanos: u32,
}

/// A non-negative span of time: `secs` whole seconds plus `nanos`
/// nanoseconds.
#[derive(Clone, Copy, Debug, PartialEq, Eq, Structural)]
pub struct Duration {
    pub secs: u64,
    pub nanos: u32,
}

impl Timestamp {
    /// The nanosecond part never reaches a whole second.
    pub open spec fn wf(&self) -> bool {
        self.nanos < 1_000_000_000
    }

    /// The instant as a signed offset from the epoch, in nanoseconds.
    pub open spec fn epoch_nanos(&self) -> int {
        self.secs * 1_000_000_000 + self.nanos
    }

    /// True when the instant predates the epoch.
    pub open spec fn before_epoch(&self) -> bool {
        self.epoch_nanos() < 0
    }

    /// Creates a timestamp from its two components.
    pub fn new(secs: i64, nanos: u32) -> (r: Timestamp)
        requires
            nanos < 1_000_000_000,
        ensures
            r.wf(),
            r.secs == secs,
            r.nanos == nanos,
    {
        Timestamp { secs, nanos }
    }

    /// The offset from the epoch as an unsigned nanosecond count, or `None`
    /// when the instant predates the epoch or the count does not fit.
    pub fn checked_epoch_nanos(&self) -> (r: Option<u64>)
        requires
            self.wf(),
        ensures
            match r {
                Some(n) => 0 <= self.epoch_nanos() <= u64::MAX && n == self.epoch_nanos(),
                None => self.before_epoch() || self.epoch_nanos() > u64::MAX,
            },
    {
        if self.secs < 0 {
            proof {
                assert(self.secs * 1_000_000_000 <= (-1) * 1_000_000_000);
            }
            return None;
        }
        let total: u128 = (self.secs as u128) * 1_000_000_000 + (self.nanos as u128);
        if total > u64::MAX as u128 {
            None
        } else {
            Some(total as u64)
        }
    }
}

impl Duration {
    /// The nanosecond part never reaches a whole second.
    pub open spec fn wf(&self) -> bool {
        self.nanos < 1_000_000_000
    }

    /// The span in nanoseconds.
    pub open spec fn as_nanos(&self) -> int {
        self.secs * 1_000_000_000 + self.nanos
    }

    /// Creates a duration from its two components.
    pub fn new(secs: u64, nanos: u32) -> (r: Duration)
        requires
            nanos < 1_000_000_000,
        ensures
            r.wf(),
            r.secs == secs,
            r.nanos == nanos,
    {
        Duration { secs, nanos }
    }

    /// The span as an unsigned nanosecond count, or `None` when the count
    /// does not fit.
    pub fn checked_nanos(&self) -> (r: Option<u64>)
        requires
            self.wf(),
        ensures
            match r {
                Some(n) => self.as_nanos() <= u64::MAX && n == self.as_nanos(),
                None => self.as_nanos() > u64::MAX,
            },
    {
        let total: u128 = (self.secs as u128) * 1_000_000_000 + (self.nanos as u128);
        if total > u64::MAX as u128 {
            None
        } else {
            Some(total as u64)
        }
    }
}

} // verus!
