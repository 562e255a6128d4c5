//! Monotonic time in whole nanoseconds.
use vstd::prelude::*;

verus! {

/// Nanoseconds in one second.
pub const NANOS_PER_SEC: u128 = 1_000_000_000;

/// A span of time.
#[derive(Debug, Clone, Copy, PartialEq, Eq, Structural)]
pub struct Duration {
    pub nanos: u128,
}

/// A reading of the monotonic clock, counted from the clock's origin.
#[derive(Debug, Clone, Copy, PartialEq, Eq, Structural)]
pub struct Instant {
    pub nanos: u128,
}

impl Duration {
    /// A span of whole seconds.
    pub fn from_secs(secs: u64) -> (d: Duration)
        ensures
            d.nanos == secs * NANOS_PER_SEC,
    {
        Duration { nanos: secs as u128 * NANOS_PER_SEC }
    }

    /// A span of whole milliseconds.
    pub fn from_millis(millis: u64) -> (d: Duration)
        ensures
            d.nanos == millis * 1_000_000,
    {
        Duration { nanos: millis as u128 * 1_000_000 }
    }

    /// The span in nanoseconds, or the largest `u64` when it is longer than that.
    pub fn capped_nanos(self) -> (nanos: u64)
        ensures
            nanos == capped(self.nanos as nat),
    {
        if self.nanos > u64::MAX as u128 {
            u64::MAX
        } else {
            self.nanos as u64
        }
    }
}

impl Instant {
    /// The reading that stands `nanos` after the clock's origin.
    pub fn from_nanos(nanos: u128) -> (at: Instant)
        ensures
            at.nanos == nanos,
    {
        Instant { nanos }
    }

    /// The time from `earlier` to this reading; nothing when `earlier` is in fact later.
    pub fn checked_duration_since(self, earlier: Instant) -> (d: Option<Duration>)
        ensures
            d is Some <==> earlier.nanos <= self.nanos,
            d is Some ==> d->0.nanos == self.nanos - earlier.nanos,
    {
        if earlier.nanos <= self.nanos {
            Some(Duration { nanos: self.nanos - earlier.nanos })
        } else {
            None
        }
    }

    /// The reading `d` before this one; nothing when that lies before the clock's origin.
    pub fn checked_sub(self, d: Duration) -> (at: Option<Instant>)
        ensures
            at is Some <==> d.nanos <= self.nanos,
            at is Some ==> at->0.nanos == self.nanos - d.nanos,
    {
        if d.nanos <= self.nanos {
            Some(Instant { nanos: self.nanos - d.nanos })
        } else {
            None
        }
    }

    /// The reading `d` after this one; nothing when the clock cannot hold it.
    pub fn checked_add(self, d: Duration) -> (at: Option<Instant>)
        ensures
            at is Some <==> self.nanos + d.nanos <= u128::MAX,
            at is Some ==> at->0.nanos == self.nanos + d.nanos,
    {
        match self.nanos.checked_add(d.nanos) {
            Some(nanos) => Some(Instant { nanos }),
            None => None,
        }
    }
}

/// `n`, or the largest `u64` when `n` is larger than that.
pub open spec fn capped(n: nat) -> u64 {
    if n > u64::MAX {
        u64::MAX
    } else {
        n as u64
    }
}

/// Adding to a capped sum with saturation gives the capped sum.
pub proof fn lemma_capped_add(sum: nat, more: u64)
    ensures
        capped(sum + more as nat) == capped(capped(sum) as nat + more as nat),
{
}

} // verus!
