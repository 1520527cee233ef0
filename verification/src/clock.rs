//! The causal clock: issues strictly increasing timestamps by combining
//! wall-clock readings with a logical counter that absorbs wall-clock
//! stalls and backward jumps.

use vstd::prelude::*;
use crate::timestamp::{CausalTimestamp, ts_lt};

verus! {

/// Why no timestamp could be issued.
#[derive(Clone, Copy, PartialEq, Eq, Structural, Debug)]
pub enum ClockError {
    /// The wall-clock source could not be read.
    SourceUnavailable,
    /// No strictly larger timestamp exists: the token space is spent.
    Exhausted,
}

/// Relies on hybrid_clocks::Clock::wall_ns and Clock::now: reads the wall
/// clock as nanoseconds since the Unix epoch. The reading depends on the
/// machine's clock, so nothing is promised of the value; `None` comes when
/// the system time cannot be read or does not fit in 64 bits.
#[verifier::external_body]
fn wall_clock_ns() -> (r: Option<u64>) {
    match hybrid_clocks::Clock::wall_ns().and_then(|mut c| c.now()) {
        Ok(ts) => Some(ts.time.as_u64()),
        Err(_) => None,
    }
}

/// A causal clock. Every call of `now` on one instance returns a
/// timestamp strictly greater than every timestamp the instance issued
/// before, whatever the wall clock does. `last` is the most recently
/// issued timestamp, or the zero sentinel before the first issue (the
/// sentinel itself is never issued).
pub struct CausalClock {
    pub last: CausalTimestamp,
}

impl CausalClock {
    /// A fresh clock whose first issued timestamp will be strictly
    /// greater than the zero sentinel.
    pub fn new() -> (r: CausalClock)
        ensures
            r.last == (CausalTimestamp { wall: 0u64, count: 0u32 }),
    {
        CausalClock { last: CausalTimestamp { wall: 0, count: 0 } }
    }

    /// Issues the next timestamp: strictly greater than the previous one,
    /// whatever the wall-clock source returned. Fails with
    /// `SourceUnavailable` only when the wall clock could not be read, and
    /// with `Exhausted` exactly when no strictly larger token exists; on
    /// failure the clock is unchanged.
    pub fn now(&mut self) -> (r: Result<CausalTimestamp, ClockError>)
        ensures
            r matches Ok(t) ==> ts_lt(old(self).last, t) && final(self).last == t,
            r is Err ==> *final(self) == *old(self),
            r == Err::<CausalTimestamp, ClockError>(ClockError::Exhausted) ==> old(self).last
                == (CausalTimestamp { wall: u64::MAX, count: u32::MAX }),
    {
        match wall_clock_ns() {
            None => Err(ClockError::SourceUnavailable),
            Some(wall) => {
                let t: CausalTimestamp = if wall > self.last.wall {
                    CausalTimestamp { wall, count: 0 }
                } else if self.last.count < u32::MAX {
                    CausalTimestamp { wall: self.last.wall, count: self.last.count + 1 }
                } else if self.last.wall < u64::MAX {
                    CausalTimestamp { wall: self.last.wall + 1, count: 0 }
                } else {
                    return Err(ClockError::Exhausted);
                };
                self.last = t;
                Ok(t)
            },
        }
    }
}

} // verus!
