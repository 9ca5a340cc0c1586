//! The world clock.

use vstd::prelude::*;

verus! {

/// A point in time, counted in ticks of the world clock.
#[derive(Debug, Clone, Copy, PartialEq, Eq, Structural, PartialOrd, Ord, Hash)]
pub struct Tick(pub u64);

/// The number of ticks from `start` to `now`, or 0 if `start` is later.
pub open spec fn ticks_between(start: Tick, now: Tick) -> u64 {
    if now.0 >= start.0 {
        (now.0 - start.0) as u64
    } else {
        0
    }
}

impl Tick {
    /// The tick with the given count.
    pub fn new(tick: u64) -> (r: Self)
        ensures
            r.0 == tick,
    {
        Tick(tick)
    }

    /// The tick count.
    pub fn as_u64(&self) -> (r: u64)
        ensures
            r == self.0,
    {
        self.0
    }

    /// The number of ticks elapsed since `start`, or 0 if `start` is later.
    pub fn ticks_since(&self, start: &Tick) -> (r: Tick)
        ensures
            r.0 == ticks_between(*start, *self),
    {
        Tick(self.0.saturating_sub(start.0))
    }
}

} // verus!
