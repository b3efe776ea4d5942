//! Events of the interactive phase, what handling one of them decides, and
//! the timing of the periodic tick.

use vstd::prelude::*;

verus! {

/// One item of the single ordered event queue: a key press, or a timer tick
/// when the tick interval has passed.
#[derive(Clone, Copy, Debug, PartialEq, Eq)]
pub enum Event<I> {
    Input(I),
    Tick,
}

/// Whether the interaction loop goes on after an event was handled.
#[derive(Clone, Copy, Debug, PartialEq, Eq, Structural)]
pub enum EventState {
    /// The event was handled and the loop keeps running.
    Consumed,
    /// The event ends the loop.
    NotConsumed,
}

/// The clockwork of the tick: all times are in milliseconds.
#[derive(Clone, Copy, Debug, PartialEq, Eq, Structural)]
pub struct Ticker {
    /// The interval between two ticks.
    pub tick_rate: u64,
}

impl Ticker {
    /// The time left to wait for a key when `elapsed` has passed since the
    /// last tick: the rest of the interval, and nothing once it is over.
    pub open spec fn time_left(self, elapsed: u64) -> u64 {
        if elapsed >= self.tick_rate {
            0
        } else {
            (self.tick_rate - elapsed) as u64
        }
    }

    /// A ticker with the given interval.
    pub fn new(duration: u64) -> (t: Self)
        ensures
            t.tick_rate == duration,
    {
        Ticker { tick_rate: duration }
    }

    /// How long to wait for a key before the next tick is due.
    pub fn timeout(&self, elapsed: u64) -> (wait: u64)
        ensures
            wait == self.time_left(elapsed),
    {
        if elapsed >= self.tick_rate {
            0
        } else {
            self.tick_rate - elapsed
        }
    }

    /// Whether a tick is due when `elapsed` has passed since the last one.
    pub fn is_due(&self, elapsed: u64) -> (due: bool)
        ensures
            due == (elapsed >= self.tick_rate),
    {
        elapsed >= self.tick_rate
    }
}

} // verus!
