//! The battery monitor and the millisecond clock: both are fed the raw
//! value that the hardware reads and keep the little state that turns it
//! into an answer.

use vstd::prelude::*;
use crate::bot::{elapsed, since};

verus! {

/// A raw battery reading above this means that the battery is alive.
pub const DEAD_VOLTAGE: u16 = 2000;

/// The battery counts as dead once it has not been seen alive for longer
/// than this many milliseconds.
pub const DEAD_TIME: u32 = 5000;

/// The timer counts up to this value and starts over.
pub const OVERFLOW_VALUE: u32 = 65535;

/// When the battery was last sampled, and when it was last found alive.
#[derive(Clone, Copy, Debug, PartialEq, Eq, Structural)]
pub struct Battery {
    pub last_alive: Option<u32>,
    pub last_update: Option<u32>,
}

impl Battery {
    /// The monitor after a sample `raw` taken at `now`.
    pub open spec fn sampled(self, now: u32, raw: u16) -> Battery {
        Battery {
            last_alive: if raw > DEAD_VOLTAGE {
                Some(now)
            } else {
                self.last_alive
            },
            last_update: Some(now),
        }
    }

    /// The battery is dead unless it was seen alive no longer than
    /// [`DEAD_TIME`] before the latest sample.
    pub open spec fn dead(self) -> bool {
        match (self.last_alive, self.last_update) {
            (Some(alive), Some(update)) => elapsed(update, alive) > DEAD_TIME,
            _ => true,
        }
    }

    /// A monitor that has not sampled yet.
    pub fn new() -> (b: Battery)
        ensures
            b == (Battery { last_alive: None, last_update: None }),
    {
        Battery { last_alive: None, last_update: None }
    }

    /// Takes in the raw reading `raw`, sampled at `now`.
    pub fn update(&mut self, now: u32, raw: u16)
        ensures
            *final(self) == old(self).sampled(now, raw),
    {
        if raw > DEAD_VOLTAGE {
            self.last_alive = Some(now);
        }
        self.last_update = Some(now);
    }

    /// Whether the battery is dead: see [`Battery::dead`].
    pub fn is_dead(&self) -> (dead: bool)
        ensures
            dead == self.dead(),
    {
        match (self.last_alive, self.last_update) {
            (Some(alive), Some(update)) => since(update, alive) > DEAD_TIME,
            _ => true,
        }
    }
}

/// A battery that was just sampled alive is not dead, and one that was
/// never sampled alive is.
pub proof fn lemma_battery(b: Battery, now: u32, raw: u16)
    ensures
        raw > DEAD_VOLTAGE ==> !b.sampled(now, raw).dead(),
        b.last_alive is None && raw <= DEAD_VOLTAGE ==> b.sampled(now, raw).dead(),
{
}

/// The clock: it turns the readings of a timer that starts over at
/// [`OVERFLOW_VALUE`] into a time that goes on, modulo 2^32.
#[derive(Clone, Copy, Debug, PartialEq, Eq, Structural)]
pub struct Time {
    pub last_time: u32,
    pub overflows: u32,
}

/// `v` modulo 2^32.
pub open spec fn wrapped(v: int) -> u32 {
    (v % 0x1_0000_0000) as u32
}

impl Time {
    /// The clock after the timer read `count`: a reading below the one
    /// before means that the timer has started over once more.
    pub open spec fn read(self, count: u32) -> Time {
        Time {
            last_time: count,
            overflows: if count < self.last_time {
                wrapped(self.overflows + 1)
            } else {
                self.overflows
            },
        }
    }

    /// The time that the clock shows.
    pub open spec fn shown(self) -> u32 {
        wrapped(self.last_time + self.overflows * OVERFLOW_VALUE)
    }

    /// A clock at zero.
    pub fn new() -> (t: Time)
        ensures
            t == (Time { last_time: 0, overflows: 0 }),
    {
        Time { last_time: 0, overflows: 0 }
    }

    /// The time now, given that the timer reads `count`.
    pub fn now(&mut self, count: u32) -> (t: u32)
        ensures
            *final(self) == old(self).read(count),
            t == final(self).shown(),
    {
        if count < self.last_time {
            self.overflows = self.overflows.wrapping_add(1);
        }
        self.last_time = count;
        let t = (count as u64 + self.overflows as u64 * OVERFLOW_VALUE as u64) % 0x1_0000_0000;
        t as u32
    }
}

} // verus!
