//! The distance sensor's measuring cycle. The sensor is never waited for:
//! a measurement is started, every tick asks whether it is ready, a ready
//! result is read, and the next measurement is started at once. This module
//! decides what to do next; talking to the sensor is left to the caller.

use vstd::prelude::*;

verus! {

/// The bit of the sensor's status that says: a range result is ready.
pub const RANGE_READY: u8 = 0x04;

/// The range that a sensor reports before it has measured.
pub const NO_RANGE: u8 = 255;

/// Where the sensor is in its cycle.
#[derive(Clone, Copy, Debug, PartialEq, Eq, Structural)]
pub enum Phase {
    /// No measurement was started.
    Idle,
    /// A measurement runs; the status is polled.
    Measuring,
    /// The status said ready; the result is to be read.
    Reading,
}

/// What the caller is to do with the sensor.
#[derive(Clone, Copy, Debug, PartialEq, Eq, Structural)]
pub enum SensorAction {
    /// Nothing.
    Wait,
    /// Start a measurement.
    Start,
    /// Read the status and hand it to [`RangeFinder::status`].
    Poll,
    /// Read the result, clear the sensor's interrupt and hand the result to
    /// [`RangeFinder::result`].
    Read,
}

/// The last range measured, in millimetres, and the phase of the cycle.
#[derive(Clone, Copy, Debug, PartialEq, Eq, Structural)]
pub struct RangeFinder {
    pub range: u8,
    pub phase: Phase,
}

impl RangeFinder {
    /// Whether `status` says that a result is ready.
    pub open spec fn ready(status: u8) -> bool {
        status & RANGE_READY != 0
    }

    /// A sensor that has not measured yet.
    pub fn new() -> (s: RangeFinder)
        ensures
            s == (RangeFinder { range: NO_RANGE, phase: Phase::Idle }),
    {
        RangeFinder { range: NO_RANGE, phase: Phase::Idle }
    }

    /// Starts the cycle: the caller is to start a measurement.
    pub fn start_ranging(&mut self) -> (a: SensorAction)
        ensures
            a == SensorAction::Start,
            *final(self) == (RangeFinder { phase: Phase::Measuring, ..*old(self) }),
    {
        self.phase = Phase::Measuring;
        SensorAction::Start
    }

    /// One tick: while a measurement runs the status is to be polled.
    pub fn update(&self) -> (a: SensorAction)
        ensures
            a == match self.phase {
                Phase::Idle => SensorAction::Wait,
                Phase::Measuring => SensorAction::Poll,
                Phase::Reading => SensorAction::Read,
            },
    {
        match self.phase {
            Phase::Idle => SensorAction::Wait,
            Phase::Measuring => SensorAction::Poll,
            Phase::Reading => SensorAction::Read,
        }
    }

    /// The status that the caller polled. If a measurement runs and the
    /// status says ready, the result is to be read; otherwise there is
    /// nothing to do until the next tick.
    pub fn status(&mut self, status: u8) -> (a: SensorAction)
        ensures
            old(self).phase == Phase::Measuring && Self::ready(status) ==> a == SensorAction::Read
                && *final(self) == (RangeFinder { phase: Phase::Reading, ..*old(self) }),
            !(old(self).phase == Phase::Measuring && Self::ready(status)) ==> a
                == SensorAction::Wait && *final(self) == *old(self),
    {
        match self.phase {
            Phase::Measuring => {
                if status & RANGE_READY != 0 {
                    self.phase = Phase::Reading;
                    SensorAction::Read
                } else {
                    SensorAction::Wait
                }
            },
            _ => SensorAction::Wait,
        }
    }

    /// The result that the caller read: it becomes the range, and the next
    /// measurement is to be started. Outside the reading phase a result is
    /// ignored.
    pub fn result(&mut self, range: u8) -> (a: SensorAction)
        ensures
            old(self).phase == Phase::Reading ==> a == SensorAction::Start && *final(self) == (
            RangeFinder { range, phase: Phase::Measuring }),
            old(self).phase != Phase::Reading ==> a == SensorAction::Wait && *final(self) == *old(
                self,
            ),
    {
        match self.phase {
            Phase::Reading => {
                self.range = range;
                self.phase = Phase::Measuring;
                SensorAction::Start
            },
            _ => SensorAction::Wait,
        }
    }

    /// The last range measured, in millimetres.
    pub fn range(&self) -> (r: u8)
        ensures
            r == self.range,
    {
        self.range
    }
}

/// The value of the sensor's period register for a measurement every
/// `period` milliseconds: the period in steps of ten, less one, held
/// between 0 and 254. A period beyond 32767 counts as none.
pub open spec fn period_register(period: u16) -> u8 {
    let steps = period as int / 10 - 1;
    if steps < 0 || period > 32767 {
        0
    } else if steps > 254 {
        254
    } else {
        steps as u8
    }
}

/// The value of the period register: see [`period_register`].
pub fn start_range_continuous(period: u16) -> (reg: u8)
    ensures
        reg == period_register(period),
{
    let steps = period / 10;
    if steps < 1 || period > 32767 {
        0
    } else if steps > 255 {
        254
    } else {
        (steps - 1) as u8
    }
}

} // verus!
