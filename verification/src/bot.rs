//! The drivetrain's bookkeeping: what the encoders and distance sensors
//! last read, and when the wheel loops are due. The readings are handed in;
//! the library touches no hardware.

use vstd::prelude::*;
use crate::config::BotConfig;
use crate::moves::MoveOptions;

verus! {

/// The wheel loops run when more than this many milliseconds have passed
/// since they last ran; a move is looked after when at least this many have.
pub const TICK_PERIOD: u32 = 10;

/// The reading of a distance sensor that has not measured yet.
pub const NO_READING: u8 = 255;

/// Milliseconds from `then` to `now` on a clock that counts modulo 2^32.
pub open spec fn elapsed(now: u32, then: u32) -> u32 {
    if now >= then {
        (now - then) as u32
    } else {
        (now + 0x1_0000_0000 - then) as u32
    }
}

/// Ticks from `before` to `pos` on a counter that counts modulo 2^32: the
/// difference that lies between -2^31 and 2^31 - 1.
pub open spec fn travelled(pos: i32, before: i32) -> i32 {
    let d = pos - before;
    if d > i32::MAX {
        (d - 0x1_0000_0000) as i32
    } else if d < i32::MIN {
        (d + 0x1_0000_0000) as i32
    } else {
        d as i32
    }
}

/// Milliseconds from `then` to `now`: see [`elapsed`].
pub fn since(now: u32, then: u32) -> (dt: u32)
    ensures
        dt == elapsed(now, then),
{
    now.wrapping_sub(then)
}

/// Ticks from `before` to `pos`: see [`travelled`].
pub fn ticks_between(pos: i32, before: i32) -> (d: i32)
    ensures
        d == travelled(pos, before),
{
    pos.wrapping_sub(before)
}

/// What the sensors read: the two encoder counts, in ticks, and the three
/// distances, in millimetres.
#[derive(Clone, Copy, Debug, PartialEq, Eq, Structural)]
pub struct Readings {
    pub left_pos: i32,
    pub right_pos: i32,
    pub front_distance: u8,
    pub left_distance: u8,
    pub right_distance: u8,
}

/// What the wheel loops work on when they are due: the time since they last
/// ran and how far each wheel turned meanwhile.
#[derive(Clone, Copy, Debug, PartialEq, Eq, Structural)]
pub struct WheelStep {
    pub dt: u32,
    pub left_delta: i32,
    pub right_delta: i32,
}

/// The drivetrain as the move logic sees it.
#[derive(Clone, Copy, Debug, PartialEq, Eq, Structural)]
pub struct Bot {
    pub readings: Readings,
    pub last_left_pos: i32,
    pub last_right_pos: i32,
    pub last_update: u32,
    pub config: BotConfig,
}

impl Bot {
    /// Twice the distance travelled, in ticks: the sum of both wheels.
    pub open spec fn linear2(self) -> int {
        self.readings.left_pos + self.readings.right_pos
    }

    /// Twice the angle turned, in ticks: left wheel minus right wheel.
    /// Positive is clockwise.
    pub open spec fn spin2(self) -> int {
        self.readings.left_pos - self.readings.right_pos
    }

    /// Where no wall is sensed: the reading, in millimetres, is above the
    /// threshold, in thousandths of a millimetre.
    pub open spec fn openings(self) -> MoveOptions {
        MoveOptions {
            left: 1000 * self.readings.left_distance > self.config.wall_threshold,
            forward: 1000 * self.readings.front_distance > self.config.wall_threshold,
            right: 1000 * self.readings.right_distance > self.config.wall_threshold,
        }
    }

    /// The drivetrain with new readings.
    pub open spec fn sensed(self, r: Readings) -> Bot {
        Bot { readings: r, ..self }
    }

    /// The drivetrain after its encoders were set back to zero.
    pub open spec fn zeroed(self) -> Bot {
        Bot {
            readings: Readings { left_pos: 0, right_pos: 0, ..self.readings },
            last_left_pos: 0,
            last_right_pos: 0,
            ..self
        }
    }

    /// Whether the wheel loops are due at `now`.
    pub open spec fn due(self, now: u32) -> bool {
        elapsed(now, self.last_update) > TICK_PERIOD
    }

    /// The drivetrain after a tick at `now`, and the step for the wheel
    /// loops if they are due.
    pub open spec fn ticked(self, now: u32) -> (Bot, Option<WheelStep>) {
        if self.due(now) {
            (
                Bot {
                    last_left_pos: self.readings.left_pos,
                    last_right_pos: self.readings.right_pos,
                    last_update: now,
                    ..self
                },
                Some(
                    WheelStep {
                        dt: elapsed(now, self.last_update),
                        left_delta: travelled(self.readings.left_pos, self.last_left_pos),
                        right_delta: travelled(self.readings.right_pos, self.last_right_pos),
                    },
                ),
            )
        } else {
            (self, None)
        }
    }

    /// A drivetrain at rest at time zero, with encoders at zero and no
    /// distance measured yet.
    pub fn new(config: BotConfig) -> (bot: Bot)
        ensures
            bot == (Bot {
                readings: Readings {
                    left_pos: 0,
                    right_pos: 0,
                    front_distance: NO_READING,
                    left_distance: NO_READING,
                    right_distance: NO_READING,
                },
                last_left_pos: 0,
                last_right_pos: 0,
                last_update: 0,
                config,
            }),
    {
        Bot {
            readings: Readings {
                left_pos: 0,
                right_pos: 0,
                front_distance: NO_READING,
                left_distance: NO_READING,
                right_distance: NO_READING,
            },
            last_left_pos: 0,
            last_right_pos: 0,
            last_update: 0,
            config,
        }
    }

    /// Takes in what the sensors read.
    pub fn sense(&mut self, r: Readings)
        ensures
            *final(self) == old(self).sensed(r),
    {
        self.readings = r;
    }

    /// One tick at time `now`. If more than [`TICK_PERIOD`] has passed since
    /// the wheel loops last ran, they are due: the answer is the step for
    /// them, and the readings become the new point of departure. Otherwise
    /// nothing changes.
    pub fn update(&mut self, now: u32) -> (step: Option<WheelStep>)
        ensures
            (*final(self), step) == old(self).ticked(now),
    {
        let dt = since(now, self.last_update);
        if dt > TICK_PERIOD {
            let step = WheelStep {
                dt,
                left_delta: ticks_between(self.readings.left_pos, self.last_left_pos),
                right_delta: ticks_between(self.readings.right_pos, self.last_right_pos),
            };
            self.last_left_pos = self.readings.left_pos;
            self.last_right_pos = self.readings.right_pos;
            self.last_update = now;
            Some(step)
        } else {
            None
        }
    }

    /// The encoders were set back to zero: positions start over.
    pub fn reset(&mut self)
        ensures
            *final(self) == old(self).zeroed(),
    {
        self.readings.left_pos = 0;
        self.readings.right_pos = 0;
        self.last_left_pos = 0;
        self.last_right_pos = 0;
    }

    /// Twice the distance travelled, in ticks.
    pub fn linear_pos(&self) -> (p: i64)
        ensures
            p == self.linear2(),
    {
        self.readings.left_pos as i64 + self.readings.right_pos as i64
    }

    /// Twice the angle turned, in ticks.
    pub fn spin_pos(&self) -> (p: i64)
        ensures
            p == self.spin2(),
    {
        self.readings.left_pos as i64 - self.readings.right_pos as i64
    }

    pub fn left_pos(&self) -> (p: i32)
        ensures
            p == self.readings.left_pos,
    {
        self.readings.left_pos
    }

    pub fn right_pos(&self) -> (p: i32)
        ensures
            p == self.readings.right_pos,
    {
        self.readings.right_pos
    }

    pub fn front_distance(&self) -> (d: u8)
        ensures
            d == self.readings.front_distance,
    {
        self.readings.front_distance
    }

    pub fn left_distance(&self) -> (d: u8)
        ensures
            d == self.readings.left_distance,
    {
        self.readings.left_distance
    }

    pub fn right_distance(&self) -> (d: u8)
        ensures
            d == self.readings.right_distance,
    {
        self.readings.right_distance
    }

    /// Where no wall is sensed.
    pub fn move_options(&self) -> (o: MoveOptions)
        ensures
            o == self.openings(),
    {
        let threshold = self.config.wall_threshold;
        MoveOptions {
            left: 1000 * (self.readings.left_distance as u32) > threshold,
            forward: 1000 * (self.readings.front_distance as u32) > threshold,
            right: 1000 * (self.readings.right_distance as u32) > threshold,
        }
    }
}

/// What a motor's driver is set to: a direction and the width of the pulse.
#[derive(Clone, Copy, Debug, PartialEq, Eq, Structural)]
pub struct Pulse {
    pub forward: bool,
    pub width: u32,
}

/// The pulse for a signed power: forward for a power above zero, with the
/// power's size as its width.
pub open spec fn pulse_for(power: i32) -> Pulse {
    Pulse {
        forward: power > 0,
        width: if power >= 0 {
            power as u32
        } else {
            (-power) as u32
        },
    }
}

/// The pulse for a signed power: see [`pulse_for`].
pub fn pulse(power: i32) -> (p: Pulse)
    ensures
        p == pulse_for(power),
{
    let width = if power >= 0 {
        power as u32
    } else {
        (-(power as i64)) as u32
    };
    Pulse { forward: power > 0, width }
}

/// A wheel's motor, as the hardware offers it.
pub trait Motor {
    /// The power that the motor was last set to.
    spec fn power(&self) -> i32;

    /// Sets the motor's power; negative is backward.
    fn change_power(&mut self, power: i32)
        ensures
            final(self).power() == power,
    ;
}

/// A wheel's encoder, as the hardware offers it.
pub trait Encoder {
    /// The ticks that the encoder has counted.
    spec fn ticks(&self) -> i32;

    fn count(&self) -> (c: i32)
        ensures
            c == self.ticks(),
    ;

    /// Sets the count back to zero.
    fn reset(&mut self)
        ensures
            final(self).ticks() == 0,
    ;
}

impl Bot {
    /// Takes in what the two encoders count and what the three distance
    /// sensors last measured.
    pub fn read<L: Encoder, R: Encoder>(
        &mut self,
        left: &L,
        right: &R,
        front_distance: u8,
        left_distance: u8,
        right_distance: u8,
    )
        ensures
            *final(self) == old(self).sensed(
                Readings {
                    left_pos: left.ticks(),
                    right_pos: right.ticks(),
                    front_distance,
                    left_distance,
                    right_distance,
                },
            ),
    {
        self.sense(
            Readings {
                left_pos: left.count(),
                right_pos: right.count(),
                front_distance,
                left_distance,
                right_distance,
            },
        );
    }

    /// Sets both encoders back to zero and starts the positions over, so
    /// that the two never disagree.
    pub fn reset_with<L: Encoder, R: Encoder>(&mut self, left: &mut L, right: &mut R)
        ensures
            *final(self) == old(self).zeroed(),
            final(left).ticks() == 0,
            final(right).ticks() == 0,
            final(self).readings.left_pos == final(left).ticks(),
            final(self).readings.right_pos == final(right).ticks(),
    {
        left.reset();
        right.reset();
        self.reset();
    }
}

/// Takes the power off both motors.
pub fn halt<L: Motor, R: Motor>(left: &mut L, right: &mut R)
    ensures
        final(left).power() == 0,
        final(right).power() == 0,
{
    left.change_power(0);
    right.change_power(0);
}

/// Ticks faster than the period change nothing, and a tick that found the
/// wheel loops due leaves them not due until more than a period has passed
/// again.
pub proof fn lemma_one_step_per_period(bot: Bot, now: u32, later: u32)
    requires
        now <= later,
    ensures
        !bot.due(now) ==> bot.ticked(now).0 == bot,
        bot.due(now) && later - now <= TICK_PERIOD ==> bot.ticked(now).0.ticked(later).1 is None,
{
}

} // verus!
