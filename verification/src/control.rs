//! The move executor: at most one move is under way, a spin on the spot or
//! an advance along the corridor. Every tick it looks at the drivetrain and
//! decides whether the move is done, and if not, what the position loops
//! are to work on. The loops themselves run outside the library.

use vstd::prelude::*;
use crate::bot::{elapsed, since, Bot, Readings, WheelStep, TICK_PERIOD};
use crate::config::BotConfig;
use crate::moves::Move;

verus! {

/// What the position loops are told after a look at the drivetrain.
#[derive(Clone, Copy, Debug, PartialEq, Eq, Structural)]
pub enum Drive {
    /// Nothing new: no move is under way, or it is not yet time to look
    /// after it.
    Rest,
    /// The move is done: command zero velocity and set the encoders back.
    Halt,
    /// Run the spin loop toward `target`, in thousandths of a tick, over
    /// `dt` milliseconds and command its output as angular velocity.
    Spin { target: i32, dt: u32 },
    /// Run the linear loop from `position` toward `goal`, both in
    /// thousandths of a half tick, and the straightening loop toward
    /// `spin_target`, in millionths of a tick, over `dt` milliseconds. A
    /// loop is reset first where its flag says so.
    Linear {
        position: i64,
        goal: i64,
        reset_linear: bool,
        spin_target: i64,
        reset_spin: bool,
        dt: u32,
    },
}

impl Drive {
    /// Whether the move is done.
    pub fn is_done(&self) -> (done: bool)
        ensures
            done == (*self == Drive::Halt),
    {
        match self {
            Drive::Halt => true,
            _ => false,
        }
    }
}

/// A distance in half ticks, at nine ticks to the millimetre; thousandths
/// of a millimetre give thousandths of a half tick.
pub open spec fn half_ticks(mm: int) -> int {
    18 * mm
}

fn to_half_ticks(mm: i64) -> (t: i64)
    requires
        0 <= mm <= 0xffff_ffff,
    ensures
        t == half_ticks(mm as int),
{
    18 * mm
}

/// `v`, held inside the range of a 64-bit number.
pub open spec fn held(v: int) -> i64 {
    if v > i64::MAX {
        i64::MAX
    } else if v < i64::MIN {
        i64::MIN
    } else {
        v as i64
    }
}

/// A turn on the spot.
#[derive(Clone, Copy, Debug, PartialEq, Eq, Structural)]
pub struct SpinMove {
    /// Where to turn to, in thousandths of a tick of spin.
    pub target: i32,
    /// How far off the target still counts as there, in thousandths of a
    /// tick.
    pub err: u32,
    /// How long the spin must have been there to be done.
    pub settle: u32,
    /// The last time the spin was found off its target; the time it was
    /// made, if it never was.
    pub last_ok: u32,
    /// The last time the spin loop was told to run; the time the spin was
    /// made, if it never was.
    pub last_update: u32,
}

impl SpinMove {
    /// Whether the drivetrain is within tolerance of the target. The spin
    /// is half the difference of the wheels; all is counted in thousandths
    /// of a half tick.
    pub open spec fn within(self, bot: Bot) -> bool {
        let off = 1000 * bot.spin2() - 2 * self.target;
        -2 * self.err <= off <= 2 * self.err
    }

    /// The move after a look at the drivetrain at `now`, and what the loops
    /// are told. A look restarts the settle time if and only if it finds
    /// the spin off target. The move is done once the spin has not been
    /// found off target for longer than the settle time, counted from when
    /// the move was made at the earliest.
    pub open spec fn step(self, now: u32, bot: Bot) -> (SpinMove, Drive) {
        let last_ok = if self.within(bot) {
            self.last_ok
        } else {
            now
        };
        if elapsed(now, last_ok) > self.settle {
            (SpinMove { last_ok, ..self }, Drive::Halt)
        } else {
            (
                SpinMove { last_ok, last_update: now, ..self },
                Drive::Spin { target: self.target, dt: elapsed(now, self.last_update) },
            )
        }
    }

    /// A spin to `target` made at time `made`, with tolerance and settle
    /// time as `config` has them.
    pub open spec fn made_at(target: i32, config: BotConfig, made: u32) -> SpinMove {
        SpinMove {
            target,
            err: config.spin_err,
            settle: config.spin_settle,
            last_ok: made,
            last_update: made,
        }
    }

    /// A spin to `target` made when the clock starts, with tolerance and
    /// settle time as `config` has them now.
    pub fn new(target: i32, config: &BotConfig) -> (m: SpinMove)
        ensures
            m == SpinMove::made_at(target, *config, 0),
    {
        SpinMove {
            target,
            err: config.spin_err,
            settle: config.spin_settle,
            last_ok: 0,
            last_update: 0,
        }
    }

    /// A spin to `target` made at time `made`.
    pub fn new_at(target: i32, config: &BotConfig, made: u32) -> (m: SpinMove)
        ensures
            m == SpinMove::made_at(target, *config, made),
    {
        SpinMove {
            target,
            err: config.spin_err,
            settle: config.spin_settle,
            last_ok: made,
            last_update: made,
        }
    }

    /// One look at the drivetrain: see [`SpinMove::step`].
    pub fn update(&mut self, now: u32, bot: &Bot) -> (d: Drive)
        ensures
            (*final(self), d) == old(self).step(now, *bot),
    {
        let off = 1000 * bot.spin_pos() - 2 * (self.target as i64);
        let tolerance = 2 * (self.err as i64);
        if off > tolerance || off < -tolerance {
            self.last_ok = now;
        }
        if since(now, self.last_ok) > self.settle {
            Drive::Halt
        } else {
            let dt = since(now, self.last_update);
            self.last_update = now;
            Drive::Spin { target: self.target, dt }
        }
    }
}

/// An advance along the corridor, kept straight and centred by the side
/// walls and stopped by the wall ahead where there is one.
#[derive(Clone, Copy, Debug, PartialEq, Eq, Structural)]
pub struct LinearMove {
    /// How far to advance, in thousandths of a tick.
    pub linear_target: i32,
    /// Where the straightening loop steers to, in millionths of a tick of
    /// spin.
    pub spin_target: i64,
    /// Whether the last look found the advance within tolerance.
    pub last_linear_ok: bool,
    /// Whether the last look found the spin within tolerance.
    pub last_spin_ok: bool,
    /// How far off the spin still counts as there, in thousandths of a
    /// tick.
    pub err: u32,
    /// How long the move must have been there to be done.
    pub settle: u32,
    /// The last time the move was found off its target; the time it was
    /// made, if it never was.
    pub last_ok: u32,
    /// The last time the loops were told to run; the time the move was
    /// made, if they never were.
    pub last_update: u32,
}

impl LinearMove {
    /// Whether the advance is measured against the wall ahead: it is when
    /// the front sensor reads less than a cell's width.
    pub open spec fn by_wall(bot: Bot) -> bool {
        1000 * bot.readings.front_distance < bot.config.cell_width
    }

    /// The position of the advance, in thousandths of a half tick: the
    /// distance to the wall ahead, counted backward from it, or else the
    /// encoders' travel.
    pub open spec fn position(bot: Bot) -> int {
        if Self::by_wall(bot) {
            -half_ticks(1000 * bot.readings.front_distance)
        } else {
            1000 * bot.linear2()
        }
    }

    /// The target of the advance, in thousandths of a half tick.
    pub open spec fn target(self, bot: Bot) -> int {
        if Self::by_wall(bot) {
            -half_ticks(bot.config.front_wall_distance as int)
        } else {
            2 * self.linear_target
        }
    }

    /// How far off the target still counts as there, in thousandths of a
    /// half tick.
    pub open spec fn tolerance(bot: Bot) -> int {
        if Self::by_wall(bot) {
            half_ticks(bot.config.linear_front_err as int)
        } else {
            2 * bot.config.linear_err
        }
    }

    /// Whether the advance is within tolerance of its target.
    pub open spec fn linear_ok(self, bot: Bot) -> bool {
        let off = Self::position(bot) - self.target(bot);
        -Self::tolerance(bot) < off < Self::tolerance(bot)
    }

    /// How far, in thousandths of a millimetre, the robot is left of where
    /// the side walls say it should be. Where both walls are near, the
    /// middle between them counts; else the nearer wall and the offset it
    /// should be at.
    pub open spec fn off_centre(bot: Bot) -> int {
        let l = 1000 * bot.readings.left_distance;
        let r = 1000 * bot.readings.right_distance;
        if l + r <= bot.config.cell_width {
            r - l
        } else if l < r {
            bot.config.cell_offset - l
        } else if r < l {
            r - bot.config.cell_offset
        } else {
            0
        }
    }

    /// Where the straightening loop steers to after this look: while the
    /// advance is off target it follows the side walls; once the advance
    /// is there it stays where it was.
    pub open spec fn steer(self, bot: Bot) -> int {
        if self.linear_ok(bot) {
            self.spin_target as int
        } else {
            held(bot.config.linear_spin_pos_p * Self::off_centre(bot)) as int
        }
    }

    /// Whether the spin is within tolerance of where the straightening loop
    /// steers to; all is counted in millionths of a half tick.
    pub open spec fn spin_ok(self, bot: Bot) -> bool {
        let off = 1_000_000 * bot.spin2() - 2 * self.steer(bot);
        -2000 * self.err < off < 2000 * self.err
    }

    /// The move after a look at the drivetrain at `now`, and what the loops
    /// are told. A look that finds the advance or the spin off target
    /// restarts the settle time, and no other look does; the move is done
    /// once neither has been found off target for longer than the settle
    /// time, counted from when the move was made at the earliest. A loop is
    /// reset when it is found on target after having been off.
    pub open spec fn step(self, now: u32, bot: Bot) -> (LinearMove, Drive) {
        let linear_ok = self.linear_ok(bot);
        let spin_ok = self.spin_ok(bot);
        let last_ok = if linear_ok && spin_ok {
            self.last_ok
        } else {
            now
        };
        let seen = LinearMove {
            spin_target: self.steer(bot) as i64,
            last_linear_ok: linear_ok,
            last_spin_ok: spin_ok,
            last_ok,
            ..self
        };
        if elapsed(now, last_ok) > self.settle {
            (seen, Drive::Halt)
        } else {
            (
                LinearMove { last_update: now, ..seen },
                Drive::Linear {
                    position: Self::position(bot) as i64,
                    goal: self.target(bot) as i64,
                    reset_linear: linear_ok && !self.last_linear_ok,
                    spin_target: self.steer(bot) as i64,
                    reset_spin: spin_ok && !self.last_spin_ok,
                    dt: elapsed(now, self.last_update),
                },
            )
        }
    }

    /// An advance of `target` made at time `made`, with tolerance and
    /// settle time as `config` has them.
    pub open spec fn made_at(target: i32, config: BotConfig, made: u32) -> LinearMove {
        LinearMove {
            linear_target: target,
            spin_target: 0,
            last_linear_ok: false,
            last_spin_ok: false,
            err: config.linear_err,
            settle: config.linear_settle,
            last_ok: made,
            last_update: made,
        }
    }

    /// An advance of `target` made when the clock starts, with tolerance
    /// and settle time as `config` has them now.
    pub fn new(target: i32, config: &BotConfig) -> (m: LinearMove)
        ensures
            m == LinearMove::made_at(target, *config, 0),
    {
        LinearMove::new_at(target, config, 0)
    }

    /// An advance of `target` made at time `made`.
    pub fn new_at(target: i32, config: &BotConfig, made: u32) -> (m: LinearMove)
        ensures
            m == LinearMove::made_at(target, *config, made),
    {
        LinearMove {
            linear_target: target,
            spin_target: 0,
            last_linear_ok: false,
            last_spin_ok: false,
            err: config.linear_err,
            settle: config.linear_settle,
            last_ok: made,
            last_update: made,
        }
    }

    /// How far the robot is off centre: see [`LinearMove::off_centre`].
    pub fn centring(bot: &Bot) -> (off: i64)
        ensures
            off == Self::off_centre(*bot),
            -0x1_0010_0000 < off < 0x1_0010_0000,
    {
        let l = 1000 * (bot.readings.left_distance as i64);
        let r = 1000 * (bot.readings.right_distance as i64);
        if l + r <= bot.config.cell_width as i64 {
            r - l
        } else if l < r {
            bot.config.cell_offset as i64 - l
        } else if r < l {
            r - bot.config.cell_offset as i64
        } else {
            0
        }
    }

    /// One look at the drivetrain: see [`LinearMove::step`].
    pub fn update(&mut self, now: u32, bot: &Bot) -> (d: Drive)
        ensures
            (*final(self), d) == old(self).step(now, *bot),
    {
        let front = 1000 * (bot.readings.front_distance as i64);
        let (position, target, tolerance) = if front < bot.config.cell_width as i64 {
            (
                -to_half_ticks(front),
                -to_half_ticks(bot.config.front_wall_distance as i64),
                to_half_ticks(bot.config.linear_front_err as i64),
            )
        } else {
            (
                1000 * bot.linear_pos(),
                2 * (self.linear_target as i64),
                2 * (bot.config.linear_err as i64),
            )
        };
        let off = position - target;
        let linear_ok = off < tolerance && off > -tolerance;
        let reset_linear = linear_ok && !self.last_linear_ok;
        self.last_linear_ok = linear_ok;
        if !linear_ok {
            let gain = bot.config.linear_spin_pos_p as i128;
            let c = Self::centring(bot) as i128;
            assert(-0x1_0000_0000_0000_0000 < gain * c < 0x1_0000_0000_0000_0000) by (nonlinear_arith)
                requires
                    -0x8000_0000 <= gain <= 0x7fff_ffff,
                    -0x1_0010_0000 < c < 0x1_0010_0000,
            ;
            let pull = gain * c;
            self.spin_target = if pull > i64::MAX as i128 {
                i64::MAX
            } else if pull < i64::MIN as i128 {
                i64::MIN
            } else {
                pull as i64
            };
        }
        let spin_off = 1_000_000 * (bot.spin_pos() as i128) - 2 * (self.spin_target as i128);
        let spin_tolerance = 2000 * (self.err as i128);
        let spin_ok = spin_off < spin_tolerance && spin_off > -spin_tolerance;
        let reset_spin = spin_ok && !self.last_spin_ok;
        self.last_spin_ok = spin_ok;
        if !linear_ok || !spin_ok {
            self.last_ok = now;
        }
        if since(now, self.last_ok) > self.settle {
            Drive::Halt
        } else {
            let dt = since(now, self.last_update);
            self.last_update = now;
            Drive::Linear {
                position,
                goal: target,
                reset_linear,
                spin_target: self.spin_target,
                reset_spin,
                dt,
            }
        }
    }
}

/// The move under way, if any.
#[derive(Clone, Copy, Debug, PartialEq, Eq, Structural)]
pub enum CurrentMove {
    Idle,
    SpinMove(SpinMove),
    LinearMove(LinearMove),
}

impl CurrentMove {
    pub fn is_idle(&self) -> (idle: bool)
        ensures
            idle == (*self == CurrentMove::Idle),
    {
        match self {
            CurrentMove::Idle => true,
            _ => false,
        }
    }
}

/// What one tick of the executor asks for: what the position loops are
/// told, and the step for the wheel loops if they are due.
#[derive(Clone, Copy, Debug, PartialEq, Eq, Structural)]
pub struct Tick {
    pub drive: Drive,
    pub wheels: Option<WheelStep>,
}

/// The move that the executor makes for `m` at time `made`: a quarter turn
/// either way, a half turn, or an advance of one cell.
pub open spec fn order_for(m: Move, config: BotConfig, made: u32) -> CurrentMove {
    match m {
        Move::TurnLeft => CurrentMove::SpinMove(
            SpinMove::made_at((-(config.ticks_per_spin as int / 4)) as i32, config, made),
        ),
        Move::TurnRight => CurrentMove::SpinMove(
            SpinMove::made_at((config.ticks_per_spin as int / 4) as i32, config, made),
        ),
        Move::TurnAround => CurrentMove::SpinMove(
            SpinMove::made_at((config.ticks_per_spin as int / 2) as i32, config, made),
        ),
        Move::Forward => CurrentMove::LinearMove(
            LinearMove::made_at(config.ticks_per_cell, config, made),
        ),
    }
}

/// The move executor.
#[derive(Clone, Copy, Debug, PartialEq, Eq, Structural)]
pub struct Control {
    pub bot: Bot,
    pub current_move: CurrentMove,
    pub last_update: u32,
}

impl Control {
    /// The executor once a move to start was handed to it: it takes the
    /// move if it is idle and ignores it otherwise.
    pub open spec fn given(self, m: CurrentMove) -> Control {
        if self.current_move == CurrentMove::Idle {
            Control { current_move: m, ..self }
        } else {
            self
        }
    }

    /// The move under way, if any, last had its loops run at the executor's
    /// last look, or was made then. This holds of an executor that only
    /// its own functions have changed.
    pub open spec fn in_step(self) -> bool {
        match self.current_move {
            CurrentMove::SpinMove(m) => m.last_update == self.last_update,
            CurrentMove::LinearMove(m) => m.last_update == self.last_update,
            CurrentMove::Idle => true,
        }
    }

    /// Whether it is time to look after the move.
    pub open spec fn due(self, now: u32) -> bool {
        elapsed(now, self.last_update) >= TICK_PERIOD
    }

    /// The move after a look at drivetrain `bot` at `now`, and what the
    /// loops are told.
    pub open spec fn looked(self, now: u32, bot: Bot) -> (CurrentMove, Drive) {
        match self.current_move {
            CurrentMove::SpinMove(m) => (CurrentMove::SpinMove(m.step(now, bot).0), m.step(now, bot).1),
            CurrentMove::LinearMove(m) => (
                CurrentMove::LinearMove(m.step(now, bot).0),
                m.step(now, bot).1,
            ),
            CurrentMove::Idle => (CurrentMove::Idle, Drive::Rest),
        }
    }

    /// The executor after a tick at `now` with readings `r`, and what the
    /// tick asks for. The readings are taken in. If a period has passed the
    /// move is looked after; a move that is done gives way to idle and the
    /// drivetrain starts over from zero. Then the drivetrain has its tick.
    pub open spec fn step(self, now: u32, r: Readings) -> (Control, Tick) {
        let bot = self.bot.sensed(r);
        if self.due(now) {
            let (m, drive) = self.looked(now, bot);
            if drive == Drive::Halt {
                (
                    Control {
                        bot: bot.zeroed().ticked(now).0,
                        current_move: CurrentMove::Idle,
                        last_update: now,
                    },
                    Tick { drive, wheels: bot.zeroed().ticked(now).1 },
                )
            } else {
                (
                    Control { bot: bot.ticked(now).0, current_move: m, last_update: now },
                    Tick { drive, wheels: bot.ticked(now).1 },
                )
            }
        } else {
            (
                Control { bot: bot.ticked(now).0, ..self },
                Tick { drive: Drive::Rest, wheels: bot.ticked(now).1 },
            )
        }
    }

    /// An idle executor for drivetrain `bot`.
    pub fn new(bot: Bot) -> (c: Control)
        ensures
            c == (Control { bot, current_move: CurrentMove::Idle, last_update: 0 }),
    {
        Control { bot, current_move: CurrentMove::Idle, last_update: 0 }
    }

    /// Starts a spin to `spin_target`, in thousandths of a tick, unless a
    /// move is under way. The spin counts as made at the executor's last
    /// look.
    pub fn spin(&mut self, spin_target: i32)
        ensures
            *final(self) == old(self).given(
                CurrentMove::SpinMove(
                    SpinMove::made_at(spin_target, old(self).bot.config, old(self).last_update),
                ),
            ),
    {
        if self.current_move.is_idle() {
            self.current_move = CurrentMove::SpinMove(
                SpinMove::new_at(spin_target, &self.bot.config, self.last_update),
            );
        }
    }

    /// Starts an advance of `linear_target`, in thousandths of a tick,
    /// unless a move is under way. The advance counts as made at the
    /// executor's last look.
    pub fn linear(&mut self, linear_target: i32)
        ensures
            *final(self) == old(self).given(
                CurrentMove::LinearMove(
                    LinearMove::made_at(linear_target, old(self).bot.config, old(self).last_update),
                ),
            ),
    {
        if self.current_move.is_idle() {
            self.current_move = CurrentMove::LinearMove(
                LinearMove::new_at(linear_target, &self.bot.config, self.last_update),
            );
        }
    }

    /// Starts what move `m` stands for, unless a move is under way: see
    /// [`order_for`].
    pub fn start(&mut self, m: Move)
        ensures
            *final(self) == old(self).given(
                order_for(m, old(self).bot.config, old(self).last_update),
            ),
    {
        let per_spin = self.bot.config.ticks_per_spin;
        match m {
            Move::TurnLeft => self.spin(-((per_spin / 4) as i32)),
            Move::TurnRight => self.spin((per_spin / 4) as i32),
            Move::TurnAround => self.spin((per_spin / 2) as i32),
            Move::Forward => {
                let per_cell = self.bot.config.ticks_per_cell;
                self.linear(per_cell)
            },
        }
    }

    /// One tick at time `now` with the sensors' readings: see
    /// [`Control::step`].
    pub fn update(&mut self, now: u32, readings: Readings) -> (tick: Tick)
        ensures
            (*final(self), tick) == old(self).step(now, readings),
    {
        self.bot.sense(readings);
        let mut drive = Drive::Rest;
        if since(now, self.last_update) >= TICK_PERIOD {
            match self.current_move {
                CurrentMove::SpinMove(mut m) => {
                    drive = m.update(now, &self.bot);
                    self.current_move = CurrentMove::SpinMove(m);
                },
                CurrentMove::LinearMove(mut m) => {
                    drive = m.update(now, &self.bot);
                    self.current_move = CurrentMove::LinearMove(m);
                },
                CurrentMove::Idle => {},
            }
            if drive.is_done() {
                self.current_move = CurrentMove::Idle;
                self.bot.reset();
            }
            self.last_update = now;
        }
        let wheels = self.bot.update(now);
        Tick { drive, wheels }
    }

    /// Whether no move is under way.
    pub fn is_idle(&self) -> (idle: bool)
        ensures
            idle == (self.current_move == CurrentMove::Idle),
    {
        self.current_move.is_idle()
    }

    /// The drivetrain as the executor last saw it.
    pub fn bot(&self) -> (bot: &Bot)
        ensures
            *bot == self.bot,
    {
        &self.bot
    }

    /// `"spin"`, `"linear"` or `"idle"`.
    pub fn current_move_name(&self) -> (name: &'static str)
        ensures
            name@ == match self.current_move {
                CurrentMove::SpinMove(_) => "spin"@,
                CurrentMove::LinearMove(_) => "linear"@,
                CurrentMove::Idle => "idle"@,
            },
    {
        match self.current_move {
            CurrentMove::SpinMove(_) => "spin",
            CurrentMove::LinearMove(_) => "linear",
            CurrentMove::Idle => "idle",
        }
    }

    /// Gives up the move under way, if any: the executor is idle and the
    /// drivetrain starts over from zero. The answer is the order that goes
    /// with it: command zero velocity and set the encoders back.
    pub fn stop(&mut self) -> (d: Drive)
        ensures
            d == Drive::Halt,
            *final(self) == (Control {
                bot: old(self).bot.zeroed(),
                current_move: CurrentMove::Idle,
                last_update: old(self).last_update,
            }),
    {
        self.bot.reset();
        self.current_move = CurrentMove::Idle;
        Drive::Halt
    }
}

/// A spin that is found off target is not done, whatever the settle time;
/// the settle time starts over at that look.
pub proof fn lemma_spin_off_target_is_not_done(m: SpinMove, now: u32, bot: Bot)
    requires
        !m.within(bot),
    ensures
        m.step(now, bot).1 != Drive::Halt,
        m.step(now, bot).0.last_ok == now,
{
}

/// A spin that is found on target is done exactly when more than the
/// settle time has passed since it was made or was last found off target,
/// and until then that moment stays what it was.
pub proof fn lemma_spin_done_when_settled(m: SpinMove, now: u32, bot: Bot)
    requires
        m.within(bot),
        m.last_ok <= now,
    ensures
        m.step(now, bot).1 == Drive::Halt <==> now - m.last_ok > m.settle,
        m.step(now, bot).0.last_ok == m.last_ok,
        m.step(now, bot).0.target == m.target,
        m.step(now, bot).0.err == m.err,
        m.step(now, bot).0.settle == m.settle,
{
}

impl SpinMove {
    /// The spin after the looks of `looks`, each a time and what the
    /// drivetrain read then, oldest first.
    pub open spec fn after(self, looks: Seq<(u32, Bot)>) -> SpinMove
        decreases looks.len(),
    {
        if looks.len() == 0 {
            self
        } else {
            self.after(looks.drop_last()).step(looks.last().0, looks.last().1).0
        }
    }
}

/// However many looks find the spin on target, the moment it was last found
/// off target stays what it was.
pub proof fn lemma_spin_on_target_keeps_time(m: SpinMove, looks: Seq<(u32, Bot)>)
    requires
        forall|i: int| 0 <= i < looks.len() ==> m.within((#[trigger] looks[i]).1),
    ensures
        m.after(looks).last_ok == m.last_ok,
        m.after(looks).target == m.target,
        m.after(looks).err == m.err,
        m.after(looks).settle == m.settle,
    decreases looks.len(),
{
    if looks.len() > 0 {
        let earlier = looks.drop_last();
        assert forall|i: int| 0 <= i < earlier.len() implies m.within((#[trigger] earlier[i]).1) by {
            assert(earlier[i] == looks[i]);
        }
        lemma_spin_on_target_keeps_time(m, earlier);
        assert(m.after(earlier).within(looks.last().1));
    }
}

/// After any number of looks that found the spin on target, the look at
/// `now` finds the spin done exactly when more than the settle time has
/// passed since it was last found off target: not a tick earlier, and no
/// later than the first look after that.
pub proof fn lemma_spin_settles(m: SpinMove, looks: Seq<(u32, Bot)>, now: u32, bot: Bot)
    requires
        forall|i: int| 0 <= i < looks.len() ==> m.within((#[trigger] looks[i]).1),
        m.within(bot),
        m.last_ok <= now,
    ensures
        m.after(looks).step(now, bot).1 == Drive::Halt <==> now - m.last_ok > m.settle,
{
    lemma_spin_on_target_keeps_time(m, looks);
    assert(m.after(looks).within(bot));
}

/// A move that the executor started is not done before more than its
/// settle time has passed since the executor's last look before it, even
/// if the robot stands on target from the start.
pub proof fn lemma_started_move_waits(c: Control, m: Move, now: u32, r: Readings)
    requires
        c.current_move == CurrentMove::Idle,
        c.last_update <= now,
        now - c.last_update <= c.bot.config.spin_settle,
        now - c.last_update <= c.bot.config.linear_settle,
    ensures
        c.given(order_for(m, c.bot.config, c.last_update)).step(now, r).1.drive != Drive::Halt,
{
}

/// Starting a move keeps the executor and its move in step.
pub proof fn lemma_start_keeps_step(c: Control, m: Move)
    requires
        c.in_step(),
    ensures
        c.given(order_for(m, c.bot.config, c.last_update)).in_step(),
{
}

/// As long as only the executor touches its move, the move's loops last ran
/// at the executor's last look, and whenever they are told to run at least
/// a tick period has passed since.
pub proof fn lemma_loops_are_given_time(c: Control, now: u32, r: Readings)
    requires
        c.in_step(),
    ensures
        c.step(now, r).0.in_step(),
        match c.step(now, r).1.drive {
            Drive::Spin { dt, .. } => dt >= TICK_PERIOD,
            Drive::Linear { dt, .. } => dt >= TICK_PERIOD,
            _ => true,
        },
{
}

/// A look that finds the spin off target, between looks that find it on
/// target, puts the end off: the spin is then done exactly when more than
/// the settle time has passed since that look.
pub proof fn lemma_spin_debounce(m: SpinMove, off_at: u32, off: Bot, now: u32, bot: Bot)
    requires
        !m.within(off),
        m.within(bot),
        off_at <= now,
    ensures
        m.step(off_at, off).1 != Drive::Halt,
        m.step(off_at, off).0.step(now, bot).1 == Drive::Halt <==> now - off_at > m.settle,
{
}

/// An advance that is found off target, in travel or in spin, is not done,
/// and the settle time starts over at that look.
pub proof fn lemma_linear_off_target_is_not_done(m: LinearMove, now: u32, bot: Bot)
    requires
        !m.linear_ok(bot) || !m.spin_ok(bot),
    ensures
        m.step(now, bot).1 != Drive::Halt,
        m.step(now, bot).0.last_ok == now,
{
}

/// An advance that is found on target in travel and in spin is done exactly
/// when more than the settle time has passed since it was last found off.
pub proof fn lemma_linear_done_when_settled(m: LinearMove, now: u32, bot: Bot)
    requires
        m.linear_ok(bot),
        m.spin_ok(bot),
        m.last_ok <= now,
    ensures
        m.step(now, bot).1 == Drive::Halt <==> now - m.last_ok > m.settle,
        m.step(now, bot).0.last_ok == m.last_ok,
{
}

/// A move under way is not replaced: asking a busy executor for another
/// move changes nothing.
pub proof fn lemma_no_preemption(c: Control, m: CurrentMove)
    requires
        c.current_move != CurrentMove::Idle,
    ensures
        c.given(m) == c,
{
}

/// When a tick finds the move done, the executor is idle afterwards and
/// the drivetrain's positions start over from zero.
pub proof fn lemma_done_means_idle(c: Control, now: u32, r: Readings)
    requires
        c.step(now, r).1.drive == Drive::Halt,
    ensures
        c.step(now, r).0.current_move == CurrentMove::Idle,
        c.step(now, r).0.bot.readings.left_pos == 0,
        c.step(now, r).0.bot.readings.right_pos == 0,
        c.step(now, r).0.bot.last_left_pos == 0,
        c.step(now, r).0.bot.last_right_pos == 0,
{
}

} // verus!
