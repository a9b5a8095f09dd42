//! The tunable parameters of the drivetrain and of the moves.

use vstd::prelude::*;

verus! {

/// Everything that can be tuned while the robot runs.
///
/// The gains of the control loops are carried as the 64 bits of an IEEE-754
/// double: the library stores and hands them out and never computes with
/// them. What the move logic decides on is kept in fixed point: ticks and
/// millimetres in thousandths, times in whole milliseconds.
#[derive(Clone, Copy, Debug, PartialEq, Eq, Structural)]
pub struct BotConfig {
    /// Gains of the left wheel's velocity loop.
    pub left_p: u64,
    pub left_i: u64,
    pub left_d: u64,
    /// Gains of the right wheel's velocity loop.
    pub right_p: u64,
    pub right_i: u64,
    pub right_d: u64,
    /// Gains of the position loop of a spin.
    pub spin_p: u64,
    pub spin_i: u64,
    pub spin_d: u64,
    /// How far, in thousandths of a tick, a spin may be off its target and
    /// count as there.
    pub spin_err: u32,
    /// How long, in milliseconds, a spin must have been there to be done.
    pub spin_settle: u32,
    /// Gains of the position loop of a linear move.
    pub linear_p: u64,
    pub linear_i: u64,
    pub linear_d: u64,
    /// Gains of the loop that keeps a linear move straight.
    pub linear_spin_p: u64,
    pub linear_spin_i: u64,
    pub linear_spin_d: u64,
    /// The centring gain, in thousandths of a tick of spin per millimetre
    /// off the middle of the cell.
    pub linear_spin_pos_p: i32,
    /// How far, in thousandths of a tick, a linear move may be off its
    /// target and count as there.
    pub linear_err: u32,
    /// The same when the target is a distance to the wall ahead, in
    /// thousandths of a millimetre.
    pub linear_front_err: u32,
    /// How long, in milliseconds, a linear move must have been there to be
    /// done.
    pub linear_settle: u32,
    /// Encoder ticks of one wheel for a full turn of the robot on the spot,
    /// in thousandths.
    pub ticks_per_spin: u32,
    /// Encoder ticks for an advance of one cell, in thousandths.
    pub ticks_per_cell: i32,
    /// Width of a cell, in thousandths of a millimetre.
    pub cell_width: u32,
    /// Distance from a side wall at which the robot is in the middle of its
    /// cell, in thousandths of a millimetre.
    pub cell_offset: u32,
    /// Distance to keep from a wall ahead, in thousandths of a millimetre.
    pub front_wall_distance: u32,
    /// A distance reading above this many thousandths of a millimetre
    /// means: no wall.
    pub wall_threshold: u32,
}

/// The parameters by name, as the debug console spells them.
#[derive(Clone, Copy, Debug, PartialEq, Eq, Structural)]
pub enum ConfigKey {
    LeftP,
    LeftI,
    LeftD,
    RightP,
    RightI,
    RightD,
    SpinP,
    SpinI,
    SpinD,
    SpinErr,
    SpinSettle,
    LinearP,
    LinearI,
    LinearD,
    LinearSpinP,
    LinearSpinI,
    LinearSpinD,
    LinearSpinPosP,
    LinearErr,
    LinearFrontErr,
    LinearSettle,
    TicksPerSpin,
    TicksPerCell,
    CellWidth,
    CellOffset,
    FrontWallDistance,
    WallThreshold,
}

/// The value of a parameter: the bits of a gain, or a number. A time is
/// counted in milliseconds, every other number in thousandths.
#[derive(Clone, Copy, Debug, PartialEq, Eq, Structural)]
pub enum ConfigValue {
    Gain(u64),
    Number(i64),
}

impl ConfigKey {
    /// Whether the parameter is a gain.
    pub open spec fn is_gain(self) -> bool {
        match self {
            ConfigKey::LeftP | ConfigKey::LeftI | ConfigKey::LeftD | ConfigKey::RightP
            | ConfigKey::RightI | ConfigKey::RightD | ConfigKey::SpinP | ConfigKey::SpinI
            | ConfigKey::SpinD | ConfigKey::LinearP | ConfigKey::LinearI | ConfigKey::LinearD
            | ConfigKey::LinearSpinP | ConfigKey::LinearSpinI | ConfigKey::LinearSpinD => true,
            _ => false,
        }
    }

    /// Whether the parameter is a time in whole milliseconds; the other
    /// numbers are counted in thousandths.
    pub open spec fn is_whole(self) -> bool {
        self == ConfigKey::SpinSettle || self == ConfigKey::LinearSettle
    }

    /// The least number that the parameter can be set to.
    pub open spec fn lowest(self) -> int {
        match self {
            ConfigKey::LinearSpinPosP | ConfigKey::TicksPerCell => i32::MIN as int,
            _ => 0,
        }
    }

    /// The greatest number that the parameter can be set to.
    pub open spec fn highest(self) -> int {
        match self {
            ConfigKey::LinearSpinPosP | ConfigKey::TicksPerCell => i32::MAX as int,
            _ => u32::MAX as int,
        }
    }

    /// Whether the parameter can be set to `v`.
    pub open spec fn accepts(self, v: ConfigValue) -> bool {
        match v {
            ConfigValue::Gain(_) => self.is_gain(),
            ConfigValue::Number(n) => !self.is_gain() && self.lowest() <= n <= self.highest(),
        }
    }

    /// Whether the parameter is a time in whole milliseconds.
    pub fn whole(self) -> (b: bool)
        ensures
            b == self.is_whole(),
    {
        match self {
            ConfigKey::SpinSettle | ConfigKey::LinearSettle => true,
            _ => false,
        }
    }

    /// Whether the parameter is a gain.
    pub fn gain(self) -> (b: bool)
        ensures
            b == self.is_gain(),
    {
        match self {
            ConfigKey::LeftP | ConfigKey::LeftI | ConfigKey::LeftD | ConfigKey::RightP
            | ConfigKey::RightI | ConfigKey::RightD | ConfigKey::SpinP | ConfigKey::SpinI
            | ConfigKey::SpinD | ConfigKey::LinearP | ConfigKey::LinearI | ConfigKey::LinearD
            | ConfigKey::LinearSpinP | ConfigKey::LinearSpinI | ConfigKey::LinearSpinD => true,
            _ => false,
        }
    }
}

impl BotConfig {
    /// The value of parameter `key`.
    pub open spec fn value(self, key: ConfigKey) -> ConfigValue {
        match key {
            ConfigKey::LeftP => ConfigValue::Gain(self.left_p),
            ConfigKey::LeftI => ConfigValue::Gain(self.left_i),
            ConfigKey::LeftD => ConfigValue::Gain(self.left_d),
            ConfigKey::RightP => ConfigValue::Gain(self.right_p),
            ConfigKey::RightI => ConfigValue::Gain(self.right_i),
            ConfigKey::RightD => ConfigValue::Gain(self.right_d),
            ConfigKey::SpinP => ConfigValue::Gain(self.spin_p),
            ConfigKey::SpinI => ConfigValue::Gain(self.spin_i),
            ConfigKey::SpinD => ConfigValue::Gain(self.spin_d),
            ConfigKey::SpinErr => ConfigValue::Number(self.spin_err as i64),
            ConfigKey::SpinSettle => ConfigValue::Number(self.spin_settle as i64),
            ConfigKey::LinearP => ConfigValue::Gain(self.linear_p),
            ConfigKey::LinearI => ConfigValue::Gain(self.linear_i),
            ConfigKey::LinearD => ConfigValue::Gain(self.linear_d),
            ConfigKey::LinearSpinP => ConfigValue::Gain(self.linear_spin_p),
            ConfigKey::LinearSpinI => ConfigValue::Gain(self.linear_spin_i),
            ConfigKey::LinearSpinD => ConfigValue::Gain(self.linear_spin_d),
            ConfigKey::LinearSpinPosP => ConfigValue::Number(self.linear_spin_pos_p as i64),
            ConfigKey::LinearErr => ConfigValue::Number(self.linear_err as i64),
            ConfigKey::LinearFrontErr => ConfigValue::Number(self.linear_front_err as i64),
            ConfigKey::LinearSettle => ConfigValue::Number(self.linear_settle as i64),
            ConfigKey::TicksPerSpin => ConfigValue::Number(self.ticks_per_spin as i64),
            ConfigKey::TicksPerCell => ConfigValue::Number(self.ticks_per_cell as i64),
            ConfigKey::CellWidth => ConfigValue::Number(self.cell_width as i64),
            ConfigKey::CellOffset => ConfigValue::Number(self.cell_offset as i64),
            ConfigKey::FrontWallDistance => ConfigValue::Number(self.front_wall_distance as i64),
            ConfigKey::WallThreshold => ConfigValue::Number(self.wall_threshold as i64),
        }
    }

    /// The configuration with every gain and every number zero.
    pub fn zero() -> (c: BotConfig)
        ensures
            forall|k: ConfigKey|
                #[trigger] c.value(k) == if k.is_gain() {
                    ConfigValue::Gain(0)
                } else {
                    ConfigValue::Number(0)
                },
    {
        BotConfig {
            left_p: 0,
            left_i: 0,
            left_d: 0,
            right_p: 0,
            right_i: 0,
            right_d: 0,
            spin_p: 0,
            spin_i: 0,
            spin_d: 0,
            spin_err: 0,
            spin_settle: 0,
            linear_p: 0,
            linear_i: 0,
            linear_d: 0,
            linear_spin_p: 0,
            linear_spin_i: 0,
            linear_spin_d: 0,
            linear_spin_pos_p: 0,
            linear_err: 0,
            linear_front_err: 0,
            linear_settle: 0,
            ticks_per_spin: 0,
            ticks_per_cell: 0,
            cell_width: 0,
            cell_offset: 0,
            front_wall_distance: 0,
            wall_threshold: 0,
        }
    }

    /// The value of parameter `key`.
    pub fn get(&self, key: ConfigKey) -> (v: ConfigValue)
        ensures
            v == self.value(key),
    {
        match key {
            ConfigKey::LeftP => ConfigValue::Gain(self.left_p),
            ConfigKey::LeftI => ConfigValue::Gain(self.left_i),
            ConfigKey::LeftD => ConfigValue::Gain(self.left_d),
            ConfigKey::RightP => ConfigValue::Gain(self.right_p),
            ConfigKey::RightI => ConfigValue::Gain(self.right_i),
            ConfigKey::RightD => ConfigValue::Gain(self.right_d),
            ConfigKey::SpinP => ConfigValue::Gain(self.spin_p),
            ConfigKey::SpinI => ConfigValue::Gain(self.spin_i),
            ConfigKey::SpinD => ConfigValue::Gain(self.spin_d),
            ConfigKey::SpinErr => ConfigValue::Number(self.spin_err as i64),
            ConfigKey::SpinSettle => ConfigValue::Number(self.spin_settle as i64),
            ConfigKey::LinearP => ConfigValue::Gain(self.linear_p),
            ConfigKey::LinearI => ConfigValue::Gain(self.linear_i),
            ConfigKey::LinearD => ConfigValue::Gain(self.linear_d),
            ConfigKey::LinearSpinP => ConfigValue::Gain(self.linear_spin_p),
            ConfigKey::LinearSpinI => ConfigValue::Gain(self.linear_spin_i),
            ConfigKey::LinearSpinD => ConfigValue::Gain(self.linear_spin_d),
            ConfigKey::LinearSpinPosP => ConfigValue::Number(self.linear_spin_pos_p as i64),
            ConfigKey::LinearErr => ConfigValue::Number(self.linear_err as i64),
            ConfigKey::LinearFrontErr => ConfigValue::Number(self.linear_front_err as i64),
            ConfigKey::LinearSettle => ConfigValue::Number(self.linear_settle as i64),
            ConfigKey::TicksPerSpin => ConfigValue::Number(self.ticks_per_spin as i64),
            ConfigKey::TicksPerCell => ConfigValue::Number(self.ticks_per_cell as i64),
            ConfigKey::CellWidth => ConfigValue::Number(self.cell_width as i64),
            ConfigKey::CellOffset => ConfigValue::Number(self.cell_offset as i64),
            ConfigKey::FrontWallDistance => ConfigValue::Number(self.front_wall_distance as i64),
            ConfigKey::WallThreshold => ConfigValue::Number(self.wall_threshold as i64),
        }
    }

    /// Sets parameter `key` to `v` if the parameter accepts it: a gain takes
    /// the bits of a gain, a number takes a number in its range.
    /// Otherwise nothing changes, and the answer is `false`.
    pub fn set(&mut self, key: ConfigKey, v: ConfigValue) -> (done: bool)
        ensures
            done == key.accepts(v),
            done ==> final(self).value(key) == v,
            forall|k: ConfigKey| k != key || !done ==> #[trigger] final(self).value(k) == old(
                self,
            ).value(k),
    {
        match v {
            ConfigValue::Gain(g) => {
                match key {
                    ConfigKey::LeftP => self.left_p = g,
                    ConfigKey::LeftI => self.left_i = g,
                    ConfigKey::LeftD => self.left_d = g,
                    ConfigKey::RightP => self.right_p = g,
                    ConfigKey::RightI => self.right_i = g,
                    ConfigKey::RightD => self.right_d = g,
                    ConfigKey::SpinP => self.spin_p = g,
                    ConfigKey::SpinI => self.spin_i = g,
                    ConfigKey::SpinD => self.spin_d = g,
                    ConfigKey::LinearP => self.linear_p = g,
                    ConfigKey::LinearI => self.linear_i = g,
                    ConfigKey::LinearD => self.linear_d = g,
                    ConfigKey::LinearSpinP => self.linear_spin_p = g,
                    ConfigKey::LinearSpinI => self.linear_spin_i = g,
                    ConfigKey::LinearSpinD => self.linear_spin_d = g,
                    _ => {
                        return false;
                    },
                }
                true
            },
            ConfigValue::Number(n) => {
                let unsigned = 0 <= n && n <= u32::MAX as i64;
                let signed = i32::MIN as i64 <= n && n <= i32::MAX as i64;
                match key {
                    ConfigKey::SpinErr => {
                        if !unsigned {
                            return false;
                        }
                        self.spin_err = n as u32;
                    },
                    ConfigKey::LinearErr => {
                        if !unsigned {
                            return false;
                        }
                        self.linear_err = n as u32;
                    },
                    ConfigKey::LinearFrontErr => {
                        if !unsigned {
                            return false;
                        }
                        self.linear_front_err = n as u32;
                    },
                    ConfigKey::CellWidth => {
                        if !unsigned {
                            return false;
                        }
                        self.cell_width = n as u32;
                    },
                    ConfigKey::CellOffset => {
                        if !unsigned {
                            return false;
                        }
                        self.cell_offset = n as u32;
                    },
                    ConfigKey::FrontWallDistance => {
                        if !unsigned {
                            return false;
                        }
                        self.front_wall_distance = n as u32;
                    },
                    ConfigKey::WallThreshold => {
                        if !unsigned {
                            return false;
                        }
                        self.wall_threshold = n as u32;
                    },
                    ConfigKey::SpinSettle => {
                        if !unsigned {
                            return false;
                        }
                        self.spin_settle = n as u32;
                    },
                    ConfigKey::LinearSettle => {
                        if !unsigned {
                            return false;
                        }
                        self.linear_settle = n as u32;
                    },
                    ConfigKey::TicksPerSpin => {
                        if !unsigned {
                            return false;
                        }
                        self.ticks_per_spin = n as u32;
                    },
                    ConfigKey::LinearSpinPosP => {
                        if !signed {
                            return false;
                        }
                        self.linear_spin_pos_p = n as i32;
                    },
                    ConfigKey::TicksPerCell => {
                        if !signed {
                            return false;
                        }
                        self.ticks_per_cell = n as i32;
                    },
                    _ => {
                        return false;
                    },
                }
                true
            },
        }
    }
}

} // verus!
