//! The tags of the telemetry protocol: one byte that names a message and
//! fixes the shape of its payload.

use vstd::prelude::*;

verus! {

/// The number of messages that have a name.
pub const MSG_COUNT: usize = 32;

/// The name of a message.
#[derive(Clone, Copy, Debug, PartialEq, Eq, Hash, Structural)]
pub enum MsgId {
    Time,
    Logged,
    Provided,
    LeftPos,
    RightPos,
    LeftPower,
    RightPower,
    Battery,
    LeftDistance,
    RightDistance,
    FrontDistance,
    LinearPos,
    AngularPos,
    LinearPower,
    AngularPower,
    LinearSet,
    AngularSet,
    AddLinear,
    AddAngular,
    LinearTarget,
    AngularTarget,
    LinearBuffer,
    AngularBuffer,
    LinearP,
    LinearI,
    LinearD,
    LinearAcc,
    AngularP,
    AngularI,
    AngularD,
    AngularAcc,
    At,
}

/// The shape of a message's payload.
#[derive(Clone, Copy, Debug, PartialEq, Eq, Structural)]
pub enum Kind {
    /// One 32-bit value, least significant byte first.
    Scalar,
    /// One byte.
    Byte,
    /// A velocity and a distance, 32 bits each.
    Pair,
    /// A count byte and that many tags.
    Ids,
    /// A count byte and that many velocity and distance pairs.
    Targets,
    /// A line of text that ends in a line feed; the tag is its first
    /// character.
    Line,
}

impl MsgId {
    /// The byte that stands for this message on the wire.
    pub open spec fn tag(self) -> u8 {
        match self {
            MsgId::Time => 0x00,
            MsgId::Logged => 0x01,
            MsgId::Provided => 0x02,
            MsgId::LeftPos => 0x10,
            MsgId::RightPos => 0x11,
            MsgId::LeftPower => 0x12,
            MsgId::RightPower => 0x13,
            MsgId::Battery => 0x14,
            MsgId::LeftDistance => 0x15,
            MsgId::RightDistance => 0x16,
            MsgId::FrontDistance => 0x17,
            MsgId::LinearPos => 0x20,
            MsgId::AngularPos => 0x21,
            MsgId::LinearPower => 0x22,
            MsgId::AngularPower => 0x23,
            MsgId::LinearSet => 0x24,
            MsgId::AngularSet => 0x25,
            MsgId::AddLinear => 0x26,
            MsgId::AddAngular => 0x27,
            MsgId::LinearTarget => 0x28,
            MsgId::AngularTarget => 0x29,
            MsgId::LinearBuffer => 0x2a,
            MsgId::AngularBuffer => 0x2c,
            MsgId::LinearP => 0xa0,
            MsgId::LinearI => 0xa1,
            MsgId::LinearD => 0xa2,
            MsgId::LinearAcc => 0xa3,
            MsgId::AngularP => 0xa4,
            MsgId::AngularI => 0xa5,
            MsgId::AngularD => 0xa6,
            MsgId::AngularAcc => 0xa7,
            MsgId::At => 0x2b,
        }
    }

    /// The message that byte `b` stands for, if it stands for one.
    pub open spec fn of_tag(b: u8) -> Option<MsgId> {
        match b {
            0x00 => Some(MsgId::Time),
            0x01 => Some(MsgId::Logged),
            0x02 => Some(MsgId::Provided),
            0x10 => Some(MsgId::LeftPos),
            0x11 => Some(MsgId::RightPos),
            0x12 => Some(MsgId::LeftPower),
            0x13 => Some(MsgId::RightPower),
            0x14 => Some(MsgId::Battery),
            0x15 => Some(MsgId::LeftDistance),
            0x16 => Some(MsgId::RightDistance),
            0x17 => Some(MsgId::FrontDistance),
            0x20 => Some(MsgId::LinearPos),
            0x21 => Some(MsgId::AngularPos),
            0x22 => Some(MsgId::LinearPower),
            0x23 => Some(MsgId::AngularPower),
            0x24 => Some(MsgId::LinearSet),
            0x25 => Some(MsgId::AngularSet),
            0x26 => Some(MsgId::AddLinear),
            0x27 => Some(MsgId::AddAngular),
            0x28 => Some(MsgId::LinearTarget),
            0x29 => Some(MsgId::AngularTarget),
            0x2a => Some(MsgId::LinearBuffer),
            0x2c => Some(MsgId::AngularBuffer),
            0xa0 => Some(MsgId::LinearP),
            0xa1 => Some(MsgId::LinearI),
            0xa2 => Some(MsgId::LinearD),
            0xa3 => Some(MsgId::LinearAcc),
            0xa4 => Some(MsgId::AngularP),
            0xa5 => Some(MsgId::AngularI),
            0xa6 => Some(MsgId::AngularD),
            0xa7 => Some(MsgId::AngularAcc),
            0x2b => Some(MsgId::At),
            _ => None,
        }
    }

    /// The shape of this message's payload.
    pub open spec fn kind(self) -> Kind {
        match self {
            MsgId::LeftDistance | MsgId::RightDistance | MsgId::FrontDistance => Kind::Byte,
            MsgId::AddLinear | MsgId::AddAngular | MsgId::LinearTarget | MsgId::AngularTarget => Kind::Pair,
            MsgId::Logged | MsgId::Provided => Kind::Ids,
            MsgId::LinearBuffer | MsgId::AngularBuffer => Kind::Targets,
            MsgId::At => Kind::Line,
            _ => Kind::Scalar,
        }
    }

    /// The byte that stands for this message on the wire.
    pub fn to_u8(self) -> (b: u8)
        ensures
            b == self.tag(),
    {
        match self {
            MsgId::Time => 0x00,
            MsgId::Logged => 0x01,
            MsgId::Provided => 0x02,
            MsgId::LeftPos => 0x10,
            MsgId::RightPos => 0x11,
            MsgId::LeftPower => 0x12,
            MsgId::RightPower => 0x13,
            MsgId::Battery => 0x14,
            MsgId::LeftDistance => 0x15,
            MsgId::RightDistance => 0x16,
            MsgId::FrontDistance => 0x17,
            MsgId::LinearPos => 0x20,
            MsgId::AngularPos => 0x21,
            MsgId::LinearPower => 0x22,
            MsgId::AngularPower => 0x23,
            MsgId::LinearSet => 0x24,
            MsgId::AngularSet => 0x25,
            MsgId::AddLinear => 0x26,
            MsgId::AddAngular => 0x27,
            MsgId::LinearTarget => 0x28,
            MsgId::AngularTarget => 0x29,
            MsgId::LinearBuffer => 0x2a,
            MsgId::AngularBuffer => 0x2c,
            MsgId::LinearP => 0xa0,
            MsgId::LinearI => 0xa1,
            MsgId::LinearD => 0xa2,
            MsgId::LinearAcc => 0xa3,
            MsgId::AngularP => 0xa4,
            MsgId::AngularI => 0xa5,
            MsgId::AngularD => 0xa6,
            MsgId::AngularAcc => 0xa7,
            MsgId::At => 0x2b,
        }
    }

    /// The message that byte `b` stands for, if it stands for one.
    pub fn from_u8(b: u8) -> (id: Option<MsgId>)
        ensures
            id == MsgId::of_tag(b),
    {
        match b {
            0x00 => Some(MsgId::Time),
            0x01 => Some(MsgId::Logged),
            0x02 => Some(MsgId::Provided),
            0x10 => Some(MsgId::LeftPos),
            0x11 => Some(MsgId::RightPos),
            0x12 => Some(MsgId::LeftPower),
            0x13 => Some(MsgId::RightPower),
            0x14 => Some(MsgId::Battery),
            0x15 => Some(MsgId::LeftDistance),
            0x16 => Some(MsgId::RightDistance),
            0x17 => Some(MsgId::FrontDistance),
            0x20 => Some(MsgId::LinearPos),
            0x21 => Some(MsgId::AngularPos),
            0x22 => Some(MsgId::LinearPower),
            0x23 => Some(MsgId::AngularPower),
            0x24 => Some(MsgId::LinearSet),
            0x25 => Some(MsgId::AngularSet),
            0x26 => Some(MsgId::AddLinear),
            0x27 => Some(MsgId::AddAngular),
            0x28 => Some(MsgId::LinearTarget),
            0x29 => Some(MsgId::AngularTarget),
            0x2a => Some(MsgId::LinearBuffer),
            0x2c => Some(MsgId::AngularBuffer),
            0xa0 => Some(MsgId::LinearP),
            0xa1 => Some(MsgId::LinearI),
            0xa2 => Some(MsgId::LinearD),
            0xa3 => Some(MsgId::LinearAcc),
            0xa4 => Some(MsgId::AngularP),
            0xa5 => Some(MsgId::AngularI),
            0xa6 => Some(MsgId::AngularD),
            0xa7 => Some(MsgId::AngularAcc),
            0x2b => Some(MsgId::At),
            _ => None,
        }
    }

    /// The place of this message in the list of all messages, counted from
    /// zero.
    pub open spec fn ordinal(self) -> int {
        match self {
            MsgId::Time => 0,
            MsgId::Logged => 1,
            MsgId::Provided => 2,
            MsgId::LeftPos => 3,
            MsgId::RightPos => 4,
            MsgId::LeftPower => 5,
            MsgId::RightPower => 6,
            MsgId::Battery => 7,
            MsgId::LeftDistance => 8,
            MsgId::RightDistance => 9,
            MsgId::FrontDistance => 10,
            MsgId::LinearPos => 11,
            MsgId::AngularPos => 12,
            MsgId::LinearPower => 13,
            MsgId::AngularPower => 14,
            MsgId::LinearSet => 15,
            MsgId::AngularSet => 16,
            MsgId::AddLinear => 17,
            MsgId::AddAngular => 18,
            MsgId::LinearTarget => 19,
            MsgId::AngularTarget => 20,
            MsgId::LinearBuffer => 21,
            MsgId::AngularBuffer => 22,
            MsgId::LinearP => 23,
            MsgId::LinearI => 24,
            MsgId::LinearD => 25,
            MsgId::LinearAcc => 26,
            MsgId::AngularP => 27,
            MsgId::AngularI => 28,
            MsgId::AngularD => 29,
            MsgId::AngularAcc => 30,
            MsgId::At => 31,
        }
    }

    /// The place of this message in the list of all messages.
    pub fn index(self) -> (i: usize)
        ensures
            i == self.ordinal(),
            i < MSG_COUNT,
    {
        match self {
            MsgId::Time => 0,
            MsgId::Logged => 1,
            MsgId::Provided => 2,
            MsgId::LeftPos => 3,
            MsgId::RightPos => 4,
            MsgId::LeftPower => 5,
            MsgId::RightPower => 6,
            MsgId::Battery => 7,
            MsgId::LeftDistance => 8,
            MsgId::RightDistance => 9,
            MsgId::FrontDistance => 10,
            MsgId::LinearPos => 11,
            MsgId::AngularPos => 12,
            MsgId::LinearPower => 13,
            MsgId::AngularPower => 14,
            MsgId::LinearSet => 15,
            MsgId::AngularSet => 16,
            MsgId::AddLinear => 17,
            MsgId::AddAngular => 18,
            MsgId::LinearTarget => 19,
            MsgId::AngularTarget => 20,
            MsgId::LinearBuffer => 21,
            MsgId::AngularBuffer => 22,
            MsgId::LinearP => 23,
            MsgId::LinearI => 24,
            MsgId::LinearD => 25,
            MsgId::LinearAcc => 26,
            MsgId::AngularP => 27,
            MsgId::AngularI => 28,
            MsgId::AngularD => 29,
            MsgId::AngularAcc => 30,
            MsgId::At => 31,
        }
    }

    /// The message at place `i` in the list of all messages.
    pub open spec fn nth(i: int) -> MsgId {
        if i == 0 {
            MsgId::Time
        } else if i == 1 {
            MsgId::Logged
        } else if i == 2 {
            MsgId::Provided
        } else if i == 3 {
            MsgId::LeftPos
        } else if i == 4 {
            MsgId::RightPos
        } else if i == 5 {
            MsgId::LeftPower
        } else if i == 6 {
            MsgId::RightPower
        } else if i == 7 {
            MsgId::Battery
        } else if i == 8 {
            MsgId::LeftDistance
        } else if i == 9 {
            MsgId::RightDistance
        } else if i == 10 {
            MsgId::FrontDistance
        } else if i == 11 {
            MsgId::LinearPos
        } else if i == 12 {
            MsgId::AngularPos
        } else if i == 13 {
            MsgId::LinearPower
        } else if i == 14 {
            MsgId::AngularPower
        } else if i == 15 {
            MsgId::LinearSet
        } else if i == 16 {
            MsgId::AngularSet
        } else if i == 17 {
            MsgId::AddLinear
        } else if i == 18 {
            MsgId::AddAngular
        } else if i == 19 {
            MsgId::LinearTarget
        } else if i == 20 {
            MsgId::AngularTarget
        } else if i == 21 {
            MsgId::LinearBuffer
        } else if i == 22 {
            MsgId::AngularBuffer
        } else if i == 23 {
            MsgId::LinearP
        } else if i == 24 {
            MsgId::LinearI
        } else if i == 25 {
            MsgId::LinearD
        } else if i == 26 {
            MsgId::LinearAcc
        } else if i == 27 {
            MsgId::AngularP
        } else if i == 28 {
            MsgId::AngularI
        } else if i == 29 {
            MsgId::AngularD
        } else if i == 30 {
            MsgId::AngularAcc
        } else {
            MsgId::At
        }
    }

    /// The message at place `i` in the list of all messages.
    pub fn from_index(i: usize) -> (id: MsgId)
        requires
            i < MSG_COUNT,
        ensures
            id == MsgId::nth(i as int),
            id.ordinal() == i,
    {
        if i == 0 {
            MsgId::Time
        } else if i == 1 {
            MsgId::Logged
        } else if i == 2 {
            MsgId::Provided
        } else if i == 3 {
            MsgId::LeftPos
        } else if i == 4 {
            MsgId::RightPos
        } else if i == 5 {
            MsgId::LeftPower
        } else if i == 6 {
            MsgId::RightPower
        } else if i == 7 {
            MsgId::Battery
        } else if i == 8 {
            MsgId::LeftDistance
        } else if i == 9 {
            MsgId::RightDistance
        } else if i == 10 {
            MsgId::FrontDistance
        } else if i == 11 {
            MsgId::LinearPos
        } else if i == 12 {
            MsgId::AngularPos
        } else if i == 13 {
            MsgId::LinearPower
        } else if i == 14 {
            MsgId::AngularPower
        } else if i == 15 {
            MsgId::LinearSet
        } else if i == 16 {
            MsgId::AngularSet
        } else if i == 17 {
            MsgId::AddLinear
        } else if i == 18 {
            MsgId::AddAngular
        } else if i == 19 {
            MsgId::LinearTarget
        } else if i == 20 {
            MsgId::AngularTarget
        } else if i == 21 {
            MsgId::LinearBuffer
        } else if i == 22 {
            MsgId::AngularBuffer
        } else if i == 23 {
            MsgId::LinearP
        } else if i == 24 {
            MsgId::LinearI
        } else if i == 25 {
            MsgId::LinearD
        } else if i == 26 {
            MsgId::LinearAcc
        } else if i == 27 {
            MsgId::AngularP
        } else if i == 28 {
            MsgId::AngularI
        } else if i == 29 {
            MsgId::AngularD
        } else if i == 30 {
            MsgId::AngularAcc
        } else {
            MsgId::At
        }
    }

    /// The shape of this message's payload.
    pub fn payload_kind(self) -> (k: Kind)
        ensures
            k == self.kind(),
    {
        match self {
            MsgId::LeftDistance | MsgId::RightDistance | MsgId::FrontDistance => Kind::Byte,
            MsgId::AddLinear | MsgId::AddAngular | MsgId::LinearTarget | MsgId::AngularTarget => Kind::Pair,
            MsgId::Logged | MsgId::Provided => Kind::Ids,
            MsgId::LinearBuffer | MsgId::AngularBuffer => Kind::Targets,
            MsgId::At => Kind::Line,
            _ => Kind::Scalar,
        }
    }
}

/// No two messages share a place in the list of all messages.
pub proof fn lemma_ordinals(a: MsgId, b: MsgId)
    ensures
        0 <= a.ordinal() < MSG_COUNT,
        a.ordinal() == b.ordinal() ==> a == b,
        MsgId::nth(a.ordinal()) == a,
{
}

/// Every message has a tag of its own: the tag of a message stands for that
/// message, and a byte that stands for a message is that message's tag.
pub proof fn lemma_tags(id: MsgId, b: u8)
    ensures
        MsgId::of_tag(id.tag()) == Some(id),
        MsgId::of_tag(b) == Some(id) ==> id.tag() == b,
{
}

} // verus!
