//! Navigation strategies: given the robot's cell, heading and the walls it
//! senses, each strategy answers with the next one or two moves.

use vstd::prelude::*;
use crate::grid::BLOCKED;
use crate::moves::{Direction, Move, MoveOptions};

verus! {

/// A side of the robot on which it can leave its cell without turning
/// around.
#[derive(Clone, Copy, Debug, PartialEq, Eq, Structural)]
pub enum Side {
    Front,
    Left,
    Right,
}

/// The order in which the three sides are tried.
#[derive(Clone, Copy, Debug, PartialEq, Eq, Structural)]
pub enum Priority {
    FrontLeftRight,
    FrontRightLeft,
    LeftFrontRight,
    RightFrontLeft,
}

/// The values of the four cells around the robot, named by the side of the
/// robot on which they lie.
#[derive(Clone, Copy, Debug, PartialEq, Eq, Structural)]
pub struct Sight {
    pub front: u8,
    pub left: u8,
    pub right: u8,
    pub rear: u8,
}

/// Advance one cell.
pub open spec fn forward_moves() -> Seq<Option<Move>> {
    seq![Some(Move::Forward), None]
}

/// Turn left, then advance one cell.
pub open spec fn left_moves() -> Seq<Option<Move>> {
    seq![Some(Move::TurnLeft), Some(Move::Forward)]
}

/// Turn right, then advance one cell.
pub open spec fn right_moves() -> Seq<Option<Move>> {
    seq![Some(Move::TurnRight), Some(Move::Forward)]
}

/// Turn around, then advance one cell.
pub open spec fn back_moves() -> Seq<Option<Move>> {
    seq![Some(Move::TurnAround), Some(Move::Forward)]
}

/// The answer of the grid strategies once the goal is reached: spin on the
/// spot.
pub open spec fn goal_moves() -> Seq<Option<Move>> {
    seq![Some(Move::TurnLeft), Some(Move::TurnLeft)]
}

/// The moves that take the robot into the cell on side `s`.
pub open spec fn moves_toward(s: Side) -> Seq<Option<Move>> {
    match s {
        Side::Front => forward_moves(),
        Side::Left => left_moves(),
        Side::Right => right_moves(),
    }
}

impl MoveOptions {
    /// Whether no wall was sensed on side `s`.
    pub open spec fn allows(self, s: Side) -> bool {
        match s {
            Side::Front => self.forward,
            Side::Left => self.left,
            Side::Right => self.right,
        }
    }
}

impl Priority {
    /// The side tried first.
    pub open spec fn first(self) -> Side {
        match self {
            Priority::FrontLeftRight => Side::Front,
            Priority::FrontRightLeft => Side::Front,
            Priority::LeftFrontRight => Side::Left,
            Priority::RightFrontLeft => Side::Right,
        }
    }

    /// The side tried second.
    pub open spec fn second(self) -> Side {
        match self {
            Priority::FrontLeftRight => Side::Left,
            Priority::FrontRightLeft => Side::Right,
            Priority::LeftFrontRight => Side::Front,
            Priority::RightFrontLeft => Side::Front,
        }
    }

    /// The side tried last.
    pub open spec fn third(self) -> Side {
        match self {
            Priority::FrontLeftRight => Side::Right,
            Priority::FrontRightLeft => Side::Left,
            Priority::LeftFrontRight => Side::Right,
            Priority::RightFrontLeft => Side::Left,
        }
    }

    fn sides(self) -> (r: (Side, Side, Side))
        ensures
            r.0 == self.first(),
            r.1 == self.second(),
            r.2 == self.third(),
    {
        match self {
            Priority::FrontLeftRight => (Side::Front, Side::Left, Side::Right),
            Priority::FrontRightLeft => (Side::Front, Side::Right, Side::Left),
            Priority::LeftFrontRight => (Side::Left, Side::Front, Side::Right),
            Priority::RightFrontLeft => (Side::Right, Side::Front, Side::Left),
        }
    }
}

impl Sight {
    /// The value of the cell on side `s`.
    pub open spec fn value(self, s: Side) -> u8 {
        match s {
            Side::Front => self.front,
            Side::Left => self.left,
            Side::Right => self.right,
        }
    }

    /// Whether the cell on side `s` can be entered and no cell that can be
    /// entered has a lower value.
    pub open spec fn is_best(self, o: MoveOptions, s: Side) -> bool {
        &&& o.allows(s)
        &&& o.forward ==> self.value(s) <= self.front
        &&& o.left ==> self.value(s) <= self.left
        &&& o.right ==> self.value(s) <= self.right
    }

    /// How many of the four sides are closed: by a wall, by the edge of the
    /// grid or by a cell marked `BLOCKED`. Behind the robot there is never a
    /// wall, since it came from there.
    pub open spec fn closed_sides(self, o: MoveOptions) -> int {
        (if self.front == BLOCKED || !o.forward { 1int } else { 0 })
        + (if self.left == BLOCKED || !o.left { 1int } else { 0 })
        + (if self.right == BLOCKED || !o.right { 1int } else { 0 })
        + (if self.rear == BLOCKED { 1int } else { 0 })
    }

    /// The robot stands in a dead end: only one side is left to go.
    pub open spec fn in_dead_end(self, o: MoveOptions) -> bool {
        self.closed_sides(o) == 3
    }

    fn get(&self, s: Side) -> (v: u8)
        ensures
            v == self.value(s),
    {
        match s {
            Side::Front => self.front,
            Side::Left => self.left,
            Side::Right => self.right,
        }
    }

    fn best(&self, o: MoveOptions, s: Side) -> (b: bool)
        ensures
            b == self.is_best(o, s),
    {
        let v = self.get(s);
        allowed(o, s) && (!o.forward || v <= self.front) && (!o.left || v <= self.left) && (
        !o.right || v <= self.right)
    }

    /// Whether the robot stands in a dead end.
    pub fn dead_end(&self, o: MoveOptions) -> (b: bool)
        ensures
            b == self.in_dead_end(o),
    {
        let mut n: u8 = 0;
        if self.front == BLOCKED || !o.forward {
            n = n + 1;
        }
        if self.left == BLOCKED || !o.left {
            n = n + 1;
        }
        if self.right == BLOCKED || !o.right {
            n = n + 1;
        }
        if self.rear == BLOCKED {
            n = n + 1;
        }
        n == 3
    }
}

fn allowed(o: MoveOptions, s: Side) -> (b: bool)
    ensures
        b == o.allows(s),
{
    match s {
        Side::Front => o.forward,
        Side::Left => o.left,
        Side::Right => o.right,
    }
}

/// The first side, in the order `p`, whose cell can be entered and has the
/// lowest value among those that can; an about-turn if no side is open.
pub open spec fn lowest_first(p: Priority, o: MoveOptions, s: Sight) -> Seq<Option<Move>> {
    if s.is_best(o, p.first()) {
        moves_toward(p.first())
    } else if s.is_best(o, p.second()) {
        moves_toward(p.second())
    } else if s.is_best(o, p.third()) {
        moves_toward(p.third())
    } else {
        back_moves()
    }
}

/// The first of front, left, right whose cell can be entered and is not
/// marked `BLOCKED`; an about-turn if there is none.
pub open spec fn live_first(o: MoveOptions, s: Sight) -> Seq<Option<Move>> {
    if o.forward && s.front != BLOCKED {
        forward_moves()
    } else if o.left && s.left != BLOCKED {
        left_moves()
    } else if o.right && s.right != BLOCKED {
        right_moves()
    } else {
        back_moves()
    }
}

/// The first open side in the order left, front, right; an about-turn if
/// all three are walled.
pub open spec fn left_first(o: MoveOptions) -> Seq<Option<Move>> {
    if o.left {
        left_moves()
    } else if o.forward {
        forward_moves()
    } else if o.right {
        right_moves()
    } else {
        back_moves()
    }
}

/// The moves of [`forward_moves`].
pub fn forward() -> (m: [Option<Move>; 2])
    ensures
        m@ == forward_moves(),
{
    let m = [Some(Move::Forward), None];
    assert(m@ =~= forward_moves());
    m
}

/// The moves of [`left_moves`].
pub fn turn_left() -> (m: [Option<Move>; 2])
    ensures
        m@ == left_moves(),
{
    let m = [Some(Move::TurnLeft), Some(Move::Forward)];
    assert(m@ =~= left_moves());
    m
}

/// The moves of [`right_moves`].
pub fn turn_right() -> (m: [Option<Move>; 2])
    ensures
        m@ == right_moves(),
{
    let m = [Some(Move::TurnRight), Some(Move::Forward)];
    assert(m@ =~= right_moves());
    m
}

/// The moves of [`back_moves`].
pub fn turn_back() -> (m: [Option<Move>; 2])
    ensures
        m@ == back_moves(),
{
    let m = [Some(Move::TurnAround), Some(Move::Forward)];
    assert(m@ =~= back_moves());
    m
}

/// The moves of [`goal_moves`].
pub fn celebrate() -> (m: [Option<Move>; 2])
    ensures
        m@ == goal_moves(),
{
    let m = [Some(Move::TurnLeft), Some(Move::TurnLeft)];
    assert(m@ =~= goal_moves());
    m
}

fn go(s: Side) -> (m: [Option<Move>; 2])
    ensures
        m@ == moves_toward(s),
{
    match s {
        Side::Front => forward(),
        Side::Left => turn_left(),
        Side::Right => turn_right(),
    }
}

/// Picks the moves by cell value: see [`lowest_first`].
pub fn choose_lowest(p: Priority, o: MoveOptions, s: Sight) -> (m: [Option<Move>; 2])
    ensures
        m@ == lowest_first(p, o, s),
{
    let (a, b, c) = p.sides();
    if s.best(o, a) {
        go(a)
    } else if s.best(o, b) {
        go(b)
    } else if s.best(o, c) {
        go(c)
    } else {
        turn_back()
    }
}

/// Picks the moves among cells that are not dead ends: see [`live_first`].
pub fn choose_live(o: MoveOptions, s: Sight) -> (m: [Option<Move>; 2])
    ensures
        m@ == live_first(o, s),
{
    if o.forward && s.front != BLOCKED {
        forward()
    } else if o.left && s.left != BLOCKED {
        turn_left()
    } else if o.right && s.right != BLOCKED {
        turn_right()
    } else {
        turn_back()
    }
}

/// A strategy that picks the robot's next moves. `decides` is its rule: the
/// relation between the strategy before the call, the position, heading and
/// walls it is asked about, the strategy after the call and the moves it
/// answered with. A strategy that states no rule promises nothing of its
/// answers.
pub trait Navigate {
    open spec fn decides(
        &self,
        next: &Self,
        x: int,
        y: int,
        d: Direction,
        o: MoveOptions,
        moves: Seq<Option<Move>>,
    ) -> bool {
        true
    }

    fn navigate(&mut self, x: i32, y: i32, d: Direction, move_options: MoveOptions) -> (moves: [Option<
        Move,
    >; 2])
        ensures
            old(self).decides(final(self), x as int, y as int, d, move_options, moves@),
    ;
}

/// Whenever at least one side is open, the side that `lowest_first` picks is
/// open, and no open side has a cell of lower value; with all three sides
/// walled the answer is the about-turn.
pub proof fn lemma_lowest_first(p: Priority, o: MoveOptions, s: Sight)
    ensures
        !o.forward && !o.left && !o.right ==> lowest_first(p, o, s) == back_moves(),
        o.forward || o.left || o.right ==> exists|side: Side|
            s.is_best(o, side) && lowest_first(p, o, s) == moves_toward(side),
{
    if o.forward || o.left || o.right {
        let side = if s.is_best(o, p.first()) {
            p.first()
        } else if s.is_best(o, p.second()) {
            p.second()
        } else {
            p.third()
        };
        assert(s.is_best(o, side) && lowest_first(p, o, s) == moves_toward(side));
    }
}

} // verus!
