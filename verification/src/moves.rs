//! Discrete moves, wall options and compass headings shared by the planner
//! and the navigation strategies.

use vstd::prelude::*;

verus! {

/// One discrete step that the move executor can carry out.
#[derive(Clone, Copy, Debug, PartialEq, Eq, Structural)]
pub enum Move {
    TurnLeft,
    TurnRight,
    TurnAround,
    Forward,
}

/// Which of the three neighbouring cells can be entered: `true` means that
/// no wall was sensed on that side.
#[derive(Clone, Copy, Debug, PartialEq, Eq, Structural)]
pub struct MoveOptions {
    pub forward: bool,
    pub left: bool,
    pub right: bool,
}

/// Heading of the robot on the grid. `Up` is the direction of growing `y`,
/// `Right` the direction of growing `x`.
#[derive(Clone, Copy, Debug, PartialEq, Eq, Structural)]
pub enum Direction {
    Up,
    Down,
    Left,
    Right,
}

impl Direction {
    /// The heading after a quarter turn counter-clockwise.
    pub open spec fn left_of(self) -> Direction {
        match self {
            Direction::Up => Direction::Left,
            Direction::Left => Direction::Down,
            Direction::Down => Direction::Right,
            Direction::Right => Direction::Up,
        }
    }

    /// The heading after a quarter turn clockwise.
    pub open spec fn right_of(self) -> Direction {
        match self {
            Direction::Up => Direction::Right,
            Direction::Right => Direction::Down,
            Direction::Down => Direction::Left,
            Direction::Left => Direction::Up,
        }
    }

    /// The opposite heading.
    pub open spec fn opposite(self) -> Direction {
        match self {
            Direction::Up => Direction::Down,
            Direction::Down => Direction::Up,
            Direction::Left => Direction::Right,
            Direction::Right => Direction::Left,
        }
    }

    /// Change of `x` when advancing one cell with this heading.
    pub open spec fn dx(self) -> int {
        match self {
            Direction::Left => -1,
            Direction::Right => 1,
            _ => 0,
        }
    }

    /// Change of `y` when advancing one cell with this heading.
    pub open spec fn dy(self) -> int {
        match self {
            Direction::Up => 1,
            Direction::Down => -1,
            _ => 0,
        }
    }

    /// The heading after a quarter turn counter-clockwise.
    #[verifier::when_used_as_spec(left_of)]
    pub fn turn_left(self) -> (r: Direction)
        ensures
            r == self.left_of(),
    {
        match self {
            Direction::Up => Direction::Left,
            Direction::Left => Direction::Down,
            Direction::Down => Direction::Right,
            Direction::Right => Direction::Up,
        }
    }

    /// The heading after a quarter turn clockwise.
    #[verifier::when_used_as_spec(right_of)]
    pub fn turn_right(self) -> (r: Direction)
        ensures
            r == self.right_of(),
    {
        match self {
            Direction::Up => Direction::Right,
            Direction::Right => Direction::Down,
            Direction::Down => Direction::Left,
            Direction::Left => Direction::Up,
        }
    }

    /// The heading after a half turn.
    #[verifier::when_used_as_spec(opposite)]
    pub fn turn_around(self) -> (r: Direction)
        ensures
            r == self.opposite(),
    {
        self.turn_right().turn_right()
    }

    /// The unit step `(dx, dy)` of this heading.
    pub fn step(self) -> (r: (i32, i32))
        ensures
            r.0 == self.dx(),
            r.1 == self.dy(),
    {
        match self {
            Direction::Up => (0, 1),
            Direction::Down => (0, -1),
            Direction::Left => (-1, 0),
            Direction::Right => (1, 0),
        }
    }
}

/// Four quarter turns to one side bring the heading back, a left turn undoes
/// a right turn, and turning around is two quarter turns either way.
pub proof fn lemma_turns(d: Direction)
    ensures
        d.left_of().right_of() == d,
        d.right_of().left_of() == d,
        d.left_of().left_of() == d.opposite(),
        d.right_of().right_of() == d.opposite(),
        d.opposite().opposite() == d,
        d.left_of().left_of().left_of().left_of() == d,
        d.right_of().right_of().right_of().right_of() == d,
{
}

} // verus!
