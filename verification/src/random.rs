//! The strategies that carry a seeded pseudo-random generator.

use vstd::prelude::*;
use rand::rngs::SmallRng;
use rand::Rng;
use rand::SeedableRng;
use crate::grid::{Fill, Grid};
use crate::moves::{Direction, Move, MoveOptions};
use crate::navigate::{
    back_moves, choose_lowest, forward, forward_moves, left_moves, lowest_first, moves_toward,
    right_moves, turn_back, turn_left, turn_right, Navigate, Priority, Side,
};
use crate::strategies::{explore, home_after, seen, Choice, Rule};

verus! {

/// The generator of the `rand` crate that the strategies draw from. Verus
/// sees nothing of its state.
#[verifier::external_type_specification]
#[verifier::external_body]
pub struct ExSmallRng(SmallRng);

/// Side length of the small practice maze.
pub const PRACTICE_SIZE: u8 = 3;

/// `SmallRng::from_seed`: a generator whose output depends on the seed
/// alone. Nothing is claimed of the generator.
#[verifier::external_body]
fn seeded(seed: [u8; 16]) -> (rng: SmallRng) {
    SmallRng::from_seed(seed)
}

/// `Rng::gen_range(0, n)` on a `SmallRng`: some number from 0 up to, but
/// not including, `n`. The call panics unless `0 < n`.
#[verifier::external_body]
fn draw(rng: &mut SmallRng, n: i32) -> (r: i32)
    requires
        0 < n,
    ensures
        0 <= r < n,
{
    rng.gen_range(0, n)
}

/// How many sides are open.
pub open spec fn ways(o: MoveOptions) -> int {
    (if o.left { 1int } else { 0 }) + (if o.forward { 1int } else { 0 }) + (if o.right { 1int } else { 0 })
}

/// The moves for draw `r` among the open sides, counted in the order left,
/// right, front; the last open side also stands for every draw beyond the
/// number of open sides. With no side open the answer is the about-turn.
pub open spec fn drawn_moves(o: MoveOptions, r: int) -> Seq<Option<Move>> {
    if o.left && (r == 0 || (!o.right && !o.forward)) {
        left_moves()
    } else if o.right && (r == (if o.left { 1int } else { 0 }) || !o.forward) {
        right_moves()
    } else if o.forward {
        forward_moves()
    } else {
        back_moves()
    }
}

/// The moves for draw `r`: see [`drawn_moves`].
pub fn random_moves(o: MoveOptions, r: i32) -> (moves: [Option<Move>; 2])
    ensures
        moves@ == drawn_moves(o, r as int),
{
    if o.left && o.forward && o.right {
        if r == 0 {
            turn_left()
        } else if r == 1 {
            turn_right()
        } else {
            forward()
        }
    } else if o.left && o.right {
        if r == 0 {
            turn_left()
        } else {
            turn_right()
        }
    } else if o.forward && o.right {
        if r == 0 {
            turn_right()
        } else {
            forward()
        }
    } else if o.left && o.forward {
        if r == 0 {
            turn_left()
        } else {
            forward()
        }
    } else if o.forward {
        forward()
    } else if o.left {
        turn_left()
    } else if o.right {
        turn_right()
    } else {
        turn_back()
    }
}

/// Takes any open side, drawn from a seeded generator.
pub struct RandomNavigate {
    rng: SmallRng,
}

impl RandomNavigate {
    /// A strategy whose draws depend on `seed` alone.
    pub fn new(seed: [u8; 16]) -> (n: RandomNavigate) {
        RandomNavigate { rng: seeded(seed) }
    }
}

impl Navigate for RandomNavigate {
    /// The answer leads through an open side, whichever was drawn; with
    /// all sides walled it is the about-turn.
    open spec fn decides(
        &self,
        next: &Self,
        x: int,
        y: int,
        d: Direction,
        o: MoveOptions,
        moves: Seq<Option<Move>>,
    ) -> bool {
        if ways(o) == 0 {
            moves == back_moves()
        } else {
            exists|r: int| 0 <= r < ways(o) && moves == drawn_moves(o, r)
        }
    }

    fn navigate(&mut self, x: i32, y: i32, d: Direction, move_options: MoveOptions) -> (moves: [Option<
        Move,
    >; 2]) {
        let mut n: i32 = 0;
        if move_options.left {
            n = n + 1;
        }
        if move_options.forward {
            n = n + 1;
        }
        if move_options.right {
            n = n + 1;
        }
        let r = if n >= 2 {
            draw(&mut self.rng, n)
        } else {
            0
        };
        let moves = random_moves(move_options, r);
        proof {
            if ways(move_options) != 0 {
                assert(0 <= r < ways(move_options) && moves@ == drawn_moves(move_options, r as int));
            }
        }
        moves
    }
}

/// Every draw among the open sides leads through an open side.
pub proof fn lemma_drawn_side_is_open(o: MoveOptions, r: int)
    requires
        0 <= r < ways(o),
    ensures
        exists|s: Side| o.allows(s) && drawn_moves(o, r) == moves_toward(s),
{
    let s = if drawn_moves(o, r) == left_moves() {
        Side::Left
    } else if drawn_moves(o, r) == right_moves() {
        Side::Right
    } else {
        Side::Front
    };
    assert(left_moves()[0] != right_moves()[0]);
    assert(left_moves()[0] != forward_moves()[0]);
    assert(right_moves()[0] != forward_moves()[0]);
    assert(back_moves()[0] != forward_moves()[0]);
    assert(o.allows(s) && drawn_moves(o, r) == moves_toward(s));
}

/// With two or three sides open, every one of them is the answer to some
/// draw.
pub proof fn lemma_every_open_side_is_drawn(o: MoveOptions, s: Side)
    requires
        o.allows(s),
    ensures
        exists|r: int| 0 <= r < ways(o) && drawn_moves(o, r) == moves_toward(s),
{
    let r = match s {
        Side::Left => 0int,
        Side::Right => if o.left { 1int } else { 0int },
        Side::Front => ways(o) - 1,
    };
    assert(0 <= r < ways(o) && drawn_moves(o, r) == moves_toward(s));
}

/// The answer of [`LessRandomNavigate`] in the goal region: turn to face
/// the way back.
pub open spec fn retreat_moves() -> Seq<Option<Move>> {
    seq![Some(Move::TurnAround), Some(Move::TurnLeft)]
}

/// The counting strategy for the small practice maze: it counts its visits
/// and heads for the open cell visited least. It carries a seeded
/// generator that it never draws from.
pub struct LessRandomNavigate {
    rng: SmallRng,
    grid: Grid,
}

impl LessRandomNavigate {
    /// The grid of visit counters.
    pub closed spec fn cells(&self) -> Grid {
        self.grid
    }

    /// The grid that the strategy keeps.
    pub fn grid(&self) -> (g: &Grid)
        ensures
            *g == self.cells(),
    {
        &self.grid
    }

    /// What the strategy does on every call.
    pub open spec fn rule() -> Rule {
        Rule { counts: true, marks: false, choice: Choice::Lowest }
    }

    /// The strategy for the 3 by 3 practice maze, with the goal in the
    /// middle as the size gives it: the cells whose coordinates are
    /// `(PRACTICE_SIZE - 1) / 2` or `PRACTICE_SIZE / 2`, here the one cell
    /// in the middle.
    pub fn new(seed: [u8; 16]) -> (n: LessRandomNavigate)
        ensures
            n.cells().size() == PRACTICE_SIZE,
            n.cells().goal_lo() == (PRACTICE_SIZE - 1) / 2,
            n.cells().goal_hi() == PRACTICE_SIZE / 2,
            forall|x: int, y: int| n.cells().inside(x, y) ==> #[trigger] n.cells().cell(x, y) == 0,
    {
        let lo = ((PRACTICE_SIZE - 1) / 2) as i32;
        let hi = (PRACTICE_SIZE / 2) as i32;
        LessRandomNavigate {
            rng: seeded(seed),
            grid: Grid::new(PRACTICE_SIZE, lo, hi, Fill::Flat(0)),
        }
    }

    /// The number of visits counted in cell `(x, y)`; 255 outside the grid.
    pub fn get_cell(&self, x: i32, y: i32) -> (v: u8)
        ensures
            v == self.cells().cell(x as int, y as int),
    {
        self.grid.get_cell(x, y)
    }
}

impl Navigate for LessRandomNavigate {
    open spec fn decides(
        &self,
        next: &Self,
        x: int,
        y: int,
        d: Direction,
        o: MoveOptions,
        moves: Seq<Option<Move>>,
    ) -> bool {
        &&& next.cells().is_update_of(
            &self.cells(),
            self.cells().clamped(x),
            self.cells().clamped(y),
            home_after(Self::rule(), &self.cells(), x, y, d, o),
        )
        &&& moves == if self.cells().in_goal(x, y) {
            retreat_moves()
        } else {
            lowest_first(Priority::FrontLeftRight, o, seen(&self.cells(), x, y, d, true))
        }
    }

    fn navigate(&mut self, x: i32, y: i32, d: Direction, move_options: MoveOptions) -> (moves: [Option<
        Move,
    >; 2]) {
        let rule = Rule { counts: true, marks: false, choice: Choice::Lowest };
        match explore(rule, &mut self.grid, x, y, d, move_options) {
            None => {
                let m = [Some(Move::TurnAround), Some(Move::TurnLeft)];
                assert(m@ =~= retreat_moves());
                m
            },
            Some(s) => choose_lowest(Priority::FrontLeftRight, move_options, s),
        }
    }
}

} // verus!
