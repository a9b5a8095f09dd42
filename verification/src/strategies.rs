//! The strategies that navigate by a grid of cell values: visit counters,
//! distances to the goal and dead-end marks, and the wall follower that
//! needs none.

use vstd::prelude::*;
use crate::grid::{bumped, fill_value, Fill, Grid, BLOCKED};
use crate::moves::{Direction, Move, MoveOptions};
use crate::navigate::{
    celebrate, choose_live, choose_lowest, forward, goal_moves, left_first, live_first,
    lowest_first, turn_back, turn_left, turn_right, Navigate, Priority, Sight,
};

verus! {

/// Side length of the classic competition maze.
pub const CLASSIC_SIZE: u8 = 16;

/// Lowest coordinate of the goal region of the classic maze.
pub const CLASSIC_GOAL_LO: i32 = 7;

/// Highest coordinate of the goal region of the classic maze.
pub const CLASSIC_GOAL_HI: i32 = 8;

/// How a grid strategy picks among the open sides.
#[derive(Clone, Copy, Debug, PartialEq, Eq, Structural)]
pub enum Choice {
    /// Lowest cell value first; front before left before right on a tie.
    Lowest,
    /// Front before left before right, skipping cells marked as dead ends.
    Live,
    /// Lowest cell value first; a tie is broken by the order that the
    /// robot's place relative to the goal calls for.
    Zoned,
}

/// What a grid strategy does on every call.
#[derive(Clone, Copy, Debug, PartialEq, Eq, Structural)]
pub struct Rule {
    /// Count the visit in the robot's cell before looking around.
    pub counts: bool,
    /// Mark the robot's cell as `BLOCKED` when it is a dead end.
    pub marks: bool,
    /// How the next moves are picked.
    pub choice: Choice,
}

/// Where a coordinate lies relative to the goal region `lo..=hi`.
#[derive(Clone, Copy, Debug, PartialEq, Eq, Structural)]
pub enum Band {
    Below,
    Low,
    High,
    Above,
}

/// The band of coordinate `v`: below the goal region, on its lowest
/// coordinate, elsewhere in it, or above it.
pub open spec fn band_of(v: int, lo: int, hi: int) -> Band {
    if v < lo {
        Band::Below
    } else if v > hi {
        Band::Above
    } else if v == lo {
        Band::Low
    } else {
        Band::High
    }
}

/// The order in which a robot in column band `bx` and row band `by`, heading
/// `d`, tries its sides: the side that leads toward the goal first. Inside
/// the goal region there is nothing to prefer.
pub open spec fn zone_order(bx: Band, by: Band, d: Direction) -> Priority {
    match (bx, by) {
        (Band::Below, Band::Below) => match d {
            Direction::Up => Priority::FrontRightLeft,
            Direction::Down => Priority::LeftFrontRight,
            Direction::Right => Priority::FrontLeftRight,
            Direction::Left => Priority::RightFrontLeft,
        },
        (Band::Above, Band::Below) => match d {
            Direction::Up => Priority::FrontLeftRight,
            Direction::Down => Priority::RightFrontLeft,
            Direction::Right => Priority::LeftFrontRight,
            Direction::Left => Priority::FrontRightLeft,
        },
        (Band::Above, Band::Above) => match d {
            Direction::Up => Priority::LeftFrontRight,
            Direction::Down => Priority::FrontRightLeft,
            Direction::Right => Priority::RightFrontLeft,
            Direction::Left => Priority::FrontLeftRight,
        },
        (Band::Below, Band::Above) => match d {
            Direction::Up => Priority::RightFrontLeft,
            Direction::Down => Priority::FrontLeftRight,
            Direction::Right => Priority::FrontRightLeft,
            Direction::Left => Priority::LeftFrontRight,
        },
        (Band::Low, Band::Below) => match d {
            Direction::Up => Priority::FrontRightLeft,
            Direction::Down => Priority::LeftFrontRight,
            Direction::Right => Priority::LeftFrontRight,
            Direction::Left => Priority::RightFrontLeft,
        },
        (Band::High, Band::Below) => match d {
            Direction::Up => Priority::FrontLeftRight,
            Direction::Down => Priority::RightFrontLeft,
            Direction::Right => Priority::LeftFrontRight,
            Direction::Left => Priority::RightFrontLeft,
        },
        (Band::Above, Band::Low) => match d {
            Direction::Up => Priority::LeftFrontRight,
            Direction::Down => Priority::RightFrontLeft,
            Direction::Right => Priority::FrontRightLeft,
            Direction::Left => Priority::LeftFrontRight,
        },
        (Band::Above, Band::High) => match d {
            Direction::Up => Priority::LeftFrontRight,
            Direction::Down => Priority::RightFrontLeft,
            Direction::Right => Priority::FrontLeftRight,
            Direction::Left => Priority::RightFrontLeft,
        },
        (Band::High, Band::Above) => match d {
            Direction::Up => Priority::LeftFrontRight,
            Direction::Down => Priority::FrontRightLeft,
            Direction::Right => Priority::RightFrontLeft,
            Direction::Left => Priority::LeftFrontRight,
        },
        (Band::Low, Band::Above) => match d {
            Direction::Up => Priority::RightFrontLeft,
            Direction::Down => Priority::FrontLeftRight,
            Direction::Right => Priority::RightFrontLeft,
            Direction::Left => Priority::LeftFrontRight,
        },
        (Band::Below, Band::High) => match d {
            Direction::Up => Priority::RightFrontLeft,
            Direction::Down => Priority::LeftFrontRight,
            Direction::Right => Priority::FrontRightLeft,
            Direction::Left => Priority::LeftFrontRight,
        },
        (Band::Below, Band::Low) => match d {
            Direction::Up => Priority::RightFrontLeft,
            Direction::Down => Priority::LeftFrontRight,
            Direction::Right => Priority::FrontLeftRight,
            Direction::Left => Priority::RightFrontLeft,
        },
        _ => Priority::FrontLeftRight,
    }
}

/// The order of sides for a robot at `(x, y)` heading `d` on grid `g`.
pub open spec fn zone_priority(g: &Grid, x: int, y: int, d: Direction) -> Priority {
    zone_order(band_of(x, g.goal_lo(), g.goal_hi()), band_of(y, g.goal_lo(), g.goal_hi()), d)
}

/// The value that a look at cell `(i, j)` gives once the visit at `(x, y)`
/// has been counted.
pub open spec fn counted(g: &Grid, x: int, y: int, i: int, j: int) -> u8 {
    if i == g.clamped(x) && j == g.clamped(y) {
        bumped(g.cell(i, j))
    } else {
        g.cell(i, j)
    }
}

/// What a robot at `(x, y)` heading `d` reads in the four cells around it;
/// with `counts`, after the visit at `(x, y)` has been counted.
pub open spec fn seen(g: &Grid, x: int, y: int, d: Direction, counts: bool) -> Sight {
    let l = d.left_of();
    let r = d.right_of();
    let b = d.opposite();
    if counts {
        Sight {
            front: counted(g, x, y, x + d.dx(), y + d.dy()),
            left: counted(g, x, y, x + l.dx(), y + l.dy()),
            right: counted(g, x, y, x + r.dx(), y + r.dy()),
            rear: counted(g, x, y, x + b.dx(), y + b.dy()),
        }
    } else {
        Sight {
            front: g.toward(x, y, d),
            left: g.toward(x, y, l),
            right: g.toward(x, y, r),
            rear: g.toward(x, y, b),
        }
    }
}

/// The value that the robot's own cell holds after a call at `(x, y)`.
pub open spec fn home_after(
    rule: Rule,
    g: &Grid,
    x: int,
    y: int,
    d: Direction,
    o: MoveOptions,
) -> u8 {
    let c = g.cell(g.clamped(x), g.clamped(y));
    if rule.marks && !g.in_goal(x, y) && seen(g, x, y, d, rule.counts).in_dead_end(o) {
        BLOCKED
    } else if rule.counts {
        bumped(c)
    } else {
        c
    }
}

/// The moves that `rule` answers with at `(x, y)` heading `d` with walls
/// `o`, on grid `g` as it is before the call.
pub open spec fn answer(
    rule: Rule,
    g: &Grid,
    x: int,
    y: int,
    d: Direction,
    o: MoveOptions,
) -> Seq<Option<Move>> {
    if g.in_goal(x, y) {
        goal_moves()
    } else {
        let s = seen(g, x, y, d, rule.counts);
        match rule.choice {
            Choice::Lowest => lowest_first(Priority::FrontLeftRight, o, s),
            Choice::Live => live_first(o, s),
            Choice::Zoned => lowest_first(zone_priority(g, x, y, d), o, s),
        }
    }
}

/// One call of a grid strategy: only the robot's own cell changes, to the
/// value that `home_after` gives, and the moves are those of `answer`.
pub open spec fn follows(
    rule: Rule,
    before: &Grid,
    after: &Grid,
    x: int,
    y: int,
    d: Direction,
    o: MoveOptions,
    moves: Seq<Option<Move>>,
) -> bool {
    &&& after.is_update_of(
        before,
        before.clamped(x),
        before.clamped(y),
        home_after(rule, before, x, y, d, o),
    )
    &&& moves == answer(rule, before, x, y, d, o)
}

fn band(v: i32, lo: i32, hi: i32) -> (b: Band)
    ensures
        b == band_of(v as int, lo as int, hi as int),
{
    if v < lo {
        Band::Below
    } else if v > hi {
        Band::Above
    } else if v == lo {
        Band::Low
    } else {
        Band::High
    }
}

/// The order of sides for a robot at `(x, y)` heading `d` on grid `g`.
pub fn zone(g: &Grid, x: i32, y: i32, d: Direction) -> (p: Priority)
    ensures
        p == zone_priority(g, x as int, y as int, d),
{
    let (lo, hi) = g.goal();
    let bx = band(x, lo, hi);
    let by = band(y, lo, hi);
    match (bx, by) {
        (Band::Below, Band::Below) => match d {
            Direction::Up => Priority::FrontRightLeft,
            Direction::Down => Priority::LeftFrontRight,
            Direction::Right => Priority::FrontLeftRight,
            Direction::Left => Priority::RightFrontLeft,
        },
        (Band::Above, Band::Below) => match d {
            Direction::Up => Priority::FrontLeftRight,
            Direction::Down => Priority::RightFrontLeft,
            Direction::Right => Priority::LeftFrontRight,
            Direction::Left => Priority::FrontRightLeft,
        },
        (Band::Above, Band::Above) => match d {
            Direction::Up => Priority::LeftFrontRight,
            Direction::Down => Priority::FrontRightLeft,
            Direction::Right => Priority::RightFrontLeft,
            Direction::Left => Priority::FrontLeftRight,
        },
        (Band::Below, Band::Above) => match d {
            Direction::Up => Priority::RightFrontLeft,
            Direction::Down => Priority::FrontLeftRight,
            Direction::Right => Priority::FrontRightLeft,
            Direction::Left => Priority::LeftFrontRight,
        },
        (Band::Low, Band::Below) => match d {
            Direction::Up => Priority::FrontRightLeft,
            Direction::Down => Priority::LeftFrontRight,
            Direction::Right => Priority::LeftFrontRight,
            Direction::Left => Priority::RightFrontLeft,
        },
        (Band::High, Band::Below) => match d {
            Direction::Up => Priority::FrontLeftRight,
            Direction::Down => Priority::RightFrontLeft,
            Direction::Right => Priority::LeftFrontRight,
            Direction::Left => Priority::RightFrontLeft,
        },
        (Band::Above, Band::Low) => match d {
            Direction::Up => Priority::LeftFrontRight,
            Direction::Down => Priority::RightFrontLeft,
            Direction::Right => Priority::FrontRightLeft,
            Direction::Left => Priority::LeftFrontRight,
        },
        (Band::Above, Band::High) => match d {
            Direction::Up => Priority::LeftFrontRight,
            Direction::Down => Priority::RightFrontLeft,
            Direction::Right => Priority::FrontLeftRight,
            Direction::Left => Priority::RightFrontLeft,
        },
        (Band::High, Band::Above) => match d {
            Direction::Up => Priority::LeftFrontRight,
            Direction::Down => Priority::FrontRightLeft,
            Direction::Right => Priority::RightFrontLeft,
            Direction::Left => Priority::LeftFrontRight,
        },
        (Band::Low, Band::Above) => match d {
            Direction::Up => Priority::RightFrontLeft,
            Direction::Down => Priority::FrontLeftRight,
            Direction::Right => Priority::RightFrontLeft,
            Direction::Left => Priority::LeftFrontRight,
        },
        (Band::Below, Band::High) => match d {
            Direction::Up => Priority::RightFrontLeft,
            Direction::Down => Priority::LeftFrontRight,
            Direction::Right => Priority::FrontRightLeft,
            Direction::Left => Priority::LeftFrontRight,
        },
        (Band::Below, Band::Low) => match d {
            Direction::Up => Priority::RightFrontLeft,
            Direction::Down => Priority::LeftFrontRight,
            Direction::Right => Priority::FrontLeftRight,
            Direction::Left => Priority::RightFrontLeft,
        },
        _ => Priority::FrontLeftRight,
    }
}

/// Reads the four cells around `(x, y)`.
pub fn look_around(g: &Grid, x: i32, y: i32, d: Direction) -> (s: Sight)
    ensures
        s == seen(g, x as int, y as int, d, false),
{
    Sight {
        front: g.look(x, y, d),
        left: g.look(x, y, d.turn_left()),
        right: g.look(x, y, d.turn_right()),
        rear: g.look(x, y, d.turn_around()),
    }
}

/// The bookkeeping half of a grid strategy: counts the visit if the rule
/// says so, looks around and marks a dead end if the rule says so. Returns
/// what was seen, or `None` when `(x, y)` lies in the goal region.
pub fn explore(rule: Rule, g: &mut Grid, x: i32, y: i32, d: Direction, o: MoveOptions) -> (r:
    Option<Sight>)
    ensures
        final(g).is_update_of(
            old(g),
            old(g).clamped(x as int),
            old(g).clamped(y as int),
            home_after(rule, old(g), x as int, y as int, d, o),
        ),
        r == if old(g).in_goal(x as int, y as int) {
            None
        } else {
            Some(seen(old(g), x as int, y as int, d, rule.counts))
        },
{
    let ghost cx = g.clamped(x as int);
    let ghost cy = g.clamped(y as int);
    if rule.counts {
        g.visit(x, y);
    }
    if g.is_goal(x, y) {
        None
    } else {
        let s = look_around(g, x, y, d);
        assert(s == seen(old(g), x as int, y as int, d, rule.counts));
        if rule.marks && s.dead_end(o) {
            let ghost mid = *g;
            g.set_cell(x, y, BLOCKED);
            assert(g.is_update_of(old(g), cx, cy, BLOCKED)) by {
                assert forall|i: int, j: int| (i, j) != (cx, cy) implies #[trigger] g.cell(i, j)
                    == old(g).cell(i, j) by {
                    assert(mid.cell(i, j) == old(g).cell(i, j));
                }
            }
        }
        Some(s)
    }
}

/// One call of the grid strategy `rule` on grid `g`.
pub fn apply(rule: Rule, g: &mut Grid, x: i32, y: i32, d: Direction, o: MoveOptions) -> (moves: [Option<
    Move,
>; 2])
    ensures
        follows(rule, old(g), final(g), x as int, y as int, d, o, moves@),
{
    let order = match rule.choice {
        Choice::Zoned => zone(g, x, y, d),
        _ => Priority::FrontLeftRight,
    };
    match explore(rule, g, x, y, d, o) {
        None => celebrate(),
        Some(s) => match rule.choice {
            Choice::Live => choose_live(o, s),
            _ => choose_lowest(order, o, s),
        },
    }
}

/// Follows the wall on its left: left before front before right.
pub struct LeftWall {}

impl LeftWall {
    /// The wall follower; it keeps no state.
    pub fn new() -> (n: LeftWall) {
        LeftWall {  }
    }
}

impl Navigate for LeftWall {
    open spec fn decides(
        &self,
        next: &Self,
        x: int,
        y: int,
        d: Direction,
        o: MoveOptions,
        moves: Seq<Option<Move>>,
    ) -> bool {
        moves == left_first(o)
    }

    fn navigate(&mut self, x: i32, y: i32, d: Direction, move_options: MoveOptions) -> (moves: [Option<
        Move,
    >; 2]) {
        if move_options.left {
            turn_left()
        } else if move_options.forward {
            forward()
        } else if move_options.right {
            turn_right()
        } else {
            turn_back()
        }
    }
}

/// Front before left before right, never into a cell known to be a dead
/// end. A cell from which only one way is left becomes a dead end itself.
pub struct DeadEndNavigate {
    grid: Grid,
}

impl DeadEndNavigate {
    /// The grid that the strategy keeps.
    pub closed spec fn cells(&self) -> Grid {
        self.grid
    }

    /// The grid that the strategy keeps.
    pub fn grid(&self) -> (g: &Grid)
        ensures
            *g == self.cells(),
    {
        &self.grid
    }

    /// What the strategy does on every call.
    pub open spec fn rule() -> Rule {
        Rule { counts: false, marks: true, choice: Choice::Live }
    }

    /// The strategy for the classic 16 by 16 maze with its goal in the
    /// middle four cells.
    pub fn new() -> (n: Self)
        ensures
            n.cells().size() == CLASSIC_SIZE,
            n.cells().goal_lo() == CLASSIC_GOAL_LO,
            n.cells().goal_hi() == CLASSIC_GOAL_HI,
            forall|x: int, y: int|
                n.cells().inside(x, y) ==> #[trigger] n.cells().cell(x, y) == fill_value(
                    Fill::Flat(0),
                    CLASSIC_GOAL_LO as int,
                    CLASSIC_GOAL_HI as int,
                    x,
                    y,
                ),
    {
        Self { grid: Grid::new(CLASSIC_SIZE, CLASSIC_GOAL_LO, CLASSIC_GOAL_HI, Fill::Flat(0)) }
    }

    /// The strategy for a maze of side `size`, with the goal in the middle:
    /// the cells whose coordinates are `(size - 1) / 2` or `size / 2`, which
    /// is one cell for an odd side and four for an even one.
    pub fn with_size(size: u8) -> (n: Self)
        requires
            size >= 1,
        ensures
            n.cells().size() == size,
            n.cells().goal_lo() == (size - 1) / 2,
            n.cells().goal_hi() == size / 2,
            forall|x: int, y: int|
                n.cells().inside(x, y) ==> #[trigger] n.cells().cell(x, y) == fill_value(
                    Fill::Flat(0),
                    (size - 1) / 2,
                    (size / 2) as int,
                    x,
                    y,
                ),
    {
        let lo = ((size - 1) / 2) as i32;
        let hi = (size / 2) as i32;
        Self { grid: Grid::new(size, lo, hi, Fill::Flat(0)) }
    }

    /// Whether cell `(x, y)` is known to be a dead end; every position
    /// outside the grid counts as one.
    pub fn get_cell(&self, x: i32, y: i32) -> (dead: bool)
        ensures
            dead == (self.cells().cell(x as int, y as int) == BLOCKED),
    {
        self.grid.get_cell(x, y) == BLOCKED
    }
}

impl Navigate for DeadEndNavigate {
    open spec fn decides(
        &self,
        next: &Self,
        x: int,
        y: int,
        d: Direction,
        o: MoveOptions,
        moves: Seq<Option<Move>>,
    ) -> bool {
        follows(Self::rule(), &self.cells(), &next.cells(), x, y, d, o, moves)
    }

    fn navigate(&mut self, x: i32, y: i32, d: Direction, move_options: MoveOptions) -> (moves: [Option<
        Move,
    >; 2]) {
        apply(Rule { counts: false, marks: true, choice: Choice::Live }, &mut self.grid, x, y, d, move_options)
    }
}

/// Counts its visits to every cell and heads for the open cell it has
/// visited least.
pub struct CountingNavigate {
    grid: Grid,
}

impl CountingNavigate {
    /// The grid that the strategy keeps.
    pub closed spec fn cells(&self) -> Grid {
        self.grid
    }

    /// The grid that the strategy keeps.
    pub fn grid(&self) -> (g: &Grid)
        ensures
            *g == self.cells(),
    {
        &self.grid
    }

    /// What the strategy does on every call.
    pub open spec fn rule() -> Rule {
        Rule { counts: true, marks: false, choice: Choice::Lowest }
    }

    /// The strategy for the classic 16 by 16 maze with its goal in the
    /// middle four cells.
    pub fn new() -> (n: Self)
        ensures
            n.cells().size() == CLASSIC_SIZE,
            n.cells().goal_lo() == CLASSIC_GOAL_LO,
            n.cells().goal_hi() == CLASSIC_GOAL_HI,
            forall|x: int, y: int|
                n.cells().inside(x, y) ==> #[trigger] n.cells().cell(x, y) == fill_value(
                    Fill::Flat(0),
                    CLASSIC_GOAL_LO as int,
                    CLASSIC_GOAL_HI as int,
                    x,
                    y,
                ),
    {
        Self { grid: Grid::new(CLASSIC_SIZE, CLASSIC_GOAL_LO, CLASSIC_GOAL_HI, Fill::Flat(0)) }
    }

    /// The strategy for a maze of side `size`, with the goal in the middle:
    /// the cells whose coordinates are `(size - 1) / 2` or `size / 2`, which
    /// is one cell for an odd side and four for an even one.
    pub fn with_size(size: u8) -> (n: Self)
        requires
            size >= 1,
        ensures
            n.cells().size() == size,
            n.cells().goal_lo() == (size - 1) / 2,
            n.cells().goal_hi() == size / 2,
            forall|x: int, y: int|
                n.cells().inside(x, y) ==> #[trigger] n.cells().cell(x, y) == fill_value(
                    Fill::Flat(0),
                    (size - 1) / 2,
                    (size / 2) as int,
                    x,
                    y,
                ),
    {
        let lo = ((size - 1) / 2) as i32;
        let hi = (size / 2) as i32;
        Self { grid: Grid::new(size, lo, hi, Fill::Flat(0)) }
    }

    /// The value of cell `(x, y)`; `BLOCKED` outside the grid.
    pub fn get_cell(&self, x: i32, y: i32) -> (v: u8)
        ensures
            v == self.cells().cell(x as int, y as int),
    {
        self.grid.get_cell(x, y)
    }
}

impl Navigate for CountingNavigate {
    open spec fn decides(
        &self,
        next: &Self,
        x: int,
        y: int,
        d: Direction,
        o: MoveOptions,
        moves: Seq<Option<Move>>,
    ) -> bool {
        follows(Self::rule(), &self.cells(), &next.cells(), x, y, d, o, moves)
    }

    fn navigate(&mut self, x: i32, y: i32, d: Direction, move_options: MoveOptions) -> (moves: [Option<
        Move,
    >; 2]) {
        apply(Rule { counts: true, marks: false, choice: Choice::Lowest }, &mut self.grid, x, y, d, move_options)
    }
}

/// Counts visits as [`CountingNavigate`] does and marks dead ends as
/// `BLOCKED`, so that they are entered last.
pub struct CountingDeadEndNavigate {
    grid: Grid,
}

impl CountingDeadEndNavigate {
    /// The grid that the strategy keeps.
    pub closed spec fn cells(&self) -> Grid {
        self.grid
    }

    /// The grid that the strategy keeps.
    pub fn grid(&self) -> (g: &Grid)
        ensures
            *g == self.cells(),
    {
        &self.grid
    }

    /// What the strategy does on every call.
    pub open spec fn rule() -> Rule {
        Rule { counts: true, marks: true, choice: Choice::Lowest }
    }

    /// The strategy for the classic 16 by 16 maze with its goal in the
    /// middle four cells.
    pub fn new() -> (n: Self)
        ensures
            n.cells().size() == CLASSIC_SIZE,
            n.cells().goal_lo() == CLASSIC_GOAL_LO,
            n.cells().goal_hi() == CLASSIC_GOAL_HI,
            forall|x: int, y: int|
                n.cells().inside(x, y) ==> #[trigger] n.cells().cell(x, y) == fill_value(
                    Fill::Flat(0),
                    CLASSIC_GOAL_LO as int,
                    CLASSIC_GOAL_HI as int,
                    x,
                    y,
                ),
    {
        Self { grid: Grid::new(CLASSIC_SIZE, CLASSIC_GOAL_LO, CLASSIC_GOAL_HI, Fill::Flat(0)) }
    }

    /// The strategy for a maze of side `size`, with the goal in the middle:
    /// the cells whose coordinates are `(size - 1) / 2` or `size / 2`, which
    /// is one cell for an odd side and four for an even one.
    pub fn with_size(size: u8) -> (n: Self)
        requires
            size >= 1,
        ensures
            n.cells().size() == size,
            n.cells().goal_lo() == (size - 1) / 2,
            n.cells().goal_hi() == size / 2,
            forall|x: int, y: int|
                n.cells().inside(x, y) ==> #[trigger] n.cells().cell(x, y) == fill_value(
                    Fill::Flat(0),
                    (size - 1) / 2,
                    (size / 2) as int,
                    x,
                    y,
                ),
    {
        let lo = ((size - 1) / 2) as i32;
        let hi = (size / 2) as i32;
        Self { grid: Grid::new(size, lo, hi, Fill::Flat(0)) }
    }

    /// The value of cell `(x, y)`; `BLOCKED` outside the grid.
    pub fn get_cell(&self, x: i32, y: i32) -> (v: u8)
        ensures
            v == self.cells().cell(x as int, y as int),
    {
        self.grid.get_cell(x, y)
    }
}

impl Navigate for CountingDeadEndNavigate {
    open spec fn decides(
        &self,
        next: &Self,
        x: int,
        y: int,
        d: Direction,
        o: MoveOptions,
        moves: Seq<Option<Move>>,
    ) -> bool {
        follows(Self::rule(), &self.cells(), &next.cells(), x, y, d, o, moves)
    }

    fn navigate(&mut self, x: i32, y: i32, d: Direction, move_options: MoveOptions) -> (moves: [Option<
        Move,
    >; 2]) {
        apply(Rule { counts: true, marks: true, choice: Choice::Lowest }, &mut self.grid, x, y, d, move_options)
    }
}

/// Starts from every cell's distance to the goal in steps, counts visits
/// on top and heads for the open cell of lowest value.
pub struct FloodFillNavigate {
    grid: Grid,
}

impl FloodFillNavigate {
    /// The grid that the strategy keeps.
    pub closed spec fn cells(&self) -> Grid {
        self.grid
    }

    /// The grid that the strategy keeps.
    pub fn grid(&self) -> (g: &Grid)
        ensures
            *g == self.cells(),
    {
        &self.grid
    }

    /// What the strategy does on every call.
    pub open spec fn rule() -> Rule {
        Rule { counts: true, marks: false, choice: Choice::Lowest }
    }

    /// The strategy for the classic 16 by 16 maze with its goal in the
    /// middle four cells.
    pub fn new() -> (n: Self)
        ensures
            n.cells().size() == CLASSIC_SIZE,
            n.cells().goal_lo() == CLASSIC_GOAL_LO,
            n.cells().goal_hi() == CLASSIC_GOAL_HI,
            forall|x: int, y: int|
                n.cells().inside(x, y) ==> #[trigger] n.cells().cell(x, y) == fill_value(
                    Fill::Steps,
                    CLASSIC_GOAL_LO as int,
                    CLASSIC_GOAL_HI as int,
                    x,
                    y,
                ),
    {
        Self { grid: Grid::new(CLASSIC_SIZE, CLASSIC_GOAL_LO, CLASSIC_GOAL_HI, Fill::Steps) }
    }

    /// The strategy for a maze of side `size`, with the goal in the middle:
    /// the cells whose coordinates are `(size - 1) / 2` or `size / 2`, which
    /// is one cell for an odd side and four for an even one.
    pub fn with_size(size: u8) -> (n: Self)
        requires
            size >= 1,
        ensures
            n.cells().size() == size,
            n.cells().goal_lo() == (size - 1) / 2,
            n.cells().goal_hi() == size / 2,
            forall|x: int, y: int|
                n.cells().inside(x, y) ==> #[trigger] n.cells().cell(x, y) == fill_value(
                    Fill::Steps,
                    (size - 1) / 2,
                    (size / 2) as int,
                    x,
                    y,
                ),
    {
        let lo = ((size - 1) / 2) as i32;
        let hi = (size / 2) as i32;
        Self { grid: Grid::new(size, lo, hi, Fill::Steps) }
    }

    /// The value of cell `(x, y)`; `BLOCKED` outside the grid.
    pub fn get_cell(&self, x: i32, y: i32) -> (v: u8)
        ensures
            v == self.cells().cell(x as int, y as int),
    {
        self.grid.get_cell(x, y)
    }
}

impl Navigate for FloodFillNavigate {
    open spec fn decides(
        &self,
        next: &Self,
        x: int,
        y: int,
        d: Direction,
        o: MoveOptions,
        moves: Seq<Option<Move>>,
    ) -> bool {
        follows(Self::rule(), &self.cells(), &next.cells(), x, y, d, o, moves)
    }

    fn navigate(&mut self, x: i32, y: i32, d: Direction, move_options: MoveOptions) -> (moves: [Option<
        Move,
    >; 2]) {
        apply(Rule { counts: true, marks: false, choice: Choice::Lowest }, &mut self.grid, x, y, d, move_options)
    }
}

/// [`FloodFillNavigate`] that also marks dead ends as `BLOCKED`.
pub struct FloodFillDeadEndNavigate {
    grid: Grid,
}

impl FloodFillDeadEndNavigate {
    /// The grid that the strategy keeps.
    pub closed spec fn cells(&self) -> Grid {
        self.grid
    }

    /// The grid that the strategy keeps.
    pub fn grid(&self) -> (g: &Grid)
        ensures
            *g == self.cells(),
    {
        &self.grid
    }

    /// What the strategy does on every call.
    pub open spec fn rule() -> Rule {
        Rule { counts: true, marks: true, choice: Choice::Lowest }
    }

    /// The strategy for the classic 16 by 16 maze with its goal in the
    /// middle four cells.
    pub fn new() -> (n: Self)
        ensures
            n.cells().size() == CLASSIC_SIZE,
            n.cells().goal_lo() == CLASSIC_GOAL_LO,
            n.cells().goal_hi() == CLASSIC_GOAL_HI,
            forall|x: int, y: int|
                n.cells().inside(x, y) ==> #[trigger] n.cells().cell(x, y) == fill_value(
                    Fill::Steps,
                    CLASSIC_GOAL_LO as int,
                    CLASSIC_GOAL_HI as int,
                    x,
                    y,
                ),
    {
        Self { grid: Grid::new(CLASSIC_SIZE, CLASSIC_GOAL_LO, CLASSIC_GOAL_HI, Fill::Steps) }
    }

    /// The strategy for a maze of side `size`, with the goal in the middle:
    /// the cells whose coordinates are `(size - 1) / 2` or `size / 2`, which
    /// is one cell for an odd side and four for an even one.
    pub fn with_size(size: u8) -> (n: Self)
        requires
            size >= 1,
        ensures
            n.cells().size() == size,
            n.cells().goal_lo() == (size - 1) / 2,
            n.cells().goal_hi() == size / 2,
            forall|x: int, y: int|
                n.cells().inside(x, y) ==> #[trigger] n.cells().cell(x, y) == fill_value(
                    Fill::Steps,
                    (size - 1) / 2,
                    (size / 2) as int,
                    x,
                    y,
                ),
    {
        let lo = ((size - 1) / 2) as i32;
        let hi = (size / 2) as i32;
        Self { grid: Grid::new(size, lo, hi, Fill::Steps) }
    }

    /// The value of cell `(x, y)`; `BLOCKED` outside the grid.
    pub fn get_cell(&self, x: i32, y: i32) -> (v: u8)
        ensures
            v == self.cells().cell(x as int, y as int),
    {
        self.grid.get_cell(x, y)
    }
}

impl Navigate for FloodFillDeadEndNavigate {
    open spec fn decides(
        &self,
        next: &Self,
        x: int,
        y: int,
        d: Direction,
        o: MoveOptions,
        moves: Seq<Option<Move>>,
    ) -> bool {
        follows(Self::rule(), &self.cells(), &next.cells(), x, y, d, o, moves)
    }

    fn navigate(&mut self, x: i32, y: i32, d: Direction, move_options: MoveOptions) -> (moves: [Option<
        Move,
    >; 2]) {
        apply(Rule { counts: true, marks: true, choice: Choice::Lowest }, &mut self.grid, x, y, d, move_options)
    }
}

/// Starts from every cell's distance to the goal in rings, counts visits
/// on top and heads for the open cell of lowest value.
pub struct FloodFillSquareNavigate {
    grid: Grid,
}

impl FloodFillSquareNavigate {
    /// The grid that the strategy keeps.
    pub closed spec fn cells(&self) -> Grid {
        self.grid
    }

    /// The grid that the strategy keeps.
    pub fn grid(&self) -> (g: &Grid)
        ensures
            *g == self.cells(),
    {
        &self.grid
    }

    /// What the strategy does on every call.
    pub open spec fn rule() -> Rule {
        Rule { counts: true, marks: false, choice: Choice::Lowest }
    }

    /// The strategy for the classic 16 by 16 maze with its goal in the
    /// middle four cells.
    pub fn new() -> (n: Self)
        ensures
            n.cells().size() == CLASSIC_SIZE,
            n.cells().goal_lo() == CLASSIC_GOAL_LO,
            n.cells().goal_hi() == CLASSIC_GOAL_HI,
            forall|x: int, y: int|
                n.cells().inside(x, y) ==> #[trigger] n.cells().cell(x, y) == fill_value(
                    Fill::Rings,
                    CLASSIC_GOAL_LO as int,
                    CLASSIC_GOAL_HI as int,
                    x,
                    y,
                ),
    {
        Self { grid: Grid::new(CLASSIC_SIZE, CLASSIC_GOAL_LO, CLASSIC_GOAL_HI, Fill::Rings) }
    }

    /// The strategy for a maze of side `size`, with the goal in the middle:
    /// the cells whose coordinates are `(size - 1) / 2` or `size / 2`, which
    /// is one cell for an odd side and four for an even one.
    pub fn with_size(size: u8) -> (n: Self)
        requires
            size >= 1,
        ensures
            n.cells().size() == size,
            n.cells().goal_lo() == (size - 1) / 2,
            n.cells().goal_hi() == size / 2,
            forall|x: int, y: int|
                n.cells().inside(x, y) ==> #[trigger] n.cells().cell(x, y) == fill_value(
                    Fill::Rings,
                    (size - 1) / 2,
                    (size / 2) as int,
                    x,
                    y,
                ),
    {
        let lo = ((size - 1) / 2) as i32;
        let hi = (size / 2) as i32;
        Self { grid: Grid::new(size, lo, hi, Fill::Rings) }
    }

    /// The value of cell `(x, y)`; `BLOCKED` outside the grid.
    pub fn get_cell(&self, x: i32, y: i32) -> (v: u8)
        ensures
            v == self.cells().cell(x as int, y as int),
    {
        self.grid.get_cell(x, y)
    }
}

impl Navigate for FloodFillSquareNavigate {
    open spec fn decides(
        &self,
        next: &Self,
        x: int,
        y: int,
        d: Direction,
        o: MoveOptions,
        moves: Seq<Option<Move>>,
    ) -> bool {
        follows(Self::rule(), &self.cells(), &next.cells(), x, y, d, o, moves)
    }

    fn navigate(&mut self, x: i32, y: i32, d: Direction, move_options: MoveOptions) -> (moves: [Option<
        Move,
    >; 2]) {
        apply(Rule { counts: true, marks: false, choice: Choice::Lowest }, &mut self.grid, x, y, d, move_options)
    }
}

/// [`FloodFillSquareNavigate`] that also marks dead ends as `BLOCKED`.
pub struct FloodFillSquareDeadEndNavigate {
    grid: Grid,
}

impl FloodFillSquareDeadEndNavigate {
    /// The grid that the strategy keeps.
    pub closed spec fn cells(&self) -> Grid {
        self.grid
    }

    /// The grid that the strategy keeps.
    pub fn grid(&self) -> (g: &Grid)
        ensures
            *g == self.cells(),
    {
        &self.grid
    }

    /// What the strategy does on every call.
    pub open spec fn rule() -> Rule {
        Rule { counts: true, marks: true, choice: Choice::Lowest }
    }

    /// The strategy for the classic 16 by 16 maze with its goal in the
    /// middle four cells.
    pub fn new() -> (n: Self)
        ensures
            n.cells().size() == CLASSIC_SIZE,
            n.cells().goal_lo() == CLASSIC_GOAL_LO,
            n.cells().goal_hi() == CLASSIC_GOAL_HI,
            forall|x: int, y: int|
                n.cells().inside(x, y) ==> #[trigger] n.cells().cell(x, y) == fill_value(
                    Fill::Rings,
                    CLASSIC_GOAL_LO as int,
                    CLASSIC_GOAL_HI as int,
                    x,
                    y,
                ),
    {
        Self { grid: Grid::new(CLASSIC_SIZE, CLASSIC_GOAL_LO, CLASSIC_GOAL_HI, Fill::Rings) }
    }

    /// The strategy for a maze of side `size`, with the goal in the middle:
    /// the cells whose coordinates are `(size - 1) / 2` or `size / 2`, which
    /// is one cell for an odd side and four for an even one.
    pub fn with_size(size: u8) -> (n: Self)
        requires
            size >= 1,
        ensures
            n.cells().size() == size,
            n.cells().goal_lo() == (size - 1) / 2,
            n.cells().goal_hi() == size / 2,
            forall|x: int, y: int|
                n.cells().inside(x, y) ==> #[trigger] n.cells().cell(x, y) == fill_value(
                    Fill::Rings,
                    (size - 1) / 2,
                    (size / 2) as int,
                    x,
                    y,
                ),
    {
        let lo = ((size - 1) / 2) as i32;
        let hi = (size / 2) as i32;
        Self { grid: Grid::new(size, lo, hi, Fill::Rings) }
    }

    /// The value of cell `(x, y)`; `BLOCKED` outside the grid.
    pub fn get_cell(&self, x: i32, y: i32) -> (v: u8)
        ensures
            v == self.cells().cell(x as int, y as int),
    {
        self.grid.get_cell(x, y)
    }
}

impl Navigate for FloodFillSquareDeadEndNavigate {
    open spec fn decides(
        &self,
        next: &Self,
        x: int,
        y: int,
        d: Direction,
        o: MoveOptions,
        moves: Seq<Option<Move>>,
    ) -> bool {
        follows(Self::rule(), &self.cells(), &next.cells(), x, y, d, o, moves)
    }

    fn navigate(&mut self, x: i32, y: i32, d: Direction, move_options: MoveOptions) -> (moves: [Option<
        Move,
    >; 2]) {
        apply(Rule { counts: true, marks: true, choice: Choice::Lowest }, &mut self.grid, x, y, d, move_options)
    }
}

/// Counts visits and marks dead ends; among open cells of equal value it
/// takes the side that leads toward the goal, judged by which of the twelve
/// zones around the goal region the robot stands in.
pub struct TwelvePartitionNavigate {
    grid: Grid,
}

impl TwelvePartitionNavigate {
    /// The grid that the strategy keeps.
    pub closed spec fn cells(&self) -> Grid {
        self.grid
    }

    /// The grid that the strategy keeps.
    pub fn grid(&self) -> (g: &Grid)
        ensures
            *g == self.cells(),
    {
        &self.grid
    }

    /// What the strategy does on every call.
    pub open spec fn rule() -> Rule {
        Rule { counts: true, marks: true, choice: Choice::Zoned }
    }

    /// The strategy for the classic 16 by 16 maze with its goal in the
    /// middle four cells.
    pub fn new() -> (n: Self)
        ensures
            n.cells().size() == CLASSIC_SIZE,
            n.cells().goal_lo() == CLASSIC_GOAL_LO,
            n.cells().goal_hi() == CLASSIC_GOAL_HI,
            forall|x: int, y: int|
                n.cells().inside(x, y) ==> #[trigger] n.cells().cell(x, y) == fill_value(
                    Fill::Flat(0),
                    CLASSIC_GOAL_LO as int,
                    CLASSIC_GOAL_HI as int,
                    x,
                    y,
                ),
    {
        Self { grid: Grid::new(CLASSIC_SIZE, CLASSIC_GOAL_LO, CLASSIC_GOAL_HI, Fill::Flat(0)) }
    }

    /// The strategy for a maze of side `size`, with the goal in the middle:
    /// the cells whose coordinates are `(size - 1) / 2` or `size / 2`, which
    /// is one cell for an odd side and four for an even one.
    pub fn with_size(size: u8) -> (n: Self)
        requires
            size >= 1,
        ensures
            n.cells().size() == size,
            n.cells().goal_lo() == (size - 1) / 2,
            n.cells().goal_hi() == size / 2,
            forall|x: int, y: int|
                n.cells().inside(x, y) ==> #[trigger] n.cells().cell(x, y) == fill_value(
                    Fill::Flat(0),
                    (size - 1) / 2,
                    (size / 2) as int,
                    x,
                    y,
                ),
    {
        let lo = ((size - 1) / 2) as i32;
        let hi = (size / 2) as i32;
        Self { grid: Grid::new(size, lo, hi, Fill::Flat(0)) }
    }

    /// The value of cell `(x, y)`; `BLOCKED` outside the grid.
    pub fn get_cell(&self, x: i32, y: i32) -> (v: u8)
        ensures
            v == self.cells().cell(x as int, y as int),
    {
        self.grid.get_cell(x, y)
    }
}

impl Navigate for TwelvePartitionNavigate {
    open spec fn decides(
        &self,
        next: &Self,
        x: int,
        y: int,
        d: Direction,
        o: MoveOptions,
        moves: Seq<Option<Move>>,
    ) -> bool {
        follows(Self::rule(), &self.cells(), &next.cells(), x, y, d, o, moves)
    }

    fn navigate(&mut self, x: i32, y: i32, d: Direction, move_options: MoveOptions) -> (moves: [Option<
        Move,
    >; 2]) {
        apply(Rule { counts: true, marks: true, choice: Choice::Zoned }, &mut self.grid, x, y, d, move_options)
    }
}

} // verus!
