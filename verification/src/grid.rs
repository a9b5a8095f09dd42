//! A square grid of one-byte cell values, as kept by the navigation
//! strategies: visit counters, distances to the goal, dead-end marks.

use vstd::prelude::*;
use crate::moves::Direction;

verus! {

/// Value of a cell that must not be entered: every position outside the grid
/// reads as `BLOCKED`, and strategies write it into cells they found to be
/// dead ends. It is also the value at which visit counters stop.
pub const BLOCKED: u8 = 255;

/// How the cells of a fresh grid are filled.
#[derive(Clone, Copy, Debug, PartialEq, Eq, Structural)]
pub enum Fill {
    /// Every cell holds the given value.
    Flat(u8),
    /// Every cell holds its distance to the goal region, counted in steps
    /// along the axes.
    Steps,
    /// Every cell holds its distance to the goal region, counted in rings
    /// around it.
    Rings,
}

/// Distance from coordinate `v` to the closed interval `[lo, hi]`.
pub open spec fn gap(v: int, lo: int, hi: int) -> int {
    if v < lo {
        lo - v
    } else if v > hi {
        v - hi
    } else {
        0
    }
}

/// `v`, but no more than the largest cell value.
pub open spec fn capped(v: int) -> u8 {
    if v >= BLOCKED as int {
        BLOCKED
    } else if v < 0 {
        0u8
    } else {
        v as u8
    }
}

/// The value that `fill` gives to cell `(x, y)` of a grid whose goal region
/// spans `lo..=hi` on both axes.
pub open spec fn fill_value(fill: Fill, lo: int, hi: int, x: int, y: int) -> u8 {
    match fill {
        Fill::Flat(v) => v,
        Fill::Steps => capped(gap(x, lo, hi) + gap(y, lo, hi)),
        Fill::Rings => {
            let gx = gap(x, lo, hi);
            let gy = gap(y, lo, hi);
            capped(if gx >= gy { gx } else { gy })
        },
    }
}

/// A counter one higher, stopping at the largest cell value.
pub open spec fn bumped(v: u8) -> u8 {
    if v < BLOCKED {
        (v + 1) as u8
    } else {
        BLOCKED
    }
}

proof fn lemma_index(x: int, y: int, n: int)
    requires
        0 <= x < n,
        0 <= y < n,
    ensures
        0 <= x * n + y < n * n,
        x * n + y <= (n - 1) * n + (n - 1),
{
    assert(x * n <= (n - 1) * n) by (nonlinear_arith)
        requires
            0 <= x <= n - 1,
            0 <= n,
    ;
    assert(0 <= x * n) by (nonlinear_arith)
        requires
            0 <= x,
            0 <= n,
    ;
    assert((n - 1) * n + (n - 1) < n * n) by (nonlinear_arith);
}

proof fn lemma_index_distinct(x1: int, y1: int, x2: int, y2: int, n: int)
    requires
        0 <= x1 < n,
        0 <= y1 < n,
        0 <= x2 < n,
        0 <= y2 < n,
        x1 * n + y1 == x2 * n + y2,
    ensures
        x1 == x2,
        y1 == y2,
{
    if x1 < x2 {
        assert(x1 * n + n <= x2 * n) by (nonlinear_arith)
            requires
                x1 + 1 <= x2,
                0 <= n,
        ;
    } else if x2 < x1 {
        assert(x2 * n + n <= x1 * n) by (nonlinear_arith)
            requires
                x2 + 1 <= x1,
                0 <= n,
        ;
    }
}

/// A square grid of side `size()` with a goal region `goal_lo()..=goal_hi()`
/// on both axes. Cell `(x, y)` is read with [`Grid::cell`]; positions outside
/// the grid read as [`BLOCKED`].
pub struct Grid {
    size: u8,
    goal_lo: i32,
    goal_hi: i32,
    cells: Vec<u8>,
}

impl Grid {
    #[verifier::type_invariant]
    spec fn well_formed(self) -> bool {
        &&& self.size >= 1
        &&& self.cells.len() == self.size as int * self.size as int
    }

    /// Side length of the grid, at least 1.
    pub closed spec fn size(&self) -> int {
        self.size as int
    }

    /// Lowest coordinate of the goal region.
    pub closed spec fn goal_lo(&self) -> int {
        self.goal_lo as int
    }

    /// Highest coordinate of the goal region.
    pub closed spec fn goal_hi(&self) -> int {
        self.goal_hi as int
    }

    /// Whether `(x, y)` names a cell of the grid.
    pub open spec fn inside(&self, x: int, y: int) -> bool {
        0 <= x < self.size() && 0 <= y < self.size()
    }

    /// The value kept for cell `(x, y)` of the grid.
    pub closed spec fn stored(&self, x: int, y: int) -> u8 {
        self.cells[x * self.size as int + y]
    }

    /// The value of cell `(x, y)`: what is kept for it inside the grid, and
    /// `BLOCKED` outside.
    pub open spec fn cell(&self, x: int, y: int) -> u8 {
        if self.inside(x, y) {
            self.stored(x, y)
        } else {
            BLOCKED
        }
    }

    /// Whether `(x, y)` lies in the goal region.
    pub open spec fn in_goal(&self, x: int, y: int) -> bool {
        self.goal_lo() <= x <= self.goal_hi() && self.goal_lo() <= y <= self.goal_hi()
    }

    /// The coordinate inside the grid that is nearest to `v`.
    pub open spec fn clamped(&self, v: int) -> int {
        if v < 0 {
            0
        } else if v > self.size() - 1 {
            self.size() - 1
        } else {
            v
        }
    }

    /// The value of the cell one step from `(x, y)` in direction `d`.
    pub open spec fn toward(&self, x: int, y: int, d: Direction) -> u8 {
        self.cell(x + d.dx(), y + d.dy())
    }

    /// Same side length and goal region.
    pub open spec fn same_shape(&self, other: &Grid) -> bool {
        &&& self.size() == other.size()
        &&& self.goal_lo() == other.goal_lo()
        &&& self.goal_hi() == other.goal_hi()
    }

    /// `self` is `before` with cell `(x, y)` set to `v` and nothing else
    /// changed.
    pub open spec fn is_update_of(&self, before: &Grid, x: int, y: int, v: u8) -> bool {
        &&& self.same_shape(before)
        &&& before.inside(x, y) ==> self.cell(x, y) == v
        &&& forall|i: int, j: int| (i, j) != (x, y) ==> #[trigger] self.cell(i, j) == before.cell(i, j)
    }

    /// A grid of side `size` whose goal region spans `goal_lo..=goal_hi` on
    /// both axes, filled as `fill` says.
    pub fn new(size: u8, goal_lo: i32, goal_hi: i32, fill: Fill) -> (g: Grid)
        requires
            size >= 1,
        ensures
            g.size() == size,
            g.goal_lo() == goal_lo,
            g.goal_hi() == goal_hi,
            forall|x: int, y: int|
                g.inside(x, y) ==> #[trigger] g.cell(x, y) == fill_value(
                    fill,
                    goal_lo as int,
                    goal_hi as int,
                    x,
                    y,
                ),
    {
        let n = size as usize;
        let mut cells: Vec<u8> = Vec::new();
        let mut x: usize = 0;
        while x < n
            invariant
                n == size,
                1 <= n <= 255,
                x <= n,
                cells.len() == x * n,
                forall|i: int, j: int|
                    0 <= i < x && 0 <= j < n ==> #[trigger] cells[i * n + j] == fill_value(
                        fill,
                        goal_lo as int,
                        goal_hi as int,
                        i,
                        j,
                    ),
            decreases n - x,
        {
            let mut y: usize = 0;
            while y < n
                invariant
                    n == size,
                    1 <= n <= 255,
                    x < n,
                    y <= n,
                    cells.len() == x * n + y,
                    forall|i: int, j: int|
                        0 <= i < x && 0 <= j < n ==> #[trigger] cells[i * n + j] == fill_value(
                            fill,
                            goal_lo as int,
                            goal_hi as int,
                            i,
                            j,
                        ),
                    forall|j: int|
                        0 <= j < y ==> #[trigger] cells[x * n + j] == fill_value(
                            fill,
                            goal_lo as int,
                            goal_hi as int,
                            x as int,
                            j,
                        ),
                decreases n - y,
            {
                let v = initial_value(fill, goal_lo, goal_hi, x as u8, y as u8);
                let ghost before = cells@;
                cells.push(v);
                proof {
                    assert forall|i: int, j: int| 0 <= i < x && 0 <= j < n implies #[trigger] cells[i
                        * n + j] == fill_value(fill, goal_lo as int, goal_hi as int, i, j) by {
                        lemma_index(i, j, n as int);
                        assert(i * n + n <= x * n) by (nonlinear_arith)
                            requires
                                i + 1 <= x,
                                0 <= n,
                        ;
                        assert(cells[i * n + j] == before[i * n + j]);
                    }
                }
                y = y + 1;
            }
            proof {
                assert(x * n + n == (x + 1) * n) by (nonlinear_arith);
                assert forall|i: int, j: int| 0 <= i < x + 1 && 0 <= j < n implies #[trigger] cells[i
                    * n + j] == fill_value(fill, goal_lo as int, goal_hi as int, i, j) by {
                    if i == x {
                        assert(cells[x * n + j] == fill_value(
                            fill,
                            goal_lo as int,
                            goal_hi as int,
                            x as int,
                            j,
                        ));
                    }
                }
            }
            x = x + 1;
        }
        proof {
            assert(n * n == size as int * size as int);
        }
        Grid { size, goal_lo, goal_hi, cells }
    }

    /// The side length.
    pub fn side(&self) -> (n: u8)
        ensures
            n == self.size(),
            n >= 1,
    {
        proof {
            use_type_invariant(self);
        }
        self.size
    }

    /// The goal region's lowest and highest coordinate.
    pub fn goal(&self) -> (r: (i32, i32))
        ensures
            r.0 == self.goal_lo(),
            r.1 == self.goal_hi(),
    {
        (self.goal_lo, self.goal_hi)
    }

    /// The value of cell `(x, y)`; `BLOCKED` outside the grid.
    pub fn get_cell(&self, x: i32, y: i32) -> (v: u8)
        ensures
            v == self.cell(x as int, y as int),
    {
        proof {
            use_type_invariant(self);
        }
        let n = self.size as i32;
        if x >= 0 && x < n && y >= 0 && y < n {
            proof {
                lemma_index(x as int, y as int, n as int);
            }
            self.cells[x as usize * self.size as usize + y as usize]
        } else {
            BLOCKED
        }
    }

    /// The value of the cell one step from `(x, y)` in direction `d`.
    pub fn look(&self, x: i32, y: i32, d: Direction) -> (v: u8)
        ensures
            v == self.toward(x as int, y as int, d),
    {
        let (dx, dy) = d.step();
        if (dx > 0 && x == i32::MAX) || (dx < 0 && x == i32::MIN) || (dy > 0 && y == i32::MAX) || (
        dy < 0 && y == i32::MIN) {
            proof {
                use_type_invariant(self);
            }
            BLOCKED
        } else {
            self.get_cell(x + dx, y + dy)
        }
    }

    /// Whether `(x, y)` lies in the goal region.
    pub fn is_goal(&self, x: i32, y: i32) -> (b: bool)
        ensures
            b == self.in_goal(x as int, y as int),
    {
        x >= self.goal_lo && x <= self.goal_hi && y >= self.goal_lo && y <= self.goal_hi
    }

    fn clamp(&self, v: i32) -> (c: u8)
        ensures
            c == self.clamped(v as int),
            c < self.size(),
    {
        proof {
            use_type_invariant(self);
        }
        if v < 0 {
            0
        } else if v > self.size as i32 - 1 {
            self.size - 1
        } else {
            v as u8
        }
    }

    /// Writes `v` into the cell nearest to `(x, y)`.
    pub fn set_cell(&mut self, x: i32, y: i32, v: u8)
        ensures
            final(self).is_update_of(
                old(self),
                old(self).clamped(x as int),
                old(self).clamped(y as int),
                v,
            ),
            final(self).cell(old(self).clamped(x as int), old(self).clamped(y as int)) == v,
    {
        proof {
            use_type_invariant(&*self);
        }
        let ux = self.clamp(x);
        let uy = self.clamp(y);
        let n = self.size as usize;
        proof {
            lemma_index(ux as int, uy as int, n as int);
        }
        let k = ux as usize * n + uy as usize;
        self.cells[k] = v;
        proof {
            assert forall|i: int, j: int| (i, j) != (ux as int, uy as int) implies #[trigger] self.cell(
                i,
                j,
            ) == old(self).cell(i, j) by {
                if 0 <= i < n && 0 <= j < n {
                    lemma_index(i, j, n as int);
                    if i * n + j == k {
                        lemma_index_distinct(i, j, ux as int, uy as int, n as int);
                    }
                }
            }
        }
    }

    /// Counts one more visit of the cell nearest to `(x, y)`. A counter that
    /// has reached the largest value stays there.
    pub fn visit(&mut self, x: i32, y: i32)
        ensures
            final(self).is_update_of(
                old(self),
                old(self).clamped(x as int),
                old(self).clamped(y as int),
                bumped(old(self).cell(old(self).clamped(x as int), old(self).clamped(y as int))),
            ),
            final(self).cell(old(self).clamped(x as int), old(self).clamped(y as int)) == bumped(
                old(self).cell(old(self).clamped(x as int), old(self).clamped(y as int)),
            ),
    {
        let ux = self.clamp(x);
        let uy = self.clamp(y);
        let v = self.get_cell(ux as i32, uy as i32);
        let w = if v < BLOCKED {
            v + 1
        } else {
            BLOCKED
        };
        self.set_cell(ux as i32, uy as i32, w);
    }
}

/// A visit counter that has reached the largest value stays there: counting
/// one more visit in such a cell changes nothing in the grid.
pub proof fn lemma_counter_saturates(before: &Grid, after: &Grid, x: int, y: int)
    requires
        before.inside(x, y),
        before.cell(x, y) == BLOCKED,
        after.is_update_of(before, x, y, bumped(before.cell(x, y))),
    ensures
        bumped(BLOCKED) == BLOCKED,
        forall|i: int, j: int| #[trigger] after.cell(i, j) == before.cell(i, j),
{
    assert forall|i: int, j: int| #[trigger] after.cell(i, j) == before.cell(i, j) by {
        if (i, j) != (x, y) {
        }
    }
}

/// The value that `fill` gives to cell `(x, y)`.
fn initial_value(fill: Fill, lo: i32, hi: i32, x: u8, y: u8) -> (v: u8)
    ensures
        v == fill_value(fill, lo as int, hi as int, x as int, y as int),
{
    match fill {
        Fill::Flat(v) => v,
        Fill::Steps => {
            let s = distance(x, lo, hi) + distance(y, lo, hi);
            if s >= 255 {
                BLOCKED
            } else {
                s as u8
            }
        },
        Fill::Rings => {
            let gx = distance(x, lo, hi);
            let gy = distance(y, lo, hi);
            let m = if gx >= gy {
                gx
            } else {
                gy
            };
            if m >= 255 {
                BLOCKED
            } else {
                m as u8
            }
        },
    }
}

fn distance(v: u8, lo: i32, hi: i32) -> (g: i64)
    ensures
        g == gap(v as int, lo as int, hi as int),
        0 <= g <= 0x1_0000_0000,
{
    let w = v as i64;
    if w < lo as i64 {
        lo as i64 - w
    } else if w > hi as i64 {
        w - hi as i64
    } else {
        0
    }
}

} // verus!
