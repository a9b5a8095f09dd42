//! A maze of 16 by 16 cells: what is known of the wall on every edge
//! between two cells, and a value of the caller's choice in every cell. The
//! outer edge of the maze is always closed.

use vstd::prelude::*;
use crate::moves::{Direction, MoveOptions};

verus! {

/// Cells from west to east.
pub const WIDTH: usize = 16;

/// Cells from south to north.
pub const HEIGHT: usize = 16;

/// What is known of the edge between two cells.
#[derive(Clone, Copy, Debug, PartialEq, Eq, Structural)]
pub enum Edge {
    Open,
    Closed,
    Unknown,
}

/// A cell by its coordinates.
#[derive(Clone, Copy, Debug, PartialEq, Eq, Structural)]
pub struct Location {
    pub x: usize,
    pub y: usize,
}

/// The four edges of a cell.
#[derive(Clone, Copy, Debug, PartialEq, Eq, Structural)]
pub struct FullCellEdges {
    pub north_edge: Edge,
    pub east_edge: Edge,
    pub south_edge: Edge,
    pub west_edge: Edge,
}

/// New knowledge of some of the edges of a cell.
#[derive(Clone, Copy, Debug, PartialEq, Eq, Structural)]
pub struct PartialCellEdges {
    pub north_edge: Option<Edge>,
    pub east_edge: Option<Edge>,
    pub south_edge: Option<Edge>,
    pub west_edge: Option<Edge>,
}

/// The edge north of a cell, as a byte of a maze file has it in its lowest
/// bit: set means wall.
pub open spec fn north_bit(byte: u8) -> Edge {
    if byte & 0x01 == 0x01 {
        Edge::Closed
    } else {
        Edge::Open
    }
}

/// The edge east of a cell, as a byte of a maze file has it in its second
/// bit: set means wall.
pub open spec fn east_bit(byte: u8) -> Edge {
    if byte & 0x02 == 0x02 {
        Edge::Closed
    } else {
        Edge::Open
    }
}

/// The maze. `north(x, y)` is the edge north of cell `(x, y)`, `east(x, y)`
/// the edge east of it, `at(x, y)` the value in it.
pub struct Maze<C: Copy> {
    horizontal_edges: Vec<Edge>,
    vertical_edges: Vec<Edge>,
    cells: Vec<C>,
}

impl<C: Copy> Maze<C> {
    #[verifier::type_invariant]
    spec fn well_formed(self) -> bool {
        &&& self.horizontal_edges@.len() == WIDTH * HEIGHT
        &&& self.vertical_edges@.len() == WIDTH * HEIGHT
        &&& self.cells@.len() == WIDTH * HEIGHT
    }

    /// Whether `(x, y)` names a cell.
    pub open spec fn inside(x: int, y: int) -> bool {
        0 <= x < WIDTH && 0 <= y < HEIGHT
    }

    /// What is kept for the edge north of cell `(x, y)`.
    pub closed spec fn kept_north(&self, x: int, y: int) -> Edge {
        self.horizontal_edges@[x * HEIGHT + y]
    }

    /// What is kept for the edge east of cell `(x, y)`.
    pub closed spec fn kept_east(&self, x: int, y: int) -> Edge {
        self.vertical_edges@[x * HEIGHT + y]
    }

    /// The edge north of cell `(x, y)`; closed along the northern rim.
    pub open spec fn north(&self, x: int, y: int) -> Edge {
        if y >= HEIGHT - 1 {
            Edge::Closed
        } else {
            self.kept_north(x, y)
        }
    }

    /// The edge east of cell `(x, y)`; closed along the eastern rim.
    pub open spec fn east(&self, x: int, y: int) -> Edge {
        if x >= WIDTH - 1 {
            Edge::Closed
        } else {
            self.kept_east(x, y)
        }
    }

    /// The edge south of cell `(x, y)`: the edge north of the cell below.
    pub open spec fn south(&self, x: int, y: int) -> Edge {
        if y <= 0 {
            Edge::Closed
        } else {
            self.north(x, y - 1)
        }
    }

    /// The edge west of cell `(x, y)`: the edge east of the cell beside it.
    pub open spec fn west(&self, x: int, y: int) -> Edge {
        if x <= 0 {
            Edge::Closed
        } else {
            self.east(x - 1, y)
        }
    }

    /// The value in cell `(x, y)`.
    pub closed spec fn at(&self, x: int, y: int) -> C {
        self.cells@[x * HEIGHT + y]
    }

    /// The edge on the side of cell `(x, y)` that faces `d`.
    pub open spec fn facing(&self, x: int, y: int, d: Direction) -> Edge {
        match d {
            Direction::Up => self.north(x, y),
            Direction::Down => self.south(x, y),
            Direction::Right => self.east(x, y),
            Direction::Left => self.west(x, y),
        }
    }

    /// Which sides a robot in cell `(x, y)` heading `d` finds open.
    pub open spec fn openings(&self, x: int, y: int, d: Direction) -> MoveOptions {
        MoveOptions {
            forward: self.facing(x, y, d) == Edge::Open,
            left: self.facing(x, y, d.left_of()) == Edge::Open,
            right: self.facing(x, y, d.right_of()) == Edge::Open,
        }
    }

    /// A maze with `cell` in every cell and `edge` on every inner edge.
    pub fn new(cell: C, edge: Edge) -> (m: Maze<C>)
        ensures
            forall|x: int, y: int|
                Self::inside(x, y) ==> #[trigger] m.at(x, y) == cell && m.north(x, y) == (if y
                    < HEIGHT - 1 {
                    edge
                } else {
                    Edge::Closed
                }) && m.east(x, y) == (if x < WIDTH - 1 {
                    edge
                } else {
                    Edge::Closed
                }),
    {
        let mut horizontal_edges: Vec<Edge> = Vec::new();
        let mut vertical_edges: Vec<Edge> = Vec::new();
        let mut cells: Vec<C> = Vec::new();
        let mut i: usize = 0;
        while i < WIDTH * HEIGHT
            invariant
                i <= WIDTH * HEIGHT,
                horizontal_edges@.len() == i,
                vertical_edges@.len() == i,
                cells@.len() == i,
                forall|k: int| 0 <= k < i ==> horizontal_edges@[k] == edge,
                forall|k: int| 0 <= k < i ==> vertical_edges@[k] == edge,
                forall|k: int| 0 <= k < i ==> cells@[k] == cell,
            decreases WIDTH * HEIGHT - i,
        {
            horizontal_edges.push(edge);
            vertical_edges.push(edge);
            cells.push(cell);
            i = i + 1;
        }
        Maze { horizontal_edges, vertical_edges, cells }
    }

    /// The maze that a maze file describes, with `cell` in every cell. The
    /// file has one byte for each cell, column by column from the west and
    /// within a column from the south; the byte's lowest bit tells of the
    /// wall north of the cell, the next bit of the wall east of it.
    pub fn from_file(cell: C, bytes: [u8; 256]) -> (m: Maze<C>)
        ensures
            forall|x: int, y: int|
                Self::inside(x, y) ==> #[trigger] m.at(x, y) == cell && m.north(x, y) == (if y
                    < HEIGHT - 1 {
                    north_bit(bytes@[x * HEIGHT + y])
                } else {
                    Edge::Closed
                }) && m.east(x, y) == (if x < WIDTH - 1 {
                    east_bit(bytes@[x * HEIGHT + y])
                } else {
                    Edge::Closed
                }),
    {
        let mut horizontal_edges: Vec<Edge> = Vec::new();
        let mut vertical_edges: Vec<Edge> = Vec::new();
        let mut cells: Vec<C> = Vec::new();
        let mut i: usize = 0;
        while i < WIDTH * HEIGHT
            invariant
                i <= WIDTH * HEIGHT,
                horizontal_edges@.len() == i,
                vertical_edges@.len() == i,
                cells@.len() == i,
                forall|k: int| 0 <= k < i ==> horizontal_edges@[k] == north_bit(bytes@[k]),
                forall|k: int| 0 <= k < i ==> vertical_edges@[k] == east_bit(bytes@[k]),
                forall|k: int| 0 <= k < i ==> cells@[k] == cell,
            decreases WIDTH * HEIGHT - i,
        {
            let byte = bytes[i];
            let north = if byte & 0x01 == 0x01 {
                Edge::Closed
            } else {
                Edge::Open
            };
            let east = if byte & 0x02 == 0x02 {
                Edge::Closed
            } else {
                Edge::Open
            };
            horizontal_edges.push(north);
            vertical_edges.push(east);
            cells.push(cell);
            i = i + 1;
        }
        Maze { horizontal_edges, vertical_edges, cells }
    }

    /// The value in cell `(x, y)` and the edges north, south, east and west
    /// of it, in this order.
    pub fn get(&self, x: usize, y: usize) -> (r: (C, Edge, Edge, Edge, Edge))
        requires
            x < WIDTH,
            y < HEIGHT,
        ensures
            r.0 == self.at(x as int, y as int),
            r.1 == self.north(x as int, y as int),
            r.2 == self.south(x as int, y as int),
            r.3 == self.east(x as int, y as int),
            r.4 == self.west(x as int, y as int),
    {
        proof {
            use_type_invariant(self);
        }
        let north_edge = if y >= HEIGHT - 1 {
            Edge::Closed
        } else {
            self.horizontal_edges[x * HEIGHT + y]
        };
        let south_edge = if y == 0 {
            Edge::Closed
        } else {
            self.horizontal_edges[x * HEIGHT + y - 1]
        };
        let east_edge = if x >= WIDTH - 1 {
            Edge::Closed
        } else {
            self.vertical_edges[x * HEIGHT + y]
        };
        let west_edge = if x == 0 {
            Edge::Closed
        } else {
            self.vertical_edges[(x - 1) * HEIGHT + y]
        };
        let cell = self.cells[x * HEIGHT + y];
        (cell, north_edge, south_edge, east_edge, west_edge)
    }

    /// The value and the four edges of the cell at `location`, or `None` if
    /// there is no such cell.
    pub fn cell(&self, location: Location) -> (r: Option<(C, FullCellEdges)>)
        ensures
            r == if Self::inside(location.x as int, location.y as int) {
                Some(
                    (
                        self.at(location.x as int, location.y as int),
                        FullCellEdges {
                            north_edge: self.north(location.x as int, location.y as int),
                            east_edge: self.east(location.x as int, location.y as int),
                            south_edge: self.south(location.x as int, location.y as int),
                            west_edge: self.west(location.x as int, location.y as int),
                        },
                    ),
                )
            } else {
                None
            },
    {
        if location.x < WIDTH && location.y < HEIGHT {
            let (c, north_edge, south_edge, east_edge, west_edge) = self.get(
                location.x,
                location.y,
            );
            Some((c, FullCellEdges { north_edge, east_edge, south_edge, west_edge }))
        } else {
            None
        }
    }

    /// Puts `cell` into cell `(x, y)`.
    pub fn set_cell(&mut self, x: usize, y: usize, cell: C)
        requires
            x < WIDTH,
            y < HEIGHT,
        ensures
            final(self).at(x as int, y as int) == cell,
            forall|i: int, j: int|
                Self::inside(i, j) && (i, j) != (x as int, y as int) ==> #[trigger] final(self).at(
                    i,
                    j,
                ) == old(self).at(i, j),
            forall|i: int, j: int| #[trigger] final(self).north(i, j) == old(self).north(i, j),
            forall|i: int, j: int| #[trigger] final(self).east(i, j) == old(self).east(i, j),
    {
        proof {
            use_type_invariant(&*self);
        }
        self.cells[x * HEIGHT + y] = cell;
    }

    /// Takes in what was learnt of the cell at `location`: a new value, new
    /// knowledge of some of its edges, or both. An edge on the rim of the
    /// maze stays closed whatever is said of it. With no such cell nothing
    /// changes, and the answer is `false`.
    pub fn update_cell(&mut self, location: Location, cell: Option<C>, edges: PartialCellEdges) -> (known:
        bool)
        ensures
            known == Self::inside(location.x as int, location.y as int),
            !known ==> forall|i: int, j: int|
                #![trigger final(self).at(i, j)]
                #![trigger final(self).north(i, j)]
                #![trigger final(self).east(i, j)]
                final(self).at(i, j) == old(self).at(i, j) && final(self).north(i, j) == old(
                    self,
                ).north(i, j) && final(self).east(i, j) == old(self).east(i, j),
            known ==> {
                let x = location.x as int;
                let y = location.y as int;
                &&& final(self).at(x, y) == match cell {
                    Some(c) => c,
                    None => old(self).at(x, y),
                }
                &&& forall|i: int, j: int|
                    Self::inside(i, j) && (i, j) != (x, y) ==> #[trigger] final(self).at(i, j)
                        == old(self).at(i, j)
                &&& forall|i: int, j: int|
                    Self::inside(i, j) ==> #[trigger] final(self).north(i, j) == if (i, j) == (x, y)
                        && edges.north_edge is Some && y < HEIGHT - 1 {
                        edges.north_edge->0
                    } else if (i, j) == (x, y - 1) && edges.south_edge is Some {
                        edges.south_edge->0
                    } else {
                        old(self).north(i, j)
                    }
                &&& forall|i: int, j: int|
                    Self::inside(i, j) ==> #[trigger] final(self).east(i, j) == if (i, j) == (x, y)
                        && edges.east_edge is Some && x < WIDTH - 1 {
                        edges.east_edge->0
                    } else if (i, j) == (x - 1, y) && edges.west_edge is Some {
                        edges.west_edge->0
                    } else {
                        old(self).east(i, j)
                    }
            },
    {
        proof {
            use_type_invariant(&*self);
        }
        let x = location.x;
        let y = location.y;
        if x >= WIDTH || y >= HEIGHT {
            return false;
        }
        match cell {
            Some(c) => {
                self.cells[x * HEIGHT + y] = c;
            },
            None => {},
        }
        match edges.south_edge {
            Some(e) => {
                if y > 0 {
                    self.horizontal_edges[x * HEIGHT + y - 1] = e;
                }
            },
            None => {},
        }
        match edges.north_edge {
            Some(e) => {
                if y < HEIGHT - 1 {
                    self.horizontal_edges[x * HEIGHT + y] = e;
                }
            },
            None => {},
        }
        match edges.west_edge {
            Some(e) => {
                if x > 0 {
                    self.vertical_edges[(x - 1) * HEIGHT + y] = e;
                }
            },
            None => {},
        }
        match edges.east_edge {
            Some(e) => {
                if x < WIDTH - 1 {
                    self.vertical_edges[x * HEIGHT + y] = e;
                }
            },
            None => {},
        }
        true
    }

    /// Which sides a robot in cell `(x, y)` heading `d` finds open.
    pub fn move_options(&self, x: usize, y: usize, d: Direction) -> (o: MoveOptions)
        requires
            x < WIDTH,
            y < HEIGHT,
        ensures
            o == self.openings(x as int, y as int, d),
    {
        let (_, north_edge, south_edge, east_edge, west_edge) = self.get(x, y);
        let (front, left, right) = match d {
            Direction::Up => (north_edge, west_edge, east_edge),
            Direction::Down => (south_edge, east_edge, west_edge),
            Direction::Right => (east_edge, north_edge, south_edge),
            Direction::Left => (west_edge, south_edge, north_edge),
        };
        MoveOptions {
            forward: is_open(front),
            left: is_open(left),
            right: is_open(right),
        }
    }
}

fn is_open(e: Edge) -> (b: bool)
    ensures
        b == (e == Edge::Open),
{
    match e {
        Edge::Open => true,
        _ => false,
    }
}

} // verus!
