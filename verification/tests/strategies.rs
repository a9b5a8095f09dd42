use micromouse::grid::{Fill, Grid, BLOCKED};
use micromouse::moves::{Direction, Move, MoveOptions};
use micromouse::navigate::Navigate;
use micromouse::strategies::{
    CountingDeadEndNavigate, CountingNavigate, DeadEndNavigate, FloodFillDeadEndNavigate,
    FloodFillNavigate, FloodFillSquareDeadEndNavigate, FloodFillSquareNavigate, LeftWall,
    TwelvePartitionNavigate,
};

const F: [Option<Move>; 2] = [Some(Move::Forward), None];
const L: [Option<Move>; 2] = [Some(Move::TurnLeft), Some(Move::Forward)];
const R: [Option<Move>; 2] = [Some(Move::TurnRight), Some(Move::Forward)];
const B: [Option<Move>; 2] = [Some(Move::TurnAround), Some(Move::Forward)];
const WIN: [Option<Move>; 2] = [Some(Move::TurnLeft), Some(Move::TurnLeft)];

fn open(left: bool, forward: bool, right: bool) -> MoveOptions {
    MoveOptions { forward, left, right }
}

#[test]
fn left_wall_prefers_left_then_front_then_right() {
    let mut nav = LeftWall::new();
    assert_eq!(nav.navigate(0, 0, Direction::Up, open(true, true, true)), L);
    assert_eq!(nav.navigate(0, 0, Direction::Up, open(false, true, true)), F);
    assert_eq!(nav.navigate(0, 0, Direction::Up, open(false, false, true)), R);
    assert_eq!(nav.navigate(0, 0, Direction::Up, open(false, false, false)), B);
}

#[test]
fn left_wall_with_only_left_open_turns_left_then_advances() {
    let mut nav = LeftWall::new();
    assert_eq!(
        nav.navigate(3, 4, Direction::Right, open(true, false, false)),
        [Some(Move::TurnLeft), Some(Move::Forward)]
    );
}

#[test]
fn grid_reads_blocked_outside() {
    let g = Grid::new(16, 7, 8, Fill::Flat(3));
    assert_eq!(g.get_cell(0, 0), 3);
    assert_eq!(g.get_cell(15, 15), 3);
    assert_eq!(g.get_cell(-1, 0), BLOCKED);
    assert_eq!(g.get_cell(0, 16), BLOCKED);
    assert_eq!(g.get_cell(i32::MAX, i32::MIN), BLOCKED);
    assert_eq!(g.look(i32::MAX, 0, Direction::Right), BLOCKED);
    assert_eq!(g.look(0, 0, Direction::Down), BLOCKED);
    assert_eq!(g.look(0, 0, Direction::Up), 3);
}

#[test]
fn grid_visit_counts_and_saturates() {
    let mut g = Grid::new(4, 1, 2, Fill::Flat(253));
    g.visit(2, 3);
    assert_eq!(g.get_cell(2, 3), 254);
    g.visit(2, 3);
    assert_eq!(g.get_cell(2, 3), 255);
    g.visit(2, 3);
    assert_eq!(g.get_cell(2, 3), 255);
    assert_eq!(g.get_cell(3, 2), 253);
    assert_eq!(g.get_cell(2, 2), 253);
}

#[test]
fn grid_visit_clamps_to_the_nearest_cell() {
    let mut g = Grid::new(3, 7, 8, Fill::Flat(0));
    g.visit(-5, 9);
    assert_eq!(g.get_cell(0, 2), 1);
    g.set_cell(40, -1, 9);
    assert_eq!(g.get_cell(2, 0), 9);
    assert_eq!(g.side(), 3);
    assert_eq!(g.goal(), (7, 8));
    assert!(g.is_goal(7, 8));
    assert!(!g.is_goal(6, 8));
}

#[test]
fn grid_fill_by_steps_and_rings() {
    let steps = Grid::new(16, 7, 8, Fill::Steps);
    assert_eq!(steps.get_cell(0, 0), 14);
    assert_eq!(steps.get_cell(7, 7), 0);
    assert_eq!(steps.get_cell(8, 7), 0);
    assert_eq!(steps.get_cell(15, 15), 14);
    assert_eq!(steps.get_cell(3, 8), 4);
    assert_eq!(steps.get_cell(10, 2), 7);
    let rings = Grid::new(16, 7, 8, Fill::Rings);
    assert_eq!(rings.get_cell(0, 0), 7);
    assert_eq!(rings.get_cell(3, 8), 4);
    assert_eq!(rings.get_cell(10, 2), 5);
    assert_eq!(rings.get_cell(15, 9), 7);
}

#[test]
fn counting_prefers_least_visited_open_cell() {
    let mut nav = CountingNavigate::new();
    // fresh grid: all zero, front wins the tie
    assert_eq!(nav.navigate(0, 0, Direction::Up, open(true, true, true)), F);
    assert_eq!(nav.get_cell(0, 0), 1);
    // visit (0, 1) twice, then stand at (0, 0) heading right: left is (0, 1)
    nav.navigate(0, 1, Direction::Up, open(false, false, false));
    nav.navigate(0, 1, Direction::Up, open(false, false, false));
    assert_eq!(nav.get_cell(0, 1), 2);
    // front (1, 0) has 0, left (0, 1) has 2
    assert_eq!(nav.navigate(0, 0, Direction::Right, open(true, true, false)), F);
    // only left open
    assert_eq!(nav.navigate(0, 0, Direction::Right, open(true, false, false)), L);
    // heading up at (1, 1): left is (0, 1) with 2, front (1, 2) with 0, right (2, 1) with 0
    assert_eq!(nav.navigate(1, 1, Direction::Up, open(true, false, true)), R);
    assert_eq!(nav.navigate(1, 1, Direction::Up, open(false, false, false)), B);
}

#[test]
fn counting_answers_the_goal_with_a_spin() {
    let mut nav = CountingNavigate::new();
    assert_eq!(nav.navigate(7, 8, Direction::Up, open(true, true, true)), WIN);
    assert_eq!(nav.get_cell(7, 8), 1);
    assert_eq!(nav.navigate(8, 7, Direction::Down, open(false, false, false)), WIN);
    assert_eq!(nav.navigate(6, 8, Direction::Down, open(false, false, false)), B);
}

#[test]
fn counting_counter_stops_at_255() {
    let mut nav = CountingNavigate::with_size(2);
    for _ in 0..300 {
        nav.navigate(1, 1, Direction::Up, open(false, false, false));
    }
    assert_eq!(nav.get_cell(1, 1), 255);
    assert_eq!(nav.get_cell(0, 0), 0);
}

#[test]
fn counting_dead_end_marks_the_cell() {
    let mut nav = CountingDeadEndNavigate::new();
    // at (0, 0) heading down: front and right are outside, left (1, 0) walled,
    // rear (0, 1) is free: three sides closed
    assert_eq!(nav.navigate(0, 0, Direction::Down, open(false, false, false)), B);
    assert_eq!(nav.get_cell(0, 0), 255);
    // a cell with two ways out is only counted
    assert_eq!(nav.navigate(5, 5, Direction::Up, open(false, true, false)), F);
    assert_eq!(nav.get_cell(5, 5), 1);
    // the marked cell is entered last
    assert_eq!(nav.navigate(0, 1, Direction::Down, open(true, true, false)), L);
}

#[test]
fn dead_end_navigator_skips_dead_cells() {
    let mut nav = DeadEndNavigate::new();
    assert!(!nav.get_cell(0, 0));
    assert!(nav.get_cell(-1, 0));
    assert_eq!(nav.navigate(0, 0, Direction::Down, open(false, false, false)), B);
    assert!(nav.get_cell(0, 0));
    // front (0, 0) is dead, left is (1, 1)
    assert_eq!(nav.navigate(0, 1, Direction::Down, open(true, true, false)), L);
    // front dead and nothing else open
    assert_eq!(nav.navigate(0, 1, Direction::Down, open(false, true, false)), B);
    assert_eq!(nav.navigate(7, 7, Direction::Up, open(true, true, true)), WIN);
    assert!(!nav.get_cell(7, 7));
}

#[test]
fn flood_fill_heads_for_the_goal() {
    let mut nav = FloodFillNavigate::new();
    assert_eq!(nav.get_cell(0, 0), 14);
    // at (0, 0) heading up: front (0, 1) has 13, right (1, 0) has 13: front wins
    assert_eq!(nav.navigate(0, 0, Direction::Up, open(false, true, true)), F);
    assert_eq!(nav.get_cell(0, 0), 15);
    // at (3, 3) heading left: front (2, 3) has 9, left (3, 2) has 9, right (3, 4) has 7
    assert_eq!(nav.navigate(3, 3, Direction::Left, open(true, true, true)), R);
    let mut sq = FloodFillSquareNavigate::new();
    assert_eq!(sq.get_cell(0, 0), 7);
    // at (3, 5) heading up: front (3, 6) has 4, left (2, 5) has 5, right (4, 5) has 3
    assert_eq!(sq.navigate(3, 5, Direction::Up, open(true, true, true)), R);
}

#[test]
fn flood_fill_dead_end_variants_mark() {
    let mut a = FloodFillDeadEndNavigate::new();
    assert_eq!(a.navigate(15, 15, Direction::Up, open(false, false, false)), B);
    assert_eq!(a.get_cell(15, 15), 255);
    let mut b = FloodFillSquareDeadEndNavigate::new();
    assert_eq!(b.navigate(15, 0, Direction::Right, open(false, false, false)), B);
    assert_eq!(b.get_cell(15, 0), 255);
    assert_eq!(b.navigate(8, 8, Direction::Right, open(false, false, false)), WIN);
    assert_eq!(b.get_cell(8, 8), 1);
}

#[test]
fn twelve_partition_breaks_ties_toward_the_goal() {
    let mut nav = TwelvePartitionNavigate::new();
    // south-west of the goal heading up: front, then right, then left
    assert_eq!(nav.navigate(2, 2, Direction::Up, open(true, false, true)), R);
    assert_eq!(nav.navigate(2, 2, Direction::Up, open(true, true, true)), F);
    // south-west heading down: left first
    assert_eq!(nav.navigate(2, 3, Direction::Down, open(true, true, true)), L);
    // south-west heading left: right first
    assert_eq!(nav.navigate(3, 3, Direction::Left, open(true, true, true)), R);
    // north-east heading up: left first
    assert_eq!(nav.navigate(12, 12, Direction::Up, open(true, true, true)), L);
    // in column 7 below the goal heading right: left first
    assert_eq!(nav.navigate(7, 2, Direction::Right, open(true, true, true)), L);
    // in row 8 east of the goal heading left: right first... but front before left
    assert_eq!(nav.navigate(12, 8, Direction::Left, open(true, true, false)), F);
    assert_eq!(nav.navigate(7, 7, Direction::Left, open(true, true, true)), WIN);
}

#[test]
fn twelve_partition_takes_lower_value_over_priority() {
    let mut nav = TwelvePartitionNavigate::new();
    // make (2, 3), the front cell of (2, 2) heading up, more visited
    nav.navigate(2, 3, Direction::Up, open(true, true, true));
    assert_eq!(nav.get_cell(2, 3), 1);
    // right (3, 2) has 0, left (1, 2) has 0: right comes before left here
    assert_eq!(nav.navigate(2, 2, Direction::Up, open(true, true, true)), R);
    assert_eq!(nav.navigate(2, 2, Direction::Up, open(true, true, false)), L);
    assert_eq!(nav.navigate(2, 2, Direction::Up, open(false, true, false)), F);
    assert_eq!(nav.navigate(2, 2, Direction::Up, open(false, false, false)), B);
}

#[test]
fn the_goal_is_the_middle_of_the_maze() {
    assert_eq!(CountingNavigate::with_size(16).grid().goal(), (7, 8));
    assert_eq!(CountingNavigate::with_size(3).grid().goal(), (1, 1));
    assert_eq!(CountingNavigate::with_size(2).grid().goal(), (0, 1));
    assert_eq!(CountingNavigate::with_size(1).grid().goal(), (0, 0));
    assert_eq!(CountingNavigate::new().grid().goal(), (7, 8));
    let mut small = TwelvePartitionNavigate::with_size(5);
    assert_eq!(small.navigate(2, 2, Direction::Up, open(true, true, true)), WIN);
    assert_eq!(small.navigate(1, 2, Direction::Up, open(false, false, false)), B);
}
