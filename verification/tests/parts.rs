use micromouse::battery::{Battery, Time};
use micromouse::distance::{start_range_continuous, Phase, RangeFinder, SensorAction};
use micromouse::lists::{IdList, Target};
use micromouse::maze::{Edge, Location, Maze, PartialCellEdges};
use micromouse::mouse::Mouse;
use micromouse::moves::{Direction, Move, MoveOptions};
use micromouse::msgid::MsgId;
use micromouse::msgs::{Msg, Payload};
use micromouse::navigate::Navigate;
use micromouse::random::{random_moves, LessRandomNavigate, RandomNavigate};

const F: [Option<Move>; 2] = [Some(Move::Forward), None];
const L: [Option<Move>; 2] = [Some(Move::TurnLeft), Some(Move::Forward)];
const R: [Option<Move>; 2] = [Some(Move::TurnRight), Some(Move::Forward)];
const B: [Option<Move>; 2] = [Some(Move::TurnAround), Some(Move::Forward)];

fn open(left: bool, forward: bool, right: bool) -> MoveOptions {
    MoveOptions { forward, left, right }
}

#[test]
fn directions_turn() {
    assert_eq!(Direction::Up.turn_left(), Direction::Left);
    assert_eq!(Direction::Left.turn_left(), Direction::Down);
    assert_eq!(Direction::Down.turn_left(), Direction::Right);
    assert_eq!(Direction::Right.turn_left(), Direction::Up);
    assert_eq!(Direction::Up.turn_right(), Direction::Right);
    assert_eq!(Direction::Right.turn_right(), Direction::Down);
    assert_eq!(Direction::Down.turn_right(), Direction::Left);
    assert_eq!(Direction::Left.turn_right(), Direction::Up);
    assert_eq!(Direction::Up.turn_around(), Direction::Down);
    assert_eq!(Direction::Down.turn_around(), Direction::Up);
    assert_eq!(Direction::Left.turn_around(), Direction::Right);
    assert_eq!(Direction::Right.turn_around(), Direction::Left);
    assert_eq!(Direction::Up.step(), (0, 1));
    assert_eq!(Direction::Down.step(), (0, -1));
    assert_eq!(Direction::Left.step(), (-1, 0));
    assert_eq!(Direction::Right.step(), (1, 0));
}

#[test]
fn random_moves_by_draw() {
    assert_eq!(random_moves(open(true, true, true), 0), L);
    assert_eq!(random_moves(open(true, true, true), 1), R);
    assert_eq!(random_moves(open(true, true, true), 2), F);
    assert_eq!(random_moves(open(true, false, true), 0), L);
    assert_eq!(random_moves(open(true, false, true), 1), R);
    assert_eq!(random_moves(open(false, true, true), 0), R);
    assert_eq!(random_moves(open(false, true, true), 1), F);
    assert_eq!(random_moves(open(true, true, false), 0), L);
    assert_eq!(random_moves(open(true, true, false), 1), F);
    assert_eq!(random_moves(open(false, true, false), 0), F);
    assert_eq!(random_moves(open(true, false, false), 0), L);
    assert_eq!(random_moves(open(false, false, true), 0), R);
    assert_eq!(random_moves(open(false, false, false), 0), B);
}

#[test]
fn random_navigator_repeats_itself_for_the_same_seed() {
    let seed = [7u8; 16];
    let mut a = RandomNavigate::new(seed);
    let mut b = RandomNavigate::new(seed);
    let asks = [
        open(true, true, true),
        open(true, false, true),
        open(false, true, true),
        open(true, true, false),
        open(false, false, false),
        open(true, true, true),
    ];
    for round in 0..50 {
        for (i, o) in asks.iter().enumerate() {
            let x = round as i32;
            let y = i as i32;
            assert_eq!(a.navigate(x, y, Direction::Up, *o), b.navigate(x, y, Direction::Up, *o));
        }
    }
}

#[test]
fn random_navigator_only_takes_open_sides_and_takes_them_all() {
    let mut nav = RandomNavigate::new([1, 2, 3, 4, 5, 6, 7, 8, 9, 10, 11, 12, 13, 14, 15, 16]);
    let mut seen = [false; 3];
    for _ in 0..200 {
        let m = nav.navigate(0, 0, Direction::Up, open(true, true, true));
        if m == L {
            seen[0] = true;
        } else if m == F {
            seen[1] = true;
        } else if m == R {
            seen[2] = true;
        } else {
            panic!("{:?}", m);
        }
    }
    assert_eq!(seen, [true, true, true]);
    let mut left = 0;
    for _ in 0..200 {
        let m = nav.navigate(0, 0, Direction::Up, open(true, false, true));
        assert!(m == L || m == R);
        if m == L {
            left += 1;
        }
    }
    assert!(left > 0 && left < 200);
    assert_eq!(nav.navigate(0, 0, Direction::Up, open(false, false, false)), B);
    assert_eq!(nav.navigate(0, 0, Direction::Up, open(false, true, false)), F);
}

#[test]
fn less_random_navigator_counts_on_the_practice_maze() {
    let mut nav = LessRandomNavigate::new([0u8; 16]);
    assert_eq!(nav.get_cell(2, 2), 0);
    assert_eq!(nav.get_cell(3, 0), 255);
    // the goal of a maze of side 3 is the one cell in the middle
    assert_eq!(
        nav.navigate(1, 1, Direction::Up, open(true, true, true)),
        [Some(Move::TurnAround), Some(Move::TurnLeft)]
    );
    assert_eq!(nav.get_cell(1, 1), 1);
    // at the start the visit is counted and the robot goes on
    assert_eq!(nav.navigate(0, 0, Direction::Up, open(true, true, true)), F);
    assert_eq!(nav.get_cell(0, 0), 1);
    nav.navigate(0, 1, Direction::Up, open(false, false, false));
    // front (0, 1) holds 1, right (1, 0) holds 0
    assert_eq!(nav.navigate(0, 0, Direction::Up, open(false, true, true)), R);
    // at (2, 2) heading up: front and right lie outside
    assert_eq!(nav.navigate(2, 2, Direction::Up, open(true, true, true)), L);
}

#[test]
fn battery_dies_after_five_seconds_without_a_good_sample() {
    let mut b = Battery::new();
    assert!(b.is_dead());
    b.update(100, 1500);
    assert!(b.is_dead());
    b.update(200, 2000);
    assert!(b.is_dead());
    b.update(300, 2001);
    assert!(!b.is_dead());
    b.update(5300, 0);
    assert!(!b.is_dead());
    b.update(5301, 0);
    assert!(b.is_dead());
    b.update(5302, 3000);
    assert!(!b.is_dead());
}

#[test]
fn clock_counts_timer_overflows() {
    let mut t = Time::new();
    assert_eq!(t.now(100), 100);
    assert_eq!(t.now(65000), 65000);
    assert_eq!(t.now(10), 65545);
    assert_eq!(t.now(10), 65545);
    assert_eq!(t.now(5), 131075);
    let mut t = Time { last_time: 1, overflows: 65538 };
    assert_eq!(t.now(0), ((65539u64 * 65535) % (1 << 32)) as u32);
}

#[test]
fn range_finder_cycle() {
    let mut s = RangeFinder::new();
    assert_eq!(s.range(), 255);
    assert_eq!(s.update(), SensorAction::Wait);
    assert_eq!(s.status(0x04), SensorAction::Wait);
    assert_eq!(s.start_ranging(), SensorAction::Start);
    assert_eq!(s.update(), SensorAction::Poll);
    assert_eq!(s.status(0x03), SensorAction::Wait);
    assert_eq!(s.result(9), SensorAction::Wait);
    assert_eq!(s.range(), 255);
    assert_eq!(s.status(0x07), SensorAction::Read);
    assert_eq!(s.phase, Phase::Reading);
    assert_eq!(s.update(), SensorAction::Read);
    assert_eq!(s.result(87), SensorAction::Start);
    assert_eq!(s.range(), 87);
    assert_eq!(s.update(), SensorAction::Poll);
}

#[test]
fn period_register_values() {
    assert_eq!(start_range_continuous(0), 0);
    assert_eq!(start_range_continuous(9), 0);
    assert_eq!(start_range_continuous(10), 0);
    assert_eq!(start_range_continuous(20), 1);
    assert_eq!(start_range_continuous(100), 9);
    assert_eq!(start_range_continuous(2550), 254);
    assert_eq!(start_range_continuous(2559), 254);
    assert_eq!(start_range_continuous(2560), 254);
    assert_eq!(start_range_continuous(32767), 254);
    assert_eq!(start_range_continuous(32768), 0);
}

#[test]
fn maze_from_file_and_rim() {
    let mut bytes = [0u8; 256];
    bytes[0] = 0x01; // (0, 0): wall to the north
    bytes[1] = 0x02; // (0, 1): wall to the east
    bytes[17] = 0x03; // (1, 1): both
    let maze = Maze::from_file(7u8, bytes);
    assert_eq!(maze.get(0, 0), (7, Edge::Closed, Edge::Closed, Edge::Open, Edge::Closed));
    assert_eq!(maze.get(0, 1), (7, Edge::Open, Edge::Closed, Edge::Closed, Edge::Closed));
    assert_eq!(maze.get(1, 1), (7, Edge::Closed, Edge::Open, Edge::Closed, Edge::Closed));
    assert_eq!(maze.get(1, 2), (7, Edge::Open, Edge::Closed, Edge::Open, Edge::Open));
    assert_eq!(maze.get(15, 15), (7, Edge::Closed, Edge::Open, Edge::Closed, Edge::Open));
    assert_eq!(maze.get(15, 0), (7, Edge::Open, Edge::Closed, Edge::Closed, Edge::Open));
    assert_eq!(
        maze.move_options(0, 0, Direction::Up),
        MoveOptions { forward: false, left: false, right: true }
    );
    assert_eq!(
        maze.move_options(1, 2, Direction::Left),
        MoveOptions { forward: true, left: false, right: true }
    );
    assert!(maze.cell(Location { x: 16, y: 0 }).is_none());
    assert!(maze.cell(Location { x: 0, y: 16 }).is_none());
    let (c, e) = maze.cell(Location { x: 1, y: 1 }).unwrap();
    assert_eq!(c, 7);
    assert_eq!(
        (e.north_edge, e.east_edge, e.south_edge, e.west_edge),
        (Edge::Closed, Edge::Closed, Edge::Open, Edge::Closed)
    );
}

#[test]
fn maze_set_and_update() {
    let mut maze = Maze::new((), Edge::Unknown);
    assert_eq!(maze.get(3, 3), ((), Edge::Unknown, Edge::Unknown, Edge::Unknown, Edge::Unknown));
    assert_eq!(maze.get(0, 15), ((), Edge::Closed, Edge::Unknown, Edge::Unknown, Edge::Closed));
    let learnt = PartialCellEdges {
        north_edge: Some(Edge::Open),
        east_edge: None,
        south_edge: Some(Edge::Closed),
        west_edge: Some(Edge::Open),
    };
    assert!(maze.update_cell(Location { x: 3, y: 3 }, None, learnt));
    assert_eq!(maze.get(3, 3), ((), Edge::Open, Edge::Closed, Edge::Unknown, Edge::Open));
    assert_eq!(maze.get(3, 4).2, Edge::Open);
    assert_eq!(maze.get(3, 2).1, Edge::Closed);
    assert_eq!(maze.get(2, 3).3, Edge::Open);
    assert!(!maze.update_cell(Location { x: 16, y: 3 }, None, learnt));
    // the rim stays closed
    let all_open = PartialCellEdges {
        north_edge: Some(Edge::Open),
        east_edge: Some(Edge::Open),
        south_edge: Some(Edge::Open),
        west_edge: Some(Edge::Open),
    };
    assert!(maze.update_cell(Location { x: 15, y: 0 }, None, all_open));
    assert_eq!(maze.get(15, 0), ((), Edge::Open, Edge::Closed, Edge::Closed, Edge::Open));
    let mut counts = Maze::new(0u8, Edge::Open);
    counts.set_cell(4, 5, 9);
    assert_eq!(counts.get(4, 5).0, 9);
    assert_eq!(counts.get(5, 4).0, 0);
    assert!(counts.update_cell(Location { x: 5, y: 4 }, Some(3), PartialCellEdges {
        north_edge: None,
        east_edge: None,
        south_edge: None,
        west_edge: None,
    }));
    assert_eq!(counts.get(5, 4), (3, Edge::Open, Edge::Open, Edge::Open, Edge::Open));
}

#[test]
fn telemetry_keeps_the_last_payload_of_every_message() {
    let mut mouse = Mouse::new();
    assert!(matches!(mouse.msg(MsgId::Time).payload(), Payload::Scalar(0)));
    assert!(matches!(mouse.msg(MsgId::LeftDistance).payload(), Payload::Byte(0)));
    mouse.update(Msg::new(MsgId::Time, Payload::Scalar(0x3f80_0000)).unwrap());
    mouse.update(Msg::new(MsgId::LeftDistance, Payload::Byte(44)).unwrap());
    mouse.update(Msg::new(MsgId::LinearP, Payload::Scalar(5)).unwrap());
    assert!(matches!(mouse.msg(MsgId::Time).payload(), Payload::Scalar(0x3f80_0000)));
    assert!(matches!(mouse.msg(MsgId::LeftDistance).payload(), Payload::Byte(44)));
    assert!(matches!(mouse.msg(MsgId::LinearP).payload(), Payload::Scalar(5)));
    assert!(matches!(mouse.msg(MsgId::LinearI).payload(), Payload::Scalar(0)));
    assert_eq!(mouse.msg(MsgId::LinearP).id(), MsgId::LinearP);
    let mut ids = IdList::new();
    ids.push(MsgId::Time);
    ids.push(MsgId::Battery);
    mouse.update(Msg::new(MsgId::Logged, Payload::Ids(ids)).unwrap());
    match mouse.msg(MsgId::Logged).payload() {
        Payload::Ids(l) => {
            assert_eq!(l.len(), 2);
            assert_eq!(l.get(1), MsgId::Battery);
        }
        _ => panic!("wrong payload"),
    }
    match mouse.msg(MsgId::Provided).payload() {
        Payload::Ids(l) => assert_eq!(l.len(), 0),
        _ => panic!("wrong payload"),
    }
}

#[test]
fn telemetry_queues_added_targets() {
    let mut mouse = Mouse::new();
    let a = Target { velocity: 1, distance: 2 };
    let b = Target { velocity: 3, distance: 4 };
    mouse.update(Msg::new(MsgId::AddLinear, Payload::Pair(a)).unwrap());
    mouse.update(Msg::new(MsgId::AddLinear, Payload::Pair(b)).unwrap());
    mouse.update(Msg::new(MsgId::AddAngular, Payload::Pair(b)).unwrap());
    // the newest target stands at the head, the oldest is taken first
    match mouse.msg(MsgId::LinearBuffer).payload() {
        Payload::Targets(l) => {
            assert_eq!(l.len(), 2);
            assert_eq!(l.get(0), b);
            assert_eq!(l.get(1), a);
        }
        _ => panic!("wrong payload"),
    }
    assert_eq!(mouse.take_target(MsgId::LinearBuffer), Some(a));
    assert_eq!(mouse.take_target(MsgId::LinearBuffer), Some(b));
    assert_eq!(mouse.take_target(MsgId::LinearBuffer), None);
    assert_eq!(mouse.take_target(MsgId::Time), None);
    assert!(mouse.update(Msg::new(MsgId::AddLinear, Payload::Pair(a)).unwrap()));
    assert!(mouse.update(Msg::new(MsgId::AddLinear, Payload::Pair(b)).unwrap()));
    match mouse.msg(MsgId::AngularBuffer).payload() {
        Payload::Targets(l) => assert_eq!(l.len(), 1),
        _ => panic!("wrong payload"),
    }
    // the message that adds is not kept itself
    assert!(matches!(
        mouse.msg(MsgId::AddLinear).payload(),
        Payload::Pair(Target { velocity: 0, distance: 0 })
    ));
    for i in 2..70 {
        let taken = mouse.update(Msg::new(MsgId::AddLinear, Payload::Pair(a)).unwrap());
        assert_eq!(taken, i < 64);
    }
    match mouse.msg(MsgId::LinearBuffer).payload() {
        Payload::Targets(l) => assert_eq!(l.len(), 64),
        _ => panic!("wrong payload"),
    }
}

#[test]
fn positions_outside_the_grid_read_blocked() {
    let n = micromouse::strategies::CountingNavigate::new();
    assert_eq!(n.get_cell(-1, 0), 255);
    assert_eq!(n.get_cell(0, 16), 255);
    assert_eq!(n.get_cell(15, 15), 0);
    let f = micromouse::strategies::FloodFillNavigate::new();
    assert_eq!(f.get_cell(-1, 0), 255);
    assert_eq!(f.get_cell(7, 8), 0);
    let d = micromouse::strategies::DeadEndNavigate::new();
    assert!(d.get_cell(16, 0));
    assert!(!d.get_cell(15, 0));
    let mut c = micromouse::strategies::CountingDeadEndNavigate::new();
    assert_eq!(c.navigate(0, 0, Direction::Up, open(false, true, false)), F);
    assert_eq!(c.get_cell(0, 0), 255);
    assert_eq!(c.get_cell(0, 1), 0);
    let mut t = micromouse::strategies::TwelvePartitionNavigate::new();
    assert_eq!(t.navigate(0, 0, Direction::Up, open(false, false, false)), B);
    assert_eq!(t.get_cell(0, 0), 1);
}
