use micromouse::bot::{since, ticks_between, Bot, Readings, WheelStep};
use micromouse::config::{BotConfig, ConfigKey, ConfigValue};
use micromouse::control::{Control, CurrentMove, Drive, LinearMove, SpinMove};
use micromouse::moves::{Direction, Move, MoveOptions};
use micromouse::navigate::Navigate;
use micromouse::plan::{MoveQueue, Plan};
use micromouse::strategies::{CountingNavigate, LeftWall};
use pid_control::{Controller, PIDController};

fn config() -> BotConfig {
    let mut c = BotConfig::zero();
    // ticks and millimetres are kept in thousandths
    c.spin_err = 5_000;
    c.spin_settle = 100;
    c.linear_err = 10_000;
    c.linear_front_err = 2_000;
    c.linear_settle = 100;
    c.linear_spin_pos_p = 500;
    c.ticks_per_spin = 2_064_000;
    c.ticks_per_cell = 1_620_000;
    c.cell_width = 180_000;
    c.cell_offset = 50_000;
    c.front_wall_distance = 40_000;
    c.wall_threshold = 100_000;
    c
}

fn at(left: i32, right: i32) -> Readings {
    Readings { left_pos: left, right_pos: right, front_distance: 255, left_distance: 255, right_distance: 255 }
}

fn walls(left: u8, front: u8, right: u8) -> Readings {
    Readings { left_pos: 0, right_pos: 0, front_distance: front, left_distance: left, right_distance: right }
}

#[test]
fn clock_and_counter_wrap() {
    assert_eq!(since(30, 10), 20);
    assert_eq!(since(5, u32::MAX - 4), 10);
    assert_eq!(ticks_between(7, 3), 4);
    assert_eq!(ticks_between(3, 7), -4);
    assert_eq!(ticks_between(i32::MIN + 1, i32::MAX), 2);
    assert_eq!(ticks_between(i32::MAX, i32::MIN + 1), -2);
}

#[test]
fn config_get_and_set_by_key() {
    let mut c = config();
    assert_eq!(c.get(ConfigKey::SpinSettle), ConfigValue::Number(100));
    assert_eq!(c.get(ConfigKey::LeftP), ConfigValue::Gain(0));
    assert!(c.set(ConfigKey::LeftP, ConfigValue::Gain(1.5f64.to_bits())));
    assert_eq!(c.left_p, 1.5f64.to_bits());
    assert!(!c.set(ConfigKey::LeftP, ConfigValue::Number(3)));
    assert!(!c.set(ConfigKey::SpinErr, ConfigValue::Gain(3)));
    assert!(!c.set(ConfigKey::SpinErr, ConfigValue::Number(-1)));
    assert!(!c.set(ConfigKey::SpinErr, ConfigValue::Number(1 << 32)));
    assert!(c.set(ConfigKey::SpinErr, ConfigValue::Number(2_500)));
    assert_eq!(c.spin_err, 2_500);
    assert!(!c.set(ConfigKey::WallThreshold, ConfigValue::Number(-1)));
    assert!(c.set(ConfigKey::WallThreshold, ConfigValue::Number(255_000)));
    assert!(ConfigKey::SpinSettle.whole());
    assert!(!ConfigKey::SpinErr.whole());
    assert!(c.set(ConfigKey::LinearSpinPosP, ConfigValue::Number(-250)));
    assert_eq!(c.linear_spin_pos_p, -250);
    assert!(!c.set(ConfigKey::TicksPerSpin, ConfigValue::Number(-1)));
    assert!(c.set(ConfigKey::TicksPerSpin, ConfigValue::Number(4_000_000_000)));
    assert!(c.set(ConfigKey::TicksPerCell, ConfigValue::Number(-1_620_000)));
    assert!(!c.set(ConfigKey::LinearSettle, ConfigValue::Number(1 << 32)));
    assert!(ConfigKey::SpinD.gain());
    assert!(!ConfigKey::CellWidth.gain());
}

#[test]
fn bot_runs_wheel_loops_once_per_period() {
    let mut bot = Bot::new(config());
    assert_eq!(bot.front_distance(), 255);
    bot.sense(at(40, 30));
    assert_eq!(bot.update(10), None);
    assert_eq!(bot.update(11), Some(WheelStep { dt: 11, left_delta: 40, right_delta: 30 }));
    bot.sense(at(50, 25));
    assert_eq!(bot.update(15), None);
    assert_eq!(bot.update(21), None);
    assert_eq!(bot.update(22), Some(WheelStep { dt: 11, left_delta: 10, right_delta: -5 }));
    assert_eq!(bot.linear_pos(), 75);
    assert_eq!(bot.spin_pos(), 25);
    assert_eq!(bot.left_pos(), 50);
    assert_eq!(bot.right_pos(), 25);
    bot.reset();
    assert_eq!(bot.linear_pos(), 0);
    assert_eq!(bot.update(40), Some(WheelStep { dt: 18, left_delta: 0, right_delta: 0 }));
}

#[test]
fn bot_senses_walls_by_threshold() {
    let mut bot = Bot::new(config());
    bot.sense(walls(101, 100, 30));
    assert_eq!(bot.move_options(), MoveOptions { left: true, forward: false, right: false });
    assert_eq!(bot.left_distance(), 101);
    assert_eq!(bot.right_distance(), 30);
}

#[test]
fn spin_is_done_only_after_settling() {
    let cfg = config();
    let mut bot = Bot::new(cfg);
    let mut m = SpinMove::new(516_000, &cfg);
    bot.sense(at(0, 0));
    assert_eq!(m.update(1000, &bot), Drive::Spin { target: 516_000, dt: 1000 });
    // spin position is (left - right) / 2: 511 is just inside, 510.5 just outside
    bot.sense(at(511, -511));
    assert_eq!(m.update(1010, &bot), Drive::Spin { target: 516_000, dt: 10 });
    assert_eq!(m.last_ok, 1000);
    bot.sense(at(511, -510));
    assert_eq!(m.update(1020, &bot), Drive::Spin { target: 516_000, dt: 10 });
    assert_eq!(m.last_ok, 1020);
    bot.sense(at(516, -516));
    assert_eq!(m.update(1119, &bot), Drive::Spin { target: 516_000, dt: 99 });
    assert_eq!(m.update(1120, &bot), Drive::Spin { target: 516_000, dt: 1 });
    assert_eq!(m.update(1121, &bot), Drive::Halt);
    assert!(Drive::Halt.is_done());
    assert!(!Drive::Rest.is_done());
}

#[test]
fn spin_leaving_tolerance_restarts_the_settle_time() {
    let cfg = config();
    let mut bot = Bot::new(cfg);
    let mut m = SpinMove::new(516_000, &cfg);
    bot.sense(at(0, 0));
    m.update(1000, &bot);
    bot.sense(at(516, -516));
    assert!(!m.update(1090, &bot).is_done());
    bot.sense(at(530, -530));
    assert!(!m.update(1100, &bot).is_done());
    bot.sense(at(516, -516));
    assert!(!m.update(1150, &bot).is_done());
    assert!(!m.update(1200, &bot).is_done());
    assert!(m.update(1201, &bot).is_done());
}

#[test]
fn control_spins_to_a_quarter_turn_and_goes_idle() {
    let mut control = Control::new(Bot::new(config()));
    assert!(control.is_idle());
    assert_eq!(control.current_move_name(), "idle");
    control.spin(516_000);
    assert!(!control.is_idle());
    assert_eq!(control.current_move_name(), "spin");
    // a second request is ignored while the spin is under way
    control.linear(100_000);
    control.spin(-1);
    assert_eq!(control.current_move_name(), "spin");
    let mut now = 1000;
    let mut pos = 0;
    let mut last = Drive::Rest;
    for _ in 0..400 {
        let tick = control.update(now, at(pos, -pos));
        if tick.drive.is_done() {
            last = tick.drive;
            break;
        }
        assert_eq!(tick.wheels.is_some(), true);
        if pos < 516 {
            pos += 12;
            if pos > 516 {
                pos = 516;
            }
        }
        now += 11;
    }
    assert_eq!(last, Drive::Halt);
    assert!(control.is_idle());
    assert_eq!(control.bot().left_pos(), 0);
    assert_eq!(control.bot().right_pos(), 0);
    assert_eq!(control.bot().spin_pos(), 0);
}

#[test]
fn control_looks_after_the_move_once_per_period() {
    let mut control = Control::new(Bot::new(config()));
    control.spin(100_000);
    let t = control.update(10, at(0, 0));
    assert_eq!(t.drive, Drive::Spin { target: 100_000, dt: 10 });
    assert_eq!(t.wheels, None);
    let t = control.update(15, at(0, 0));
    assert_eq!(t.drive, Drive::Rest);
    assert_eq!(t.wheels, Some(WheelStep { dt: 15, left_delta: 0, right_delta: 0 }));
    let t = control.update(20, at(0, 0));
    assert_eq!(t.drive, Drive::Spin { target: 100_000, dt: 10 });
    control.stop();
    assert!(control.is_idle());
    assert_eq!(control.update(40, at(3, 3)).drive, Drive::Rest);
}

#[test]
fn linear_move_by_encoders() {
    let cfg = config();
    let mut bot = Bot::new(cfg);
    let mut m = LinearMove::new(1_620_000, &cfg);
    bot.sense(at(0, 0));
    // far from every wall: both side readings 255, so no centring pull
    assert_eq!(
        m.update(500, &bot),
        Drive::Linear { position: 0, goal: 3_240_000, reset_linear: false, spin_target: 0, reset_spin: true, dt: 500 }
    );
    assert!(m.last_spin_ok);
    assert!(!m.last_linear_ok);
    bot.sense(at(1615, 1615));
    assert_eq!(
        m.update(510, &bot),
        Drive::Linear { position: 3_230_000, goal: 3_240_000, reset_linear: true, spin_target: 0, reset_spin: false, dt: 10 }
    );
    assert_eq!(m.last_ok, 500);
    assert!(!m.update(600, &bot).is_done());
    assert!(m.update(601, &bot).is_done());
}

#[test]
fn linear_move_by_the_wall_ahead() {
    let cfg = config();
    let mut bot = Bot::new(cfg);
    let mut m = LinearMove::new(1_620_000, &cfg);
    // wall ahead at 60 mm: the target is 40 mm, the tolerance 2 mm
    bot.sense(Readings { left_pos: 900, right_pos: 900, front_distance: 60, left_distance: 40, right_distance: 60 });
    let d = m.update(100, &bot);
    assert_eq!(
        d,
        Drive::Linear { position: -1_080_000, goal: -720_000, reset_linear: false, spin_target: 10_000_000, reset_spin: false, dt: 100 }
    );
    bot.sense(Readings { left_pos: 1000, right_pos: 1000, front_distance: 41, left_distance: 40, right_distance: 60 });
    match m.update(110, &bot) {
        Drive::Linear { position, goal, reset_linear, spin_target, reset_spin, dt } => {
            assert_eq!((position, goal, dt), (-738_000, -720_000, 10));
            assert!(reset_linear);
            // once the advance is on target the steering target stays
            assert_eq!(spin_target, 10_000_000);
            assert!(!reset_spin);
        }
        other => panic!("{:?}", other),
    }
    bot.sense(Readings { left_pos: 1000, right_pos: 1000, front_distance: 42, left_distance: 40, right_distance: 60 });
    assert!(matches!(m.update(120, &bot), Drive::Linear { reset_linear: false, .. }));
    assert!(!m.last_linear_ok);
}

#[test]
fn linear_move_centres_between_the_walls() {
    let cfg = config();
    let mut bot = Bot::new(cfg);
    bot.sense(walls(40, 255, 60));
    assert_eq!(LinearMove::centring(&bot), 20_000);
    bot.sense(walls(30, 255, 200));
    assert_eq!(LinearMove::centring(&bot), 20_000);
    bot.sense(walls(200, 255, 70));
    assert_eq!(LinearMove::centring(&bot), 20_000);
    bot.sense(walls(200, 255, 200));
    assert_eq!(LinearMove::centring(&bot), 0);
    bot.sense(walls(90, 255, 90));
    assert_eq!(LinearMove::centring(&bot), 0);
}

#[test]
fn move_queue_is_first_in_first_out_and_bounded() {
    let mut q = MoveQueue::new();
    assert_eq!(q.pop_front(), None);
    assert!(q.push(Move::TurnLeft));
    assert!(q.push(Move::Forward));
    assert!(q.push(Move::TurnAround));
    assert!(q.push(Move::TurnRight));
    assert_eq!(q.len(), 4);
    assert_eq!(q.get(2), Move::TurnAround);
    assert_eq!(q.pop_front(), Some(Move::TurnLeft));
    assert_eq!(q.pop_front(), Some(Move::Forward));
    assert_eq!(q.pop_front(), Some(Move::TurnAround));
    assert_eq!(q.pop_front(), Some(Move::TurnRight));
    assert_eq!(q.pop_front(), None);
    for _ in 0..32 {
        assert!(q.push(Move::Forward));
    }
    assert!(!q.push(Move::TurnLeft));
    assert_eq!(q.len(), 32);
}

#[test]
fn plan_reports_dropped_moves() {
    let mut plan = Plan::new(Control::new(Bot::new(config())), LeftWall::new());
    for _ in 0..15 {
        assert!(plan.add_moves(&[Some(Move::Forward), Some(Move::TurnLeft)]));
    }
    assert!(plan.add_moves(&[None, Some(Move::Forward)]));
    assert!(!plan.add_moves(&[Some(Move::TurnRight), Some(Move::TurnAround), None]));
    assert_eq!(plan.move_buffer.len(), 32);
    assert_eq!(plan.move_buffer.get(31), Move::TurnRight);
    assert!(!plan.add_moves(&[Some(Move::Forward)]));
    assert!(plan.add_moves(&[None, None]));
}

#[test]
fn plan_with_left_wall_navigator_turns_left_then_advances() {
    let mut plan = Plan::new(Control::new(Bot::new(config())), LeftWall::new());
    let seen = walls(200, 30, 30);
    // not going yet: nothing is asked
    plan.update(100, seen);
    assert_eq!(plan.move_buffer.len(), 0);
    plan.go();
    plan.update(120, seen);
    assert_eq!(plan.move_buffer.len(), 2);
    assert_eq!(plan.move_buffer.get(0), Move::TurnLeft);
    assert_eq!(plan.move_buffer.get(1), Move::Forward);
    assert_eq!(plan.direction(), Direction::Up);
    assert!(plan.control().is_idle());
    // next tick: the turn is handed to the executor and the heading follows
    let tick = plan.update(140, seen);
    assert_eq!(plan.move_buffer.len(), 1);
    assert_eq!(plan.direction(), Direction::Left);
    assert_eq!((plan.x_pos(), plan.y_pos()), (0, 0));
    assert_eq!(plan.control().current_move_name(), "spin");
    assert_eq!(tick.drive, Drive::Spin { target: -516_000, dt: 20 });
    match plan.control().current_move {
        CurrentMove::SpinMove(m) => assert_eq!(m.target, -516_000),
        other => panic!("{:?}", other),
    }
    // the advance waits until the turn is done
    plan.update(160, seen);
    assert_eq!(plan.move_buffer.len(), 1);
    plan.stop();
    assert!(plan.control().is_idle());
    assert!(!plan.going);
    let tick = plan.update(180, seen);
    assert_eq!(plan.move_buffer.len(), 0);
    assert_eq!((plan.x_pos(), plan.y_pos()), (-1, 0));
    assert_eq!(plan.control().current_move_name(), "linear");
    assert!(matches!(tick.drive, Drive::Linear { .. }));
}

#[test]
fn plan_dispatches_every_kind_of_move() {
    let mut plan = Plan::new(Control::new(Bot::new(config())), CountingNavigate::new());
    plan.add_moves(&[Some(Move::TurnRight), Some(Move::TurnAround), Some(Move::Forward)]);
    let t = plan.update(10, at(0, 0));
    assert_eq!(t.drive, Drive::Spin { target: 516_000, dt: 10 });
    assert_eq!(plan.direction(), Direction::Right);
    plan.stop();
    let t = plan.update(20, at(0, 0));
    assert_eq!(t.drive, Drive::Spin { target: 1_032_000, dt: 10 });
    assert_eq!(plan.direction(), Direction::Left);
    plan.stop();
    plan.update(30, at(0, 0));
    assert_eq!((plan.x_pos(), plan.y_pos()), (-1, 0));
    assert_eq!(plan.control().current_move_name(), "linear");
    plan.stop();
    plan.go();
    plan.update(40, walls(200, 200, 200));
    // the counting navigator was asked at (-1, 0) heading left, all sides open
    assert_eq!(plan.navigate.get_cell(0, 0), 1);
    // every cell around lies outside the grid: front wins the tie
    assert_eq!(plan.move_buffer.len(), 1);
    assert_eq!(plan.move_buffer.get(0), Move::Forward);
    let _ = plan.navigate.navigate(0, 0, Direction::Up, MoveOptions { forward: true, left: true, right: true });
}

#[test]
fn wheel_loops_with_unit_gain_give_equal_positive_power() {
    let mut bot = Bot::new(config());
    bot.sense(at(0, 0));
    // after exactly one period the loops are not due yet
    assert_eq!(bot.update(10), None);
    let step = bot.update(11).unwrap();
    assert_eq!((step.left_delta, step.right_delta), (0, 0));
    let mut left = PIDController::new(1.0, 0.0, 0.0);
    left.set_limits(-5000.0, 5000.0);
    let mut right = PIDController::new(1.0, 0.0, 0.0);
    right.set_limits(-5000.0, 5000.0);
    let (linear, angular) = (100.0, 0.0);
    left.set_target(linear + angular / 2.0);
    right.set_target(linear - angular / 2.0);
    let dt = step.dt as f64;
    let left_power = left.update(step.left_delta as f64 / dt, dt);
    let right_power = right.update(step.right_delta as f64 / dt, dt);
    assert_eq!(left_power, right_power);
    assert!(left_power > 0.0 && left_power <= 5000.0);
    assert_eq!(left_power, 100.0);
}

#[test]
fn a_spin_started_on_target_still_has_to_settle() {
    let mut control = Control::new(Bot::new(config()));
    control.update(990, at(0, 0));
    control.spin(0);
    // the spin counts as made at the executor's last look, at 990
    let t = control.update(1000, at(0, 0));
    assert_eq!(t.drive, Drive::Spin { target: 0, dt: 10 });
    assert!(!control.is_idle());
    for now in [1010, 1050, 1090] {
        assert!(!control.update(now, at(0, 0)).drive.is_done(), "at {}", now);
    }
    assert!(control.update(1100, at(0, 0)).drive.is_done());
    assert!(control.is_idle());
}

#[test]
fn a_spin_on_target_throughout_is_done_when_the_settle_time_is_over() {
    let cfg = config();
    let mut bot = Bot::new(cfg);
    bot.sense(at(516, -516));
    let mut m = SpinMove::new(516_000, &cfg);
    assert_eq!(m.update(50, &bot), Drive::Spin { target: 516_000, dt: 50 });
    assert_eq!(m.update(100, &bot), Drive::Spin { target: 516_000, dt: 50 });
    assert_eq!(m.last_ok, 0);
    assert_eq!(m.update(101, &bot), Drive::Halt);
}

#[test]
fn an_advance_on_target_from_the_start_still_has_to_settle() {
    let cfg = config();
    let mut bot = Bot::new(cfg);
    let mut m = LinearMove::new_at(1_620_000, &cfg, 1000);
    bot.sense(at(1620, 1620));
    assert!(!m.update(1010, &bot).is_done());
    assert_eq!(m.last_ok, 1000);
    assert!(!m.update(1100, &bot).is_done());
    assert!(m.update(1101, &bot).is_done());
    let mut early = LinearMove::new(1_620_000, &cfg);
    assert!(!early.update(100, &bot).is_done());
    assert!(early.update(101, &bot).is_done());
}

#[test]
fn a_stop_hands_back_the_order_to_halt() {
    let mut plan = Plan::new(Control::new(Bot::new(config())), LeftWall::new());
    plan.control.spin(516_000);
    plan.update(10, at(100, -100));
    assert_eq!(plan.stop(), Drive::Halt);
    assert!(plan.control().is_idle());
    assert_eq!(plan.control().bot().left_pos(), 0);
    plan.control.linear(1_620_000);
    assert_eq!(plan.control.stop(), Drive::Halt);
    assert!(plan.control().is_idle());
    plan.control.spin(1);
    assert_eq!(plan.control().current_move_name(), "spin");
}

#[test]
fn the_wall_ahead_counts_below_a_cell_width() {
    let cfg = config();
    let mut bot = Bot::new(cfg);
    let mut m = LinearMove::new(1_620_000, &cfg);
    bot.sense(Readings { left_pos: 10, right_pos: 10, front_distance: 180, left_distance: 255, right_distance: 255 });
    assert!(matches!(m.update(100, &bot), Drive::Linear { position: 20_000, goal: 3_240_000, .. }));
    bot.sense(Readings { left_pos: 10, right_pos: 10, front_distance: 179, left_distance: 255, right_distance: 255 });
    assert!(matches!(m.update(110, &bot), Drive::Linear { position: -3_222_000, goal: -720_000, .. }));
}

#[test]
fn control_starts_the_move_that_a_move_stands_for() {
    let mut control = Control::new(Bot::new(config()));
    control.start(Move::TurnLeft);
    assert!(matches!(control.current_move, CurrentMove::SpinMove(m) if m.target == -516_000 && m.last_ok == 0));
    control.start(Move::Forward);
    assert_eq!(control.current_move_name(), "spin");
    control.stop();
    control.start(Move::TurnAround);
    assert!(matches!(control.current_move, CurrentMove::SpinMove(m) if m.target == 1_032_000));
    control.stop();
    control.start(Move::TurnRight);
    assert!(matches!(control.current_move, CurrentMove::SpinMove(m) if m.target == 516_000));
    control.stop();
    control.start(Move::Forward);
    assert!(matches!(control.current_move, CurrentMove::LinearMove(m) if m.linear_target == 1_620_000));
}

#[test]
fn targets_and_tolerances_carry_fractions() {
    let mut cfg = config();
    cfg.ticks_per_spin = 2_064_030;
    cfg.spin_err = 500;
    let mut control = Control::new(Bot::new(cfg));
    control.start(Move::TurnRight);
    // a quarter of 2064.03 ticks, to the thousandth
    assert!(matches!(control.current_move, CurrentMove::SpinMove(m) if m.target == 516_007));
    let mut bot = Bot::new(cfg);
    let mut m = SpinMove::new(516_500, &cfg);
    // the spin is half the difference of the wheels: 516.5, 516 and 517 count
    // as there, 515.5 does not
    bot.sense(at(517, -516));
    m.update(10, &bot);
    assert_eq!(m.last_ok, 0);
    bot.sense(at(516, -516));
    m.update(20, &bot);
    assert_eq!(m.last_ok, 0);
    bot.sense(at(517, -517));
    m.update(30, &bot);
    assert_eq!(m.last_ok, 0);
    bot.sense(at(516, -515));
    m.update(40, &bot);
    assert_eq!(m.last_ok, 40);
}
