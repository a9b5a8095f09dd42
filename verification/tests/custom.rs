use micromouse::bot::{Bot, Readings};
use micromouse::config::BotConfig;
use micromouse::control::Control;
use micromouse::moves::{Direction, Move, MoveOptions};
use micromouse::navigate::Navigate;
use micromouse::plan::Plan;

/// A strategy of the caller's own: straight on when it can, else an
/// about-turn.
struct Stubborn {
    asked: u32,
}

impl Navigate for Stubborn {
    fn navigate(&mut self, _x: i32, _y: i32, _d: Direction, o: MoveOptions) -> [Option<Move>; 2] {
        self.asked += 1;
        if o.forward {
            [Some(Move::Forward), None]
        } else {
            [Some(Move::TurnAround), None]
        }
    }
}

#[test]
fn planner_takes_a_strategy_of_the_callers_own() {
    let mut config = BotConfig::zero();
    config.wall_threshold = 100_000;
    config.ticks_per_spin = 2_064_000;
    let mut plan = Plan::new(Control::new(Bot::new(config)), Stubborn { asked: 0 });
    plan.go();
    let blocked = Readings { left_pos: 0, right_pos: 0, front_distance: 20, left_distance: 200, right_distance: 200 };
    plan.update(10, blocked);
    assert_eq!(plan.navigate.asked, 1);
    assert_eq!(plan.move_buffer.len(), 1);
    assert_eq!(plan.move_buffer.get(0), Move::TurnAround);
    plan.update(20, blocked);
    assert_eq!(plan.direction(), Direction::Down);
    assert_eq!(plan.control().current_move_name(), "spin");
    // busy: the strategy is not asked again
    plan.update(30, blocked);
    assert_eq!(plan.navigate.asked, 1);
}
