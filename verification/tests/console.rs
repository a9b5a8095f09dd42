use micromouse::command::{
    handle_command, is_word, next_word, parse_decimal, parse_number, Complaint, Request, Token,
};
use micromouse::config::ConfigKey;
use micromouse::moves::Move;

fn ask(line: &str) -> Request {
    handle_command(line.as_bytes())
}

fn word<'a>(line: &'a str, t: Token) -> &'a str {
    &line[t.start..t.end]
}

#[test]
fn planner_commands() {
    assert_eq!(ask("left"), Request::Queue(Move::TurnLeft));
    assert_eq!(ask("right\n"), Request::Queue(Move::TurnRight));
    assert_eq!(ask("  around  "), Request::Queue(Move::TurnAround));
    assert_eq!(ask("forward\r\n"), Request::Queue(Move::Forward));
    assert_eq!(ask("go"), Request::Go);
    assert_eq!(ask("stop"), Request::Stop);
    assert_eq!(ask("plan go"), Request::Go);
    assert_eq!(ask("plan forward extra words"), Request::Queue(Move::Forward));
    assert_eq!(ask("plan"), Request::Error(Complaint::PlanUnknown));
    assert_eq!(ask(""), Request::Error(Complaint::PlanUnknown));
    assert_eq!(ask("   \n"), Request::Error(Complaint::PlanUnknown));
    assert_eq!(ask("dance"), Request::Error(Complaint::PlanUnknown));
    assert_eq!(ask("lef"), Request::Error(Complaint::PlanUnknown));
    assert_eq!(ask("leftt"), Request::Error(Complaint::PlanUnknown));
    assert_eq!(ask("Left"), Request::Error(Complaint::PlanUnknown));
    assert_eq!(ask("plan plan go"), Request::Error(Complaint::PlanUnknown));
}

#[test]
fn control_commands() {
    assert_eq!(ask("control stop"), Request::ControlStop);
    // ticks are taken to the thousandth
    assert_eq!(ask("control spin 516"), Request::Spin(516_000));
    assert_eq!(ask("control spin 516.5"), Request::Spin(516_500));
    assert_eq!(ask("control spin 516.0075"), Request::Spin(516_007));
    assert_eq!(ask("control spin -516"), Request::Spin(-516_000));
    assert_eq!(ask("control spin -.25"), Request::Spin(-250));
    assert_eq!(ask("control spin +7."), Request::Spin(7_000));
    assert_eq!(ask("plan control linear 1620\n"), Request::Linear(1_620_000));
    assert_eq!(ask("control linear 2147483.647"), Request::Linear(i32::MAX));
    assert_eq!(ask("control linear -2147483.648"), Request::Linear(i32::MIN));
    assert_eq!(ask("control linear 2147483.648"), Request::Error(Complaint::NoTarget));
    assert_eq!(ask("control spin"), Request::Error(Complaint::NoTarget));
    assert_eq!(ask("control spin 1.5.2"), Request::Error(Complaint::NoTarget));
    assert_eq!(ask("control spin ."), Request::Error(Complaint::NoTarget));
    assert_eq!(ask("control spin 1e3"), Request::Spin(1_000_000));
    assert_eq!(ask("control spin 5.165E2"), Request::Spin(516_500));
    assert_eq!(ask("control spin 1e7"), Request::Error(Complaint::NoTarget));
    assert_eq!(ask("control spin 1e"), Request::Error(Complaint::NoTarget));
    assert_eq!(ask("control spin inf"), Request::Error(Complaint::NoTarget));
    assert_eq!(ask("control spin ten"), Request::Error(Complaint::NoTarget));
    assert_eq!(ask("control turn left"), Request::Turn(Move::TurnLeft));
    assert_eq!(ask("control turn right"), Request::Turn(Move::TurnRight));
    assert_eq!(ask("control turn around"), Request::Turn(Move::TurnAround));
    assert_eq!(ask("control turn forward"), Request::Error(Complaint::UnknownTurn));
    assert_eq!(ask("control turn"), Request::Error(Complaint::UnknownTurn));
    assert_eq!(ask("control"), Request::Error(Complaint::ControlUnknown));
    assert_eq!(ask("control fly"), Request::Error(Complaint::ControlUnknown));
}

#[test]
fn bot_commands() {
    let line = "control bot spin 0.75";
    match ask(line) {
        Request::BotSpin(t) => assert_eq!(word(line, t), "0.75"),
        other => panic!("{:?}", other),
    }
    let line = "bot linear -2e3 trailing";
    match ask(line) {
        Request::BotLinear(t) => assert_eq!(word(line, t), "-2e3"),
        other => panic!("{:?}", other),
    }
    assert_eq!(ask("bot spin"), Request::Error(Complaint::ValueNeeded));
    assert_eq!(ask("bot linear  "), Request::Error(Complaint::ValueNeeded));
    assert_eq!(ask("bot"), Request::Error(Complaint::BotNoCommand));
    let line = "control bot jump";
    match ask(line) {
        Request::Error(Complaint::BotUnknown(t)) => assert_eq!(word(line, t), "jump"),
        other => panic!("{:?}", other),
    }
}

#[test]
fn config_commands() {
    assert_eq!(ask("config"), Request::ConfigShow);
    assert_eq!(ask("control bot config"), Request::ConfigShow);
    assert_eq!(ask("config left_p"), Request::ConfigGet(ConfigKey::LeftP));
    assert_eq!(ask("plan control bot config spin_settle"), Request::ConfigGet(ConfigKey::SpinSettle));
    assert_eq!(ask("config spin_settle 250"), Request::ConfigSet(ConfigKey::SpinSettle, 250));
    assert_eq!(ask("config spin_settle 4294967295"), Request::ConfigSet(ConfigKey::SpinSettle, 4294967295));
    assert_eq!(ask("config spin_settle 4294967296"), Request::Error(Complaint::InvalidValue));
    assert_eq!(ask("config spin_settle -1"), Request::Error(Complaint::InvalidValue));
    assert_eq!(ask("config spin_settle soon"), Request::Error(Complaint::InvalidValue));
    assert_eq!(ask("config spin_settle 2.5"), Request::Error(Complaint::InvalidValue));
    assert_eq!(ask("config spin_err 2.5"), Request::ConfigSet(ConfigKey::SpinErr, 2_500));
    assert_eq!(ask("config wall_threshold 255"), Request::ConfigSet(ConfigKey::WallThreshold, 255_000));
    assert_eq!(ask("config wall_threshold -1"), Request::Error(Complaint::InvalidValue));
    assert_eq!(ask("config cell_width 180.25"), Request::ConfigSet(ConfigKey::CellWidth, 180_250));
    assert_eq!(ask("config cell_width 4294967.296"), Request::Error(Complaint::InvalidValue));
    assert_eq!(ask("config cell_width 4294967.295"), Request::ConfigSet(ConfigKey::CellWidth, 4_294_967_295));
    assert_eq!(ask("config linear_spin_pos_p -0.5"), Request::ConfigSet(ConfigKey::LinearSpinPosP, -500));
    assert_eq!(ask("config ticks_per_cell -1620"), Request::ConfigSet(ConfigKey::TicksPerCell, -1_620_000));
    assert_eq!(ask("config ticks_per_spin 2064.03"), Request::ConfigSet(ConfigKey::TicksPerSpin, 2_064_030));
    let line = "config linear_spin_d 0.125";
    match ask(line) {
        Request::ConfigSetGain(ConfigKey::LinearSpinD, t) => assert_eq!(word(line, t), "0.125"),
        other => panic!("{:?}", other),
    }
    assert_eq!(ask("config left_q"), Request::Error(Complaint::UnknownKey));
    assert_eq!(ask("config left_q 3"), Request::Error(Complaint::UnknownKey));
}

#[test]
fn every_key_is_found_by_its_name() {
    let keys = [
        ConfigKey::LeftP,
        ConfigKey::LeftI,
        ConfigKey::LeftD,
        ConfigKey::RightP,
        ConfigKey::RightI,
        ConfigKey::RightD,
        ConfigKey::SpinP,
        ConfigKey::SpinI,
        ConfigKey::SpinD,
        ConfigKey::SpinErr,
        ConfigKey::SpinSettle,
        ConfigKey::LinearP,
        ConfigKey::LinearI,
        ConfigKey::LinearD,
        ConfigKey::LinearSpinP,
        ConfigKey::LinearSpinI,
        ConfigKey::LinearSpinD,
        ConfigKey::LinearSpinPosP,
        ConfigKey::LinearErr,
        ConfigKey::LinearFrontErr,
        ConfigKey::LinearSettle,
        ConfigKey::TicksPerSpin,
        ConfigKey::TicksPerCell,
        ConfigKey::CellWidth,
        ConfigKey::CellOffset,
        ConfigKey::FrontWallDistance,
        ConfigKey::WallThreshold,
    ];
    for key in keys {
        let line = format!("config {}", key.name());
        assert_eq!(ask(&line), Request::ConfigGet(key));
    }
    assert_eq!(ConfigKey::LinearSpinPosP.name(), "linear_spin_pos_p");
}

#[test]
fn nav_commands() {
    assert_eq!(ask("nav cells"), Request::NavCells);
    assert_eq!(ask("plan nav cells"), Request::NavCells);
    assert_eq!(ask("nav"), Request::Error(Complaint::NavUnknown));
    assert_eq!(ask("nav walls"), Request::Error(Complaint::NavUnknown));
}

#[test]
fn words_are_split_at_blanks() {
    let line = b"  go\tnow\0\0";
    let a = next_word(line, 0).unwrap();
    assert_eq!((a.start, a.end), (2, 4));
    let b = next_word(line, a.end).unwrap();
    assert_eq!((b.start, b.end), (5, 8));
    assert_eq!(next_word(line, b.end), None);
    assert_eq!(next_word(line, 100), None);
    assert!(is_word(line, a, "go"));
    assert!(!is_word(line, a, "g"));
    assert!(!is_word(line, b, "go"));
    assert!(is_word(line, Token { start: 1, end: 1 }, ""));
}

#[test]
fn numbers() {
    let n = |s: &str| parse_number(s.as_bytes(), Token { start: 0, end: s.len() });
    assert_eq!(n("0"), Some(0));
    assert_eq!(n("-0"), Some(0));
    assert_eq!(n("007"), Some(7));
    assert_eq!(n("+42"), Some(42));
    assert_eq!(n("-42"), Some(-42));
    assert_eq!(n("999999999999999999"), Some(999_999_999_999_999_999));
    assert_eq!(n("-999999999999999999"), Some(-999_999_999_999_999_999));
    assert_eq!(n("0000000000000000000000000001"), Some(1));
    assert_eq!(n("1000000000000000000"), None);
    assert_eq!(n("99999999999999999999999"), None);
    assert_eq!(n(""), None);
    assert_eq!(n("-"), None);
    assert_eq!(n("+"), None);
    assert_eq!(n("--1"), None);
    assert_eq!(n("1-"), None);
    assert_eq!(n("12a"), None);
    assert_eq!(n("1.0"), None);
    assert_eq!(n(" 1"), None);
}

#[test]
fn decimals_in_thousandths() {
    let d = |s: &str| parse_decimal(s.as_bytes(), Token { start: 0, end: s.len() });
    assert_eq!(d("0"), Some(0));
    assert_eq!(d("1"), Some(1_000));
    assert_eq!(d("1.5"), Some(1_500));
    assert_eq!(d("1.05"), Some(1_050));
    assert_eq!(d("1.005"), Some(1_005));
    assert_eq!(d("1.0059"), Some(1_005));
    assert_eq!(d("-1.5"), Some(-1_500));
    assert_eq!(d("+.5"), Some(500));
    assert_eq!(d("5."), Some(5_000));
    assert_eq!(d("007.250"), Some(7_250));
    assert_eq!(d("999999999999999.999"), Some(999_999_999_999_999_999));
    assert_eq!(d("1e3"), Some(1_000_000));
    assert_eq!(d("1E3"), Some(1_000_000));
    assert_eq!(d("1e+3"), Some(1_000_000));
    assert_eq!(d("-2.5e2"), Some(-250_000));
    assert_eq!(d("1.5e-3"), Some(1));
    assert_eq!(d("1.5e-4"), Some(0));
    assert_eq!(d("15e-1"), Some(1_500));
    assert_eq!(d("0.000001e6"), Some(1_000));
    assert_eq!(d("123456e-30"), Some(0));
    assert_eq!(d("0e30"), Some(0));
    assert_eq!(d("1e15"), None);
    assert_eq!(d("9.99999e14"), Some(999_999_000_000_000_000));
    assert_eq!(d("1e31"), None);
    assert_eq!(d("1e-31"), None);
    assert_eq!(d("1e"), None);
    assert_eq!(d("e3"), None);
    assert_eq!(d(".e3"), None);
    assert_eq!(d("1e3e3"), None);
    assert_eq!(d("1e3.0"), None);
    assert_eq!(d("1.2.3e1"), None);
    assert_eq!(d("1000000000000000"), None);
    assert_eq!(d(""), None);
    assert_eq!(d("."), None);
    assert_eq!(d("-"), None);
    assert_eq!(d("-."), None);
    assert_eq!(d("1.2.3"), None);
    assert_eq!(d("1.2x"), None);
    assert_eq!(d("1.2345x"), None);
    assert_eq!(d("x.5"), None);
    assert_eq!(d("1,5"), None);
}
