//! The debug console: a line of text names a part of the robot and tells
//! it what to do. This module turns a line into a request; carrying the
//! request out and answering in text is left to the caller.
//!
//! A line is made of words with blanks between them. The first word picks
//! the part: `control`, `bot`, `config`, `nav`, or one of the planner's own
//! commands `left`, `right`, `around`, `forward`, `go`, `stop`; a leading
//! `plan` may be put before any of these. `control` understands `stop`,
//! `spin <ticks>`, `linear <ticks>`, `turn left|right|around` and passes
//! `bot ...` on; `bot` understands `spin <velocity>`, `linear <velocity>`
//! and passes `config ...` on; `config <key>` asks for a parameter and
//! `config <key> <value>` sets it. Ticks and millimetres may have a decimal
//! fraction and a power of ten (`516.5`, `2.0640e3`) and are taken to the
//! thousandth; times are whole milliseconds.

use vstd::prelude::*;
use vstd::string::StringSliceAdditionalSpecFns;
use crate::config::{ConfigKey, ConfigValue};
use crate::moves::Move;

verus! {

/// The greatest whole number, without its sign, that a word can spell.
pub const NUMBER_LIMIT: i64 = 999_999_999_999_999_999;

/// The greatest power of ten, without its sign, that a word can spell.
pub const EXPONENT_LIMIT: i64 = 30;

/// A word of a line: the bytes from `start` up to, but not including,
/// `end`.
#[derive(Clone, Copy, Debug, PartialEq, Eq, Structural)]
pub struct Token {
    pub start: usize,
    pub end: usize,
}

/// What is wrong with a line.
#[derive(Clone, Copy, Debug, PartialEq, Eq, Structural)]
pub enum Complaint {
    /// The planner does not know the command, or there is none.
    PlanUnknown,
    /// The move executor does not know the command, or there is none.
    ControlUnknown,
    /// `spin` or `linear` without a number of ticks that fits.
    NoTarget,
    /// `turn` without `left`, `right` or `around`.
    UnknownTurn,
    /// The drivetrain does not know the command: the word is given.
    BotUnknown(Token),
    /// `bot` without a command.
    BotNoCommand,
    /// `bot spin` or `bot linear` without a value.
    ValueNeeded,
    /// `config` with a word that names no parameter.
    UnknownKey,
    /// `config` with a value that is no number or is out of the
    /// parameter's range.
    InvalidValue,
    /// The navigation strategy does not know the command, or there is none.
    NavUnknown,
}

/// What a line asks for.
#[derive(Clone, Copy, Debug, PartialEq, Eq, Structural)]
pub enum Request {
    /// Queue a move.
    Queue(Move),
    /// Start asking the strategy for moves.
    Go,
    /// Stop asking the strategy and give up the move under way.
    Stop,
    /// Give up the move under way.
    ControlStop,
    /// Spin to this many thousandths of a tick.
    Spin(i32),
    /// Advance this many thousandths of a tick.
    Linear(i32),
    /// Make the turn of this move.
    Turn(Move),
    /// Command an angular velocity; the word holds the value.
    BotSpin(Token),
    /// Command a linear velocity; the word holds the value.
    BotLinear(Token),
    /// Show all parameters.
    ConfigShow,
    /// Show a parameter.
    ConfigGet(ConfigKey),
    /// Set a parameter that is a number: a time in milliseconds, any other
    /// in thousandths.
    ConfigSet(ConfigKey, i64),
    /// Set a gain; the word holds the value.
    ConfigSetGain(ConfigKey, Token),
    /// Show the strategy's grid.
    NavCells,
    /// The line asks for nothing that can be done.
    Error(Complaint),
}

/// Whether byte `b` separates words: blank, tab, line feed, carriage
/// return, or the zero byte that pads a buffer.
pub open spec fn is_blank(b: u8) -> bool {
    b == 0x20 || b == 0x09 || b == 0x0a || b == 0x0d || b == 0x00
}

/// The index of the first byte at or after `i` that is no blank; the length
/// of the line if there is none.
pub open spec fn word_start(line: Seq<u8>, i: int) -> int
    decreases line.len() - i,
{
    if i >= line.len() {
        line.len() as int
    } else if !is_blank(line[i]) {
        i
    } else {
        word_start(line, i + 1)
    }
}

/// The index of the first blank at or after `i`; the length of the line if
/// there is none.
pub open spec fn word_end(line: Seq<u8>, i: int) -> int
    decreases line.len() - i,
{
    if i >= line.len() {
        line.len() as int
    } else if is_blank(line[i]) {
        i
    } else {
        word_end(line, i + 1)
    }
}

/// The first word of the line at or after index `from`.
pub open spec fn word_from(line: Seq<u8>, from: int) -> Option<Token> {
    let s = word_start(line, from);
    if 0 <= from && s < line.len() {
        Some(Token { start: s as usize, end: word_end(line, s) as usize })
    } else {
        None
    }
}

/// The bytes of word `t`.
pub open spec fn text(line: Seq<u8>, t: Token) -> Seq<u8> {
    line.subrange(t.start as int, t.end as int)
}

/// Whether byte `b` is a decimal digit.
pub open spec fn is_digit(b: u8) -> bool {
    0x30 <= b <= 0x39
}

/// Whether `s` is made of decimal digits only.
pub open spec fn all_digits(s: Seq<u8>) -> bool {
    forall|i: int| 0 <= i < s.len() ==> is_digit(#[trigger] s[i])
}

/// The number that the digits of `s` spell.
pub open spec fn digits_value(s: Seq<u8>) -> int
    decreases s.len(),
{
    if s.len() == 0 {
        0
    } else {
        digits_value(s.drop_last()) * 10 + (s.last() - 0x30)
    }
}

/// The whole number that word `w` spells: an optional sign, then at least
/// one digit and nothing else, and no more than [`NUMBER_LIMIT`] without
/// the sign.
pub open spec fn number(w: Seq<u8>) -> Option<int> {
    let signed = w.len() > 0 && (w[0] == 0x2d || w[0] == 0x2b);
    let digits = if signed {
        w.skip(1)
    } else {
        w
    };
    if digits.len() > 0 && all_digits(digits) && digits_value(digits) <= NUMBER_LIMIT {
        if signed && w[0] == 0x2d {
            Some(-digits_value(digits))
        } else {
            Some(digits_value(digits))
        }
    } else {
        None
    }
}

/// The index of the first decimal point of `s` at or after `i`; the length
/// of `s` if there is none.
pub open spec fn point_at(s: Seq<u8>, i: int) -> int
    decreases s.len() - i,
{
    if i >= s.len() {
        s.len() as int
    } else if s[i] == 0x2e {
        i
    } else {
        point_at(s, i + 1)
    }
}

/// The index of the first `e` or `E` of `s` at or after `i`; the length of
/// `s` if there is none.
pub open spec fn mark_at(s: Seq<u8>, i: int) -> int
    decreases s.len() - i,
{
    if i >= s.len() {
        s.len() as int
    } else if s[i] == 0x65 || s[i] == 0x45 {
        i
    } else {
        mark_at(s, i + 1)
    }
}

/// `n` digits zero.
pub open spec fn zeros(n: int) -> Seq<u8> {
    Seq::new(n as nat, |i: int| 0x30u8)
}

/// The first `keep` of the digits `d`, with zeros behind them where `d` has
/// fewer.
pub open spec fn kept_digits(d: Seq<u8>, keep: int) -> Seq<u8> {
    if keep <= 0 {
        Seq::empty()
    } else if keep <= d.len() {
        d.subrange(0, keep)
    } else {
        d + zeros(keep - d.len())
    }
}

/// The power of ten that word `x` spells: a whole number between
/// `-EXPONENT_LIMIT` and `EXPONENT_LIMIT`.
pub open spec fn exponent(x: Seq<u8>) -> Option<int> {
    match number(x) {
        Some(e) => if -EXPONENT_LIMIT <= e <= EXPONENT_LIMIT {
            Some(e)
        } else {
            None
        },
        None => None,
    }
}

/// The thousandths that the digits of `mantissa` spell, times ten to the
/// power `e`: the digits are taken as far as the third place behind the
/// point once the power of ten has moved it.
pub open spec fn spelled(mantissa: Seq<u8>, e: int) -> Option<int> {
    let p = point_at(mantissa, 0);
    let whole = mantissa.subrange(0, p);
    let frac = if p < mantissa.len() {
        mantissa.subrange(p + 1, mantissa.len() as int)
    } else {
        Seq::<u8>::empty()
    };
    let kept = kept_digits(whole + frac, whole.len() + e + 3);
    if whole.len() + frac.len() > 0 && all_digits(whole) && all_digits(frac) && digits_value(kept)
        <= NUMBER_LIMIT {
        Some(digits_value(kept))
    } else {
        None
    }
}

/// The number that word `w` spells, in thousandths. The word is an optional
/// sign, then digits with at most one decimal point among them and at
/// least one digit in all, then optionally `e` or `E` and a power of ten.
/// What lies beyond the thousandth is dropped: the number is the digits,
/// taken as far as the third place behind the point once the power of ten
/// has moved it. It must not be more than [`NUMBER_LIMIT`] thousandths.
pub open spec fn thousandths(w: Seq<u8>) -> Option<int> {
    let signed = w.len() > 0 && (w[0] == 0x2d || w[0] == 0x2b);
    let body = if signed {
        w.skip(1)
    } else {
        w
    };
    let k = mark_at(body, 0);
    let mantissa = body.subrange(0, k);
    let power = if k < body.len() {
        exponent(body.subrange(k + 1, body.len() as int))
    } else {
        Some(0int)
    };
    match power {
        None => None,
        Some(e) => match spelled(mantissa, e) {
            Some(v) => if signed && w[0] == 0x2d {
                Some(-v)
            } else {
                Some(v)
            },
            None => None,
        },
    }
}

/// The parameter that word `w` names.
pub open spec fn key_named(w: Seq<u8>) -> Option<ConfigKey> {
    if w == "left_p".spec_bytes() {
        Some(ConfigKey::LeftP)
    } else if w == "left_i".spec_bytes() {
        Some(ConfigKey::LeftI)
    } else if w == "left_d".spec_bytes() {
        Some(ConfigKey::LeftD)
    } else if w == "right_p".spec_bytes() {
        Some(ConfigKey::RightP)
    } else if w == "right_i".spec_bytes() {
        Some(ConfigKey::RightI)
    } else if w == "right_d".spec_bytes() {
        Some(ConfigKey::RightD)
    } else if w == "spin_p".spec_bytes() {
        Some(ConfigKey::SpinP)
    } else if w == "spin_i".spec_bytes() {
        Some(ConfigKey::SpinI)
    } else if w == "spin_d".spec_bytes() {
        Some(ConfigKey::SpinD)
    } else if w == "spin_err".spec_bytes() {
        Some(ConfigKey::SpinErr)
    } else if w == "spin_settle".spec_bytes() {
        Some(ConfigKey::SpinSettle)
    } else if w == "linear_p".spec_bytes() {
        Some(ConfigKey::LinearP)
    } else if w == "linear_i".spec_bytes() {
        Some(ConfigKey::LinearI)
    } else if w == "linear_d".spec_bytes() {
        Some(ConfigKey::LinearD)
    } else if w == "linear_spin_p".spec_bytes() {
        Some(ConfigKey::LinearSpinP)
    } else if w == "linear_spin_i".spec_bytes() {
        Some(ConfigKey::LinearSpinI)
    } else if w == "linear_spin_d".spec_bytes() {
        Some(ConfigKey::LinearSpinD)
    } else if w == "linear_spin_pos_p".spec_bytes() {
        Some(ConfigKey::LinearSpinPosP)
    } else if w == "linear_err".spec_bytes() {
        Some(ConfigKey::LinearErr)
    } else if w == "linear_front_err".spec_bytes() {
        Some(ConfigKey::LinearFrontErr)
    } else if w == "linear_settle".spec_bytes() {
        Some(ConfigKey::LinearSettle)
    } else if w == "ticks_per_spin".spec_bytes() {
        Some(ConfigKey::TicksPerSpin)
    } else if w == "ticks_per_cell".spec_bytes() {
        Some(ConfigKey::TicksPerCell)
    } else if w == "cell_width".spec_bytes() {
        Some(ConfigKey::CellWidth)
    } else if w == "cell_offset".spec_bytes() {
        Some(ConfigKey::CellOffset)
    } else if w == "front_wall_distance".spec_bytes() {
        Some(ConfigKey::FrontWallDistance)
    } else if w == "wall_threshold".spec_bytes() {
        Some(ConfigKey::WallThreshold)
    } else {
        None
    }
}

/// The turn that word `w` names.
pub open spec fn turn_named(w: Seq<u8>) -> Option<Move> {
    if w == "left".spec_bytes() {
        Some(Move::TurnLeft)
    } else if w == "right".spec_bytes() {
        Some(Move::TurnRight)
    } else if w == "around".spec_bytes() {
        Some(Move::TurnAround)
    } else {
        None
    }
}

/// The thousandths of a tick that the word after index `from` spells, if
/// it spells a number that fits.
pub open spec fn ticks_from(line: Seq<u8>, from: int) -> Option<i32> {
    match word_from(line, from) {
        None => None,
        Some(t) => match thousandths(text(line, t)) {
            Some(n) => if i32::MIN <= n <= i32::MAX {
                Some(n as i32)
            } else {
                None
            },
            None => None,
        },
    }
}

/// The number that word `w` spells for parameter `key`: whole milliseconds
/// for a time, thousandths for every other number.
pub open spec fn value_for(key: ConfigKey, w: Seq<u8>) -> Option<int> {
    if key.is_whole() {
        number(w)
    } else {
        thousandths(w)
    }
}

/// What the words after index `from` ask of the parameters: without a word
/// all are shown; a word must name a parameter; without a value the
/// parameter is shown; a gain takes any word as its value, a number only a
/// number within the parameter's range.
pub open spec fn config_request(line: Seq<u8>, from: int) -> Request {
    match word_from(line, from) {
        None => Request::ConfigShow,
        Some(k) => match key_named(text(line, k)) {
            None => Request::Error(Complaint::UnknownKey),
            Some(key) => match word_from(line, k.end as int) {
                None => Request::ConfigGet(key),
                Some(v) => if key.is_gain() {
                    Request::ConfigSetGain(key, v)
                } else {
                    match value_for(key, text(line, v)) {
                        Some(n) => if key.accepts(ConfigValue::Number(n as i64)) {
                            Request::ConfigSet(key, n as i64)
                        } else {
                            Request::Error(Complaint::InvalidValue)
                        },
                        None => Request::Error(Complaint::InvalidValue),
                    }
                },
            },
        },
    }
}

/// What the words after index `from` ask of the drivetrain.
pub open spec fn bot_request(line: Seq<u8>, from: int) -> Request {
    match word_from(line, from) {
        None => Request::Error(Complaint::BotNoCommand),
        Some(t) => {
            let w = text(line, t);
            if w == "config".spec_bytes() {
                config_request(line, t.end as int)
            } else if w == "spin".spec_bytes() {
                match word_from(line, t.end as int) {
                    Some(v) => Request::BotSpin(v),
                    None => Request::Error(Complaint::ValueNeeded),
                }
            } else if w == "linear".spec_bytes() {
                match word_from(line, t.end as int) {
                    Some(v) => Request::BotLinear(v),
                    None => Request::Error(Complaint::ValueNeeded),
                }
            } else {
                Request::Error(Complaint::BotUnknown(t))
            }
        },
    }
}

/// What the words after index `from` ask of the move executor.
pub open spec fn control_request(line: Seq<u8>, from: int) -> Request {
    match word_from(line, from) {
        None => Request::Error(Complaint::ControlUnknown),
        Some(t) => {
            let w = text(line, t);
            if w == "bot".spec_bytes() {
                bot_request(line, t.end as int)
            } else if w == "stop".spec_bytes() {
                Request::ControlStop
            } else if w == "spin".spec_bytes() {
                match ticks_from(line, t.end as int) {
                    Some(n) => Request::Spin(n),
                    None => Request::Error(Complaint::NoTarget),
                }
            } else if w == "linear".spec_bytes() {
                match ticks_from(line, t.end as int) {
                    Some(n) => Request::Linear(n),
                    None => Request::Error(Complaint::NoTarget),
                }
            } else if w == "turn".spec_bytes() {
                match word_from(line, t.end as int) {
                    None => Request::Error(Complaint::UnknownTurn),
                    Some(d) => match turn_named(text(line, d)) {
                        Some(m) => Request::Turn(m),
                        None => Request::Error(Complaint::UnknownTurn),
                    },
                }
            } else {
                Request::Error(Complaint::ControlUnknown)
            }
        },
    }
}

/// What the words after index `from` ask of the navigation strategy.
pub open spec fn nav_request(line: Seq<u8>, from: int) -> Request {
    match word_from(line, from) {
        None => Request::Error(Complaint::NavUnknown),
        Some(t) => if text(line, t) == "cells".spec_bytes() {
            Request::NavCells
        } else {
            Request::Error(Complaint::NavUnknown)
        },
    }
}

/// What the words after index `from` ask of the planner or, through it, of
/// the parts below.
pub open spec fn plan_request(line: Seq<u8>, from: int) -> Request {
    match word_from(line, from) {
        None => Request::Error(Complaint::PlanUnknown),
        Some(t) => {
            let w = text(line, t);
            if w == "control".spec_bytes() {
                control_request(line, t.end as int)
            } else if w == "bot".spec_bytes() {
                bot_request(line, t.end as int)
            } else if w == "config".spec_bytes() {
                config_request(line, t.end as int)
            } else if w == "nav".spec_bytes() {
                nav_request(line, t.end as int)
            } else if w == "left".spec_bytes() {
                Request::Queue(Move::TurnLeft)
            } else if w == "right".spec_bytes() {
                Request::Queue(Move::TurnRight)
            } else if w == "around".spec_bytes() {
                Request::Queue(Move::TurnAround)
            } else if w == "forward".spec_bytes() {
                Request::Queue(Move::Forward)
            } else if w == "go".spec_bytes() {
                Request::Go
            } else if w == "stop".spec_bytes() {
                Request::Stop
            } else {
                Request::Error(Complaint::PlanUnknown)
            }
        },
    }
}

/// What a line asks for.
pub open spec fn request(line: Seq<u8>) -> Request {
    match word_from(line, 0) {
        Some(t) => if text(line, t) == "plan".spec_bytes() {
            plan_request(line, t.end as int)
        } else {
            plan_request(line, 0)
        },
        None => plan_request(line, 0),
    }
}

fn blank(b: u8) -> (r: bool)
    ensures
        r == is_blank(b),
{
    b == 0x20 || b == 0x09 || b == 0x0a || b == 0x0d || b == 0x00
}

/// The first word of `line` at or after index `from`.
pub fn next_word(line: &[u8], from: usize) -> (t: Option<Token>)
    ensures
        t == word_from(line@, from as int),
        t matches Some(w) ==> from <= w.start < w.end <= line@.len(),
{
    let n = line.len();
    let mut s = from;
    while s < n && blank(line[s])
        invariant
            from <= s,
            n == line@.len(),
            word_start(line@, from as int) == word_start(line@, s as int),
        decreases n - s,
    {
        s = s + 1;
    }
    if s >= n {
        return None;
    }
    let mut e = s + 1;
    assert(word_end(line@, s as int) == word_end(line@, s + 1));
    while e < n && !blank(line[e])
        invariant
            s < e <= n,
            n == line@.len(),
            word_end(line@, s as int) == word_end(line@, e as int),
        decreases n - e,
    {
        e = e + 1;
    }
    Some(Token { start: s, end: e })
}

/// Whether word `t` of `line` reads `word`.
pub fn is_word(line: &[u8], t: Token, word: &str) -> (same: bool)
    requires
        t.start <= t.end <= line@.len(),
    ensures
        same == (text(line@, t) == word.spec_bytes()),
{
    let w = word.as_bytes();
    let n = t.end - t.start;
    assert(text(line@, t).len() == n);
    if w.len() != n {
        return false;
    }
    let mut i: usize = 0;
    while i < n
        invariant
            i <= n,
            n == t.end - t.start,
            n == w@.len(),
            t.start <= t.end <= line@.len(),
            w@ == word.spec_bytes(),
            forall|k: int| 0 <= k < i ==> line@[t.start + k] == w@[k],
        decreases n - i,
    {
        if line[t.start + i] != w[i] {
            assert(text(line@, t)[i as int] == line@[t.start + i]);
            return false;
        }
        i = i + 1;
    }
    assert(text(line@, t) =~= w@);
    true
}

proof fn lemma_digits_grow(s: Seq<u8>, i: int)
    requires
        all_digits(s),
        0 <= i <= s.len(),
    ensures
        0 <= digits_value(s.subrange(0, i)) <= digits_value(s),
    decreases s.len() - i,
{
    lemma_digits_positive(s.subrange(0, i));
    if i < s.len() {
        let next = s.subrange(0, i + 1);
        assert(next.drop_last() =~= s.subrange(0, i));
        assert(next.last() == s[i]);
        lemma_digits_grow(s, i + 1);
    } else {
        assert(s.subrange(0, i) =~= s);
    }
}

proof fn lemma_digits_positive(s: Seq<u8>)
    requires
        all_digits(s),
    ensures
        0 <= digits_value(s),
    decreases s.len(),
{
    if s.len() > 0 {
        lemma_digits_positive(s.drop_last());
    }
}

/// The number that the bytes of `line` from `from` up to `to` spell, if
/// they are digits and spell no more than [`NUMBER_LIMIT`].
fn digits(line: &[u8], from: usize, to: usize) -> (r: Option<i64>)
    requires
        from <= to <= line@.len(),
    ensures
        match r {
            Some(v) => all_digits(line@.subrange(from as int, to as int)) && v == digits_value(
                line@.subrange(from as int, to as int),
            ) && 0 <= v <= NUMBER_LIMIT,
            None => !all_digits(line@.subrange(from as int, to as int)) || digits_value(
                line@.subrange(from as int, to as int),
            ) > NUMBER_LIMIT,
        },
{
    let ghost all = line@.subrange(from as int, to as int);
    let mut acc: i64 = 0;
    let mut i = from;
    while i < to
        invariant
            from <= i <= to,
            to <= line@.len(),
            all == line@.subrange(from as int, to as int),
            all_digits(all.subrange(0, i - from)),
            acc == digits_value(all.subrange(0, i - from)),
            0 <= acc <= NUMBER_LIMIT,
        decreases to - i,
    {
        let b = line[i];
        assert(b == all[i - from]);
        if b < 0x30 || b > 0x39 {
            assert(!is_digit(all[i - from]));
            return None;
        }
        let ghost next = all.subrange(0, i - from + 1);
        proof {
            assert(next.drop_last() =~= all.subrange(0, i - from));
            assert(next.last() == b);
            assert(all_digits(next)) by {
                assert forall|k: int| 0 <= k < next.len() implies is_digit(#[trigger] next[k]) by {
                    if k < i - from {
                        assert(next[k] == all.subrange(0, i - from)[k]);
                    }
                }
            }
        }
        if acc > 99_999_999_999_999_999 {
            proof {
                if all_digits(all) {
                    lemma_digits_grow(all, i - from + 1);
                    assert(digits_value(next) == acc * 10 + (b - 0x30));
                    assert(digits_value(all) > NUMBER_LIMIT);
                }
            }
            return None;
        }
        acc = acc * 10 + (b - 0x30) as i64;
        i = i + 1;
    }
    assert(all.subrange(0, to - from) =~= all);
    Some(acc)
}

/// The whole number that word `t` of `line` spells: see [`number`].
pub fn parse_number(line: &[u8], t: Token) -> (n: Option<i64>)
    requires
        t.start <= t.end <= line@.len(),
    ensures
        match number(text(line@, t)) {
            Some(v) => n == Some(v as i64) && -NUMBER_LIMIT <= v <= NUMBER_LIMIT,
            None => n is None,
        },
{
    let ghost w = text(line@, t);
    if t.start == t.end {
        return None;
    }
    let first = line[t.start];
    assert(first == w[0]);
    let signed = first == 0x2d || first == 0x2b;
    let from = if signed {
        t.start + 1
    } else {
        t.start
    };
    let ghost body = if signed {
        w.skip(1)
    } else {
        w
    };
    assert(body =~= line@.subrange(from as int, t.end as int));
    if from == t.end {
        return None;
    }
    match digits(line, from, t.end) {
        None => None,
        Some(v) => {
            if signed && first == 0x2d {
                Some(-v)
            } else {
                Some(v)
            }
        },
    }
}

proof fn lemma_kept_are_digits(d: Seq<u8>, keep: int)
    requires
        all_digits(d),
    ensures
        all_digits(kept_digits(d, keep)),
{
    let kept = kept_digits(d, keep);
    assert forall|i: int| 0 <= i < kept.len() implies is_digit(#[trigger] kept[i]) by {
        if i < d.len() {
            assert(kept[i] == d[i]);
        }
    }
}

fn find_mark(line: &[u8], from: usize, to: usize) -> (k: usize)
    requires
        from <= to <= line@.len(),
    ensures
        from <= k <= to,
        k - from == mark_at(line@.subrange(from as int, to as int), 0),
{
    let ghost s = line@.subrange(from as int, to as int);
    let mut k = from;
    while k < to && line[k] != 0x65 && line[k] != 0x45
        invariant
            from <= k <= to,
            to <= line@.len(),
            s == line@.subrange(from as int, to as int),
            mark_at(s, 0) == mark_at(s, k - from),
        decreases to - k,
    {
        assert(s[k - from] == line@[k as int]);
        k = k + 1;
    }
    proof {
        if k < to {
            assert(s[k - from] == line@[k as int]);
        }
    }
    k
}

fn find_point(line: &[u8], from: usize, to: usize) -> (p: usize)
    requires
        from <= to <= line@.len(),
    ensures
        from <= p <= to,
        p - from == point_at(line@.subrange(from as int, to as int), 0),
{
    let ghost s = line@.subrange(from as int, to as int);
    let mut p = from;
    while p < to && line[p] != 0x2e
        invariant
            from <= p <= to,
            to <= line@.len(),
            s == line@.subrange(from as int, to as int),
            point_at(s, 0) == point_at(s, p - from),
        decreases to - p,
    {
        assert(s[p - from] == line@[p as int]);
        p = p + 1;
    }
    proof {
        if p < to {
            assert(s[p - from] == line@[p as int]);
        }
    }
    p
}

/// The number that the first `keep` digits spell of those from `from` up to
/// `p` and from `frac_from` up to `k`, with zeros behind them where there
/// are fewer; `None` if it is more than [`NUMBER_LIMIT`].
fn weigh(line: &[u8], from: usize, p: usize, frac_from: usize, k: usize, keep: i128) -> (r: Option<
    i64,
>)
    requires
        from <= p <= frac_from <= k <= line@.len(),
        all_digits(line@.subrange(from as int, p as int)),
        all_digits(line@.subrange(frac_from as int, k as int)),
        keep <= 0x7fff_ffff_ffff_ffff_ffff,
    ensures
        ({
            let kept = kept_digits(
                line@.subrange(from as int, p as int) + line@.subrange(frac_from as int, k as int),
                keep as int,
            );
            match r {
                Some(v) => v == digits_value(kept) && 0 <= v <= NUMBER_LIMIT,
                None => digits_value(kept) > NUMBER_LIMIT,
            }
        }),
{
    let ghost whole = line@.subrange(from as int, p as int);
    let ghost frac = line@.subrange(frac_from as int, k as int);
    let ghost all = whole + frac;
    let ghost kept = kept_digits(all, keep as int);
    let whole_len = p - from;
    let total = whole_len + (k - frac_from);
    proof {
        assert forall|i: int| 0 <= i < all.len() implies is_digit(#[trigger] all[i]) by {
            if i < whole.len() {
                assert(all[i] == whole[i]);
            } else {
                assert(all[i] == frac[i - whole.len()]);
            }
        }
        lemma_kept_are_digits(all, keep as int);
    }
    let take: usize = if keep <= 0 {
        0
    } else if keep < total as i128 {
        keep as usize
    } else {
        total
    };
    let mut acc: i64 = 0;
    let mut i: usize = 0;
    while i < take
        invariant
            i <= take <= total,
            take <= kept.len(),
            from <= p <= frac_from <= k <= line@.len(),
            whole_len == p - from,
            total == whole_len + (k - frac_from),
            whole == line@.subrange(from as int, p as int),
            frac == line@.subrange(frac_from as int, k as int),
            all == whole + frac,
            kept == kept_digits(all, keep as int),
            all_digits(all),
            all_digits(kept),
            forall|j: int| 0 <= j < take ==> kept[j] == all[j],
            acc == digits_value(kept.subrange(0, i as int)),
            0 <= acc <= NUMBER_LIMIT,
        decreases take - i,
    {
        let b = if i < whole_len {
            line[from + i]
        } else {
            line[frac_from + (i - whole_len)]
        };
        let ghost next = kept.subrange(0, i + 1);
        proof {
            assert(b == all[i as int]);
            assert(is_digit(all[i as int]));
            assert(next.drop_last() =~= kept.subrange(0, i as int));
            assert(next.last() == b);
        }
        if acc > 99_999_999_999_999_999 {
            proof {
                lemma_digits_grow(kept, i + 1);
                assert(digits_value(next) == acc * 10 + (b - 0x30));
            }
            return None;
        }
        acc = acc * 10 + (b - 0x30) as i64;
        i = i + 1;
    }
    if keep <= total as i128 {
        proof {
            assert(kept.subrange(0, take as int) =~= kept);
        }
        return Some(acc);
    }
    let mut places: i128 = total as i128;
    while places < keep
        invariant
            total <= places <= keep,
            kept == all + zeros(keep - total),
            kept == kept_digits(all, keep as int),
            all == line@.subrange(from as int, p as int) + line@.subrange(
                frac_from as int,
                k as int,
            ),
            total == all.len(),
            all_digits(kept),
            acc == digits_value(kept.subrange(0, places as int)),
            0 <= acc <= NUMBER_LIMIT,
            keep <= 0x7fff_ffff_ffff_ffff_ffff,
        decreases keep - places,
    {
        let ghost next = kept.subrange(0, places + 1);
        proof {
            assert(next.drop_last() =~= kept.subrange(0, places as int));
            assert(next.last() == 0x30);
        }
        if acc > 99_999_999_999_999_999 {
            proof {
                lemma_digits_grow(kept, places + 1);
                assert(digits_value(next) == acc * 10);
            }
            return None;
        }
        acc = acc * 10;
        places = places + 1;
    }
    proof {
        assert(kept.subrange(0, places as int) =~= kept);
    }
    Some(acc)
}

/// The number that word `t` of `line` spells, in thousandths: see
/// [`thousandths`].
pub fn parse_decimal(line: &[u8], t: Token) -> (n: Option<i64>)
    requires
        t.start <= t.end <= line@.len(),
    ensures
        match thousandths(text(line@, t)) {
            Some(v) => n == Some(v as i64) && -NUMBER_LIMIT <= v <= NUMBER_LIMIT,
            None => n is None,
        },
{
    let ghost w = text(line@, t);
    let first = if t.start < t.end {
        line[t.start]
    } else {
        0
    };
    let signed = t.start < t.end && (first == 0x2d || first == 0x2b);
    let from = if signed {
        t.start + 1
    } else {
        t.start
    };
    let ghost body = if signed {
        w.skip(1)
    } else {
        w
    };
    proof {
        if t.start < t.end {
            assert(first == w[0]);
        }
        assert(body =~= line@.subrange(from as int, t.end as int));
    }
    let k = find_mark(line, from, t.end);
    let ghost mantissa = body.subrange(0, k - from);
    assert(mantissa =~= line@.subrange(from as int, k as int));
    let e: i64 = if k < t.end {
        let x = Token { start: k + 1, end: t.end };
        assert(text(line@, x) =~= body.subrange(k - from + 1, body.len() as int));
        match parse_number(line, x) {
            Some(e) => {
                if e < -EXPONENT_LIMIT || e > EXPONENT_LIMIT {
                    return None;
                }
                e
            },
            None => {
                return None;
            },
        }
    } else {
        0
    };
    match spell(line, from, k, e) {
        None => None,
        Some(v) => {
            if signed && first == 0x2d {
                Some(-v)
            } else {
                Some(v)
            }
        },
    }
}

/// The thousandths that the bytes of `line` from `from` up to `k` spell,
/// times ten to the power `e`: see [`spelled`].
fn spell(line: &[u8], from: usize, k: usize, e: i64) -> (r: Option<i64>)
    requires
        from <= k <= line@.len(),
        -EXPONENT_LIMIT <= e <= EXPONENT_LIMIT,
    ensures
        match spelled(line@.subrange(from as int, k as int), e as int) {
            Some(v) => r == Some(v as i64) && 0 <= v <= NUMBER_LIMIT,
            None => r is None,
        },
{
    let ghost mantissa = line@.subrange(from as int, k as int);
    let p = find_point(line, from, k);
    let frac_from = if p < k {
        p + 1
    } else {
        p
    };
    let ghost whole = mantissa.subrange(0, p - from);
    let ghost frac = if p < k {
        mantissa.subrange(p - from + 1, mantissa.len() as int)
    } else {
        Seq::<u8>::empty()
    };
    proof {
        assert(whole =~= line@.subrange(from as int, p as int));
        assert(frac =~= line@.subrange(frac_from as int, k as int));
    }
    if (p - from) + (k - frac_from) == 0 {
        return None;
    }
    if !only_digits(line, from, p) || !only_digits(line, frac_from, k) {
        return None;
    }
    let keep: i128 = (p - from) as i128 + e as i128 + 3;
    weigh(line, from, p, frac_from, k, keep)
}

fn only_digits(line: &[u8], from: usize, to: usize) -> (all: bool)
    requires
        from <= to <= line@.len(),
    ensures
        all == all_digits(line@.subrange(from as int, to as int)),
{
    let ghost s = line@.subrange(from as int, to as int);
    let mut i = from;
    while i < to
        invariant
            from <= i <= to,
            to <= line@.len(),
            s == line@.subrange(from as int, to as int),
            forall|k: int| 0 <= k < i - from ==> is_digit(#[trigger] s[k]),
        decreases to - i,
    {
        let b = line[i];
        assert(b == s[i - from]);
        if b < 0x30 || b > 0x39 {
            assert(!is_digit(s[i - from]));
            return false;
        }
        i = i + 1;
    }
    true
}

/// The parameter that word `t` of `line` names.
pub fn key_of(line: &[u8], t: Token) -> (key: Option<ConfigKey>)
    requires
        t.start <= t.end <= line@.len(),
    ensures
        key == key_named(text(line@, t)),
{
    if is_word(line, t, "left_p") {
        Some(ConfigKey::LeftP)
    } else if is_word(line, t, "left_i") {
        Some(ConfigKey::LeftI)
    } else if is_word(line, t, "left_d") {
        Some(ConfigKey::LeftD)
    } else if is_word(line, t, "right_p") {
        Some(ConfigKey::RightP)
    } else if is_word(line, t, "right_i") {
        Some(ConfigKey::RightI)
    } else if is_word(line, t, "right_d") {
        Some(ConfigKey::RightD)
    } else if is_word(line, t, "spin_p") {
        Some(ConfigKey::SpinP)
    } else if is_word(line, t, "spin_i") {
        Some(ConfigKey::SpinI)
    } else if is_word(line, t, "spin_d") {
        Some(ConfigKey::SpinD)
    } else if is_word(line, t, "spin_err") {
        Some(ConfigKey::SpinErr)
    } else if is_word(line, t, "spin_settle") {
        Some(ConfigKey::SpinSettle)
    } else if is_word(line, t, "linear_p") {
        Some(ConfigKey::LinearP)
    } else if is_word(line, t, "linear_i") {
        Some(ConfigKey::LinearI)
    } else if is_word(line, t, "linear_d") {
        Some(ConfigKey::LinearD)
    } else if is_word(line, t, "linear_spin_p") {
        Some(ConfigKey::LinearSpinP)
    } else if is_word(line, t, "linear_spin_i") {
        Some(ConfigKey::LinearSpinI)
    } else if is_word(line, t, "linear_spin_d") {
        Some(ConfigKey::LinearSpinD)
    } else if is_word(line, t, "linear_spin_pos_p") {
        Some(ConfigKey::LinearSpinPosP)
    } else if is_word(line, t, "linear_err") {
        Some(ConfigKey::LinearErr)
    } else if is_word(line, t, "linear_front_err") {
        Some(ConfigKey::LinearFrontErr)
    } else if is_word(line, t, "linear_settle") {
        Some(ConfigKey::LinearSettle)
    } else if is_word(line, t, "ticks_per_spin") {
        Some(ConfigKey::TicksPerSpin)
    } else if is_word(line, t, "ticks_per_cell") {
        Some(ConfigKey::TicksPerCell)
    } else if is_word(line, t, "cell_width") {
        Some(ConfigKey::CellWidth)
    } else if is_word(line, t, "cell_offset") {
        Some(ConfigKey::CellOffset)
    } else if is_word(line, t, "front_wall_distance") {
        Some(ConfigKey::FrontWallDistance)
    } else if is_word(line, t, "wall_threshold") {
        Some(ConfigKey::WallThreshold)
    } else {
        None
    }
}

impl ConfigKey {
    /// The name of the parameter on the console.
    pub fn name(self) -> (name: &'static str)
        ensures
            name@ == match self {
            ConfigKey::LeftP => "left_p"@,
            ConfigKey::LeftI => "left_i"@,
            ConfigKey::LeftD => "left_d"@,
            ConfigKey::RightP => "right_p"@,
            ConfigKey::RightI => "right_i"@,
            ConfigKey::RightD => "right_d"@,
            ConfigKey::SpinP => "spin_p"@,
            ConfigKey::SpinI => "spin_i"@,
            ConfigKey::SpinD => "spin_d"@,
            ConfigKey::SpinErr => "spin_err"@,
            ConfigKey::SpinSettle => "spin_settle"@,
            ConfigKey::LinearP => "linear_p"@,
            ConfigKey::LinearI => "linear_i"@,
            ConfigKey::LinearD => "linear_d"@,
            ConfigKey::LinearSpinP => "linear_spin_p"@,
            ConfigKey::LinearSpinI => "linear_spin_i"@,
            ConfigKey::LinearSpinD => "linear_spin_d"@,
            ConfigKey::LinearSpinPosP => "linear_spin_pos_p"@,
            ConfigKey::LinearErr => "linear_err"@,
            ConfigKey::LinearFrontErr => "linear_front_err"@,
            ConfigKey::LinearSettle => "linear_settle"@,
            ConfigKey::TicksPerSpin => "ticks_per_spin"@,
            ConfigKey::TicksPerCell => "ticks_per_cell"@,
            ConfigKey::CellWidth => "cell_width"@,
            ConfigKey::CellOffset => "cell_offset"@,
            ConfigKey::FrontWallDistance => "front_wall_distance"@,
            ConfigKey::WallThreshold => "wall_threshold"@,
            },
    {
        match self {
            ConfigKey::LeftP => "left_p",
            ConfigKey::LeftI => "left_i",
            ConfigKey::LeftD => "left_d",
            ConfigKey::RightP => "right_p",
            ConfigKey::RightI => "right_i",
            ConfigKey::RightD => "right_d",
            ConfigKey::SpinP => "spin_p",
            ConfigKey::SpinI => "spin_i",
            ConfigKey::SpinD => "spin_d",
            ConfigKey::SpinErr => "spin_err",
            ConfigKey::SpinSettle => "spin_settle",
            ConfigKey::LinearP => "linear_p",
            ConfigKey::LinearI => "linear_i",
            ConfigKey::LinearD => "linear_d",
            ConfigKey::LinearSpinP => "linear_spin_p",
            ConfigKey::LinearSpinI => "linear_spin_i",
            ConfigKey::LinearSpinD => "linear_spin_d",
            ConfigKey::LinearSpinPosP => "linear_spin_pos_p",
            ConfigKey::LinearErr => "linear_err",
            ConfigKey::LinearFrontErr => "linear_front_err",
            ConfigKey::LinearSettle => "linear_settle",
            ConfigKey::TicksPerSpin => "ticks_per_spin",
            ConfigKey::TicksPerCell => "ticks_per_cell",
            ConfigKey::CellWidth => "cell_width",
            ConfigKey::CellOffset => "cell_offset",
            ConfigKey::FrontWallDistance => "front_wall_distance",
            ConfigKey::WallThreshold => "wall_threshold",
        }
    }
}

fn ticks_after(line: &[u8], from: usize) -> (n: Option<i32>)
    requires
        from <= line@.len(),
    ensures
        n == ticks_from(line@, from as int),
{
    match next_word(line, from) {
        None => None,
        Some(t) => match parse_decimal(line, t) {
            Some(v) => {
                if v < i32::MIN as i64 || v > i32::MAX as i64 {
                    None
                } else {
                    Some(v as i32)
                }
            },
            None => None,
        },
    }
}

fn config_command(line: &[u8], from: usize) -> (r: Request)
    requires
        from <= line@.len(),
    ensures
        r == config_request(line@, from as int),
{
    let k = match next_word(line, from) {
        None => {
            return Request::ConfigShow;
        },
        Some(k) => k,
    };
    let key = match key_of(line, k) {
        None => {
            return Request::Error(Complaint::UnknownKey);
        },
        Some(key) => key,
    };
    let v = match next_word(line, k.end) {
        None => {
            return Request::ConfigGet(key);
        },
        Some(v) => v,
    };
    if key.gain() {
        return Request::ConfigSetGain(key, v);
    }
    let value = if key.whole() {
        parse_number(line, v)
    } else {
        parse_decimal(line, v)
    };
    match value {
        Some(n) => {
            if in_range(key, n) {
                Request::ConfigSet(key, n)
            } else {
                Request::Error(Complaint::InvalidValue)
            }
        },
        None => Request::Error(Complaint::InvalidValue),
    }
}

fn in_range(key: ConfigKey, n: i64) -> (ok: bool)
    requires
        !key.is_gain(),
    ensures
        ok == key.accepts(ConfigValue::Number(n)),
{
    match key {
        ConfigKey::LinearSpinPosP | ConfigKey::TicksPerCell => i32::MIN as i64 <= n && n
            <= i32::MAX as i64,
        _ => 0 <= n && n <= u32::MAX as i64,
    }
}

fn bot_command(line: &[u8], from: usize) -> (r: Request)
    requires
        from <= line@.len(),
    ensures
        r == bot_request(line@, from as int),
{
    let t = match next_word(line, from) {
        None => {
            return Request::Error(Complaint::BotNoCommand);
        },
        Some(t) => t,
    };
    if is_word(line, t, "config") {
        config_command(line, t.end)
    } else if is_word(line, t, "spin") {
        match next_word(line, t.end) {
            Some(v) => Request::BotSpin(v),
            None => Request::Error(Complaint::ValueNeeded),
        }
    } else if is_word(line, t, "linear") {
        match next_word(line, t.end) {
            Some(v) => Request::BotLinear(v),
            None => Request::Error(Complaint::ValueNeeded),
        }
    } else {
        Request::Error(Complaint::BotUnknown(t))
    }
}

fn control_command(line: &[u8], from: usize) -> (r: Request)
    requires
        from <= line@.len(),
    ensures
        r == control_request(line@, from as int),
{
    let t = match next_word(line, from) {
        None => {
            return Request::Error(Complaint::ControlUnknown);
        },
        Some(t) => t,
    };
    if is_word(line, t, "bot") {
        bot_command(line, t.end)
    } else if is_word(line, t, "stop") {
        Request::ControlStop
    } else if is_word(line, t, "spin") {
        match ticks_after(line, t.end) {
            Some(n) => Request::Spin(n),
            None => Request::Error(Complaint::NoTarget),
        }
    } else if is_word(line, t, "linear") {
        match ticks_after(line, t.end) {
            Some(n) => Request::Linear(n),
            None => Request::Error(Complaint::NoTarget),
        }
    } else if is_word(line, t, "turn") {
        match next_word(line, t.end) {
            None => Request::Error(Complaint::UnknownTurn),
            Some(d) => {
                if is_word(line, d, "left") {
                    Request::Turn(Move::TurnLeft)
                } else if is_word(line, d, "right") {
                    Request::Turn(Move::TurnRight)
                } else if is_word(line, d, "around") {
                    Request::Turn(Move::TurnAround)
                } else {
                    Request::Error(Complaint::UnknownTurn)
                }
            },
        }
    } else {
        Request::Error(Complaint::ControlUnknown)
    }
}

fn nav_command(line: &[u8], from: usize) -> (r: Request)
    requires
        from <= line@.len(),
    ensures
        r == nav_request(line@, from as int),
{
    match next_word(line, from) {
        None => Request::Error(Complaint::NavUnknown),
        Some(t) => {
            if is_word(line, t, "cells") {
                Request::NavCells
            } else {
                Request::Error(Complaint::NavUnknown)
            }
        },
    }
}

fn plan_command(line: &[u8], from: usize) -> (r: Request)
    requires
        from <= line@.len(),
    ensures
        r == plan_request(line@, from as int),
{
    let t = match next_word(line, from) {
        None => {
            return Request::Error(Complaint::PlanUnknown);
        },
        Some(t) => t,
    };
    if is_word(line, t, "control") {
        control_command(line, t.end)
    } else if is_word(line, t, "bot") {
        bot_command(line, t.end)
    } else if is_word(line, t, "config") {
        config_command(line, t.end)
    } else if is_word(line, t, "nav") {
        nav_command(line, t.end)
    } else if is_word(line, t, "left") {
        Request::Queue(Move::TurnLeft)
    } else if is_word(line, t, "right") {
        Request::Queue(Move::TurnRight)
    } else if is_word(line, t, "around") {
        Request::Queue(Move::TurnAround)
    } else if is_word(line, t, "forward") {
        Request::Queue(Move::Forward)
    } else if is_word(line, t, "go") {
        Request::Go
    } else if is_word(line, t, "stop") {
        Request::Stop
    } else {
        Request::Error(Complaint::PlanUnknown)
    }
}

/// What `line` asks for: see [`request`]. Every line has an answer; none
/// makes the console fail.
pub fn handle_command(line: &[u8]) -> (r: Request)
    ensures
        r == request(line@),
{
    match next_word(line, 0) {
        Some(t) => {
            if is_word(line, t, "plan") {
                plan_command(line, t.end)
            } else {
                plan_command(line, 0)
            }
        },
        None => plan_command(line, 0),
    }
}

} // verus!
