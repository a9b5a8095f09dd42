//! The planner: it keeps a queue of moves, hands the next one to the move
//! executor whenever that is idle, follows the robot's cell and heading as
//! it does, and asks the navigation strategy for more when the queue has
//! run empty.

use vstd::prelude::*;
use crate::bot::Readings;
use crate::bytes::Bytes;
use crate::control::{order_for, Control, CurrentMove, Drive, Tick};
use crate::moves::{Direction, Move};
use crate::navigate::Navigate;

verus! {

/// The most moves that wait in the queue.
pub const MOVE_BUFFER_LEN: usize = 32;

/// The byte that stands for a move in the queue.
pub open spec fn code_of(m: Move) -> u8 {
    match m {
        Move::TurnLeft => 0,
        Move::TurnRight => 1,
        Move::TurnAround => 2,
        Move::Forward => 3,
    }
}

/// The move that a byte of the queue stands for.
pub open spec fn move_of(c: u8) -> Move {
    if c == 0 {
        Move::TurnLeft
    } else if c == 1 {
        Move::TurnRight
    } else if c == 2 {
        Move::TurnAround
    } else {
        Move::Forward
    }
}

fn to_code(m: Move) -> (c: u8)
    ensures
        c == code_of(m),
        move_of(c) == m,
{
    match m {
        Move::TurnLeft => 0,
        Move::TurnRight => 1,
        Move::TurnAround => 2,
        Move::Forward => 3,
    }
}

fn from_code(c: u8) -> (m: Move)
    ensures
        m == move_of(c),
{
    if c == 0 {
        Move::TurnLeft
    } else if c == 1 {
        Move::TurnRight
    } else if c == 2 {
        Move::TurnAround
    } else {
        Move::Forward
    }
}

/// The moves that wait to be carried out, oldest first: at most
/// [`MOVE_BUFFER_LEN`] of them.
pub struct MoveQueue {
    codes: Bytes,
}

impl View for MoveQueue {
    type V = Seq<Move>;

    closed spec fn view(&self) -> Seq<Move> {
        Seq::new(self.codes@.len(), |i: int| move_of(self.codes@[i]))
    }
}

impl MoveQueue {
    #[verifier::type_invariant]
    spec fn well_formed(self) -> bool {
        self.codes@.len() <= MOVE_BUFFER_LEN
    }

    /// The empty queue.
    pub fn new() -> (q: MoveQueue)
        ensures
            q@ == Seq::<Move>::empty(),
    {
        let q = MoveQueue { codes: Bytes::new() };
        assert(q@ =~= Seq::<Move>::empty());
        q
    }

    /// The number of moves waiting, never more than [`MOVE_BUFFER_LEN`].
    pub fn len(&self) -> (n: usize)
        ensures
            n == self@.len(),
            n <= MOVE_BUFFER_LEN,
    {
        proof {
            use_type_invariant(self);
        }
        self.codes.as_slice().len()
    }

    /// The move at index `i`, counted from the oldest.
    pub fn get(&self, i: usize) -> (m: Move)
        requires
            i < self@.len(),
        ensures
            m == self@[i as int],
    {
        from_code(self.codes.as_slice()[i])
    }

    /// Appends `m` unless the queue is full, and says whether it did.
    pub fn push(&mut self, m: Move) -> (pushed: bool)
        ensures
            pushed == (old(self)@.len() < MOVE_BUFFER_LEN),
            final(self)@ == if pushed {
                old(self)@.push(m)
            } else {
                old(self)@
            },
    {
        proof {
            use_type_invariant(&*self);
        }
        if self.codes.as_slice().len() < MOVE_BUFFER_LEN {
            let mut codes = Bytes::new();
            core::mem::swap(&mut self.codes, &mut codes);
            codes.try_push(to_code(m));
            core::mem::swap(&mut self.codes, &mut codes);
            assert(self@ =~= old(self)@.push(m));
            true
        } else {
            false
        }
    }

    /// Takes the oldest move out of the queue, if there is one.
    pub fn pop_front(&mut self) -> (m: Option<Move>)
        ensures
            m == if old(self)@.len() > 0 {
                Some(old(self)@[0])
            } else {
                None
            },
            final(self)@ == if old(self)@.len() > 0 {
                old(self)@.skip(1)
            } else {
                old(self)@
            },
    {
        proof {
            use_type_invariant(&*self);
        }
        let mut codes = Bytes::new();
        core::mem::swap(&mut self.codes, &mut codes);
        let popped = codes.pop_at(0);
        core::mem::swap(&mut self.codes, &mut codes);
        match popped {
            Some(c) => {
                assert(self@ =~= old(self)@.skip(1));
                Some(from_code(c))
            },
            None => {
                assert(self@ =~= old(self)@);
                None
            },
        }
    }
}

/// The queue `q` after the moves of `moves` were offered to it one by one:
/// each joins the queue if there is room and is dropped if there is none.
pub open spec fn queued(q: Seq<Move>, moves: Seq<Option<Move>>) -> Seq<Move>
    decreases moves.len(),
{
    if moves.len() == 0 {
        q
    } else {
        let before = queued(q, moves.drop_last());
        match moves.last() {
            Some(m) => if before.len() < MOVE_BUFFER_LEN {
                before.push(m)
            } else {
                before
            },
            None => before,
        }
    }
}

/// How many moves `moves` holds.
pub open spec fn count(moves: Seq<Option<Move>>) -> nat
    decreases moves.len(),
{
    if moves.len() == 0 {
        0
    } else {
        count(moves.drop_last()) + if moves.last() is Some {
            1nat
        } else {
            0nat
        }
    }
}

/// The heading after move `m`.
pub open spec fn heading_after(d: Direction, m: Move) -> Direction {
    match m {
        Move::TurnLeft => d.left_of(),
        Move::TurnRight => d.right_of(),
        Move::TurnAround => d.opposite(),
        Move::Forward => d,
    }
}

/// A coordinate one step on, held inside the range of `i32`.
pub open spec fn stepped(v: i32, by: int) -> i32 {
    if v + by > i32::MAX {
        i32::MAX
    } else if v + by < i32::MIN {
        i32::MIN
    } else {
        (v + by) as i32
    }
}

/// The planner.
pub struct Plan<N: Navigate> {
    pub control: Control,
    pub move_buffer: MoveQueue,
    pub going: bool,
    pub navigate: N,
    pub x_pos: i32,
    pub y_pos: i32,
    pub direction: Direction,
}

impl<N: Navigate> Plan<N> {
    /// The executor with the readings of this tick taken in.
    pub open spec fn sensing(&self, r: Readings) -> Control {
        Control { bot: self.control.bot.sensed(r), ..self.control }
    }

    /// One tick at `now` with readings `r` takes the planner from `self`
    /// to `next` and asks for `tick`.
    ///
    /// If the executor is idle and a move is waiting, the move leaves the
    /// queue and goes to the executor, and heading and cell follow it. If
    /// the executor is idle, nothing is waiting and the planner is going,
    /// the strategy is asked and its answer queued. In every case the
    /// executor has its tick afterwards.
    pub open spec fn follows(&self, next: &Self, now: u32, r: Readings, tick: Tick) -> bool {
        if self.control.current_move == CurrentMove::Idle && self.move_buffer@.len() > 0 {
            let m = self.move_buffer@[0];
            &&& next.move_buffer@ == self.move_buffer@.skip(1)
            &&& next.navigate == self.navigate
            &&& next.going == self.going
            &&& next.direction == heading_after(self.direction, m)
            &&& next.x_pos == if m == Move::Forward {
                stepped(self.x_pos, self.direction.dx())
            } else {
                self.x_pos
            }
            &&& next.y_pos == if m == Move::Forward {
                stepped(self.y_pos, self.direction.dy())
            } else {
                self.y_pos
            }
            &&& (next.control, tick) == self.sensing(r).given(
                order_for(m, self.control.bot.config, self.control.last_update),
            ).step(now, r)
        } else {
            &&& next.going == self.going
            &&& next.direction == self.direction
            &&& next.x_pos == self.x_pos
            &&& next.y_pos == self.y_pos
            &&& (next.control, tick) == self.sensing(r).step(now, r)
            &&& if self.control.current_move == CurrentMove::Idle && self.going {
                exists|moves: Seq<Option<Move>>|
                    #[trigger] self.navigate.decides(
                        &next.navigate,
                        self.x_pos as int,
                        self.y_pos as int,
                        self.direction,
                        self.sensing(r).bot.openings(),
                        moves,
                    ) && next.move_buffer@ == queued(self.move_buffer@, moves)
            } else {
                next.navigate == self.navigate && next.move_buffer@ == self.move_buffer@
            }
        }
    }

    /// A planner at cell `(0, 0)` heading up, with nothing queued, that is
    /// not going yet.
    pub fn new(control: Control, navigate: N) -> (p: Plan<N>)
        ensures
            p.control == control,
            p.navigate == navigate,
            p.move_buffer@ == Seq::<Move>::empty(),
            !p.going,
            p.x_pos == 0,
            p.y_pos == 0,
            p.direction == Direction::Up,
    {
        Plan {
            control,
            move_buffer: MoveQueue::new(),
            going: false,
            navigate,
            x_pos: 0,
            y_pos: 0,
            direction: Direction::Up,
        }
    }

    /// One tick at time `now` with the sensors' readings: see
    /// [`Plan::follows`].
    pub fn update(&mut self, now: u32, readings: Readings) -> (tick: Tick)
        ensures
            old(self).follows(final(self), now, readings, tick),
    {
        let ghost mut answered: Seq<Option<Move>> = Seq::empty();
        self.control.bot.sense(readings);
        if self.control.is_idle() {
            match self.move_buffer.pop_front() {
                Some(next_move) => {
                    self.control.start(next_move);
                    match next_move {
                        Move::TurnLeft => {
                            self.direction = self.direction.turn_left();
                        },
                        Move::TurnRight => {
                            self.direction = self.direction.turn_right();
                        },
                        Move::TurnAround => {
                            self.direction = self.direction.turn_around();
                        },
                        Move::Forward => {
                            let (dx, dy) = self.direction.step();
                            self.x_pos = step_on(self.x_pos, dx);
                            self.y_pos = step_on(self.y_pos, dy);
                        },
                    }
                },
                None => {
                    if self.going {
                        let move_options = self.control.bot.move_options();
                        let next_moves = self.navigate.navigate(
                            self.x_pos,
                            self.y_pos,
                            self.direction,
                            move_options,
                        );
                        proof {
                            answered = next_moves@;
                        }
                        self.add_moves(&next_moves);
                    }
                },
            }
        }
        let tick = self.control.update(now, readings);
        proof {
            if old(self).control.current_move == CurrentMove::Idle && old(self).move_buffer@.len()
                == 0 && old(self).going {
                assert(old(self).navigate.decides(
                    &self.navigate,
                    old(self).x_pos as int,
                    old(self).y_pos as int,
                    old(self).direction,
                    old(self).sensing(readings).bot.openings(),
                    answered,
                ) && self.move_buffer@ == queued(old(self).move_buffer@, answered));
            }
        }
        tick
    }

    /// Offers the moves of `next_moves` to the queue, in order. Those for
    /// which the queue has no room are dropped; the answer is `true` if
    /// none was.
    pub fn add_moves(&mut self, next_moves: &[Option<Move>]) -> (all: bool)
        ensures
            final(self).move_buffer@ == queued(old(self).move_buffer@, next_moves@),
            all == (final(self).move_buffer@.len() == old(self).move_buffer@.len() + count(
                next_moves@,
            )),
            final(self).control == old(self).control,
            final(self).going == old(self).going,
            final(self).navigate == old(self).navigate,
            final(self).x_pos == old(self).x_pos,
            final(self).y_pos == old(self).y_pos,
            final(self).direction == old(self).direction,
    {
        let n = next_moves.len();
        let mut all = true;
        let mut i: usize = 0;
        while i < n
            invariant
                i <= n,
                n == next_moves@.len(),
                self.move_buffer@ == queued(
                    old(self).move_buffer@,
                    next_moves@.subrange(0, i as int),
                ),
                self.move_buffer@.len() <= old(self).move_buffer@.len() + count(
                    next_moves@.subrange(0, i as int),
                ),
                all == (self.move_buffer@.len() == old(self).move_buffer@.len() + count(
                    next_moves@.subrange(0, i as int),
                )),
                self.control == old(self).control,
                self.going == old(self).going,
                self.navigate == old(self).navigate,
                self.x_pos == old(self).x_pos,
                self.y_pos == old(self).y_pos,
                self.direction == old(self).direction,
            decreases n - i,
        {
            proof {
                let next = next_moves@.subrange(0, i + 1);
                assert(next.drop_last() =~= next_moves@.subrange(0, i as int));
                assert(next.last() == next_moves@[i as int]);
            }
            match next_moves[i] {
                Some(m) => {
                    if !self.move_buffer.push(m) {
                        all = false;
                    }
                },
                None => {},
            }
            i = i + 1;
        }
        assert(next_moves@.subrange(0, n as int) =~= next_moves@);
        all
    }

    pub fn control(&self) -> (c: &Control)
        ensures
            *c == self.control,
    {
        &self.control
    }

    /// From now on the strategy is asked whenever the queue has run empty.
    pub fn go(&mut self)
        ensures
            final(self).going,
            final(self).control == old(self).control,
            final(self).move_buffer@ == old(self).move_buffer@,
            final(self).navigate == old(self).navigate,
            final(self).x_pos == old(self).x_pos,
            final(self).y_pos == old(self).y_pos,
            final(self).direction == old(self).direction,
    {
        self.going = true;
    }

    /// The strategy is asked no more and the move under way is given up.
    /// Moves that wait stay in the queue. The answer is the order that goes
    /// with it: command zero velocity and set the encoders back.
    pub fn stop(&mut self) -> (d: Drive)
        ensures
            d == Drive::Halt,
            !final(self).going,
            final(self).control == (Control {
                bot: old(self).control.bot.zeroed(),
                current_move: CurrentMove::Idle,
                last_update: old(self).control.last_update,
            }),
            final(self).move_buffer@ == old(self).move_buffer@,
            final(self).navigate == old(self).navigate,
            final(self).x_pos == old(self).x_pos,
            final(self).y_pos == old(self).y_pos,
            final(self).direction == old(self).direction,
    {
        self.going = false;
        self.control.stop()
    }

    pub fn x_pos(&self) -> (x: i32)
        ensures
            x == self.x_pos,
    {
        self.x_pos
    }

    pub fn y_pos(&self) -> (y: i32)
        ensures
            y == self.y_pos,
    {
        self.y_pos
    }

    pub fn direction(&self) -> (d: Direction)
        ensures
            d == self.direction,
    {
        self.direction
    }
}

fn step_on(v: i32, by: i32) -> (w: i32)
    requires
        -1 <= by <= 1,
    ensures
        w == stepped(v, by as int),
{
    if by > 0 && v == i32::MAX {
        v
    } else if by < 0 && v == i32::MIN {
        v
    } else {
        v + by
    }
}

/// The queue never grows past its capacity, and what was waiting stays at
/// the head of the queue in its order.
pub proof fn lemma_queue_is_bounded(q: Seq<Move>, moves: Seq<Option<Move>>)
    requires
        q.len() <= MOVE_BUFFER_LEN,
    ensures
        queued(q, moves).len() <= MOVE_BUFFER_LEN,
        q.len() <= queued(q, moves).len() <= q.len() + count(moves),
        queued(q, moves).subrange(0, q.len() as int) == q,
    decreases moves.len(),
{
    if moves.len() > 0 {
        lemma_queue_is_bounded(q, moves.drop_last());
        let before = queued(q, moves.drop_last());
        assert(queued(q, moves).subrange(0, q.len() as int) =~= before.subrange(0, q.len() as int));
    } else {
        assert(q.subrange(0, q.len() as int) =~= q);
    }
}

} // verus!
