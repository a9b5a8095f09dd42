//! The telemetry link on the robot's side: every tick it takes in the
//! message that has arrived, if a whole one has, and clears the receive
//! queue when nothing could be read for too long; and it reports the
//! messages that the other side has asked to be logged.

use vstd::prelude::*;
use crate::bot::{elapsed, since};
use crate::mouse::Mouse;
use crate::msgid::MsgId;
use crate::msgs::{encode, encoding, parse, Body, Message, Parsed, Payload};
use crate::stream::ParseError;
use crate::uart::{Uart, TX_BUFFER_LEN};

verus! {

/// After this many milliseconds without a message the receive queue is
/// cleared, so that reading starts afresh behind lost or garbled bytes.
pub const FLUSH_AFTER: u32 = 1000;

/// What a tick of the link found.
#[derive(Clone, Copy, Debug, PartialEq, Eq, Structural)]
pub enum LinkEvent {
    /// A message was taken in.
    Received(MsgId),
    /// A message was read, but the target it adds found its list full and
    /// was dropped.
    Dropped(MsgId),
    /// No whole message is there yet.
    Waiting,
    /// Nothing could be read for too long and the receive queue was
    /// cleared. If the reason was a byte that is no tag, the byte is given.
    Flushed(Option<u8>),
}

/// When a message was last taken in or the queue last cleared.
#[derive(Clone, Copy, Debug, PartialEq, Eq, Structural)]
pub struct Link {
    pub last_msg_time: u32,
}

impl Link {
    /// A link on which nothing has happened yet.
    pub fn new() -> (l: Link)
        ensures
            l.last_msg_time == 0,
    {
        Link { last_msg_time: 0 }
    }

    /// One tick at `now`. A whole message at the head of the receive queue
    /// is taken in by `mouse`. Failing that, the queue is cleared if
    /// [`FLUSH_AFTER`] has passed since the last message or the last
    /// clearing; else everything stays as it is.
    pub fn poll(&mut self, now: u32, uart: &mut Uart, mouse: &mut Mouse) -> (e: LinkEvent)
        requires
            old(mouse).wf(),
        ensures
            final(mouse).wf(),
            final(uart).tx() == old(uart).tx(),
            match parse(old(uart).rx()) {
                Parsed::Complete(m, n) => {
                    &&& e == if old(mouse).accepts(m) {
                        LinkEvent::Received(m.id)
                    } else {
                        LinkEvent::Dropped(m.id)
                    }
                    &&& final(self).last_msg_time == now
                    &&& final(uart).rx() == old(uart).rx().skip(n as int)
                    &&& forall|id: MsgId|
                        #[trigger] final(mouse).value(id) == old(mouse).applied(m, id)
                },
                other => {
                    &&& forall|id: MsgId| #[trigger] final(mouse).value(id) == old(mouse).value(id)
                    &&& if elapsed(now, old(self).last_msg_time) >= FLUSH_AFTER {
                        &&& e == LinkEvent::Flushed(
                            match other {
                                Parsed::UnknownTag(t) => Some(t),
                                _ => None,
                            },
                        )
                        &&& final(self).last_msg_time == now
                        &&& final(uart).rx() == Seq::<u8>::empty()
                    } else {
                        &&& e == LinkEvent::Waiting
                        &&& final(self).last_msg_time == old(self).last_msg_time
                        &&& final(uart).rx() == old(uart).rx()
                    }
                },
            },
    {
        match uart.read_msg() {
            Ok(msg) => {
                let id = msg.id();
                let taken = mouse.update(msg);
                self.last_msg_time = now;
                if taken {
                    LinkEvent::Received(id)
                } else {
                    LinkEvent::Dropped(id)
                }
            },
            Err(why) => {
                if since(now, self.last_msg_time) >= FLUSH_AFTER {
                    let _ = uart.clear_rx();
                    self.last_msg_time = now;
                    match why {
                        ParseError::UnknownMsg(t) => LinkEvent::Flushed(Some(t)),
                        ParseError::ReadExact(_) => LinkEvent::Flushed(None),
                    }
                } else {
                    LinkEvent::Waiting
                }
            },
        }
    }
}

/// The transmit queue `tx` after message `m` was offered to it: the
/// message's bytes join the queue if there is room for all of them.
pub open spec fn offered(tx: Seq<u8>, m: Message) -> Seq<u8> {
    if tx.len() + encoding(m).len() <= TX_BUFFER_LEN {
        tx + encoding(m)
    } else {
        tx
    }
}

/// The transmit queue `tx` after the messages named by `ids` were offered
/// to it in order, each with what `mouse` has for it.
pub open spec fn reported(tx: Seq<u8>, mouse: &Mouse, ids: Seq<MsgId>) -> Seq<u8>
    decreases ids.len(),
{
    if ids.len() == 0 {
        tx
    } else {
        offered(
            reported(tx, mouse, ids.drop_last()),
            Message { id: ids.last(), body: mouse.value(ids.last()) },
        )
    }
}

/// How many of the messages named by `ids` are written when they are
/// offered to the transmit queue `tx` in order: those for which the queue
/// still has room when their turn comes.
pub open spec fn written_count(tx: Seq<u8>, mouse: &Mouse, ids: Seq<MsgId>) -> nat
    decreases ids.len(),
{
    if ids.len() == 0 {
        0
    } else {
        let before = reported(tx, mouse, ids.drop_last());
        let m = Message { id: ids.last(), body: mouse.value(ids.last()) };
        written_count(tx, mouse, ids.drop_last()) + if before.len() + encoding(m).len()
            <= TX_BUFFER_LEN {
            1nat
        } else {
            0nat
        }
    }
}

/// Reports the messages that are to be logged, if the transmit queue is
/// empty: each is written whole or, if the queue has no room left for it,
/// not at all. The answer is the number of messages written.
pub fn report(mouse: &Mouse, uart: &mut Uart) -> (sent: usize)
    requires
        mouse.wf(),
    ensures
        final(uart).rx() == old(uart).rx(),
        final(uart).tx() == if old(uart).tx().len() == 0 {
            match mouse.value(MsgId::Logged) {
                Body::Ids(ids) => reported(old(uart).tx(), mouse, ids),
                _ => old(uart).tx(),
            }
        } else {
            old(uart).tx()
        },
        sent == if old(uart).tx().len() == 0 {
            match mouse.value(MsgId::Logged) {
                Body::Ids(ids) => written_count(old(uart).tx(), mouse, ids),
                _ => 0,
            }
        } else {
            0
        },
{
    match uart.tx_len() {
        Ok(0) => {},
        _ => {
            return 0;
        },
    }
    let logged = mouse.msg(MsgId::Logged);
    let mut sent: usize = 0;
    match logged.payload() {
        Payload::Ids(ids) => {
            let n = ids.len();
            let mut i: usize = 0;
            while i < n
                invariant
                    i <= n,
                    n == ids@.len(),
                    sent <= i,
                    sent == written_count(old(uart).tx(), mouse, ids@.subrange(0, i as int)),
                    mouse.wf(),
                    uart.rx() == old(uart).rx(),
                    uart.tx() == reported(old(uart).tx(), mouse, ids@.subrange(0, i as int)),
                decreases n - i,
            {
                proof {
                    let next = ids@.subrange(0, i + 1);
                    assert(next.drop_last() =~= ids@.subrange(0, i as int));
                    assert(next.last() == ids@[i as int]);
                }
                let m = mouse.msg(ids.get(i));
                let out = encode(&m);
                match uart.add_bytes(out.bytes()) {
                    Ok(()) => {
                        sent = sent + 1;
                    },
                    Err(_) => {},
                }
                i = i + 1;
            }
            assert(ids@.subrange(0, n as int) =~= ids@);
        },
        _ => {},
    }
    sent
}

} // verus!
