//! The two byte queues between the serial port and the control loop. The
//! interrupt handler feeds received bytes in with [`Uart::receive`] and
//! fetches bytes to send with [`Uart::next_to_send`]; the control loop reads
//! and writes through the rest. Neither queue grows past its capacity.

use vstd::prelude::*;
use vstd::string::StringSliceAdditionalSpecFns;
use crate::msgs::{decode, parse, Decoded, Msg, Parsed, LINE_FEED};
use crate::stream::{ParseError, ReadExact, WriteExact};

verus! {

/// Capacity of the receive queue.
pub const RX_BUFFER_LEN: usize = 1024;

/// Capacity of the transmit queue.
pub const TX_BUFFER_LEN: usize = 1024;

/// Why bytes were not queued for sending.
#[derive(Clone, Copy, Debug, PartialEq, Eq, Structural)]
pub enum TxError {
    /// The transmit queue has no room for all of them.
    BufferFull,
    /// The queue is in use elsewhere.
    Busy,
    /// The port was not set up.
    NotInitialized,
}

/// Why no bytes were handed out.
#[derive(Clone, Copy, Debug, PartialEq, Eq, Structural)]
pub enum RxError {
    /// Fewer bytes are pending than were asked for.
    BufferEmpty,
    /// The queue is in use elsewhere.
    Busy,
    /// The port was not set up.
    NotInitialized,
}

fn append(v: &mut Vec<u8>, b: &[u8])
    requires
        old(v)@.len() + b@.len() <= usize::MAX,
    ensures
        final(v)@ == old(v)@ + b@,
{
    let n = b.len();
    let mut i: usize = 0;
    while i < n
        invariant
            i <= n,
            n == b@.len(),
            v@ == old(v)@ + b@.subrange(0, i as int),
        decreases n - i,
    {
        v.push(b[i]);
        assert(v@ =~= old(v)@ + b@.subrange(0, i + 1));
        i = i + 1;
    }
    assert(v@ =~= old(v)@ + b@);
}

fn drop_front(v: &mut Vec<u8>, n: usize)
    requires
        n <= old(v)@.len(),
    ensures
        final(v)@ == old(v)@.skip(n as int),
{
    let mut tail = v.split_off(n);
    core::mem::swap(v, &mut tail);
}

fn copy_front(v: &Vec<u8>, buf: &mut [u8])
    requires
        old(buf)@.len() <= v@.len(),
    ensures
        final(buf)@ == v@.subrange(0, old(buf)@.len() as int),
{
    let n = buf.len();
    let mut i: usize = 0;
    while i < n
        invariant
            i <= n,
            n == buf@.len(),
            n <= v@.len(),
            forall|k: int| 0 <= k < i ==> buf@[k] == v@[k],
        decreases n - i,
    {
        buf[i] = v[i];
        i = i + 1;
    }
    assert(buf@ =~= v@.subrange(0, n as int));
}

/// The receive queue and the transmit queue of the serial port.
pub struct Uart {
    rx: Vec<u8>,
    tx: Vec<u8>,
}

impl Uart {
    #[verifier::type_invariant]
    spec fn well_formed(self) -> bool {
        self.rx@.len() <= RX_BUFFER_LEN && self.tx@.len() <= TX_BUFFER_LEN
    }

    /// The bytes received and not read yet, oldest first.
    pub closed spec fn rx(&self) -> Seq<u8> {
        self.rx@
    }

    /// The bytes queued and not sent yet, oldest first.
    pub closed spec fn tx(&self) -> Seq<u8> {
        self.tx@
    }

    /// Both queues empty.
    pub fn new() -> (u: Uart)
        ensures
            u.rx() == Seq::<u8>::empty(),
            u.tx() == Seq::<u8>::empty(),
    {
        Uart { rx: Vec::new(), tx: Vec::new() }
    }

    /// A byte has arrived: it joins the receive queue. If the queue is full
    /// the byte is lost, and the answer is `false`.
    pub fn receive(&mut self, byte: u8) -> (kept: bool)
        ensures
            kept == (old(self).rx().len() < RX_BUFFER_LEN),
            final(self).rx() == if kept {
                old(self).rx().push(byte)
            } else {
                old(self).rx()
            },
            final(self).tx() == old(self).tx(),
    {
        proof {
            use_type_invariant(&*self);
        }
        if self.rx.len() < RX_BUFFER_LEN {
            let mut rx = Vec::new();
            core::mem::swap(&mut self.rx, &mut rx);
            rx.push(byte);
            core::mem::swap(&mut self.rx, &mut rx);
            true
        } else {
            false
        }
    }

    /// The port is ready for another byte: the oldest queued byte leaves
    /// the transmit queue, if there is one.
    pub fn next_to_send(&mut self) -> (byte: Option<u8>)
        ensures
            byte == if old(self).tx().len() > 0 {
                Some(old(self).tx()[0])
            } else {
                None
            },
            final(self).tx() == if old(self).tx().len() > 0 {
                old(self).tx().skip(1)
            } else {
                old(self).tx()
            },
            final(self).rx() == old(self).rx(),
    {
        proof {
            use_type_invariant(&*self);
        }
        if self.tx.len() > 0 {
            let b = self.tx[0];
            let mut tx = Vec::new();
            core::mem::swap(&mut self.tx, &mut tx);
            drop_front(&mut tx, 1);
            core::mem::swap(&mut self.tx, &mut tx);
            Some(b)
        } else {
            None
        }
    }

    /// Queues `c` for sending.
    pub fn add_byte(&mut self, c: u8) -> (r: Result<(), TxError>)
        ensures
            r == if old(self).tx().len() < TX_BUFFER_LEN {
                Ok::<(), TxError>(())
            } else {
                Err(TxError::BufferFull)
            },
            final(self).tx() == if r is Ok {
                old(self).tx().push(c)
            } else {
                old(self).tx()
            },
            final(self).rx() == old(self).rx(),
    {
        proof {
            use_type_invariant(&*self);
        }
        if self.tx.len() < TX_BUFFER_LEN {
            let mut tx = Vec::new();
            core::mem::swap(&mut self.tx, &mut tx);
            tx.push(c);
            core::mem::swap(&mut self.tx, &mut tx);
            Ok(())
        } else {
            Err(TxError::BufferFull)
        }
    }

    /// Queues all of `b` for sending, or none of it if the queue has not
    /// room for all.
    pub fn add_bytes(&mut self, b: &[u8]) -> (r: Result<(), TxError>)
        ensures
            r == if old(self).tx().len() + b@.len() <= TX_BUFFER_LEN {
                Ok::<(), TxError>(())
            } else {
                Err(TxError::BufferFull)
            },
            final(self).tx() == if r is Ok {
                old(self).tx() + b@
            } else {
                old(self).tx()
            },
            final(self).rx() == old(self).rx(),
    {
        proof {
            use_type_invariant(&*self);
        }
        if b.len() <= TX_BUFFER_LEN - self.tx.len() {
            let mut tx = Vec::new();
            core::mem::swap(&mut self.tx, &mut tx);
            append(&mut tx, b);
            core::mem::swap(&mut self.tx, &mut tx);
            Ok(())
        } else {
            Err(TxError::BufferFull)
        }
    }

    /// Queues the bytes of `s` for sending, all or none.
    pub fn add_str(&mut self, s: &str) -> (r: Result<(), TxError>)
        ensures
            r == if old(self).tx().len() + s.spec_bytes().len() <= TX_BUFFER_LEN {
                Ok::<(), TxError>(())
            } else {
                Err(TxError::BufferFull)
            },
            final(self).tx() == if r is Ok {
                old(self).tx() + s.spec_bytes()
            } else {
                old(self).tx()
            },
            final(self).rx() == old(self).rx(),
    {
        self.add_bytes(s.as_bytes())
    }

    /// Empties the transmit queue.
    pub fn clear_tx(&mut self) -> (r: Result<(), TxError>)
        ensures
            r is Ok,
            final(self).tx() == Seq::<u8>::empty(),
            final(self).rx() == old(self).rx(),
    {
        proof {
            use_type_invariant(&*self);
        }
        let mut tx = Vec::new();
        core::mem::swap(&mut self.tx, &mut tx);
        Ok(())
    }

    /// Empties the receive queue.
    pub fn clear_rx(&mut self) -> (r: Result<(), TxError>)
        ensures
            r is Ok,
            final(self).rx() == Seq::<u8>::empty(),
            final(self).tx() == old(self).tx(),
    {
        proof {
            use_type_invariant(&*self);
        }
        let mut rx = Vec::new();
        core::mem::swap(&mut self.rx, &mut rx);
        Ok(())
    }

    /// The number of bytes waiting to be sent.
    pub fn tx_len(&self) -> (r: Result<usize, TxError>)
        ensures
            r == Ok::<usize, TxError>(self.tx().len() as usize),
            self.tx().len() <= TX_BUFFER_LEN,
    {
        proof {
            use_type_invariant(self);
        }
        Ok(self.tx.len())
    }

    /// The number of bytes waiting to be read.
    pub fn rx_len(&self) -> (r: Result<usize, RxError>)
        ensures
            r == Ok::<usize, RxError>(self.rx().len() as usize),
            self.rx().len() <= RX_BUFFER_LEN,
    {
        proof {
            use_type_invariant(self);
        }
        Ok(self.rx.len())
    }

    /// Takes the oldest received byte.
    pub fn read_byte(&mut self) -> (r: Result<u8, RxError>)
        ensures
            r == if old(self).rx().len() > 0 {
                Ok::<u8, RxError>(old(self).rx()[0])
            } else {
                Err(RxError::BufferEmpty)
            },
            final(self).rx() == if r is Ok {
                old(self).rx().skip(1)
            } else {
                old(self).rx()
            },
            final(self).tx() == old(self).tx(),
    {
        proof {
            use_type_invariant(&*self);
        }
        if self.rx.len() > 0 {
            let c = self.rx[0];
            let mut rx = Vec::new();
            core::mem::swap(&mut self.rx, &mut rx);
            drop_front(&mut rx, 1);
            core::mem::swap(&mut self.rx, &mut rx);
            Ok(c)
        } else {
            Err(RxError::BufferEmpty)
        }
    }

    /// Takes all received bytes, once the newest of them is a line feed.
    pub fn read_line(&mut self) -> (r: Result<Vec<u8>, RxError>)
        ensures
            match r {
                Ok(line) => {
                    &&& old(self).rx().len() > 0
                    &&& old(self).rx().last() == LINE_FEED
                    &&& line@ == old(self).rx()
                    &&& final(self).rx() == Seq::<u8>::empty()
                },
                Err(e) => {
                    &&& old(self).rx().len() == 0 || old(self).rx().last() != LINE_FEED
                    &&& e == RxError::BufferEmpty
                    &&& final(self).rx() == old(self).rx()
                },
            },
            final(self).tx() == old(self).tx(),
    {
        proof {
            use_type_invariant(&*self);
        }
        let n = self.rx.len();
        if n > 0 && self.rx[n - 1] == LINE_FEED {
            let mut line = Vec::new();
            core::mem::swap(&mut self.rx, &mut line);
            Ok(line)
        } else {
            Err(RxError::BufferEmpty)
        }
    }

    /// Fills `fill_buf` with the oldest received bytes and takes them from
    /// the queue, if that many are there.
    pub fn read_exact(&mut self, fill_buf: &mut [u8]) -> (r: Result<(), RxError>)
        ensures
            final(fill_buf)@.len() == old(fill_buf)@.len(),
            r == if old(fill_buf)@.len() <= old(self).rx().len() {
                Ok::<(), RxError>(())
            } else {
                Err(RxError::BufferEmpty)
            },
            r is Ok ==> final(fill_buf)@ == old(self).rx().subrange(0, old(fill_buf)@.len() as int)
                && final(self).rx() == old(self).rx().skip(old(fill_buf)@.len() as int),
            r is Err ==> final(fill_buf)@ == old(fill_buf)@ && final(self).rx() == old(self).rx(),
            final(self).tx() == old(self).tx(),
    {
        proof {
            use_type_invariant(&*self);
        }
        let n = fill_buf.len();
        if self.rx.len() >= n {
            copy_front(&self.rx, fill_buf);
            let mut rx = Vec::new();
            core::mem::swap(&mut self.rx, &mut rx);
            drop_front(&mut rx, n);
            core::mem::swap(&mut self.rx, &mut rx);
            Ok(())
        } else {
            Err(RxError::BufferEmpty)
        }
    }

    /// Takes the message at the head of the receive queue, if a whole one
    /// is there. Otherwise the queue stays as it is: while bytes of the
    /// message are still to come the answer is `BufferEmpty`, and a byte
    /// that is no tag is reported as such.
    pub fn read_msg(&mut self) -> (r: Result<Msg, ParseError<RxError>>)
        ensures
            match parse(old(self).rx()) {
                Parsed::Complete(m, n) => r matches Ok(msg) && msg@ == m && final(self).rx() == old(
                    self,
                ).rx().skip(n as int),
                Parsed::NeedMoreBytes => r matches Err(ParseError::ReadExact(RxError::BufferEmpty))
                    && final(self).rx() == old(self).rx(),
                Parsed::UnknownTag(t) => r matches Err(ParseError::UnknownMsg(u)) && u == t
                    && final(self).rx() == old(self).rx(),
            },
            final(self).tx() == old(self).tx(),
    {
        proof {
            use_type_invariant(&*self);
        }
        match decode(self.rx.as_slice()) {
            Decoded::Complete(msg, n) => {
                let mut rx = Vec::new();
                core::mem::swap(&mut self.rx, &mut rx);
                drop_front(&mut rx, n);
                core::mem::swap(&mut self.rx, &mut rx);
                Ok(msg)
            },
            Decoded::NeedMoreBytes => Err(ParseError::ReadExact(RxError::BufferEmpty)),
            Decoded::UnknownTag(t) => Err(ParseError::UnknownMsg(t)),
        }
    }
}

impl ReadExact for Uart {
    type Error = RxError;

    open spec fn pending(&self) -> Seq<u8> {
        self.rx()
    }

    open spec fn gives(e: RxError) -> bool {
        e == RxError::BufferEmpty
    }

    open spec fn underrun(e: RxError) -> bool {
        e == RxError::BufferEmpty
    }

    fn peek(&mut self, buf: &mut [u8]) -> (r: Result<(), RxError>)
        ensures
            final(self).rx() == old(self).rx(),
            final(self).tx() == old(self).tx(),
            r == if old(buf)@.len() <= old(self).rx().len() {
                Ok::<(), RxError>(())
            } else {
                Err(RxError::BufferEmpty)
            },
    {
        if self.rx.len() >= buf.len() {
            copy_front(&self.rx, buf);
            Ok(())
        } else {
            Err(RxError::BufferEmpty)
        }
    }

    fn take(&mut self, buf: &mut [u8]) -> (r: Result<(), RxError>)
        ensures
            final(self).tx() == old(self).tx(),
            r == if old(buf)@.len() <= old(self).rx().len() {
                Ok::<(), RxError>(())
            } else {
                Err(RxError::BufferEmpty)
            },
            r is Ok ==> final(self).rx() == old(self).rx().skip(old(buf)@.len() as int),
            r is Err ==> final(self).rx() == old(self).rx(),
    {
        let r = self.read_exact(buf);
        proof {
            if r is Ok {
                assert(old(self).rx() =~= buf@ + self.rx());
            }
        }
        r
    }
}

impl WriteExact for Uart {
    type Error = TxError;

    open spec fn written(&self) -> Seq<u8> {
        self.tx()
    }

    open spec fn refused(&self, buf: Seq<u8>, e: TxError) -> bool {
        e == TxError::BufferFull && self.tx().len() + buf.len() > TX_BUFFER_LEN
    }

    fn write(&mut self, buf: &[u8]) -> (r: Result<(), TxError>)
        ensures
            final(self).rx() == old(self).rx(),
            r is Ok <==> old(self).tx().len() + buf@.len() <= TX_BUFFER_LEN,
    {
        self.add_bytes(buf)
    }
}

} // verus!
