//! Messages over a byte transport: the two capabilities that a transport
//! offers, and reading and writing whole messages through them.

use vstd::prelude::*;
use crate::lists::{MAX_MSGS, TARGET_BUFFER_SIZE};
use crate::msgid::{Kind, MsgId};
use crate::msgs::{
    announced, decode, encode, encoding, lemma_parse_prefix, parse, Decoded, Message, Msg,
    Parsed, LINE_SPAN,
};

verus! {

/// The receiving side of a transport. `pending` is what has arrived and
/// was not taken yet, oldest byte first. Bytes may arrive during any call;
/// they join `pending` at its end. `gives` tells which errors the
/// transport can answer with at all, and `underrun` which of them mean no
/// more than: fewer bytes are pending than were asked for. A transport may
/// refuse for other reasons of its own.
pub trait ReadExact {
    type Error;

    spec fn pending(&self) -> Seq<u8>;

    spec fn gives(e: Self::Error) -> bool;

    spec fn underrun(e: Self::Error) -> bool;

    /// Fills `buf` with the oldest bytes and leaves them pending.
    fn peek(&mut self, buf: &mut [u8]) -> (r: Result<(), Self::Error>)
        ensures
            final(buf)@.len() == old(buf)@.len(),
            old(self).pending().is_prefix_of(final(self).pending()),
            r is Ok ==> final(buf)@.is_prefix_of(final(self).pending()),
            r matches Err(e) && Self::underrun(e) ==> final(self).pending().len() < old(buf)@.len(),
            r matches Err(e) ==> Self::gives(e),
    ;

    /// Fills `buf` with the oldest bytes and removes them from the
    /// transport. When it fails it removes nothing.
    fn take(&mut self, buf: &mut [u8]) -> (r: Result<(), Self::Error>)
        ensures
            final(buf)@.len() == old(buf)@.len(),
            r is Ok ==> old(self).pending().is_prefix_of(final(buf)@ + final(self).pending()),
            r is Err ==> old(self).pending().is_prefix_of(final(self).pending()),
            r matches Err(e) && Self::underrun(e) ==> final(self).pending().len() < old(buf)@.len(),
            r matches Err(e) ==> Self::gives(e),
    ;
}

/// The sending side of a transport. `written` is what it has accepted and
/// still holds; what it does with the bytes later is its own business.
/// `refused` is the transport's own rule of when it may answer a write
/// with which error.
pub trait WriteExact {
    type Error;

    spec fn written(&self) -> Seq<u8>;

    spec fn refused(&self, buf: Seq<u8>, e: Self::Error) -> bool;

    /// Accepts all of `buf` or none of it.
    fn write(&mut self, buf: &[u8]) -> (r: Result<(), Self::Error>)
        ensures
            final(self).written() == if r is Ok {
                old(self).written() + buf@
            } else {
                old(self).written()
            },
            r matches Err(e) ==> old(self).refused(buf@, e),
    ;
}

/// Why no message was read.
#[derive(Debug)]
pub enum ParseError<E> {
    /// The oldest pending byte is no tag.
    UnknownMsg(u8),
    /// The transport did not hand out the bytes asked for; with a transport
    /// that has too few bytes pending this is the sign to try again later.
    ReadExact(E),
}

/// A transport that held `before` has given up message `m` and now holds
/// `after`: the stream, possibly longer than `before` by what arrived
/// meanwhile, starts with `m`, and `after` is what follows `m` in it.
pub open spec fn took(before: Seq<u8>, after: Seq<u8>, m: Message) -> bool {
    exists|t: Seq<u8>|
        before.is_prefix_of(t) && match #[trigger] parse(t) {
            Parsed::Complete(head, n) => head == m && after == t.skip(n as int),
            _ => false,
        }
}

/// How many bytes of the stream to look at next, when `seen` were not
/// enough to decide.
pub open spec fn wanted(seen: Seq<u8>) -> int {
    if seen.len() == 0 {
        1
    } else {
        match MsgId::of_tag(seen[0]) {
            None => 1,
            Some(id) => match id.kind() {
                Kind::Scalar => 5,
                Kind::Byte => 2,
                Kind::Pair => 9,
                Kind::Ids => if seen.len() < 2 {
                    2
                } else {
                    2 + announced(seen[1], MAX_MSGS as int)
                },
                Kind::Targets => if seen.len() < 2 {
                    2
                } else {
                    2 + 8 * announced(seen[1], TARGET_BUFFER_SIZE as int)
                },
                Kind::Line => if seen.len() >= LINE_SPAN {
                    LINE_SPAN as int
                } else {
                    seen.len() as int + 1
                },
            },
        }
    }
}

/// How many bytes of the stream to look at next: see [`wanted`]. As long as
/// the stream is undecided this is more than was seen, and never more than
/// [`LINE_SPAN`].
pub fn bytes_wanted(seen: &[u8]) -> (n: usize)
    ensures
        n == wanted(seen@),
        parse(seen@) == Parsed::NeedMoreBytes ==> seen@.len() < n <= LINE_SPAN,
{
    if seen.len() == 0 {
        return 1;
    }
    match MsgId::from_u8(seen[0]) {
        None => 1,
        Some(id) => match id.payload_kind() {
            Kind::Scalar => 5,
            Kind::Byte => 2,
            Kind::Pair => 9,
            Kind::Ids => {
                if seen.len() < 2 {
                    2
                } else if seen[1] as usize > MAX_MSGS {
                    2 + MAX_MSGS
                } else {
                    2 + seen[1] as usize
                }
            },
            Kind::Targets => {
                if seen.len() < 2 {
                    2
                } else if seen[1] as usize > TARGET_BUFFER_SIZE {
                    2 + 8 * TARGET_BUFFER_SIZE
                } else {
                    2 + 8 * (seen[1] as usize)
                }
            },
            Kind::Line => {
                if seen.len() >= LINE_SPAN {
                    LINE_SPAN
                } else {
                    seen.len() + 1
                }
            },
        },
    }
}

/// As long as fewer bytes are there than [`wanted`] says, the stream stays
/// undecided.
pub proof fn lemma_still_undecided(seen: Seq<u8>, s: Seq<u8>)
    requires
        parse(seen) == Parsed::NeedMoreBytes,
        seen.is_prefix_of(s),
        s.len() < wanted(seen),
    ensures
        parse(s) == Parsed::NeedMoreBytes,
{
    if seen.len() > 0 {
        assert(s[0] == seen[0]);
        if seen.len() > 1 {
            assert(s[1] == seen[1]);
        }
        match MsgId::of_tag(seen[0]) {
            Some(id) => {
                if id.kind() == Kind::Line {
                    assert(s =~= seen);
                }
            },
            None => {},
        }
    }
}

/// A whole message lies within the bytes that decided it.
pub proof fn lemma_complete_within(s: Seq<u8>)
    ensures
        parse(s) matches Parsed::Complete(_, n) ==> 1 <= n <= s.len(),
{
}

impl Msg {
    /// Reads the next message from `buf`. Bytes are only looked at until a
    /// whole message is pending, and taken then; no more bytes are asked
    /// for than it takes to decide. Whatever the transport answers: a
    /// message that is returned was at the head of the stream and is gone
    /// from it; after an error nothing is gone; an unknown tag is still the
    /// oldest pending byte; an underrun is only passed on while the stream
    /// is undecided; and no error is passed on but one of the transport's.
    pub fn parse_bytes<R: ReadExact>(buf: &mut R) -> (r: Result<Msg, ParseError<R::Error>>)
        ensures
            old(buf).pending().is_prefix_of(final(buf).pending()) || r is Ok,
            r matches Ok(m) ==> took(old(buf).pending(), final(buf).pending(), m@),
            r matches Err(ParseError::UnknownMsg(tag)) ==> parse(final(buf).pending())
                == Parsed::UnknownTag(tag),
            r matches Err(ParseError::ReadExact(e)) && R::underrun(e) ==> parse(
                final(buf).pending(),
            ) == Parsed::NeedMoreBytes,
            r matches Err(ParseError::ReadExact(e)) ==> R::gives(e),
    {
        let mut n: usize = 1;
        let ghost mut known: Seq<u8> = Seq::empty();
        loop
            invariant
                1 <= n <= LINE_SPAN,
                old(buf).pending().is_prefix_of(buf.pending()),
                known.is_prefix_of(buf.pending()),
                parse(known) == Parsed::NeedMoreBytes,
                n == wanted(known),
            decreases LINE_SPAN - n,
        {
            let mut seen: Vec<u8> = vec![0u8; n];
            let ghost before_peek = buf.pending();
            match buf.peek(seen.as_mut_slice()) {
                Err(e) => {
                    proof {
                        if R::underrun(e) {
                            lemma_still_undecided(known, buf.pending());
                        }
                    }
                    return Err(ParseError::ReadExact(e));
                },
                Ok(()) => {},
            }
            let ghost stream = buf.pending();
            proof {
                assert(stream =~= seen@ + stream.skip(n as int));
            }
            match decode(seen.as_slice()) {
                Decoded::UnknownTag(tag) => {
                    proof {
                        lemma_parse_prefix(seen@, stream.skip(n as int));
                    }
                    return Err(ParseError::UnknownMsg(tag));
                },
                Decoded::Complete(msg, k) => {
                    proof {
                        lemma_complete_within(seen@);
                    }
                    let mut sink: Vec<u8> = vec![0u8; k];
                    match buf.take(sink.as_mut_slice()) {
                        Err(e) => {
                            return Err(ParseError::ReadExact(e));
                        },
                        Ok(()) => {},
                    }
                    proof {
                        let t = sink@ + buf.pending();
                        assert(seen@.is_prefix_of(t));
                        assert(t =~= seen@ + t.skip(n as int));
                        lemma_parse_prefix(seen@, t.skip(n as int));
                        assert(old(buf).pending().is_prefix_of(t));
                        assert(buf.pending() =~= t.skip(k as int));
                        assert(parse(t) == Parsed::Complete(msg@, k as nat));
                    }
                    return Ok(msg);
                },
                Decoded::NeedMoreBytes => {
                    n = bytes_wanted(seen.as_slice());
                    proof {
                        known = seen@;
                    }
                },
            }
        }
    }

    /// Writes the bytes of the message to `buf`, all or none. Where there
    /// is nothing to write, as for an empty line, `buf` is not called and
    /// the answer is `Ok`; otherwise the answer is that of `buf` to a
    /// write of the message's bytes.
    pub fn generate_bytes<W: WriteExact>(&self, buf: &mut W) -> (r: Result<(), W::Error>)
        ensures
            final(buf).written() == if r is Ok {
                old(buf).written() + encoding(self@)
            } else {
                old(buf).written()
            },
            encoding(self@).len() == 0 ==> r is Ok && *final(buf) == *old(buf),
            r matches Err(e) ==> old(buf).refused(encoding(self@), e),
    {
        let out = encode(self);
        if out.len() == 0 {
            assert(old(buf).written() + encoding(self@) =~= old(buf).written());
            Ok(())
        } else {
            buf.write(out.bytes())
        }
    }
}

} // verus!
