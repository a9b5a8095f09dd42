//! A byte buffer of fixed capacity that lives without the heap. It is the
//! storage behind the move queue and behind every message payload of
//! variable length.

use vstd::prelude::*;
use arrayvec::ArrayVec;

verus! {

/// The most bytes that a [`Bytes`] can hold.
pub const CAPACITY: usize = 768;

/// An `ArrayVec` of bytes with room for [`CAPACITY`] of them. Verus does not
/// look inside: what it holds is `contents`, and the five functions below
/// state what the `arrayvec` crate does to it.
#[verifier::external_body]
pub struct Bytes {
    inner: ArrayVec<[u8; 768]>,
}

/// The bytes in the buffer, oldest first.
pub uninterp spec fn contents(b: Bytes) -> Seq<u8>;

impl View for Bytes {
    type V = Seq<u8>;

    open spec fn view(&self) -> Seq<u8> {
        contents(*self)
    }
}

impl Bytes {
    /// `ArrayVec::new`: an empty buffer.
    #[verifier::external_body]
    pub(crate) fn new() -> (b: Bytes)
        ensures
            contents(b) == Seq::<u8>::empty(),
    {
        Bytes { inner: ArrayVec::new() }
    }

    /// `ArrayVec::try_push`: appends `byte` if fewer than `CAPACITY` bytes
    /// are held, and says whether it did; a full buffer stays as it is.
    #[verifier::external_body]
    pub(crate) fn try_push(&mut self, byte: u8) -> (pushed: bool)
        ensures
            pushed == (contents(*old(self)).len() < CAPACITY),
            contents(*final(self)) == if pushed {
                contents(*old(self)).push(byte)
            } else {
                contents(*old(self))
            },
    {
        self.inner.try_push(byte).is_ok()
    }

    /// `ArrayVec::try_insert`: puts `byte` at `index` and moves the bytes
    /// from there on up by one, if fewer than `CAPACITY` bytes are held,
    /// and says whether it did; a full buffer stays as it is. The call
    /// panics if `index` is beyond the end.
    #[verifier::external_body]
    pub(crate) fn try_insert(&mut self, index: usize, byte: u8) -> (inserted: bool)
        requires
            index <= contents(*old(self)).len(),
        ensures
            inserted == (contents(*old(self)).len() < CAPACITY),
            contents(*final(self)) == if inserted {
                contents(*old(self)).insert(index as int, byte)
            } else {
                contents(*old(self))
            },
    {
        self.inner.try_insert(index, byte).is_ok()
    }

    /// `ArrayVec::pop_at`: removes the byte at `index` and moves the later
    /// ones down; `None`, and nothing changed, if there is no such byte.
    #[verifier::external_body]
    pub(crate) fn pop_at(&mut self, index: usize) -> (popped: Option<u8>)
        ensures
            popped == if index < contents(*old(self)).len() {
                Some(contents(*old(self))[index as int])
            } else {
                None
            },
            contents(*final(self)) == if index < contents(*old(self)).len() {
                contents(*old(self)).remove(index as int)
            } else {
                contents(*old(self))
            },
    {
        self.inner.pop_at(index)
    }

    /// `ArrayVec::as_slice`: all bytes held, of which there are never more
    /// than `CAPACITY`.
    #[verifier::external_body]
    pub(crate) fn as_slice(&self) -> (s: &[u8])
        ensures
            s@ == contents(*self),
            s@.len() <= CAPACITY,
    {
        self.inner.as_slice()
    }

    /// The empty buffer.
    pub fn empty() -> (b: Bytes)
        ensures
            b@ == Seq::<u8>::empty(),
    {
        Bytes::new()
    }

    /// Appends `byte` unless the buffer is full, and says whether it did.
    pub fn push(&mut self, byte: u8) -> (pushed: bool)
        ensures
            pushed == (old(self)@.len() < CAPACITY),
            final(self)@ == if pushed {
                old(self)@.push(byte)
            } else {
                old(self)@
            },
    {
        self.try_push(byte)
    }

    /// The bytes held, oldest first.
    pub fn bytes(&self) -> (s: &[u8])
        ensures
            s@ == self@,
            s@.len() <= CAPACITY,
    {
        self.as_slice()
    }

    /// The number of bytes held, never more than [`CAPACITY`].
    pub fn len(&self) -> (n: usize)
        ensures
            n == self@.len(),
            n <= CAPACITY,
    {
        self.as_slice().len()
    }
}

} // verus!
