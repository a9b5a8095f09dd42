//! The payloads of variable length: lists of tags, lists of motion targets
//! and lines of text, each held in a buffer of fixed capacity, and the byte
//! order of the 32-bit values inside them.

use vstd::prelude::*;
use crate::bytes::Bytes;
use crate::msgid::MsgId;

verus! {

/// The most tags that a list of tags holds.
pub const MAX_MSGS: usize = 64;

/// The most targets that a list of targets holds.
pub const TARGET_BUFFER_SIZE: usize = 64;

/// The most characters that are kept of a line.
pub const MAX_LINE: usize = 64;

/// A motion target: go `distance` at up to `velocity`. Both are carried as
/// the 32 bits of an IEEE-754 single; the library never computes with them.
#[derive(Clone, Copy, Debug, PartialEq, Eq, Structural)]
pub struct Target {
    pub velocity: u32,
    pub distance: u32,
}

/// The four bytes of `v`, least significant first.
pub open spec fn le_bytes(v: u32) -> Seq<u8> {
    seq![
        (v as int % 256) as u8,
        (v as int / 256 % 256) as u8,
        (v as int / 256 / 256 % 256) as u8,
        (v as int / 256 / 256 / 256 % 256) as u8,
    ]
}

/// The value whose bytes, least significant first, are `b0` to `b3`.
pub open spec fn le_value(b0: u8, b1: u8, b2: u8, b3: u8) -> u32 {
    (b0 as int + b1 as int * 256 + b2 as int * 65536 + b3 as int * 16777216) as u32
}

/// The 32-bit value that starts at index `i` of `s`.
pub open spec fn word_at(s: Seq<u8>, i: int) -> u32 {
    le_value(s[i], s[i + 1], s[i + 2], s[i + 3])
}

/// The target that starts at index `i` of `s`: velocity, then distance.
pub open spec fn target_at(s: Seq<u8>, i: int) -> Target {
    Target { velocity: word_at(s, i), distance: word_at(s, i + 4) }
}

/// The eight bytes of a target: velocity, then distance.
pub open spec fn target_bytes(t: Target) -> Seq<u8> {
    le_bytes(t.velocity) + le_bytes(t.distance)
}

/// The message that tag `b` stands for; `Time` stands in for bytes that are
/// no tag.
pub open spec fn id_of(b: u8) -> MsgId {
    match MsgId::of_tag(b) {
        Some(id) => id,
        None => MsgId::Time,
    }
}

/// Splitting a value into bytes and putting the bytes together again gives
/// the value back, and the other way round.
pub proof fn lemma_le_round_trip(v: u32, b0: u8, b1: u8, b2: u8, b3: u8)
    ensures
        le_bytes(v).len() == 4,
        word_at(le_bytes(v), 0) == v,
        le_bytes(le_value(b0, b1, b2, b3)) == seq![b0, b1, b2, b3],
{
    let q1 = v as int / 256;
    let q2 = q1 / 256;
    let q3 = q2 / 256;
    assert(v == 256 * q1 + v as int % 256);
    assert(q1 == 256 * q2 + q1 % 256);
    assert(q2 == 256 * q3 + q2 % 256);
    assert(q3 < 256);
    assert(q3 % 256 == q3);
    assert(word_at(le_bytes(v), 0) == v);
    let w = le_value(b0, b1, b2, b3);
    let upper = b1 as int + b2 as int * 256 + b3 as int * 65536;
    let top = b2 as int + b3 as int * 256;
    assert(w == 256 * upper + b0);
    assert(w as int / 256 == upper && w as int % 256 == b0);
    assert(upper == 256 * top + b1);
    assert(upper / 256 == top && upper % 256 == b1);
    assert(top == 256 * b3 + b2);
    assert(top / 256 == b3 && top % 256 == b2);
    assert(le_bytes(w) =~= seq![b0, b1, b2, b3]);
}

/// The byte at place `k` of `v`, counted from the least significant.
pub fn le_byte(v: u32, k: usize) -> (b: u8)
    requires
        k < 4,
    ensures
        b == le_bytes(v)[k as int],
{
    if k == 0 {
        (v % 256) as u8
    } else if k == 1 {
        (v / 256 % 256) as u8
    } else if k == 2 {
        (v / 256 / 256 % 256) as u8
    } else {
        (v / 256 / 256 / 256 % 256) as u8
    }
}

/// The 32-bit value that starts at index `i` of `s`.
pub fn read_word(s: &[u8], i: usize) -> (v: u32)
    requires
        i + 4 <= s@.len(),
    ensures
        v == word_at(s@, i as int),
{
    s[i] as u32 + s[i + 1] as u32 * 256 + s[i + 2] as u32 * 65536 + s[i + 3] as u32 * 16777216
}

/// A list of at most [`MAX_MSGS`] tags.
pub struct IdList {
    tags: Bytes,
}

impl View for IdList {
    type V = Seq<MsgId>;

    closed spec fn view(&self) -> Seq<MsgId> {
        Seq::new(self.tags@.len(), |i: int| id_of(self.tags@[i]))
    }
}

impl IdList {
    #[verifier::type_invariant]
    spec fn well_formed(self) -> bool {
        &&& self.tags@.len() <= MAX_MSGS
        &&& forall|i: int| 0 <= i < self.tags@.len() ==> MsgId::of_tag(#[trigger] self.tags@[i]) is Some
    }

    /// The empty list.
    pub fn new() -> (l: IdList)
        ensures
            l@ == Seq::<MsgId>::empty(),
    {
        let l = IdList { tags: Bytes::new() };
        assert(l@ =~= Seq::<MsgId>::empty());
        l
    }

    /// Appends `id` unless the list is full, and says whether it did.
    pub fn push(&mut self, id: MsgId) -> (pushed: bool)
        ensures
            pushed == (old(self)@.len() < MAX_MSGS),
            final(self)@ == if pushed {
                old(self)@.push(id)
            } else {
                old(self)@
            },
    {
        proof {
            use_type_invariant(&*self);
        }
        if self.tags.as_slice().len() < MAX_MSGS {
            let mut tags = Bytes::new();
            core::mem::swap(&mut self.tags, &mut tags);
            tags.try_push(id.to_u8());
            proof {
                crate::msgid::lemma_tags(id, 0);
            }
            core::mem::swap(&mut self.tags, &mut tags);
            assert(self@ =~= old(self)@.push(id));
            true
        } else {
            false
        }
    }

    /// The number of tags in the list, never more than [`MAX_MSGS`].
    pub fn len(&self) -> (n: usize)
        ensures
            n == self@.len(),
            n <= MAX_MSGS,
    {
        proof {
            use_type_invariant(self);
        }
        self.tags.as_slice().len()
    }

    /// The tag at index `i`.
    pub fn get(&self, i: usize) -> (id: MsgId)
        requires
            i < self@.len(),
        ensures
            id == self@[i as int],
    {
        proof {
            use_type_invariant(self);
        }
        let b = self.tags.as_slice()[i];
        match MsgId::from_u8(b) {
            Some(id) => id,
            None => MsgId::Time,
        }
    }

    /// Whether `id` is in the list.
    pub fn contains(&self, id: MsgId) -> (found: bool)
        ensures
            found == self@.contains(id),
    {
        let n = self.len();
        let mut i: usize = 0;
        while i < n
            invariant
                i <= n,
                n == self@.len(),
                forall|k: int| 0 <= k < i ==> self@[k] != id,
            decreases n - i,
        {
            if self.get(i) == id {
                return true;
            }
            i = i + 1;
        }
        false
    }

    /// A list with the same tags.
    pub fn copy(&self) -> (l: IdList)
        ensures
            l@ == self@,
    {
        let n = self.len();
        let mut l = IdList::new();
        let mut i: usize = 0;
        while i < n
            invariant
                i <= n,
                n == self@.len(),
                n <= MAX_MSGS,
                l@ == self@.subrange(0, i as int),
            decreases n - i,
        {
            l.push(self.get(i));
            assert(l@ =~= self@.subrange(0, i + 1));
            i = i + 1;
        }
        assert(l@ =~= self@);
        l
    }
}

/// A list of at most [`TARGET_BUFFER_SIZE`] motion targets.
pub struct TargetList {
    raw: Bytes,
}

impl View for TargetList {
    type V = Seq<Target>;

    closed spec fn view(&self) -> Seq<Target> {
        Seq::new((self.raw@.len() / 8) as nat, |i: int| target_at(self.raw@, 8 * i))
    }
}

impl TargetList {
    #[verifier::type_invariant]
    spec fn well_formed(self) -> bool {
        &&& self.raw@.len() % 8 == 0
        &&& self.raw@.len() <= 8 * TARGET_BUFFER_SIZE
    }

    /// The empty list.
    pub fn new() -> (l: TargetList)
        ensures
            l@ == Seq::<Target>::empty(),
    {
        let l = TargetList { raw: Bytes::new() };
        assert(l@ =~= Seq::<Target>::empty());
        l
    }

    /// Appends `t` unless the list is full, and says whether it did.
    pub fn push(&mut self, t: Target) -> (pushed: bool)
        ensures
            pushed == (old(self)@.len() < TARGET_BUFFER_SIZE),
            final(self)@ == if pushed {
                old(self)@.push(t)
            } else {
                old(self)@
            },
    {
        proof {
            use_type_invariant(&*self);
        }
        let held = self.raw.as_slice().len();
        if held >= 8 * TARGET_BUFFER_SIZE {
            return false;
        }
        let mut raw = Bytes::new();
        core::mem::swap(&mut self.raw, &mut raw);
        let ghost before = raw@;
        let mut k: usize = 0;
        while k < 4
            invariant
                k <= 4,
                before.len() == held,
                held + 8 <= 8 * TARGET_BUFFER_SIZE,
                raw@ == before + le_bytes(t.velocity).subrange(0, k as int),
            decreases 4 - k,
        {
            raw.try_push(le_byte(t.velocity, k));
            assert(raw@ =~= before + le_bytes(t.velocity).subrange(0, k + 1));
            k = k + 1;
        }
        let ghost half = raw@;
        let mut k: usize = 0;
        while k < 4
            invariant
                k <= 4,
                half.len() == held + 4,
                held + 8 <= 8 * TARGET_BUFFER_SIZE,
                raw@ == half + le_bytes(t.distance).subrange(0, k as int),
            decreases 4 - k,
        {
            raw.try_push(le_byte(t.distance, k));
            assert(raw@ =~= half + le_bytes(t.distance).subrange(0, k + 1));
            k = k + 1;
        }
        proof {
            assert(raw@ =~= before + target_bytes(t));
            lemma_le_round_trip(t.velocity, 0, 0, 0, 0);
            lemma_le_round_trip(t.distance, 0, 0, 0, 0);
            assert(target_at(raw@, held as int) == t);
        }
        core::mem::swap(&mut self.raw, &mut raw);
        proof {
            assert(self@.len() == old(self)@.len() + 1);
            assert forall|i: int| 0 <= i < old(self)@.len() implies self@[i] == old(self)@[i] by {
                assert(target_at(self.raw@, 8 * i) == target_at(before, 8 * i));
            }
            assert(self@ =~= old(self)@.push(t));
        }
        true
    }

    /// The number of targets in the list, never more than
    /// [`TARGET_BUFFER_SIZE`].
    pub fn len(&self) -> (n: usize)
        ensures
            n == self@.len(),
            n <= TARGET_BUFFER_SIZE,
    {
        proof {
            use_type_invariant(self);
        }
        self.raw.as_slice().len() / 8
    }

    /// The target at index `i`.
    pub fn get(&self, i: usize) -> (t: Target)
        requires
            i < self@.len(),
        ensures
            t == self@[i as int],
    {
        proof {
            use_type_invariant(self);
        }
        let s = self.raw.as_slice();
        Target { velocity: read_word(s, 8 * i), distance: read_word(s, 8 * i + 4) }
    }
}

/// The byte at place `k` of a target's eight: see [`target_bytes`].
pub fn target_byte(t: Target, k: usize) -> (b: u8)
    requires
        k < 8,
    ensures
        b == target_bytes(t)[k as int],
{
    if k < 4 {
        le_byte(t.velocity, k)
    } else {
        le_byte(t.distance, k - 4)
    }
}

impl TargetList {
    /// Queues `target` at the head of the list, before the targets that
    /// are there, unless the list is full; says whether it did.
    pub fn queue_target(&mut self, target: Target) -> (queued: bool)
        ensures
            queued == (old(self)@.len() < TARGET_BUFFER_SIZE),
            final(self)@ == if queued {
                seq![target] + old(self)@
            } else {
                old(self)@
            },
    {
        proof {
            use_type_invariant(&*self);
        }
        let held = self.raw.as_slice().len();
        if held >= 8 * TARGET_BUFFER_SIZE {
            return false;
        }
        let mut raw = Bytes::new();
        core::mem::swap(&mut self.raw, &mut raw);
        let ghost before = raw@;
        let mut k: usize = 0;
        while k < 8
            invariant
                k <= 8,
                before.len() == held,
                held + 8 <= 8 * TARGET_BUFFER_SIZE,
                raw@ == target_bytes(target).subrange(0, k as int) + before,
            decreases 8 - k,
        {
            raw.try_insert(k, target_byte(target, k));
            assert(raw@ =~= target_bytes(target).subrange(0, k + 1) + before);
            k = k + 1;
        }
        proof {
            assert(raw@ =~= target_bytes(target) + before);
            lemma_le_round_trip(target.velocity, 0, 0, 0, 0);
            lemma_le_round_trip(target.distance, 0, 0, 0, 0);
            assert(target_at(raw@, 0) == target);
        }
        core::mem::swap(&mut self.raw, &mut raw);
        proof {
            let after = seq![target] + old(self)@;
            assert(self@.len() == after.len());
            assert forall|i: int| 0 <= i < after.len() implies self@[i] == after[i] by {
                if i > 0 {
                    assert(target_at(self.raw@, 8 * i) == target_at(before, 8 * (i - 1)));
                }
            }
            assert(self@ =~= after);
        }
        true
    }

    /// Takes the target at the end of the list, the one queued first, if
    /// there is one.
    pub fn pop(&mut self) -> (t: Option<Target>)
        ensures
            t == if old(self)@.len() > 0 {
                Some(old(self)@.last())
            } else {
                None
            },
            final(self)@ == if old(self)@.len() > 0 {
                old(self)@.drop_last()
            } else {
                old(self)@
            },
    {
        let n = self.len();
        if n == 0 {
            return None;
        }
        let last = self.get(n - 1);
        proof {
            use_type_invariant(&*self);
        }
        let mut raw = Bytes::new();
        core::mem::swap(&mut self.raw, &mut raw);
        let ghost before = raw@;
        let mut k: usize = 0;
        while k < 8
            invariant
                k <= 8,
                before.len() == 8 * n,
                1 <= n <= TARGET_BUFFER_SIZE,
                raw@ == before.subrange(0, 8 * n - k),
            decreases 8 - k,
        {
            raw.pop_at(8 * n - k - 1);
            assert(raw@ =~= before.subrange(0, 8 * n - (k + 1)));
            k = k + 1;
        }
        core::mem::swap(&mut self.raw, &mut raw);
        proof {
            let after = old(self)@.drop_last();
            assert(self@.len() == after.len());
            assert forall|i: int| 0 <= i < after.len() implies self@[i] == after[i] by {
                assert(target_at(self.raw@, 8 * i) == target_at(before, 8 * i));
            }
            assert(self@ =~= after);
        }
        Some(last)
    }

    /// A list with the same targets.
    pub fn copy(&self) -> (l: TargetList)
        ensures
            l@ == self@,
    {
        let n = self.len();
        let mut l = TargetList::new();
        let mut i: usize = 0;
        while i < n
            invariant
                i <= n,
                n == self@.len(),
                n <= TARGET_BUFFER_SIZE,
                l@ == self@.subrange(0, i as int),
            decreases n - i,
        {
            l.push(self.get(i));
            assert(l@ =~= self@.subrange(0, i + 1));
            i = i + 1;
        }
        assert(l@ =~= self@);
        l
    }
}

/// A line of text, of which at most [`MAX_LINE`] characters are kept.
pub struct Line {
    text: Bytes,
}

impl View for Line {
    type V = Seq<u8>;

    closed spec fn view(&self) -> Seq<u8> {
        self.text@
    }
}

impl Line {
    #[verifier::type_invariant]
    spec fn well_formed(self) -> bool {
        self.text@.len() <= MAX_LINE
    }

    /// The empty line.
    pub fn new() -> (l: Line)
        ensures
            l@ == Seq::<u8>::empty(),
    {
        Line { text: Bytes::new() }
    }

    /// Appends `c` unless the line is full, and says whether it did.
    pub fn push(&mut self, c: u8) -> (pushed: bool)
        ensures
            pushed == (old(self)@.len() < MAX_LINE),
            final(self)@ == if pushed {
                old(self)@.push(c)
            } else {
                old(self)@
            },
    {
        proof {
            use_type_invariant(&*self);
        }
        if self.text.as_slice().len() < MAX_LINE {
            let mut text = Bytes::new();
            core::mem::swap(&mut self.text, &mut text);
            text.try_push(c);
            core::mem::swap(&mut self.text, &mut text);
            true
        } else {
            false
        }
    }

    /// The characters of the line, never more than [`MAX_LINE`].
    pub fn as_slice(&self) -> (s: &[u8])
        ensures
            s@ == self@,
            s@.len() <= MAX_LINE,
    {
        proof {
            use_type_invariant(self);
        }
        self.text.as_slice()
    }

    /// A line with the same characters.
    pub fn copy(&self) -> (l: Line)
        ensures
            l@ == self@,
    {
        let s = self.as_slice();
        let n = s.len();
        let mut l = Line::new();
        let mut i: usize = 0;
        while i < n
            invariant
                i <= n,
                n == s@.len(),
                n <= MAX_LINE,
                s@ == self@,
                l@ == s@.subrange(0, i as int),
            decreases n - i,
        {
            l.push(s[i]);
            assert(l@ =~= s@.subrange(0, i + 1));
            i = i + 1;
        }
        assert(l@ =~= self@);
        l
    }
}

} // verus!
