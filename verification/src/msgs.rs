//! The binary telemetry protocol: a message is one tag byte followed by a
//! payload whose shape the tag fixes. `encoding` says what the bytes of a
//! message are and `parse` what a stream of bytes starts with; `encode` and
//! `decode` compute them.

use vstd::prelude::*;
use crate::bytes::{Bytes, CAPACITY};
use crate::lists::{
    le_byte, le_bytes, lemma_le_round_trip, read_word, target_at, target_bytes, word_at, IdList,
    Line, Target, TargetList, MAX_LINE, MAX_MSGS, TARGET_BUFFER_SIZE,
};
use crate::msgid::{lemma_tags, Kind, MsgId};

verus! {

/// The byte that ends a line of text.
pub const LINE_FEED: u8 = 0x0a;

/// How far into the stream the end of a line is looked for. A line that
/// has not ended by then is cut off there.
pub const LINE_SPAN: usize = 768;

/// What a message carries, as values.
pub enum Body {
    Scalar(u32),
    Byte(u8),
    Pair(Target),
    Ids(Seq<MsgId>),
    Targets(Seq<Target>),
    Line(Seq<u8>),
}

impl Body {
    /// The shape of this payload.
    pub open spec fn kind(self) -> Kind {
        match self {
            Body::Scalar(_) => Kind::Scalar,
            Body::Byte(_) => Kind::Byte,
            Body::Pair(_) => Kind::Pair,
            Body::Ids(_) => Kind::Ids,
            Body::Targets(_) => Kind::Targets,
            Body::Line(_) => Kind::Line,
        }
    }

    /// Whether a list is no longer than the protocol allows.
    pub open spec fn fits(self) -> bool {
        match self {
            Body::Ids(ids) => ids.len() <= MAX_MSGS,
            Body::Targets(ts) => ts.len() <= TARGET_BUFFER_SIZE,
            Body::Line(l) => l.len() <= MAX_LINE,
            _ => true,
        }
    }
}

/// A message, as values: its name and what it carries.
pub struct Message {
    pub id: MsgId,
    pub body: Body,
}

impl Message {
    /// The payload has the shape that the name calls for, and fits.
    pub open spec fn wf(self) -> bool {
        self.body.kind() == self.id.kind() && self.body.fits()
    }

    /// The message can be sent and read back: every message can, but for a
    /// line of text that is no line. A line begins with the tag's character
    /// and ends in its one line feed.
    pub open spec fn sendable(self) -> bool {
        match self.body {
            Body::Line(l) => {
                &&& l.len() > 0
                &&& l[0] == self.id.tag()
                &&& l.last() == LINE_FEED
                &&& forall|i: int| 0 <= i < l.len() - 1 ==> l[i] != LINE_FEED
            },
            _ => true,
        }
    }
}

/// What a message carries.
pub enum Payload {
    Scalar(u32),
    Byte(u8),
    Pair(Target),
    Ids(IdList),
    Targets(TargetList),
    Line(Line),
}

impl View for Payload {
    type V = Body;

    open spec fn view(&self) -> Body {
        match self {
            Payload::Scalar(v) => Body::Scalar(*v),
            Payload::Byte(b) => Body::Byte(*b),
            Payload::Pair(t) => Body::Pair(*t),
            Payload::Ids(l) => Body::Ids(l@),
            Payload::Targets(l) => Body::Targets(l@),
            Payload::Line(l) => Body::Line(l@),
        }
    }
}

impl Payload {
    /// A payload that carries the same.
    pub fn copy(&self) -> (p: Payload)
        ensures
            p@ == self@,
    {
        match self {
            Payload::Scalar(v) => Payload::Scalar(*v),
            Payload::Byte(b) => Payload::Byte(*b),
            Payload::Pair(t) => Payload::Pair(*t),
            Payload::Ids(l) => Payload::Ids(l.copy()),
            Payload::Targets(l) => Payload::Targets(l.copy()),
            Payload::Line(l) => Payload::Line(l.copy()),
        }
    }

    /// The shape of this payload.
    pub fn kind(&self) -> (k: Kind)
        ensures
            k == self@.kind(),
            self@.fits(),
    {
        match self {
            Payload::Scalar(_) => Kind::Scalar,
            Payload::Byte(_) => Kind::Byte,
            Payload::Pair(_) => Kind::Pair,
            Payload::Ids(l) => {
                let n = l.len();
                Kind::Ids
            },
            Payload::Targets(l) => {
                let n = l.len();
                Kind::Targets
            },
            Payload::Line(l) => {
                let s = l.as_slice();
                Kind::Line
            },
        }
    }
}

/// A message: a name and a payload of the shape that the name calls for.
pub struct Msg {
    id: MsgId,
    payload: Payload,
}

impl View for Msg {
    type V = Message;

    closed spec fn view(&self) -> Message {
        Message { id: self.id, body: self.payload@ }
    }
}

impl Msg {
    #[verifier::type_invariant]
    spec fn well_formed(self) -> bool {
        self.payload@.kind() == self.id.kind()
    }

    /// The message `id` with `payload`, if the payload has the shape that
    /// `id` calls for.
    pub fn new(id: MsgId, payload: Payload) -> (m: Option<Msg>)
        ensures
            m is Some <==> payload@.kind() == id.kind(),
            m matches Some(msg) ==> msg@ == (Message { id, body: payload@ }) && msg@.wf(),
    {
        if kind_eq(payload.kind(), id.payload_kind()) {
            Some(Msg { id, payload })
        } else {
            None
        }
    }

    /// The message `id` with `payload`, which has the shape that `id`
    /// calls for.
    pub fn with_payload(id: MsgId, payload: Payload) -> (m: Msg)
        requires
            payload@.kind() == id.kind(),
        ensures
            m@ == (Message { id, body: payload@ }),
    {
        Msg { id, payload }
    }

    /// The name of the message.
    pub fn id(&self) -> (id: MsgId)
        ensures
            id == self@.id,
    {
        self.id
    }

    /// The message taken apart: its name and what it carries.
    pub fn into_parts(self) -> (parts: (MsgId, Payload))
        ensures
            parts.0 == self@.id,
            parts.1@ == self@.body,
            self@.wf(),
    {
        proof {
            use_type_invariant(&self);
        }
        let k = self.payload.kind();
        (self.id, self.payload)
    }

    /// What the message carries.
    pub fn payload(&self) -> (p: &Payload)
        ensures
            p@ == self@.body,
            self@.wf(),
    {
        proof {
            use_type_invariant(self);
        }
        let k = self.payload.kind();
        &self.payload
    }
}

fn kind_eq(a: Kind, b: Kind) -> (same: bool)
    ensures
        same == (a == b),
{
    match (a, b) {
        (Kind::Scalar, Kind::Scalar) => true,
        (Kind::Byte, Kind::Byte) => true,
        (Kind::Pair, Kind::Pair) => true,
        (Kind::Ids, Kind::Ids) => true,
        (Kind::Targets, Kind::Targets) => true,
        (Kind::Line, Kind::Line) => true,
        _ => false,
    }
}

/// The tags of a list, in order.
pub open spec fn ids_bytes(ids: Seq<MsgId>) -> Seq<u8> {
    Seq::new(ids.len(), |i: int| ids[i].tag())
}

/// The bytes of a list of targets: eight for each, in order.
pub open spec fn targets_bytes(ts: Seq<Target>) -> Seq<u8> {
    Seq::new(8 * ts.len(), |k: int| target_bytes(ts[k / 8])[k % 8])
}

/// The bytes of a payload. A list is preceded by its length.
pub open spec fn body_bytes(b: Body) -> Seq<u8> {
    match b {
        Body::Scalar(v) => le_bytes(v),
        Body::Byte(x) => seq![x],
        Body::Pair(t) => target_bytes(t),
        Body::Ids(ids) => seq![ids.len() as u8] + ids_bytes(ids),
        Body::Targets(ts) => seq![ts.len() as u8] + targets_bytes(ts),
        Body::Line(l) => l,
    }
}

/// The bytes of a message: the tag, then the payload. A line of text is
/// written as it is: its first character is the tag.
pub open spec fn encoding(m: Message) -> Seq<u8> {
    if m.id.kind() == Kind::Line {
        body_bytes(m.body)
    } else {
        seq![m.id.tag()] + body_bytes(m.body)
    }
}

/// What a stream of bytes starts with.
pub enum Parsed {
    /// A whole message, and the number of bytes it takes up.
    Complete(Message, nat),
    /// The start of a message; more bytes are needed to tell which.
    NeedMoreBytes,
    /// A byte that is no tag.
    UnknownTag(u8),
}

/// The messages that the bytes of `s` stand for, in order; bytes that are
/// no tag are left out.
pub open spec fn known_ids(s: Seq<u8>) -> Seq<MsgId>
    decreases s.len(),
{
    if s.len() == 0 {
        Seq::empty()
    } else {
        let rest = known_ids(s.drop_last());
        match MsgId::of_tag(s.last()) {
            Some(id) => rest.push(id),
            None => rest,
        }
    }
}

/// The length that a count byte announces, held to the limit `cap`.
pub open spec fn announced(count: u8, cap: int) -> int {
    if count as int > cap {
        cap
    } else {
        count as int
    }
}

/// The first line feed of `s` is at index `k`, within the span that is
/// searched.
pub open spec fn line_ends_at(s: Seq<u8>, k: int) -> bool {
    &&& 0 <= k < s.len()
    &&& k < LINE_SPAN
    &&& s[k] == LINE_FEED
    &&& forall|j: int| 0 <= j < k ==> s[j] != LINE_FEED
}

/// What the stream `s` starts with. Nothing is decided before all bytes of
/// a message are there. A list that announces more entries than the limit
/// is read up to the limit. A line runs up to its first line feed, or up
/// to [`LINE_SPAN`] bytes if there is none among them; its first
/// [`MAX_LINE`] characters are kept.
pub open spec fn parse(s: Seq<u8>) -> Parsed {
    if s.len() == 0 {
        Parsed::NeedMoreBytes
    } else {
        match MsgId::of_tag(s[0]) {
            None => Parsed::UnknownTag(s[0]),
            Some(id) => match id.kind() {
                Kind::Scalar => if s.len() < 5 {
                    Parsed::NeedMoreBytes
                } else {
                    Parsed::Complete(Message { id, body: Body::Scalar(word_at(s, 1)) }, 5)
                },
                Kind::Byte => if s.len() < 2 {
                    Parsed::NeedMoreBytes
                } else {
                    Parsed::Complete(Message { id, body: Body::Byte(s[1]) }, 2)
                },
                Kind::Pair => if s.len() < 9 {
                    Parsed::NeedMoreBytes
                } else {
                    Parsed::Complete(Message { id, body: Body::Pair(target_at(s, 1)) }, 9)
                },
                Kind::Ids => if s.len() < 2 || s.len() < 2 + announced(s[1], MAX_MSGS as int) {
                    Parsed::NeedMoreBytes
                } else {
                    let n = announced(s[1], MAX_MSGS as int);
                    Parsed::Complete(
                        Message { id, body: Body::Ids(known_ids(s.subrange(2, 2 + n))) },
                        (2 + n) as nat,
                    )
                },
                Kind::Targets => if s.len() < 2 || s.len() < 2 + 8 * announced(
                    s[1],
                    TARGET_BUFFER_SIZE as int,
                ) {
                    Parsed::NeedMoreBytes
                } else {
                    let n = announced(s[1], TARGET_BUFFER_SIZE as int);
                    Parsed::Complete(
                        Message {
                            id,
                            body: Body::Targets(Seq::new(n as nat, |i: int| target_at(s, 2 + 8 * i))),
                        },
                        (2 + 8 * n) as nat,
                    )
                },
                Kind::Line => if exists|k: int| line_ends_at(s, k) {
                    let k = choose|k: int| line_ends_at(s, k);
                    let kept = if k + 1 > MAX_LINE as int {
                        MAX_LINE as int
                    } else {
                        k + 1
                    };
                    Parsed::Complete(
                        Message { id, body: Body::Line(s.subrange(0, kept)) },
                        (k + 1) as nat,
                    )
                } else if s.len() >= LINE_SPAN {
                    Parsed::Complete(
                        Message { id, body: Body::Line(s.subrange(0, MAX_LINE as int)) },
                        LINE_SPAN as nat,
                    )
                } else {
                    Parsed::NeedMoreBytes
                },
            },
        }
    }
}

/// What [`decode`] found at the start of a stream.
pub enum Decoded {
    /// A whole message, and the number of bytes it takes up.
    Complete(Msg, usize),
    /// The start of a message; more bytes are needed to tell which.
    NeedMoreBytes,
    /// A byte that is no tag.
    UnknownTag(u8),
}

impl View for Decoded {
    type V = Parsed;

    open spec fn view(&self) -> Parsed {
        match self {
            Decoded::Complete(m, n) => Parsed::Complete(m@, *n as nat),
            Decoded::NeedMoreBytes => Parsed::NeedMoreBytes,
            Decoded::UnknownTag(t) => Parsed::UnknownTag(*t),
        }
    }
}

fn put(out: &mut Bytes, b: u8)
    requires
        old(out)@.len() < CAPACITY,
    ensures
        final(out)@ == old(out)@.push(b),
{
    out.try_push(b);
}

fn put_word(out: &mut Bytes, v: u32)
    requires
        old(out)@.len() + 4 <= CAPACITY,
    ensures
        final(out)@ == old(out)@ + le_bytes(v),
{
    let mut k: usize = 0;
    while k < 4
        invariant
            k <= 4,
            old(out)@.len() + 4 <= CAPACITY,
            out@ == old(out)@ + le_bytes(v).subrange(0, k as int),
        decreases 4 - k,
    {
        put(out, le_byte(v, k));
        assert(out@ =~= old(out)@ + le_bytes(v).subrange(0, k + 1));
        k = k + 1;
    }
    assert(out@ =~= old(out)@ + le_bytes(v));
}

fn put_target(out: &mut Bytes, t: Target)
    requires
        old(out)@.len() + 8 <= CAPACITY,
    ensures
        final(out)@ == old(out)@ + target_bytes(t),
{
    put_word(out, t.velocity);
    put_word(out, t.distance);
    assert(out@ =~= old(out)@ + target_bytes(t));
}

/// The bytes of `msg`: see [`encoding`].
pub fn encode(msg: &Msg) -> (out: Bytes)
    ensures
        out@ == encoding(msg@),
{
    let mut out = Bytes::new();
    let id = msg.id();
    match msg.payload() {
        Payload::Scalar(v) => {
            put(&mut out, id.to_u8());
            put_word(&mut out, *v);
        },
        Payload::Byte(b) => {
            put(&mut out, id.to_u8());
            put(&mut out, *b);
            assert(out@ =~= encoding(msg@));
        },
        Payload::Pair(t) => {
            put(&mut out, id.to_u8());
            put_target(&mut out, *t);
        },
        Payload::Ids(l) => {
            let n = l.len();
            put(&mut out, id.to_u8());
            put(&mut out, n as u8);
            let ghost head = out@;
            let mut i: usize = 0;
            while i < n
                invariant
                    i <= n,
                    n == l@.len(),
                    n <= MAX_MSGS,
                    head.len() == 2,
                    out@ == head + ids_bytes(l@).subrange(0, i as int),
                decreases n - i,
            {
                put(&mut out, l.get(i).to_u8());
                assert(out@ =~= head + ids_bytes(l@).subrange(0, i + 1));
                i = i + 1;
            }
            assert(out@ =~= encoding(msg@));
        },
        Payload::Targets(l) => {
            let n = l.len();
            put(&mut out, id.to_u8());
            put(&mut out, n as u8);
            let ghost head = out@;
            let mut i: usize = 0;
            while i < n
                invariant
                    i <= n,
                    n == l@.len(),
                    n <= TARGET_BUFFER_SIZE,
                    head.len() == 2,
                    out@ == head + targets_bytes(l@).subrange(0, 8 * i),
                decreases n - i,
            {
                put_target(&mut out, l.get(i));
                assert(out@ =~= head + targets_bytes(l@).subrange(0, 8 * (i + 1)));
                i = i + 1;
            }
            assert(out@ =~= encoding(msg@));
        },
        Payload::Line(l) => {
            let text = l.as_slice();
            let n = text.len();
            let mut i: usize = 0;
            while i < n
                invariant
                    i <= n,
                    n == text@.len(),
                    n <= MAX_LINE,
                    out@ == text@.subrange(0, i as int),
                decreases n - i,
            {
                put(&mut out, text[i]);
                assert(out@ =~= text@.subrange(0, i + 1));
                i = i + 1;
            }
            assert(out@ =~= encoding(msg@));
        },
    }
    out
}

fn decode_ids(id: MsgId, bytes: &[u8]) -> (d: Decoded)
    requires
        bytes@.len() >= 1,
        MsgId::of_tag(bytes@[0]) == Some(id),
        id.kind() == Kind::Ids,
    ensures
        d@ == parse(bytes@),
{
    let len = bytes.len();
    if len < 2 {
        return Decoded::NeedMoreBytes;
    }
    let n = if bytes[1] as usize > MAX_MSGS {
        MAX_MSGS
    } else {
        bytes[1] as usize
    };
    if len < 2 + n {
        return Decoded::NeedMoreBytes;
    }
    let mut list = IdList::new();
    let mut i: usize = 0;
    while i < n
        invariant
            i <= n,
            n <= MAX_MSGS,
            2 + n <= bytes@.len(),
            list@.len() <= i,
            list@ == known_ids(bytes@.subrange(2, 2 + i)),
        decreases n - i,
    {
        proof {
            let next = bytes@.subrange(2, 2 + i + 1);
            assert(next.drop_last() =~= bytes@.subrange(2, 2 + i));
            assert(next.last() == bytes@[2 + i]);
        }
        match MsgId::from_u8(bytes[2 + i]) {
            Some(known) => {
                list.push(known);
            },
            None => {},
        }
        i = i + 1;
    }
    Decoded::Complete(Msg { id, payload: Payload::Ids(list) }, 2 + n)
}

fn decode_targets(id: MsgId, bytes: &[u8]) -> (d: Decoded)
    requires
        bytes@.len() >= 1,
        MsgId::of_tag(bytes@[0]) == Some(id),
        id.kind() == Kind::Targets,
    ensures
        d@ == parse(bytes@),
{
    let len = bytes.len();
    if len < 2 {
        return Decoded::NeedMoreBytes;
    }
    let n = if bytes[1] as usize > TARGET_BUFFER_SIZE {
        TARGET_BUFFER_SIZE
    } else {
        bytes[1] as usize
    };
    if len < 2 + 8 * n {
        return Decoded::NeedMoreBytes;
    }
    let mut list = TargetList::new();
    let mut i: usize = 0;
    while i < n
        invariant
            i <= n,
            n <= TARGET_BUFFER_SIZE,
            2 + 8 * n <= bytes@.len(),
            list@ == Seq::new(i as nat, |j: int| target_at(bytes@, 2 + 8 * j)),
        decreases n - i,
    {
        let t = Target {
            velocity: read_word(bytes, 2 + 8 * i),
            distance: read_word(bytes, 2 + 8 * i + 4),
        };
        list.push(t);
        assert(list@ =~= Seq::new((i + 1) as nat, |j: int| target_at(bytes@, 2 + 8 * j)));
        i = i + 1;
    }
    Decoded::Complete(Msg { id, payload: Payload::Targets(list) }, 2 + 8 * n)
}

fn decode_line(id: MsgId, bytes: &[u8]) -> (d: Decoded)
    requires
        bytes@.len() >= 1,
        MsgId::of_tag(bytes@[0]) == Some(id),
        id.kind() == Kind::Line,
    ensures
        d@ == parse(bytes@),
{
    let len = bytes.len();
    let mut k: usize = 0;
    while k < len && k < LINE_SPAN && bytes[k] != LINE_FEED
        invariant
            k <= len,
            k <= LINE_SPAN,
            len == bytes@.len(),
            forall|j: int| 0 <= j < k ==> bytes@[j] != LINE_FEED,
        decreases len - k,
    {
        k = k + 1;
    }
    let taken = if k < len && k < LINE_SPAN {
        proof {
            assert(line_ends_at(bytes@, k as int));
            let e = choose|e: int| line_ends_at(bytes@, e);
            assert(e == k);
        }
        k + 1
    } else {
        assert(!exists|e: int| line_ends_at(bytes@, e));
        if k < LINE_SPAN {
            return Decoded::NeedMoreBytes;
        }
        LINE_SPAN
    };
    let kept = if taken > MAX_LINE {
        MAX_LINE
    } else {
        taken
    };
    let mut line = Line::new();
    let mut i: usize = 0;
    while i < kept
        invariant
            i <= kept,
            kept <= MAX_LINE,
            kept <= bytes@.len(),
            line@ == bytes@.subrange(0, i as int),
        decreases kept - i,
    {
        line.push(bytes[i]);
        assert(line@ =~= bytes@.subrange(0, i + 1));
        i = i + 1;
    }
    Decoded::Complete(Msg { id, payload: Payload::Line(line) }, taken)
}

/// What the stream `bytes` starts with: see [`parse`]. Nothing is taken
/// from the stream; with a whole message comes the number of bytes that the
/// caller may drop.
pub fn decode(bytes: &[u8]) -> (d: Decoded)
    ensures
        d@ == parse(bytes@),
{
    let len = bytes.len();
    if len == 0 {
        return Decoded::NeedMoreBytes;
    }
    let tag = bytes[0];
    let id = match MsgId::from_u8(tag) {
        None => {
            return Decoded::UnknownTag(tag);
        },
        Some(id) => id,
    };
    match id.payload_kind() {
        Kind::Scalar => {
            if len < 5 {
                Decoded::NeedMoreBytes
            } else {
                Decoded::Complete(Msg { id, payload: Payload::Scalar(read_word(bytes, 1)) }, 5)
            }
        },
        Kind::Byte => {
            if len < 2 {
                Decoded::NeedMoreBytes
            } else {
                Decoded::Complete(Msg { id, payload: Payload::Byte(bytes[1]) }, 2)
            }
        },
        Kind::Pair => {
            if len < 9 {
                Decoded::NeedMoreBytes
            } else {
                let t = Target { velocity: read_word(bytes, 1), distance: read_word(bytes, 5) };
                Decoded::Complete(Msg { id, payload: Payload::Pair(t) }, 9)
            }
        },
        Kind::Ids => decode_ids(id, bytes),
        Kind::Targets => decode_targets(id, bytes),
        Kind::Line => decode_line(id, bytes),
    }
}

/// Reading the tags of a list back gives the list.
pub proof fn lemma_known_ids_of_tags(ids: Seq<MsgId>)
    ensures
        known_ids(ids_bytes(ids)) == ids,
    decreases ids.len(),
{
    let b = ids_bytes(ids);
    if ids.len() == 0 {
        assert(known_ids(b) =~= ids);
    } else {
        assert(b.drop_last() =~= ids_bytes(ids.drop_last()));
        lemma_known_ids_of_tags(ids.drop_last());
        lemma_tags(ids.last(), 0);
        assert(b.last() == ids.last().tag());
        assert(known_ids(b) =~= ids);
    }
}

proof fn lemma_word_in_stream(s: Seq<u8>, i: int, v: u32)
    requires
        0 <= i,
        i + 4 <= s.len(),
        forall|j: int| 0 <= j < 4 ==> s[i + j] == le_bytes(v)[j],
    ensures
        word_at(s, i) == v,
{
    lemma_le_round_trip(v, 0, 0, 0, 0);
    assert(s[i + 0] == le_bytes(v)[0]);
    assert(s[i + 1] == le_bytes(v)[1]);
    assert(s[i + 2] == le_bytes(v)[2]);
    assert(s[i + 3] == le_bytes(v)[3]);
}

proof fn lemma_target_in_stream(s: Seq<u8>, i: int, t: Target)
    requires
        0 <= i,
        i + 8 <= s.len(),
        forall|j: int| 0 <= j < 8 ==> s[i + j] == target_bytes(t)[j],
    ensures
        target_at(s, i) == t,
{
    lemma_le_round_trip(t.velocity, 0, 0, 0, 0);
    lemma_le_round_trip(t.distance, 0, 0, 0, 0);
    assert forall|j: int| 0 <= j < 4 implies s[i + j] == le_bytes(t.velocity)[j] by {
        assert(target_bytes(t)[j] == le_bytes(t.velocity)[j]);
    }
    assert forall|j: int| 0 <= j < 4 implies s[i + 4 + j] == le_bytes(t.distance)[j] by {
        assert(s[i + (4 + j)] == target_bytes(t)[4 + j]);
        assert(target_bytes(t)[4 + j] == le_bytes(t.distance)[j]);
    }
    lemma_word_in_stream(s, i, t.velocity);
    lemma_word_in_stream(s, i + 4, t.distance);
}

/// The length of a message's bytes.
pub proof fn lemma_encoding_len(m: Message)
    requires
        m.wf(),
    ensures
        encoding(m).len() == match m.body {
            Body::Scalar(_) => 5,
            Body::Byte(_) => 2,
            Body::Pair(_) => 9,
            Body::Ids(ids) => 2 + ids.len(),
            Body::Targets(ts) => 2 + 8 * ts.len(),
            Body::Line(l) => l.len(),
        },
{
    lemma_le_round_trip(0, 0, 0, 0, 0);
    match m.body {
        Body::Scalar(v) => {
            lemma_le_round_trip(v, 0, 0, 0, 0);
        },
        Body::Pair(t) => {
            lemma_le_round_trip(t.velocity, 0, 0, 0, 0);
            lemma_le_round_trip(t.distance, 0, 0, 0, 0);
        },
        _ => {},
    }
}

/// Decoding what was encoded gives the message back, whatever follows it
/// in the stream, and tells how many bytes the message took.
pub proof fn lemma_round_trip(m: Message, rest: Seq<u8>)
    requires
        m.wf(),
        m.sendable(),
    ensures
        parse(encoding(m) + rest) == Parsed::Complete(m, encoding(m).len()),
{
    let e = encoding(m);
    let s = e + rest;
    lemma_encoding_len(m);
    lemma_tags(m.id, 0);
    assert(s[0] == e[0]);
    assert(e[0] == m.id.tag());
    match m.body {
        Body::Line(l) => {
            let k = l.len() - 1;
            assert(line_ends_at(s, k)) by {
                assert(s[k] == l[k]);
                assert forall|j: int| 0 <= j < k implies s[j] != LINE_FEED by {
                    assert(s[j] == l[j]);
                }
            }
            let found = choose|f: int| line_ends_at(s, f);
            assert(found == k) by {
                if found < k {
                    assert(s[found] == l[found]);
                }
            }
            assert(s.subrange(0, k + 1) =~= l);
        },
        Body::Scalar(v) => {
            assert forall|j: int| 0 <= j < 4 implies s[1 + j] == le_bytes(v)[j] by {
                assert(s[1 + j] == e[1 + j]);
            }
            lemma_word_in_stream(s, 1, v);
        },
        Body::Byte(b) => {
            assert(s[1] == e[1]);
        },
        Body::Pair(t) => {
            assert forall|j: int| 0 <= j < 8 implies s[1 + j] == target_bytes(t)[j] by {
                assert(s[1 + j] == e[1 + j]);
            }
            lemma_target_in_stream(s, 1, t);
        },
        Body::Ids(ids) => {
            assert(s[1] == e[1]);
            assert(e[1] == ids.len() as u8);
            let n = ids.len() as int;
            assert(announced(s[1], MAX_MSGS as int) == n);
            assert(s.subrange(2, 2 + n) =~= ids_bytes(ids));
            lemma_known_ids_of_tags(ids);
        },
        Body::Targets(ts) => {
            assert(s[1] == e[1]);
            assert(e[1] == ts.len() as u8);
            let n = ts.len() as int;
            assert(announced(s[1], TARGET_BUFFER_SIZE as int) == n);
            let got = Seq::new(n as nat, |i: int| target_at(s, 2 + 8 * i));
            assert forall|i: int| 0 <= i < n implies got[i] == ts[i] by {
                assert forall|j: int| 0 <= j < 8 implies s[2 + 8 * i + j] == target_bytes(
                    ts[i],
                )[j] by {
                    let k = 8 * i + j;
                    assert(s[2 + k] == e[2 + k]);
                    assert(e[2 + k] == targets_bytes(ts)[k]);
                    assert(k / 8 == i && k % 8 == j);
                }
                lemma_target_in_stream(s, 2 + 8 * i, ts[i]);
            }
            assert(got =~= ts);
        },
    }
}

/// Decoding what was encoded gives the message back.
pub proof fn lemma_decode_encode(m: Message)
    requires
        m.wf(),
        m.sendable(),
    ensures
        parse(encoding(m)) == Parsed::Complete(m, encoding(m).len()),
{
    lemma_round_trip(m, Seq::empty());
    assert(encoding(m) + Seq::<u8>::empty() =~= encoding(m));
}

/// As long as a byte of a message is still to come, the bytes that are
/// there decode to "need more bytes": never to a message and never to an
/// unknown tag.
pub proof fn lemma_partial_needs_more(m: Message, k: int)
    requires
        m.wf(),
        m.sendable(),
        0 <= k < encoding(m).len(),
    ensures
        parse(encoding(m).subrange(0, k)) == Parsed::NeedMoreBytes,
{
    let e = encoding(m);
    let s = e.subrange(0, k);
    lemma_encoding_len(m);
    lemma_tags(m.id, 0);
    if k > 0 {
        assert(s[0] == e[0]);
        assert(e[0] == m.id.tag());
        if k > 1 {
            assert(s[1] == e[1]);
        }
        match m.body {
            Body::Ids(ids) => {
                assert(e[1] == ids.len() as u8);
            },
            Body::Targets(ts) => {
                assert(e[1] == ts.len() as u8);
            },
            Body::Line(l) => {
                assert(!exists|f: int| line_ends_at(s, f)) by {
                    if exists|f: int| line_ends_at(s, f) {
                        let f = choose|f: int| line_ends_at(s, f);
                        assert(s[f] == l[f]);
                    }
                }
            },
            _ => {},
        }
    }
}

/// Once a stream is decided, the bytes that follow change nothing: a
/// message stays that message and an unknown tag stays unknown.
pub proof fn lemma_parse_prefix(s: Seq<u8>, rest: Seq<u8>)
    requires
        parse(s) != Parsed::NeedMoreBytes,
    ensures
        parse(s + rest) == parse(s),
{
    let t = s + rest;
    assert(s.len() > 0);
    assert(t[0] == s[0]);
    match MsgId::of_tag(s[0]) {
        None => {},
        Some(id) => {
            match id.kind() {
                Kind::Scalar => {
                    assert(word_at(t, 1) == word_at(s, 1)) by {
                        assert(t[1] == s[1] && t[2] == s[2] && t[3] == s[3] && t[4] == s[4]);
                    }
                },
                Kind::Byte => {
                    assert(t[1] == s[1]);
                },
                Kind::Pair => {
                    assert(target_at(t, 1) == target_at(s, 1)) by {
                        assert(t[1] == s[1] && t[2] == s[2] && t[3] == s[3] && t[4] == s[4]);
                        assert(t[5] == s[5] && t[6] == s[6] && t[7] == s[7] && t[8] == s[8]);
                    }
                },
                Kind::Ids => {
                    assert(t[1] == s[1]);
                    let n = announced(s[1], MAX_MSGS as int);
                    assert(t.subrange(2, 2 + n) =~= s.subrange(2, 2 + n));
                },
                Kind::Targets => {
                    assert(t[1] == s[1]);
                    let n = announced(s[1], TARGET_BUFFER_SIZE as int);
                    let a = Seq::new(n as nat, |i: int| target_at(t, 2 + 8 * i));
                    let b = Seq::new(n as nat, |i: int| target_at(s, 2 + 8 * i));
                    assert forall|i: int| 0 <= i < n implies a[i] == b[i] by {
                        let o = 2 + 8 * i;
                        assert(t[o] == s[o] && t[o + 1] == s[o + 1] && t[o + 2] == s[o + 2] && t[o
                            + 3] == s[o + 3]);
                        assert(t[o + 4] == s[o + 4] && t[o + 5] == s[o + 5] && t[o + 6] == s[o + 6]
                            && t[o + 7] == s[o + 7]);
                    }
                    assert(a =~= b);
                },
                Kind::Line => {
                    if exists|k: int| line_ends_at(s, k) {
                        let k = choose|k: int| line_ends_at(s, k);
                        assert(line_ends_at(t, k)) by {
                            assert forall|j: int| 0 <= j < k implies t[j] != LINE_FEED by {
                                assert(t[j] == s[j]);
                            }
                            assert(t[k] == s[k]);
                        }
                        let k2 = choose|k: int| line_ends_at(t, k);
                        assert(k2 == k) by {
                            if k2 < k {
                                assert(s[k2] == t[k2]);
                            } else if k < k2 {
                                assert(t[k] == s[k]);
                            }
                        }
                        let kept = if k + 1 > MAX_LINE as int {
                            MAX_LINE as int
                        } else {
                            k + 1
                        };
                        assert(t.subrange(0, kept) =~= s.subrange(0, kept));
                    } else {
                        assert(s.len() >= LINE_SPAN);
                        assert(!exists|k: int| line_ends_at(t, k)) by {
                            if exists|k: int| line_ends_at(t, k) {
                                let k = choose|k: int| line_ends_at(t, k);
                                assert(line_ends_at(s, k)) by {
                                    assert forall|j: int| 0 <= j < k implies s[j] != LINE_FEED by {
                                        assert(t[j] == s[j]);
                                    }
                                    assert(t[k] == s[k]);
                                }
                            }
                        }
                        assert(t.subrange(0, MAX_LINE as int) =~= s.subrange(0, MAX_LINE as int));
                    }
                },
            }
        },
    }
}

} // verus!
