//! The robot's state as the telemetry protocol tells it: for every message
//! the payload that was last received. Both ends of the link keep one; the
//! robot fills it from its sensors and reports from it, the desktop fills
//! it from what the robot reports.

use vstd::prelude::*;
use crate::lists::{IdList, Line, Target, TargetList, TARGET_BUFFER_SIZE};
use crate::msgid::{lemma_ordinals, Kind, MsgId, MSG_COUNT};
use crate::msgs::{Body, Message, Msg, Payload};

verus! {

/// The payload of shape `kind` that says nothing: zero, or an empty list.
pub open spec fn blank(kind: Kind) -> Body {
    match kind {
        Kind::Scalar => Body::Scalar(0),
        Kind::Byte => Body::Byte(0),
        Kind::Pair => Body::Pair(Target { velocity: 0, distance: 0 }),
        Kind::Ids => Body::Ids(Seq::empty()),
        Kind::Targets => Body::Targets(Seq::empty()),
        Kind::Line => Body::Line(Seq::empty()),
    }
}

/// The list that a message adds a target to, if it is such a message.
pub open spec fn queue_of(id: MsgId) -> Option<MsgId> {
    match id {
        MsgId::AddLinear => Some(MsgId::LinearBuffer),
        MsgId::AddAngular => Some(MsgId::AngularBuffer),
        _ => None,
    }
}

/// Whether a list of targets has room for one more.
pub open spec fn has_room(body: Body) -> bool {
    match body {
        Body::Targets(ts) => ts.len() < TARGET_BUFFER_SIZE,
        _ => true,
    }
}

/// A list of targets with `t` queued at its head, before the targets that
/// are there, if there is room.
pub open spec fn with_target(body: Body, t: Body) -> Body {
    match (body, t) {
        (Body::Targets(ts), Body::Pair(t)) => if ts.len() < TARGET_BUFFER_SIZE {
            Body::Targets(seq![t] + ts)
        } else {
            body
        },
        _ => body,
    }
}

/// A list of targets without the target at its end, the one queued first.
pub open spec fn without_last(body: Body) -> Body {
    match body {
        Body::Targets(ts) => if ts.len() > 0 {
            Body::Targets(ts.drop_last())
        } else {
            body
        },
        _ => body,
    }
}

/// The target at the end of a list of targets, if there is one.
pub open spec fn last_target(body: Body) -> Option<Target> {
    match body {
        Body::Targets(ts) => if ts.len() > 0 {
            Some(ts.last())
        } else {
            None
        },
        _ => None,
    }
}

fn blank_payload(kind: Kind) -> (p: Payload)
    ensures
        p@ == blank(kind),
{
    match kind {
        Kind::Scalar => Payload::Scalar(0),
        Kind::Byte => Payload::Byte(0),
        Kind::Pair => Payload::Pair(Target { velocity: 0, distance: 0 }),
        Kind::Ids => Payload::Ids(IdList::new()),
        Kind::Targets => Payload::Targets(TargetList::new()),
        Kind::Line => Payload::Line(Line::new()),
    }
}

/// The last payload of every message.
pub struct Mouse {
    slots: Vec<Payload>,
}

impl Mouse {
    /// Every message's slot holds a payload of the message's shape. This
    /// holds of every state that [`Mouse::new`] made and
    /// [`Mouse::update`] changed.
    pub closed spec fn wf(&self) -> bool {
        &&& self.slots@.len() == MSG_COUNT
        &&& forall|id: MsgId| (#[trigger] self.slots@[id.ordinal()])@.kind() == id.kind()
    }

    /// What message `id` last carried.
    pub closed spec fn value(&self, id: MsgId) -> Body {
        self.slots@[id.ordinal()]@
    }

    /// Whether message `m` can be taken in whole: every message can, but
    /// for one that adds a target to a list that is full.
    pub open spec fn accepts(&self, m: Message) -> bool {
        match queue_of(m.id) {
            Some(list) => has_room(self.value(list)),
            None => true,
        }
    }

    /// What message `id` carries after message `m` was taken in. A message
    /// that adds a target queues it at the head of the list of targets it
    /// belongs to and is not kept itself; a line of text is not kept; every
    /// other message takes the place of the one of its name.
    pub open spec fn applied(&self, m: Message, id: MsgId) -> Body {
        if queue_of(m.id) == Some(id) {
            with_target(self.value(id), m.body)
        } else if m.id == id && queue_of(id) is None && id != MsgId::At {
            m.body
        } else {
            self.value(id)
        }
    }

    /// A state in which nothing was received yet: see [`blank`].
    pub fn new() -> (m: Mouse)
        ensures
            m.wf(),
            forall|id: MsgId| #[trigger] m.value(id) == blank(id.kind()),
    {
        let mut slots: Vec<Payload> = Vec::new();
        let mut i: usize = 0;
        while i < MSG_COUNT
            invariant
                i <= MSG_COUNT,
                slots@.len() == i,
                forall|k: int| 0 <= k < i ==> (#[trigger] slots@[k])@ == blank(MsgId::nth(k).kind()),
            decreases MSG_COUNT - i,
        {
            slots.push(blank_payload(MsgId::from_index(i).payload_kind()));
            i = i + 1;
        }
        let m = Mouse { slots };
        assert forall|id: MsgId| #[trigger] m.value(id) == blank(id.kind()) by {
            lemma_ordinals(id, id);
            assert(m.slots@[id.ordinal()]@ == blank(MsgId::nth(id.ordinal()).kind()));
        }
        assert forall|id: MsgId| (#[trigger] m.slots@[id.ordinal()])@.kind() == id.kind() by {
            assert(m.value(id) == blank(id.kind()));
        }
        m
    }

    /// Takes in message `msg`: see [`Mouse::applied`]. The answer is
    /// `false` if the message adds a target to a list that is full; the
    /// target is dropped then.
    pub fn update(&mut self, msg: Msg) -> (taken: bool)
        requires
            old(self).wf(),
        ensures
            final(self).wf(),
            taken == old(self).accepts(msg@),
            forall|id: MsgId| #[trigger] final(self).value(id) == old(self).applied(msg@, id),
    {
        let ghost m = msg@;
        let (id, payload) = msg.into_parts();
        let slot = match id {
            MsgId::AddLinear => MsgId::LinearBuffer,
            MsgId::AddAngular => MsgId::AngularBuffer,
            MsgId::At => {
                return true;
            },
            other => other,
        };
        let i = slot.index();
        let ghost before = self.slots@;
        let mut held = Payload::Byte(0);
        core::mem::swap(&mut held, &mut self.slots[i]);
        let mut taken = true;
        let next = match (id, held, payload) {
            (MsgId::AddLinear, Payload::Targets(mut l), Payload::Pair(t)) => {
                taken = l.queue_target(t);
                Payload::Targets(l)
            },
            (MsgId::AddAngular, Payload::Targets(mut l), Payload::Pair(t)) => {
                taken = l.queue_target(t);
                Payload::Targets(l)
            },
            (_, _, payload) => payload,
        };
        let mut next = next;
        core::mem::swap(&mut next, &mut self.slots[i]);
        proof {
            assert forall|other: MsgId| (#[trigger] self.slots@[other.ordinal()])@.kind()
                == other.kind() && self.value(other) == old(self).applied(m, other) by {
                lemma_ordinals(other, slot);
                if other != slot {
                    assert(self.slots@[other.ordinal()] == before[other.ordinal()]);
                }
            }
        }
        taken
    }

    /// Takes the target that was queued first out of list `list`, if the
    /// message is a list of targets and holds one.
    pub fn take_target(&mut self, list: MsgId) -> (t: Option<Target>)
        requires
            old(self).wf(),
        ensures
            final(self).wf(),
            t == last_target(old(self).value(list)),
            forall|id: MsgId|
                #[trigger] final(self).value(id) == if id == list {
                    without_last(old(self).value(id))
                } else {
                    old(self).value(id)
                },
    {
        let i = list.index();
        let ghost before = self.slots@;
        let mut held = Payload::Byte(0);
        core::mem::swap(&mut held, &mut self.slots[i]);
        let (mut next, t) = match held {
            Payload::Targets(mut l) => {
                let t = l.pop();
                (Payload::Targets(l), t)
            },
            other => (other, None),
        };
        core::mem::swap(&mut next, &mut self.slots[i]);
        proof {
            assert forall|other: MsgId| (#[trigger] self.slots@[other.ordinal()])@.kind()
                == other.kind() && self.value(other) == (if other == list {
                without_last(old(self).value(other))
            } else {
                old(self).value(other)
            }) by {
                lemma_ordinals(other, list);
                if other != list {
                    assert(self.slots@[other.ordinal()] == before[other.ordinal()]);
                }
            }
        }
        t
    }

    /// The message `msgid` with what it last carried.
    pub fn msg(&self, msgid: MsgId) -> (m: Msg)
        requires
            self.wf(),
        ensures
            m@ == (Message { id: msgid, body: self.value(msgid) }),
    {
        Msg::with_payload(msgid, self.slots[msgid.index()].copy())
    }
}

/// After a message was taken in, asking for the message of that name gives
/// it back, unless it is one that is not kept: a message that adds a target
/// or a line of text.
pub proof fn lemma_report_what_was_received(before: Mouse, after: Mouse, m: Message)
    requires
        forall|id: MsgId| #[trigger] after.value(id) == before.applied(m, id),
        queue_of(m.id) is None,
        m.id != MsgId::At,
    ensures
        after.value(m.id) == m.body,
        forall|id: MsgId| id != m.id ==> #[trigger] after.value(id) == before.value(id),
{
}

} // verus!
