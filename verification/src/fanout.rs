use vstd::prelude::*;
use vstd::string::StringExecFns;
use crate::strings::str_eq;

verus! {

// ---------------------------------------------------------------------------
// Change events and channel routing.
// ---------------------------------------------------------------------------

/// One committed mutation of a queue table, as the store's change feed
/// reports it: the originating channel, the action, and the mutated record,
/// serialized by the transport layer.
#[derive(Debug)]
pub struct ChangeEvent {
    pub channel: String,
    pub action: String,
    pub payload: String,
}

impl ChangeEvent {
    /// An identical copy of the event.
    pub fn duplicate(&self) -> (r: ChangeEvent)
        ensures
            r == *self,
    {
        ChangeEvent {
            channel: self.channel.clone(),
            action: self.action.clone(),
            payload: self.payload.clone(),
        }
    }
}

/// The channels that carry queue mutations; events of any other channel are
/// logged and ignored by the fan-out, never fatal.
pub open spec fn recognized_channel(name: Seq<char>) -> bool {
    name == "scheduled_archivals"@ || name == "tracked_collections"@
}

/// Whether a change-feed channel has a handler.
pub fn is_recognized_channel(name: &str) -> (r: bool)
    ensures
        r == recognized_channel(name@),
{
    str_eq(name, "scheduled_archivals") || str_eq(name, "tracked_collections")
}

// ---------------------------------------------------------------------------
// The subscriber registry.
// ---------------------------------------------------------------------------

/// One connected live subscriber: its registry identifier and, as the model
/// of its connection, the ordered sequence of events delivered to it.
#[derive(Debug)]
pub struct Subscriber {
    pub id: u64,
    pub outbox: Vec<ChangeEvent>,
}

/// Subscriber identifiers never repeat.
pub open spec fn wf_subscribers(subs: Seq<Subscriber>) -> bool {
    forall|i: int, j: int|
        0 <= i < j < subs.len() ==> (#[trigger] subs[i].id) != (#[trigger] subs[j].id)
}

/// Some subscriber carries this identifier.
pub open spec fn spec_has_subscriber(subs: Seq<Subscriber>, id: u64) -> bool {
    exists|i: int| 0 <= i < subs.len() && #[trigger] subs[i].id == id
}

/// The events of one batch that the fan-out delivers: those on a recognized
/// channel, in the order the store handed them over.
pub open spec fn delivered_of(events: Seq<ChangeEvent>) -> Seq<ChangeEvent>
    decreases events.len(),
{
    if events.len() == 0 {
        Seq::empty()
    } else {
        let rest = delivered_of(events.drop_last());
        if recognized_channel(events.last().channel@) {
            rest.push(events.last())
        } else {
            rest
        }
    }
}

/// What one delivery pass does to the registry: every connected subscriber,
/// and only they, receive the batch's recognized events appended to their
/// outbox, in batch order.
pub open spec fn delivery_step(
    pre: Seq<Subscriber>,
    post: Seq<Subscriber>,
    events: Seq<ChangeEvent>,
) -> bool {
    &&& post.len() == pre.len()
    &&& forall|k: int|
        0 <= k < pre.len() ==> {
            &&& (#[trigger] post[k].id) == pre[k].id
            &&& post[k].outbox@ == pre[k].outbox@ + delivered_of(events)
        }
}

/// What one disconnect does to the registry: the subscriber with this
/// identifier is removed, every other subscriber keeps its outbox.
pub open spec fn unsubscribe_step(
    pre: Seq<Subscriber>,
    post: Seq<Subscriber>,
    id: u64,
    removed: bool,
) -> bool {
    if spec_has_subscriber(pre, id) {
        &&& removed
        &&& exists|i: int| 0 <= i < pre.len() && (#[trigger] pre[i].id) == id && post == pre.remove(i)
    } else {
        !removed && post == pre
    }
}

/// The registry of currently-connected live subscribers, owned by the
/// fan-out component: each subscriber registers under a fresh identifier on
/// connect and is removed on disconnect, and the delivery loop pushes every
/// recognized change event to all of them.
pub struct SubscriberRegistry {
    subscribers: Vec<Subscriber>,
    next_id: u64,
}

impl View for SubscriberRegistry {
    type V = Seq<Subscriber>;

    closed spec fn view(&self) -> Seq<Subscriber> {
        self.subscribers@
    }
}

impl SubscriberRegistry {
    /// The next identifier the registry will assign.
    pub closed spec fn spec_next_id(self) -> int {
        self.next_id as int
    }

    /// Identifiers are unique and stay below the next one to be assigned.
    pub closed spec fn wf(self) -> bool {
        &&& wf_subscribers(self.subscribers@)
        &&& forall|i: int|
            0 <= i < self.subscribers@.len() ==> (#[trigger] self.subscribers@[i].id)
                < self.next_id
    }

    /// An empty registry.
    pub fn new() -> (r: SubscriberRegistry)
        ensures
            r.wf(),
            r@ =~= Seq::<Subscriber>::empty(),
            r.spec_next_id() == 0,
    {
        SubscriberRegistry { subscribers: Vec::new(), next_id: 0 }
    }

    /// The connected subscribers, in registration order.
    pub fn subscribers(&self) -> (r: &Vec<Subscriber>)
        ensures
            r@ == self@,
    {
        &self.subscribers
    }

    /// Whether the registry can still assign a fresh identifier; unverified
    /// callers test this before registering a connection.
    pub fn can_subscribe(&self) -> (r: bool)
        ensures
            r == (self.spec_next_id() < u64::MAX),
    {
        self.next_id < u64::MAX
    }

    /// Registers a new connection under a fresh identifier, with nothing
    /// delivered to it yet.
    pub fn subscribe(&mut self) -> (id: u64)
        requires
            old(self).wf(),
            old(self).spec_next_id() < u64::MAX,
        ensures
            final(self).wf(),
            final(self)@.len() == old(self)@.len() + 1,
            final(self)@.subrange(0, old(self)@.len() as int) == old(self)@,
            final(self)@.last().id == id,
            final(self)@.last().outbox@ =~= Seq::<ChangeEvent>::empty(),
            !spec_has_subscriber(old(self)@, id),
    {
        let id = self.next_id;
        self.next_id = self.next_id + 1;
        let ghost pre = self.subscribers@;
        self.subscribers.push(Subscriber { id, outbox: Vec::new() });
        proof {
            assert(self.subscribers@.subrange(0, pre.len() as int) =~= pre);
            assert forall|i: int, j: int| 0 <= i < j < self.subscribers@.len() implies (
                #[trigger] self.subscribers@[i].id) != (#[trigger] self.subscribers@[j].id) by {
                if j == pre.len() {
                    assert(pre[i].id < id);
                }
            }
        }
        id
    }

    /// Removes a disconnected subscriber; removing one already gone is a
    /// no-op, so a dropped connection may be detected twice harmlessly.
    pub fn unsubscribe(&mut self, id: u64) -> (removed: bool)
        requires
            old(self).wf(),
        ensures
            final(self).wf(),
            final(self).spec_next_id() == old(self).spec_next_id(),
            unsubscribe_step(old(self)@, final(self)@, id, removed),
    {
        let n = self.subscribers.len();
        let mut i: usize = 0;
        while i < n
            invariant
                *self == *old(self),
                old(self).wf(),
                i <= n,
                n == self@.len(),
                forall|k: int| 0 <= k < i ==> (#[trigger] self@[k].id) != id,
            decreases n - i,
        {
            if self.subscribers[i].id == id {
                let ghost pre = self.subscribers@;
                let _ = self.subscribers.remove(i);
                proof {
                    assert forall|a: int, b: int| 0 <= a < b < self.subscribers@.len() implies (
                        #[trigger] self.subscribers@[a].id) != (
                    #[trigger] self.subscribers@[b].id) by {
                        let a0 = if a < i as int { a } else { a + 1 };
                        let b0 = if b < i as int { b } else { b + 1 };
                        assert(self.subscribers@[a] == pre[a0]);
                        assert(self.subscribers@[b] == pre[b0]);
                    }
                    assert forall|k: int|
                        0 <= k < self.subscribers@.len() implies (
                    #[trigger] self.subscribers@[k].id) < self.next_id by {
                        let k0 = if k < i as int { k } else { k + 1 };
                        assert(self.subscribers@[k] == pre[k0]);
                    }
                }
                return true;
            }
            i += 1;
        }
        false
    }

    /// Hands one event to every connected subscriber, in registry order.
    fn deliver_event(&mut self, event: &ChangeEvent)
        requires
            old(self).wf(),
        ensures
            final(self).wf(),
            final(self).spec_next_id() == old(self).spec_next_id(),
            final(self)@.len() == old(self)@.len(),
            forall|k: int|
                0 <= k < old(self)@.len() ==> {
                    &&& (#[trigger] final(self)@[k].id) == old(self)@[k].id
                    &&& final(self)@[k].outbox@ == old(self)@[k].outbox@.push(*event)
                },
    {
        let n = self.subscribers.len();
        let mut i: usize = 0;
        while i < n
            invariant
                old(self).wf(),
                i <= n,
                n == self@.len(),
                self@.len() == old(self)@.len(),
                self.spec_next_id() == old(self).spec_next_id(),
                forall|k: int|
                    0 <= k < i ==> {
                        &&& (#[trigger] self@[k].id) == old(self)@[k].id
                        &&& self@[k].outbox@ == old(self)@[k].outbox@.push(*event)
                    },
                forall|k: int| i <= k < n ==> (#[trigger] self@[k]) == old(self)@[k],
            decreases n - i,
        {
            let ghost mid = self.subscribers@;
            let copy = event.duplicate();
            let sub = &mut self.subscribers[i];
            sub.outbox.push(copy);
            proof {
                assert(self.subscribers@[i as int].outbox@ == mid[i as int].outbox@.push(*event));
                assert forall|k: int| i as int + 1 <= k < n implies (#[trigger] self@[k]) == old(
                    self,
                )@[k] by {
                    assert(self.subscribers@[k] == mid[k]);
                }
            }
            i += 1;
        }
        proof {
            assert forall|a: int, b: int| 0 <= a < b < self.subscribers@.len() implies (
                #[trigger] self.subscribers@[a].id) != (#[trigger] self.subscribers@[b].id) by {
                assert(self.subscribers@[a].id == old(self)@[a].id);
                assert(self.subscribers@[b].id == old(self)@[b].id);
            }
            assert forall|k: int| 0 <= k < self.subscribers@.len() implies (
                #[trigger] self.subscribers@[k].id) < self.next_id by {
                assert(self.subscribers@[k].id == old(self)@[k].id);
            }
        }
    }

    /// One poll of the change feed: delivers the batch's events to every
    /// connected subscriber in batch order, dropping events of channels
    /// without a handler.
    pub fn deliver_batch(&mut self, events: &Vec<ChangeEvent>)
        requires
            old(self).wf(),
        ensures
            final(self).wf(),
            final(self).spec_next_id() == old(self).spec_next_id(),
            delivery_step(old(self)@, final(self)@, events@),
    {
        let n = events.len();
        let mut i: usize = 0;
        while i < n
            invariant
                self.wf(),
                i <= n,
                n == events@.len(),
                self.spec_next_id() == old(self).spec_next_id(),
                delivery_step(old(self)@, self@, events@.subrange(0, i as int)),
            decreases n - i,
        {
            let ghost mid = self@;
            let ghost processed = events@.subrange(0, i as int);
            let event = &events[i];
            if is_recognized_channel(event.channel.as_str()) {
                self.deliver_event(event);
            }
            proof {
                let processed_next = events@.subrange(0, i + 1);
                assert(processed_next.drop_last() =~= processed);
                assert(processed_next.last() == events@[i as int]);
                assert forall|k: int| 0 <= k < old(self)@.len() implies {
                    &&& (#[trigger] self@[k].id) == old(self)@[k].id
                    &&& self@[k].outbox@ == old(self)@[k].outbox@ + delivered_of(processed_next)
                } by {
                    assert(mid[k].id == old(self)@[k].id);
                    assert(mid[k].outbox@ == old(self)@[k].outbox@ + delivered_of(processed));
                    if recognized_channel(events@[i as int].channel@) {
                        assert(self@[k].id == mid[k].id);
                        assert(self@[k].outbox@ == mid[k].outbox@.push(events@[i as int]));
                        assert(old(self)@[k].outbox@ + delivered_of(processed_next) =~= (old(
                            self,
                        )@[k].outbox@ + delivered_of(processed)).push(events@[i as int]));
                    } else {
                        assert(self@[k] == mid[k]);
                        assert(delivered_of(processed_next) == delivered_of(processed));
                    }
                }
            }
            i += 1;
        }
        proof {
            assert(events@.subrange(0, n as int) =~= events@);
        }
    }
}

// ---------------------------------------------------------------------------
// Law of the fan-out.
// ---------------------------------------------------------------------------

/// With exactly two subscribers connected, a delivered batch reaches both of
/// them in full; once one of them disconnects, a further batch reaches only
/// the survivor, and the departed subscriber is no longer registered at all.
pub proof fn lemma_fanout_two_subscribers(
    s0: Seq<Subscriber>,
    s1: Seq<Subscriber>,
    s2: Seq<Subscriber>,
    s3: Seq<Subscriber>,
    first_batch: Seq<ChangeEvent>,
    second_batch: Seq<ChangeEvent>,
    removed: bool,
)
    requires
        wf_subscribers(s0),
        s0.len() == 2,
        delivery_step(s0, s1, first_batch),
        unsubscribe_step(s1, s2, s1[0].id, removed),
        delivery_step(s2, s3, second_batch),
    ensures
        s1[0].outbox@ == s0[0].outbox@ + delivered_of(first_batch),
        s1[1].outbox@ == s0[1].outbox@ + delivered_of(first_batch),
        s3.len() == 1,
        s3[0].id == s0[1].id,
        s3[0].outbox@ == s0[1].outbox@ + delivered_of(first_batch) + delivered_of(second_batch),
        !spec_has_subscriber(s3, s0[0].id),
{
    assert(spec_has_subscriber(s1, s1[0].id)) by {
        assert(s1[0].id == s1[0].id);
    }
    let i = choose|i: int| 0 <= i < s1.len() && (#[trigger] s1[i].id) == s1[0].id && s2 == s1.remove(i);
    assert(i == 0) by {
        if i != 0 {
            assert(s1[i].id != s1[0].id) by {
                assert(s0[0].id != s0[1].id);
            }
        }
    }
    assert(s2 =~= s1.remove(0));
    assert(s2.len() == 1);
    assert(s2[0] == s1[1]);
    assert(s3[0].id == s2[0].id);
    assert(s3[0].outbox@ == s2[0].outbox@ + delivered_of(second_batch));
    assert(s3[0].outbox@ =~= s0[1].outbox@ + delivered_of(first_batch) + delivered_of(
        second_batch,
    ));
    assert forall|k: int| 0 <= k < s3.len() implies (#[trigger] s3[k].id) != s0[0].id by {
        assert(s3[0].id == s0[1].id);
        assert(s0[0].id != s0[1].id);
    }
}

} // verus!
