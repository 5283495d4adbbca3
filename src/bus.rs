//! The action bus: envelopes tagged with the replica that produced them, delivered to
//! every other registered replica through a bounded queue per subscriber.
use crate::model::WorkspaceAction;
use vstd::prelude::*;

verus! {

/// The identity of a replica adapter.
#[derive(Clone, Copy, Debug, PartialEq, Eq, Structural)]
pub enum SourceTag {
    Browser,
    Filesystem,
    Socket,
    PersistedFile,
}

impl SourceTag {
    /// The replica's name, as it appears in logs.
    pub fn label(&self) -> (r: &'static str)
        ensures
            *self == SourceTag::Browser ==> r@ == "browser"@,
            *self == SourceTag::Filesystem ==> r@ == "filesystem"@,
            *self == SourceTag::Socket ==> r@ == "socket"@,
            *self == SourceTag::PersistedFile ==> r@ == "persisted-file"@,
    {
        match self {
            SourceTag::Browser => "browser",
            SourceTag::Filesystem => "filesystem",
            SourceTag::Socket => "socket",
            SourceTag::PersistedFile => "persisted-file",
        }
    }
}

/// An action together with the replica that produced it.
#[derive(Debug, Clone, PartialEq, Eq)]
pub struct ActionEnvelope {
    pub source: SourceTag,
    pub action: WorkspaceAction,
}

impl ActionEnvelope {
    pub fn new(source: SourceTag, action: WorkspaceAction) -> (r: ActionEnvelope)
        ensures
            r.source == source,
            r.action == action,
    {
        ActionEnvelope { source, action }
    }

    /// A copy of the envelope.
    pub fn duplicate(&self) -> (r: ActionEnvelope)
        ensures
            r == *self,
    {
        ActionEnvelope { source: self.source, action: self.action.duplicate() }
    }
}

/// A registered replica and the envelopes waiting for it, oldest first.
#[derive(Debug)]
struct Subscriber {
    id: u64,
    identity: SourceTag,
    pending: Vec<ActionEnvelope>,
}

/// What the bus knows of one registered replica.
pub ghost struct SubscriberView {
    pub id: u64,
    pub identity: SourceTag,
    pub pending: Seq<ActionEnvelope>,
}

impl View for Subscriber {
    type V = SubscriberView;

    closed spec fn view(&self) -> SubscriberView {
        SubscriberView { id: self.id, identity: self.identity, pending: self.pending@ }
    }
}

/// The broadcast channel between replicas.
#[derive(Debug)]
pub struct ActionBus {
    subscribers: Vec<Subscriber>,
    next_id: u64,
    capacity: usize,
}

/// The queue of `sub` once `env` has been published: unchanged when `sub` produced
/// `env`; otherwise `env` is appended, and the oldest entry is dropped when the queue
/// already held `capacity` envelopes.
pub open spec fn delivered(sub: SubscriberView, env: ActionEnvelope, capacity: nat) -> Seq<ActionEnvelope> {
    if sub.identity == env.source {
        sub.pending
    } else if sub.pending.len() < capacity {
        sub.pending.push(env)
    } else {
        sub.pending.drop_first().push(env)
    }
}

/// The queue of `sub` once each of `envs` has been published, in order.
pub open spec fn delivered_all(sub: SubscriberView, envs: Seq<ActionEnvelope>, capacity: nat) -> Seq<
    ActionEnvelope,
>
    decreases envs.len(),
{
    if envs.len() == 0 {
        sub.pending
    } else {
        delivered(
            SubscriberView { pending: delivered_all(sub, envs.drop_last(), capacity), ..sub },
            envs.last(),
            capacity,
        )
    }
}

/// Echo suppression: an envelope is never handed back to a replica of the identity that
/// produced it, and is handed, as the newest entry of its queue, to every other one.
pub proof fn lemma_no_echo(sub: SubscriberView, env: ActionEnvelope, capacity: nat)
    requires
        capacity > 0,
    ensures
        sub.identity == env.source ==> delivered(sub, env, capacity) == sub.pending,
        sub.identity != env.source ==> delivered(sub, env, capacity).last() == env,
        sub.identity != env.source ==> delivered(sub, env, capacity).len() <= sub.pending.len() + 1,
{
}

/// How many of `subs` did not produce envelopes from `source`.
pub open spec fn recipients(subs: Seq<SubscriberView>, source: SourceTag) -> nat
    decreases subs.len(),
{
    if subs.len() == 0 {
        0
    } else {
        recipients(subs.drop_last(), source) + if subs.last().identity != source {
            1nat
        } else {
            0nat
        }
    }
}

impl ActionBus {
    /// The registered subscribers, in order of registration.
    pub closed spec fn subscribers(&self) -> Seq<SubscriberView> {
        self.subscribers@.map_values(|s: Subscriber| s@)
    }

    /// The most envelopes a subscriber's queue holds.
    pub closed spec fn capacity(&self) -> nat {
        self.capacity as nat
    }

    /// The id that the next subscriber will get.
    pub closed spec fn next_id(&self) -> nat {
        self.next_id as nat
    }

    /// Ids are unique and below `next_id`, and no queue is over capacity.
    pub open spec fn wf(&self) -> bool {
        &&& self.capacity() > 0
        &&& forall|i: int|
            0 <= i < self.subscribers().len() ==> {
                &&& (#[trigger] self.subscribers()[i]).id < self.next_id()
                &&& self.subscribers()[i].pending.len() <= self.capacity()
            }
        &&& forall|i: int, j: int|
            0 <= i < j < self.subscribers().len() ==> (#[trigger] self.subscribers()[i]).id
                != (#[trigger] self.subscribers()[j]).id
    }

    /// Whether a subscriber with id `id` is registered.
    pub open spec fn has(&self, id: u64) -> bool {
        exists|i: int| 0 <= i < self.subscribers().len() && (#[trigger] self.subscribers()[i]).id == id
    }

    /// A bus without subscribers whose queues hold at most `capacity` envelopes.
    pub fn new(capacity: usize) -> (r: ActionBus)
        requires
            capacity > 0,
        ensures
            r.wf(),
            r.subscribers() == Seq::<SubscriberView>::empty(),
            r.capacity() == capacity,
            r.next_id() == 0,
    {
        ActionBus { subscribers: Vec::new(), next_id: 0, capacity }
    }

    /// How many subscribers are registered.
    pub fn subscriber_count(&self) -> (r: usize)
        ensures
            r == self.subscribers().len(),
    {
        self.subscribers.len()
    }

    /// The index of the subscriber with id `id`, if one is registered.
    fn find(&self, id: u64) -> (r: Option<usize>)
        requires
            self.wf(),
        ensures
            match r {
                Some(k) => k < self.subscribers().len() && self.subscribers()[k as int].id == id,
                None => !self.has(id),
            },
    {
        let n = self.subscribers.len();
        let mut k: usize = 0;
        while k < n
            invariant
                n == self.subscribers().len(),
                k <= n,
                forall|j: int| 0 <= j < k ==> self.subscribers()[j].id != id,
            decreases n - k,
        {
            if self.subscribers[k].id == id {
                return Some(k);
            }
            k = k + 1;
        }
        None
    }

    /// Hands `envelope` to every registered replica but the one that produced it, each
    /// of which drops its oldest waiting envelope when its queue is full; returns how
    /// many replicas it was handed to. Never waits.
    pub fn publish(&mut self, envelope: ActionEnvelope) -> (r: usize)
        requires
            old(self).wf(),
        ensures
            final(self).wf(),
            final(self).capacity() == old(self).capacity(),
            final(self).next_id() == old(self).next_id(),
            final(self).subscribers().len() == old(self).subscribers().len(),
            forall|i: int|
                0 <= i < old(self).subscribers().len() ==> (#[trigger] final(self).subscribers()[i])
                    == (SubscriberView {
                    pending: delivered(old(self).subscribers()[i], envelope, old(self).capacity()),
                    ..old(self).subscribers()[i]
                }),
            r == recipients(old(self).subscribers(), envelope.source),
    {
        let n = self.subscribers.len();
        let mut i: usize = 0;
        let mut count: usize = 0;
        while i < n
            invariant
                n == self.subscribers().len(),
                n == old(self).subscribers().len(),
                i <= n,
                count <= i,
                self.capacity == old(self).capacity,
                self.next_id == old(self).next_id,
                old(self).wf(),
                count == recipients(old(self).subscribers().subrange(0, i as int), envelope.source),
                forall|j: int|
                    0 <= j < i ==> (#[trigger] self.subscribers()[j]) == (SubscriberView {
                        pending: delivered(old(self).subscribers()[j], envelope, old(self).capacity()),
                        ..old(self).subscribers()[j]
                    }),
                forall|j: int| i <= j < n ==> #[trigger] self.subscribers()[j] == old(self).subscribers()[j],
            decreases n - i,
        {
            let ghost prefix = old(self).subscribers().subrange(0, i as int);
            assert(old(self).subscribers().subrange(0, i + 1).drop_last() =~= prefix);
            assert(self.subscribers()[i as int] == old(self).subscribers()[i as int]);
            let ghost before = self.subscribers();
            if self.subscribers[i].identity != envelope.source {
                if self.subscribers[i].pending.len() >= self.capacity {
                    self.subscribers[i].pending.remove(0);
                }
                self.subscribers[i].pending.push(envelope.duplicate());
                count = count + 1;
            }
            assert(self.subscribers()[i as int].pending =~= delivered(old(self).subscribers()[i as int], envelope, old(self).capacity()));
            assert(self.subscribers() =~= before.update(i as int, self.subscribers()[i as int]));
            i = i + 1;
        }
        assert(old(self).subscribers().subrange(0, n as int) =~= old(self).subscribers());
        count
    }

    /// Takes the oldest envelope waiting for subscriber `id`; `None` when nothing waits
    /// for it or no such subscriber is registered.
    pub fn receive(&mut self, id: u64) -> (r: Option<ActionEnvelope>)
        requires
            old(self).wf(),
        ensures
            final(self).wf(),
            final(self).capacity() == old(self).capacity(),
            final(self).next_id() == old(self).next_id(),
            !old(self).has(id) ==> r is None && final(self).subscribers() == old(self).subscribers(),
            forall|i: int|
                0 <= i < old(self).subscribers().len() && (#[trigger] old(self).subscribers()[i]).id
                    == id ==> {
                    let sub = old(self).subscribers()[i];
                    if sub.pending.len() == 0 {
                        r is None && final(self).subscribers() == old(self).subscribers()
                    } else {
                        r == Some(sub.pending[0]) && final(self).subscribers()
                            == old(self).subscribers().update(
                            i,
                            (SubscriberView { pending: sub.pending.drop_first(), ..sub }),
                        )
                    }
                },
    {
        match self.find(id) {
            None => None,
            Some(k) => {
                if self.subscribers[k].pending.len() == 0 {
                    None
                } else {
                    let e = self.subscribers[k].pending.remove(0);
                    let ghost sub = old(self).subscribers()[k as int];
                    assert(self.subscribers() =~= old(self).subscribers().update(
                        k as int,
                        SubscriberView { pending: sub.pending.drop_first(), ..sub },
                    ));
                    Some(e)
                }
            },
        }
    }

    /// Deregisters subscriber `id` with whatever waits for it; `false` when no such
    /// subscriber is registered.
    pub fn unsubscribe(&mut self, id: u64) -> (r: bool)
        requires
            old(self).wf(),
        ensures
            final(self).wf(),
            final(self).capacity() == old(self).capacity(),
            final(self).next_id() == old(self).next_id(),
            r == old(self).has(id),
            !old(self).has(id) ==> final(self).subscribers() == old(self).subscribers(),
            forall|i: int|
                0 <= i < old(self).subscribers().len() && (#[trigger] old(self).subscribers()[i]).id
                    == id ==> final(self).subscribers() == old(self).subscribers().remove(i),
    {
        match self.find(id) {
            None => false,
            Some(k) => {
                self.subscribers.remove(k);
                assert(self.subscribers() =~= old(self).subscribers().remove(k as int));
                true
            },
        }
    }

    /// Registers a replica with an empty queue, so that it sees only what is published
    /// from now on, and returns its id; `None` once every id has been handed out.
    pub fn subscribe(&mut self, identity: SourceTag) -> (r: Option<u64>)
        requires
            old(self).wf(),
        ensures
            final(self).wf(),
            final(self).capacity() == old(self).capacity(),
            old(self).next_id() < u64::MAX ==> final(self).next_id() == old(self).next_id() + 1,
            old(self).next_id() < u64::MAX ==> r == Some(old(self).next_id() as u64)
                && final(self).subscribers() == old(self).subscribers().push(
                (SubscriberView { id: old(self).next_id() as u64, identity, pending: Seq::empty() }),
            ),
            old(self).next_id() == u64::MAX ==> r is None && *final(self) == *old(self),
    {
        if self.next_id == u64::MAX {
            return None;
        }
        let id = self.next_id;
        self.subscribers.push(Subscriber { id, identity, pending: Vec::new() });
        self.next_id = self.next_id + 1;
        assert(self.subscribers() =~= old(self).subscribers().push(
            SubscriberView { id, identity, pending: Seq::empty() },
        ));
        Some(id)
    }
}

} // verus!
