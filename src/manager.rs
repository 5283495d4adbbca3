//! The canonical workspace together with the bus that its replicas share.
use crate::adapter::{actions_of, reconcile};
use crate::bus::{delivered, delivered_all, ActionBus, ActionEnvelope, SourceTag, SubscriberView};
use crate::model::{apply_to, is_diff, Workspace};
use vstd::prelude::*;

verus! {

/// How many envelopes wait for a replica at most before the oldest is dropped.
pub const BUS_CAPACITY: usize = 16;

/// The canonical workspace, mutated only through the actions it applies, and the bus on
/// which every applied action is published.
#[derive(Debug)]
pub struct WorkspaceManger {
    workspace: Workspace,
    bus: ActionBus,
}

impl WorkspaceManger {
    pub closed spec fn canonical(&self) -> Workspace {
        self.workspace
    }

    pub closed spec fn channel(&self) -> ActionBus {
        self.bus
    }

    pub open spec fn wf(&self) -> bool {
        self.channel().wf()
    }

    /// A manager of `workspace` whose bus has no subscribers yet.
    pub fn new(workspace: Workspace) -> (r: WorkspaceManger)
        ensures
            r.wf(),
            r.canonical() == workspace,
            r.channel().subscribers() == Seq::<SubscriberView>::empty(),
            r.channel().capacity() == BUS_CAPACITY,
            r.channel().next_id() == 0,
    {
        WorkspaceManger { workspace, bus: ActionBus::new(BUS_CAPACITY) }
    }

    /// The canonical workspace.
    pub fn workspace(&self) -> (r: &Workspace)
        ensures
            *r == self.canonical(),
    {
        &self.workspace
    }

    /// Registers a replica on the bus; see `ActionBus::subscribe`.
    pub fn subscribe(&mut self, identity: SourceTag) -> (r: Option<u64>)
        requires
            old(self).wf(),
        ensures
            final(self).wf(),
            final(self).canonical() == old(self).canonical(),
            final(self).channel().capacity() == old(self).channel().capacity(),
            old(self).channel().next_id() < u64::MAX ==> final(self).channel().next_id() == old(self).channel().next_id() + 1,
            old(self).channel().next_id() < u64::MAX ==> r == Some(old(self).channel().next_id() as u64)
                && final(self).channel().subscribers() == old(self).channel().subscribers().push(
                (SubscriberView { id: old(self).channel().next_id() as u64, identity, pending: Seq::empty() }),
            ),
            old(self).channel().next_id() == u64::MAX ==> r is None && final(self).channel()
                == old(self).channel(),
    {
        self.bus.subscribe(identity)
    }

    /// Deregisters a replica; see `ActionBus::unsubscribe`.
    pub fn unsubscribe(&mut self, id: u64) -> (r: bool)
        requires
            old(self).wf(),
        ensures
            final(self).wf(),
            final(self).canonical() == old(self).canonical(),
            final(self).channel().capacity() == old(self).channel().capacity(),
            r == old(self).channel().has(id),
            !old(self).channel().has(id) ==> final(self).channel().subscribers() == old(self).channel().subscribers(),
            forall|i: int|
                0 <= i < old(self).channel().subscribers().len() && (#[trigger] old(self).channel().subscribers()[i]).id == id ==> final(self).channel().subscribers()
                    == old(self).channel().subscribers().remove(i),
    {
        self.bus.unsubscribe(id)
    }

    /// Takes the oldest envelope waiting for replica `id`; see `ActionBus::receive`.
    pub fn receive(&mut self, id: u64) -> (r: Option<ActionEnvelope>)
        requires
            old(self).wf(),
        ensures
            final(self).wf(),
            final(self).canonical() == old(self).canonical(),
            final(self).channel().capacity() == old(self).channel().capacity(),
            !old(self).channel().has(id) ==> r is None && final(self).channel().subscribers() == old(self).channel().subscribers(),
            forall|i: int|
                0 <= i < old(self).channel().subscribers().len() && (#[trigger] old(self).channel().subscribers()[i]).id == id ==> {
                    let sub = old(self).channel().subscribers()[i];
                    if sub.pending.len() == 0 {
                        r is None && final(self).channel().subscribers() == old(self).channel().subscribers()
                    } else {
                        r == Some(sub.pending[0]) && final(self).channel().subscribers() == old(self).channel().subscribers().update(
                            i,
                            (SubscriberView { pending: sub.pending.drop_first(), ..sub }),
                        )
                    }
                },
    {
        self.bus.receive(id)
    }

    fn publish_all(&mut self, envs: &Vec<ActionEnvelope>)
        requires
            old(self).wf(),
        ensures
            final(self).wf(),
            final(self).canonical() == old(self).canonical(),
            final(self).channel().capacity() == old(self).channel().capacity(),
            final(self).channel().next_id() == old(self).channel().next_id(),
            final(self).channel().subscribers().len() == old(self).channel().subscribers().len(),
            forall|i: int|
                0 <= i < old(self).channel().subscribers().len() ==> (#[trigger] final(self).channel().subscribers()[i]) == (SubscriberView {
                    pending: delivered_all(
                        old(self).channel().subscribers()[i],
                        envs@,
                        old(self).channel().capacity(),
                    ),
                    ..old(self).channel().subscribers()[i]
                }),
    {
        let n = envs.len();
        let mut k: usize = 0;
        while k < n
            invariant
                n == envs@.len(),
                k <= n,
                self.wf(),
                self.canonical() == old(self).canonical(),
                self.channel().capacity() == old(self).channel().capacity(),
                self.channel().next_id() == old(self).channel().next_id(),
                self.channel().subscribers().len() == old(self).channel().subscribers().len(),
                forall|i: int|
                    0 <= i < old(self).channel().subscribers().len() ==> (#[trigger] self.channel().subscribers()[i])
                        == (SubscriberView {
                        pending: delivered_all(
                            old(self).channel().subscribers()[i],
                            envs@.subrange(0, k as int),
                            old(self).channel().capacity(),
                        ),
                        ..old(self).channel().subscribers()[i]
                    }),
            decreases n - k,
        {
            assert(envs@.subrange(0, k + 1).drop_last() =~= envs@.subrange(0, k as int));
            self.bus.publish(envs[k].duplicate());
            k = k + 1;
        }
        assert(envs@.subrange(0, n as int) =~= envs@);
    }

    /// One tick of the replica `source`: reconciles the canonical workspace with the
    /// replica's fresh `snapshot`, publishes each corrective action tagged `source`, and
    /// returns the envelopes published.
    pub fn tick(&mut self, source: SourceTag, snapshot: Workspace) -> (r: Vec<ActionEnvelope>)
        requires
            old(self).wf(),
        ensures
            final(self).wf(),
            final(self).canonical().urls() == snapshot.urls(),
            is_diff(old(self).canonical().urls(), snapshot.urls(), actions_of(r@)),
            forall|i: int| 0 <= i < r@.len() ==> (#[trigger] r@[i]).source == source,
            final(self).channel().subscribers().len() == old(self).channel().subscribers().len(),
            forall|i: int|
                0 <= i < old(self).channel().subscribers().len() ==> (#[trigger] final(self).channel().subscribers()[i]) == (SubscriberView {
                    pending: delivered_all(
                        old(self).channel().subscribers()[i],
                        r@,
                        old(self).channel().capacity(),
                    ),
                    ..old(self).channel().subscribers()[i]
                }),
    {
        let envs = reconcile(&mut self.workspace, snapshot, source);
        self.publish_all(&envs);
        envs
    }

    /// Applies an action that the replica `envelope.source` reports to the canonical
    /// workspace, and publishes it to the other replicas.
    pub fn submit(&mut self, envelope: ActionEnvelope) -> (r: usize)
        requires
            old(self).wf(),
        ensures
            final(self).wf(),
            final(self).canonical().urls() == apply_to(old(self).canonical().urls(), envelope.action),
            final(self).channel().subscribers().len() == old(self).channel().subscribers().len(),
            forall|i: int|
                0 <= i < old(self).channel().subscribers().len() ==> (#[trigger] final(self).channel().subscribers()[i]) == (SubscriberView {
                    pending: delivered(
                        old(self).channel().subscribers()[i],
                        envelope,
                        old(self).channel().capacity(),
                    ),
                    ..old(self).channel().subscribers()[i]
                }),
    {
        self.workspace.apply_action(envelope.action.duplicate());
        self.bus.publish(envelope)
    }
}

} // verus!
