//! The steps every replica adapter takes: reconcile a fresh snapshot into the canonical
//! workspace, and apply what other replicas publish.
use crate::bus::{ActionEnvelope, SourceTag};
use crate::model::{apply_all, apply_to, is_diff, lemma_diff_converges, Workspace, WorkspaceAction};
use crate::wire::{action_of_json, JsonValue};
use vstd::prelude::*;

verus! {

/// The actions that a sequence of envelopes carries, in order.
pub open spec fn actions_of(envs: Seq<ActionEnvelope>) -> Seq<WorkspaceAction> {
    envs.map_values(|e: ActionEnvelope| e.action)
}

/// One tick of a polling adapter: diffs the canonical workspace against a fresh
/// snapshot of the replica, applies the corrective actions to the canonical workspace,
/// and returns them tagged with the adapter's identity, ready to publish.
pub fn reconcile(canonical: &mut Workspace, snapshot: Workspace, source: SourceTag) -> (r: Vec<
    ActionEnvelope,
>)
    ensures
        final(canonical).urls() == snapshot.urls(),
        is_diff(old(canonical).urls(), snapshot.urls(), actions_of(r@)),
        forall|i: int| 0 <= i < r@.len() ==> (#[trigger] r@[i]).source == source,
{
    let ghost start = canonical.urls();
    let ghost target = snapshot.urls();
    let actions = canonical.actions_from_diff(snapshot);
    let n = actions.len();
    let mut out: Vec<ActionEnvelope> = Vec::new();
    let mut i: usize = 0;
    while i < n
        invariant
            n == actions@.len(),
            i <= n,
            out@.len() == i,
            canonical.urls() == apply_all(start, actions@.subrange(0, i as int)),
            forall|k: int| 0 <= k < i ==> (#[trigger] out@[k]).source == source,
            forall|k: int| 0 <= k < i ==> (#[trigger] out@[k]).action == actions@[k],
        decreases n - i,
    {
        assert(actions@.subrange(0, i + 1).drop_last() =~= actions@.subrange(0, i as int));
        canonical.apply_action(actions[i].duplicate());
        out.push(ActionEnvelope::new(source, actions[i].duplicate()));
        i = i + 1;
    }
    assert(actions@.subrange(0, n as int) =~= actions@);
    assert(actions_of(out@) =~= actions@);
    proof {
        lemma_diff_converges(start, target, actions@);
    }
    out
}

/// The receive step of the adapter `identity`: an envelope that it published itself is
/// discarded; any other is applied to `canonical`. Returns whether it was applied.
pub fn accept(identity: SourceTag, canonical: &mut Workspace, envelope: ActionEnvelope) -> (r: bool)
    ensures
        r == (envelope.source != identity),
        r ==> final(canonical).urls() == apply_to(old(canonical).urls(), envelope.action),
        !r ==> *final(canonical) == *old(canonical),
{
    if envelope.source == identity {
        false
    } else {
        canonical.apply_action(envelope.action);
        true
    }
}

/// A message received on the socket, as an envelope to publish: `None`, so that nothing
/// is applied or published, when it is not a recognized action.
pub fn socket_inbound(message: &JsonValue) -> (r: Option<ActionEnvelope>)
    ensures
        match action_of_json(*message) {
            Some(a) => r == Some((ActionEnvelope { source: SourceTag::Socket, action: a })),
            None => r is None,
        },
{
    match WorkspaceAction::from_json(message) {
        Some(a) => Some(ActionEnvelope::new(SourceTag::Socket, a)),
        None => None,
    }
}

} // verus!
