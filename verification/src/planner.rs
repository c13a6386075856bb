//! The teardown plan: phases of actions, with what stands against running them.

use vstd::prelude::*;

use crate::graph::Edge;
use crate::lists::{ids, lemma_pick_members, pick, push_id};
use crate::olm::OperatorInstance;
use crate::plan::{ReviewMetadata, SavedDecision};
use crate::resource::{ResourceId, ResourceIdView};

verus! {

/// How grave a failed preflight check is.
#[derive(Debug, Clone, Copy, PartialEq, Eq, Structural)]
pub enum PreflightSeverity {
    Critical,
    Warning,
}

#[derive(Debug, Clone)]
pub struct PreflightCheck {
    pub name: String,
    pub passed: bool,
    pub severity: PreflightSeverity,
}

#[derive(Debug, Clone)]
pub struct Preflight {
    pub checks: Vec<PreflightCheck>,
}

/// What happens to one resource in a phase.
#[derive(Debug, Clone)]
pub enum Action {
    /// Delete the resource.
    Delete { resource: ResourceId, reason: String },
    /// The resource goes by itself once others are gone.
    ExpectGone { resource: ResourceId, reason: String },
    /// Wait until the resource is gone.
    WaitGone { resource: ResourceId },
    /// Leave the resource in place.
    Keep { resource: ResourceId, reason: String },
    /// Leave the resource in place until somebody decides.
    Review { resource: ResourceId, reason: String, metadata: Option<ReviewMetadata> },
}

/// The resource that an action is about.
pub open spec fn subject(a: Action) -> ResourceId {
    match a {
        Action::Delete { resource, .. } => resource,
        Action::ExpectGone { resource, .. } => resource,
        Action::WaitGone { resource } => resource,
        Action::Keep { resource, .. } => resource,
        Action::Review { resource, .. } => resource,
    }
}

/// The resource that an action is about.
pub fn action_resource(action: &Action) -> (r: &ResourceId)
    ensures
        *r == subject(*action),
{
    match action {
        Action::Delete { resource, .. } => resource,
        Action::ExpectGone { resource, .. } => resource,
        Action::WaitGone { resource } => resource,
        Action::Keep { resource, .. } => resource,
        Action::Review { resource, .. } => resource,
    }
}

/// What must be gone before the next phase may begin.
#[derive(Debug, Clone)]
pub struct Barrier {
    pub description: String,
}

#[derive(Debug, Clone)]
pub struct PlanPhase {
    pub name: String,
    pub description: String,
    pub actions: Vec<Action>,
    pub barrier: Option<Barrier>,
}

/// Something outside the plan that stands against it.
#[derive(Debug, Clone)]
pub struct Blocker {
    pub resource: ResourceId,
    pub reason: String,
}

#[derive(Debug, Clone)]
pub struct TeardownPlan {
    pub targets: Vec<OperatorInstance>,
    pub preflight: Preflight,
    pub phases: Vec<PlanPhase>,
    pub blockers: Vec<Blocker>,
    pub warnings: Vec<String>,
    pub snapshot_taken_at: String,
    pub dependency_edges: Vec<Edge>,
    pub operator_inventory: Vec<OperatorInstance>,
    pub explicit_decisions: Vec<SavedDecision>,
}

/// The actions of all phases, in the order of the plan.
pub open spec fn all_actions(phases: Seq<PlanPhase>) -> Seq<Action>
    decreases phases.len(),
{
    if phases.len() == 0 {
        seq![]
    } else {
        all_actions(phases.drop_last()) + phases.last().actions@
    }
}

/// The actions of all phases, in the order of the plan.
pub fn flatten<'a>(phases: &'a Vec<PlanPhase>) -> (r: Vec<&'a Action>)
    ensures
        r@.len() == all_actions(phases@).len(),
        forall|i: int| 0 <= i < r@.len() ==> *(#[trigger] r@[i]) == all_actions(phases@)[i],
{
    let mut out: Vec<&'a Action> = Vec::new();
    for i in 0..phases.len()
        invariant
            out@.len() == all_actions(phases@.take(i as int)).len(),
            forall|k: int|
                0 <= k < out@.len() ==> *(#[trigger] out@[k]) == all_actions(
                    phases@.take(i as int),
                )[k],
    {
        let ghost upto = all_actions(phases@.take(i as int));
        let actions: &'a Vec<Action> = &phases[i].actions;
        let ghost here = actions@;
        for j in 0..actions.len()
            invariant
                here == actions@,
                out@.len() == upto.len() + j,
                forall|k: int|
                    0 <= k < out@.len() ==> *(#[trigger] out@[k]) == (upto + here.take(
                        j as int,
                    ))[k],
        {
            out.push(&actions[j]);
        }
        proof {
            assert(here.take(here.len() as int) =~= here);
            assert(phases@.take(i + 1).drop_last() =~= phases@.take(i as int));
            assert(phases@.take(i + 1).last() == phases@[i as int]);
        }
    }
    assert(phases@.take(phases@.len() as int) =~= phases@);
    out
}

/// The kinds of action that a phase is read for.
#[derive(Debug, Clone, Copy, PartialEq, Eq, Structural)]
pub enum ActionKind {
    Delete,
    ExpectGone,
    Review,
}

/// The action is of the kind `k`.
pub open spec fn is_kind(a: Action, k: ActionKind) -> bool {
    match k {
        ActionKind::Delete => a is Delete,
        ActionKind::ExpectGone => a is ExpectGone,
        ActionKind::Review => a is Review,
    }
}

/// Whether the action is of the kind `k`.
pub fn has_kind(a: &Action, k: ActionKind) -> (r: bool)
    ensures
        r == is_kind(*a, k),
{
    match (a, k) {
        (Action::Delete { .. }, ActionKind::Delete) => true,
        (Action::ExpectGone { .. }, ActionKind::ExpectGone) => true,
        (Action::Review { .. }, ActionKind::Review) => true,
        _ => false,
    }
}

/// The objects of the actions of the kind `k`, in order.
pub open spec fn objects_of(actions: Seq<Action>, k: ActionKind) -> Seq<ResourceIdView> {
    pick(
        actions,
        |a: Action|
            if is_kind(a, k) {
                Some(subject(a)@)
            } else {
                None
            },
    )
}

/// The objects of the actions of the kind `k`, in order.
pub fn collect_objects(actions: &Vec<Action>, k: ActionKind) -> (r: Vec<ResourceId>)
    ensures
        ids(r@) == objects_of(actions@, k),
{
    let mut out: Vec<ResourceId> = Vec::new();
    assert(actions@.take(0) =~= seq![]);
    assert(ids(out@) =~= seq![]);
    for i in 0..actions.len()
        invariant
            ids(out@) == objects_of(actions@.take(i as int), k),
    {
        assert(actions@.take(i + 1).drop_last() =~= actions@.take(i as int));
        if has_kind(&actions[i], k) {
            push_id(&mut out, action_resource(&actions[i]));
        }
    }
    assert(actions@.take(actions@.len() as int) =~= actions@);
    out
}

/// The objects of the actions of the kind `k` in all phases, in order.
pub fn collect_all_objects(phases: &Vec<PlanPhase>, k: ActionKind) -> (r: Vec<ResourceId>)
    ensures
        ids(r@) == objects_of(all_actions(phases@), k),
{
    let actions = flatten(phases);
    let ghost all = all_actions(phases@);
    let mut out: Vec<ResourceId> = Vec::new();
    assert(all.take(0) =~= seq![]);
    assert(ids(out@) =~= seq![]);
    for i in 0..actions.len()
        invariant
            actions@.len() == all.len(),
            forall|j: int| 0 <= j < actions@.len() ==> *(#[trigger] actions@[j]) == all[j],
            ids(out@) == objects_of(all.take(i as int), k),
    {
        assert(all.take(i + 1).drop_last() =~= all.take(i as int));
        assert(all.take(i + 1).last() == *actions@[i as int]);
        if has_kind(actions[i], k) {
            push_id(&mut out, action_resource(actions[i]));
        }
    }
    assert(all.take(all.len() as int) =~= all);
    out
}

/// Every DELETE, every expected departure and every action under review is among
/// the objects of its kind, and nothing else is: each of those objects stands in
/// an action of that very kind.
pub proof fn law_objects_of_actions(actions: Seq<Action>, i: int)
    requires
        0 <= i < actions.len(),
    ensures
        actions[i] matches Action::Delete { resource, .. } ==> objects_of(
            actions,
            ActionKind::Delete,
        ).contains(resource@),
        actions[i] matches Action::ExpectGone { resource, .. } ==> objects_of(
            actions,
            ActionKind::ExpectGone,
        ).contains(resource@),
        actions[i] matches Action::Review { resource, .. } ==> objects_of(
            actions,
            ActionKind::Review,
        ).contains(resource@),
        forall|id: ResourceIdView| #[trigger]
            objects_of(actions, ActionKind::Delete).contains(id) ==> exists|j: int|
                0 <= j < actions.len() && (#[trigger] actions[j] matches Action::Delete {
                    resource,
                    ..
                } && resource@ == id),
        forall|id: ResourceIdView| #[trigger]
            objects_of(actions, ActionKind::ExpectGone).contains(id) ==> exists|j: int|
                0 <= j < actions.len() && (#[trigger] actions[j] matches Action::ExpectGone {
                    resource,
                    ..
                } && resource@ == id),
        forall|id: ResourceIdView| #[trigger]
            objects_of(actions, ActionKind::Review).contains(id) ==> exists|j: int|
                0 <= j < actions.len() && (#[trigger] actions[j] matches Action::Review {
                    resource,
                    ..
                } && resource@ == id),
{
    lemma_objects_of(actions, ActionKind::Delete);
    lemma_objects_of(actions, ActionKind::ExpectGone);
    lemma_objects_of(actions, ActionKind::Review);
}

proof fn lemma_objects_of(actions: Seq<Action>, k: ActionKind)
    ensures
        forall|i: int|
            0 <= i < actions.len() && is_kind(#[trigger] actions[i], k) ==> objects_of(
                actions,
                k,
            ).contains(subject(actions[i])@),
        forall|id: ResourceIdView| #[trigger]
            objects_of(actions, k).contains(id) ==> exists|j: int|
                0 <= j < actions.len() && is_kind(#[trigger] actions[j], k) && subject(actions[j])@
                    == id,
{
    let f = |a: Action|
        if is_kind(a, k) {
            Some(subject(a)@)
        } else {
            None
        };
    lemma_pick_members(actions, f);
    assert forall|i: int| 0 <= i < actions.len() && is_kind(#[trigger] actions[i], k) implies objects_of(
        actions,
        k,
    ).contains(subject(actions[i])@) by {
        assert(f(actions[i]) is Some);
    }
    assert forall|id: ResourceIdView| #[trigger]
        objects_of(actions, k).contains(id) implies exists|j: int|
        0 <= j < actions.len() && is_kind(#[trigger] actions[j], k) && subject(actions[j])@
            == id by {
        let j = choose|j: int| 0 <= j < actions.len() && f(#[trigger] actions[j]) == Some(id);
        assert(is_kind(actions[j], k));
    }
}

/// The objects of a kind come in the order of the actions, once for each action:
/// one more action at the end adds its object at the end, or nothing.
pub proof fn law_objects_keep_order(actions: Seq<Action>, a: Action)
    ensures
        objects_of(actions.push(a), ActionKind::Delete) == match a {
            Action::Delete { resource, .. } => objects_of(actions, ActionKind::Delete).push(
                resource@,
            ),
            _ => objects_of(actions, ActionKind::Delete),
        },
        objects_of(actions.push(a), ActionKind::ExpectGone) == match a {
            Action::ExpectGone { resource, .. } => objects_of(
                actions,
                ActionKind::ExpectGone,
            ).push(resource@),
            _ => objects_of(actions, ActionKind::ExpectGone),
        },
        objects_of(actions.push(a), ActionKind::Review) == match a {
            Action::Review { resource, .. } => objects_of(actions, ActionKind::Review).push(
                resource@,
            ),
            _ => objects_of(actions, ActionKind::Review),
        },
        objects_of(seq![], ActionKind::Delete).len() == 0,
        objects_of(seq![], ActionKind::ExpectGone).len() == 0,
        objects_of(seq![], ActionKind::Review).len() == 0,
{
    assert(actions.push(a).drop_last() =~= actions);
}

/// Every action of every phase is among the actions of the plan, and those of an
/// earlier phase come before those of a later one.
pub proof fn law_all_actions_of_the_plan(phases: Seq<PlanPhase>, p: int, i: int)
    requires
        0 <= p < phases.len(),
        0 <= i < phases[p].actions@.len(),
    ensures
        ({
            let start = all_actions(phases.take(p)).len();
            &&& start + i < all_actions(phases.take(p + 1)).len() <= all_actions(phases).len()
            &&& all_actions(phases)[start + i] == phases[p].actions@[i]
        }),
        all_actions(phases).len() == all_actions(phases.drop_last()).len()
            + phases.last().actions@.len(),
    decreases phases.len(),
{
    if p == phases.len() - 1 {
        assert(phases.take(p) =~= phases.drop_last());
        assert(phases.take(p + 1) =~= phases);
    } else {
        law_all_actions_of_the_plan(phases.drop_last(), p, i);
        assert(phases.drop_last().take(p) =~= phases.take(p));
        assert(phases.drop_last().take(p + 1) =~= phases.take(p + 1));
    }
}

/// An action is about the resource that it names, whatever it does with it.
pub proof fn law_subject_of_an_action(a: Action)
    ensures
        a matches Action::Delete { resource, .. } ==> subject(a) == resource,
        a matches Action::ExpectGone { resource, .. } ==> subject(a) == resource,
        a matches Action::WaitGone { resource } ==> subject(a) == resource,
        a matches Action::Keep { resource, .. } ==> subject(a) == resource,
        a matches Action::Review { resource, .. } ==> subject(a) == resource,
{
}

} // verus!
