//! What a run of a plan keeps to: which phases it enters, what it deletes in them,
//! what it waits for, and when it goes on.

use vstd::prelude::*;
use vstd::string::*;

use crate::executor::defer::any_same_slot;
use crate::executor::deletion::is_subscription;
use crate::executor::phases::{
    actions_settled, authority_for, awaited, counting, deletes_begun, deletes_controller,
    finalizer_counts, kept_by, loop_begun, not_recreated, phase_done, recreations, redeleting,
    review_objection, review_objections, reviewed_by, reviews, run_next, unnamed_subscriptions,
    waves_begun, ReviewCheck, RunEvent, RunStage, RunView, WaveResultView,
};
use crate::executor::result::{FinalizerCheckResult, LiveCount, ResultView};
use crate::executor::waves::{lemma_without, without};
use crate::journal::PreservedView;
use crate::lists::{ids, lemma_contains_add, lemma_pick_members, pick};
use crate::plan::metadata_view;
use crate::planner::{
    all_actions, law_all_actions_of_the_plan, law_objects_of_actions, objects_of, Action,
    ActionKind, PlanPhase, TeardownPlan,
};
use crate::resource::{same_object, same_slot, ResourceIdView};
use crate::text::decimal;
use crate::watch::WatchWaitResult;

verus! {

proof fn lemma_awaited(actions: Seq<Action>)
    ensures
        forall|k: int|
            0 <= k < actions.len() ==> (#[trigger] actions[k] matches Action::ExpectGone {
                resource,
                ..
            } ==> awaited(actions).contains(resource@)),
        forall|k: int|
            0 <= k < actions.len() ==> (#[trigger] actions[k] matches Action::WaitGone {
                resource,
            } ==> awaited(actions).contains(resource@)),
        forall|t: ResourceIdView| #[trigger]
            awaited(actions).contains(t) ==> exists|k: int|
                0 <= k < actions.len() && ((#[trigger] actions[k] matches Action::ExpectGone {
                    resource,
                    ..
                } && resource@ == t) || (actions[k] matches Action::WaitGone { resource }
                    && resource@ == t)),
{
    let f = |a: Action|
        match a {
            Action::ExpectGone { resource, .. } => Some(resource@),
            Action::WaitGone { resource } => Some(resource@),
            _ => None,
        };
    lemma_pick_members(actions, f);
    assert forall|k: int| 0 <= k < actions.len() implies (#[trigger] actions[k] matches Action::ExpectGone {
        resource,
        ..
    } ==> awaited(actions).contains(resource@)) by {
        if let Action::ExpectGone { resource, .. } = actions[k] {
            assert(f(actions[k]) == Some(resource@));
        }
    }
    assert forall|k: int| 0 <= k < actions.len() implies (#[trigger] actions[k] matches Action::WaitGone {
        resource,
    } ==> awaited(actions).contains(resource@)) by {
        if let Action::WaitGone { resource } = actions[k] {
            assert(f(actions[k]) == Some(resource@));
        }
    }
    assert forall|t: ResourceIdView| #[trigger] awaited(actions).contains(t) implies exists|k: int|
        0 <= k < actions.len() && ((#[trigger] actions[k] matches Action::ExpectGone {
            resource,
            ..
        } && resource@ == t) || (actions[k] matches Action::WaitGone { resource } && resource@
            == t)) by {
        let k = choose|k: int| 0 <= k < actions.len() && f(#[trigger] actions[k]) == Some(t);
        assert(f(actions[k]) == Some(t));
    }
}

/// A run that is no dry run, in a phase with a barrier, waits for every object that
/// the phase expects to go and for every object that it is to wait for, as well as
/// for everything whose DELETE was taken: with any of these it stands at the barrier
/// of that very phase. It waits for nothing else.
pub proof fn law_settled_phase_waits_for_all(v: RunView, phase: PlanPhase)
    requires
        !v.dry_run,
        phase.barrier is Some,
    ensures
        ({
            let w = actions_settled(v, phase);
            &&& forall|k: int|
                0 <= k < phase.actions@.len() ==> (#[trigger] phase.actions@[k] matches Action::ExpectGone {
                    resource,
                    ..
                } ==> w.wait_targets.contains(resource@) && w.stage is Barrier && w.phase
                    == v.phase)
            &&& forall|k: int|
                0 <= k < phase.actions@.len() ==> (#[trigger] phase.actions@[k] matches Action::WaitGone {
                    resource,
                } ==> w.wait_targets.contains(resource@) && w.stage is Barrier && w.phase
                    == v.phase)
            &&& forall|t: ResourceIdView| #[trigger]
                v.wait_targets.contains(t) ==> w.wait_targets.contains(t) && w.stage is Barrier
                    && w.phase == v.phase
            &&& forall|t: ResourceIdView| #[trigger]
                w.wait_targets.contains(t) ==> v.wait_targets.contains(t) || exists|k: int|
                    0 <= k < phase.actions@.len() && ((
                    #[trigger] phase.actions@[k] matches Action::ExpectGone { resource, .. }
                        && resource@ == t) || (phase.actions@[k] matches Action::WaitGone {
                        resource,
                    } && resource@ == t))
        }),
{
    let w = actions_settled(v, phase);
    let own = awaited(phase.actions@);
    let all = v.wait_targets + own;
    lemma_awaited(phase.actions@);
    assert forall|t: ResourceIdView|
        #![trigger own.contains(t)]
        #![trigger v.wait_targets.contains(t)]
        own.contains(t) || v.wait_targets.contains(t) implies all.contains(t) && w.stage is Barrier
        && w.wait_targets == all by {
        lemma_contains_add(v.wait_targets, own, t);
        let k = choose|k: int| 0 <= k < all.len() && all[k] == t;
        assert(all.len() > 0);
    }
    assert forall|t: ResourceIdView| #[trigger] w.wait_targets.contains(t) implies v.wait_targets.contains(
        t,
    ) || own.contains(t) by {
        if w.stage is Barrier {
            lemma_contains_add(v.wait_targets, own, t);
        }
    }
    assert forall|k: int| 0 <= k < phase.actions@.len() implies (#[trigger] phase.actions@[k] matches Action::ExpectGone {
        resource,
        ..
    } ==> w.wait_targets.contains(resource@) && w.stage is Barrier && w.phase == v.phase) by {
        if let Action::ExpectGone { resource, .. } = phase.actions@[k] {
            assert(own.contains(resource@));
        }
    }
    assert forall|k: int| 0 <= k < phase.actions@.len() implies (#[trigger] phase.actions@[k] matches Action::WaitGone {
        resource,
    } ==> w.wait_targets.contains(resource@) && w.stage is Barrier && w.phase == v.phase) by {
        if let Action::WaitGone { resource } = phase.actions@[k] {
            assert(own.contains(resource@));
        }
    }
}

/// In a phase with a barrier, a run goes from the DELETEs to the barrier, and not
/// to another phase, wherever the phase expects an object to go or is to wait for
/// one, or a DELETE was taken. Everything of that kind is then waited for.
pub proof fn law_waves_lead_to_the_barrier(
    v: RunView,
    plan: TeardownPlan,
    r: WaveResultView,
    k: int,
)
    requires
        v.stage is Waves,
        !v.dry_run,
        !r.stopped,
        v.phase < plan.phases@.len(),
        plan.phases@[v.phase as int].barrier is Some,
        ({
            let actions = plan.phases@[v.phase as int].actions@;
            r.accepted_gone.len() > 0 || (0 <= k < actions.len() && (actions[k] is ExpectGone
                || actions[k] is WaitGone))
        }),
    ensures
        ({
            let actions = plan.phases@[v.phase as int].actions@;
            let n = run_next(v, plan, RunEvent::WavesDone(r));
            &&& n.stage is Barrier
            &&& n.phase == v.phase
            &&& n.result.phases_completed == v.result.phases_completed
            &&& forall|i: int|
                0 <= i < r.accepted_gone.len() ==> n.wait_targets.contains(
                    #[trigger] r.accepted_gone[i],
                )
            &&& forall|i: int|
                0 <= i < actions.len() ==> (#[trigger] actions[i] matches Action::ExpectGone {
                    resource,
                    ..
                } ==> n.wait_targets.contains(resource@))
            &&& forall|i: int|
                0 <= i < actions.len() ==> (#[trigger] actions[i] matches Action::WaitGone {
                    resource,
                } ==> n.wait_targets.contains(resource@))
        }),
{
    let phase = plan.phases@[v.phase as int];
    let n = run_next(v, plan, RunEvent::WavesDone(r));
    let w = RunView {
        writes: crate::executor::phases::no_writes(),
        wait_targets: v.wait_targets + r.accepted_gone,
        authorities: r.authorities,
        result: ResultView {
            deleted: v.result.deleted + r.accepted_gone,
            already_gone: v.result.already_gone + r.already_gone,
            failed: v.result.failed + r.failed,
            ..v.result
        },
        ..v
    };
    assert(n == actions_settled(w, phase));
    law_settled_phase_waits_for_all(w, phase);
    assert forall|i: int| 0 <= i < r.accepted_gone.len() implies w.wait_targets.contains(
        #[trigger] r.accepted_gone[i],
    ) by {
        assert(w.wait_targets[v.wait_targets.len() + i] == r.accepted_gone[i]);
    }
    if r.accepted_gone.len() > 0 {
        assert(w.wait_targets.contains(r.accepted_gone[0]));
    } else if phase.actions@[k] is ExpectGone {
        assert(n.stage is Barrier);
    } else {
        assert(phase.actions@[k] is WaitGone);
    }
}

/// A phase without DELETEs that expects an object to go, or is to wait for one,
/// stands at its barrier as soon as it is entered.
pub proof fn law_entry_leads_to_the_barrier(v: RunView, plan: TeardownPlan, k: int)
    requires
        v.stage is Enter,
        !v.dry_run,
        v.start_phase <= v.phase < plan.phases@.len(),
        plan.phases@[v.phase as int].barrier is Some,
        forall|i: int|
            0 <= i < plan.phases@[v.phase as int].actions@.len() ==> !(
            #[trigger] plan.phases@[v.phase as int].actions@[i] is Delete),
        0 <= k < plan.phases@[v.phase as int].actions@.len(),
        plan.phases@[v.phase as int].actions@[k] is ExpectGone
            || plan.phases@[v.phase as int].actions@[k] is WaitGone,
    ensures
        ({
            let n = run_next(v, plan, RunEvent::Entered { gate_open: true });
            &&& n.stage is Barrier
            &&& n.phase == v.phase
            &&& plan.phases@[v.phase as int].actions@[k] matches Action::ExpectGone {
                resource,
                ..
            } ==> n.wait_targets.contains(resource@)
            &&& plan.phases@[v.phase as int].actions@[k] matches Action::WaitGone { resource }
                ==> n.wait_targets.contains(resource@)
        }),
{
    let phase = plan.phases@[v.phase as int];
    let actions = phase.actions@;
    let w = RunView { writes: crate::executor::phases::no_writes(), ..v };
    let deletes = objects_of(actions, ActionKind::Delete);
    law_objects_of_actions(actions, k);
    if deletes.len() > 0 {
        assert(deletes.contains(deletes[0]));
        let j = choose|j: int|
            0 <= j < actions.len() && (#[trigger] actions[j] matches Action::Delete {
                resource,
                ..
            } && resource@ == deletes[0]);
        assert(actions[j] is Delete);
    }
    assert(!deletes_controller(phase));
    law_settled_phase_waits_for_all(w, phase);
    assert(run_next(v, plan, RunEvent::Entered { gate_open: true }) == actions_settled(w, phase));
}

/// The stages in which a run waits at a barrier, or deals with what a wait left.
pub open spec fn at_barrier(stage: RunStage) -> bool {
    ||| stage is Barrier
    ||| stage is Recover
    ||| stage is WaitRecovered
    ||| stage is Defer
    ||| stage is Redelete
    ||| stage is Rewait
    ||| stage is LoopRecover
    ||| stage is LoopWaitRecovered
    ||| stage is LoopDefer
    ||| stage is FinalWait
    ||| stage is FinalDefer
}

/// From a barrier, no later phase is entered before a wait said that all are gone.
/// There are two exceptions. What remains may be left to the audit, where that was
/// found to be allowed. And once recreated objects were deleted again three times
/// in this phase, those that are recreated still are no longer waited for: the
/// phase is left where each object that it waited for was recreated.
pub proof fn law_barrier_holds_the_next_phase(v: RunView, plan: TeardownPlan, e: RunEvent)
    requires
        at_barrier(v.stage),
    ensures
        ({
            let n = run_next(v, plan, e);
            n.phase != v.phase || n.stage is Enter ==> {
                ||| e matches RunEvent::Waited(result, _) && result is AllGone
                ||| e matches RunEvent::Deferred(allowed) && allowed
                ||| e matches RunEvent::Waited(result, _)
                    && result matches WatchWaitResult::Recreated { recreated, .. }
                    && v.iterations >= 3 && (forall|t: ResourceIdView| #[trigger]
                    v.wait_targets.contains(t) ==> exists|i: int|
                        0 <= i < recreated@.len() && (#[trigger] recreated@[i]).0.group@ == t.group
                            && recreated@[i].0.kind@ == t.kind && recreated@[i].0@.namespace
                            == t.namespace && recreated@[i].0.name@ == t.name)
            }
        }),
        ({
            let n = run_next(v, plan, e);
            v.stage is Barrier && (n.phase != v.phase || n.stage is Enter)
                ==> (e matches RunEvent::Waited(result, _) && result is AllGone)
        }),
{
    let w = RunView { writes: crate::executor::phases::no_writes(), ..v };
    match e {
        RunEvent::Waited(WatchWaitResult::Recreated { recreated, .. }, _) => {
            let list = recreations(recreated@);
            lemma_loop(w, list);
            lemma_loop(RunView { iterations: 0, ..w }, list);
            assert forall|t: ResourceIdView, i: int|
                0 <= i < list.len() && #[trigger] same_slot(list[i].0, t) implies exists|j: int|
                0 <= j < recreated@.len() && (#[trigger] recreated@[j]).0.group@ == t.group
                    && recreated@[j].0.kind@ == t.kind && recreated@[j].0@.namespace == t.namespace
                    && recreated@[j].0.name@ == t.name by {
                assert(recreated@[i].0@ == list[i].0);
            }
        },
        RunEvent::Redeleted { .. } => {
            lemma_redeleting(w, v.next + 1);
        },
        _ => {},
    }
}

proof fn lemma_redeleting(v: RunView, i: nat)
    ensures
        ({
            let n = redeleting(v, i);
            &&& n.phase == v.phase
            &&& n.stage is Rewait || n.stage is Redelete
            &&& n.result == v.result
            &&& n.wait_targets == v.wait_targets
            &&& n.stage is Redelete ==> i <= n.next < v.recreated.len() && authority_for(
                v.authorities,
                v.recreated[n.next as int].0,
                0,
            ) is Some
            &&& forall|k: int|
                i <= k < (if n.stage is Redelete {
                    n.next as int
                } else {
                    v.recreated.len() as int
                }) ==> authority_for(v.authorities, (#[trigger] v.recreated[k]).0, 0) is None
        }),
    decreases v.recreated.len() - i,
{
    if i < v.recreated.len() && authority_for(v.authorities, v.recreated[i as int].0, 0) is None {
        lemma_redeleting(v, i + 1);
    }
}

proof fn lemma_not_recreated(
    targets: Seq<ResourceIdView>,
    recreated: Seq<(ResourceIdView, Seq<char>, Seq<char>)>,
)
    ensures
        forall|t: ResourceIdView| #[trigger]
            not_recreated(targets, recreated).contains(t) <==> targets.contains(t) && !exists|
                i: int,
            |
                0 <= i < recreated.len() && #[trigger] same_slot(recreated[i].0, t),
{
    let slots = recreated.map_values(|x: (ResourceIdView, Seq<char>, Seq<char>)| x.0);
    let f = |t: ResourceIdView|
        if any_same_slot(slots, t) {
            None
        } else {
            Some(t)
        };
    lemma_pick_members(targets, f);
    let out = not_recreated(targets, recreated);
    assert forall|t: ResourceIdView|
        any_same_slot(slots, t) == (exists|i: int|
            0 <= i < recreated.len() && #[trigger] same_slot(recreated[i].0, t)) by {
        if any_same_slot(slots, t) {
            let i = choose|i: int| 0 <= i < slots.len() && same_slot(#[trigger] slots[i], t);
            assert(same_slot(recreated[i].0, t));
        }
        if exists|i: int| 0 <= i < recreated.len() && #[trigger] same_slot(recreated[i].0, t) {
            let i = choose|i: int|
                0 <= i < recreated.len() && #[trigger] same_slot(recreated[i].0, t);
            assert(same_slot(slots[i], t));
        }
    }
    assert forall|t: ResourceIdView| #[trigger] out.contains(t) <==> targets.contains(t)
        && !any_same_slot(slots, t) by {
        if out.contains(t) {
            let i = choose|i: int| 0 <= i < targets.len() && f(#[trigger] targets[i]) == Some(t);
            assert(targets[i] == t);
        }
        if targets.contains(t) && !any_same_slot(slots, t) {
            let i = choose|i: int| 0 <= i < targets.len() && targets[i] == t;
            assert(f(targets[i]) == Some(t));
        }
    }
}

proof fn lemma_loop(v: RunView, recreated: Seq<(ResourceIdView, Seq<char>, Seq<char>)>)
    ensures
        ({
            let n = loop_begun(v, recreated);
            &&& v.iterations < 3 ==> n.phase == v.phase && (n.stage is Rewait || n.stage
                is Redelete) && n.wait_targets == v.wait_targets
            &&& v.iterations >= 3 && (exists|t: ResourceIdView| #[trigger]
                v.wait_targets.contains(t) && !exists|i: int|
                    0 <= i < recreated.len() && #[trigger] same_slot(recreated[i].0, t))
                ==> n.phase == v.phase && n.stage is FinalWait
        }),
{
    let w = RunView { recreated, iterations: v.iterations + 1, ..v };
    lemma_redeleting(w, 0);
    lemma_not_recreated(v.wait_targets, recreated);
    if exists|t: ResourceIdView| #[trigger]
        v.wait_targets.contains(t) && !exists|i: int|
            0 <= i < recreated.len() && #[trigger] same_slot(recreated[i].0, t) {
        let t = choose|t: ResourceIdView| #[trigger]
            v.wait_targets.contains(t) && !exists|i: int|
                0 <= i < recreated.len() && #[trigger] same_slot(recreated[i].0, t);
        assert(not_recreated(v.wait_targets, recreated).contains(t));
    }
}

/// What a phase keeps and what it leaves for review are reported in full, with
/// their reasons: each such action is there behind what was reported before, in the
/// order of the actions.
pub proof fn law_kept_and_reviewed_are_reported(v: RunView, phase: PlanPhase, k: int)
    requires
        0 <= k < phase.actions@.len(),
    ensures
        ({
            let w = actions_settled(v, phase);
            &&& phase.actions@[k] matches Action::Keep { resource, reason }
                ==> w.result.kept.contains(
                (PreservedView { resource: resource@, reason: reason@, metadata: None }),
            )
            &&& phase.actions@[k] matches Action::Review { resource, reason, metadata }
                ==> w.result.reviewed.contains(
                (PreservedView {
                    resource: resource@,
                    reason: reason@,
                    metadata: metadata_view(metadata),
                }),
            )
            &&& v.result.kept.len() <= w.result.kept.len()
            &&& v.result.reviewed.len() <= w.result.reviewed.len()
            &&& w.result.kept.take(v.result.kept.len() as int) == v.result.kept
            &&& w.result.reviewed.take(v.result.reviewed.len() as int) == v.result.reviewed
            &&& w.result.deleted == v.result.deleted
            &&& w.result.already_gone == v.result.already_gone
            &&& w.result.failed == v.result.failed
            &&& w.result.timeout == v.result.timeout
        }),
{
    let actions = phase.actions@;
    let w = actions_settled(v, phase);
    let f = |a: Action|
        match a {
            Action::Keep { resource, reason } => Some(
                PreservedView { resource: resource@, reason: reason@, metadata: None },
            ),
            _ => None,
        };
    let g = |a: Action|
        match a {
            Action::Review { resource, reason, metadata } => Some(
                PreservedView {
                    resource: resource@,
                    reason: reason@,
                    metadata: metadata_view(metadata),
                },
            ),
            _ => None,
        };
    lemma_pick_members(actions, f);
    lemma_pick_members(actions, g);
    assert(kept_by(actions) == pick(actions, f));
    assert(reviewed_by(actions) == pick(actions, g));
    if let Some(p) = f(actions[k]) {
        lemma_contains_add(v.result.kept, kept_by(actions), p);
    }
    if let Some(p) = g(actions[k]) {
        lemma_contains_add(v.result.reviewed, reviewed_by(actions), p);
    }
    assert(w.result.kept =~= v.result.kept + kept_by(actions));
    assert(w.result.reviewed =~= v.result.reviewed + reviewed_by(actions));
    assert(w.result.kept.take(v.result.kept.len() as int) =~= v.result.kept);
    assert(w.result.reviewed.take(v.result.reviewed.len() as int) =~= v.result.reviewed);
}

/// Nothing is reported as kept or as left for review that the phase does not keep
/// or leave for review.
pub proof fn law_nothing_else_is_reported(v: RunView, phase: PlanPhase, p: PreservedView)
    ensures
        actions_settled(v, phase).result.kept.contains(p) && !v.result.kept.contains(p) ==> exists|
            k: int,
        |
            0 <= k < phase.actions@.len() && (#[trigger] phase.actions@[k] matches Action::Keep {
                resource,
                reason,
            } && p.resource == resource@ && p.reason == reason@ && p.metadata is None),
        actions_settled(v, phase).result.reviewed.contains(p) && !v.result.reviewed.contains(p)
            ==> exists|k: int|
            0 <= k < phase.actions@.len() && (#[trigger] phase.actions@[k] matches Action::Review {
                resource,
                reason,
                metadata,
            } && p.resource == resource@ && p.reason == reason@ && p.metadata == metadata_view(
                metadata,
            )),
{
    let actions = phase.actions@;
    let w = actions_settled(v, phase);
    let f = |a: Action|
        match a {
            Action::Keep { resource, reason } => Some(
                PreservedView { resource: resource@, reason: reason@, metadata: None },
            ),
            _ => None,
        };
    let g = |a: Action|
        match a {
            Action::Review { resource, reason, metadata } => Some(
                PreservedView {
                    resource: resource@,
                    reason: reason@,
                    metadata: metadata_view(metadata),
                },
            ),
            _ => None,
        };
    lemma_pick_members(actions, f);
    lemma_pick_members(actions, g);
    assert(kept_by(actions) == pick(actions, f));
    assert(reviewed_by(actions) == pick(actions, g));
    assert(w.result.kept =~= v.result.kept + kept_by(actions));
    assert(w.result.reviewed =~= v.result.reviewed + reviewed_by(actions));
    lemma_contains_add(v.result.kept, kept_by(actions), p);
    lemma_contains_add(v.result.reviewed, reviewed_by(actions), p);
    if kept_by(actions).contains(p) {
        let k = choose|k: int| 0 <= k < actions.len() && f(#[trigger] actions[k]) == Some(p);
        assert(f(phase.actions@[k]) == Some(p));
    }
    if reviewed_by(actions).contains(p) {
        let k = choose|k: int| 0 <= k < actions.len() && g(#[trigger] actions[k]) == Some(p);
        assert(g(phase.actions@[k]) == Some(p));
    }
}

/// How a run enters. Behind the last phase it is over. A phase that an earlier run
/// completed is passed over, and so is a phase without actions. Where mutations are
/// not permitted, the run is over with nothing done, unless it is a dry run.
pub proof fn law_entry(v: RunView, plan: TeardownPlan, gate_open: bool)
    requires
        v.stage is Enter,
    ensures
        ({
            let n = run_next(v, plan, RunEvent::Entered { gate_open });
            let inside = v.phase < plan.phases@.len();
            let passed = v.phase < v.start_phase;
            let shut = !v.dry_run && !gate_open;
            let empty = plan.phases@[v.phase as int].actions@.len() == 0;
            &&& !inside ==> n.stage is Done && n.phase == v.phase && n.result == v.result
            &&& inside && passed ==> n.stage is Enter && n.phase == v.phase + 1
                && n.result.phases_completed == v.result.phases_completed + 1 && n.result.deleted
                == v.result.deleted && n.result.failed == v.result.failed
            &&& inside && !passed && shut ==> n.stage is Done && n.phase == v.phase && n.result
                == v.result
            &&& inside && !passed && !shut && empty ==> n.stage is Enter && n.phase == v.phase + 1
                && n.result.phases_completed == v.result.phases_completed + 1 && n.result.deleted
                == v.result.deleted && n.result.failed == v.result.failed
        }),
{
}

/// Before a phase in which a ClusterServiceVersion is deleted, everything that any
/// phase of the plan leaves for review is looked at. Nothing is deleted before.
pub proof fn law_reviews_are_checked_before_the_controller_goes(
    v: RunView,
    plan: TeardownPlan,
    k: int,
    p: int,
    i: int,
)
    requires
        v.stage is Enter,
        !v.dry_run,
        v.start_phase <= v.phase < plan.phases@.len(),
        0 <= k < plan.phases@[v.phase as int].actions@.len(),
        plan.phases@[v.phase as int].actions@[k] matches Action::Delete { resource, .. }
            && resource.kind@ == "ClusterServiceVersion"@,
        0 <= p < plan.phases@.len(),
        0 <= i < plan.phases@[p].actions@.len(),
        plan.phases@[p].actions@[i] is Review,
    ensures
        run_next(v, plan, RunEvent::Entered { gate_open: true }).stage is CheckReviews,
        run_next(v, plan, RunEvent::Entered { gate_open: true }).phase == v.phase,
        run_next(v, plan, RunEvent::Entered { gate_open: true }).result == v.result,
        plan.phases@[p].actions@[i] matches Action::Review { resource, .. } ==> reviews(
            plan,
        ).contains(resource@),
{
    let phase = plan.phases@[v.phase as int];
    law_objects_of_actions(phase.actions@, k);
    let deletes = objects_of(phase.actions@, ActionKind::Delete);
    let d = phase.actions@[k]->Delete_resource@;
    let m = choose|m: int| 0 <= m < deletes.len() && deletes[m] == d;
    assert(deletes[m].kind == "ClusterServiceVersion"@);
    law_all_actions_of_the_plan(plan.phases@, p, i);
    let all = all_actions(plan.phases@);
    let at = all_actions(plan.phases@.take(p)).len() + i;
    law_objects_of_actions(all, at);
}

/// A phase in which no ClusterServiceVersion is deleted, or a plan in which nothing
/// is left for review, is not held up by a look at what is left for review.
pub proof fn law_reviews_hold_up_nothing_else(v: RunView, plan: TeardownPlan, gate_open: bool)
    requires
        v.stage is Enter,
        v.phase < plan.phases@.len(),
        ({
            ||| v.dry_run
            ||| forall|k: int|
                0 <= k < plan.phases@[v.phase as int].actions@.len() ==> (
                #[trigger] plan.phases@[v.phase as int].actions@[k] matches Action::Delete {
                    resource,
                    ..
                } ==> resource.kind@ != "ClusterServiceVersion"@)
            ||| forall|i: int|
                0 <= i < all_actions(plan.phases@).len() ==> !(#[trigger] all_actions(
                    plan.phases@,
                )[i] is Review)
        }),
    ensures
        !(run_next(v, plan, RunEvent::Entered { gate_open }).stage is CheckReviews),
{
    let phase = plan.phases@[v.phase as int];
    let actions = phase.actions@;
    let deletes = objects_of(actions, ActionKind::Delete);
    let w = RunView { writes: crate::executor::phases::no_writes(), ..v };
    let all = all_actions(plan.phases@);
    if deletes_controller(phase) {
        let m = choose|m: int|
            0 <= m < deletes.len() && (#[trigger] deletes[m]).kind == "ClusterServiceVersion"@;
        assert(deletes.contains(deletes[m]));
        if actions.len() == 0 {
            assert(actions =~= seq![]);
        } else {
            law_objects_of_actions(actions, 0);
        }
        let k = choose|k: int|
            0 <= k < actions.len() && (#[trigger] actions[k] matches Action::Delete {
                resource,
                ..
            } && resource@ == deletes[m]);
        assert(plan.phases@[v.phase as int].actions@[k] is Delete);
    }
    if reviews(plan).len() > 0 {
        assert(reviews(plan).contains(reviews(plan)[0]));
        if all.len() == 0 {
            assert(all =~= seq![]);
        } else {
            law_objects_of_actions(all, 0);
        }
        let i = choose|i: int|
            0 <= i < all.len() && (#[trigger] all[i] matches Action::Review { resource, .. }
                && resource@ == reviews(plan)[0]);
        assert(all[i] is Review);
    }
    lemma_counting(w, deletes, 0);
    lemma_settled_stage(w, phase);
    lemma_settled_stage(RunView { wait_targets: deletes, ..w }, phase);
}

proof fn lemma_settled_stage(v: RunView, phase: PlanPhase)
    ensures
        ({
            let n = actions_settled(v, phase);
            n.stage is Barrier || n.stage is Done || n.stage is Enter
        }),
{
}

proof fn lemma_counting(v: RunView, deletes: Seq<ResourceIdView>, i: nat)
    ensures
        ({
            let n = counting(v, deletes, i);
            let end = if n.stage is CountLive {
                n.next as int
            } else {
                deletes.len() as int
            };
            &&& n.stage is CountLive || n == waves_begun(v, deletes)
            &&& n.stage is CountLive ==> i <= n.next < deletes.len() && (
            deletes[n.next as int].kind == "CustomResourceDefinition"@
                || deletes[n.next as int].kind == "APIService"@) && n.blocked == v.blocked
                && n.result == v.result && n.phase == v.phase
            &&& forall|j: int|
                i <= j < end ==> (#[trigger] deletes[j]).kind != "CustomResourceDefinition"@
                    && deletes[j].kind != "APIService"@
        }),
    decreases deletes.len() - i,
{
    if i < deletes.len() && !crate::executor::phases::needs_count(deletes[i as int]) {
        lemma_counting(v, deletes, i + 1);
    }
}

/// Before the waves of a phase, each CustomResourceDefinition and each APIService
/// that it deletes is counted for, one after the other; objects of other kinds are
/// not. The waves begin when there is none left.
pub proof fn law_types_are_counted_for(v: RunView, deletes: Seq<ResourceIdView>, i: nat)
    ensures
        ({
            let n = counting(v, deletes, i);
            &&& n.stage is CountLive || n.stage is Waves || n.stage is Done
            &&& n.stage is CountLive ==> i <= n.next < deletes.len() && (
            deletes[n.next as int].kind == "CustomResourceDefinition"@
                || deletes[n.next as int].kind == "APIService"@)
            &&& n.stage is CountLive ==> forall|j: int|
                i <= j < n.next ==> (#[trigger] deletes[j]).kind != "CustomResourceDefinition"@
                    && deletes[j].kind != "APIService"@
            &&& !(n.stage is CountLive) ==> forall|j: int|
                i <= j < deletes.len() ==> (#[trigger] deletes[j]).kind
                    != "CustomResourceDefinition"@ && deletes[j].kind != "APIService"@
        }),
{
    lemma_counting(v, deletes, i);
}

/// The waves of a phase delete exactly those objects of its DELETEs that nothing
/// stands against. Where a Subscription of the operator lifecycle manager is among
/// them and nobody has verified its package, the run is over before anything is
/// deleted, and each such Subscription has failed.
pub proof fn law_waves_delete_the_unblocked(
    v: RunView,
    deletes: Seq<ResourceIdView>,
    t: ResourceIdView,
)
    ensures
        ({
            let n = waves_begun(v, deletes);
            let unnamed = v.package is None && exists|i: int|
                0 <= i < deletes.len() && (#[trigger] deletes[i]).kind == "Subscription"@
                    && deletes[i].group == "operators.coreos.com"@ && !v.blocked.contains(
                    deletes[i],
                );
            &&& n.eligible.contains(t) <==> deletes.contains(t) && !v.blocked.contains(t)
            &&& unnamed <==> n.stage is Done
            &&& !unnamed <==> n.stage is Waves
            &&& !unnamed ==> n.result == v.result
            &&& n.phase == v.phase
            &&& n.blocked == v.blocked
            &&& unnamed && deletes.contains(t) && !v.blocked.contains(t) && t.kind
                == "Subscription"@ && t.group == "operators.coreos.com"@ ==> exists|j: int|
                0 <= j < n.result.failed.len() && (#[trigger] n.result.failed[j]).0 == t
            &&& n.result.deleted == v.result.deleted
        }),
    decreases deletes.len(),
{
    let n = waves_begun(v, deletes);
    let eligible = without(deletes, v.blocked);
    let unnamed = unnamed_subscriptions(eligible);
    let f = |r: ResourceIdView|
        if is_subscription(r) {
            Some(
                (
                    r,
                    "cannot DELETE Subscription without verified package name (generation_identity is Unverifiable)"@,
                ),
            )
        } else {
            None
        };
    lemma_without(deletes, v.blocked, t);
    lemma_pick_members(eligible, f);
    if exists|i: int|
        0 <= i < deletes.len() && (#[trigger] deletes[i]).kind == "Subscription"@
            && deletes[i].group == "operators.coreos.com"@ && !v.blocked.contains(deletes[i]) {
        let i = choose|i: int|
            0 <= i < deletes.len() && (#[trigger] deletes[i]).kind == "Subscription"@
                && deletes[i].group == "operators.coreos.com"@ && !v.blocked.contains(deletes[i]);
        lemma_without(deletes, v.blocked, deletes[i]);
        assert(deletes.contains(deletes[i]));
        let k = choose|k: int| 0 <= k < eligible.len() && eligible[k] == deletes[i];
        assert(f(eligible[k]) is Some);
        assert(unnamed.contains(f(eligible[k])->0));
        assert(unnamed.len() > 0);
    }
    if unnamed.len() > 0 {
        assert(unnamed.contains(unnamed[0]));
        let k = choose|k: int|
            0 <= k < eligible.len() && f(#[trigger] eligible[k]) == Some(unnamed[0]);
        let s = eligible[k];
        assert(eligible.contains(s));
        lemma_without(deletes, v.blocked, s);
        let i = choose|i: int| 0 <= i < deletes.len() && deletes[i] == s;
        assert(deletes[i].kind == "Subscription"@);
    }
    if n.stage is Done && deletes.contains(t) && !v.blocked.contains(t) && t.kind
        == "Subscription"@ && t.group == "operators.coreos.com"@ {
        let k = choose|k: int| 0 <= k < eligible.len() && eligible[k] == t;
        assert(f(eligible[k]) is Some);
        assert(unnamed.contains(f(eligible[k])->0));
        let m = choose|m: int| 0 <= m < unnamed.len() && unnamed[m] == f(eligible[k])->0;
        assert(n.result.failed[v.result.failed.len() + m] == unnamed[m]);
    }
}

/// A type with no objects does not stand in its own way. One with objects, or one
/// whose objects nobody could count, is blocked and has failed, with the number of
/// its objects or the error as the reason; then the next type is counted for.
pub proof fn law_count_decides(v: RunView, plan: TeardownPlan, count: LiveCount)
    requires
        v.stage is CountLive,
    ensures
        ({
            let deletes = objects_of(plan.phases@[v.phase as int].actions@, ActionKind::Delete);
            let t = deletes[v.next as int];
            let n = run_next(v, plan, RunEvent::LiveCounted(count));
            let open = RunView { writes: crate::executor::phases::no_writes(), ..v };
            &&& count is Zero ==> n == counting(open, deletes, v.next + 1)
            &&& !(count is Zero) ==> {
                let why = if count is NonZero {
                    decimal(count->NonZero_0 as nat) + " live instances remain"@
                } else {
                    "cannot verify: "@ + count->Unknown_0@
                };
                let shut = RunView {
                    blocked: v.blocked.push(t),
                    result: ResultView {
                        failed: v.result.failed.push((t, why)),
                        ..v.result
                    },
                    ..open
                };
                n == counting(shut, deletes, v.next + 1)
            }
            &&& n.phase == v.phase
            &&& n.result.deleted == v.result.deleted
        }),
{
    let deletes = objects_of(plan.phases@[v.phase as int].actions@, ActionKind::Delete);
    let w = RunView { writes: crate::executor::phases::no_writes(), ..v };
    lemma_counting(w, deletes, v.next + 1);
    let t = deletes[v.next as int];
    match crate::executor::phases::count_objection(count) {
        Some(why) => {
            let x = RunView {
                blocked: v.blocked.push(t),
                result: ResultView { failed: v.result.failed.push((t, why)), ..v.result },
                ..w
            };
            lemma_counting(x, deletes, v.next + 1);
        },
        None => {},
    }
}

/// What is left for review stands against deleting the controller where it is on
/// its way out with a finalizer, or where its finalizers could not be read. Then the
/// run is over, in the same phase and with nothing deleted, and reports a timeout
/// that names each such object. Objects that are gone, are not on their way out or
/// have no finalizers stand against nothing: the DELETEs of the phase begin.
pub proof fn law_review_check_decides(v: RunView, plan: TeardownPlan, checks: Seq<ReviewCheck>)
    requires
        v.stage is CheckReviews,
    ensures
        ({
            let n = run_next(v, plan, RunEvent::ReviewsChecked(checks));
            let against = |c: ReviewCheck|
                {
                    ||| c.1 is Unknown
                    ||| c.1 matches FinalizerCheckResult::Known { finalizers, terminating }
                        && terminating && finalizers@.len() > 0
                };
            let stopped = exists|i: int| 0 <= i < checks.len() && against(#[trigger] checks[i]);
            &&& stopped ==> n.stage is Done && n.phase == v.phase && n.result.deleted
                == v.result.deleted && n.result.phases_completed == v.result.phases_completed
                && n.writes.timeout && n.result.timeout is Some
            &&& stopped ==> forall|i: int|
                0 <= i < checks.len() && against(#[trigger] checks[i])
                    ==> n.result.timeout->0.remaining.contains(checks[i].0@)
            &&& stopped ==> forall|t: ResourceIdView| #[trigger]
                n.result.timeout->0.remaining.contains(t) ==> exists|i: int|
                    0 <= i < checks.len() && against(#[trigger] checks[i]) && checks[i].0@ == t
            &&& !stopped ==> n == deletes_begun(
                RunView { writes: crate::executor::phases::no_writes(), ..v },
                plan.phases@[v.phase as int],
            )
        }),
{
    let n = run_next(v, plan, RunEvent::ReviewsChecked(checks));
    let against = |c: ReviewCheck|
        {
            ||| c.1 is Unknown
            ||| c.1 matches FinalizerCheckResult::Known { finalizers, terminating } && terminating
                && finalizers@.len() > 0
        };
    let f = |c: ReviewCheck| review_objection(c);
    let objections = review_objections(checks);
    lemma_pick_members(checks, f);
    assert(forall|c: ReviewCheck| #[trigger] against(c) == (review_objection(c) is Some));
    let names = objections.map_values(|x: (ResourceIdView, Seq<Seq<char>>)| x.0);
    assert forall|i: int| 0 <= i < checks.len() && against(#[trigger] checks[i]) implies names.contains(
        checks[i].0@,
    ) by {
        assert(f(checks[i]) is Some);
        let x = f(checks[i])->0;
        let k = choose|k: int| 0 <= k < objections.len() && objections[k] == x;
        assert(names[k] == checks[i].0@);
    }
    assert forall|t: ResourceIdView| #[trigger] names.contains(t) implies exists|i: int|
        0 <= i < checks.len() && against(#[trigger] checks[i]) && checks[i].0@ == t by {
        let k = choose|k: int| 0 <= k < names.len() && names[k] == t;
        assert(objections.contains(objections[k]));
        let i = choose|i: int|
            0 <= i < checks.len() && f(#[trigger] checks[i]) == Some(objections[k]);
        assert(against(checks[i]));
    }
    if exists|i: int| 0 <= i < checks.len() && against(#[trigger] checks[i]) {
        let i = choose|i: int| 0 <= i < checks.len() && against(#[trigger] checks[i]);
        assert(names.contains(checks[i].0@));
        assert(objections.len() > 0);
    } else if objections.len() > 0 {
        assert(names[0] == objections[0].0);
        assert(names.contains(names[0]));
    }
}

/// What the waves report is booked: objects whose DELETE was taken and that went,
/// objects that were gone already, and failures, each behind what is there. Waves
/// that were stopped end the run in the phase that it is in.
pub proof fn law_waves_are_booked(v: RunView, plan: TeardownPlan, r: WaveResultView)
    requires
        v.stage is Waves,
    ensures
        ({
            let n = run_next(v, plan, RunEvent::WavesDone(r));
            &&& n.result.deleted == v.result.deleted + r.accepted_gone
            &&& n.result.already_gone == v.result.already_gone + r.already_gone
            &&& n.result.failed == v.result.failed + r.failed
            &&& n.result.timeout == v.result.timeout
            &&& r.stopped ==> n.stage is Done && n.phase == v.phase && n.result.kept
                == v.result.kept && n.result.reviewed == v.result.reviewed
            &&& n.stage is Barrier ==> n.authorities == r.authorities && n.wait_targets.len()
                >= v.wait_targets.len() + r.accepted_gone.len()
            &&& n.phase != v.phase ==> n.phase == v.phase + 1 && n.result.phases_completed
                == v.result.phases_completed + 1
        }),
{
}

/// A phase that is done is counted and left, once. After a failure the run is over
/// instead, in that phase and with the phase not counted; a dry run has none.
pub proof fn law_phase_is_left_once(v: RunView)
    ensures
        ({
            let n = phase_done(v);
            let stops = v.result.failed.len() > 0 && !v.dry_run;
            &&& stops ==> n.stage is Done && n.phase == v.phase && n.result == v.result
            &&& !stops ==> n.stage is Enter && n.phase == v.phase + 1 && n.result.phases_completed
                == v.result.phases_completed + 1 && n.wait_targets.len() == 0 && n.blocked.len()
                == 0 && n.eligible.len() == 0 && n.authorities.len() == 0
            &&& n.result.deleted == v.result.deleted
            &&& n.result.failed == v.result.failed
            &&& n.writes.progress
        }),
{
}

/// What follows on the wait at a barrier. Once all are gone the phase is done. A
/// wait that was called off ends the run. What stalled is recovered where that may
/// be, and is otherwise a matter of leaving it to the audit. What was recreated is
/// deleted again, under the authority of the DELETE that was taken.
pub proof fn law_wait_at_the_barrier(
    v: RunView,
    plan: TeardownPlan,
    result: WatchWaitResult,
    may_recover: bool,
)
    requires
        v.stage is Barrier,
    ensures
        ({
            let n = run_next(v, plan, RunEvent::Waited(result, may_recover));
            &&& result is AllGone && v.result.failed.len() == 0 ==> n.stage is Enter && n.phase
                == v.phase + 1 && n.result.phases_completed == v.result.phases_completed + 1
            &&& result is Cancelled ==> n.stage is Done && n.phase == v.phase && n.result
                == v.result
            &&& result matches WatchWaitResult::Stalled { remaining, finalizer_details, .. } ==> {
                &&& may_recover ==> n.stage is Recover
                &&& !may_recover ==> n.stage is Defer
                &&& n.remaining == ids(remaining@)
                &&& n.details == finalizer_counts(finalizer_details@)
                &&& n.result == v.result
                &&& n.phase == v.phase
            }
            &&& result matches WatchWaitResult::Recreated { recreated, .. } ==> {
                &&& n.stage is Redelete || n.stage is Rewait
                &&& n.iterations == 1
                &&& n.recreated == recreations(recreated@)
                &&& n.wait_targets == v.wait_targets
                &&& n.result == v.result
                &&& n.phase == v.phase
            }
        }),
{
    let w = RunView { writes: crate::executor::phases::no_writes(), ..v };
    match result {
        WatchWaitResult::Recreated { recreated, .. } => {
            let x = RunView { recreated: recreations(recreated@), iterations: 1, ..w };
            lemma_redeleting(x, 0);
            lemma_redeleting_carries(x, 0);
        },
        _ => {},
    }
}

proof fn lemma_redeleting_carries(v: RunView, i: nat)
    ensures
        redeleting(v, i).iterations == v.iterations,
        redeleting(v, i).recreated == v.recreated,
        redeleting(v, i).writes == v.writes,
        redeleting(v, i).authorities == v.authorities,
    decreases v.recreated.len() - i,
{
    if i < v.recreated.len() && authority_for(v.authorities, v.recreated[i as int].0, 0) is None {
        lemma_redeleting_carries(v, i + 1);
    }
}

/// What follows on the other waits. Once all are gone the phase is done, and after a
/// further DELETE that is also written down. A wait after a recovery that does not
/// end well is a matter of leaving what remains to the audit. A wait after a further
/// DELETE may be called off, which ends the run; may stall, as at the barrier; or may
/// find objects recreated once more. The last wait stalls or ends the run.
pub proof fn law_later_waits(
    v: RunView,
    plan: TeardownPlan,
    result: WatchWaitResult,
    may_recover: bool,
)
    requires
        v.stage is WaitRecovered || v.stage is Rewait || v.stage is LoopWaitRecovered || v.stage
            is FinalWait,
    ensures
        ({
            let n = run_next(v, plan, RunEvent::Waited(result, may_recover));
            &&& result is AllGone && v.result.failed.len() == 0 ==> n.stage is Enter && n.phase
                == v.phase + 1 && n.result.phases_completed == v.result.phases_completed + 1
            &&& result is AllGone && v.stage is Rewait ==> n.writes.redeletes_gone
            &&& !(v.stage is Rewait && result is AllGone) ==> !n.writes.redeletes_gone
            &&& v.stage is WaitRecovered && !(result is AllGone) ==> n.stage is Defer
            &&& v.stage is Rewait && result is Cancelled ==> n.stage is Done
            &&& v.stage is Rewait && result is Stalled && may_recover ==> n.stage is LoopRecover
            &&& v.stage is Rewait && result is Stalled && !may_recover ==> n.stage is LoopDefer
            &&& v.stage is LoopWaitRecovered && (result is Cancelled || result is Stalled)
                ==> n.stage is LoopDefer
            &&& (v.stage is Rewait || v.stage is LoopWaitRecovered) && result is Recreated
                && v.iterations < 3 ==> (n.stage is Redelete || n.stage is Rewait) && n.iterations
                == v.iterations + 1
            &&& v.stage is FinalWait && result is Stalled ==> n.stage is FinalDefer
            &&& v.stage is FinalWait && (result is Cancelled || result is Recreated) ==> n.stage
                is Done
            &&& v.stage is Rewait || v.stage is FinalWait ==> (
            result matches WatchWaitResult::Stalled { remaining, .. } ==> n.remaining == ids(
                remaining@,
            ))
            &&& !(result is AllGone) && !(n.stage is Enter) ==> n.phase == v.phase
            &&& n.result.deleted == v.result.deleted
            &&& n.result.timeout == v.result.timeout
        }),
{
    let w = RunView { writes: crate::executor::phases::no_writes(), ..v };
    match result {
        WatchWaitResult::Recreated { recreated, .. } => {
            let list = recreations(recreated@);
            let x = RunView { recreated: list, iterations: v.iterations + 1, ..w };
            lemma_redeleting(x, 0);
            lemma_redeleting_carries(x, 0);
        },
        _ => {},
    }
}

/// What follows on a recovery: where finalizers were stripped, what remains is waited
/// for once more; where none were, it is a matter of leaving it to the audit. A
/// recovery that failed fails the run; after a recreation it counts as one that
/// stripped nothing.
pub proof fn law_after_a_recovery(v: RunView, plan: TeardownPlan, count: Option<usize>)
    ensures
        ({
            let n = run_next(v, plan, RunEvent::Recovered(count));
            &&& v.stage is Recover && count is None ==> n.stage is Failed
            &&& v.stage is Recover && count == Some(0usize) ==> n.stage is Defer
            &&& v.stage is Recover && count is Some && count->0 > 0 ==> n.stage is WaitRecovered
            &&& v.stage is LoopRecover && (count is None || count == Some(0usize)) ==> n.stage
                is LoopDefer
            &&& v.stage is LoopRecover && count is Some && count->0 > 0 ==> n.stage
                is LoopWaitRecovered
            &&& n.result == v.result
            &&& n.phase == v.phase
            &&& n.remaining == v.remaining
            &&& n.wait_targets == v.wait_targets
        }),
{
}

/// Where what remains may be left to the audit, the phase is done. Where it may not,
/// the run is over in that phase: with a timeout that names the phase and what
/// remains, except after the last wait.
pub proof fn law_after_a_deferral(v: RunView, plan: TeardownPlan, allowed: bool)
    requires
        v.stage is Defer || v.stage is LoopDefer || v.stage is FinalDefer,
        v.result.failed.len() == 0,
    ensures
        ({
            let n = run_next(v, plan, RunEvent::Deferred(allowed));
            &&& allowed ==> n.stage is Enter && n.phase == v.phase + 1 && n.result.timeout
                == v.result.timeout
            &&& !allowed ==> n.stage is Done && n.phase == v.phase && n.result.phases_completed
                == v.result.phases_completed
            &&& !allowed && !(v.stage is FinalDefer) ==> {
                let t = n.result.timeout->0;
                &&& n.result.timeout is Some
                &&& t.phase == plan.phases@[v.phase as int].name@
                &&& t.remaining == v.remaining
                &&& t.finalizers.len() == v.details.len()
                &&& forall|i: int|
                    0 <= i < v.details.len() ==> (#[trigger] t.finalizers[i]).0 == v.details[i].0
                        && t.finalizers[i].1 == seq![decimal(v.details[i].1) + " finalizer(s)"@]
            }
            &&& !allowed && v.stage is FinalDefer ==> n.result.timeout == v.result.timeout
            &&& n.writes.timeout <==> !allowed && v.stage is Defer
            &&& n.result.deleted == v.result.deleted
        }),
{
}

/// Of the recreated objects, exactly those are deleted again, one after the other,
/// of which a DELETE under their group, version, kind, namespace and name was taken
/// in this phase. When there is none left they are waited for. A further DELETE that
/// stopped ends the run.
pub proof fn law_recreated_objects_are_deleted_again(v: RunView, plan: TeardownPlan, stop: bool)
    requires
        v.stage is Redelete,
    ensures
        ({
            let n = run_next(v, plan, RunEvent::Redeleted { stop });
            let taken = |k: int|
                exists|a: int|
                    0 <= a < v.authorities.len() && (#[trigger] v.authorities[a]).0.group
                        == v.recreated[k].0.group && v.authorities[a].0.version
                        == v.recreated[k].0.version && v.authorities[a].0.kind
                        == v.recreated[k].0.kind && v.authorities[a].0.namespace
                        == v.recreated[k].0.namespace && v.authorities[a].0.name
                        == v.recreated[k].0.name;
            &&& stop ==> n.stage is Done && n.result == v.result && n.phase == v.phase
            &&& !stop ==> n.stage is Redelete || n.stage is Rewait
            &&& !stop && n.stage is Redelete ==> v.next < n.next < v.recreated.len() && taken(
                n.next as int,
            )
            &&& !stop && n.stage is Redelete ==> forall|k: int|
                v.next < k < n.next ==> !#[trigger] taken(k)
            &&& !stop && n.stage is Rewait ==> forall|k: int|
                v.next < k < v.recreated.len() ==> !#[trigger] taken(k)
            &&& n.wait_targets == v.wait_targets
        }),
{
    let w = RunView { writes: crate::executor::phases::no_writes(), ..v };
    lemma_redeleting(w, v.next + 1);
    let n = run_next(v, plan, RunEvent::Redeleted { stop });
    let taken = |k: int|
        exists|a: int|
            0 <= a < v.authorities.len() && (#[trigger] v.authorities[a]).0.group
                == v.recreated[k].0.group && v.authorities[a].0.version
                == v.recreated[k].0.version && v.authorities[a].0.kind == v.recreated[k].0.kind
                && v.authorities[a].0.namespace == v.recreated[k].0.namespace
                && v.authorities[a].0.name == v.recreated[k].0.name;
    assert forall|k: int| #[trigger] taken(k) == (authority_for(
        v.authorities,
        v.recreated[k].0,
        0,
    ) is Some) by {
        lemma_authority(v.authorities, v.recreated[k].0, 0);
    }
    if !stop {
        assert forall|k: int|
            v.next < k < (if n.stage is Redelete {
                n.next as int
            } else {
                v.recreated.len() as int
            }) implies !#[trigger] taken(k) by {
            assert(authority_for(w.authorities, w.recreated[k].0, 0) is None);
        }
    }
}

proof fn lemma_authority(
    authorities: Seq<(ResourceIdView, Seq<char>)>,
    id: ResourceIdView,
    i: nat,
)
    ensures
        authority_for(authorities, id, i) is Some <==> exists|a: int|
            i <= a < authorities.len() && (#[trigger] authorities[a]).0.group == id.group
                && authorities[a].0.version == id.version && authorities[a].0.kind == id.kind
                && authorities[a].0.namespace == id.namespace && authorities[a].0.name == id.name,
        authority_for(authorities, id, i) matches Some(u) ==> exists|a: int|
            i <= a < authorities.len() && same_object((#[trigger] authorities[a]).0, id)
                && authorities[a].1 == u && forall|b: int|
                i <= b < a ==> !same_object((#[trigger] authorities[b]).0, id),
    decreases authorities.len() - i,
{
    if i < authorities.len() {
        if same_object(authorities[i as int].0, id) {
            assert(authorities[i as int].0.group == id.group);
        } else {
            lemma_authority(authorities, id, i + 1);
            if let Some(u) = authority_for(authorities, id, i + 1) {
                let a = choose|a: int|
                    i + 1 <= a < authorities.len() && same_object(
                        (#[trigger] authorities[a]).0,
                        id,
                    ) && authorities[a].1 == u && forall|b: int|
                        i + 1 <= b < a ==> !same_object((#[trigger] authorities[b]).0, id);
                assert(same_object(authorities[a].0, id));
            }
        }
    }
}

/// The authority for a further DELETE is the UID under which the first DELETE of an
/// object with that group, version, kind, namespace and name was taken.
pub proof fn law_authority_is_the_first(
    authorities: Seq<(ResourceIdView, Seq<char>)>,
    id: ResourceIdView,
    a: int,
)
    requires
        0 <= a < authorities.len(),
        authorities[a].0.group == id.group,
        authorities[a].0.version == id.version,
        authorities[a].0.kind == id.kind,
        authorities[a].0.namespace == id.namespace,
        authorities[a].0.name == id.name,
        forall|b: int|
            0 <= b < a ==> {
                ||| (#[trigger] authorities[b]).0.group != id.group
                ||| authorities[b].0.version != id.version
                ||| authorities[b].0.kind != id.kind
                ||| authorities[b].0.namespace != id.namespace
                ||| authorities[b].0.name != id.name
            },
    ensures
        authority_for(authorities, id, 0) == Some(authorities[a].1),
{
    lemma_authority(authorities, id, 0);
    let u = authority_for(authorities, id, 0)->0;
    let c = choose|c: int|
        0 <= c < authorities.len() && same_object((#[trigger] authorities[c]).0, id)
            && authorities[c].1 == u && forall|b: int|
            0 <= b < c ==> !same_object((#[trigger] authorities[b]).0, id);
    assert(same_object(authorities[a].0, id));
    assert(c == a);
}

} // verus!
