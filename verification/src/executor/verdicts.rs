//! When something is deleted again, left behind or stripped of its finalizers, and
//! when a plan is not run at all: each stated over what was read and written down.

use vstd::prelude::*;
use vstd::string::*;

use crate::cluster::{GetReply, RequestError};
use crate::executor::checks::{
    finalizers_read, kind_of_crd, served, service_counts, types_of_service, CountStepView,
    CountView, FinalizerCheckView, GvkEntry,
};
use crate::executor::defer::{
    belongs_to, defer_begins, defer_observes, root_allows, DeferStep,
};
use crate::executor::gates::{failed_checks, unbound_deletes};
use crate::executor::recovery::{
    effective_roots, first_with_uid, orders_strip, owner_snapshots, owners, owners_unchanged,
    patch_ops, patch_outcome, recheck_outcome, recovery_looks, recovery_reads, replaces_one_of,
    snapshots, strip_ops, uid_accepted, PatchOp, PatchOpView, RecoveryRole, RecoverySkip,
    RecoveryStepView, StripOrder,
};
use crate::executor::redelete::{
    attempt_of, redelete_next, redelete_on_get, redelete_outcome, AttemptView, ReDeleteEvent,
    ReDeleteStageView, ReDeleteStepView,
};
use crate::executor::stripping::{
    recovery_next, recoverable, RecoveryEvent, RecoveryStageView, RecoveryView,
};
use crate::journal::records::{
    redelete_taken, was_taken, ReDeleteResultView, ReDeleteView, RecoveryResultView,
};
use crate::lists::{lemma_contains_add, lemma_pick_members, pick};
use crate::planner::{
    all_actions, law_all_actions_of_the_plan, law_objects_of_actions, objects_of, Action,
    ActionKind, PlanPhase, PreflightCheck, PreflightSeverity, TeardownPlan,
};
use crate::resource::{
    label, same_object, same_slot, uid_bound, GroupKindMap, GvkMap, GvrMap, ResourceId,
    ResourceIdView,
};
use crate::text::{law_head_of, lower_text, opt_text, texts};
use crate::watch::ResourceRuntimeState;

verus! {

/// A recreated object may be deleted again exactly where it was found under a UID
/// that is neither empty nor the first one, and is not on its way out already.
/// Where it was not found its endpoint is looked at; where it could not be read, has
/// no UID or is the first object still, the attempt stops.
pub proof fn law_further_delete(original_uid: Seq<char>, reply: GetReply)
    ensures
        ({
            let step = redelete_on_get(original_uid, reply);
            &&& reply matches GetReply::Found(o) ==> {
                let uid = opt_text(o.uid);
                let there = uid is Some && uid->0.len() > 0;
                let another = there && uid->0 != original_uid;
                &&& another && !o.terminating ==> step == (ReDeleteStepView::Authorize {
                    live_uid: uid->0,
                })
                &&& another && o.terminating ==> step == ReDeleteStepView::Done(
                    AttemptView::AlreadyDeleting,
                )
                &&& !another ==> step is Done && step->Done_0 is Stop
            }
            &&& reply matches GetReply::Failed(RequestError::Status { code, .. }) ==> (code == 404
                <==> step is VerifyEndpoint) && (code != 404 ==> step is Done && step->Done_0 is Stop)
            &&& reply matches GetReply::Failed(RequestError::Other { .. }) ==> step is Done && step->Done_0
                is Stop
        }),
{
}

/// What the answer to a further DELETE comes to: taken, where it succeeded; a look at
/// the endpoint on 404; nobody knows, on 500 and above; failed on anything else. Only
/// a DELETE that was taken, or that found the object gone, lets the run go on.
pub proof fn law_answer_to_a_further_delete(reply: Result<(), RequestError>)
    ensures
        ({
            let out = redelete_outcome(reply);
            &&& reply is Ok <==> out == Some(ReDeleteResultView::Accepted)
            &&& reply matches Err(RequestError::Status { code, .. }) ==> {
                &&& code == 404 <==> out is None
                &&& code >= 500 <==> out is Some && out->0 is UnknownOutcome
                &&& code < 500 && code != 404 <==> out is Some && out->0 is Failed
            }
            &&& reply matches Err(RequestError::Other { .. }) ==> out is Some && out->0 is Failed
        }),
        forall|r: ReDeleteResultView| #[trigger]
            attempt_of(r) is Stop <==> r is Failed || r is UnknownOutcome || r is Authorized,
        attempt_of(ReDeleteResultView::Accepted) == AttemptView::Accepted,
        attempt_of(ReDeleteResultView::Gone) == AttemptView::Gone,
{
}

/// The course of a further DELETE: read, permit, record, DELETE, record. Without a
/// permit, or without the record, no DELETE is sent. The object that was not found,
/// with its endpoint there, is gone.
pub proof fn law_course_of_a_further_delete(
    original_uid: Seq<char>,
    uid: Seq<char>,
    result: ReDeleteResultView,
    why: String,
    e: RequestError,
)
    ensures
        redelete_next(
            original_uid,
            ReDeleteStageView::Permit(uid),
            ReDeleteEvent::Permit(true),
        ) == ReDeleteStageView::Record(uid),
        redelete_next(
            original_uid,
            ReDeleteStageView::Permit(uid),
            ReDeleteEvent::Permit(false),
        ) == ReDeleteStageView::Done(AttemptView::Stop("gate closed"@)),
        redelete_next(
            original_uid,
            ReDeleteStageView::Record(uid),
            ReDeleteEvent::Recorded(Ok(())),
        ) == ReDeleteStageView::Delete(uid),
        redelete_next(
            original_uid,
            ReDeleteStageView::Record(uid),
            ReDeleteEvent::Recorded(Err(why)),
        ) == ReDeleteStageView::Done(AttemptView::Stop("journal persist failed: "@ + why@)),
        redelete_next(
            original_uid,
            ReDeleteStageView::Delete(uid),
            ReDeleteEvent::Answered(Ok(())),
        ) == ReDeleteStageView::Settle(uid, ReDeleteResultView::Accepted),
        redelete_next(
            original_uid,
            ReDeleteStageView::DeleteEndpoint(uid),
            ReDeleteEvent::Listed(Ok(())),
        ) == ReDeleteStageView::Settle(uid, ReDeleteResultView::Gone),
        redelete_next(
            original_uid,
            ReDeleteStageView::DeleteEndpoint(uid),
            ReDeleteEvent::Listed(Err(e)),
        ) matches ReDeleteStageView::Settle(u, r) && u == uid && r is UnknownOutcome,
        redelete_next(
            original_uid,
            ReDeleteStageView::Settle(uid, result),
            ReDeleteEvent::Recorded(Ok(())),
        ) == ReDeleteStageView::Done(attempt_of(result)),
        redelete_next(
            original_uid,
            ReDeleteStageView::Settle(uid, result),
            ReDeleteEvent::Recorded(Err(why)),
        ) matches ReDeleteStageView::Done(r) && r is Stop,
        redelete_next(
            original_uid,
            ReDeleteStageView::LookEndpoint,
            ReDeleteEvent::Listed(Ok(())),
        ) == ReDeleteStageView::Done(AttemptView::Gone),
        redelete_next(
            original_uid,
            ReDeleteStageView::LookEndpoint,
            ReDeleteEvent::Listed(Err(e)),
        ) matches ReDeleteStageView::Done(r) && r is Stop,
        redelete_next(
            original_uid,
            ReDeleteStageView::Look,
            ReDeleteEvent::Unresolved,
        ) matches ReDeleteStageView::Done(r) && r is Stop,
{
}

/// The failed checks of a severity are exactly the checks of that severity that did
/// not pass, by name and in their order.
pub proof fn law_failed_checks(
    checks: Seq<PreflightCheck>,
    severity: PreflightSeverity,
    c: PreflightCheck,
)
    ensures
        failed_checks(checks.push(c), severity) == if !c.passed && c.severity == severity {
            failed_checks(checks, severity).push(c.name@)
        } else {
            failed_checks(checks, severity)
        },
        failed_checks(seq![], severity).len() == 0,
{
    assert(checks.push(c).drop_last() =~= checks);
}

/// A plan that deletes an object without a UID, or with an empty one, in any phase is
/// refused, and the refusal names the object; a plan whose DELETEs all carry one is
/// not.
pub proof fn law_every_delete_is_bound(plan: TeardownPlan, p: int, i: int)
    ensures
        0 <= p < plan.phases@.len() && 0 <= i < plan.phases@[p].actions@.len() ==> (
        plan.phases@[p].actions@[i] matches Action::Delete { resource, .. } ==> (resource.uid
            is None || resource.uid->0@.len() == 0) ==> unbound_deletes(plan).contains(
            resource.kind@ + "/"@ + resource.name@,
        )),
        (forall|k: int|
            0 <= k < all_actions(plan.phases@).len() ==> (
            #[trigger] all_actions(plan.phases@)[k] matches Action::Delete { resource, .. }
                ==> resource.uid is Some && resource.uid->0@.len() > 0)) ==> unbound_deletes(
            plan,
        ).len() == 0,
{
    let all = all_actions(plan.phases@);
    let deletes = objects_of(all, ActionKind::Delete);
    let f = |r: ResourceIdView|
        if uid_bound(r) {
            None
        } else {
            Some(label(r))
        };
    lemma_pick_members(deletes, f);
    assert(unbound_deletes(plan) == pick(deletes, f));
    if 0 <= p < plan.phases@.len() && 0 <= i < plan.phases@[p].actions@.len() {
        law_all_actions_of_the_plan(plan.phases@, p, i);
        let at = all_actions(plan.phases@.take(p)).len() + i;
        law_objects_of_actions(all, at);
        if let Action::Delete { resource, .. } = plan.phases@[p].actions@[i] {
            if resource.uid is None || resource.uid->0@.len() == 0 {
                let k = choose|k: int| 0 <= k < deletes.len() && deletes[k] == resource@;
                assert(f(deletes[k]) == Some(label(resource@)));
            }
        }
    }
    if unbound_deletes(plan).len() > 0 {
        let x = unbound_deletes(plan)[0];
        assert(unbound_deletes(plan).contains(x));
        let k = choose|k: int| 0 <= k < deletes.len() && f(#[trigger] deletes[k]) == Some(x);
        assert(deletes.contains(deletes[k]));
        if all.len() == 0 {
            assert(all =~= seq![]);
        } else {
            law_objects_of_actions(all, 0);
        }
        let j = choose|j: int|
            0 <= j < all.len() && (#[trigger] all[j] matches Action::Delete { resource, .. }
                && resource@ == deletes[k]);
        assert(all[j] is Delete);
    }
}

/// What a GET shows of an object: its finalizers and whether it is on its way out,
/// where it was found; nothing yet on 404; that nobody knows, after another failure.
pub proof fn law_finalizers_are_read(reply: GetReply)
    ensures
        reply matches GetReply::Found(o) ==> finalizers_read(reply) == Some(
            FinalizerCheckView::Known { finalizers: texts(o.finalizers@), terminating: o.terminating },
        ),
        reply matches GetReply::Failed(RequestError::Status { code, .. }) ==> (code == 404
            <==> finalizers_read(reply) is None) && (code != 404 <==> finalizers_read(reply) is Some
            && finalizers_read(reply)->0 is Unknown),
        reply matches GetReply::Failed(RequestError::Other { .. }) ==> finalizers_read(reply) is Some
            && finalizers_read(reply)->0 is Unknown,
{
}

/// The kind that a CustomResourceDefinition defines is looked up under its whole name
/// in lower case, and then in the group behind the first dot of the name; a name
/// without a dot is of no kind.
pub proof fn law_kind_of_a_definition(
    plural: Seq<char>,
    group: Seq<char>,
    gvrs: GvrMap,
    kinds: GroupKindMap,
)
    requires
        !plural.contains('.'),
    ensures
        ({
            let crd = plural + seq!['.'] + group;
            let found = kind_of_crd(crd, gvrs, kinds);
            match gvrs.value(lower_text(crd)) {
                None => found is Err && found->Err_0 is Unknown,
                Some(kind) => match kinds.value((group, kind@)) {
                    None => found is Err && found->Err_0 is Unknown,
                    Some(info) => found == Ok::<_, CountView>((kind@, info)),
                },
            }
        }),
        kind_of_crd(plural, gvrs, kinds) is Err,
{
    let crd = plural + seq!['.'] + group;
    lemma_parted(plural, '.', group);
    reveal_strlit(".");
    assert("."@ =~= seq!['.']);
}

proof fn lemma_parted(a: Seq<char>, c: char, b: Seq<char>)
    requires
        !a.contains(c),
    ensures
        crate::text::parted(a + seq![c] + b, c) == Some((a, b)),
        crate::text::parted(a, c) is None,
{
    let s = a + seq![c] + b;
    law_head_of(s, a, c, b);
    law_head_of(a, a, c, b);
    assert(s[a.len() as int] == c);
    assert(s.contains(c));
    assert(s.skip(a.len() as int + 1) =~= b);
}

/// A count over the types that an API service serves is over with the first type that
/// has objects, or that cannot be listed. Where a type has none the next one is
/// listed, and behind the last there are none.
pub proof fn law_count_over_a_service(
    types: Seq<&crate::executor::checks::GvkEntry>,
    at: int,
    n: usize,
    e: RequestError,
)
    requires
        0 <= at < types.len(),
    ensures
        n > 0 ==> service_counts(types, at, Ok(n)) == CountStepView::Counted(
            CountView::NonZero(1),
        ),
        n == 0 && at + 1 < types.len() ==> service_counts(types, at, Ok(n)) == CountStepView::List(
            at + 1,
        ),
        n == 0 && at + 1 == types.len() ==> service_counts(types, at, Ok(n))
            == CountStepView::Counted(CountView::Zero),
        service_counts(types, at, Err(e)) matches CountStepView::Counted(c) && c is Unknown,
{
}

/// An object that remains may be left behind only where the phase deletes an object
/// of its group, kind, namespace and name, whatever the UID, or expects exactly this
/// object to go. Where one that remains is neither, nothing is left behind; where
/// nothing remains, that is fine.
pub proof fn law_what_may_be_left_behind(remaining: Seq<ResourceIdView>, phase: PlanPhase, i: int)
    ensures
        remaining.len() == 0 ==> defer_begins(remaining, phase) == DeferStep::Answer(true),
        0 <= i < remaining.len() && (forall|k: int|
            0 <= k < phase.actions@.len() ==> {
                let r = remaining[i];
                &&& #[trigger] phase.actions@[k] matches Action::Delete { resource, .. } ==> {
                    ||| resource.group@ != r.group
                    ||| resource.kind@ != r.kind
                    ||| resource@.namespace != r.namespace
                    ||| resource.name@ != r.name
                }
                &&& phase.actions@[k] matches Action::ExpectGone { resource, .. } ==> resource@ != r
            }) ==> defer_begins(remaining, phase) == DeferStep::Answer(false),
        remaining.len() > 0 && (forall|j: int|
            0 <= j < remaining.len() ==> exists|k: int|
                0 <= k < phase.actions@.len() && ((
                #[trigger] phase.actions@[k] matches Action::Delete { resource, .. }
                    && resource.group@ == (#[trigger] remaining[j]).group && resource.kind@
                    == remaining[j].kind && resource@.namespace == remaining[j].namespace
                    && resource.name@ == remaining[j].name) || (
                phase.actions@[k] matches Action::ExpectGone { resource, .. } && resource@
                    == remaining[j]))) ==> defer_begins(remaining, phase) == DeferStep::Observe,
{
    let actions = phase.actions@;
    let deletes = objects_of(actions, ActionKind::Delete);
    if actions.len() == 0 {
        assert(actions =~= seq![]);
    } else {
        law_objects_of_actions(actions, 0);
    }
    if 0 <= i < remaining.len() && belongs_to(phase, remaining[i]) {
        let r = remaining[i];
        if objects_of(actions, ActionKind::ExpectGone).contains(r) {
            let j = choose|j: int|
                0 <= j < actions.len() && (#[trigger] actions[j] matches Action::ExpectGone {
                    resource,
                    ..
                } && resource@ == r);
            assert(phase.actions@[j] is ExpectGone);
        } else {
            let d = choose|d: int| 0 <= d < deletes.len() && same_slot(#[trigger] deletes[d], r);
            assert(deletes.contains(deletes[d]));
            let j = choose|j: int|
                0 <= j < actions.len() && (#[trigger] actions[j] matches Action::Delete {
                    resource,
                    ..
                } && resource@ == deletes[d]);
            assert(phase.actions@[j] is Delete);
        }
    }
    if forall|j: int|
        0 <= j < remaining.len() ==> exists|k: int|
            0 <= k < phase.actions@.len() && ((
            #[trigger] phase.actions@[k] matches Action::Delete { resource, .. } && resource.group@
                == (#[trigger] remaining[j]).group && resource.kind@ == remaining[j].kind
                && resource@.namespace == remaining[j].namespace && resource.name@
                == remaining[j].name) || (phase.actions@[k] matches Action::ExpectGone {
                resource,
                ..
            } && resource@ == remaining[j])) {
        assert forall|j: int| 0 <= j < remaining.len() implies belongs_to(
            phase,
            #[trigger] remaining[j],
        ) by {
            let k = choose|k: int|
                0 <= k < actions.len() && ((#[trigger] actions[k] matches Action::Delete {
                    resource,
                    ..
                } && resource.group@ == remaining[j].group && resource.kind@ == remaining[j].kind
                    && resource@.namespace == remaining[j].namespace && resource.name@
                    == remaining[j].name) || (actions[k] matches Action::ExpectGone {
                    resource,
                    ..
                } && resource@ == remaining[j]));
            law_objects_of_actions(actions, k);
            if let Action::Delete { resource, .. } = actions[k] {
                let d = choose|d: int| 0 <= d < deletes.len() && deletes[d] == resource@;
                assert(same_slot(deletes[d], remaining[j]));
            }
        }
    }
}

/// Nothing is left behind where what remains could not be observed, or was found
/// failed or unknown. Otherwise the roots are looked at, from the first on.
pub proof fn law_observation_must_be_certain(
    states: Seq<Option<ResourceRuntimeState>>,
    roots: nat,
    i: int,
)
    ensures
        0 <= i < states.len() && (states[i] is None || states[i]->0 is Unknown || states[i]->0
            is Failed) ==> defer_observes(states, roots) == DeferStep::Answer(false),
        (forall|k: int|
            0 <= k < states.len() ==> (#[trigger] states[k]) is Some && !(states[k]->0 is Unknown)
                && !(states[k]->0 is Failed)) ==> defer_observes(states, roots) == if roots > 0 {
            DeferStep::LookAt(0)
        } else {
            DeferStep::Answer(true)
        },
{
    if 0 <= i < states.len() && (states[i] is None || states[i]->0 is Unknown || states[i]->0
        is Failed) {
        assert(!crate::executor::defer::is_certain(states[i]));
    }
    if forall|k: int|
        0 <= k < states.len() ==> (#[trigger] states[k]) is Some && !(states[k]->0 is Unknown)
            && !(states[k]->0 is Failed) {
        assert forall|k: int| 0 <= k < states.len() implies crate::executor::defer::is_certain(
            #[trigger] states[k],
        ) by {}
    }
}

/// A root lets objects be left behind exactly where it is absent, with 404, and its
/// endpoint is there; or where it is there under another UID than the planned one and
/// a DELETE of that UID in place of the planned one was taken or found it gone.
pub proof fn law_root_lets_objects_be_left(
    root: ResourceIdView,
    reply: Option<GetReply>,
    endpoint_ok: bool,
    records: Seq<ReDeleteView>,
)
    ensures
        reply is None ==> !root_allows(root, reply, endpoint_ok, records),
        reply matches Some(GetReply::Failed(RequestError::Status { code, .. })) ==> (root_allows(
            root,
            reply,
            endpoint_ok,
            records,
        ) <==> code == 404 && endpoint_ok),
        reply matches Some(GetReply::Failed(RequestError::Other { .. })) ==> !root_allows(
            root,
            reply,
            endpoint_ok,
            records,
        ),
        reply matches Some(GetReply::Found(o)) ==> (root.uid is Some ==> (root_allows(
            root,
            reply,
            endpoint_ok,
            records,
        ) <==> o.uid is Some && o.uid->0@ != root.uid->0 && exists|i: int|
            0 <= i < records.len() && (#[trigger] records[i]).identity.group == root.group
                && records[i].identity.version == root.version && records[i].identity.kind
                == root.kind && records[i].identity.namespace == root.namespace
                && records[i].identity.name == root.name && records[i].original_uid == root.uid->0
                && records[i].new_uid == o.uid->0@ && (records[i].result is Accepted
                || records[i].result is Gone))),
{
    if let Some(GetReply::Found(o)) = reply {
        if root.uid is Some && o.uid is Some {
            lemma_redelete_taken(records, root, root.uid->0, o.uid->0@);
        }
    }
}

proof fn lemma_redelete_taken(
    records: Seq<ReDeleteView>,
    id: ResourceIdView,
    original: Seq<char>,
    new: Seq<char>,
)
    ensures
        redelete_taken(records, id, original, new) <==> exists|i: int|
            0 <= i < records.len() && (#[trigger] records[i]).identity.group == id.group
                && records[i].identity.version == id.version && records[i].identity.kind
                == id.kind && records[i].identity.namespace == id.namespace
                && records[i].identity.name == id.name && records[i].original_uid == original
                && records[i].new_uid == new && (records[i].result is Accepted
                || records[i].result is Gone),
{
    if redelete_taken(records, id, original, new) {
        let i = choose|i: int|
            0 <= i < records.len() && crate::journal::records::is_redelete_of(
                #[trigger] records[i],
                id,
                original,
                new,
            ) && was_taken(records[i]);
        assert(records[i].identity.group == id.group);
    }
}

/// The UID of an object that is to be stripped is acceptable exactly where it is the
/// planned one, or where the phase deletes the object and a DELETE of that UID in
/// place of the planned one was taken or found it gone.
pub proof fn law_acceptable_uid(
    role: RecoveryRole,
    id: ResourceIdView,
    live: Seq<char>,
    records: Seq<ReDeleteView>,
)
    requires
        id.uid is Some,
    ensures
        uid_accepted(role, id, live, records) <==> live == id.uid->0 || (role.deleted && exists|
            i: int,
        |
            0 <= i < records.len() && (#[trigger] records[i]).identity.group == id.group
                && records[i].identity.version == id.version && records[i].identity.kind
                == id.kind && records[i].identity.namespace == id.namespace
                && records[i].identity.name == id.name && records[i].original_uid == id.uid->0
                && records[i].new_uid == live && (records[i].result is Accepted
                || records[i].result is Gone)),
{
    lemma_redelete_taken(records, id, id.uid->0, live);
}

/// What the GET of an object that does not go leads to. It is passed over where it is
/// absent, could not be read, has no UID or one that is not acceptable, or is not on
/// its way out. One that the phase deletes, and does not expect to go, may be stripped.
/// One that the phase expects to go must have exactly one owner, and the owner must be
/// an object whose DELETE was taken: that owner is looked at next.
pub proof fn law_object_that_does_not_go(
    role: RecoveryRole,
    id: ResourceIdView,
    roots: Seq<ResourceIdView>,
    records: Seq<ReDeleteView>,
    reply: GetReply,
)
    ensures
        ({
            let step = recovery_reads(role, id, roots, records, reply);
            &&& reply matches GetReply::Failed(e) ==> step is Skip
            &&& reply matches GetReply::Failed(RequestError::Status { code, .. }) ==> (step
                == RecoveryStepView::Skip(RecoverySkip::Absent) <==> code == 404)
            &&& reply matches GetReply::Found(o) ==> {
                let fit = o.uid is Some && uid_accepted(role, id, o.uid->0@, records)
                    && o.terminating;
                let owned = o.owner_references@.len() == 1 && exists|r: int|
                    0 <= r < roots.len() && (#[trigger] roots[r]).uid == Some(
                        o.owner_references@[0].uid@,
                    );
                &&& !fit ==> step is Skip
                &&& fit && !role.expected ==> step is Strip
                &&& fit && role.expected && owned ==> step is LookAtRoot && roots.contains(
                    step->LookAtRoot_0,
                ) && step->LookAtRoot_0.uid == Some(o.owner_references@[0].uid@)
                &&& fit && role.expected && !owned ==> step is Skip
                &&& o.uid is None ==> step == RecoveryStepView::Skip(RecoverySkip::NoLiveUid)
                &&& o.uid is Some && !uid_accepted(role, id, o.uid->0@, records) ==> step
                    == RecoveryStepView::Skip(RecoverySkip::UidChanged)
                &&& o.uid is Some && uid_accepted(role, id, o.uid->0@, records) && !o.terminating
                    ==> step == RecoveryStepView::Skip(RecoverySkip::NotTerminating)
            }
        }),
{
    if let GetReply::Found(o) = reply {
        if o.owner_references@.len() == 1 {
            lemma_first_root(roots, o.owner_references@[0].uid@, 0);
        }
    }
}

proof fn lemma_first_root(roots: Seq<ResourceIdView>, uid: Seq<char>, i: nat)
    ensures
        first_with_uid(roots, uid, i) is Some <==> exists|r: int|
            i <= r < roots.len() && (#[trigger] roots[r]).uid == Some(uid),
        first_with_uid(roots, uid, i) matches Some(x) ==> roots.contains(x) && x.uid == Some(uid),
    decreases roots.len() - i,
{
    if i < roots.len() {
        if roots[i as int].uid == Some(uid) {
            assert(roots.contains(roots[i as int]));
        } else {
            lemma_first_root(roots, uid, i + 1);
        }
    }
}

/// The owner of an object counts as gone where it is there under another UID, or
/// where it is absent, with 404, and its endpoint is there; and only there.
pub proof fn law_owner_that_is_gone(root: ResourceIdView, reply: GetReply)
    ensures
        ({
            let step = recovery_looks(root, reply);
            &&& reply matches GetReply::Failed(RequestError::Status { code, .. }) ==> (code == 404
                <==> step is VerifyRootEndpoint) && (code != 404 <==> step is Skip)
            &&& reply matches GetReply::Failed(RequestError::Other { .. }) ==> step is Skip
            &&& reply matches GetReply::Found(o) ==> (step is Strip <==> o.uid is Some && Some(
                o.uid->0@,
            ) != root.uid)
            &&& reply matches GetReply::Found(o) ==> (!(step is Strip) ==> step is Skip)
        }),
{
}

/// The objects whose DELETE was taken are those that were deleted and, besides, those
/// that took the place of one of them and were deleted again: under the UID of the
/// further DELETE, which was taken or found the object gone. There are no others.
pub proof fn law_roots_of_a_recovery(
    deleted: Seq<ResourceIdView>,
    records: Seq<ReDeleteView>,
    t: ResourceIdView,
)
    ensures
        effective_roots(deleted, records).contains(t) <==> deleted.contains(t) || exists|
            i: int,
            k: int,
        |
            #![trigger records[i], deleted[k]]
            0 <= i < records.len() && 0 <= k < deleted.len() && (records[i].result is Accepted
                || records[i].result is Gone) && deleted[k].group == records[i].identity.group
                && deleted[k].version == records[i].identity.version && deleted[k].kind
                == records[i].identity.kind && deleted[k].namespace
                == records[i].identity.namespace && deleted[k].name == records[i].identity.name
                && deleted[k].uid == Some(records[i].original_uid) && t == (ResourceIdView {
                uid: Some(records[i].new_uid),
                ..records[i].identity
            }),
{
    let f = |r: ReDeleteView|
        if replaces_one_of(deleted, r) {
            Some(ResourceIdView { uid: Some(r.new_uid), ..r.identity })
        } else {
            None
        };
    let more = pick(records, f);
    lemma_pick_members(records, f);
    assert(effective_roots(deleted, records) == deleted + more);
    lemma_contains_add(deleted, more, t);
    if more.contains(t) {
        let i = choose|i: int| 0 <= i < records.len() && f(#[trigger] records[i]) == Some(t);
        assert(replaces_one_of(deleted, records[i]));
        let k = choose|k: int|
            0 <= k < deleted.len() && same_object(#[trigger] deleted[k], records[i].identity)
                && deleted[k].uid == Some(records[i].original_uid);
        assert(deleted[k].group == records[i].identity.group);
    }
    if exists|i: int, k: int|
        #![trigger records[i], deleted[k]]
        0 <= i < records.len() && 0 <= k < deleted.len() && (records[i].result is Accepted
            || records[i].result is Gone) && deleted[k].group == records[i].identity.group
            && deleted[k].version == records[i].identity.version && deleted[k].kind
            == records[i].identity.kind && deleted[k].namespace == records[i].identity.namespace
            && deleted[k].name == records[i].identity.name && deleted[k].uid == Some(
            records[i].original_uid,
        ) && t == (ResourceIdView { uid: Some(records[i].new_uid), ..records[i].identity }) {
        let (i, k) = choose|i: int, k: int|
            #![trigger records[i], deleted[k]]
            0 <= i < records.len() && 0 <= k < deleted.len() && (records[i].result is Accepted
                || records[i].result is Gone) && deleted[k].group == records[i].identity.group
                && deleted[k].version == records[i].identity.version && deleted[k].kind
                == records[i].identity.kind && deleted[k].namespace
                == records[i].identity.namespace && deleted[k].name == records[i].identity.name
                && deleted[k].uid == Some(records[i].original_uid) && t == (ResourceIdView {
                uid: Some(records[i].new_uid),
                ..records[i].identity
            });
        assert(same_object(deleted[k], records[i].identity));
        assert(replaces_one_of(deleted, records[i]));
        assert(f(records[i]) == Some(t));
    }
}

/// The patch tests the UID first and the finalizers as they were read, and clears
/// the finalizers last, after every test. For an object that the phase expects to go
/// it tests the owners as well.
pub proof fn law_patch_tests_before_it_clears(role: RecoveryRole, o: crate::cluster::LiveObject)
    ensures
        ({
            let ops = strip_ops(role, o);
            let n = ops.len() as int;
            &&& ops.last() == PatchOpView::ClearFinalizers
            &&& ops[0] == PatchOpView::TestUid(
                if o.uid is Some {
                    o.uid->0@
                } else {
                    seq![]
                },
            )
            &&& ops[n - 2] == PatchOpView::TestFinalizers(texts(o.finalizers@))
            &&& role.expected ==> n == 4 && ops[1] == PatchOpView::TestOwners(
                owners(o.owner_references@),
            )
            &&& !role.expected ==> n == 3
        }),
{
}

/// A patch that succeeded stripped the finalizers; 409 and 422 mean that it changed
/// nothing; after any other answer the object is read again.
pub proof fn law_answer_to_a_patch(reply: Result<(), RequestError>)
    ensures
        reply is Ok <==> patch_outcome(reply) == Some(RecoveryResultView::Stripped),
        reply matches Err(RequestError::Status { code, .. }) ==> (code == 409 || code == 422
            <==> patch_outcome(reply) is Some && patch_outcome(reply)->0 is Failed) && (code != 409
            && code != 422 <==> patch_outcome(reply) is None),
        reply matches Err(RequestError::Other { .. }) ==> patch_outcome(reply) is None,
{
}

/// A second look shows that a patch went through exactly where the object is there
/// under the same UID, with the same owners and no finalizers.
pub proof fn law_second_look(
    uid: Seq<char>,
    saved: Seq<crate::executor::recovery::SnapshotView>,
    reply: GetReply,
)
    ensures
        reply matches GetReply::Found(o) ==> (recheck_outcome(uid, saved, reply) == Some(
            RecoveryResultView::Stripped,
        ) <==> (if o.uid is Some {
            o.uid->0@
        } else {
            seq![]
        }) == uid && o.finalizers@.len() == 0 && o.owner_references@.len() == saved.len()
            && forall|i: int|
            0 <= i < saved.len() ==> {
                &&& (#[trigger] saved[i]).uid == o.owner_references@[i].uid@
                &&& saved[i].kind == o.owner_references@[i].kind@
                &&& saved[i].name == o.owner_references@[i].name@
                &&& saved[i].api_version == o.owner_references@[i].api_version@
                &&& (saved[i].controller == Some(true)) == (o.owner_references@[i].controller
                    == Some(true))
            }),
        reply is Found ==> recheck_outcome(uid, saved, reply) == Some(RecoveryResultView::Stripped)
            || recheck_outcome(uid, saved, reply) == Some(RecoveryResultView::PatchRequested),
        reply matches GetReply::Failed(RequestError::Status { code, .. }) ==> (code == 404
            <==> recheck_outcome(uid, saved, reply) is None),
        reply is Failed && recheck_outcome(uid, saved, reply) is Some ==> recheck_outcome(
            uid,
            saved,
            reply,
        ) == Some(RecoveryResultView::PatchRequested),
{
    if let GetReply::Found(o) = reply {
        let live = owners(o.owner_references@);
        assert(live.len() == o.owner_references@.len());
        if owners_unchanged(live, saved) {
            assert forall|i: int| 0 <= i < saved.len() implies {
                &&& (#[trigger] saved[i]).uid == o.owner_references@[i].uid@
                &&& saved[i].kind == o.owner_references@[i].kind@
                &&& saved[i].name == o.owner_references@[i].name@
                &&& saved[i].api_version == o.owner_references@[i].api_version@
                &&& (saved[i].controller == Some(true)) == (o.owner_references@[i].controller
                    == Some(true))
            } by {
                assert(live[i].uid == saved[i].uid);
            }
        }
        if live.len() == saved.len() && forall|i: int|
            0 <= i < saved.len() ==> {
                &&& (#[trigger] saved[i]).uid == o.owner_references@[i].uid@
                &&& saved[i].kind == o.owner_references@[i].kind@
                &&& saved[i].name == o.owner_references@[i].name@
                &&& saved[i].api_version == o.owner_references@[i].api_version@
                &&& (saved[i].controller == Some(true)) == (o.owner_references@[i].controller
                    == Some(true))
            } {
            assert forall|i: int| 0 <= i < live.len() implies {
                &&& (#[trigger] live[i]).uid == saved[i].uid
                &&& live[i].kind == saved[i].kind
                &&& live[i].name == saved[i].name
                &&& live[i].api_version == saved[i].api_version
                &&& crate::executor::recovery::is_set(live[i].controller)
                    == crate::executor::recovery::is_set(saved[i].controller)
            } by {
                assert(saved[i].uid == o.owner_references@[i].uid@);
            }
        }
    }
}

/// What is written down of the owners of an object keeps their API version, kind,
/// name, UID and controller flag, in their order.
pub proof fn law_owners_are_written_down(o: crate::cluster::LiveObject, i: int)
    requires
        0 <= i < o.owner_references@.len(),
    ensures
        owner_snapshots(o).len() == o.owner_references@.len(),
        owner_snapshots(o)[i].api_version == o.owner_references@[i].api_version@,
        owner_snapshots(o)[i].kind == o.owner_references@[i].kind@,
        owner_snapshots(o)[i].name == o.owner_references@[i].name@,
        owner_snapshots(o)[i].uid == o.owner_references@[i].uid@,
        owner_snapshots(o)[i].controller == o.owner_references@[i].controller,
{
}

/// A recovery looks at every object that remains, is deleted or expected to go by the
/// phase, is of no protected kind and has a planned UID that is not empty.
pub proof fn law_recovery_looks_at_all(
    phase: PlanPhase,
    remaining: Seq<ResourceIdView>,
    i: int,
    k: int,
)
    requires
        0 <= i < remaining.len(),
        0 <= k < phase.actions@.len(),
        (phase.actions@[k] matches Action::Delete { resource, .. } && resource@ == remaining[i]) || (
        phase.actions@[k] matches Action::ExpectGone { resource, .. } && resource@
            == remaining[i]),
        !crate::executor::recovery::is_protected(remaining[i].kind),
        remaining[i].uid is Some,
        remaining[i].uid->0.len() > 0,
    ensures
        exists|j: int|
            0 <= j < recoverable(phase, remaining).len() && (#[trigger] recoverable(
                phase,
                remaining,
            )[j]).0 == remaining[i],
        phase.actions@[k] is Delete ==> crate::executor::recovery::role_in(
            phase,
            remaining[i],
        ).deleted,
        phase.actions@[k] is ExpectGone ==> crate::executor::recovery::role_in(
            phase,
            remaining[i],
        ).expected,
{
    law_objects_of_actions(phase.actions@, k);
    let f = |r: ResourceIdView|
        match crate::executor::recovery::recovery_begins(phase, r) {
            RecoveryStepView::Read(role) => Some((r, role)),
            _ => None,
        };
    lemma_pick_members(remaining, f);
    assert(f(remaining[i]) is Some);
    let x = f(remaining[i])->0;
    let list = recoverable(phase, remaining);
    assert(list.contains(x));
    let j = choose|j: int| 0 <= j < list.len() && list[j] == x;
    assert(recoverable(phase, remaining)[j].0 == remaining[i]);
}

/// The course of a recovery, object by object. An object that was passed over, and
/// one whose patch was answered, makes way for the next. A patch is sent after a
/// permit and its record; without a permit the recovery is over. An object whose
/// patch went through, or that is gone, is counted, and no other.
pub proof fn law_course_of_a_recovery(
    v: RecoveryView,
    o: crate::cluster::LiveObject,
    result: RecoveryResultView,
    lost: bool,
    given: bool,
)
    ensures
        v.stage == (RecoveryStageView::Permit { object: o }) ==> recovery_next(
            v,
            RecoveryEvent::Permit(given),
        ).stage == if given {
            RecoveryStageView::Record { object: o }
        } else {
            RecoveryStageView::Finished
        },
        v.stage == (RecoveryStageView::Record { object: o }) ==> recovery_next(
            v,
            RecoveryEvent::Recorded,
        ).stage == (RecoveryStageView::Patch { object: o }),
        v.stage == (RecoveryStageView::Patch { object: o }) ==> recovery_next(
            v,
            RecoveryEvent::Patched(Ok(())),
        ).stage == (RecoveryStageView::Settle {
            object: o,
            result: RecoveryResultView::Stripped,
            lost: false,
        }),
        v.stage == (RecoveryStageView::RecheckEndpoint { object: o }) ==> recovery_next(
            v,
            RecoveryEvent::Endpoint(given),
        ).stage == (RecoveryStageView::Settle {
            object: o,
            result: if given {
                RecoveryResultView::Gone
            } else {
                RecoveryResultView::PatchRequested
            },
            lost: true,
        }),
        v.stage == (RecoveryStageView::Settle { object: o, result, lost }) ==> {
            let n = recovery_next(v, RecoveryEvent::Recorded);
            &&& n.at == v.at + 1
            &&& n.recovered == v.recovered + if result is Stripped || result is Gone {
                1int
            } else {
                0int
            }
            &&& lost ==> n.stage is Finished
            &&& !lost && v.at + 1 < v.targets.len() ==> n.stage is Read
            &&& v.at + 1 >= v.targets.len() ==> n.stage is Finished
        },
        v.stage is Read ==> {
            let n = recovery_next(v, RecoveryEvent::Unresolved);
            &&& n.skipped == v.skipped.push((v.targets[v.at].0, RecoverySkip::Unresolved))
            &&& n.at == v.at + 1
            &&& v.at + 1 < v.targets.len() ==> n.stage is Read
            &&& v.at + 1 >= v.targets.len() ==> n.stage is Finished
            &&& n.recovered == v.recovered
        },
        v.stage == (RecoveryStageView::VerifyRoot { object: o }) && o.finalizers@.len() > 0
            ==> recovery_next(v, RecoveryEvent::Endpoint(true)).stage == (
        RecoveryStageView::Permit { object: o }),
        v.stage == (RecoveryStageView::VerifyRoot { object: o }) ==> recovery_next(
            v,
            RecoveryEvent::Endpoint(false),
        ).skipped == v.skipped.push((v.targets[v.at].0, RecoverySkip::RootEndpoint)),
{
}

proof fn lemma_served(
    entries: Seq<GvkEntry>,
    group: Seq<char>,
    version: Seq<char>,
    n: nat,
)
    requires
        n <= entries.len(),
    ensures
        forall|k: int|
            0 <= k < n && (#[trigger] entries[k]).0.0@ == group && entries[k].0.1@ == version
                ==> served(entries, group, version, n).contains(entries[k]),
        forall|e: GvkEntry| #[trigger]
            served(entries, group, version, n).contains(e) ==> entries.contains(e) && e.0.0@
                == group && e.0.1@ == version,
    decreases n,
{
    if n > 0 {
        lemma_served(entries, group, version, (n - 1) as nat);
        let before = served(entries, group, version, (n - 1) as nat);
        let all = served(entries, group, version, n);
        let last = entries[n - 1];
        assert forall|k: int|
            0 <= k < n && (#[trigger] entries[k]).0.0@ == group && entries[k].0.1@
                == version implies all.contains(entries[k]) by {
            if k < n - 1 {
                let m = choose|m: int| 0 <= m < before.len() && before[m] == entries[k];
                assert(all[m] == entries[k]);
            } else {
                assert(all[before.len() as int] == last);
            }
        }
        assert forall|e: GvkEntry| #[trigger] all.contains(e) implies entries.contains(e) && e.0.0@
            == group && e.0.1@ == version by {
            let m = choose|m: int| 0 <= m < all.len() && all[m] == e;
            if m < before.len() {
                assert(before[m] == e);
                assert(before.contains(e));
            } else {
                assert(entries[n - 1] == e);
            }
        }
    }
}

/// The API service `version.group` serves every discovered type with that group and
/// that version, and no other. Where there is none, or where the name has no dot, nobody
/// knows what it serves.
pub proof fn law_types_of_a_service(
    version: Seq<char>,
    group: Seq<char>,
    gvks: GvkMap,
    k: int,
)
    requires
        !version.contains('.'),
    ensures
        ({
            let found = types_of_service(version + seq!['.'] + group, gvks);
            let all = gvks.entries();
            &&& 0 <= k < all.len() && all[k].0.0@ == group && all[k].0.1@ == version ==> found is Ok
                && found->Ok_0.contains(all[k])
            &&& found is Ok ==> found->Ok_0.len() > 0 && forall|e: GvkEntry| #[trigger]
                found->Ok_0.contains(e) ==> all.contains(e) && e.0.0@ == group && e.0.1@ == version
            &&& (forall|j: int|
                0 <= j < all.len() ==> (#[trigger] all[j]).0.0@ != group || all[j].0.1@ != version)
                ==> found is Err && found->Err_0 is Unknown
        }),
        types_of_service(version, gvks) is Err,
{
    let all = gvks.entries();
    lemma_parted(version, '.', group);
    lemma_served(all, group, version, all.len());
    let list = served(all, group, version, all.len());
    if 0 <= k < all.len() && all[k].0.0@ == group && all[k].0.1@ == version {
        assert(list.contains(all[k]));
        let m = choose|m: int| 0 <= m < list.len() && list[m] == all[k];
        assert(list.len() > 0);
    }
    if list.len() > 0 {
        assert(list.contains(list[0]));
        let j = choose|j: int| 0 <= j < all.len() && all[j] == list[0];
        assert(all[j].0.0@ == group && all[j].0.1@ == version);
    }
}

/// What is written down before finalizers are stripped: the object, the UID that it was
/// read under, its finalizers and its owners as they were read, and that the patch was
/// requested. Its root is the owner where the phase expects the object to go, and the
/// object itself where the phase deletes it. The patch tests the UID first and clears the
/// finalizers last.
pub proof fn law_strip_order(
    s: StripOrder,
    role: RecoveryRole,
    res: ResourceId,
    o: crate::cluster::LiveObject,
    i: int,
)
    requires
        orders_strip(s, role, res, o),
        o.uid is Some,
    ensures
        s.record.resource == res,
        s.record.live_uid@ == o.uid->0@,
        s.record.finalizer_values@ == o.finalizers@,
        s.record.result is PatchRequested,
        s.record.owner_references_snapshot@.len() == o.owner_references@.len(),
        0 <= i < o.owner_references@.len() ==> s.record.owner_references_snapshot@[i].uid@
            == o.owner_references@[i].uid@ && s.record.owner_references_snapshot@[i].kind@
            == o.owner_references@[i].kind@ && s.record.owner_references_snapshot@[i].name@
            == o.owner_references@[i].name@,
        role.expected ==> s.record.root_uid@ == o.owner_references@[0].uid@ && s.record.root_kind@
            == o.owner_references@[0].kind@,
        !role.expected ==> s.record.root_uid@ == o.uid->0@ && s.record.root_kind@ == res.kind@,
        s.patch@.len() == if role.expected {
            4int
        } else {
            3int
        },
        s.patch@[0] matches PatchOp::TestUid(u) && u@ == o.uid->0@,
        s.patch@.last() is ClearFinalizers,
        s.patch@[s.patch@.len() - 2] matches PatchOp::TestFinalizers(f) && texts(f@) == texts(
            o.finalizers@,
        ),
{
    let ops = patch_ops(s.patch@);
    law_patch_tests_before_it_clears(role, o);
    assert(ops == strip_ops(role, o));
    assert(ops.len() == s.patch@.len());
    assert(ops[0] == s.patch@[0]@);
    assert(ops.last() == s.patch@.last()@);
    assert(ops[ops.len() - 2] == s.patch@[s.patch@.len() - 2]@);
    let shots = snapshots(s.record.owner_references_snapshot@);
    assert(shots.len() == s.record.owner_references_snapshot@.len());
    assert(shots == owner_snapshots(o));
    if 0 <= i < o.owner_references@.len() {
        law_owners_are_written_down(o, i);
        assert(shots[i] == s.record.owner_references_snapshot@[i]@);
    }
}

} // verus!
