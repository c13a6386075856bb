//! What a cleanup of residuals keeps to: what it may begin with, when it deletes an
//! object, when it passes one over and when it stops; and what a saved decision
//! comes to.

use vstd::prelude::*;
use vstd::string::*;

use crate::audit::{AttributedResidual, ResidualAudit, ResidualConfidence, ResidualItem};
use crate::cluster::{GetReply, RequestError};
use crate::executor::cleanup::{
    beginning_objection, begun, cleanup_next, eligible, final_state, ineligible, journal_objection,
    progress_of, CleanupErrorView, CleanupEvent, CleanupView, ProgressView, StageView,
};
use crate::executor::deletion::DeleteOutcome;
use crate::executor::residual::{
    first_signature_fault, has_pair, in_audit, is_repeated, item_for, residual_for,
    saved_candidates, saved_faults, signature_fault, usable_verdict, verdict, Verdict,
};
use crate::journal::{CleanupDecision, CleanupResultView, ResidualStatus, RunState};
use crate::lists::{lemma_pick_members, pick};
use crate::plan::{
    is_match, match_fault, ApprovalKind, ResourceMatch, SavedAction, SavedDecision,
    SavedEvidenceSignature,
};
use crate::resource::{ResourceId, ResourceIdView};
use crate::text::{has_text, opt_text};

verus! {

/// An object is in the audit exactly where it stands among what the plan was to
/// delete or expected to go, live under the UID of the object, or among what was
/// found besides, UID included.
pub proof fn law_what_is_in_the_audit(audit: ResidualAudit, id: ResourceIdView)
    ensures
        in_audit(audit, id) <==> {
            ||| exists|i: int|
                0 <= i < audit.planned_delete_still_present@.len() && {
                    let x = #[trigger] audit.planned_delete_still_present@[i];
                    &&& id.uid is Some
                    &&& opt_text(x.live_uid) == id.uid
                    &&& x.resource.group@ == id.group
                    &&& x.resource.version@ == id.version
                    &&& x.resource.kind@ == id.kind
                    &&& opt_text(x.resource.namespace) == id.namespace
                    &&& x.resource.name@ == id.name
                }
            ||| exists|i: int|
                0 <= i < audit.planned_expect_still_present@.len() && {
                    let x = #[trigger] audit.planned_expect_still_present@[i];
                    &&& id.uid is Some
                    &&& opt_text(x.live_uid) == id.uid
                    &&& x.resource.group@ == id.group
                    &&& x.resource.version@ == id.version
                    &&& x.resource.kind@ == id.kind
                    &&& opt_text(x.resource.namespace) == id.namespace
                    &&& x.resource.name@ == id.name
                }
            ||| exists|i: int|
                0 <= i < audit.likely_operator_residual@.len() && (
                #[trigger] audit.likely_operator_residual@[i]).resource@ == id
            ||| exists|i: int|
                0 <= i < audit.unattributed@.len() && (#[trigger] audit.unattributed@[i]).resource@
                    == id
        },
{
    lemma_live(audit.planned_delete_still_present@, id);
    lemma_live(audit.planned_expect_still_present@, id);
}

proof fn lemma_live(items: Seq<ResidualItem>, id: ResourceIdView)
    ensures
        crate::executor::residual::has_live(items, id) <==> exists|i: int|
            0 <= i < items.len() && {
                let x = #[trigger] items[i];
                &&& id.uid is Some
                &&& opt_text(x.live_uid) == id.uid
                &&& x.resource.group@ == id.group
                &&& x.resource.version@ == id.version
                &&& x.resource.kind@ == id.kind
                &&& opt_text(x.resource.namespace) == id.namespace
                &&& x.resource.name@ == id.name
            },
{
    if crate::executor::residual::has_live(items, id) {
        let i = choose|i: int|
            0 <= i < items.len() && crate::resource::same_object(
                (#[trigger] items[i]).resource@,
                id,
            ) && opt_text(items[i].live_uid) == id.uid;
        assert(items[i].resource.group@ == id.group);
    }
}

/// A cleanup takes exactly those of the selected objects that are in the audit, in
/// their order, and passes over the others, in their order.
pub proof fn law_cleanup_takes_the_selection(
    selected: Seq<ResourceId>,
    audit: ResidualAudit,
    r: ResourceId,
)
    ensures
        eligible(selected.push(r), audit) == if in_audit(audit, r@) {
            eligible(selected, audit).push(r@)
        } else {
            eligible(selected, audit)
        },
        ineligible(selected.push(r), audit) == if in_audit(audit, r@) {
            ineligible(selected, audit)
        } else {
            ineligible(selected, audit).push((r@, "not in current residual set"@))
        },
        eligible(seq![], audit).len() == 0,
        ineligible(seq![], audit).len() == 0,
        ({
            let v = begun(selected, audit);
            &&& v.targets == eligible(selected, audit)
            &&& v.skipped == ineligible(selected, audit)
            &&& v.at == 0
            &&& v.deleted.len() == 0
            &&& v.failed.len() == 0
            &&& v.targets.len() > 0 <==> v.stage is Permit
            &&& v.targets.len() == 0 <==> v.stage is Finished
        }),
{
    assert(selected.push(r).drop_last() =~= selected);
}

/// A cleanup may begin on a journal of the current schema, after a completed run or
/// in the middle of a cleanup, and never otherwise.
pub proof fn law_cleanup_needs_a_completed_run(schema: u32, state: RunState)
    ensures
        journal_objection(schema, state) is None <==> schema == 9 && (state
            == RunState::ApplyCompleted || state == RunState::InteractiveCleanup),
{
}

/// A cleanup does not begin after an incomplete audit, nor where something was
/// selected and none of it is in the audit. Otherwise nothing stands against it.
pub proof fn law_cleanup_needs_a_complete_audit(
    selected: Seq<ResourceId>,
    audit: ResidualAudit,
    status: ResidualStatus,
)
    ensures
        status is AuditIncomplete ==> beginning_objection(selected, audit, status) is Some,
        !(status is AuditIncomplete) ==> (beginning_objection(selected, audit, status) is Some
            <==> selected.len() > 0 && forall|i: int|
            0 <= i < selected.len() ==> !in_audit(audit, (#[trigger] selected[i])@)),
{
    let f = |r: ResourceId|
        if in_audit(audit, r@) {
            Some(r@)
        } else {
            None
        };
    lemma_pick_members(selected, f);
    assert(eligible(selected, audit) == pick(selected, f));
    if eligible(selected, audit).len() > 0 {
        let x = eligible(selected, audit)[0];
        assert(eligible(selected, audit).contains(x));
        let i = choose|i: int| 0 <= i < selected.len() && f(#[trigger] selected[i]) == Some(x);
        assert(in_audit(audit, selected[i]@));
    } else {
        assert forall|i: int| 0 <= i < selected.len() implies !in_audit(
            audit,
            (#[trigger] selected[i])@,
        ) by {
            if in_audit(audit, selected[i]@) {
                assert(f(selected[i]) is Some);
            }
        }
    }
}

/// The state that a cleanup leaves: failed where a decision was turned down; open
/// where the audit is incomplete, something is left over, or a decision was not
/// carried out, was only requested or has an unknown outcome; completed otherwise.
pub proof fn law_state_after_a_cleanup(
    decisions: Seq<CleanupDecision>,
    status: ResidualStatus,
    left_over: bool,
)
    ensures
        ({
            let state = final_state(decisions, status, left_over);
            let failed = exists|i: int|
                0 <= i < decisions.len() && (#[trigger] decisions[i]).result is Some
                    && decisions[i].result->0 is Failed;
            let open = exists|i: int|
                0 <= i < decisions.len() && ((#[trigger] decisions[i]).result is None
                    || decisions[i].result->0 is DeleteRequested || decisions[i].result->0
                    is UnknownOutcome);
            &&& failed <==> state == RunState::Failed
            &&& !failed && (open || left_over || status is AuditIncomplete) <==> state
                == RunState::InteractiveCleanup
            &&& !failed && !open && !left_over && !(status is AuditIncomplete) <==> state
                == RunState::ApplyCompleted
        }),
{
    if crate::executor::cleanup::any_hard_failed(decisions) {
        let i = choose|i: int| 0 <= i < decisions.len() && (#[trigger] decisions[i]).hard_failed();
        assert(decisions[i].result is Some && decisions[i].result->0 is Failed);
    }
    if exists|i: int|
        0 <= i < decisions.len() && (#[trigger] decisions[i]).result is Some
            && decisions[i].result->0 is Failed {
        let i = choose|i: int|
            0 <= i < decisions.len() && (#[trigger] decisions[i]).result is Some
                && decisions[i].result->0 is Failed;
        assert(decisions[i].hard_failed());
    }
    if crate::executor::cleanup::any_pending(decisions) {
        let i = choose|i: int| 0 <= i < decisions.len() && (#[trigger] decisions[i]).pending();
        assert(decisions[i].result is None || decisions[i].result->0 is DeleteRequested
            || decisions[i].result->0 is UnknownOutcome);
    }
    if exists|i: int|
        0 <= i < decisions.len() && ((#[trigger] decisions[i]).result is None
            || decisions[i].result->0 is DeleteRequested || decisions[i].result->0
            is UnknownOutcome) {
        let i = choose|i: int|
            0 <= i < decisions.len() && ((#[trigger] decisions[i]).result is None
                || decisions[i].result->0 is DeleteRequested || decisions[i].result->0
                is UnknownOutcome);
        assert(decisions[i].pending());
    }
}

/// The turn of an object begins with a permit and with the certainty that nothing of
/// the operator is left. Without the permit the cleanup stops; where the operator is
/// there again the object is passed over, and no other gets its turn.
pub proof fn law_turn_begins(v: CleanupView, given: bool)
    ensures
        v.stage is Permit ==> cleanup_next(v, CleanupEvent::Permit(given)).stage == if given {
            StageView::Generation
        } else {
            StageView::Stopped(CleanupErrorView::GateClosed)
        },
        v.stage is Generation ==> {
            let n = cleanup_next(v, CleanupEvent::Absent(given));
            &&& given ==> n.stage is Look && n.skipped == v.skipped
            &&& !given ==> n.stage is Finished && n.skipped.len() == v.skipped.len() + 1
                && n.skipped.last().0 == v.targets[v.at]
            &&& n.deleted == v.deleted
            &&& n.failed == v.failed
        },
{
}

/// The look at an object. One that is there under the UID that it is to be deleted
/// under goes on: a Subscription of the operator lifecycle manager to the look at
/// its package, any other to the record. Under another UID it is passed over and the
/// next object gets its turn; without a UID the cleanup stops. Where the object is
/// not there its endpoint is looked at; after another failure the cleanup stops.
pub proof fn law_look_at_an_object(v: CleanupView, reply: GetReply)
    requires
        v.stage is Look,
    ensures
        ({
            let id = v.targets[v.at];
            let n = cleanup_next(v, CleanupEvent::Reply(reply));
            &&& reply matches GetReply::Found(o) ==> {
                let live = opt_text(o.uid);
                let bound = id.uid is Some && id.uid->0.len() > 0 && live is Some && live->0.len()
                    > 0;
                let subscription = id.kind == "Subscription"@ && id.group
                    == "operators.coreos.com"@;
                &&& !bound ==> n.stage is Stopped
                &&& bound && live != id.uid ==> n.at == v.at + 1 && n.skipped.len()
                    == v.skipped.len() + 1 && n.skipped.last().0 == id && (n.stage is Permit
                    || n.stage is Finished)
                &&& bound && live == id.uid && subscription ==> n.stage is LookPackage
                &&& bound && live == id.uid && !subscription ==> n.stage == StageView::Record(None)
            }
            &&& reply matches GetReply::Failed(RequestError::Status { code, .. }) ==> (code == 404
                <==> n.stage is LookEndpoint) && (code != 404 <==> n.stage is Stopped)
            &&& reply matches GetReply::Failed(RequestError::Other { .. }) ==> n.stage is Stopped
            &&& n.deleted == v.deleted
            &&& n.failed == v.failed
        }),
{
}

/// The look at the package of a Subscription. Only where the Subscription is there
/// under its UID and names a package is a decision written down, and it is bound to
/// that package. Where it is not there its endpoint is looked at. Otherwise the
/// cleanup stops.
pub proof fn law_look_at_a_package(v: CleanupView, reply: GetReply)
    requires
        v.stage is LookPackage,
    ensures
        ({
            let id = v.targets[v.at];
            let n = cleanup_next(v, CleanupEvent::Reply(reply));
            &&& reply matches GetReply::Found(o) ==> {
                let same = id.uid is Some && id.uid->0.len() > 0 && opt_text(o.uid) == id.uid;
                let named = o.spec_name is Some && o.spec_name->0@.len() > 0;
                &&& same && named ==> n.stage == StageView::Record(Some(o.spec_name->0@))
                &&& !(same && named) ==> n.stage is Stopped
            }
            &&& reply matches GetReply::Failed(RequestError::Status { code, .. }) ==> (code == 404
                <==> n.stage is PackageEndpoint) && (code != 404 <==> n.stage is Stopped)
            &&& reply matches GetReply::Failed(RequestError::Other { .. }) ==> n.stage is Stopped
            &&& n.deleted == v.deleted
            &&& n.skipped == v.skipped
        }),
{
}

/// An object that was not there, with its endpoint there, is passed over and makes
/// way for the next; with its endpoint not there, the cleanup stops. While it waits
/// for a deleted object to be gone, that object is then deleted for good.
pub proof fn law_endpoint_decides(v: CleanupView, ok: bool)
    ensures
        v.stage is LookEndpoint || v.stage is PackageEndpoint ==> {
            let n = cleanup_next(v, CleanupEvent::Endpoint(ok));
            &&& ok ==> n.at == v.at + 1 && n.skipped.len() == v.skipped.len() + 1
                && n.skipped.last().0 == v.targets[v.at]
            &&& ok && v.at + 1 < v.targets.len() ==> n.stage is Permit
            &&& ok && v.at + 1 >= v.targets.len() ==> n.stage is Finished
            &&& !ok ==> n.stage is Stopped
            &&& n.deleted == v.deleted
        },
        v.stage is WaitEndpoint || v.stage is WaitAgainEndpoint ==> {
            let n = cleanup_next(v, CleanupEvent::Endpoint(ok));
            &&& ok ==> n.deleted == v.deleted.push(v.targets[v.at]) && n.stage == (
            StageView::Checkpoint { result: CleanupResultView::Gone, stop: false })
            &&& !ok ==> n.stage is Stopped && n.deleted == v.deleted
        },
{
}

/// What came of a DELETE. One that was taken is written down and waited for. An
/// object that was gone already counts as deleted. One that was turned down, blocked
/// or of unknown outcome has failed with that reason; after a blocked or unknown one
/// nothing more is deleted.
pub proof fn law_outcome_of_a_delete(
    v: CleanupView,
    name: Option<Seq<char>>,
    o: DeleteOutcome,
)
    requires
        v.stage == StageView::Delete(name),
    ensures
        ({
            let id = v.targets[v.at];
            let n = cleanup_next(v, CleanupEvent::Outcome(o));
            &&& o is Accepted ==> n.stage == (StageView::Checkpoint {
                result: CleanupResultView::DeleteRequested,
                stop: false,
            }) && n.deleted == v.deleted && n.failed == v.failed
            &&& o is AlreadyGone ==> n.stage == (StageView::Checkpoint {
                result: CleanupResultView::AlreadyGone,
                stop: false,
            }) && n.deleted == v.deleted.push(id) && n.failed == v.failed
            &&& o matches DeleteOutcome::Rejected(why) ==> n.stage == (StageView::Checkpoint {
                result: CleanupResultView::Failed(why@),
                stop: false,
            }) && n.failed == v.failed.push((id, why@))
            &&& o matches DeleteOutcome::Blocked(why) ==> n.stage == (StageView::Checkpoint {
                result: CleanupResultView::Failed(why@),
                stop: true,
            }) && n.failed == v.failed.push((id, why@))
            &&& o matches DeleteOutcome::Unknown(why) ==> n.stage == (StageView::Checkpoint {
                result: CleanupResultView::UnknownOutcome(why@),
                stop: true,
            }) && n.failed == v.failed.push((id, why@))
            &&& !(o is AlreadyGone) ==> n.deleted == v.deleted
            &&& n.skipped == v.skipped
        }),
{
}

/// Once a result is written down: a requested DELETE is waited for; a result that
/// stops the cleanup ends it; after any other the next object gets its turn. And a
/// decision that is written down is followed by its DELETE.
pub proof fn law_after_a_record(v: CleanupView, result: CleanupResultView, stop: bool)
    ensures
        v.stage == (StageView::Checkpoint { result, stop }) ==> {
            let n = cleanup_next(v, CleanupEvent::Recorded);
            &&& result is DeleteRequested ==> n.stage == (StageView::Wait {
                polls: 0,
                blocked: false,
            }) && n.at == v.at
            &&& !(result is DeleteRequested) && stop ==> n.stage is Finished && n.at == v.at
            &&& !(result is DeleteRequested) && !stop ==> n.at == v.at + 1
            &&& !(result is DeleteRequested) && !stop && v.at + 1 < v.targets.len() ==> n.stage
                is Permit
            &&& !(result is DeleteRequested) && !stop && v.at + 1 >= v.targets.len() ==> n.stage
                is Finished
            &&& n.deleted == v.deleted && n.failed == v.failed && n.skipped == v.skipped
        },
        v.stage matches StageView::Record(name) ==> cleanup_next(v, CleanupEvent::Recorded).stage
            == StageView::Delete(name),
{
}

/// The wait for a deleted object. Where it is not found its endpoint is looked at.
/// Under another UID, or where it cannot be read, the cleanup stops. It is looked at
/// fifteen times; then its finalizers are stripped where some have held it on its way
/// out and its kind is not protected, and otherwise the cleanup stops.
pub proof fn law_wait_for_a_deleted_object(
    v: CleanupView,
    polls: u32,
    blocked: bool,
    reply: GetReply,
)
    requires
        v.stage == (StageView::Wait { polls, blocked }),
        polls < 15,
        v.targets[v.at].uid is Some,
        v.targets[v.at].uid->0.len() > 0,
    ensures
        ({
            let id = v.targets[v.at];
            let n = cleanup_next(v, CleanupEvent::Reply(reply));
            &&& reply matches GetReply::Found(o) ==> {
                let same = opt_text(o.uid) == id.uid;
                let seen = blocked || (o.terminating && o.finalizers@.len() > 0);
                &&& !same ==> n.stage is Stopped
                &&& same && polls < 14 ==> n.stage == (StageView::Wait {
                    polls: (polls + 1) as u32,
                    blocked: seen,
                })
                &&& same && polls == 14 && seen && !crate::executor::recovery::is_protected(id.kind)
                    ==> n.stage is Recover
                &&& same && polls == 14 && (!seen || crate::executor::recovery::is_protected(
                    id.kind,
                )) ==> n.stage is Stopped
            }
            &&& reply matches GetReply::Failed(RequestError::Status { code, .. }) ==> (code == 404
                <==> n.stage is WaitEndpoint) && (code != 404 <==> n.stage is Stopped)
            &&& reply matches GetReply::Failed(RequestError::Other { .. }) ==> n.stage is Stopped
            &&& n.deleted == v.deleted
        }),
{
}

/// After finalizers were stripped the object is waited for once more, fifteen looks
/// at most; where none were stripped, or that failed, the cleanup stops.
pub proof fn law_wait_after_stripping(v: CleanupView, polls: u32, reply: GetReply, count: usize)
    requires
        polls < 15,
        v.targets[v.at].uid is Some,
        v.targets[v.at].uid->0.len() > 0,
    ensures
        v.stage is Recover ==> cleanup_next(v, CleanupEvent::Recovered(None)).stage is Stopped,
        v.stage is Recover && count == 0 ==> cleanup_next(
            v,
            CleanupEvent::Recovered(Some(count)),
        ).stage is Stopped,
        v.stage is Recover && count > 0 ==> cleanup_next(
            v,
            CleanupEvent::Recovered(Some(count)),
        ).stage == StageView::WaitAgain(0),
        v.stage == StageView::WaitAgain(polls) ==> {
            let id = v.targets[v.at];
            let n = cleanup_next(v, CleanupEvent::Reply(reply));
            &&& reply matches GetReply::Found(o) ==> {
                &&& opt_text(o.uid) != id.uid ==> n.stage is Stopped
                &&& opt_text(o.uid) == id.uid && polls < 14 ==> n.stage == StageView::WaitAgain(
                    (polls + 1) as u32,
                )
                &&& opt_text(o.uid) == id.uid && polls == 14 ==> n.stage is Stopped
            }
            &&& reply matches GetReply::Failed(RequestError::Status { code, .. }) ==> (code == 404
                <==> n.stage is WaitAgainEndpoint) && (code != 404 <==> n.stage is Stopped)
            &&& reply matches GetReply::Failed(RequestError::Other { .. }) ==> n.stage is Stopped
            &&& n.deleted == v.deleted
        },
{
}

proof fn lemma_residual(items: Seq<AttributedResidual>, m: ResourceMatch, i: nat)
    ensures
        residual_for(items, m, i) is None <==> forall|k: int|
            i <= k < items.len() ==> !is_match(m, (#[trigger] items[k]).resource@),
        residual_for(items, m, i) matches Some(x) ==> exists|k: int|
            i <= k < items.len() && #[trigger] items[k] == x && is_match(m, x.resource@)
                && forall|j: int| i <= j < k ==> !is_match(m, (#[trigger] items[j]).resource@),
    decreases items.len() - i,
{
    if i < items.len() {
        if is_match(m, items[i as int].resource@) {
            assert(items[i as int] == residual_for(items, m, i)->0);
        } else {
            lemma_residual(items, m, i + 1);
            if let Some(x) = residual_for(items, m, i + 1) {
                let k = choose|k: int|
                    i + 1 <= k < items.len() && #[trigger] items[k] == x && is_match(
                        m,
                        x.resource@,
                    ) && forall|j: int|
                        i + 1 <= j < k ==> !is_match(m, (#[trigger] items[j]).resource@);
                assert(items[k] == x);
            }
        }
    }
}

proof fn lemma_item(items: Seq<ResidualItem>, m: ResourceMatch, i: nat)
    ensures
        item_for(items, m, i) is None <==> forall|k: int|
            i <= k < items.len() ==> !is_match(m, (#[trigger] items[k]).resource@),
        item_for(items, m, i) matches Some(x) ==> exists|k: int|
            i <= k < items.len() && #[trigger] items[k] == x && is_match(m, x.resource@)
                && forall|j: int| i <= j < k ==> !is_match(m, (#[trigger] items[j]).resource@),
    decreases items.len() - i,
{
    if i < items.len() {
        if is_match(m, items[i as int].resource@) {
            assert(items[i as int] == item_for(items, m, i)->0);
        } else {
            lemma_item(items, m, i + 1);
            if let Some(x) = item_for(items, m, i + 1) {
                let k = choose|k: int|
                    i + 1 <= k < items.len() && #[trigger] items[k] == x && is_match(
                        m,
                        x.resource@,
                    ) && forall|j: int|
                        i + 1 <= j < k ==> !is_match(m, (#[trigger] items[j]).resource@);
                assert(items[k] == x);
            }
        }
    }
}

/// A saved decision to delete, with a basis, on a resource that the audit attributes
/// to the operator: the first attributed residual that it speaks of is the candidate,
/// under its own UID, exactly where its confidence is more than none, every label,
/// manager and service account that the decision rests on is seen now, and it has a
/// UID. Otherwise the decision is a fault.
pub proof fn law_decision_on_an_attributed_residual(
    d: SavedDecision,
    audit: ResidualAudit,
    k: int,
)
    requires
        0 <= k < audit.likely_operator_residual@.len(),
        is_match(d.match_spec, audit.likely_operator_residual@[k].resource@),
        forall|j: int|
            0 <= j < k ==> !is_match(
                d.match_spec,
                (#[trigger] audit.likely_operator_residual@[j]).resource@,
            ),
    ensures
        ({
            let r = audit.likely_operator_residual@[k];
            let based = d.basis.decisive_evidence@.len() > 0 || d.basis.provenance is Some;
            let seen = forall|s: int|
                0 <= s < d.basis.decisive_evidence@.len() ==> {
                    &&& #[trigger] d.basis.decisive_evidence@[s] matches SavedEvidenceSignature::Label {
                        key,
                        value,
                    } ==> has_pair(r.evidence.matching_labels@, key@, value@)
                    &&& d.basis.decisive_evidence@[s] matches SavedEvidenceSignature::ManagedFieldManager {
                        manager,
                    } ==> has_text(r.evidence.matching_managers@, manager@)
                    &&& d.basis.decisive_evidence@[s] is ServiceAccount
                        ==> r.evidence.service_account_match
                };
            let good = r.confidence != ResidualConfidence::NoEvidence && based && seen
                && r.resource.uid is Some;
            &&& good ==> usable_verdict(d, audit) == Verdict::Candidate(r.resource@)
            &&& !good ==> usable_verdict(d, audit) is Fault
        }),
{
    let items = audit.likely_operator_residual@;
    lemma_residual(items, d.match_spec, 0);
    let x = residual_for(items, d.match_spec, 0)->0;
    let c = choose|c: int|
        0 <= c < items.len() && #[trigger] items[c] == x && is_match(d.match_spec, x.resource@)
            && forall|j: int|
            0 <= j < c ==> !is_match(d.match_spec, (#[trigger] items[j]).resource@);
    assert(c == k);
    lemma_signatures(d.basis.decisive_evidence@, items[k].evidence, d.match_spec, 0);
}

proof fn lemma_signatures(
    sigs: Seq<SavedEvidenceSignature>,
    now: crate::audit::ResidualEvidence,
    m: ResourceMatch,
    i: nat,
)
    ensures
        first_signature_fault(sigs, now, m, i) is None <==> forall|s: int|
            i <= s < sigs.len() ==> {
                &&& #[trigger] sigs[s] matches SavedEvidenceSignature::Label { key, value }
                    ==> has_pair(now.matching_labels@, key@, value@)
                &&& sigs[s] matches SavedEvidenceSignature::ManagedFieldManager { manager }
                    ==> has_text(now.matching_managers@, manager@)
                &&& sigs[s] is ServiceAccount ==> now.service_account_match
            },
    decreases sigs.len() - i,
{
    if i < sigs.len() {
        lemma_signatures(sigs, now, m, i + 1);
        let s = sigs[i as int];
        let holds = {
            &&& s matches SavedEvidenceSignature::Label { key, value } ==> has_pair(
                now.matching_labels@,
                key@,
                value@,
            )
            &&& s matches SavedEvidenceSignature::ManagedFieldManager { manager } ==> has_text(
                now.matching_managers@,
                manager@,
            )
            &&& s is ServiceAccount ==> now.service_account_match
        };
        assert(signature_fault(s, now, m) is None <==> holds);
        if holds && first_signature_fault(sigs, now, m, i + 1) is None {
            assert forall|t: int| i <= t < sigs.len() implies {
                &&& #[trigger] sigs[t] matches SavedEvidenceSignature::Label { key, value }
                    ==> has_pair(now.matching_labels@, key@, value@)
                &&& sigs[t] matches SavedEvidenceSignature::ManagedFieldManager { manager }
                    ==> has_text(now.matching_managers@, manager@)
                &&& sigs[t] is ServiceAccount ==> now.service_account_match
            } by {
                if t > i {
                    assert(i + 1 <= t);
                }
            }
        }
    }
}

/// A saved decision to delete, with a basis, on a resource that the audit does not
/// attribute but that the plan was to delete: the candidate is that resource under
/// the UID that it is live under; without one nothing is done. A decision on a
/// resource that the audit does not know at all is a fault.
pub proof fn law_decision_on_a_planned_residual(d: SavedDecision, audit: ResidualAudit, k: int)
    requires
        forall|j: int|
            0 <= j < audit.likely_operator_residual@.len() ==> !is_match(
                d.match_spec,
                (#[trigger] audit.likely_operator_residual@[j]).resource@,
            ),
        forall|j: int|
            0 <= j < audit.unattributed@.len() ==> !is_match(
                d.match_spec,
                (#[trigger] audit.unattributed@[j]).resource@,
            ),
        d.basis.decisive_evidence@.len() > 0 || d.basis.provenance is Some,
    ensures
        0 <= k < audit.planned_delete_still_present@.len() && is_match(
            d.match_spec,
            audit.planned_delete_still_present@[k].resource@,
        ) && (forall|j: int|
            0 <= j < k ==> !is_match(
                d.match_spec,
                (#[trigger] audit.planned_delete_still_present@[j]).resource@,
            )) ==> {
            let x = audit.planned_delete_still_present@[k];
            &&& x.live_uid matches Some(uid) ==> usable_verdict(d, audit) == Verdict::Candidate(
                ResourceIdView { uid: Some(uid@), ..x.resource@ },
            )
            &&& x.live_uid is None ==> usable_verdict(d, audit) is Ignored
        },
        (forall|j: int|
            0 <= j < audit.planned_delete_still_present@.len() ==> !is_match(
                d.match_spec,
                (#[trigger] audit.planned_delete_still_present@[j]).resource@,
            )) && (forall|j: int|
            0 <= j < audit.planned_expect_still_present@.len() ==> !is_match(
                d.match_spec,
                (#[trigger] audit.planned_expect_still_present@[j]).resource@,
            )) ==> usable_verdict(d, audit) is Fault,
{
    let m = d.match_spec;
    lemma_residual(audit.likely_operator_residual@, m, 0);
    lemma_residual(audit.unattributed@, m, 0);
    lemma_item(audit.planned_delete_still_present@, m, 0);
    lemma_item(audit.planned_expect_still_present@, m, 0);
    let items = audit.planned_delete_still_present@;
    if 0 <= k < items.len() && is_match(m, items[k].resource@) && (forall|j: int|
        0 <= j < k ==> !is_match(m, (#[trigger] items[j]).resource@)) {
        let x = item_for(items, m, 0)->0;
        let c = choose|c: int|
            0 <= c < items.len() && #[trigger] items[c] == x && is_match(m, x.resource@)
                && forall|j: int| 0 <= j < c ==> !is_match(m, (#[trigger] items[j]).resource@);
        assert(c == k);
    }
}

/// Only a decision to delete is carried out. One whose match names no kind or no
/// name, or has a wildcard, is a fault, and so is one on a resource that nothing ties
/// to the operator. Of two decisions to delete on one resource, the first counts.
pub proof fn law_which_decisions_count(ds: Seq<SavedDecision>, audit: ResidualAudit, i: int, j: int)
    requires
        0 <= i < ds.len(),
    ensures
        ds[i].action == SavedAction::Keep ==> verdict(ds, audit, i) is Ignored,
        ds[i].action == SavedAction::Delete && (ds[i].match_spec.kind@.len() == 0
            || ds[i].match_spec.kind@ == "*"@ || ds[i].match_spec.name@.len() == 0
            || ds[i].match_spec.name@ == "*"@ || opt_text(ds[i].match_spec.group) == Some("*"@))
            ==> verdict(ds, audit, i) is Fault,
        ds[i].action == SavedAction::Delete && ds[i].approval == ApprovalKind::ExplicitUnattributed
            ==> verdict(ds, audit, i) is Fault,
        0 <= j < i && ds[i].action == SavedAction::Delete && ds[j].action == SavedAction::Delete
            && match_fault(ds[i].match_spec) is None && match_fault(ds[j].match_spec) is None
            && ds[i].approval == ApprovalKind::Explicit && ds[j].approval == ApprovalKind::Explicit
            && opt_text(ds[i].match_spec.group) == opt_text(ds[j].match_spec.group)
            && ds[i].match_spec.kind@ == ds[j].match_spec.kind@ && opt_text(
            ds[i].match_spec.namespace,
        ) == opt_text(ds[j].match_spec.namespace) && ds[i].match_spec.name@
            == ds[j].match_spec.name@ ==> verdict(ds, audit, i) is Ignored,
        ds[i].action == SavedAction::Delete && match_fault(ds[i].match_spec) is None
            && ds[i].approval == ApprovalKind::Explicit && !is_repeated(ds, i) ==> verdict(
            ds,
            audit,
            i,
        ) == usable_verdict(ds[i], audit),
{
    if 0 <= j < i && ds[j].action == SavedAction::Delete && match_fault(ds[j].match_spec) is None
        && ds[j].approval == ApprovalKind::Explicit {
        assert(crate::executor::residual::is_usable_decision(ds[j]));
    }
}

/// The candidates and the faults come in the order of the decisions: one more
/// decision adds its candidate, its fault or nothing.
pub proof fn law_candidates_and_faults(ds: Seq<SavedDecision>, audit: ResidualAudit, n: nat)
    ensures
        saved_candidates(ds, audit, n + 1) == match verdict(ds, audit, n as int) {
            Verdict::Candidate(id) => saved_candidates(ds, audit, n).push(id),
            _ => saved_candidates(ds, audit, n),
        },
        saved_faults(ds, audit, n + 1) == match verdict(ds, audit, n as int) {
            Verdict::Fault(e) => saved_faults(ds, audit, n).push(e),
            _ => saved_faults(ds, audit, n),
        },
        saved_candidates(ds, audit, 0).len() == 0,
        saved_faults(ds, audit, 0).len() == 0,
{
}

/// What is told of a cleanup: that an object is being validated when its turn begins,
/// that its DELETE was requested, that it is waited for, once, that it is gone, or that
/// it failed and why. An object that was gone already is not told of.
pub proof fn law_what_is_told(v: CleanupView, why: Seq<char>, stop: bool, blocked: bool, polls: u32)
    ensures
        ({
            let id = v.targets[v.at];
            &&& v.stage is Permit ==> progress_of(v) == Some(ProgressView::Validating(id))
            &&& v.stage == (StageView::Checkpoint {
                result: CleanupResultView::DeleteRequested,
                stop,
            }) ==> progress_of(v) == Some(ProgressView::DeleteRequested(id))
            &&& v.stage == (StageView::Checkpoint { result: CleanupResultView::Gone, stop })
                ==> progress_of(v) == Some(ProgressView::Gone(id))
            &&& v.stage == (StageView::Checkpoint { result: CleanupResultView::AlreadyGone, stop })
                ==> progress_of(v) is None
            &&& v.stage == (StageView::Checkpoint { result: CleanupResultView::Failed(why), stop })
                ==> progress_of(v) == Some(ProgressView::Failed(id, why))
            &&& v.stage == (StageView::Checkpoint {
                result: CleanupResultView::UnknownOutcome(why),
                stop,
            }) ==> progress_of(v) == Some(ProgressView::Failed(id, why))
            &&& v.stage == (StageView::Wait { polls, blocked }) ==> (polls == 0 <==> progress_of(v)
                == Some(ProgressView::WaitingGone(id))) && (polls > 0 <==> progress_of(v) is None)
            &&& v.stage is Finished || v.stage is Stopped || v.stage is Look || v.stage is Delete
                ==> progress_of(v) is None
        }),
{
}

/// A saved decision, with a basis, on a resource that the plan expected to go and that
/// stands nowhere else in the audit: the candidate is that resource under the UID that
/// it is live under. And one on a resource that the audit found without evidence is a
/// fault.
pub proof fn law_decision_on_an_expected_residual(d: SavedDecision, audit: ResidualAudit, k: int)
    requires
        forall|j: int|
            0 <= j < audit.likely_operator_residual@.len() ==> !is_match(
                d.match_spec,
                (#[trigger] audit.likely_operator_residual@[j]).resource@,
            ),
        d.basis.decisive_evidence@.len() > 0 || d.basis.provenance is Some,
    ensures
        0 <= k < audit.unattributed@.len() && is_match(
            d.match_spec,
            audit.unattributed@[k].resource@,
        ) && (forall|j: int|
            0 <= j < audit.unattributed@.len() ==> (#[trigger] audit.unattributed@[j]).confidence
                == ResidualConfidence::NoEvidence) ==> usable_verdict(d, audit) is Fault,
        (forall|j: int|
            0 <= j < audit.unattributed@.len() ==> !is_match(
                d.match_spec,
                (#[trigger] audit.unattributed@[j]).resource@,
            )) && (forall|j: int|
            0 <= j < audit.planned_delete_still_present@.len() ==> !is_match(
                d.match_spec,
                (#[trigger] audit.planned_delete_still_present@[j]).resource@,
            )) && 0 <= k < audit.planned_expect_still_present@.len() && is_match(
            d.match_spec,
            audit.planned_expect_still_present@[k].resource@,
        ) && (forall|j: int|
            0 <= j < k ==> !is_match(
                d.match_spec,
                (#[trigger] audit.planned_expect_still_present@[j]).resource@,
            )) ==> {
            let x = audit.planned_expect_still_present@[k];
            &&& x.live_uid matches Some(uid) ==> usable_verdict(d, audit) == Verdict::Candidate(
                ResourceIdView { uid: Some(uid@), ..x.resource@ },
            )
            &&& x.live_uid is None ==> usable_verdict(d, audit) is Ignored
        },
{
    let m = d.match_spec;
    lemma_residual(audit.likely_operator_residual@, m, 0);
    lemma_residual(audit.unattributed@, m, 0);
    lemma_item(audit.planned_delete_still_present@, m, 0);
    lemma_item(audit.planned_expect_still_present@, m, 0);
    if let Some(x) = residual_for(audit.unattributed@, m, 0) {
        let c = choose|c: int|
            0 <= c < audit.unattributed@.len() && #[trigger] audit.unattributed@[c] == x
                && is_match(m, x.resource@) && forall|j: int|
                0 <= j < c ==> !is_match(m, (#[trigger] audit.unattributed@[j]).resource@);
        assert(audit.unattributed@[c] == x);
    }
    let items = audit.planned_expect_still_present@;
    if 0 <= k < items.len() && is_match(m, items[k].resource@) && (forall|j: int|
        0 <= j < k ==> !is_match(m, (#[trigger] items[j]).resource@)) {
        let x = item_for(items, m, 0)->0;
        let c = choose|c: int|
            0 <= c < items.len() && #[trigger] items[c] == x && is_match(m, x.resource@)
                && forall|j: int| 0 <= j < c ==> !is_match(m, (#[trigger] items[j]).resource@);
        assert(c == k);
    }
}

} // verus!
