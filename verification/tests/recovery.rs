//! Finalizer recovery, DELETEs of recreated objects, and leaving objects behind.

use teardown::cluster::{GetReply, LiveObject, OwnerReference, RequestError};
use teardown::executor::defer::{
    begin_defer, look_at_root, observe_defer, verify_root_endpoint, DeferStep,
};
use teardown::executor::recovery::{
    after_patch, after_recheck, after_recheck_endpoint, after_recovery_error,
    after_recovery_found, after_root_endpoint, after_root_get, begin_recovery,
    collect_effective_roots, conclude_recovery, order_strip, protected_kind, PatchOp,
    RecoveryRole, RecoverySkip, RecoveryStep,
};
use teardown::executor::redelete::{
    after_absent_redelete, after_redelete, after_redelete_endpoint, after_redelete_get,
    conclude_redelete, obstructed, ReDeleteAttemptResult, ReDeleteEvent, ReDeleteObstacle,
    ReDeleteRun, ReDeleteStage, ReDeleteStep,
};
use teardown::executor::stripping::{RecoveryEvent, RecoveryRun, RecoveryStage};
use teardown::journal::records::{
    authorize_redelete, confirm_redeletes, has_taken_redelete, settle_recovery, settle_redelete,
};
use teardown::journal::{FinalizerRecoveryResult, ReDeleteRecord, ReDeleteResult};
use teardown::planner::{Action, PlanPhase};
use teardown::resource::ResourceId;
use teardown::watch::ResourceRuntimeState;

fn res(kind: &str, name: &str, uid: &str) -> ResourceId {
    ResourceId {
        group: "x.io".to_string(),
        version: "v1".to_string(),
        kind: kind.to_string(),
        namespace: Some("ns".to_string()),
        name: name.to_string(),
        uid: Some(uid.to_string()),
    }
}

fn live(uid: Option<&str>, terminating: bool, finalizers: Vec<&str>, owners: Vec<&str>) -> LiveObject {
    LiveObject {
        name: Some("o".to_string()),
        namespace: Some("ns".to_string()),
        uid: uid.map(String::from),
        resource_version: Some("7".to_string()),
        terminating,
        finalizers: finalizers.into_iter().map(String::from).collect(),
        owner_references: owners
            .into_iter()
            .map(|u| OwnerReference {
                api_version: "x.io/v1".to_string(),
                kind: "Root".to_string(),
                name: "root".to_string(),
                uid: u.to_string(),
                controller: None,
                block_owner_deletion: Some(true),
            })
            .collect(),
        labels: vec![],
        annotations: vec![],
        managers: vec![],
        spec_name: None,
        template_service_account: None,
        service_account: None,
        installed_csv: None,
        current_csv: None,
    }
}

fn status(code: u16) -> RequestError {
    RequestError::Status {
        code,
        reason: "Reason".to_string(),
        message: "message".to_string(),
        text: format!("Reason: message ({})", code),
    }
}

fn phase() -> PlanPhase {
    PlanPhase {
        name: "operands".to_string(),
        description: String::new(),
        actions: vec![
            Action::Delete {
                resource: res("Root", "root", "uid-root"),
                reason: "test".to_string(),
            },
            Action::ExpectGone {
                resource: res("Child", "child", "uid-child"),
                reason: "owned".to_string(),
            },
            Action::Delete {
                resource: res("PersistentVolumeClaim", "data", "uid-data"),
                reason: "test".to_string(),
            },
        ],
        barrier: None,
    }
}

const CHILD: RecoveryRole = RecoveryRole {
    expected: true,
    deleted: false,
};

const ROOT: RecoveryRole = RecoveryRole {
    expected: false,
    deleted: true,
};

fn record(result: ReDeleteResult) -> ReDeleteRecord {
    ReDeleteRecord {
        resource_identity: res("Root", "root", "uid-root"),
        original_uid: "uid-root".to_string(),
        new_uid: "uid-new".to_string(),
        result,
    }
}

#[test]
fn recovery_begins_with_objects_of_the_phase_only() {
    let p = phase();
    assert!(matches!(
        begin_recovery(&p, &res("Child", "child", "uid-child")),
        RecoveryStep::Read(r) if r == CHILD
    ));
    assert!(matches!(
        begin_recovery(&p, &res("Root", "root", "uid-root")),
        RecoveryStep::Read(r) if r == ROOT
    ));
    assert!(matches!(
        begin_recovery(&p, &res("Child", "other", "uid-other")),
        RecoveryStep::Skip(RecoverySkip::NotOfPhase)
    ));
    assert!(matches!(
        begin_recovery(&p, &res("PersistentVolumeClaim", "data", "uid-data")),
        RecoveryStep::Skip(RecoverySkip::ProtectedKind)
    ));
}

#[test]
fn recovery_needs_a_planned_uid() {
    let mut p = phase();
    p.actions[0] = Action::Delete {
        resource: res("Root", "root", ""),
        reason: "test".to_string(),
    };
    assert!(matches!(
        begin_recovery(&p, &res("Root", "root", "")),
        RecoveryStep::Skip(RecoverySkip::NoPlanUid)
    ));
}

#[test]
fn protected_kinds_are_named() {
    assert!(protected_kind("Namespace"));
    assert!(protected_kind("OperatorGroup"));
    assert!(!protected_kind("ConfigMap"));
}

#[test]
fn the_answer_to_the_get_decides_on_recovery() {
    let child = res("Child", "child", "uid-child");
    let roots = vec![res("Root", "root", "uid-root")];
    let none = vec![];
    let read = |o: LiveObject| after_recovery_found(CHILD, &child, &roots, &none, &o);
    assert!(matches!(
        read(live(Some("uid-other"), true, vec!["f"], vec!["uid-root"])),
        RecoveryStep::Skip(RecoverySkip::UidChanged)
    ));
    assert!(matches!(
        read(live(None, true, vec!["f"], vec!["uid-root"])),
        RecoveryStep::Skip(RecoverySkip::NoLiveUid)
    ));
    assert!(matches!(
        read(live(Some("uid-child"), false, vec!["f"], vec!["uid-root"])),
        RecoveryStep::Skip(RecoverySkip::NotTerminating)
    ));
    assert!(matches!(
        read(live(Some("uid-child"), true, vec!["f"], vec![])),
        RecoveryStep::Skip(RecoverySkip::OwnerCount)
    ));
    assert!(matches!(
        read(live(Some("uid-child"), true, vec!["f"], vec!["uid-root", "uid-2"])),
        RecoveryStep::Skip(RecoverySkip::OwnerCount)
    ));
    assert!(matches!(
        read(live(Some("uid-child"), true, vec!["f"], vec!["uid-2"])),
        RecoveryStep::Skip(RecoverySkip::ForeignOwner)
    ));
    assert!(matches!(
        read(live(Some("uid-child"), true, vec!["f"], vec!["uid-root"])),
        RecoveryStep::LookAtRoot(r) if r.name == "root"
    ));
    assert!(matches!(
        after_recovery_error(&status(404)),
        RecoverySkip::Absent
    ));
    assert!(matches!(
        after_recovery_error(&status(403)),
        RecoverySkip::ReadFailed
    ));
}

#[test]
fn a_deleted_object_needs_no_owner() {
    let root = res("Root", "root", "uid-root");
    assert!(matches!(
        after_recovery_found(
            ROOT,
            &root,
            &vec![],
            &vec![],
            &live(Some("uid-root"), true, vec!["f"], vec![])
        ),
        RecoveryStep::Strip
    ));
}

#[test]
fn a_replaced_object_is_recovered_once_its_delete_was_taken() {
    let root = res("Root", "root", "uid-root");
    let o = live(Some("uid-new"), true, vec!["f"], vec![]);
    assert!(matches!(
        after_recovery_found(ROOT, &root, &vec![], &vec![record(ReDeleteResult::Accepted)], &o),
        RecoveryStep::Strip
    ));
    assert!(matches!(
        after_recovery_found(ROOT, &root, &vec![], &vec![record(ReDeleteResult::Authorized)], &o),
        RecoveryStep::Skip(RecoverySkip::UidChanged)
    ));
}

#[test]
fn effective_roots_follow_taken_redeletes_of_what_was_deleted() {
    let deleted = vec![res("Root", "root", "uid-root")];
    let roots = collect_effective_roots(&deleted, &vec![record(ReDeleteResult::Accepted)]);
    assert_eq!(roots.len(), 2);
    assert_eq!(roots[1].uid, Some("uid-new".to_string()));
    assert_eq!(
        collect_effective_roots(&deleted, &vec![record(ReDeleteResult::Failed("x".to_string()))])
            .len(),
        1
    );
    let mut wrong = record(ReDeleteResult::Accepted);
    wrong.original_uid = "uid-elsewhere".to_string();
    assert_eq!(collect_effective_roots(&deleted, &vec![wrong]).len(), 1);
}

#[test]
fn the_owner_must_be_gone() {
    let root = res("Root", "root", "uid-root");
    let look = |r: GetReply| after_root_get(&root, &r);
    assert!(matches!(
        look(GetReply::Found(live(Some("uid-root"), true, vec![], vec![]))),
        RecoveryStep::Skip(RecoverySkip::RootPresent)
    ));
    assert!(matches!(
        look(GetReply::Found(live(None, true, vec![], vec![]))),
        RecoveryStep::Skip(RecoverySkip::RootWithoutUid)
    ));
    assert!(matches!(
        look(GetReply::Found(live(Some("uid-new"), true, vec![], vec![]))),
        RecoveryStep::Strip
    ));
    assert!(matches!(
        look(GetReply::Failed(status(500))),
        RecoveryStep::Skip(RecoverySkip::RootReadFailed)
    ));
    assert!(matches!(
        look(GetReply::Failed(status(404))),
        RecoveryStep::VerifyRootEndpoint
    ));
    assert!(matches!(after_root_endpoint(true), RecoveryStep::Strip));
    assert!(matches!(
        after_root_endpoint(false),
        RecoveryStep::Skip(RecoverySkip::RootEndpoint)
    ));
}

#[test]
fn a_patch_is_tested_against_what_was_read() {
    let child = res("Child", "child", "uid-child");
    let o = live(Some("uid-child"), true, vec!["a", "b"], vec!["uid-root"]);
    let order = order_strip(CHILD, &child, &o).unwrap();
    assert_eq!(order.patch.len(), 4);
    assert!(matches!(&order.patch[0], PatchOp::TestUid(u) if u == "uid-child"));
    assert!(matches!(&order.patch[1], PatchOp::TestOwners(o) if o[0].uid == "uid-root"));
    assert!(matches!(&order.patch[2], PatchOp::TestFinalizers(f) if f.len() == 2));
    assert!(matches!(&order.patch[3], PatchOp::ClearFinalizers));
    assert_eq!(order.record.root_uid, "uid-root");
    assert_eq!(order.record.root_kind, "Root");
    assert!(matches!(
        order.record.result,
        FinalizerRecoveryResult::PatchRequested
    ));

    let own = order_strip(
        ROOT,
        &res("Root", "root", "uid-root"),
        &live(Some("uid-root"), true, vec!["a"], vec![]),
    )
    .unwrap();
    assert_eq!(own.patch.len(), 3);
    assert_eq!(own.record.root_uid, "uid-root");

    let bare = live(Some("uid-child"), true, vec![], vec!["uid-root"]);
    assert!(order_strip(CHILD, &child, &bare).is_none());
}

#[test]
fn a_lost_answer_is_settled_by_proof_only() {
    assert!(matches!(
        after_patch(&Ok(())),
        Some(FinalizerRecoveryResult::Stripped)
    ));
    assert!(matches!(
        after_patch(&Err(status(422))),
        Some(FinalizerRecoveryResult::Failed(e)) if e == "precondition: Reason"
    ));
    assert!(after_patch(&Err(status(500))).is_none());

    let child = res("Child", "child", "uid-child");
    let before = live(Some("uid-child"), true, vec!["f"], vec!["uid-root"]);
    let saved = order_strip(CHILD, &child, &before)
        .unwrap()
        .record
        .owner_references_snapshot;
    let look = |o: LiveObject| after_recheck("uid-child", &saved, &GetReply::Found(o));
    assert!(matches!(
        look(live(Some("uid-child"), true, vec![], vec!["uid-root"])),
        Some(FinalizerRecoveryResult::Stripped)
    ));
    assert!(matches!(
        look(live(Some("uid-child"), true, vec!["f"], vec!["uid-root"])),
        Some(FinalizerRecoveryResult::PatchRequested)
    ));
    assert!(matches!(
        look(live(Some("uid-other"), true, vec![], vec!["uid-root"])),
        Some(FinalizerRecoveryResult::PatchRequested)
    ));
    assert!(matches!(
        look(live(Some("uid-child"), true, vec![], vec!["uid-2"])),
        Some(FinalizerRecoveryResult::PatchRequested)
    ));
    assert!(after_recheck("uid-child", &saved, &GetReply::Failed(status(404))).is_none());
    assert!(matches!(
        after_recheck_endpoint(true),
        FinalizerRecoveryResult::Gone
    ));
    assert!(matches!(
        after_recheck_endpoint(false),
        FinalizerRecoveryResult::PatchRequested
    ));
}

#[test]
fn an_open_recovery_stops_everything() {
    let child = res("Child", "child", "uid-child");
    let o = live(Some("uid-child"), true, vec!["f"], vec!["uid-root"]);
    let mut records = vec![order_strip(CHILD, &child, &o).unwrap().record];
    assert_eq!(
        conclude_recovery(1, &records),
        Err(
            "Unresolved PatchRequested finalizer recovery — stopping to prevent further \
             mutations with ambiguous prior state"
                .to_string()
        )
    );
    settle_recovery(
        &mut records,
        &child,
        "uid-child",
        FinalizerRecoveryResult::Stripped,
    );
    assert_eq!(conclude_recovery(2, &records), Ok(2));
}

fn begun() -> RecoveryRun {
    RecoveryRun::begin(
        &phase(),
        &vec![
            res("Child", "child", "uid-child"),
            res("PersistentVolumeClaim", "data", "uid-data"),
            res("Root", "root", "uid-root"),
        ],
        &vec![res("Root", "root", "uid-root")],
        vec![],
    )
}

fn found(uid: &str, owners: Vec<&str>) -> RecoveryEvent {
    RecoveryEvent::Reply(GetReply::Found(live(Some(uid), true, vec!["f"], owners)))
}

/// The child was read, and its owner is gone.
fn child_cleared() -> RecoveryRun {
    let run = begun().step(found("uid-child", vec!["uid-root"]));
    assert!(matches!(&run.stage, RecoveryStage::LookAtRoot { root, .. } if root.name == "root"));
    let run = run.step(RecoveryEvent::Reply(GetReply::Failed(status(404))));
    assert!(matches!(run.stage, RecoveryStage::VerifyRoot { .. }));
    let run = run.step(RecoveryEvent::Endpoint(true));
    assert!(matches!(run.stage, RecoveryStage::Permit { .. }));
    run
}

fn child_patched() -> RecoveryRun {
    let run = child_cleared().step(RecoveryEvent::Permit(true));
    assert!(matches!(run.stage, RecoveryStage::Record { .. }));
    assert_eq!(run.order().unwrap().record.live_uid, "uid-child");
    let run = run.step(RecoveryEvent::Recorded);
    assert!(matches!(run.stage, RecoveryStage::Patch { .. }));
    assert_eq!(run.order().unwrap().patch.len(), 4);
    run
}

#[test]
fn a_recovery_looks_at_each_object_of_the_phase() {
    let run = begun();
    assert_eq!(run.targets.len(), 2);
    assert_eq!(run.targets[0].0.name, "child");
    assert_eq!(run.targets[0].1, CHILD);
    assert_eq!(run.targets[1].0.name, "root");
    assert_eq!(run.skipped.len(), 1);
    assert!(matches!(run.skipped[0].1, RecoverySkip::ProtectedKind));
    assert_eq!(run.roots.len(), 1);
    assert!(matches!(run.stage, RecoveryStage::Read));
    assert!(run.order().is_none());
}

#[test]
fn a_patch_that_was_taken_leads_to_the_next_object() {
    let run = child_patched().step(RecoveryEvent::Patched(Ok(())));
    assert!(matches!(
        &run.stage,
        RecoveryStage::Settle { result: FinalizerRecoveryResult::Stripped, lost: false, .. }
    ));
    assert_eq!(run.recovered, 0);
    let run = run.step(RecoveryEvent::Recorded);
    assert_eq!(run.recovered, 1);
    assert_eq!(run.at, 1);
    assert!(matches!(run.stage, RecoveryStage::Read));
    // What was deleted needs no owner.
    let run = run.step(found("uid-root", vec![]));
    assert!(matches!(run.stage, RecoveryStage::Permit { .. }));
    let run = run
        .step(RecoveryEvent::Permit(true))
        .step(RecoveryEvent::Recorded)
        .step(RecoveryEvent::Patched(Err(status(422))))
        .step(RecoveryEvent::Recorded);
    assert!(matches!(run.stage, RecoveryStage::Finished));
    assert_eq!(run.recovered, 1);
}

#[test]
fn a_recovery_without_a_permit_is_over() {
    let run = child_cleared().step(RecoveryEvent::Permit(false));
    assert!(matches!(run.stage, RecoveryStage::Finished));
    assert_eq!(run.recovered, 0);
    assert!(run.order().is_none());
}

#[test]
fn a_lost_patch_ends_the_recovery() {
    let lost = || {
        let run = child_patched().step(RecoveryEvent::Patched(Err(status(500))));
        assert!(matches!(run.stage, RecoveryStage::Recheck { .. }));
        run
    };
    let run = lost().step(RecoveryEvent::Reply(GetReply::Found(live(
        Some("uid-child"),
        true,
        vec![],
        vec!["uid-root"],
    ))));
    assert!(matches!(
        &run.stage,
        RecoveryStage::Settle { result: FinalizerRecoveryResult::Stripped, lost: true, .. }
    ));
    let run = run.step(RecoveryEvent::Recorded);
    assert!(matches!(run.stage, RecoveryStage::Finished));
    assert_eq!(run.recovered, 1);

    let run = lost()
        .step(found("uid-child", vec!["uid-root"]))
        .step(RecoveryEvent::Recorded);
    assert!(matches!(run.stage, RecoveryStage::Finished));
    assert_eq!(run.recovered, 0);

    let run = lost().step(RecoveryEvent::Reply(GetReply::Failed(status(404))));
    assert!(matches!(run.stage, RecoveryStage::RecheckEndpoint { .. }));
    let run = run.step(RecoveryEvent::Endpoint(true));
    assert!(matches!(
        &run.stage,
        RecoveryStage::Settle { result: FinalizerRecoveryResult::Gone, lost: true, .. }
    ));
    assert_eq!(run.step(RecoveryEvent::Recorded).recovered, 1);
}

#[test]
fn a_recovery_passes_over_what_it_may_not_touch() {
    let why = |run: RecoveryRun| {
        assert!(matches!(run.stage, RecoveryStage::Read));
        assert_eq!(run.at, 1);
        assert_eq!(run.skipped.len(), 2);
        assert_eq!(run.skipped[1].0.name, "child");
        run.skipped[1].1
    };
    assert!(matches!(
        why(begun().step(RecoveryEvent::Unresolved)),
        RecoverySkip::Unresolved
    ));
    assert!(matches!(
        why(begun().step(RecoveryEvent::Reply(GetReply::Failed(status(404))))),
        RecoverySkip::Absent
    ));
    assert!(matches!(
        why(begun().step(found("uid-other", vec!["uid-root"]))),
        RecoverySkip::UidChanged
    ));
    assert!(matches!(
        why(begun().step(found("uid-child", vec!["uid-2"]))),
        RecoverySkip::ForeignOwner
    ));
    let read = || begun().step(found("uid-child", vec!["uid-root"]));
    assert!(matches!(
        why(read().step(RecoveryEvent::Unresolved)),
        RecoverySkip::RootUnresolved
    ));
    assert!(matches!(
        why(read().step(found("uid-root", vec![]))),
        RecoverySkip::RootPresent
    ));
    assert!(matches!(
        why(read()
            .step(RecoveryEvent::Reply(GetReply::Failed(status(404))))
            .step(RecoveryEvent::Endpoint(false))),
        RecoverySkip::RootEndpoint
    ));
    let bare = RecoveryEvent::Reply(GetReply::Found(live(
        Some("uid-child"),
        true,
        vec![],
        vec!["uid-root"],
    )));
    assert!(matches!(
        why(begun()
            .step(bare)
            .step(RecoveryEvent::Reply(GetReply::Failed(status(404))))
            .step(RecoveryEvent::Endpoint(true))),
        RecoverySkip::NoFinalizers
    ));
}

fn attempt(events: Vec<ReDeleteEvent>) -> ReDeleteStage {
    let mut run = ReDeleteRun::new("uid-root".to_string());
    for event in events {
        run = run.step(event);
    }
    run.stage
}

fn replaced() -> ReDeleteEvent {
    ReDeleteEvent::Reply(GetReply::Found(live(Some("uid-new"), false, vec![], vec![])))
}

fn attempt_stop(events: Vec<ReDeleteEvent>) -> String {
    match attempt(events) {
        ReDeleteStage::Done(ReDeleteAttemptResult::Stop(why)) => why,
        other => panic!("unexpected {:?}", other),
    }
}

#[test]
fn a_further_delete_is_permitted_recorded_and_settled() {
    assert!(matches!(
        attempt(vec![replaced()]),
        ReDeleteStage::Permit { live_uid } if live_uid == "uid-new"
    ));
    assert!(matches!(
        attempt(vec![replaced(), ReDeleteEvent::Permit(true)]),
        ReDeleteStage::Record { live_uid } if live_uid == "uid-new"
    ));
    assert!(matches!(
        attempt(vec![
            replaced(),
            ReDeleteEvent::Permit(true),
            ReDeleteEvent::Recorded(Ok(())),
        ]),
        ReDeleteStage::Delete { live_uid } if live_uid == "uid-new"
    ));
    assert!(matches!(
        attempt(vec![
            replaced(),
            ReDeleteEvent::Permit(true),
            ReDeleteEvent::Recorded(Ok(())),
            ReDeleteEvent::Answered(Ok(())),
        ]),
        ReDeleteStage::Settle { result: ReDeleteResult::Accepted, .. }
    ));
    assert!(matches!(
        attempt(vec![
            replaced(),
            ReDeleteEvent::Permit(true),
            ReDeleteEvent::Recorded(Ok(())),
            ReDeleteEvent::Answered(Ok(())),
            ReDeleteEvent::Recorded(Ok(())),
        ]),
        ReDeleteStage::Done(ReDeleteAttemptResult::Accepted)
    ));
    assert!(matches!(
        attempt(vec![
            replaced(),
            ReDeleteEvent::Permit(true),
            ReDeleteEvent::Recorded(Ok(())),
            ReDeleteEvent::Answered(Err(status(404))),
            ReDeleteEvent::Listed(Ok(())),
            ReDeleteEvent::Recorded(Ok(())),
        ]),
        ReDeleteStage::Done(ReDeleteAttemptResult::Gone)
    ));
}

#[test]
fn a_further_delete_stops_where_it_is_obstructed() {
    assert_eq!(
        attempt_stop(vec![ReDeleteEvent::Unresolved]),
        "cannot resolve API"
    );
    assert_eq!(
        attempt_stop(vec![replaced(), ReDeleteEvent::Permit(false)]),
        "gate closed"
    );
    assert_eq!(
        attempt_stop(vec![
            replaced(),
            ReDeleteEvent::Permit(true),
            ReDeleteEvent::Recorded(Err("disk".to_string())),
        ]),
        "journal persist failed: disk"
    );
    assert_eq!(
        attempt_stop(vec![
            replaced(),
            ReDeleteEvent::Permit(true),
            ReDeleteEvent::Recorded(Ok(())),
            ReDeleteEvent::Answered(Ok(())),
            ReDeleteEvent::Recorded(Err("disk".to_string())),
        ]),
        "post-mutation journal checkpoint failed: disk"
    );
    // What is not waited for changes nothing.
    assert!(matches!(
        attempt(vec![ReDeleteEvent::Permit(true), ReDeleteEvent::Answered(Ok(()))]),
        ReDeleteStage::Look
    ));
}

#[test]
fn a_further_delete_is_bound_to_the_new_uid() {
    let get = |o: LiveObject| after_redelete_get("uid-root", &GetReply::Found(o));
    assert!(matches!(
        get(live(Some("uid-new"), false, vec![], vec![])),
        ReDeleteStep::Authorize { live_uid } if live_uid == "uid-new"
    ));
    assert!(matches!(
        get(live(Some("uid-new"), true, vec![], vec![])),
        ReDeleteStep::Done(ReDeleteAttemptResult::AlreadyDeleting)
    ));
    assert!(matches!(
        get(live(Some("uid-root"), false, vec![], vec![])),
        ReDeleteStep::Done(ReDeleteAttemptResult::Stop(e))
            if e == "live UID matches original — not recreated"
    ));
    assert!(matches!(
        get(live(None, false, vec![], vec![])),
        ReDeleteStep::Done(ReDeleteAttemptResult::Stop(e)) if e == "live resource has no UID"
    ));
    assert!(matches!(
        after_redelete_get("uid-root", &GetReply::Failed(status(404))),
        ReDeleteStep::VerifyEndpoint
    ));
    assert!(matches!(
        after_redelete_get("uid-root", &GetReply::Failed(status(403))),
        ReDeleteStep::Done(ReDeleteAttemptResult::Stop(e))
            if e == "GET failed: Reason: message (403)"
    ));
}

#[test]
fn an_absent_object_counts_as_gone_where_its_endpoint_is_there() {
    assert!(matches!(
        after_redelete_endpoint(&Ok(())),
        ReDeleteAttemptResult::Gone
    ));
    assert!(matches!(
        after_redelete_endpoint(&Err(status(403))),
        ReDeleteAttemptResult::Stop(e)
            if e == "404 but endpoint check failed: Reason: message (403)"
    ));
    assert!(matches!(
        after_absent_redelete(&Ok(())),
        ReDeleteResult::Gone
    ));
    assert!(matches!(
        after_absent_redelete(&Err(status(403))),
        ReDeleteResult::UnknownOutcome(_)
    ));
}

#[test]
fn every_answer_to_a_further_delete_ends_the_attempt() {
    assert!(matches!(
        after_redelete(&Ok(())),
        Some(ReDeleteResult::Accepted)
    ));
    assert!(after_redelete(&Err(status(404))).is_none());
    assert!(matches!(
        after_redelete(&Err(status(503))),
        Some(ReDeleteResult::UnknownOutcome(e)) if e == "Reason: message"
    ));
    assert!(matches!(
        after_redelete(&Err(status(409))),
        Some(ReDeleteResult::Failed(e)) if e == "Reason: message (409)"
    ));
    assert!(matches!(
        conclude_redelete(&ReDeleteResult::Accepted),
        ReDeleteAttemptResult::Accepted
    ));
    assert!(matches!(
        conclude_redelete(&ReDeleteResult::Gone),
        ReDeleteAttemptResult::Gone
    ));
    assert!(matches!(
        conclude_redelete(&ReDeleteResult::Authorized),
        ReDeleteAttemptResult::Stop(e) if e == "unexpected result"
    ));
    assert!(matches!(
        conclude_redelete(&ReDeleteResult::UnknownOutcome("lost".to_string())),
        ReDeleteAttemptResult::Stop(e) if e == "lost"
    ));
}

#[test]
fn obstacles_stop_an_attempt() {
    let text = |o: ReDeleteObstacle| match obstructed(&o) {
        ReDeleteAttemptResult::Stop(e) => e,
        other => panic!("unexpected {:?}", other),
    };
    assert_eq!(text(ReDeleteObstacle::UnresolvedApi), "cannot resolve API");
    assert_eq!(text(ReDeleteObstacle::GateClosed), "gate closed");
    assert_eq!(
        text(ReDeleteObstacle::NotRecorded("disk".to_string())),
        "journal persist failed: disk"
    );
    assert_eq!(
        text(ReDeleteObstacle::NotSettled("disk".to_string())),
        "post-mutation journal checkpoint failed: disk"
    );
}

#[test]
fn redelete_records_are_authorized_settled_and_confirmed() {
    let root = res("Root", "root", "uid-root");
    let mut records = vec![];
    authorize_redelete(&mut records, &root, "uid-root", "uid-new");
    assert!(!has_taken_redelete(&records, &root, "uid-root", "uid-new"));
    settle_redelete(
        &mut records,
        &root,
        "uid-root",
        "uid-new",
        ReDeleteResult::Accepted,
    );
    assert!(has_taken_redelete(&records, &root, "uid-root", "uid-new"));
    assert!(!has_taken_redelete(&records, &root, "uid-root", "uid-3"));
    confirm_redeletes(&mut records, &vec![(root, "uid-root".to_string())]);
    assert!(matches!(records[0].result, ReDeleteResult::Gone));
}

#[test]
fn only_what_belongs_to_the_phase_may_be_left() {
    let p = phase();
    assert_eq!(begin_defer(&vec![], &p), DeferStep::Answer(true));
    assert_eq!(
        begin_defer(&vec![res("Child", "child", "uid-child")], &p),
        DeferStep::Observe
    );
    // A root counts whatever its UID; an expected object only under its own.
    assert_eq!(
        begin_defer(&vec![res("Root", "root", "uid-new")], &p),
        DeferStep::Observe
    );
    assert_eq!(
        begin_defer(&vec![res("Child", "child", "uid-2")], &p),
        DeferStep::Answer(false)
    );
}

#[test]
fn what_is_not_known_may_not_be_left() {
    let roots = vec![res("Root", "root", "uid-root")];
    assert_eq!(
        observe_defer(&vec![Some(ResourceRuntimeState::Deleting)], &roots),
        DeferStep::LookAt(0)
    );
    assert_eq!(
        observe_defer(&vec![Some(ResourceRuntimeState::Deleting)], &vec![]),
        DeferStep::Answer(true)
    );
    assert_eq!(
        observe_defer(&vec![None], &roots),
        DeferStep::Answer(false)
    );
    assert_eq!(
        observe_defer(
            &vec![Some(ResourceRuntimeState::Unknown {
                reason: "lost".to_string()
            })],
            &roots
        ),
        DeferStep::Answer(false)
    );
    assert_eq!(
        observe_defer(
            &vec![Some(ResourceRuntimeState::Failed {
                reason: "lost".to_string()
            })],
            &roots
        ),
        DeferStep::Answer(false)
    );
}

#[test]
fn every_root_must_be_gone_or_replaced() {
    let roots = vec![
        res("Root", "root", "uid-root"),
        res("Root", "root2", "uid-root2"),
    ];
    let none = vec![];
    assert_eq!(
        look_at_root(&roots, 0, &None, &none),
        DeferStep::Answer(false)
    );
    assert_eq!(
        look_at_root(&roots, 0, &Some(GetReply::Failed(status(403))), &none),
        DeferStep::Answer(false)
    );
    assert_eq!(
        look_at_root(&roots, 0, &Some(GetReply::Failed(status(404))), &none),
        DeferStep::VerifyEndpoint(0)
    );
    assert_eq!(verify_root_endpoint(&roots, 0, true), DeferStep::LookAt(1));
    assert_eq!(verify_root_endpoint(&roots, 1, true), DeferStep::Answer(true));
    assert_eq!(
        verify_root_endpoint(&roots, 1, false),
        DeferStep::Answer(false)
    );
    let there = |uid: &str| Some(GetReply::Found(live(Some(uid), true, vec![], vec![])));
    assert_eq!(
        look_at_root(&roots, 0, &there("uid-root"), &none),
        DeferStep::Answer(false)
    );
    assert_eq!(
        look_at_root(&roots, 0, &there("uid-new"), &none),
        DeferStep::Answer(false)
    );
    assert_eq!(
        look_at_root(
            &roots,
            0,
            &there("uid-new"),
            &vec![record(ReDeleteResult::Accepted)]
        ),
        DeferStep::LookAt(1)
    );
    assert_eq!(
        look_at_root(
            &roots,
            0,
            &there("uid-3"),
            &vec![record(ReDeleteResult::Accepted)]
        ),
        DeferStep::Answer(false)
    );
}
