//! Cleaning up residual objects.

use teardown::audit::generation::OperatorGenerationState;
use teardown::audit::{AuditCoverage, RecreationState, ResidualAudit, ResidualItem};
use teardown::cluster::{GetReply, LiveObject, RequestError};
use teardown::executor::cleanup::{
    audit_after_failed, check_cleanup_generation, check_generation_after, residual_phase,
    CleanupError, CleanupEvent, CleanupProgress, CleanupRun, CleanupStage, GONE_POLLS,
};
use teardown::executor::deletion::DeleteOutcome;
use teardown::journal::records::{record_decision, settle_decision};
use teardown::journal::{CleanupResult, ResidualStatus, RunState};
use teardown::planner::Action;
use teardown::resource::ResourceId;

fn res(kind: &str, name: &str) -> ResourceId {
    ResourceId {
        group: if kind == "Subscription" {
            "operators.coreos.com".to_string()
        } else {
            String::new()
        },
        version: "v1".to_string(),
        kind: kind.to_string(),
        namespace: Some("ns".to_string()),
        name: name.to_string(),
        uid: Some(format!("uid-{}", name)),
    }
}

fn audit(found: &Vec<ResourceId>) -> ResidualAudit {
    ResidualAudit {
        planned_delete_still_present: found
            .iter()
            .map(|r| ResidualItem {
                resource: r.clone(),
                planned_action: "DELETE".to_string(),
                live_uid: r.uid.clone(),
                recreation: RecreationState::SameResource,
            })
            .collect(),
        planned_expect_still_present: vec![],
        expected_preserved: vec![],
        likely_operator_residual: vec![],
        unattributed: vec![],
        coverage: AuditCoverage {
            requested_probes: 1,
            succeeded_probes: 1,
        },
        scan_errors: vec![],
    }
}

fn live(uid: Option<&str>) -> LiveObject {
    LiveObject {
        name: Some("o".to_string()),
        namespace: Some("ns".to_string()),
        uid: uid.map(String::from),
        resource_version: None,
        terminating: false,
        finalizers: vec![],
        owner_references: vec![],
        labels: vec![],
        annotations: vec![],
        managers: vec![],
        spec_name: None,
        template_service_account: None,
        service_account: None,
        installed_csv: None,
        current_csv: None,
    }
}

fn found(uid: &str) -> CleanupEvent {
    CleanupEvent::Reply(GetReply::Found(live(Some(uid))))
}

fn held(uid: &str) -> CleanupEvent {
    let mut o = live(Some(uid));
    o.terminating = true;
    o.finalizers = vec!["f".to_string()];
    CleanupEvent::Reply(GetReply::Found(o))
}

fn failed(code: u16) -> CleanupEvent {
    CleanupEvent::Reply(GetReply::Failed(RequestError::Status {
        code,
        reason: "Reason".to_string(),
        message: "message".to_string(),
        text: "text".to_string(),
    }))
}

fn begin(selected: Vec<ResourceId>) -> CleanupRun {
    let a = audit(&selected);
    CleanupRun::begin(
        &selected,
        &a,
        &ResidualStatus::ResidualsObserved {
            count: selected.len(),
        },
    )
    .unwrap()
}

fn feed(run: &mut CleanupRun, events: Vec<CleanupEvent>) {
    for e in &events {
        run.step(e);
    }
}

/// Up to the wait for the first object to go.
fn waiting(kind: &str, name: &str) -> CleanupRun {
    let mut run = begin(vec![res(kind, name)]);
    feed(
        &mut run,
        vec![
            CleanupEvent::Permit(true),
            CleanupEvent::Absent(true),
            found(&format!("uid-{}", name)),
            CleanupEvent::Recorded,
            CleanupEvent::Outcome(DeleteOutcome::Accepted),
            CleanupEvent::Recorded,
        ],
    );
    assert!(matches!(
        run.stage,
        CleanupStage::Wait {
            polls: 0,
            blocked: false
        }
    ));
    run
}

fn words(run: &CleanupRun) -> String {
    match &run.stage {
        CleanupStage::Stopped(e) => e.message(),
        other => panic!("not stopped: {:?}", other),
    }
}

#[test]
fn an_object_is_deleted_once_it_is_known_to_be_gone() {
    let mut run = begin(vec![res("ConfigMap", "a")]);
    assert!(matches!(
        run.progress(),
        Some(CleanupProgress::Validating { .. })
    ));
    run.step(&CleanupEvent::Permit(true));
    run.step(&CleanupEvent::Absent(true));
    run.step(&found("uid-a"));
    assert!(matches!(
        run.stage,
        CleanupStage::Record { spec_name: None }
    ));
    run.step(&CleanupEvent::Recorded);
    run.step(&CleanupEvent::Outcome(DeleteOutcome::Accepted));
    assert!(matches!(
        run.progress(),
        Some(CleanupProgress::DeleteRequested { .. })
    ));
    run.step(&CleanupEvent::Recorded);
    assert!(matches!(
        run.progress(),
        Some(CleanupProgress::WaitingGone { .. })
    ));
    run.step(&found("uid-a"));
    assert!(run.deleted.is_empty());
    run.step(&failed(404));
    assert!(matches!(run.stage, CleanupStage::WaitEndpoint));
    run.step(&CleanupEvent::Endpoint(true));
    assert!(matches!(run.progress(), Some(CleanupProgress::Gone { .. })));
    assert_eq!(run.deleted.len(), 1);
    run.step(&CleanupEvent::Recorded);
    assert!(matches!(run.stage, CleanupStage::Finished));
}

#[test]
fn an_incomplete_audit_blocks_a_cleanup() {
    let selected = vec![res("ConfigMap", "a")];
    match CleanupRun::begin(&selected, &audit(&selected), &ResidualStatus::AuditIncomplete) {
        Err(e) => assert_eq!(
            e.message(),
            "Fresh audit incomplete — residual cleanup blocked"
        ),
        Ok(_) => panic!("an incomplete audit must block"),
    }
}

#[test]
fn what_the_audit_did_not_find_is_skipped() {
    let a = audit(&vec![res("ConfigMap", "a")]);
    let status = ResidualStatus::ResidualsObserved { count: 1 };
    let run = CleanupRun::begin(
        &vec![res("ConfigMap", "a"), res("ConfigMap", "b")],
        &a,
        &status,
    )
    .unwrap();
    assert_eq!(run.targets.len(), 1);
    assert_eq!(run.skipped.len(), 1);
    assert_eq!(run.skipped[0].1, "not in current residual set");

    match CleanupRun::begin(&vec![res("ConfigMap", "b")], &a, &status) {
        Err(e) => assert_eq!(
            e.message(),
            "All 1 selected resource(s) were skipped — none eligible for cleanup. \
             State unchanged (retryable)."
        ),
        Ok(_) => panic!("nothing to clean up"),
    }
}

#[test]
fn an_empty_selection_is_finished_at_once() {
    let run = begin(vec![]);
    assert!(matches!(run.stage, CleanupStage::Finished));
}

#[test]
fn a_closed_gate_calls_the_cleanup_off() {
    let mut run = begin(vec![res("ConfigMap", "a")]);
    run.step(&CleanupEvent::Permit(false));
    assert_eq!(words(&run), "Mutation gate closed during cleanup");
    assert!(matches!(
        run.stage,
        CleanupStage::Stopped(CleanupError::GateClosed(_))
    ));
}

#[test]
fn a_new_generation_ends_the_cleanup() {
    let mut run = begin(vec![res("ConfigMap", "a"), res("ConfigMap", "b")]);
    feed(
        &mut run,
        vec![CleanupEvent::Permit(true), CleanupEvent::Absent(false)],
    );
    assert!(matches!(run.stage, CleanupStage::Finished));
    assert_eq!(
        run.skipped[0].1,
        "generation changed after permit acquisition"
    );
}

#[test]
fn the_look_before_a_delete_decides() {
    let look = |event: CleanupEvent| {
        let mut run = begin(vec![res("ConfigMap", "a")]);
        feed(
            &mut run,
            vec![CleanupEvent::Permit(true), CleanupEvent::Absent(true), event],
        );
        run
    };
    assert_eq!(
        words(&look(CleanupEvent::Unresolved)),
        "Cannot resolve API for ConfigMap/a"
    );
    assert_eq!(
        words(&look(CleanupEvent::Reply(GetReply::Found(live(None))))),
        "Missing UID for residual ConfigMap/a — fail-closed"
    );
    assert_eq!(
        words(&look(failed(403))),
        "Cannot GET residual ConfigMap/a: text"
    );
    let changed = look(found("uid-other"));
    assert!(matches!(changed.stage, CleanupStage::Finished));
    assert_eq!(
        changed.skipped[0].1,
        "UID changed from uid-a to uid-other"
    );
    let mut absent = look(failed(404));
    absent.step(&CleanupEvent::Endpoint(true));
    assert_eq!(absent.skipped[0].1, "already gone");
    let mut unclear = look(failed(404));
    unclear.step(&CleanupEvent::Endpoint(false));
    assert_eq!(
        words(&unclear),
        "Residual GET 404 endpoint verification failed"
    );
}

#[test]
fn a_subscription_is_tied_to_its_package() {
    let look = |event: CleanupEvent| {
        let mut run = begin(vec![res("Subscription", "s")]);
        feed(
            &mut run,
            vec![
                CleanupEvent::Permit(true),
                CleanupEvent::Absent(true),
                found("uid-s"),
                event,
            ],
        );
        run
    };
    let mut named = live(Some("uid-s"));
    named.spec_name = Some("widgets".to_string());
    let run = look(CleanupEvent::Reply(GetReply::Found(named)));
    assert!(matches!(
        run.stage,
        CleanupStage::Record { spec_name: Some(ref n) } if n == "widgets"
    ));
    assert_eq!(
        words(&look(found("uid-s"))),
        "Subscription s has no spec.name — cannot establish semantic identity"
    );
    assert_eq!(
        words(&look(found("uid-2"))),
        "Subscription s UID changed (uid-s → uid-2) — cannot capture semantic identity"
    );
    assert_eq!(
        words(&look(CleanupEvent::Reply(GetReply::Found(live(None))))),
        "Subscription s UID missing (get=\"\", expected=\"uid-s\") — fail-closed"
    );
    assert_eq!(
        words(&look(CleanupEvent::Unresolved)),
        "Cannot resolve API for Subscription s — fail-closed"
    );
    assert_eq!(
        words(&look(failed(500))),
        "Cannot GET Subscription s for semantic identity: text"
    );
    let mut gone = look(failed(404));
    gone.step(&CleanupEvent::Endpoint(true));
    assert_eq!(gone.skipped[0].1, "Subscription already gone");
    let mut unclear = look(failed(404));
    unclear.step(&CleanupEvent::Endpoint(false));
    assert_eq!(
        words(&unclear),
        "Subscription s GET 404 but endpoint verification failed"
    );
}

#[test]
fn an_answer_that_is_not_understood_ends_the_cleanup() {
    let answer = |outcome: DeleteOutcome| {
        let mut run = begin(vec![res("ConfigMap", "a"), res("ConfigMap", "b")]);
        feed(
            &mut run,
            vec![
                CleanupEvent::Permit(true),
                CleanupEvent::Absent(true),
                found("uid-a"),
                CleanupEvent::Recorded,
                CleanupEvent::Outcome(outcome),
            ],
        );
        assert!(matches!(run.stage, CleanupStage::Checkpoint { .. }));
        run.step(&CleanupEvent::Recorded);
        run
    };
    for outcome in [
        DeleteOutcome::Blocked("no".to_string()),
        DeleteOutcome::Unknown("lost".to_string()),
    ] {
        let run = answer(outcome);
        assert!(matches!(run.stage, CleanupStage::Finished));
        assert_eq!(run.failed.len(), 1);
        assert_eq!(run.at, 0);
    }
    let run = answer(DeleteOutcome::Rejected("in use".to_string()));
    assert!(matches!(run.stage, CleanupStage::Permit));
    assert_eq!(run.failed[0].1, "in use");
    let run = answer(DeleteOutcome::AlreadyGone);
    assert!(matches!(run.stage, CleanupStage::Permit));
    assert_eq!(run.deleted.len(), 1);
}

#[test]
fn an_object_that_stays_stops_the_cleanup() {
    let mut run = waiting("ConfigMap", "a");
    for _ in 0..GONE_POLLS {
        run.step(&found("uid-a"));
    }
    assert_eq!(
        words(&run),
        "Cleanup ConfigMap/a: DELETE accepted but not confirmed Gone after wait — stopping"
    );
}

#[test]
fn a_wait_that_reads_badly_stops_the_cleanup() {
    let mut run = waiting("ConfigMap", "a");
    run.step(&failed(500));
    assert_eq!(
        words(&run),
        "Cleanup ConfigMap/a: Gone-wait GET failed: text — stopping"
    );
    let mut run = waiting("ConfigMap", "a");
    run.step(&found("uid-2"));
    assert_eq!(
        words(&run),
        "Cleanup ConfigMap/a: UID changed uid-a → uid-2 — stopping"
    );
    let mut run = waiting("ConfigMap", "a");
    feed(&mut run, vec![failed(404), CleanupEvent::Endpoint(false)]);
    assert_eq!(words(&run), "404 endpoint verification failed — stopping");
    let mut run = waiting("ConfigMap", "a");
    run.step(&CleanupEvent::Unresolved);
    assert_eq!(
        words(&run),
        "Cannot resolve API for cleanup wait on ConfigMap/a"
    );
}

#[test]
fn held_objects_are_recovered_but_for_protected_kinds() {
    let hold = |kind: &str| {
        let mut run = waiting(kind, "a");
        for _ in 0..GONE_POLLS {
            run.step(&held("uid-a"));
        }
        run
    };
    assert!(matches!(
        hold("PersistentVolumeClaim").stage,
        CleanupStage::Stopped(_)
    ));
    let mut run = hold("ConfigMap");
    assert!(matches!(run.stage, CleanupStage::Recover));
    feed(
        &mut run,
        vec![
            CleanupEvent::Recovered(Some(1)),
            found("uid-a"),
            failed(404),
            CleanupEvent::Endpoint(true),
            CleanupEvent::Recorded,
        ],
    );
    assert!(matches!(run.stage, CleanupStage::Finished));
    assert_eq!(run.deleted.len(), 1);

    let mut run = hold("ConfigMap");
    run.step(&CleanupEvent::Recovered(None));
    assert_eq!(words(&run), "Residual finalizer recovery failed — stopping");
    let mut run = hold("ConfigMap");
    run.step(&CleanupEvent::Recovered(Some(0)));
    assert_eq!(
        words(&run),
        "Cleanup ConfigMap/a: finalizer recovery returned 0 — stopping"
    );
    let mut run = hold("ConfigMap");
    feed(
        &mut run,
        vec![CleanupEvent::Recovered(Some(1)), found("uid-2")],
    );
    assert_eq!(
        words(&run),
        "Post-recovery ConfigMap/a: UID changed — stopping"
    );
    let mut run = hold("ConfigMap");
    feed(
        &mut run,
        vec![
            CleanupEvent::Recovered(Some(1)),
            failed(404),
            CleanupEvent::Endpoint(false),
        ],
    );
    assert_eq!(
        words(&run),
        "Post-recovery endpoint check failed — stopping"
    );
}

#[test]
fn what_was_not_asked_for_changes_nothing() {
    let mut run = begin(vec![res("ConfigMap", "a")]);
    feed(
        &mut run,
        vec![
            CleanupEvent::Recorded,
            CleanupEvent::Outcome(DeleteOutcome::Accepted),
            CleanupEvent::Endpoint(true),
        ],
    );
    assert!(matches!(run.stage, CleanupStage::Permit));
    assert!(run.deleted.is_empty());
}

#[test]
fn decisions_and_the_audit_settle_the_state() {
    let a = res("ConfigMap", "a");
    let run = CleanupRun {
        targets: vec![a.clone()],
        at: 1,
        stage: CleanupStage::Finished,
        deleted: vec![a.clone()],
        skipped: vec![],
        failed: vec![],
    };
    let mut decisions = vec![];
    record_decision(&mut decisions, &a, None);
    let (state, said) = run.conclude(&decisions, &ResidualStatus::NoneObservedInScope);
    assert_eq!(state, RunState::InteractiveCleanup);
    match said {
        Err(e) => assert_eq!(
            e.message(),
            "Cleanup incomplete: 1 deleted, 0 skipped, 0 failed. \
             State persisted as InteractiveCleanup — retry is safe."
        ),
        Ok(()) => panic!("a decision is open"),
    }

    settle_decision(&mut decisions, &a, false, CleanupResult::Gone);
    let (state, said) = run.conclude(&decisions, &ResidualStatus::NoneObservedInScope);
    assert_eq!(state, RunState::ApplyCompleted);
    assert!(said.is_ok());
    let (state, _) = run.conclude(&decisions, &ResidualStatus::AuditIncomplete);
    assert_eq!(state, RunState::InteractiveCleanup);

    record_decision(&mut decisions, &a, None);
    settle_decision(
        &mut decisions,
        &a,
        false,
        CleanupResult::Failed("lost".to_string()),
    );
    let (state, said) = run.conclude(&decisions, &ResidualStatus::NoneObservedInScope);
    assert_eq!(state, RunState::Failed);
    match said {
        Err(e) => assert_eq!(
            e.message(),
            "Cleanup completed with failed or unconfirmed decisions"
        ),
        Ok(()) => panic!("a decision failed"),
    }
}

#[test]
fn a_cleanup_needs_the_operator_to_be_absent() {
    assert!(check_cleanup_generation(&OperatorGenerationState::Absent).is_ok());
    assert!(check_generation_after(&OperatorGenerationState::Absent).is_ok());
    for state in [
        OperatorGenerationState::SameGeneration,
        OperatorGenerationState::Reappeared,
        OperatorGenerationState::Unknown("x".to_string()),
    ] {
        match check_cleanup_generation(&state) {
            Err(e) => assert_eq!(
                e.message(),
                "Operator generation is not Absent — residual cleanup blocked"
            ),
            Ok(()) => panic!("{:?}", state),
        }
        assert!(check_generation_after(&state).is_err());
    }
    assert!(audit_after_failed("LIST failed").message().contains("LIST failed"));
}

#[test]
fn a_residual_object_is_freed_alone() {
    let phase = residual_phase(&res("ConfigMap", "a"));
    assert_eq!(phase.name, "residual cleanup");
    assert!(phase.description.is_empty());
    assert!(phase.barrier.is_none());
    assert_eq!(phase.actions.len(), 1);
    assert!(matches!(
        &phase.actions[0],
        Action::Delete { resource, reason }
            if resource.uid == Some("uid-a".to_string()) && reason == "residual cleanup"
    ));
}

#[test]
fn a_completed_cleanup_has_deleted_the_selection_in_order() {
    let selected = vec![res("Pod", "b"), res("Pod", "a"), res("Pod", "c")];
    let mut run = begin(selected.clone());
    for (i, r) in selected.iter().enumerate() {
        let uid = r.uid.clone().unwrap();
        feed(
            &mut run,
            vec![
                CleanupEvent::Permit(true),
                CleanupEvent::Absent(true),
                found(&uid),
                CleanupEvent::Recorded,
            ],
        );
        if i == 1 {
            feed(
                &mut run,
                vec![
                    CleanupEvent::Outcome(DeleteOutcome::AlreadyGone),
                    CleanupEvent::Recorded,
                ],
            );
        } else {
            feed(
                &mut run,
                vec![
                    CleanupEvent::Outcome(DeleteOutcome::Accepted),
                    CleanupEvent::Recorded,
                    failed(404),
                    CleanupEvent::Endpoint(true),
                    CleanupEvent::Recorded,
                ],
            );
        }
    }
    assert!(matches!(run.stage, CleanupStage::Finished));
    let (state, said) = run.conclude(&vec![], &ResidualStatus::NoneObservedInScope);
    assert_eq!(state, RunState::ApplyCompleted);
    assert!(said.is_ok());
    let deleted: Vec<&str> = run.deleted.iter().map(|r| r.name.as_str()).collect();
    assert_eq!(deleted, ["b", "a", "c"]);
}
