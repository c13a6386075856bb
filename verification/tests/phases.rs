//! Runs of whole plans.

use teardown::executor::gates::{check_plan, check_uids, PlanRefusal};
use teardown::executor::phases::{PlanRun, RunStage};
use teardown::executor::result::{FinalizerCheckResult, LiveCount};
use teardown::executor::waves::WaveResult;
use teardown::planner::{
    Action, Barrier, Blocker, PlanPhase, Preflight, PreflightCheck, PreflightSeverity,
    TeardownPlan,
};
use teardown::resource::ResourceId;
use teardown::watch::WatchWaitResult;

fn res(kind: &str, name: &str) -> ResourceId {
    ResourceId {
        group: if kind == "Subscription" || kind == "ClusterServiceVersion" {
            "operators.coreos.com".to_string()
        } else {
            String::new()
        },
        version: "v1".to_string(),
        kind: kind.to_string(),
        namespace: Some("ns".to_string()),
        name: name.to_string(),
        uid: Some(format!("uid-{}", name)),
    }
}

fn delete(kind: &str, name: &str) -> Action {
    Action::Delete {
        resource: res(kind, name),
        reason: "test".to_string(),
    }
}

fn expect(kind: &str, name: &str) -> Action {
    Action::ExpectGone {
        resource: res(kind, name),
        reason: "child".to_string(),
    }
}

fn phase(name: &str, actions: Vec<Action>) -> PlanPhase {
    PlanPhase {
        name: name.to_string(),
        description: String::new(),
        actions,
        barrier: Some(Barrier {
            description: "wait".to_string(),
        }),
    }
}

fn plan(phases: Vec<PlanPhase>) -> TeardownPlan {
    TeardownPlan {
        targets: vec![],
        preflight: Preflight { checks: vec![] },
        phases,
        blockers: vec![],
        warnings: vec![],
        snapshot_taken_at: String::new(),
        dependency_edges: vec![],
        operator_inventory: vec![],
        explicit_decisions: vec![],
    }
}

fn taken(gone: Vec<ResourceId>) -> WaveResult {
    let redelete_authorities = gone
        .iter()
        .map(|r| (r.clone(), r.uid.clone().unwrap()))
        .collect();
    WaveResult {
        accepted_gone: gone,
        already_gone: vec![],
        failed: vec![],
        stopped: false,
        redelete_authorities,
    }
}

fn stalled(remaining: Vec<ResourceId>) -> WatchWaitResult {
    let finalizer_details = remaining.iter().map(|r| (r.clone(), 2)).collect();
    WatchWaitResult::Stalled {
        remaining,
        finalizer_details,
        reason: "stuck".to_string(),
    }
}

fn recreated(name: &str, uid: &str) -> WatchWaitResult {
    WatchWaitResult::Recreated {
        remaining: vec![res("Widget", name)],
        recreated: vec![(
            res("Widget", name),
            format!("uid-{}", name),
            uid.to_string(),
        )],
    }
}

fn start(p: &TeardownPlan) -> PlanRun {
    let mut run = PlanRun::new(p, false, 0, Some("widgets".to_string()), &vec![]);
    run.enter(p, true);
    run
}

#[test]
fn a_plan_runs_phase_by_phase() {
    let p = plan(vec![
        phase("operands", vec![delete("Widget", "w"), expect("Pod", "p")]),
        phase(
            "rest",
            vec![Action::Keep {
                resource: res("ConfigMap", "c"),
                reason: "shared".to_string(),
            }],
        ),
    ]);
    let mut run = start(&p);
    assert_eq!(run.stage, RunStage::Waves);
    assert_eq!(run.eligible.len(), 1);
    run.waves_done(&p, &taken(vec![res("Widget", "w")]));
    assert_eq!(run.stage, RunStage::Barrier);
    assert!(run.writes.progress);
    assert_eq!(run.wait_targets.len(), 2);
    run.waited(&p, &WatchWaitResult::AllGone, true);
    assert_eq!(run.stage, RunStage::Enter);
    assert_eq!(run.result.phases_completed, 1);
    run.enter(&p, true);
    assert_eq!(run.result.phases_completed, 2);
    run.enter(&p, true);
    assert_eq!(run.stage, RunStage::Done);
    assert_eq!(run.result.deleted.len(), 1);
    assert_eq!(run.result.kept.len(), 1);
    assert_eq!(run.result.kept[0].reason, "shared");
    assert!(run.result.barrier_timeout.is_none());
}

#[test]
fn a_dry_run_deletes_nothing() {
    let p = plan(vec![phase("operands", vec![delete("Widget", "w")])]);
    let mut run = PlanRun::new(&p, true, 0, None, &vec![]);
    run.enter(&p, false);
    assert_eq!(run.stage, RunStage::Enter);
    run.enter(&p, false);
    assert_eq!(run.stage, RunStage::Done);
    assert!(run.result.deleted.is_empty());
    assert_eq!(run.result.phases_completed, 1);
}

#[test]
fn a_closed_gate_ends_the_run_between_phases() {
    let p = plan(vec![phase("operands", vec![delete("Widget", "w")])]);
    let mut run = PlanRun::new(&p, false, 0, None, &vec![]);
    run.enter(&p, false);
    assert_eq!(run.stage, RunStage::Done);
    assert_eq!(run.result.phases_completed, 0);
}

#[test]
fn a_resumed_run_skips_the_completed_phases() {
    let p = plan(vec![
        phase("done", vec![delete("Widget", "w")]),
        phase("left", vec![delete("Widget", "v")]),
    ]);
    let mut run = PlanRun::new(&p, false, 1, None, &vec![res("Widget", "w")]);
    run.enter(&p, true);
    assert_eq!(run.stage, RunStage::Enter);
    run.enter(&p, true);
    assert_eq!(run.stage, RunStage::Waves);
    assert_eq!(run.eligible[0].name, "v");
    assert_eq!(run.result.deleted[0].name, "w");
}

#[test]
fn a_failed_wave_keeps_later_phases_from_being_entered() {
    let p = plan(vec![
        phase("one", vec![delete("Widget", "w")]),
        phase("two", vec![delete("Widget", "v")]),
    ]);
    let mut run = start(&p);
    let mut r = taken(vec![]);
    r.failed = vec![(res("Widget", "w"), "no".to_string())];
    run.waves_done(&p, &r);
    assert_eq!(run.stage, RunStage::Done);
    assert_eq!(run.result.phases_completed, 0);
}

#[test]
fn a_stopped_wave_ends_the_run() {
    let p = plan(vec![phase("one", vec![delete("Widget", "w")])]);
    let mut run = start(&p);
    let mut r = taken(vec![]);
    r.stopped = true;
    run.waves_done(&p, &r);
    assert_eq!(run.stage, RunStage::Done);
}

fn controller_plan() -> TeardownPlan {
    plan(vec![
        phase(
            "review",
            vec![Action::Review {
                resource: res("Widget", "w"),
                reason: "data".to_string(),
                metadata: None,
            }],
        ),
        phase("controller", vec![delete("ClusterServiceVersion", "op.v1")]),
    ])
}

fn at_controller(p: &TeardownPlan) -> PlanRun {
    let mut run = start(p);
    assert_eq!(run.result.reviewed.len(), 1);
    run.enter(p, true);
    assert_eq!(run.stage, RunStage::CheckReviews);
    run
}

#[test]
fn an_intact_review_does_not_block_the_controller() {
    let p = controller_plan();
    let mut run = at_controller(&p);
    run.reviews_checked(
        &p,
        &vec![(
            res("Widget", "w"),
            FinalizerCheckResult::Known {
                finalizers: vec!["f".to_string()],
                terminating: false,
            },
        )],
    );
    assert_eq!(run.stage, RunStage::Waves);
}

#[test]
fn a_terminating_review_blocks_the_controller() {
    let p = controller_plan();
    let mut run = at_controller(&p);
    run.reviews_checked(
        &p,
        &vec![(
            res("Widget", "w"),
            FinalizerCheckResult::Known {
                finalizers: vec!["f".to_string()],
                terminating: true,
            },
        )],
    );
    assert_eq!(run.stage, RunStage::Done);
    assert!(run.writes.timeout);
    let timeout = run.result.barrier_timeout.unwrap();
    assert_eq!(timeout.phase, "pre-controller safety check");
    assert_eq!(timeout.finalizers[0].1, ["f (terminating)"]);
    assert!(run.result.deleted.is_empty());
}

#[test]
fn an_unreadable_review_blocks_the_controller() {
    let p = controller_plan();
    let mut run = at_controller(&p);
    run.reviews_checked(
        &p,
        &vec![(
            res("Widget", "w"),
            FinalizerCheckResult::Unknown("GET failed".to_string()),
        )],
    );
    assert_eq!(run.stage, RunStage::Done);
    let timeout = run.result.barrier_timeout.unwrap();
    assert_eq!(timeout.finalizers[0].1, ["check failed: GET failed"]);
}

#[test]
fn a_crd_with_live_objects_is_not_deleted() {
    let p = plan(vec![phase(
        "crds",
        vec![
            delete("CustomResourceDefinition", "a.x.io"),
            delete("CustomResourceDefinition", "b.x.io"),
            delete("CustomResourceDefinition", "c.x.io"),
        ],
    )]);
    let mut run = start(&p);
    assert_eq!(run.stage, RunStage::CountLive);
    assert_eq!(run.next, 0);
    run.live_counted(&p, &LiveCount::NonZero(12));
    assert_eq!(run.next, 1);
    run.live_counted(&p, &LiveCount::Unknown("LIST failed".to_string()));
    run.live_counted(&p, &LiveCount::Zero);
    assert_eq!(run.stage, RunStage::Waves);
    assert_eq!(run.eligible.len(), 1);
    assert_eq!(run.eligible[0].name, "c.x.io");
    assert_eq!(run.result.failed[0].1, "12 live instances remain");
    assert_eq!(run.result.failed[1].1, "cannot verify: LIST failed");
}

#[test]
fn a_subscription_without_a_package_is_not_deleted() {
    let p = plan(vec![phase("olm", vec![delete("Subscription", "sub")])]);
    let mut run = PlanRun::new(&p, false, 0, None, &vec![]);
    run.enter(&p, true);
    assert_eq!(run.stage, RunStage::Done);
    assert_eq!(
        run.result.failed[0].1,
        "cannot DELETE Subscription without verified package name \
         (generation_identity is Unverifiable)"
    );
}

#[test]
fn a_stall_is_recorded_unless_it_may_be_deferred() {
    let p = plan(vec![phase("operands", vec![delete("Widget", "w")])]);
    for allowed in [true, false] {
        let mut run = start(&p);
        run.waves_done(&p, &taken(vec![res("Widget", "w")]));
        run.waited(&p, &stalled(vec![res("Widget", "w")]), false);
        assert_eq!(run.stage, RunStage::Defer);
        run.deferred(&p, allowed);
        if allowed {
            assert_eq!(run.stage, RunStage::Enter);
            assert!(run.result.barrier_timeout.is_none());
        } else {
            assert_eq!(run.stage, RunStage::Done);
            assert!(run.writes.timeout);
            // Nothing goes on after that.
            run.enter(&p, true);
            run.deferred(&p, true);
            assert_eq!(run.stage, RunStage::Done);
            assert_eq!(run.result.phases_completed, 0);
            let timeout = run.result.barrier_timeout.unwrap();
            assert_eq!(timeout.phase, "operands");
            assert_eq!(timeout.finalizers[0].1, ["2 finalizer(s)"]);
        }
    }
}

#[test]
fn recovery_is_tried_before_a_stall_counts() {
    let p = plan(vec![phase("operands", vec![delete("Widget", "w")])]);
    let mut run = start(&p);
    run.waves_done(&p, &taken(vec![res("Widget", "w")]));
    run.waited(&p, &stalled(vec![res("Widget", "w")]), true);
    assert_eq!(run.stage, RunStage::Recover);
    run.recovered(Some(1));
    assert_eq!(run.stage, RunStage::WaitRecovered);
    run.waited(&p, &WatchWaitResult::AllGone, true);
    assert_eq!(run.stage, RunStage::Enter);
}

#[test]
fn a_recovery_that_fails_fails_the_run() {
    let p = plan(vec![phase("operands", vec![delete("Widget", "w")])]);
    let mut run = start(&p);
    run.waves_done(&p, &taken(vec![res("Widget", "w")]));
    run.waited(&p, &stalled(vec![res("Widget", "w")]), true);
    run.recovered(None);
    assert_eq!(run.stage, RunStage::Failed);
}

#[test]
fn what_is_recreated_is_deleted_again_three_times() {
    let p = plan(vec![phase("operands", vec![delete("Widget", "w")])]);
    let mut run = start(&p);
    run.waves_done(&p, &taken(vec![res("Widget", "w")]));
    run.waited(&p, &recreated("w", "uid-1"), false);
    for i in 1..=3 {
        assert_eq!(run.stage, RunStage::Redelete);
        let (id, live) = run.redelete_target().unwrap();
        assert_eq!(id.name, "w");
        assert_eq!(live, "uid-w");
        run.redeleted(&p, false);
        assert_eq!(run.stage, RunStage::Rewait);
        run.waited(&p, &recreated("w", &format!("uid-{}", i + 1)), false);
    }
    // The fourth time round the object is left to the audit.
    assert_eq!(run.stage, RunStage::Enter);
    assert_eq!(run.result.phases_completed, 1);
}

#[test]
fn what_was_deleted_again_and_is_gone_is_written_down() {
    let p = plan(vec![phase("operands", vec![delete("Widget", "w")])]);
    let mut run = start(&p);
    run.waves_done(&p, &taken(vec![res("Widget", "w")]));
    run.waited(&p, &recreated("w", "uid-1"), false);
    run.redeleted(&p, false);
    run.waited(&p, &WatchWaitResult::AllGone, false);
    assert!(run.writes.redeletes_gone);
    assert_eq!(run.stage, RunStage::Enter);
}

#[test]
fn what_was_gone_already_may_not_be_deleted_again() {
    let p = plan(vec![phase(
        "operands",
        vec![delete("Widget", "w"), expect("Widget", "x")],
    )]);
    let mut run = start(&p);
    let mut r = taken(vec![]);
    r.already_gone = vec![res("Widget", "w")];
    run.waves_done(&p, &r);
    run.waited(&p, &recreated("x", "uid-1"), false);
    assert_eq!(run.stage, RunStage::Rewait);
    assert!(run.redelete_target().is_none());
}

#[test]
fn a_redelete_that_must_stop_ends_the_run() {
    let p = plan(vec![phase("operands", vec![delete("Widget", "w")])]);
    let mut run = start(&p);
    run.waves_done(&p, &taken(vec![res("Widget", "w")]));
    run.waited(&p, &recreated("w", "uid-1"), false);
    run.redeleted(&p, true);
    assert_eq!(run.stage, RunStage::Done);
}

#[test]
fn blockers_refuse_a_plan() {
    let mut p = plan(vec![]);
    p.blockers.push(Blocker {
        resource: res("Widget", "w"),
        reason: "no".to_string(),
    });
    assert!(matches!(check_plan(&p, false), Err(PlanRefusal::Blockers)));
}

#[test]
fn critical_preflight_failures_refuse_a_plan_but_not_a_dry_run() {
    let mut p = plan(vec![]);
    p.preflight.checks.push(PreflightCheck {
        name: "api".to_string(),
        passed: false,
        severity: PreflightSeverity::Critical,
    });
    assert!(matches!(
        check_plan(&p, false),
        Err(PlanRefusal::CriticalPreflight)
    ));
    assert!(check_plan(&p, true).is_ok());
    p.preflight.checks[0].severity = PreflightSeverity::Warning;
    assert!(check_plan(&p, false).is_ok());
}

#[test]
fn an_unbound_delete_is_named() {
    let mut p = plan(vec![phase("operands", vec![delete("Widget", "w")])]);
    assert!(check_uids(&p).is_ok());
    if let Action::Delete { resource, .. } = &mut p.phases[0].actions[0] {
        resource.uid = Some(String::new());
    }
    match check_uids(&p) {
        Err(e) => assert!(e.message().contains("Widget/w"), "{}", e.message()),
        Ok(()) => panic!("an empty UID binds nothing"),
    }
}

#[test]
fn a_failed_phase_is_not_completed() {
    let p = plan(vec![
        phase("first", vec![delete("Widget", "w")]),
        phase("second", vec![delete("CustomResourceDefinition", "c")]),
        phase("third", vec![delete("Widget", "x")]),
    ]);
    let mut run = start(&p);
    run.waves_done(&p, &taken(vec![res("Widget", "w")]));
    run.waited(&p, &WatchWaitResult::AllGone, false);
    run.enter(&p, true);
    assert_eq!(run.stage, RunStage::CountLive);
    run.live_counted(&p, &LiveCount::NonZero(1));
    assert_eq!(run.stage, RunStage::Waves);
    assert!(run.eligible.is_empty());
    run.waves_done(&p, &taken(vec![]));
    assert_eq!(run.stage, RunStage::Done);
    assert_eq!(run.result.failed.len(), 1);
    assert_eq!(run.result.phases_completed, 1);
    run.enter(&p, true);
    assert_eq!(run.result.phases_completed, 1);
}

#[test]
fn only_objects_of_the_phase_are_touched() {
    let p = plan(vec![
        phase("first", vec![delete("Widget", "w"), expect("Pod", "p")]),
        phase("second", vec![delete("Widget", "x")]),
    ]);
    let mut run = start(&p);
    assert_eq!(run.eligible, [res("Widget", "w")]);
    run.waves_done(&p, &taken(vec![res("Widget", "w")]));
    assert_eq!(run.wait_targets, [res("Widget", "w"), res("Pod", "p")]);
    // What took the place of an object without a DELETE of its own is left alone.
    run.waited(
        &p,
        &WatchWaitResult::Recreated {
            remaining: vec![],
            recreated: vec![
                (res("Pod", "p"), "uid-p".to_string(), "uid-n".to_string()),
                (res("Widget", "w"), "uid-w".to_string(), "uid-m".to_string()),
            ],
        },
        false,
    );
    assert_eq!(run.stage, RunStage::Redelete);
    let (again, uid) = run.redelete_target().unwrap();
    assert_eq!(again.name, "w");
    assert_eq!(uid, "uid-w");
    run.redeleted(&p, false);
    assert_eq!(run.stage, RunStage::Rewait);
    run.waited(&p, &WatchWaitResult::AllGone, false);
    run.enter(&p, true);
    assert_eq!(run.eligible, [res("Widget", "x")]);
    assert!(run.authorities.is_empty());
}
