//! Runs against a scripted API server.

use teardown::cluster::{GetReply, LiveObject, OwnerReference, RequestError};
use teardown::executor::checks::{check_finalizers, check_finalizers_endpoint};
use teardown::executor::defer::{
    begin_defer, look_at_root, observe_defer, verify_root_endpoint, DeferStep,
};
use teardown::executor::deletion::{
    after_delete, after_endpoint, after_get, outcome_of, refuse_unnamed_subscription,
    subscription, DeleteOutcome, DeleteResult, DeleteStep,
};
use teardown::executor::phases::{PlanRun, RunStage};
use teardown::executor::recovery::{conclude_recovery, PatchOp};
use teardown::executor::redelete::{
    ReDeleteAttemptResult, ReDeleteEvent, ReDeleteRun, ReDeleteStage,
};
use teardown::executor::result::ExecutionResult;
use teardown::executor::stripping::{RecoveryEvent, RecoveryRun, RecoveryStage};
use teardown::executor::waves::{WaveResult, WaveRun, WaveStage};
use teardown::journal::records::{authorize_redelete, settle_recovery, settle_redelete};
use teardown::journal::{
    FinalizerRecoveryRecord, FinalizerRecoveryResult, ReDeleteRecord, ReDeleteResult,
};
use teardown::planner::{
    collect_all_objects, collect_objects, Action, ActionKind, PlanPhase, Preflight, TeardownPlan,
};
use teardown::resource::ResourceId;
use teardown::watch::{ResourceRuntimeState, WatchWaitResult};

#[derive(Debug, Clone, Copy, PartialEq, Eq)]
enum Verb {
    Get,
    List,
    Delete,
    Patch,
}

enum Answer {
    Object(LiveObject),
    Done,
    Refused(u16, &'static str, &'static str),
}

const NOT_FOUND: Answer = Answer::Refused(404, "NotFound", "not found");
const FORBIDDEN: Answer = Answer::Refused(403, "Forbidden", "forbidden");

/// Answers each request, and keeps what it needs to know of those before.
struct Server<'a> {
    requests: Vec<(Verb, ResourceId)>,
    patches: Vec<Vec<PatchOp>>,
    answer: Box<dyn FnMut(&Counts, Verb, &ResourceId) -> Answer + 'a>,
}

/// The requests so far.
struct Counts {
    seen: Vec<(Verb, ResourceId)>,
}

impl Counts {
    fn of(&self, verb: Verb, kind: &str) -> usize {
        self.seen
            .iter()
            .filter(|(v, r)| *v == verb && r.kind == kind)
            .count()
    }
}

fn request_error(code: u16, reason: &str, message: &str) -> RequestError {
    RequestError::Status {
        code,
        reason: reason.to_string(),
        message: message.to_string(),
        text: format!("ApiError: {}: {} ({})", message, reason, code),
    }
}

impl<'a> Server<'a> {
    fn new(answer: impl FnMut(&Counts, Verb, &ResourceId) -> Answer + 'a) -> Server<'a> {
        Server {
            requests: vec![],
            patches: vec![],
            answer: Box::new(answer),
        }
    }

    /// Answers in turn, and takes no further request.
    fn scripted(script: Vec<(Verb, Answer)>) -> Server<'a> {
        let mut script = script.into_iter();
        Server::new(move |_, verb, _| match script.next() {
            Some((expected, answer)) => {
                assert_eq!(verb, expected);
                answer
            }
            None => panic!("unexpected {:?}", verb),
        })
    }

    fn ask(&mut self, verb: Verb, resource: &ResourceId) -> Answer {
        let counts = Counts {
            seen: self.requests.clone(),
        };
        self.requests.push((verb, resource.clone()));
        (self.answer)(&counts, verb, resource)
    }

    fn get(&mut self, resource: &ResourceId) -> GetReply {
        match self.ask(Verb::Get, resource) {
            Answer::Object(o) => GetReply::Found(o),
            Answer::Done => panic!("a GET is answered by an object"),
            Answer::Refused(code, reason, message) => {
                GetReply::Failed(request_error(code, reason, message))
            }
        }
    }

    fn send(&mut self, verb: Verb, resource: &ResourceId) -> Result<(), RequestError> {
        match self.ask(verb, resource) {
            Answer::Object(_) | Answer::Done => Ok(()),
            Answer::Refused(code, reason, message) => Err(request_error(code, reason, message)),
        }
    }

    fn count(&self, verb: Verb, kind: &str) -> usize {
        self.requests
            .iter()
            .filter(|(v, r)| *v == verb && r.kind == kind)
            .count()
    }

    fn count_all(&self, kind: &str) -> usize {
        self.requests.iter().filter(|(_, r)| r.kind == kind).count()
    }
}

/// What is written down in the course of a run.
struct Notes {
    redeletes: Vec<ReDeleteRecord>,
    recoveries: Vec<FinalizerRecoveryRecord>,
}

fn no_notes() -> Notes {
    Notes {
        redeletes: vec![],
        recoveries: vec![],
    }
}

fn delete_resource(
    server: &mut Server,
    resource: &ResourceId,
    package: Option<&str>,
) -> DeleteResult {
    let package = package.map(String::from);
    let mut step = after_get(resource, &package, &server.get(resource));
    loop {
        step = match step {
            DeleteStep::Done(result) => return result,
            DeleteStep::VerifyEndpoint(after) => {
                return after_endpoint(after, server.send(Verb::List, resource).is_ok())
            }
            DeleteStep::SendDelete { .. } => {
                let reply = server.send(Verb::Delete, resource);
                after_delete(subscription(resource), &reply)
            }
        };
    }
}

fn delete_resource_pub(
    server: &mut Server,
    resource: &ResourceId,
    package: Option<&str>,
) -> DeleteOutcome {
    match refuse_unnamed_subscription(resource, &package.map(String::from)) {
        Some(outcome) => outcome,
        None => outcome_of(delete_resource(server, resource, package)),
    }
}

fn wait(server: &mut Server, targets: &Vec<ResourceId>) -> WatchWaitResult {
    let mut remaining = vec![];
    let mut recreated = vec![];
    for target in targets {
        match server.get(target) {
            GetReply::Found(o) if o.uid == target.uid => remaining.push(target.clone()),
            GetReply::Found(o) => recreated.push((
                target.clone(),
                target.uid.clone().unwrap(),
                o.uid.clone().unwrap(),
            )),
            GetReply::Failed(e) => {
                if !e.has_code(404) || server.send(Verb::List, target).is_err() {
                    remaining.push(target.clone());
                }
            }
        }
    }
    if !recreated.is_empty() {
        WatchWaitResult::Recreated {
            remaining,
            recreated,
        }
    } else if remaining.is_empty() {
        WatchWaitResult::AllGone
    } else {
        WatchWaitResult::Stalled {
            remaining,
            finalizer_details: vec![],
            reason: "no progress".to_string(),
        }
    }
}

fn copies(records: &Vec<ReDeleteRecord>) -> Vec<ReDeleteRecord> {
    records
        .iter()
        .map(|r| ReDeleteRecord {
            resource_identity: r.resource_identity.clone(),
            original_uid: r.original_uid.clone(),
            new_uid: r.new_uid.clone(),
            result: r.result.clone(),
        })
        .collect()
}

fn attempt_finalizer_recovery(
    server: &mut Server,
    remaining: &Vec<ResourceId>,
    deleted: &Vec<ResourceId>,
    phase: &PlanPhase,
    notes: &mut Notes,
) -> Result<usize, String> {
    let mut run = RecoveryRun::begin(phase, remaining, deleted, copies(&notes.redeletes));
    while !matches!(run.stage, RecoveryStage::Finished) {
        let resource = run.targets[run.at].0.clone();
        let event = match &run.stage {
            RecoveryStage::Read | RecoveryStage::Recheck { .. } => {
                RecoveryEvent::Reply(server.get(&resource))
            }
            RecoveryStage::LookAtRoot { root, .. } => RecoveryEvent::Reply(server.get(root)),
            RecoveryStage::VerifyRoot { .. } | RecoveryStage::RecheckEndpoint { .. } => {
                RecoveryEvent::Endpoint(server.send(Verb::List, &resource).is_ok())
            }
            RecoveryStage::Permit { .. } => RecoveryEvent::Permit(true),
            RecoveryStage::Record { .. } => {
                notes.recoveries.push(run.order().unwrap().record);
                RecoveryEvent::Recorded
            }
            RecoveryStage::Patch { .. } => {
                server.patches.push(run.order().unwrap().patch);
                RecoveryEvent::Patched(server.send(Verb::Patch, &resource))
            }
            RecoveryStage::Settle { object, result, .. } => {
                let uid = object.uid.clone().unwrap();
                settle_recovery(&mut notes.recoveries, &resource, &uid, result.clone());
                RecoveryEvent::Recorded
            }
            RecoveryStage::Finished => unreachable!(),
        };
        run = run.step(event);
    }
    conclude_recovery(run.recovered, &notes.recoveries)
}

fn execute_delete_waves(
    server: &mut Server,
    targets: &Vec<ResourceId>,
    recovery: Option<(&PlanPhase, &mut Notes)>,
) -> WaveResult {
    let mut recovery = recovery;
    let mut run = WaveRun::new(targets);
    loop {
        match run.stage {
            WaveStage::Delete => {
                let answers = run
                    .pending
                    .iter()
                    .map(|r| (r.clone(), delete_resource(server, r, None)))
                    .collect();
                run.answered(&answers);
            }
            WaveStage::Checkpoint => run.recorded(),
            WaveStage::Wait => {
                let waited = wait(server, &run.accepted);
                run.waited(&waited, recovery.is_some());
            }
            WaveStage::Recover => {
                let (phase, notes) = recovery.as_mut().unwrap();
                let gone = &run.accepted_gone;
                let count =
                    attempt_finalizer_recovery(server, &run.waiting, gone, phase, notes).ok();
                run.recovered(count);
            }
            WaveStage::WaitRecovered | WaveStage::Rewait => {
                let waited = wait(server, &run.waiting);
                run.waited_again(&waited);
            }
            WaveStage::Done => return run.finish(),
        }
    }
}

fn attempt_single_redelete(
    server: &mut Server,
    resource: &ResourceId,
    original_uid: &str,
    notes: &mut Notes,
) -> ReDeleteAttemptResult {
    let mut run = ReDeleteRun::new(original_uid.to_string());
    loop {
        let event = match &run.stage {
            ReDeleteStage::Look => ReDeleteEvent::Reply(server.get(resource)),
            ReDeleteStage::LookEndpoint | ReDeleteStage::DeleteEndpoint { .. } => {
                ReDeleteEvent::Listed(server.send(Verb::List, resource))
            }
            ReDeleteStage::Permit { .. } => ReDeleteEvent::Permit(true),
            ReDeleteStage::Record { live_uid } => {
                authorize_redelete(&mut notes.redeletes, resource, original_uid, live_uid);
                ReDeleteEvent::Recorded(Ok(()))
            }
            ReDeleteStage::Delete { .. } => {
                ReDeleteEvent::Answered(server.send(Verb::Delete, resource))
            }
            ReDeleteStage::Settle { live_uid, result } => {
                settle_redelete(
                    &mut notes.redeletes,
                    resource,
                    original_uid,
                    live_uid,
                    result.clone(),
                );
                ReDeleteEvent::Recorded(Ok(()))
            }
            ReDeleteStage::Done(_) => break,
        };
        run = run.step(event);
    }
    match run.stage {
        ReDeleteStage::Done(result) => result,
        _ => unreachable!(),
    }
}

fn can_defer_to_residual(
    server: &mut Server,
    remaining: &Vec<ResourceId>,
    phase: &PlanPhase,
    states: &Vec<Option<ResourceRuntimeState>>,
    notes: &Notes,
) -> bool {
    let roots = collect_objects(&phase.actions, ActionKind::Delete);
    let mut step = begin_defer(remaining, phase);
    loop {
        step = match step {
            DeferStep::Answer(answer) => return answer,
            DeferStep::Observe => observe_defer(states, &roots),
            DeferStep::LookAt(i) => {
                let reply = Some(server.get(&roots[i]));
                look_at_root(&roots, i, &reply, &notes.redeletes)
            }
            DeferStep::VerifyEndpoint(i) => {
                let ok = server.send(Verb::List, &roots[i]).is_ok();
                verify_root_endpoint(&roots, i, ok)
            }
        };
    }
}

/// Runs a plan without a journal: nothing is recovered, left behind or deleted again.
fn execute_plan(server: &mut Server, plan: &TeardownPlan, start_phase: usize) -> ExecutionResult {
    let mut run = PlanRun::new(plan, false, start_phase, None, &vec![]);
    loop {
        match run.stage {
            RunStage::Enter => run.enter(plan, true),
            RunStage::CheckReviews => {
                let checks = collect_all_objects(&plan.phases, ActionKind::Review)
                    .into_iter()
                    .map(|r| {
                        let check = match check_finalizers(&server.get(&r)) {
                            Some(check) => check,
                            None => {
                                check_finalizers_endpoint(server.send(Verb::List, &r).is_ok())
                            }
                        };
                        (r, check)
                    })
                    .collect();
                run.reviews_checked(plan, &checks);
            }
            RunStage::Waves => {
                let waves = execute_delete_waves(server, &run.eligible, None);
                run.waves_done(plan, &waves);
            }
            RunStage::Barrier => {
                let waited = wait(server, &run.wait_targets);
                run.waited(plan, &waited, false);
            }
            RunStage::Defer => run.deferred(plan, false),
            RunStage::Done => return run.result,
            _ => panic!("unexpected {:?}", run.stage),
        }
    }
}

fn live(name: &str, uid: &str) -> LiveObject {
    LiveObject {
        name: Some(name.to_string()),
        namespace: Some("test-ns".to_string()),
        uid: Some(uid.to_string()),
        resource_version: Some("1".to_string()),
        terminating: false,
        finalizers: vec![],
        owner_references: vec![],
        labels: vec![],
        annotations: vec![],
        managers: vec![],
        spec_name: None,
        template_service_account: None,
        service_account: None,
        installed_csv: None,
        current_csv: None,
    }
}

fn object(name: &str, uid: &str) -> Answer {
    Answer::Object(live(name, uid))
}

fn stuck(name: &str, uid: &str, finalizers: Vec<&str>, owner: Option<(&str, &str, bool)>) -> Answer {
    let mut o = live(name, uid);
    o.terminating = true;
    o.finalizers = finalizers.into_iter().map(String::from).collect();
    if let Some((name, uid, controller)) = owner {
        o.owner_references.push(OwnerReference {
            api_version: "v1".to_string(),
            kind: "ConfigMap".to_string(),
            name: name.to_string(),
            uid: uid.to_string(),
            controller: if controller { Some(true) } else { None },
            block_owner_deletion: None,
        });
    }
    Answer::Object(o)
}

fn make_cm_resource(name: &str, uid: Option<&str>) -> ResourceId {
    ResourceId {
        group: String::new(),
        version: "v1".to_string(),
        kind: "ConfigMap".to_string(),
        namespace: Some("test-ns".to_string()),
        name: name.to_string(),
        uid: uid.map(String::from),
    }
}

fn make_sub_resource(name: &str, uid: Option<&str>) -> ResourceId {
    ResourceId {
        group: "operators.coreos.com".to_string(),
        version: "v1alpha1".to_string(),
        kind: "Subscription".to_string(),
        namespace: Some("test-ns".to_string()),
        name: name.to_string(),
        uid: uid.map(String::from),
    }
}

fn make_test_res(kind: &str, name: &str, uid: &str) -> ResourceId {
    ResourceId {
        group: "test.example.io".to_string(),
        version: "v1".to_string(),
        kind: kind.to_string(),
        namespace: Some("test-ns".to_string()),
        name: name.to_string(),
        uid: Some(uid.to_string()),
    }
}

fn subscription_of(package: &str) -> Answer {
    let mut o = live("my-sub", "uid-A");
    o.resource_version = Some("100".to_string());
    o.spec_name = Some(package.to_string());
    Answer::Object(o)
}

#[test]
fn test_mock_delete_uid_mismatch_zero_deletes() {
    let resource = make_cm_resource("my-cm", Some("uid-A"));
    let mut server = Server::scripted(vec![(Verb::Get, object("my-cm", "uid-B"))]);
    let result = delete_resource(&mut server, &resource, None);
    assert!(matches!(result, DeleteResult::Blocked(ref msg) if msg.contains("UID")));
    assert_eq!(server.requests.len(), 1);
}

#[test]
fn test_mock_delete_get404_list_forbidden_not_already_gone() {
    let resource = make_cm_resource("gone-cm", Some("uid-A"));
    let mut server = Server::scripted(vec![(Verb::Get, NOT_FOUND), (Verb::List, FORBIDDEN)]);
    let result = delete_resource(&mut server, &resource, None);
    assert!(matches!(result, DeleteResult::Unknown(ref msg) if msg.contains("endpoint")));
    assert_eq!(server.requests.len(), 2);
}

#[test]
fn test_mock_get404_list403_not_already_gone() {
    let resource = make_cm_resource("gone-cm", Some("uid-A"));
    let mut server = Server::scripted(vec![(Verb::Get, NOT_FOUND), (Verb::List, FORBIDDEN)]);
    let result = delete_resource(&mut server, &resource, None);
    assert!(matches!(result, DeleteResult::Unknown(ref msg) if msg.contains("endpoint")));
}

#[test]
fn test_mock_subscription_spec_name_drift_zero_deletes() {
    let resource = make_sub_resource("my-sub", Some("uid-A"));
    let mut server = Server::scripted(vec![(Verb::Get, subscription_of("other-package"))]);
    let result = delete_resource(&mut server, &resource, Some("target-package"));
    assert!(
        matches!(result, DeleteResult::Blocked(ref msg) if msg.contains("semantic identity drift"))
    );
}

#[test]
fn test_mock_subscription_delete_pub_no_package_fails() {
    let resource = make_sub_resource("my-sub", Some("uid-A"));
    let mut server = Server::scripted(vec![]);
    let result = delete_resource_pub(&mut server, &resource, None);
    assert!(
        matches!(result, DeleteOutcome::Blocked(ref msg) if msg.contains("without verified package name"))
    );
}

#[test]
fn test_mock_subscription_delete_pub_empty_package_fails() {
    let resource = make_sub_resource("my-sub", Some("uid-A"));
    let mut server = Server::scripted(vec![]);
    let result = delete_resource_pub(&mut server, &resource, Some(""));
    assert!(matches!(result, DeleteOutcome::Blocked(_)));
}

#[test]
fn test_mock_subscription_empty_spec_name_zero_deletes() {
    let resource = make_sub_resource("my-sub", Some("uid-A"));
    let mut server = Server::scripted(vec![(Verb::Get, subscription_of(""))]);
    let result = delete_resource(&mut server, &resource, Some("target-pkg"));
    assert!(matches!(result, DeleteResult::Blocked(ref msg) if msg.contains("empty spec.name")));
}

#[test]
fn test_mock_subscription_inner_no_package_fails() {
    let resource = make_sub_resource("my-sub", Some("uid-A"));
    let mut server = Server::scripted(vec![(Verb::Get, subscription_of("target-pkg"))]);
    let result = delete_resource(&mut server, &resource, None);
    assert!(
        matches!(result, DeleteResult::Blocked(ref msg) if msg.contains("non-empty expected package"))
    );
}

fn make_plan(phases: Vec<PlanPhase>) -> TeardownPlan {
    TeardownPlan {
        targets: vec![],
        preflight: Preflight { checks: vec![] },
        phases,
        blockers: vec![],
        warnings: vec![],
        snapshot_taken_at: "2026-01-01T00:00:00Z".to_string(),
        dependency_edges: vec![],
        operator_inventory: vec![],
        explicit_decisions: vec![],
    }
}

fn make_phase(name: &str, actions: Vec<Action>) -> PlanPhase {
    PlanPhase {
        name: name.to_string(),
        description: String::new(),
        actions,
        barrier: None,
    }
}

fn delete(resource: &ResourceId) -> Action {
    Action::Delete {
        resource: resource.clone(),
        reason: "test".to_string(),
    }
}

fn review(resource: &ResourceId) -> Action {
    Action::Review {
        resource: resource.clone(),
        reason: "label-only".to_string(),
        metadata: None,
    }
}

fn expect_gone(resource: &ResourceId) -> Action {
    Action::ExpectGone {
        resource: resource.clone(),
        reason: "owned by root".to_string(),
    }
}

fn make_csv() -> ResourceId {
    ResourceId {
        group: "operators.coreos.com".to_string(),
        version: "v1alpha1".to_string(),
        kind: "ClusterServiceVersion".to_string(),
        namespace: Some("test-ns".to_string()),
        name: "test-op.v1".to_string(),
        uid: Some("uid-csv".to_string()),
    }
}

#[test]
fn test_intact_review_finalizer_does_not_block_csv() {
    let mut res_a = make_test_res("ResourceA", "resource-a", "uid-a");
    res_a.namespace = None;
    let review_res = make_test_res("ReviewTarget", "review-1", "uid-review");
    let plan = make_plan(vec![
        make_phase("Delete ResourceA", vec![delete(&res_a)]),
        make_phase("Empty intermediate", vec![]),
        make_phase("Review phase", vec![review(&review_res)]),
        make_phase("CSV phase", vec![delete(&make_csv())]),
    ]);
    let mut server = Server::new(|counts, verb, r| match (r.kind.as_str(), verb) {
        ("ResourceA", Verb::Delete | Verb::List) => Answer::Done,
        ("ResourceA", Verb::Get) if counts.of(Verb::Delete, "ResourceA") == 0 => {
            object("resource-a", "uid-a")
        }
        ("ReviewTarget", _) => {
            let mut o = live("review-1", "uid-review");
            o.finalizers = vec!["test.example.io/finalizer".to_string()];
            Answer::Object(o)
        }
        _ => NOT_FOUND,
    });
    execute_plan(&mut server, &plan, 0);
    assert!(server.count_all("ReviewTarget") >= 1);
    assert!(server.count_all("ClusterServiceVersion") >= 1);
    assert_eq!(server.count(Verb::Delete, "ReviewTarget"), 0);
    assert_eq!(server.count(Verb::Patch, "ReviewTarget"), 0);
}

#[test]
fn test_resume_skips_empty_phase_but_csv_guard_still_fires() {
    let review_res = ResourceId {
        group: "serving.kserve.io".to_string(),
        version: "v1alpha1".to_string(),
        kind: "LLMInferenceService".to_string(),
        namespace: Some("test-ns".to_string()),
        name: "qwen3-06b".to_string(),
        uid: Some("uid-llm".to_string()),
    };
    let plan = make_plan(vec![
        make_phase(
            "Phase 0 (completed)",
            vec![delete(&make_test_res("Pod", "p0", "uid-p0"))],
        ),
        make_phase(
            "Phase 1 (completed)",
            vec![delete(&make_test_res("Pod", "p1", "uid-p1"))],
        ),
        make_phase(
            "Phase 2 (completed)",
            vec![delete(&make_test_res("Pod", "p2", "uid-p2"))],
        ),
        make_phase("Phase 3 EMPTY", vec![]),
        make_phase(
            "Phase 4 CSV",
            vec![review(&review_res), delete(&make_csv())],
        ),
    ]);
    let mut server = Server::new(|_, _, r| match r.kind.as_str() {
        "LLMInferenceService" => {
            let mut o = live("qwen3-06b", "uid-llm");
            o.finalizers = vec!["serving.kserve.io/llmisvc-finalizer".to_string()];
            Answer::Object(o)
        }
        _ => NOT_FOUND,
    });
    execute_plan(&mut server, &plan, 3);
    assert_eq!(server.count_all("Pod"), 0);
    assert!(server.count_all("LLMInferenceService") >= 1);
    assert!(server.count_all("ClusterServiceVersion") >= 1);
}

#[test]
fn test_terminating_review_blocks_csv() {
    let review_res = make_test_res("ReviewTarget", "review-1", "uid-review");
    let plan = make_plan(vec![
        make_phase("Review phase", vec![review(&review_res)]),
        make_phase("CSV phase", vec![delete(&make_csv())]),
    ]);
    let mut server = Server::new(|_, _, r| match r.kind.as_str() {
        "ReviewTarget" => stuck("review-1", "uid-review", vec!["test.example.io/fin"], None),
        _ => NOT_FOUND,
    });
    execute_plan(&mut server, &plan, 0);
    assert_eq!(server.count_all("ClusterServiceVersion"), 0);
}

#[test]
fn test_review_get_error_blocks_csv() {
    let review_res = make_test_res("ReviewTarget", "review-1", "uid-review");
    let plan = make_plan(vec![
        make_phase("Review phase", vec![review(&review_res)]),
        make_phase("CSV phase", vec![delete(&make_csv())]),
    ]);
    let mut server = Server::new(|_, _, r| match r.kind.as_str() {
        "ReviewTarget" => FORBIDDEN,
        _ => NOT_FOUND,
    });
    execute_plan(&mut server, &plan, 0);
    assert_eq!(server.count_all("ClusterServiceVersion"), 0);
}

fn make_recovery_phase(child: &ResourceId) -> PlanPhase {
    make_phase("recovery test", vec![expect_gone(child)])
}

fn child1(uid: &str, owner: (&str, &str, bool)) -> Answer {
    stuck("child1", uid, vec!["test/fin"], Some(owner))
}

/// A recovery of `child1`, of which one root was deleted.
fn recover(script: Vec<(Verb, Answer)>, child_uid: &str, root_uid: &str, notes: &mut Notes) -> usize {
    let child = make_cm_resource("child1", Some(child_uid));
    let root = make_cm_resource("root1", Some(root_uid));
    let length = script.len();
    let mut server = Server::scripted(script);
    let phase = make_recovery_phase(&child);
    let result =
        attempt_finalizer_recovery(&mut server, &vec![child], &vec![root], &phase, notes);
    assert_eq!(server.requests.len(), length);
    result.unwrap()
}

fn redeleted_root(original: &str, new: &str, result: ReDeleteResult) -> Notes {
    let mut notes = no_notes();
    notes.redeletes.push(ReDeleteRecord {
        resource_identity: make_cm_resource("root1", None),
        original_uid: original.to_string(),
        new_uid: new.to_string(),
        result,
    });
    notes
}

#[test]
fn test_recovery_uid_change_skips_child() {
    let script = vec![(
        Verb::Get,
        child1("uid-child-DIFFERENT", ("root1", "uid-root", true)),
    )];
    let count = recover(script, "uid-child-plan", "uid-root", &mut no_notes());
    assert_eq!(count, 0);
}

#[test]
fn test_recovery_ownerref_mismatch_skips() {
    let script = vec![(
        Verb::Get,
        child1("uid-child", ("other-root", "uid-OTHER-ROOT", true)),
    )];
    assert_eq!(recover(script, "uid-child", "uid-root", &mut no_notes()), 0);
}

#[test]
fn test_recovery_child_get_403_skips() {
    let script = vec![(Verb::Get, FORBIDDEN)];
    assert_eq!(recover(script, "uid-child", "uid-root", &mut no_notes()), 0);
}

#[test]
fn test_recovery_root_still_exists_skips() {
    let script = vec![
        (Verb::Get, child1("uid-child", ("root1", "uid-root", true))),
        (Verb::Get, object("root1", "uid-root")),
    ];
    assert_eq!(recover(script, "uid-child", "uid-root", &mut no_notes()), 0);
}

#[test]
fn test_recovery_redeleted_root_allows_single_noncontroller_dependent() {
    let script = vec![
        (Verb::Get, child1("uid-child", ("root1", "uid-root-B", false))),
        (Verb::Get, object("root1", "uid-root-C")),
        (Verb::Patch, Answer::Done),
    ];
    let mut notes = redeleted_root("uid-root-A", "uid-root-B", ReDeleteResult::Accepted);
    assert_eq!(recover(script, "uid-child", "uid-root-A", &mut notes), 1);
}

#[test]
fn test_recovery_unaccepted_redelete_never_authorizes_child() {
    let script = vec![(
        Verb::Get,
        child1("uid-child", ("root1", "uid-root-B", false)),
    )];
    let mut notes = redeleted_root("uid-root-A", "uid-root-B", ReDeleteResult::Authorized);
    assert_eq!(recover(script, "uid-child", "uid-root-A", &mut notes), 0);
}

#[test]
fn test_recovery_redelete_wrong_original_uid_rejects() {
    let root = make_cm_resource("root1", Some("uid-root-A"));
    let phase = make_phase("operand cleanup", vec![delete(&root)]);
    let mut server = Server::scripted(vec![(
        Verb::Get,
        stuck("root1", "uid-root-C", vec!["test/fin"], None),
    )]);
    let mut notes = redeleted_root("uid-root-B", "uid-root-C", ReDeleteResult::Accepted);
    let result = attempt_finalizer_recovery(
        &mut server,
        &vec![root.clone()],
        &vec![root],
        &phase,
        &mut notes,
    );
    assert_eq!(result.unwrap(), 0);
}

#[test]
fn test_recovery_root_404_endpoint_failure_skips() {
    let script = vec![
        (Verb::Get, child1("uid-child", ("root1", "uid-root", true))),
        (Verb::Get, NOT_FOUND),
        (Verb::List, FORBIDDEN),
    ];
    assert_eq!(recover(script, "uid-child", "uid-root", &mut no_notes()), 0);
}

#[test]
fn test_recovery_happy_path_strips_finalizer() {
    let script = vec![
        (Verb::Get, child1("uid-child", ("root1", "uid-root", true))),
        (Verb::Get, NOT_FOUND),
        (Verb::List, Answer::Done),
        (Verb::Patch, Answer::Done),
    ];
    let mut notes = no_notes();
    assert_eq!(recover(script, "uid-child", "uid-root", &mut notes), 1);
    assert_eq!(notes.recoveries.len(), 1);
    assert!(matches!(
        notes.recoveries[0].result,
        FinalizerRecoveryResult::Stripped
    ));
}

#[test]
fn test_recovery_unresolved_patch_returns_err() {
    let child_a = make_cm_resource("childA", Some("uid-a"));
    let child_b = make_cm_resource("childB", Some("uid-b"));
    let root = make_cm_resource("root1", Some("uid-root"));
    let phase = make_phase(
        "recovery test",
        vec![expect_gone(&child_a), expect_gone(&child_b)],
    );
    let owner = Some(("root1", "uid-root", true));
    let mut server = Server::scripted(vec![
        (Verb::Get, stuck("childA", "uid-a", vec!["test/fin"], owner)),
        (Verb::Get, NOT_FOUND),
        (Verb::List, Answer::Done),
        (Verb::Patch, Answer::Done),
        (Verb::Get, stuck("childB", "uid-b", vec!["test/fin"], owner)),
        (Verb::Get, NOT_FOUND),
        (Verb::List, Answer::Done),
        (
            Verb::Patch,
            Answer::Refused(500, "InternalError", "connection reset"),
        ),
        (Verb::Get, FORBIDDEN),
    ]);
    let mut notes = no_notes();
    let result = attempt_finalizer_recovery(
        &mut server,
        &vec![child_a, child_b],
        &vec![root],
        &phase,
        &mut notes,
    );
    assert!(result.unwrap_err().contains("PatchRequested"));
    assert!(notes.recoveries.len() >= 2);
    assert!(notes
        .recoveries
        .iter()
        .any(|r| matches!(r.result, FinalizerRecoveryResult::PatchRequested)));
}

fn operand_phase(root: &ResourceId, child: &ResourceId) -> PlanPhase {
    make_phase("operand cleanup", vec![delete(root), expect_gone(child)])
}

#[test]
fn test_defer_requires_accepted_redelete_of_current_root_uid() {
    let child = make_cm_resource("child1", Some("uid-child"));
    let root = make_cm_resource("root1", Some("uid-root-A"));
    let phase = operand_phase(&root, &child);
    let states = vec![Some(ResourceRuntimeState::ExpectingGone)];
    let notes = redeleted_root("uid-root-A", "uid-root-B", ReDeleteResult::Accepted);
    let remaining = vec![child];

    let mut server = Server::scripted(vec![(Verb::Get, object("root1", "uid-root-B"))]);
    assert!(can_defer_to_residual(
        &mut server,
        &remaining,
        &phase,
        &states,
        &notes
    ));

    // The root that was deleted is still there.
    let mut server = Server::scripted(vec![(Verb::Get, object("root1", "uid-root-A"))]);
    assert!(!can_defer_to_residual(
        &mut server,
        &remaining,
        &phase,
        &states,
        &notes
    ));
}

#[test]
fn test_defer_rejects_expect_with_different_uid() {
    let child_plan = make_cm_resource("child1", Some("uid-child-A"));
    let child_different_uid = make_cm_resource("child1", Some("uid-child-B"));
    let root = make_cm_resource("root1", Some("uid-root"));
    let phase = operand_phase(&root, &child_plan);
    let states = vec![Some(ResourceRuntimeState::ExpectingGone)];
    let mut server = Server::scripted(vec![]);
    assert!(!can_defer_to_residual(
        &mut server,
        &vec![child_different_uid],
        &phase,
        &states,
        &no_notes()
    ));
}

fn named(v: &Vec<ResourceId>, name: &str) -> bool {
    v.iter().any(|r| r.name == name)
}

/// A DELETE is refused so many times, and then taken. Once it was, the object is gone.
fn after_refusals(
    counts: &Counts,
    verb: Verb,
    r: &ResourceId,
    refusals: usize,
    message: &'static str,
) -> Answer {
    let deletes = counts.of(Verb::Delete, &r.kind);
    match verb {
        Verb::Delete if deletes < refusals => Answer::Refused(422, "Invalid", message),
        Verb::Get if deletes <= refusals => object(&r.name, r.uid.as_ref().unwrap()),
        Verb::Get => NOT_FOUND,
        _ => Answer::Done,
    }
}

#[test]
fn test_wave_b_rejected_a_gone_then_b_retry_success() {
    let res_a = make_test_res("ResourceA", "a1", "uid-a");
    let res_b = make_test_res("ResourceB", "b1", "uid-b");
    let mut server = Server::new(|counts, verb, r| {
        let refusals = if r.kind == "ResourceB" { 1 } else { 0 };
        after_refusals(counts, verb, r, refusals, "dependency not met")
    });
    let result = execute_delete_waves(&mut server, &vec![res_a, res_b], None);
    assert!(named(&result.accepted_gone, "a1"));
    assert!(named(&result.accepted_gone, "b1") || named(&result.already_gone, "b1"));
    assert!(result.failed.is_empty());
}

fn delete_answered(verb: Verb, answer: Answer) -> Answer {
    match verb {
        Verb::Get => object("a1", "uid-a"),
        Verb::Delete => answer,
        _ => NOT_FOUND,
    }
}

#[test]
fn test_wave_no_progress_all_rejected() {
    let res_a = make_test_res("ResourceA", "a1", "uid-a");
    let mut server = Server::new(|_, verb, _| {
        delete_answered(verb, Answer::Refused(422, "Invalid", "rejected"))
    });
    let result = execute_delete_waves(&mut server, &vec![res_a], None);
    assert!(result.stopped);
    assert!(result.accepted_gone.is_empty());
    assert!(result.failed.iter().any(|(r, _)| r.name == "a1"));
}

#[test]
fn test_wave_blocked_403_stops_immediately() {
    let res_a = make_test_res("ResourceA", "a1", "uid-a");
    let mut server = Server::new(|_, verb, _| delete_answered(verb, FORBIDDEN));
    let result = execute_delete_waves(&mut server, &vec![res_a], None);
    assert!(result.stopped);
    assert!(!result.failed.is_empty());
}

#[test]
fn test_wave_admission_webhook_403_is_rejected_not_blocked() {
    let res_a = make_test_res("ResourceA", "a1", "uid-a");
    let mut server = Server::new(|_, verb, _| {
        delete_answered(
            verb,
            Answer::Refused(
                403,
                "Forbidden",
                "admission webhook \"validator.example.io\" denied the request: dependency not met",
            ),
        )
    });
    let result = execute_delete_waves(&mut server, &vec![res_a], None);
    assert!(result.stopped);
    assert!(result
        .failed
        .iter()
        .any(|(_, msg)| msg.contains("no progress")));
}

#[test]
fn test_wave_new_uid_blocks() {
    let res_a = make_test_res("ResourceA", "a1", "uid-a-original");
    let mut server = Server::new(|_, verb, _| match verb {
        Verb::Get => object("a1", "uid-a-NEW"),
        _ => NOT_FOUND,
    });
    let result = execute_delete_waves(&mut server, &vec![res_a], None);
    assert!(result.stopped);
    assert!(result.failed.iter().any(|(_, msg)| msg.contains("UID")));
}

#[test]
fn test_wave_unknown_5xx_stops_b_not_retried() {
    let res_a = make_test_res("ResourceA", "a1", "uid-a");
    let res_b = make_test_res("ResourceB", "b1", "uid-b");
    let mut server = Server::new(|_, verb, r| match (r.kind.as_str(), verb) {
        ("ResourceA", Verb::Get) => object("a1", "uid-a"),
        ("ResourceA", Verb::Delete) => Answer::Refused(500, "InternalError", "timeout"),
        ("ResourceB", Verb::Get) => object("b1", "uid-b"),
        ("ResourceB", Verb::Delete) => Answer::Refused(422, "Invalid", "not ready"),
        _ => NOT_FOUND,
    });
    let result = execute_delete_waves(&mut server, &vec![res_a, res_b], None);
    assert!(result.stopped);
    assert!(result.failed.iter().any(|(r, _)| r.name == "a1"));
    assert_eq!(server.count(Verb::Delete, "ResourceB"), 1);
}

#[test]
fn test_wave_already_gone_counts_as_progress() {
    let res_a = make_test_res("ResourceA", "a1", "uid-a");
    let res_b = make_test_res("ResourceB", "b1", "uid-b");
    let mut server = Server::new(|counts, verb, r| match (r.kind.as_str(), verb) {
        ("ResourceA", Verb::Get) => NOT_FOUND,
        ("ResourceA", _) => Answer::Done,
        _ => after_refusals(counts, verb, r, 1, "not ready"),
    });
    let result = execute_delete_waves(&mut server, &vec![res_a, res_b], None);
    assert!(named(&result.already_gone, "a1"));
    assert!(server.count(Verb::Delete, "ResourceB") >= 2);
    assert!(result.failed.is_empty());
}

#[test]
fn test_wave_retry_new_uid_blocks_no_second_delete() {
    let res_a = make_test_res("ResourceA", "a1", "uid-a");
    let res_b = make_test_res("ResourceB", "b1", "uid-b");
    // The targets of a wave are asked for side by side: by the time that A is gone, B was read.
    let mut server = Server::new(|counts, verb, r| match (r.kind.as_str(), verb) {
        ("ResourceA", _) => after_refusals(counts, verb, r, 0, "dep"),
        (_, Verb::Delete) => Answer::Refused(422, "Invalid", "dep"),
        (_, Verb::Get) if counts.of(Verb::Get, "ResourceB") > 0 => object("b1", "uid-b-NEW"),
        (_, Verb::Get) => object("b1", "uid-b"),
        _ => Answer::Done,
    });
    let result = execute_delete_waves(&mut server, &vec![res_a, res_b], None);
    assert!(result.stopped);
    assert_eq!(server.count(Verb::Delete, "ResourceB"), 1);
    assert!(result
        .failed
        .iter()
        .any(|(r, msg)| r.name == "b1" && msg.contains("UID")));
}

#[test]
fn test_wave_3_stage_fixpoint() {
    let targets = vec![
        make_test_res("ResourceA", "a1", "uid-a"),
        make_test_res("ResourceB", "b1", "uid-b"),
        make_test_res("ResourceC", "c1", "uid-c"),
    ];
    let mut server = Server::new(|counts, verb, r| {
        let refusals = match r.kind.as_str() {
            "ResourceA" => 0,
            "ResourceB" => 1,
            _ => 2,
        };
        after_refusals(counts, verb, r, refusals, "dependency not ready")
    });
    let result = execute_delete_waves(&mut server, &targets, None);
    assert!(!result.stopped);
    assert_eq!(result.accepted_gone.len(), 3);
    assert!(result.failed.is_empty());
    assert_eq!(server.count(Verb::Delete, "ResourceA"), 1);
    assert_eq!(server.count(Verb::Delete, "ResourceB"), 2);
    assert_eq!(server.count(Verb::Delete, "ResourceC"), 3);
}

#[test]
fn test_wave_recreated_passes_through_no_redelete() {
    let res_a = make_test_res("ResourceA", "a1", "uid-old");
    let phase = make_phase("test", vec![delete(&res_a)]);
    let mut notes = no_notes();
    let mut server = Server::new(|counts, verb, _| match verb {
        Verb::Get if counts.of(Verb::Delete, "ResourceA") > 0 => object("a1", "uid-new"),
        Verb::Get => object("a1", "uid-old"),
        _ => Answer::Done,
    });
    let result = execute_delete_waves(&mut server, &vec![res_a], Some((&phase, &mut notes)));
    assert_eq!(server.count(Verb::Delete, "ResourceA"), 1);
    assert!(!result.accepted_gone.is_empty());
    assert!(!result.stopped);
    assert!(notes.redeletes.is_empty());
}

#[test]
fn test_attempt_redelete_b_then_c_current_uid() {
    let res = make_test_res("ResourceA", "a1", "uid-A");
    let mut notes = no_notes();
    let mut server = Server::new(|counts, verb, _| match verb {
        Verb::Get if counts.of(Verb::Delete, "ResourceA") == 0 => object("a1", "uid-B"),
        Verb::Get => object("a1", "uid-C"),
        _ => Answer::Done,
    });

    let r1 = attempt_single_redelete(&mut server, &res, "uid-A", &mut notes);
    assert!(matches!(r1, ReDeleteAttemptResult::Accepted));
    let r2 = attempt_single_redelete(&mut server, &res, "uid-A", &mut notes);
    assert!(matches!(r2, ReDeleteAttemptResult::Accepted));

    assert_eq!(server.count(Verb::Delete, "ResourceA"), 2);
    assert_eq!(notes.redeletes.len(), 2);
    assert_eq!(notes.redeletes[0].original_uid, "uid-A");
    assert_eq!(notes.redeletes[1].original_uid, "uid-A");
    assert_eq!(notes.redeletes[0].new_uid, "uid-B");
    assert_eq!(notes.redeletes[1].new_uid, "uid-C");
}

#[test]
fn test_attempt_redelete_404_endpoint_failure_stops() {
    let res = make_test_res("ResourceA", "a1", "uid-A");
    let mut notes = no_notes();
    let mut server = Server::new(|_, verb, _| match verb {
        Verb::Get => object("a1", "uid-B"),
        Verb::Delete => NOT_FOUND,
        _ => FORBIDDEN,
    });
    let r = attempt_single_redelete(&mut server, &res, "uid-A", &mut notes);
    assert!(matches!(r, ReDeleteAttemptResult::Stop(_)));
    assert!(!notes.redeletes.is_empty());
    assert!(!matches!(notes.redeletes[0].result, ReDeleteResult::Gone));
}

#[test]
fn test_explicit_delete_finalizer_recovery_full_path() {
    let res_a = make_test_res("ResourceA", "a1", "uid-a");
    let phase = make_phase("test", vec![delete(&res_a)]);
    let mut notes = no_notes();
    let mut server = Server::new(|counts, verb, _| match verb {
        Verb::Get if counts.of(Verb::Patch, "ResourceA") > 0 => NOT_FOUND,
        Verb::Get if counts.of(Verb::Delete, "ResourceA") > 0 => {
            stuck("a1", "uid-a", vec!["test.example.io/block"], None)
        }
        Verb::Get => object("a1", "uid-a"),
        _ => Answer::Done,
    });
    let result = execute_delete_waves(&mut server, &vec![res_a], Some((&phase, &mut notes)));
    assert!(!result.stopped);
    assert!(!result.accepted_gone.is_empty());
    assert_eq!(server.count(Verb::Patch, "ResourceA"), 1);
    assert!(!notes.recoveries.is_empty());

    let ops = &server.patches[0];
    assert!(ops
        .iter()
        .any(|op| matches!(op, PatchOp::TestUid(uid) if uid == "uid-a")));
    assert!(ops.iter().any(
        |op| matches!(op, PatchOp::TestFinalizers(f) if *f == ["test.example.io/block"])
    ));
    assert!(!ops.iter().any(|op| matches!(op, PatchOp::TestOwners(_))));
}
