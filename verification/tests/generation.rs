//! Whether anything of an operator is left.

use teardown::audit::course::{GenerationEvent, GenerationRun};
use teardown::audit::generation::{
    after_csv, after_csv_endpoint, after_csvs, after_deployment, after_deployment_endpoint,
    after_subscriptions, generation_scope, GenerationStep, OperatorGenerationState, PackageScope,
};
use teardown::cluster::{GetReply, LiveObject, RequestError};
use teardown::journal::CsvBaselineEntry;
use teardown::olm::OperatorId;
use teardown::plan::{
    ObservedResourceIdentity, OperatorGenerationIdentity, OperatorIdentitySnapshot,
};
use teardown::resource::ResourceId;

fn observed(kind: &str, name: &str, uid: &str) -> ObservedResourceIdentity {
    ObservedResourceIdentity {
        resource: ResourceId {
            group: String::new(),
            version: "v1".to_string(),
            kind: kind.to_string(),
            namespace: Some("ns".to_string()),
            name: name.to_string(),
            uid: Some(uid.to_string()),
        },
        uid: uid.to_string(),
    }
}

fn snapshot() -> OperatorIdentitySnapshot {
    OperatorIdentitySnapshot {
        generation_identity: OperatorGenerationIdentity::OlmPackage {
            package_name: "widgets".to_string(),
            install_namespace: "ns".to_string(),
        },
        operator_id: OperatorId {
            csv_name: "widgets.v1".to_string(),
            namespace: "ns".to_string(),
        },
        csv_name: "widgets.v1".to_string(),
        csv: observed("ClusterServiceVersion", "widgets.v1", "uid-csv"),
        subscriptions: vec![observed("Subscription", "widgets", "uid-sub")],
        controller_deployments: vec![
            observed("Deployment", "ctl", "uid-d1"),
            observed("Deployment", "hook", "uid-d2"),
        ],
        service_accounts: vec![],
        owned_crds: vec![],
        required_crds: vec![],
    }
}

fn scope() -> PackageScope {
    PackageScope {
        package: "widgets".to_string(),
        namespace: "ns".to_string(),
    }
}

fn live(name: Option<&str>, uid: Option<&str>) -> LiveObject {
    LiveObject {
        name: name.map(String::from),
        namespace: Some("ns".to_string()),
        uid: uid.map(String::from),
        resource_version: None,
        terminating: false,
        finalizers: vec![],
        owner_references: vec![],
        labels: vec![],
        annotations: vec![],
        managers: vec![],
        spec_name: None,
        template_service_account: None,
        service_account: None,
        installed_csv: None,
        current_csv: None,
    }
}

fn sub(uid: &str, package: &str) -> LiveObject {
    let mut o = live(Some("s"), Some(uid));
    o.spec_name = Some(package.to_string());
    o
}

fn status(code: u16) -> RequestError {
    RequestError::Status {
        code,
        reason: "Reason".to_string(),
        message: "message".to_string(),
        text: "text".to_string(),
    }
}

fn unknown(step: GenerationStep) -> String {
    match step {
        GenerationStep::Settled(OperatorGenerationState::Unknown(e)) => e,
        other => panic!("unexpected {:?}", other),
    }
}

fn reason(state: OperatorGenerationState) -> String {
    match state {
        OperatorGenerationState::Unknown(e) => e,
        other => panic!("unexpected {:?}", other),
    }
}

#[test]
fn an_unverifiable_identity_settles_nothing() {
    assert_eq!(generation_scope(&snapshot()).unwrap().package, "widgets");
    let mut s = snapshot();
    s.generation_identity = OperatorGenerationIdentity::Unverifiable {
        reason: "no package".to_string(),
    };
    match generation_scope(&s) {
        Err(e) => assert_eq!(
            reason(e),
            "generation identity unverifiable: no package"
        ),
        Ok(_) => panic!("not verifiable"),
    }
}

#[test]
fn a_subscription_to_the_package_settles_it() {
    let s = snapshot();
    let list = |v: Vec<LiveObject>| after_subscriptions(&scope(), &s, &Ok(v));
    assert!(matches!(
        list(vec![sub("uid-sub", "widgets")]),
        GenerationStep::Settled(OperatorGenerationState::SameGeneration)
    ));
    assert!(matches!(
        list(vec![sub("uid-x", "gadgets"), sub("uid-new", "widgets")]),
        GenerationStep::Settled(OperatorGenerationState::Reappeared)
    ));
    assert!(matches!(
        list(vec![sub("uid-x", "gadgets")]),
        GenerationStep::GetCsv
    ));
    assert_eq!(
        unknown(list(vec![sub("uid-sub", "gadgets")])),
        "saved Subscription UID uid-sub still exists but spec.name changed from 'widgets' to \
         'gadgets' — semantic identity drift"
    );
    assert_eq!(
        unknown(after_subscriptions(&scope(), &s, &Err(status(403)))),
        "failed to LIST Subscriptions in ns: text"
    );
}

#[test]
fn the_csv_and_the_deployments_must_be_gone() {
    let s = snapshot();
    assert!(matches!(
        after_csv(&s, &GetReply::Found(live(Some("widgets.v1"), Some("uid-csv")))),
        GenerationStep::Settled(OperatorGenerationState::SameGeneration)
    ));
    assert!(matches!(
        after_csv(&s, &GetReply::Found(live(Some("widgets.v1"), Some("uid-2")))),
        GenerationStep::Settled(OperatorGenerationState::Reappeared)
    ));
    assert_eq!(
        unknown(after_csv(&s, &GetReply::Failed(status(500)))),
        "failed to GET CSV widgets.v1: text"
    );
    assert!(matches!(
        after_csv(&s, &GetReply::Failed(status(404))),
        GenerationStep::VerifyCsvEndpoint
    ));
    assert!(unknown(after_csv_endpoint(&s, true, false)).starts_with("CSV GET returned 404 but"));
    assert!(matches!(
        after_csv_endpoint(&s, true, true),
        GenerationStep::GetDeployment(0)
    ));
    assert!(matches!(
        after_deployment(&s, 0, &GetReply::Found(live(Some("ctl"), Some("uid-d1")))),
        GenerationStep::Settled(OperatorGenerationState::SameGeneration)
    ));
    assert!(matches!(
        after_deployment(&s, 0, &GetReply::Failed(status(404))),
        GenerationStep::VerifyDeploymentEndpoint(0)
    ));
    assert_eq!(
        unknown(after_deployment(&s, 1, &GetReply::Failed(status(500)))),
        "failed to GET Deployment hook: text"
    );
    assert!(matches!(
        after_deployment_endpoint(&s, 0, true, true),
        GenerationStep::GetDeployment(1)
    ));
    assert!(matches!(
        after_deployment_endpoint(&s, 1, true, true),
        GenerationStep::ListCsvs
    ));
    assert!(
        unknown(after_deployment_endpoint(&s, 1, false, true)).starts_with("No CSV baseline")
    );
    assert_eq!(
        unknown(after_deployment_endpoint(&s, 1, true, false)),
        "Deployment GET returned 404 but API endpoint verification failed for hook"
    );
}

#[test]
fn every_remaining_csv_must_be_explained() {
    let s = snapshot();
    let baseline = vec![CsvBaselineEntry {
        name: "gadgets.v1".to_string(),
        uid: "uid-g".to_string(),
    }];
    let mut other = sub("uid-x", "gadgets");
    other.installed_csv = Some("gadgets.v1".to_string());
    let subs = vec![other];
    let answer = |csvs: Vec<LiveObject>, subs: &Vec<LiveObject>| {
        after_csvs(&scope(), &s, &baseline, subs, &Ok(csvs))
    };
    let gadget = || live(Some("gadgets.v1"), Some("uid-g"));

    assert!(answer(vec![], &vec![]).is_absent());
    // A label ties the CSV to the other package, and its subscription agrees.
    let mut labelled = gadget();
    labelled.labels = vec![(
        "operators.coreos.com/gadgets.ns".to_string(),
        String::new(),
    )];
    assert!(answer(vec![labelled], &subs).is_absent());
    assert_eq!(
        reason(answer(vec![gadget()], &vec![])),
        "CSV 'gadgets.v1' (uid: uid-g) in ns survived teardown and cannot be attributed to a \
         different package — possible same-package generation"
    );
    assert_eq!(
        reason(answer(vec![live(Some("gadgets.v1"), Some("uid-2"))], &subs)),
        "CSV 'gadgets.v1' (uid: uid-2) in ns was not present at plan time — possible new \
         operator generation"
    );
    assert_eq!(
        reason(answer(vec![live(None, Some("uid-2"))], &subs)),
        "CSV in ns has missing name or UID — cannot verify generation"
    );
    assert_eq!(
        reason(after_csvs(&scope(), &s, &baseline, &subs, &Err(status(500)))),
        "failed to LIST CSVs in ns for baseline comparison: text"
    );
}

fn verdict(
    baseline: &Option<Vec<CsvBaselineEntry>>,
    events: Vec<GenerationEvent>,
) -> GenerationRun {
    let snapshot = snapshot();
    let mut run = GenerationRun::begin(&snapshot);
    for event in events {
        run = run.step(&snapshot, baseline, event);
    }
    run
}

fn missing() -> GenerationEvent {
    GenerationEvent::Reply(GetReply::Failed(status(404)))
}

fn there() -> GenerationEvent {
    GenerationEvent::Endpoint(true)
}

fn all_gone() -> Vec<GenerationEvent> {
    vec![
        GenerationEvent::Listed(Ok(vec![])),
        missing(),
        there(),
        missing(),
        there(),
        missing(),
        there(),
    ]
}

#[test]
fn an_operator_is_absent_once_all_of_it_is_gone() {
    let baseline = Some(vec![]);
    assert!(matches!(
        verdict(&baseline, vec![]),
        GenerationRun::ListSubscriptions { .. }
    ));
    assert!(matches!(
        verdict(&baseline, all_gone()),
        GenerationRun::Ask {
            step: GenerationStep::ListCsvs,
            ..
        }
    ));
    let mut events = all_gone();
    events.push(GenerationEvent::Listed(Ok(vec![])));
    assert!(matches!(
        verdict(&baseline, events),
        GenerationRun::Settled(OperatorGenerationState::Absent)
    ));
    // Nothing is said of it where no baseline was taken.
    assert!(matches!(
        verdict(&None, all_gone()),
        GenerationRun::Settled(OperatorGenerationState::Unknown(_))
    ));
}

#[test]
fn one_sign_of_an_operator_is_enough() {
    let baseline = Some(vec![]);
    assert!(matches!(
        verdict(
            &baseline,
            vec![GenerationEvent::Listed(Ok(vec![sub("uid-sub", "widgets")]))]
        ),
        GenerationRun::Settled(OperatorGenerationState::SameGeneration)
    ));
    assert!(matches!(
        verdict(
            &baseline,
            vec![GenerationEvent::Listed(Ok(vec![sub("uid-2", "widgets")]))]
        ),
        GenerationRun::Settled(OperatorGenerationState::Reappeared)
    ));
    assert!(matches!(
        verdict(&baseline, vec![GenerationEvent::Listed(Err(status(403)))]),
        GenerationRun::Settled(OperatorGenerationState::Unknown(_))
    ));
    let mut events = all_gone();
    events.truncate(5);
    events.push(GenerationEvent::Reply(GetReply::Found(live(
        Some("hook"),
        Some("uid-d2"),
    ))));
    assert!(matches!(
        verdict(&baseline, events),
        GenerationRun::Settled(OperatorGenerationState::SameGeneration)
    ));
    let mut events = all_gone();
    events[4] = GenerationEvent::Endpoint(false);
    assert!(matches!(
        verdict(&baseline, events),
        GenerationRun::Settled(OperatorGenerationState::Unknown(e))
            if e == "Deployment GET returned 404 but API endpoint verification failed for ctl"
    ));
    // What is not asked for changes nothing.
    assert!(matches!(
        verdict(&baseline, vec![missing(), there()]),
        GenerationRun::ListSubscriptions { .. }
    ));
}
