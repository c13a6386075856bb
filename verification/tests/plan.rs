//! Saved plans: what is accepted, and what counts as drift.

use teardown::drift::validate_execution_plan_against_fresh;
use teardown::plan::{
    check_loaded_plan, csv_name_matches, ApprovalScopeValue, ClusterIdentity, ExecutionAction,
    ExecutionPhase, ExecutionPlan, ExecutionResource, PlanFault, ResourceMatch,
    SavedOperatorTarget, EXECUTION_PLAN_SCHEMA_VERSION,
};
use teardown::resource::ResourceId;

fn make_cluster_identity(uid: &str) -> ClusterIdentity {
    ClusterIdentity {
        api_server: "https://test:6443".to_string(),
        kube_system_uid: uid.to_string(),
    }
}

fn make_exec_plan(
    cluster_uid: &str,
    resources: Vec<(
        &str,
        &str,
        Option<&str>,
        &str,
        Option<&str>,
        ExecutionAction,
    )>,
) -> ExecutionPlan {
    let phase_resources: Vec<ExecutionResource> = resources
        .into_iter()
        .map(|(group, kind, ns, name, uid, action)| ExecutionResource {
            group: group.to_string(),
            kind: kind.to_string(),
            namespace: ns.map(|s| s.to_string()),
            name: name.to_string(),
            uid: uid.map(|s| s.to_string()),
            action,
        })
        .collect();
    ExecutionPlan {
        schema_version: EXECUTION_PLAN_SCHEMA_VERSION,
        cluster_identity: make_cluster_identity(cluster_uid),
        created_at: "2026-01-01T00:00:00Z".to_string(),
        targets: vec![SavedOperatorTarget {
            package_name: "test-op".to_string(),
            install_namespace: "test-ns".to_string(),
            csv_name_pattern: "test.v1".to_string(),
        }],
        prune_crds: false,
        approve_scopes: vec![ApprovalScopeValue::Root],
        approve_resources: vec![],
        keep_resources: vec![],
        phases: vec![ExecutionPhase {
            phase: 1,
            name: "Phase 1".to_string(),
            resources: phase_resources,
        }],
    }
}

#[test]
fn drift_detection_no_drift() {
    let plan = make_exec_plan(
        "uid-1",
        vec![(
            "",
            "Deployment",
            Some("ns"),
            "dep1",
            Some("uid-a"),
            ExecutionAction::Delete,
        )],
    );
    let result = validate_execution_plan_against_fresh(&plan, &plan);
    assert!(result.is_ok(), "identical plans must not drift");
}

#[test]
fn drift_detection_resource_added() {
    let saved = make_exec_plan(
        "uid-1",
        vec![(
            "",
            "Deployment",
            Some("ns"),
            "dep1",
            Some("uid-a"),
            ExecutionAction::Delete,
        )],
    );
    let fresh = make_exec_plan(
        "uid-1",
        vec![
            (
                "",
                "Deployment",
                Some("ns"),
                "dep1",
                Some("uid-a"),
                ExecutionAction::Delete,
            ),
            (
                "",
                "Service",
                Some("ns"),
                "svc1",
                Some("uid-b"),
                ExecutionAction::Delete,
            ),
        ],
    );
    let result = validate_execution_plan_against_fresh(&saved, &fresh);
    assert!(result.is_err());
    let errors = result.unwrap_err();
    assert!(errors.iter().any(|e| e.contains("added since plan")));
}

#[test]
fn drift_detection_resource_removed() {
    let saved = make_exec_plan(
        "uid-1",
        vec![
            (
                "",
                "Deployment",
                Some("ns"),
                "dep1",
                Some("uid-a"),
                ExecutionAction::Delete,
            ),
            (
                "",
                "Service",
                Some("ns"),
                "svc1",
                Some("uid-b"),
                ExecutionAction::Delete,
            ),
        ],
    );
    let fresh = make_exec_plan(
        "uid-1",
        vec![(
            "",
            "Deployment",
            Some("ns"),
            "dep1",
            Some("uid-a"),
            ExecutionAction::Delete,
        )],
    );
    let result = validate_execution_plan_against_fresh(&saved, &fresh);
    assert!(result.is_err());
    let errors = result.unwrap_err();
    assert!(errors.iter().any(|e| e.contains("missing from cluster")));
}

#[test]
fn drift_detection_uid_changed() {
    let saved = make_exec_plan(
        "uid-1",
        vec![(
            "",
            "Deployment",
            Some("ns"),
            "dep1",
            Some("uid-a"),
            ExecutionAction::Delete,
        )],
    );
    let fresh = make_exec_plan(
        "uid-1",
        vec![(
            "",
            "Deployment",
            Some("ns"),
            "dep1",
            Some("uid-b"),
            ExecutionAction::Delete,
        )],
    );
    let result = validate_execution_plan_against_fresh(&saved, &fresh);
    assert!(result.is_err());
    let errors = result.unwrap_err();
    assert!(errors.iter().any(|e| e.contains("UID changed")));
}

#[test]
fn cluster_identity_mismatch() {
    let id1 = make_cluster_identity("uid-1");
    let id2 = make_cluster_identity("uid-2");
    assert!(!id1.matches(&id2));
    assert!(id1.matches(&id1));
}

#[test]
fn phase_count_drift_detected() {
    let mut saved = make_exec_plan("uid-1", vec![]);
    saved.phases.push(ExecutionPhase {
        phase: 2,
        name: "Phase 2".to_string(),
        resources: vec![],
    });
    let fresh = make_exec_plan("uid-1", vec![]);
    let result = validate_execution_plan_against_fresh(&saved, &fresh);
    assert!(result.is_err());
    let errors = result.unwrap_err();
    assert!(errors.iter().any(|e| e.contains("Phase count drift")));
}

#[test]
fn load_rejects_delete_with_uid_none() {
    let mut plan = make_exec_plan(
        "uid-1",
        vec![(
            "",
            "Sub",
            Some("ns"),
            "sub1",
            Some("uid-a"),
            ExecutionAction::Delete,
        )],
    );
    plan.phases[0].resources[0].uid = None;
    let result = check_loaded_plan(&plan);
    assert!(result.is_err());
    assert!(result.unwrap_err().message().contains("no UID"));
}

#[test]
fn load_rejects_delete_with_uid_empty() {
    let mut plan = make_exec_plan(
        "uid-1",
        vec![(
            "",
            "Sub",
            Some("ns"),
            "sub1",
            Some("uid-a"),
            ExecutionAction::Delete,
        )],
    );
    plan.phases[0].resources[0].uid = Some(String::new());
    let result = check_loaded_plan(&plan);
    assert!(result.is_err());
}

#[test]
fn load_accepts_keep_without_uid() {
    let mut plan = make_exec_plan(
        "uid-1",
        vec![("", "NS", Some("ns"), "ns1", None, ExecutionAction::Keep)],
    );
    plan.phases[0].resources[0].uid = None;
    let result = check_loaded_plan(&plan);
    assert!(result.is_ok());
}

#[test]
fn drift_empty_phase_name_change() {
    let mut saved = make_exec_plan("uid-1", vec![]);
    saved.phases[0].name = "Original".into();
    let mut fresh = make_exec_plan("uid-1", vec![]);
    fresh.phases[0].name = "Tampered".into();
    let result = validate_execution_plan_against_fresh(&saved, &fresh);
    assert!(result.is_err());
    assert!(
        result
            .unwrap_err()
            .iter()
            .any(|e| e.contains("Phase metadata drift"))
    );
}

#[test]
fn drift_uid_none_vs_some() {
    let saved = make_exec_plan(
        "uid-1",
        vec![("", "Svc", Some("ns"), "svc1", None, ExecutionAction::Keep)],
    );
    let fresh = make_exec_plan(
        "uid-1",
        vec![(
            "",
            "Svc",
            Some("ns"),
            "svc1",
            Some("new-uid"),
            ExecutionAction::Keep,
        )],
    );
    let result = validate_execution_plan_against_fresh(&saved, &fresh);
    assert!(result.is_err());
}

#[test]
fn drift_namespace_none_vs_empty() {
    let saved = make_exec_plan(
        "uid-1",
        vec![(
            "",
            "CRD",
            None,
            "crd1",
            Some("uid-c"),
            ExecutionAction::Keep,
        )],
    );
    let fresh = make_exec_plan(
        "uid-1",
        vec![(
            "",
            "CRD",
            Some(""),
            "crd1",
            Some("uid-c"),
            ExecutionAction::Keep,
        )],
    );
    let result = validate_execution_plan_against_fresh(&saved, &fresh);
    assert!(result.is_err(), "None and Some('') namespace must differ");
}

#[test]
fn load_rejects_expect_with_uid_none() {
    let mut plan = make_exec_plan(
        "uid-1",
        vec![(
            "",
            "Pod",
            Some("ns"),
            "p1",
            Some("uid-x"),
            ExecutionAction::Expect,
        )],
    );
    plan.phases[0].resources[0].uid = None;
    assert!(check_loaded_plan(&plan).is_err());
}

#[test]
fn load_rejects_wait_with_uid_empty() {
    let mut plan = make_exec_plan(
        "uid-1",
        vec![(
            "",
            "Pod",
            Some("ns"),
            "p1",
            Some("uid-x"),
            ExecutionAction::Wait,
        )],
    );
    plan.phases[0].resources[0].uid = Some(String::new());
    assert!(check_loaded_plan(&plan).is_err());
}

#[test]
fn load_accepts_review_without_uid() {
    let plan = make_exec_plan(
        "uid-1",
        vec![("", "OG", Some("ns"), "og1", None, ExecutionAction::Review)],
    );
    assert!(check_loaded_plan(&plan).is_ok());
}

#[test]
fn drift_phase_number_change() {
    let saved = make_exec_plan(
        "uid-1",
        vec![(
            "",
            "Sub",
            Some("ns"),
            "s1",
            Some("uid-a"),
            ExecutionAction::Delete,
        )],
    );
    let mut fresh = make_exec_plan(
        "uid-1",
        vec![(
            "",
            "Sub",
            Some("ns"),
            "s1",
            Some("uid-a"),
            ExecutionAction::Delete,
        )],
    );
    fresh.phases[0].phase = 99;
    let result = validate_execution_plan_against_fresh(&saved, &fresh);
    assert!(result.is_err());
    assert!(
        result
            .unwrap_err()
            .iter()
            .any(|e| e.contains("Phase metadata drift"))
    );
}

#[test]
fn drift_duplicate_count() {
    let saved = make_exec_plan(
        "uid-1",
        vec![
            (
                "",
                "Sub",
                Some("ns"),
                "s1",
                Some("uid-a"),
                ExecutionAction::Delete,
            ),
            (
                "",
                "Sub",
                Some("ns"),
                "s1",
                Some("uid-a"),
                ExecutionAction::Delete,
            ),
        ],
    );
    let fresh = make_exec_plan(
        "uid-1",
        vec![(
            "",
            "Sub",
            Some("ns"),
            "s1",
            Some("uid-a"),
            ExecutionAction::Delete,
        )],
    );
    let result = validate_execution_plan_against_fresh(&saved, &fresh);
    assert!(result.is_err(), "Duplicate count change must be detected");
}

#[test]
fn drift_table_driven_single_field_changes() {
    let base = (
        "",
        "Sub",
        Some("ns"),
        "s1",
        Some("uid-a"),
        ExecutionAction::Delete,
    );
        let cases: Vec<(
        &str,
        (
            &str,
            &str,
            Option<&str>,
            &str,
            Option<&str>,
            ExecutionAction,
        ),
    )> = vec![
        (
            "action",
            (
                "",
                "Sub",
                Some("ns"),
                "s1",
                Some("uid-a"),
                ExecutionAction::Keep,
            ),
        ),
        (
            "group",
            (
                "apps",
                "Sub",
                Some("ns"),
                "s1",
                Some("uid-a"),
                ExecutionAction::Delete,
            ),
        ),
        (
            "kind",
            (
                "",
                "Deploy",
                Some("ns"),
                "s1",
                Some("uid-a"),
                ExecutionAction::Delete,
            ),
        ),
        (
            "namespace",
            (
                "",
                "Sub",
                Some("other"),
                "s1",
                Some("uid-a"),
                ExecutionAction::Delete,
            ),
        ),
        (
            "name",
            (
                "",
                "Sub",
                Some("ns"),
                "s2",
                Some("uid-a"),
                ExecutionAction::Delete,
            ),
        ),
    ];
    for (field, changed) in cases {
        let saved = make_exec_plan("uid-1", vec![base.clone()]);
        let fresh = make_exec_plan("uid-1", vec![changed]);
        let result = validate_execution_plan_against_fresh(&saved, &fresh);
        assert!(result.is_err(), "{} change must be detected", field);
    }
}

#[test]
fn csv_name_matches_production_helper() {
    assert!(csv_name_matches(
        "rhbk-operator.v26.6.7-opr.1",
        "rhbk-operator.v26.6.7-opr.1"
    ));
    assert!(
        !csv_name_matches("rhbk", "rhbk-operator.v26.6.7-opr.1"),
        "substring must not match"
    );
    assert!(
        !csv_name_matches("rhbk-operator.v26.6.7-opr.1", "rhbk-operator.v27.0.0"),
        "version upgrade must not match"
    );
    assert!(
        !csv_name_matches("rhbk-operator.v26.6.7-opr.1", "rhbk"),
        "reverse substring must not match"
    );
    assert!(
        !csv_name_matches("", "rhbk-operator.v26.6.7-opr.1"),
        "empty must not match"
    );
}

#[test]
fn scope_token_in_approve_resources_rejected() {
    let mut plan = make_exec_plan("u", vec![]);
    plan.approve_resources = vec!["root".to_string()];
    let result = check_loaded_plan(&plan);
    assert!(
        result.is_err(),
        "scope token in approve_resources must be rejected"
    );
    let err = result.unwrap_err().message();
    assert!(err.contains("scope token"), "error: {}", err);
}

#[test]
fn scope_token_in_keep_resources_rejected() {
    let mut plan = make_exec_plan("u", vec![]);
    plan.keep_resources = vec!["Deployment/x".to_string(), "label-only".to_string()];
    match check_loaded_plan(&plan) {
        Err(PlanFault::ScopeAmongKept { word }) => assert_eq!(word, "label-only"),
        other => panic!("unexpected {:?}", other),
    }
}

#[test]
fn other_schema_version_is_refused() {
    let mut plan = make_exec_plan("u", vec![]);
    plan.schema_version = 2;
    match check_loaded_plan(&plan) {
        Err(PlanFault::SchemaVersion { found }) => assert_eq!(found, 2),
        other => panic!("unexpected {:?}", other),
    }
}

#[test]
fn empty_package_name_is_refused() {
    let mut plan = make_exec_plan("u", vec![]);
    plan.targets[0].package_name = String::new();
    match check_loaded_plan(&plan) {
        Err(PlanFault::EmptyPackageName { csv_name_pattern }) => {
            assert_eq!(csv_name_pattern, "test.v1")
        }
        other => panic!("unexpected {:?}", other),
    }
}

#[test]
fn accepted_plans_agree_both_ways() {
    let plan = make_exec_plan(
        "uid-1",
        vec![
            ("", "A", Some("ns"), "a", Some("u1"), ExecutionAction::Delete),
            ("apps", "B", None, "b", None, ExecutionAction::Keep),
        ],
    );
    let swapped = make_exec_plan(
        "uid-2",
        vec![
            ("apps", "B", None, "b", None, ExecutionAction::Keep),
            ("", "A", Some("ns"), "a", Some("u1"), ExecutionAction::Delete),
        ],
    );
    assert!(validate_execution_plan_against_fresh(&plan, &swapped).is_ok());
    assert!(validate_execution_plan_against_fresh(&swapped, &plan).is_ok());
}

#[test]
fn match_of_a_resource_names_that_resource() {
    let core = ResourceId {
        group: String::new(),
        version: "v1".to_string(),
        kind: "Service".to_string(),
        namespace: Some("ns".to_string()),
        name: "s".to_string(),
        uid: Some("u".to_string()),
    };
    let m = ResourceMatch::from_resource_id(&core);
    assert!(m.group.is_none());
    assert!(m.matches(&core));
    let mut other = core.clone();
    other.group = "apps".to_string();
    assert!(!m.matches(&other));
    let mut newer = core.clone();
    newer.version = "v2".to_string();
    newer.uid = None;
    assert!(m.matches(&newer));
}

#[test]
fn wildcard_matches_are_refused() {
    let base = ResourceMatch {
        group: None,
        kind: "Pod".to_string(),
        namespace: None,
        name: "p".to_string(),
    };
    assert!(base.validate().is_ok());
    let mut kind = base.clone();
    kind.kind = "*".to_string();
    assert_eq!(kind.validate().unwrap_err(), "invalid kind: \"*\"");
    let mut name = base.clone();
    name.name = String::new();
    assert_eq!(name.validate().unwrap_err(), "invalid name: \"\"");
    let mut group = base.clone();
    group.group = Some("*".to_string());
    assert_eq!(group.validate().unwrap_err(), "wildcard group not allowed");
}

#[test]
fn words_of_actions_and_scopes() {
    assert_eq!(ExecutionAction::Delete.word(), "DELETE");
    assert_eq!(ExecutionAction::Wait.word(), "WAIT");
    assert_eq!(ApprovalScopeValue::Root.cli_arg(), "root");
    assert_eq!(ApprovalScopeValue::LabelOnly.cli_arg(), "label-only");
}
