//! The run journal.

use teardown::collections::KeyMap;
use teardown::journal::context::build_audit_context;
use teardown::journal::{
    check_journal_text, chrono_now_iso, find_latest_run, generate_run_id, run_path,
    sort_newest_first, uuid_v4_short, AuditContext, CleanupDecision, CleanupResult,
    CleanupResultFault, ExecutionRecord, GvrScope, JournalFault, ResidualStatus, RunJournal,
    RunState,
};
use teardown::json::has_many_members;
use teardown::olm::{OperatorId, OperatorInstance};
use teardown::plan::{
    ClusterIdentity, ObservedResourceIdentity, OperatorGenerationIdentity,
    OperatorIdentitySnapshot,
};
use teardown::planner::{Action, PlanPhase, Preflight, TeardownPlan};
use teardown::resource::{KindInfo, ResourceId};

#[test]
fn test_cleanup_result_deserializes_v5_string() {
    // v5 format: plain string
    let v5_deleted: CleanupResult = CleanupResult::from_json(r#""deleted""#).unwrap();
    assert_eq!(v5_deleted, CleanupResult::DeleteRequested);

    let v5_gone: CleanupResult = CleanupResult::from_json(r#""gone""#).unwrap();
    assert_eq!(v5_gone, CleanupResult::Gone);

    let v5_already: CleanupResult = CleanupResult::from_json(r#""already_gone""#).unwrap();
    assert_eq!(v5_already, CleanupResult::AlreadyGone);

    let v5_already_space: CleanupResult = CleanupResult::from_json(r#""already gone""#).unwrap();
    assert_eq!(v5_already_space, CleanupResult::AlreadyGone);

    let v5_failed: CleanupResult =
        CleanupResult::from_json(r#""failed: connection refused""#).unwrap();
    assert!(matches!(v5_failed, CleanupResult::Failed(r) if r == "connection refused"));

    // Unknown strings must be rejected (not silently converted to Failed)
    let v5_unknown: Result<CleanupResult, _> = CleanupResult::from_json(r#""something_else""#);
    assert!(
        v5_unknown.is_err(),
        "unknown v5 string must fail deserialization"
    );
}

#[test]
fn test_cleanup_result_deserializes_v6_enum() {
    // v6 format: tagged enum
    let v6_gone: CleanupResult = CleanupResult::from_json(r#""Gone""#).unwrap();
    assert_eq!(v6_gone, CleanupResult::Gone);

    let v6_failed: CleanupResult = CleanupResult::from_json(r#"{"Failed":"reason"}"#).unwrap();
    assert_eq!(v6_failed, CleanupResult::Failed("reason".to_string()));

    let v6_requested: CleanupResult = CleanupResult::from_json(r#""DeleteRequested""#).unwrap();
    assert_eq!(v6_requested, CleanupResult::DeleteRequested);

    let v6_already: CleanupResult = CleanupResult::from_json(r#""AlreadyGone""#).unwrap();
    assert_eq!(v6_already, CleanupResult::AlreadyGone);
}

#[test]
fn test_unknown_outcome_roundtrip() {
    let uo: CleanupResult =
        CleanupResult::from_json(r#"{"UnknownOutcome":"500 timeout"}"#).unwrap();
    assert_eq!(uo, CleanupResult::UnknownOutcome("500 timeout".to_string()));

    let mut tagged = std::collections::BTreeMap::new();
    if let CleanupResult::UnknownOutcome(reason) = &uo {
        tagged.insert("UnknownOutcome", reason.clone());
    }
    let serialized = serde_json::to_string(&tagged).unwrap();
    let rt: CleanupResult = CleanupResult::from_json(&serialized).unwrap();
    assert_eq!(rt, uo);
}

#[test]
fn test_unknown_variant_rejected_not_silent() {
    let result: Result<CleanupResult, _> = CleanupResult::from_json(r#"{"FutureVariant":"data"}"#);
    assert!(
        result.is_err(),
        "unrecognized variant must fail, not silently convert"
    );
}

#[test]
fn test_unknown_outcome_is_pending_not_hard_failed() {
    let decision = CleanupDecision {
        resource: ResourceId {
            group: "test.io".to_string(),
            version: "v1".to_string(),
            kind: "Thing".to_string(),
            namespace: Some("ns".to_string()),
            name: "a".to_string(),
            uid: Some("uid-a".to_string()),
        },
        bound_uid: Some("uid-a".to_string()),
        action: "delete".to_string(),
        result: Some(CleanupResult::UnknownOutcome("500".to_string())),
        approved_spec_name: None,
    };
    assert!(
        decision.is_pending(),
        "UnknownOutcome must be pending (resumable)"
    );
    assert!(
        !decision.is_hard_failed(),
        "UnknownOutcome must NOT be hard_failed"
    );
    assert!(
        decision.is_failed(),
        "UnknownOutcome must be is_failed (needs attention)"
    );
}

#[test]
fn old_schema_version_rejected() {
    let result = check_journal_text(r#"{"schema_version":8,"run_id":"x"}"#);
    assert!(result.is_err(), "v8 journal must be rejected");
    let err = result.unwrap_err().message();
    assert!(
        err.contains("Unsupported journal schema version"),
        "Error must mention unsupported: {}",
        err
    );
}

fn res(group: &str, kind: &str, name: &str, namespace: &str) -> ResourceId {
    ResourceId {
        group: group.to_string(),
        version: "v1".to_string(),
        kind: kind.to_string(),
        namespace: Some(namespace.to_string()),
        name: name.to_string(),
        uid: Some(format!("uid-{}", name)),
    }
}

fn plan(actions: Vec<Action>) -> TeardownPlan {
    TeardownPlan {
        targets: vec![],
        preflight: Preflight { checks: vec![] },
        phases: vec![PlanPhase {
            name: "operands".to_string(),
            description: String::new(),
            actions,
            barrier: None,
        }],
        blockers: vec![],
        warnings: vec![],
        snapshot_taken_at: String::new(),
        dependency_edges: vec![],
        operator_inventory: vec![],
        explicit_decisions: vec![],
    }
}

fn cluster(uid: &str) -> ClusterIdentity {
    ClusterIdentity {
        api_server: "https://test:6443".to_string(),
        kube_system_uid: uid.to_string(),
    }
}

fn journal(run_id: &str, created_at: &str) -> RunJournal {
    RunJournal {
        run_id: run_id.to_string(),
        schema_version: 9,
        oc_deps_version: "0.1.0".to_string(),
        journal_revision: 4,
        cluster_identity: cluster("c1"),
        operator: OperatorIdentitySnapshot {
            generation_identity: OperatorGenerationIdentity::Unverifiable {
                reason: "test".to_string(),
            },
            operator_id: OperatorId {
                csv_name: "op.v1".to_string(),
                namespace: "ns".to_string(),
            },
            csv_name: "op.v1".to_string(),
            csv: ObservedResourceIdentity {
                resource: res("operators.coreos.com", "ClusterServiceVersion", "op.v1", "ns"),
                uid: "uid-op.v1".to_string(),
            },
            subscriptions: vec![],
            controller_deployments: vec![],
            service_accounts: vec![],
            owned_crds: vec![],
            required_crds: vec![],
        },
        created_at: created_at.to_string(),
        updated_at: created_at.to_string(),
        state: RunState::Prepared,
        residual_status: ResidualStatus::NotAudited,
        audit_revision: 0,
        audit_context: AuditContext::default(),
        plan_snapshot: plan(vec![]),
        execution: ExecutionRecord::default(),
        last_residual_audit: None,
        cleanup_decisions: vec![],
        finalizer_recovery_approved: false,
        finalizer_recoveries: vec![],
    }
}

#[test]
fn runs_are_sorted_with_the_newest_first() {
    let runs = sort_newest_first(vec![
        journal("a", "2026-01-01T00:00:00Z"),
        journal("b", "2026-03-01T00:00:00Z"),
        journal("c", "2026-02-01T00:00:00Z"),
        journal("d", "2026-03-01T00:00:00Z"),
    ]);
    let order: Vec<&str> = runs.iter().map(|j| j.run_id.as_str()).collect();
    assert_eq!(order, ["b", "d", "c", "a"]);

    let latest = find_latest_run(&runs, &cluster("c1"), "op.v1").unwrap();
    assert_eq!(latest.run_id, "b");
    assert!(find_latest_run(&runs, &cluster("c2"), "op.v1").is_none());
    assert!(find_latest_run(&runs, &cluster("c1"), "other.v1").is_none());
}

#[test]
fn a_run_has_an_identifier_and_a_place() {
    assert_eq!(generate_run_id(0x1234abcd, 255), "run-1234abcd-ff");
    assert_eq!(uuid_v4_short(0x1234abcd, 255), "1234abcd_ff");
    assert_eq!(
        run_path(&cluster("c1"), "run-1"),
        ["clusters", "c1", "runs", "run-1.json"]
    );
}

#[test]
fn a_change_raises_the_revision_and_moves_the_time() {
    let mut j = journal("a", "2026-01-01T00:00:00Z");
    j.touch("2026-01-02T00:00:00Z".to_string());
    assert_eq!(j.journal_revision, 5);
    assert_eq!(j.updated_at, "2026-01-02T00:00:00Z");
    assert_eq!(j.created_at, "2026-01-01T00:00:00Z");
    j.mark_changed();
    assert_eq!(j.journal_revision, 6);
    assert_ne!(j.updated_at, "2026-01-02T00:00:00Z");
    // A date, the time of day and the offset.
    let now = chrono_now_iso();
    assert_eq!(&now[4..5], "-");
    assert_eq!(&now[10..11], "T");
    assert!(now.ends_with("+00:00"));
}

#[test]
fn the_text_of_a_journal_must_carry_the_current_version() {
    assert!(check_journal_text(r#"{"schema_version":9}"#).is_ok());
    assert!(matches!(
        check_journal_text("{"),
        Err(JournalFault::NotJson)
    ));
    assert!(matches!(
        check_journal_text(r#"{"run_id":"x"}"#),
        Err(JournalFault::SchemaVersion { found: 0 })
    ));
    assert_eq!(
        check_journal_text("[]").unwrap_err().message(),
        "Unsupported journal schema version 0 (expected 9). Remove old local run state and \
         create a fresh teardown plan."
    );
}

#[test]
fn faults_of_a_cleanup_result_are_told_apart() {
    let fault = |text: &str| CleanupResult::from_json(text).unwrap_err();
    assert!(matches!(fault("{"), CleanupResultFault::NotJson));
    assert!(matches!(fault("1"), CleanupResultFault::WrongShape));
    assert!(matches!(
        fault(r#"{"Later":"x"}"#),
        CleanupResultFault::UnknownVariant(v) if v == "Later"
    ));
    assert!(matches!(
        fault(r#"{"Failed":1}"#),
        CleanupResultFault::WrongValue
    ));
}

#[test]
fn the_context_of_an_audit_is_drawn_from_the_plan_and_the_operators() {
    let op = OperatorInstance {
        subscription: None,
        package_name: None,
        csv: res("operators.coreos.com", "ClusterServiceVersion", "op.v1", "home"),
        csv_phase: String::new(),
        owned_crds: vec![
            "widgets.x.io".to_string(),
            "gadgets.x.io".to_string(),
            "lost.x.io".to_string(),
        ],
        required_crds: vec![],
        owned_api_service_defs: vec![],
        required_api_service_defs: vec![],
        deployments: vec!["ctl".to_string()],
        service_accounts: vec!["sa".to_string()],
        install_namespace: "home".to_string(),
        has_unlinked_subscriptions: false,
    };
    let delete = |group: &str, kind: &str, name: &str| Action::Delete {
        resource: res(group, kind, name, "work"),
        reason: String::new(),
    };
    let p = plan(vec![
        delete("x.io", "Widget", "a"),
        delete("x.io", "Widget", "b"),
        delete("y.io", "Unknown", "c"),
    ]);
    let mut kinds = KeyMap::new();
    for (kind, plural, namespaced) in [("Widget", "widgets", true), ("Gadget", "gadgets", false)] {
        kinds.insert(
            ("x.io".to_string(), kind.to_string()),
            KindInfo {
                group: "x.io".to_string(),
                version: "v1".to_string(),
                plural: plural.to_string(),
                namespaced,
            },
        );
    }
    let ctx = build_audit_context(&p, &vec![&op], &kinds);
    assert!(ctx.csv_names.contains(&"op.v1".to_string()));
    assert!(ctx.controller_deployment_names.contains(&"ctl".to_string()));
    assert!(ctx.service_account_names.contains(&"sa".to_string()));
    assert!(ctx.footprint_namespaces.contains(&"home".to_string()));
    assert!(ctx.footprint_namespaces.contains(&"work".to_string()));
    assert_eq!(ctx.footprint_namespaces.len(), 2);
    let known = ctx.known_gvrs.unwrap();
    assert_eq!(known.len(), 2);
    assert_eq!(known[0].kind, "Widget");
    assert_eq!(known[1].kind, "Gadget");
    assert_eq!(known[1].scope, GvrScope::Cluster);
    assert_eq!(ctx.owned_cr_gvrs.unwrap().len(), 2);
    assert_eq!(ctx.unresolved_crds.unwrap(), ["lost.x.io"]);
    assert_eq!(
        ctx.unresolved_gvks.unwrap(),
        [(
            "y.io".to_string(),
            "v1".to_string(),
            "Unknown".to_string()
        )]
    );
    assert!(ctx.csv_baseline.is_none());
}

#[test]
fn a_cleanup_result_is_the_only_entry_of_its_object() {
    for text in [
        r#"{"Gone":null,"Gone":null}"#,
        r#"{"Failed":"a","Failed":"b"}"#,
        r#"{"Gone":null,"Failed":"a"}"#,
        "{}",
        "[null]",
    ] {
        assert!(CleanupResult::from_json(text).is_err(), "{}", text);
    }
    let reason = r#"a, b: {"c", [d]} \ ,"#;
    let text = format!("{{ \"Failed\" : {:?} }}", reason);
    assert!(
        matches!(CleanupResult::from_json(&text), Ok(CleanupResult::Failed(r)) if r == reason)
    );
    assert!(!has_many_members(&text));
    assert!(has_many_members("[1, 2]"));
    assert!(!has_many_members("[[1, 2]]"));
    assert!(!has_many_members(r#""a,b""#));
}
