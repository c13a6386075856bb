//! What is sent to the cluster, and what its answers mean.

use teardown::audit::{
    AttributedResidual, AuditCoverage, RecreationState, ResidualAudit, ResidualConfidence,
    ResidualEvidence, ResidualItem,
};
use teardown::executor::cleanup::{
    check_cleanup_journal, is_gate_closed_error, CleanupError, CleanupRun, CleanupStage,
    GateClosedError,
};
use teardown::executor::deletion::{is_admission_webhook_denial, verify_delete_identity};
use teardown::executor::gates::check_uids;
use teardown::executor::residual::{auto_cleanup_candidates, validate_saved_residual_decisions};
use teardown::executor::result::{
    count_actions, scope_suffix, FinalizerCheckResult, LiveCount, ObservationState,
};
use teardown::executor::waves::WaveResult;
use teardown::journal::{
    AuditContext, CleanupDecision, CleanupResult, ExecutionRecord, ResidualStatus, RunJournal,
    RunState, RUN_JOURNAL_SCHEMA_VERSION,
};
use teardown::olm::OperatorId;
use teardown::plan::{
    ApprovalKind, ClusterIdentity, DecisionBasis, ObservedResourceIdentity,
    OperatorGenerationIdentity, OperatorIdentitySnapshot, ResourceMatch, SavedAction,
    SavedDecision, SavedEvidenceSignature,
};
use teardown::planner::{Action, PlanPhase, Preflight, TeardownPlan};
use teardown::resource::ResourceId;

fn make_resource(kind: &str, name: &str) -> ResourceId {
    ResourceId {
        group: "test.example.com".to_string(),
        version: "v1".to_string(),
        kind: kind.to_string(),
        namespace: Some("test-ns".to_string()),
        name: name.to_string(),
        uid: None,
    }
}

fn make_empty_preflight() -> Preflight {
    Preflight { checks: vec![] }
}

fn make_plan_with_actions(actions: Vec<Action>) -> TeardownPlan {
    TeardownPlan {
        targets: vec![],
        preflight: make_empty_preflight(),
        phases: vec![PlanPhase {
            name: "test".to_string(),
            description: "test phase".to_string(),
            actions,
            barrier: None,
        }],
        blockers: vec![],
        warnings: vec![],
        snapshot_taken_at: "2026-01-01T00:00:00Z".to_string(),
        dependency_edges: vec![],
        operator_inventory: vec![],
        explicit_decisions: vec![],
    }
}

fn make_test_res(kind: &str, name: &str, uid: &str) -> ResourceId {
    ResourceId {
        group: "test.example.io".to_string(),
        version: "v1".to_string(),
        kind: kind.to_string(),
        namespace: Some("test-ns".to_string()),
        name: name.to_string(),
        uid: Some(uid.to_string()),
    }
}

fn make_cm_resource(name: &str, uid: Option<&str>) -> ResourceId {
    ResourceId {
        group: String::new(),
        version: "v1".to_string(),
        kind: "ConfigMap".to_string(),
        namespace: Some("test-ns".to_string()),
        name: name.to_string(),
        uid: uid.map(String::from),
    }
}

fn make_journal(schema_version: u32, state: RunState) -> RunJournal {
    RunJournal {
        run_id: "run-1".to_string(),
        schema_version,
        oc_deps_version: "0.1.0".to_string(),
        journal_revision: 1,
        cluster_identity: ClusterIdentity {
            api_server: "https://test:6443".to_string(),
            kube_system_uid: "test-uid".to_string(),
        },
        operator: OperatorIdentitySnapshot {
            generation_identity: OperatorGenerationIdentity::OlmPackage {
                package_name: "test".to_string(),
                install_namespace: "test-ns".to_string(),
            },
            operator_id: OperatorId {
                csv_name: "test.v1".to_string(),
                namespace: "test-ns".to_string(),
            },
            csv_name: "test.v1".to_string(),
            csv: ObservedResourceIdentity {
                resource: make_resource("ClusterServiceVersion", "test.v1"),
                uid: "uid-csv".to_string(),
            },
            subscriptions: vec![],
            controller_deployments: vec![],
            service_accounts: vec![],
            owned_crds: vec![],
            required_crds: vec![],
        },
        created_at: "2026-01-01T00:00:00Z".to_string(),
        updated_at: "2026-01-01T00:00:00Z".to_string(),
        state,
        residual_status: ResidualStatus::NotAudited,
        audit_revision: 0,
        audit_context: AuditContext::default(),
        plan_snapshot: make_plan_with_actions(vec![]),
        execution: ExecutionRecord::default(),
        last_residual_audit: None,
        cleanup_decisions: vec![],
        finalizer_recovery_approved: false,
        finalizer_recoveries: vec![],
    }
}

#[test]
fn count_actions_all_types() {
    let plan = make_plan_with_actions(vec![
        Action::Delete {
            resource: make_resource("Pod", "a"),
            reason: "test".to_string(),
        },
        Action::Delete {
            resource: make_resource("Pod", "b"),
            reason: "test".to_string(),
        },
        Action::ExpectGone {
            resource: make_resource("Pod", "c"),
            reason: "test".to_string(),
        },
        Action::Keep {
            resource: make_resource("CRD", "d"),
            reason: "test".to_string(),
        },
        Action::Review {
            resource: make_resource("CR", "e"),
            reason: "test".to_string(),
            metadata: None,
        },
        Action::WaitGone {
            resource: make_resource("Pod", "f"),
        },
    ]);
    let (d, e, k, r) = count_actions(&plan);
    assert_eq!(d, 2);
    assert_eq!(e, 1);
    assert_eq!(k, 1);
    assert_eq!(r, 1);
}

#[test]
fn count_actions_empty_plan() {
    let plan = make_plan_with_actions(vec![]);
    let (d, e, k, r) = count_actions(&plan);
    assert_eq!((d, e, k, r), (0, 0, 0, 0));
}

#[test]
fn scope_suffix_namespaced() {
    let res = make_resource("Pod", "test");
    let suffix = scope_suffix(&res);
    assert!(suffix.contains("ns: test-ns"));
}

#[test]
fn scope_suffix_cluster_scoped() {
    let res = ResourceId {
        group: "".to_string(),
        version: "v1".to_string(),
        kind: "Namespace".to_string(),
        namespace: None,
        name: "test".to_string(),
        uid: None,
    };
    let suffix = scope_suffix(&res);
    assert!(suffix.contains("cluster-scoped"));
}

#[test]
fn observation_state_unknown_is_not_gone() {
    let state = ObservationState::Unknown("test error".to_string());
    assert_ne!(state, ObservationState::Gone);
    assert!(matches!(state, ObservationState::Unknown(_)));
}

#[test]
fn observation_state_exists_is_not_gone() {
    let state = ObservationState::Exists {
        finalizer_count: 0,
        has_deletion_timestamp: false,
    };
    assert_ne!(state, ObservationState::Gone);
}

#[test]
fn finalizer_check_unknown_is_not_empty_known() {
    let result = FinalizerCheckResult::Unknown("resolve failed".to_string());
    assert!(matches!(result, FinalizerCheckResult::Unknown(_)));
    let empty = FinalizerCheckResult::Known {
        finalizers: vec![],
        terminating: false,
    };
    assert!(matches!(
        empty,
        FinalizerCheckResult::Known {
            ref finalizers,
            ..
        } if finalizers.is_empty()
    ));
}

#[test]
fn live_count_types() {
    assert!(matches!(LiveCount::Zero, LiveCount::Zero));
    assert!(matches!(LiveCount::NonZero(1), LiveCount::NonZero(1)));
    assert!(matches!(
        LiveCount::Unknown("err".to_string()),
        LiveCount::Unknown(_)
    ));
}

#[test]
fn test_delete_identity_both_uids_match() {
    assert!(verify_delete_identity(&Some("uid-a".to_string()), "uid-a").is_ok());
}

#[test]
fn test_delete_identity_uid_mismatch() {
    let err = verify_delete_identity(&Some("uid-a".to_string()), "uid-b").unwrap_err();
    assert!(err.contains("UID mismatch"));
}

#[test]
fn test_delete_identity_live_uid_empty() {
    let err = verify_delete_identity(&Some("uid-a".to_string()), "").unwrap_err();
    assert!(err.contains("no UID"));
}

#[test]
fn test_delete_identity_plan_uid_none_fails() {
    // Plan UID absent → cannot verify, must be bound first
    let err = verify_delete_identity(&None, "uid-x").unwrap_err();
    assert!(err.contains("no UID"));
}

#[test]
fn test_delete_identity_plan_uid_empty_fails() {
    let err = verify_delete_identity(&Some(String::new()), "uid-x").unwrap_err();
    assert!(err.contains("no UID"));
}

#[test]
fn test_delete_identity_both_empty_fails() {
    assert!(verify_delete_identity(&None, "").is_err());
}

#[test]
fn test_uid_a_to_b_recreation_blocks_delete() {
    // Plan says UID=A, live resource has UID=B → mismatch → no DELETE
    let result = verify_delete_identity(&Some("uid-A".to_string()), "uid-B");
    assert!(result.is_err());
    assert!(
        result.unwrap_err().contains("UID mismatch"),
        "should report UID mismatch, not proceed with DELETE"
    );
}

#[test]
fn test_uid_match_allows_delete() {
    // Plan says UID=A, live resource has UID=A → match → DELETE allowed
    assert!(verify_delete_identity(&Some("uid-A".to_string()), "uid-A").is_ok());
}

#[test]
fn test_plan_uid_none_blocks_delete() {
    // Plan has no UID → cannot verify identity → no DELETE
    let result = verify_delete_identity(&None, "uid-live");
    assert!(result.is_err());
    assert!(
        result.unwrap_err().contains("no UID"),
        "missing plan UID should block DELETE"
    );
}

#[test]
fn test_live_uid_empty_blocks_delete() {
    // Live resource has no UID → cannot verify → no DELETE
    let result = verify_delete_identity(&Some("uid-A".to_string()), "");
    assert!(result.is_err());
}

#[test]
fn test_uid_gate_runs_before_applying_state() {
    // A plan with a UID-less DELETE is refused before the
    // run leaves the Prepared state.
    let plan = make_plan_with_actions(vec![Action::Delete {
        resource: make_resource("Pod", "a"),
        reason: "test".to_string(),
    }]);
    assert!(check_uids(&plan).is_err());
    let plan_uid_none = verify_delete_identity(&None, "anything");
    assert!(
        plan_uid_none.is_err(),
        "UID-less DELETE must fail before any state transition"
    );
}

#[test]
fn residual_cleanup_state_gate_rejects_invalid_states() {
    let allowed = [RunState::ApplyCompleted, RunState::InteractiveCleanup];
    let rejected = [
        RunState::Prepared,
        RunState::Applying,
        RunState::Failed,
        RunState::Paused,
    ];

    for state in &allowed {
        let ok = check_cleanup_journal(&make_journal(9, *state)).is_ok();
        assert!(ok, "State {:?} should be allowed for cleanup", state);
    }

    for state in &rejected {
        let ok = check_cleanup_journal(&make_journal(9, *state)).is_ok();
        assert!(!ok, "State {:?} should be rejected for cleanup", state);
    }
}

#[test]
fn residual_cleanup_schema_gate_rejects_old_schema() {
    let current = RUN_JOURNAL_SCHEMA_VERSION;
    assert_eq!(
        current, 9,
        "Schema version must be 9 for cleanup gate to work correctly"
    );
    match check_cleanup_journal(&make_journal(8, RunState::ApplyCompleted)) {
        Err(CleanupError::Stopped(e)) => assert_eq!(
            e,
            "Journal schema version 8 is not current (expected 9). \
             Cannot perform cleanup on incompatible journal."
        ),
        other => panic!("unexpected {:?}", other),
    }
}

#[test]
fn hard_failed_vs_retryable() {
    let hard = CleanupDecision {
        resource: make_resource("Pod", "a"),
        bound_uid: Some("uid".to_string()),
        action: "delete".to_string(),
        result: Some(CleanupResult::Failed("API error".to_string())),
        approved_spec_name: None,
    };
    assert!(hard.is_hard_failed(), "Failed is a hard failure");

    let retryable = CleanupDecision {
        resource: make_resource("Pod", "b"),
        bound_uid: Some("uid".to_string()),
        action: "delete".to_string(),
        result: Some(CleanupResult::DeleteRequested),
        approved_spec_name: None,
    };
    assert!(
        !retryable.is_hard_failed(),
        "DeleteRequested is NOT hard failed"
    );
    assert!(
        retryable.is_pending(),
        "DeleteRequested IS pending (retryable)"
    );
}

#[test]
fn pending_decisions_prevent_apply_completed() {
    let decisions = [
        CleanupDecision {
            resource: make_resource("Pod", "a"),
            bound_uid: Some("uid".to_string()),
            action: "delete".to_string(),
            result: Some(CleanupResult::Gone),
            approved_spec_name: None,
        },
        CleanupDecision {
            resource: make_resource("Pod", "b"),
            bound_uid: Some("uid".to_string()),
            action: "delete".to_string(),
            result: Some(CleanupResult::DeleteRequested),
            approved_spec_name: None,
        },
    ];
    assert!(
        decisions.iter().any(|d| d.is_pending()),
        "DeleteRequested must prevent ApplyCompleted"
    );
    let run = CleanupRun {
        targets: vec![],
        at: 0,
        stage: CleanupStage::Finished,
        deleted: vec![],
        skipped: vec![],
        failed: vec![],
    };
    let (state, said) = run.conclude(
        &decisions.into_iter().collect(),
        &ResidualStatus::NoneObservedInScope,
    );
    assert_eq!(state, RunState::InteractiveCleanup);
    assert!(said.is_err());
}

#[test]
fn gate_closed_error_is_typed() {
    let err = CleanupError::GateClosed(GateClosedError);
    assert!(
        is_gate_closed_error(&err),
        "GateClosedError must be detected by is_gate_closed_error"
    );
}

#[test]
fn non_gate_error_is_not_gate_closed() {
    let err = CleanupError::Stopped("some other error".to_string());
    assert!(
        !is_gate_closed_error(&err),
        "generic error must not match gate-closed"
    );
}

#[test]
fn test_admission_webhook_detection() {
    assert!(is_admission_webhook_denial(
        "admission webhook \"validator.example.io\" denied the request: Cannot delete"
    ));
    assert!(is_admission_webhook_denial(
        "admission webhook \"dscinitialization-v2-validator.opendatahub.io\" denied the request: Cannot delete DSCInitialization"
    ));
    assert!(!is_admission_webhook_denial("forbidden"));
    assert!(!is_admission_webhook_denial("User cannot delete resource"));
    assert!(!is_admission_webhook_denial(""));
}

#[test]
fn test_already_gone_has_no_redelete_authority() {
    let res_a = make_test_res("ResourceA", "a1", "uid-a");
    let res_b = make_test_res("ResourceB", "b1", "uid-b");
    let wave = WaveResult {
        accepted_gone: vec![res_a.clone()],
        already_gone: vec![res_b.clone()],
        failed: vec![],
        stopped: false,
        redelete_authorities: vec![(res_a.clone(), "uid-a".to_string())],
    };
    assert!(
        wave.redelete_authorities
            .iter()
            .any(|(r, _)| r.name == "a1"),
    );
    assert!(
        !wave
            .redelete_authorities
            .iter()
            .any(|(r, _)| r.name == "b1"),
    );
}

#[test]
fn recreated_expect_does_not_inherit_auto_cleanup_authority() {

    let resource = make_cm_resource("child1", Some("uid-A"));
    let mut audit = ResidualAudit {
        planned_delete_still_present: vec![],
        planned_expect_still_present: vec![ResidualItem {
            resource: resource.clone(),
            planned_action: "EXPECT".to_string(),
            live_uid: Some("uid-B".to_string()),
            recreation: RecreationState::Recreated,
        }],
        expected_preserved: vec![],
        likely_operator_residual: vec![],
        unattributed: vec![],
        coverage: AuditCoverage {
            requested_probes: 1,
            succeeded_probes: 1,
        },
        scan_errors: vec![],
    };
    assert!(auto_cleanup_candidates(&audit, &vec![]).is_empty());

    audit.planned_expect_still_present[0].live_uid = resource.uid.clone();
    audit.planned_expect_still_present[0].recreation = RecreationState::SameResource;
    assert_eq!(auto_cleanup_candidates(&audit, &vec![]).len(), 1);
}

#[test]
fn residual_explicit_unattributed_blocked() {

    let audit = ResidualAudit {
        planned_delete_still_present: vec![],
        planned_expect_still_present: vec![],
        expected_preserved: vec![],
        likely_operator_residual: vec![AttributedResidual {
            resource: ResourceId {
                group: "test.io".to_string(),
                version: "v1".to_string(),
                kind: "Widget".to_string(),
                namespace: Some("ns".to_string()),
                name: "w1".to_string(),
                uid: Some("uid-w1".to_string()),
            },
            evidence: ResidualEvidence {
                owner_ref_match: false,
                matching_labels: vec![],
                matching_managers: vec![],
                namespace_affinity: true,
                service_account_match: false,
            },
            confidence: ResidualConfidence::Medium,
        }],
        unattributed: vec![],
        coverage: AuditCoverage {
            requested_probes: 0,
            succeeded_probes: 0,
        },
        scan_errors: vec![],
    };

    let decisions = vec![SavedDecision {
        match_spec: ResourceMatch {
            group: Some("test.io".to_string()),
            kind: "Widget".to_string(),
            namespace: Some("ns".to_string()),
            name: "w1".to_string(),
        },
        action: SavedAction::Delete,
        approval: ApprovalKind::ExplicitUnattributed,
        basis: DecisionBasis {
            provenance: Some("Unknown".to_string()),
            review_category: None,
            discovery_source: None,
            decisive_evidence: vec![],
        },
    }];

    let result = validate_saved_residual_decisions(&decisions, &audit);
    assert!(result.is_err(), "ExplicitUnattributed must be blocked");
}

#[test]
fn residual_not_in_current_set_blocked() {

    let audit = ResidualAudit {
        planned_delete_still_present: vec![],
        planned_expect_still_present: vec![],
        expected_preserved: vec![],
        likely_operator_residual: vec![],
        unattributed: vec![],
        coverage: AuditCoverage {
            requested_probes: 0,
            succeeded_probes: 0,
        },
        scan_errors: vec![],
    };

    let decisions = vec![SavedDecision {
        match_spec: ResourceMatch {
            group: Some("test.io".to_string()),
            kind: "Widget".to_string(),
            namespace: Some("ns".to_string()),
            name: "w1".to_string(),
        },
        action: SavedAction::Delete,
        approval: ApprovalKind::Explicit,
        basis: DecisionBasis {
            provenance: Some("Managed".to_string()),
            review_category: None,
            discovery_source: None,
            decisive_evidence: vec![],
        },
    }];

    let result = validate_saved_residual_decisions(&decisions, &audit);
    assert!(
        result.is_err(),
        "Not in current residual set must be blocked"
    );
}

#[test]
fn residual_valid_match_returns_uid() {

    let audit = ResidualAudit {
        planned_delete_still_present: vec![],
        planned_expect_still_present: vec![],
        expected_preserved: vec![],
        likely_operator_residual: vec![AttributedResidual {
            resource: ResourceId {
                group: "test.io".to_string(),
                version: "v1".to_string(),
                kind: "Widget".to_string(),
                namespace: Some("ns".to_string()),
                name: "w1".to_string(),
                uid: Some("uid-current".to_string()),
            },
            evidence: ResidualEvidence {
                owner_ref_match: true,
                matching_labels: vec![],
                matching_managers: vec![],
                namespace_affinity: true,
                service_account_match: false,
            },
            confidence: ResidualConfidence::High,
        }],
        unattributed: vec![],
        coverage: AuditCoverage {
            requested_probes: 1,
            succeeded_probes: 1,
        },
        scan_errors: vec![],
    };

    let decisions = vec![SavedDecision {
        match_spec: ResourceMatch {
            group: Some("test.io".to_string()),
            kind: "Widget".to_string(),
            namespace: Some("ns".to_string()),
            name: "w1".to_string(),
        },
        action: SavedAction::Delete,
        approval: ApprovalKind::Explicit,
        basis: DecisionBasis {
            provenance: Some("Managed".to_string()),
            review_category: None,
            discovery_source: None,
            decisive_evidence: vec![],
        },
    }];

    let result = validate_saved_residual_decisions(&decisions, &audit);
    assert!(result.is_ok(), "Valid match must succeed");
    let candidates = result.unwrap();
    assert_eq!(candidates.len(), 1);
    assert_eq!(candidates[0].uid.as_deref(), Some("uid-current"));
}

#[test]
fn residual_empty_basis_blocked() {

    let audit = ResidualAudit {
        planned_delete_still_present: vec![],
        planned_expect_still_present: vec![],
        expected_preserved: vec![],
        likely_operator_residual: vec![AttributedResidual {
            resource: ResourceId {
                group: "test.io".to_string(),
                version: "v1".to_string(),
                kind: "Widget".to_string(),
                namespace: Some("ns".to_string()),
                name: "w1".to_string(),
                uid: Some("uid-1".to_string()),
            },
            evidence: ResidualEvidence {
                owner_ref_match: false,
                matching_labels: vec![],
                matching_managers: vec![],
                namespace_affinity: true,
                service_account_match: false,
            },
            confidence: ResidualConfidence::Medium,
        }],
        unattributed: vec![],
        coverage: AuditCoverage {
            requested_probes: 1,
            succeeded_probes: 1,
        },
        scan_errors: vec![],
    };

    let decisions = vec![SavedDecision {
        match_spec: ResourceMatch {
            group: Some("test.io".to_string()),
            kind: "Widget".to_string(),
            namespace: Some("ns".to_string()),
            name: "w1".to_string(),
        },
        action: SavedAction::Delete,
        approval: ApprovalKind::Explicit,
        basis: DecisionBasis {
            provenance: None,
            review_category: None,
            discovery_source: None,
            decisive_evidence: vec![],
        },
    }];

    let result = validate_saved_residual_decisions(&decisions, &audit);
    assert!(result.is_err(), "Empty basis must block residual cleanup");
}

#[test]
fn a_planned_object_is_not_cleaned_up_on_an_empty_basis() {
    let planned = make_test_res("Widget", "w1", "uid-a");
    let decide = |provenance| {
        vec![SavedDecision {
            match_spec: ResourceMatch::from_resource_id(&planned),
            action: SavedAction::Delete,
            approval: ApprovalKind::Explicit,
            basis: DecisionBasis {
                provenance,
                review_category: None,
                discovery_source: None,
                decisive_evidence: vec![],
            },
        }]
    };
    for live_uid in [Some("uid-b".to_string()), Some("uid-a".to_string()), None] {
        for expected in [false, true] {
            let item = ResidualItem {
                resource: planned.clone(),
                planned_action: "DELETE".to_string(),
                live_uid: live_uid.clone(),
                recreation: RecreationState::Recreated,
            };
            let mut audit = ResidualAudit {
                planned_delete_still_present: vec![],
                planned_expect_still_present: vec![],
                expected_preserved: vec![],
                likely_operator_residual: vec![],
                unattributed: vec![],
                coverage: AuditCoverage {
                    requested_probes: 1,
                    succeeded_probes: 1,
                },
                scan_errors: vec![],
            };
            if expected {
                audit.planned_expect_still_present.push(item);
            } else {
                audit.planned_delete_still_present.push(item);
            }
            assert_eq!(
                validate_saved_residual_decisions(&decide(None), &audit).unwrap_err(),
                ["Widget/w1: saved residual DELETE has empty basis — cannot replay"]
            );
            let grounds = decide(Some("owner".to_string()));
            let found = validate_saved_residual_decisions(&grounds, &audit).unwrap();
            let uids: Vec<Option<String>> = found.iter().map(|r| r.uid.clone()).collect();
            match &live_uid {
                Some(_) => assert_eq!(uids, [live_uid.clone()]),
                None => assert!(uids.is_empty()),
            }
        }
    }
}

#[test]
fn residual_missing_label_in_evidence_blocked() {

    let audit = ResidualAudit {
        planned_delete_still_present: vec![],
        planned_expect_still_present: vec![],
        expected_preserved: vec![],
        likely_operator_residual: vec![AttributedResidual {
            resource: ResourceId {
                group: "test.io".to_string(),
                version: "v1".to_string(),
                kind: "Widget".to_string(),
                namespace: Some("ns".to_string()),
                name: "w1".to_string(),
                uid: Some("uid-1".to_string()),
            },
            evidence: ResidualEvidence {
                owner_ref_match: false,
                matching_labels: vec![("app".to_string(), "other".to_string())],
                matching_managers: vec![],
                namespace_affinity: true,
                service_account_match: false,
            },
            confidence: ResidualConfidence::High,
        }],
        unattributed: vec![],
        coverage: AuditCoverage {
            requested_probes: 1,
            succeeded_probes: 1,
        },
        scan_errors: vec![],
    };

    let decisions = vec![SavedDecision {
        match_spec: ResourceMatch {
            group: Some("test.io".to_string()),
            kind: "Widget".to_string(),
            namespace: Some("ns".to_string()),
            name: "w1".to_string(),
        },
        action: SavedAction::Delete,
        approval: ApprovalKind::Explicit,
        basis: DecisionBasis {
            provenance: Some("LikelyManaged".to_string()),
            review_category: None,
            discovery_source: None,
            decisive_evidence: vec![SavedEvidenceSignature::Label {
                key: "app".to_string(),
                value: "expected".to_string(),
            }],
        },
    }];

    let result = validate_saved_residual_decisions(&decisions, &audit);
    assert!(
        result.is_err(),
        "Missing label in current evidence must block"
    );
}

#[test]
fn residual_dedup_by_group_kind_ns_name() {

    let audit = ResidualAudit {
        planned_delete_still_present: vec![],
        planned_expect_still_present: vec![],
        expected_preserved: vec![],
        likely_operator_residual: vec![AttributedResidual {
            resource: ResourceId {
                group: "test.io".to_string(),
                version: "v1".to_string(),
                kind: "Widget".to_string(),
                namespace: Some("ns".to_string()),
                name: "w1".to_string(),
                uid: Some("uid-1".to_string()),
            },
            evidence: ResidualEvidence {
                owner_ref_match: true,
                matching_labels: vec![],
                matching_managers: vec![],
                namespace_affinity: true,
                service_account_match: false,
            },
            confidence: ResidualConfidence::High,
        }],
        unattributed: vec![],
        coverage: AuditCoverage {
            requested_probes: 1,
            succeeded_probes: 1,
        },
        scan_errors: vec![],
    };

    let same_decision = SavedDecision {
        match_spec: ResourceMatch {
            group: Some("test.io".to_string()),
            kind: "Widget".to_string(),
            namespace: Some("ns".to_string()),
            name: "w1".to_string(),
        },
        action: SavedAction::Delete,
        approval: ApprovalKind::Explicit,
        basis: DecisionBasis {
            provenance: Some("Managed".to_string()),
            review_category: None,
            discovery_source: None,
            decisive_evidence: vec![],
        },
    };

    let decisions = vec![same_decision.clone(), same_decision];
    let result = validate_saved_residual_decisions(&decisions, &audit);
    assert!(result.is_ok());
    assert_eq!(result.unwrap().len(), 1, "Duplicate must be deduped");
}
