//! Attribution, audits and what they come to.

use teardown::audit::attribution::{classify_evidence, classify_list_results, compute_confidence};
use teardown::audit::packages::{
    csv_label_attributes_to_other_package, csv_packages_from_annotations,
    is_exclusively_other_package, subscription_csv,
};
use teardown::audit::report::residual_status_from_audit;
use teardown::audit::scan::{check_recreation, collect_target_uids, known_plural_for_gvk};
use teardown::audit::{
    AttributedResidual, AuditCoverage, AuditScanError, RecreationState, ResidualAudit,
    ResidualConfidence, ResidualEvidence, ResidualItem,
};
use teardown::cluster::{LiveObject, OwnerReference};
use teardown::collections::KeySet;
use teardown::executor::defer::has_same_slot;
use teardown::explain::action_label;
use teardown::journal::{AuditContext, ResidualStatus};
use teardown::olm::OperatorId;
use teardown::plan::{
    ObservedResourceIdentity, OperatorGenerationIdentity, OperatorIdentitySnapshot,
};
use teardown::planner::{Action, PlanPhase};
use teardown::resource::ResourceId;

fn make_rid(
    group: &str,
    kind: &str,
    ns: Option<&str>,
    name: &str,
    uid: Option<&str>,
) -> ResourceId {
    ResourceId {
        group: group.to_string(),
        version: "v1".to_string(),
        kind: kind.to_string(),
        namespace: ns.map(String::from),
        name: name.to_string(),
        uid: uid.map(String::from),
    }
}

// ── RecreationState tests ──

#[test]
fn test_recreation_uid_match_is_same_resource() {
    let rid = make_rid("apps", "Deployment", Some("ns"), "foo", Some("uid-aaa"));
    let live = Some("uid-aaa".to_string());
    assert_eq!(check_recreation(&rid, &live), RecreationState::SameResource);
}

#[test]
fn test_recreation_uid_mismatch_is_recreated() {
    let rid = make_rid("apps", "Deployment", Some("ns"), "foo", Some("uid-aaa"));
    let live = Some("uid-bbb".to_string());
    assert_eq!(check_recreation(&rid, &live), RecreationState::Recreated);
}

#[test]
fn test_recreation_plan_uid_missing_is_unknown() {
    let rid = make_rid("apps", "Deployment", Some("ns"), "foo", None);
    let live = Some("uid-aaa".to_string());
    assert_eq!(check_recreation(&rid, &live), RecreationState::Unknown);
}

#[test]
fn test_recreation_live_uid_missing_is_unknown() {
    let rid = make_rid("apps", "Deployment", Some("ns"), "foo", Some("uid-aaa"));
    let live: Option<String> = None;
    assert_eq!(check_recreation(&rid, &live), RecreationState::Unknown);
}

#[test]
fn test_recreation_both_uid_missing_is_unknown() {
    let rid = make_rid("apps", "Deployment", Some("ns"), "foo", None);
    let live: Option<String> = None;
    assert_eq!(check_recreation(&rid, &live), RecreationState::Unknown);
}

// ── residual_status_from_audit tests ──

#[test]
fn test_residual_status_scan_error_is_incomplete() {
    let mut audit = empty_audit();
    audit.scan_errors.push(AuditScanError {
        resource_type: "Route".to_string(),
        namespace: "ns".to_string(),
        error: "403 Forbidden".to_string(),
    });
    assert!(matches!(
        residual_status_from_audit(&audit),
        ResidualStatus::AuditIncomplete
    ));
}

#[test]
fn test_residual_status_uid_unknown_is_incomplete() {
    let mut audit = empty_audit();
    audit.planned_delete_still_present.push(ResidualItem {
        resource: make_rid("apps", "Deployment", Some("ns"), "foo", Some("uid-a")),
        planned_action: "DELETE".to_string(),
        live_uid: None,
        recreation: RecreationState::Unknown,
    });
    assert!(matches!(
        residual_status_from_audit(&audit),
        ResidualStatus::AuditIncomplete
    ));
}

#[test]
fn test_residual_status_no_residuals_is_none_observed() {
    let audit = empty_audit();
    assert!(matches!(
        residual_status_from_audit(&audit),
        ResidualStatus::NoneObservedInScope
    ));
}

#[test]
fn test_residual_status_with_residuals_is_observed() {
    let mut audit = empty_audit();
    audit.unattributed.push(AttributedResidual {
        resource: make_rid("", "Service", Some("ns"), "svc", None),
        evidence: empty_evidence(),
        confidence: ResidualConfidence::NoEvidence,
    });
    match residual_status_from_audit(&audit) {
        ResidualStatus::ResidualsObserved { count } => assert_eq!(count, 1),
        other => panic!("expected ResidualsObserved, got {:?}", other),
    }
}

// ── compute_confidence tests ──

#[test]
fn test_confidence_owner_ref_is_high() {
    let evidence = ResidualEvidence {
        owner_ref_match: true,
        matching_labels: vec![],
        matching_managers: vec![],
        namespace_affinity: true,
        service_account_match: false,
    };
    assert_eq!(compute_confidence(&evidence), ResidualConfidence::High);
}

#[test]
fn test_confidence_sa_and_manager_is_high() {
    let evidence = ResidualEvidence {
        owner_ref_match: false,
        matching_labels: vec![],
        matching_managers: vec!["controller".to_string()],
        namespace_affinity: true,
        service_account_match: true,
    };
    assert_eq!(compute_confidence(&evidence), ResidualConfidence::High);
}

#[test]
fn test_confidence_manager_and_label_is_medium() {
    let evidence = ResidualEvidence {
        owner_ref_match: false,
        matching_labels: vec![("app".to_string(), "test".to_string())],
        matching_managers: vec!["controller".to_string()],
        namespace_affinity: true,
        service_account_match: false,
    };
    assert_eq!(compute_confidence(&evidence), ResidualConfidence::Medium);
}

#[test]
fn test_confidence_manager_only_is_low() {
    let evidence = ResidualEvidence {
        owner_ref_match: false,
        matching_labels: vec![],
        matching_managers: vec!["controller".to_string()],
        namespace_affinity: true,
        service_account_match: false,
    };
    assert_eq!(compute_confidence(&evidence), ResidualConfidence::Low);
}

#[test]
fn test_confidence_label_only_is_low() {
    let evidence = ResidualEvidence {
        owner_ref_match: false,
        matching_labels: vec![("app".to_string(), "test".to_string())],
        matching_managers: vec![],
        namespace_affinity: true,
        service_account_match: false,
    };
    assert_eq!(compute_confidence(&evidence), ResidualConfidence::Low);
}

#[test]
fn test_confidence_namespace_only_is_none() {
    let evidence = ResidualEvidence {
        owner_ref_match: false,
        matching_labels: vec![],
        matching_managers: vec![],
        namespace_affinity: true,
        service_account_match: false,
    };
    assert_eq!(compute_confidence(&evidence), ResidualConfidence::NoEvidence);
}

#[test]
fn test_confidence_no_evidence_is_none() {
    let evidence = empty_evidence();
    assert_eq!(compute_confidence(&evidence), ResidualConfidence::NoEvidence);
}

// ── known_plural_for_gvk tests ──

#[test]
fn test_known_plural_apps_deployment() {
    assert_eq!(
        known_plural_for_gvk("apps", "Deployment"),
        Some("deployments")
    );
}

#[test]
fn test_known_plural_group_mismatch_returns_none() {
    // A custom "Deployment" Kind in a different API group must NOT resolve to "deployments"
    assert_eq!(known_plural_for_gvk("foo.io", "Deployment"), None);
}

#[test]
fn test_known_plural_olm_subscription() {
    assert_eq!(
        known_plural_for_gvk("operators.coreos.com", "Subscription"),
        Some("subscriptions")
    );
}

#[test]
fn test_known_plural_unknown_kind() {
    assert_eq!(known_plural_for_gvk("custom.io", "Widget"), None);
}

// ── plan_resources group exclusion tests ──

#[test]
fn test_plan_resources_excludes_same_group() {
    let plan_resources = vec![make_rid("apps", "Deployment", Some("ns"), "foo", None)];

    // Same group+kind+ns+name → excluded
    let key = make_rid("apps", "Deployment", Some("ns"), "foo", Some("uid"));
    assert!(has_same_slot(&plan_resources, &key));
}

#[test]
fn test_plan_resources_does_not_exclude_different_group() {
    let plan_resources = vec![make_rid("apps", "Deployment", Some("ns"), "foo", None)];

    // Different group with same Kind/name → NOT excluded
    let key = make_rid("custom.io", "Deployment", Some("ns"), "foo", None);
    assert!(!has_same_slot(&plan_resources, &key));
}

#[test]
fn test_recreation_state_default_is_unknown() {
    assert_eq!(RecreationState::default_unknown(), RecreationState::Unknown);
}

// ── Helpers ──

fn empty_audit() -> ResidualAudit {
    ResidualAudit {
        planned_delete_still_present: Vec::new(),
        planned_expect_still_present: Vec::new(),
        expected_preserved: Vec::new(),
        likely_operator_residual: Vec::new(),
        unattributed: Vec::new(),
        coverage: AuditCoverage {
            requested_probes: 0,
            succeeded_probes: 0,
        },
        scan_errors: Vec::new(),
    }
}

fn bare_object() -> LiveObject {
    LiveObject {
        name: None,
        namespace: None,
        uid: None,
        resource_version: None,
        terminating: false,
        finalizers: vec![],
        owner_references: vec![],
        labels: vec![],
        annotations: vec![],
        managers: vec![],
        spec_name: None,
        template_service_account: None,
        service_account: None,
        installed_csv: None,
        current_csv: None,
    }
}

fn make_object(name: &str) -> LiveObject {
    let mut obj = bare_object();
    obj.name = Some(name.to_string());
    obj
}

fn empty_evidence() -> ResidualEvidence {
    ResidualEvidence {
        owner_ref_match: false,
        matching_labels: vec![],
        matching_managers: vec![],
        namespace_affinity: false,
        service_account_match: false,
    }
}

#[test]
fn test_residual_status_unresolved_gvks_none_is_incomplete() {
    // If unresolved_gvks is None (old journal), audit scan pushes a
    // scan_error for plan GVK resolution → AuditIncomplete
    let audit = ResidualAudit {
        planned_delete_still_present: vec![],
        planned_expect_still_present: vec![],
        expected_preserved: vec![],
        likely_operator_residual: vec![],
        unattributed: vec![],
        coverage: AuditCoverage {
            requested_probes: 5,
            succeeded_probes: 5,
        },
        scan_errors: vec![AuditScanError {
            resource_type: "(plan GVK resolution)".to_string(),
            namespace: "(all)".to_string(),
            error: "Journal lacks plan GVK resolution metadata.".to_string(),
        }],
    };
    let status = residual_status_from_audit(&audit);
    assert!(matches!(status, ResidualStatus::AuditIncomplete));
}

#[test]
fn test_plan_resources_different_group_not_excluded() {
    // Verify that resources from different API groups with same Kind/name
    // are NOT excluded from scan results
    let plan_resources = vec![make_rid("apps", "Deployment", Some("ns"), "my-dep", None)];
    let mut obj = make_object("my-dep");
    obj.namespace = Some("ns".to_string());
    obj.uid = Some("uid".to_string());
    let items = vec![obj];
    let ctx = AuditContext::default();
    let uids: KeySet<String> = KeySet::new();

    // Same kind/name but different group should NOT be excluded
    let key = make_rid("custom.io", "Deployment", Some("ns"), "my-dep", None);
    assert!(!has_same_slot(&plan_resources, &key));
    let mut audit = empty_audit();
    classify_list_results(
        &items,
        "Deployment",
        "custom.io",
        "v1",
        "ns",
        &ctx,
        &uids,
        &plan_resources,
        &mut audit,
    );
    assert_eq!(audit.unattributed.len(), 1);

    // Same group/kind/name SHOULD be excluded
    let key2 = make_rid("apps", "Deployment", Some("ns"), "my-dep", None);
    assert!(has_same_slot(&plan_resources, &key2));
    let mut audit = empty_audit();
    classify_list_results(
        &items,
        "Deployment",
        "apps",
        "v1",
        "ns",
        &ctx,
        &uids,
        &plan_resources,
        &mut audit,
    );
    assert!(audit.unattributed.is_empty());
    assert!(audit.likely_operator_residual.is_empty());
}

#[test]
fn test_classify_list_results_missing_uid_creates_scan_error() {
    // Objects without UID should generate a scan_error
    let mut audit = ResidualAudit {
        planned_delete_still_present: vec![],
        planned_expect_still_present: vec![],
        expected_preserved: vec![],
        likely_operator_residual: vec![],
        unattributed: vec![],
        coverage: AuditCoverage {
            requested_probes: 0,
            succeeded_probes: 0,
        },
        scan_errors: vec![],
    };
    let ctx = AuditContext::default();
    let target_uids: KeySet<String> = KeySet::new();
    let plan_resources: Vec<ResourceId> = vec![];

    // An object with name but no UID
    let mut obj = make_object("test-obj");
    obj.namespace = Some("ns".to_string());
    obj.uid = None;

    classify_list_results(
        &vec![obj],
        "Service",
        "",
        "v1",
        "ns",
        &ctx,
        &target_uids,
        &plan_resources,
        &mut audit,
    );

    // Should have a scan error about missing UID
    assert!(audit.scan_errors.iter().any(|e| e.error.contains("no UID")));
    // Resource should still be classified (not silently dropped)
    assert_eq!(audit.unattributed.len(), 1);
}

#[test]
fn test_residual_status_crd_pruned_is_incomplete() {
    // GoneByCrdRemoval should produce AuditIncomplete via scan_error,
    // not a false probe-success
    let audit = ResidualAudit {
        planned_delete_still_present: vec![],
        planned_expect_still_present: vec![],
        expected_preserved: vec![],
        likely_operator_residual: vec![],
        unattributed: vec![],
        coverage: AuditCoverage {
            requested_probes: 5,
            succeeded_probes: 5,
        },
        scan_errors: vec![AuditScanError {
            resource_type: "Foo (CRD pruned)".to_string(),
            namespace: "(all)".to_string(),
            error: "CRD pruned, UID verification not implemented".to_string(),
        }],
    };

    let status = residual_status_from_audit(&audit);
    assert!(
        matches!(status, ResidualStatus::AuditIncomplete),
        "CRD pruned scan_error should make audit incomplete"
    );
}

fn observed(kind: &str, name: &str, uid: &str) -> ObservedResourceIdentity {
    ObservedResourceIdentity {
        resource: make_rid("g", kind, Some("op-ns"), name, Some(uid)),
        uid: uid.to_string(),
    }
}

fn make_snapshot() -> OperatorIdentitySnapshot {
    OperatorIdentitySnapshot {
        generation_identity: OperatorGenerationIdentity::OlmPackage {
            package_name: "pkg".to_string(),
            install_namespace: "op-ns".to_string(),
        },
        operator_id: OperatorId {
            csv_name: "pkg.v1".to_string(),
            namespace: "op-ns".to_string(),
        },
        csv_name: "pkg.v1".to_string(),
        csv: observed("ClusterServiceVersion", "pkg.v1", "csv-uid"),
        subscriptions: vec![observed("Subscription", "pkg-sub", "sub-uid")],
        controller_deployments: vec![observed("Deployment", "pkg-dep", "dep-uid")],
        service_accounts: vec![observed("ServiceAccount", "pkg-sa", "sa-uid")],
        owned_crds: vec!["foos.example.com".to_string()],
        required_crds: vec![],
    }
}

#[test]
fn test_target_uids_includes_plan_delete_resources() {
    // target_uids should include UIDs from plan DELETE/EXPECT actions
    // so ownerRef descendants of approved root CRs are classified HIGH

    let phases = vec![PlanPhase {
            name: "test".to_string(),
            description: "test".to_string(),
            actions: vec![
                Action::Delete {
                    resource: ResourceId {
                        group: "example.com".to_string(),
                        version: "v1".to_string(),
                        kind: "Foo".to_string(),
                        namespace: Some("ns".to_string()),
                        name: "root-cr".to_string(),
                        uid: Some("root-uid-123".to_string()),
                    },
                    reason: "test".to_string(),
                },
                Action::ExpectGone {
                    resource: ResourceId {
                        group: "example.com".to_string(),
                        version: "v1".to_string(),
                        kind: "Bar".to_string(),
                        namespace: Some("ns".to_string()),
                        name: "descendant".to_string(),
                        uid: Some("desc-uid-456".to_string()),
                    },
                    reason: "test".to_string(),
                },
                Action::Keep {
                    resource: ResourceId {
                        group: "".to_string(),
                        version: "v1".to_string(),
                        kind: "Namespace".to_string(),
                        namespace: None,
                        name: "ns".to_string(),
                        uid: Some("keep-uid-789".to_string()),
                    },
                    reason: "test".to_string(),
                },
            ],
            barrier: None,
        }];

    let target_uids = collect_target_uids(&make_snapshot(), &phases);

    assert!(target_uids.contains(&"root-uid-123".to_string()));
    assert!(target_uids.contains(&"desc-uid-456".to_string()));
    // KEEP actions should NOT be in target_uids
    assert!(!target_uids.contains(&"keep-uid-789".to_string()));
    // The operator's own objects are in target_uids
    assert!(target_uids.contains(&"csv-uid".to_string()));
    assert!(target_uids.contains(&"sub-uid".to_string()));
    assert!(target_uids.contains(&"dep-uid".to_string()));
    assert!(target_uids.contains(&"sa-uid".to_string()));
}

#[test]
fn test_ownerref_to_plan_root_cr_is_high() {
    // An object whose ownerRef points to a plan DELETE resource's UID
    // should be classified HIGH (not UNATTRIBUTED)
    let mut target_uids: KeySet<String> = KeySet::new();
    target_uids.insert("root-cr-uid-123".to_string());
    let mut obj = make_object("child");
    obj.owner_references.push(OwnerReference {
        api_version: "example.com/v1".to_string(),
        kind: "Foo".to_string(),
        name: "root-cr".to_string(),
        uid: "root-cr-uid-123".to_string(),
        controller: None,
        block_owner_deletion: None,
    });

    let evidence = classify_evidence(&obj, &AuditContext::default(), &target_uids);
    assert!(evidence.owner_ref_match);

    let confidence = compute_confidence(&evidence);
    assert_eq!(confidence, ResidualConfidence::High);
}

// ── CSV label attribution tests ──

#[test]
fn test_csv_label_other_package() {
    let mut labels: Vec<(String, String)> = Vec::new();
    labels.push(("operators.coreos.com/other-operator.my-ns".to_string(), String::new()));
    assert!(csv_label_attributes_to_other_package(
        &labels,
        "my-ns",
        "rhods-operator"
    ));
}

#[test]
fn test_csv_label_same_package_not_other() {
    let mut labels: Vec<(String, String)> = Vec::new();
    labels.push(("operators.coreos.com/rhods-operator.my-ns".to_string(), String::new()));
    // Same package → should NOT be attributed to "other"
    assert!(!csv_label_attributes_to_other_package(
        &labels,
        "my-ns",
        "rhods-operator"
    ));
}

#[test]
fn test_csv_label_no_olm_label() {
    let mut labels: Vec<(String, String)> = Vec::new();
    labels.push(("app".to_string(), "test".to_string()));
    // No OLM label → not attributed
    assert!(!csv_label_attributes_to_other_package(
        &labels,
        "my-ns",
        "rhods-operator"
    ));
}

#[test]
fn test_csv_label_wrong_namespace_suffix() {
    let mut labels: Vec<(String, String)> = Vec::new();
    labels.push(("operators.coreos.com/other-op.different-ns".to_string(), String::new()));
    // Namespace doesn't match → not attributed (label is for a different namespace)
    assert!(!csv_label_attributes_to_other_package(
        &labels,
        "my-ns",
        "rhods-operator"
    ));
}

#[test]
fn test_csv_label_empty_package() {
    let mut labels: Vec<(String, String)> = Vec::new();
    // Edge case: label key = "operators.coreos.com/.my-ns" → empty package
    labels.push(("operators.coreos.com/.my-ns".to_string(), String::new()));
    assert!(!csv_label_attributes_to_other_package(
        &labels,
        "my-ns",
        "rhods-operator"
    ));
}

#[test]
fn test_conflicting_csv_labels_is_ambiguous() {
    // CSV has labels for BOTH our package and another package → ambiguous
    let mut labels: Vec<(String, String)> = Vec::new();
    labels.push(("operators.coreos.com/rhods-operator.redhat-ods-operator".to_string(), String::new()));
    labels.push(("operators.coreos.com/other-operator.redhat-ods-operator".to_string(), String::new()));
    // Conflicting → NOT attributable to other → should return false
    assert!(!csv_label_attributes_to_other_package(
        &labels,
        "redhat-ods-operator",
        "rhods-operator"
    ));
}

#[test]
fn test_csv_copy_olm_package_annotation_other_package() {
    let mut csv = make_object("authorino-operator.v1.0.2");
    csv.annotations = vec![(
        "operatorframework.io/properties".to_string(),
        r#"[{"type":"olm.package","value":"{\"packageName\":\"authorino-operator\",\"version\":\"1.0.2\"}"}]"#.to_string(),
    )];

    let pkgs = csv_packages_from_annotations(&csv);
    assert_eq!(pkgs, vec!["authorino-operator"]);
}

#[test]
fn test_csv_copy_olm_package_annotation_same_package() {
    let mut csv = make_object("rhods-operator.3.5.0");
    csv.annotations = vec![(
        "operatorframework.io/properties".to_string(),
        r#"[{"type":"olm.package","value":"{\"packageName\":\"rhods-operator\",\"version\":\"3.5.0\"}"}]"#.to_string(),
    )];

    let pkgs = csv_packages_from_annotations(&csv);
    assert_eq!(pkgs, vec!["rhods-operator"]);
}

#[test]
fn test_csv_copy_olm_package_annotation_object_format() {
    // Real OLM format on some clusters: {"properties":[...]} instead of [...]
    let mut csv = make_object("authorino-operator.v1.0.2");
    csv.annotations = vec![(
        "operatorframework.io/properties".to_string(),
        r#"{"properties":[{"type":"olm.package","value":"{\"packageName\":\"authorino-operator\",\"version\":\"1.0.2\"}"}]}"#.to_string(),
    )];

    let pkgs = csv_packages_from_annotations(&csv);
    assert_eq!(pkgs, vec!["authorino-operator"]);
}

#[test]
fn test_csv_copy_olm_package_annotation_multiple_packages() {
    // CSV with two different olm.package entries → evidence_packages gets both
    let mut csv = make_object("conflict-csv.v1.0");
    csv.annotations = vec![(
        "operatorframework.io/properties".to_string(),
        r#"[
            {"type":"olm.package","value":"{\"packageName\":\"pkg-a\",\"version\":\"1.0\"}"},
            {"type":"olm.package","value":"{\"packageName\":\"pkg-b\",\"version\":\"2.0\"}"}
        ]"#
        .to_string(),
    )];

    let pkgs = csv_packages_from_annotations(&csv);
    assert_eq!(pkgs.len(), 2);
    assert!(pkgs.contains(&"pkg-a".to_string()));
    assert!(pkgs.contains(&"pkg-b".to_string()));
}

#[test]
fn test_csv_copy_no_labels_or_annotations() {
    let csv = make_object("mystery-csv.v1.0");
    // No labels, no annotations
    let pkgs = csv_packages_from_annotations(&csv);
    assert!(pkgs.is_empty());
    // No labels → csv_label_attributes_to_other_package returns false
    assert!(!csv_label_attributes_to_other_package(
        &Vec::new(),
        "ns",
        "our-pkg"
    ));
}

#[test]
fn test_explain_action_label() {
    let review_action = Action::Review {
        resource: ResourceId {
            group: String::new(),
            version: "v1".to_string(),
            kind: "Limitador".to_string(),
            namespace: Some("ns".to_string()),
            name: "limitador".to_string(),
            uid: None,
        },
        reason: "test".to_string(),
        metadata: None,
    };
    // REVIEW → "marked for review", not "deleted"
    assert_eq!(action_label(&review_action), "marked for review");
}

#[test]
fn test_annotation_contradicts_label_different_package() {
    // CSV has label for pkg-a but annotation says pkg-b
    // → both should appear in evidence_packages
    // → if our package is pkg-a, evidence has our package → Unknown
    let mut csv = make_object("test-csv.v1");
    let mut labels: Vec<(String, String)> = Vec::new();
    labels.push(("operators.coreos.com/pkg-a.test-ns".to_string(), String::new()));
    csv.labels = labels;
    csv.annotations = vec![(
        "operatorframework.io/properties".to_string(),
        r#"[{"type":"olm.package","value":"{\"packageName\":\"pkg-b\",\"version\":\"1.0\"}"}]"#
            .to_string(),
    )];
    csv.namespace = Some("test-ns".to_string());

    // Label evidence
    let label_attrs = csv_label_attributes_to_other_package(
        &csv.labels,
        "test-ns",
        "pkg-a",
    );
    // label has pkg-a (our package) → not "other only"
    assert!(!label_attrs);

    // Annotation evidence
    let ann_pkgs = csv_packages_from_annotations(&csv);
    assert_eq!(ann_pkgs, vec!["pkg-b"]);

    // Combined: evidence_packages = {pkg-a, pkg-b}, has_our = true → Unknown
}

#[test]
fn test_no_label_annotation_says_other_package() {
    // CSV with NO labels, annotation says different package
    let mut csv = make_object("other-csv.v1");
    csv.annotations = vec![(
        "operatorframework.io/properties".to_string(),
        r#"[{"type":"olm.package","value":"{\"packageName\":\"other-operator\",\"version\":\"1.0\"}"}]"#
            .to_string(),
    )];

    let ann_pkgs = csv_packages_from_annotations(&csv);
    assert_eq!(ann_pkgs, vec!["other-operator"]);
}

// ── is_exclusively_other_package tests ──

#[test]
fn test_exclusively_other_one_non_target_is_safe() {
    let mut evidence: KeySet<String> = KeySet::new();
    evidence.insert("pkg-b".to_string());
    assert!(is_exclusively_other_package(&evidence, "pkg-a"));
}

#[test]
fn test_exclusively_other_two_non_target_is_unknown() {
    // B+C conflicting non-target → not exclusively one other
    let mut evidence: KeySet<String> = KeySet::new();
    evidence.insert("pkg-b".to_string());
    evidence.insert("pkg-c".to_string());
    assert!(!is_exclusively_other_package(&evidence, "pkg-a"));
}

#[test]
fn test_exclusively_other_target_present_is_unknown() {
    let mut evidence: KeySet<String> = KeySet::new();
    evidence.insert("pkg-a".to_string());
    evidence.insert("pkg-b".to_string());
    assert!(!is_exclusively_other_package(&evidence, "pkg-a"));
}

#[test]
fn test_exclusively_other_empty_is_unknown() {
    let evidence: KeySet<String> = KeySet::new();
    assert!(!is_exclusively_other_package(&evidence, "pkg-a"));
}

#[test]
fn test_exclusively_other_only_target_is_unknown() {
    let mut evidence: KeySet<String> = KeySet::new();
    evidence.insert("pkg-a".to_string());
    assert!(!is_exclusively_other_package(&evidence, "pkg-a"));
}

// ── Status CSV extraction fallback test ──

#[test]
fn test_sub_status_empty_installed_csv_falls_through_to_current() {
    // installedCSV="" should fall through to currentCSV="csv-x"
    let mut sub = make_object("sub");
    sub.installed_csv = Some("".to_string());
    sub.current_csv = Some("csv-x".to_string());

    assert_eq!(
        subscription_csv(&sub).map(|s| s.as_str()),
        Some("csv-x"),
        "empty installedCSV must fall through to currentCSV"
    );
}

#[test]
fn test_sub_status_both_empty_is_none() {
    let mut sub = make_object("sub");
    sub.installed_csv = Some("".to_string());
    sub.current_csv = Some("".to_string());

    assert!(subscription_csv(&sub).is_none());
}
