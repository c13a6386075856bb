//! The steps of an audit, what it writes down, and its report.

use teardown::audit::report::{
    format_evidence, ns_suffix, print_residual_audit, print_residual_item,
    residual_status_from_audit,
};
use teardown::audit::scan::{
    after_probe, after_probe_endpoint, begin_audit, check_recreation, collect_plan_resources,
    collect_target_uids, known_plural_for_gvk, plan_first_steps, plan_last_steps, record_list,
    record_probe, resolve_plural, AuditStep, ProbeResult, ProbeRole,
};
use teardown::audit::sweep::{AuditEvent, AuditRun, AuditStage};
use teardown::audit::{
    AttributedResidual, AuditScanError, PreservedItem, RecreationState, ResidualAudit,
    ResidualConfidence, ResidualEvidence, ResidualItem,
};
use teardown::cluster::{GetReply, LiveObject, OwnerReference, RequestError};
use teardown::collections::KeySet;
use teardown::journal::{
    AuditContext, ExecutionRecord, GvrScope, KnownGvr, ResidualStatus, RunJournal, RunState,
};
use teardown::olm::OperatorId;
use teardown::plan::{
    ClusterIdentity, DiscoverySourceSer, ObservedResourceIdentity, OperatorGenerationIdentity,
    OperatorIdentitySnapshot, ReviewMetadata,
};
use teardown::planner::{Action, PlanPhase, Preflight, TeardownPlan};
use teardown::resource::ResourceId;

fn res(kind: &str, name: &str, uid: Option<&str>) -> ResourceId {
    ResourceId {
        group: String::new(),
        version: "v1".to_string(),
        kind: kind.to_string(),
        namespace: Some("ns".to_string()),
        name: name.to_string(),
        uid: uid.map(String::from),
    }
}

fn by_label() -> Option<ReviewMetadata> {
    Some(ReviewMetadata {
        category: None,
        approval_class: None,
        provenance: None,
        discovery_source: Some(DiscoverySourceSer::RelatedLabelOnly),
        decisive_label_pairs: vec![],
    })
}

fn phases() -> Vec<PlanPhase> {
    vec![PlanPhase {
        name: "operands".to_string(),
        description: String::new(),
        actions: vec![
            Action::Delete {
                resource: res("Widget", "w", Some("uid-w")),
                reason: "test".to_string(),
            },
            Action::ExpectGone {
                resource: res("Pod", "p", Some("uid-p")),
                reason: "child".to_string(),
            },
            Action::Keep {
                resource: res("ConfigMap", "k", Some("uid-k")),
                reason: "shared".to_string(),
            },
            Action::Review {
                resource: res("Secret", "s", Some("uid-s")),
                reason: "label".to_string(),
                metadata: by_label(),
            },
            Action::Review {
                resource: res("Secret", "t", Some("uid-t")),
                reason: "data".to_string(),
                metadata: None,
            },
        ],
        barrier: None,
    }]
}

fn observed(uid: &str) -> ObservedResourceIdentity {
    ObservedResourceIdentity {
        resource: res("X", uid, Some(uid)),
        uid: uid.to_string(),
    }
}

fn operator() -> OperatorIdentitySnapshot {
    OperatorIdentitySnapshot {
        generation_identity: OperatorGenerationIdentity::OlmPackage {
            package_name: "widgets".to_string(),
            install_namespace: "ns".to_string(),
        },
        operator_id: OperatorId {
            csv_name: "widgets.v1".to_string(),
            namespace: "ns".to_string(),
        },
        csv_name: "widgets.v1".to_string(),
        csv: observed("uid-csv"),
        subscriptions: vec![observed("uid-sub")],
        controller_deployments: vec![observed("uid-d")],
        service_accounts: vec![observed("uid-sa")],
        owned_crds: vec![],
        required_crds: vec![],
    }
}

fn journal(phases: Vec<PlanPhase>) -> RunJournal {
    RunJournal {
        run_id: "run-1".to_string(),
        schema_version: 9,
        oc_deps_version: "0.1.0".to_string(),
        journal_revision: 1,
        cluster_identity: ClusterIdentity {
            api_server: "https://test:6443".to_string(),
            kube_system_uid: "cluster".to_string(),
        },
        operator: operator(),
        created_at: "2026-01-01T00:00:00Z".to_string(),
        updated_at: "2026-01-01T00:00:00Z".to_string(),
        state: RunState::ApplyCompleted,
        residual_status: ResidualStatus::NotAudited,
        audit_revision: 0,
        audit_context: AuditContext::default(),
        plan_snapshot: TeardownPlan {
            targets: vec![],
            preflight: Preflight { checks: vec![] },
            phases,
            blockers: vec![],
            warnings: vec![],
            snapshot_taken_at: String::new(),
            dependency_edges: vec![],
            operator_inventory: vec![],
            explicit_decisions: vec![],
        },
        execution: ExecutionRecord::default(),
        last_residual_audit: None,
        cleanup_decisions: vec![],
        finalizer_recovery_approved: false,
        finalizer_recoveries: vec![],
    }
}

fn live(name: &str, uid: &str) -> LiveObject {
    LiveObject {
        name: Some(name.to_string()),
        namespace: Some("ns".to_string()),
        uid: Some(uid.to_string()),
        resource_version: None,
        terminating: false,
        finalizers: vec![],
        owner_references: vec![],
        labels: vec![],
        annotations: vec![],
        managers: vec![],
        spec_name: None,
        template_service_account: None,
        service_account: None,
        installed_csv: None,
        current_csv: None,
    }
}

fn status(code: u16) -> RequestError {
    RequestError::Status {
        code,
        reason: "Reason".to_string(),
        message: "message".to_string(),
        text: "text".to_string(),
    }
}

fn set(words: &[&str]) -> KeySet<String> {
    let mut s = KeySet::new();
    for w in words {
        s.insert(w.to_string());
    }
    s
}

fn gvr(kind: &str, plural: &str, scope: GvrScope) -> KnownGvr {
    KnownGvr {
        group: "x.io".to_string(),
        version: "v1".to_string(),
        kind: kind.to_string(),
        plural: plural.to_string(),
        scope,
    }
}

#[test]
fn an_audit_looks_at_the_plan_and_then_at_the_namespaces() {
    let steps = plan_first_steps(&phases(), &set(&["ns", "other"]));
    assert_eq!(steps.len(), 3 + 2 * 8);
    assert!(matches!(&steps[0], AuditStep::Probe { role: ProbeRole::Delete, resource }
        if resource.name == "w"));
    assert!(matches!(&steps[1], AuditStep::Probe { role: ProbeRole::Expect, resource }
        if resource.name == "p"));
    assert!(matches!(&steps[2], AuditStep::Probe { role: ProbeRole::Related, resource }
        if resource.name == "s"));
    assert!(
        matches!(&steps[3], AuditStep::List { kind, namespace: Some(ns), .. }
        if kind == "Deployment" && ns == "ns")
    );
    assert!(
        matches!(&steps[18], AuditStep::List { kind, namespace: Some(ns), .. }
        if kind == "ImageStream" && ns == "other")
    );
}

#[test]
fn what_the_plan_leaves_in_place_is_preserved() {
    let audit = begin_audit(&phases());
    assert_eq!(audit.expected_preserved.len(), 2);
    assert_eq!(audit.expected_preserved[0].resource.name, "k");
    assert_eq!(audit.expected_preserved[1].reason, "data");
    assert_eq!(audit.coverage.requested_probes, 0);
}

#[test]
fn target_uids_are_those_of_the_operator_and_of_what_goes() {
    let uids = collect_target_uids(&operator(), &phases());
    for u in ["uid-csv", "uid-sub", "uid-d", "uid-sa", "uid-w", "uid-p"] {
        assert!(uids.contains(&u.to_string()), "{}", u);
    }
    assert!(!uids.contains(&"uid-k".to_string()));
    assert_eq!(collect_plan_resources(&phases()).len(), 5);
}

#[test]
fn plurals_are_discovered_or_well_known_and_never_guessed() {
    assert_eq!(known_plural_for_gvk("apps", "Deployment"), Some("deployments"));
    assert_eq!(known_plural_for_gvk("", "Widget"), None);
    let gvrs = Some(vec![gvr("Widget", "widgetry", GvrScope::Namespaced)]);
    let mut w = res("Widget", "w", None);
    w.group = "x.io".to_string();
    assert_eq!(resolve_plural(&w, &gvrs).unwrap(), "widgetry");
    assert_eq!(resolve_plural(&res("Pod", "p", None), &None).unwrap(), "pods");
    assert!(matches!(
        resolve_plural(&w, &None),
        Err(ProbeResult::Error(_))
    ));
}

#[test]
fn an_absent_object_is_gone_where_its_endpoint_is_there() {
    let w = res("Widget", "w", None);
    assert!(matches!(
        after_probe(&GetReply::Found(live("w", "uid-1"))),
        Some(ProbeResult::Present { uid: Some(u) }) if u == "uid-1"
    ));
    assert!(matches!(
        after_probe(&GetReply::Failed(status(403))),
        Some(ProbeResult::Error(e)) if e == "text"
    ));
    assert!(after_probe(&GetReply::Failed(status(404))).is_none());
    assert!(matches!(after_probe_endpoint(&w, true), ProbeResult::Gone));
    assert!(matches!(
        after_probe_endpoint(&w, false),
        ProbeResult::Error(_)
    ));
}

#[test]
fn identity_needs_both_uids() {
    let w = res("Widget", "w", Some("uid-1"));
    assert_eq!(
        check_recreation(&w, &Some("uid-1".to_string())),
        RecreationState::SameResource
    );
    assert_eq!(
        check_recreation(&w, &Some("uid-2".to_string())),
        RecreationState::Recreated
    );
    assert_eq!(check_recreation(&w, &None), RecreationState::Unknown);
    assert_eq!(
        check_recreation(&res("Widget", "w", None), &Some("uid-1".to_string())),
        RecreationState::Unknown
    );
}

#[test]
fn probes_are_counted_and_failures_noted() {
    let mut audit = begin_audit(&vec![]);
    let w = res("Widget", "w", Some("uid-w"));
    record_probe(
        &mut audit,
        ProbeRole::Delete,
        &w,
        &ProbeResult::Present {
            uid: Some("uid-w".to_string()),
        },
    );
    record_probe(&mut audit, ProbeRole::Expect, &w, &ProbeResult::Gone);
    record_probe(
        &mut audit,
        ProbeRole::Expect,
        &w,
        &ProbeResult::Error("lost".to_string()),
    );
    record_probe(
        &mut audit,
        ProbeRole::Related,
        &w,
        &ProbeResult::Present {
            uid: Some("uid-9".to_string()),
        },
    );
    assert_eq!(audit.coverage.requested_probes, 4);
    assert_eq!(audit.coverage.succeeded_probes, 3);
    assert_eq!(
        audit.planned_delete_still_present[0].recreation,
        RecreationState::SameResource
    );
    assert_eq!(audit.planned_delete_still_present[0].planned_action, "DELETE");
    assert_eq!(audit.scan_errors[0].resource_type, "Widget");
    assert_eq!(audit.scan_errors[0].namespace, "ns");
    assert_eq!(
        audit.unattributed[0].resource.uid,
        Some("uid-9".to_string())
    );
}

#[test]
fn lists_are_sorted_by_evidence() {
    let mut ctx = AuditContext::default();
    ctx.footprint_namespaces.insert("ns".to_string());
    let uids = set(&["uid-csv"]);
    let mut owned = live("owned", "uid-1");
    owned.owner_references = vec![OwnerReference {
        api_version: "v1".to_string(),
        kind: "ClusterServiceVersion".to_string(),
        name: "widgets.v1".to_string(),
        uid: "uid-csv".to_string(),
        controller: None,
        block_owner_deletion: None,
    }];
    let mut audit = begin_audit(&vec![]);
    record_list(
        &mut audit,
        "apps",
        "v1",
        "Deployment",
        &Some("ns".to_string()),
        &Ok(vec![owned, live("stray", "uid-2"), live("planned", "uid-3")]),
        &ctx,
        &uids,
        &vec![ResourceId {
            group: "apps".to_string(),
            version: "v1".to_string(),
            kind: "Deployment".to_string(),
            namespace: Some("ns".to_string()),
            name: "planned".to_string(),
            uid: Some("uid-3".to_string()),
        }],
    );
    assert_eq!(audit.likely_operator_residual.len(), 1);
    assert_eq!(audit.likely_operator_residual[0].resource.name, "owned");
    assert_eq!(
        audit.likely_operator_residual[0].confidence,
        ResidualConfidence::High
    );
    assert_eq!(audit.unattributed.len(), 1);
    assert_eq!(audit.unattributed[0].resource.name, "stray");

    record_list(
        &mut audit,
        "apps",
        "v1",
        "Deployment",
        &None,
        &Err(status(403)),
        &ctx,
        &uids,
        &vec![],
    );
    assert_eq!(audit.scan_errors[0].error, "text");
    assert_eq!(audit.coverage.requested_probes, 2);
    assert_eq!(audit.coverage.succeeded_probes, 1);
}

#[test]
fn missing_knowledge_is_noted() {
    let audit = begin_audit(&vec![]);
    let steps = plan_last_steps(
        &vec!["widgets.x.io".to_string()],
        &vec![],
        &AuditContext::default(),
        &audit,
    );
    assert_eq!(steps.len(), 4);
    for s in &steps {
        assert!(matches!(s, AuditStep::Note { namespace, .. } if namespace == "(all)"));
    }
}

#[test]
fn owned_types_are_listed_unless_their_crd_was_pruned() {
    let mut ctx = AuditContext::default();
    ctx.footprint_namespaces.insert("ns".to_string());
    ctx.known_gvrs = Some(vec![]);
    ctx.owned_cr_gvrs = Some(vec![
        gvr("Widget", "widgets", GvrScope::Namespaced),
        gvr("Fleet", "fleets", GvrScope::Cluster),
    ]);
    ctx.unresolved_crds = Some(vec!["lost.x.io".to_string()]);
    ctx.unresolved_gvks = Some(vec![(
        "x.io".to_string(),
        "v1".to_string(),
        "Gone".to_string(),
    )]);
    let crds = vec!["widgets.x.io".to_string()];
    let steps = plan_last_steps(&crds, &vec![], &ctx, &begin_audit(&vec![]));
    assert_eq!(steps.len(), 4);
    assert!(matches!(&steps[0], AuditStep::List { plural, namespace: Some(_), .. }
        if plural == "widgets"));
    assert!(matches!(&steps[1], AuditStep::List { plural, namespace: None, .. }
        if plural == "fleets"));
    assert!(
        matches!(&steps[2], AuditStep::Note { resource_type, .. } if resource_type == "lost.x.io")
    );
    assert!(matches!(&steps[3], AuditStep::Note { resource_type, .. }
        if resource_type == "x.io/v1/Gone"));

    let pruned = vec![PlanPhase {
        name: "crds".to_string(),
        description: String::new(),
        actions: vec![Action::Delete {
            resource: res("CustomResourceDefinition", "widgets.x.io", Some("uid-crd")),
            reason: "prune".to_string(),
        }],
        barrier: None,
    }];
    let steps = plan_last_steps(&crds, &pruned, &ctx, &begin_audit(&vec![]));
    assert!(matches!(&steps[0], AuditStep::Note { resource_type, .. }
        if resource_type == "Widget (CRD pruned)"));
}

#[test]
fn the_status_of_an_audit_is_counted() {
    let mut audit = begin_audit(&vec![]);
    assert!(matches!(
        residual_status_from_audit(&audit),
        ResidualStatus::NoneObservedInScope
    ));
    audit.planned_delete_still_present.push(ResidualItem {
        resource: res("Widget", "w", Some("uid-w")),
        planned_action: "DELETE".to_string(),
        live_uid: Some("uid-w".to_string()),
        recreation: RecreationState::SameResource,
    });
    assert!(matches!(
        residual_status_from_audit(&audit),
        ResidualStatus::ResidualsObserved { count: 1 }
    ));
    audit.planned_delete_still_present[0].recreation = RecreationState::Unknown;
    assert!(matches!(
        residual_status_from_audit(&audit),
        ResidualStatus::AuditIncomplete
    ));
}

fn evidence() -> ResidualEvidence {
    ResidualEvidence {
        owner_ref_match: true,
        matching_labels: vec![("a".to_string(), "b".to_string())],
        matching_managers: vec!["m".to_string(), "n".to_string()],
        namespace_affinity: false,
        service_account_match: false,
    }
}

#[test]
fn evidence_is_put_in_words() {
    assert_eq!(
        format_evidence(&evidence()),
        "ownerRef matches operator identity, managedFields manager: m, n, matching labels: a=b"
    );
    assert_eq!(ns_suffix(&res("Widget", "w", None)), " (ns)");
    let mut global = res("Widget", "w", None);
    global.namespace = None;
    assert_eq!(ns_suffix(&global), "");
}

#[test]
fn a_report_lists_what_was_found() {
    let item = ResidualItem {
        resource: res("Widget", "w", Some("uid-w")),
        planned_action: "DELETE".to_string(),
        live_uid: Some("uid-2".to_string()),
        recreation: RecreationState::Recreated,
    };
    assert_eq!(
        print_residual_item(&item),
        "  Widget/w (ns) \u{1b}[33m(RECREATED — different UID)\u{1b}[0m"
    );
    let mut audit: ResidualAudit = begin_audit(&vec![]);
    audit.planned_delete_still_present.push(item);
    audit.expected_preserved.push(PreservedItem {
        resource: res("ConfigMap", "k", None),
        reason: "shared".to_string(),
        confirmed_descendants: 0,
        associated_active_workloads: 0,
    });
    audit.likely_operator_residual.push(AttributedResidual {
        resource: res("Service", "s", None),
        evidence: evidence(),
        confidence: ResidualConfidence::High,
    });
    audit.scan_errors.push(AuditScanError {
        resource_type: "Route".to_string(),
        namespace: "ns".to_string(),
        error: "403".to_string(),
    });
    audit.coverage.requested_probes = 12;
    audit.coverage.succeeded_probes = 11;
    let lines = print_residual_audit(&audit, &journal(vec![]));
    let has = |line: &str| assert!(lines.iter().any(|l| l == line), "{}: {:#?}", line, lines);
    has("\u{1b}[1mTeardown status\u{1b}[0m: widgets.v1");
    has("Session: run-1");
    has("Execution: ApplyCompleted (0/0 phases)");
    has("Residual audit: 2 residuals observed");
    has("\u{1b}[1;31mPLANNED DELETE STILL PRESENT\u{1b}[0m (1)");
    has("\u{1b}[1mPLANNED EXPECT-GONE STILL PRESENT\u{1b}[0m");
    has("  none");
    has("    \u{1b}[2mshared\u{1b}[0m");
    has("    confidence: High");
    has("  Route/ns: 403");
    has("Audit coverage: 11/12 probes succeeded (scope: 0 namespace(s))");
    assert!(!lines.iter().any(|l| l.contains("UNATTRIBUTED")));
}

fn known_journal() -> RunJournal {
    let mut j = journal(phases());
    j.audit_context.footprint_namespaces.insert("ns".to_string());
    j.audit_context.known_gvrs = Some(vec![KnownGvr {
        group: String::new(),
        ..gvr("Widget", "widgets", GvrScope::Namespaced)
    }]);
    j.audit_context.owned_cr_gvrs = Some(vec![]);
    j.audit_context.unresolved_crds = Some(vec![]);
    j.audit_context.unresolved_gvks = Some(vec![]);
    j
}

/// Runs an audit against a cluster in which a GET, a list and a look at an endpoint
/// give these.
fn swept(
    journal: &RunJournal,
    get: fn(&str) -> GetReply,
    list: fn(&str) -> Result<Vec<LiveObject>, RequestError>,
    listable: bool,
) -> ResidualAudit {
    let mut run = AuditRun::begin(journal);
    loop {
        let event = match (&run.stage, run.steps.get(run.at)) {
            (AuditStage::Done, _) => return run.audit,
            (AuditStage::Next, _) => AuditEvent::Proceed,
            (AuditStage::Get { plural }, Some(AuditStep::Probe { .. })) => {
                AuditEvent::Reply(get(plural))
            }
            (AuditStage::VerifyEndpoint { .. }, Some(AuditStep::Probe { .. })) => {
                AuditEvent::Endpoint(listable)
            }
            (AuditStage::List, Some(AuditStep::List { kind, .. })) => {
                AuditEvent::Listed(list(kind))
            }
            other => panic!("unexpected {:?}", other),
        };
        run = run.step(journal, event);
    }
}

fn absent(_: &str) -> GetReply {
    GetReply::Failed(status(404))
}

fn nothing(_: &str) -> Result<Vec<LiveObject>, RequestError> {
    Ok(vec![])
}

#[test]
fn an_audit_of_an_empty_cluster_saw_everything() {
    let audit = swept(&known_journal(), absent, nothing, true);
    assert_eq!(audit.coverage.requested_probes, 11);
    assert_eq!(audit.coverage.succeeded_probes, 11);
    assert!(audit.scan_errors.is_empty());
    assert!(audit.planned_delete_still_present.is_empty());
    assert_eq!(audit.expected_preserved.len(), 2);
    assert!(matches!(
        residual_status_from_audit(&audit),
        ResidualStatus::NoneObservedInScope
    ));
}

#[test]
fn an_audit_notes_every_look_that_failed() {
    let audit = swept(&known_journal(), absent, nothing, false);
    assert_eq!(audit.coverage.requested_probes, 11);
    assert_eq!(audit.coverage.succeeded_probes, 8);
    assert_eq!(audit.scan_errors.len(), 3);
    let audit = swept(&known_journal(), absent, |_| Err(status(403)), true);
    assert_eq!(audit.coverage.succeeded_probes, 3);
    assert_eq!(audit.scan_errors.len(), 8);
    // Without a plural there is nothing to ask for.
    let mut j = known_journal();
    j.audit_context.known_gvrs = None;
    let audit = swept(&j, absent, nothing, true);
    assert_eq!(audit.coverage.requested_probes, 11);
    assert_eq!(audit.coverage.succeeded_probes, 10);
    assert_eq!(
        audit.scan_errors[0].error,
        "Unknown GVR for /Widget 'w' — no discovery metadata and not in static allowlist"
    );
}

#[test]
fn an_audit_takes_in_what_is_there() {
    let audit = swept(
        &known_journal(),
        |plural| {
            if plural == "widgets" {
                GetReply::Found(live("w", "uid-w"))
            } else {
                GetReply::Failed(status(404))
            }
        },
        nothing,
        true,
    );
    assert_eq!(audit.planned_delete_still_present.len(), 1);
    assert_eq!(
        audit.planned_delete_still_present[0].recreation,
        RecreationState::SameResource
    );
    assert_eq!(audit.coverage.succeeded_probes, 11);
}

#[test]
fn an_audit_without_discovery_ends_with_notes() {
    let audit = swept(&journal(vec![]), absent, nothing, true);
    assert_eq!(audit.coverage.requested_probes, 0);
    assert_eq!(audit.scan_errors.len(), 2);
    assert_eq!(audit.scan_errors[0].resource_type, "(plan GVK resolution)");
    assert_eq!(audit.scan_errors[1].resource_type, "(plan GVRs)");
    // What is not waited for changes nothing.
    let j = known_journal();
    let run = AuditRun::begin(&j).step(&j, AuditEvent::Endpoint(true));
    assert!(matches!(run.stage, AuditStage::Next));
    assert_eq!(run.at, 0);
}

#[test]
fn an_audit_of_a_journal_that_lacks_knowledge_is_incomplete() {
    let lacking: [fn(&mut AuditContext); 7] = [
        |c| c.known_gvrs = None,
        |c| c.unresolved_gvks = None,
        |c| {
            c.unresolved_gvks = Some(vec![(
                "x.io".to_string(),
                "v1".to_string(),
                "Lost".to_string(),
            )])
        },
        |c| c.unresolved_crds = None,
        |c| c.unresolved_crds = Some(vec!["lost.x.io".to_string()]),
        |c| c.owned_cr_gvrs = None,
        |c| *c = AuditContext::default(),
    ];
    for lack in lacking {
        let mut j = journal(vec![]);
        j.operator.owned_crds = vec!["widgets.x.io".to_string()];
        j.audit_context = known_journal().audit_context;
        let audit = swept(&j, absent, nothing, true);
        assert!(audit.scan_errors.is_empty());
        lack(&mut j.audit_context);
        let audit = swept(&j, absent, nothing, true);
        assert!(!audit.scan_errors.is_empty());
        assert!(matches!(
            residual_status_from_audit(&audit),
            ResidualStatus::AuditIncomplete
        ));
    }
    // Without CRDs there is nothing to know of them.
    let mut j = known_journal();
    j.operator.owned_crds = vec![];
    j.audit_context.unresolved_crds = None;
    j.audit_context.owned_cr_gvrs = None;
    assert!(swept(&j, absent, nothing, true).scan_errors.is_empty());
}

#[test]
fn a_finished_audit_lists_what_was_found_in_the_order_of_the_plan() {
    let mut j = known_journal();
    let delete = |name: &str| Action::Delete {
        resource: res("Widget", name, Some("uid-w")),
        reason: "test".to_string(),
    };
    j.plan_snapshot.phases[0].actions.insert(0, delete("v"));
    j.plan_snapshot.phases[0].actions.push(delete("x"));
    let audit = swept(
        &j,
        |plural| match plural {
            "widgets" | "pods" => GetReply::Found(live("o", "uid-w")),
            _ => GetReply::Failed(status(404)),
        },
        nothing,
        true,
    );
    let names = |items: &Vec<ResidualItem>| -> Vec<String> {
        items.iter().map(|i| i.resource.name.clone()).collect()
    };
    assert_eq!(names(&audit.planned_delete_still_present), ["v", "w", "x"]);
    assert_eq!(names(&audit.planned_expect_still_present), ["p"]);
    let expected = &audit.planned_expect_still_present[0];
    assert_eq!(expected.planned_action, "EXPECT-GONE");
    assert_eq!(expected.live_uid.as_deref(), Some("uid-w"));
    assert_eq!(expected.recreation, RecreationState::Recreated);
    let kept: Vec<&str> = audit
        .expected_preserved
        .iter()
        .map(|p| p.resource.name.as_str())
        .collect();
    assert_eq!(kept, ["k", "t"]);
}
