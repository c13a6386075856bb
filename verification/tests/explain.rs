//! Explanations of where an object stands in a plan.

use teardown::explain::{
    explain_resource, find_in_plan, find_owning_operator, format_evidence, is_defined_by,
    is_related_to_resource, pluralize,
};
use teardown::graph::{Confidence, Edge, Evidence, EvidenceGraph, Relation};
use teardown::olm::OperatorInstance;
use teardown::planner::{Action, PlanPhase, Preflight, TeardownPlan};
use teardown::resource::ResourceId;

fn res(kind: &str, name: &str) -> ResourceId {
    ResourceId {
        group: String::new(),
        version: "v1".to_string(),
        kind: kind.to_string(),
        namespace: Some("ns".to_string()),
        name: name.to_string(),
        uid: None,
    }
}

fn operator() -> OperatorInstance {
    OperatorInstance {
        subscription: Some(res("Subscription", "widgets")),
        package_name: Some("widgets".to_string()),
        csv: res("ClusterServiceVersion", "widgets.v1"),
        csv_phase: "Succeeded".to_string(),
        owned_crds: vec!["Widgets.x.io".to_string()],
        required_crds: vec![],
        owned_api_service_defs: vec![],
        required_api_service_defs: vec![],
        deployments: vec![],
        service_accounts: vec![],
        install_namespace: "ns".to_string(),
        has_unlinked_subscriptions: false,
    }
}

fn phase(name: &str, actions: Vec<Action>) -> PlanPhase {
    PlanPhase {
        name: name.to_string(),
        description: String::new(),
        actions,
        barrier: None,
    }
}

fn delete(kind: &str, name: &str) -> Action {
    Action::Delete {
        resource: res(kind, name),
        reason: "operand".to_string(),
    }
}

fn plan() -> TeardownPlan {
    TeardownPlan {
        targets: vec![],
        preflight: Preflight { checks: vec![] },
        phases: vec![
            phase("Operands", vec![delete("Widget", "w")]),
            phase(
                "Controller",
                vec![
                    delete("ClusterServiceVersion", "widgets.v1"),
                    delete("Subscription", "widgets"),
                    delete("ConfigMap", "other"),
                ],
            ),
        ],
        blockers: vec![],
        warnings: vec![],
        snapshot_taken_at: String::new(),
        dependency_edges: vec![],
        operator_inventory: vec![],
        explicit_decisions: vec![],
    }
}

fn edge(from: ResourceId, to: ResourceId, relation: Relation, evidence: Evidence) -> Edge {
    Edge {
        from,
        to,
        relation,
        evidence: vec![evidence],
        confidence: Confidence::Hard,
    }
}

#[test]
fn a_query_has_a_kind_and_a_name() {
    let none = EvidenceGraph { edges: vec![] };
    assert_eq!(
        explain_resource(&plan(), "widget", &vec![], &none),
        "Invalid resource format 'widget'. Use kind/name."
    );
    assert_eq!(
        explain_resource(&plan(), "Widget/x", &vec![], &none),
        "Widget/x not found in the teardown plan.\n\nHint: use `oc-deps teardown plan` to see \
         all resources in the plan."
    );
}

#[test]
fn an_explanation_gives_phase_constraints_and_order() {
    let graph = EvidenceGraph {
        edges: vec![
            edge(
                res("Owner", "o"),
                res("Widget", "w"),
                Relation::Owns,
                Evidence::OwnerReference,
            ),
            edge(
                res("Widget", "w"),
                res("Secret", "s"),
                Relation::References,
                Evidence::SpecField {
                    path: "spec.secret".to_string(),
                },
            ),
            edge(
                res("Widget", "w"),
                res("PersistentVolumeClaim", "d"),
                Relation::UsesStorage,
                Evidence::StorageBinding,
            ),
            edge(
                res("Widget", "w"),
                res("Service", "hook"),
                Relation::Other,
                Evidence::WebhookService,
            ),
        ],
    };
    let text = explain_resource(&plan(), "widget/w", &vec![operator()], &graph);
    let expected = "\u{1b}[1mwidget/w\u{1b}[0m is in \u{1b}[1mPhase 0 (Operands)\u{1b}[0m\n  \
Action: DELETE — operand\n\
\n\
\u{1b}[1mOrdering constraints:\u{1b}[0m\n\
\n  widget/w\n    └─ is an instance of CRD Widgets.x.io\n       \
└─ owned by CSV/widgets.v1                    \u{1b}[36m[HARD: CsvOwnedCrd]\u{1b}[0m\n\
\n  widget/w\n    └─ owned by Owner/o                      \
\u{1b}[36m[HARD: OwnerReference]\u{1b}[0m\n\
\n  widget/w\n    └─ references:\n       \
├─ Secret/s  \u{1b}[36m[HARD: SpecField: spec.secret]\u{1b}[0m\n       \
└─ PersistentVolumeClaim/d  \u{1b}[36m[HARD: StorageBinding]\u{1b}[0m\n\
\n  CSV/widgets.v1\n    └─ is the controller for this resource's CRD\n       \
└─ must stay alive until all operands are gone (Phase 3)  \u{1b}[31m[SAFETY]\u{1b}[0m\n\
\n\
\u{1b}[1mTherefore:\u{1b}[0m\n  \
Phase 0: widget/w is deleted    \u{1b}[1;33m◀ HERE\u{1b}[0m\n  \
Phase 1: Controller — ClusterServiceVersion/widgets.v1, Subscription/widgets\n";
    assert_eq!(text, expected);
}

#[test]
fn a_parent_goes_after_its_children() {
    let graph = EvidenceGraph {
        edges: vec![edge(
            res("Widget", "w"),
            res("Pod", "p"),
            Relation::Owns,
            Evidence::OwnerReference,
        )],
    };
    let text = explain_resource(&plan(), "Widget/w", &vec![], &graph);
    assert!(text.contains("is a parent of other resources (ownerReference)"));
    assert!(!text.contains("[SAFETY]"));
}

#[test]
fn plurals_are_guessed_in_lower_case() {
    assert_eq!(pluralize("Widget"), "widgets");
    assert_eq!(pluralize("Policy"), "policies");
    assert_eq!(pluralize("DataScienceClusterS"), "datascienceclusterses");
    assert_eq!(pluralize("ÄRA"), "äras");
}

#[test]
fn an_operator_owns_what_its_crds_define() {
    let ops = vec![operator()];
    assert!(find_owning_operator("WIDGET", &ops).is_some());
    assert!(find_owning_operator("Gadget", &ops).is_none());
    assert!(is_defined_by("widgets.x.io", "widget", "widgets"));
    assert!(!is_defined_by("gadgets.x.io", "widget", "widgets"));
}

#[test]
fn the_first_match_in_the_plan_counts() {
    assert_eq!(
        find_in_plan(&plan(), "WIDGET", "w"),
        Some((0, "Operands".to_string(), "DELETE — operand".to_string()))
    );
    assert_eq!(find_in_plan(&plan(), "Widget", "W"), None);
}

#[test]
fn relations_run_over_the_operator_and_over_edges() {
    let ops = vec![operator()];
    let related = |kind: &str, name: &str| {
        is_related_to_resource(&delete(kind, name), "Widget", "w", &ops, &vec![])
    };
    assert!(related("ClusterServiceVersion", "widgets.v1"));
    assert!(related("Subscription", "widgets"));
    assert!(related("CustomResourceDefinition", "Widgets.x.io"));
    assert!(!related("ConfigMap", "other"));
    let edges = vec![edge(
        res("ConfigMap", "other"),
        res("widget", "w"),
        Relation::References,
        Evidence::StorageBinding,
    )];
    assert!(is_related_to_resource(
        &delete("ConfigMap", "other"),
        "Widget",
        "w",
        &vec![],
        &edges
    ));
}

#[test]
fn evidence_is_the_first_with_its_confidence() {
    assert_eq!(
        format_evidence(&vec![], &Confidence::Heuristic),
        "HEURISTIC: unknown"
    );
    assert_eq!(
        format_evidence(
            &vec![Evidence::CsvOwnedCrd {
                crd_name: "a.b".to_string()
            }],
            &Confidence::Inferred
        ),
        "INFERRED: CsvOwnedCrd: a.b"
    );
}
