//! Inspections of an operator.

use teardown::cluster::LiveObject;
use teardown::inspect::{
    collect_part_of_values, collect_pods, collect_root_domains, find_own_domain, find_root,
    label_selector, ns_suffix, print_inspection, OperatorInspection,
};
use teardown::olm::OperatorInstance;
use teardown::resource::ResourceId;

fn res(kind: &str, name: &str, namespace: Option<&str>) -> ResourceId {
    ResourceId {
        group: String::new(),
        version: "v1".to_string(),
        kind: kind.to_string(),
        namespace: namespace.map(String::from),
        name: name.to_string(),
        uid: None,
    }
}

fn crd(name: Option<&str>, part_of: Option<&str>) -> LiveObject {
    LiveObject {
        name: name.map(String::from),
        namespace: None,
        uid: Some("uid".to_string()),
        resource_version: None,
        terminating: false,
        finalizers: vec![],
        owner_references: vec![],
        labels: part_of
            .map(|v| {
                (
                    "platform.opendatahub.io/part-of".to_string(),
                    v.to_string(),
                )
            })
            .into_iter()
            .collect(),
        annotations: vec![],
        managers: vec![],
        spec_name: None,
        template_service_account: None,
        service_account: None,
        installed_csv: None,
        current_csv: None,
    }
}

#[test]
fn root_domains_leave_out_the_generic_ones() {
    assert_eq!(find_root("a.b.opendatahub.io"), Some("opendatahub.io".to_string()));
    assert_eq!(find_root("x.io"), Some("x.io".to_string()));
    assert_eq!(find_root("io"), None);
    assert_eq!(
        find_own_domain("things.sub.opendatahub.io"),
        Some("opendatahub.io".to_string())
    );
    assert_eq!(find_own_domain("routes.route.openshift.io"), None);
    assert_eq!(find_own_domain("nodots"), None);
    let domains = collect_root_domains(&vec![
        "a.x.io".to_string(),
        "b.y.x.io".to_string(),
        "c.coreos.com".to_string(),
    ]);
    assert_eq!(domains.as_vec(), &vec!["x.io".to_string()]);
}

#[test]
fn part_of_values_come_from_crds_of_the_domain() {
    let domains = collect_root_domains(&vec!["a.x.io".to_string()]);
    let values = collect_part_of_values(
        &domains,
        &vec![
            crd(Some("p.z.x.io"), Some("alpha")),
            crd(Some("q.x.io"), None),
            crd(Some("r.other.com"), Some("beta")),
            crd(None, Some("gamma")),
            crd(Some("s.x.io"), Some("alpha")),
        ],
    );
    assert_eq!(values.as_vec(), &vec!["alpha".to_string()]);
}

#[test]
fn a_selector_holds_the_labels_with_text_values() {
    assert_eq!(
        label_selector(&vec![
            ("app".to_string(), Some("ctl".to_string())),
            ("n".to_string(), None),
            ("tier".to_string(), Some("x".to_string())),
        ]),
        "app=ctl,tier=x"
    );
    assert_eq!(label_selector(&vec![]), "");
}

#[test]
fn pods_without_a_name_are_left_out() {
    let pods = collect_pods(
        &"ns".to_string(),
        &vec![crd(Some("p"), None), crd(None, None)],
    );
    assert_eq!(pods.len(), 1);
    assert_eq!(pods[0].kind, "Pod");
    assert_eq!(pods[0].namespace, Some("ns".to_string()));
    assert_eq!(pods[0].uid, Some("uid".to_string()));
}

#[test]
fn an_inspection_is_printed_as_a_tree() {
    let lines = print_inspection(&OperatorInspection {
        operator: OperatorInstance {
            subscription: Some(res("Subscription", "sub", Some("ns"))),
            package_name: None,
            csv: res("ClusterServiceVersion", "op.v1", Some("ns")),
            csv_phase: String::new(),
            owned_crds: vec![
                "a.x.io".to_string(),
                "a.x.io".to_string(),
                "b.x.io".to_string(),
            ],
            required_crds: vec![],
            owned_api_service_defs: vec![],
            required_api_service_defs: vec![],
            deployments: vec!["ctl".to_string()],
            service_accounts: vec!["sa".to_string()],
            install_namespace: "ns".to_string(),
            has_unlinked_subscriptions: false,
        },
        cr_instances: vec![],
        related_cr_instances: vec![res("Widget", "w", None)],
        controller_pods: vec![res("Pod", "p", Some("ns"))],
    });
    let expected = "\u{1b}[1mOperator: op.v1\u{1b}[0m

\u{1b}[1mOLM\u{1b}[0m
  Subscription/sub  \u{1b}[2m(ns: ns)\u{1b}[0m
  ClusterServiceVersion/op.v1  \u{1b}[2m(ns: ns)\u{1b}[0m

\u{1b}[1mController\u{1b}[0m
  Deployment/ctl  \u{1b}[2m(ns: ns)\u{1b}[0m
  ServiceAccount/sa  \u{1b}[2m(ns: ns)\u{1b}[0m
  Pod/p  \u{1b}[2m(ns: ns)\u{1b}[0m

\u{1b}[1mOwned CRDs (2)\u{1b}[0m
  a.x.io
  b.x.io

\u{1b}[1mCR Instances (0)\u{1b}[0m
  (none)

\u{1b}[1mRelated CR Instances (1)\u{1b}[0m
  Widget/w  \u{1b}[2m(cluster-scoped)\u{1b}[0m

\u{1b}[1mSummary\u{1b}[0m: 2 OLM, 3 controller, 2 CRDs, 0 CR instances, 1 related";
    assert_eq!(lines.join("\n"), expected);
    assert_eq!(ns_suffix(&None), "");
}
