//! What an audit asks the cluster, in which order, and what it makes of the replies.

use vstd::prelude::*;
use vstd::string::*;

use crate::audit::attribution::{classify_list_results, objects_taken, ListScope};
use crate::audit::{
    push_error, push_unattributed, AttributedResidual, AttributedView, AuditCoverage, AuditView,
    EvidenceView, PreservedItem, PreservedItemView, RecreationState, ResidualAudit,
    ResidualConfidence, ResidualEvidence, ResidualItem, ResidualItemView, ScanErrorView,
};
use crate::cluster::{error_text, has_code, GetReply, LiveObject, RequestError};
use crate::collections::KeySet;
use crate::journal::{AuditContext, GvrScope, KnownGvr, KnownGvrView};
use crate::lists::{ids, lemma_pick_take, pick, push_id};
use crate::plan::{
    DiscoverySourceSer, ObservedResourceIdentity, OperatorIdentitySnapshot, ReviewMetadata,
};
use crate::planner::{action_resource, all_actions, flatten, subject, Action, PlanPhase};
use crate::resource::{label, ResourceId, ResourceIdView};
use crate::text::{copy_opt, opt_text, same};

verus! {

/// What was planned for an object that is looked at.
#[derive(Debug, Clone, Copy, PartialEq, Eq, Structural)]
pub enum ProbeRole {
    /// It was to be deleted.
    Delete,
    /// It was expected to go.
    Expect,
    /// It was found by a label alone, and left for review.
    Related,
}

/// One step of an audit.
#[derive(Debug)]
pub enum AuditStep {
    /// Look whether this object is there.
    Probe { role: ProbeRole, resource: ResourceId },
    /// List the objects of this type, in this namespace or in the whole cluster.
    List {
        group: String,
        version: String,
        kind: String,
        plural: String,
        namespace: Option<String>,
    },
    /// Note that this was not looked at.
    Note { resource_type: String, namespace: String, error: String },
}

/// The contents of an [`AuditStep`].
#[verifier::ext_equal]
pub enum StepView {
    Probe { role: ProbeRole, resource: ResourceIdView },
    List { target: TargetView, namespace: Option<Seq<char>> },
    Note(ScanErrorView),
}

/// A type of objects that is listed.
#[verifier::ext_equal]
pub struct TargetView {
    pub group: Seq<char>,
    pub version: Seq<char>,
    pub kind: Seq<char>,
    pub plural: Seq<char>,
}

impl View for AuditStep {
    type V = StepView;

    open spec fn view(&self) -> StepView {
        match self {
            AuditStep::Probe { role, resource } => StepView::Probe {
                role: *role,
                resource: resource@,
            },
            AuditStep::List { group, version, kind, plural, namespace } => StepView::List {
                target: TargetView {
                    group: group@,
                    version: version@,
                    kind: kind@,
                    plural: plural@,
                },
                namespace: opt_text(*namespace),
            },
            AuditStep::Note { resource_type, namespace, error } => StepView::Note(
                ScanErrorView {
                    resource_type: resource_type@,
                    namespace: namespace@,
                    error: error@,
                },
            ),
        }
    }
}

/// The contents of a list of steps.
pub open spec fn steps(v: Seq<AuditStep>) -> Seq<StepView> {
    v.map_values(|s: AuditStep| s@)
}

fn push_step(v: &mut Vec<AuditStep>, s: AuditStep)
    ensures
        steps(final(v)@) == steps(old(v)@).push(s@),
{
    let ghost view = s@;
    v.push(s);
    assert(steps(v@) =~= steps(old(v)@).push(view));
}

fn append_steps(v: &mut Vec<AuditStep>, more: Vec<AuditStep>)
    ensures
        steps(final(v)@) == steps(old(v)@) + steps(more@),
{
    let ghost extra = more@;
    let mut more = more;
    v.append(&mut more);
    assert(steps(v@) =~= steps(old(v)@) + steps(extra));
}

/// A review of an object that was found by a label alone.
pub open spec fn found_by_label(metadata: Option<ReviewMetadata>) -> bool {
    metadata matches Some(m) && m.discovery_source == Some(DiscoverySourceSer::RelatedLabelOnly)
}

fn is_found_by_label(metadata: &Option<ReviewMetadata>) -> (r: bool)
    ensures
        r == found_by_label(*metadata),
{
    match metadata {
        Some(m) => match m.discovery_source {
            Some(DiscoverySourceSer::RelatedLabelOnly) => true,
            _ => false,
        },
        None => false,
    }
}

/// How the object of an action is looked at first.
pub open spec fn planned_probe(a: Action) -> Option<StepView> {
    match a {
        Action::Delete { resource, .. } => Some(
            StepView::Probe { role: ProbeRole::Delete, resource: resource@ },
        ),
        Action::ExpectGone { resource, .. } => Some(
            StepView::Probe { role: ProbeRole::Expect, resource: resource@ },
        ),
        _ => None,
    }
}

/// How the object of an action is looked at after the planned ones.
pub open spec fn related_probe(a: Action) -> Option<StepView> {
    match a {
        Action::Review { resource, metadata, .. } => if found_by_label(metadata) {
            Some(StepView::Probe { role: ProbeRole::Related, resource: resource@ })
        } else {
            None
        },
        _ => None,
    }
}

/// What the plan leaves in place.
pub open spec fn left_in_place(a: Action) -> Option<PreservedItemView> {
    match a {
        Action::Keep { resource, reason } => Some(
            PreservedItemView {
                resource: resource@,
                reason: reason@,
                confirmed_descendants: 0,
                associated_active_workloads: 0,
            },
        ),
        Action::Review { resource, reason, metadata } => if found_by_label(metadata) {
            None
        } else {
            Some(
                PreservedItemView {
                    resource: resource@,
                    reason: reason@,
                    confirmed_descendants: 0,
                    associated_active_workloads: 0,
                },
            )
        },
        _ => None,
    }
}

/// A type of objects that is listed.
pub open spec fn target(
    group: Seq<char>,
    version: Seq<char>,
    kind: Seq<char>,
    plural: Seq<char>,
) -> TargetView {
    TargetView { group, version, kind, plural }
}

/// The types that are listed in every namespace of the operator: workloads, what the
/// lifecycle manager installs, and what OpenShift adds.
pub open spec fn scan_targets() -> Seq<TargetView> {
    seq![
        target("apps"@, "v1"@, "Deployment"@, "deployments"@),
        target("apps"@, "v1"@, "StatefulSet"@, "statefulsets"@),
        target("apps"@, "v1"@, "DaemonSet"@, "daemonsets"@),
        target(""@, "v1"@, "Service"@, "services"@),
        target("operators.coreos.com"@, "v1alpha1"@, "Subscription"@, "subscriptions"@),
        target(
            "operators.coreos.com"@,
            "v1alpha1"@,
            "ClusterServiceVersion"@,
            "clusterserviceversions"@,
        ),
        target("route.openshift.io"@, "v1"@, "Route"@, "routes"@),
        target("image.openshift.io"@, "v1"@, "ImageStream"@, "imagestreams"@),
    ]
}

/// The lists to make in one namespace.
pub open spec fn namespace_lists(namespace: Seq<char>) -> Seq<StepView> {
    scan_targets().map_values(
        |t: TargetView| StepView::List { target: t, namespace: Some(namespace) },
    )
}

/// The lists to make in the first `n` namespaces.
pub open spec fn footprint_lists(namespaces: Seq<String>, n: nat) -> Seq<StepView>
    decreases n,
{
    if n == 0 {
        seq![]
    } else {
        footprint_lists(namespaces, (n - 1) as nat) + namespace_lists(namespaces[n - 1]@)
    }
}

/// The first steps of an audit: the planned objects, then those found by a label,
/// then the namespaces.
pub open spec fn first_steps(actions: Seq<Action>, namespaces: Seq<String>) -> Seq<StepView> {
    probes(actions) + footprint_lists(namespaces, namespaces.len())
}

fn list_step(
    group: &str,
    version: &str,
    kind: &str,
    plural: &str,
    namespace: &Option<String>,
) -> (r:
    AuditStep)
    ensures
        r@ == (StepView::List {
            target: target(group@, version@, kind@, plural@),
            namespace: opt_text(*namespace),
        }),
{
    AuditStep::List {
        group: group.to_owned(),
        version: version.to_owned(),
        kind: kind.to_owned(),
        plural: plural.to_owned(),
        namespace: copy_opt(namespace),
    }
}

fn push_namespace_lists(v: &mut Vec<AuditStep>, namespace: &String)
    ensures
        steps(final(v)@) == steps(old(v)@) + namespace_lists(namespace@),
{
    let ns = Some(namespace.clone());
    push_step(v, list_step("apps", "v1", "Deployment", "deployments", &ns));
    push_step(v, list_step("apps", "v1", "StatefulSet", "statefulsets", &ns));
    push_step(v, list_step("apps", "v1", "DaemonSet", "daemonsets", &ns));
    push_step(v, list_step("", "v1", "Service", "services", &ns));
    push_step(
        v,
        list_step("operators.coreos.com", "v1alpha1", "Subscription", "subscriptions", &ns),
    );
    push_step(
        v,
        list_step(
            "operators.coreos.com",
            "v1alpha1",
            "ClusterServiceVersion",
            "clusterserviceversions",
            &ns,
        ),
    );
    push_step(v, list_step("route.openshift.io", "v1", "Route", "routes", &ns));
    push_step(v, list_step("image.openshift.io", "v1", "ImageStream", "imagestreams", &ns));
    assert(steps(v@) =~= steps(old(v)@) + namespace_lists(namespace@));
}

/// The first steps of an audit.
pub fn plan_first_steps(phases: &Vec<PlanPhase>, namespaces: &KeySet<String>) -> (r: Vec<AuditStep>)
    ensures
        steps(r@) == first_steps(all_actions(phases@), namespaces.order()),
{
    let actions = flatten(phases);
    let ghost all = all_actions(phases@);
    let mut planned: Vec<AuditStep> = Vec::new();
    let mut related: Vec<AuditStep> = Vec::new();
    let ghost f = |a: Action| planned_probe(a);
    let ghost g = |a: Action| related_probe(a);
    assert(all.take(0) =~= seq![]);
    assert(steps(planned@) =~= seq![]);
    assert(steps(related@) =~= seq![]);
    for i in 0..actions.len()
        invariant
            actions@.len() == all.len(),
            forall|j: int| 0 <= j < actions@.len() ==> *(#[trigger] actions@[j]) == all[j],
            f == (|a: Action| planned_probe(a)),
            g == (|a: Action| related_probe(a)),
            steps(planned@) == pick(all.take(i as int), f),
            steps(related@) == pick(all.take(i as int), g),
    {
        proof {
            lemma_pick_take(all, f, i as int);
            lemma_pick_take(all, g, i as int);
            assert(all[i as int] == *actions@[i as int]);
        }
        match actions[i] {
            Action::Delete { resource, .. } => {
                push_step(
                    &mut planned,
                    AuditStep::Probe { role: ProbeRole::Delete, resource: resource.clone() },
                );
            },
            Action::ExpectGone { resource, .. } => {
                push_step(
                    &mut planned,
                    AuditStep::Probe { role: ProbeRole::Expect, resource: resource.clone() },
                );
            },
            Action::Review { resource, metadata, .. } => {
                if is_found_by_label(metadata) {
                    push_step(
                        &mut related,
                        AuditStep::Probe { role: ProbeRole::Related, resource: resource.clone() },
                    );
                }
            },
            _ => {},
        }
    }
    assert(all.take(all.len() as int) =~= all);
    append_steps(&mut planned, related);
    let names: &Vec<String> = namespaces.as_vec();
    let ghost probes = steps(planned@);
    assert(probes + seq![] =~= probes);
    for i in 0..names.len()
        invariant
            names@ == namespaces.order(),
            steps(planned@) == probes + footprint_lists(names@, i as nat),
    {
        push_namespace_lists(&mut planned, &names[i]);
        let ghost before = footprint_lists(names@, i as nat);
        let ghost here = namespace_lists(names@[i as int]@);
        assert((probes + before) + here =~= probes + (before + here));
    }
    planned
}

/// An audit that has looked at nothing yet: it knows what the plan leaves in place.
pub fn begin_audit(phases: &Vec<PlanPhase>) -> (r: ResidualAudit)
    ensures
        r@ == (AuditView {
            deletes: seq![],
            expects: seq![],
            preserved: pick(all_actions(phases@), |a: Action| left_in_place(a)),
            likely: seq![],
            unattributed: seq![],
            coverage: AuditCoverage { requested_probes: 0, succeeded_probes: 0 },
            errors: seq![],
        }),
{
    let actions = flatten(phases);
    let ghost all = all_actions(phases@);
    let mut kept: Vec<PreservedItem> = Vec::new();
    let ghost f = |a: Action| left_in_place(a);
    assert(all.take(0) =~= seq![]);
    assert(kept@.map_values(|x: PreservedItem| x@) =~= seq![]);
    for i in 0..actions.len()
        invariant
            actions@.len() == all.len(),
            forall|j: int| 0 <= j < actions@.len() ==> *(#[trigger] actions@[j]) == all[j],
            f == (|a: Action| left_in_place(a)),
            kept@.map_values(|x: PreservedItem| x@) == pick(all.take(i as int), f),
    {
        proof {
            lemma_pick_take(all, f, i as int);
            assert(all[i as int] == *actions@[i as int]);
        }
        let item = match actions[i] {
            Action::Keep { resource, reason } => Some((resource, reason)),
            Action::Review { resource, reason, metadata } => if is_found_by_label(metadata) {
                None
            } else {
                Some((resource, reason))
            },
            _ => None,
        };
        match item {
            Some((resource, reason)) => {
                let ghost list = kept@;
                let one = PreservedItem {
                    resource: resource.clone(),
                    reason: reason.clone(),
                    confirmed_descendants: 0,
                    associated_active_workloads: 0,
                };
                let ghost view = one@;
                kept.push(one);
                assert(kept@.map_values(|x: PreservedItem| x@) =~= list.map_values(
                    |x: PreservedItem| x@,
                ).push(view));
            },
            None => {},
        }
    }
    assert(all.take(all.len() as int) =~= all);
    let r = ResidualAudit {
        planned_delete_still_present: Vec::new(),
        planned_expect_still_present: Vec::new(),
        expected_preserved: kept,
        likely_operator_residual: Vec::new(),
        unattributed: Vec::new(),
        coverage: AuditCoverage { requested_probes: 0, succeeded_probes: 0 },
        scan_errors: Vec::new(),
    };
    assert(r@.deletes =~= seq![]);
    assert(r@.expects =~= seq![]);
    assert(r@.likely =~= seq![]);
    assert(r@.unattributed =~= seq![]);
    assert(r@.errors =~= seq![]);
    r
}

/// The UIDs that tie an object to the operator by ownership: those of the operator's
/// own objects, and of everything that was to be deleted or expected to go.
pub open spec fn is_target_uid(
    op: OperatorIdentitySnapshot,
    actions: Seq<Action>,
    t: Seq<char>,
) -> bool {
    ||| op.csv.uid@ == t
    ||| exists|i: int| 0 <= i < op.subscriptions@.len() && (#[trigger] op.subscriptions@[i]).uid@ == t
    ||| exists|i: int|
        0 <= i < op.controller_deployments@.len() && (#[trigger] op.controller_deployments@[i]).uid@
            == t
    ||| exists|i: int|
        0 <= i < op.service_accounts@.len() && (#[trigger] op.service_accounts@[i]).uid@ == t
    ||| removes_uid(actions, actions.len() as int, t)
}

/// One of the first `n` actions removes the object with the UID `t`.
pub open spec fn removes_uid(actions: Seq<Action>, n: int, t: Seq<char>) -> bool {
    exists|i: int|
        0 <= i < n && ((#[trigger] actions[i]) is Delete || actions[i] is ExpectGone) && opt_text(
            subject(actions[i]).uid,
        ) == Some(t)
}

fn insert_uids(set: &mut KeySet<String>, v: &Vec<ObservedResourceIdentity>)
    ensures
        forall|t: Seq<char>| #[trigger]
            final(set).has(t) == (old(set).has(t) || exists|i: int|
                0 <= i < v@.len() && (#[trigger] v@[i]).uid@ == t),
{
    for i in 0..v.len()
        invariant
            forall|t: Seq<char>| #[trigger]
                set.has(t) == (old(set).has(t) || exists|k: int|
                    0 <= k < i && (#[trigger] v@[k]).uid@ == t),
    {
        set.insert(v[i].uid.clone());
        assert(v@[i as int].uid@ == v@[i as int].uid@);
    }
}

/// The UIDs that tie an object to the operator by ownership.
pub fn collect_target_uids(op: &OperatorIdentitySnapshot, phases: &Vec<PlanPhase>) -> (r: KeySet<
    String,
>)
    ensures
        forall|t: Seq<char>| #[trigger] r.has(t) == is_target_uid(*op, all_actions(phases@), t),
{
    let mut uids: KeySet<String> = KeySet::new();
    uids.insert(op.csv.uid.clone());
    insert_uids(&mut uids, &op.subscriptions);
    insert_uids(&mut uids, &op.controller_deployments);
    insert_uids(&mut uids, &op.service_accounts);
    let ghost own = uids;
    let actions = flatten(phases);
    let ghost all = all_actions(phases@);
    for i in 0..actions.len()
        invariant
            actions@.len() == all.len(),
            forall|j: int| 0 <= j < actions@.len() ==> *(#[trigger] actions@[j]) == all[j],
            forall|t: Seq<char>| #[trigger]
                uids.has(t) == (own.has(t) || removes_uid(all, i as int, t)),
    {
        assert(all[i as int] == *actions@[i as int]);
        let ghost before = uids;
        let ghost one = all[i as int];
        match actions[i] {
            Action::Delete { resource, .. } | Action::ExpectGone { resource, .. } => {
                match &resource.uid {
                    Some(uid) => {
                        uids.insert(uid.clone());
                    },
                    None => {},
                }
            },
            _ => {},
        }
        proof {
            assert forall|t: Seq<char>| removes_uid(all, i + 1, t) == (removes_uid(
                all,
                i as int,
                t,
            ) || ((one is Delete || one is ExpectGone) && opt_text(subject(one).uid) == Some(t))) by {
                if removes_uid(all, i + 1, t) {
                    let k = choose|k: int|
                        0 <= k < i + 1 && ((#[trigger] all[k]) is Delete || all[k] is ExpectGone)
                            && opt_text(subject(all[k]).uid) == Some(t);
                }
            }
        }
    }
    uids
}

/// Everything that the plan speaks of.
pub fn collect_plan_resources(phases: &Vec<PlanPhase>) -> (r: Vec<ResourceId>)
    ensures
        ids(r@) == all_actions(phases@).map_values(|a: Action| subject(a)@),
{
    let actions = flatten(phases);
    let ghost all = all_actions(phases@).map_values(|a: Action| subject(a)@);
    let mut out: Vec<ResourceId> = Vec::new();
    assert(ids(out@) =~= all.take(0));
    for i in 0..actions.len()
        invariant
            actions@.len() == all.len(),
            forall|j: int|
                0 <= j < actions@.len() ==> subject(*(#[trigger] actions@[j]))@ == all[j],
            ids(out@) == all.take(i as int),
    {
        push_id(&mut out, action_resource(actions[i]));
        assert(subject(*actions@[i as int])@ == all[i as int]);
        assert(all.take(i + 1) =~= all.take(i as int).push(all[i as int]));
    }
    assert(all.take(all.len() as int) =~= all);
    out
}

/// What a look at an object gave.
#[derive(Debug)]
pub enum ProbeResult {
    Present { uid: Option<String> },
    Gone,
    Error(String),
}

/// The contents of a [`ProbeResult`].
#[verifier::ext_equal]
pub enum ProbeView {
    Present(Option<Seq<char>>),
    Gone,
    Error(Seq<char>),
}

impl View for ProbeResult {
    type V = ProbeView;

    open spec fn view(&self) -> ProbeView {
        match self {
            ProbeResult::Present { uid } => ProbeView::Present(opt_text(*uid)),
            ProbeResult::Gone => ProbeView::Gone,
            ProbeResult::Error(e) => ProbeView::Error(e@),
        }
    }
}

/// The plural of a well-known type; `None` for the others, where a guess could make
/// an object seem gone that is there.
pub open spec fn known_plural(group: Seq<char>, kind: Seq<char>) -> Option<Seq<char>> {
    if group == ""@ && kind == "Service"@ {
        Some("services"@)
    } else if group == ""@ && kind == "Namespace"@ {
        Some("namespaces"@)
    } else if group == ""@ && kind == "ConfigMap"@ {
        Some("configmaps"@)
    } else if group == ""@ && kind == "ServiceAccount"@ {
        Some("serviceaccounts"@)
    } else if group == ""@ && kind == "Pod"@ {
        Some("pods"@)
    } else if group == ""@ && kind == "Secret"@ {
        Some("secrets"@)
    } else if group == "apps"@ && kind == "Deployment"@ {
        Some("deployments"@)
    } else if group == "apps"@ && kind == "StatefulSet"@ {
        Some("statefulsets"@)
    } else if group == "apps"@ && kind == "DaemonSet"@ {
        Some("daemonsets"@)
    } else if group == "apps"@ && kind == "ReplicaSet"@ {
        Some("replicasets"@)
    } else if group == "route.openshift.io"@ && kind == "Route"@ {
        Some("routes"@)
    } else if group == "image.openshift.io"@ && kind == "ImageStream"@ {
        Some("imagestreams"@)
    } else if group == "operators.coreos.com"@ && kind == "Subscription"@ {
        Some("subscriptions"@)
    } else if group == "operators.coreos.com"@ && kind == "ClusterServiceVersion"@ {
        Some("clusterserviceversions"@)
    } else if group == "operators.coreos.com"@ && kind == "InstallPlan"@ {
        Some("installplans"@)
    } else if group == "operators.coreos.com"@ && kind == "OperatorGroup"@ {
        Some("operatorgroups"@)
    } else if group == "apiextensions.k8s.io"@ && kind == "CustomResourceDefinition"@ {
        Some("customresourcedefinitions"@)
    } else {
        None
    }
}

/// The plural of a well-known type.
pub fn known_plural_for_gvk(group: &str, kind: &str) -> (r: Option<&'static str>)
    ensures
        match r {
            Some(s) => known_plural(group@, kind@) == Some(s@),
            None => known_plural(group@, kind@) is None,
        },
{
    let core = same(group, "");
    let apps = same(group, "apps");
    let olm = same(group, "operators.coreos.com");
    if core && same(kind, "Service") {
        Some("services")
    } else if core && same(kind, "Namespace") {
        Some("namespaces")
    } else if core && same(kind, "ConfigMap") {
        Some("configmaps")
    } else if core && same(kind, "ServiceAccount") {
        Some("serviceaccounts")
    } else if core && same(kind, "Pod") {
        Some("pods")
    } else if core && same(kind, "Secret") {
        Some("secrets")
    } else if apps && same(kind, "Deployment") {
        Some("deployments")
    } else if apps && same(kind, "StatefulSet") {
        Some("statefulsets")
    } else if apps && same(kind, "DaemonSet") {
        Some("daemonsets")
    } else if apps && same(kind, "ReplicaSet") {
        Some("replicasets")
    } else if same(group, "route.openshift.io") && same(kind, "Route") {
        Some("routes")
    } else if same(group, "image.openshift.io") && same(kind, "ImageStream") {
        Some("imagestreams")
    } else if olm && same(kind, "Subscription") {
        Some("subscriptions")
    } else if olm && same(kind, "ClusterServiceVersion") {
        Some("clusterserviceversions")
    } else if olm && same(kind, "InstallPlan") {
        Some("installplans")
    } else if olm && same(kind, "OperatorGroup") {
        Some("operatorgroups")
    } else if same(group, "apiextensions.k8s.io") && same(kind, "CustomResourceDefinition") {
        Some("customresourcedefinitions")
    } else {
        None
    }
}

/// The plural of the first discovered type, from position `i` on, with this group
/// and kind.
pub open spec fn discovered_plural(
    gvrs: Seq<KnownGvr>,
    group: Seq<char>,
    kind: Seq<char>,
    i: nat,
) -> Option<
    Seq<char>,
>
    decreases gvrs.len() - i,
{
    if i >= gvrs.len() {
        None
    } else if gvrs[i as int].group@ == group && gvrs[i as int].kind@ == kind {
        Some(gvrs[i as int].plural@)
    } else {
        discovered_plural(gvrs, group, kind, i + 1)
    }
}

/// The plural to look for an object by: the discovered one, or that of a well-known
/// type.
pub open spec fn plural_of(id: ResourceIdView, gvrs: Option<Vec<KnownGvr>>) -> Option<Seq<char>> {
    let discovered = match gvrs {
        Some(v) => discovered_plural(v@, id.group, id.kind, 0),
        None => None,
    };
    match discovered {
        Some(p) => Some(p),
        None => known_plural(id.group, id.kind),
    }
}

fn find_discovered(gvrs: &Vec<KnownGvr>, group: &str, kind: &str) -> (r: Option<String>)
    ensures
        opt_text(r) == discovered_plural(gvrs@, group@, kind@, 0),
{
    for i in 0..gvrs.len()
        invariant
            discovered_plural(gvrs@, group@, kind@, 0) == discovered_plural(
                gvrs@,
                group@,
                kind@,
                i as nat,
            ),
    {
        if same(gvrs[i].group.as_str(), group) && same(gvrs[i].kind.as_str(), kind) {
            return Some(gvrs[i].plural.clone());
        }
    }
    None
}

/// What a look at an object of an unknown type gives.
pub open spec fn unknown_type(id: ResourceIdView) -> ProbeView {
    ProbeView::Error(
        "Unknown GVR for "@ + id.group + "/"@ + id.kind + " '"@ + id.name
            + "' — no discovery metadata and not in static allowlist"@,
    )
}

/// The plural to look for an object by; where there is none, the look has failed.
pub fn resolve_plural(resource: &ResourceId, gvrs: &Option<Vec<KnownGvr>>) -> (r: Result<
    String,
    ProbeResult,
>)
    ensures
        match r {
            Ok(p) => plural_of(resource@, *gvrs) == Some(p@),
            Err(e) => plural_of(resource@, *gvrs) is None && e@ == unknown_type(resource@),
        },
{
    let discovered = match gvrs {
        Some(v) => find_discovered(v, resource.group.as_str(), resource.kind.as_str()),
        None => None,
    };
    match discovered {
        Some(p) => Ok(p),
        None => match known_plural_for_gvk(resource.group.as_str(), resource.kind.as_str()) {
            Some(p) => Ok(p.to_owned()),
            None => Err(
                ProbeResult::Error(
                    "Unknown GVR for ".to_owned().concat(resource.group.as_str()).concat(
                        "/",
                    ).concat(resource.kind.as_str()).concat(" '").concat(
                        resource.name.as_str(),
                    ).concat("' — no discovery metadata and not in static allowlist"),
                ),
            ),
        },
    }
}

/// What the GET of an object shows; nothing where the endpoint must be looked at
/// first.
pub open spec fn probe_shows(reply: GetReply) -> Option<ProbeView> {
    match reply {
        GetReply::Found(o) => Some(ProbeView::Present(opt_text(o.uid))),
        GetReply::Failed(e) => if has_code(e, 404) {
            None
        } else {
            Some(ProbeView::Error(error_text(e)))
        },
    }
}

/// The contents of an optional [`ProbeResult`].
pub open spec fn probe_view(r: Option<ProbeResult>) -> Option<ProbeView> {
    match r {
        Some(p) => Some(p@),
        None => None,
    }
}

/// Reads the GET of an object. `None` means that it was not found, and that its
/// endpoint must be looked at before it counts as gone.
pub fn after_probe(reply: &GetReply) -> (r: Option<ProbeResult>)
    ensures
        probe_view(r) == probe_shows(*reply),
{
    match reply {
        GetReply::Found(o) => Some(ProbeResult::Present { uid: copy_opt(&o.uid) }),
        GetReply::Failed(e) => {
            if e.has_code(404) {
                None
            } else {
                Some(ProbeResult::Error(e.text().to_owned()))
            }
        },
    }
}

/// What it shows of an object that was not found whether its type can be listed.
pub open spec fn endpoint_shows(id: ResourceIdView, endpoint_ok: bool) -> ProbeView {
    if endpoint_ok {
        ProbeView::Gone
    } else {
        ProbeView::Error(
            "GET returned 404 but API endpoint verification failed for "@ + label(id)
                + "; cannot distinguish object absence from endpoint absence"@,
        )
    }
}

/// Reads whether objects of the type can be listed, where the object was not found.
pub fn after_probe_endpoint(resource: &ResourceId, endpoint_ok: bool) -> (r: ProbeResult)
    ensures
        r@ == endpoint_shows(resource@, endpoint_ok),
{
    if endpoint_ok {
        ProbeResult::Gone
    } else {
        ProbeResult::Error(
            "GET returned 404 but API endpoint verification failed for ".to_owned().concat(
                resource.label().as_str(),
            ).concat("; cannot distinguish object absence from endpoint absence"),
        )
    }
}

/// Whether the object that is there is the planned one.
pub open spec fn recreation_of(
    planned: Option<Seq<char>>,
    live: Option<Seq<char>>,
) -> RecreationState {
    match (planned, live) {
        (Some(p), Some(l)) => if p == l {
            RecreationState::SameResource
        } else {
            RecreationState::Recreated
        },
        _ => RecreationState::Unknown,
    }
}

/// Whether the object that is there is the planned one. Without both UIDs nothing is
/// known.
pub fn check_recreation(plan_resource: &ResourceId, live_uid: &Option<String>) -> (r:
    RecreationState)
    ensures
        r == recreation_of(opt_text(plan_resource.uid), opt_text(*live_uid)),
{
    match (&plan_resource.uid, live_uid) {
        (Some(p), Some(l)) => if same(p.as_str(), l.as_str()) {
            RecreationState::SameResource
        } else {
            RecreationState::Recreated
        },
        _ => RecreationState::Unknown,
    }
}

/// The namespace of an object, or the word for the whole cluster.
pub open spec fn place(namespace: Option<Seq<char>>) -> Seq<char> {
    match namespace {
        Some(ns) => ns,
        None => "cluster"@,
    }
}

fn place_of(namespace: &Option<String>) -> (r: String)
    ensures
        r@ == place(opt_text(*namespace)),
{
    match namespace {
        Some(ns) => ns.clone(),
        None => "cluster".to_owned(),
    }
}

/// The coverage after one more look.
pub open spec fn counted(c: AuditCoverage, succeeded: bool) -> AuditCoverage {
    AuditCoverage {
        requested_probes: (c.requested_probes + 1) as usize,
        succeeded_probes: if succeeded {
            (c.succeeded_probes + 1) as usize
        } else {
            c.succeeded_probes
        },
    }
}

/// One more look can be counted.
pub open spec fn has_room(c: AuditCoverage) -> bool {
    c.requested_probes < usize::MAX && c.succeeded_probes <= c.requested_probes
}

/// What an audit calls an object that it could not look at.
pub open spec fn probe_name(role: ProbeRole, id: ResourceIdView) -> Seq<char> {
    if role == ProbeRole::Related {
        label(id)
    } else {
        id.kind
    }
}

/// An audit with an error about one object.
pub open spec fn probe_failed(
    a: AuditView,
    role: ProbeRole,
    id: ResourceIdView,
    e: Seq<char>,
) -> AuditView {
    AuditView {
        errors: a.errors.push(
            ScanErrorView {
                resource_type: probe_name(role, id),
                namespace: place(id.namespace),
                error: e,
            },
        ),
        ..a
    }
}

/// No evidence at all.
pub open spec fn no_evidence() -> EvidenceView {
    EvidenceView {
        owner_ref_match: false,
        matching_labels: seq![],
        matching_managers: seq![],
        namespace_affinity: false,
        service_account_match: false,
    }
}

/// An audit that has found the object of a probe, under the UID `uid`.
pub open spec fn probe_found(
    a: AuditView,
    role: ProbeRole,
    id: ResourceIdView,
    uid: Option<Seq<char>>,
) -> AuditView {
    match role {
        ProbeRole::Delete => AuditView {
            deletes: a.deletes.push(
                ResidualItemView {
                    resource: id,
                    planned_action: "DELETE"@,
                    live_uid: uid,
                    recreation: recreation_of(id.uid, uid),
                },
            ),
            ..a
        },
        ProbeRole::Expect => AuditView {
            expects: a.expects.push(
                ResidualItemView {
                    resource: id,
                    planned_action: "EXPECT-GONE"@,
                    live_uid: uid,
                    recreation: recreation_of(id.uid, uid),
                },
            ),
            ..a
        },
        ProbeRole::Related => match uid {
            Some(u) => AuditView {
                unattributed: a.unattributed.push(
                    AttributedView {
                        resource: ResourceIdView { uid: Some(u), ..id },
                        evidence: no_evidence(),
                        confidence: ResidualConfidence::NoEvidence,
                    },
                ),
                ..a
            },
            None => probe_failed(
                a,
                role,
                id,
                "RelatedLabelOnly resource present but has no UID"@,
            ),
        },
    }
}

/// An audit after one probe.
pub open spec fn probe_taken(
    a: AuditView,
    role: ProbeRole,
    id: ResourceIdView,
    result: ProbeView,
) -> AuditView {
    let b = AuditView { coverage: counted(a.coverage, !(result is Error)), ..a };
    match result {
        ProbeView::Present(uid) => probe_found(b, role, id, uid),
        ProbeView::Gone => b,
        ProbeView::Error(e) => probe_failed(b, role, id, e),
    }
}

fn count_probe(audit: &mut ResidualAudit, succeeded: bool)
    requires
        has_room(old(audit).coverage),
    ensures
        final(audit)@ == (AuditView {
            coverage: counted(old(audit)@.coverage, succeeded),
            ..old(audit)@
        }),
{
    audit.coverage.requested_probes = audit.coverage.requested_probes + 1;
    if succeeded {
        audit.coverage.succeeded_probes = audit.coverage.succeeded_probes + 1;
    }
}

fn push_item(audit: &mut ResidualAudit, role: ProbeRole, item: ResidualItem)
    requires
        role != ProbeRole::Related,
    ensures
        final(audit)@ == if role == ProbeRole::Delete {
            AuditView { deletes: old(audit)@.deletes.push(item@), ..old(audit)@ }
        } else {
            AuditView { expects: old(audit)@.expects.push(item@), ..old(audit)@ }
        },
{
    let ghost view = item@;
    if role == ProbeRole::Delete {
        audit.planned_delete_still_present.push(item);
        assert(audit@.deletes =~= old(audit)@.deletes.push(view));
    } else {
        audit.planned_expect_still_present.push(item);
        assert(audit@.expects =~= old(audit)@.expects.push(view));
    }
}

/// Writes down what a look at an object gave.
pub fn record_probe(
    audit: &mut ResidualAudit,
    role: ProbeRole,
    resource: &ResourceId,
    result: &ProbeResult,
)
    requires
        has_room(old(audit).coverage),
    ensures
        final(audit)@ == probe_taken(old(audit)@, role, resource@, result@),
{
    let name = match role {
        ProbeRole::Related => resource.label(),
        _ => resource.kind.clone(),
    };
    match result {
        ProbeResult::Present { uid } => {
            count_probe(audit, true);
            match role {
                ProbeRole::Related => match uid {
                    Some(u) => {
                        let rid = resource.with_uid(Some(u.clone()));
                        let evidence = ResidualEvidence {
                            owner_ref_match: false,
                            matching_labels: Vec::new(),
                            matching_managers: Vec::new(),
                            namespace_affinity: false,
                            service_account_match: false,
                        };
                        assert(evidence@ =~= no_evidence());
                        assert(rid@ =~= (ResourceIdView { uid: Some(u@), ..resource@ }));
                        push_unattributed(
                            audit,
                            AttributedResidual {
                                resource: rid,
                                evidence,
                                confidence: ResidualConfidence::NoEvidence,
                            },
                        );
                    },
                    None => {
                        push_error(
                            audit,
                            name,
                            place_of(&resource.namespace),
                            "RelatedLabelOnly resource present but has no UID".to_owned(),
                        );
                    },
                },
                _ => {
                    let word = if role == ProbeRole::Delete {
                        "DELETE"
                    } else {
                        "EXPECT-GONE"
                    };
                    push_item(
                        audit,
                        role,
                        ResidualItem {
                            resource: resource.clone(),
                            planned_action: word.to_owned(),
                            live_uid: copy_opt(uid),
                            recreation: check_recreation(resource, uid),
                        },
                    );
                },
            }
        },
        ProbeResult::Gone => {
            count_probe(audit, true);
        },
        ProbeResult::Error(e) => {
            count_probe(audit, false);
            push_error(audit, name, place_of(&resource.namespace), e.clone());
        },
    }
}

/// An audit after one list.
pub open spec fn list_taken(
    a: AuditView,
    scope: ListScope,
    reply: Result<Vec<LiveObject>, RequestError>,
    ctx: AuditContext,
    uids: KeySet<String>,
    planned: Seq<ResourceIdView>,
) -> AuditView {
    let b = AuditView { coverage: counted(a.coverage, reply is Ok), ..a };
    match reply {
        Ok(items) => objects_taken(
            b,
            items@,
            items@.len(),
            scope,
            ctx,
            uids,
            planned,
        ),
        Err(e) => AuditView {
            errors: b.errors.push(
                ScanErrorView {
                    resource_type: scope.kind,
                    namespace: scope.namespace,
                    error: error_text(e),
                },
            ),
            ..b
        },
    }
}

/// Writes down what a list gave. A list that failed is an error, whatever the reason.
pub fn record_list(
    audit: &mut ResidualAudit,
    group: &str,
    version: &str,
    kind: &str,
    namespace: &Option<String>,
    reply: &Result<Vec<LiveObject>, RequestError>,
    ctx: &AuditContext,
    target_uids: &KeySet<String>,
    plan_resources: &Vec<ResourceId>,
)
    requires
        has_room(old(audit).coverage),
    ensures
        final(audit)@ == list_taken(
            old(audit)@,
            (ListScope {
                group: group@,
                version: version@,
                kind: kind@,
                namespace: place(opt_text(*namespace)),
            }),
            *reply,
            *ctx,
            *target_uids,
            ids(plan_resources@),
        ),
{
    let ns = place_of(namespace);
    match reply {
        Ok(items) => {
            count_probe(audit, true);
            classify_list_results(
                items,
                kind,
                group,
                version,
                ns.as_str(),
                ctx,
                target_uids,
                plan_resources,
                audit,
            );
        },
        Err(e) => {
            count_probe(audit, false);
            push_error(audit, kind.to_owned(), ns, e.text().to_owned());
        },
    }
}

/// A probe or a list that failed leaves an error behind: the failed ones are never
/// more than the errors.
pub open spec fn failures_are_noted(a: AuditView) -> bool {
    a.coverage.requested_probes - a.coverage.succeeded_probes <= a.errors.len()
}

/// Objects that are taken in leave the errors, the coverage and what was planned.
pub proof fn lemma_objects_keep_errors(
    a: AuditView,
    items: Seq<LiveObject>,
    n: nat,
    scope: ListScope,
    ctx: AuditContext,
    uids: KeySet<String>,
    planned: Seq<ResourceIdView>,
)
    ensures
        objects_taken(a, items, n, scope, ctx, uids, planned).errors.len() >= a.errors.len(),
        objects_taken(a, items, n, scope, ctx, uids, planned).coverage == a.coverage,
        objects_taken(a, items, n, scope, ctx, uids, planned).deletes == a.deletes,
        objects_taken(a, items, n, scope, ctx, uids, planned).expects == a.expects,
        objects_taken(a, items, n, scope, ctx, uids, planned).preserved == a.preserved,
    decreases n,
{
    if n > 0 {
        lemma_objects_keep_errors(a, items, (n - 1) as nat, scope, ctx, uids, planned);
    }
}

/// Every probe keeps the failures noted.
pub proof fn law_failed_probe_is_noted(
    a: AuditView,
    role: ProbeRole,
    id: ResourceIdView,
    result: ProbeView,
)
    requires
        has_room(a.coverage),
        failures_are_noted(a),
    ensures
        failures_are_noted(probe_taken(a, role, id, result)),
        result is Error ==> probe_taken(a, role, id, result).errors.len() == a.errors.len() + 1,
{
}

/// Every list keeps the failures noted.
pub proof fn law_failed_list_is_noted(
    a: AuditView,
    scope: ListScope,
    reply: Result<Vec<LiveObject>, RequestError>,
    ctx: AuditContext,
    uids: KeySet<String>,
    planned: Seq<ResourceIdView>,
)
    requires
        has_room(a.coverage),
        failures_are_noted(a),
    ensures
        failures_are_noted(list_taken(a, scope, reply, ctx, uids, planned)),
        reply is Err ==> list_taken(a, scope, reply, ctx, uids, planned).errors.len()
            == a.errors.len() + 1,
{
    if reply is Ok {
        let b = AuditView { coverage: counted(a.coverage, true), ..a };
        lemma_objects_keep_errors(
            b,
            reply->Ok_0@,
            reply->Ok_0@.len(),
            scope,
            ctx,
            uids,
            planned,
        );
    }
}

/// An object is taken to be the planned one only where both UIDs are known and equal.
pub proof fn law_same_resource_needs_equal_uids(planned: Option<Seq<char>>, live: Option<Seq<char>>)
    ensures
        recreation_of(planned, live) == RecreationState::SameResource <==> planned is Some && live
            == planned,
        recreation_of(planned, live) == RecreationState::Unknown <==> planned is None || live is None,
{
}

/// The name of the CRD of a discovered type.
pub open spec fn crd_name(g: KnownGvrView) -> Seq<char> {
    g.plural + "."@ + g.group
}

/// The object is the CRD of that name.
pub open spec fn is_crd(id: ResourceIdView, name: Seq<char>) -> bool {
    id.kind == "CustomResourceDefinition"@ && id.name == name
}

/// One of the actions deletes the CRD of that name.
pub open spec fn deletes_crd(actions: Seq<Action>, name: Seq<char>) -> bool {
    exists|i: int|
        0 <= i < actions.len() && (#[trigger] actions[i]) is Delete && is_crd(
            subject(actions[i])@,
            name,
        )
}

/// The contents of a list of planned objects that are still there.
pub open spec fn items_view(v: Seq<ResidualItem>) -> Seq<ResidualItemView> {
    v.map_values(|x: ResidualItem| x@)
}

/// The CRD of that name was to be deleted, and was found.
pub open spec fn crd_found(items: Seq<ResidualItemView>, name: Seq<char>) -> bool {
    exists|i: int| 0 <= i < items.len() && is_crd((#[trigger] items[i]).resource, name)
}

/// The CRD of the type was to be deleted, and seems gone.
pub open spec fn is_pruned(
    g: KnownGvrView,
    actions: Seq<Action>,
    items: Seq<ResidualItemView>,
) -> bool {
    deletes_crd(actions, crd_name(g)) && !crd_found(items, crd_name(g))
}

/// A note about something that was not looked at anywhere.
pub open spec fn note(what: Seq<char>, error: Seq<char>) -> StepView {
    StepView::Note(ScanErrorView { resource_type: what, namespace: "(all)"@, error })
}

/// The lists of one type in the first `n` namespaces.
pub open spec fn type_lists(t: TargetView, namespaces: Seq<String>, n: nat) -> Seq<StepView>
    decreases n,
{
    if n == 0 {
        seq![]
    } else {
        type_lists(t, namespaces, (n - 1) as nat).push(
            StepView::List { target: t, namespace: Some(namespaces[n - 1]@) },
        )
    }
}

/// The steps for one discovered type of the operator.
pub open spec fn gvr_steps(
    g: KnownGvrView,
    pruned: bool,
    namespaces: Seq<String>,
) -> Seq<StepView> {
    let t = target(g.group, g.version, g.kind, g.plural);
    if pruned {
        seq![
            note(
                g.kind + " (CRD pruned)"@,
                "CRD '"@ + crd_name(g)
                    + "' was approved for deletion and appears gone, but CR API probe is skipped — CRD UID verification not yet implemented"@,
            ),
        ]
    } else if g.scope == GvrScope::Namespaced {
        type_lists(t, namespaces, namespaces.len())
    } else {
        seq![StepView::List { target: t, namespace: None }]
    }
}

/// The steps for the first `n` discovered types of the operator.
pub open spec fn gvrs_steps(
    gvrs: Seq<KnownGvr>,
    n: nat,
    actions: Seq<Action>,
    items: Seq<ResidualItemView>,
    namespaces: Seq<String>,
) -> Seq<StepView>
    decreases n,
{
    if n == 0 {
        seq![]
    } else {
        gvrs_steps(gvrs, (n - 1) as nat, actions, items, namespaces) + gvr_steps(
            gvrs[n - 1]@,
            is_pruned(gvrs[n - 1]@, actions, items),
            namespaces,
        )
    }
}

/// A note where the journal should hold something and does not.
pub open spec fn lacking(missed: bool, what: Seq<char>, error: Seq<char>) -> Seq<StepView> {
    if missed {
        seq![note(what, error)]
    } else {
        seq![]
    }
}

/// The note about an owned CRD that discovery did not know.
pub open spec fn crd_note(crd: Seq<char>) -> StepView {
    note(
        crd,
        "Owned CRD '"@ + crd
            + "' could not be resolved via API discovery at plan time. Residual CR instances of this type are not covered."@,
    )
}

/// The note about a planned type that discovery did not know.
pub open spec fn gvk_note(g: Seq<char>, v: Seq<char>, k: Seq<char>) -> StepView {
    note(
        g + "/"@ + v + "/"@ + k,
        "Plan GVK "@ + g + "/"@ + v + " '"@ + k
            + "' could not be resolved via API discovery. Exact-GET probes for this type are not possible."@,
    )
}

/// The steps for what the operator owns.
pub open spec fn owned_part(
    owns_crds: bool,
    actions: Seq<Action>,
    ctx: AuditContext,
    items: Seq<ResidualItemView>,
) -> Seq<StepView> {
    match ctx.owned_cr_gvrs {
        None => lacking(
            owns_crds,
            "(owned CR APIs)"@,
            "Journal lacks owned CR GVR metadata. Residual CRs beyond plan resources are not covered."@,
        ),
        Some(gvrs) => gvrs_steps(
            gvrs@,
            gvrs@.len(),
            actions,
            items,
            ctx.footprint_namespaces.order(),
        ),
    }
}

/// The steps for owned CRDs that discovery did not know.
pub open spec fn crd_part(owns_crds: bool, ctx: AuditContext) -> Seq<StepView> {
    match ctx.unresolved_crds {
        None => lacking(
            owns_crds,
            "(owned CRD resolution)"@,
            "Journal lacks CRD resolution metadata. Cannot verify owned CRD coverage completeness."@,
        ),
        Some(crds) => crds@.map_values(|c: String| crd_note(c@)),
    }
}

/// The steps for planned types that discovery did not know.
pub open spec fn gvk_part(ctx: AuditContext) -> Seq<StepView> {
    match ctx.unresolved_gvks {
        None => seq![
            note(
                "(plan GVK resolution)"@,
                "Journal lacks plan GVK resolution metadata. Cannot verify exact-GET probe coverage."@,
            ),
        ],
        Some(gvks) => gvks@.map_values(
            |x: (String, String, String)| gvk_note(x.0@, x.1@, x.2@),
        ),
    }
}

/// The step for a journal that holds no discovered types.
pub open spec fn gvr_part(ctx: AuditContext) -> Seq<StepView> {
    lacking(
        ctx.known_gvrs is None,
        "(plan GVRs)"@,
        "Journal lacks plan GVR metadata. Probes fall back to well-known types."@,
    )
}

/// The last steps of an audit, once the planned objects have been looked at.
pub open spec fn last_steps(
    owns_crds: bool,
    actions: Seq<Action>,
    ctx: AuditContext,
    items: Seq<ResidualItemView>,
) -> Seq<StepView> {
    owned_part(owns_crds, actions, ctx, items) + crd_part(owns_crds, ctx) + gvk_part(ctx)
        + gvr_part(ctx)
}

fn is_crd_named(id: &ResourceId, name: &str) -> (r: bool)
    ensures
        r == is_crd(id@, name@),
{
    same(id.kind.as_str(), "CustomResourceDefinition") && same(id.name.as_str(), name)
}

fn pruned(g: &KnownGvr, actions: &Vec<&Action>, items: &Vec<ResidualItem>, Ghost(all): Ghost<
    Seq<Action>,
>) -> (r: bool)
    requires
        actions@.len() == all.len(),
        forall|j: int| 0 <= j < actions@.len() ==> *(#[trigger] actions@[j]) == all[j],
    ensures
        r == is_pruned(g@, all, items_view(items@)),
{
    let name = g.plural.clone().concat(".").concat(g.group.as_str());
    let mut deleted = false;
    for i in 0..actions.len()
        invariant
            name@ == crd_name(g@),
            actions@.len() == all.len(),
            forall|j: int| 0 <= j < actions@.len() ==> *(#[trigger] actions@[j]) == all[j],
            deleted == exists|k: int|
                0 <= k < i && (#[trigger] all[k]) is Delete && is_crd(subject(all[k])@, name@),
    {
        assert(all[i as int] == *actions@[i as int]);
        match actions[i] {
            Action::Delete { resource, .. } => {
                if is_crd_named(resource, name.as_str()) {
                    deleted = true;
                }
            },
            _ => {},
        }
    }
    assert(deleted == deletes_crd(all, name@));
    if !deleted {
        return false;
    }
    for i in 0..items.len()
        invariant
            name@ == crd_name(g@),
            forall|k: int| 0 <= k < i ==> !is_crd((#[trigger] items@[k]).resource@, name@),
    {
        if is_crd_named(&items[i].resource, name.as_str()) {
            assert(is_crd(items_view(items@)[i as int].resource, name@));
            return false;
        }
    }
    true
}

fn note_step(what: String, error: String) -> (r: AuditStep)
    ensures
        r@ == note(what@, error@),
{
    AuditStep::Note { resource_type: what, namespace: "(all)".to_owned(), error }
}

fn push_gvr_steps(
    v: &mut Vec<AuditStep>,
    g: &KnownGvr,
    is_pruned_type: bool,
    namespaces: &Vec<String>,
)
    ensures
        steps(final(v)@) == steps(old(v)@) + gvr_steps(g@, is_pruned_type, namespaces@),
{
    let ghost base = steps(v@);
    if is_pruned_type {
        let name = g.plural.clone().concat(".").concat(g.group.as_str());
        push_step(
            v,
            note_step(
                g.kind.clone().concat(" (CRD pruned)"),
                "CRD '".to_owned().concat(name.as_str()).concat(
                    "' was approved for deletion and appears gone, but CR API probe is skipped — CRD UID verification not yet implemented",
                ),
            ),
        );
        assert(steps(v@) =~= base + gvr_steps(g@, is_pruned_type, namespaces@));
        return ;
    }
    match g.scope {
        GvrScope::Namespaced => {
            let ghost t = target(g.group@, g.version@, g.kind@, g.plural@);
            assert(base + seq![] =~= base);
            for i in 0..namespaces.len()
                invariant
                    t == target(g.group@, g.version@, g.kind@, g.plural@),
                    steps(v@) == base + type_lists(t, namespaces@, i as nat),
            {
                let ns = Some(namespaces[i].clone());
                let step = list_step(
                    g.group.as_str(),
                    g.version.as_str(),
                    g.kind.as_str(),
                    g.plural.as_str(),
                    &ns,
                );
                let ghost view = step@;
                push_step(v, step);
                assert((base + type_lists(t, namespaces@, i as nat)).push(view) =~= base
                    + type_lists(t, namespaces@, i as nat).push(view));
            }
        },
        GvrScope::Cluster => {
            push_step(
                v,
                list_step(
                    g.group.as_str(),
                    g.version.as_str(),
                    g.kind.as_str(),
                    g.plural.as_str(),
                    &None,
                ),
            );
            assert(steps(v@) =~= base + gvr_steps(g@, is_pruned_type, namespaces@));
        },
    }
}

fn push_lacking(v: &mut Vec<AuditStep>, missed: bool, what: &str, error: &str)
    ensures
        steps(final(v)@) == steps(old(v)@) + lacking(missed, what@, error@),
{
    if missed {
        push_step(v, note_step(what.to_owned(), error.to_owned()));
    }
    assert(steps(v@) =~= steps(old(v)@) + lacking(missed, what@, error@));
}

fn push_owned_part(
    v: &mut Vec<AuditStep>,
    owns_crds: bool,
    phases: &Vec<PlanPhase>,
    ctx: &AuditContext,
    items: &Vec<ResidualItem>,
)
    ensures
        steps(final(v)@) == steps(old(v)@) + owned_part(
            owns_crds,
            all_actions(phases@),
            *ctx,
            items_view(items@),
        ),
{
    match &ctx.owned_cr_gvrs {
        None => {
            push_lacking(
                v,
                owns_crds,
                "(owned CR APIs)",
                "Journal lacks owned CR GVR metadata. Residual CRs beyond plan resources are not covered.",
            );
        },
        Some(gvrs) => {
            let actions = flatten(phases);
            let ghost all = all_actions(phases@);
            let namespaces: &Vec<String> = ctx.footprint_namespaces.as_vec();
            let ghost base = steps(v@);
            assert(base + seq![] =~= base);
            for i in 0..gvrs.len()
                invariant
                    actions@.len() == all.len(),
                    forall|j: int| 0 <= j < actions@.len() ==> *(#[trigger] actions@[j]) == all[j],
                    steps(v@) == base + gvrs_steps(
                        gvrs@,
                        i as nat,
                        all,
                        items_view(items@),
                        namespaces@,
                    ),
            {
                let gone = pruned(&gvrs[i], &actions, items, Ghost(all));
                push_gvr_steps(v, &gvrs[i], gone, namespaces);
                let ghost before = gvrs_steps(
                        gvrs@,
                        i as nat,
                        all,
                        items_view(items@),
                        namespaces@,
                    );
                let ghost here = gvr_steps(gvrs@[i as int]@, gone, namespaces@);
                assert((base + before) + here =~= base + (before + here));
            }
        },
    }
}

fn push_crd_part(v: &mut Vec<AuditStep>, owns_crds: bool, ctx: &AuditContext)
    ensures
        steps(final(v)@) == steps(old(v)@) + crd_part(owns_crds, *ctx),
{
    match &ctx.unresolved_crds {
        None => {
            push_lacking(
                v,
                owns_crds,
                "(owned CRD resolution)",
                "Journal lacks CRD resolution metadata. Cannot verify owned CRD coverage completeness.",
            );
        },
        Some(crds) => {
            let ghost all = crds@.map_values(|c: String| crd_note(c@));
            let ghost base = steps(v@);
            assert(base + all.take(0) =~= base);
            for i in 0..crds.len()
                invariant
                    all == crds@.map_values(|c: String| crd_note(c@)),
                    steps(v@) == base + all.take(i as int),
            {
                push_step(
                    v,
                    note_step(
                        crds[i].clone(),
                        "Owned CRD '".to_owned().concat(crds[i].as_str()).concat(
                            "' could not be resolved via API discovery at plan time. Residual CR instances of this type are not covered.",
                        ),
                    ),
                );
                assert(all[i as int] == crd_note(crds@[i as int]@));
                assert(base + all.take(i + 1) =~= (base + all.take(i as int)).push(all[i as int]));
            }
            assert(all.take(all.len() as int) =~= all);
        },
    }
}

fn push_gvk_part(v: &mut Vec<AuditStep>, ctx: &AuditContext)
    ensures
        steps(final(v)@) == steps(old(v)@) + gvk_part(*ctx),
{
    match &ctx.unresolved_gvks {
        None => {
            push_lacking(
                v,
                true,
                "(plan GVK resolution)",
                "Journal lacks plan GVK resolution metadata. Cannot verify exact-GET probe coverage.",
            );
        },
        Some(gvks) => {
            let ghost all = gvks@.map_values(
                |x: (String, String, String)| gvk_note(x.0@, x.1@, x.2@),
            );
            let ghost base = steps(v@);
            assert(base + all.take(0) =~= base);
            for i in 0..gvks.len()
                invariant
                    all == gvks@.map_values(
                        |x: (String, String, String)| gvk_note(x.0@, x.1@, x.2@),
                    ),
                    steps(v@) == base + all.take(i as int),
            {
                let x: &(String, String, String) = &gvks[i];
                push_step(
                    v,
                    note_step(
                        x.0.clone().concat("/").concat(x.1.as_str()).concat("/").concat(
                            x.2.as_str(),
                        ),
                        "Plan GVK ".to_owned().concat(x.0.as_str()).concat("/").concat(
                            x.1.as_str(),
                        ).concat(" '").concat(x.2.as_str()).concat(
                            "' could not be resolved via API discovery. Exact-GET probes for this type are not possible.",
                        ),
                    ),
                );
                assert(all[i as int] == gvk_note(x.0@, x.1@, x.2@));
                assert(base + all.take(i + 1) =~= (base + all.take(i as int)).push(all[i as int]));
            }
            assert(all.take(all.len() as int) =~= all);
        },
    }
}

/// The last steps of an audit: what the operator owns, and what discovery did not
/// know. `audit` has looked at the planned objects.
pub fn plan_last_steps(
    owned_crds: &Vec<String>,
    phases: &Vec<PlanPhase>,
    ctx: &AuditContext,
    audit: &ResidualAudit,
) -> (r: Vec<AuditStep>)
    ensures
        steps(r@) == last_steps(
            owned_crds@.len() > 0,
            all_actions(phases@),
            *ctx,
            audit@.deletes,
        ),
{
    let owns_crds = owned_crds.len() > 0;
    let mut out: Vec<AuditStep> = Vec::new();
    assert(steps(out@) =~= seq![]);
    push_owned_part(&mut out, owns_crds, phases, ctx, &audit.planned_delete_still_present);
    push_crd_part(&mut out, owns_crds, ctx);
    push_gvk_part(&mut out, ctx);
    push_lacking(
        &mut out,
        ctx.known_gvrs.is_none(),
        "(plan GVRs)",
        "Journal lacks plan GVR metadata. Probes fall back to well-known types.",
    );
    assert(items_view(audit.planned_delete_still_present@) =~= audit@.deletes);
    assert(steps(out@) =~= last_steps(
        owns_crds,
        all_actions(phases@),
        *ctx,
        audit@.deletes,
    ));
    out
}

/// The journal does not say all that an audit needs to know: which types discovery knew,
/// which it did not, and, for an operator that owns CRDs, which types those stand for. Or
/// it says that discovery did not know some.
pub open spec fn lacks_knowledge(owns_crds: bool, ctx: AuditContext) -> bool {
    ||| ctx.known_gvrs is None
    ||| match ctx.unresolved_gvks {
        None => true,
        Some(gvks) => gvks@.len() > 0,
    }
    ||| match ctx.unresolved_crds {
        None => owns_crds,
        Some(crds) => crds@.len() > 0,
    }
    ||| owns_crds && ctx.owned_cr_gvrs is None
}

/// One of the steps is a note.
pub open spec fn has_note(s: Seq<StepView>) -> bool {
    exists|k: int| 0 <= k < s.len() && (#[trigger] s[k]) is Note
}

/// A journal that lacks knowledge makes the audit note it: what was never captured is not
/// taken for nothing.
pub proof fn law_missing_knowledge_is_noted(
    owns_crds: bool,
    actions: Seq<Action>,
    ctx: AuditContext,
    items: Seq<ResidualItemView>,
)
    requires
        lacks_knowledge(owns_crds, ctx),
    ensures
        has_note(last_steps(owns_crds, actions, ctx, items)),
{
    let owned = owned_part(owns_crds, actions, ctx, items);
    let crds = crd_part(owns_crds, ctx);
    let gvks = gvk_part(ctx);
    let all = last_steps(owns_crds, actions, ctx, items);
    if owns_crds && ctx.owned_cr_gvrs is None {
        assert(all[0] == owned[0]);
    } else if crds.len() > 0 {
        assert(all[owned.len() as int] == crds[0]);
        assert(crds[0] is Note);
    } else if gvks.len() > 0 {
        assert(all[(owned + crds).len() as int] == gvks[0]);
        assert(gvks[0] is Note);
    } else {
        assert(all.last() is Note);
    }
}

/// The looks at the objects of the plan: those to delete and those expected to go, in the
/// order of the plan, and then those that were found by a label.
pub open spec fn probes(actions: Seq<Action>) -> Seq<StepView> {
    pick(actions, |a: Action| planned_probe(a)) + pick(actions, |a: Action| related_probe(a))
}

/// None of the steps looks at an object of the plan.
pub open spec fn has_no_probe(s: Seq<StepView>) -> bool {
    forall|k: int| 0 <= k < s.len() ==> !((#[trigger] s[k]) is Probe)
}

/// What was planned for an object, in a word.
pub open spec fn planned_word(role: ProbeRole) -> Seq<char> {
    if role == ProbeRole::Delete {
        "DELETE"@
    } else {
        "EXPECT-GONE"@
    }
}

/// The objects for which `role` was planned and that were found, among the first `n` that
/// were looked at. Each carries the UID that it was found under.
pub open spec fn found_items(
    probes: Seq<StepView>,
    looks: Seq<ProbeView>,
    role: ProbeRole,
    n: nat,
) -> Seq<ResidualItemView>
    decreases n,
{
    if n == 0 {
        seq![]
    } else {
        let before = found_items(probes, looks, role, (n - 1) as nat);
        match (probes[n - 1], looks[n - 1]) {
            (StepView::Probe { role: planned, resource }, ProbeView::Present(uid)) => if planned
                == role {
                before.push(
                    ResidualItemView {
                        resource,
                        planned_action: planned_word(role),
                        live_uid: uid,
                        recreation: recreation_of(resource.uid, uid),
                    },
                )
            } else {
                before
            },
            _ => before,
        }
    }
}

/// One look more leaves what was found before.
pub proof fn lemma_found_before(
    probes: Seq<StepView>,
    looks: Seq<ProbeView>,
    look: ProbeView,
    role: ProbeRole,
    n: nat,
)
    requires
        n <= looks.len(),
    ensures
        found_items(probes, looks.push(look), role, n) == found_items(probes, looks, role, n),
    decreases n,
{
    if n > 0 {
        lemma_found_before(probes, looks, look, role, (n - 1) as nat);
    }
}

proof fn lemma_all_probes(actions: Seq<Action>)
    ensures
        forall|k: int|
            0 <= k < probes(actions).len() ==> (#[trigger] probes(actions)[k]) is Probe,
{
    let f = |a: Action| planned_probe(a);
    let g = |a: Action| related_probe(a);
    crate::lists::lemma_pick_members(actions, f);
    crate::lists::lemma_pick_members(actions, g);
    let planned = pick(actions, f);
    let related = pick(actions, g);
    assert forall|k: int| 0 <= k < probes(actions).len() implies (#[trigger] probes(actions)[k])
        is Probe by {
        if k < planned.len() {
            assert(planned.contains(planned[k]));
            let i = choose|i: int|
                0 <= i < actions.len() && f(#[trigger] actions[i]) == Some(planned[k]);
            assert(planned_probe(actions[i]) == Some(planned[k]));
        } else {
            let x = related[k - planned.len()];
            assert(related.contains(x));
            let i = choose|i: int| 0 <= i < actions.len() && g(#[trigger] actions[i]) == Some(x);
            assert(related_probe(actions[i]) == Some(x));
        }
    }
}

proof fn lemma_lists_have_no_probe(namespaces: Seq<String>, n: nat)
    ensures
        has_no_probe(footprint_lists(namespaces, n)),
    decreases n,
{
    if n > 0 {
        lemma_lists_have_no_probe(namespaces, (n - 1) as nat);
    }
}

/// The first steps look at the objects of the plan, and then list.
pub proof fn lemma_first_steps(actions: Seq<Action>, namespaces: Seq<String>)
    ensures
        ({
            let all = first_steps(actions, namespaces);
            let looked_at = probes(actions);
            &&& looked_at.len() <= all.len()
            &&& forall|k: int|
                0 <= k < looked_at.len() ==> (#[trigger] all[k]) is Probe && all[k] == looked_at[k]
            &&& forall|k: int| looked_at.len() <= k < all.len() ==> !((#[trigger] all[k]) is Probe)
        }),
{
    lemma_all_probes(actions);
    lemma_lists_have_no_probe(namespaces, namespaces.len());
    let lists = footprint_lists(namespaces, namespaces.len());
    let all = first_steps(actions, namespaces);
    let looked_at = probes(actions);
    assert(all == looked_at + lists);
    assert forall|k: int| 0 <= k < looked_at.len() implies (#[trigger] all[k]) is Probe && all[k]
        == looked_at[k] by {
        assert(looked_at[k] is Probe);
    }
    assert forall|k: int| looked_at.len() <= k < all.len() implies !((#[trigger] all[k])
        is Probe) by {
        assert(all[k] == lists[k - looked_at.len()]);
    }
}

proof fn lemma_type_lists_have_no_probe(t: TargetView, namespaces: Seq<String>, n: nat)
    ensures
        has_no_probe(type_lists(t, namespaces, n)),
    decreases n,
{
    if n > 0 {
        lemma_type_lists_have_no_probe(t, namespaces, (n - 1) as nat);
    }
}

proof fn lemma_gvrs_have_no_probe(
    gvrs: Seq<KnownGvr>,
    n: nat,
    actions: Seq<Action>,
    items: Seq<ResidualItemView>,
    namespaces: Seq<String>,
)
    ensures
        has_no_probe(gvrs_steps(gvrs, n, actions, items, namespaces)),
    decreases n,
{
    if n > 0 {
        lemma_gvrs_have_no_probe(gvrs, (n - 1) as nat, actions, items, namespaces);
        let g = gvrs[n - 1]@;
        lemma_type_lists_have_no_probe(
            target(g.group, g.version, g.kind, g.plural),
            namespaces,
            namespaces.len(),
        );
    }
}

/// The last steps look at no object of the plan.
pub proof fn lemma_last_steps(
    owns_crds: bool,
    actions: Seq<Action>,
    ctx: AuditContext,
    items: Seq<ResidualItemView>,
)
    ensures
        has_no_probe(last_steps(owns_crds, actions, ctx, items)),
{
    if let Some(gvrs) = ctx.owned_cr_gvrs {
        lemma_gvrs_have_no_probe(
            gvrs@,
            gvrs@.len(),
            actions,
            items,
            ctx.footprint_namespaces.order(),
        );
    }
    assert(has_no_probe(owned_part(owns_crds, actions, ctx, items)));
    assert(has_no_probe(crd_part(owns_crds, ctx)));
    assert(has_no_probe(gvk_part(ctx)));
    assert(has_no_probe(gvr_part(ctx)));
}

} // verus!
