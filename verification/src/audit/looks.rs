//! What an audit looks at, and what it makes of what it sees.

use vstd::prelude::*;
use vstd::string::*;

use crate::audit::attribution::ListScope;
use crate::audit::scan::{
    counted, crd_part, discovered_plural, endpoint_shows, first_steps, footprint_lists, gvk_part,
    gvr_steps, gvrs_steps, is_pruned, is_target_uid, known_plural, last_steps, left_in_place,
    list_taken, namespace_lists, planned_probe, plural_of, probe_shows, probe_taken, probes,
    recreation_of, related_probe, removes_uid, target, type_lists, ProbeRole, ProbeView, StepView,
    TargetView,
};
use crate::audit::{
    AuditView, PreservedItemView, RecreationState, ResidualConfidence, ResidualItemView,
};
use crate::cluster::{GetReply, LiveObject, RequestError};
use crate::collections::KeySet;
use crate::journal::{AuditContext, GvrScope, KnownGvr, KnownGvrView};
use crate::lists::{lemma_contains_add, lemma_pick_members, pick};
use crate::plan::{DiscoverySourceSer, OperatorIdentitySnapshot};
use crate::planner::{subject, Action};
use crate::resource::ResourceIdView;
use crate::text::opt_text;

verus! {

/// Every object that the plan deletes or expects to go is looked at, and so is every
/// object that it leaves for review and that was found by a label alone.
pub proof fn law_planned_objects_are_looked_at(
    actions: Seq<Action>,
    namespaces: Seq<String>,
    i: int,
)
    requires
        0 <= i < actions.len(),
    ensures
        actions[i] matches Action::Delete { resource, .. } ==> first_steps(
            actions,
            namespaces,
        ).contains((StepView::Probe { role: ProbeRole::Delete, resource: resource@ })),
        actions[i] matches Action::ExpectGone { resource, .. } ==> first_steps(
            actions,
            namespaces,
        ).contains((StepView::Probe { role: ProbeRole::Expect, resource: resource@ })),
        actions[i] matches Action::Review { resource, metadata: Some(m), .. }
            ==> (m.discovery_source == Some(DiscoverySourceSer::RelatedLabelOnly) ==> first_steps(
            actions,
            namespaces,
        ).contains((StepView::Probe { role: ProbeRole::Related, resource: resource@ }))),
{
    let f = |a: Action| planned_probe(a);
    let g = |a: Action| related_probe(a);
    lemma_pick_members(actions, f);
    lemma_pick_members(actions, g);
    let lists = footprint_lists(namespaces, namespaces.len());
    assert(probes(actions) == pick(actions, f) + pick(actions, g));
    if let Some(x) = f(actions[i]) {
        lemma_contains_add(pick(actions, f), pick(actions, g), x);
        lemma_contains_add(probes(actions), lists, x);
    }
    if let Some(x) = g(actions[i]) {
        lemma_contains_add(pick(actions, f), pick(actions, g), x);
        lemma_contains_add(probes(actions), lists, x);
    }
}

/// No other object is looked at by itself: each look is at the object of an action
/// that deletes it, expects it to go, or leaves it for review after it was found by a
/// label alone.
pub proof fn law_nothing_else_is_looked_at(
    actions: Seq<Action>,
    role: ProbeRole,
    id: ResourceIdView,
)
    requires
        probes(actions).contains((StepView::Probe { role, resource: id })),
    ensures
        exists|i: int|
            0 <= i < actions.len() && subject(#[trigger] actions[i])@ == id && match role {
                ProbeRole::Delete => actions[i] is Delete,
                ProbeRole::Expect => actions[i] is ExpectGone,
                ProbeRole::Related => actions[i] matches Action::Review { metadata: Some(m), .. }
                    && m.discovery_source == Some(DiscoverySourceSer::RelatedLabelOnly),
            },
{
    let f = |a: Action| planned_probe(a);
    let g = |a: Action| related_probe(a);
    let x = StepView::Probe { role, resource: id };
    lemma_pick_members(actions, f);
    lemma_pick_members(actions, g);
    assert(probes(actions) == pick(actions, f) + pick(actions, g));
    lemma_contains_add(pick(actions, f), pick(actions, g), x);
    if pick(actions, f).contains(x) {
        let i = choose|i: int| 0 <= i < actions.len() && f(#[trigger] actions[i]) == Some(x);
        assert(subject(actions[i])@ == id);
    } else {
        let i = choose|i: int| 0 <= i < actions.len() && g(#[trigger] actions[i]) == Some(x);
        assert(subject(actions[i])@ == id);
    }
}

/// What the plan leaves in place: what it keeps, and what it leaves for review unless
/// that was found by a label alone; with the reason, and nothing counted yet. What it
/// deletes, expects to go or waits for is not left in place.
pub proof fn law_what_is_left_in_place(a: Action)
    ensures
        a matches Action::Keep { resource, reason } ==> left_in_place(a) == Some(
            PreservedItemView {
                resource: resource@,
                reason: reason@,
                confirmed_descendants: 0,
                associated_active_workloads: 0,
            },
        ),
        a matches Action::Review { resource, reason, metadata } ==> {
            let by_label = metadata is Some && metadata->0.discovery_source == Some(
                DiscoverySourceSer::RelatedLabelOnly,
            );
            &&& by_label ==> left_in_place(a) is None
            &&& !by_label ==> left_in_place(a) == Some(
                PreservedItemView {
                    resource: resource@,
                    reason: reason@,
                    confirmed_descendants: 0,
                    associated_active_workloads: 0,
                },
            )
        },
        a is Delete || a is ExpectGone || a is WaitGone ==> left_in_place(a) is None,
{
}

/// The eight types that are listed in a namespace, by group, version, kind and plural.
pub open spec fn is_listed_type(t: TargetView) -> bool {
    ||| t.group == "apps"@ && t.version == "v1"@ && t.kind == "Deployment"@ && t.plural
        == "deployments"@
    ||| t.group == "apps"@ && t.version == "v1"@ && t.kind == "StatefulSet"@ && t.plural
        == "statefulsets"@
    ||| t.group == "apps"@ && t.version == "v1"@ && t.kind == "DaemonSet"@ && t.plural
        == "daemonsets"@
    ||| t.group == ""@ && t.version == "v1"@ && t.kind == "Service"@ && t.plural == "services"@
    ||| t.group == "operators.coreos.com"@ && t.version == "v1alpha1"@ && t.kind
        == "Subscription"@ && t.plural == "subscriptions"@
    ||| t.group == "operators.coreos.com"@ && t.version == "v1alpha1"@ && t.kind
        == "ClusterServiceVersion"@ && t.plural == "clusterserviceversions"@
    ||| t.group == "route.openshift.io"@ && t.version == "v1"@ && t.kind == "Route"@ && t.plural
        == "routes"@
    ||| t.group == "image.openshift.io"@ && t.version == "v1"@ && t.kind == "ImageStream"@
        && t.plural == "imagestreams"@
}

/// In every namespace of the operator, and in no other, the deployments, stateful
/// sets, daemon sets, services, subscriptions, ClusterServiceVersions, routes and
/// image streams are listed, and nothing else.
pub proof fn law_namespaces_are_listed(namespaces: Seq<String>, n: nat, i: int, t: TargetView)
    requires
        n <= namespaces.len(),
    ensures
        0 <= i < n && is_listed_type(t) ==> footprint_lists(namespaces, n).contains(
            (StepView::List { target: t, namespace: Some(namespaces[i]@) }),
        ),
        forall|s: StepView| #[trigger]
            footprint_lists(namespaces, n).contains(s) ==> (s matches StepView::List {
                target,
                namespace: Some(ns),
            } && is_listed_type(target) && exists|k: int|
                0 <= k < n && (#[trigger] namespaces[k])@ == ns),
    decreases n,
{
    if n > 0 {
        let front = footprint_lists(namespaces, (n - 1) as nat);
        let ns = namespaces[n - 1]@;
        let here = namespace_lists(ns);
        law_namespaces_are_listed(namespaces, (n - 1) as nat, i, t);
        lemma_listed(ns, t);
        if 0 <= i < n && is_listed_type(t) {
            let x = StepView::List { target: t, namespace: Some(namespaces[i]@) };
            lemma_contains_add(front, here, x);
        }
        assert forall|s: StepView| #[trigger]
            footprint_lists(namespaces, n).contains(s) implies (s matches StepView::List {
            target,
            namespace: Some(m),
        } && is_listed_type(target) && exists|k: int|
            0 <= k < n && (#[trigger] namespaces[k])@ == m) by {
            lemma_contains_add(front, here, s);
            if front.contains(s) {
                let m = s->List_namespace->0;
                let k = choose|k: int| 0 <= k < n - 1 && (#[trigger] namespaces[k])@ == m;
                assert(namespaces[k]@ == m);
            } else {
                assert(namespaces[n - 1]@ == ns);
            }
        }
    }
}

proof fn lemma_listed(ns: Seq<char>, t: TargetView)
    ensures
        is_listed_type(t) ==> namespace_lists(ns).contains(
            (StepView::List { target: t, namespace: Some(ns) }),
        ),
        forall|s: StepView| #[trigger]
            namespace_lists(ns).contains(s) ==> (s matches StepView::List {
                target,
                namespace: Some(m),
            } && is_listed_type(target) && m == ns),
{
    let all = crate::audit::scan::scan_targets();
    let lists = namespace_lists(ns);
    assert(all.len() == 8);
    assert(lists.len() == 8);
    if is_listed_type(t) {
        let x = StepView::List { target: t, namespace: Some(ns) };
        let k = if t == all[0] {
            0int
        } else if t == all[1] {
            1int
        } else if t == all[2] {
            2int
        } else if t == all[3] {
            3int
        } else if t == all[4] {
            4int
        } else if t == all[5] {
            5int
        } else if t == all[6] {
            6int
        } else {
            7int
        };
        assert(all[k] == t);
        assert(lists[k] == x);
    }
    assert forall|s: StepView| #[trigger] lists.contains(s) implies (s matches StepView::List {
        target,
        namespace: Some(m),
    } && is_listed_type(target) && m == ns) by {
        let k = choose|k: int| 0 <= k < lists.len() && lists[k] == s;
        assert(lists[k] == (StepView::List { target: all[k], namespace: Some(ns) }));
        assert(k == 0 || k == 1 || k == 2 || k == 3 || k == 4 || k == 5 || k == 6 || k == 7);
        assert(is_listed_type(all[k]));
    }
}

/// An object belongs to the operator by its owner where the owner has the UID of the
/// operator's ClusterServiceVersion, of one of its subscriptions, controller
/// deployments or service accounts, or of an object that the plan deletes or expects
/// to go; and nowhere else.
pub proof fn law_uids_of_the_operator(
    op: OperatorIdentitySnapshot,
    actions: Seq<Action>,
    t: Seq<char>,
)
    ensures
        is_target_uid(op, actions, t) <==> {
            ||| op.csv.uid@ == t
            ||| exists|i: int|
                0 <= i < op.subscriptions@.len() && (#[trigger] op.subscriptions@[i]).uid@ == t
            ||| exists|i: int|
                0 <= i < op.controller_deployments@.len() && (
                #[trigger] op.controller_deployments@[i]).uid@ == t
            ||| exists|i: int|
                0 <= i < op.service_accounts@.len() && (#[trigger] op.service_accounts@[i]).uid@
                    == t
            ||| exists|i: int|
                0 <= i < actions.len() && ((#[trigger] actions[i] matches Action::Delete {
                    resource,
                    ..
                } && resource@.uid == Some(t)) || (actions[i] matches Action::ExpectGone {
                    resource,
                    ..
                } && resource@.uid == Some(t)))
        },
{
    let n = actions.len() as int;
    if removes_uid(actions, n, t) {
        let i = choose|i: int|
            0 <= i < n && ((#[trigger] actions[i]) is Delete || actions[i] is ExpectGone)
                && opt_text(subject(actions[i]).uid) == Some(t);
        assert(subject(actions[i])@.uid == Some(t));
        assert(actions[i] is Delete || actions[i] is ExpectGone);
    }
    if exists|i: int|
        0 <= i < actions.len() && ((#[trigger] actions[i] matches Action::Delete { resource, .. }
            && resource@.uid == Some(t)) || (actions[i] matches Action::ExpectGone { resource, .. }
            && resource@.uid == Some(t))) {
        let i = choose|i: int|
            0 <= i < actions.len() && ((#[trigger] actions[i] matches Action::Delete {
                resource,
                ..
            } && resource@.uid == Some(t)) || (actions[i] matches Action::ExpectGone {
                resource,
                ..
            } && resource@.uid == Some(t)));
        assert(opt_text(subject(actions[i]).uid) == Some(t));
    }
}

/// The plurals of the well-known types, type by type.
pub proof fn law_known_plurals()
    ensures
        known_plural(""@, "Service"@) == Some("services"@),
        known_plural(""@, "Namespace"@) == Some("namespaces"@),
        known_plural(""@, "ConfigMap"@) == Some("configmaps"@),
        known_plural(""@, "ServiceAccount"@) == Some("serviceaccounts"@),
        known_plural(""@, "Pod"@) == Some("pods"@),
        known_plural(""@, "Secret"@) == Some("secrets"@),
        known_plural("apps"@, "Deployment"@) == Some("deployments"@),
        known_plural("apps"@, "StatefulSet"@) == Some("statefulsets"@),
        known_plural("apps"@, "DaemonSet"@) == Some("daemonsets"@),
        known_plural("apps"@, "ReplicaSet"@) == Some("replicasets"@),
        known_plural("route.openshift.io"@, "Route"@) == Some("routes"@),
        known_plural("image.openshift.io"@, "ImageStream"@) == Some("imagestreams"@),
        known_plural("operators.coreos.com"@, "Subscription"@) == Some("subscriptions"@),
        known_plural("operators.coreos.com"@, "ClusterServiceVersion"@) == Some(
            "clusterserviceversions"@,
        ),
        known_plural("operators.coreos.com"@, "InstallPlan"@) == Some("installplans"@),
        known_plural("operators.coreos.com"@, "OperatorGroup"@) == Some("operatorgroups"@),
        known_plural("apiextensions.k8s.io"@, "CustomResourceDefinition"@) == Some(
            "customresourcedefinitions"@,
        ),
{
    reveal_strlit("");
    reveal_strlit("apps");
    reveal_strlit("route.openshift.io");
    reveal_strlit("image.openshift.io");
    reveal_strlit("operators.coreos.com");
    reveal_strlit("apiextensions.k8s.io");
    reveal_strlit("Service");
    reveal_strlit("Namespace");
    reveal_strlit("ConfigMap");
    reveal_strlit("ServiceAccount");
    reveal_strlit("Pod");
    reveal_strlit("Secret");
    reveal_strlit("Deployment");
    reveal_strlit("StatefulSet");
    reveal_strlit("DaemonSet");
    reveal_strlit("ReplicaSet");
    reveal_strlit("Route");
    reveal_strlit("ImageStream");
    reveal_strlit("Subscription");
    reveal_strlit("ClusterServiceVersion");
    reveal_strlit("InstallPlan");
    reveal_strlit("OperatorGroup");
    reveal_strlit("CustomResourceDefinition");
    assert(""@.len() == 0);
    assert("apps"@.len() == 4);
    assert("route.openshift.io"@.len() == 18);
    assert("image.openshift.io"@.len() == 18);
    assert("operators.coreos.com"@.len() == 20);
    assert("apiextensions.k8s.io"@.len() == 20);
    assert("route.openshift.io"@[0] == 'r');
    assert("image.openshift.io"@[0] == 'i');
    assert("operators.coreos.com"@[0] == 'o');
    assert("apiextensions.k8s.io"@[0] == 'a');
    assert("Service"@.len() == 7);
    assert("Namespace"@.len() == 9);
    assert("ConfigMap"@.len() == 9);
    assert("Namespace"@[0] == 'N');
    assert("ConfigMap"@[0] == 'C');
    assert("ServiceAccount"@.len() == 14);
    assert("Pod"@.len() == 3);
    assert("Secret"@.len() == 6);
    assert("Deployment"@.len() == 10);
    assert("StatefulSet"@.len() == 11);
    assert("DaemonSet"@.len() == 9);
    assert("ReplicaSet"@.len() == 10);
    assert("Deployment"@[0] == 'D');
    assert("ReplicaSet"@[0] == 'R');
    assert("Subscription"@.len() == 12);
    assert("ClusterServiceVersion"@.len() == 21);
    assert("InstallPlan"@.len() == 11);
    assert("OperatorGroup"@.len() == 13);
}

/// Only those groups and kinds are well known.
pub proof fn law_no_other_plural_is_known(group: Seq<char>, kind: Seq<char>)
    ensures
        known_plural(group, kind) is Some <==> {
            ||| group == ""@ && (kind == "Service"@ || kind == "Namespace"@ || kind == "ConfigMap"@
                || kind == "ServiceAccount"@ || kind == "Pod"@ || kind == "Secret"@)
            ||| group == "apps"@ && (kind == "Deployment"@ || kind == "StatefulSet"@ || kind
                == "DaemonSet"@ || kind == "ReplicaSet"@)
            ||| group == "route.openshift.io"@ && kind == "Route"@
            ||| group == "image.openshift.io"@ && kind == "ImageStream"@
            ||| group == "operators.coreos.com"@ && (kind == "Subscription"@ || kind
                == "ClusterServiceVersion"@ || kind == "InstallPlan"@ || kind == "OperatorGroup"@)
            ||| group == "apiextensions.k8s.io"@ && kind == "CustomResourceDefinition"@
        },
{
}

/// An object is looked for by the plural of the first discovered type with its group
/// and kind; where there is none, by that of a well-known type.
pub proof fn law_plural_of_an_object(id: ResourceIdView, gvrs: Vec<KnownGvr>, k: int)
    ensures
        0 <= k < gvrs@.len() && gvrs@[k].group@ == id.group && gvrs@[k].kind@ == id.kind && (forall|
            j: int,
        |
            0 <= j < k ==> (#[trigger] gvrs@[j]).group@ != id.group || gvrs@[j].kind@ != id.kind)
            ==> plural_of(id, Some(gvrs)) == Some(gvrs@[k].plural@),
        (forall|j: int|
            0 <= j < gvrs@.len() ==> (#[trigger] gvrs@[j]).group@ != id.group || gvrs@[j].kind@
                != id.kind) ==> plural_of(id, Some(gvrs)) == known_plural(id.group, id.kind),
        plural_of(id, None) == known_plural(id.group, id.kind),
{
    if 0 <= k < gvrs@.len() && gvrs@[k].group@ == id.group && gvrs@[k].kind@ == id.kind && (forall|
        j: int,
    |
        0 <= j < k ==> (#[trigger] gvrs@[j]).group@ != id.group || gvrs@[j].kind@ != id.kind) {
        lemma_discovered(gvrs@, id.group, id.kind, 0, k);
    }
    if forall|j: int|
        0 <= j < gvrs@.len() ==> (#[trigger] gvrs@[j]).group@ != id.group || gvrs@[j].kind@
            != id.kind {
        lemma_undiscovered(gvrs@, id.group, id.kind, 0);
    }
}

proof fn lemma_discovered(
    gvrs: Seq<KnownGvr>,
    group: Seq<char>,
    kind: Seq<char>,
    i: nat,
    k: int,
)
    requires
        i <= k < gvrs.len(),
        gvrs[k].group@ == group,
        gvrs[k].kind@ == kind,
        forall|j: int| i <= j < k ==> (#[trigger] gvrs[j]).group@ != group || gvrs[j].kind@ != kind,
    ensures
        discovered_plural(gvrs, group, kind, i) == Some(gvrs[k].plural@),
    decreases gvrs.len() - i,
{
    if i < k {
        assert(gvrs[i as int].group@ != group || gvrs[i as int].kind@ != kind);
        lemma_discovered(gvrs, group, kind, i + 1, k);
    }
}

proof fn lemma_undiscovered(gvrs: Seq<KnownGvr>, group: Seq<char>, kind: Seq<char>, i: nat)
    requires
        forall|j: int|
            i <= j < gvrs.len() ==> (#[trigger] gvrs[j]).group@ != group || gvrs[j].kind@ != kind,
    ensures
        discovered_plural(gvrs, group, kind, i) is None,
    decreases gvrs.len() - i,
{
    if i < gvrs.len() {
        lemma_undiscovered(gvrs, group, kind, i + 1);
    }
}

/// What a look shows: an object that is there, with its UID; nothing yet on 404; an
/// error on anything else. Where the object was not found it is gone if its type can
/// be listed, and an error if not.
pub proof fn law_what_a_look_shows(reply: GetReply, id: ResourceIdView)
    ensures
        reply matches GetReply::Found(o) ==> probe_shows(reply) == Some(
            ProbeView::Present(opt_text(o.uid)),
        ),
        reply matches GetReply::Failed(RequestError::Status { code, text, .. }) ==> (code == 404
            <==> probe_shows(reply) is None) && (code != 404 ==> probe_shows(reply) == Some(
            ProbeView::Error(text@),
        )),
        reply matches GetReply::Failed(RequestError::Other { text }) ==> probe_shows(reply) == Some(
            ProbeView::Error(text@),
        ),
        endpoint_shows(id, true) == ProbeView::Gone,
        endpoint_shows(id, false) is Error,
{
}

/// The object that is there is the planned one where both UIDs are known and the
/// same, another where both are known and differ; where one is not known, nobody
/// knows.
pub proof fn law_whether_it_was_recreated(planned: Option<Seq<char>>, live: Option<Seq<char>>)
    ensures
        planned is Some && live is Some && planned->0 == live->0 ==> recreation_of(planned, live)
            == RecreationState::SameResource,
        planned is Some && live is Some && planned->0 != live->0 ==> recreation_of(planned, live)
            == RecreationState::Recreated,
        planned is None || live is None ==> recreation_of(planned, live)
            == RecreationState::Unknown,
{
}

/// What an audit makes of a look. Each look is counted, and one that showed no error
/// is counted as a success. An object that is there is noted under what was planned
/// for it, with the UID that it was found under; one that was found by a label alone
/// is noted as unattributed, and is an error where it has no UID. One that is gone
/// leaves nothing. An error is noted with the kind and place of the object.
pub proof fn law_look_is_noted(a: AuditView, role: ProbeRole, id: ResourceIdView, result: ProbeView)
    requires
        a.coverage.requested_probes < usize::MAX,
        a.coverage.succeeded_probes <= a.coverage.requested_probes,
    ensures
        ({
            let b = probe_taken(a, role, id, result);
            &&& b.coverage.requested_probes == a.coverage.requested_probes + 1
            &&& b.coverage.succeeded_probes == a.coverage.succeeded_probes + if result is Error {
                0int
            } else {
                1int
            }
            &&& b.preserved == a.preserved
            &&& b.likely == a.likely
            &&& result is Gone ==> b.deletes == a.deletes && b.expects == a.expects
                && b.unattributed == a.unattributed && b.errors == a.errors
            &&& result matches ProbeView::Error(e) ==> b.errors.len() == a.errors.len() + 1
                && b.errors.last().error == e && b.errors.last().namespace == (
            match id.namespace {
                Some(ns) => ns,
                None => "cluster"@,
            }) && b.deletes == a.deletes && b.expects == a.expects && b.unattributed
                == a.unattributed
            &&& result matches ProbeView::Present(uid) ==> {
                &&& role is Delete ==> b.deletes == a.deletes.push(
                    ResidualItemView {
                        resource: id,
                        planned_action: "DELETE"@,
                        live_uid: uid,
                        recreation: recreation_of(id.uid, uid),
                    },
                ) && b.expects == a.expects && b.unattributed == a.unattributed && b.errors
                    == a.errors
                &&& role is Expect ==> b.expects == a.expects.push(
                    ResidualItemView {
                        resource: id,
                        planned_action: "EXPECT-GONE"@,
                        live_uid: uid,
                        recreation: recreation_of(id.uid, uid),
                    },
                ) && b.deletes == a.deletes && b.unattributed == a.unattributed && b.errors
                    == a.errors
                &&& role is Related && uid is Some ==> b.unattributed.len() == a.unattributed.len()
                    + 1 && b.unattributed.last().resource == (ResourceIdView { uid, ..id })
                    && b.unattributed.last().confidence == ResidualConfidence::NoEvidence
                    && b.deletes == a.deletes && b.expects == a.expects && b.errors == a.errors
                &&& role is Related && uid is None ==> b.errors.len() == a.errors.len() + 1
                    && b.unattributed == a.unattributed && b.deletes == a.deletes && b.expects
                    == a.expects
            }
        }),
{
}

/// A list that could not be made is counted as a failure and noted as an error with
/// its kind and place; it adds nothing else. A list that was made is counted as a
/// success, and everything on it is looked at.
pub proof fn law_list_is_noted(
    a: AuditView,
    scope: ListScope,
    e: RequestError,
    items: Vec<LiveObject>,
    ctx: AuditContext,
    uids: KeySet<String>,
    planned: Seq<ResourceIdView>,
)
    requires
        a.coverage.requested_probes < usize::MAX,
        a.coverage.succeeded_probes <= a.coverage.requested_probes,
    ensures
        ({
            let b = list_taken(a, scope, Err(e), ctx, uids, planned);
            &&& b.coverage.requested_probes == a.coverage.requested_probes + 1
            &&& b.coverage.succeeded_probes == a.coverage.succeeded_probes
            &&& b.errors.len() == a.errors.len() + 1
            &&& b.errors.last().resource_type == scope.kind
            &&& b.errors.last().namespace == scope.namespace
            &&& b.likely == a.likely && b.unattributed == a.unattributed && b.deletes == a.deletes
                && b.expects == a.expects
        }),
        list_taken(a, scope, Ok(items), ctx, uids, planned)
            == crate::audit::attribution::objects_taken(
            (AuditView { coverage: counted(a.coverage, true), ..a }),
            items@,
            items@.len(),
            scope,
            ctx,
            uids,
            planned,
        ),
        counted(a.coverage, true).requested_probes == a.coverage.requested_probes + 1,
        counted(a.coverage, true).succeeded_probes == a.coverage.succeeded_probes + 1,
        counted(a.coverage, false).requested_probes == a.coverage.requested_probes + 1,
        counted(a.coverage, false).succeeded_probes == a.coverage.succeeded_probes,
{
}

/// A type of the operator is not listed exactly where the plan deletes the
/// CustomResourceDefinition with the name `plural.group`, and that one was not found.
pub proof fn law_pruned_type(
    g: KnownGvrView,
    actions: Seq<Action>,
    items: Seq<ResidualItemView>,
)
    ensures
        is_pruned(g, actions, items) <==> {
            let name = g.plural + "."@ + g.group;
            &&& exists|i: int|
                0 <= i < actions.len() && (#[trigger] actions[i] matches Action::Delete {
                    resource,
                    ..
                } && resource.kind@ == "CustomResourceDefinition"@ && resource.name@ == name)
            &&& forall|i: int|
                0 <= i < items.len() ==> !((#[trigger] items[i]).resource.kind
                    == "CustomResourceDefinition"@ && items[i].resource.name == name)
        },
{
    let name = g.plural + "."@ + g.group;
    if crate::audit::scan::deletes_crd(actions, name) {
        let i = choose|i: int|
            0 <= i < actions.len() && (#[trigger] actions[i]) is Delete && crate::audit::scan::is_crd(
                subject(actions[i])@,
                name,
            );
        assert(actions[i] matches Action::Delete { resource, .. } && resource.kind@
            == "CustomResourceDefinition"@ && resource.name@ == name);
    }
    if exists|i: int|
        0 <= i < actions.len() && (#[trigger] actions[i] matches Action::Delete { resource, .. }
            && resource.kind@ == "CustomResourceDefinition"@ && resource.name@ == name) {
        let i = choose|i: int|
            0 <= i < actions.len() && (#[trigger] actions[i] matches Action::Delete {
                resource,
                ..
            } && resource.kind@ == "CustomResourceDefinition"@ && resource.name@ == name);
        assert(crate::audit::scan::is_crd(subject(actions[i])@, name));
    }
    if crate::audit::scan::crd_found(items, name) {
        let i = choose|i: int|
            0 <= i < items.len() && crate::audit::scan::is_crd(
                (#[trigger] items[i]).resource,
                name,
            );
        assert(items[i].resource.kind == "CustomResourceDefinition"@);
    }
    if exists|i: int|
        0 <= i < items.len() && (#[trigger] items[i]).resource.kind == "CustomResourceDefinition"@
            && items[i].resource.name == name {
        let i = choose|i: int|
            0 <= i < items.len() && (#[trigger] items[i]).resource.kind
                == "CustomResourceDefinition"@ && items[i].resource.name == name;
        assert(crate::audit::scan::is_crd(items[i].resource, name));
    }
}

/// Every discovered type of the operator is dealt with. One whose definition was
/// pruned is noted, once. One that lives in namespaces is listed in each namespace of
/// the operator; one that does not is listed once, in the whole cluster.
pub proof fn law_types_of_the_operator_are_listed(
    g: KnownGvrView,
    pruned: bool,
    namespaces: Seq<String>,
    i: int,
)
    ensures
        pruned ==> gvr_steps(g, pruned, namespaces).len() == 1 && gvr_steps(
            g,
            pruned,
            namespaces,
        )[0] is Note,
        !pruned && g.scope == GvrScope::Cluster ==> gvr_steps(g, pruned, namespaces) == seq![
            StepView::List {
                target: TargetView {
                    group: g.group,
                    version: g.version,
                    kind: g.kind,
                    plural: g.plural,
                },
                namespace: None,
            },
        ],
        !pruned && g.scope == GvrScope::Namespaced ==> gvr_steps(g, pruned, namespaces).len()
            == namespaces.len(),
        !pruned && g.scope == GvrScope::Namespaced && 0 <= i < namespaces.len() ==> gvr_steps(
            g,
            pruned,
            namespaces,
        )[i] == (StepView::List {
            target: TargetView {
                group: g.group,
                version: g.version,
                kind: g.kind,
                plural: g.plural,
            },
            namespace: Some(namespaces[i]@),
        }),
{
    lemma_type_lists(
        target(g.group, g.version, g.kind, g.plural),
        namespaces,
        namespaces.len(),
    );
}

proof fn lemma_type_lists(t: TargetView, namespaces: Seq<String>, n: nat)
    requires
        n <= namespaces.len(),
    ensures
        type_lists(t, namespaces, n).len() == n,
        forall|i: int|
            0 <= i < n ==> #[trigger] type_lists(t, namespaces, n)[i] == (StepView::List {
                target: t,
                namespace: Some(namespaces[i]@),
            }),
    decreases n,
{
    if n > 0 {
        lemma_type_lists(t, namespaces, (n - 1) as nat);
    }
}

/// The steps for the discovered types come type by type, in their order: one more type
/// adds its steps at the end.
pub proof fn law_types_come_in_order(
    gvrs: Seq<KnownGvr>,
    n: nat,
    actions: Seq<Action>,
    items: Seq<ResidualItemView>,
    namespaces: Seq<String>,
)
    ensures
        gvrs_steps(gvrs, n + 1, actions, items, namespaces) == gvrs_steps(
            gvrs,
            n,
            actions,
            items,
            namespaces,
        ) + gvr_steps(gvrs[n as int]@, is_pruned(gvrs[n as int]@, actions, items), namespaces),
        gvrs_steps(gvrs, 0, actions, items, namespaces).len() == 0,
{
}

/// Whatever discovery did not know is noted: every owned CustomResourceDefinition and
/// every planned type that the journal names as unresolved, by name. Where the journal
/// does not say which were unresolved, or which types discovery knew, or which types an
/// operator with definitions owns, that is noted as well.
pub proof fn law_unresolved_types_are_noted(
    owns_crds: bool,
    actions: Seq<Action>,
    ctx: AuditContext,
    items: Seq<ResidualItemView>,
    i: int,
)
    ensures
        ctx.unresolved_crds matches Some(crds) ==> (0 <= i < crds@.len() ==> exists|k: int|
            0 <= k < last_steps(owns_crds, actions, ctx, items).len() && (#[trigger] last_steps(
                owns_crds,
                actions,
                ctx,
                items,
            )[k] matches StepView::Note(n) && n.resource_type == crds@[i]@)),
        ctx.unresolved_gvks matches Some(gvks) ==> (0 <= i < gvks@.len() ==> exists|k: int|
            0 <= k < last_steps(owns_crds, actions, ctx, items).len() && (#[trigger] last_steps(
                owns_crds,
                actions,
                ctx,
                items,
            )[k] matches StepView::Note(n) && n.resource_type == gvks@[i].0@ + "/"@ + gvks@[i].1@
                + "/"@ + gvks@[i].2@)),
        ctx.unresolved_gvks is None ==> exists|k: int|
            0 <= k < last_steps(owns_crds, actions, ctx, items).len() && (#[trigger] last_steps(
                owns_crds,
                actions,
                ctx,
                items,
            )[k] matches StepView::Note(n) && n.resource_type == "(plan GVK resolution)"@),
        ctx.known_gvrs is None ==> exists|k: int|
            0 <= k < last_steps(owns_crds, actions, ctx, items).len() && (#[trigger] last_steps(
                owns_crds,
                actions,
                ctx,
                items,
            )[k] matches StepView::Note(n) && n.resource_type == "(plan GVRs)"@),
        ctx.unresolved_crds is None && owns_crds ==> exists|k: int|
            0 <= k < last_steps(owns_crds, actions, ctx, items).len() && (#[trigger] last_steps(
                owns_crds,
                actions,
                ctx,
                items,
            )[k] matches StepView::Note(n) && n.resource_type == "(owned CRD resolution)"@),
        ctx.owned_cr_gvrs is None && owns_crds ==> exists|k: int|
            0 <= k < last_steps(owns_crds, actions, ctx, items).len() && (#[trigger] last_steps(
                owns_crds,
                actions,
                ctx,
                items,
            )[k] matches StepView::Note(n) && n.resource_type == "(owned CR APIs)"@),
{
    let all = last_steps(owns_crds, actions, ctx, items);
    let a = crate::audit::scan::owned_part(owns_crds, actions, ctx, items);
    let b = crd_part(owns_crds, ctx);
    let c = gvk_part(ctx);
    let d = crate::audit::scan::gvr_part(ctx);
    assert(all == a + b + c + d);
    assert(all.len() == a.len() + b.len() + c.len() + d.len());
    if ctx.owned_cr_gvrs is None && owns_crds {
        assert(all[0] == a[0]);
    }
    if ctx.unresolved_crds is None && owns_crds {
        assert(all[a.len() as int] == b[0]);
    }
    if let Some(crds) = ctx.unresolved_crds {
        if 0 <= i < crds@.len() {
            assert(all[a.len() + i] == b[i]);
        }
    }
    if ctx.unresolved_gvks is None {
        assert(all[(a.len() + b.len()) as int] == c[0]);
    }
    if let Some(gvks) = ctx.unresolved_gvks {
        if 0 <= i < gvks@.len() {
            assert(all[a.len() + b.len() + i] == c[i]);
        }
    }
    if ctx.known_gvrs is None {
        assert(all[(a.len() + b.len() + c.len()) as int] == d[0]);
    }
}

} // verus!
