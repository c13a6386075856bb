//! When an operator counts as absent, as the same installation or as a new one, and
//! what says which package a ClusterServiceVersion belongs to.

use vstd::prelude::*;
use vstd::string::*;

use crate::audit::generation::{
    answer_on_csvs, drift_of, first_drift, first_novelty, first_survival, in_baseline, live_name,
    novelty, observed, step_on_csv, step_on_csv_endpoint, step_on_deployment,
    step_on_deployment_endpoint, step_on_subscriptions, subscription_to, survival, with_uid,
    GenerationStepView, GenerationView, ScopeView,
};
use crate::audit::packages::{
    annotated_packages, annotation, belongs_elsewhere, belongs_only_to, belongs_to_package,
    csv_of_subscription, labels_name, holds_only, package_in_label, package_named, properties_in,
    property_package, sole_other, subscribed_from, unique,
};
use crate::cluster::{live_uid, GetReply, LiveObject, RequestError};
use crate::collections::KeySet;
use crate::journal::CsvBaselineEntry;
use crate::json::{field_of, json_shape, string_field_of, JsonShapeView};
use crate::plan::{ObservedResourceIdentity, OperatorIdentitySnapshot};
use crate::text::{law_begins_and_finishes, opt_text, text_or};

verus! {

proof fn lemma_with_uid(subs: Seq<LiveObject>, uid: Seq<char>, i: nat)
    ensures
        with_uid(subs, uid, i) is None <==> forall|k: int|
            i <= k < subs.len() ==> live_uid(#[trigger] subs[k]) != uid,
        with_uid(subs, uid, i) matches Some(x) ==> exists|k: int|
            i <= k < subs.len() && #[trigger] subs[k] == x && live_uid(x) == uid && forall|j: int|
                i <= j < k ==> live_uid(#[trigger] subs[j]) != uid,
    decreases subs.len() - i,
{
    if i < subs.len() {
        if live_uid(subs[i as int]) == uid {
            assert(subs[i as int] == with_uid(subs, uid, i)->0);
        } else {
            lemma_with_uid(subs, uid, i + 1);
            if let Some(x) = with_uid(subs, uid, i + 1) {
                let k = choose|k: int|
                    i + 1 <= k < subs.len() && #[trigger] subs[k] == x && live_uid(x) == uid
                        && forall|j: int|
                        i + 1 <= j < k ==> live_uid(#[trigger] subs[j]) != uid;
                assert(subs[k] == x);
            }
        }
    }
}

proof fn lemma_drift(
    saved: Seq<ObservedResourceIdentity>,
    subs: Seq<LiveObject>,
    package: Seq<char>,
    i: nat,
)
    ensures
        first_drift(saved, subs, package, i) is None <==> forall|k: int|
            i <= k < saved.len() ==> drift_of(#[trigger] saved[k], subs, package) is None,
    decreases saved.len() - i,
{
    if i < saved.len() {
        lemma_drift(saved, subs, package, i + 1);
        if drift_of(saved[i as int], subs, package) is None {
            if first_drift(saved, subs, package, i + 1) is None {
                assert forall|k: int| i <= k < saved.len() implies drift_of(
                    #[trigger] saved[k],
                    subs,
                    package,
                ) is None by {
                    if k > i {
                        assert(i + 1 <= k);
                    }
                }
            }
        }
    }
}

proof fn lemma_subscription(subs: Seq<LiveObject>, package: Seq<char>, i: nat)
    ensures
        subscription_to(subs, package, i) is None <==> forall|k: int|
            i <= k < subs.len() ==> opt_text((#[trigger] subs[k]).spec_name) != Some(package),
        subscription_to(subs, package, i) matches Some(x) ==> exists|k: int|
            i <= k < subs.len() && #[trigger] subs[k] == x && opt_text(x.spec_name) == Some(package)
                && forall|j: int|
                i <= j < k ==> opt_text((#[trigger] subs[j]).spec_name) != Some(package),
    decreases subs.len() - i,
{
    if i < subs.len() {
        if opt_text(subs[i as int].spec_name) == Some(package) {
            assert(subs[i as int] == subscription_to(subs, package, i)->0);
        } else {
            lemma_subscription(subs, package, i + 1);
            if let Some(x) = subscription_to(subs, package, i + 1) {
                let k = choose|k: int|
                    i + 1 <= k < subs.len() && #[trigger] subs[k] == x && opt_text(x.spec_name)
                        == Some(package) && forall|j: int|
                        i + 1 <= j < k ==> opt_text((#[trigger] subs[j]).spec_name) != Some(package);
                assert(subs[k] == x);
            }
        }
    }
}

/// Subscriptions that could not be listed leave everything open, and so does an
/// observed subscription that is there with another package.
pub proof fn law_subscriptions_that_leave_it_open(
    scope: ScopeView,
    saved: Seq<ObservedResourceIdentity>,
    subs: Vec<LiveObject>,
    e: RequestError,
    s: int,
    k: int,
)
    ensures
        step_on_subscriptions(scope, saved, Err(e)) matches GenerationStepView::Settled(x)
            && x is Unknown,
        0 <= s < saved.len() && 0 <= k < subs@.len() && opt_text(subs@[k].uid) == Some(
            saved[s].uid@,
        ) && opt_text(subs@[k].spec_name) != Some(scope.package) && (forall|j: int|
            0 <= j < k ==> opt_text((#[trigger] subs@[j]).uid) != Some(saved[s].uid@))
            && scope.package.len() > 0 && saved[s].uid@.len() > 0 ==> (step_on_subscriptions(
            scope,
            saved,
            Ok(subs),
        ) matches GenerationStepView::Settled(x) && x is Unknown),
{
    if 0 <= s < saved.len() && 0 <= k < subs@.len() && opt_text(subs@[k].uid) == Some(
        saved[s].uid@,
    ) && opt_text(subs@[k].spec_name) != Some(scope.package) && (forall|j: int|
        0 <= j < k ==> opt_text((#[trigger] subs@[j]).uid) != Some(saved[s].uid@))
        && scope.package.len() > 0 && saved[s].uid@.len() > 0 {
        lemma_with_uid(subs@, saved[s].uid@, 0);
        assert(live_uid(subs@[k]) == saved[s].uid@);
        let x = with_uid(subs@, saved[s].uid@, 0)->0;
        let c = choose|c: int|
            0 <= c < subs@.len() && #[trigger] subs@[c] == x && live_uid(x) == saved[s].uid@
                && forall|j: int|
                0 <= j < c ==> live_uid(#[trigger] subs@[j]) != saved[s].uid@;
        assert(opt_text(subs@[c].uid) == Some(saved[s].uid@));
        assert(c == k);
        assert(drift_of(saved[s], subs@, scope.package) is Some);
        lemma_drift(saved, subs@, scope.package, 0);
    }
}

/// Where no observed subscription has gone over to another package, the first
/// subscription to the package decides: under a UID that was observed it is the same
/// installation, under any other a new one. Where there is none, the
/// ClusterServiceVersion is looked at.
pub proof fn law_subscription_to_the_package(
    scope: ScopeView,
    saved: Seq<ObservedResourceIdentity>,
    subs: Vec<LiveObject>,
    k: int,
)
    requires
        forall|s: int, j: int|
            #![trigger saved[s], subs@[j]]
            0 <= s < saved.len() && 0 <= j < subs@.len() && live_uid(subs@[j]) == saved[s].uid@
                ==> opt_text(subs@[j].spec_name) == Some(scope.package),
    ensures
        0 <= k < subs@.len() && opt_text(subs@[k].spec_name) == Some(scope.package) && (forall|
            j: int,
        |
            0 <= j < k ==> opt_text((#[trigger] subs@[j]).spec_name) != Some(scope.package)) ==> {
            let same = exists|s: int|
                0 <= s < saved.len() && (#[trigger] saved[s]).uid@ == live_uid(subs@[k]);
            &&& same ==> step_on_subscriptions(scope, saved, Ok(subs))
                == GenerationStepView::Settled(GenerationView::SameGeneration)
            &&& !same ==> step_on_subscriptions(scope, saved, Ok(subs))
                == GenerationStepView::Settled(GenerationView::Reappeared)
        },
        (forall|j: int|
            0 <= j < subs@.len() ==> opt_text((#[trigger] subs@[j]).spec_name) != Some(
                scope.package,
            )) ==> step_on_subscriptions(scope, saved, Ok(subs)) is GetCsv,
{
    assert forall|s: int| 0 <= s < saved.len() implies drift_of(
        #[trigger] saved[s],
        subs@,
        scope.package,
    ) is None by {
        lemma_with_uid(subs@, saved[s].uid@, 0);
        if let Some(x) = with_uid(subs@, saved[s].uid@, 0) {
            let c = choose|c: int|
                0 <= c < subs@.len() && #[trigger] subs@[c] == x && live_uid(x) == saved[s].uid@
                    && forall|j: int|
                    0 <= j < c ==> live_uid(#[trigger] subs@[j]) != saved[s].uid@;
            assert(opt_text(subs@[c].spec_name) == Some(scope.package));
        }
    }
    lemma_drift(saved, subs@, scope.package, 0);
    lemma_subscription(subs@, scope.package, 0);
    if 0 <= k < subs@.len() && opt_text(subs@[k].spec_name) == Some(scope.package) && (forall|
        j: int,
    |
        0 <= j < k ==> opt_text((#[trigger] subs@[j]).spec_name) != Some(scope.package)) {
        let x = subscription_to(subs@, scope.package, 0)->0;
        let c = choose|c: int|
            0 <= c < subs@.len() && #[trigger] subs@[c] == x && opt_text(x.spec_name) == Some(
                scope.package,
            ) && forall|j: int|
                0 <= j < c ==> opt_text((#[trigger] subs@[j]).spec_name) != Some(scope.package);
        assert(c == k);
        assert(observed(saved, live_uid(subs@[k])) == exists|s: int|
            0 <= s < saved.len() && (#[trigger] saved[s]).uid@ == live_uid(subs@[k]));
    }
}

/// The ClusterServiceVersion, or a controller deployment, that is there is of the same
/// installation under the UID that was observed, and of a new one under any other.
/// Where it is not found, with 404, its endpoint is looked at. Any other failure
/// leaves everything open.
pub proof fn law_looks_at_the_installation(
    name: Seq<char>,
    saved: ObservedResourceIdentity,
    i: int,
    reply: GetReply,
)
    ensures
        reply matches GetReply::Found(o) ==> {
            let same = saved.uid@ == text_or(o.uid, seq![]);
            &&& same ==> step_on_csv(name, saved.uid@, reply) == GenerationStepView::Settled(
                GenerationView::SameGeneration,
            ) && step_on_deployment(saved, i, reply) == GenerationStepView::Settled(
                GenerationView::SameGeneration,
            )
            &&& !same ==> step_on_csv(name, saved.uid@, reply) == GenerationStepView::Settled(
                GenerationView::Reappeared,
            ) && step_on_deployment(saved, i, reply) == GenerationStepView::Settled(
                GenerationView::Reappeared,
            )
        },
        reply matches GetReply::Failed(RequestError::Status { code, .. }) ==> {
            let csv = step_on_csv(name, saved.uid@, reply);
            let deployment = step_on_deployment(saved, i, reply);
            &&& code == 404 <==> csv is VerifyCsvEndpoint
            &&& code == 404 <==> deployment == GenerationStepView::VerifyDeploymentEndpoint(i)
            &&& code != 404 ==> csv is Settled && csv->Settled_0 is Unknown
            &&& code != 404 ==> deployment is Settled && deployment->Settled_0 is Unknown
        },
        reply matches GetReply::Failed(RequestError::Other { .. }) ==> {
            let csv = step_on_csv(name, saved.uid@, reply);
            let deployment = step_on_deployment(saved, i, reply);
            &&& csv is Settled && csv->Settled_0 is Unknown
            &&& deployment is Settled && deployment->Settled_0 is Unknown
        },
{
}

/// With an endpoint there, the next deployment is looked at; behind the last, the
/// ClusterServiceVersions are listed, but only where it is known which were there
/// before the run. With an endpoint not there, or without that knowledge, everything
/// is open.
pub proof fn law_looks_go_on(
    snapshot: OperatorIdentitySnapshot,
    i: int,
    has_baseline: bool,
    ok: bool,
)
    requires
        0 <= i < snapshot.controller_deployments@.len(),
    ensures
        ({
            let n = snapshot.controller_deployments@.len();
            let first = step_on_csv_endpoint(n, has_baseline, ok);
            let next = step_on_deployment_endpoint(snapshot, i, has_baseline, ok);
            &&& ok ==> first == GenerationStepView::GetDeployment(0)
            &&& ok && i + 1 < n ==> next == GenerationStepView::GetDeployment(i + 1)
            &&& ok && i + 1 == n && has_baseline ==> next is ListCsvs
            &&& ok && i + 1 == n && !has_baseline ==> next is Settled && next->Settled_0 is Unknown
            &&& !ok ==> first is Settled && first->Settled_0 is Unknown
            &&& !ok ==> next is Settled && next->Settled_0 is Unknown
            &&& ok && has_baseline ==> step_on_csv_endpoint(0, has_baseline, ok) is ListCsvs
            &&& ok && !has_baseline ==> step_on_csv_endpoint(0, has_baseline, ok) is Settled
        }),
{
}

proof fn lemma_novelty(
    csvs: Seq<LiveObject>,
    baseline: Seq<CsvBaselineEntry>,
    namespace: Seq<char>,
    i: nat,
)
    ensures
        first_novelty(csvs, baseline, namespace, i) is None <==> forall|k: int|
            i <= k < csvs.len() ==> novelty(#[trigger] csvs[k], baseline, namespace) is None,
    decreases csvs.len() - i,
{
    if i < csvs.len() {
        lemma_novelty(csvs, baseline, namespace, i + 1);
        if novelty(csvs[i as int], baseline, namespace) is None && first_novelty(
            csvs,
            baseline,
            namespace,
            i + 1,
        ) is None {
            assert forall|k: int| i <= k < csvs.len() implies novelty(
                #[trigger] csvs[k],
                baseline,
                namespace,
            ) is None by {
                if k > i {
                    assert(i + 1 <= k);
                }
            }
        }
    }
}

proof fn lemma_survival(
    csvs: Seq<LiveObject>,
    subs: Seq<LiveObject>,
    scope: ScopeView,
    csv_name: Seq<char>,
    i: nat,
)
    ensures
        first_survival(csvs, subs, scope, csv_name, i) is None <==> forall|k: int|
            i <= k < csvs.len() ==> survival(#[trigger] csvs[k], subs, scope, csv_name) is None,
    decreases csvs.len() - i,
{
    if i < csvs.len() {
        lemma_survival(csvs, subs, scope, csv_name, i + 1);
        if survival(csvs[i as int], subs, scope, csv_name) is None && first_survival(
            csvs,
            subs,
            scope,
            csv_name,
            i + 1,
        ) is None {
            assert forall|k: int| i <= k < csvs.len() implies survival(
                #[trigger] csvs[k],
                subs,
                scope,
                csv_name,
            ) is None by {
                if k > i {
                    assert(i + 1 <= k);
                }
            }
        }
    }
}

/// The list of ClusterServiceVersions shows the operator absent exactly where it was
/// read, and each of them has a name and a UID, was there before the run under both,
/// and either has the name of the operator's own or belongs to one other package.
/// Otherwise everything is open.
pub proof fn law_list_shows_absence(
    scope: ScopeView,
    csv_name: Seq<char>,
    baseline: Seq<CsvBaselineEntry>,
    subs: Seq<LiveObject>,
    csvs: Vec<LiveObject>,
    e: RequestError,
)
    ensures
        answer_on_csvs(scope, csv_name, baseline, subs, Err(e)) is Unknown,
        answer_on_csvs(scope, csv_name, baseline, subs, Ok(csvs)) is Absent || answer_on_csvs(
            scope,
            csv_name,
            baseline,
            subs,
            Ok(csvs),
        ) is Unknown,
        answer_on_csvs(scope, csv_name, baseline, subs, Ok(csvs)) is Absent <==> forall|k: int|
            0 <= k < csvs@.len() ==> {
                let c = #[trigger] csvs@[k];
                let name = text_or(c.name, seq![]);
                let uid = text_or(c.uid, seq![]);
                &&& name.len() > 0
                &&& uid.len() > 0
                &&& exists|b: int|
                    0 <= b < baseline.len() && (#[trigger] baseline[b]).name@ == name
                        && baseline[b].uid@ == uid
                &&& name == csv_name || belongs_elsewhere(c, subs, scope.namespace, scope.package)
            },
{
    let list = csvs@;
    lemma_novelty(list, baseline, scope.namespace, 0);
    lemma_survival(list, subs, scope, csv_name, 0);
    if answer_on_csvs(scope, csv_name, baseline, subs, Ok(csvs)) is Absent {
        assert forall|k: int| 0 <= k < list.len() implies {
            let c = #[trigger] csvs@[k];
            let name = text_or(c.name, seq![]);
            let uid = text_or(c.uid, seq![]);
            &&& name.len() > 0
            &&& uid.len() > 0
            &&& exists|b: int|
                0 <= b < baseline.len() && (#[trigger] baseline[b]).name@ == name
                    && baseline[b].uid@ == uid
            &&& name == csv_name || belongs_elsewhere(c, subs, scope.namespace, scope.package)
        } by {
            assert(novelty(list[k], baseline, scope.namespace) is None);
            assert(survival(list[k], subs, scope, csv_name) is None);
            assert(in_baseline(baseline, live_name(list[k]), live_uid(list[k])));
        }
    }
    if forall|k: int|
        0 <= k < csvs@.len() ==> {
            let c = #[trigger] csvs@[k];
            let name = text_or(c.name, seq![]);
            let uid = text_or(c.uid, seq![]);
            &&& name.len() > 0
            &&& uid.len() > 0
            &&& exists|b: int|
                0 <= b < baseline.len() && (#[trigger] baseline[b]).name@ == name
                    && baseline[b].uid@ == uid
            &&& name == csv_name || belongs_elsewhere(c, subs, scope.namespace, scope.package)
        } {
        assert forall|k: int| 0 <= k < list.len() implies novelty(
            #[trigger] list[k],
            baseline,
            scope.namespace,
        ) is None && survival(list[k], subs, scope, csv_name) is None by {
            let c = csvs@[k];
            let b = choose|b: int|
                0 <= b < baseline.len() && (#[trigger] baseline[b]).name@ == text_or(
                    c.name,
                    seq![],
                ) && baseline[b].uid@ == text_or(c.uid, seq![]);
            assert(in_baseline(baseline, live_name(list[k]), live_uid(list[k])));
        }
    }
}

/// A label key names a package exactly where it is `operators.coreos.com/`, the
/// package, a dot and the namespace; the package is then not empty.
pub proof fn law_package_in_a_label(key: Seq<char>, namespace: Seq<char>, p: Seq<char>)
    ensures
        package_in_label(key, namespace) == Some(p) <==> p.len() > 0 && key
            == "operators.coreos.com/"@ + p + "."@ + namespace,
{
    let prefix = "operators.coreos.com/"@;
    let suffix = "."@ + namespace;
    let rest = key.skip(prefix.len() as int);
    reveal_strlit(".");
    if p.len() > 0 && key == prefix + p + "."@ + namespace {
        assert(key =~= prefix + (p + suffix));
        law_begins_and_finishes(key, prefix, p + suffix);
        assert(rest =~= p + suffix);
        law_begins_and_finishes(rest, suffix, p);
        assert(rest.take(rest.len() - suffix.len()) =~= p);
    }
    if package_in_label(key, namespace) == Some(p) {
        assert(key.take(prefix.len() as int) == prefix);
        assert(rest.skip(rest.len() - suffix.len()) == suffix);
        assert(rest.take(rest.len() - suffix.len()) == p);
        assert(rest =~= p + suffix);
        assert(key =~= prefix + rest);
        assert(prefix + (p + suffix) =~= prefix + p + "."@ + namespace);
    }
}

/// A subscription stands for the ClusterServiceVersion that it has installed; where
/// that is absent or empty, for the one that it is about to install; where that is
/// too, for none.
pub proof fn law_version_of_a_subscription(sub: LiveObject)
    ensures
        sub.installed_csv is Some && sub.installed_csv->0@.len() > 0 ==> csv_of_subscription(sub)
            == Some(sub.installed_csv->0@),
        (sub.installed_csv is None || sub.installed_csv->0@.len() == 0) && sub.current_csv is Some
            && sub.current_csv->0@.len() > 0 ==> csv_of_subscription(sub) == Some(
            sub.current_csv->0@,
        ),
        (sub.installed_csv is None || sub.installed_csv->0@.len() == 0) && (sub.current_csv is None
            || sub.current_csv->0@.len() == 0) ==> csv_of_subscription(sub) is None,
{
}

/// A ClusterServiceVersion belongs to a package where a subscription to the package
/// stands for it, where one of its labels names the package in its own namespace, or
/// where its properties name it; and nowhere else.
pub proof fn law_what_ties_to_a_package(
    csv: LiveObject,
    subs: Seq<LiveObject>,
    namespace: Seq<char>,
    t: Seq<char>,
)
    ensures
        belongs_to_package(csv, subs, namespace, t) <==> {
            ||| exists|i: int|
                0 <= i < subs.len() && csv_of_subscription(#[trigger] subs[i]) == Some(
                    text_or(csv.name, seq![]),
                ) && opt_text(subs[i].spec_name) == Some(t)
            ||| exists|i: int|
                0 <= i < csv.labels@.len() && t.len() > 0 && (#[trigger] csv.labels@[i]).0@
                    == "operators.coreos.com/"@ + t + "."@ + (match csv.namespace {
                    Some(ns) => ns@,
                    None => namespace,
                })
            ||| annotated_packages(csv.annotations@).contains(t)
        },
{
    let ns = text_or(csv.namespace, namespace);
    assert(subscribed_from(subs, text_or(csv.name, seq![]), t) == exists|i: int|
        0 <= i < subs.len() && csv_of_subscription(#[trigger] subs[i]) == Some(
            text_or(csv.name, seq![]),
        ) && opt_text(subs[i].spec_name) == Some(t));
    assert forall|i: int| 0 <= i < csv.labels@.len() implies (package_in_label(
        (#[trigger] csv.labels@[i]).0@,
        ns,
    ) == Some(t)) == (t.len() > 0 && csv.labels@[i].0@ == "operators.coreos.com/"@ + t + "."@
        + ns) by {
        law_package_in_a_label(csv.labels@[i].0@, ns, t);
    }
    if labels_name(csv.labels@, ns, t) {
        let i = choose|i: int|
            0 <= i < csv.labels@.len() && package_in_label((#[trigger] csv.labels@[i]).0@, ns)
                == Some(t);
        assert(csv.labels@[i].0@ == "operators.coreos.com/"@ + t + "."@ + ns);
    }
}

/// A ClusterServiceVersion belongs elsewhere exactly where it belongs to one package
/// and to no second one, and that one is not the target. One that belongs to no
/// package does not belong elsewhere.
pub proof fn law_belonging_elsewhere(
    csv: LiveObject,
    subs: Seq<LiveObject>,
    namespace: Seq<char>,
    target: Seq<char>,
    p: Seq<char>,
    q: Seq<char>,
)
    ensures
        belongs_to_package(csv, subs, namespace, target) ==> !belongs_elsewhere(
            csv,
            subs,
            namespace,
            target,
        ),
        belongs_to_package(csv, subs, namespace, p) && belongs_to_package(csv, subs, namespace, q)
            && p != q ==> !belongs_elsewhere(csv, subs, namespace, target),
        (forall|t: Seq<char>| !#[trigger] belongs_to_package(csv, subs, namespace, t))
            ==> !belongs_elsewhere(csv, subs, namespace, target),
        p != target && belongs_to_package(csv, subs, namespace, p) && (forall|t: Seq<char>|
            #[trigger] belongs_to_package(csv, subs, namespace, t) ==> t == p)
            ==> belongs_elsewhere(csv, subs, namespace, target),
{
    if belongs_elsewhere(csv, subs, namespace, target) {
        let x = choose|x: Seq<char>|
            x != target && #[trigger] belongs_only_to(csv, subs, namespace, x);
        assert(belongs_to_package(csv, subs, namespace, x));
        assert(belongs_to_package(csv, subs, namespace, p) ==> p == x);
        assert(belongs_to_package(csv, subs, namespace, q) ==> q == x);
    }
    if p != target && belongs_to_package(csv, subs, namespace, p) && (forall|t: Seq<char>|
        #[trigger] belongs_to_package(csv, subs, namespace, t) ==> t == p) {
        assert(belongs_only_to(csv, subs, namespace, p));
    }
}

/// A property names a package only where its type is `olm.package`.
pub proof fn law_property_of_a_package(kind: Option<Seq<char>>, package: Option<Seq<char>>)
    ensures
        kind == Some("olm.package"@) ==> package_named(kind, package) == package,
        kind != Some("olm.package"@) ==> package_named(kind, package) is None,
{
}

/// An annotation is the first value under its key.
pub proof fn law_first_annotation(pairs: Seq<(String, String)>, key: Seq<char>, i: nat, k: int)
    requires
        i <= k < pairs.len(),
        pairs[k].0@ == key,
        forall|j: int| i <= j < k ==> (#[trigger] pairs[j]).0@ != key,
    ensures
        annotation(pairs, key, i) == Some(pairs[k].1@),
    decreases pairs.len() - i,
{
    if i < k {
        assert(pairs[i as int].0@ != key);
        law_first_annotation(pairs, key, i + 1, k);
    }
}

/// A list without repetitions holds everything that the list held, each once.
pub proof fn law_unique(s: Seq<Seq<char>>, t: Seq<char>)
    ensures
        unique(s).contains(t) <==> s.contains(t),
        unique(s).no_duplicates(),
    decreases s.len(),
{
    if s.len() > 0 {
        let d = s.drop_last();
        law_unique(d, t);
        let front = unique(d);
        if s.contains(t) {
            let k = choose|k: int| 0 <= k < s.len() && s[k] == t;
            if k < d.len() {
                assert(d[k] == t);
                let m = choose|m: int| 0 <= m < front.len() && front[m] == t;
                assert(unique(s)[m] == t);
            } else if front.contains(s.last()) {
                assert(front.contains(t));
            } else {
                assert(unique(s)[front.len() as int] == t);
            }
        }
        if unique(s).contains(t) {
            let m = choose|m: int| 0 <= m < unique(s).len() && unique(s)[m] == t;
            if m < front.len() {
                assert(front[m] == t);
                let k = choose|k: int| 0 <= k < d.len() && d[k] == t;
                assert(s[k] == t);
            } else {
                assert(s[s.len() - 1] == t);
            }
        }
        if !front.contains(s.last()) {
            assert forall|a: int, b: int|
                0 <= a < unique(s).len() && 0 <= b < unique(s).len() && a != b implies unique(s)[a]
                != unique(s)[b] by {
                if a == front.len() {
                    assert(front.contains(front[b]));
                } else if b == front.len() {
                    assert(front.contains(front[a]));
                }
            }
        }
    }
}

/// A set of packages names one other package alone exactly where it holds one package,
/// and that is not the target.
pub proof fn law_one_other_package(packages: KeySet<String>, target: Seq<char>, p: Seq<char>)
    ensures
        sole_other(packages, target) ==> !packages.has(target),
        packages.has(p) && p != target && (forall|t: Seq<char>| #[trigger]
            packages.has(t) ==> t == p) ==> sole_other(packages, target),
        (forall|t: Seq<char>| !#[trigger] packages.has(t)) ==> !sole_other(packages, target),
        sole_other(packages, target) && packages.has(p) ==> forall|t: Seq<char>| #[trigger]
            packages.has(t) ==> t == p,
{
    if sole_other(packages, target) {
        let x = choose|x: Seq<char>| x != target && #[trigger] holds_only(packages, x);
        assert(packages.has(x));
        assert(packages.has(target) ==> target == x);
        assert(packages.has(p) ==> p == x);
    }
    if packages.has(p) && p != target && (forall|t: Seq<char>| #[trigger]
        packages.has(t) ==> t == p) {
        assert(holds_only(packages, p));
    }
}

/// A property names the package under `packageName` of its `value`, where its `type` is
/// `olm.package`; the value may be written out as JSON in a string. The properties of an
/// annotation are its elements where it is an array, and those of the array under
/// `properties` where it is an object.
pub proof fn law_package_of_a_property(text: Seq<char>, v: Seq<char>)
    ensures
        field_of(json_shape(text), "value"@) == Some(v) ==> {
            let value = match json_shape(v) {
                Some(JsonShapeView::Text(inner)) => json_shape(inner),
                s => s,
            };
            property_package(text) == if string_field_of(json_shape(text), "type"@) == Some(
                "olm.package"@,
            ) {
                string_field_of(value, "packageName"@)
            } else {
                None
            }
        },
        field_of(json_shape(text), "value"@) is None ==> property_package(text) is None,
        json_shape(text) matches Some(JsonShapeView::Array(a)) ==> properties_in(text) == a,
        json_shape(text) matches Some(JsonShapeView::Object(m)) ==> (field_of(
            json_shape(text),
            "properties"@,
        ) matches Some(p) ==> (json_shape(p) matches Some(JsonShapeView::Array(a))
            ==> properties_in(text) == a)),
        json_shape(text) is None ==> properties_in(text).len() == 0,
{
}

} // verus!
