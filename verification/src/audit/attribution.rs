//! What ties an object to an operator, and how firmly.

use vstd::prelude::*;

use vstd::string::*;

use crate::audit::{
    pair_texts, push_error, push_likely, push_unattributed, AttributedResidual, AttributedView,
    AuditView, EvidenceView, ResidualAudit, ResidualConfidence, ResidualEvidence, ScanErrorView,
};
use crate::cluster::{LiveObject, OwnerReference};
use crate::collections::KeySet;
use crate::executor::defer::{any_same_slot, has_same_slot};
use crate::journal::AuditContext;
use crate::lists::{ids, lemma_contains_add, lemma_pick_members, lemma_pick_take, pick};
use crate::resource::{same_slot, ResourceId, ResourceIdView};
use crate::text::{
    before_first, contains, copy_opt, has, head_of, law_head_of, law_occurs, lemma_has_text, occurs,
    opt_text, push_text, texts,
};

verus! {

/// The confidence that evidence gives: high for an owner reference to the
/// operator, or for its service account and manager together; medium for manager
/// and label together; low for one of the two; none otherwise.
pub open spec fn confidence_of(e: EvidenceView) -> ResidualConfidence {
    let managers = e.matching_managers.len() > 0;
    let labels = e.matching_labels.len() > 0;
    if e.owner_ref_match || (e.service_account_match && managers) {
        ResidualConfidence::High
    } else if managers && labels {
        ResidualConfidence::Medium
    } else if managers || labels {
        ResidualConfidence::Low
    } else {
        ResidualConfidence::NoEvidence
    }
}

/// The confidence that evidence gives.
pub fn compute_confidence(evidence: &ResidualEvidence) -> (r: ResidualConfidence)
    ensures
        r == confidence_of(evidence@),
{
    assert(evidence@.matching_managers.len() == evidence.matching_managers@.len());
    assert(evidence@.matching_labels.len() == evidence.matching_labels@.len());
    if evidence.owner_ref_match {
        return ResidualConfidence::High;
    }
    let managers = evidence.matching_managers.len() > 0;
    let labels = evidence.matching_labels.len() > 0;
    if evidence.service_account_match && managers {
        ResidualConfidence::High
    } else if managers && labels {
        ResidualConfidence::Medium
    } else if managers || labels {
        ResidualConfidence::Low
    } else {
        ResidualConfidence::NoEvidence
    }
}

/// What one ClusterServiceVersion is called by in labels and managers: its name up
/// to the first dot.
pub open spec fn stem(csv_name: Seq<char>) -> Seq<char> {
    head_of(csv_name, '.')
}

/// The label speaks of the stem, in its key or in its value.
pub open spec fn label_match(
    l: (String, String),
    stem: Seq<char>,
) -> Option<(Seq<char>, Seq<char>)> {
    if occurs(l.0@, stem) || occurs(l.1@, stem) {
        Some((l.0@, l.1@))
    } else {
        None
    }
}

/// The labels that speak of one of the first `n` ClusterServiceVersions.
pub open spec fn labels_seen(labels: Seq<(String, String)>, csvs: Seq<String>, n: nat) -> Seq<
    (Seq<char>, Seq<char>),
>
    decreases n,
{
    if n == 0 {
        seq![]
    } else {
        labels_seen(labels, csvs, (n - 1) as nat) + pick(
            labels,
            |l: (String, String)| label_match(l, stem(csvs[n - 1]@)),
        )
    }
}

/// `acc` with the manager behind it, once for each of the first `n` deployments
/// that it speaks of.
pub open spec fn by_deployments(
    acc: Seq<Seq<char>>,
    manager: Seq<char>,
    deployments: Seq<String>,
    n: nat,
) -> Seq<Seq<char>>
    decreases n,
{
    if n == 0 {
        acc
    } else {
        let before = by_deployments(acc, manager, deployments, (n - 1) as nat);
        if occurs(manager, deployments[n - 1]@) {
            before.push(manager)
        } else {
            before
        }
    }
}

/// `acc` with the manager behind it, where it speaks of one of the first `n`
/// ClusterServiceVersions and is not there yet.
pub open spec fn by_versions(
    acc: Seq<Seq<char>>,
    manager: Seq<char>,
    csvs: Seq<String>,
    n: nat,
) -> Seq<Seq<char>>
    decreases n,
{
    if n == 0 {
        acc
    } else {
        let before = by_versions(acc, manager, csvs, (n - 1) as nat);
        if occurs(manager, stem(csvs[n - 1]@)) && !before.contains(manager) {
            before.push(manager)
        } else {
            before
        }
    }
}

/// Those of the first `n` managers that speak of the operator.
pub open spec fn managers_seen(
    managers: Seq<String>,
    deployments: Seq<String>,
    csvs: Seq<String>,
    n: nat,
) -> Seq<Seq<char>>
    decreases n,
{
    if n == 0 {
        seq![]
    } else {
        let m = managers[n - 1]@;
        let before = managers_seen(managers, deployments, csvs, (n - 1) as nat);
        by_versions(
            by_deployments(before, m, deployments, deployments.len()),
            m,
            csvs,
            csvs.len(),
        )
    }
}

/// The object is owned by one of `uids`.
pub open spec fn is_owned_by(owners: Seq<OwnerReference>, uids: KeySet<String>) -> bool {
    exists|i: int| 0 <= i < owners.len() && uids.has((#[trigger] owners[i]).uid@)
}

/// The service account of an object: that of its pod template, or its own.
pub open spec fn account_of(o: LiveObject) -> Option<Seq<char>> {
    match o.template_service_account {
        Some(s) => Some(s@),
        None => opt_text(o.service_account),
    }
}

/// What ties an object to the operator.
pub open spec fn evidence_of(
    o: LiveObject,
    ctx: AuditContext,
    uids: KeySet<String>,
) -> EvidenceView {
    EvidenceView {
        owner_ref_match: is_owned_by(o.owner_references@, uids),
        matching_labels: labels_seen(
            o.labels@,
            ctx.csv_names.order(),
            ctx.csv_names.order().len(),
        ),
        matching_managers: managers_seen(
            o.managers@,
            ctx.controller_deployment_names.order(),
            ctx.csv_names.order(),
            o.managers@.len(),
        ),
        namespace_affinity: true,
        service_account_match: match account_of(o) {
            Some(s) => ctx.service_account_names.has(s),
            None => false,
        },
    }
}

fn owned_by(owners: &Vec<OwnerReference>, uids: &KeySet<String>) -> (r: bool)
    ensures
        r == is_owned_by(owners@, *uids),
{
    for i in 0..owners.len()
        invariant
            forall|k: int| 0 <= k < i ==> !uids.has((#[trigger] owners@[k]).uid@),
    {
        if uids.contains(&owners[i].uid) {
            assert(uids.has(owners@[i as int].uid@));
            return true;
        }
    }
    false
}

fn collect_labels(labels: &Vec<(String, String)>, csvs: &Vec<String>) -> (r: Vec<(String, String)>)
    ensures
        pair_texts(r@) == labels_seen(labels@, csvs@, csvs@.len()),
{
    let mut out: Vec<(String, String)> = Vec::new();
    assert(pair_texts(out@) =~= seq![]);
    for i in 0..csvs.len()
        invariant
            pair_texts(out@) == labels_seen(labels@, csvs@, i as nat),
    {
        let prefix = before_first(csvs[i].as_str(), '.');
        let ghost before = pair_texts(out@);
        let ghost f = |l: (String, String)| label_match(l, stem(csvs@[i as int]@));
        assert(labels@.take(0) =~= seq![]);
        assert(before + seq![] =~= before);
        for j in 0..labels.len()
            invariant
                prefix@ == stem(csvs@[i as int]@),
                f == (|l: (String, String)| label_match(l, stem(csvs@[i as int]@))),
                pair_texts(out@) == before + pick(labels@.take(j as int), f),
        {
            proof {
                lemma_pick_take(labels@, f, j as int);
            }
            let ghost part = pick(labels@.take(j as int), f);
            let l: &(String, String) = &labels[j];
            if contains(l.0.as_str(), prefix.as_str()) || contains(l.1.as_str(), prefix.as_str()) {
                let ghost list = out@;
                out.push((l.0.clone(), l.1.clone()));
                assert(pair_texts(out@) =~= pair_texts(list).push((l.0@, l.1@)));
                assert((before + part).push((l.0@, l.1@)) =~= before + part.push((l.0@, l.1@)));
            }
        }
        assert(labels@.take(labels@.len() as int) =~= labels@);
    }
    out
}

fn collect_managers(
    managers: &Vec<String>,
    deployments: &Vec<String>,
    csvs: &Vec<String>,
) -> (r: Vec<
    String,
>)
    ensures
        texts(r@) == managers_seen(managers@, deployments@, csvs@, managers@.len()),
{
    let mut out: Vec<String> = Vec::new();
    assert(texts(out@) =~= seq![]);
    for i in 0..managers.len()
        invariant
            texts(out@) == managers_seen(managers@, deployments@, csvs@, i as nat),
    {
        let m: &String = &managers[i];
        let ghost acc = texts(out@);
        for j in 0..deployments.len()
            invariant
                texts(out@) == by_deployments(acc, m@, deployments@, j as nat),
        {
            if contains(m.as_str(), deployments[j].as_str()) {
                push_text(&mut out, m.clone());
            }
        }
        let ghost mid = texts(out@);
        for j in 0..csvs.len()
            invariant
                texts(out@) == by_versions(mid, m@, csvs@, j as nat),
        {
            let prefix = before_first(csvs[j].as_str(), '.');
            proof {
                lemma_has_text(out@, m@);
            }
            let known = has(&out, m.as_str());
            if contains(m.as_str(), prefix.as_str()) && !known {
                push_text(&mut out, m.clone());
            }
        }
    }
    out
}

/// What ties an object to the operator: an owner among `target_uids`, labels and
/// managers that speak of the operator's versions and deployments, and its service
/// accounts.
pub fn classify_evidence(obj: &LiveObject, ctx: &AuditContext, target_uids: &KeySet<String>) -> (r:
    ResidualEvidence)
    ensures
        r@ == evidence_of(*obj, *ctx, *target_uids),
{
    let csvs: &Vec<String> = ctx.csv_names.as_vec();
    let account = match &obj.template_service_account {
        Some(s) => Some(s),
        None => match &obj.service_account {
            Some(s) => Some(s),
            None => None,
        },
    };
    let service_account_match = match account {
        Some(s) => ctx.service_account_names.contains(s),
        None => false,
    };
    ResidualEvidence {
        owner_ref_match: owned_by(&obj.owner_references, target_uids),
        matching_labels: collect_labels(&obj.labels, csvs),
        matching_managers: collect_managers(
            &obj.managers,
            ctx.controller_deployment_names.as_vec(),
            csvs,
        ),
        namespace_affinity: true,
        service_account_match,
    }
}

/// The kind of objects that a list is of, and where it was made.
pub struct ListScope {
    pub group: Seq<char>,
    pub version: Seq<char>,
    pub kind: Seq<char>,
    pub namespace: Seq<char>,
}

/// An audit with one more error.
pub open spec fn with_error(a: AuditView, scope: ListScope, error: Seq<char>) -> AuditView {
    AuditView {
        errors: a.errors.push(
            ScanErrorView { resource_type: scope.kind, namespace: scope.namespace, error },
        ),
        ..a
    }
}

/// An audit after it has looked at one listed object: objects of the plan are
/// passed over, others are attributed by their evidence, and what has no name or
/// no UID is an error.
pub open spec fn object_taken(
    a: AuditView,
    o: LiveObject,
    scope: ListScope,
    ctx: AuditContext,
    uids: KeySet<String>,
    planned: Seq<ResourceIdView>,
) -> AuditView {
    match o.name {
        None => with_error(a, scope, "Object found without metadata.name — identity unknown"@),
        Some(name) => {
            let id = ResourceIdView {
                group: scope.group,
                version: scope.version,
                kind: scope.kind,
                namespace: opt_text(o.namespace),
                name: name@,
                uid: opt_text(o.uid),
            };
            let b = if o.uid is None {
                with_error(
                    a,
                    scope,
                    scope.kind + "/"@ + name@ + " has no UID — identity unverifiable"@,
                )
            } else {
                a
            };
            if any_same_slot(planned, id) {
                b
            } else {
                let evidence = evidence_of(o, ctx, uids);
                let found = AttributedView {
                    resource: id,
                    evidence,
                    confidence: confidence_of(evidence),
                };
                if confidence_of(evidence) == ResidualConfidence::NoEvidence {
                    AuditView { unattributed: b.unattributed.push(found), ..b }
                } else {
                    AuditView { likely: b.likely.push(found), ..b }
                }
            }
        },
    }
}

/// An audit after it has looked at the first `n` listed objects.
pub open spec fn objects_taken(
    a: AuditView,
    items: Seq<LiveObject>,
    n: nat,
    scope: ListScope,
    ctx: AuditContext,
    uids: KeySet<String>,
    planned: Seq<ResourceIdView>,
) -> AuditView
    decreases n,
{
    if n == 0 {
        a
    } else {
        object_taken(
            objects_taken(a, items, (n - 1) as nat, scope, ctx, uids, planned),
            items[n - 1],
            scope,
            ctx,
            uids,
            planned,
        )
    }
}

/// Looks at the objects of a list: passes over those of the plan, and attributes
/// the others.
pub fn classify_list_results(
    items: &Vec<LiveObject>,
    kind: &str,
    group: &str,
    version: &str,
    namespace: &str,
    ctx: &AuditContext,
    target_uids: &KeySet<String>,
    plan_resources: &Vec<ResourceId>,
    audit: &mut ResidualAudit,
)
    ensures
        final(audit)@ == objects_taken(
            old(audit)@,
            items@,
            items@.len(),
            (ListScope { group: group@, version: version@, kind: kind@, namespace: namespace@ }),
            *ctx,
            *target_uids,
            ids(plan_resources@),
        ),
{
    let ghost scope = ListScope {
        group: group@,
        version: version@,
        kind: kind@,
        namespace: namespace@,
    };
    let ghost planned = ids(plan_resources@);
    for i in 0..items.len()
        invariant
            scope == (ListScope {
                group: group@,
                version: version@,
                kind: kind@,
                namespace: namespace@,
            }),
            planned == ids(plan_resources@),
            audit@ == objects_taken(
                old(audit)@,
                items@,
                i as nat,
                scope,
                *ctx,
                *target_uids,
                planned,
            ),
    {
        let o: &LiveObject = &items[i];
        match &o.name {
            None => {
                push_error(
                    audit,
                    kind.to_owned(),
                    namespace.to_owned(),
                    "Object found without metadata.name — identity unknown".to_owned(),
                );
            },
            Some(name) => {
                if o.uid.is_none() {
                    push_error(
                        audit,
                        kind.to_owned(),
                        namespace.to_owned(),
                        kind.to_owned().concat("/").concat(name.as_str()).concat(
                            " has no UID — identity unverifiable",
                        ),
                    );
                }
                let rid = ResourceId {
                    group: group.to_owned(),
                    version: version.to_owned(),
                    kind: kind.to_owned(),
                    namespace: copy_opt(&o.namespace),
                    name: name.clone(),
                    uid: copy_opt(&o.uid),
                };
                if !has_same_slot(plan_resources, &rid) {
                    let evidence = classify_evidence(o, ctx, target_uids);
                    let confidence = compute_confidence(&evidence);
                    let found = AttributedResidual { resource: rid, evidence, confidence };
                    if confidence == ResidualConfidence::NoEvidence {
                        push_unattributed(audit, found);
                    } else {
                        push_likely(audit, found);
                    }
                }
            },
        }
    }
}

/// Being in a namespace of the operator ties nothing to it.
pub proof fn law_namespace_is_no_evidence(e: EvidenceView, affinity: bool)
    ensures
        confidence_of(e) == confidence_of(EvidenceView { namespace_affinity: affinity, ..e }),
        !e.owner_ref_match && e.matching_managers.len() == 0 && e.matching_labels.len() == 0
            ==> confidence_of(e) == ResidualConfidence::NoEvidence,
{
}

/// A listed object of the plan never becomes a residual of the list, and any other
/// object with a name becomes exactly one: attributed where something ties it to
/// the operator, unattributed where nothing does.
pub proof fn law_listed_object_is_one_residual(
    a: AuditView,
    o: LiveObject,
    scope: ListScope,
    ctx: AuditContext,
    uids: KeySet<String>,
    planned: Seq<ResourceIdView>,
)
    requires
        o.name is Some,
    ensures
        ({
            let b = object_taken(a, o, scope, ctx, uids, planned);
            let id = ResourceIdView {
                group: scope.group,
                version: scope.version,
                kind: scope.kind,
                namespace: opt_text(o.namespace),
                name: o.name->0@,
                uid: opt_text(o.uid),
            };
            let tied = confidence_of(evidence_of(o, ctx, uids)) != ResidualConfidence::NoEvidence;
            &&& any_same_slot(planned, id) ==> b.likely == a.likely && b.unattributed
                == a.unattributed
            &&& !any_same_slot(planned, id) && tied ==> b.likely.len() == a.likely.len() + 1
                && b.likely.last().resource == id && b.unattributed == a.unattributed
            &&& !any_same_slot(planned, id) && !tied ==> b.unattributed.len()
                == a.unattributed.len() + 1 && b.unattributed.last().resource == id && b.likely
                == a.likely
            &&& o.uid is None ==> b.errors.len() == a.errors.len() + 1
        }),
{
}

/// High confidence comes from an owner reference, or from service account and
/// manager together; medium from manager and label together; low from one of the
/// two; where there is neither owner reference nor manager nor label, there is none.
pub proof fn law_confidence(e: EvidenceView)
    ensures
        e.owner_ref_match ==> confidence_of(e) == ResidualConfidence::High,
        e.service_account_match && e.matching_managers.len() > 0 ==> confidence_of(e)
            == ResidualConfidence::High,
        !e.owner_ref_match && !e.service_account_match && e.matching_managers.len() > 0
            && e.matching_labels.len() > 0 ==> confidence_of(e) == ResidualConfidence::Medium,
        !e.owner_ref_match && !e.service_account_match && e.matching_managers.len() > 0
            && e.matching_labels.len() == 0 ==> confidence_of(e) == ResidualConfidence::Low,
        !e.owner_ref_match && e.matching_managers.len() == 0 && e.matching_labels.len() > 0
            ==> confidence_of(e) == ResidualConfidence::Low,
        !e.owner_ref_match && e.matching_managers.len() == 0 && e.matching_labels.len() == 0
            ==> confidence_of(e) == ResidualConfidence::NoEvidence,
{
}

proof fn lemma_label_seen(labels: Seq<(String, String)>, csvs: Seq<String>, n: nat, j: int, c: int)
    requires
        n <= csvs.len(),
        0 <= c < n,
        0 <= j < labels.len(),
        occurs(labels[j].0@, stem(csvs[c]@)) || occurs(labels[j].1@, stem(csvs[c]@)),
    ensures
        labels_seen(labels, csvs, n).contains((labels[j].0@, labels[j].1@)),
    decreases n,
{
    let f = |l: (String, String)| label_match(l, stem(csvs[n - 1]@));
    let front = labels_seen(labels, csvs, (n - 1) as nat);
    if c < n - 1 {
        lemma_label_seen(labels, csvs, (n - 1) as nat, j, c);
    } else {
        lemma_pick_members(labels, f);
        assert(f(labels[j]) == Some((labels[j].0@, labels[j].1@)));
    }
    lemma_contains_add(front, pick(labels, f), (labels[j].0@, labels[j].1@));
}

proof fn lemma_seen_label(
    labels: Seq<(String, String)>,
    csvs: Seq<String>,
    n: nat,
    p: (Seq<char>, Seq<char>),
)
    requires
        n <= csvs.len(),
        labels_seen(labels, csvs, n).contains(p),
    ensures
        exists|j: int, c: int|
            #![trigger labels[j], csvs[c]]
            0 <= j < labels.len() && 0 <= c < n && p == (labels[j].0@, labels[j].1@) && (occurs(
                p.0,
                stem(csvs[c]@),
            ) || occurs(p.1, stem(csvs[c]@))),
    decreases n,
{
    if n > 0 {
        let f = |l: (String, String)| label_match(l, stem(csvs[n - 1]@));
        let front = labels_seen(labels, csvs, (n - 1) as nat);
        lemma_contains_add(front, pick(labels, f), p);
        if front.contains(p) {
            lemma_seen_label(labels, csvs, (n - 1) as nat, p);
        } else {
            lemma_pick_members(labels, f);
            let j = choose|j: int| 0 <= j < labels.len() && f(#[trigger] labels[j]) == Some(p);
            assert(csvs[n - 1] == csvs[n - 1]);
            assert(label_match(labels[j], stem(csvs[n - 1]@)) == Some(p));
        }
    }
}

/// A label speaks of the operator where the name of one of its
/// ClusterServiceVersions, up to the first dot, stands in the label's key or in the
/// label's value, with whatever around it. Each such label is among the matching
/// labels, so that the object is not unattributed.
pub proof fn law_label_in_key_or_value(
    o: LiveObject,
    ctx: AuditContext,
    uids: KeySet<String>,
    j: int,
    c: int,
    part: Seq<char>,
    rest: Seq<char>,
    before: Seq<char>,
    after: Seq<char>,
)
    requires
        0 <= j < o.labels@.len(),
        0 <= c < ctx.csv_names.order().len(),
        !part.contains('.'),
        ctx.csv_names.order()[c]@ == part || ctx.csv_names.order()[c]@ == part + seq!['.'] + rest,
        o.labels@[j].0@ == before + part + after || o.labels@[j].1@ == before + part + after,
    ensures
        evidence_of(o, ctx, uids).matching_labels.contains((o.labels@[j].0@, o.labels@[j].1@)),
        confidence_of(evidence_of(o, ctx, uids)) != ResidualConfidence::NoEvidence,
{
    let csvs = ctx.csv_names.order();
    law_head_of(csvs[c]@, part, '.', rest);
    law_occurs(o.labels@[j].0@, part, before, after);
    law_occurs(o.labels@[j].1@, part, before, after);
    assert(stem(csvs[c]@) == part);
    lemma_label_seen(o.labels@, csvs, csvs.len(), j, c);
}

/// Every matching label is a label of the object, and the name of a
/// ClusterServiceVersion up to its first dot stands in its key or in its value.
pub proof fn law_matching_label_is_a_label(
    o: LiveObject,
    ctx: AuditContext,
    uids: KeySet<String>,
    key: Seq<char>,
    value: Seq<char>,
)
    requires
        evidence_of(o, ctx, uids).matching_labels.contains((key, value)),
    ensures
        exists|j: int, c: int, part: Seq<char>, before: Seq<char>, after: Seq<char>|
            #![trigger o.labels@[j], ctx.csv_names.order()[c], before + part + after]
            {
                &&& 0 <= j < o.labels@.len()
                &&& 0 <= c < ctx.csv_names.order().len()
                &&& key == o.labels@[j].0@
                &&& value == o.labels@[j].1@
                &&& !part.contains('.')
                &&& ctx.csv_names.order()[c]@ == part || (exists|rest: Seq<char>|
                    ctx.csv_names.order()[c]@ == #[trigger] (part + seq!['.'] + rest))
                &&& key == before + part + after || value == before + part + after
            },
{
    let csvs = ctx.csv_names.order();
    let labels = o.labels@;
    lemma_seen_label(labels, csvs, csvs.len(), (key, value));
    let (j, c) = choose|j: int, c: int|
        #![trigger labels[j], csvs[c]]
        0 <= j < labels.len() && 0 <= c < csvs.len() && (key, value) == (
            labels[j].0@,
            labels[j].1@,
        ) && (occurs(key, stem(csvs[c]@)) || occurs(value, stem(csvs[c]@)));
    let part = stem(csvs[c]@);
    law_head_of(csvs[c]@, seq![], '.', seq![]);
    law_occurs(key, part, seq![], seq![]);
    law_occurs(value, part, seq![], seq![]);
    if occurs(key, part) {
        let (a, b) = choose|a: Seq<char>, b: Seq<char>| key == #[trigger] (a + part + b);
        assert(o.labels@[j] == labels[j] && ctx.csv_names.order()[c] == csvs[c]);
        assert(key == a + part + b);
    } else {
        let (a, b) = choose|a: Seq<char>, b: Seq<char>| value == #[trigger] (a + part + b);
        assert(o.labels@[j] == labels[j] && ctx.csv_names.order()[c] == csvs[c]);
        assert(value == a + part + b);
    }
}

proof fn lemma_by_deployments(
    acc: Seq<Seq<char>>,
    manager: Seq<char>,
    deployments: Seq<String>,
    n: nat,
    m: Seq<char>,
)
    requires
        n <= deployments.len(),
    ensures
        by_deployments(acc, manager, deployments, n).contains(m) <==> acc.contains(m) || (m
            == manager && exists|d: int|
            0 <= d < n && occurs(manager, (#[trigger] deployments[d])@)),
    decreases n,
{
    if n > 0 {
        let before = by_deployments(acc, manager, deployments, (n - 1) as nat);
        lemma_by_deployments(acc, manager, deployments, (n - 1) as nat, m);
        let here = occurs(manager, deployments[n - 1]@);
        if here {
            lemma_push_contains(before, manager, m);
        }
    }
}

proof fn lemma_by_versions(
    acc: Seq<Seq<char>>,
    manager: Seq<char>,
    csvs: Seq<String>,
    n: nat,
    m: Seq<char>,
)
    requires
        n <= csvs.len(),
    ensures
        by_versions(acc, manager, csvs, n).contains(m) <==> acc.contains(m) || (m == manager
            && exists|d: int|
            0 <= d < n && occurs(manager, stem((#[trigger] csvs[d])@))),
    decreases n,
{
    if n > 0 {
        let before = by_versions(acc, manager, csvs, (n - 1) as nat);
        lemma_by_versions(acc, manager, csvs, (n - 1) as nat, m);
        lemma_by_versions(acc, manager, csvs, (n - 1) as nat, manager);
        if occurs(manager, stem(csvs[n - 1]@)) {
            lemma_push_contains(before, manager, m);
        }
    }
}

proof fn lemma_push_contains(s: Seq<Seq<char>>, x: Seq<char>, m: Seq<char>)
    ensures
        s.push(x).contains(m) <==> s.contains(m) || m == x,
{
    assert(s.push(x)[s.len() as int] == x);
    if s.contains(m) {
        let k = choose|k: int| 0 <= k < s.len() && s[k] == m;
        assert(s.push(x)[k] == m);
    }
    if s.push(x).contains(m) {
        let k = choose|k: int| 0 <= k < s.push(x).len() && s.push(x)[k] == m;
        if k < s.len() {
            assert(s[k] == m);
        }
    }
}

proof fn lemma_managers_seen(
    managers: Seq<String>,
    deployments: Seq<String>,
    csvs: Seq<String>,
    n: nat,
    m: Seq<char>,
)
    requires
        n <= managers.len(),
    ensures
        managers_seen(managers, deployments, csvs, n).contains(m) <==> (exists|i: int|
            0 <= i < n && (#[trigger] managers[i])@ == m) && ((exists|d: int|
            0 <= d < deployments.len() && occurs(m, (#[trigger] deployments[d])@)) || (exists|
            d: int,
        |
            0 <= d < csvs.len() && occurs(m, stem((#[trigger] csvs[d])@)))),
    decreases n,
{
    if n > 0 {
        let mgr = managers[n - 1]@;
        let before = managers_seen(managers, deployments, csvs, (n - 1) as nat);
        let mid = by_deployments(before, mgr, deployments, deployments.len());
        lemma_managers_seen(managers, deployments, csvs, (n - 1) as nat, m);
        lemma_by_deployments(before, mgr, deployments, deployments.len(), m);
        lemma_by_versions(mid, mgr, csvs, csvs.len(), m);
    }
}

/// The matching managers are those of the object's managers in whose name a
/// controller deployment of the operator is named in full, or a
/// ClusterServiceVersion up to the first dot; and only those.
pub proof fn law_matching_managers(
    o: LiveObject,
    ctx: AuditContext,
    uids: KeySet<String>,
    m: Seq<char>,
)
    ensures
        evidence_of(o, ctx, uids).matching_managers.contains(m) <==> {
            &&& exists|i: int| 0 <= i < o.managers@.len() && (#[trigger] o.managers@[i])@ == m
            &&& {
                ||| exists|d: int, a: Seq<char>, b: Seq<char>|
                    #![trigger a + ctx.controller_deployment_names.order()[d]@ + b]
                    0 <= d < ctx.controller_deployment_names.order().len() && m == a
                        + ctx.controller_deployment_names.order()[d]@ + b
                ||| exists|c: int, a: Seq<char>, b: Seq<char>|
                    #![trigger a + head_of(ctx.csv_names.order()[c]@, '.') + b]
                    0 <= c < ctx.csv_names.order().len() && m == a + head_of(
                        ctx.csv_names.order()[c]@,
                        '.',
                    ) + b
            }
        },
{
    let managers = o.managers@;
    let deployments = ctx.controller_deployment_names.order();
    let csvs = ctx.csv_names.order();
    lemma_managers_seen(managers, deployments, csvs, managers.len(), m);
    assert forall|d: int| 0 <= d < deployments.len() implies (occurs(
        m,
        (#[trigger] deployments[d])@,
    ) <==> exists|a: Seq<char>, b: Seq<char>|
        m == #[trigger] (a + deployments[d]@ + b)) by {
        law_occurs(m, deployments[d]@, seq![], seq![]);
        if exists|a: Seq<char>, b: Seq<char>| m == #[trigger] (a + deployments[d]@ + b) {
            let (a, b) = choose|a: Seq<char>, b: Seq<char>|
                m == #[trigger] (a + deployments[d]@ + b);
            law_occurs(m, deployments[d]@, a, b);
        }
    }
    assert forall|d: int| 0 <= d < csvs.len() implies (occurs(
        m,
        stem((#[trigger] csvs[d])@),
    ) <==> exists|a: Seq<char>, b: Seq<char>|
        m == #[trigger] (a + head_of(csvs[d]@, '.') + b)) by {
        let p = head_of(csvs[d]@, '.');
        law_occurs(m, p, seq![], seq![]);
        if exists|a: Seq<char>, b: Seq<char>| m == #[trigger] (a + p + b) {
            let (a, b) = choose|a: Seq<char>, b: Seq<char>| m == #[trigger] (a + p + b);
            law_occurs(m, p, a, b);
        }
    }
    if exists|d: int| 0 <= d < deployments.len() && occurs(m, (#[trigger] deployments[d])@) {
        let d = choose|d: int|
            0 <= d < deployments.len() && occurs(m, (#[trigger] deployments[d])@);
        let (a, b) = choose|a: Seq<char>, b: Seq<char>| m == #[trigger] (a + deployments[d]@ + b);
        assert(m == a + ctx.controller_deployment_names.order()[d]@ + b);
    }
    if exists|d: int| 0 <= d < csvs.len() && occurs(m, stem((#[trigger] csvs[d])@)) {
        let d = choose|d: int| 0 <= d < csvs.len() && occurs(m, stem((#[trigger] csvs[d])@));
        let (a, b) = choose|a: Seq<char>, b: Seq<char>|
            m == #[trigger] (a + head_of(csvs[d]@, '.') + b);
        assert(m == a + head_of(ctx.csv_names.order()[d]@, '.') + b);
    }
}

/// An object is owned by the operator exactly where one of its owner references has
/// a UID of the operator; its service account counts exactly where that of its pod
/// template, or its own where the template names none, is one of the operator's.
pub proof fn law_owner_and_account(o: LiveObject, ctx: AuditContext, uids: KeySet<String>)
    ensures
        evidence_of(o, ctx, uids).owner_ref_match <==> exists|i: int|
            0 <= i < o.owner_references@.len() && uids.has(
                (#[trigger] o.owner_references@[i]).uid@,
            ),
        o.template_service_account matches Some(s) ==> (evidence_of(
            o,
            ctx,
            uids,
        ).service_account_match <==> ctx.service_account_names.has(s@)),
        o.template_service_account is None && o.service_account is Some ==> (evidence_of(
            o,
            ctx,
            uids,
        ).service_account_match <==> ctx.service_account_names.has(o.service_account->0@)),
        o.template_service_account is None && o.service_account is None ==> !evidence_of(
            o,
            ctx,
            uids,
        ).service_account_match,
        evidence_of(o, ctx, uids).namespace_affinity,
{
}

/// A listed object with a name that is in no slot of the plan is kept with its
/// group, version, kind, namespace, name and UID, the evidence for it and the
/// confidence that the evidence gives. One without a name leaves an error and
/// nothing else. One without a UID leaves an error besides.
pub proof fn law_listed_object_is_kept_whole(
    a: AuditView,
    o: LiveObject,
    scope: ListScope,
    ctx: AuditContext,
    uids: KeySet<String>,
    planned: Seq<ResourceIdView>,
)
    ensures
        ({
            let b = object_taken(a, o, scope, ctx, uids, planned);
            let e = evidence_of(o, ctx, uids);
            let in_plan = exists|i: int|
                0 <= i < planned.len() && (#[trigger] planned[i]).group == scope.group
                    && planned[i].kind == scope.kind && planned[i].namespace == opt_text(
                    o.namespace,
                ) && Some(planned[i].name) == opt_text(o.name);
            let kept = |r: AttributedView|
                {
                    &&& r.resource.group == scope.group
                    &&& r.resource.version == scope.version
                    &&& r.resource.kind == scope.kind
                    &&& r.resource.namespace == opt_text(o.namespace)
                    &&& Some(r.resource.name) == opt_text(o.name)
                    &&& r.resource.uid == opt_text(o.uid)
                    &&& r.evidence == e
                    &&& r.confidence == confidence_of(e)
                };
            &&& b.errors.len() == a.errors.len() + if o.name is None || o.uid is None {
                1int
            } else {
                0int
            }
            &&& b.errors.take(a.errors.len() as int) == a.errors
            &&& o.name is None || o.uid is None ==> b.errors.last().resource_type == scope.kind
                && b.errors.last().namespace == scope.namespace
            &&& o.name is None || in_plan ==> b.likely == a.likely && b.unattributed
                == a.unattributed
            &&& o.name is Some && !in_plan && confidence_of(e) != ResidualConfidence::NoEvidence
                ==> b.likely == a.likely.push(b.likely.last()) && kept(b.likely.last())
                && b.unattributed == a.unattributed
            &&& o.name is Some && !in_plan && confidence_of(e) == ResidualConfidence::NoEvidence
                ==> b.unattributed == a.unattributed.push(b.unattributed.last()) && kept(
                b.unattributed.last(),
            ) && b.likely == a.likely
        }),
{
    let b = object_taken(a, o, scope, ctx, uids, planned);
    assert(b.errors.take(a.errors.len() as int) =~= a.errors);
    if o.name is Some {
        let id = ResourceIdView {
            group: scope.group,
            version: scope.version,
            kind: scope.kind,
            namespace: opt_text(o.namespace),
            name: o.name->0@,
            uid: opt_text(o.uid),
        };
        if any_same_slot(planned, id) {
            let i = choose|i: int| 0 <= i < planned.len() && same_slot(#[trigger] planned[i], id);
            assert(planned[i].group == scope.group);
        }
        if exists|i: int|
            0 <= i < planned.len() && (#[trigger] planned[i]).group == scope.group
                && planned[i].kind == scope.kind && planned[i].namespace == opt_text(o.namespace)
                && Some(planned[i].name) == opt_text(o.name) {
            let i = choose|i: int|
                0 <= i < planned.len() && (#[trigger] planned[i]).group == scope.group
                    && planned[i].kind == scope.kind && planned[i].namespace == opt_text(
                    o.namespace,
                ) && Some(planned[i].name) == opt_text(o.name);
            assert(same_slot(planned[i], id));
        }
    }
}

/// The objects of a list are taken one behind the other, each into what the ones before
/// it came to; none is left out.
pub proof fn law_list_is_taken_in_order(
    a: AuditView,
    items: Seq<LiveObject>,
    n: nat,
    scope: ListScope,
    ctx: AuditContext,
    uids: KeySet<String>,
    planned: Seq<ResourceIdView>,
)
    ensures
        objects_taken(a, items, 0, scope, ctx, uids, planned) == a,
        objects_taken(a, items, n + 1, scope, ctx, uids, planned) == object_taken(
            objects_taken(a, items, n, scope, ctx, uids, planned),
            items[n as int],
            scope,
            ctx,
            uids,
            planned,
        ),
{
}

} // verus!
