//! What belongs to an operator.

use vstd::prelude::*;
use vstd::string::*;

use crate::cluster::{or_empty, LiveObject};
use crate::collections::KeySet;
use crate::lists::{
    ids, last_index, lemma_contains_add, lemma_last_index, lemma_no_last_index, lemma_pick_take,
    pick, push_id,
};
use crate::olm::OperatorInstance;
use crate::resource::{label, ResourceId, ResourceIdView};
use crate::text::{
    chars_of, copy_opt, decimal, ends_with, finishes_with, join, joined, law_parted, opt_text, part,
    parted, push_text, same, slice, text_or, texts, to_decimal,
};

verus! {

/// An operator with its objects.
#[derive(Debug, Clone)]
pub struct OperatorInspection {
    pub operator: OperatorInstance,
    pub cr_instances: Vec<ResourceId>,
    pub related_cr_instances: Vec<ResourceId>,
    pub controller_pods: Vec<ResourceId>,
}

/// The last two labels of a domain name; `None` for a name of one label.
pub open spec fn root_of(domain: Seq<char>) -> Option<Seq<char>> {
    let dot = |c: char| c == '.';
    match last_index(domain, dot) {
        None => None,
        Some(i) => match last_index(domain.take(i), dot) {
            None => Some(domain),
            Some(j) => Some(domain.skip(j + 1)),
        },
    }
}

/// A domain that many operators share, and that says nothing of any of them.
pub open spec fn is_generic(root: Seq<char>) -> bool {
    ||| root == "openshift.io"@
    ||| root == "k8s.io"@
    ||| root == "kubernetes.io"@
    ||| root == "coreos.com"@
    ||| root == "cncf.io"@
}

/// The domain that tells the operator of a CRD from others.
pub open spec fn own_domain(crd: Seq<char>) -> Option<Seq<char>> {
    match parted(crd, '.') {
        Some(p) => match root_of(p.1) {
            Some(root) => if is_generic(root) {
                None
            } else {
                Some(root)
            },
            None => None,
        },
        None => None,
    }
}

fn last_dot(chars: &Vec<char>, end: usize) -> (r: Option<usize>)
    requires
        end <= chars@.len(),
    ensures
        last_index(chars@.take(end as int), |c: char| c == '.') == match r {
            Some(i) => Some(i as int),
            None => None::<int>,
        },
        r matches Some(i) ==> i < end,
{
    let ghost s = chars@.take(end as int);
    let ghost dot = |c: char| c == '.';
    let mut i: usize = end;
    while i > 0
        invariant
            i <= end,
            end <= chars@.len(),
            s == chars@.take(end as int),
            dot == (|c: char| c == '.'),
            forall|k: int| i <= k < end ==> !dot(#[trigger] s[k]),
        decreases i,
    {
        i = i - 1;
        assert(s[i as int] == chars@[i as int]);
        if chars[i] == '.' {
            proof {
                lemma_last_index(s, dot, i as int);
            }
            return Some(i);
        }
    }
    proof {
        lemma_no_last_index(s, dot);
    }
    None
}

/// The last two labels of a domain name.
pub fn find_root(domain: &str) -> (r: Option<String>)
    ensures
        opt_text(r) == root_of(domain@),
{
    let chars = chars_of(domain);
    let len: usize = chars.len();
    assert(chars@.take(len as int) =~= domain@);
    match last_dot(&chars, len) {
        None => None,
        Some(i) => {
            assert(chars@.take(i as int) =~= domain@.take(i as int));
            match last_dot(&chars, i) {
                None => Some(domain.to_owned()),
                Some(j) => {
                    assert(domain@.subrange(j + 1, len as int) =~= domain@.skip(j + 1));
                    Some(slice(domain, j + 1, len))
                },
            }
        },
    }
}

/// The domain that tells the operator of a CRD from others.
pub fn find_own_domain(crd: &str) -> (r: Option<String>)
    ensures
        opt_text(r) == own_domain(crd@),
{
    match part(crd, '.') {
        Some(p) => match find_root(p.1.as_str()) {
            Some(root) => {
                let generic = same(root.as_str(), "openshift.io") || same(root.as_str(), "k8s.io")
                    || same(root.as_str(), "kubernetes.io") || same(root.as_str(), "coreos.com")
                    || same(root.as_str(), "cncf.io");
                if generic {
                    None
                } else {
                    Some(root)
                }
            },
            None => None,
        },
        None => None,
    }
}

/// One of the CRDs has this own domain.
pub open spec fn has_domain(crds: Seq<String>, n: int, d: Seq<char>) -> bool {
    exists|i: int| 0 <= i < n && own_domain((#[trigger] crds[i])@) == Some(d)
}

/// The own domains of the CRDs.
pub fn collect_root_domains(crds: &Vec<String>) -> (r: KeySet<String>)
    ensures
        forall|d: Seq<char>| #[trigger] r.has(d) == has_domain(crds@, crds@.len() as int, d),
{
    let mut out: KeySet<String> = KeySet::new();
    for i in 0..crds.len()
        invariant
            forall|d: Seq<char>| #[trigger] out.has(d) == has_domain(crds@, i as int, d),
    {
        let domain = find_own_domain(crds[i].as_str());
        let ghost here = opt_text(domain);
        assert(own_domain(crds@[i as int]@) == here);
        match domain {
            Some(d) => {
                out.insert(d);
            },
            None => {},
        }
        proof {
            assert forall|d: Seq<char>| has_domain(crds@, i + 1, d) == (has_domain(
                crds@,
                i as int,
                d,
            ) || here == Some(d)) by {
                if has_domain(crds@, i + 1, d) {
                    let k = choose|k: int|
                        0 <= k < i + 1 && own_domain((#[trigger] crds@[k])@) == Some(d);
                }
                if here == Some(d) {
                    assert(own_domain(crds@[i as int]@) == Some(d));
                }
            }
        }
    }
    out
}

/// The group in the name of a CRD, or the empty text.
pub open spec fn group_of_crd(name: Seq<char>) -> Seq<char> {
    match parted(name, '.') {
        Some(p) => p.1,
        None => seq![],
    }
}

/// The group of the CRD lies in one of the domains.
pub open spec fn shares_domain(crd: LiveObject, domains: Seq<String>) -> bool {
    exists|i: int|
        0 <= i < domains.len() && finishes_with(
            group_of_crd(text_or(crd.name, seq![])),
            (#[trigger] domains[i])@,
        )
}

/// The value of the first label under a key.
pub open spec fn label_value(
    labels: Seq<(String, String)>,
    key: Seq<char>,
    i: nat,
) -> Option<Seq<char>>
    decreases labels.len() - i,
{
    if i >= labels.len() {
        None
    } else if labels[i as int].0@ == key {
        Some(labels[i as int].1@)
    } else {
        label_value(labels, key, i + 1)
    }
}

/// What the CRD says it is a part of, where it lies in one of the domains.
pub open spec fn part_of_value(crd: LiveObject, domains: Seq<String>) -> Option<Seq<char>> {
    if shares_domain(crd, domains) {
        label_value(crd.labels@, "platform.opendatahub.io/part-of"@, 0)
    } else {
        None
    }
}

fn lies_in(crd: &LiveObject, domains: &Vec<String>) -> (r: bool)
    ensures
        r == shares_domain(*crd, domains@),
{
    let ghost want = group_of_crd(text_or(crd.name, seq![]));
    let group = match part(or_empty(&crd.name), '.') {
        Some(p) => p.1,
        None => {
            let s = "".to_owned();
            proof {
                reveal_strlit("");
            }
            assert(s@ =~= seq![]);
            s
        },
    };
    for i in 0..domains.len()
        invariant
            group@ == want,
            want == group_of_crd(text_or(crd.name, seq![])),
            forall|k: int| 0 <= k < i ==> !finishes_with(want, (#[trigger] domains@[k])@),
    {
        if ends_with(group.as_str(), domains[i].as_str()) {
            assert(finishes_with(want, domains@[i as int]@));
            return true;
        }
    }
    false
}

fn find_label(labels: &Vec<(String, String)>, key: &str) -> (r: Option<String>)
    ensures
        opt_text(r) == label_value(labels@, key@, 0),
{
    for i in 0..labels.len()
        invariant
            label_value(labels@, key@, 0) == label_value(labels@, key@, i as nat),
    {
        if same(labels[i].0.as_str(), key) {
            return Some(labels[i].1.clone());
        }
    }
    None
}

/// One of the first `n` CRDs says it is a part of `t`.
pub open spec fn says_part_of(
    crds: Seq<LiveObject>,
    domains: Seq<String>,
    n: int,
    t: Seq<char>,
) -> bool {
    exists|i: int| 0 <= i < n && part_of_value(#[trigger] crds[i], domains) == Some(t)
}

/// Everything that CRDs in one of the domains say they are a part of.
pub fn collect_part_of_values(
    domains: &KeySet<String>,
    crds: &Vec<LiveObject>,
) -> (r: KeySet<String>)
    ensures
        forall|t: Seq<char>| #[trigger]
            r.has(t) == says_part_of(crds@, domains.order(), crds@.len() as int, t),
{
    let names: &Vec<String> = domains.as_vec();
    let mut out: KeySet<String> = KeySet::new();
    for i in 0..crds.len()
        invariant
            names@ == domains.order(),
            forall|t: Seq<char>| #[trigger]
                out.has(t) == says_part_of(crds@, names@, i as int, t),
    {
        let value = if lies_in(&crds[i], names) {
            find_label(&crds[i].labels, "platform.opendatahub.io/part-of")
        } else {
            None
        };
        let ghost here = opt_text(value);
        assert(part_of_value(crds@[i as int], names@) == here);
        match value {
            Some(v) => {
                out.insert(v);
            },
            None => {},
        }
        proof {
            assert forall|t: Seq<char>| says_part_of(crds@, names@, i + 1, t) == (says_part_of(
                crds@,
                names@,
                i as int,
                t,
            ) || here == Some(t)) by {
                if says_part_of(crds@, names@, i + 1, t) {
                    let k = choose|k: int|
                        0 <= k < i + 1 && part_of_value(#[trigger] crds@[k], names@) == Some(t);
                }
                if here == Some(t) {
                    assert(part_of_value(crds@[i as int], names@) == Some(t));
                }
            }
        }
    }
    out
}

/// A label of a selector, where its value is a string.
pub open spec fn selector_word(l: (String, Option<String>)) -> Option<Seq<char>> {
    match l.1 {
        Some(v) => Some(l.0@ + "="@ + v@),
        None => None,
    }
}

/// The selector that asks for all of the labels. A value that is no string stands as
/// `None`, and is left out.
pub fn label_selector(labels: &Vec<(String, Option<String>)>) -> (r: String)
    ensures
        r@ == joined(pick(labels@, |l: (String, Option<String>)| selector_word(l)), ","@),
{
    let ghost f = |l: (String, Option<String>)| selector_word(l);
    let mut words: Vec<String> = Vec::new();
    assert(labels@.take(0) =~= seq![]);
    assert(texts(words@) =~= seq![]);
    for i in 0..labels.len()
        invariant
            f == (|l: (String, Option<String>)| selector_word(l)),
            texts(words@) == pick(labels@.take(i as int), f),
    {
        proof {
            lemma_pick_take(labels@, f, i as int);
        }
        match &labels[i].1 {
            Some(v) => {
                push_text(&mut words, labels[i].0.clone().concat("=").concat(v.as_str()));
            },
            None => {},
        }
    }
    assert(labels@.take(labels@.len() as int) =~= labels@);
    join(&words, ",")
}

/// The identity of a pod, where it has a name.
pub open spec fn pod_identity(namespace: Seq<char>, pod: LiveObject) -> Option<ResourceIdView> {
    match pod.name {
        Some(name) => Some(
            ResourceIdView {
                group: ""@,
                version: "v1"@,
                kind: "Pod"@,
                namespace: Some(namespace),
                name: name@,
                uid: opt_text(pod.uid),
            },
        ),
        None => None,
    }
}

/// The identities of pods; one without a name is left out.
pub fn collect_pods(namespace: &String, pods: &Vec<LiveObject>) -> (r: Vec<ResourceId>)
    ensures
        ids(r@) == pick(pods@, |p: LiveObject| pod_identity(namespace@, p)),
{
    let ghost f = |p: LiveObject| pod_identity(namespace@, p);
    let mut out: Vec<ResourceId> = Vec::new();
    assert(pods@.take(0) =~= seq![]);
    assert(ids(out@) =~= seq![]);
    for i in 0..pods.len()
        invariant
            f == (|p: LiveObject| pod_identity(namespace@, p)),
            ids(out@) == pick(pods@.take(i as int), f),
    {
        proof {
            lemma_pick_take(pods@, f, i as int);
        }
        match &pods[i].name {
            Some(name) => {
                let id = ResourceId {
                    group: "".to_owned(),
                    version: "v1".to_owned(),
                    kind: "Pod".to_owned(),
                    namespace: Some(namespace.clone()),
                    name: name.clone(),
                    uid: copy_opt(&pods[i].uid),
                };
                push_id(&mut out, &id);
            },
            None => {},
        }
    }
    assert(pods@.take(pods@.len() as int) =~= pods@);
    out
}

/// The namespace of an object in dim brackets, where it has one.
pub open spec fn dim_namespace(ns: Option<Seq<char>>) -> Seq<char> {
    match ns {
        Some(ns) => "  \x1b[2m(ns: "@ + ns + ")\x1b[0m"@,
        None => seq![],
    }
}

/// The namespace of an object in dim brackets, where it has one.
pub fn ns_suffix(ns: &Option<String>) -> (r: String)
    ensures
        r@ == dim_namespace(opt_text(*ns)),
{
    match ns {
        Some(ns) => "  \x1b[2m(ns: ".to_owned().concat(ns.as_str()).concat(")\x1b[0m"),
        None => {
            let r = "".to_owned();
            proof {
                reveal_strlit("");
            }
            assert(r@ =~= seq![]);
            r
        },
    }
}

/// `s` without what repeats its neighbour before it.
pub open spec fn without_runs(s: Seq<Seq<char>>) -> Seq<Seq<char>>
    decreases s.len(),
{
    if s.len() == 0 {
        seq![]
    } else if s.len() > 1 && s.last() == s[s.len() - 2] {
        without_runs(s.drop_last())
    } else {
        without_runs(s.drop_last()).push(s.last())
    }
}

fn drop_runs(v: &Vec<String>) -> (r: Vec<String>)
    ensures
        texts(r@) == without_runs(texts(v@)),
{
    let ghost all = texts(v@);
    let mut out: Vec<String> = Vec::new();
    assert(all.take(0) =~= seq![]);
    assert(texts(out@) =~= seq![]);
    for i in 0..v.len()
        invariant
            all == texts(v@),
            texts(out@) == without_runs(all.take(i as int)),
    {
        assert(all.take(i + 1).drop_last() =~= all.take(i as int));
        assert(all.take(i + 1).last() == v@[i as int]@);
        if i > 0 {
            assert(all.take(i + 1)[i - 1] == v@[i - 1]@);
        }
        if i == 0 || !same(v[i].as_str(), v[i - 1].as_str()) {
            push_text(&mut out, v[i].clone());
        }
    }
    assert(all.take(all.len() as int) =~= all);
    out
}

/// The line of a custom resource.
pub open spec fn instance_line(id: ResourceIdView) -> Seq<char> {
    "  "@ + label(id) + match id.namespace {
        Some(ns) => "  \x1b[2m(ns: "@ + ns + ")\x1b[0m"@,
        None => "  \x1b[2m(cluster-scoped)\x1b[0m"@,
    }
}

fn instance_text(id: &ResourceId) -> (r: String)
    ensures
        r@ == instance_line(id@),
{
    let head = "  ".to_owned().concat(id.label().as_str());
    match &id.namespace {
        Some(ns) => {
            let scope = "  \x1b[2m(ns: ".to_owned().concat(ns.as_str()).concat(")\x1b[0m");
            head.concat(scope.as_str())
        },
        None => head.concat("  \x1b[2m(cluster-scoped)\x1b[0m"),
    }
}

/// The section on the lifecycle manager.
pub open spec fn olm_section(op: OperatorInstance) -> Seq<Seq<char>> {
    let sub = match op.subscription {
        Some(s) => seq![
            "  Subscription/"@ + s.name@ + dim_namespace(opt_text(s.namespace)),
        ],
        None => seq![],
    };
    seq!["\x1b[1mOperator: "@ + op.csv.name@ + "\x1b[0m"@, seq![], "\x1b[1mOLM\x1b[0m"@] + sub
        + seq![
        "  ClusterServiceVersion/"@ + op.csv.name@ + dim_namespace(opt_text(op.csv.namespace)),
        seq![],
        "\x1b[1mController\x1b[0m"@,
    ]
}

/// The section on the controller.
pub open spec fn controller_section(i: OperatorInspection) -> Seq<Seq<char>> {
    let home = Some(i.operator.install_namespace@);
    i.operator.deployments@.map_values(
        |d: String| "  Deployment/"@ + d@ + dim_namespace(home),
    ) + i.operator.service_accounts@.map_values(
        |s: String| "  ServiceAccount/"@ + s@ + dim_namespace(home),
    ) + i.controller_pods@.map_values(
        |p: ResourceId| "  Pod/"@ + p.name@ + dim_namespace(opt_text(p.namespace)),
    )
}

/// The section on CRDs.
pub open spec fn crd_section(crds: Seq<Seq<char>>) -> Seq<Seq<char>> {
    seq![seq![], "\x1b[1mOwned CRDs ("@ + decimal(crds.len()) + ")\x1b[0m"@] + crds.map_values(
        |c: Seq<char>| "  "@ + c,
    )
}

/// The section on custom resources.
pub open spec fn instance_section(found: Seq<ResourceIdView>) -> Seq<Seq<char>> {
    seq![seq![], "\x1b[1mCR Instances ("@ + decimal(found.len()) + ")\x1b[0m"@]
        + if found.len() == 0 {
        seq!["  (none)"@]
    } else {
        found.map_values(|r: ResourceIdView| instance_line(r))
    }
}

/// The section on related custom resources.
pub open spec fn related_section(found: Seq<ResourceIdView>) -> Seq<Seq<char>> {
    if found.len() == 0 {
        seq![]
    } else {
        seq![seq![], "\x1b[1mRelated CR Instances ("@ + decimal(found.len()) + ")\x1b[0m"@]
            + found.map_values(|r: ResourceIdView| instance_line(r))
    }
}

/// The number of objects of the controller.
pub open spec fn controller_count(i: OperatorInspection) -> nat {
    i.operator.deployments@.len() + i.operator.service_accounts@.len() + i.controller_pods@.len()
}

/// The summary.
pub open spec fn summary_line(i: OperatorInspection) -> Seq<char> {
    let olm: nat = if i.operator.subscription is Some {
        2
    } else {
        1
    };
    "\x1b[1mSummary\x1b[0m: "@ + decimal(olm) + " OLM, "@ + decimal(controller_count(i))
        + " controller, "@ + decimal(without_runs(texts(i.operator.owned_crds@)).len()) + " CRDs, "@
        + decimal(i.cr_instances@.len()) + " CR instances, "@ + decimal(
        i.related_cr_instances@.len(),
    ) + " related"@
}

/// The inspection as a tree.
pub open spec fn tree(i: OperatorInspection) -> Seq<Seq<char>> {
    olm_section(i.operator) + controller_section(i) + crd_section(
        without_runs(texts(i.operator.owned_crds@)),
    ) + instance_section(ids(i.cr_instances@)) + related_section(ids(i.related_cr_instances@))
        + seq![seq![], summary_line(i)]
}

fn push_blank(v: &mut Vec<String>)
    ensures
        texts(final(v)@) == texts(old(v)@).push(seq![]),
{
    let s = "".to_owned();
    proof {
        reveal_strlit("");
    }
    assert(s@ =~= seq![]);
    push_text(v, s);
}

fn push_named(v: &mut Vec<String>, names: &Vec<String>, head: &str, home: &String)
    ensures
        texts(final(v)@) == texts(old(v)@) + names@.map_values(
            |n: String| head@ + n@ + dim_namespace(Some(home@)),
        ),
{
    let ghost want = names@.map_values(|n: String| head@ + n@ + dim_namespace(Some(home@)));
    let ghost base = texts(v@);
    let suffix = ns_suffix(&Some(home.clone()));
    assert(base + want.take(0) =~= base);
    for i in 0..names.len()
        invariant
            want == names@.map_values(|n: String| head@ + n@ + dim_namespace(Some(home@))),
            suffix@ == dim_namespace(Some(home@)),
            texts(v@) == base + want.take(i as int),
    {
        push_text(v, head.to_owned().concat(names[i].as_str()).concat(suffix.as_str()));
        assert(want[i as int] == head@ + names@[i as int]@ + dim_namespace(Some(home@)));
        assert(base + want.take(i + 1) =~= (base + want.take(i as int)).push(want[i as int]));
    }
    assert(want.take(want.len() as int) =~= want);
}

fn push_pods(v: &mut Vec<String>, pods: &Vec<ResourceId>)
    ensures
        texts(final(v)@) == texts(old(v)@) + pods@.map_values(
            |p: ResourceId| "  Pod/"@ + p.name@ + dim_namespace(opt_text(p.namespace)),
        ),
{
    let ghost want = pods@.map_values(
        |p: ResourceId| "  Pod/"@ + p.name@ + dim_namespace(opt_text(p.namespace)),
    );
    let ghost base = texts(v@);
    assert(base + want.take(0) =~= base);
    for i in 0..pods.len()
        invariant
            want == pods@.map_values(
                |p: ResourceId| "  Pod/"@ + p.name@ + dim_namespace(opt_text(p.namespace)),
            ),
            texts(v@) == base + want.take(i as int),
    {
        push_text(
            v,
            "  Pod/".to_owned().concat(pods[i].name.as_str()).concat(
                ns_suffix(&pods[i].namespace).as_str(),
            ),
        );
        assert(want[i as int] == "  Pod/"@ + pods@[i as int].name@ + dim_namespace(
            opt_text(pods@[i as int].namespace),
        ));
        assert(base + want.take(i + 1) =~= (base + want.take(i as int)).push(want[i as int]));
    }
    assert(want.take(want.len() as int) =~= want);
}

fn push_instances(v: &mut Vec<String>, found: &Vec<ResourceId>)
    ensures
        texts(final(v)@) == texts(old(v)@) + ids(found@).map_values(
            |r: ResourceIdView| instance_line(r),
        ),
{
    let ghost want = ids(found@).map_values(|r: ResourceIdView| instance_line(r));
    let ghost base = texts(v@);
    assert(base + want.take(0) =~= base);
    for i in 0..found.len()
        invariant
            want == ids(found@).map_values(|r: ResourceIdView| instance_line(r)),
            texts(v@) == base + want.take(i as int),
    {
        push_text(v, instance_text(&found[i]));
        assert(ids(found@)[i as int] == found@[i as int]@);
        assert(want[i as int] == instance_line(found@[i as int]@));
        assert(base + want.take(i + 1) =~= (base + want.take(i as int)).push(want[i as int]));
    }
    assert(want.take(want.len() as int) =~= want);
}

fn olm_lines(op: &OperatorInstance) -> (r: Vec<String>)
    ensures
        texts(r@) == olm_section(*op),
{
    let mut out: Vec<String> = Vec::new();
    push_text(
        &mut out,
        "\x1b[1mOperator: ".to_owned().concat(op.csv.name.as_str()).concat("\x1b[0m"),
    );
    push_blank(&mut out);
    push_text(&mut out, "\x1b[1mOLM\x1b[0m".to_owned());
    match &op.subscription {
        Some(s) => {
            push_text(
                &mut out,
                "  Subscription/".to_owned().concat(s.name.as_str()).concat(
                    ns_suffix(&s.namespace).as_str(),
                ),
            );
        },
        None => {},
    }
    push_text(
        &mut out,
        "  ClusterServiceVersion/".to_owned().concat(op.csv.name.as_str()).concat(
            ns_suffix(&op.csv.namespace).as_str(),
        ),
    );
    push_blank(&mut out);
    push_text(&mut out, "\x1b[1mController\x1b[0m".to_owned());
    assert(texts(out@) =~= olm_section(*op));
    out
}

fn push_crds(v: &mut Vec<String>, crds: &Vec<String>)
    ensures
        texts(final(v)@) == texts(old(v)@) + crd_section(texts(crds@)),
{
    let ghost base = texts(v@);
    push_blank(v);
    push_text(
        v,
        "\x1b[1mOwned CRDs (".to_owned().concat(to_decimal(crds.len()).as_str()).concat(
            ")\x1b[0m",
        ),
    );
    let ghost head = texts(v@);
    let ghost want = texts(crds@).map_values(|c: Seq<char>| "  "@ + c);
    assert(head + want.take(0) =~= head);
    for i in 0..crds.len()
        invariant
            want == texts(crds@).map_values(|c: Seq<char>| "  "@ + c),
            texts(v@) == head + want.take(i as int),
    {
        push_text(v, "  ".to_owned().concat(crds[i].as_str()));
        assert(texts(crds@)[i as int] == crds@[i as int]@);
        assert(want[i as int] == "  "@ + crds@[i as int]@);
        assert(head + want.take(i + 1) =~= (head + want.take(i as int)).push(want[i as int]));
    }
    assert(want.take(want.len() as int) =~= want);
    assert(texts(v@) =~= base + crd_section(texts(crds@)));
}

/// The lines of an inspection, as a tree.
pub fn print_inspection(inspection: &OperatorInspection) -> (r: Vec<String>)
    requires
        controller_count(*inspection) <= usize::MAX,
    ensures
        texts(r@) == tree(*inspection),
{
    let op: &OperatorInstance = &inspection.operator;
    let mut out = olm_lines(op);
    let ghost mut want = olm_section(*op);
    push_named(&mut out, &op.deployments, "  Deployment/", &op.install_namespace);
    push_named(&mut out, &op.service_accounts, "  ServiceAccount/", &op.install_namespace);
    push_pods(&mut out, &inspection.controller_pods);
    proof {
        want = want + controller_section(*inspection);
        let home = Some(op.install_namespace@);
        assert(op.deployments@.map_values(
            |n: String| "  Deployment/"@ + n@ + dim_namespace(Some(op.install_namespace@)),
        ) =~= op.deployments@.map_values(|d: String| "  Deployment/"@ + d@ + dim_namespace(home)));
        assert(op.service_accounts@.map_values(
            |n: String| "  ServiceAccount/"@ + n@ + dim_namespace(Some(op.install_namespace@)),
        ) =~= op.service_accounts@.map_values(
            |s: String| "  ServiceAccount/"@ + s@ + dim_namespace(home),
        ));
        assert(texts(out@) =~= want);
    }
    let crds = drop_runs(&op.owned_crds);
    assert(texts(crds@).len() == crds@.len());
    push_crds(&mut out, &crds);
    proof {
        want = want + crd_section(texts(crds@));
    }
    let found: usize = inspection.cr_instances.len();
    let related: usize = inspection.related_cr_instances.len();
    assert(ids(inspection.cr_instances@).len() == found);
    assert(ids(inspection.related_cr_instances@).len() == related);
    push_blank(&mut out);
    push_text(
        &mut out,
        "\x1b[1mCR Instances (".to_owned().concat(to_decimal(found).as_str()).concat(")\x1b[0m"),
    );
    if found == 0 {
        push_text(&mut out, "  (none)".to_owned());
    } else {
        push_instances(&mut out, &inspection.cr_instances);
    }
    proof {
        assert(texts(out@) =~= want + instance_section(ids(inspection.cr_instances@)));
        want = want + instance_section(ids(inspection.cr_instances@));
    }
    if related > 0 {
        push_blank(&mut out);
        push_text(
            &mut out,
            "\x1b[1mRelated CR Instances (".to_owned().concat(
                to_decimal(related).as_str(),
            ).concat(")\x1b[0m"),
        );
        push_instances(&mut out, &inspection.related_cr_instances);
    }
    proof {
        assert(texts(out@) =~= want + related_section(ids(inspection.related_cr_instances@)));
        want = want + related_section(ids(inspection.related_cr_instances@));
    }
    let olm: usize = if op.subscription.is_some() {
        2
    } else {
        1
    };
    let controller: usize = op.deployments.len() + op.service_accounts.len()
        + inspection.controller_pods.len();
    push_blank(&mut out);
    push_text(
        &mut out,
        "\x1b[1mSummary\x1b[0m: ".to_owned().concat(to_decimal(olm).as_str()).concat(
            " OLM, ",
        ).concat(to_decimal(controller).as_str()).concat(" controller, ").concat(
            to_decimal(crds.len()).as_str(),
        ).concat(" CRDs, ").concat(to_decimal(found).as_str()).concat(" CR instances, ").concat(
            to_decimal(related).as_str(),
        ).concat(" related"),
    );
    assert(texts(out@) =~= want + seq![seq![], summary_line(*inspection)]);
    out
}

/// The root of a domain is its last two labels: of `a.x.y`, where neither `x` nor `y` has
/// a dot, it is `x.y`; of `x.y` it is the whole; one label alone has none.
pub proof fn law_root_of_a_domain(a: Seq<char>, x: Seq<char>, y: Seq<char>)
    requires
        !x.contains('.'),
        !y.contains('.'),
    ensures
        root_of(a + seq!['.'] + x + seq!['.'] + y) == Some(x + seq!['.'] + y),
        root_of(x + seq!['.'] + y) == Some(x + seq!['.'] + y),
        root_of(x) is None,
{
    let dot = |c: char| c == '.';
    let d = a + seq!['.'] + x + seq!['.'] + y;
    let m = a.len() as int;
    let i = m + 1 + x.len();
    assert(d[i] == '.');
    assert forall|k: int| i < k < d.len() implies !dot(#[trigger] d[k]) by {
        assert(d[k] == y[k - i - 1]);
        if d[k] == '.' {
            assert(y.contains('.'));
        }
    }
    lemma_last_index(d, dot, i);
    let f = d.take(i);
    assert(f[m] == '.');
    assert forall|k: int| m < k < f.len() implies !dot(#[trigger] f[k]) by {
        assert(f[k] == x[k - m - 1]);
        if f[k] == '.' {
            assert(x.contains('.'));
        }
    }
    lemma_last_index(f, dot, m);
    assert(d.skip(m + 1) =~= x + seq!['.'] + y);
    let e = x + seq!['.'] + y;
    let n = x.len() as int;
    assert(e[n] == '.');
    assert forall|k: int| n < k < e.len() implies !dot(#[trigger] e[k]) by {
        assert(e[k] == y[k - n - 1]);
        if e[k] == '.' {
            assert(y.contains('.'));
        }
    }
    lemma_last_index(e, dot, n);
    assert(e.take(n) =~= x);
    assert forall|k: int| 0 <= k < x.len() implies !dot(#[trigger] x[k]) by {
        if x[k] == '.' {
            assert(x.contains('.'));
        }
    }
    lemma_no_last_index(x, dot);
}

/// The five domains that say nothing of an operator, and no others.
pub proof fn law_generic_domains(root: Seq<char>)
    ensures
        is_generic("openshift.io"@),
        is_generic("k8s.io"@),
        is_generic("kubernetes.io"@),
        is_generic("coreos.com"@),
        is_generic("cncf.io"@),
        is_generic(root) ==> root == "openshift.io"@ || root == "k8s.io"@ || root
            == "kubernetes.io"@ || root == "coreos.com"@ || root == "cncf.io"@,
{
}

/// The own domain of the definition `plural.group` is the root of the group, unless that
/// is a domain that many share; a name without a dot has none.
pub proof fn law_own_domain(plural: Seq<char>, group: Seq<char>)
    requires
        !plural.contains('.'),
    ensures
        ({
            let d = own_domain(plural + seq!['.'] + group);
            &&& root_of(group) matches Some(r) ==> (is_generic(r) ==> d is None) && (!is_generic(r)
                ==> d == Some(r))
            &&& root_of(group) is None ==> d is None
        }),
        own_domain(plural) is None,
        group_of_crd(plural + seq!['.'] + group) == group,
        group_of_crd(plural).len() == 0,
{
    law_parted(plural + seq!['.'] + group, plural, '.', group);
    law_parted(plural, plural, '.', group);
}

/// A definition says what it is a part of by its first label under
/// `platform.opendatahub.io/part-of`, and is heard where its group ends with one of the
/// domains.
pub proof fn law_part_of(crd: LiveObject, domains: Seq<String>, k: int, d: int)
    ensures
        0 <= k < crd.labels@.len() && crd.labels@[k].0@ == "platform.opendatahub.io/part-of"@ && (
        forall|j: int|
            0 <= j < k ==> (#[trigger] crd.labels@[j]).0@ != "platform.opendatahub.io/part-of"@)
            && 0 <= d < domains.len() && finishes_with(
            group_of_crd(text_or(crd.name, seq![])),
            domains[d]@,
        ) ==> part_of_value(crd, domains) == Some(crd.labels@[k].1@),
        (forall|j: int|
            0 <= j < domains.len() ==> !finishes_with(
                group_of_crd(text_or(crd.name, seq![])),
                (#[trigger] domains[j])@,
            )) ==> part_of_value(crd, domains) is None,
{
    if 0 <= k < crd.labels@.len() && crd.labels@[k].0@ == "platform.opendatahub.io/part-of"@ && (
    forall|j: int|
        0 <= j < k ==> (#[trigger] crd.labels@[j]).0@ != "platform.opendatahub.io/part-of"@) {
        lemma_label(crd.labels@, "platform.opendatahub.io/part-of"@, 0, k);
    }
    if 0 <= d < domains.len() && finishes_with(
        group_of_crd(text_or(crd.name, seq![])),
        domains[d]@,
    ) {
        assert(shares_domain(crd, domains));
    }
}

proof fn lemma_label(labels: Seq<(String, String)>, key: Seq<char>, i: nat, k: int)
    requires
        i <= k < labels.len(),
        labels[k].0@ == key,
        forall|j: int| i <= j < k ==> (#[trigger] labels[j]).0@ != key,
    ensures
        label_value(labels, key, i) == Some(labels[k].1@),
    decreases labels.len() - i,
{
    if i < k {
        assert(labels[i as int].0@ != key);
        lemma_label(labels, key, i + 1, k);
    }
}

/// A pod of the controller is known by its name, in the namespace that it was listed in,
/// as a `v1` Pod of the core group, with its UID; one without a name is not known.
pub proof fn law_pod(namespace: Seq<char>, pod: LiveObject)
    ensures
        pod.name is None <==> pod_identity(namespace, pod) is None,
        pod.name matches Some(name) ==> ({
            let id = pod_identity(namespace, pod)->0;
            &&& id.group == ""@
            &&& id.version == "v1"@
            &&& id.kind == "Pod"@
            &&& id.namespace == Some(namespace)
            &&& id.name == name@
            &&& id.uid == opt_text(pod.uid)
        }),
{
}

/// A label of a selector reads `key=value`, and one without a value is left out.
pub proof fn law_selector_word(l: (String, Option<String>))
    ensures
        l.1 matches Some(v) ==> selector_word(l) == Some(l.0@ + "="@ + v@),
        l.1 is None ==> selector_word(l) is None,
{
}

/// Leaving out what repeats its neighbour keeps every text, and no two neighbours are
/// the same.
pub proof fn law_without_runs(s: Seq<Seq<char>>, t: Seq<char>)
    ensures
        without_runs(s).contains(t) <==> s.contains(t),
        forall|i: int, j: int|
            #![trigger without_runs(s)[i], without_runs(s)[j]]
            0 <= i < without_runs(s).len() && j == i + 1 && j < without_runs(s).len()
                ==> without_runs(s)[i] != without_runs(s)[j],
        s.len() > 0 ==> without_runs(s).len() > 0 && without_runs(s).last() == s.last(),
    decreases s.len(),
{
    if s.len() > 0 {
        let d = s.drop_last();
        let w = without_runs(d);
        law_without_runs(d, t);
        if s.contains(t) {
            let k = choose|k: int| 0 <= k < s.len() && s[k] == t;
            if k < d.len() {
                assert(d[k] == t);
                let m = choose|m: int| 0 <= m < w.len() && w[m] == t;
                assert(without_runs(s)[m] == t);
            } else {
                let r = without_runs(s);
                assert(r[r.len() - 1] == t);
            }
        }
        if without_runs(s).contains(t) {
            let m = choose|m: int| 0 <= m < without_runs(s).len() && without_runs(s)[m] == t;
            if m < w.len() {
                assert(w[m] == t);
                let k = choose|k: int| 0 <= k < d.len() && d[k] == t;
                assert(s[k] == t);
            } else {
                assert(s[s.len() - 1] == t);
            }
        }
    }
}

/// The tree leaves nothing out: each deployment, service account and pod of the
/// controller, each owned definition and each custom resource has its line.
pub proof fn law_tree_leaves_nothing_out(i: OperatorInspection, k: int)
    ensures
        0 <= k < i.operator.deployments@.len() ==> tree(i).contains(
            "  Deployment/"@ + i.operator.deployments@[k]@ + dim_namespace(
                Some(i.operator.install_namespace@),
            ),
        ),
        0 <= k < i.operator.service_accounts@.len() ==> tree(i).contains(
            "  ServiceAccount/"@ + i.operator.service_accounts@[k]@ + dim_namespace(
                Some(i.operator.install_namespace@),
            ),
        ),
        0 <= k < i.controller_pods@.len() ==> tree(i).contains(
            "  Pod/"@ + i.controller_pods@[k].name@ + dim_namespace(
                opt_text(i.controller_pods@[k].namespace),
            ),
        ),
        0 <= k < i.operator.owned_crds@.len() ==> tree(i).contains(
            "  "@ + i.operator.owned_crds@[k]@,
        ),
        0 <= k < i.cr_instances@.len() ==> tree(i).contains(instance_line(i.cr_instances@[k]@)),
        0 <= k < i.related_cr_instances@.len() ==> tree(i).contains(
            instance_line(i.related_cr_instances@[k]@),
        ),
{
    let a = olm_section(i.operator);
    let b = controller_section(i);
    let crds = without_runs(texts(i.operator.owned_crds@));
    let c = crd_section(crds);
    let d = instance_section(ids(i.cr_instances@));
    let e = related_section(ids(i.related_cr_instances@));
    let f = seq![Seq::<char>::empty(), summary_line(i)];
    assert(tree(i) =~= a + b + c + d + e + f);
    assert forall|x: Seq<char>|
        #![trigger tree(i).contains(x)]
        b.contains(x) || c.contains(x) || d.contains(x) || e.contains(x) implies tree(i).contains(
        x,
    ) by {
        lemma_contains_add(a, b, x);
        lemma_contains_add(a + b, c, x);
        lemma_contains_add(a + b + c, d, x);
        lemma_contains_add(a + b + c + d, e, x);
        lemma_contains_add(a + b + c + d + e, f, x);
    }
    let dn = i.operator.deployments@.len() as int;
    let sn = i.operator.service_accounts@.len() as int;
    if 0 <= k < dn {
        let x = "  Deployment/"@ + i.operator.deployments@[k]@ + dim_namespace(
            Some(i.operator.install_namespace@),
        );
        assert(b[k] == x);
        assert(b.contains(x));
    }
    if 0 <= k < sn {
        let x = "  ServiceAccount/"@ + i.operator.service_accounts@[k]@ + dim_namespace(
            Some(i.operator.install_namespace@),
        );
        assert(b[dn + k] == x);
        assert(b.contains(x));
    }
    if 0 <= k < i.controller_pods@.len() {
        let x = "  Pod/"@ + i.controller_pods@[k].name@ + dim_namespace(
            opt_text(i.controller_pods@[k].namespace),
        );
        assert(b[dn + sn + k] == x);
        assert(b.contains(x));
    }
    if 0 <= k < i.operator.owned_crds@.len() {
        let t = i.operator.owned_crds@[k]@;
        assert(texts(i.operator.owned_crds@)[k] == t);
        law_without_runs(texts(i.operator.owned_crds@), t);
        let m = choose|m: int| 0 <= m < crds.len() && crds[m] == t;
        assert(c[m + 2] == "  "@ + t);
        assert(c.contains("  "@ + t));
    }
    if 0 <= k < i.cr_instances@.len() {
        let x = instance_line(i.cr_instances@[k]@);
        assert(d[k + 2] == x);
        assert(d.contains(x));
    }
    if 0 <= k < i.related_cr_instances@.len() {
        let x = instance_line(i.related_cr_instances@[k]@);
        assert(e[k + 2] == x);
        assert(e.contains(x));
    }
}

/// The domains of an operator are the own domains of its definitions, and what its
/// definitions are a part of is what those among them say that lie in one of the domains;
/// nothing else.
pub proof fn law_domains_and_parts(
    crds: Seq<String>,
    found: Seq<LiveObject>,
    domains: Seq<String>,
    t: Seq<char>,
)
    ensures
        has_domain(crds, crds.len() as int, t) <==> exists|i: int|
            0 <= i < crds.len() && own_domain((#[trigger] crds[i])@) == Some(t),
        says_part_of(found, domains, found.len() as int, t) <==> exists|i: int|
            0 <= i < found.len() && part_of_value(#[trigger] found[i], domains) == Some(t),
        forall|crd: LiveObject| #[trigger]
            shares_domain(crd, domains) <==> exists|i: int|
                0 <= i < domains.len() && finishes_with(
                    group_of_crd(text_or(crd.name, seq![])),
                    (#[trigger] domains[i])@,
                ),
{
}

/// The objects of the controller are its deployments, service accounts and pods, all
/// counted.
pub proof fn law_controller_is_counted(i: OperatorInspection)
    ensures
        controller_count(i) == i.operator.deployments@.len() + i.operator.service_accounts@.len()
            + i.controller_pods@.len(),
        controller_section(i).len() == controller_count(i),
        tree(i).last() == summary_line(i),
{
}

/// What the tree says of the operator itself: its subscription where it has one, its
/// version, and the numbers of its definitions, of their instances and of related
/// instances.
pub proof fn law_tree_begins(i: OperatorInspection)
    ensures
        ({
            let t = tree(i);
            let op = i.operator;
            let crds = without_runs(texts(op.owned_crds@));
            &&& t[0] == "\x1b[1mOperator: "@ + op.csv.name@ + "\x1b[0m"@
            &&& t[2] == "\x1b[1mOLM\x1b[0m"@
            &&& op.subscription matches Some(s) ==> t[3] == "  Subscription/"@ + s.name@
                + dim_namespace(opt_text(s.namespace)) && t[4] == "  ClusterServiceVersion/"@
                + op.csv.name@ + dim_namespace(opt_text(op.csv.namespace))
            &&& op.subscription is None ==> t[3] == "  ClusterServiceVersion/"@ + op.csv.name@
                + dim_namespace(opt_text(op.csv.namespace))
            &&& t.contains("\x1b[1mOwned CRDs ("@ + decimal(crds.len()) + ")\x1b[0m"@)
            &&& t.contains("\x1b[1mCR Instances ("@ + decimal(i.cr_instances@.len()) + ")\x1b[0m"@)
            &&& i.cr_instances@.len() == 0 ==> t.contains("  (none)"@)
            &&& i.related_cr_instances@.len() > 0 ==> t.contains(
                "\x1b[1mRelated CR Instances ("@ + decimal(i.related_cr_instances@.len())
                    + ")\x1b[0m"@,
            )
            &&& t.last() == "\x1b[1mSummary\x1b[0m: "@ + decimal(
                if op.subscription is Some {
                    2nat
                } else {
                    1nat
                },
            ) + " OLM, "@ + decimal(
                op.deployments@.len() + op.service_accounts@.len() + i.controller_pods@.len(),
            ) + " controller, "@ + decimal(crds.len()) + " CRDs, "@ + decimal(
                i.cr_instances@.len(),
            ) + " CR instances, "@ + decimal(i.related_cr_instances@.len()) + " related"@
        }),
{
    let a = olm_section(i.operator);
    let b = controller_section(i);
    let c = crd_section(without_runs(texts(i.operator.owned_crds@)));
    let d = instance_section(ids(i.cr_instances@));
    let e = related_section(ids(i.related_cr_instances@));
    let f = seq![Seq::<char>::empty(), summary_line(i)];
    let t = tree(i);
    assert(t =~= a + b + c + d + e + f);
    assert forall|x: Seq<char>|
        #![trigger t.contains(x)]
        c.contains(x) || d.contains(x) || e.contains(x) implies t.contains(x) by {
        lemma_contains_add(a + b, c, x);
        lemma_contains_add(a + b + c, d, x);
        lemma_contains_add(a + b + c + d, e, x);
        lemma_contains_add(a + b + c + d + e, f, x);
    }
    assert(c.contains(c[1]));
    assert(d.contains(d[1]));
    if i.cr_instances@.len() == 0 {
        assert(d.contains(d[2]));
        assert(t.contains(d[2]));
    }
    if i.related_cr_instances@.len() > 0 {
        assert(e.contains(e[1]));
        assert(t.contains(e[1]));
    }
    assert(t.contains(c[1]) && t.contains(d[1]));
}

} // verus!
