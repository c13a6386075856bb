//! Which package a ClusterServiceVersion belongs to.

use vstd::prelude::*;
use vstd::string::*;

use crate::cluster::{or_empty, LiveObject};
use crate::collections::KeySet;
use crate::json::{
    field, field_of, json_shape, read_json, string_field, string_field_of, JsonShape, JsonShapeView,
};
use crate::lists::{lemma_pick_take, pick};
use crate::text::{
    begins_with, finishes_with, has, lemma_has_text, opt_text, push_text, same, strip_prefix,
    strip_suffix, text_or, texts,
};

verus! {

/// The set holds the package `p` and nothing else.
pub open spec fn holds_only(packages: KeySet<String>, p: Seq<char>) -> bool {
    forall|t: Seq<char>| #[trigger] packages.has(t) <==> t == p
}

/// The set holds exactly one package, and that is not the target.
pub open spec fn sole_other(packages: KeySet<String>, target: Seq<char>) -> bool {
    exists|p: Seq<char>| p != target && #[trigger] holds_only(packages, p)
}

/// Whether the evidence points to exactly one package, which is not the target.
/// No evidence, evidence for the target and evidence for several packages settle
/// nothing.
pub fn is_exclusively_other_package(evidence_packages: &KeySet<String>, target_package: &str) -> (r:
    bool)
    ensures
        r == sole_other(*evidence_packages, target_package@),
{
    let v: &Vec<String> = evidence_packages.as_vec();
    if v.len() == 1 && !same(v[0].as_str(), target_package) {
        let ghost p = v@[0]@;
        proof {
            assert forall|t: Seq<char>| #[trigger] evidence_packages.has(t) <==> t == p by {
                assert(evidence_packages.order()[0] == v@[0]);
            }
            assert(holds_only(*evidence_packages, p));
        }
        return true;
    }
    proof {
        if sole_other(*evidence_packages, target_package@) {
            let p = choose|p: Seq<char>|
                p != target_package@ && #[trigger] holds_only(*evidence_packages, p);
            assert(evidence_packages.has(p));
            assert(v@.len() > 0);
            assert(evidence_packages.has(v@[0]@)) by {
                assert(evidence_packages.order()[0]@ == v@[0]@);
            }
            if v@.len() > 1 {
                assert(evidence_packages.has(v@[1]@)) by {
                    assert(evidence_packages.order()[1]@ == v@[1]@);
                }
                assert(v@[0]@ != v@[1]@);
            }
            assert(false);
        }
    }
    false
}

/// The package that a label key names: `operators.coreos.com/<package>.<namespace>`.
pub open spec fn package_in_label(key: Seq<char>, namespace: Seq<char>) -> Option<Seq<char>> {
    let prefix = "operators.coreos.com/"@;
    let suffix = "."@ + namespace;
    let rest = key.skip(prefix.len() as int);
    if begins_with(key, prefix) && finishes_with(rest, suffix) && rest.len() > suffix.len() {
        Some(rest.take(rest.len() - suffix.len()))
    } else {
        None
    }
}

/// The package that a label key names, in this namespace.
pub fn label_package(key: &str, namespace: &str) -> (r: Option<String>)
    ensures
        opt_text(r) == package_in_label(key@, namespace@),
{
    let suffix = ".".to_owned().concat(namespace);
    let ghost prefix = "operators.coreos.com/"@;
    match strip_prefix(key, "operators.coreos.com/") {
        Some(rest) => match strip_suffix(rest.as_str(), suffix.as_str()) {
            Some(package) => {
                proof {
                    assert(key@.take(prefix.len() as int) =~= prefix);
                    assert(key@.skip(prefix.len() as int) =~= rest@);
                    assert(rest@.skip(package@.len() as int) =~= suffix@);
                    assert(rest@.take(package@.len() as int) =~= package@);
                }
                if package.as_str().is_empty() {
                    None
                } else {
                    Some(package)
                }
            },
            None => {
                assert(key@.skip(prefix.len() as int) =~= rest@);
                None
            },
        },
        None => None,
    }
}

/// One of the labels names the package `t`.
pub open spec fn labels_name(
    labels: Seq<(String, String)>,
    namespace: Seq<char>,
    t: Seq<char>,
) -> bool {
    exists|i: int|
        0 <= i < labels.len() && package_in_label((#[trigger] labels[i]).0@, namespace) == Some(t)
}

/// Whether the labels name another package than ours, and not ours.
pub fn csv_label_attributes_to_other_package(
    labels: &Vec<(String, String)>,
    csv_namespace: &str,
    our_package: &str,
) -> (r: bool)
    ensures
        r == ((exists|t: Seq<char>|
            t != our_package@ && #[trigger] labels_name(labels@, csv_namespace@, t))
            && !labels_name(labels@, csv_namespace@, our_package@)),
{
    let mut has_our_package = false;
    let mut has_other_package = false;
    for i in 0..labels.len()
        invariant
            has_our_package == exists|k: int|
                0 <= k < i && package_in_label((#[trigger] labels@[k]).0@, csv_namespace@) == Some(
                    our_package@,
                ),
            has_other_package == exists|k: int|
                0 <= k < i && (package_in_label(
                    (#[trigger] labels@[k]).0@,
                    csv_namespace@,
                ) matches Some(t) && t != our_package@),
    {
        match label_package(labels[i].0.as_str(), csv_namespace) {
            Some(package) => {
                assert(package_in_label(labels@[i as int].0@, csv_namespace@) == Some(package@));
                if same(package.as_str(), our_package) {
                    has_our_package = true;
                } else {
                    has_other_package = true;
                }
            },
            None => {},
        }
    }
    proof {
        if has_other_package {
            let k = choose|k: int|
                0 <= k < labels@.len() && (package_in_label(
                    (#[trigger] labels@[k]).0@,
                    csv_namespace@,
                ) matches Some(t) && t != our_package@);
            let t = package_in_label(labels@[k].0@, csv_namespace@)->0;
            assert(labels_name(labels@, csv_namespace@, t));
        }
        if exists|t: Seq<char>|
            t != our_package@ && #[trigger] labels_name(labels@, csv_namespace@, t) {
            let t = choose|t: Seq<char>|
                t != our_package@ && #[trigger] labels_name(labels@, csv_namespace@, t);
            let k = choose|k: int|
                0 <= k < labels@.len() && package_in_label(
                    (#[trigger] labels@[k]).0@,
                    csv_namespace@,
                ) == Some(t);
            assert(package_in_label(labels@[k].0@, csv_namespace@) matches Some(u) && u
                != our_package@);
        }
    }
    has_other_package && !has_our_package
}

/// The elements of a JSON array; nothing for anything else.
pub open spec fn elements(s: Option<JsonShapeView>) -> Seq<Seq<char>> {
    match s {
        Some(JsonShapeView::Array(v)) => v,
        _ => seq![],
    }
}

/// The properties in an annotation: a JSON array, or an object with the array under
/// `properties`.
pub open spec fn properties_in(text: Seq<char>) -> Seq<Seq<char>> {
    match json_shape(text) {
        Some(JsonShapeView::Array(v)) => v,
        s => match field_of(s, "properties"@) {
            Some(t) => elements(json_shape(t)),
            None => seq![],
        },
    }
}

/// The value of a property. A JSON string holds JSON text once more.
pub open spec fn property_value(text: Seq<char>) -> Option<JsonShapeView> {
    match json_shape(text) {
        Some(JsonShapeView::Text(inner)) => json_shape(inner),
        s => s,
    }
}

/// The package that a property of this type names.
pub open spec fn package_named(kind: Option<Seq<char>>, package: Option<Seq<char>>) -> Option<
    Seq<char>,
> {
    if kind == Some("olm.package"@) {
        package
    } else {
        None
    }
}

/// The package that a property names.
pub open spec fn property_package(text: Seq<char>) -> Option<Seq<char>> {
    let prop = json_shape(text);
    match field_of(prop, "value"@) {
        Some(v) => package_named(
            string_field_of(prop, "type"@),
            string_field_of(property_value(v), "packageName"@),
        ),
        None => None,
    }
}

/// The first value under a key.
pub open spec fn annotation(
    pairs: Seq<(String, String)>,
    key: Seq<char>,
    i: nat,
) -> Option<Seq<char>>
    decreases pairs.len() - i,
{
    if i >= pairs.len() {
        None
    } else if pairs[i as int].0@ == key {
        Some(pairs[i as int].1@)
    } else {
        annotation(pairs, key, i + 1)
    }
}

/// `s` without repetitions.
pub open spec fn unique(s: Seq<Seq<char>>) -> Seq<Seq<char>>
    decreases s.len(),
{
    if s.len() == 0 {
        seq![]
    } else {
        let front = unique(s.drop_last());
        if front.contains(s.last()) {
            front
        } else {
            front.push(s.last())
        }
    }
}

/// The packages that the annotations of a ClusterServiceVersion name, each once.
pub open spec fn annotated_packages(annotations: Seq<(String, String)>) -> Seq<Seq<char>> {
    match annotation(annotations, "operatorframework.io/properties"@, 0) {
        Some(text) => unique(pick(properties_in(text), |p: Seq<char>| property_package(p))),
        None => seq![],
    }
}

/// The package that a property of this type names.
pub fn olm_package(kind: &Option<String>, package: Option<String>) -> (r: Option<String>)
    ensures
        opt_text(r) == package_named(opt_text(*kind), opt_text(package)),
{
    match kind {
        Some(k) => if same(k.as_str(), "olm.package") {
            package
        } else {
            None
        },
        None => None,
    }
}

/// Adds a text to a list that does not hold it yet.
pub fn push_unique(v: &mut Vec<String>, s: String)
    ensures
        texts(final(v)@) == if texts(old(v)@).contains(s@) {
            texts(old(v)@)
        } else {
            texts(old(v)@).push(s@)
        },
{
    proof {
        lemma_has_text(v@, s@);
    }
    let known = has(v, s.as_str());
    if !known {
        push_text(v, s);
    }
}

fn read_property(text: &str) -> (r: Option<String>)
    ensures
        opt_text(r) == property_package(text@),
{
    let prop = read_json(text);
    match field(&prop, "value") {
        Some(v) => {
            let value = match read_json(v.as_str()) {
                Some(JsonShape::Text(inner)) => read_json(inner.as_str()),
                s => s,
            };
            olm_package(&string_field(&prop, "type"), string_field(&value, "packageName"))
        },
        None => None,
    }
}

fn read_properties(text: &str) -> (r: Vec<String>)
    ensures
        texts(r@) == properties_in(text@),
{
    match read_json(text) {
        Some(JsonShape::Array(v)) => v,
        s => {
            let inner = match field(&s, "properties") {
                Some(t) => read_json(t.as_str()),
                None => None,
            };
            match inner {
                Some(JsonShape::Array(v)) => v,
                _ => {
                    let v: Vec<String> = Vec::new();
                    assert(texts(v@) =~= seq![]);
                    v
                },
            }
        },
    }
}

fn find_annotation<'a>(pairs: &'a Vec<(String, String)>, key: &str) -> (r: Option<&'a String>)
    ensures
        match r {
            Some(t) => annotation(pairs@, key@, 0) == Some(t@),
            None => annotation(pairs@, key@, 0) is None,
        },
{
    for i in 0..pairs.len()
        invariant
            annotation(pairs@, key@, 0) == annotation(pairs@, key@, i as nat),
    {
        if same(pairs[i].0.as_str(), key) {
            return Some(&pairs[i].1);
        }
    }
    None
}

/// The packages that the annotations of a ClusterServiceVersion name, each once, in
/// the order of their first appearance.
pub fn csv_packages_from_annotations(csv: &LiveObject) -> (r: Vec<String>)
    ensures
        texts(r@) == annotated_packages(csv.annotations@),
{
    let mut packages: Vec<String> = Vec::new();
    assert(texts(packages@) =~= seq![]);
    match find_annotation(&csv.annotations, "operatorframework.io/properties") {
        None => {},
        Some(text) => {
            let props = read_properties(text.as_str());
            let ghost all = texts(props@);
            let ghost f = |p: Seq<char>| property_package(p);
            assert(all.take(0) =~= seq![]);
            for i in 0..props.len()
                invariant
                    all == texts(props@),
                    f == (|p: Seq<char>| property_package(p)),
                    texts(packages@) == unique(pick(all.take(i as int), f)),
            {
                proof {
                    lemma_pick_take(all, f, i as int);
                }
                assert(all[i as int] == props@[i as int]@);
                match read_property(props[i].as_str()) {
                    Some(package) => {
                        let ghost before = pick(all.take(i as int), f);
                        assert(before.push(package@).drop_last() =~= before);
                        push_unique(&mut packages, package);
                    },
                    None => {},
                }
            }
            assert(all.take(all.len() as int) =~= all);
        },
    }
    packages
}

/// A text that is there and not empty.
pub open spec fn filled(o: Option<String>) -> Option<Seq<char>> {
    match o {
        Some(s) => if s@.len() > 0 {
            Some(s@)
        } else {
            None
        },
        None => None,
    }
}

/// The ClusterServiceVersion that a subscription has installed, or is about to.
pub open spec fn csv_of_subscription(sub: LiveObject) -> Option<Seq<char>> {
    match filled(sub.installed_csv) {
        Some(s) => Some(s),
        None => filled(sub.current_csv),
    }
}

/// One of the subscriptions installs `csv` from the package `t`.
pub open spec fn subscribed_from(subs: Seq<LiveObject>, csv: Seq<char>, t: Seq<char>) -> bool {
    exists|i: int|
        0 <= i < subs.len() && csv_of_subscription(#[trigger] subs[i]) == Some(csv) && opt_text(
            subs[i].spec_name,
        ) == Some(t)
}

/// Something says that `csv` belongs to the package `t`: a subscription, a label or
/// an annotation.
pub open spec fn belongs_to_package(
    csv: LiveObject,
    subs: Seq<LiveObject>,
    namespace: Seq<char>,
    t: Seq<char>,
) -> bool {
    ||| subscribed_from(subs, text_or(csv.name, seq![]), t)
    ||| labels_name(csv.labels@, text_or(csv.namespace, namespace), t)
    ||| annotated_packages(csv.annotations@).contains(t)
}

/// Everything says that `csv` belongs to the package `p`, and something does.
pub open spec fn belongs_only_to(
    csv: LiveObject,
    subs: Seq<LiveObject>,
    namespace: Seq<char>,
    p: Seq<char>,
) -> bool {
    forall|t: Seq<char>| #[trigger] belongs_to_package(csv, subs, namespace, t) <==> t == p
}

/// `csv` belongs to one package, which is not the target.
pub open spec fn belongs_elsewhere(
    csv: LiveObject,
    subs: Seq<LiveObject>,
    namespace: Seq<char>,
    target: Seq<char>,
) -> bool {
    exists|p: Seq<char>| p != target && #[trigger] belongs_only_to(csv, subs, namespace, p)
}

fn is_filled(o: &Option<String>) -> (r: bool)
    ensures
        r == (filled(*o) is Some),
{
    match o {
        Some(s) => !s.as_str().is_empty(),
        None => false,
    }
}

/// The ClusterServiceVersion that a subscription has installed, or is about to.
pub fn subscription_csv(sub: &LiveObject) -> (r: Option<&String>)
    ensures
        match r {
            Some(s) => csv_of_subscription(*sub) == Some(s@),
            None => csv_of_subscription(*sub) is None,
        },
{
    let which = if is_filled(&sub.installed_csv) {
        &sub.installed_csv
    } else {
        &sub.current_csv
    };
    match which {
        Some(s) => if s.as_str().is_empty() {
            None
        } else {
            Some(s)
        },
        None => None,
    }
}

fn installs(sub: &LiveObject, csv: &str) -> (r: bool)
    ensures
        r == (csv_of_subscription(*sub) == Some(csv@)),
{
    match subscription_csv(sub) {
        Some(s) => same(s.as_str(), csv),
        None => false,
    }
}

/// Every package that something says `csv` belongs to. `namespace` stands in where
/// the object does not name its own.
pub fn collect_evidence_packages(csv: &LiveObject, subs: &Vec<LiveObject>, namespace: &str) -> (r:
    KeySet<String>)
    ensures
        forall|t: Seq<char>| #[trigger]
            r.has(t) == belongs_to_package(*csv, subs@, namespace@, t),
{
    let mut out: KeySet<String> = KeySet::new();
    let name = or_empty(&csv.name);
    for i in 0..subs.len()
        invariant
            name@ == text_or(csv.name, seq![]),
            forall|t: Seq<char>| #[trigger]
                out.has(t) == exists|k: int|
                    0 <= k < i && csv_of_subscription(#[trigger] subs@[k]) == Some(name@)
                        && opt_text(subs@[k].spec_name) == Some(t),
    {
        let sub: &LiveObject = &subs[i];
        match &sub.spec_name {
            Some(p) => {
                if installs(sub, name) {
                    out.insert(p.clone());
                    assert(csv_of_subscription(subs@[i as int]) == Some(name@));
                }
            },
            None => {},
        }
    }
    let ns = match &csv.namespace {
        Some(s) => s.as_str(),
        None => namespace,
    };
    let ghost first = out;
    let labels: &Vec<(String, String)> = &csv.labels;
    for i in 0..labels.len()
        invariant
            forall|t: Seq<char>| #[trigger]
                out.has(t) == (first.has(t) || exists|k: int|
                    0 <= k < i && package_in_label((#[trigger] labels@[k]).0@, ns@) == Some(t)),
    {
        match label_package(labels[i].0.as_str(), ns) {
            Some(p) => {
                assert(package_in_label(labels@[i as int].0@, ns@) == Some(p@));
                out.insert(p);
            },
            None => {},
        }
    }
    let named = csv_packages_from_annotations(csv);
    let ghost second = out;
    let ghost all = texts(named@);
    for i in 0..named.len()
        invariant
            all == texts(named@),
            forall|t: Seq<char>| #[trigger]
                out.has(t) == (second.has(t) || exists|k: int| 0 <= k < i && #[trigger] all[k] == t),
    {
        assert(all[i as int] == named@[i as int]@);
        out.insert(named[i].clone());
    }
    proof {
        assert forall|t: Seq<char>| #[trigger] out.has(t) == belongs_to_package(
            *csv,
            subs@,
            namespace@,
            t,
        ) by {
            assert(first.has(t) == subscribed_from(subs@, name@, t));
            assert(second.has(t) == (first.has(t) || labels_name(labels@, ns@, t)));
            assert(all.contains(t) == exists|k: int| 0 <= k < all.len() && #[trigger] all[k] == t);
        }
    }
    out
}

/// Whether `csv` belongs to one package, which is not the target.
pub fn is_from_another_package(
    csv: &LiveObject,
    subs: &Vec<LiveObject>,
    namespace: &str,
    target: &str,
) -> (r: bool)
    ensures
        r == belongs_elsewhere(*csv, subs@, namespace@, target@),
{
    let packages = collect_evidence_packages(csv, subs, namespace);
    proof {
        assert forall|p: Seq<char>| #[trigger] holds_only(packages, p) == belongs_only_to(
            *csv,
            subs@,
            namespace@,
            p,
        ) by {
            if holds_only(packages, p) {
                assert forall|t: Seq<char>| #[trigger] belongs_to_package(
                    *csv,
                    subs@,
                    namespace@,
                    t,
                ) <==> t == p by {
                    assert(packages.has(t) <==> t == p);
                }
            }
            if belongs_only_to(*csv, subs@, namespace@, p) {
                assert forall|t: Seq<char>| #[trigger] packages.has(t) <==> t == p by {
                    assert(belongs_to_package(*csv, subs@, namespace@, t) <==> t == p);
                }
            }
        }
        if sole_other(packages, target@) {
            let p = choose|p: Seq<char>| p != target@ && #[trigger] holds_only(packages, p);
            assert(belongs_only_to(*csv, subs@, namespace@, p));
        }
        if belongs_elsewhere(*csv, subs@, namespace@, target@) {
            let p = choose|p: Seq<char>|
                p != target@ && #[trigger] belongs_only_to(*csv, subs@, namespace@, p);
            assert(holds_only(packages, p));
        }
    }
    is_exclusively_other_package(&packages, target)
}

} // verus!
