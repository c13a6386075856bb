//! What is written down for the audit when a run begins.

use vstd::prelude::*;

use crate::collections::KeySet;
use crate::journal::{AuditContext, GvrScope, KnownGvr, KnownGvrView};
use crate::olm::OperatorInstance;
use crate::planner::{action_resource, all_actions, flatten, subject, Action, TeardownPlan};
use crate::resource::{GroupKindMap, KindInfo};
use crate::text::{part, parted, push_text, texts};

verus! {

/// The contents of a list of resource types.
pub open spec fn gvrs(v: Seq<KnownGvr>) -> Seq<KnownGvrView> {
    v.map_values(|g: KnownGvr| g@)
}

/// The resource type of `kind`, as discovery knows it.
pub open spec fn gvr_of(kind: Seq<char>, info: KindInfo) -> KnownGvrView {
    KnownGvrView {
        group: info.group@,
        version: info.version@,
        kind,
        plural: info.plural@,
        scope: if info.namespaced {
            GvrScope::Namespaced
        } else {
            GvrScope::Cluster
        },
    }
}

fn make_gvr(kind: &String, info: &KindInfo) -> (r: KnownGvr)
    ensures
        r@ == gvr_of(kind@, *info),
{
    KnownGvr {
        group: info.group.clone(),
        version: info.version.clone(),
        kind: kind.clone(),
        plural: info.plural.clone(),
        scope: if info.namespaced {
            GvrScope::Namespaced
        } else {
            GvrScope::Cluster
        },
    }
}

/// Group and kind of what an action is about.
pub open spec fn type_of(a: Action) -> (Seq<char>, Seq<char>) {
    (subject(a).group@, subject(a).kind@)
}

/// One of the first `n` actions is about an object of the type `t`.
pub open spec fn type_seen(actions: Seq<Action>, n: int, t: (Seq<char>, Seq<char>)) -> bool {
    exists|j: int| 0 <= j < n && type_of(#[trigger] actions[j]) == t
}

/// The resource types of the first `n` actions, each once, as far as discovery
/// knows them.
pub open spec fn plan_types(actions: Seq<Action>, n: nat, map: GroupKindMap) -> Seq<KnownGvrView>
    decreases n,
{
    if n == 0 {
        seq![]
    } else {
        let a = actions[n - 1];
        let before = plan_types(actions, (n - 1) as nat, map);
        match map.value(type_of(a)) {
            Some(info) => if type_seen(actions, n - 1, type_of(a)) {
                before
            } else {
                before.push(gvr_of(subject(a).kind@, info))
            },
            None => before,
        }
    }
}

/// Group, version and kind of those of the first `n` actions whose type discovery
/// does not know, each type once.
pub open spec fn unknown_types(actions: Seq<Action>, n: nat, map: GroupKindMap) -> Seq<
    (Seq<char>, Seq<char>, Seq<char>),
>
    decreases n,
{
    if n == 0 {
        seq![]
    } else {
        let a = actions[n - 1];
        let before = unknown_types(actions, (n - 1) as nat, map);
        if map.value(type_of(a)) is Some || type_seen(actions, n - 1, type_of(a)) {
            before
        } else {
            before.push((subject(a).group@, subject(a).version@, subject(a).kind@))
        }
    }
}

/// The texts of a list of triples.
pub open spec fn triples(v: Seq<(String, String, String)>) -> Seq<
    (Seq<char>, Seq<char>, Seq<char>),
> {
    v.map_values(|x: (String, String, String)| (x.0@, x.1@, x.2@))
}

/// The CRDs that the operators own.
pub open spec fn owned_crds(ops: Seq<&OperatorInstance>) -> Seq<Seq<char>>
    decreases ops.len(),
{
    if ops.len() == 0 {
        seq![]
    } else {
        owned_crds(ops.drop_last()) + texts(ops.last().owned_crds@)
    }
}

/// The entry of a discovered type.
pub type TypeEntry = ((String, String), KindInfo);

/// The entry is of the type with that group and plural.
pub open spec fn is_plural_of(e: TypeEntry, plural: Seq<char>, group: Seq<char>) -> bool {
    e.0.0@ == group && e.1.plural@ == plural
}

/// The first entry, from position `i` on, of the type with that group and plural.
pub open spec fn entry_for(
    entries: Seq<TypeEntry>,
    plural: Seq<char>,
    group: Seq<char>,
    i: nat,
) -> Option<TypeEntry>
    decreases entries.len() - i,
{
    if i >= entries.len() {
        None
    } else if is_plural_of(entries[i as int], plural, group) {
        Some(entries[i as int])
    } else {
        entry_for(entries, plural, group, i + 1)
    }
}

/// The discovered type that the CRD `plural.group` defines.
pub open spec fn defined_by(crd: Seq<char>, map: GroupKindMap) -> Option<TypeEntry> {
    match parted(crd, '.') {
        Some(p) => entry_for(map.entries(), p.0, p.1, 0),
        None => None,
    }
}

/// One of the first `n` CRDs defines the type `t`.
pub open spec fn defined_before(
    crds: Seq<Seq<char>>,
    n: int,
    map: GroupKindMap,
    t: (Seq<char>, Seq<char>),
) -> bool {
    exists|j: int|
        0 <= j < n && (defined_by(#[trigger] crds[j], map) matches Some(e) && (e.0.0@, e.0.1@) == t)
}

/// The types that the first `n` CRDs define.
pub open spec fn owned_types(crds: Seq<Seq<char>>, n: nat, map: GroupKindMap) -> Seq<KnownGvrView>
    decreases n,
{
    if n == 0 {
        seq![]
    } else {
        let before = owned_types(crds, (n - 1) as nat, map);
        match defined_by(crds[n - 1], map) {
            Some(e) => before.push(gvr_of(e.0.1@, e.1)),
            None => before,
        }
    }
}

/// Those of the first `n` CRDs whose type discovery does not know.
pub open spec fn unknown_crds(crds: Seq<Seq<char>>, n: nat, map: GroupKindMap) -> Seq<Seq<char>>
    decreases n,
{
    if n == 0 {
        seq![]
    } else {
        let before = unknown_crds(crds, (n - 1) as nat, map);
        if defined_by(crds[n - 1], map) is Some {
            before
        } else {
            before.push(crds[n - 1])
        }
    }
}

/// The types that the first `n` CRDs define, each once, without those of the plan.
pub open spec fn further_types(
    actions: Seq<Action>,
    crds: Seq<Seq<char>>,
    n: nat,
    map: GroupKindMap,
) -> Seq<KnownGvrView>
    decreases n,
{
    if n == 0 {
        seq![]
    } else {
        let before = further_types(actions, crds, (n - 1) as nat, map);
        match defined_by(crds[n - 1], map) {
            Some(e) => {
                let t = (e.0.0@, e.0.1@);
                if type_seen(actions, actions.len() as int, t) || defined_before(
                    crds,
                    n - 1,
                    map,
                    t,
                ) {
                    before
                } else {
                    before.push(gvr_of(e.0.1@, e.1))
                }
            },
            None => before,
        }
    }
}

/// One of the operators has this ClusterServiceVersion.
pub open spec fn has_csv(ops: Seq<&OperatorInstance>, n: int, t: Seq<char>) -> bool {
    exists|i: int| 0 <= i < n && (#[trigger] ops[i]).csv.name@ == t
}

/// One of the operators is installed in this namespace.
pub open spec fn has_home(ops: Seq<&OperatorInstance>, n: int, t: Seq<char>) -> bool {
    exists|i: int| 0 <= i < n && (#[trigger] ops[i]).install_namespace@ == t
}

/// One of the operators has this deployment.
pub open spec fn has_deployment(ops: Seq<&OperatorInstance>, n: int, t: Seq<char>) -> bool {
    exists|i: int| 0 <= i < n && crate::text::has_text((#[trigger] ops[i]).deployments@, t)
}

/// One of the operators has this service account.
pub open spec fn has_account(ops: Seq<&OperatorInstance>, n: int, t: Seq<char>) -> bool {
    exists|i: int| 0 <= i < n && crate::text::has_text((#[trigger] ops[i]).service_accounts@, t)
}

/// One of the first `n` actions is about an object in this namespace.
pub open spec fn has_namespace(actions: Seq<Action>, n: int, t: Seq<char>) -> bool {
    exists|i: int|
        0 <= i < n && (subject(#[trigger] actions[i]).namespace matches Some(ns) && ns@ == t)
}

/// The first entry of the type with that group and plural.
fn find_entry<'a>(map: &'a GroupKindMap, plural: &str, group: &str) -> (r: Option<&'a TypeEntry>)
    ensures
        match r {
            Some(e) => entry_for(map.entries(), plural@, group@, 0) == Some(*e),
            None => entry_for(map.entries(), plural@, group@, 0) is None,
        },
{
    let entries: &'a Vec<TypeEntry> = map.as_vec();
    for i in 0..entries.len()
        invariant
            entries@ == map.entries(),
            entry_for(entries@, plural@, group@, 0) == entry_for(
                entries@,
                plural@,
                group@,
                i as nat,
            ),
    {
        if crate::text::same(entries[i].0.0.as_str(), group) && crate::text::same(
            entries[i].1.plural.as_str(),
            plural,
        ) {
            return Some(&entries[i]);
        }
    }
    None
}

/// The discovered type that a CRD defines.
pub fn find_defined<'a>(crd: &str, map: &'a GroupKindMap) -> (r: Option<&'a TypeEntry>)
    ensures
        match r {
            Some(e) => defined_by(crd@, *map) == Some(*e),
            None => defined_by(crd@, *map) is None,
        },
{
    match part(crd, '.') {
        Some(p) => find_entry(map, p.0.as_str(), p.1.as_str()),
        None => None,
    }
}

fn insert_all(set: &mut KeySet<String>, more: &Vec<String>)
    ensures
        forall|t: Seq<char>| #[trigger]
            final(set).has(t) == (old(set).has(t) || crate::text::has_text(more@, t)),
{
    for i in 0..more.len()
        invariant
            forall|t: Seq<char>| #[trigger]
                set.has(t) == (old(set).has(t) || crate::text::has_text(more@.take(i as int), t)),
    {
        set.insert(more[i].clone());
        assert forall|t: Seq<char>| crate::text::has_text(more@.take(i + 1), t) == (
        crate::text::has_text(more@.take(i as int), t) || t == more@[i as int]@) by {
            let a = more@.take(i as int);
            let b = more@.take(i + 1);
            if crate::text::has_text(a, t) {
                let k = choose|k: int| 0 <= k < a.len() && (#[trigger] a[k])@ == t;
                assert(b[k]@ == t);
            }
            if t == more@[i as int]@ {
                assert(b[i as int]@ == t);
            }
            if crate::text::has_text(b, t) {
                let k = choose|k: int| 0 <= k < b.len() && (#[trigger] b[k])@ == t;
                if k < i {
                    assert(a[k]@ == t);
                }
            }
        }
    }
    assert(more@.take(more@.len() as int) =~= more@);
}

/// The names and namespaces of the operators.
struct Names {
    csvs: KeySet<String>,
    namespaces: KeySet<String>,
    deployments: KeySet<String>,
    accounts: KeySet<String>,
}

fn collect_names(ops: &Vec<&OperatorInstance>) -> (r: Names)
    ensures
        forall|t: Seq<char>| #[trigger] r.csvs.has(t) == has_csv(ops@, ops@.len() as int, t),
        forall|t: Seq<char>| #[trigger] r.namespaces.has(t) == has_home(ops@, ops@.len() as int, t),
        forall|t: Seq<char>| #[trigger]
            r.deployments.has(t) == has_deployment(ops@, ops@.len() as int, t),
        forall|t: Seq<char>| #[trigger] r.accounts.has(t) == has_account(ops@, ops@.len() as int, t),
{
    let mut csvs: KeySet<String> = KeySet::new();
    let mut namespaces: KeySet<String> = KeySet::new();
    let mut deployments: KeySet<String> = KeySet::new();
    let mut accounts: KeySet<String> = KeySet::new();
    for i in 0..ops.len()
        invariant
            forall|t: Seq<char>| #[trigger] csvs.has(t) == has_csv(ops@, i as int, t),
            forall|t: Seq<char>| #[trigger] namespaces.has(t) == has_home(ops@, i as int, t),
            forall|t: Seq<char>| #[trigger] deployments.has(t) == has_deployment(ops@, i as int, t),
            forall|t: Seq<char>| #[trigger] accounts.has(t) == has_account(ops@, i as int, t),
    {
        let op = ops[i];
        csvs.insert(op.csv.name.clone());
        namespaces.insert(op.install_namespace.clone());
        insert_all(&mut deployments, &op.deployments);
        insert_all(&mut accounts, &op.service_accounts);
        proof {
            assert(*ops@[i as int] == *op);
            assert forall|t: Seq<char>| has_csv(ops@, i + 1, t) == (has_csv(ops@, i as int, t)
                || op.csv.name@ == t) by {
                if has_csv(ops@, i + 1, t) {
                    let k = choose|k: int| 0 <= k < i + 1 && (#[trigger] ops@[k]).csv.name@ == t;
                }
            }
            assert forall|t: Seq<char>| has_home(ops@, i + 1, t) == (has_home(ops@, i as int, t)
                || op.install_namespace@ == t) by {
                if has_home(ops@, i + 1, t) {
                    let k = choose|k: int|
                        0 <= k < i + 1 && (#[trigger] ops@[k]).install_namespace@ == t;
                }
            }
            assert forall|t: Seq<char>| has_deployment(ops@, i + 1, t) == (has_deployment(
                ops@,
                i as int,
                t,
            ) || crate::text::has_text(op.deployments@, t)) by {
                if has_deployment(ops@, i + 1, t) {
                    let k = choose|k: int|
                        0 <= k < i + 1 && crate::text::has_text(
                            (#[trigger] ops@[k]).deployments@,
                            t,
                        );
                }
            }
            assert forall|t: Seq<char>| has_account(ops@, i + 1, t) == (has_account(
                ops@,
                i as int,
                t,
            ) || crate::text::has_text(op.service_accounts@, t)) by {
                if has_account(ops@, i + 1, t) {
                    let k = choose|k: int|
                        0 <= k < i + 1 && crate::text::has_text(
                            (#[trigger] ops@[k]).service_accounts@,
                            t,
                        );
                }
            }
        }
    }
    Names { csvs, namespaces, deployments, accounts }
}

/// The resource types of a plan.
struct PlanTypes {
    seen: KeySet<(String, String)>,
    known: Vec<KnownGvr>,
    unknown: Vec<(String, String, String)>,
}

fn collect_plan_types(
    actions: &Vec<&Action>,
    Ghost(all): Ghost<Seq<Action>>,
    map: &GroupKindMap,
) -> (r:
    PlanTypes)
    requires
        actions@.len() == all.len(),
        forall|k: int| 0 <= k < actions@.len() ==> *(#[trigger] actions@[k]) == all[k],
    ensures
        forall|t: (Seq<char>, Seq<char>)| #[trigger]
            r.seen.has(t) == type_seen(all, all.len() as int, t),
        gvrs(r.known@) == plan_types(all, all.len(), *map),
        triples(r.unknown@) == unknown_types(all, all.len(), *map),
{
    let mut seen: KeySet<(String, String)> = KeySet::new();
    let mut known: Vec<KnownGvr> = Vec::new();
    let mut unknown: Vec<(String, String, String)> = Vec::new();
    assert(gvrs(known@) =~= seq![]);
    assert(triples(unknown@) =~= seq![]);
    for i in 0..actions.len()
        invariant
            actions@.len() == all.len(),
            forall|k: int| 0 <= k < actions@.len() ==> *(#[trigger] actions@[k]) == all[k],
            forall|t: (Seq<char>, Seq<char>)| #[trigger]
                seen.has(t) == type_seen(all, i as int, t),
            gvrs(known@) == plan_types(all, i as nat, *map),
            triples(unknown@) == unknown_types(all, i as nat, *map),
    {
        let rid = action_resource(actions[i]);
        assert(all[i as int] == *actions@[i as int]);
        let key = (rid.group.clone(), rid.kind.clone());
        let info = map.get(&key);
        let ghost t0 = type_of(all[i as int]);
        let ghost before = seen;
        proof {
            assert forall|t: (Seq<char>, Seq<char>)| type_seen(all, i + 1, t) == (type_seen(
                all,
                i as int,
                t,
            ) || t == t0) by {
                if type_seen(all, i + 1, t) {
                    let k = choose|k: int| 0 <= k < i + 1 && type_of(#[trigger] all[k]) == t;
                }
                if t == t0 {
                    assert(type_of(all[i as int]) == t);
                }
            }
            assert(before.has(t0) == type_seen(all, i as int, t0));
        }
        let fresh = seen.insert((rid.group.clone(), rid.kind.clone()));
        if fresh {
            match info {
                Some(info) => {
                    let g = make_gvr(&rid.kind, info);
                    let ghost gv = g@;
                    let ghost list = known@;
                    known.push(g);
                    assert(gvrs(known@) =~= gvrs(list).push(gv));
                },
                None => {
                    let ghost list = unknown@;
                    unknown.push((rid.group.clone(), rid.version.clone(), rid.kind.clone()));
                    assert(triples(unknown@) =~= triples(list).push(
                        (rid.group@, rid.version@, rid.kind@),
                    ));
                },
            }
        }
    }
    PlanTypes { seen, known, unknown }
}

fn collect_crds(ops: &Vec<&OperatorInstance>) -> (r: Vec<String>)
    ensures
        texts(r@) == owned_crds(ops@),
{
    let mut out: Vec<String> = Vec::new();
    assert(ops@.take(0) =~= seq![]);
    assert(texts(out@) =~= seq![]);
    for i in 0..ops.len()
        invariant
            texts(out@) == owned_crds(ops@.take(i as int)),
    {
        let crds: &Vec<String> = &ops[i].owned_crds;
        let ghost before = texts(out@);
        assert(before + texts(crds@).take(0) =~= before);
        for j in 0..crds.len()
            invariant
                texts(out@) == before + texts(crds@).take(j as int),
        {
            push_text(&mut out, crds[j].clone());
            assert(texts(out@) =~= before + texts(crds@).take(j + 1));
        }
        assert(texts(crds@).take(crds@.len() as int) =~= texts(crds@));
        assert(ops@.take(i + 1).drop_last() =~= ops@.take(i as int));
        assert(ops@.take(i + 1).last() == ops@[i as int]);
    }
    assert(ops@.take(ops@.len() as int) =~= ops@);
    out
}

/// The types that CRDs define.
struct CrdTypes {
    owned: Vec<KnownGvr>,
    unknown: Vec<String>,
}

fn collect_crd_types(
    crds: &Vec<String>,
    seen: KeySet<(String, String)>,
    known: &mut Vec<KnownGvr>,
    map: &GroupKindMap,
    Ghost(all): Ghost<Seq<Action>>,
) -> (r: CrdTypes)
    requires
        forall|t: (Seq<char>, Seq<char>)| #[trigger]
            seen.has(t) == type_seen(all, all.len() as int, t),
    ensures
        gvrs(r.owned@) == owned_types(texts(crds@), crds@.len(), *map),
        texts(r.unknown@) == unknown_crds(texts(crds@), crds@.len(), *map),
        gvrs(final(known)@) == gvrs(old(known)@) + further_types(
            all,
            texts(crds@),
            crds@.len(),
            *map,
        ),
{
    let mut seen = seen;
    let mut owned: Vec<KnownGvr> = Vec::new();
    let mut unknown: Vec<String> = Vec::new();
    let ghost names = texts(crds@);
    let ghost base = gvrs(known@);
    assert(gvrs(owned@) =~= seq![]);
    assert(texts(unknown@) =~= seq![]);
    assert(base + seq![] =~= base);
    for i in 0..crds.len()
        invariant
            names == texts(crds@),
            forall|t: (Seq<char>, Seq<char>)| #[trigger]
                seen.has(t) == (type_seen(all, all.len() as int, t) || defined_before(
                    names,
                    i as int,
                    *map,
                    t,
                )),
            gvrs(owned@) == owned_types(names, i as nat, *map),
            texts(unknown@) == unknown_crds(names, i as nat, *map),
            gvrs(known@) == base + further_types(all, names, i as nat, *map),
    {
        assert(names[i as int] == crds@[i as int]@);
        let ghost earlier = further_types(all, names, i as nat, *map);
        match find_defined(crds[i].as_str(), map) {
            Some(e) => {
                let ghost t0 = (e.0.0@, e.0.1@);
                let ghost before = seen;
                proof {
                    assert forall|t: (Seq<char>, Seq<char>)| defined_before(names, i + 1, *map, t)
                        == (defined_before(names, i as int, *map, t) || t == t0) by {
                        if defined_before(names, i + 1, *map, t) {
                            let k = choose|k: int|
                                0 <= k < i + 1 && (defined_by(#[trigger] names[k], *map) matches Some(
                                    x,
                                ) && (x.0.0@, x.0.1@) == t);
                        }
                        if t == t0 {
                            assert(defined_by(names[i as int], *map) == Some(*e));
                        }
                    }
                    assert(before.has(t0) == (type_seen(all, all.len() as int, t0)
                        || defined_before(names, i as int, *map, t0)));
                }
                let fresh = seen.insert((e.0.0.clone(), e.0.1.clone()));
                if fresh {
                    let g = make_gvr(&e.0.1, &e.1);
                    let ghost gv = g@;
                    let ghost list = known@;
                    known.push(g);
                    assert(gvrs(known@) =~= gvrs(list).push(gv));
                    assert((base + earlier).push(gv) =~= base + earlier.push(gv));
                }
                let g = make_gvr(&e.0.1, &e.1);
                let ghost gv = g@;
                let ghost list = owned@;
                owned.push(g);
                assert(gvrs(owned@) =~= gvrs(list).push(gv));
            },
            None => {
                proof {
                    assert forall|t: (Seq<char>, Seq<char>)| defined_before(names, i + 1, *map, t)
                        == defined_before(names, i as int, *map, t) by {
                        if defined_before(names, i + 1, *map, t) {
                            let k = choose|k: int|
                                0 <= k < i + 1 && (defined_by(#[trigger] names[k], *map) matches Some(
                                    x,
                                ) && (x.0.0@, x.0.1@) == t);
                            assert(k < i);
                        }
                    }
                }
                push_text(&mut unknown, crds[i].clone());
            },
        }
    }
    CrdTypes { owned, unknown }
}

fn collect_namespaces(
    set: &mut KeySet<String>,
    actions: &Vec<&Action>,
    Ghost(all): Ghost<Seq<Action>>,
)
    requires
        actions@.len() == all.len(),
        forall|k: int| 0 <= k < actions@.len() ==> *(#[trigger] actions@[k]) == all[k],
    ensures
        forall|t: Seq<char>| #[trigger]
            final(set).has(t) == (old(set).has(t) || has_namespace(all, all.len() as int, t)),
{
    for i in 0..actions.len()
        invariant
            actions@.len() == all.len(),
            forall|k: int| 0 <= k < actions@.len() ==> *(#[trigger] actions@[k]) == all[k],
            forall|t: Seq<char>| #[trigger]
                set.has(t) == (old(set).has(t) || has_namespace(all, i as int, t)),
    {
        let rid = action_resource(actions[i]);
        assert(all[i as int] == *actions@[i as int]);
        match &rid.namespace {
            Some(ns) => {
                set.insert(ns.clone());
            },
            None => {},
        }
        proof {
            assert forall|t: Seq<char>| has_namespace(all, i + 1, t) == (has_namespace(
                all,
                i as int,
                t,
            ) || (rid.namespace matches Some(ns) && ns@ == t)) by {
                if has_namespace(all, i + 1, t) {
                    let k = choose|k: int|
                        0 <= k < i + 1 && (subject(#[trigger] all[k]).namespace matches Some(ns)
                            && ns@ == t);
                }
                if rid.namespace matches Some(ns) && ns@ == t {
                    assert(subject(all[i as int]).namespace == rid.namespace);
                }
            }
        }
    }
}

/// What the audit after a run of `plan` needs to know: the names and namespaces
/// of the operators, the namespaces of the plan, and which resource types
/// discovery knows.
pub fn build_audit_context(
    plan: &TeardownPlan,
    operators: &Vec<&OperatorInstance>,
    gk_map: &GroupKindMap,
) -> (r: AuditContext)
    ensures
        forall|t: Seq<char>| #[trigger]
            r.csv_names.has(t) == has_csv(operators@, operators@.len() as int, t),
        forall|t: Seq<char>| #[trigger]
            r.footprint_namespaces.has(t) == (has_home(operators@, operators@.len() as int, t)
                || has_namespace(
                all_actions(plan.phases@),
                all_actions(plan.phases@).len() as int,
                t,
            )),
        forall|t: Seq<char>| #[trigger]
            r.controller_deployment_names.has(t) == has_deployment(
                operators@,
                operators@.len() as int,
                t,
            ),
        forall|t: Seq<char>| #[trigger]
            r.service_account_names.has(t) == has_account(operators@, operators@.len() as int, t),
        r.known_labels@.len() == 0,
        r.managed_field_managers.order().len() == 0,
        r.known_gvrs matches Some(v) && gvrs(v@) == plan_types(
            all_actions(plan.phases@),
            all_actions(plan.phases@).len(),
            *gk_map,
        ) + further_types(
            all_actions(plan.phases@),
            owned_crds(operators@),
            owned_crds(operators@).len(),
            *gk_map,
        ),
        r.unresolved_gvks matches Some(v) && triples(v@) == unknown_types(
            all_actions(plan.phases@),
            all_actions(plan.phases@).len(),
            *gk_map,
        ),
        r.unresolved_crds matches Some(v) && texts(v@) == unknown_crds(
            owned_crds(operators@),
            owned_crds(operators@).len(),
            *gk_map,
        ),
        r.owned_cr_gvrs matches Some(v) && gvrs(v@) == owned_types(
            owned_crds(operators@),
            owned_crds(operators@).len(),
            *gk_map,
        ),
        r.csv_baseline is None,
{
    let names = collect_names(operators);
    let actions = flatten(&plan.phases);
    let ghost all = all_actions(plan.phases@);
    let mut namespaces = names.namespaces;
    collect_namespaces(&mut namespaces, &actions, Ghost(all));
    let types = collect_plan_types(&actions, Ghost(all), gk_map);
    let crds = collect_crds(operators);
    assert(texts(crds@).len() == crds@.len());
    let mut known = types.known;
    let defined = collect_crd_types(&crds, types.seen, &mut known, gk_map, Ghost(all));
    AuditContext {
        footprint_namespaces: namespaces,
        csv_names: names.csvs,
        controller_deployment_names: names.deployments,
        service_account_names: names.accounts,
        known_labels: Vec::new(),
        managed_field_managers: KeySet::new(),
        known_gvrs: Some(known),
        unresolved_crds: Some(defined.unknown),
        unresolved_gvks: Some(types.unknown),
        owned_cr_gvrs: Some(defined.owned),
        csv_baseline: None,
    }
}

} // verus!
