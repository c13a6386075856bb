//! What the words and records of a journal mean, and what its context covers.

use vstd::prelude::*;
use vstd::string::*;

use crate::journal::context::{
    defined_before, defined_by, entry_for, further_types, gvr_of, has_account, has_csv,
    has_deployment, has_home, has_namespace, is_plural_of, owned_crds, owned_types, plan_types, type_of, type_seen, unknown_crds,
    unknown_types, TypeEntry,
};
use crate::journal::records::{
    any_same_object, decision_settled, gone_record, has_open_recovery, is_open_decision, is_recovery_of,
    is_redelete_of, redelete_settled, redelete_taken, recovery_settled, ReDeleteResultView,
    ReDeleteView,
};
use crate::journal::{
    entry_meaning, is_run_of, journal_fault, state_name, stated_version, text_meaning,
    version_fault, word_meaning,
    CleanupDecision, CleanupResult, CleanupResultFaultView, CleanupResultView,
    FinalizerRecoveryRecord, FinalizerRecoveryResult, GvrScope, JournalFault, KnownGvrView,
    RunJournal, RunState,
};
use crate::json::{entry_from, field_of, is_parted, json_shape, JsonShapeView};
use crate::lists::{lemma_last_index, lemma_no_last_index};
use crate::olm::OperatorInstance;
use crate::plan::ClusterIdentity;
use crate::planner::{subject, Action};
use crate::resource::{GroupKindMap, KindInfo, ResourceIdView};
use crate::text::{begins_with, law_begins_and_finishes, law_parted, law_strip_all, texts, trimmed};

verus! {

/// What the plain words for a cleanup result mean, words of early journals among them.
pub proof fn law_words_for_a_result()
    ensures
        word_meaning("DeleteRequested"@) == Ok::<_, CleanupResultFaultView>(
            CleanupResultView::DeleteRequested,
        ),
        word_meaning("deleted"@) == Ok::<_, CleanupResultFaultView>(
            CleanupResultView::DeleteRequested,
        ),
        word_meaning("Gone"@) == Ok::<_, CleanupResultFaultView>(CleanupResultView::Gone),
        word_meaning("gone"@) == Ok::<_, CleanupResultFaultView>(CleanupResultView::Gone),
        word_meaning("AlreadyGone"@) == Ok::<_, CleanupResultFaultView>(
            CleanupResultView::AlreadyGone,
        ),
        word_meaning("already_gone"@) == Ok::<_, CleanupResultFaultView>(
            CleanupResultView::AlreadyGone,
        ),
        word_meaning("already gone"@) == Ok::<_, CleanupResultFaultView>(
            CleanupResultView::AlreadyGone,
        ),
{
    reveal_strlit("DeleteRequested");
    reveal_strlit("deleted");
    reveal_strlit("Gone");
    reveal_strlit("gone");
    reveal_strlit("AlreadyGone");
    reveal_strlit("already_gone");
    reveal_strlit("already gone");
    assert("DeleteRequested"@.len() == 15);
    assert("deleted"@.len() == 7);
    assert("Gone"@.len() == 4);
    assert("gone"@.len() == 4);
    assert("AlreadyGone"@.len() == 11);
    assert("already_gone"@.len() == 12);
    assert("already gone"@.len() == 12);
}

/// A word that begins with `failed:` means a failure, with what stands behind it, white
/// space at the ends left out, as the reason. Any other word that is not known is a
/// fault.
pub proof fn law_failed_word(reason: Seq<char>, w: Seq<char>)
    requires
        !begins_with(reason, "failed:"@),
    ensures
        word_meaning("failed:"@ + reason) == Ok::<_, CleanupResultFaultView>(
            CleanupResultView::Failed(trimmed(reason)),
        ),
        word_meaning(w) is Err <==> {
            &&& w != "DeleteRequested"@ && w != "deleted"@
            &&& w != "Gone"@ && w != "gone"@
            &&& w != "AlreadyGone"@ && w != "already_gone"@ && w != "already gone"@
            &&& !begins_with(w, "failed:"@)
        },
        word_meaning(w) is Err ==> word_meaning(w) == Err::<CleanupResultView, _>(
            CleanupResultFaultView::UnknownVariant(w),
        ),
{
    let p = "failed:"@;
    let s = p + reason;
    reveal_strlit("failed:");
    reveal_strlit("DeleteRequested");
    reveal_strlit("deleted");
    reveal_strlit("Gone");
    reveal_strlit("gone");
    reveal_strlit("AlreadyGone");
    reveal_strlit("already_gone");
    reveal_strlit("already gone");
    assert(p.len() == 7);
    assert(s[0] == 'f');
    assert("DeleteRequested"@[0] == 'D');
    assert("deleted"@[0] == 'd');
    assert("Gone"@[0] == 'G');
    assert("gone"@[0] == 'g');
    assert("AlreadyGone"@[0] == 'A');
    assert("already_gone"@[0] == 'a');
    assert("already gone"@[0] == 'a');
    law_begins_and_finishes(s, p, reason);
    law_strip_all(reason, p);
}

/// What a key and the value under it mean. `DeleteRequested`, `Gone` and `AlreadyGone`
/// take nothing but null; `Failed` and `UnknownOutcome` take nothing but a string, and
/// that is the reason. Any other key is a fault.
pub proof fn law_entry_for_a_result(value: Option<JsonShapeView>, reason: Seq<char>, key: Seq<char>)
    ensures
        entry_meaning("DeleteRequested"@, Some(JsonShapeView::Null)) == Ok::<
            _,
            CleanupResultFaultView,
        >(CleanupResultView::DeleteRequested),
        entry_meaning("Gone"@, Some(JsonShapeView::Null)) == Ok::<_, CleanupResultFaultView>(
            CleanupResultView::Gone,
        ),
        entry_meaning("AlreadyGone"@, Some(JsonShapeView::Null)) == Ok::<_, CleanupResultFaultView>(
            CleanupResultView::AlreadyGone,
        ),
        entry_meaning("Failed"@, Some(JsonShapeView::Text(reason))) == Ok::<
            _,
            CleanupResultFaultView,
        >(CleanupResultView::Failed(reason)),
        entry_meaning("UnknownOutcome"@, Some(JsonShapeView::Text(reason))) == Ok::<
            _,
            CleanupResultFaultView,
        >(CleanupResultView::UnknownOutcome(reason)),
        value != Some(JsonShapeView::Null) ==> entry_meaning("DeleteRequested"@, value) is Err
            && entry_meaning("Gone"@, value) is Err && entry_meaning("AlreadyGone"@, value) is Err,
        !(value is Some && value->0 is Text) ==> entry_meaning("Failed"@, value) is Err
            && entry_meaning("UnknownOutcome"@, value) is Err,
        key != "DeleteRequested"@ && key != "Gone"@ && key != "AlreadyGone"@ && key != "Failed"@
            && key != "UnknownOutcome"@ ==> entry_meaning(key, value) == Err::<
            CleanupResultView,
            _,
        >(CleanupResultFaultView::UnknownVariant(key)),
{
    reveal_strlit("DeleteRequested");
    reveal_strlit("Gone");
    reveal_strlit("AlreadyGone");
    reveal_strlit("Failed");
    reveal_strlit("UnknownOutcome");
    assert("DeleteRequested"@.len() == 15);
    assert("Gone"@.len() == 4);
    assert("AlreadyGone"@.len() == 11);
    assert("Failed"@.len() == 6);
    assert("UnknownOutcome"@.len() == 14);
}

/// A journal text is read where it is JSON and its outermost object states the schema
/// version nine under `schema_version`; a version that is missing, or is no number,
/// counts as zero. No other journal is read.
pub proof fn law_journal_that_is_read(text: Seq<char>, version: u32)
    ensures
        journal_fault(text) is None <==> (json_shape(text) matches Some(s) && field_of(
            Some(s),
            "schema_version"@,
        ) matches Some(v) && stated_version(json_shape(v)) == 9),
        json_shape(text) is None <==> journal_fault(text) == Some(JournalFault::NotJson),
        stated_version(Some(JsonShapeView::Number(Some(version as u64)))) == version,
        stated_version(None) == 0,
        forall|s: Seq<char>| #[trigger] stated_version(Some(JsonShapeView::Text(s))) == 0,
        version_fault(version) is None <==> version == 9,
{
}

/// A field of an object is the value of the first entry under its key.
pub proof fn law_field_of_an_object(m: Seq<(Seq<char>, Seq<char>)>, key: Seq<char>, k: int)
    ensures
        0 <= k < m.len() && m[k].0 == key && (forall|j: int|
            0 <= j < k ==> (#[trigger] m[j]).0 != key) ==> field_of(
            Some(JsonShapeView::Object(m)),
            key,
        ) == Some(m[k].1),
        (forall|j: int| 0 <= j < m.len() ==> (#[trigger] m[j]).0 != key) ==> field_of(
            Some(JsonShapeView::Object(m)),
            key,
        ) is None,
{
    if 0 <= k < m.len() && m[k].0 == key && (forall|j: int|
        0 <= j < k ==> (#[trigger] m[j]).0 != key) {
        lemma_entry(m, key, 0, k);
    }
    if forall|j: int| 0 <= j < m.len() ==> (#[trigger] m[j]).0 != key {
        lemma_no_entry(m, key, 0);
    }
}

proof fn lemma_entry(m: Seq<(Seq<char>, Seq<char>)>, key: Seq<char>, i: nat, k: int)
    requires
        i <= k < m.len(),
        m[k].0 == key,
        forall|j: int| i <= j < k ==> (#[trigger] m[j]).0 != key,
    ensures
        entry_from(m, key, i) == Some(m[k].1),
    decreases m.len() - i,
{
    if i < k {
        assert(m[i as int].0 != key);
        lemma_entry(m, key, i + 1, k);
    }
}

proof fn lemma_no_entry(m: Seq<(Seq<char>, Seq<char>)>, key: Seq<char>, i: nat)
    requires
        forall|j: int| i <= j < m.len() ==> (#[trigger] m[j]).0 != key,
    ensures
        entry_from(m, key, i) is None,
    decreases m.len() - i,
{
    if i < m.len() {
        lemma_no_entry(m, key, i + 1);
    }
}

/// A further DELETE was taken exactly where a record of it says that it was accepted
/// or found the object gone: the record must agree in group, version, kind, namespace
/// and name and in both UIDs.
pub proof fn law_taken_further_delete(
    records: Seq<ReDeleteView>,
    id: ResourceIdView,
    original: Seq<char>,
    new: Seq<char>,
)
    ensures
        redelete_taken(records, id, original, new) <==> exists|i: int|
            0 <= i < records.len() && {
                let r = #[trigger] records[i];
                &&& r.identity.group == id.group
                &&& r.identity.version == id.version
                &&& r.identity.kind == id.kind
                &&& r.identity.namespace == id.namespace
                &&& r.identity.name == id.name
                &&& r.original_uid == original
                &&& r.new_uid == new
                &&& r.result is Accepted || r.result is Gone
            },
{
    if redelete_taken(records, id, original, new) {
        let i = choose|i: int|
            0 <= i < records.len() && is_redelete_of(#[trigger] records[i], id, original, new)
                && crate::journal::records::was_taken(records[i]);
        assert(records[i].identity.group == id.group);
    }
}

/// The result of a further DELETE is written into the last record of it, and into no
/// other; where there is none, nothing is written.
pub proof fn law_result_of_a_further_delete(
    records: Seq<ReDeleteView>,
    id: ResourceIdView,
    original: Seq<char>,
    new: Seq<char>,
    result: ReDeleteResultView,
    i: int,
)
    ensures
        ({
            let after = redelete_settled(records, id, original, new, result);
            let is_it = |k: int|
                {
                    &&& records[k].identity.group == id.group
                    &&& records[k].identity.version == id.version
                    &&& records[k].identity.kind == id.kind
                    &&& records[k].identity.namespace == id.namespace
                    &&& records[k].identity.name == id.name
                    &&& records[k].original_uid == original
                    &&& records[k].new_uid == new
                };
            &&& 0 <= i < records.len() && is_it(i) && (forall|k: int|
                i < k < records.len() ==> !#[trigger] is_it(k)) ==> after == records.update(
                i,
                ReDeleteView { result, ..records[i] },
            )
            &&& (forall|k: int| 0 <= k < records.len() ==> !#[trigger] is_it(k)) ==> after == records
        }),
{
    let p = |r: ReDeleteView| is_redelete_of(r, id, original, new);
    let is_it = |k: int|
        {
            &&& records[k].identity.group == id.group
            &&& records[k].identity.version == id.version
            &&& records[k].identity.kind == id.kind
            &&& records[k].identity.namespace == id.namespace
            &&& records[k].identity.name == id.name
            &&& records[k].original_uid == original
            &&& records[k].new_uid == new
        };
    assert forall|k: int| #[trigger] is_it(k) == p(records[k]) by {}
    if 0 <= i < records.len() && is_it(i) && (forall|k: int|
        i < k < records.len() ==> !#[trigger] is_it(k)) {
        assert forall|k: int| i < k < records.len() implies !p(#[trigger] records[k]) by {
            assert(!is_it(k));
        }
        lemma_last_index(records, p, i);
    }
    if forall|k: int| 0 <= k < records.len() ==> !#[trigger] is_it(k) {
        assert forall|k: int| 0 <= k < records.len() implies !p(#[trigger] records[k]) by {
            assert(!is_it(k));
        }
        lemma_no_last_index(records, p);
    }
}

/// Once everything is gone, a record of an accepted further DELETE of one of the objects
/// says that it is gone; any other record stays as it is.
pub proof fn law_gone_after_a_further_delete(
    r: ReDeleteView,
    authorities: Seq<(ResourceIdView, Seq<char>)>,
)
    ensures
        ({
            let one = exists|i: int|
                0 <= i < authorities.len() && (#[trigger] authorities[i]).0.group
                    == r.identity.group && authorities[i].0.version == r.identity.version
                    && authorities[i].0.kind == r.identity.kind && authorities[i].0.namespace
                    == r.identity.namespace && authorities[i].0.name == r.identity.name;
            &&& r.result is Accepted && one ==> gone_record(r, authorities) == (ReDeleteView {
                result: ReDeleteResultView::Gone,
                ..r
            })
            &&& !(r.result is Accepted && one) ==> gone_record(r, authorities) == r
        }),
{
    if any_same_object(authorities, r.identity) {
        let i = choose|i: int|
            0 <= i < authorities.len() && crate::resource::same_object(
                (#[trigger] authorities[i]).0,
                r.identity,
            );
        assert(authorities[i].0.group == r.identity.group);
    }
    if exists|i: int|
        0 <= i < authorities.len() && (#[trigger] authorities[i]).0.group == r.identity.group
            && authorities[i].0.version == r.identity.version && authorities[i].0.kind
            == r.identity.kind && authorities[i].0.namespace == r.identity.namespace
            && authorities[i].0.name == r.identity.name {
        let i = choose|i: int|
            0 <= i < authorities.len() && (#[trigger] authorities[i]).0.group == r.identity.group
                && authorities[i].0.version == r.identity.version && authorities[i].0.kind
                == r.identity.kind && authorities[i].0.namespace == r.identity.namespace
                && authorities[i].0.name == r.identity.name;
        assert(crate::resource::same_object(authorities[i].0, r.identity));
    }
}

/// The result of a recovery is written into the last record about the object under that
/// UID, and into no other.
pub proof fn law_result_of_a_recovery(
    before: Seq<FinalizerRecoveryRecord>,
    after: Seq<FinalizerRecoveryRecord>,
    id: ResourceIdView,
    live_uid: Seq<char>,
    result: FinalizerRecoveryResult,
    i: int,
)
    requires
        recovery_settled(before, after, id, live_uid, result),
    ensures
        0 <= i < before.len() && before[i].resource@ == id && before[i].live_uid@ == live_uid && (
        forall|k: int|
            i < k < before.len() ==> !((#[trigger] before[k]).resource@ == id && before[k].live_uid@
                == live_uid)) ==> after == before.update(
            i,
            FinalizerRecoveryRecord { result, ..before[i] },
        ),
        (forall|k: int|
            0 <= k < before.len() ==> !((#[trigger] before[k]).resource@ == id
                && before[k].live_uid@ == live_uid)) ==> after == before,
{
    let p = |r: FinalizerRecoveryRecord| is_recovery_of(r, id, live_uid);
    if 0 <= i < before.len() && before[i].resource@ == id && before[i].live_uid@ == live_uid && (
    forall|k: int|
        i < k < before.len() ==> !((#[trigger] before[k]).resource@ == id && before[k].live_uid@
            == live_uid)) {
        lemma_last_index(before, p, i);
    }
    if forall|k: int|
        0 <= k < before.len() ==> !((#[trigger] before[k]).resource@ == id && before[k].live_uid@
            == live_uid) {
        lemma_no_last_index(before, p);
    }
}

/// The result of a cleanup is written into the last decision on the object that has none
/// yet or, once its DELETE was taken, into the last one that says so; into no other.
pub proof fn law_result_of_a_decision(
    before: Seq<CleanupDecision>,
    after: Seq<CleanupDecision>,
    id: ResourceIdView,
    requested: bool,
    result: CleanupResult,
    i: int,
)
    requires
        decision_settled(before, after, id, requested, result),
    ensures
        ({
            let open = |d: CleanupDecision|
                d.resource@ == id && if requested {
                    d.result is Some && d.result->0 is DeleteRequested
                } else {
                    d.result is None
                };
            &&& 0 <= i < before.len() && open(before[i]) && (forall|k: int|
                i < k < before.len() ==> !open(#[trigger] before[k])) ==> after == before.update(
                i,
                CleanupDecision { result: Some(result), ..before[i] },
            )
            &&& (forall|k: int| 0 <= k < before.len() ==> !open(#[trigger] before[k])) ==> after
                == before
        }),
{
    let p = |d: CleanupDecision| is_open_decision(d, id, requested);
    let open = |d: CleanupDecision|
        d.resource@ == id && if requested {
            d.result is Some && d.result->0 is DeleteRequested
        } else {
            d.result is None
        };
    assert forall|d: CleanupDecision| #[trigger] open(d) == p(d) by {}
    if 0 <= i < before.len() && open(before[i]) && (forall|k: int|
        i < k < before.len() ==> !open(#[trigger] before[k])) {
        assert forall|k: int| i < k < before.len() implies !p(#[trigger] before[k]) by {
            assert(!open(before[k]));
        }
        lemma_last_index(before, p, i);
    }
    if forall|k: int| 0 <= k < before.len() ==> !open(#[trigger] before[k]) {
        assert forall|k: int| 0 <= k < before.len() implies !p(#[trigger] before[k]) by {
            assert(!open(before[k]));
        }
        lemma_no_last_index(before, p);
    }
}

/// A run is one of the operator on the cluster exactly where it was made on the cluster
/// with that UID of `kube-system`, for the ClusterServiceVersion of that name. The
/// address of the API server does not matter.
pub proof fn law_run_of_an_operator(
    j: RunJournal,
    cluster: ClusterIdentity,
    other: ClusterIdentity,
    csv_name: Seq<char>,
)
    ensures
        is_run_of(j, cluster, csv_name) <==> j.cluster_identity.kube_system_uid@
            == cluster.kube_system_uid@ && j.operator.csv_name@ == csv_name,
        other.kube_system_uid@ == cluster.kube_system_uid@ ==> is_run_of(j, other, csv_name)
            == is_run_of(j, cluster, csv_name),
{
}

/// The resource type of a kind has the group, version and plural that discovery gives
/// it, and lives in namespaces or not as discovery says.
pub proof fn law_discovered_type(kind: Seq<char>, info: KindInfo)
    ensures
        gvr_of(kind, info).group == info.group@,
        gvr_of(kind, info).version == info.version@,
        gvr_of(kind, info).kind == kind,
        gvr_of(kind, info).plural == info.plural@,
        info.namespaced <==> gvr_of(kind, info).scope == GvrScope::Namespaced,
        !info.namespaced <==> gvr_of(kind, info).scope == GvrScope::Cluster,
{
}

proof fn lemma_plan_types_grow(actions: Seq<Action>, n: nat, m: nat, map: GroupKindMap, x: KnownGvrView)
    requires
        n <= m <= actions.len(),
        plan_types(actions, n, map).contains(x),
    ensures
        plan_types(actions, m, map).contains(x),
    decreases m - n,
{
    if n < m {
        let next = plan_types(actions, n + 1, map);
        let k = choose|k: int| 0 <= k < plan_types(actions, n, map).len() && plan_types(
            actions,
            n,
            map,
        )[k] == x;
        assert(next[k] == x);
        lemma_plan_types_grow(actions, n + 1, m, map, x);
    }
}

proof fn lemma_unknown_types_grow(
    actions: Seq<Action>,
    n: nat,
    m: nat,
    map: GroupKindMap,
    x: (Seq<char>, Seq<char>, Seq<char>),
)
    requires
        n <= m <= actions.len(),
        unknown_types(actions, n, map).contains(x),
    ensures
        unknown_types(actions, m, map).contains(x),
    decreases m - n,
{
    if n < m {
        let next = unknown_types(actions, n + 1, map);
        let k = choose|k: int| 0 <= k < unknown_types(actions, n, map).len() && unknown_types(
            actions,
            n,
            map,
        )[k] == x;
        assert(next[k] == x);
        lemma_unknown_types_grow(actions, n + 1, m, map, x);
    }
}

/// The type of the first object of its group and kind in the plan is covered: where
/// discovery knows the group and kind, under what discovery says of it; where it does
/// not, it is noted as unknown, with group, version and kind.
pub proof fn law_types_of_the_plan_are_covered(actions: Seq<Action>, map: GroupKindMap, i: int)
    requires
        0 <= i < actions.len(),
        forall|j: int|
            0 <= j < i ==> subject(#[trigger] actions[j]).group@ != subject(actions[i]).group@
                || subject(actions[j]).kind@ != subject(actions[i]).kind@,
    ensures
        map.value((subject(actions[i]).group@, subject(actions[i]).kind@)) matches Some(info)
            ==> plan_types(actions, actions.len(), map).contains(
            gvr_of(subject(actions[i]).kind@, info),
        ),
        map.value((subject(actions[i]).group@, subject(actions[i]).kind@)) is None
            ==> unknown_types(actions, actions.len(), map).contains(
            (
                subject(actions[i]).group@,
                subject(actions[i]).version@,
                subject(actions[i]).kind@,
            ),
        ),
{
    let a = actions[i];
    let n = i as nat;
    assert(!type_seen(actions, i, type_of(a))) by {
        if type_seen(actions, i, type_of(a)) {
            let j = choose|j: int| 0 <= j < i && type_of(#[trigger] actions[j]) == type_of(a);
            assert(subject(actions[j]).group@ == subject(a).group@);
        }
    }
    let after = plan_types(actions, n + 1, map);
    let unknown = unknown_types(actions, n + 1, map);
    if let Some(info) = map.value(type_of(a)) {
        assert(after[after.len() - 1] == gvr_of(subject(a).kind@, info));
        lemma_plan_types_grow(actions, n + 1, actions.len(), map, gvr_of(subject(a).kind@, info));
    } else {
        let x = (subject(a).group@, subject(a).version@, subject(a).kind@);
        assert(unknown[unknown.len() - 1] == x);
        lemma_unknown_types_grow(actions, n + 1, actions.len(), map, x);
    }
}

proof fn lemma_entry_for(
    entries: Seq<TypeEntry>,
    plural: Seq<char>,
    group: Seq<char>,
    i: nat,
)
    ensures
        entry_for(entries, plural, group, i) is None <==> forall|k: int|
            i <= k < entries.len() ==> !is_plural_of(#[trigger] entries[k], plural, group),
        entry_for(entries, plural, group, i) matches Some(e) ==> entries.contains(e)
            && is_plural_of(e, plural, group),
    decreases entries.len() - i,
{
    if i < entries.len() {
        if is_plural_of(entries[i as int], plural, group) {
            assert(entries.contains(entries[i as int]));
        } else {
            lemma_entry_for(entries, plural, group, i + 1);
        }
    }
}

/// A CustomResourceDefinition `plural.group` defines a type that discovery knows under
/// that group with that plural, and none where there is no such type; the group is all
/// that stands behind the first dot.
pub proof fn law_type_of_a_definition(plural: Seq<char>, group: Seq<char>, map: GroupKindMap)
    requires
        !plural.contains('.'),
    ensures
        ({
            let found = defined_by(plural + seq!['.'] + group, map);
            &&& found is None <==> forall|k: int|
                0 <= k < map.entries().len() ==> !((#[trigger] map.entries()[k]).0.0@ == group
                    && map.entries()[k].1.plural@ == plural)
            &&& found matches Some(e) ==> map.entries().contains(e) && e.0.0@ == group
                && e.1.plural@ == plural
        }),
        defined_by(plural, map) is None,
{
    let crd = plural + seq!['.'] + group;
    law_parted(crd, plural, '.', group);
    law_parted(plural, plural, '.', group);
    lemma_entry_for(map.entries(), plural, group, 0);
}

proof fn lemma_owned_grow(crds: Seq<Seq<char>>, n: nat, m: nat, map: GroupKindMap)
    requires
        n <= m <= crds.len(),
    ensures
        forall|x: KnownGvrView| #[trigger]
            owned_types(crds, n, map).contains(x) ==> owned_types(crds, m, map).contains(x),
        forall|x: Seq<char>| #[trigger]
            unknown_crds(crds, n, map).contains(x) ==> unknown_crds(crds, m, map).contains(x),
    decreases m - n,
{
    if n < m {
        let a = owned_types(crds, n, map);
        let b = owned_types(crds, n + 1, map);
        assert forall|x: KnownGvrView| #[trigger] a.contains(x) implies b.contains(x) by {
            let k = choose|k: int| 0 <= k < a.len() && a[k] == x;
            assert(b[k] == x);
        }
        let c = unknown_crds(crds, n, map);
        let d = unknown_crds(crds, n + 1, map);
        assert forall|x: Seq<char>| #[trigger] c.contains(x) implies d.contains(x) by {
            let k = choose|k: int| 0 <= k < c.len() && c[k] == x;
            assert(d[k] == x);
        }
        lemma_owned_grow(crds, n + 1, m, map);
    }
}

/// Every CustomResourceDefinition that the operators own is covered: by the type that
/// it defines where discovery knows it, and by name, as unresolved, where it does not.
pub proof fn law_owned_definitions_are_covered(crds: Seq<Seq<char>>, map: GroupKindMap, i: int)
    requires
        0 <= i < crds.len(),
    ensures
        defined_by(crds[i], map) matches Some(e) ==> owned_types(crds, crds.len(), map).contains(
            gvr_of(e.0.1@, e.1),
        ),
        defined_by(crds[i], map) is None ==> unknown_crds(crds, crds.len(), map).contains(crds[i]),
{
    let n = i as nat;
    lemma_owned_grow(crds, n + 1, crds.len(), map);
    let a = owned_types(crds, n + 1, map);
    let b = unknown_crds(crds, n + 1, map);
    if let Some(e) = defined_by(crds[i], map) {
        assert(a[a.len() - 1] == gvr_of(e.0.1@, e.1));
        assert(a.contains(gvr_of(e.0.1@, e.1)));
    } else {
        assert(b[b.len() - 1] == crds[i]);
        assert(b.contains(crds[i]));
    }
}

/// The owned CustomResourceDefinitions are those of each operator, in order.
pub proof fn law_owned_definitions(ops: Seq<&OperatorInstance>, op: &OperatorInstance, i: int)
    ensures
        owned_crds(ops.push(op)) == owned_crds(ops) + texts(op.owned_crds@),
        owned_crds(seq![]).len() == 0,
{
    assert(ops.push(op).drop_last() =~= ops);
}

/// The context speaks of the ClusterServiceVersion, namespace, deployments and service
/// accounts of every operator, and of the namespace of every object of the plan; of
/// nothing else.
pub proof fn law_names_of_the_context(
    ops: Seq<&OperatorInstance>,
    actions: Seq<Action>,
    t: Seq<char>,
)
    ensures
        has_csv(ops, ops.len() as int, t) <==> exists|i: int|
            0 <= i < ops.len() && (#[trigger] ops[i]).csv.name@ == t,
        has_home(ops, ops.len() as int, t) <==> exists|i: int|
            0 <= i < ops.len() && (#[trigger] ops[i]).install_namespace@ == t,
        has_deployment(ops, ops.len() as int, t) <==> exists|i: int, k: int|
            #![trigger ops[i].deployments@[k]]
            0 <= i < ops.len() && 0 <= k < ops[i].deployments@.len() && ops[i].deployments@[k]@ == t,
        has_account(ops, ops.len() as int, t) <==> exists|i: int, k: int|
            #![trigger ops[i].service_accounts@[k]]
            0 <= i < ops.len() && 0 <= k < ops[i].service_accounts@.len()
                && ops[i].service_accounts@[k]@ == t,
        has_namespace(actions, actions.len() as int, t) <==> exists|i: int|
            0 <= i < actions.len() && subject(#[trigger] actions[i])@.namespace == Some(t),
{
    let n = ops.len() as int;
    if has_deployment(ops, n, t) {
        let i = choose|i: int|
            0 <= i < n && crate::text::has_text((#[trigger] ops[i]).deployments@, t);
        let k = choose|k: int|
            0 <= k < ops[i].deployments@.len() && (#[trigger] ops[i].deployments@[k])@ == t;
        assert(ops[i].deployments@[k]@ == t);
    }
    if exists|i: int, k: int|
        #![trigger ops[i].deployments@[k]]
        0 <= i < ops.len() && 0 <= k < ops[i].deployments@.len() && ops[i].deployments@[k]@ == t {
        let (i, k) = choose|i: int, k: int|
            #![trigger ops[i].deployments@[k]]
            0 <= i < ops.len() && 0 <= k < ops[i].deployments@.len() && ops[i].deployments@[k]@
                == t;
        assert(crate::text::has_text(ops[i].deployments@, t));
    }
    if has_account(ops, n, t) {
        let i = choose|i: int|
            0 <= i < n && crate::text::has_text((#[trigger] ops[i]).service_accounts@, t);
        let k = choose|k: int|
            0 <= k < ops[i].service_accounts@.len() && (#[trigger] ops[i].service_accounts@[k])@
                == t;
        assert(ops[i].service_accounts@[k]@ == t);
    }
    if exists|i: int, k: int|
        #![trigger ops[i].service_accounts@[k]]
        0 <= i < ops.len() && 0 <= k < ops[i].service_accounts@.len()
            && ops[i].service_accounts@[k]@ == t {
        let (i, k) = choose|i: int, k: int|
            #![trigger ops[i].service_accounts@[k]]
            0 <= i < ops.len() && 0 <= k < ops[i].service_accounts@.len()
                && ops[i].service_accounts@[k]@ == t;
        assert(crate::text::has_text(ops[i].service_accounts@, t));
    }
    if exists|i: int|
        0 <= i < actions.len() && subject(#[trigger] actions[i])@.namespace == Some(t) {
        let i = choose|i: int|
            0 <= i < actions.len() && subject(#[trigger] actions[i])@.namespace == Some(t);
        assert(subject(actions[i]).namespace matches Some(ns) && ns@ == t);
    }
    if has_namespace(actions, actions.len() as int, t) {
        let i = choose|i: int|
            0 <= i < actions.len() && (subject(#[trigger] actions[i]).namespace matches Some(ns)
                && ns@ == t);
        assert(subject(actions[i])@.namespace == Some(t));
    }
}

/// The names of the run states.
pub proof fn law_names_of_states()
    ensures
        state_name(RunState::Prepared) == "Prepared"@,
        state_name(RunState::Applying) == "Applying"@,
        state_name(RunState::ApplyCompleted) == "ApplyCompleted"@,
        state_name(RunState::AuditingResiduals) == "AuditingResiduals"@,
        state_name(RunState::InteractiveCleanup) == "InteractiveCleanup"@,
        state_name(RunState::Paused) == "Paused"@,
        state_name(RunState::Finished) == "Finished"@,
        state_name(RunState::Failed) == "Failed"@,
{
}

/// A JSON text for a cleanup result is a string, whose word counts, or an object with one
/// member, whose key and value count; an object with more than one, or none, and anything
/// else is a fault.
pub proof fn law_text_for_a_result(text: Seq<char>)
    ensures
        json_shape(text) is None ==> text_meaning(text) == Err::<CleanupResultView, _>(
            CleanupResultFaultView::NotJson,
        ),
        json_shape(text) matches Some(JsonShapeView::Text(w)) ==> text_meaning(text)
            == word_meaning(w),
        json_shape(text) matches Some(JsonShapeView::Object(m)) ==> (m.len() != 1 ==> text_meaning(
            text,
        ) == Err::<CleanupResultView, _>(CleanupResultFaultView::WrongShape)),
        json_shape(text) matches Some(JsonShapeView::Object(m)) ==> (is_parted(text)
            ==> text_meaning(text) == Err::<CleanupResultView, _>(
            CleanupResultFaultView::WrongShape,
        )),
        json_shape(text) matches Some(JsonShapeView::Object(m)) ==> (m.len() == 1 && !is_parted(
            text,
        ) ==> text_meaning(text) == entry_meaning(m[0].0, json_shape(m[0].1))),
        json_shape(text) is Some && !(json_shape(text)->0 is Text) && !(json_shape(text)->0
            is Object) ==> text_meaning(text) == Err::<CleanupResultView, _>(
            CleanupResultFaultView::WrongShape,
        ),
{
}

/// A recovery is open exactly where the record of one says that its patch was requested
/// and nothing more.
pub proof fn law_open_recovery(records: Seq<FinalizerRecoveryRecord>, i: int)
    ensures
        0 <= i < records.len() && records[i].result is PatchRequested ==> has_open_recovery(records),
        (forall|k: int|
            0 <= k < records.len() ==> !((#[trigger] records[k]).result is PatchRequested))
            ==> !has_open_recovery(records),
{
}

proof fn lemma_further_grow(
    actions: Seq<Action>,
    crds: Seq<Seq<char>>,
    n: nat,
    m: nat,
    map: GroupKindMap,
    x: KnownGvrView,
)
    requires
        n <= m <= crds.len(),
        further_types(actions, crds, n, map).contains(x),
    ensures
        further_types(actions, crds, m, map).contains(x),
    decreases m - n,
{
    if n < m {
        let a = further_types(actions, crds, n, map);
        let b = further_types(actions, crds, n + 1, map);
        let k = choose|k: int| 0 <= k < a.len() && a[k] == x;
        assert(b[k] == x);
        lemma_further_grow(actions, crds, n + 1, m, map, x);
    }
}

/// The type that an owned definition stands for is listed with the discovered types of
/// the plan: among the types of the plan where the plan has an object of its group and
/// kind, and behind them where it has none, there once, for the first definition of the
/// type.
pub proof fn law_owned_types_are_discovered_types(
    actions: Seq<Action>,
    crds: Seq<Seq<char>>,
    map: GroupKindMap,
    e: TypeEntry,
    i: int,
)
    requires
        0 <= i < crds.len(),
        defined_by(crds[i], map) == Some(e),
        forall|j: int|
            0 <= j < actions.len() ==> subject(#[trigger] actions[j]).group@ != e.0.0@ || subject(
                actions[j],
            ).kind@ != e.0.1@,
        forall|j: int|
            0 <= j < i ==> (defined_by(#[trigger] crds[j], map) matches Some(x) ==> x.0.0@ != e.0.0@
                || x.0.1@ != e.0.1@),
    ensures
        further_types(actions, crds, crds.len(), map).contains(gvr_of(e.0.1@, e.1)),
{
    let t = (e.0.0@, e.0.1@);
    let n = i as nat;
    assert(!type_seen(actions, actions.len() as int, t)) by {
        if type_seen(actions, actions.len() as int, t) {
            let j = choose|j: int|
                0 <= j < actions.len() && type_of(#[trigger] actions[j]) == t;
            assert(subject(actions[j]).group@ == e.0.0@);
        }
    }
    assert(!defined_before(crds, i, map, t)) by {
        if defined_before(crds, i, map, t) {
            let j = choose|j: int|
                0 <= j < i && (defined_by(#[trigger] crds[j], map) matches Some(x) && (
                    x.0.0@,
                    x.0.1@,
                ) == t);
            assert(defined_by(crds[j], map) is Some);
        }
    }
    let b = further_types(actions, crds, n + 1, map);
    let x = gvr_of(e.0.1@, e.1);
    assert(b[b.len() - 1] == x);
    lemma_further_grow(actions, crds, n + 1, crds.len(), map, x);
}

} // verus!
