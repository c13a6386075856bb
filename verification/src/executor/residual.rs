//! Which residual objects may be cleaned up: those that a plan was to remove, and
//! those that a saved decision speaks of.

use vstd::prelude::*;
use vstd::string::*;

use crate::audit::{
    AttributedResidual, ResidualAudit, ResidualConfidence, ResidualEvidence, ResidualItem,
};
use crate::executor::recovery::{is_protected, protected_kind};
use crate::lists::{ids, lemma_pick_members, lemma_pick_take, pick, push_id};
use crate::plan::{
    is_match, match_fault, ApprovalKind, DecisionBasis, ResourceMatch, SavedAction, SavedDecision,
    SavedEvidenceSignature,
};
use crate::resource::{same_object, ResourceId, ResourceIdView};
use crate::text::{has, has_text, opt_text, push_text, same_opt, texts};

verus! {

/// One of `items` is `id`, and is live under the UID of `id`.
pub open spec fn has_live(items: Seq<ResidualItem>, id: ResourceIdView) -> bool {
    id.uid is Some && exists|i: int|
        0 <= i < items.len() && same_object((#[trigger] items[i]).resource@, id) && opt_text(
            items[i].live_uid,
        ) == id.uid
}

/// One of `items` is `id`, UID included.
pub open spec fn has_residual(items: Seq<AttributedResidual>, id: ResourceIdView) -> bool {
    exists|i: int| 0 <= i < items.len() && (#[trigger] items[i]).resource@ == id
}

/// The audit found `id`, under its UID.
pub open spec fn in_audit(audit: ResidualAudit, id: ResourceIdView) -> bool {
    ||| has_live(audit.planned_delete_still_present@, id)
    ||| has_live(audit.planned_expect_still_present@, id)
    ||| has_residual(audit.likely_operator_residual@, id)
    ||| has_residual(audit.unattributed@, id)
}

fn is_live_in(items: &Vec<ResidualItem>, res: &ResourceId) -> (r: bool)
    ensures
        r == has_live(items@, res@),
{
    if res.uid.is_none() {
        return false;
    }
    for i in 0..items.len()
        invariant
            res.uid is Some,
            forall|j: int|
                0 <= j < i ==> !(same_object((#[trigger] items@[j]).resource@, res@) && opt_text(
                    items@[j].live_uid,
                ) == res@.uid),
    {
        if items[i].resource.is_same_object(res) && same_opt(&items[i].live_uid, &res.uid) {
            return true;
        }
    }
    false
}

fn is_residual_in(items: &Vec<AttributedResidual>, res: &ResourceId) -> (r: bool)
    ensures
        r == has_residual(items@, res@),
{
    for i in 0..items.len()
        invariant
            forall|j: int| 0 <= j < i ==> (#[trigger] items@[j]).resource@ != res@,
    {
        if items[i].resource.same(res) {
            return true;
        }
    }
    false
}

/// Whether the audit found an object, under its UID.
pub fn is_in_residual_audit(res: &ResourceId, audit: &ResidualAudit) -> (r: bool)
    ensures
        r == in_audit(*audit, res@),
{
    is_live_in(&audit.planned_delete_still_present, res) || is_live_in(
        &audit.planned_expect_still_present,
        res,
    ) || is_residual_in(&audit.likely_operator_residual, res) || is_residual_in(
        &audit.unattributed,
        res,
    )
}

/// One of `deleted` is `id`, whatever its UID.
pub open spec fn has_object(deleted: Seq<ResourceId>, id: ResourceIdView) -> bool {
    exists|i: int| 0 <= i < deleted.len() && same_object((#[trigger] deleted[i])@, id)
}

fn contains_object(deleted: &Vec<ResourceId>, id: &ResourceId) -> (r: bool)
    ensures
        r == has_object(deleted@, id@),
{
    for i in 0..deleted.len()
        invariant
            forall|j: int| 0 <= j < i ==> !same_object((#[trigger] deleted@[j])@, id@),
    {
        if deleted[i].is_same_object(id) {
            return true;
        }
    }
    false
}

/// The identity of an item, under its live UID.
pub open spec fn live_identity(item: ResidualItem, uid: Seq<char>) -> ResourceIdView {
    ResourceIdView { uid: Some(uid), ..item.resource@ }
}

/// What of a planned DELETE may be deleted again: the object that is there now,
/// where the DELETE was taken and the kind is not protected.
pub open spec fn delete_candidate(item: ResidualItem, deleted: Seq<ResourceId>) -> Option<
    ResourceIdView,
> {
    match item.live_uid {
        Some(uid) => if has_object(deleted, item.resource@) && !is_protected(
            item.resource.kind@,
        ) {
            Some(live_identity(item, uid@))
        } else {
            None
        },
        None => None,
    }
}

/// What of an object that was expected to go may be deleted: the object that was
/// planned, where it is still there and its kind is not protected.
pub open spec fn expect_candidate(item: ResidualItem) -> Option<ResourceIdView> {
    match item.live_uid {
        Some(uid) => if opt_text(item.resource.uid) == Some(uid@) && !is_protected(
            item.resource.kind@,
        ) {
            Some(live_identity(item, uid@))
        } else {
            None
        },
        None => None,
    }
}

/// What may be cleaned up without asking.
pub open spec fn auto_candidates(audit: ResidualAudit, deleted: Seq<ResourceId>) -> Seq<
    ResourceIdView,
> {
    pick(
        audit.planned_delete_still_present@,
        |item: ResidualItem| delete_candidate(item, deleted),
    ) + pick(audit.planned_expect_still_present@, |item: ResidualItem| expect_candidate(item))
}

/// What may be cleaned up without asking: planned DELETEs that were taken, and
/// expected objects that are still the planned ones. Objects that were only
/// attributed are left out, and so are protected kinds.
pub fn auto_cleanup_candidates(audit: &ResidualAudit, journal_deleted: &Vec<ResourceId>) -> (r: Vec<
    ResourceId,
>)
    ensures
        ids(r@) == auto_candidates(*audit, journal_deleted@),
{
    let mut out: Vec<ResourceId> = Vec::new();
    let deletes: &Vec<ResidualItem> = &audit.planned_delete_still_present;
    let ghost f = |item: ResidualItem| delete_candidate(item, journal_deleted@);
    assert(ids(out@) =~= seq![]);
    assert(deletes@.take(0) =~= seq![]);
    for i in 0..deletes.len()
        invariant
            f == (|item: ResidualItem| delete_candidate(item, journal_deleted@)),
            ids(out@) == pick(deletes@.take(i as int), f),
    {
        proof {
            lemma_pick_take(deletes@, f, i as int);
        }
        let item: &ResidualItem = &deletes[i];
        match &item.live_uid {
            Some(uid) => {
                if contains_object(journal_deleted, &item.resource) && !protected_kind(
                    item.resource.kind.as_str(),
                ) {
                    let rid = item.resource.with_uid(Some(uid.clone()));
                    push_id(&mut out, &rid);
                    assert(rid@ == live_identity(*item, uid@));
                }
            },
            None => {},
        }
    }
    assert(deletes@.take(deletes@.len() as int) =~= deletes@);
    let expects: &Vec<ResidualItem> = &audit.planned_expect_still_present;
    let ghost first = pick(deletes@, f);
    let ghost g = |item: ResidualItem| expect_candidate(item);
    assert(expects@.take(0) =~= seq![]);
    assert(first + seq![] =~= first);
    for i in 0..expects.len()
        invariant
            g == (|item: ResidualItem| expect_candidate(item)),
            ids(out@) == first + pick(expects@.take(i as int), g),
    {
        proof {
            lemma_pick_take(expects@, g, i as int);
        }
        let ghost part = pick(expects@.take(i as int), g);
        let item: &ResidualItem = &expects[i];
        match &item.live_uid {
            Some(uid) => {
                if same_opt(&item.resource.uid, &item.live_uid) && !protected_kind(
                    item.resource.kind.as_str(),
                ) {
                    let rid = item.resource.with_uid(Some(uid.clone()));
                    push_id(&mut out, &rid);
                    assert(rid@ == live_identity(*item, uid@));
                    assert((first + part).push(rid@) =~= first + part.push(rid@));
                }
            },
            None => {},
        }
    }
    assert(expects@.take(expects@.len() as int) =~= expects@);
    out
}

/// What is cleaned up without asking was found by the audit under the UID that it
/// is deleted by, and is of no protected kind.
pub proof fn law_auto_cleanup_is_bound(
    audit: ResidualAudit,
    deleted: Seq<ResourceId>,
    id: ResourceIdView,
)
    requires
        auto_candidates(audit, deleted).contains(id),
    ensures
        in_audit(audit, id),
        id.uid is Some,
        !is_protected(id.kind),
{
    let f = |item: ResidualItem| delete_candidate(item, deleted);
    let g = |item: ResidualItem| expect_candidate(item);
    let deletes = audit.planned_delete_still_present@;
    let expects = audit.planned_expect_still_present@;
    lemma_pick_members(deletes, f);
    lemma_pick_members(expects, g);
    crate::lists::lemma_contains_add(pick(deletes, f), pick(expects, g), id);
    if pick(deletes, f).contains(id) {
        let i = choose|i: int| 0 <= i < deletes.len() && f(#[trigger] deletes[i]) == Some(id);
        assert(same_object(deletes[i].resource@, id));
    } else {
        let i = choose|i: int| 0 <= i < expects.len() && g(#[trigger] expects[i]) == Some(id);
        assert(same_object(expects[i].resource@, id));
    }
}

/// A planned DELETE that was not taken is never repeated without asking.
pub proof fn law_auto_cleanup_needs_authority(
    audit: ResidualAudit,
    deleted: Seq<ResourceId>,
    id: ResourceIdView,
)
    requires
        auto_candidates(audit, deleted).contains(id),
        !has_object(deleted, id),
    ensures
        exists|i: int|
            0 <= i < audit.planned_expect_still_present@.len()
                && (#[trigger] audit.planned_expect_still_present@[i]).resource@ == id,
{
    let f = |item: ResidualItem| delete_candidate(item, deleted);
    let g = |item: ResidualItem| expect_candidate(item);
    let deletes = audit.planned_delete_still_present@;
    let expects = audit.planned_expect_still_present@;
    lemma_pick_members(deletes, f);
    lemma_pick_members(expects, g);
    crate::lists::lemma_contains_add(pick(deletes, f), pick(expects, g), id);
    if pick(deletes, f).contains(id) {
        let i = choose|i: int| 0 <= i < deletes.len() && f(#[trigger] deletes[i]) == Some(id);
        let k = choose|k: int|
            0 <= k < deleted.len() && same_object((#[trigger] deleted[k])@, deletes[i].resource@);
        assert(same_object(deleted[k]@, id));
    } else {
        let i = choose|i: int| 0 <= i < expects.len() && g(#[trigger] expects[i]) == Some(id);
        assert(expects[i].resource@ =~= id);
    }
}

/// `kind/name` of what a match speaks of.
pub open spec fn match_label(m: ResourceMatch) -> Seq<char> {
    m.kind@ + "/"@ + m.name@
}

fn match_text(m: &ResourceMatch) -> (r: String)
    ensures
        r@ == match_label(*m),
{
    m.kind.clone().concat("/").concat(m.name.as_str())
}

/// One of `pairs` is this key with this value.
pub open spec fn has_pair(pairs: Seq<(String, String)>, key: Seq<char>, value: Seq<char>) -> bool {
    exists|i: int| 0 <= i < pairs.len() && (#[trigger] pairs[i]).0@ == key && pairs[i].1@ == value
}

/// Whether one of `pairs` is this key with this value.
pub fn contains_pair(pairs: &Vec<(String, String)>, key: &String, value: &String) -> (r: bool)
    ensures
        r == has_pair(pairs@, key@, value@),
{
    for i in 0..pairs.len()
        invariant
            forall|j: int|
                0 <= j < i ==> !((#[trigger] pairs@[j]).0@ == key@ && pairs@[j].1@ == value@),
    {
        if pairs[i].0 == *key && pairs[i].1 == *value {
            return true;
        }
    }
    false
}

/// Why a saved signature is not borne out by what is seen now.
pub open spec fn signature_fault(
    sig: SavedEvidenceSignature,
    now: ResidualEvidence,
    m: ResourceMatch,
) -> Option<Seq<char>> {
    match sig {
        SavedEvidenceSignature::Label { key, value } => if has_pair(
            now.matching_labels@,
            key@,
            value@,
        ) {
            None
        } else {
            Some(
                match_label(m) + ": saved label "@ + key@ + "="@ + value@
                    + " not in current residual evidence"@,
            )
        },
        SavedEvidenceSignature::ManagedFieldManager { manager } => if has_text(
            now.matching_managers@,
            manager@,
        ) {
            None
        } else {
            Some(
                match_label(m) + ": saved manager "@ + manager@
                    + " not in current residual evidence"@,
            )
        },
        SavedEvidenceSignature::ServiceAccount { .. } => if now.service_account_match {
            None
        } else {
            Some(
                match_label(m) + ": saved service account match not confirmed in current evidence"@,
            )
        },
        _ => None,
    }
}

/// The first fault among the signatures from position `i` on.
pub open spec fn first_signature_fault(
    sigs: Seq<SavedEvidenceSignature>,
    now: ResidualEvidence,
    m: ResourceMatch,
    i: nat,
) -> Option<Seq<char>>
    decreases sigs.len() - i,
{
    if i >= sigs.len() {
        None
    } else {
        match signature_fault(sigs[i as int], now, m) {
            Some(e) => Some(e),
            None => first_signature_fault(sigs, now, m, i + 1),
        }
    }
}

/// A saved decision rests on nothing.
pub open spec fn is_empty_basis(basis: DecisionBasis) -> bool {
    basis.decisive_evidence@.len() == 0 && basis.provenance is None
}

/// What is said of a decision that rests on nothing.
pub open spec fn empty_basis_fault(m: ResourceMatch) -> Seq<char> {
    match_label(m) + ": saved residual DELETE has empty basis — cannot replay"@
}

/// Why the grounds of a saved decision do not hold any more: there are none, or a
/// signature is not borne out.
pub open spec fn basis_fault(
    basis: DecisionBasis,
    now: ResidualEvidence,
    m: ResourceMatch,
) -> Option<
    Seq<char>,
> {
    if is_empty_basis(basis) {
        Some(empty_basis_fault(m))
    } else {
        first_signature_fault(basis.decisive_evidence@, now, m, 0)
    }
}

fn check_signature(sig: &SavedEvidenceSignature, now: &ResidualEvidence, m: &ResourceMatch) -> (r:
    Option<String>)
    ensures
        opt_text(r) == signature_fault(*sig, *now, *m),
{
    match sig {
        SavedEvidenceSignature::Label { key, value } => {
            if contains_pair(&now.matching_labels, key, value) {
                None
            } else {
                Some(
                    match_text(m).concat(": saved label ").concat(key.as_str()).concat("=").concat(
                        value.as_str(),
                    ).concat(" not in current residual evidence"),
                )
            }
        },
        SavedEvidenceSignature::ManagedFieldManager { manager } => {
            if has(&now.matching_managers, manager.as_str()) {
                None
            } else {
                Some(
                    match_text(m).concat(": saved manager ").concat(manager.as_str()).concat(
                        " not in current residual evidence",
                    ),
                )
            }
        },
        SavedEvidenceSignature::ServiceAccount { .. } => {
            if now.service_account_match {
                None
            } else {
                Some(
                    match_text(m).concat(
                        ": saved service account match not confirmed in current evidence",
                    ),
                )
            }
        },
        _ => None,
    }
}

/// What is said of a decision that rests on nothing, or `None`.
fn check_basis(basis: &DecisionBasis, m: &ResourceMatch) -> (r: Option<String>)
    ensures
        opt_text(r) == if is_empty_basis(*basis) {
            Some(empty_basis_fault(*m))
        } else {
            None
        },
{
    if basis.decisive_evidence.len() == 0 && basis.provenance.is_none() {
        Some(match_text(m).concat(": saved residual DELETE has empty basis — cannot replay"))
    } else {
        None
    }
}

/// Why the grounds of a saved decision do not hold any more, or `None`.
pub fn check_residual_evidence_drift(
    saved_basis: &DecisionBasis,
    current: &ResidualEvidence,
    spec: &ResourceMatch,
) -> (r: Option<String>)
    ensures
        opt_text(r) == basis_fault(*saved_basis, *current, *spec),
{
    let sigs: &Vec<SavedEvidenceSignature> = &saved_basis.decisive_evidence;
    let empty = check_basis(saved_basis, spec);
    if empty.is_some() {
        return empty;
    }
    for i in 0..sigs.len()
        invariant
            first_signature_fault(sigs@, *current, *spec, 0) == first_signature_fault(
                sigs@,
                *current,
                *spec,
                i as nat,
            ),
            basis_fault(*saved_basis, *current, *spec) == first_signature_fault(
                sigs@,
                *current,
                *spec,
                0,
            ),
    {
        let fault = check_signature(&sigs[i], current, spec);
        if fault.is_some() {
            return fault;
        }
    }
    None
}

/// What a saved decision comes to.
pub enum Verdict {
    /// Nothing is to be done.
    Ignored,
    Candidate(ResourceIdView),
    Fault(Seq<char>),
}

/// The first residual from position `i` on that a match speaks of.
pub open spec fn residual_for(items: Seq<AttributedResidual>, m: ResourceMatch, i: nat) -> Option<
    AttributedResidual,
>
    decreases items.len() - i,
{
    if i >= items.len() {
        None
    } else if is_match(m, items[i as int].resource@) {
        Some(items[i as int])
    } else {
        residual_for(items, m, i + 1)
    }
}

/// The first planned item from position `i` on that a match speaks of.
pub open spec fn item_for(
    items: Seq<ResidualItem>,
    m: ResourceMatch,
    i: nat,
) -> Option<ResidualItem>
    decreases items.len() - i,
{
    if i >= items.len() {
        None
    } else if is_match(m, items[i as int].resource@) {
        Some(items[i as int])
    } else {
        item_for(items, m, i + 1)
    }
}

/// The residual that a match speaks of, attributed ones first.
pub open spec fn attributed_for(audit: ResidualAudit, m: ResourceMatch) -> Option<
    AttributedResidual,
> {
    match residual_for(audit.likely_operator_residual@, m, 0) {
        Some(r) => Some(r),
        None => residual_for(audit.unattributed@, m, 0),
    }
}

/// The planned item that a match speaks of, planned DELETEs first.
pub open spec fn planned_for(audit: ResidualAudit, m: ResourceMatch) -> Option<ResidualItem> {
    match item_for(audit.planned_delete_still_present@, m, 0) {
        Some(r) => Some(r),
        None => item_for(audit.planned_expect_still_present@, m, 0),
    }
}

/// What a usable decision comes to, in view of the audit.
pub open spec fn usable_verdict(d: SavedDecision, audit: ResidualAudit) -> Verdict {
    let m = d.match_spec;
    match attributed_for(audit, m) {
        Some(residual) => if residual.confidence == ResidualConfidence::NoEvidence {
            Verdict::Fault(match_label(m) + ": current confidence is None — cannot cleanup"@)
        } else {
            match basis_fault(d.basis, residual.evidence, m) {
                Some(e) => Verdict::Fault(e),
                None => if residual.resource.uid is Some {
                    Verdict::Candidate(residual.resource@)
                } else {
                    Verdict::Fault(
                        match_label(m) + ": no UID in current residual — cannot bind"@,
                    )
                },
            }
        },
        None => match planned_for(audit, m) {
            Some(item) => if is_empty_basis(d.basis) {
                Verdict::Fault(empty_basis_fault(m))
            } else {
                match item.live_uid {
                    Some(uid) => Verdict::Candidate(live_identity(item, uid@)),
                    None => Verdict::Ignored,
                }
            },
            None => Verdict::Fault(match_label(m) + ": not found in current residual set"@),
        },
    }
}

/// A decision that may be carried out, as far as it goes by itself.
pub open spec fn is_usable_decision(d: SavedDecision) -> bool {
    &&& d.action == SavedAction::Delete
    &&& match_fault(d.match_spec) is None
    &&& d.approval != ApprovalKind::ExplicitUnattributed
}

/// Two matches speak of the same resource.
pub open spec fn same_match(a: ResourceMatch, b: ResourceMatch) -> bool {
    &&& opt_text(a.group) == opt_text(b.group)
    &&& a.kind@ == b.kind@
    &&& opt_text(a.namespace) == opt_text(b.namespace)
    &&& a.name@ == b.name@
}

/// A usable decision on the same resource stands before position `i`.
pub open spec fn is_repeated(ds: Seq<SavedDecision>, i: int) -> bool {
    exists|j: int|
        0 <= j < i && is_usable_decision(#[trigger] ds[j]) && same_match(
            ds[j].match_spec,
            ds[i].match_spec,
        )
}

/// What the decision at position `i` comes to.
pub open spec fn verdict(ds: Seq<SavedDecision>, audit: ResidualAudit, i: int) -> Verdict {
    let d = ds[i];
    if d.action != SavedAction::Delete {
        Verdict::Ignored
    } else if match_fault(d.match_spec) is Some {
        Verdict::Fault(
            match_label(d.match_spec) + ": invalid match spec — "@ + match_fault(
                d.match_spec,
            )->0,
        )
    } else if d.approval == ApprovalKind::ExplicitUnattributed {
        Verdict::Fault(
            match_label(d.match_spec)
                + ": ExplicitUnattributed cannot be auto-applied for residual cleanup"@,
        )
    } else if is_repeated(ds, i) {
        Verdict::Ignored
    } else {
        usable_verdict(d, audit)
    }
}

/// The candidates that the first `n` decisions give.
pub open spec fn saved_candidates(ds: Seq<SavedDecision>, audit: ResidualAudit, n: nat) -> Seq<
    ResourceIdView,
>
    decreases n,
{
    if n == 0 {
        seq![]
    } else {
        let before = saved_candidates(ds, audit, (n - 1) as nat);
        match verdict(ds, audit, n - 1) {
            Verdict::Candidate(id) => before.push(id),
            _ => before,
        }
    }
}

/// The faults that the first `n` decisions give.
pub open spec fn saved_faults(
    ds: Seq<SavedDecision>,
    audit: ResidualAudit,
    n: nat,
) -> Seq<Seq<char>>
    decreases n,
{
    if n == 0 {
        seq![]
    } else {
        let before = saved_faults(ds, audit, (n - 1) as nat);
        match verdict(ds, audit, n - 1) {
            Verdict::Fault(e) => before.push(e),
            _ => before,
        }
    }
}

fn find_residual<'a>(items: &'a Vec<AttributedResidual>, m: &ResourceMatch) -> (r: Option<
    &'a AttributedResidual,
>)
    ensures
        match r {
            Some(x) => residual_for(items@, *m, 0) == Some(*x),
            None => residual_for(items@, *m, 0) is None,
        },
{
    for i in 0..items.len()
        invariant
            residual_for(items@, *m, 0) == residual_for(items@, *m, i as nat),
    {
        if m.matches(&items[i].resource) {
            return Some(&items[i]);
        }
    }
    None
}

fn find_item<'a>(items: &'a Vec<ResidualItem>, m: &ResourceMatch) -> (r: Option<&'a ResidualItem>)
    ensures
        match r {
            Some(x) => item_for(items@, *m, 0) == Some(*x),
            None => item_for(items@, *m, 0) is None,
        },
{
    for i in 0..items.len()
        invariant
            item_for(items@, *m, 0) == item_for(items@, *m, i as nat),
    {
        if m.matches(&items[i].resource) {
            return Some(&items[i]);
        }
    }
    None
}

/// What a usable decision comes to: a candidate, a fault, or nothing.
fn judge(d: &SavedDecision, audit: &ResidualAudit) -> (r: Result<Option<ResourceId>, String>)
    ensures
        match r {
            Ok(Some(id)) => usable_verdict(*d, *audit) == Verdict::Candidate(id@),
            Ok(None) => usable_verdict(*d, *audit) is Ignored,
            Err(e) => usable_verdict(*d, *audit) == Verdict::Fault(e@),
        },
{
    let m: &ResourceMatch = &d.match_spec;
    let likely = find_residual(&audit.likely_operator_residual, m);
    let attributed = match likely {
        Some(x) => Some(x),
        None => find_residual(&audit.unattributed, m),
    };
    match attributed {
        Some(residual) => {
            if residual.confidence == ResidualConfidence::NoEvidence {
                return Err(match_text(m).concat(": current confidence is None — cannot cleanup"));
            }
            match check_residual_evidence_drift(&d.basis, &residual.evidence, m) {
                Some(e) => Err(e),
                None => if residual.resource.uid.is_some() {
                    Ok(Some(residual.resource.clone()))
                } else {
                    Err(match_text(m).concat(": no UID in current residual — cannot bind"))
                },
            }
        },
        None => {
            let deletes = find_item(&audit.planned_delete_still_present, m);
            let planned = match deletes {
                Some(x) => Some(x),
                None => find_item(&audit.planned_expect_still_present, m),
            };
            match planned {
                Some(item) => match check_basis(&d.basis, m) {
                    Some(e) => Err(e),
                    None => match &item.live_uid {
                        Some(uid) => {
                            let rid = item.resource.with_uid(Some(uid.clone()));
                            assert(rid@ == live_identity(*item, uid@));
                            Ok(Some(rid))
                        },
                        None => Ok(None),
                    },
                },
                None => Err(match_text(m).concat(": not found in current residual set")),
            }
        },
    }
}

fn repeats_earlier(ds: &Vec<SavedDecision>, i: usize) -> (r: bool)
    requires
        i < ds@.len(),
    ensures
        r == is_repeated(ds@, i as int),
{
    let m: &ResourceMatch = &ds[i].match_spec;
    for j in 0..i
        invariant
            i < ds@.len(),
            *m == ds@[i as int].match_spec,
            forall|k: int|
                0 <= k < j ==> !(is_usable_decision(#[trigger] ds@[k]) && same_match(
                    ds@[k].match_spec,
                    *m,
                )),
    {
        let d: &SavedDecision = &ds[j];
        let usable = d.action == SavedAction::Delete && d.match_spec.validate().is_ok()
            && d.approval != ApprovalKind::ExplicitUnattributed;
        if usable && same_opt(&d.match_spec.group, &m.group) && d.match_spec.kind == m.kind
            && same_opt(&d.match_spec.namespace, &m.namespace) && d.match_spec.name == m.name {
            assert(is_usable_decision(ds@[j as int]));
            return true;
        }
    }
    false
}

/// The objects that saved decisions ask to clean up, with the UIDs that they have
/// now; or every fault that stands against it.
pub fn validate_saved_residual_decisions(
    saved_decisions: &Vec<SavedDecision>,
    audit: &ResidualAudit,
) -> (r: Result<Vec<ResourceId>, Vec<String>>)
    ensures
        match r {
            Ok(v) => saved_faults(saved_decisions@, *audit, saved_decisions@.len()).len() == 0
                && ids(v@) == saved_candidates(saved_decisions@, *audit, saved_decisions@.len()),
            Err(e) => e@.len() > 0 && texts(e@) == saved_faults(
                saved_decisions@,
                *audit,
                saved_decisions@.len(),
            ),
        },
{
    let mut candidates: Vec<ResourceId> = Vec::new();
    let mut errors: Vec<String> = Vec::new();
    let ghost ds = saved_decisions@;
    assert(ids(candidates@) =~= seq![]);
    assert(texts(errors@) =~= seq![]);
    for i in 0..saved_decisions.len()
        invariant
            ds == saved_decisions@,
            ids(candidates@) == saved_candidates(ds, *audit, i as nat),
            texts(errors@) == saved_faults(ds, *audit, i as nat),
    {
        let d: &SavedDecision = &saved_decisions[i];
        let m: &ResourceMatch = &d.match_spec;
        if d.action == SavedAction::Delete {
            match m.validate() {
                Err(e) => {
                    push_text(
                        &mut errors,
                        match_text(m).concat(": invalid match spec — ").concat(e.as_str()),
                    );
                },
                Ok(_) => {
                    if d.approval == ApprovalKind::ExplicitUnattributed {
                        push_text(
                            &mut errors,
                            match_text(m).concat(
                                ": ExplicitUnattributed cannot be auto-applied for residual cleanup",
                            ),
                        );
                    } else if !repeats_earlier(saved_decisions, i) {
                        match judge(d, audit) {
                            Ok(Some(id)) => {
                                push_id(&mut candidates, &id);
                            },
                            Ok(None) => {},
                            Err(e) => {
                                push_text(&mut errors, e);
                            },
                        }
                    }
                },
            }
        }
    }
    assert(texts(errors@).len() == errors@.len());
    if errors.len() == 0 {
        Ok(candidates)
    } else {
        Err(errors)
    }
}

proof fn lemma_residual_for(items: Seq<AttributedResidual>, m: ResourceMatch, i: nat)
    requires
        residual_for(items, m, i) is Some,
    ensures
        items.contains(residual_for(items, m, i)->0),
    decreases items.len() - i,
{
    if !is_match(m, items[i as int].resource@) {
        lemma_residual_for(items, m, i + 1);
    }
}

proof fn lemma_item_for(items: Seq<ResidualItem>, m: ResourceMatch, i: nat)
    requires
        item_for(items, m, i) is Some,
    ensures
        items.contains(item_for(items, m, i)->0),
    decreases items.len() - i,
{
    if !is_match(m, items[i as int].resource@) {
        lemma_item_for(items, m, i + 1);
    }
}

/// What a saved decision makes a candidate was found by the audit, and carries the
/// UID that it was found under.
pub proof fn law_saved_candidate_is_bound(
    ds: Seq<SavedDecision>,
    audit: ResidualAudit,
    i: int,
    id: ResourceIdView,
)
    requires
        verdict(ds, audit, i) == Verdict::Candidate(id),
    ensures
        in_audit(audit, id),
        id.uid is Some,
{
    let m = ds[i].match_spec;
    match attributed_for(audit, m) {
        Some(x) => {
            if residual_for(audit.likely_operator_residual@, m, 0) is Some {
                lemma_residual_for(audit.likely_operator_residual@, m, 0);
            } else {
                lemma_residual_for(audit.unattributed@, m, 0);
            }
        },
        None => {
            let item = planned_for(audit, m)->0;
            assert(same_object(item.resource@, id));
            if item_for(audit.planned_delete_still_present@, m, 0) is Some {
                lemma_item_for(audit.planned_delete_still_present@, m, 0);
            } else {
                lemma_item_for(audit.planned_expect_still_present@, m, 0);
            }
        },
    }
}

proof fn lemma_faults_kept(ds: Seq<SavedDecision>, audit: ResidualAudit, i: nat, n: nat)
    requires
        i < n,
        verdict(ds, audit, i as int) is Fault,
    ensures
        saved_faults(ds, audit, n).len() > 0,
    decreases n,
{
    if i < n - 1 {
        lemma_faults_kept(ds, audit, i, (n - 1) as nat);
    }
}

/// A decision on a resource that nothing ties to the operator is never carried
/// out: it is a fault, and with a fault there is no list of candidates.
pub proof fn law_unattributed_is_refused(ds: Seq<SavedDecision>, audit: ResidualAudit, i: int)
    requires
        0 <= i < ds.len(),
        ds[i].action == SavedAction::Delete,
        ds[i].approval == ApprovalKind::ExplicitUnattributed,
    ensures
        verdict(ds, audit, i) is Fault,
        saved_faults(ds, audit, ds.len()).len() > 0,
{
    lemma_faults_kept(ds, audit, i as nat, ds.len());
}

/// No candidate comes from a decision that rests on nothing. Such a decision is a fault
/// unless a usable one on the same resource stands before it, and with a fault there is no
/// list of candidates.
pub proof fn law_empty_basis_is_refused(ds: Seq<SavedDecision>, audit: ResidualAudit, i: int)
    requires
        0 <= i < ds.len(),
        ds[i].action == SavedAction::Delete,
        is_empty_basis(ds[i].basis),
    ensures
        !(verdict(ds, audit, i) is Candidate),
        !is_repeated(ds, i) ==> verdict(ds, audit, i) is Fault,
        !is_repeated(ds, i) ==> saved_faults(ds, audit, ds.len()).len() > 0,
{
    if !is_repeated(ds, i) {
        lemma_faults_kept(ds, audit, i as nat, ds.len());
    }
}

/// Every planned DELETE that is still there is cleaned up without asking, where
/// the DELETE of an object with its group, version, kind, namespace and name was
/// taken and its kind is not protected: whether or not the object was made anew in
/// the meantime. It is deleted under the UID that it is live under.
pub proof fn law_auto_cleanup_takes_every_delete(
    audit: ResidualAudit,
    deleted: Seq<ResourceId>,
    i: int,
    k: int,
)
    requires
        0 <= i < audit.planned_delete_still_present@.len(),
        0 <= k < deleted.len(),
        audit.planned_delete_still_present@[i].live_uid is Some,
        ({
            let there = audit.planned_delete_still_present@[i].resource@;
            let taken = deleted[k]@;
            &&& taken.group == there.group
            &&& taken.version == there.version
            &&& taken.kind == there.kind
            &&& taken.namespace == there.namespace
            &&& taken.name == there.name
            &&& !is_protected(there.kind)
        }),
    ensures
        auto_candidates(audit, deleted).contains(
            (ResourceIdView {
                group: audit.planned_delete_still_present@[i].resource.group@,
                version: audit.planned_delete_still_present@[i].resource.version@,
                kind: audit.planned_delete_still_present@[i].resource.kind@,
                namespace: opt_text(audit.planned_delete_still_present@[i].resource.namespace),
                name: audit.planned_delete_still_present@[i].resource.name@,
                uid: Some(audit.planned_delete_still_present@[i].live_uid->0@),
            }),
        ),
{
    let f = |item: ResidualItem| delete_candidate(item, deleted);
    let g = |item: ResidualItem| expect_candidate(item);
    let deletes = audit.planned_delete_still_present@;
    let expects = audit.planned_expect_still_present@;
    lemma_pick_members(deletes, f);
    assert(same_object(deleted[k]@, deletes[i].resource@));
    let id = live_identity(deletes[i], deletes[i].live_uid->0@);
    assert(f(deletes[i]) == Some(id));
    crate::lists::lemma_contains_add(pick(deletes, f), pick(expects, g), id);
}

/// Every object that was expected to go and is still there under the planned UID
/// is cleaned up without asking, where its kind is not protected; no DELETE of it
/// need have been taken.
pub proof fn law_auto_cleanup_takes_every_expected(
    audit: ResidualAudit,
    deleted: Seq<ResourceId>,
    i: int,
)
    requires
        0 <= i < audit.planned_expect_still_present@.len(),
        audit.planned_expect_still_present@[i].live_uid is Some,
        audit.planned_expect_still_present@[i].resource.uid is Some,
        audit.planned_expect_still_present@[i].resource.uid->0@
            == audit.planned_expect_still_present@[i].live_uid->0@,
        !is_protected(audit.planned_expect_still_present@[i].resource.kind@),
    ensures
        auto_candidates(audit, deleted).contains(
            audit.planned_expect_still_present@[i].resource@,
        ),
{
    let f = |item: ResidualItem| delete_candidate(item, deleted);
    let g = |item: ResidualItem| expect_candidate(item);
    let deletes = audit.planned_delete_still_present@;
    let expects = audit.planned_expect_still_present@;
    lemma_pick_members(expects, g);
    let id = expects[i].resource@;
    assert(live_identity(expects[i], expects[i].live_uid->0@) =~= id);
    assert(g(expects[i]) == Some(id));
    crate::lists::lemma_contains_add(pick(deletes, f), pick(expects, g), id);
}

/// Nothing else is cleaned up without asking: each candidate is the live object of
/// a planned DELETE that was taken, or an expected object under its planned UID,
/// and of no protected kind.
pub proof fn law_auto_cleanup_takes_nothing_else(
    audit: ResidualAudit,
    deleted: Seq<ResourceId>,
    id: ResourceIdView,
)
    requires
        auto_candidates(audit, deleted).contains(id),
    ensures
        !is_protected(id.kind),
        ({
            ||| exists|i: int, k: int|
                #![trigger audit.planned_delete_still_present@[i], deleted[k]]
                {
                    let item = audit.planned_delete_still_present@[i];
                    &&& 0 <= i < audit.planned_delete_still_present@.len()
                    &&& 0 <= k < deleted.len()
                    &&& item.live_uid matches Some(uid)
                    &&& id.uid == Some(uid@)
                    &&& id.group == item.resource.group@ && id.group == deleted[k].group@
                    &&& id.version == item.resource.version@ && id.version == deleted[k].version@
                    &&& id.kind == item.resource.kind@ && id.kind == deleted[k].kind@
                    &&& id.namespace == opt_text(item.resource.namespace)
                    &&& id.namespace == opt_text(deleted[k].namespace)
                    &&& id.name == item.resource.name@ && id.name == deleted[k].name@
                }
            ||| exists|i: int|
                0 <= i < audit.planned_expect_still_present@.len() && (
                #[trigger] audit.planned_expect_still_present@[i]).resource@ == id && opt_text(
                    audit.planned_expect_still_present@[i].live_uid,
                ) == id.uid && id.uid is Some
        }),
{
    let f = |item: ResidualItem| delete_candidate(item, deleted);
    let g = |item: ResidualItem| expect_candidate(item);
    let deletes = audit.planned_delete_still_present@;
    let expects = audit.planned_expect_still_present@;
    lemma_pick_members(deletes, f);
    lemma_pick_members(expects, g);
    crate::lists::lemma_contains_add(pick(deletes, f), pick(expects, g), id);
    if pick(deletes, f).contains(id) {
        let i = choose|i: int| 0 <= i < deletes.len() && f(#[trigger] deletes[i]) == Some(id);
        let k = choose|k: int|
            0 <= k < deleted.len() && same_object((#[trigger] deleted[k])@, deletes[i].resource@);
        assert(same_object(deleted[k]@, id));
    } else {
        let i = choose|i: int| 0 <= i < expects.len() && g(#[trigger] expects[i]) == Some(id);
        assert(expects[i].resource@ =~= id);
    }
}

} // verus!
