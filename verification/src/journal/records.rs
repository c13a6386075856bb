//! Entries of the journal: what is written down before and after a change.

use vstd::prelude::*;
use vstd::string::*;

use crate::executor::result::{id_texts, preserved, BarrierTimeout, ExecutionResult, TimeoutView};
use crate::journal::{
    BarrierTimeoutRecord, CleanupDecision, CleanupResult, ExecutionRecord,
    FinalizerRecoveryRecord, FinalizerRecoveryResult, PreservedRecord, PreservedView,
    ReDeleteRecord, ReDeleteResult,
};
use crate::lists::{
    absorb, absorbed, copy_noted, ids, last_index, lemma_last_index, lemma_no_last_index, noted,
    Noted,
};
use crate::plan::PlannedPreserved;
use crate::resource::{
    copy_ids, same_object, ResourceId, ResourceIdView,
};
use crate::text::{copy_texts, same};

verus! {

/// The contents of the records of what was left in place.
pub open spec fn preserved_records(v: Seq<PreservedRecord>) -> Seq<PreservedView> {
    v.map_values(|p: PreservedRecord| p@)
}

fn record_preserved(v: &Vec<PlannedPreserved>) -> (r: Vec<PreservedRecord>)
    ensures
        preserved_records(r@) == preserved(v@),
{
    let mut out: Vec<PreservedRecord> = Vec::new();
    for i in 0..v.len()
        invariant
            preserved_records(out@) =~= preserved(v@).take(i as int),
    {
        let ghost before = out@;
        out.push(PreservedRecord::of(&v[i]));
        assert(preserved_records(out@) =~= preserved_records(before).push(v@[i as int]@));
    }
    assert(preserved_records(out@) =~= preserved(v@));
    out
}

/// Writes down how far a run has come. What is recorded as deleted stays so.
pub fn record_progress(record: &mut ExecutionRecord, result: &ExecutionResult)
    ensures
        final(record).phases_completed == result.phases_completed,
        final(record).phases_total == old(record).phases_total,
        ids(final(record).deleted@) == absorbed(ids(old(record).deleted@), result@.deleted),
        ids(final(record).already_gone@) == result@.already_gone,
        noted(final(record).failed@) == result@.failed,
        preserved_records(final(record).kept@) == result@.kept,
        preserved_records(final(record).reviewed@) == result@.reviewed,
        final(record).barrier_timeout == old(record).barrier_timeout,
        final(record).re_delete_records == old(record).re_delete_records,
{
    record.phases_completed = result.phases_completed;
    absorb(&mut record.deleted, &result.deleted);
    record.already_gone = copy_ids(&result.already_gone);
    record.failed = copy_noted(&result.failed);
    record.kept = record_preserved(&result.kept);
    record.reviewed = record_preserved(&result.reviewed);
}

/// Writes down the DELETEs that were taken in a wave, and all failures so far.
pub fn record_wave(record: &mut ExecutionRecord, accepted: &Vec<ResourceId>, failed: &Vec<Noted>)
    ensures
        ids(final(record).deleted@) == absorbed(ids(old(record).deleted@), ids(accepted@)),
        noted(final(record).failed@) == noted(failed@),
        final(record).phases_completed == old(record).phases_completed,
        final(record).phases_total == old(record).phases_total,
        final(record).already_gone == old(record).already_gone,
        final(record).kept == old(record).kept,
        final(record).reviewed == old(record).reviewed,
        final(record).barrier_timeout == old(record).barrier_timeout,
        final(record).re_delete_records == old(record).re_delete_records,
{
    absorb(&mut record.deleted, accepted);
    record.failed = copy_noted(failed);
}

/// The contents of a [`BarrierTimeoutRecord`].
pub open spec fn timeout_record(t: BarrierTimeoutRecord) -> TimeoutView {
    TimeoutView {
        phase: t.phase@,
        remaining: ids(t.remaining@),
        finalizers: id_texts(t.finalizer_details@),
    }
}

/// A copy of a list of identities with lists of texts.
pub fn copy_details(v: &Vec<(ResourceId, Vec<String>)>) -> (r: Vec<(ResourceId, Vec<String>)>)
    ensures
        id_texts(r@) == id_texts(v@),
{
    let mut out: Vec<(ResourceId, Vec<String>)> = Vec::new();
    for i in 0..v.len()
        invariant
            id_texts(out@) =~= id_texts(v@).take(i as int),
    {
        let ghost before = out@;
        out.push((v[i].0.clone(), copy_texts(&v[i].1)));
        assert(id_texts(out@) =~= id_texts(before).push(id_texts(v@)[i as int]));
    }
    assert(id_texts(out@) =~= id_texts(v@));
    out
}

/// Writes down what stopped a run.
pub fn record_timeout(record: &mut ExecutionRecord, timeout: &BarrierTimeout)
    ensures
        final(record).barrier_timeout is Some,
        timeout_record(final(record).barrier_timeout->0) == timeout@,
        *final(record) == (ExecutionRecord {
            barrier_timeout: final(record).barrier_timeout,
            ..*old(record)
        }),
{
    record.barrier_timeout =
    Some(
        BarrierTimeoutRecord {
            phase: timeout.phase.clone(),
            remaining: copy_ids(&timeout.remaining),
            finalizer_details: copy_details(&timeout.finalizers),
        },
    );
}

/// The contents of a [`ReDeleteResult`].
#[verifier::ext_equal]
pub enum ReDeleteResultView {
    Authorized,
    Accepted,
    Gone,
    Failed(Seq<char>),
    UnknownOutcome(Seq<char>),
}

impl View for ReDeleteResult {
    type V = ReDeleteResultView;

    open spec fn view(&self) -> ReDeleteResultView {
        match self {
            ReDeleteResult::Authorized => ReDeleteResultView::Authorized,
            ReDeleteResult::Accepted => ReDeleteResultView::Accepted,
            ReDeleteResult::Gone => ReDeleteResultView::Gone,
            ReDeleteResult::Failed(s) => ReDeleteResultView::Failed(s@),
            ReDeleteResult::UnknownOutcome(s) => ReDeleteResultView::UnknownOutcome(s@),
        }
    }
}

/// The contents of a [`ReDeleteRecord`].
#[verifier::ext_equal]
pub struct ReDeleteView {
    pub identity: ResourceIdView,
    pub original_uid: Seq<char>,
    pub new_uid: Seq<char>,
    pub result: ReDeleteResultView,
}

impl View for ReDeleteRecord {
    type V = ReDeleteView;

    open spec fn view(&self) -> ReDeleteView {
        ReDeleteView {
            identity: self.resource_identity@,
            original_uid: self.original_uid@,
            new_uid: self.new_uid@,
            result: self.result@,
        }
    }
}

/// The contents of a list of re-delete records.
pub open spec fn redeletes(v: Seq<ReDeleteRecord>) -> Seq<ReDeleteView> {
    v.map_values(|r: ReDeleteRecord| r@)
}

/// The record is about the DELETE of `new_uid` in place of `original_uid`.
pub open spec fn is_redelete_of(
    r: ReDeleteView,
    id: ResourceIdView,
    original_uid: Seq<char>,
    new_uid: Seq<char>,
) -> bool {
    same_object(r.identity, id) && r.original_uid == original_uid && r.new_uid == new_uid
}

/// The DELETE that the record is about was taken.
pub open spec fn was_taken(r: ReDeleteView) -> bool {
    r.result is Accepted || r.result is Gone
}

/// A DELETE of `new_uid` in place of `original_uid` was taken.
pub open spec fn redelete_taken(
    records: Seq<ReDeleteView>,
    id: ResourceIdView,
    original_uid: Seq<char>,
    new_uid: Seq<char>,
) -> bool {
    exists|i: int|
        0 <= i < records.len() && is_redelete_of(#[trigger] records[i], id, original_uid, new_uid)
            && was_taken(records[i])
}

impl ReDeleteRecord {
    /// Whether the DELETE that the record is about was taken.
    pub fn taken(&self) -> (r: bool)
        ensures
            r == was_taken(self@),
    {
        match &self.result {
            ReDeleteResult::Accepted | ReDeleteResult::Gone => true,
            _ => false,
        }
    }

    /// Whether the record is about the DELETE of `new_uid` in place of `original_uid`.
    pub fn is_of(&self, id: &ResourceId, original_uid: &str, new_uid: &str) -> (r: bool)
        ensures
            r == is_redelete_of(self@, id@, original_uid@, new_uid@),
    {
        self.resource_identity.is_same_object(id) && same(
            self.original_uid.as_str(),
            original_uid,
        ) && same(self.new_uid.as_str(), new_uid)
    }
}

/// Whether a DELETE of `new_uid` in place of `original_uid` was taken.
pub fn has_taken_redelete(
    records: &Vec<ReDeleteRecord>,
    id: &ResourceId,
    original_uid: &str,
    new_uid: &str,
) -> (r: bool)
    ensures
        r == redelete_taken(redeletes(records@), id@, original_uid@, new_uid@),
{
    let ghost all = redeletes(records@);
    for i in 0..records.len()
        invariant
            all == redeletes(records@),
            forall|k: int|
                0 <= k < i ==> !(is_redelete_of(#[trigger] all[k], id@, original_uid@, new_uid@)
                    && was_taken(all[k])),
    {
        assert(all[i as int] == records@[i as int]@);
        if records[i].is_of(id, original_uid, new_uid) && records[i].taken() {
            assert(is_redelete_of(all[i as int], id@, original_uid@, new_uid@));
            return true;
        }
    }
    false
}

/// Writes down the leave to delete `new_uid` in place of `original_uid`, before
/// the DELETE is sent.
pub fn authorize_redelete(
    records: &mut Vec<ReDeleteRecord>,
    id: &ResourceId,
    original_uid: &str,
    new_uid: &str,
)
    ensures
        redeletes(final(records)@) == redeletes(old(records)@).push(
            ReDeleteView {
                identity: ResourceIdView { uid: None, ..id@ },
                original_uid: original_uid@,
                new_uid: new_uid@,
                result: ReDeleteResultView::Authorized,
            },
        ),
{
    let ghost before = records@;
    let rec = ReDeleteRecord {
        resource_identity: id.with_uid(None),
        original_uid: original_uid.to_owned(),
        new_uid: new_uid.to_owned(),
        result: ReDeleteResult::Authorized,
    };
    let ghost v = rec@;
    records.push(rec);
    assert(redeletes(records@) =~= redeletes(before).push(v));
}

/// The records after the last one about a DELETE has got its result.
pub open spec fn redelete_settled(
    records: Seq<ReDeleteView>,
    id: ResourceIdView,
    original_uid: Seq<char>,
    new_uid: Seq<char>,
    result: ReDeleteResultView,
) -> Seq<ReDeleteView> {
    match last_index(
        records,
        |r: ReDeleteView| is_redelete_of(r, id, original_uid, new_uid),
    ) {
        Some(i) => records.update(i, ReDeleteView { result, ..records[i] }),
        None => records,
    }
}

/// Writes down what came of a DELETE, in the last record about it.
pub fn settle_redelete(
    records: &mut Vec<ReDeleteRecord>,
    id: &ResourceId,
    original_uid: &str,
    new_uid: &str,
    result: ReDeleteResult,
)
    ensures
        redeletes(final(records)@) == redelete_settled(
            redeletes(old(records)@),
            id@,
            original_uid@,
            new_uid@,
            result@,
        ),
{
    let ghost all = redeletes(records@);
    let ghost p = |r: ReDeleteView| is_redelete_of(r, id@, original_uid@, new_uid@);
    let ghost rv = result@;
    let mut i: usize = records.len();
    while i > 0
        invariant
            i <= records@.len(),
            records@ == old(records)@,
            all == redeletes(records@),
            rv == result@,
            p == (|r: ReDeleteView| is_redelete_of(r, id@, original_uid@, new_uid@)),
            forall|k: int| i <= k < all.len() ==> !p(#[trigger] all[k]),
        decreases i,
    {
        i = i - 1;
        assert(all[i as int] == records@[i as int]@);
        if records[i].is_of(id, original_uid, new_uid) {
            proof {
                lemma_last_index(all, p, i as int);
            }
            records[i].result = result;
            assert(redeletes(records@) =~= all.update(
                i as int,
                ReDeleteView { result: rv, ..all[i as int] },
            ));
            return ;
        }
    }
    proof {
        lemma_no_last_index(all, p);
    }
}

/// The identities of a list with notes.
pub open spec fn any_same_object(v: Seq<(ResourceIdView, Seq<char>)>, id: ResourceIdView) -> bool {
    exists|i: int| 0 <= i < v.len() && same_object((#[trigger] v[i]).0, id)
}

/// Whether one of `v` is the same object, whatever its UID.
pub fn has_same_object(v: &Vec<Noted>, id: &ResourceId) -> (r: bool)
    ensures
        r == any_same_object(noted(v@), id@),
{
    let ghost all = noted(v@);
    for i in 0..v.len()
        invariant
            all == noted(v@),
            forall|k: int| 0 <= k < i ==> !same_object((#[trigger] all[k]).0, id@),
    {
        assert(all[i as int].0 == v@[i as int].0@);
        if v[i].0.is_same_object(id) {
            assert(same_object(all[i as int].0, id@));
            return true;
        }
    }
    false
}

/// A record after the objects of `authorities` are all gone.
pub open spec fn gone_record(
    r: ReDeleteView,
    authorities: Seq<(ResourceIdView, Seq<char>)>,
) -> ReDeleteView {
    if r.result is Accepted && any_same_object(authorities, r.identity) {
        ReDeleteView { result: ReDeleteResultView::Gone, ..r }
    } else {
        r
    }
}

/// Writes down that the objects of `authorities` are all gone.
pub fn confirm_redeletes(records: &mut Vec<ReDeleteRecord>, authorities: &Vec<Noted>)
    ensures
        redeletes(final(records)@) == redeletes(old(records)@).map_values(
            |r: ReDeleteView| gone_record(r, noted(authorities@)),
        ),
{
    let ghost all = redeletes(records@);
    let count: usize = records.len();
    for i in 0..count
        invariant
            count == records@.len() == all.len(),
            forall|k: int|
                0 <= k < i ==> (#[trigger] records@[k])@ == gone_record(
                    all[k],
                    noted(authorities@),
                ),
            forall|k: int| i <= k < records@.len() ==> (#[trigger] records@[k])@ == all[k],
    {
        let accepted = match &records[i].result {
            ReDeleteResult::Accepted => true,
            _ => false,
        };
        if accepted && has_same_object(authorities, &records[i].resource_identity) {
            records[i].result = ReDeleteResult::Gone;
        }
    }
    assert(redeletes(records@) =~= all.map_values(
        |r: ReDeleteView| gone_record(r, noted(authorities@)),
    ));
}

/// The contents of a [`FinalizerRecoveryResult`].
#[verifier::ext_equal]
pub enum RecoveryResultView {
    PatchRequested,
    Stripped,
    Gone,
    Failed(Seq<char>),
}

impl View for FinalizerRecoveryResult {
    type V = RecoveryResultView;

    open spec fn view(&self) -> RecoveryResultView {
        match self {
            FinalizerRecoveryResult::PatchRequested => RecoveryResultView::PatchRequested,
            FinalizerRecoveryResult::Stripped => RecoveryResultView::Stripped,
            FinalizerRecoveryResult::Gone => RecoveryResultView::Gone,
            FinalizerRecoveryResult::Failed(s) => RecoveryResultView::Failed(s@),
        }
    }
}

/// The record is about `id` under the UID `live_uid`.
pub open spec fn is_recovery_of(
    r: FinalizerRecoveryRecord,
    id: ResourceIdView,
    live_uid: Seq<char>,
) -> bool {
    r.resource@ == id && r.live_uid@ == live_uid
}

/// `after` is `before` with the last record about the object having got `result`.
pub open spec fn recovery_settled(
    before: Seq<FinalizerRecoveryRecord>,
    after: Seq<FinalizerRecoveryRecord>,
    id: ResourceIdView,
    live_uid: Seq<char>,
    result: FinalizerRecoveryResult,
) -> bool {
    match last_index(before, |r: FinalizerRecoveryRecord| is_recovery_of(r, id, live_uid)) {
        Some(i) => after == before.update(
            i,
            FinalizerRecoveryRecord { result, ..before[i] },
        ),
        None => after == before,
    }
}

/// Writes down what came of a recovery, in the last record about it.
pub fn settle_recovery(
    records: &mut Vec<FinalizerRecoveryRecord>,
    id: &ResourceId,
    live_uid: &str,
    result: FinalizerRecoveryResult,
)
    ensures
        recovery_settled(old(records)@, final(records)@, id@, live_uid@, result),
{
    let ghost p = |r: FinalizerRecoveryRecord| is_recovery_of(r, id@, live_uid@);
    let mut i: usize = records.len();
    while i > 0
        invariant
            i <= records@.len(),
            records@ == old(records)@,
            p == (|r: FinalizerRecoveryRecord| is_recovery_of(r, id@, live_uid@)),
            forall|k: int| i <= k < records@.len() ==> !p(#[trigger] records@[k]),
        decreases i,
    {
        i = i - 1;
        if records[i].resource.same(id) && same(records[i].live_uid.as_str(), live_uid) {
            proof {
                lemma_last_index(records@, p, i as int);
            }
            records[i].result = result;
            assert(records@ =~= old(records)@.update(
                i as int,
                FinalizerRecoveryRecord { result, ..old(records)@[i as int] },
            ));
            return ;
        }
    }
    proof {
        lemma_no_last_index(records@, p);
    }
}

/// Nobody knows what came of one of the recoveries.
pub open spec fn has_open_recovery(records: Seq<FinalizerRecoveryRecord>) -> bool {
    exists|i: int| 0 <= i < records.len() && (#[trigger] records[i]).result is PatchRequested
}

/// Whether nobody knows what came of one of the recoveries.
pub fn any_open_recovery(records: &Vec<FinalizerRecoveryRecord>) -> (r: bool)
    ensures
        r == has_open_recovery(records@),
{
    for i in 0..records.len()
        invariant
            forall|k: int| 0 <= k < i ==> !((#[trigger] records@[k]).result is PatchRequested),
    {
        match &records[i].result {
            FinalizerRecoveryResult::PatchRequested => {
                assert(records@[i as int].result is PatchRequested);
                return true;
            },
            _ => {},
        }
    }
    false
}

/// Writes down the decision to delete `id`, before the DELETE is sent.
pub fn record_decision(
    decisions: &mut Vec<CleanupDecision>,
    id: &ResourceId,
    approved_spec_name: Option<String>,
)
    ensures
        final(decisions)@.len() == old(decisions)@.len() + 1,
        final(decisions)@.drop_last() == old(decisions)@,
        final(decisions)@.last().resource == *id,
        final(decisions)@.last().bound_uid == id.uid,
        final(decisions)@.last().action@ == "delete"@,
        final(decisions)@.last().result is None,
        final(decisions)@.last().approved_spec_name == approved_spec_name,
{
    let decision = CleanupDecision {
        resource: id.clone(),
        bound_uid: crate::text::copy_opt(&id.uid),
        action: "delete".to_owned(),
        result: None,
        approved_spec_name,
    };
    decisions.push(decision);
    assert(decisions@.drop_last() =~= old(decisions)@);
}

/// The decision is about `id`, and stands where `requested` says: without a
/// result, or with the DELETE taken.
pub open spec fn is_open_decision(d: CleanupDecision, id: ResourceIdView, requested: bool) -> bool {
    d.resource@ == id && if requested {
        d.result matches Some(c) && c is DeleteRequested
    } else {
        d.result is None
    }
}

/// `after` is `before` with the last open decision about `id` having got `result`.
pub open spec fn decision_settled(
    before: Seq<CleanupDecision>,
    after: Seq<CleanupDecision>,
    id: ResourceIdView,
    requested: bool,
    result: CleanupResult,
) -> bool {
    match last_index(before, |d: CleanupDecision| is_open_decision(d, id, requested)) {
        Some(i) => after == before.update(
            i,
            CleanupDecision { result: Some(result), ..before[i] },
        ),
        None => after == before,
    }
}

/// Writes down what came of a decision: of the last one about `id` without a
/// result or, where `requested`, of the last one whose DELETE was taken.
pub fn settle_decision(
    decisions: &mut Vec<CleanupDecision>,
    id: &ResourceId,
    requested: bool,
    result: CleanupResult,
)
    ensures
        decision_settled(old(decisions)@, final(decisions)@, id@, requested, result),
{
    let ghost p = |d: CleanupDecision| is_open_decision(d, id@, requested);
    let mut i: usize = decisions.len();
    while i > 0
        invariant
            i <= decisions@.len(),
            decisions@ == old(decisions)@,
            p == (|d: CleanupDecision| is_open_decision(d, id@, requested)),
            forall|k: int| i <= k < decisions@.len() ==> !p(#[trigger] decisions@[k]),
        decreases i,
    {
        i = i - 1;
        let open = match &decisions[i].result {
            None => !requested,
            Some(CleanupResult::DeleteRequested) => requested,
            _ => false,
        };
        if open && decisions[i].resource.same(id) {
            proof {
                lemma_last_index(decisions@, p, i as int);
            }
            decisions[i].result = Some(result);
            assert(decisions@ =~= old(decisions)@.update(
                i as int,
                CleanupDecision { result: Some(result), ..old(decisions)@[i as int] },
            ));
            return ;
        }
    }
    proof {
        lemma_no_last_index(decisions@, p);
    }
}

} // verus!
