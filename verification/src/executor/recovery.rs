//! Finalizer recovery: stripping the finalizers of an object that is on its way
//! out and does not go, where its own DELETE or that of its owner was taken.

use vstd::prelude::*;
use vstd::string::*;

use crate::cluster::{
    has_code, live_uid, or_empty, GetReply, LiveObject, OwnerReference, RequestError,
};
use crate::journal::records::{
    any_open_recovery, has_open_recovery, has_taken_redelete, redelete_taken, redeletes,
    was_taken, ReDeleteView, RecoveryResultView,
};
use crate::journal::{
    FinalizerRecoveryRecord, FinalizerRecoveryResult, OwnerRefSnapshot, ReDeleteRecord,
};
use crate::lists::{ids, lemma_has_id, lemma_pick_members, pick, push_id};
use crate::planner::{
    collect_objects, law_objects_of_actions, objects_of, Action, ActionKind, PlanPhase,
};
use crate::resource::{contains_id, copy_ids, same_object, ResourceId, ResourceIdView};
use crate::text::{copy_texts, opt_text, same, same_opt, texts};

verus! {

/// A kind whose objects are never stripped of finalizers, nor deleted by a cleanup
/// that nobody asked for.
pub open spec fn is_protected(kind: Seq<char>) -> bool {
    ||| kind == "CustomResourceDefinition"@
    ||| kind == "Namespace"@
    ||| kind == "PersistentVolume"@
    ||| kind == "PersistentVolumeClaim"@
    ||| kind == "Node"@
    ||| kind == "Subscription"@
    ||| kind == "ClusterServiceVersion"@
    ||| kind == "APIService"@
    ||| kind == "OperatorGroup"@
}

/// Whether a kind is protected.
pub fn protected_kind(kind: &str) -> (r: bool)
    ensures
        r == is_protected(kind@),
{
    same(kind, "CustomResourceDefinition") || same(kind, "Namespace") || same(
        kind,
        "PersistentVolume",
    ) || same(kind, "PersistentVolumeClaim") || same(kind, "Node") || same(kind, "Subscription")
        || same(kind, "ClusterServiceVersion") || same(kind, "APIService") || same(
        kind,
        "OperatorGroup",
    )
}

/// The contents of an [`OwnerReference`].
#[verifier::ext_equal]
pub struct OwnerView {
    pub api_version: Seq<char>,
    pub kind: Seq<char>,
    pub name: Seq<char>,
    pub uid: Seq<char>,
    pub controller: Option<bool>,
    pub block_owner_deletion: Option<bool>,
}

impl View for OwnerReference {
    type V = OwnerView;

    open spec fn view(&self) -> OwnerView {
        OwnerView {
            api_version: self.api_version@,
            kind: self.kind@,
            name: self.name@,
            uid: self.uid@,
            controller: self.controller,
            block_owner_deletion: self.block_owner_deletion,
        }
    }
}

/// The owners of an object.
pub open spec fn owners(v: Seq<OwnerReference>) -> Seq<OwnerView> {
    v.map_values(|o: OwnerReference| o@)
}

/// The contents of an [`OwnerRefSnapshot`].
#[verifier::ext_equal]
pub struct SnapshotView {
    pub api_version: Seq<char>,
    pub kind: Seq<char>,
    pub name: Seq<char>,
    pub uid: Seq<char>,
    pub controller: Option<bool>,
}

impl View for OwnerRefSnapshot {
    type V = SnapshotView;

    open spec fn view(&self) -> SnapshotView {
        SnapshotView {
            api_version: self.api_version@,
            kind: self.kind@,
            name: self.name@,
            uid: self.uid@,
            controller: self.controller,
        }
    }
}

/// The snapshots of an object's owners.
pub open spec fn snapshots(v: Seq<OwnerRefSnapshot>) -> Seq<SnapshotView> {
    v.map_values(|o: OwnerRefSnapshot| o@)
}

/// The snapshot of an owner.
pub open spec fn snapshot_of(o: OwnerView) -> SnapshotView {
    SnapshotView {
        api_version: o.api_version,
        kind: o.kind,
        name: o.name,
        uid: o.uid,
        controller: o.controller,
    }
}

/// The snapshots of the owners of `o`.
pub open spec fn owner_snapshots(o: LiveObject) -> Seq<SnapshotView> {
    owners(o.owner_references@).map_values(|x: OwnerView| snapshot_of(x))
}

/// A taken re-delete of one of `deleted`.
pub open spec fn replaces_one_of(deleted: Seq<ResourceIdView>, r: ReDeleteView) -> bool {
    &&& was_taken(r)
    &&& exists|i: int|
        0 <= i < deleted.len() && same_object(#[trigger] deleted[i], r.identity)
            && deleted[i].uid == Some(r.original_uid)
}

/// The objects whose DELETE was taken: `deleted`, and what took their place and
/// was deleted again.
pub open spec fn effective_roots(
    deleted: Seq<ResourceIdView>,
    records: Seq<ReDeleteView>,
) -> Seq<ResourceIdView> {
    deleted + pick(
        records,
        |r: ReDeleteView|
            if replaces_one_of(deleted, r) {
                Some(ResourceIdView { uid: Some(r.new_uid), ..r.identity })
            } else {
                None
            },
    )
}

/// The objects whose DELETE was taken: `deleted`, and what took their place and
/// was deleted again.
pub fn collect_effective_roots(
    deleted: &Vec<ResourceId>,
    records: &Vec<ReDeleteRecord>,
) -> (r: Vec<ResourceId>)
    ensures
        ids(r@) == effective_roots(ids(deleted@), redeletes(records@)),
{
    let mut out = copy_ids(deleted);
    let ghost base = ids(deleted@);
    let ghost all = redeletes(records@);
    let ghost f = |r: ReDeleteView|
        if replaces_one_of(base, r) {
            Some(ResourceIdView { uid: Some(r.new_uid), ..r.identity })
        } else {
            None
        };
    assert(all.take(0) =~= seq![]);
    assert(ids(out@) =~= base + pick(all.take(0), f));
    for i in 0..records.len()
        invariant
            base == ids(deleted@),
            all == redeletes(records@),
            f == (|r: ReDeleteView|
                if replaces_one_of(base, r) {
                    Some(ResourceIdView { uid: Some(r.new_uid), ..r.identity })
                } else {
                    None
                }),
            ids(out@) == base + pick(all.take(i as int), f),
    {
        let rec = &records[i];
        proof {
            assert(all.take(i + 1).drop_last() =~= all.take(i as int));
            assert(all.take(i + 1).last() == rec@);
        }
        let replaced = rec.taken() && is_root_of(deleted, rec);
        if replaced {
            let replacement = rec.resource_identity.with_uid(Some(rec.new_uid.clone()));
            let ghost before = ids(out@);
            push_id(&mut out, &replacement);
            assert((base + pick(all.take(i as int), f)).push(replacement@) =~= base + pick(
                all.take(i as int),
                f,
            ).push(replacement@));
        }
    }
    assert(all.take(all.len() as int) =~= all);
    out
}

/// Whether the object that the record's DELETE replaced is one of `deleted`.
fn is_root_of(deleted: &Vec<ResourceId>, rec: &ReDeleteRecord) -> (r: bool)
    ensures
        was_taken(rec@) ==> r == replaces_one_of(ids(deleted@), rec@),
{
    let ghost base = ids(deleted@);
    for k in 0..deleted.len()
        invariant
            base == ids(deleted@),
            forall|m: int|
                0 <= m < k ==> !(same_object(#[trigger] base[m], rec@.identity) && base[m].uid
                    == Some(rec@.original_uid)),
    {
        assert(base[k as int] == deleted@[k as int]@);
        let same_uid = match &deleted[k].uid {
            Some(u) => *u == rec.original_uid,
            None => false,
        };
        if same_uid && deleted[k].is_same_object(&rec.resource_identity) {
            assert(same_object(base[k as int], rec@.identity));
            return true;
        }
    }
    false
}

/// How an object stands in its phase.
#[derive(Debug, Clone, Copy, PartialEq, Eq, Structural)]
pub struct RecoveryRole {
    /// The phase expects it to go.
    pub expected: bool,
    /// The phase deletes it.
    pub deleted: bool,
}

/// Why an object is not recovered.
#[derive(Debug, Clone, Copy, PartialEq, Eq, Structural)]
pub enum RecoverySkip {
    NotOfPhase,
    ProtectedKind,
    NoPlanUid,
    /// The object is not there.
    Absent,
    ReadFailed,
    UidChanged,
    NoLiveUid,
    NotTerminating,
    /// The object does not have exactly one owner.
    OwnerCount,
    /// The DELETE of the owner was not taken.
    ForeignOwner,
    RootEndpoint,
    /// The owner is still there.
    RootPresent,
    RootWithoutUid,
    RootReadFailed,
    /// The kind of the object is not known to discovery.
    Unresolved,
    /// The kind of the owner is not known to discovery.
    RootUnresolved,
    NoFinalizers,
}

/// What comes next for an object that does not go.
#[derive(Debug)]
pub enum RecoveryStep {
    Skip(RecoverySkip),
    /// GET the object.
    Read(RecoveryRole),
    /// GET the owner, to make sure that it is gone.
    LookAtRoot(ResourceId),
    /// List one object of the owner's kind.
    VerifyRootEndpoint,
    /// Strip the finalizers, if there are any.
    Strip,
}

/// The contents of a [`RecoveryStep`].
#[verifier::ext_equal]
pub enum RecoveryStepView {
    Skip(RecoverySkip),
    Read(RecoveryRole),
    LookAtRoot(ResourceIdView),
    VerifyRootEndpoint,
    Strip,
}

impl View for RecoveryStep {
    type V = RecoveryStepView;

    open spec fn view(&self) -> RecoveryStepView {
        match self {
            RecoveryStep::Skip(s) => RecoveryStepView::Skip(*s),
            RecoveryStep::Read(r) => RecoveryStepView::Read(*r),
            RecoveryStep::LookAtRoot(r) => RecoveryStepView::LookAtRoot(r@),
            RecoveryStep::VerifyRootEndpoint => RecoveryStepView::VerifyRootEndpoint,
            RecoveryStep::Strip => RecoveryStepView::Strip,
        }
    }
}

/// How an object stands in a phase.
pub open spec fn role_in(phase: PlanPhase, id: ResourceIdView) -> RecoveryRole {
    RecoveryRole {
        expected: objects_of(phase.actions@, ActionKind::ExpectGone).contains(id),
        deleted: objects_of(phase.actions@, ActionKind::Delete).contains(id),
    }
}

/// The first step for an object that does not go.
pub open spec fn recovery_begins(phase: PlanPhase, id: ResourceIdView) -> RecoveryStepView {
    let role = role_in(phase, id);
    if !role.expected && !role.deleted {
        RecoveryStepView::Skip(RecoverySkip::NotOfPhase)
    } else if is_protected(id.kind) {
        RecoveryStepView::Skip(RecoverySkip::ProtectedKind)
    } else if !crate::resource::uid_bound(id) {
        RecoveryStepView::Skip(RecoverySkip::NoPlanUid)
    } else {
        RecoveryStepView::Read(role)
    }
}

/// The first step for an object that does not go.
pub fn begin_recovery(phase: &PlanPhase, res: &ResourceId) -> (r: RecoveryStep)
    ensures
        r@ == recovery_begins(*phase, res@),
{
    let expects = collect_objects(&phase.actions, ActionKind::ExpectGone);
    let deletes = collect_objects(&phase.actions, ActionKind::Delete);
    proof {
        lemma_has_id(expects@, res@);
        lemma_has_id(deletes@, res@);
    }
    let role = RecoveryRole {
        expected: contains_id(&expects, res),
        deleted: contains_id(&deletes, res),
    };
    if !role.expected && !role.deleted {
        RecoveryStep::Skip(RecoverySkip::NotOfPhase)
    } else if protected_kind(res.kind.as_str()) {
        RecoveryStep::Skip(RecoverySkip::ProtectedKind)
    } else if !res.has_bound_uid() {
        RecoveryStep::Skip(RecoverySkip::NoPlanUid)
    } else {
        RecoveryStep::Read(role)
    }
}

/// The live UID is the planned one or, for an object that the phase deletes, one
/// whose DELETE was taken in place of the planned one.
pub open spec fn uid_accepted(
    role: RecoveryRole,
    id: ResourceIdView,
    live: Seq<char>,
    records: Seq<ReDeleteView>,
) -> bool {
    ||| id.uid == Some(live)
    ||| role.deleted && id.uid is Some && redelete_taken(records, id, id.uid->0, live)
}

/// The first of `roots` with the UID `uid`.
pub open spec fn first_with_uid(roots: Seq<ResourceIdView>, uid: Seq<char>, i: nat) -> Option<
    ResourceIdView,
>
    decreases roots.len() - i,
{
    if i >= roots.len() {
        None
    } else if roots[i as int].uid == Some(uid) {
        Some(roots[i as int])
    } else {
        first_with_uid(roots, uid, i + 1)
    }
}

fn find_by_uid<'a>(roots: &'a Vec<ResourceId>, uid: &str) -> (r: Option<&'a ResourceId>)
    ensures
        match r {
            Some(x) => first_with_uid(ids(roots@), uid@, 0) == Some(x@),
            None => first_with_uid(ids(roots@), uid@, 0) is None,
        },
{
    let ghost all = ids(roots@);
    for i in 0..roots.len()
        invariant
            all == ids(roots@),
            first_with_uid(all, uid@, 0) == first_with_uid(all, uid@, i as nat),
    {
        assert(all[i as int] == roots@[i as int]@);
        match &roots[i].uid {
            Some(u) => {
                if same(u.as_str(), uid) {
                    return Some(&roots[i]);
                }
            },
            None => {},
        }
    }
    None
}

/// What follows on the answer to the GET. `roots` are the objects whose DELETE
/// was taken.
pub open spec fn recovery_reads(
    role: RecoveryRole,
    id: ResourceIdView,
    roots: Seq<ResourceIdView>,
    records: Seq<ReDeleteView>,
    reply: GetReply,
) -> RecoveryStepView {
    match reply {
        GetReply::Failed(e) => if has_code(e, 404) {
            RecoveryStepView::Skip(RecoverySkip::Absent)
        } else {
            RecoveryStepView::Skip(RecoverySkip::ReadFailed)
        },
        GetReply::Found(o) => if o.uid is None {
            RecoveryStepView::Skip(RecoverySkip::NoLiveUid)
        } else if !uid_accepted(role, id, o.uid->0@, records) {
            RecoveryStepView::Skip(RecoverySkip::UidChanged)
        } else if !o.terminating {
            RecoveryStepView::Skip(RecoverySkip::NotTerminating)
        } else if !role.expected {
            RecoveryStepView::Strip
        } else if o.owner_references@.len() != 1 {
            RecoveryStepView::Skip(RecoverySkip::OwnerCount)
        } else {
            match first_with_uid(roots, o.owner_references@[0].uid@, 0) {
                Some(root) => RecoveryStepView::LookAtRoot(root),
                None => RecoveryStepView::Skip(RecoverySkip::ForeignOwner),
            }
        },
    }
}

/// What follows on finding the object.
pub fn after_recovery_found(
    role: RecoveryRole,
    res: &ResourceId,
    roots: &Vec<ResourceId>,
    records: &Vec<ReDeleteRecord>,
    o: &LiveObject,
) -> (r: RecoveryStep)
    ensures
        r@ == recovery_reads(role, res@, ids(roots@), redeletes(records@), GetReply::Found(*o)),
{
    let live = match &o.uid {
        Some(u) => u.as_str(),
        None => {
            return RecoveryStep::Skip(RecoverySkip::NoLiveUid);
        },
    };
    let accepted = match &res.uid {
        Some(planned) => same(planned.as_str(), live) || (role.deleted && has_taken_redelete(
            records,
            res,
            planned.as_str(),
            live,
        )),
        None => false,
    };
    if !accepted {
        return RecoveryStep::Skip(RecoverySkip::UidChanged);
    }
    if !o.terminating {
        return RecoveryStep::Skip(RecoverySkip::NotTerminating);
    }
    if !role.expected {
        return RecoveryStep::Strip;
    }
    if o.owner_references.len() != 1 {
        return RecoveryStep::Skip(RecoverySkip::OwnerCount);
    }
    match find_by_uid(roots, o.owner_references[0].uid.as_str()) {
        Some(root) => RecoveryStep::LookAtRoot(root.clone()),
        None => RecoveryStep::Skip(RecoverySkip::ForeignOwner),
    }
}

/// What follows on a GET that failed.
pub fn after_recovery_error(e: &RequestError) -> (r: RecoverySkip)
    ensures
        r == if has_code(*e, 404) {
            RecoverySkip::Absent
        } else {
            RecoverySkip::ReadFailed
        },
{
    if e.has_code(404) {
        RecoverySkip::Absent
    } else {
        RecoverySkip::ReadFailed
    }
}

/// What follows on the answer to the GET of the owner.
pub open spec fn recovery_looks(root: ResourceIdView, reply: GetReply) -> RecoveryStepView {
    match reply {
        GetReply::Failed(e) => if has_code(e, 404) {
            RecoveryStepView::VerifyRootEndpoint
        } else {
            RecoveryStepView::Skip(RecoverySkip::RootReadFailed)
        },
        GetReply::Found(o) => if o.uid is None {
            RecoveryStepView::Skip(RecoverySkip::RootWithoutUid)
        } else if opt_text(o.uid) == root.uid {
            RecoveryStepView::Skip(RecoverySkip::RootPresent)
        } else {
            RecoveryStepView::Strip
        },
    }
}

/// What follows on the answer to the GET of the owner.
pub fn after_root_get(root: &ResourceId, reply: &GetReply) -> (r: RecoveryStep)
    ensures
        r@ == recovery_looks(root@, *reply),
{
    match reply {
        GetReply::Failed(e) => if e.has_code(404) {
            RecoveryStep::VerifyRootEndpoint
        } else {
            RecoveryStep::Skip(RecoverySkip::RootReadFailed)
        },
        GetReply::Found(o) => if o.uid.is_none() {
            RecoveryStep::Skip(RecoverySkip::RootWithoutUid)
        } else if same_opt(&o.uid, &root.uid) {
            RecoveryStep::Skip(RecoverySkip::RootPresent)
        } else {
            RecoveryStep::Strip
        },
    }
}

/// What follows once the endpoint of an absent owner was looked at.
pub fn after_root_endpoint(endpoint_ok: bool) -> (r: RecoveryStep)
    ensures
        r@ == if endpoint_ok {
            RecoveryStepView::Strip
        } else {
            RecoveryStepView::Skip(RecoverySkip::RootEndpoint)
        },
{
    if endpoint_ok {
        RecoveryStep::Strip
    } else {
        RecoveryStep::Skip(RecoverySkip::RootEndpoint)
    }
}

/// One operation of the patch that strips finalizers.
#[derive(Debug)]
pub enum PatchOp {
    /// The UID must be this.
    TestUid(String),
    /// The owners must be these.
    TestOwners(Vec<OwnerReference>),
    /// The finalizers must be these.
    TestFinalizers(Vec<String>),
    /// Drop all finalizers.
    ClearFinalizers,
}

/// The contents of a [`PatchOp`].
#[verifier::ext_equal]
pub enum PatchOpView {
    TestUid(Seq<char>),
    TestOwners(Seq<OwnerView>),
    TestFinalizers(Seq<Seq<char>>),
    ClearFinalizers,
}

impl View for PatchOp {
    type V = PatchOpView;

    open spec fn view(&self) -> PatchOpView {
        match self {
            PatchOp::TestUid(u) => PatchOpView::TestUid(u@),
            PatchOp::TestOwners(o) => PatchOpView::TestOwners(owners(o@)),
            PatchOp::TestFinalizers(f) => PatchOpView::TestFinalizers(texts(f@)),
            PatchOp::ClearFinalizers => PatchOpView::ClearFinalizers,
        }
    }
}

/// The operations of a patch.
pub open spec fn patch_ops(v: Seq<PatchOp>) -> Seq<PatchOpView> {
    v.map_values(|o: PatchOp| o@)
}

/// The patch that strips the finalizers of `o`: all of it is tested against what
/// was read, the owners only where the phase expects the object to go.
pub open spec fn strip_ops(role: RecoveryRole, o: LiveObject) -> Seq<PatchOpView> {
    seq![PatchOpView::TestUid(live_uid(o))] + (if role.expected {
        seq![PatchOpView::TestOwners(owners(o.owner_references@))]
    } else {
        seq![]
    }) + seq![
        PatchOpView::TestFinalizers(texts(o.finalizers@)),
        PatchOpView::ClearFinalizers,
    ]
}

/// What is written down before finalizers are stripped, and the patch.
#[derive(Debug)]
pub struct StripOrder {
    pub record: FinalizerRecoveryRecord,
    pub patch: Vec<PatchOp>,
}

fn copy_owners(v: &Vec<OwnerReference>) -> (r: Vec<OwnerReference>)
    ensures
        owners(r@) == owners(v@),
{
    let mut out: Vec<OwnerReference> = Vec::new();
    for i in 0..v.len()
        invariant
            owners(out@) =~= owners(v@).take(i as int),
    {
        let o = &v[i];
        let ghost before = out@;
        out.push(
            OwnerReference {
                api_version: o.api_version.clone(),
                kind: o.kind.clone(),
                name: o.name.clone(),
                uid: o.uid.clone(),
                controller: o.controller,
                block_owner_deletion: o.block_owner_deletion,
            },
        );
        assert(owners(out@) =~= owners(before).push(o@));
    }
    assert(owners(out@) =~= owners(v@));
    out
}

/// The snapshots of an object's owners.
pub fn take_snapshots(v: &Vec<OwnerReference>) -> (r: Vec<OwnerRefSnapshot>)
    ensures
        snapshots(r@) == owners(v@).map_values(|o: OwnerView| snapshot_of(o)),
{
    let mut out: Vec<OwnerRefSnapshot> = Vec::new();
    let ghost all = owners(v@).map_values(|o: OwnerView| snapshot_of(o));
    for i in 0..v.len()
        invariant
            all == owners(v@).map_values(|o: OwnerView| snapshot_of(o)),
            snapshots(out@) =~= all.take(i as int),
    {
        let o = &v[i];
        let ghost before = out@;
        out.push(
            OwnerRefSnapshot {
                api_version: o.api_version.clone(),
                kind: o.kind.clone(),
                name: o.name.clone(),
                uid: o.uid.clone(),
                controller: o.controller,
            },
        );
        assert(snapshots(out@) =~= snapshots(before).push(all[i as int]));
    }
    assert(snapshots(out@) =~= all);
    out
}

/// `s` is what is written down, and the patch, to strip the finalizers of `o`.
pub open spec fn orders_strip(
    s: StripOrder,
    role: RecoveryRole,
    res: ResourceId,
    o: LiveObject,
) -> bool {
    &&& s.record.resource == res
    &&& s.record.live_uid@ == live_uid(o)
    &&& s.record.finalizer_values@ == o.finalizers@
    &&& snapshots(s.record.owner_references_snapshot@) == owner_snapshots(o)
    &&& s.record.root_uid@ == if role.expected {
        o.owner_references@[0].uid@
    } else {
        live_uid(o)
    }
    &&& s.record.root_kind@ == if role.expected {
        o.owner_references@[0].kind@
    } else {
        res.kind@
    }
    &&& s.record.result is PatchRequested
    &&& patch_ops(s.patch@) == strip_ops(role, o)
}

/// What is written down, and the patch, to strip the finalizers of `o`; `None`
/// where it has none.
pub fn order_strip(role: RecoveryRole, res: &ResourceId, o: &LiveObject) -> (r: Option<StripOrder>)
    requires
        role.expected ==> o.owner_references@.len() == 1,
    ensures
        r is Some <==> o.finalizers@.len() > 0,
        r matches Some(s) ==> orders_strip(s, role, *res, *o),
{
    if o.finalizers.len() == 0 {
        return None;
    }
    let uid = or_empty(&o.uid);
    let mut patch: Vec<PatchOp> = Vec::new();
    patch.push(PatchOp::TestUid(uid.to_owned()));
    if role.expected {
        patch.push(PatchOp::TestOwners(copy_owners(&o.owner_references)));
    }
    patch.push(PatchOp::TestFinalizers(copy_texts(&o.finalizers)));
    patch.push(PatchOp::ClearFinalizers);
    assert(patch_ops(patch@) =~= strip_ops(role, *o));
    let record = FinalizerRecoveryRecord {
        resource: res.clone(),
        live_uid: uid.to_owned(),
        finalizer_values: copy_texts(&o.finalizers),
        owner_references_snapshot: take_snapshots(&o.owner_references),
        root_uid: if role.expected {
            o.owner_references[0].uid.clone()
        } else {
            uid.to_owned()
        },
        root_kind: if role.expected {
            o.owner_references[0].kind.clone()
        } else {
            res.kind.clone()
        },
        result: FinalizerRecoveryResult::PatchRequested,
    };
    Some(StripOrder { record, patch })
}

/// What the answer to the patch says; `None` where the object is to be read again.
pub open spec fn patch_outcome(reply: Result<(), RequestError>) -> Option<RecoveryResultView> {
    match reply {
        Ok(_) => Some(RecoveryResultView::Stripped),
        Err(e) => if has_code(e, 409) || has_code(e, 422) {
            Some(RecoveryResultView::Failed("precondition: "@ + e->Status_reason@))
        } else {
            None
        },
    }
}

/// What the answer to the patch says; `None` where the object is to be read again.
pub fn after_patch(reply: &Result<(), RequestError>) -> (r: Option<FinalizerRecoveryResult>)
    ensures
        match r {
            Some(x) => patch_outcome(*reply) == Some(x@),
            None => patch_outcome(*reply) is None,
        },
{
    match reply {
        Ok(_) => Some(FinalizerRecoveryResult::Stripped),
        Err(RequestError::Status { code, reason, .. }) => if *code == 409 || *code == 422 {
            Some(
                FinalizerRecoveryResult::Failed(
                    "precondition: ".to_owned().concat(reason.as_str()),
                ),
            )
        } else {
            None
        },
        Err(RequestError::Other { .. }) => None,
    }
}

/// A flag that counts as unset where it is absent.
pub open spec fn is_set(flag: Option<bool>) -> bool {
    flag == Some(true)
}

/// The owners are those that were written down.
pub open spec fn owners_unchanged(live: Seq<OwnerView>, saved: Seq<SnapshotView>) -> bool {
    &&& live.len() == saved.len()
    &&& forall|i: int|
        0 <= i < live.len() ==> {
            &&& (#[trigger] live[i]).uid == saved[i].uid
            &&& live[i].kind == saved[i].kind
            &&& live[i].name == saved[i].name
            &&& live[i].api_version == saved[i].api_version
            &&& is_set(live[i].controller) == is_set(saved[i].controller)
        }
}

fn flag(f: Option<bool>) -> (r: bool)
    ensures
        r == is_set(f),
{
    match f {
        Some(b) => b,
        None => false,
    }
}

fn same_owners(live: &Vec<OwnerReference>, saved: &Vec<OwnerRefSnapshot>) -> (r: bool)
    ensures
        r == owners_unchanged(owners(live@), snapshots(saved@)),
{
    let ghost a = owners(live@);
    let ghost b = snapshots(saved@);
    if live.len() != saved.len() {
        assert(a.len() != b.len());
        return false;
    }
    for i in 0..live.len()
        invariant
            a == owners(live@),
            b == snapshots(saved@),
            live@.len() == saved@.len(),
            forall|k: int|
                0 <= k < i ==> {
                    &&& (#[trigger] a[k]).uid == b[k].uid
                    &&& a[k].kind == b[k].kind
                    &&& a[k].name == b[k].name
                    &&& a[k].api_version == b[k].api_version
                    &&& is_set(a[k].controller) == is_set(b[k].controller)
                },
    {
        assert(a[i as int] == live@[i as int]@);
        assert(b[i as int] == saved@[i as int]@);
        let x = &live[i];
        let y = &saved[i];
        if !(x.uid == y.uid && x.kind == y.kind && x.name == y.name && x.api_version
            == y.api_version && flag(x.controller) == flag(y.controller)) {
            return false;
        }
    }
    true
}

/// What a second look says of a patch whose answer was lost; `None` where the
/// endpoint is to be looked at. Only the same object with the same owners and no
/// finalizers shows that the patch went through.
pub open spec fn recheck_outcome(
    uid: Seq<char>,
    saved: Seq<SnapshotView>,
    reply: GetReply,
) -> Option<RecoveryResultView> {
    match reply {
        GetReply::Failed(e) => if has_code(e, 404) {
            None
        } else {
            Some(RecoveryResultView::PatchRequested)
        },
        GetReply::Found(o) => if live_uid(o) == uid && owners_unchanged(
            owners(o.owner_references@),
            saved,
        ) && o.finalizers@.len() == 0 {
            Some(RecoveryResultView::Stripped)
        } else {
            Some(RecoveryResultView::PatchRequested)
        },
    }
}

/// What a second look says of a patch whose answer was lost; `None` where the
/// endpoint is to be looked at.
pub fn after_recheck(uid: &str, saved: &Vec<OwnerRefSnapshot>, reply: &GetReply) -> (r: Option<
    FinalizerRecoveryResult,
>)
    ensures
        match r {
            Some(x) => recheck_outcome(uid@, snapshots(saved@), *reply) == Some(x@),
            None => recheck_outcome(uid@, snapshots(saved@), *reply) is None,
        },
{
    match reply {
        GetReply::Failed(e) => if e.has_code(404) {
            None
        } else {
            Some(FinalizerRecoveryResult::PatchRequested)
        },
        GetReply::Found(o) => if same(or_empty(&o.uid), uid) && same_owners(
            &o.owner_references,
            saved,
        ) && o.finalizers.len() == 0 {
            Some(FinalizerRecoveryResult::Stripped)
        } else {
            Some(FinalizerRecoveryResult::PatchRequested)
        },
    }
}

/// What a second look that found nothing says of a patch whose answer was lost.
pub fn after_recheck_endpoint(endpoint_ok: bool) -> (r: FinalizerRecoveryResult)
    ensures
        r@ == if endpoint_ok {
            RecoveryResultView::Gone
        } else {
            RecoveryResultView::PatchRequested
        },
{
    if endpoint_ok {
        FinalizerRecoveryResult::Gone
    } else {
        FinalizerRecoveryResult::PatchRequested
    }
}

/// How many objects were recovered. As long as nobody knows what came of one
/// patch, in this run or an earlier one, nothing more may be changed.
pub fn conclude_recovery(recovered: usize, records: &Vec<FinalizerRecoveryRecord>) -> (r: Result<
    usize,
    String,
>)
    ensures
        match r {
            Ok(n) => !has_open_recovery(records@) && n == recovered,
            Err(e) => has_open_recovery(records@) && e@
                == "Unresolved PatchRequested finalizer recovery — stopping to prevent further mutations with ambiguous prior state"@,
        },
{
    if any_open_recovery(records) {
        Err(
            "Unresolved PatchRequested finalizer recovery — stopping to prevent further mutations with ambiguous prior state".to_owned(),
        )
    } else {
        Ok(recovered)
    }
}

/// What is found by a UID carries it, and is one of the roots.
pub proof fn lemma_first_with_uid(roots: Seq<ResourceIdView>, uid: Seq<char>, i: nat)
    ensures
        first_with_uid(roots, uid, i) matches Some(r) ==> r.uid == Some(uid) && roots.contains(r),
    decreases roots.len() - i,
{
    if i < roots.len() && roots[i as int].uid != Some(uid) {
        lemma_first_with_uid(roots, uid, i + 1);
    }
}

/// Finalizers are stripped only from an object of the phase that is of no
/// protected kind, is on its way out, and carries the planned UID or one whose
/// DELETE was taken in its place. Where the phase only expects the object to go,
/// its one owner must be an object whose DELETE was taken, and that owner must
/// not be there under its UID any more.
pub proof fn law_strip_needs_authority(
    phase: PlanPhase,
    id: ResourceIdView,
    roots: Seq<ResourceIdView>,
    records: Seq<ReDeleteView>,
    role: RecoveryRole,
    reply: GetReply,
    root_reply: GetReply,
)
    requires
        recovery_begins(phase, id) == RecoveryStepView::Read(role),
        ({
            let step = recovery_reads(role, id, roots, records, reply);
            ||| step is Strip
            ||| step is LookAtRoot && (recovery_looks(step->LookAtRoot_0, root_reply) is Strip
                || recovery_looks(step->LookAtRoot_0, root_reply) is VerifyRootEndpoint)
        }),
    ensures
        !is_protected(id.kind),
        reply is Found,
        reply->Found_0.terminating,
        reply->Found_0.uid is Some,
        uid_accepted(role, id, reply->Found_0.uid->0@, records),
        role.expected ==> {
            let owner = reply->Found_0.owner_references@[0].uid@;
            &&& reply->Found_0.owner_references@.len() == 1
            &&& exists|r: ResourceIdView| #[trigger] roots.contains(r) && r.uid == Some(owner)
            &&& root_reply matches GetReply::Found(o) ==> opt_text(o.uid) != Some(owner)
            &&& root_reply matches GetReply::Failed(e) ==> has_code(e, 404)
        },
        !role.expected ==> role.deleted,
{
    if role.expected {
        let owner = reply->Found_0.owner_references@[0].uid@;
        lemma_first_with_uid(roots, owner, 0);
    }
}

/// The owner that an expected object may be recovered for is one that this run
/// deleted, or one that took its place and whose DELETE was taken too.
pub proof fn law_effective_roots_were_deleted(
    deleted: Seq<ResourceIdView>,
    records: Seq<ReDeleteView>,
    r: ResourceIdView,
)
    requires
        effective_roots(deleted, records).contains(r),
    ensures
        deleted.contains(r) || exists|i: int|
            0 <= i < records.len() && was_taken(#[trigger] records[i]) && same_object(
                records[i].identity,
                r,
            ) && r.uid == Some(records[i].new_uid) && replaces_one_of(deleted, records[i]),
{
    let f = |x: ReDeleteView|
        if replaces_one_of(deleted, x) {
            Some(ResourceIdView { uid: Some(x.new_uid), ..x.identity })
        } else {
            None
        };
    crate::lists::lemma_contains_add(deleted, pick(records, f), r);
    lemma_pick_members(records, f);
    if !deleted.contains(r) {
        assert(pick(records, f).contains(r));
        let i = choose|i: int| 0 <= i < records.len() && f(#[trigger] records[i]) == Some(r);
        assert(was_taken(records[i]));
    }
}

/// A patch whose answer was lost counts as done only where the very object that
/// was patched is seen without finalizers, or is gone with its endpoint there.
pub proof fn law_lost_patch_needs_proof(
    uid: Seq<char>,
    saved: Seq<SnapshotView>,
    reply: GetReply,
)
    ensures
        recheck_outcome(uid, saved, reply) == Some(RecoveryResultView::Stripped) ==> reply is Found
            && live_uid(reply->Found_0) == uid && reply->Found_0.finalizers@.len() == 0,
        recheck_outcome(uid, saved, reply) != Some(RecoveryResultView::Gone),
{
}

/// Nine kinds are protected, and no other.
pub proof fn law_nine_kinds_are_protected(kind: Seq<char>)
    ensures
        is_protected("CustomResourceDefinition"@),
        is_protected("Namespace"@),
        is_protected("PersistentVolume"@),
        is_protected("PersistentVolumeClaim"@),
        is_protected("Node"@),
        is_protected("Subscription"@),
        is_protected("ClusterServiceVersion"@),
        is_protected("APIService"@),
        is_protected("OperatorGroup"@),
        is_protected(kind) ==> {
            ||| kind == "CustomResourceDefinition"@
            ||| kind == "Namespace"@
            ||| kind == "PersistentVolume"@
            ||| kind == "PersistentVolumeClaim"@
            ||| kind == "Node"@
            ||| kind == "Subscription"@
            ||| kind == "ClusterServiceVersion"@
            ||| kind == "APIService"@
            ||| kind == "OperatorGroup"@
        },
{
}

/// An object of the phase whose kind is CustomResourceDefinition, Namespace,
/// PersistentVolume, PersistentVolumeClaim, Node, Subscription,
/// ClusterServiceVersion, APIService or OperatorGroup is skipped by recovery: it is
/// not even read.
pub proof fn law_recovery_skips_nine_kinds(phase: PlanPhase, k: int)
    requires
        0 <= k < phase.actions@.len(),
        phase.actions@[k] is ExpectGone || phase.actions@[k] is Delete,
    ensures
        ({
            let id = match phase.actions@[k] {
                Action::ExpectGone { resource, .. } => resource@,
                Action::Delete { resource, .. } => resource@,
                Action::WaitGone { resource } => resource@,
                Action::Keep { resource, .. } => resource@,
                Action::Review { resource, .. } => resource@,
            };
            let named = {
                ||| id.kind == "CustomResourceDefinition"@
                ||| id.kind == "Namespace"@
                ||| id.kind == "PersistentVolume"@
                ||| id.kind == "PersistentVolumeClaim"@
                ||| id.kind == "Node"@
                ||| id.kind == "Subscription"@
                ||| id.kind == "ClusterServiceVersion"@
                ||| id.kind == "APIService"@
                ||| id.kind == "OperatorGroup"@
            };
            let first = recovery_begins(phase, id);
            &&& named ==> first == RecoveryStepView::Skip(RecoverySkip::ProtectedKind)
            &&& !named && id.uid is Some && id.uid->0.len() > 0 ==> first is Read
            &&& !named && (id.uid is None || id.uid->0.len() == 0) ==> first
                == RecoveryStepView::Skip(RecoverySkip::NoPlanUid)
        }),
{
    law_objects_of_actions(phase.actions@, k);
}

} // verus!
