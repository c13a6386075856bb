//! The course of a finalizer recovery over a list of objects.
//!
//! Each object is read, and so is its owner where the phase only expects it to go.
//! What may be stripped is written down before the patch is sent, and what came of
//! the patch after it. A patch whose answer was lost ends the recovery.

use vstd::prelude::*;

use crate::cluster::{live_uid, or_empty, GetReply, LiveObject, RequestError};
use crate::executor::recovery::{
    after_patch, after_recheck, after_recheck_endpoint, after_recovery_error,
    after_recovery_found, after_root_endpoint, after_root_get, begin_recovery,
    collect_effective_roots, effective_roots, is_protected, lemma_first_with_uid, order_strip,
    orders_strip, owner_snapshots, patch_outcome, recheck_outcome, recovery_begins,
    recovery_looks, recovery_reads, take_snapshots, uid_accepted, RecoveryRole, RecoverySkip,
    RecoveryStep, RecoveryStepView, StripOrder,
};
use crate::journal::records::{redeletes, ReDeleteView, RecoveryResultView};
use crate::journal::{FinalizerRecoveryResult, ReDeleteRecord};
use crate::lists::{ids, pick};
use crate::planner::PlanPhase;
use crate::resource::{uid_bound, ResourceId, ResourceIdView};

verus! {

/// What a recovery waits for.
#[derive(Debug)]
pub enum RecoveryStage {
    /// The GET of the object.
    Read,
    /// The GET of the owner of the object that was read.
    LookAtRoot { root: ResourceId, object: LiveObject },
    /// Whether objects of the owner's kind can be listed, where it was not found.
    VerifyRoot { object: LiveObject },
    /// A permit to strip the finalizers of the object.
    Permit { object: LiveObject },
    /// The record of the patch to be written down.
    Record { object: LiveObject },
    /// The answer to the patch.
    Patch { object: LiveObject },
    /// Another GET of the object, where the answer to the patch was lost.
    Recheck { object: LiveObject },
    /// Whether objects of the kind can be listed, where the object is gone.
    RecheckEndpoint { object: LiveObject },
    /// What came of the patch to be written down; `lost` where its answer was lost.
    Settle { object: LiveObject, result: FinalizerRecoveryResult, lost: bool },
    /// Nothing: the recovery is over.
    Finished,
}

/// The contents of a [`RecoveryStage`].
#[verifier::ext_equal]
pub enum RecoveryStageView {
    Read,
    LookAtRoot { root: ResourceIdView, object: LiveObject },
    VerifyRoot { object: LiveObject },
    Permit { object: LiveObject },
    Record { object: LiveObject },
    Patch { object: LiveObject },
    Recheck { object: LiveObject },
    RecheckEndpoint { object: LiveObject },
    Settle { object: LiveObject, result: RecoveryResultView, lost: bool },
    Finished,
}

impl View for RecoveryStage {
    type V = RecoveryStageView;

    open spec fn view(&self) -> RecoveryStageView {
        match *self {
            RecoveryStage::Read => RecoveryStageView::Read,
            RecoveryStage::LookAtRoot { root, object } => RecoveryStageView::LookAtRoot {
                root: root@,
                object,
            },
            RecoveryStage::VerifyRoot { object } => RecoveryStageView::VerifyRoot { object },
            RecoveryStage::Permit { object } => RecoveryStageView::Permit { object },
            RecoveryStage::Record { object } => RecoveryStageView::Record { object },
            RecoveryStage::Patch { object } => RecoveryStageView::Patch { object },
            RecoveryStage::Recheck { object } => RecoveryStageView::Recheck { object },
            RecoveryStage::RecheckEndpoint { object } => RecoveryStageView::RecheckEndpoint {
                object,
            },
            RecoveryStage::Settle { object, result, lost } => RecoveryStageView::Settle {
                object,
                result: result@,
                lost,
            },
            RecoveryStage::Finished => RecoveryStageView::Finished,
        }
    }
}

/// What a recovery is told.
#[derive(Debug)]
pub enum RecoveryEvent {
    /// The kind that is asked for is not known to discovery.
    Unresolved,
    /// The reply to a GET.
    Reply(GetReply),
    /// Whether one object of the kind could be listed.
    Endpoint(bool),
    /// Whether a permit was given.
    Permit(bool),
    /// What was to be written down stands in the journal.
    Recorded,
    /// The answer to the patch.
    Patched(Result<(), RequestError>),
}

/// A recovery over the objects that do not go.
#[derive(Debug)]
pub struct RecoveryRun {
    pub targets: Vec<(ResourceId, RecoveryRole)>,
    /// The position of the object that has its turn.
    pub at: usize,
    pub stage: RecoveryStage,
    /// The objects whose DELETE was taken.
    pub roots: Vec<ResourceId>,
    pub records: Vec<ReDeleteRecord>,
    pub skipped: Vec<(ResourceId, RecoverySkip)>,
    /// How many objects were stripped of their finalizers, or went.
    pub recovered: usize,
}

/// The contents of a [`RecoveryRun`].
#[verifier::ext_equal]
pub struct RecoveryView {
    pub targets: Seq<(ResourceIdView, RecoveryRole)>,
    pub at: int,
    pub stage: RecoveryStageView,
    pub roots: Seq<ResourceIdView>,
    pub records: Seq<ReDeleteView>,
    pub skipped: Seq<(ResourceIdView, RecoverySkip)>,
    pub recovered: int,
}

/// Objects with their roles.
pub open spec fn roles(v: Seq<(ResourceId, RecoveryRole)>) -> Seq<(ResourceIdView, RecoveryRole)> {
    v.map_values(|x: (ResourceId, RecoveryRole)| (x.0@, x.1))
}

/// Objects with the reason why they are not recovered.
pub open spec fn skips(v: Seq<(ResourceId, RecoverySkip)>) -> Seq<(ResourceIdView, RecoverySkip)> {
    v.map_values(|x: (ResourceId, RecoverySkip)| (x.0@, x.1))
}

impl View for RecoveryRun {
    type V = RecoveryView;

    open spec fn view(&self) -> RecoveryView {
        RecoveryView {
            targets: roles(self.targets@),
            at: self.at as int,
            stage: self.stage@,
            roots: ids(self.roots@),
            records: redeletes(self.records@),
            skipped: skips(self.skipped@),
            recovered: self.recovered as int,
        }
    }
}

/// The object that was read, once it was.
pub open spec fn object_in(s: RecoveryStageView) -> Option<LiveObject> {
    match s {
        RecoveryStageView::Read => None,
        RecoveryStageView::LookAtRoot { object, .. } => Some(object),
        RecoveryStageView::VerifyRoot { object } => Some(object),
        RecoveryStageView::Permit { object } => Some(object),
        RecoveryStageView::Record { object } => Some(object),
        RecoveryStageView::Patch { object } => Some(object),
        RecoveryStageView::Recheck { object } => Some(object),
        RecoveryStageView::RecheckEndpoint { object } => Some(object),
        RecoveryStageView::Settle { object, .. } => Some(object),
        RecoveryStageView::Finished => None,
    }
}

/// The object has been found fit to be stripped.
pub open spec fn is_cleared(s: RecoveryStageView) -> bool {
    object_in(s) is Some && !(s is LookAtRoot) && !(s is VerifyRoot)
}

/// While a recovery is not over, one of its objects has its turn. An object that the
/// phase only expects to go has one owner, and what is to be stripped has finalizers.
pub open spec fn recovery_fits(v: RecoveryView) -> bool {
    &&& 0 <= v.recovered <= v.at
    &&& v.stage is Finished || v.at < v.targets.len()
    &&& object_in(v.stage) matches Some(o) ==> (v.targets[v.at].1.expected
        ==> o.owner_references@.len() == 1)
    &&& is_cleared(v.stage) ==> object_in(v.stage)->0.finalizers@.len() > 0
}

/// The recovery at this stage.
pub open spec fn at_stage(v: RecoveryView, stage: RecoveryStageView) -> RecoveryView {
    RecoveryView { stage, ..v }
}

/// The recovery with the next object having its turn.
pub open spec fn next_target(v: RecoveryView) -> RecoveryView {
    RecoveryView {
        at: v.at + 1,
        stage: if v.at + 1 < v.targets.len() {
            RecoveryStageView::Read
        } else {
            RecoveryStageView::Finished
        },
        ..v
    }
}

/// The recovery with the object passed over.
pub open spec fn passed_over(v: RecoveryView, why: RecoverySkip) -> RecoveryView {
    next_target(RecoveryView { skipped: v.skipped.push((v.targets[v.at].0, why)), ..v })
}

/// The recovery with nothing standing against stripping the object.
pub open spec fn cleared(v: RecoveryView, o: LiveObject) -> RecoveryView {
    if o.finalizers@.len() == 0 {
        passed_over(v, RecoverySkip::NoFinalizers)
    } else {
        at_stage(v, RecoveryStageView::Permit { object: o })
    }
}

/// After the GET of the object.
pub open spec fn target_read(v: RecoveryView, reply: GetReply) -> RecoveryView {
    let t = v.targets[v.at];
    match recovery_reads(t.1, t.0, v.roots, v.records, reply) {
        RecoveryStepView::Skip(why) => passed_over(v, why),
        RecoveryStepView::LookAtRoot(root) => at_stage(
            v,
            RecoveryStageView::LookAtRoot { root, object: reply->Found_0 },
        ),
        RecoveryStepView::Strip => cleared(v, reply->Found_0),
        _ => v,
    }
}

/// After the GET of the owner.
pub open spec fn root_read(
    v: RecoveryView,
    root: ResourceIdView,
    o: LiveObject,
    reply: GetReply,
) -> RecoveryView {
    match recovery_looks(root, reply) {
        RecoveryStepView::Skip(why) => passed_over(v, why),
        RecoveryStepView::VerifyRootEndpoint => at_stage(
            v,
            RecoveryStageView::VerifyRoot { object: o },
        ),
        RecoveryStepView::Strip => cleared(v, o),
        _ => v,
    }
}

/// What came of the patch, to be written down.
pub open spec fn settling(
    v: RecoveryView,
    o: LiveObject,
    result: RecoveryResultView,
    lost: bool,
) -> RecoveryView {
    at_stage(v, RecoveryStageView::Settle { object: o, result, lost })
}

/// After what came of the patch was written down.
pub open spec fn settled(v: RecoveryView, result: RecoveryResultView, lost: bool) -> RecoveryView {
    let w = RecoveryView {
        recovered: v.recovered + if result is Stripped || result is Gone {
            1int
        } else {
            0
        },
        ..v
    };
    if lost {
        RecoveryView { stage: RecoveryStageView::Finished, at: v.at + 1, ..w }
    } else {
        next_target(w)
    }
}

/// The recovery after it was told something. What it does not wait for changes
/// nothing.
pub open spec fn recovery_next(v: RecoveryView, e: RecoveryEvent) -> RecoveryView {
    match (v.stage, e) {
        (RecoveryStageView::Read, RecoveryEvent::Unresolved) => passed_over(
            v,
            RecoverySkip::Unresolved,
        ),
        (RecoveryStageView::Read, RecoveryEvent::Reply(reply)) => target_read(v, reply),
        (RecoveryStageView::LookAtRoot { .. }, RecoveryEvent::Unresolved) => passed_over(
            v,
            RecoverySkip::RootUnresolved,
        ),
        (
            RecoveryStageView::LookAtRoot { root, object },
            RecoveryEvent::Reply(reply),
        ) => root_read(v, root, object, reply),
        (RecoveryStageView::VerifyRoot { object }, RecoveryEvent::Endpoint(ok)) => if ok {
            cleared(v, object)
        } else {
            passed_over(v, RecoverySkip::RootEndpoint)
        },
        (RecoveryStageView::Permit { object }, RecoveryEvent::Permit(given)) => if given {
            at_stage(v, RecoveryStageView::Record { object })
        } else {
            at_stage(v, RecoveryStageView::Finished)
        },
        (RecoveryStageView::Record { object }, RecoveryEvent::Recorded) => at_stage(
            v,
            RecoveryStageView::Patch { object },
        ),
        (RecoveryStageView::Patch { object }, RecoveryEvent::Patched(reply)) => match patch_outcome(
            reply,
        ) {
            Some(result) => settling(v, object, result, false),
            None => at_stage(v, RecoveryStageView::Recheck { object }),
        },
        (
            RecoveryStageView::Recheck { object },
            RecoveryEvent::Reply(reply),
        ) => match recheck_outcome(live_uid(object), owner_snapshots(object), reply) {
            Some(result) => settling(v, object, result, true),
            None => at_stage(v, RecoveryStageView::RecheckEndpoint { object }),
        },
        (RecoveryStageView::RecheckEndpoint { object }, RecoveryEvent::Endpoint(ok)) => settling(
            v,
            object,
            if ok {
                RecoveryResultView::Gone
            } else {
                RecoveryResultView::PatchRequested
            },
            true,
        ),
        (RecoveryStageView::Settle { result, lost, .. }, RecoveryEvent::Recorded) => settled(
            v,
            result,
            lost,
        ),
        _ => v,
    }
}

/// The objects that a recovery looks at.
pub open spec fn recoverable(phase: PlanPhase, remaining: Seq<ResourceIdView>) -> Seq<
    (ResourceIdView, RecoveryRole),
> {
    pick(
        remaining,
        |r: ResourceIdView|
            match recovery_begins(phase, r) {
                RecoveryStepView::Read(role) => Some((r, role)),
                _ => None,
            },
    )
}

/// The objects that a recovery does not look at, each with the reason.
pub open spec fn unrecoverable(phase: PlanPhase, remaining: Seq<ResourceIdView>) -> Seq<
    (ResourceIdView, RecoverySkip),
> {
    pick(
        remaining,
        |r: ResourceIdView|
            match recovery_begins(phase, r) {
                RecoveryStepView::Skip(why) => Some((r, why)),
                _ => None,
            },
    )
}

/// A recovery that begins.
pub open spec fn recovery_begun(
    phase: PlanPhase,
    remaining: Seq<ResourceIdView>,
    deleted: Seq<ResourceIdView>,
    records: Seq<ReDeleteView>,
) -> RecoveryView {
    RecoveryView {
        targets: recoverable(phase, remaining),
        at: 0,
        stage: if recoverable(phase, remaining).len() > 0 {
            RecoveryStageView::Read
        } else {
            RecoveryStageView::Finished
        },
        roots: effective_roots(deleted, records),
        records,
        skipped: unrecoverable(phase, remaining),
        recovered: 0,
    }
}

impl RecoveryRun {
    /// A recovery over `remaining` in `phase`. `deleted` are the objects whose DELETE
    /// was taken, `records` the further DELETEs of what took their place.
    pub fn begin(
        phase: &PlanPhase,
        remaining: &Vec<ResourceId>,
        deleted: &Vec<ResourceId>,
        records: Vec<ReDeleteRecord>,
    ) -> (r: RecoveryRun)
        ensures
            r@ == recovery_begun(*phase, ids(remaining@), ids(deleted@), redeletes(records@)),
            recovery_fits(r@),
    {
        let roots = collect_effective_roots(deleted, &records);
        let mut targets: Vec<(ResourceId, RecoveryRole)> = Vec::new();
        let mut skipped: Vec<(ResourceId, RecoverySkip)> = Vec::new();
        let ghost all = ids(remaining@);
        assert(all.take(0) =~= seq![]);
        assert(roles(targets@) =~= recoverable(*phase, all.take(0)));
        assert(skips(skipped@) =~= unrecoverable(*phase, all.take(0)));
        for i in 0..remaining.len()
            invariant
                all == ids(remaining@),
                roles(targets@) == recoverable(*phase, all.take(i as int)),
                skips(skipped@) == unrecoverable(*phase, all.take(i as int)),
        {
            let res = &remaining[i];
            assert(all.take(i + 1).drop_last() =~= all.take(i as int));
            assert(all.take(i + 1).last() == res@);
            match begin_recovery(phase, res) {
                RecoveryStep::Read(role) => {
                    let ghost before = targets@;
                    targets.push((res.clone(), role));
                    assert(roles(targets@) =~= roles(before).push((res@, role)));
                },
                RecoveryStep::Skip(why) => {
                    let ghost before = skipped@;
                    skipped.push((res.clone(), why));
                    assert(skips(skipped@) =~= skips(before).push((res@, why)));
                },
                _ => {},
            }
        }
        assert(all.take(all.len() as int) =~= all);
        assert(roles(targets@).len() == targets@.len());
        let stage = if targets.len() > 0 {
            RecoveryStage::Read
        } else {
            RecoveryStage::Finished
        };
        RecoveryRun { targets, at: 0, stage, roots, records, skipped, recovered: 0 }
    }

    fn go_on(&mut self)
        requires
            old(self).at < old(self).targets@.len(),
        ensures
            final(self)@ == next_target(old(self)@),
    {
        assert(roles(self.targets@).len() == self.targets@.len());
        let count: usize = self.targets.len();
        self.at = self.at + 1;
        self.stage = if self.at < count {
            RecoveryStage::Read
        } else {
            RecoveryStage::Finished
        };
    }

    fn pass_over(&mut self, why: RecoverySkip)
        requires
            old(self).at < old(self).targets@.len(),
        ensures
            final(self)@ == passed_over(old(self)@, why),
    {
        let id = self.targets[self.at].0.clone();
        let ghost before = self.skipped@;
        self.skipped.push((id, why));
        assert(skips(self.skipped@) =~= skips(before).push((id@, why)));
        self.go_on();
    }

    fn clear(&mut self, object: LiveObject)
        requires
            old(self).at < old(self).targets@.len(),
        ensures
            final(self)@ == cleared(old(self)@, object),
    {
        if object.finalizers.len() == 0 {
            self.pass_over(RecoverySkip::NoFinalizers);
        } else {
            self.stage = RecoveryStage::Permit { object };
        }
    }

    fn read_target(&mut self, reply: GetReply)
        requires
            old(self).at < old(self).targets@.len(),
            old(self)@.stage is Read,
        ensures
            final(self)@ == target_read(old(self)@, reply),
    {
        assert(roles(self.targets@)[self.at as int] == (
            self.targets@[self.at as int].0@,
            self.targets@[self.at as int].1,
        ));
        match reply {
            GetReply::Failed(e) => {
                let why = after_recovery_error(&e);
                self.pass_over(why);
            },
            GetReply::Found(object) => {
                let step = after_recovery_found(
                    self.targets[self.at].1,
                    &self.targets[self.at].0,
                    &self.roots,
                    &self.records,
                    &object,
                );
                match step {
                    RecoveryStep::Skip(why) => {
                        self.pass_over(why);
                    },
                    RecoveryStep::LookAtRoot(root) => {
                        self.stage = RecoveryStage::LookAtRoot { root, object };
                    },
                    RecoveryStep::Strip => {
                        self.clear(object);
                    },
                    _ => {},
                }
            },
        }
    }

    fn read_root(&mut self, root: ResourceId, object: LiveObject, reply: GetReply)
        requires
            old(self).at < old(self).targets@.len(),
        ensures
            final(self)@ == root_read(
                at_stage(
                    old(self)@,
                    RecoveryStageView::LookAtRoot { root: root@, object },
                ),
                root@,
                object,
                reply,
            ),
    {
        match after_root_get(&root, &reply) {
            RecoveryStep::Skip(why) => {
                self.pass_over(why);
            },
            RecoveryStep::VerifyRootEndpoint => {
                self.stage = RecoveryStage::VerifyRoot { object };
            },
            RecoveryStep::Strip => {
                self.clear(object);
            },
            _ => {
                self.stage = RecoveryStage::LookAtRoot { root, object };
            },
        }
    }

    fn settle(&mut self, result: FinalizerRecoveryResult, lost: bool)
        requires
            old(self).at < old(self).targets@.len(),
            old(self).recovered <= old(self).at,
        ensures
            final(self)@ == settled(old(self)@, result@, lost),
    {
        let count: usize = self.targets.len();
        assert(self.at < count);
        match result {
            FinalizerRecoveryResult::Stripped | FinalizerRecoveryResult::Gone => {
                self.recovered = self.recovered + 1;
            },
            _ => {},
        }
        if lost {
            self.at = self.at + 1;
            self.stage = RecoveryStage::Finished;
        } else {
            self.go_on();
        }
    }

    /// Tells the recovery what came of what it waits for.
    pub fn step(self, event: RecoveryEvent) -> (r: RecoveryRun)
        requires
            recovery_fits(self@),
        ensures
            r@ == recovery_next(self@, event),
            recovery_fits(r@),
    {
        proof {
            lemma_fits(self@, event);
        }
        let ghost v = self@;
        let RecoveryRun { targets, at, stage, roots, records, skipped, recovered } = self;
        let mut run = RecoveryRun {
            targets,
            at,
            stage: RecoveryStage::Finished,
            roots,
            records,
            skipped,
            recovered,
        };
        assert(roles(run.targets@).len() == run.targets@.len());
        match stage {
            RecoveryStage::Read => {
                run.stage = RecoveryStage::Read;
                match event {
                    RecoveryEvent::Unresolved => {
                        run.pass_over(RecoverySkip::Unresolved);
                    },
                    RecoveryEvent::Reply(reply) => {
                        run.read_target(reply);
                    },
                    _ => {},
                }
            },
            RecoveryStage::LookAtRoot { root, object } => match event {
                RecoveryEvent::Unresolved => {
                    run.pass_over(RecoverySkip::RootUnresolved);
                },
                RecoveryEvent::Reply(reply) => {
                    run.read_root(root, object, reply);
                },
                _ => {
                    run.stage = RecoveryStage::LookAtRoot { root, object };
                },
            },
            RecoveryStage::VerifyRoot { object } => match event {
                RecoveryEvent::Endpoint(ok) => match after_root_endpoint(ok) {
                    RecoveryStep::Skip(why) => {
                        run.pass_over(why);
                    },
                    _ => {
                        run.clear(object);
                    },
                },
                _ => {
                    run.stage = RecoveryStage::VerifyRoot { object };
                },
            },
            RecoveryStage::Permit { object } => match event {
                RecoveryEvent::Permit(given) => {
                    if given {
                        run.stage = RecoveryStage::Record { object };
                    }
                },
                _ => {
                    run.stage = RecoveryStage::Permit { object };
                },
            },
            RecoveryStage::Record { object } => match event {
                RecoveryEvent::Recorded => {
                    run.stage = RecoveryStage::Patch { object };
                },
                _ => {
                    run.stage = RecoveryStage::Record { object };
                },
            },
            RecoveryStage::Patch { object } => match event {
                RecoveryEvent::Patched(reply) => {
                    run.stage = match after_patch(&reply) {
                        Some(result) => RecoveryStage::Settle { object, result, lost: false },
                        None => RecoveryStage::Recheck { object },
                    };
                },
                _ => {
                    run.stage = RecoveryStage::Patch { object };
                },
            },
            RecoveryStage::Recheck { object } => match event {
                RecoveryEvent::Reply(reply) => {
                    let saved = take_snapshots(&object.owner_references);
                    let outcome = after_recheck(or_empty(&object.uid), &saved, &reply);
                    run.stage = match outcome {
                        Some(result) => RecoveryStage::Settle { object, result, lost: true },
                        None => RecoveryStage::RecheckEndpoint { object },
                    };
                },
                _ => {
                    run.stage = RecoveryStage::Recheck { object };
                },
            },
            RecoveryStage::RecheckEndpoint { object } => match event {
                RecoveryEvent::Endpoint(ok) => {
                    let result = after_recheck_endpoint(ok);
                    run.stage = RecoveryStage::Settle { object, result, lost: true };
                },
                _ => {
                    run.stage = RecoveryStage::RecheckEndpoint { object };
                },
            },
            RecoveryStage::Settle { object, result, lost } => match event {
                RecoveryEvent::Recorded => {
                    run.settle(result, lost);
                },
                _ => {
                    run.stage = RecoveryStage::Settle { object, result, lost };
                },
            },
            RecoveryStage::Finished => {},
        }
        run
    }

    /// What is to be written down, and the patch, while one of them is waited for.
    pub fn order(&self) -> (r: Option<StripOrder>)
        requires
            recovery_fits(self@),
        ensures
            r is Some <==> self@.stage is Record || self@.stage is Patch,
            r matches Some(s) ==> orders_strip(
                s,
                self.targets@[self.at as int].1,
                self.targets@[self.at as int].0,
                object_in(self@.stage)->0,
            ),
    {
        assert(roles(self.targets@).len() == self.targets@.len());
        match &self.stage {
            RecoveryStage::Record { object } | RecoveryStage::Patch { object } => {
                assert(self@.targets[self@.at] == (
                    self.targets@[self.at as int].0@,
                    self.targets@[self.at as int].1,
                ));
                order_strip(self.targets[self.at].1, &self.targets[self.at].0, object)
            },
            _ => None,
        }
    }
}

proof fn lemma_fits(v: RecoveryView, e: RecoveryEvent)
    requires
        recovery_fits(v),
    ensures
        recovery_fits(recovery_next(v, e)),
{
}

/// What stands behind every object that is to be stripped: it is on its way out under
/// a UID whose DELETE was taken or that was planned, and an object that the phase only
/// expects to go has one owner, whose DELETE was taken.
pub open spec fn has_authority(v: RecoveryView) -> bool {
    object_in(v.stage) matches Some(o) ==> {
        let t = v.targets[v.at];
        &&& o.terminating
        &&& o.uid is Some
        &&& uid_accepted(t.1, t.0, o.uid->0@, v.records)
        &&& t.1.expected ==> exists|r: ResourceIdView| #[trigger]
            v.roots.contains(r) && r.uid == Some(o.owner_references@[0].uid@)
        &&& v.stage matches RecoveryStageView::LookAtRoot { root, .. } ==> root.uid == Some(
            o.owner_references@[0].uid@,
        )
    }
}

/// Every object that a recovery comes to strip has authority behind it, whatever the
/// recovery is told.
pub proof fn law_stripping_has_authority(v: RecoveryView, e: RecoveryEvent)
    requires
        recovery_fits(v),
        has_authority(v),
    ensures
        has_authority(recovery_next(v, e)),
{
    if v.stage is Read && e is Reply && e->Reply_0 is Found {
        let o = e->Reply_0->Found_0;
        if v.targets[v.at].1.expected && o.owner_references@.len() == 1 {
            lemma_first_with_uid(v.roots, o.owner_references@[0].uid@, 0);
        }
    }
    let n = recovery_next(v, e);
    assert(n.roots == v.roots && n.records == v.records && n.targets == v.targets);
    if object_in(n.stage) is Some {
        let o = object_in(n.stage)->0;
        assert(v.targets[v.at].1.expected ==> exists|r: ResourceIdView| #[trigger]
            v.roots.contains(r) && r.uid == Some(o.owner_references@[0].uid@));
    }
}

/// A recovery begins with objects of the phase alone, none of a protected kind and
/// each with a planned UID, and with nothing read yet.
pub proof fn law_recovery_begins_with_the_phase(
    phase: PlanPhase,
    remaining: Seq<ResourceIdView>,
    deleted: Seq<ResourceIdView>,
    records: Seq<ReDeleteView>,
    i: int,
)
    ensures
        has_authority(recovery_begun(phase, remaining, deleted, records)),
        0 <= i < recoverable(phase, remaining).len() ==> {
            let t = recoverable(phase, remaining)[i];
            &&& remaining.contains(t.0)
            &&& !is_protected(t.0.kind)
            &&& uid_bound(t.0)
            &&& t.1.expected || t.1.deleted
        },
{
    let f = |r: ResourceIdView|
        match recovery_begins(phase, r) {
            RecoveryStepView::Read(role) => Some((r, role)),
            _ => None,
        };
    crate::lists::lemma_pick_members(remaining, f);
    if 0 <= i < recoverable(phase, remaining).len() {
        let t = recoverable(phase, remaining)[i];
        assert(pick(remaining, f).contains(t));
        let k = choose|k: int| 0 <= k < remaining.len() && f(#[trigger] remaining[k]) == Some(t);
        assert(remaining[k] == t.0);
    }
}

/// The owner of an object that the phase only expects to go must be seen gone: not
/// found while others of its kind can be listed, or there under another UID.
pub proof fn law_owner_must_be_gone(v: RecoveryView, e: RecoveryEvent)
    requires
        recovery_fits(v),
        has_authority(v),
        v.targets[v.at].1.expected,
        recovery_next(v, e).stage is Permit,
        !(v.stage is Permit),
    ensures
        (v.stage is LookAtRoot && (e matches RecoveryEvent::Reply(GetReply::Found(o))
            && o.uid is Some && Some(o.uid->0@) != v.stage->root.uid)) || (v.stage is VerifyRoot && e
            == RecoveryEvent::Endpoint(true)),
{
}

/// The way to a patch: a permit, then the record of the patch, about the very object
/// that was found fit.
pub proof fn law_patch_follows_its_record(v: RecoveryView, e: RecoveryEvent)
    ensures
        ({
            let n = recovery_next(v, e);
            &&& n.stage is Record && !(v.stage is Record) ==> e == RecoveryEvent::Permit(true)
                && v.stage == (RecoveryStageView::Permit { object: object_in(n.stage)->0 })
            &&& n.stage is Patch && !(v.stage is Patch) ==> e is Recorded && v.stage == (
            RecoveryStageView::Record { object: object_in(n.stage)->0 })
        }),
{
}

/// After a patch whose answer was lost, or without a permit, no further object is
/// looked at; and a recovery that is over stays so.
pub proof fn law_recovery_ends(v: RecoveryView, e: RecoveryEvent)
    ensures
        v.stage matches RecoveryStageView::Settle { lost, .. } && lost && e is Recorded
            ==> recovery_next(v, e).stage is Finished,
        v.stage is Permit && e == RecoveryEvent::Permit(false) ==> recovery_next(
            v,
            e,
        ).stage is Finished,
        v.stage is Finished ==> recovery_next(v, e) == v,
{
}

/// An object counts as recovered only where its patch went through, or where it is
/// gone after a patch whose answer was lost.
pub proof fn law_recovered_means_settled(v: RecoveryView, e: RecoveryEvent)
    requires
        recovery_next(v, e).recovered != v.recovered,
    ensures
        recovery_next(v, e).recovered == v.recovered + 1,
        e is Recorded,
        v.stage matches RecoveryStageView::Settle { result, .. } && (result is Stripped
            || result is Gone),
{
}

} // verus!
