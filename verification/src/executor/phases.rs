//! Running a plan phase by phase: guards, deletes, waits, and what follows when
//! a wait does not end well.

use vstd::prelude::*;
use vstd::string::*;

use crate::executor::deletion::{is_subscription, subscription};
use crate::executor::defer::any_same_slot;
use crate::executor::recovery::{recovery_begins, role_in, RecoveryStepView};
use crate::executor::redelete::MAX_REDELETE_ITERATIONS;
use crate::executor::result::{
    id_texts, preserved, BarrierTimeout, ExecutionResult, FinalizerCheckResult, LiveCount,
    ResultView, TimeoutView,
};
use crate::executor::stripping::recoverable;
use crate::executor::waves::{leave_out, without, WaveResult};
use crate::journal::PreservedView;
use crate::lists::{copy_noted, ids, lemma_contains_add, noted, pick, push_id, push_ids, Noted};
use crate::plan::{copy_metadata, metadata_view, PlannedPreserved};
use crate::planner::{
    all_actions, collect_all_objects, collect_objects, is_kind, objects_of, subject, Action,
    ActionKind, PlanPhase, TeardownPlan,
};
use crate::resource::{copy_ids, same_object, ResourceId, ResourceIdView};
use crate::text::{decimal, opt_text, push_text, same, texts, to_decimal};
use crate::watch::WatchWaitResult;

verus! {

/// What the run needs next.
#[derive(Debug, Clone, Copy, PartialEq, Eq, Structural)]
pub enum RunStage {
    /// Enter the next phase.
    Enter,
    /// The finalizers of everything that is up for review.
    CheckReviews,
    /// How many objects there are of the type that is to be deleted next.
    CountLive,
    /// A run of delete waves over the eligible objects.
    Waves,
    /// A wait until everything that the phase waits for is gone.
    Barrier,
    /// An attempt to strip the finalizers of what remains.
    Recover,
    /// A wait for what remains, after finalizers were stripped.
    WaitRecovered,
    /// Whether what remains may be left to the audit.
    Defer,
    /// A DELETE of the next object that was recreated.
    Redelete,
    /// Another wait, after what was recreated was deleted again.
    Rewait,
    /// As `Recover`, after a recreation.
    LoopRecover,
    /// As `WaitRecovered`, after a recreation.
    LoopWaitRecovered,
    /// As `Defer`, after a recreation.
    LoopDefer,
    /// A last wait, without what is recreated time and again.
    FinalWait,
    /// As `Defer`, after the last wait.
    FinalDefer,
    /// Nothing: the run is over.
    Done,
    /// Nothing: the run failed.
    Failed,
}

/// What is to be written to the journal now, each in a write of its own.
#[derive(Debug, Clone, Copy, PartialEq, Eq, Structural)]
pub struct Writes {
    /// How far the run has come.
    pub progress: bool,
    /// What stopped the run.
    pub timeout: bool,
    /// That what was deleted again is gone.
    pub redeletes_gone: bool,
}

/// An object, the UID that it had and the UID that it has now.
pub type Recreation = (ResourceId, String, String);

/// A run of a plan.
#[derive(Debug)]
pub struct PlanRun {
    pub stage: RunStage,
    /// The phase that the run is in.
    pub phase: usize,
    pub dry_run: bool,
    /// Phases before this one were completed by an earlier run.
    pub start_phase: usize,
    /// The package of the operator, where it was verified.
    pub package: Option<String>,
    pub result: ExecutionResult,
    /// Objects of this phase that must not be deleted yet.
    pub blocked: Vec<ResourceId>,
    /// The objects of this phase that may be deleted.
    pub eligible: Vec<ResourceId>,
    /// What this phase waits for.
    pub wait_targets: Vec<ResourceId>,
    /// Objects whose DELETE was taken, with the UID that they had.
    pub authorities: Vec<Noted>,
    /// What a wait left.
    pub remaining: Vec<ResourceId>,
    /// The number of finalizers of what a wait left.
    pub finalizer_details: Vec<(ResourceId, usize)>,
    pub recreated: Vec<Recreation>,
    /// The position of the object that is looked at next.
    pub next: usize,
    /// How often this phase has deleted again.
    pub iterations: u32,
    pub writes: Writes,
}

/// The contents of a [`PlanRun`].
#[verifier::ext_equal]
pub struct RunView {
    pub stage: RunStage,
    pub phase: nat,
    pub dry_run: bool,
    pub start_phase: nat,
    pub package: Option<Seq<char>>,
    pub result: ResultView,
    pub blocked: Seq<ResourceIdView>,
    pub eligible: Seq<ResourceIdView>,
    pub wait_targets: Seq<ResourceIdView>,
    pub authorities: Seq<(ResourceIdView, Seq<char>)>,
    pub remaining: Seq<ResourceIdView>,
    pub details: Seq<(ResourceIdView, nat)>,
    pub recreated: Seq<(ResourceIdView, Seq<char>, Seq<char>)>,
    pub next: nat,
    pub iterations: nat,
    pub writes: Writes,
}

/// The contents of a list of recreated objects.
pub open spec fn recreations(v: Seq<Recreation>) -> Seq<(ResourceIdView, Seq<char>, Seq<char>)> {
    v.map_values(|x: Recreation| (x.0@, x.1@, x.2@))
}

/// The contents of a list of finalizer counts.
pub open spec fn finalizer_counts(v: Seq<(ResourceId, usize)>) -> Seq<(ResourceIdView, nat)> {
    v.map_values(|x: (ResourceId, usize)| (x.0@, x.1 as nat))
}

impl View for PlanRun {
    type V = RunView;

    open spec fn view(&self) -> RunView {
        RunView {
            stage: self.stage,
            phase: self.phase as nat,
            dry_run: self.dry_run,
            start_phase: self.start_phase as nat,
            package: opt_text(self.package),
            result: self.result@,
            blocked: ids(self.blocked@),
            eligible: ids(self.eligible@),
            wait_targets: ids(self.wait_targets@),
            authorities: noted(self.authorities@),
            remaining: ids(self.remaining@),
            details: finalizer_counts(self.finalizer_details@),
            recreated: recreations(self.recreated@),
            next: self.next as nat,
            iterations: self.iterations as nat,
            writes: self.writes,
        }
    }
}

/// Nothing is to be written.
pub open spec fn no_writes() -> Writes {
    Writes { progress: false, timeout: false, redeletes_gone: false }
}

/// The run is over.
pub open spec fn ended(v: RunView) -> RunView {
    RunView { stage: RunStage::Done, ..v }
}

/// The run behind the phase that it is in.
pub open spec fn advanced(v: RunView) -> RunView {
    RunView {
        stage: RunStage::Enter,
        phase: v.phase + 1,
        result: ResultView { phases_completed: v.result.phases_completed + 1, ..v.result },
        blocked: seq![],
        eligible: seq![],
        wait_targets: seq![],
        authorities: seq![],
        ..v
    }
}

/// The phase has done what it had to. No further phase is entered after a failure.
pub open spec fn phase_done(v: RunView) -> RunView {
    let w = RunView { writes: Writes { progress: true, ..v.writes }, ..v };
    if v.result.failed.len() > 0 && !v.dry_run {
        ended(w)
    } else {
        advanced(w)
    }
}

/// The objects that a phase waits for without deleting them.
pub open spec fn awaited(actions: Seq<Action>) -> Seq<ResourceIdView> {
    pick(
        actions,
        |a: Action|
            match a {
                Action::ExpectGone { resource, .. } => Some(resource@),
                Action::WaitGone { resource } => Some(resource@),
                _ => None,
            },
    )
}

/// What a phase keeps.
pub open spec fn kept_by(actions: Seq<Action>) -> Seq<PreservedView> {
    pick(
        actions,
        |a: Action|
            match a {
                Action::Keep { resource, reason } => Some(
                    PreservedView { resource: resource@, reason: reason@, metadata: None },
                ),
                _ => None,
            },
    )
}

/// What a phase leaves for review.
pub open spec fn reviewed_by(actions: Seq<Action>) -> Seq<PreservedView> {
    pick(
        actions,
        |a: Action|
            match a {
                Action::Review { resource, reason, metadata } => Some(
                    PreservedView {
                        resource: resource@,
                        reason: reason@,
                        metadata: metadata_view(metadata),
                    },
                ),
                _ => None,
            },
    )
}

/// The run after the DELETEs of a phase.
pub open spec fn actions_settled(v: RunView, phase: PlanPhase) -> RunView {
    let w = RunView {
        wait_targets: v.wait_targets + awaited(phase.actions@),
        result: ResultView {
            kept: v.result.kept + kept_by(phase.actions@),
            reviewed: v.result.reviewed + reviewed_by(phase.actions@),
            ..v.result
        },
        ..v
    };
    if phase.barrier is Some && w.wait_targets.len() > 0 && !v.dry_run {
        RunView {
            stage: RunStage::Barrier,
            writes: Writes { progress: true, ..w.writes },
            ..w
        }
    } else {
        phase_done(w)
    }
}

/// The objects of a type that this one defines must be counted before it goes.
pub open spec fn needs_count(id: ResourceIdView) -> bool {
    id.kind == "CustomResourceDefinition"@ || id.kind == "APIService"@
}

/// The failures of subscriptions whose package nobody has verified.
pub open spec fn unnamed_subscriptions(eligible: Seq<ResourceIdView>) -> Seq<
    (ResourceIdView, Seq<char>),
> {
    pick(
        eligible,
        |r: ResourceIdView|
            if is_subscription(r) {
                Some(
                    (
                        r,
                        "cannot DELETE Subscription without verified package name (generation_identity is Unverifiable)"@,
                    ),
                )
            } else {
                None
            },
    )
}

/// The run once all counts of a phase are in.
pub open spec fn waves_begun(v: RunView, deletes: Seq<ResourceIdView>) -> RunView {
    let eligible = without(deletes, v.blocked);
    let unnamed = unnamed_subscriptions(eligible);
    if unnamed.len() > 0 && v.package is None {
        ended(
            RunView {
                eligible,
                result: ResultView { failed: v.result.failed + unnamed, ..v.result },
                ..v
            },
        )
    } else {
        RunView { stage: RunStage::Waves, eligible, ..v }
    }
}

/// The run at the first object, from position `i` on, that must be counted for.
pub open spec fn counting(v: RunView, deletes: Seq<ResourceIdView>, i: nat) -> RunView
    decreases deletes.len() - i,
{
    if i >= deletes.len() {
        waves_begun(v, deletes)
    } else if needs_count(deletes[i as int]) {
        RunView { stage: RunStage::CountLive, next: i, ..v }
    } else {
        counting(v, deletes, i + 1)
    }
}

/// The run at the DELETEs of a phase.
pub open spec fn deletes_begun(v: RunView, phase: PlanPhase) -> RunView {
    let deletes = objects_of(phase.actions@, ActionKind::Delete);
    if deletes.len() == 0 {
        actions_settled(v, phase)
    } else if v.dry_run {
        actions_settled(RunView { wait_targets: deletes, ..v }, phase)
    } else {
        counting(v, deletes, 0)
    }
}

/// The phase deletes a controller.
pub open spec fn deletes_controller(phase: PlanPhase) -> bool {
    let deletes = objects_of(phase.actions@, ActionKind::Delete);
    exists|i: int| 0 <= i < deletes.len() && (#[trigger] deletes[i]).kind == "ClusterServiceVersion"@
}

/// Everything in the plan that is up for review.
pub open spec fn reviews(plan: TeardownPlan) -> Seq<ResourceIdView> {
    objects_of(all_actions(plan.phases@), ActionKind::Review)
}

/// The run after it tried to enter the next phase.
pub open spec fn run_enters(v0: RunView, plan: TeardownPlan, gate_open: bool) -> RunView {
    let v = RunView { writes: no_writes(), ..v0 };
    if v.phase >= plan.phases@.len() {
        ended(v)
    } else {
        let phase = plan.phases@[v.phase as int];
        if v.phase < v.start_phase {
            advanced(v)
        } else if !v.dry_run && !gate_open {
            ended(v)
        } else if phase.actions@.len() == 0 {
            advanced(v)
        } else if !v.dry_run && deletes_controller(phase) && reviews(plan).len() > 0 {
            RunView { stage: RunStage::CheckReviews, ..v }
        } else {
            deletes_begun(v, phase)
        }
    }
}

/// The finalizers of an object that is up for review.
pub type ReviewCheck = (ResourceId, FinalizerCheckResult);

/// Why an object that is up for review stands against deleting the controller:
/// it is on its way out with finalizers, or nobody knows.
pub open spec fn review_objection(c: ReviewCheck) -> Option<(ResourceIdView, Seq<Seq<char>>)> {
    match c.1 {
        FinalizerCheckResult::Known { finalizers, terminating } => if terminating
            && finalizers@.len() > 0 {
            Some(
                (
                    c.0@,
                    texts(finalizers@).map_values(|f: Seq<char>| f + " (terminating)"@),
                ),
            )
        } else {
            None
        },
        FinalizerCheckResult::Gone => None,
        FinalizerCheckResult::Unknown(err) => Some((c.0@, seq!["check failed: "@ + err@])),
    }
}

/// Why objects that are up for review stand against deleting the controller.
pub open spec fn review_objections(checks: Seq<ReviewCheck>) -> Seq<
    (ResourceIdView, Seq<Seq<char>>),
> {
    pick(checks, |c: ReviewCheck| review_objection(c))
}

/// The run after the objects that are up for review were checked.
pub open spec fn run_checks_reviews(
    v0: RunView,
    plan: TeardownPlan,
    checks: Seq<ReviewCheck>,
) -> RunView {
    let v = RunView { writes: no_writes(), ..v0 };
    let objections = review_objections(checks);
    if v.stage != RunStage::CheckReviews {
        v0
    } else if objections.len() > 0 {
        ended(
            RunView {
                result: ResultView {
                    timeout: Some(
                        TimeoutView {
                            phase: "pre-controller safety check"@,
                            remaining: objections.map_values(
                                |x: (ResourceIdView, Seq<Seq<char>>)| x.0,
                            ),
                            finalizers: objections,
                        },
                    ),
                    ..v.result
                },
                writes: Writes { timeout: true, ..v.writes },
                ..v
            },
        )
    } else {
        deletes_begun(v, plan.phases@[v.phase as int])
    }
}

/// Why objects of a type stand against deleting the type.
pub open spec fn count_objection(count: LiveCount) -> Option<Seq<char>> {
    match count {
        LiveCount::Zero => None,
        LiveCount::NonZero(n) => Some(decimal(n as nat) + " live instances remain"@),
        LiveCount::Unknown(e) => Some("cannot verify: "@ + e@),
    }
}

/// The run after the objects of a type were counted.
pub open spec fn run_counts(v0: RunView, plan: TeardownPlan, count: LiveCount) -> RunView {
    let v = RunView { writes: no_writes(), ..v0 };
    let deletes = objects_of(plan.phases@[v.phase as int].actions@, ActionKind::Delete);
    if v.stage != RunStage::CountLive {
        v0
    } else {
        let w = match count_objection(count) {
            None => v,
            Some(why) => RunView {
                blocked: v.blocked.push(deletes[v.next as int]),
                result: ResultView {
                    failed: v.result.failed.push((deletes[v.next as int], why)),
                    ..v.result
                },
                ..v
            },
        };
        counting(w, deletes, v.next + 1)
    }
}

/// The contents of a [`WaveResult`].
pub struct WaveResultView {
    pub accepted_gone: Seq<ResourceIdView>,
    pub already_gone: Seq<ResourceIdView>,
    pub failed: Seq<(ResourceIdView, Seq<char>)>,
    pub stopped: bool,
    pub authorities: Seq<(ResourceIdView, Seq<char>)>,
}

impl View for WaveResult {
    type V = WaveResultView;

    open spec fn view(&self) -> WaveResultView {
        WaveResultView {
            accepted_gone: ids(self.accepted_gone@),
            already_gone: ids(self.already_gone@),
            failed: noted(self.failed@),
            stopped: self.stopped,
            authorities: noted(self.redelete_authorities@),
        }
    }
}

/// The run after the delete waves of a phase.
pub open spec fn run_waves(v0: RunView, plan: TeardownPlan, r: WaveResultView) -> RunView {
    let v = RunView { writes: no_writes(), ..v0 };
    if v.stage != RunStage::Waves {
        v0
    } else {
        let w = RunView {
            wait_targets: v.wait_targets + r.accepted_gone,
            authorities: r.authorities,
            result: ResultView {
                deleted: v.result.deleted + r.accepted_gone,
                already_gone: v.result.already_gone + r.already_gone,
                failed: v.result.failed + r.failed,
                ..v.result
            },
            ..v
        };
        if r.stopped {
            ended(w)
        } else {
            actions_settled(w, plan.phases@[v.phase as int])
        }
    }
}

/// The UID that `id` had when its DELETE was taken.
pub open spec fn authority_for(
    authorities: Seq<(ResourceIdView, Seq<char>)>,
    id: ResourceIdView,
    i: nat,
) -> Option<Seq<char>>
    decreases authorities.len() - i,
{
    if i >= authorities.len() {
        None
    } else if same_object(authorities[i as int].0, id) {
        Some(authorities[i as int].1)
    } else {
        authority_for(authorities, id, i + 1)
    }
}

/// The run at the first recreated object, from position `i` on, that may be
/// deleted again.
pub open spec fn redeleting(v: RunView, i: nat) -> RunView
    decreases v.recreated.len() - i,
{
    if i >= v.recreated.len() {
        RunView { stage: RunStage::Rewait, next: i, ..v }
    } else if authority_for(v.authorities, v.recreated[i as int].0, 0) is Some {
        RunView { stage: RunStage::Redelete, next: i, ..v }
    } else {
        redeleting(v, i + 1)
    }
}

/// Those of `targets` whose group, kind, namespace and name no recreated object has.
pub open spec fn not_recreated(
    targets: Seq<ResourceIdView>,
    recreated: Seq<(ResourceIdView, Seq<char>, Seq<char>)>,
) -> Seq<ResourceIdView> {
    pick(
        targets,
        |t: ResourceIdView|
            if any_same_slot(
                recreated.map_values(|x: (ResourceIdView, Seq<char>, Seq<char>)| x.0),
                t,
            ) {
                None
            } else {
                Some(t)
            },
    )
}

/// The run after `recreated` took the place of what was waited for. They are
/// deleted again so often; after that they are left to the audit.
pub open spec fn loop_begun(
    v: RunView,
    recreated: Seq<(ResourceIdView, Seq<char>, Seq<char>)>,
) -> RunView {
    let w = RunView { recreated, iterations: v.iterations + 1, ..v };
    if w.iterations > MAX_REDELETE_ITERATIONS {
        let targets = not_recreated(w.wait_targets, recreated);
        let x = RunView { wait_targets: targets, ..w };
        if targets.len() == 0 {
            phase_done(x)
        } else {
            RunView { stage: RunStage::FinalWait, ..x }
        }
    } else {
        redeleting(w, 0)
    }
}

/// The run after a wait. Where it stalled, recovery is tried if `may_recover`.
pub open spec fn run_waits(v0: RunView, result: WatchWaitResult, may_recover: bool) -> RunView {
    let v = RunView { writes: no_writes(), ..v0 };
    match v.stage {
        RunStage::Barrier => match result {
            WatchWaitResult::AllGone => phase_done(v),
            WatchWaitResult::Cancelled => ended(v),
            WatchWaitResult::Stalled { remaining, finalizer_details, .. } => RunView {
                stage: if may_recover {
                    RunStage::Recover
                } else {
                    RunStage::Defer
                },
                remaining: ids(remaining@),
                details: finalizer_counts(finalizer_details@),
                ..v
            },
            WatchWaitResult::Recreated { recreated, .. } => loop_begun(
                RunView { iterations: 0, ..v },
                recreations(recreated@),
            ),
        },
        RunStage::WaitRecovered => if result is AllGone {
            phase_done(v)
        } else {
            RunView { stage: RunStage::Defer, ..v }
        },
        RunStage::Rewait => match result {
            WatchWaitResult::AllGone => phase_done(
                RunView { writes: Writes { redeletes_gone: true, ..v.writes }, ..v },
            ),
            WatchWaitResult::Cancelled => ended(v),
            WatchWaitResult::Stalled { remaining, finalizer_details, .. } => RunView {
                stage: if may_recover {
                    RunStage::LoopRecover
                } else {
                    RunStage::LoopDefer
                },
                remaining: ids(remaining@),
                details: finalizer_counts(finalizer_details@),
                ..v
            },
            WatchWaitResult::Recreated { recreated, .. } => loop_begun(v, recreations(recreated@)),
        },
        RunStage::LoopWaitRecovered => match result {
            WatchWaitResult::AllGone => phase_done(v),
            WatchWaitResult::Recreated { recreated, .. } => loop_begun(v, recreations(recreated@)),
            _ => RunView { stage: RunStage::LoopDefer, ..v },
        },
        RunStage::FinalWait => match result {
            WatchWaitResult::AllGone => phase_done(v),
            WatchWaitResult::Stalled { remaining, .. } => RunView {
                stage: RunStage::FinalDefer,
                remaining: ids(remaining@),
                ..v
            },
            _ => ended(v),
        },
        _ => v0,
    }
}

/// The run after recovery stripped the finalizers of so many objects, or failed.
pub open spec fn run_recovers(v0: RunView, count: Option<usize>) -> RunView {
    let v = RunView { writes: no_writes(), ..v0 };
    let some = count is Some && count->0 > 0;
    match v.stage {
        RunStage::Recover => RunView {
            stage: if count is None {
                RunStage::Failed
            } else if some {
                RunStage::WaitRecovered
            } else {
                RunStage::Defer
            },
            ..v
        },
        RunStage::LoopRecover => RunView {
            stage: if some {
                RunStage::LoopWaitRecovered
            } else {
                RunStage::LoopDefer
            },
            ..v
        },
        _ => v0,
    }
}

/// What stopped the run: `remaining` did not go.
pub open spec fn stall_of(v: RunView, phase: PlanPhase) -> TimeoutView {
    TimeoutView {
        phase: phase.name@,
        remaining: v.remaining,
        finalizers: v.details.map_values(
            |x: (ResourceIdView, nat)| (x.0, seq![decimal(x.1) + " finalizer(s)"@]),
        ),
    }
}

/// The run after it was found out whether what remains may be left to the audit.
pub open spec fn run_defers(v0: RunView, plan: TeardownPlan, allowed: bool) -> RunView {
    let v = RunView { writes: no_writes(), ..v0 };
    let phase = plan.phases@[v.phase as int];
    match v.stage {
        RunStage::Defer => if allowed {
            phase_done(v)
        } else {
            ended(
                RunView {
                    result: ResultView { timeout: Some(stall_of(v, phase)), ..v.result },
                    writes: Writes { timeout: true, ..v.writes },
                    ..v
                },
            )
        },
        RunStage::LoopDefer => if allowed {
            phase_done(v)
        } else {
            ended(
                RunView {
                    result: ResultView { timeout: Some(stall_of(v, phase)), ..v.result },
                    ..v
                },
            )
        },
        RunStage::FinalDefer => if allowed {
            phase_done(v)
        } else {
            ended(v)
        },
        _ => v0,
    }
}

/// The run after a recreated object was deleted again, or could not be.
pub open spec fn run_redeletes(v0: RunView, stop: bool) -> RunView {
    let v = RunView { writes: no_writes(), ..v0 };
    if v.stage != RunStage::Redelete {
        v0
    } else if stop {
        ended(v)
    } else {
        redeleting(v, v.next + 1)
    }
}

/// The run is inside a phase.
pub open spec fn inside_phase(stage: RunStage) -> bool {
    !(stage is Enter) && !(stage is Done) && !(stage is Failed)
}

/// A run of `plan` that can go on: it has completed exactly the phases before
/// the one that it is in.
pub open spec fn run_fits(v: RunView, plan: TeardownPlan) -> bool {
    &&& v.result.phases_completed == v.phase
    &&& v.phase <= plan.phases@.len()
    &&& inside_phase(v.stage) ==> v.phase < plan.phases@.len()
    &&& v.stage is CountLive ==> v.next < objects_of(
        plan.phases@[v.phase as int].actions@,
        ActionKind::Delete,
    ).len()
    &&& v.stage is Redelete ==> v.next < v.recreated.len()
    &&& v.iterations <= MAX_REDELETE_ITERATIONS || !(v.stage is Rewait || v.stage
        is LoopWaitRecovered || v.stage is LoopRecover || v.stage is Redelete)
}

/// The run after the phase that it is in, with room to count one more.
spec fn countable(v: RunView) -> bool {
    v.result.phases_completed < usize::MAX && v.phase < usize::MAX
}

fn copy_recreations(v: &Vec<Recreation>) -> (r: Vec<Recreation>)
    ensures
        r@ == v@,
{
    let mut out: Vec<Recreation> = Vec::new();
    for i in 0..v.len()
        invariant
            out@ == v@.take(i as int),
    {
        out.push((v[i].0.clone(), v[i].1.clone(), v[i].2.clone()));
        assert(v@.take(i + 1) =~= v@.take(i as int).push(v@[i as int]));
    }
    assert(v@.take(v@.len() as int) =~= v@);
    out
}

fn copy_counts(v: &Vec<(ResourceId, usize)>) -> (r: Vec<(ResourceId, usize)>)
    ensures
        r@ == v@,
{
    let mut out: Vec<(ResourceId, usize)> = Vec::new();
    for i in 0..v.len()
        invariant
            out@ == v@.take(i as int),
    {
        out.push((v[i].0.clone(), v[i].1));
        assert(v@.take(i + 1) =~= v@.take(i as int).push(v@[i as int]));
    }
    assert(v@.take(v@.len() as int) =~= v@);
    out
}

/// Whether the objects of a type must be counted before `id` goes.
pub fn must_count(id: &ResourceId) -> (r: bool)
    ensures
        r == needs_count(id@),
{
    same(id.kind.as_str(), "CustomResourceDefinition") || same(id.kind.as_str(), "APIService")
}

/// The UID that `id` had when its DELETE was taken.
fn find_authority<'a>(authorities: &'a Vec<Noted>, id: &ResourceId) -> (r: Option<&'a String>)
    ensures
        match r {
            Some(u) => authority_for(noted(authorities@), id@, 0) == Some(u@),
            None => authority_for(noted(authorities@), id@, 0) is None,
        },
{
    let ghost all = noted(authorities@);
    for i in 0..authorities.len()
        invariant
            all == noted(authorities@),
            authority_for(all, id@, 0) == authority_for(all, id@, i as nat),
    {
        assert(all[i as int] == (authorities@[i as int].0@, authorities@[i as int].1@));
        if authorities[i].0.is_same_object(id) {
            return Some(&authorities[i].1);
        }
    }
    None
}

/// The failures of subscriptions whose package nobody has verified.
fn refuse_subscriptions(eligible: &Vec<ResourceId>) -> (r: Vec<Noted>)
    ensures
        noted(r@) == unnamed_subscriptions(ids(eligible@)),
{
    let mut out: Vec<Noted> = Vec::new();
    let ghost all = ids(eligible@);
    assert(all.take(0) =~= seq![]);
    assert(noted(out@) =~= seq![]);
    for i in 0..eligible.len()
        invariant
            all == ids(eligible@),
            noted(out@) == unnamed_subscriptions(all.take(i as int)),
    {
        assert(all.take(i + 1).drop_last() =~= all.take(i as int));
        assert(all.take(i + 1).last() == eligible@[i as int]@);
        if subscription(&eligible[i]) {
            let ghost before = out@;
            let why = "cannot DELETE Subscription without verified package name (generation_identity is Unverifiable)".to_owned();
            let ghost w = why@;
            out.push((eligible[i].clone(), why));
            assert(noted(out@) =~= noted(before).push((eligible@[i as int]@, w)));
        }
    }
    assert(all.take(all.len() as int) =~= all);
    out
}

/// Those of `targets` whose place no recreated object has taken.
fn drop_recreated(targets: &Vec<ResourceId>, recreated: &Vec<Recreation>) -> (r: Vec<ResourceId>)
    ensures
        ids(r@) == not_recreated(ids(targets@), recreations(recreated@)),
{
    let ghost slots = recreations(recreated@).map_values(
        |x: (ResourceIdView, Seq<char>, Seq<char>)| x.0,
    );
    let mut names: Vec<ResourceId> = Vec::new();
    assert(ids(names@) =~= slots.take(0));
    for i in 0..recreated.len()
        invariant
            slots == recreations(recreated@).map_values(
                |x: (ResourceIdView, Seq<char>, Seq<char>)| x.0,
            ),
            ids(names@) == slots.take(i as int),
    {
        push_id(&mut names, &recreated[i].0);
        assert(slots.take(i + 1) =~= slots.take(i as int).push(slots[i as int]));
    }
    assert(slots.take(recreated@.len() as int) =~= slots);
    let mut out: Vec<ResourceId> = Vec::new();
    let ghost all = ids(targets@);
    assert(all.take(0) =~= seq![]);
    assert(ids(out@) =~= seq![]);
    for i in 0..targets.len()
        invariant
            all == ids(targets@),
            slots == recreations(recreated@).map_values(
                |x: (ResourceIdView, Seq<char>, Seq<char>)| x.0,
            ),
            ids(names@) == slots,
            ids(out@) == not_recreated(all.take(i as int), recreations(recreated@)),
    {
        assert(all.take(i + 1).drop_last() =~= all.take(i as int));
        assert(all.take(i + 1).last() == targets@[i as int]@);
        if !crate::executor::defer::has_same_slot(&names, &targets[i]) {
            push_id(&mut out, &targets[i]);
        }
    }
    assert(all.take(all.len() as int) =~= all);
    out
}

/// Why objects that are up for review stand against deleting the controller.
pub fn collect_objections(checks: &Vec<ReviewCheck>) -> (r: Vec<(ResourceId, Vec<String>)>)
    ensures
        id_texts(r@) == review_objections(checks@),
{
    let mut out: Vec<(ResourceId, Vec<String>)> = Vec::new();
    assert(checks@.take(0) =~= seq![]);
    assert(id_texts(out@) =~= seq![]);
    for i in 0..checks.len()
        invariant
            id_texts(out@) == review_objections(checks@.take(i as int)),
    {
        assert(checks@.take(i + 1).drop_last() =~= checks@.take(i as int));
        assert(checks@.take(i + 1).last() == checks@[i as int]);
        let ghost before = out@;
        match &checks[i].1 {
            FinalizerCheckResult::Known { finalizers, terminating } => {
                if *terminating && finalizers.len() > 0 {
                    let mut marked: Vec<String> = Vec::new();
                    let ghost want = texts(finalizers@).map_values(
                        |f: Seq<char>| f + " (terminating)"@,
                    );
                    assert(texts(marked@) =~= want.take(0));
                    for j in 0..finalizers.len()
                        invariant
                            want == texts(finalizers@).map_values(
                                |f: Seq<char>| f + " (terminating)"@,
                            ),
                            texts(marked@) == want.take(j as int),
                    {
                        push_text(&mut marked, finalizers[j].clone().concat(" (terminating)"));
                        assert(want.take(j + 1) =~= want.take(j as int).push(want[j as int]));
                    }
                    assert(want.take(finalizers@.len() as int) =~= want);
                    out.push((checks[i].0.clone(), marked));
                    assert(id_texts(out@) =~= id_texts(before).push((checks@[i as int].0@, want)));
                }
            },
            FinalizerCheckResult::Gone => {},
            FinalizerCheckResult::Unknown(err) => {
                let mut why: Vec<String> = Vec::new();
                why.push("check failed: ".to_owned().concat(err.as_str()));
                assert(texts(why@) =~= seq!["check failed: "@ + err@]);
                out.push((checks[i].0.clone(), why));
                assert(id_texts(out@) =~= id_texts(before).push(
                    (checks@[i as int].0@, seq!["check failed: "@ + err@]),
                ));
            },
        }
    }
    assert(checks@.take(checks@.len() as int) =~= checks@);
    out
}

impl PlanRun {
    /// A run of `plan`. `prior_deleted` is what an earlier run of it has deleted.
    pub fn new(
        plan: &TeardownPlan,
        dry_run: bool,
        start_phase: usize,
        package: Option<String>,
        prior_deleted: &Vec<ResourceId>,
    ) -> (r: PlanRun)
        ensures
            run_fits(r@, *plan),
            r@ == (RunView {
                stage: RunStage::Enter,
                phase: 0,
                dry_run,
                start_phase: start_phase as nat,
                package: opt_text(package),
                result: ResultView {
                    phases_completed: 0,
                    phases_total: plan.phases@.len(),
                    deleted: ids(prior_deleted@),
                    already_gone: seq![],
                    failed: seq![],
                    timeout: None,
                    kept: seq![],
                    reviewed: seq![],
                },
                blocked: seq![],
                eligible: seq![],
                wait_targets: seq![],
                authorities: seq![],
                remaining: seq![],
                details: seq![],
                recreated: seq![],
                next: 0,
                iterations: 0,
                writes: no_writes(),
            }),
    {
        let r = PlanRun {
            stage: RunStage::Enter,
            phase: 0,
            dry_run,
            start_phase,
            package,
            result: ExecutionResult {
                phases_completed: 0,
                phases_total: plan.phases.len(),
                deleted: copy_ids(prior_deleted),
                already_gone: Vec::new(),
                failed: Vec::new(),
                barrier_timeout: None,
                kept: Vec::new(),
                reviewed: Vec::new(),
            },
            blocked: Vec::new(),
            eligible: Vec::new(),
            wait_targets: Vec::new(),
            authorities: Vec::new(),
            remaining: Vec::new(),
            finalizer_details: Vec::new(),
            recreated: Vec::new(),
            next: 0,
            iterations: 0,
            writes: Writes { progress: false, timeout: false, redeletes_gone: false },
        };
        assert(r@.result.already_gone =~= seq![]);
        assert(r@.result.failed =~= seq![]);
        assert(r@.result.kept =~= seq![]);
        assert(r@.result.reviewed =~= seq![]);
        assert(r@.blocked =~= seq![]);
        assert(r@.authorities =~= seq![]);
        assert(r@.details =~= seq![]);
        assert(r@.recreated =~= seq![]);
        r
    }

    fn clear_writes(&mut self)
        ensures
            final(self)@ == (RunView { writes: no_writes(), ..old(self)@ }),
    {
        self.writes = Writes { progress: false, timeout: false, redeletes_gone: false };
    }

    fn advance(&mut self)
        requires
            countable(old(self)@),
        ensures
            final(self)@ == advanced(old(self)@),
    {
        self.stage = RunStage::Enter;
        self.phase = self.phase + 1;
        self.result.phases_completed = self.result.phases_completed + 1;
        self.blocked = Vec::new();
        self.eligible = Vec::new();
        self.wait_targets = Vec::new();
        self.authorities = Vec::new();
        assert(self@ =~= advanced(old(self)@));
    }

    fn finish_phase(&mut self)
        requires
            countable(old(self)@),
        ensures
            final(self)@ == phase_done(old(self)@),
    {
        assert(self@.result.failed.len() == self.result.failed@.len());
        self.writes.progress = true;
        if self.result.failed.len() > 0 && !self.dry_run {
            self.stage = RunStage::Done;
        } else {
            self.advance();
        }
    }

    fn settle_actions(&mut self, phase: &PlanPhase)
        requires
            countable(old(self)@),
        ensures
            final(self)@ == actions_settled(old(self)@, *phase),
    {
        let ghost v = self@;
        let ghost acts = phase.actions@;
        assert(acts.take(0) =~= seq![]);
        assert(v.wait_targets + seq![] =~= v.wait_targets);
        assert(v.result.kept + seq![] =~= v.result.kept);
        assert(v.result.reviewed + seq![] =~= v.result.reviewed);
        for i in 0..phase.actions.len()
            invariant
                acts == phase.actions@,
                self@ == (RunView {
                    wait_targets: v.wait_targets + awaited(acts.take(i as int)),
                    result: ResultView {
                        kept: v.result.kept + kept_by(acts.take(i as int)),
                        reviewed: v.result.reviewed + reviewed_by(acts.take(i as int)),
                        ..v.result
                    },
                    ..v
                }),
        {
            assert(acts.take(i + 1).drop_last() =~= acts.take(i as int));
            let ghost before = self@;
            match &phase.actions[i] {
                Action::Delete { .. } => {},
                Action::ExpectGone { resource, .. } | Action::WaitGone { resource } => {
                    push_id(&mut self.wait_targets, resource);
                    assert(self@.wait_targets =~= v.wait_targets + awaited(
                        acts.take(i + 1),
                    ));
                },
                Action::Keep { resource, reason } => {
                    let ghost list = self.result.kept@;
                    let item = PlannedPreserved {
                        resource: resource.clone(),
                        reason: reason.clone(),
                        metadata: None,
                    };
                    let ghost x = item@;
                    self.result.kept.push(item);
                    assert(preserved(self.result.kept@) =~= preserved(list).push(x));
                    assert(self@.result.kept =~= v.result.kept + kept_by(acts.take(i + 1)));
                },
                Action::Review { resource, reason, metadata } => {
                    let ghost list = self.result.reviewed@;
                    let item = PlannedPreserved {
                        resource: resource.clone(),
                        reason: reason.clone(),
                        metadata: copy_metadata(metadata),
                    };
                    let ghost x = item@;
                    self.result.reviewed.push(item);
                    assert(preserved(self.result.reviewed@) =~= preserved(list).push(x));
                    assert(self@.result.reviewed =~= v.result.reviewed + reviewed_by(
                        acts.take(i + 1),
                    ));
                },
            }
        }
        assert(acts.take(acts.len() as int) =~= acts);
        assert(self@.wait_targets.len() == self.wait_targets@.len());
        if phase.barrier.is_some() && self.wait_targets.len() > 0 && !self.dry_run {
            self.stage = RunStage::Barrier;
            self.writes.progress = true;
        } else {
            self.finish_phase();
        }
    }

    fn begin_waves(&mut self, deletes: &Vec<ResourceId>)
        ensures
            final(self)@ == waves_begun(old(self)@, ids(deletes@)),
    {
        let eligible = leave_out(deletes, &self.blocked);
        let unnamed = refuse_subscriptions(&eligible);
        assert(noted(unnamed@).len() == unnamed@.len());
        self.eligible = eligible;
        if unnamed.len() > 0 && self.package.is_none() {
            crate::executor::waves::append_noted(&mut self.result.failed, unnamed);
            self.stage = RunStage::Done;
        } else {
            self.stage = RunStage::Waves;
        }
    }

    fn count_from(&mut self, deletes: &Vec<ResourceId>, from: usize)
        ensures
            final(self)@ == counting(old(self)@, ids(deletes@), from as nat),
    {
        let ghost all = ids(deletes@);
        let ghost v = self@;
        let mut i: usize = from;
        while i < deletes.len()
            invariant
                all == ids(deletes@),
                self@ == v,
                v == old(self)@,
                counting(v, all, from as nat) == counting(v, all, i as nat),
            decreases deletes@.len() - i,
        {
            assert(all[i as int] == deletes@[i as int]@);
            if must_count(&deletes[i]) {
                self.stage = RunStage::CountLive;
                self.next = i;
                return ;
            }
            i = i + 1;
        }
        self.begin_waves(deletes);
    }

    fn begin_deletes(&mut self, phase: &PlanPhase)
        requires
            countable(old(self)@),
        ensures
            final(self)@ == deletes_begun(old(self)@, *phase),
    {
        let deletes = collect_objects(&phase.actions, ActionKind::Delete);
        assert(ids(deletes@).len() == deletes@.len());
        if deletes.len() == 0 {
            self.settle_actions(phase);
        } else if self.dry_run {
            self.wait_targets = deletes;
            self.settle_actions(phase);
        } else {
            self.count_from(&deletes, 0);
        }
    }

    /// Enters the next phase, if there is one and the mutation gate is open.
    pub fn enter(&mut self, plan: &TeardownPlan, gate_open: bool)
        requires
            run_fits(old(self)@, *plan),
        ensures
            final(self)@ == if old(self).stage is Enter {
                run_enters(old(self)@, *plan, gate_open)
            } else {
                old(self)@
            },
            run_fits(final(self)@, *plan),
    {
        match self.stage {
            RunStage::Enter => {},
            _ => {
                return ;
            },
        }
        proof {
            lemma_enter_fits(self@, *plan, gate_open);
        }
        self.clear_writes();
        let count: usize = plan.phases.len();
        if self.phase >= count {
            self.stage = RunStage::Done;
            return ;
        }
        let phase: &PlanPhase = &plan.phases[self.phase];
        if self.phase < self.start_phase {
            self.advance();
            return ;
        }
        if !self.dry_run && !gate_open {
            self.stage = RunStage::Done;
            return ;
        }
        if phase.actions.len() == 0 {
            self.advance();
            return ;
        }
        if !self.dry_run && removes_controller(phase) {
            let up_for_review = collect_all_objects(&plan.phases, ActionKind::Review);
            assert(ids(up_for_review@).len() == up_for_review@.len());
            if up_for_review.len() > 0 {
                self.stage = RunStage::CheckReviews;
                return ;
            }
        }
        self.begin_deletes(phase);
    }

    /// The objects that are up for review have been checked.
    pub fn reviews_checked(&mut self, plan: &TeardownPlan, checks: &Vec<ReviewCheck>)
        requires
            run_fits(old(self)@, *plan),
        ensures
            final(self)@ == run_checks_reviews(old(self)@, *plan, checks@),
            run_fits(final(self)@, *plan),
    {
        match self.stage {
            RunStage::CheckReviews => {},
            _ => {
                return ;
            },
        }
        proof {
            lemma_reviews_fit(self@, *plan, checks@);
        }
        self.clear_writes();
        let count: usize = plan.phases.len();
        let objections = collect_objections(checks);
        assert(id_texts(objections@).len() == objections@.len());
        if objections.len() > 0 {
            let ghost all = id_texts(objections@);
            let ghost who = all.map_values(|x: (ResourceIdView, Seq<Seq<char>>)| x.0);
            let mut remaining: Vec<ResourceId> = Vec::new();
            assert(ids(remaining@) =~= who.take(0));
            for i in 0..objections.len()
                invariant
                    all == id_texts(objections@),
                    who == all.map_values(|x: (ResourceIdView, Seq<Seq<char>>)| x.0),
                    ids(remaining@) == who.take(i as int),
            {
                push_id(&mut remaining, &objections[i].0);
                assert(who.take(i + 1) =~= who.take(i as int).push(who[i as int]));
            }
            assert(who.take(objections@.len() as int) =~= who);
            self.result.barrier_timeout =
            Some(
                BarrierTimeout {
                    phase: "pre-controller safety check".to_owned(),
                    remaining,
                    finalizers: objections,
                },
            );
            self.writes.timeout = true;
            self.stage = RunStage::Done;
        } else {
            let phase: &PlanPhase = &plan.phases[self.phase];
            self.begin_deletes(phase);
        }
    }

    /// The objects of the type that is to be deleted next have been counted.
    pub fn live_counted(&mut self, plan: &TeardownPlan, count: &LiveCount)
        requires
            run_fits(old(self)@, *plan),
        ensures
            final(self)@ == run_counts(old(self)@, *plan, *count),
            run_fits(final(self)@, *plan),
    {
        match self.stage {
            RunStage::CountLive => {},
            _ => {
                return ;
            },
        }
        proof {
            lemma_counts_fit(self@, *plan, *count);
        }
        self.clear_writes();
        let deletes = collect_objects(&plan.phases[self.phase].actions, ActionKind::Delete);
        let total: usize = deletes.len();
        assert(ids(deletes@).len() == deletes@.len());
        let target = &deletes[self.next];
        assert(ids(deletes@)[self.next as int] == target@);
        let why: Option<String> = match count {
            LiveCount::Zero => None,
            LiveCount::NonZero(n) => Some(to_decimal(*n).concat(" live instances remain")),
            LiveCount::Unknown(e) => Some("cannot verify: ".to_owned().concat(e.as_str())),
        };
        match why {
            Some(why) => {
                let ghost w = why@;
                let ghost list = self.result.failed@;
                push_id(&mut self.blocked, target);
                self.result.failed.push((target.clone(), why));
                assert(noted(self.result.failed@) =~= noted(list).push((target@, w)));
            },
            None => {},
        }
        let from: usize = self.next + 1;
        self.count_from(&deletes, from);
    }

    /// The delete waves of the phase are over.
    pub fn waves_done(&mut self, plan: &TeardownPlan, r: &WaveResult)
        requires
            run_fits(old(self)@, *plan),
        ensures
            final(self)@ == run_waves(old(self)@, *plan, r@),
            run_fits(final(self)@, *plan),
    {
        match self.stage {
            RunStage::Waves => {},
            _ => {
                return ;
            },
        }
        self.clear_writes();
        let count: usize = plan.phases.len();
        push_ids(&mut self.result.deleted, &r.accepted_gone);
        push_ids(&mut self.wait_targets, &r.accepted_gone);
        push_ids(&mut self.result.already_gone, &r.already_gone);
        crate::executor::waves::append_noted(&mut self.result.failed, copy_noted(&r.failed));
        self.authorities = copy_noted(&r.redelete_authorities);
        if r.stopped {
            self.stage = RunStage::Done;
        } else {
            let phase: &PlanPhase = &plan.phases[self.phase];
            self.settle_actions(phase);
        }
    }

    fn redelete_from(&mut self, from: usize)
        ensures
            final(self)@ == redeleting(old(self)@, from as nat),
    {
        let ghost v = self@;
        let mut i: usize = from;
        let total: usize = self.recreated.len();
        while i < total
            invariant
                total == self.recreated@.len(),
                self@ == v,
                v == old(self)@,
                redeleting(v, from as nat) == redeleting(v, i as nat),
            decreases total - i,
        {
            assert(v.recreated[i as int].0 == self.recreated@[i as int].0@);
            let found = find_authority(&self.authorities, &self.recreated[i].0).is_some();
            if found {
                self.stage = RunStage::Redelete;
                self.next = i;
                return ;
            }
            i = i + 1;
        }
        self.stage = RunStage::Rewait;
        self.next = i;
    }

    fn begin_loop(&mut self, recreated: &Vec<Recreation>)
        requires
            countable(old(self)@),
            old(self).iterations <= MAX_REDELETE_ITERATIONS,
        ensures
            final(self)@ == loop_begun(old(self)@, recreations(recreated@)),
    {
        self.recreated = copy_recreations(recreated);
        self.iterations = self.iterations + 1;
        if self.iterations > MAX_REDELETE_ITERATIONS {
            let targets = drop_recreated(&self.wait_targets, &self.recreated);
            assert(ids(targets@).len() == targets@.len());
            let none = targets.len() == 0;
            self.wait_targets = targets;
            if none {
                self.finish_phase();
            } else {
                self.stage = RunStage::FinalWait;
            }
        } else {
            self.redelete_from(0);
        }
    }

    /// A wait is over. Where it stalled, recovery is tried next if `may_recover`.
    pub fn waited(&mut self, plan: &TeardownPlan, result: &WatchWaitResult, may_recover: bool)
        requires
            run_fits(old(self)@, *plan),
        ensures
            final(self)@ == run_waits(old(self)@, *result, may_recover),
            run_fits(final(self)@, *plan),
    {
        proof {
            lemma_waits_fit(self@, *plan, *result, may_recover);
        }
        let count: usize = plan.phases.len();
        match self.stage {
            RunStage::Barrier => {
                self.clear_writes();
                match result {
                    WatchWaitResult::AllGone => self.finish_phase(),
                    WatchWaitResult::Cancelled => {
                        self.stage = RunStage::Done;
                    },
                    WatchWaitResult::Stalled { remaining, finalizer_details, .. } => {
                        self.stage = if may_recover {
                            RunStage::Recover
                        } else {
                            RunStage::Defer
                        };
                        self.remaining = copy_ids(remaining);
                        self.finalizer_details = copy_counts(finalizer_details);
                    },
                    WatchWaitResult::Recreated { recreated, .. } => {
                        self.iterations = 0;
                        self.begin_loop(recreated);
                    },
                }
            },
            RunStage::WaitRecovered => {
                self.clear_writes();
                match result {
                    WatchWaitResult::AllGone => self.finish_phase(),
                    _ => {
                        self.stage = RunStage::Defer;
                    },
                }
            },
            RunStage::Rewait => {
                self.clear_writes();
                match result {
                    WatchWaitResult::AllGone => {
                        self.writes.redeletes_gone = true;
                        self.finish_phase();
                    },
                    WatchWaitResult::Cancelled => {
                        self.stage = RunStage::Done;
                    },
                    WatchWaitResult::Stalled { remaining, finalizer_details, .. } => {
                        self.stage = if may_recover {
                            RunStage::LoopRecover
                        } else {
                            RunStage::LoopDefer
                        };
                        self.remaining = copy_ids(remaining);
                        self.finalizer_details = copy_counts(finalizer_details);
                    },
                    WatchWaitResult::Recreated { recreated, .. } => {
                        self.begin_loop(recreated);
                    },
                }
            },
            RunStage::LoopWaitRecovered => {
                self.clear_writes();
                match result {
                    WatchWaitResult::AllGone => self.finish_phase(),
                    WatchWaitResult::Recreated { recreated, .. } => {
                        self.begin_loop(recreated);
                    },
                    _ => {
                        self.stage = RunStage::LoopDefer;
                    },
                }
            },
            RunStage::FinalWait => {
                self.clear_writes();
                match result {
                    WatchWaitResult::AllGone => self.finish_phase(),
                    WatchWaitResult::Stalled { remaining, .. } => {
                        self.stage = RunStage::FinalDefer;
                        self.remaining = copy_ids(remaining);
                    },
                    _ => {
                        self.stage = RunStage::Done;
                    },
                }
            },
            _ => {},
        }
    }

    /// Recovery stripped the finalizers of `count` objects, or failed.
    pub fn recovered(&mut self, count: Option<usize>)
        ensures
            final(self)@ == run_recovers(old(self)@, count),
            forall|plan: TeardownPlan|
                run_fits(old(self)@, plan) ==> #[trigger] run_fits(final(self)@, plan),
    {
        let some = match count {
            Some(n) => n > 0,
            None => false,
        };
        match self.stage {
            RunStage::Recover => {
                self.clear_writes();
                self.stage = if count.is_none() {
                    RunStage::Failed
                } else if some {
                    RunStage::WaitRecovered
                } else {
                    RunStage::Defer
                };
            },
            RunStage::LoopRecover => {
                self.clear_writes();
                self.stage = if some {
                    RunStage::LoopWaitRecovered
                } else {
                    RunStage::LoopDefer
                };
            },
            _ => {},
        }
    }

    fn stall(&self, phase: &PlanPhase) -> (r: BarrierTimeout)
        ensures
            r@ == stall_of(self@, *phase),
    {
        let ghost want = self@.details.map_values(
            |x: (ResourceIdView, nat)| (x.0, seq![decimal(x.1) + " finalizer(s)"@]),
        );
        let mut finalizers: Vec<(ResourceId, Vec<String>)> = Vec::new();
        assert(id_texts(finalizers@) =~= want.take(0));
        for i in 0..self.finalizer_details.len()
            invariant
                want == self@.details.map_values(
                    |x: (ResourceIdView, nat)| (x.0, seq![decimal(x.1) + " finalizer(s)"@]),
                ),
                id_texts(finalizers@) == want.take(i as int),
        {
            let item = &self.finalizer_details[i];
            let mut words: Vec<String> = Vec::new();
            words.push(to_decimal(item.1).concat(" finalizer(s)"));
            assert(texts(words@) =~= seq![decimal(item.1 as nat) + " finalizer(s)"@]);
            let ghost before = finalizers@;
            finalizers.push((item.0.clone(), words));
            assert(id_texts(finalizers@) =~= id_texts(before).push(want[i as int]));
            assert(want.take(i + 1) =~= want.take(i as int).push(want[i as int]));
        }
        assert(want.take(want.len() as int) =~= want);
        BarrierTimeout {
            phase: phase.name.clone(),
            remaining: copy_ids(&self.remaining),
            finalizers,
        }
    }

    /// It was found out whether what remains may be left to the audit.
    pub fn deferred(&mut self, plan: &TeardownPlan, allowed: bool)
        requires
            run_fits(old(self)@, *plan),
        ensures
            final(self)@ == run_defers(old(self)@, *plan, allowed),
            run_fits(final(self)@, *plan),
    {
        let count: usize = plan.phases.len();
        match self.stage {
            RunStage::Defer => {
                self.clear_writes();
                if allowed {
                    self.finish_phase();
                } else {
                    let timeout = self.stall(&plan.phases[self.phase]);
                    self.result.barrier_timeout = Some(timeout);
                    self.writes.timeout = true;
                    self.stage = RunStage::Done;
                }
            },
            RunStage::LoopDefer => {
                self.clear_writes();
                if allowed {
                    self.finish_phase();
                } else {
                    let timeout = self.stall(&plan.phases[self.phase]);
                    self.result.barrier_timeout = Some(timeout);
                    self.stage = RunStage::Done;
                }
            },
            RunStage::FinalDefer => {
                self.clear_writes();
                if allowed {
                    self.finish_phase();
                } else {
                    self.stage = RunStage::Done;
                }
            },
            _ => {},
        }
    }

    /// A recreated object was deleted again or, where `stop`, could not be.
    pub fn redeleted(&mut self, plan: &TeardownPlan, stop: bool)
        requires
            run_fits(old(self)@, *plan),
        ensures
            final(self)@ == run_redeletes(old(self)@, stop),
            run_fits(final(self)@, *plan),
    {
        match self.stage {
            RunStage::Redelete => {},
            _ => {
                return ;
            },
        }
        proof {
            lemma_redeleting_fits(
                RunView { writes: no_writes(), ..self@ },
                *plan,
                self@.next + 1,
            );
        }
        self.clear_writes();
        let total: usize = self.recreated.len();
        if stop {
            self.stage = RunStage::Done;
        } else {
            let from: usize = self.next + 1;
            self.redelete_from(from);
        }
    }

    /// The object that is to be deleted again, with the UID that it had when its
    /// DELETE was taken.
    pub fn redelete_target(&self) -> (r: Option<(&ResourceId, &String)>)
        ensures
            match r {
                Some(t) => {
                    &&& self.stage is Redelete
                    &&& self.next < self.recreated@.len()
                    &&& *t.0 == self.recreated@[self.next as int].0
                    &&& authority_for(self@.authorities, t.0@, 0) == Some(t.1@)
                },
                None => !(self.stage is Redelete) || self.next >= self.recreated@.len()
                    || authority_for(
                    self@.authorities,
                    self.recreated@[self.next as int].0@,
                    0,
                ) is None,
            },
    {
        match self.stage {
            RunStage::Redelete => {},
            _ => {
                return None;
            },
        }
        if self.next >= self.recreated.len() {
            return None;
        }
        let target = &self.recreated[self.next].0;
        match find_authority(&self.authorities, target) {
            Some(uid) => Some((target, uid)),
            None => None,
        }
    }
}

/// Whether a phase deletes a controller.
fn removes_controller(phase: &PlanPhase) -> (r: bool)
    ensures
        r == deletes_controller(*phase),
{
    let deletes = collect_objects(&phase.actions, ActionKind::Delete);
    let ghost all = objects_of(phase.actions@, ActionKind::Delete);
    for i in 0..deletes.len()
        invariant
            all == objects_of(phase.actions@, ActionKind::Delete),
            ids(deletes@) == all,
            forall|k: int| 0 <= k < i ==> (#[trigger] all[k]).kind != "ClusterServiceVersion"@,
    {
        assert(all[i as int] == deletes@[i as int]@);
        if same(deletes[i].kind.as_str(), "ClusterServiceVersion") {
            assert(all[i as int].kind == "ClusterServiceVersion"@);
            return true;
        }
    }
    assert(all.len() == deletes@.len());
    false
}

proof fn lemma_counting_fits(
    v: RunView,
    plan: TeardownPlan,
    deletes: Seq<ResourceIdView>,
    i: nat,
)
    requires
        v.result.phases_completed == v.phase,
        v.phase < plan.phases@.len(),
        deletes == objects_of(plan.phases@[v.phase as int].actions@, ActionKind::Delete),
    ensures
        run_fits(counting(v, deletes, i), plan),
    decreases deletes.len() - i,
{
    if i < deletes.len() && !needs_count(deletes[i as int]) {
        lemma_counting_fits(v, plan, deletes, i + 1);
    }
}

proof fn lemma_deletes_fit(v: RunView, plan: TeardownPlan)
    requires
        v.result.phases_completed == v.phase,
        v.phase < plan.phases@.len(),
    ensures
        run_fits(deletes_begun(v, plan.phases@[v.phase as int]), plan),
{
    lemma_counting_fits(
        v,
        plan,
        objects_of(plan.phases@[v.phase as int].actions@, ActionKind::Delete),
        0,
    );
}

proof fn lemma_enter_fits(v: RunView, plan: TeardownPlan, gate_open: bool)
    requires
        run_fits(v, plan),
        v.stage is Enter,
    ensures
        run_fits(run_enters(v, plan, gate_open), plan),
{
    if v.phase < plan.phases@.len() {
        lemma_deletes_fit(RunView { writes: no_writes(), ..v }, plan);
    }
}

proof fn lemma_reviews_fit(v: RunView, plan: TeardownPlan, checks: Seq<ReviewCheck>)
    requires
        run_fits(v, plan),
        v.stage is CheckReviews,
    ensures
        run_fits(run_checks_reviews(v, plan, checks), plan),
{
    lemma_deletes_fit(RunView { writes: no_writes(), ..v }, plan);
}

proof fn lemma_counts_fit(v: RunView, plan: TeardownPlan, count: LiveCount)
    requires
        run_fits(v, plan),
        v.stage is CountLive,
    ensures
        run_fits(run_counts(v, plan, count), plan),
{
    let w0 = RunView { writes: no_writes(), ..v };
    let deletes = objects_of(plan.phases@[v.phase as int].actions@, ActionKind::Delete);
    let w = match count_objection(count) {
        None => w0,
        Some(why) => RunView {
            blocked: w0.blocked.push(deletes[v.next as int]),
            result: ResultView {
                failed: w0.result.failed.push((deletes[v.next as int], why)),
                ..w0.result
            },
            ..w0
        },
    };
    lemma_counting_fits(w, plan, deletes, v.next + 1);
}

proof fn lemma_redeleting_fits(v: RunView, plan: TeardownPlan, i: nat)
    requires
        v.result.phases_completed == v.phase,
        v.phase < plan.phases@.len(),
        v.iterations <= MAX_REDELETE_ITERATIONS,
    ensures
        run_fits(redeleting(v, i), plan),
    decreases v.recreated.len() - i,
{
    if i < v.recreated.len() && authority_for(v.authorities, v.recreated[i as int].0, 0) is None {
        lemma_redeleting_fits(v, plan, i + 1);
    }
}

proof fn lemma_waits_fit(
    v: RunView,
    plan: TeardownPlan,
    result: WatchWaitResult,
    may_recover: bool,
)
    requires
        run_fits(v, plan),
    ensures
        run_fits(run_waits(v, result, may_recover), plan),
{
    let w = RunView { writes: no_writes(), ..v };
    match result {
        WatchWaitResult::Recreated { recreated, .. } => {
            let list = recreations(recreated@);
            if v.stage is Barrier {
                let x = RunView { recreated: list, iterations: 1, ..w };
                lemma_redeleting_fits(x, plan, 0);
            }
            if (v.stage is Rewait || v.stage is LoopWaitRecovered) && v.iterations
                < MAX_REDELETE_ITERATIONS {
                let x = RunView { recreated: list, iterations: v.iterations + 1, ..w };
                lemma_redeleting_fits(x, plan, 0);
            }
        },
        _ => {},
    }
}

/// What may happen to a run.
pub enum RunEvent {
    Entered { gate_open: bool },
    ReviewsChecked(Seq<ReviewCheck>),
    LiveCounted(LiveCount),
    WavesDone(WaveResultView),
    Waited(WatchWaitResult, bool),
    Recovered(Option<usize>),
    Deferred(bool),
    Redeleted { stop: bool },
}

/// The run that follows on an event.
pub open spec fn run_next(v: RunView, plan: TeardownPlan, e: RunEvent) -> RunView {
    match e {
        RunEvent::Entered { gate_open } => if v.stage is Enter {
            run_enters(v, plan, gate_open)
        } else {
            v
        },
        RunEvent::ReviewsChecked(checks) => run_checks_reviews(v, plan, checks),
        RunEvent::LiveCounted(count) => run_counts(v, plan, count),
        RunEvent::WavesDone(r) => run_waves(v, plan, r),
        RunEvent::Waited(result, may_recover) => run_waits(v, result, may_recover),
        RunEvent::Recovered(count) => run_recovers(v, count),
        RunEvent::Deferred(allowed) => run_defers(v, plan, allowed),
        RunEvent::Redeleted { stop } => run_redeletes(v, stop),
    }
}

proof fn lemma_counting_keeps(v: RunView, deletes: Seq<ResourceIdView>, i: nat)
    ensures
        ({
            let w = counting(v, deletes, i);
            &&& w.stage is CountLive || w.stage is Waves || w.stage is Done
            &&& w.dry_run == v.dry_run
            &&& w.wait_targets == v.wait_targets
            &&& w.authorities == v.authorities
            &&& w.phase == v.phase
            &&& w.result.phases_completed == v.result.phases_completed
            &&& w.result.timeout == v.result.timeout
            &&& w.result.failed.len() >= v.result.failed.len()
            &&& w.stage is Waves ==> w.eligible == without(deletes, v.blocked) && w.blocked
                == v.blocked
        }),
    decreases deletes.len() - i,
{
    if i < deletes.len() && !needs_count(deletes[i as int]) {
        lemma_counting_keeps(v, deletes, i + 1);
    }
}

proof fn lemma_redeleting_keeps(v: RunView, i: nat)
    ensures
        ({
            let w = redeleting(v, i);
            &&& w.stage is Redelete || w.stage is Rewait
            &&& w.dry_run == v.dry_run
            &&& w.phase == v.phase
            &&& w.result == v.result
            &&& w.authorities == v.authorities
            &&& w.wait_targets == v.wait_targets
            &&& w.recreated == v.recreated
            &&& w.stage is Redelete ==> w.next < w.recreated.len() && authority_for(
                w.authorities,
                w.recreated[w.next as int].0,
                0,
            ) is Some
        }),
    decreases v.recreated.len() - i,
{
    if i < v.recreated.len() && authority_for(v.authorities, v.recreated[i as int].0, 0) is None {
        lemma_redeleting_keeps(v, i + 1);
    }
}

/// What holds of every step: dry runs stay dry and outside phases, a failure is followed
/// by no further phase, and a timeout comes inside a phase and ends the run there.
proof fn lemma_every_step(v: RunView, plan: TeardownPlan, e: RunEvent)
    ensures
        ({
            let n = run_next(v, plan, e);
            &&& n.dry_run == v.dry_run
            &&& v.dry_run && !inside_phase(v.stage) ==> n.stage is Enter || n.stage == v.stage
                || n.stage is Done
            &&& n.stage is Enter && !v.dry_run ==> n.result.failed.len() == 0 || v.stage is Enter
                && n.result.failed == v.result.failed
            &&& n.result.timeout != v.result.timeout ==> n.stage is Done && inside_phase(v.stage)
                && n.result.phases_completed == v.result.phases_completed
            &&& n.result.failed.len() >= v.result.failed.len()
            &&& n.result.failed != v.result.failed ==> v.stage is Enter && v.phase
                < plan.phases@.len() || inside_phase(v.stage)
            &&& v.dry_run && !inside_phase(v.stage) ==> n.result.failed == v.result.failed
            &&& !v.dry_run && n.result.failed.len() > 0 && (v.result.failed.len() == 0 || !(v.stage
                is Enter)) ==> n.result.phases_completed == v.result.phases_completed
        }),
{
    let w = RunView { writes: no_writes(), ..v };
    let deletes = objects_of(plan.phases@[v.phase as int].actions@, ActionKind::Delete);
    lemma_counting_keeps(w, deletes, 0);
    match e {
        RunEvent::LiveCounted(count) => {
            let x = match count_objection(count) {
                None => w,
                Some(why) => RunView {
                    blocked: w.blocked.push(deletes[v.next as int]),
                    result: ResultView {
                        failed: w.result.failed.push((deletes[v.next as int], why)),
                        ..w.result
                    },
                    ..w
                },
            };
            lemma_counting_keeps(x, deletes, v.next + 1);
        },
        RunEvent::Waited(result, _) => {
            match result {
                WatchWaitResult::Recreated { recreated, .. } => {
                    let list = recreations(recreated@);
                    lemma_redeleting_keeps(
                        RunView { recreated: list, iterations: 1, ..w },
                        0,
                    );
                    lemma_redeleting_keeps(
                        RunView { recreated: list, iterations: v.iterations + 1, ..w },
                        0,
                    );
                },
                _ => {},
            }
        },
        RunEvent::Redeleted { .. } => {
            lemma_redeleting_keeps(w, v.next + 1);
        },
        _ => {},
    }
}

/// A run that is ready for the next phase has no failed action behind it.
pub open spec fn clean_between_phases(v: RunView) -> bool {
    v.stage is Enter && !v.dry_run ==> v.result.failed.len() == 0
}

/// No phase is entered after an action has failed.
pub proof fn law_no_phase_after_a_failure(v: RunView, plan: TeardownPlan, e: RunEvent)
    requires
        clean_between_phases(v),
    ensures
        clean_between_phases(run_next(v, plan, e)),
{
    lemma_every_step(v, plan, e);
}

/// A run with a timeout is over, and has not completed every phase of the plan.
pub open spec fn timeout_ends(v: RunView, plan: TeardownPlan) -> bool {
    v.result.timeout is Some ==> v.stage is Done && v.result.phases_completed
        < plan.phases@.len()
}

/// A timeout ends the run: no further phase is entered, and fewer phases are completed than
/// the plan has. Nothing that happens afterwards changes the run.
pub proof fn law_no_phase_after_a_timeout(v: RunView, plan: TeardownPlan, e: RunEvent)
    requires
        run_fits(v, plan),
        timeout_ends(v, plan),
    ensures
        timeout_ends(run_next(v, plan, e), plan),
        v.result.timeout is Some ==> run_next(v, plan, e) == v,
{
    lemma_every_step(v, plan, e);
}

/// A dry run is between phases or over.
pub open spec fn touches_nothing(v: RunView) -> bool {
    v.dry_run ==> v.stage is Enter || v.stage is Done
}

/// A run with a failed action is no dry run, does not go on to a further phase, and has not
/// completed every phase of the plan.
pub open spec fn failure_ends(v: RunView, plan: TeardownPlan) -> bool {
    v.result.failed.len() > 0 ==> !v.dry_run && !(v.stage is Enter) && v.result.phases_completed
        < plan.phases@.len()
}

/// A run in which an action has failed completes fewer phases than the plan has: the phase
/// in which it failed is not completed, and none after it.
pub proof fn law_failed_phase_is_not_completed(v: RunView, plan: TeardownPlan, e: RunEvent)
    requires
        run_fits(v, plan),
        touches_nothing(v),
        failure_ends(v, plan),
    ensures
        touches_nothing(run_next(v, plan, e)),
        failure_ends(run_next(v, plan, e), plan),
        v.result.failed.len() > 0 ==> run_next(v, plan, e).result.phases_completed
            == v.result.phases_completed,
{
    lemma_every_step(v, plan, e);
}

/// A dry run never asks for a DELETE, a wait, a recovery or anything else of the
/// cluster.
pub proof fn law_dry_run_touches_nothing(v: RunView, plan: TeardownPlan, e: RunEvent)
    requires
        touches_nothing(v),
    ensures
        touches_nothing(run_next(v, plan, e)),
        run_next(v, plan, e).dry_run == v.dry_run,
{
    lemma_every_step(v, plan, e);
}

/// The controller is not deleted while an object that is up for review is on its
/// way out with finalizers, or while nobody knows. A closer look is taken before
/// any phase that deletes a controller, and an intact object does not stand
/// against it.
pub proof fn law_review_guard(
    v: RunView,
    plan: TeardownPlan,
    gate_open: bool,
    checks: Seq<ReviewCheck>,
)
    requires
        v.stage is Enter,
        !v.dry_run,
        v.phase < plan.phases@.len(),
        deletes_controller(plan.phases@[v.phase as int]),
        reviews(plan).len() > 0,
    ensures
        !(run_enters(v, plan, gate_open).stage is Waves),
        !(run_enters(v, plan, gate_open).stage is CountLive),
        ({
            let at = run_enters(v, plan, gate_open);
            let objected = exists|i: int|
                0 <= i < checks.len() && review_objection(#[trigger] checks[i]) is Some;
            let after = run_checks_reviews(at, plan, checks);
            at.stage is CheckReviews ==> (objected ==> after.stage is Done
                && after.result.timeout is Some && after.result.deleted == at.result.deleted) && (
            !objected ==> after == deletes_begun(
                RunView { writes: no_writes(), ..at },
                plan.phases@[v.phase as int],
            ))
        }),
{
    let f = |c: ReviewCheck| review_objection(c);
    crate::lists::lemma_pick_members(checks, f);
    let objections = review_objections(checks);
    if exists|i: int| 0 <= i < checks.len() && review_objection(#[trigger] checks[i]) is Some {
        let i = choose|i: int|
            0 <= i < checks.len() && review_objection(#[trigger] checks[i]) is Some;
        assert(f(checks[i]) is Some);
        assert(objections.contains(f(checks[i])->0));
    } else {
        if objections.len() > 0 {
            assert(objections.contains(objections[0]));
            let i = choose|i: int|
                0 <= i < checks.len() && f(#[trigger] checks[i]) == Some(objections[0]);
            assert(review_objection(checks[i]) is Some);
        }
    }
}

/// A type is not deleted while objects of it are there, or while nobody knows:
/// such an object is never among those that the waves delete.
pub proof fn law_counted_types_only(v: RunView, plan: TeardownPlan, count: LiveCount)
    requires
        v.stage is CountLive,
        count_objection(count) is Some,
    ensures
        ({
            let deletes = objects_of(plan.phases@[v.phase as int].actions@, ActionKind::Delete);
            let after = run_counts(v, plan, count);
            &&& after.stage is Waves ==> !after.eligible.contains(deletes[v.next as int])
            &&& after.result.failed.len() > 0
        }),
{
    let w = RunView { writes: no_writes(), ..v };
    let deletes = objects_of(plan.phases@[v.phase as int].actions@, ActionKind::Delete);
    let target = deletes[v.next as int];
    let x = RunView {
        blocked: w.blocked.push(target),
        result: ResultView {
            failed: w.result.failed.push((target, count_objection(count)->0)),
            ..w.result
        },
        ..w
    };
    lemma_counting_keeps(x, deletes, v.next + 1);
    assert(x.blocked[x.blocked.len() - 1] == target);
    crate::executor::waves::lemma_without(deletes, x.blocked, target);
}

/// Only an object whose DELETE was taken in this phase is deleted again.
pub proof fn law_redelete_needs_authority(v: RunView, i: nat)
    ensures
        redeleting(v, i).stage is Redelete ==> authority_for(
            v.authorities,
            v.recreated[redeleting(v, i).next as int].0,
            0,
        ) is Some,
{
    lemma_redeleting_keeps(v, i);
}

/// Everything in `s` stands in `all`.
pub open spec fn is_among(s: Seq<ResourceIdView>, all: Seq<ResourceIdView>) -> bool {
    forall|t: ResourceIdView| #[trigger] s.contains(t) ==> all.contains(t)
}

/// The objects that a phase deletes, and those that it waits for.
pub open spec fn concerned(phase: PlanPhase) -> Seq<ResourceIdView> {
    objects_of(phase.actions@, ActionKind::Delete) + awaited(phase.actions@)
}

/// Each object that may be deleted again is one of `all`, with the UID that it has there.
pub open spec fn authority_among(
    authorities: Seq<(ResourceIdView, Seq<char>)>,
    all: Seq<ResourceIdView>,
) -> bool {
    forall|i: int|
        0 <= i < authorities.len() ==> all.contains((#[trigger] authorities[i]).0)
            && authorities[i].0.uid == Some(authorities[i].1)
}

/// The run has found something that does not go.
pub open spec fn has_stalled(stage: RunStage) -> bool {
    stage is Recover || stage is WaitRecovered || stage is Defer || stage is LoopRecover || stage
        is LoopWaitRecovered || stage is LoopDefer || stage is FinalDefer
}

/// What a run deletes, waits for, deletes again or finds stalled is of the phase that it is
/// in.
pub open spec fn keeps_to_phase(v: RunView, plan: TeardownPlan) -> bool {
    let phase = plan.phases@[v.phase as int];
    let deletes = objects_of(phase.actions@, ActionKind::Delete);
    &&& v.stage is Enter ==> v.wait_targets.len() == 0 && v.authorities.len() == 0
    &&& inside_phase(v.stage) ==> {
        &&& v.stage is Waves ==> is_among(v.eligible, deletes)
        &&& v.stage is Redelete ==> authority_for(
            v.authorities,
            v.recreated[v.next as int].0,
            0,
        ) is Some
        &&& authority_among(v.authorities, deletes)
        &&& is_among(v.wait_targets, concerned(phase))
        &&& has_stalled(v.stage) ==> is_among(v.remaining, concerned(phase))
    }
}

/// The waves speak of nothing but what they were handed, and a wait of nothing but what was
/// waited for.
pub open spec fn speaks_of_the_run(v: RunView, e: RunEvent) -> bool {
    match e {
        RunEvent::WavesDone(r) => is_among(r.accepted_gone, v.eligible) && authority_among(
            r.authorities,
            r.accepted_gone,
        ),
        RunEvent::Waited(WatchWaitResult::Stalled { remaining, .. }, _) => v.stage is Barrier
            || v.stage is Rewait || v.stage is FinalWait ==> is_among(
            ids(remaining@),
            v.wait_targets,
        ),
        _ => true,
    }
}

proof fn lemma_among_add(a: Seq<ResourceIdView>, b: Seq<ResourceIdView>, all: Seq<ResourceIdView>)
    requires
        is_among(a, all),
        is_among(b, all),
    ensures
        is_among(a + b, all),
{
    assert forall|t: ResourceIdView| #[trigger] (a + b).contains(t) implies all.contains(t) by {
        lemma_contains_add(a, b, t);
    }
}

proof fn lemma_concerned(phase: PlanPhase)
    ensures
        is_among(objects_of(phase.actions@, ActionKind::Delete), concerned(phase)),
        is_among(awaited(phase.actions@), concerned(phase)),
{
    let deletes = objects_of(phase.actions@, ActionKind::Delete);
    assert forall|t: ResourceIdView|
        deletes.contains(t) || awaited(phase.actions@).contains(t) implies #[trigger] concerned(
        phase,
    ).contains(t) by {
        lemma_contains_add(deletes, awaited(phase.actions@), t);
    }
    assert forall|t: ResourceIdView| #[trigger] deletes.contains(t) implies concerned(
        phase,
    ).contains(t) by {}
}

proof fn lemma_not_recreated_among(
    targets: Seq<ResourceIdView>,
    recreated: Seq<(ResourceIdView, Seq<char>, Seq<char>)>,
)
    ensures
        is_among(not_recreated(targets, recreated), targets),
{
    let f = |t: ResourceIdView|
        if any_same_slot(
            recreated.map_values(|x: (ResourceIdView, Seq<char>, Seq<char>)| x.0),
            t,
        ) {
            None
        } else {
            Some(t)
        };
    crate::lists::lemma_pick_members(targets, f);
    assert forall|t: ResourceIdView| #[trigger]
        not_recreated(targets, recreated).contains(t) implies targets.contains(t) by {
        assert(pick(targets, f).contains(t));
        let i = choose|i: int| 0 <= i < targets.len() && f(#[trigger] targets[i]) == Some(t);
        assert(targets[i] == t);
    }
}

proof fn lemma_settled_keeps(v: RunView, plan: TeardownPlan)
    requires
        v.phase < plan.phases@.len(),
        is_among(v.wait_targets, concerned(plan.phases@[v.phase as int])),
        authority_among(
            v.authorities,
            objects_of(plan.phases@[v.phase as int].actions@, ActionKind::Delete),
        ),
    ensures
        keeps_to_phase(actions_settled(v, plan.phases@[v.phase as int]), plan),
{
    let phase = plan.phases@[v.phase as int];
    lemma_concerned(phase);
    lemma_among_add(v.wait_targets, awaited(phase.actions@), concerned(phase));
}

proof fn lemma_counting_keeps_to_phase(v: RunView, plan: TeardownPlan, i: nat)
    requires
        v.phase < plan.phases@.len(),
        is_among(v.wait_targets, concerned(plan.phases@[v.phase as int])),
        authority_among(
            v.authorities,
            objects_of(plan.phases@[v.phase as int].actions@, ActionKind::Delete),
        ),
    ensures
        keeps_to_phase(
            counting(
                v,
                objects_of(plan.phases@[v.phase as int].actions@, ActionKind::Delete),
                i,
            ),
            plan,
        ),
{
    let deletes = objects_of(plan.phases@[v.phase as int].actions@, ActionKind::Delete);
    lemma_counting_keeps(v, deletes, i);
    assert forall|t: ResourceIdView| #[trigger] without(deletes, v.blocked).contains(
        t,
    ) implies deletes.contains(t) by {
        crate::executor::waves::lemma_without(deletes, v.blocked, t);
    }
}

proof fn lemma_begun_keeps(v: RunView, plan: TeardownPlan)
    requires
        v.phase < plan.phases@.len(),
        is_among(v.wait_targets, concerned(plan.phases@[v.phase as int])),
        authority_among(
            v.authorities,
            objects_of(plan.phases@[v.phase as int].actions@, ActionKind::Delete),
        ),
    ensures
        keeps_to_phase(deletes_begun(v, plan.phases@[v.phase as int]), plan),
{
    let phase = plan.phases@[v.phase as int];
    let deletes = objects_of(phase.actions@, ActionKind::Delete);
    lemma_concerned(phase);
    lemma_settled_keeps(v, plan);
    lemma_settled_keeps(RunView { wait_targets: deletes, ..v }, plan);
    lemma_counting_keeps_to_phase(v, plan, 0);
}

proof fn lemma_loop_keeps(
    v: RunView,
    plan: TeardownPlan,
    recreated: Seq<(ResourceIdView, Seq<char>, Seq<char>)>,
)
    requires
        v.phase < plan.phases@.len(),
        is_among(v.wait_targets, concerned(plan.phases@[v.phase as int])),
        authority_among(
            v.authorities,
            objects_of(plan.phases@[v.phase as int].actions@, ActionKind::Delete),
        ),
    ensures
        keeps_to_phase(loop_begun(v, recreated), plan),
{
    let w = RunView { recreated, iterations: v.iterations + 1, ..v };
    lemma_not_recreated_among(v.wait_targets, recreated);
    lemma_redeleting_keeps(w, 0);
}

/// A run keeps to the phase that it is in, as long as what it is told speaks of nothing
/// else.
pub proof fn law_run_keeps_to_its_phase(v: RunView, plan: TeardownPlan, e: RunEvent)
    requires
        run_fits(v, plan),
        keeps_to_phase(v, plan),
        speaks_of_the_run(v, e),
    ensures
        keeps_to_phase(run_next(v, plan, e), plan),
{
    let w = RunView { writes: no_writes(), ..v };
    match e {
        RunEvent::Entered { .. } => {
            if v.stage is Enter && v.phase < plan.phases@.len() {
                lemma_begun_keeps(w, plan);
            }
        },
        RunEvent::ReviewsChecked(_) => {
            if v.stage is CheckReviews {
                lemma_begun_keeps(w, plan);
            }
        },
        RunEvent::LiveCounted(count) => {
            if v.stage is CountLive {
                let deletes = objects_of(
                    plan.phases@[v.phase as int].actions@,
                    ActionKind::Delete,
                );
                let x = match count_objection(count) {
                    None => w,
                    Some(why) => RunView {
                        blocked: w.blocked.push(deletes[v.next as int]),
                        result: ResultView {
                            failed: w.result.failed.push((deletes[v.next as int], why)),
                            ..w.result
                        },
                        ..w
                    },
                };
                lemma_counting_keeps_to_phase(x, plan, v.next + 1);
            }
        },
        RunEvent::WavesDone(r) => {
            if v.stage is Waves {
                let phase = plan.phases@[v.phase as int];
                lemma_concerned(phase);
                assert(is_among(r.accepted_gone, concerned(phase)));
                lemma_among_add(v.wait_targets, r.accepted_gone, concerned(phase));
                let x = RunView {
                    wait_targets: v.wait_targets + r.accepted_gone,
                    authorities: r.authorities,
                    result: ResultView {
                        deleted: v.result.deleted + r.accepted_gone,
                        already_gone: v.result.already_gone + r.already_gone,
                        failed: v.result.failed + r.failed,
                        ..v.result
                    },
                    ..w
                };
                lemma_settled_keeps(x, plan);
            }
        },
        RunEvent::Waited(result, _) => {
            if inside_phase(v.stage) {
                if let WatchWaitResult::Recreated { recreated, .. } = result {
                    lemma_loop_keeps(w, plan, recreations(recreated@));
                    lemma_loop_keeps(
                        RunView { iterations: 0, ..w },
                        plan,
                        recreations(recreated@),
                    );
                }
            }
        },
        RunEvent::Redeleted { .. } => {
            lemma_redeleting_keeps(w, v.next + 1);
        },
        _ => {},
    }
}

proof fn lemma_authority_found(
    authorities: Seq<(ResourceIdView, Seq<char>)>,
    id: ResourceIdView,
    i: nat,
)
    requires
        authority_for(authorities, id, i) is Some,
    ensures
        exists|k: int|
            0 <= k < authorities.len() && same_object((#[trigger] authorities[k]).0, id)
                && authority_for(authorities, id, i) == Some(authorities[k].1),
    decreases authorities.len() - i,
{
    if !same_object(authorities[i as int].0, id) {
        lemma_authority_found(authorities, id, i + 1);
    }
}

proof fn lemma_object_of(actions: Seq<Action>, kind: ActionKind, t: ResourceIdView)
    requires
        objects_of(actions, kind).contains(t),
    ensures
        exists|k: int|
            0 <= k < actions.len() && is_kind(#[trigger] actions[k], kind) && subject(
                actions[k],
            )@ == t,
{
    let f = |a: Action|
        if is_kind(a, kind) {
            Some(subject(a)@)
        } else {
            None
        };
    crate::lists::lemma_pick_members(actions, f);
    assert(pick(actions, f).contains(t));
    let k = choose|k: int| 0 <= k < actions.len() && f(#[trigger] actions[k]) == Some(t);
    assert(is_kind(actions[k], kind));
}

/// `t` is the object of an action of the phase that deletes it.
pub open spec fn stands_for_deletion(phase: PlanPhase, t: ResourceIdView) -> bool {
    exists|k: int|
        0 <= k < phase.actions@.len() && (#[trigger] phase.actions@[k]) is Delete && subject(
            phase.actions@[k],
        )@ == t
}

/// `t` is the object of an action of the phase that expects it to go.
pub open spec fn stands_for_departure(phase: PlanPhase, t: ResourceIdView) -> bool {
    exists|k: int|
        0 <= k < phase.actions@.len() && (#[trigger] phase.actions@[k]) is ExpectGone && subject(
            phase.actions@[k],
        )@ == t
}

/// Nothing is touched that the phase does not name. The waves are handed objects of its
/// DELETEs. What is deleted again took the place of such an object, and is deleted by the
/// authority of the UID that the plan gives it. Recovery takes on objects of its DELETEs and
/// objects that it expects to go.
pub proof fn law_only_the_phase_is_touched(v: RunView, plan: TeardownPlan)
    requires
        run_fits(v, plan),
        keeps_to_phase(v, plan),
        inside_phase(v.stage),
    ensures
        ({
            let phase = plan.phases@[v.phase as int];
            let again = v.recreated[v.next as int].0;
            &&& v.stage is Waves ==> forall|t: ResourceIdView| #[trigger]
                v.eligible.contains(t) ==> stands_for_deletion(phase, t)
            &&& v.stage is Redelete ==> exists|t: ResourceIdView| #[trigger]
                stands_for_deletion(phase, t) && same_object(t, again) && t.uid is Some && t.uid
                    == authority_for(v.authorities, again, 0)
            &&& forall|i: int|
                0 <= i < recoverable(phase, v.remaining).len() ==> stands_for_deletion(
                    phase,
                    (#[trigger] recoverable(phase, v.remaining)[i]).0,
                ) || stands_for_departure(phase, recoverable(phase, v.remaining)[i].0)
        }),
{
    let phase = plan.phases@[v.phase as int];
    let deletes = objects_of(phase.actions@, ActionKind::Delete);
    assert forall|t: ResourceIdView| #[trigger] deletes.contains(t) implies stands_for_deletion(
        phase,
        t,
    ) by {
        lemma_object_of(phase.actions@, ActionKind::Delete, t);
    }
    if v.stage is Redelete {
        let again = v.recreated[v.next as int].0;
        lemma_authority_found(v.authorities, again, 0);
        let k = choose|k: int|
            0 <= k < v.authorities.len() && same_object((#[trigger] v.authorities[k]).0, again)
                && authority_for(v.authorities, again, 0) == Some(v.authorities[k].1);
        assert(stands_for_deletion(phase, v.authorities[k].0));
    }
    let f = |r: ResourceIdView|
        match recovery_begins(phase, r) {
            RecoveryStepView::Read(role) => Some((r, role)),
            _ => None,
        };
    crate::lists::lemma_pick_members(v.remaining, f);
    assert forall|i: int|
        0 <= i < recoverable(phase, v.remaining).len() implies stands_for_deletion(
        phase,
        (#[trigger] recoverable(phase, v.remaining)[i]).0,
    ) || stands_for_departure(phase, recoverable(phase, v.remaining)[i].0) by {
        let x = recoverable(phase, v.remaining)[i];
        assert(pick(v.remaining, f).contains(x));
        let k = choose|k: int| 0 <= k < v.remaining.len() && f(#[trigger] v.remaining[k]) == Some(x);
        assert(role_in(phase, x.0).expected || role_in(phase, x.0).deleted);
        if role_in(phase, x.0).expected {
            lemma_object_of(phase.actions@, ActionKind::ExpectGone, x.0);
        }
    }
}

} // verus!
