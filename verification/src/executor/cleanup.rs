//! Cleaning up residual objects, one at a time.
//!
//! A cleanup deletes only what a complete audit has found, and only while nothing of
//! the operator is left. Each object is looked at again under a permit, the decision
//! is written down before the DELETE is sent, and the object counts as deleted only
//! once it is known to be gone. What is not understood stops the cleanup.

use vstd::prelude::*;
use vstd::string::*;

use crate::audit::generation::OperatorGenerationState;
use crate::audit::ResidualAudit;
use crate::cluster::{
    error_text, has_code, live_spec_name, live_uid, or_empty, GetReply, LiveObject,
};
use crate::executor::deletion::{is_subscription, subscription, DeleteOutcome, DeleteResultView};
use crate::executor::recovery::{is_protected, protected_kind};
use crate::executor::residual::{in_audit, is_in_residual_audit};
use crate::journal::{
    state_name, CleanupDecision, CleanupResult, CleanupResultView, ResidualStatus, RunJournal,
    RunState, RUN_JOURNAL_SCHEMA_VERSION,
};
use crate::lists::{ids, lemma_pick_take, noted, noted_ids, pick, push_id, Noted};
use crate::planner::{Action, PlanPhase};
use crate::resource::{label, ResourceId, ResourceIdView};
use crate::text::{
    copy_opt, decimal, opt_text, quoted, quoted_text, same, to_decimal, u32_to_decimal,
};

verus! {

/// The mutation gate was closed while a cleanup ran. This calls the cleanup off; nothing has
/// failed.
#[derive(Debug, Clone, Copy, PartialEq, Eq, Structural)]
pub struct GateClosedError;

impl GateClosedError {
    /// The error in words.
    pub fn message(&self) -> (r: &'static str)
        ensures
            r@ == "Mutation gate closed during cleanup"@,
    {
        "Mutation gate closed during cleanup"
    }
}

/// Why a cleanup ended early.
#[derive(Debug)]
pub enum CleanupError {
    GateClosed(GateClosedError),
    Stopped(String),
}

/// The contents of a [`CleanupError`].
#[verifier::ext_equal]
pub enum CleanupErrorView {
    GateClosed,
    Stopped(Seq<char>),
}

impl View for CleanupError {
    type V = CleanupErrorView;

    open spec fn view(&self) -> CleanupErrorView {
        match self {
            CleanupError::GateClosed(_) => CleanupErrorView::GateClosed,
            CleanupError::Stopped(s) => CleanupErrorView::Stopped(s@),
        }
    }
}

impl CleanupError {
    /// The error in words.
    pub fn message(&self) -> (r: String)
        ensures
            r@ == match self@ {
                CleanupErrorView::GateClosed => "Mutation gate closed during cleanup"@,
                CleanupErrorView::Stopped(s) => s,
            },
    {
        match self {
            CleanupError::GateClosed(e) => e.message().to_owned(),
            CleanupError::Stopped(s) => s.clone(),
        }
    }
}

/// Whether the mutation gate was closed.
pub fn is_gate_closed_error(err: &CleanupError) -> (r: bool)
    ensures
        r == (err@ is GateClosed),
{
    match err {
        CleanupError::GateClosed(_) => true,
        CleanupError::Stopped(_) => false,
    }
}

/// What a cleanup has done.
#[derive(Debug)]
pub struct ResidualCleanupResult {
    pub deleted: Vec<ResourceId>,
    pub skipped: Vec<(ResourceId, String)>,
    pub failed: Vec<(ResourceId, String)>,
    pub post_audit: Option<ResidualAudit>,
}

/// What a cleanup is doing.
#[derive(Debug, Clone)]
pub enum CleanupProgress {
    Validating { resource: ResourceId },
    DeleteRequested { resource: ResourceId },
    WaitingGone { resource: ResourceId },
    Gone { resource: ResourceId },
    Skipped { resource: ResourceId, reason: String },
    Failed { resource: ResourceId, reason: String },
}

/// The contents of a [`CleanupProgress`].
#[verifier::ext_equal]
pub enum ProgressView {
    Validating(ResourceIdView),
    DeleteRequested(ResourceIdView),
    WaitingGone(ResourceIdView),
    Gone(ResourceIdView),
    Skipped(ResourceIdView, Seq<char>),
    Failed(ResourceIdView, Seq<char>),
}

impl View for CleanupProgress {
    type V = ProgressView;

    open spec fn view(&self) -> ProgressView {
        match self {
            CleanupProgress::Validating { resource } => ProgressView::Validating(resource@),
            CleanupProgress::DeleteRequested { resource } => ProgressView::DeleteRequested(
                resource@,
            ),
            CleanupProgress::WaitingGone { resource } => ProgressView::WaitingGone(resource@),
            CleanupProgress::Gone { resource } => ProgressView::Gone(resource@),
            CleanupProgress::Skipped { resource, reason } => ProgressView::Skipped(
                resource@,
                reason@,
            ),
            CleanupProgress::Failed { resource, reason } => ProgressView::Failed(
                resource@,
                reason@,
            ),
        }
    }
}

/// The number of looks at an object before the wait for it to be gone is given up.
pub const GONE_POLLS: u32 = 15;

/// What a cleanup waits for.
#[derive(Debug)]
pub enum CleanupStage {
    /// A permit for the next object.
    Permit,
    /// Whether anything of the operator is left.
    Generation,
    /// The GET of the object.
    Look,
    /// Whether objects of the kind can be listed, where the object was not found.
    LookEndpoint,
    /// The GET that reads the package of a subscription.
    LookPackage,
    /// Whether subscriptions can be listed, where this one was not found.
    PackageEndpoint,
    /// The decision to be written down.
    Record { spec_name: Option<String> },
    /// What came of the DELETE.
    Delete { spec_name: Option<String> },
    /// The result to be written down; nothing more is deleted where `stop` is set.
    Checkpoint { result: CleanupResult, stop: bool },
    /// The next look at the object, after so many; `blocked` where finalizers have
    /// been seen to hold it.
    Wait { polls: u32, blocked: bool },
    /// Whether objects of the kind can be listed, where the object is gone.
    WaitEndpoint,
    /// How many objects finalizer recovery has freed.
    Recover,
    /// The next look at the object after recovery.
    WaitAgain { polls: u32 },
    /// Whether objects of the kind can be listed, where the object is gone after
    /// recovery.
    WaitAgainEndpoint,
    /// Nothing: every object has had its turn, or nothing more may be deleted.
    Finished,
    /// Nothing: the cleanup has been stopped.
    Stopped(CleanupError),
}

/// The contents of a [`CleanupStage`].
#[verifier::ext_equal]
pub enum StageView {
    Permit,
    Generation,
    Look,
    LookEndpoint,
    LookPackage,
    PackageEndpoint,
    Record(Option<Seq<char>>),
    Delete(Option<Seq<char>>),
    Checkpoint { result: CleanupResultView, stop: bool },
    Wait { polls: u32, blocked: bool },
    WaitEndpoint,
    Recover,
    WaitAgain(u32),
    WaitAgainEndpoint,
    Finished,
    Stopped(CleanupErrorView),
}

impl View for CleanupStage {
    type V = StageView;

    open spec fn view(&self) -> StageView {
        match self {
            CleanupStage::Permit => StageView::Permit,
            CleanupStage::Generation => StageView::Generation,
            CleanupStage::Look => StageView::Look,
            CleanupStage::LookEndpoint => StageView::LookEndpoint,
            CleanupStage::LookPackage => StageView::LookPackage,
            CleanupStage::PackageEndpoint => StageView::PackageEndpoint,
            CleanupStage::Record { spec_name } => StageView::Record(opt_text(*spec_name)),
            CleanupStage::Delete { spec_name } => StageView::Delete(opt_text(*spec_name)),
            CleanupStage::Checkpoint { result, stop } => StageView::Checkpoint {
                result: result@,
                stop: *stop,
            },
            CleanupStage::Wait { polls, blocked } => StageView::Wait {
                polls: *polls,
                blocked: *blocked,
            },
            CleanupStage::WaitEndpoint => StageView::WaitEndpoint,
            CleanupStage::Recover => StageView::Recover,
            CleanupStage::WaitAgain { polls } => StageView::WaitAgain(*polls),
            CleanupStage::WaitAgainEndpoint => StageView::WaitAgainEndpoint,
            CleanupStage::Finished => StageView::Finished,
            CleanupStage::Stopped(e) => StageView::Stopped(e@),
        }
    }
}

/// What a cleanup is told.
#[derive(Debug)]
pub enum CleanupEvent {
    /// Whether a permit was given.
    Permit(bool),
    /// Whether nothing of the operator is left.
    Absent(bool),
    /// The kind of the object is not known to discovery.
    Unresolved,
    /// The reply to a GET.
    Reply(GetReply),
    /// Whether one object of the kind could be listed.
    Endpoint(bool),
    /// What was to be written down stands in the journal.
    Recorded,
    /// What came of the DELETE.
    Outcome(DeleteOutcome),
    /// How many objects finalizer recovery has freed; `None` where it failed.
    Recovered(Option<usize>),
}

/// A cleanup of a list of objects.
#[derive(Debug)]
pub struct CleanupRun {
    pub targets: Vec<ResourceId>,
    /// The position of the object that has its turn.
    pub at: usize,
    pub stage: CleanupStage,
    pub deleted: Vec<ResourceId>,
    pub skipped: Vec<Noted>,
    pub failed: Vec<Noted>,
}

/// The contents of a [`CleanupRun`].
#[verifier::ext_equal]
pub struct CleanupView {
    pub targets: Seq<ResourceIdView>,
    pub at: int,
    pub stage: StageView,
    pub deleted: Seq<ResourceIdView>,
    pub skipped: Seq<(ResourceIdView, Seq<char>)>,
    pub failed: Seq<(ResourceIdView, Seq<char>)>,
}

impl View for CleanupRun {
    type V = CleanupView;

    open spec fn view(&self) -> CleanupView {
        CleanupView {
            targets: ids(self.targets@),
            at: self.at as int,
            stage: self.stage@,
            deleted: ids(self.deleted@),
            skipped: noted(self.skipped@),
            failed: noted(self.failed@),
        }
    }
}

/// The cleanup is over.
pub open spec fn is_over(s: StageView) -> bool {
    s is Finished || s is Stopped
}

/// While a cleanup is not over, one of its objects has its turn.
pub open spec fn cleanup_fits(v: CleanupView) -> bool {
    &&& 0 <= v.at
    &&& !is_over(v.stage) ==> v.at < v.targets.len()
    &&& v.stage matches StageView::Wait { polls, .. } ==> polls < GONE_POLLS
    &&& v.stage matches StageView::WaitAgain(polls) ==> polls < GONE_POLLS
}

/// The cleanup stopped with these words.
pub open spec fn stopped(v: CleanupView, words: Seq<char>) -> CleanupView {
    CleanupView { stage: StageView::Stopped(CleanupErrorView::Stopped(words)), ..v }
}

/// The cleanup at this stage.
pub open spec fn at_stage(v: CleanupView, stage: StageView) -> CleanupView {
    CleanupView { stage, ..v }
}

/// The cleanup with the next object having its turn.
pub open spec fn next_object(v: CleanupView) -> CleanupView {
    CleanupView {
        at: v.at + 1,
        stage: if v.at + 1 < v.targets.len() {
            StageView::Permit
        } else {
            StageView::Finished
        },
        ..v
    }
}

/// The cleanup with the object passed over for this reason.
pub open spec fn passed_over(v: CleanupView, reason: Seq<char>) -> CleanupView {
    CleanupView { skipped: v.skipped.push((v.targets[v.at], reason)), ..v }
}

/// The UID that an object is to be deleted under, or the empty text.
pub open spec fn bound_uid(id: ResourceIdView) -> Seq<char> {
    match id.uid {
        Some(u) => u,
        None => seq![],
    }
}

/// After the look at the object: it must be there under its UID.
pub open spec fn looked(v: CleanupView, id: ResourceIdView, reply: GetReply) -> CleanupView {
    match reply {
        GetReply::Found(o) => if bound_uid(id).len() == 0 || live_uid(o).len() == 0 {
            stopped(v, "Missing UID for residual "@ + label(id) + " — fail-closed"@)
        } else if live_uid(o) != bound_uid(id) {
            next_object(
                passed_over(v, "UID changed from "@ + bound_uid(id) + " to "@ + live_uid(o)),
            )
        } else if is_subscription(id) {
            at_stage(v, StageView::LookPackage)
        } else {
            at_stage(v, StageView::Record(None))
        },
        GetReply::Failed(e) => if has_code(e, 404) {
            at_stage(v, StageView::LookEndpoint)
        } else {
            stopped(v, "Cannot GET residual "@ + label(id) + ": "@ + error_text(e))
        },
    }
}

/// After the look at the package of a subscription.
pub open spec fn package_looked(
    v: CleanupView,
    id: ResourceIdView,
    reply: GetReply,
) -> CleanupView {
    match reply {
        GetReply::Found(o) => if live_uid(o).len() == 0 || bound_uid(id).len() == 0 {
            stopped(
                v,
                "Subscription "@ + id.name + " UID missing (get="@ + quoted_text(live_uid(o))
                    + ", expected="@ + quoted_text(bound_uid(id)) + ") — fail-closed"@,
            )
        } else if live_uid(o) != bound_uid(id) {
            stopped(
                v,
                "Subscription "@ + id.name + " UID changed ("@ + bound_uid(id) + " → "@
                    + live_uid(o) + ") — cannot capture semantic identity"@,
            )
        } else if live_spec_name(o).len() == 0 {
            stopped(
                v,
                "Subscription "@ + id.name
                    + " has no spec.name — cannot establish semantic identity"@,
            )
        } else {
            at_stage(v, StageView::Record(Some(live_spec_name(o))))
        },
        GetReply::Failed(e) => if has_code(e, 404) {
            at_stage(v, StageView::PackageEndpoint)
        } else {
            stopped(
                v,
                "Cannot GET Subscription "@ + id.name + " for semantic identity: "@ + error_text(
                    e,
                ),
            )
        },
    }
}

/// After the DELETE.
pub open spec fn delete_answered(
    v: CleanupView,
    id: ResourceIdView,
    o: DeleteResultView,
) -> CleanupView {
    let stop = o is Blocked || o is Unknown;
    match o {
        DeleteResultView::Accepted => at_stage(
            v,
            StageView::Checkpoint { result: CleanupResultView::DeleteRequested, stop: false },
        ),
        DeleteResultView::AlreadyGone => at_stage(
            CleanupView { deleted: v.deleted.push(id), ..v },
            StageView::Checkpoint { result: CleanupResultView::AlreadyGone, stop },
        ),
        DeleteResultView::Unknown(reason) => at_stage(
            CleanupView { failed: v.failed.push((id, reason)), ..v },
            StageView::Checkpoint { result: CleanupResultView::UnknownOutcome(reason), stop },
        ),
        DeleteResultView::Rejected(reason) => at_stage(
            CleanupView { failed: v.failed.push((id, reason)), ..v },
            StageView::Checkpoint { result: CleanupResultView::Failed(reason), stop },
        ),
        DeleteResultView::Blocked(reason) => at_stage(
            CleanupView { failed: v.failed.push((id, reason)), ..v },
            StageView::Checkpoint { result: CleanupResultView::Failed(reason), stop },
        ),
    }
}

/// The words where the object is still there after the wait.
pub open spec fn not_gone(id: ResourceIdView) -> Seq<char> {
    "Cleanup "@ + label(id) + ": DELETE accepted but not confirmed Gone after wait — stopping"@
}

/// Finalizers hold the object while it is on its way out.
pub open spec fn held(o: LiveObject) -> bool {
    o.terminating && o.finalizers@.len() > 0
}

/// The object that is there is not the one that was to be deleted.
pub open spec fn replaced(id: ResourceIdView, o: LiveObject) -> bool {
    bound_uid(id).len() > 0 && live_uid(o) != bound_uid(id)
}

/// After a look during the wait.
pub open spec fn wait_looked(
    v: CleanupView,
    id: ResourceIdView,
    polls: u32,
    blocked: bool,
    reply: GetReply,
) -> CleanupView {
    match reply {
        GetReply::Found(o) => {
            let seen = blocked || held(o);
            if replaced(id, o) {
                stopped(
                    v,
                    "Cleanup "@ + label(id) + ": UID changed "@ + bound_uid(id) + " → "@
                        + live_uid(o) + " — stopping"@,
                )
            } else if polls + 1 < GONE_POLLS {
                at_stage(v, StageView::Wait { polls: (polls + 1) as u32, blocked: seen })
            } else if seen && !is_protected(id.kind) {
                at_stage(v, StageView::Recover)
            } else {
                stopped(v, not_gone(id))
            }
        },
        GetReply::Failed(e) => if has_code(e, 404) {
            at_stage(v, StageView::WaitEndpoint)
        } else {
            stopped(
                v,
                "Cleanup "@ + label(id) + ": Gone-wait GET failed: "@ + error_text(e)
                    + " — stopping"@,
            )
        },
    }
}

/// After a look once finalizers were stripped.
pub open spec fn rewait_looked(
    v: CleanupView,
    id: ResourceIdView,
    polls: u32,
    reply: GetReply,
) -> CleanupView {
    match reply {
        GetReply::Found(o) => if replaced(id, o) {
            stopped(v, "Post-recovery "@ + label(id) + ": UID changed — stopping"@)
        } else if polls + 1 < GONE_POLLS {
            at_stage(v, StageView::WaitAgain((polls + 1) as u32))
        } else {
            stopped(v, not_gone(id))
        },
        GetReply::Failed(e) => if has_code(e, 404) {
            at_stage(v, StageView::WaitAgainEndpoint)
        } else {
            stopped(
                v,
                "Post-recovery "@ + label(id) + ": GET failed: "@ + error_text(e)
                    + " — stopping"@,
            )
        },
    }
}

/// The object is gone.
pub open spec fn confirmed(v: CleanupView, id: ResourceIdView) -> CleanupView {
    at_stage(
        CleanupView { deleted: v.deleted.push(id), ..v },
        StageView::Checkpoint { result: CleanupResultView::Gone, stop: false },
    )
}

/// After the result was written down.
pub open spec fn checkpointed(
    v: CleanupView,
    result: CleanupResultView,
    stop: bool,
) -> CleanupView {
    if result is DeleteRequested {
        at_stage(v, StageView::Wait { polls: 0, blocked: false })
    } else if stop {
        at_stage(v, StageView::Finished)
    } else {
        next_object(v)
    }
}

/// The cleanup after it was told something. What it does not wait for changes
/// nothing.
pub open spec fn cleanup_next(v: CleanupView, e: CleanupEvent) -> CleanupView {
    let id = v.targets[v.at];
    match (v.stage, e) {
        (StageView::Permit, CleanupEvent::Permit(given)) => if given {
            at_stage(v, StageView::Generation)
        } else {
            at_stage(v, StageView::Stopped(CleanupErrorView::GateClosed))
        },
        (StageView::Generation, CleanupEvent::Absent(absent)) => if absent {
            at_stage(v, StageView::Look)
        } else {
            at_stage(
                passed_over(v, "generation changed after permit acquisition"@),
                StageView::Finished,
            )
        },
        (StageView::Look, CleanupEvent::Unresolved) => stopped(
            v,
            "Cannot resolve API for "@ + label(id),
        ),
        (StageView::Look, CleanupEvent::Reply(reply)) => looked(v, id, reply),
        (StageView::LookEndpoint, CleanupEvent::Endpoint(ok)) => if ok {
            next_object(passed_over(v, "already gone"@))
        } else {
            stopped(v, "Residual GET 404 endpoint verification failed"@)
        },
        (StageView::LookPackage, CleanupEvent::Unresolved) => stopped(
            v,
            "Cannot resolve API for Subscription "@ + id.name + " — fail-closed"@,
        ),
        (StageView::LookPackage, CleanupEvent::Reply(reply)) => package_looked(v, id, reply),
        (StageView::PackageEndpoint, CleanupEvent::Endpoint(ok)) => if ok {
            next_object(passed_over(v, "Subscription already gone"@))
        } else {
            stopped(
                v,
                "Subscription "@ + id.name + " GET 404 but endpoint verification failed"@,
            )
        },
        (StageView::Record(name), CleanupEvent::Recorded) => at_stage(v, StageView::Delete(name)),
        (StageView::Delete(_), CleanupEvent::Outcome(o)) => delete_answered(v, id, o@),
        (StageView::Checkpoint { result, stop }, CleanupEvent::Recorded) => checkpointed(
            v,
            result,
            stop,
        ),
        (StageView::Wait { .. }, CleanupEvent::Unresolved) => stopped(
            v,
            "Cannot resolve API for cleanup wait on "@ + label(id),
        ),
        (StageView::Wait { polls, blocked }, CleanupEvent::Reply(reply)) => wait_looked(
            v,
            id,
            polls,
            blocked,
            reply,
        ),
        (StageView::WaitEndpoint, CleanupEvent::Endpoint(ok)) => if ok {
            confirmed(v, id)
        } else {
            stopped(v, "404 endpoint verification failed — stopping"@)
        },
        (StageView::Recover, CleanupEvent::Recovered(count)) => match count {
            None => stopped(v, "Residual finalizer recovery failed — stopping"@),
            Some(n) => if n == 0 {
                stopped(
                    v,
                    "Cleanup "@ + label(id) + ": finalizer recovery returned 0 — stopping"@,
                )
            } else {
                at_stage(v, StageView::WaitAgain(0))
            },
        },
        (StageView::WaitAgain(polls), CleanupEvent::Reply(reply)) => rewait_looked(
            v,
            id,
            polls,
            reply,
        ),
        (StageView::WaitAgainEndpoint, CleanupEvent::Endpoint(ok)) => if ok {
            confirmed(v, id)
        } else {
            stopped(v, "Post-recovery endpoint check failed — stopping"@)
        },
        _ => v,
    }
}

/// The phase in which the finalizers of a residual object are stripped: it deletes
/// this object and no other.
pub fn residual_phase(resource: &ResourceId) -> (r: PlanPhase)
    ensures
        r.name@ == "residual cleanup"@,
        r.description@.len() == 0,
        r.barrier is None,
        r.actions@.len() == 1,
        r.actions@[0] matches Action::Delete { resource: id, reason } && id@ == resource@
            && reason@ == "residual cleanup"@,
{
    let mut actions: Vec<Action> = Vec::new();
    actions.push(
        Action::Delete { resource: resource.clone(), reason: "residual cleanup".to_owned() },
    );
    PlanPhase {
        name: "residual cleanup".to_owned(),
        description: String::new(),
        actions,
        barrier: None,
    }
}

/// What the cleanup is doing, where that is worth telling.
pub open spec fn progress_of(v: CleanupView) -> Option<ProgressView> {
    let id = v.targets[v.at];
    match v.stage {
        StageView::Permit => Some(ProgressView::Validating(id)),
        StageView::Checkpoint { result, .. } => match result {
            CleanupResultView::DeleteRequested => Some(ProgressView::DeleteRequested(id)),
            CleanupResultView::Gone => Some(ProgressView::Gone(id)),
            CleanupResultView::AlreadyGone => None,
            CleanupResultView::Failed(reason) => Some(ProgressView::Failed(id, reason)),
            CleanupResultView::UnknownOutcome(reason) => Some(ProgressView::Failed(id, reason)),
        },
        StageView::Wait { polls, .. } => if polls == 0 {
            Some(ProgressView::WaitingGone(id))
        } else {
            None
        },
        _ => None,
    }
}

/// Whether the journal allows a cleanup.
pub open spec fn journal_objection(schema: u32, state: RunState) -> Option<Seq<char>> {
    if schema != RUN_JOURNAL_SCHEMA_VERSION {
        Some(
            "Journal schema version "@ + decimal(schema as nat) + " is not current (expected "@
                + decimal(RUN_JOURNAL_SCHEMA_VERSION as nat)
                + "). Cannot perform cleanup on incompatible journal."@,
        )
    } else if state == RunState::ApplyCompleted || state == RunState::InteractiveCleanup {
        None
    } else {
        Some(
            "Journal state is "@ + state_name(state)
                + " — cleanup only allowed from ApplyCompleted or InteractiveCleanup. Resolve the current state before retrying."@,
        )
    }
}

/// What a refusal says.
pub open spec fn objection(r: Result<(), CleanupError>) -> Option<CleanupErrorView> {
    match r {
        Ok(_) => None,
        Err(e) => Some(e@),
    }
}

/// Refuses a cleanup that the journal does not allow.
pub fn check_cleanup_journal(journal: &RunJournal) -> (r: Result<(), CleanupError>)
    ensures
        objection(r) == match journal_objection(journal.schema_version, journal.state) {
            Some(s) => Some(CleanupErrorView::Stopped(s)),
            None => None,
        },
{
    if journal.schema_version != RUN_JOURNAL_SCHEMA_VERSION {
        return Err(
            CleanupError::Stopped(
                "Journal schema version ".to_owned().concat(
                    u32_to_decimal(journal.schema_version).as_str(),
                ).concat(" is not current (expected ").concat(
                    u32_to_decimal(RUN_JOURNAL_SCHEMA_VERSION).as_str(),
                ).concat("). Cannot perform cleanup on incompatible journal."),
            ),
        );
    }
    match journal.state {
        RunState::ApplyCompleted | RunState::InteractiveCleanup => Ok(()),
        _ => Err(
            CleanupError::Stopped(
                "Journal state is ".to_owned().concat(journal.state.name()).concat(
                    " — cleanup only allowed from ApplyCompleted or InteractiveCleanup. Resolve the current state before retrying.",
                ),
            ),
        ),
    }
}

/// Refuses a cleanup while something of the operator is left, or may be.
pub fn check_cleanup_generation(state: &OperatorGenerationState) -> (r: Result<(), CleanupError>)
    ensures
        objection(r) == if state@ is Absent {
            None
        } else {
            Some(
                CleanupErrorView::Stopped(
                    "Operator generation is not Absent — residual cleanup blocked"@,
                ),
            )
        },
{
    if state.is_absent() {
        Ok(())
    } else {
        Err(
            CleanupError::Stopped(
                "Operator generation is not Absent — residual cleanup blocked".to_owned(),
            ),
        )
    }
}

/// Those of `selected` that the audit found.
pub open spec fn eligible(selected: Seq<ResourceId>, audit: ResidualAudit) -> Seq<ResourceIdView> {
    pick(
        selected,
        |r: ResourceId|
            if in_audit(audit, r@) {
                Some(r@)
            } else {
                None
            },
    )
}

/// Those of `selected` that the audit did not find.
pub open spec fn ineligible(selected: Seq<ResourceId>, audit: ResidualAudit) -> Seq<
    (ResourceIdView, Seq<char>),
> {
    pick(
        selected,
        |r: ResourceId|
            if in_audit(audit, r@) {
                None
            } else {
                Some((r@, "not in current residual set"@))
            },
    )
}

/// Why a cleanup may not begin after the audit.
pub open spec fn beginning_objection(
    selected: Seq<ResourceId>,
    audit: ResidualAudit,
    status: ResidualStatus,
) -> Option<Seq<char>> {
    if status is AuditIncomplete {
        Some("Fresh audit incomplete — residual cleanup blocked"@)
    } else if selected.len() > 0 && eligible(selected, audit).len() == 0 {
        Some(
            "All "@ + decimal(ineligible(selected, audit).len())
                + " selected resource(s) were skipped — none eligible for cleanup. State unchanged (retryable)."@,
        )
    } else {
        None
    }
}

/// A cleanup that begins.
pub open spec fn begun(selected: Seq<ResourceId>, audit: ResidualAudit) -> CleanupView {
    CleanupView {
        targets: eligible(selected, audit),
        at: 0,
        stage: if eligible(selected, audit).len() > 0 {
            StageView::Permit
        } else {
            StageView::Finished
        },
        deleted: seq![],
        skipped: ineligible(selected, audit),
        failed: seq![],
    }
}

proof fn lemma_partition(selected: Seq<ResourceId>, audit: ResidualAudit, n: int)
    requires
        0 <= n <= selected.len(),
    ensures
        eligible(selected.take(n), audit).len() + ineligible(selected.take(n), audit).len() == n,
    decreases n,
{
    let f = |r: ResourceId|
        if in_audit(audit, r@) {
            Some(r@)
        } else {
            None
        };
    let g = |r: ResourceId|
        if in_audit(audit, r@) {
            None
        } else {
            Some((r@, "not in current residual set"@))
        };
    if n > 0 {
        lemma_partition(selected, audit, n - 1);
        lemma_pick_take(selected, f, n - 1);
        lemma_pick_take(selected, g, n - 1);
        assert(eligible(selected.take(n - 1), audit) == pick(selected.take(n - 1), f));
        assert(ineligible(selected.take(n - 1), audit) == pick(selected.take(n - 1), g));
    } else {
        assert(selected.take(0) =~= seq![]);
    }
}

/// Adds an object with a note to a list.
pub fn push_note(v: &mut Vec<Noted>, id: &ResourceId, note: String)
    ensures
        noted(final(v)@) == noted(old(v)@).push((id@, note@)),
{
    let ghost entry = (id@, note@);
    v.push((id.clone(), note));
    assert(noted(v@) =~= noted(old(v)@).push(entry));
}

impl CleanupRun {
    /// Begins a cleanup of those of `selected` that a fresh audit has found. An
    /// incomplete audit lets nothing begin, and neither does a selection of which the
    /// audit found nothing.
    pub fn begin(selected: &Vec<ResourceId>, audit: &ResidualAudit, status: &ResidualStatus) -> (r:
        Result<CleanupRun, CleanupError>)
        ensures
            match r {
                Ok(run) => beginning_objection(selected@, *audit, *status) is None && run@ == begun(
                    selected@,
                    *audit,
                ) && cleanup_fits(run@),
                Err(e) => beginning_objection(selected@, *audit, *status) matches Some(s) && e@
                    == CleanupErrorView::Stopped(s),
            },
    {
        match status {
            ResidualStatus::AuditIncomplete => {
                return Err(
                    CleanupError::Stopped(
                        "Fresh audit incomplete — residual cleanup blocked".to_owned(),
                    ),
                );
            },
            _ => {},
        }
        let mut targets: Vec<ResourceId> = Vec::new();
        let mut skipped: Vec<Noted> = Vec::new();
        let ghost f = |r: ResourceId|
            if in_audit(*audit, r@) {
                Some(r@)
            } else {
                None
            };
        let ghost g = |r: ResourceId|
            if in_audit(*audit, r@) {
                None
            } else {
                Some((r@, "not in current residual set"@))
            };
        assert(selected@.take(0) =~= seq![]);
        assert(ids(targets@) =~= seq![]);
        assert(noted(skipped@) =~= seq![]);
        for i in 0..selected.len()
            invariant
                f == (|r: ResourceId|
                    if in_audit(*audit, r@) {
                        Some(r@)
                    } else {
                        None
                    }),
                g == (|r: ResourceId|
                    if in_audit(*audit, r@) {
                        None
                    } else {
                        Some((r@, "not in current residual set"@))
                    }),
                ids(targets@) == pick(selected@.take(i as int), f),
                noted(skipped@) == pick(selected@.take(i as int), g),
        {
            proof {
                lemma_pick_take(selected@, f, i as int);
                lemma_pick_take(selected@, g, i as int);
            }
            if is_in_residual_audit(&selected[i], audit) {
                push_id(&mut targets, &selected[i]);
            } else {
                push_note(&mut skipped, &selected[i], "not in current residual set".to_owned());
            }
        }
        assert(selected@.take(selected@.len() as int) =~= selected@);
        assert(ids(targets@) == eligible(selected@, *audit));
        assert(noted(skipped@) == ineligible(selected@, *audit));
        assert(ids(targets@).len() == targets@.len());
        assert(noted(skipped@).len() == skipped@.len());
        proof {
            lemma_partition(selected@, *audit, selected@.len() as int);
        }
        if targets.len() == 0 && skipped.len() > 0 {
            return Err(
                CleanupError::Stopped(
                    "All ".to_owned().concat(to_decimal(skipped.len()).as_str()).concat(
                        " selected resource(s) were skipped — none eligible for cleanup. State unchanged (retryable).",
                    ),
                ),
            );
        }
        let stage = if targets.len() > 0 {
            CleanupStage::Permit
        } else {
            CleanupStage::Finished
        };
        let deleted: Vec<ResourceId> = Vec::new();
        let failed: Vec<Noted> = Vec::new();
        assert(ids(deleted@) =~= seq![]);
        assert(noted(failed@) =~= seq![]);
        Ok(CleanupRun { targets, at: 0, stage, deleted, skipped, failed })
    }

    fn stop(&mut self, words: String)
        ensures
            final(self)@ == stopped(old(self)@, words@),
    {
        self.stage = CleanupStage::Stopped(CleanupError::Stopped(words));
    }

    fn pass_over(&mut self, reason: String)
        requires
            old(self).at < old(self).targets@.len(),
        ensures
            final(self)@ == passed_over(old(self)@, reason@),
            final(self).targets == old(self).targets,
            final(self).at == old(self).at,
    {
        let id: ResourceId = self.targets[self.at].clone();
        assert(self@.targets[self@.at] == id@);
        push_note(&mut self.skipped, &id, reason);
    }

    fn advance(&mut self)
        requires
            old(self).at < old(self).targets@.len(),
        ensures
            final(self)@ == next_object(old(self)@),
    {
        let count: usize = self.targets.len();
        assert(self@.targets.len() == count);
        self.at = self.at + 1;
        self.stage = if self.at < count {
            CleanupStage::Permit
        } else {
            CleanupStage::Finished
        };
    }

    fn confirm(&mut self)
        requires
            old(self).at < old(self).targets@.len(),
        ensures
            final(self)@ == confirmed(old(self)@, old(self)@.targets[old(self)@.at]),
    {
        let id: ResourceId = self.targets[self.at].clone();
        assert(self@.targets[self@.at] == id@);
        push_id(&mut self.deleted, &id);
        self.stage = CleanupStage::Checkpoint { result: CleanupResult::Gone, stop: false };
    }

    fn look(&mut self, reply: &GetReply)
        requires
            old(self).at < old(self).targets@.len(),
        ensures
            final(self)@ == looked(old(self)@, old(self)@.targets[old(self)@.at], *reply),
    {
        let id: ResourceId = self.targets[self.at].clone();
        assert(self@.targets[self@.at] == id@);
        match reply {
            GetReply::Found(o) => {
                let expected = or_empty(&id.uid);
                let current = or_empty(&o.uid);
                assert(expected@ == bound_uid(id@));
                if expected.is_empty() || current.is_empty() {
                    self.stop(
                        "Missing UID for residual ".to_owned().concat(id.label().as_str()).concat(
                            " — fail-closed",
                        ),
                    );
                } else if !same(current, expected) {
                    self.pass_over(
                        "UID changed from ".to_owned().concat(expected).concat(" to ").concat(
                            current,
                        ),
                    );
                    self.advance();
                } else if subscription(&id) {
                    self.stage = CleanupStage::LookPackage;
                } else {
                    self.stage = CleanupStage::Record { spec_name: None };
                }
            },
            GetReply::Failed(e) => {
                if e.has_code(404) {
                    self.stage = CleanupStage::LookEndpoint;
                } else {
                    self.stop(
                        "Cannot GET residual ".to_owned().concat(id.label().as_str()).concat(
                            ": ",
                        ).concat(e.text()),
                    );
                }
            },
        }
    }

    fn look_at_package(&mut self, reply: &GetReply)
        requires
            old(self).at < old(self).targets@.len(),
        ensures
            final(self)@ == package_looked(old(self)@, old(self)@.targets[old(self)@.at], *reply),
    {
        let id: ResourceId = self.targets[self.at].clone();
        assert(self@.targets[self@.at] == id@);
        match reply {
            GetReply::Found(o) => {
                let expected = or_empty(&id.uid);
                let current = or_empty(&o.uid);
                let package = or_empty(&o.spec_name);
                assert(expected@ == bound_uid(id@));
                if current.is_empty() || expected.is_empty() {
                    self.stop(
                        "Subscription ".to_owned().concat(id.name.as_str()).concat(
                            " UID missing (get=",
                        ).concat(quoted(current).as_str()).concat(", expected=").concat(
                            quoted(expected).as_str(),
                        ).concat(") — fail-closed"),
                    );
                } else if !same(current, expected) {
                    self.stop(
                        "Subscription ".to_owned().concat(id.name.as_str()).concat(
                            " UID changed (",
                        ).concat(expected).concat(" → ").concat(current).concat(
                            ") — cannot capture semantic identity",
                        ),
                    );
                } else if package.is_empty() {
                    self.stop(
                        "Subscription ".to_owned().concat(id.name.as_str()).concat(
                            " has no spec.name — cannot establish semantic identity",
                        ),
                    );
                } else {
                    self.stage = CleanupStage::Record { spec_name: Some(package.to_owned()) };
                }
            },
            GetReply::Failed(e) => {
                if e.has_code(404) {
                    self.stage = CleanupStage::PackageEndpoint;
                } else {
                    self.stop(
                        "Cannot GET Subscription ".to_owned().concat(id.name.as_str()).concat(
                            " for semantic identity: ",
                        ).concat(e.text()),
                    );
                }
            },
        }
    }

    fn answer(&mut self, outcome: &DeleteOutcome)
        requires
            old(self).at < old(self).targets@.len(),
        ensures
            final(self)@ == delete_answered(
                old(self)@,
                old(self)@.targets[old(self)@.at],
                outcome@,
            ),
    {
        let id: ResourceId = self.targets[self.at].clone();
        assert(self@.targets[self@.at] == id@);
        let stop = outcome.is_stop();
        match outcome {
            DeleteOutcome::Accepted => {
                self.stage = CleanupStage::Checkpoint {
                    result: CleanupResult::DeleteRequested,
                    stop: false,
                };
            },
            DeleteOutcome::AlreadyGone => {
                push_id(&mut self.deleted, &id);
                self.stage = CleanupStage::Checkpoint { result: CleanupResult::AlreadyGone, stop };
            },
            DeleteOutcome::Unknown(reason) => {
                push_note(&mut self.failed, &id, reason.clone());
                self.stage = CleanupStage::Checkpoint {
                    result: CleanupResult::UnknownOutcome(reason.clone()),
                    stop,
                };
            },
            DeleteOutcome::Rejected(reason) | DeleteOutcome::Blocked(reason) => {
                push_note(&mut self.failed, &id, reason.clone());
                self.stage = CleanupStage::Checkpoint {
                    result: CleanupResult::Failed(reason.clone()),
                    stop,
                };
            },
        }
    }

    fn look_while_waiting(&mut self, polls: u32, blocked: bool, reply: &GetReply)
        requires
            old(self).at < old(self).targets@.len(),
            polls < GONE_POLLS,
        ensures
            final(self)@ == wait_looked(
                old(self)@,
                old(self)@.targets[old(self)@.at],
                polls,
                blocked,
                *reply,
            ),
    {
        let id: ResourceId = self.targets[self.at].clone();
        assert(self@.targets[self@.at] == id@);
        match reply {
            GetReply::Found(o) => {
                let bound = or_empty(&id.uid);
                let live = or_empty(&o.uid);
                assert(bound@ == bound_uid(id@));
                let seen = blocked || (o.terminating && o.finalizers.len() > 0);
                if !bound.is_empty() && !same(live, bound) {
                    self.stop(
                        "Cleanup ".to_owned().concat(id.label().as_str()).concat(
                            ": UID changed ",
                        ).concat(bound).concat(" → ").concat(live).concat(" — stopping"),
                    );
                } else if polls + 1 < GONE_POLLS {
                    self.stage = CleanupStage::Wait { polls: polls + 1, blocked: seen };
                } else if seen && !protected_kind(id.kind.as_str()) {
                    self.stage = CleanupStage::Recover;
                } else {
                    self.stop(
                        "Cleanup ".to_owned().concat(id.label().as_str()).concat(
                            ": DELETE accepted but not confirmed Gone after wait — stopping",
                        ),
                    );
                }
            },
            GetReply::Failed(e) => {
                if e.has_code(404) {
                    self.stage = CleanupStage::WaitEndpoint;
                } else {
                    self.stop(
                        "Cleanup ".to_owned().concat(id.label().as_str()).concat(
                            ": Gone-wait GET failed: ",
                        ).concat(e.text()).concat(" — stopping"),
                    );
                }
            },
        }
    }

    fn look_after_recovery(&mut self, polls: u32, reply: &GetReply)
        requires
            old(self).at < old(self).targets@.len(),
            polls < GONE_POLLS,
        ensures
            final(self)@ == rewait_looked(
                old(self)@,
                old(self)@.targets[old(self)@.at],
                polls,
                *reply,
            ),
    {
        let id: ResourceId = self.targets[self.at].clone();
        assert(self@.targets[self@.at] == id@);
        match reply {
            GetReply::Found(o) => {
                let bound = or_empty(&id.uid);
                assert(bound@ == bound_uid(id@));
                if !bound.is_empty() && !same(or_empty(&o.uid), bound) {
                    self.stop(
                        "Post-recovery ".to_owned().concat(id.label().as_str()).concat(
                            ": UID changed — stopping",
                        ),
                    );
                } else if polls + 1 < GONE_POLLS {
                    self.stage = CleanupStage::WaitAgain { polls: polls + 1 };
                } else {
                    self.stop(
                        "Cleanup ".to_owned().concat(id.label().as_str()).concat(
                            ": DELETE accepted but not confirmed Gone after wait — stopping",
                        ),
                    );
                }
            },
            GetReply::Failed(e) => {
                if e.has_code(404) {
                    self.stage = CleanupStage::WaitAgainEndpoint;
                } else {
                    self.stop(
                        "Post-recovery ".to_owned().concat(id.label().as_str()).concat(
                            ": GET failed: ",
                        ).concat(e.text()).concat(" — stopping"),
                    );
                }
            },
        }
    }

    fn recorded(&mut self)
        requires
            cleanup_fits(old(self)@),
        ensures
            final(self)@ == cleanup_next(old(self)@, CleanupEvent::Recorded),
    {
        assert(ids(self.targets@).len() == self.targets@.len());
        let next = match &self.stage {
            CleanupStage::Record { spec_name } => Some(
                CleanupStage::Delete { spec_name: copy_opt(spec_name) },
            ),
            CleanupStage::Checkpoint { result, stop } => match result {
                CleanupResult::DeleteRequested => Some(
                    CleanupStage::Wait { polls: 0, blocked: false },
                ),
                _ => if *stop {
                    Some(CleanupStage::Finished)
                } else {
                    None
                },
            },
            _ => {
                return ;
            },
        };
        match next {
            Some(stage) => {
                self.stage = stage;
            },
            None => {
                self.advance();
            },
        }
    }

    /// Tells the cleanup something.
    pub fn step(&mut self, event: &CleanupEvent)
        requires
            cleanup_fits(old(self)@),
        ensures
            final(self)@ == cleanup_next(old(self)@, *event),
            cleanup_fits(final(self)@),
    {
        assert(ids(self.targets@).len() == self.targets@.len());
        match event {
            CleanupEvent::Recorded => {
                self.recorded();
            },
            CleanupEvent::Permit(given) => match &self.stage {
                CleanupStage::Permit => {
                    self.stage = if *given {
                        CleanupStage::Generation
                    } else {
                        CleanupStage::Stopped(CleanupError::GateClosed(GateClosedError))
                    };
                },
                _ => {},
            },
            CleanupEvent::Absent(absent) => match &self.stage {
                CleanupStage::Generation => {
                    if *absent {
                        self.stage = CleanupStage::Look;
                    } else {
                        self.pass_over("generation changed after permit acquisition".to_owned());
                        self.stage = CleanupStage::Finished;
                    }
                },
                _ => {},
            },
            CleanupEvent::Unresolved => match &self.stage {
                CleanupStage::Look => {
                    let name = self.targets[self.at].label();
                    assert(self@.targets[self@.at] == self.targets@[self.at as int]@);
                    self.stop("Cannot resolve API for ".to_owned().concat(name.as_str()));
                },
                CleanupStage::LookPackage => {
                    let name = self.targets[self.at].name.clone();
                    assert(self@.targets[self@.at] == self.targets@[self.at as int]@);
                    self.stop(
                        "Cannot resolve API for Subscription ".to_owned().concat(
                            name.as_str(),
                        ).concat(" — fail-closed"),
                    );
                },
                CleanupStage::Wait { .. } => {
                    let name = self.targets[self.at].label();
                    assert(self@.targets[self@.at] == self.targets@[self.at as int]@);
                    self.stop(
                        "Cannot resolve API for cleanup wait on ".to_owned().concat(
                            name.as_str(),
                        ),
                    );
                },
                _ => {},
            },
            CleanupEvent::Reply(reply) => match &self.stage {
                CleanupStage::Look => {
                    self.look(reply);
                },
                CleanupStage::LookPackage => {
                    self.look_at_package(reply);
                },
                CleanupStage::Wait { polls, blocked } => {
                    let p: u32 = *polls;
                    let b: bool = *blocked;
                    self.look_while_waiting(p, b, reply);
                },
                CleanupStage::WaitAgain { polls } => {
                    let p: u32 = *polls;
                    self.look_after_recovery(p, reply);
                },
                _ => {},
            },
            CleanupEvent::Endpoint(ok) => match &self.stage {
                CleanupStage::LookEndpoint => {
                    if *ok {
                        self.pass_over("already gone".to_owned());
                        self.advance();
                    } else {
                        self.stop("Residual GET 404 endpoint verification failed".to_owned());
                    }
                },
                CleanupStage::PackageEndpoint => {
                    if *ok {
                        self.pass_over("Subscription already gone".to_owned());
                        self.advance();
                    } else {
                        let name = self.targets[self.at].name.clone();
                        assert(self@.targets[self@.at] == self.targets@[self.at as int]@);
                        self.stop(
                            "Subscription ".to_owned().concat(name.as_str()).concat(
                                " GET 404 but endpoint verification failed",
                            ),
                        );
                    }
                },
                CleanupStage::WaitEndpoint => {
                    if *ok {
                        self.confirm();
                    } else {
                        self.stop("404 endpoint verification failed — stopping".to_owned());
                    }
                },
                CleanupStage::WaitAgainEndpoint => {
                    if *ok {
                        self.confirm();
                    } else {
                        self.stop("Post-recovery endpoint check failed — stopping".to_owned());
                    }
                },
                _ => {},
            },
            CleanupEvent::Outcome(outcome) => match &self.stage {
                CleanupStage::Delete { .. } => {
                    self.answer(outcome);
                },
                _ => {},
            },
            CleanupEvent::Recovered(count) => match &self.stage {
                CleanupStage::Recover => match count {
                    None => {
                        self.stop("Residual finalizer recovery failed — stopping".to_owned());
                    },
                    Some(n) => {
                        if *n == 0 {
                            let name = self.targets[self.at].label();
                            assert(self@.targets[self@.at] == self.targets@[self.at as int]@);
                            self.stop(
                                "Cleanup ".to_owned().concat(name.as_str()).concat(
                                    ": finalizer recovery returned 0 — stopping",
                                ),
                            );
                        } else {
                            self.stage = CleanupStage::WaitAgain { polls: 0 };
                        }
                    },
                },
                _ => {},
            },
        }
    }

    /// What the cleanup is doing, where that is worth telling.
    pub fn progress(&self) -> (r: Option<CleanupProgress>)
        requires
            cleanup_fits(self@),
        ensures
            match r {
                Some(p) => progress_of(self@) == Some(p@),
                None => progress_of(self@) is None,
            },
    {
        assert(ids(self.targets@).len() == self.targets@.len());
        match &self.stage {
            CleanupStage::Finished | CleanupStage::Stopped(_) => {
                return None;
            },
            _ => {},
        }
        let resource: ResourceId = self.targets[self.at].clone();
        assert(self@.targets[self@.at] == resource@);
        match &self.stage {
            CleanupStage::Permit => Some(CleanupProgress::Validating { resource }),
            CleanupStage::Checkpoint { result, .. } => match result {
                CleanupResult::DeleteRequested => Some(
                    CleanupProgress::DeleteRequested { resource },
                ),
                CleanupResult::Gone => Some(CleanupProgress::Gone { resource }),
                CleanupResult::AlreadyGone => None,
                CleanupResult::Failed(reason) => Some(
                    CleanupProgress::Failed { resource, reason: reason.clone() },
                ),
                CleanupResult::UnknownOutcome(reason) => Some(
                    CleanupProgress::Failed { resource, reason: reason.clone() },
                ),
            },
            CleanupStage::Wait { polls, .. } => if *polls == 0 {
                Some(CleanupProgress::WaitingGone { resource })
            } else {
                None
            },
            _ => None,
        }
    }
}

/// Refuses to go on where something of the operator is there again after the cleanup.
pub fn check_generation_after(state: &OperatorGenerationState) -> (r: Result<(), CleanupError>)
    ensures
        objection(r) == if state@ is Absent {
            None
        } else {
            Some(
                CleanupErrorView::Stopped(
                    "Operator generation changed after cleanup — re-audit needed. State: InteractiveCleanup."@,
                ),
            )
        },
{
    if state.is_absent() {
        Ok(())
    } else {
        Err(
            CleanupError::Stopped(
                "Operator generation changed after cleanup — re-audit needed. State: InteractiveCleanup.".to_owned(),
            ),
        )
    }
}

/// The error where the audit after the cleanup failed.
pub fn audit_after_failed(reason: &str) -> (r: CleanupError)
    ensures
        r@ == CleanupErrorView::Stopped(
            "Post-cleanup re-audit failed: "@ + reason@
                + ". State: InteractiveCleanup (retryable)."@,
        ),
{
    CleanupError::Stopped(
        "Post-cleanup re-audit failed: ".to_owned().concat(reason).concat(
            ". State: InteractiveCleanup (retryable).",
        ),
    )
}

/// One of the decisions was turned down.
pub open spec fn any_hard_failed(decisions: Seq<CleanupDecision>) -> bool {
    exists|i: int| 0 <= i < decisions.len() && (#[trigger] decisions[i]).hard_failed()
}

/// One of the decisions still needs something done.
pub open spec fn any_pending(decisions: Seq<CleanupDecision>) -> bool {
    exists|i: int| 0 <= i < decisions.len() && (#[trigger] decisions[i]).pending()
}

/// The state that a cleanup leaves the run in.
pub open spec fn final_state(
    decisions: Seq<CleanupDecision>,
    status: ResidualStatus,
    left_over: bool,
) -> RunState {
    if any_hard_failed(decisions) {
        RunState::Failed
    } else if status is AuditIncomplete || left_over || any_pending(decisions) {
        RunState::InteractiveCleanup
    } else {
        RunState::ApplyCompleted
    }
}

/// What is said of a cleanup that leaves the run in this state.
pub open spec fn final_objection(state: RunState, v: CleanupView) -> Option<Seq<char>> {
    if state == RunState::Failed {
        Some("Cleanup completed with failed or unconfirmed decisions"@)
    } else if state == RunState::InteractiveCleanup {
        Some(
            "Cleanup incomplete: "@ + decimal(v.deleted.len()) + " deleted, "@ + decimal(
                v.skipped.len(),
            ) + " skipped, "@ + decimal(v.failed.len())
                + " failed. State persisted as InteractiveCleanup — retry is safe."@,
        )
    } else {
        None
    }
}

fn has_hard_failed(decisions: &Vec<CleanupDecision>) -> (r: bool)
    ensures
        r == any_hard_failed(decisions@),
{
    for i in 0..decisions.len()
        invariant
            forall|k: int| 0 <= k < i ==> !(#[trigger] decisions@[k]).hard_failed(),
    {
        if decisions[i].is_hard_failed() {
            assert(decisions@[i as int].hard_failed());
            return true;
        }
    }
    false
}

fn has_pending(decisions: &Vec<CleanupDecision>) -> (r: bool)
    ensures
        r == any_pending(decisions@),
{
    for i in 0..decisions.len()
        invariant
            forall|k: int| 0 <= k < i ==> !(#[trigger] decisions@[k]).pending(),
    {
        if decisions[i].is_pending() {
            assert(decisions@[i as int].pending());
            return true;
        }
    }
    false
}

impl CleanupRun {
    /// The state to leave the run in, by all decisions of the journal and the audit
    /// after the cleanup, and what is to be said of it.
    pub fn conclude(&self, decisions: &Vec<CleanupDecision>, status: &ResidualStatus) -> (r: (
        RunState,
        Result<(), CleanupError>,
    ))
        ensures
            r.0 == final_state(
                decisions@,
                *status,
                self@.skipped.len() > 0 || self@.failed.len() > 0,
            ),
            objection(r.1) == match final_objection(r.0, self@) {
                Some(s) => Some(CleanupErrorView::Stopped(s)),
                None => None,
            },
    {
        assert(self@.skipped.len() == self.skipped@.len());
        assert(self@.failed.len() == self.failed@.len());
        assert(self@.deleted.len() == self.deleted@.len());
        if has_hard_failed(decisions) {
            return (
                RunState::Failed,
                Err(
                    CleanupError::Stopped(
                        "Cleanup completed with failed or unconfirmed decisions".to_owned(),
                    ),
                ),
            );
        }
        let incomplete = match status {
            ResidualStatus::AuditIncomplete => true,
            _ => false,
        };
        if incomplete || self.skipped.len() > 0 || self.failed.len() > 0 || has_pending(decisions) {
            return (
                RunState::InteractiveCleanup,
                Err(
                    CleanupError::Stopped(
                        "Cleanup incomplete: ".to_owned().concat(
                            to_decimal(self.deleted.len()).as_str(),
                        ).concat(" deleted, ").concat(
                            to_decimal(self.skipped.len()).as_str(),
                        ).concat(" skipped, ").concat(
                            to_decimal(self.failed.len()).as_str(),
                        ).concat(
                            " failed. State persisted as InteractiveCleanup — retry is safe.",
                        ),
                    ),
                ),
            );
        }
        (RunState::ApplyCompleted, Ok(()))
    }
}

/// A cleanup counts as complete only where nothing was passed over and nothing
/// failed, no decision of the journal was turned down or is open, and the audit after
/// it saw everything.
pub proof fn law_completed_cleanup_left_nothing_open(
    decisions: Seq<CleanupDecision>,
    status: ResidualStatus,
    left_over: bool,
    i: int,
)
    requires
        final_state(decisions, status, left_over) == RunState::ApplyCompleted,
    ensures
        !left_over,
        !(status is AuditIncomplete),
        0 <= i < decisions.len() ==> decisions[i].complete(),
{
}

/// What has ended stays as it is.
pub proof fn law_cleanup_end_is_final(v: CleanupView, e: CleanupEvent)
    requires
        is_over(v.stage),
    ensures
        cleanup_next(v, e) == v,
{
}

/// Everything that a cleanup deletes was found by the audit that it began with.
pub proof fn law_cleanup_targets_were_found(selected: Seq<ResourceId>, audit: ResidualAudit, i: int)
    requires
        0 <= i < begun(selected, audit).targets.len(),
    ensures
        in_audit(audit, begun(selected, audit).targets[i]),
        exists|k: int| 0 <= k < selected.len() && (#[trigger] selected[k])@ == begun(
            selected,
            audit,
        ).targets[i],
{
    let f = |r: ResourceId|
        if in_audit(audit, r@) {
            Some(r@)
        } else {
            None
        };
    let targets = begun(selected, audit).targets;
    crate::lists::lemma_pick_members(selected, f);
    assert(targets == pick(selected, f));
    assert(targets.contains(targets[i]));
    let k = choose|k: int| 0 <= k < selected.len() && f(#[trigger] selected[k]) == Some(targets[i]);
    assert(selected[k]@ == targets[i]);
}

/// No step changes what is to be cleaned up, and every object begins by asking for a
/// permit.
pub proof fn law_every_object_asks_for_a_permit(v: CleanupView, e: CleanupEvent)
    ensures
        cleanup_next(v, e).targets == v.targets,
        cleanup_next(v, e).at != v.at ==> cleanup_next(v, e).at == v.at + 1 && (cleanup_next(
            v,
            e,
        ).stage is Permit || cleanup_next(v, e).stage is Finished),
{
}

/// The way to a DELETE: a permit, nothing of the operator left, the object live under
/// the UID that it was selected by (with its package, for a subscription), the
/// decision written down.
pub proof fn law_way_to_a_delete(v: CleanupView, e: CleanupEvent)
    ensures
        ({
            let n = cleanup_next(v, e);
            let id = v.targets[v.at];
            &&& n.stage is Generation && !(v.stage is Generation) ==> v.stage is Permit && e
                == CleanupEvent::Permit(true)
            &&& n.stage is Look && !(v.stage is Look) ==> v.stage is Generation && e
                == CleanupEvent::Absent(true)
            &&& n.stage is LookPackage && !(v.stage is LookPackage) ==> v.stage is Look
            &&& n.stage is Record && !(v.stage is Record) ==> (e matches CleanupEvent::Reply(
                GetReply::Found(o),
            ) && id.uid == Some(live_uid(o)) && live_uid(o).len() > 0 && ((v.stage is Look
                && !is_subscription(id)) || (v.stage is LookPackage && n.stage
                == StageView::Record(Some(live_spec_name(o))) && live_spec_name(o).len() > 0)))
            &&& n.stage is Delete && !(v.stage is Delete) ==> e is Recorded && v.stage
                == StageView::Record(n.stage->Delete_0)
        }),
{
}

/// An object counts as deleted only where the DELETE found it gone, or where a look
/// after the DELETE did not find it while others of its kind can be listed.
pub proof fn law_deleted_means_gone(v: CleanupView, e: CleanupEvent)
    requires
        cleanup_next(v, e).deleted != v.deleted,
    ensures
        cleanup_next(v, e).deleted == v.deleted.push(v.targets[v.at]),
        (v.stage is Delete && (e matches CleanupEvent::Outcome(o) && o@ is AlreadyGone)) || ((
        v.stage is WaitEndpoint || v.stage is WaitAgainEndpoint) && e == CleanupEvent::Endpoint(
            true,
        )),
{
}

/// Finalizers are stripped only from an object of no protected kind that was seen on
/// its way out and held by them.
pub proof fn law_recovery_spares_protected_kinds(v: CleanupView, e: CleanupEvent)
    requires
        cleanup_next(v, e).stage is Recover,
        !(v.stage is Recover),
    ensures
        !is_protected(v.targets[v.at].kind),
        v.stage matches StageView::Wait { blocked, .. } && (blocked || (e matches CleanupEvent::Reply(
            GetReply::Found(o),
        ) && held(o))),
{
}

/// The object stands among the deleted, the passed over or the failed.
pub open spec fn is_accounted(v: CleanupView, id: ResourceIdView) -> bool {
    v.deleted.contains(id) || noted_ids(v.skipped).contains(id) || noted_ids(v.failed).contains(id)
}

/// Every object that has had its turn is accounted for.
pub open spec fn turns_accounted(v: CleanupView) -> bool {
    &&& forall|i: int| 0 <= i < v.at && i < v.targets.len() ==> is_accounted(v, #[trigger] v.targets[i])
    &&& v.stage matches StageView::Checkpoint { result, .. } ==> !(result is DeleteRequested)
        ==> is_accounted(v, v.targets[v.at])
}

proof fn lemma_more(a: Seq<ResourceIdView>, x: ResourceIdView)
    ensures
        forall|t: ResourceIdView| #[trigger] a.contains(t) ==> a.push(x).contains(t),
        a.push(x).contains(x),
{
    assert forall|t: ResourceIdView| #[trigger] a.contains(t) implies a.push(x).contains(t) by {
        let k = choose|k: int| 0 <= k < a.len() && a[k] == t;
        assert(a.push(x)[k] == t);
    }
    assert(a.push(x)[a.len() as int] == x);
}

proof fn lemma_more_noted(a: Seq<(ResourceIdView, Seq<char>)>, x: ResourceIdView, note: Seq<char>)
    ensures
        forall|t: ResourceIdView| #[trigger]
            noted_ids(a).contains(t) ==> noted_ids(a.push((x, note))).contains(t),
        noted_ids(a.push((x, note))).contains(x),
{
    assert(noted_ids(a.push((x, note))) =~= noted_ids(a).push(x));
    lemma_more(noted_ids(a), x);
}

proof fn lemma_accounts_grow(v: CleanupView, n: CleanupView)
    requires
        n.targets == v.targets,
        n.deleted == v.deleted || n.deleted == v.deleted.push(v.targets[v.at]),
        n.skipped == v.skipped || (n.skipped.len() == v.skipped.len() + 1 && n.skipped
            == v.skipped.push((v.targets[v.at], n.skipped.last().1))),
        n.failed == v.failed || (n.failed.len() == v.failed.len() + 1 && n.failed
            == v.failed.push((v.targets[v.at], n.failed.last().1))),
    ensures
        forall|t: ResourceIdView| #[trigger] is_accounted(v, t) ==> is_accounted(n, t),
        n.deleted != v.deleted || n.skipped != v.skipped || n.failed != v.failed ==> is_accounted(
            n,
            v.targets[v.at],
        ),
{
    let x = v.targets[v.at];
    lemma_more(v.deleted, x);
    if n.skipped.len() > 0 {
        lemma_more_noted(v.skipped, x, n.skipped.last().1);
    }
    if n.failed.len() > 0 {
        lemma_more_noted(v.failed, x, n.failed.last().1);
    }
}

/// No object is lost: each one that has had its turn stands among the deleted, the
/// passed over or the failed, after every step.
pub proof fn law_no_object_is_lost(v: CleanupView, e: CleanupEvent)
    requires
        cleanup_fits(v),
        turns_accounted(v),
    ensures
        turns_accounted(cleanup_next(v, e)),
{
    let n = cleanup_next(v, e);
    let x = v.targets[v.at];
    if n.skipped != v.skipped {
        assert(n.skipped =~= v.skipped.push((x, n.skipped.last().1)));
    }
    if n.failed != v.failed {
        assert(n.failed =~= v.failed.push((x, n.failed.last().1)));
    }
    lemma_accounts_grow(v, n);
    assert(v.deleted.push(x).len() != v.deleted.len());
    if let StageView::Checkpoint { result, .. } = n.stage {
        if !(result is DeleteRequested) {
            assert(n.at == v.at);
            if n.deleted == v.deleted && n.failed == v.failed {
                match e {
                    CleanupEvent::Outcome(o) => {
                        match o@ {
                            DeleteResultView::Unknown(r) => {
                                assert(v.failed.push((x, r)).len() != v.failed.len());
                            },
                            DeleteResultView::Rejected(r) => {
                                assert(v.failed.push((x, r)).len() != v.failed.len());
                            },
                            DeleteResultView::Blocked(r) => {
                                assert(v.failed.push((x, r)).len() != v.failed.len());
                            },
                            _ => {},
                        }
                    },
                    _ => {},
                }
                assert(n == v);
            }
        }
    }
    assert forall|i: int| 0 <= i < n.at && i < n.targets.len() implies is_accounted(
        n,
        #[trigger] n.targets[i],
    ) by {
        if i < v.at {
            assert(is_accounted(v, v.targets[i]));
        }
    }
}

/// A cleanup begins with nothing to account for but what was passed over.
pub proof fn law_beginning_is_accounted(selected: Seq<ResourceId>, audit: ResidualAudit)
    ensures
        turns_accounted(begun(selected, audit)),
        cleanup_fits(begun(selected, audit)),
{
}

/// The cleanup after it was told one thing after the other.
pub open spec fn cleanup_after(v: CleanupView, events: Seq<CleanupEvent>) -> CleanupView
    decreases events.len(),
{
    if events.len() == 0 {
        v
    } else {
        cleanup_next(cleanup_after(v, events.drop_last()), events.last())
    }
}

/// As long as nothing was passed over and nothing failed, the deleted objects are those that
/// have had their turn, in order.
pub open spec fn deletes_in_order(v: CleanupView) -> bool {
    v.skipped.len() == 0 && v.failed.len() == 0 ==> match v.stage {
        StageView::Finished => v.deleted == v.targets,
        StageView::Stopped(_) => true,
        StageView::Checkpoint { result, stop } => if result is DeleteRequested {
            v.deleted == v.targets.take(v.at)
        } else {
            !stop && v.deleted == v.targets.take(v.at + 1)
        },
        _ => v.deleted == v.targets.take(v.at),
    }
}

proof fn lemma_stays_in_order(v: CleanupView, e: CleanupEvent)
    requires
        cleanup_fits(v),
        deletes_in_order(v),
    ensures
        cleanup_fits(cleanup_next(v, e)),
        deletes_in_order(cleanup_next(v, e)),
        cleanup_next(v, e).targets == v.targets,
        cleanup_next(v, e).skipped.len() >= v.skipped.len(),
        cleanup_next(v, e).failed.len() >= v.failed.len(),
{
    if !is_over(v.stage) {
        assert(v.targets.take(v.at).push(v.targets[v.at]) =~= v.targets.take(v.at + 1));
        if v.at + 1 >= v.targets.len() {
            assert(v.targets.take(v.at + 1) =~= v.targets);
        }
    }
}

proof fn lemma_in_order_throughout(v: CleanupView, events: Seq<CleanupEvent>)
    requires
        cleanup_fits(v),
        deletes_in_order(v),
    ensures
        cleanup_fits(cleanup_after(v, events)),
        deletes_in_order(cleanup_after(v, events)),
        cleanup_after(v, events).targets == v.targets,
        cleanup_after(v, events).skipped.len() >= v.skipped.len(),
    decreases events.len(),
{
    if events.len() > 0 {
        lemma_in_order_throughout(v, events.drop_last());
        lemma_stays_in_order(cleanup_after(v, events.drop_last()), events.last());
    }
}

proof fn lemma_all_eligible(selected: Seq<ResourceId>, audit: ResidualAudit)
    requires
        ineligible(selected, audit).len() == 0,
    ensures
        eligible(selected, audit) == ids(selected),
    decreases selected.len(),
{
    if selected.len() > 0 {
        let front = selected.drop_last();
        lemma_all_eligible(front, audit);
        assert(ids(selected) =~= ids(front).push(selected.last()@));
    } else {
        assert(ids(selected) =~= seq![]);
    }
}

/// A cleanup that ends without an objection has deleted exactly what was selected, in the
/// order of the selection, whatever it was told on the way.
pub proof fn law_completed_cleanup_deleted_the_selection(
    selected: Seq<ResourceId>,
    audit: ResidualAudit,
    events: Seq<CleanupEvent>,
    decisions: Seq<CleanupDecision>,
    status: ResidualStatus,
)
    requires
        cleanup_after(begun(selected, audit), events).stage is Finished,
        ({
            let v = cleanup_after(begun(selected, audit), events);
            let left_over = v.skipped.len() > 0 || v.failed.len() > 0;
            final_objection(final_state(decisions, status, left_over), v) is None
        }),
    ensures
        cleanup_after(begun(selected, audit), events).deleted == ids(selected),
{
    let v = begun(selected, audit);
    assert(v.targets.take(0) =~= seq![]);
    if v.targets.len() == 0 {
        assert(v.targets =~= seq![]);
    }
    lemma_in_order_throughout(v, events);
    lemma_all_eligible(selected, audit);
}

} // verus!
