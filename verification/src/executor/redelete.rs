//! Deleting again what took the place of an object whose DELETE was taken.

use vstd::prelude::*;
use vstd::string::*;

use crate::cluster::{error_text, has_code, live_uid, or_empty, GetReply, RequestError};
use crate::executor::deletion::status_text;
use crate::journal::records::ReDeleteResultView;
use crate::journal::ReDeleteResult;
use crate::text::same;

verus! {

/// How often a phase deletes again what was recreated.
pub const MAX_REDELETE_ITERATIONS: u32 = 3;

/// How an attempt to delete again ended.
#[derive(Debug)]
pub enum ReDeleteAttemptResult {
    /// The API server took the DELETE. The object need not be gone yet.
    Accepted,
    /// The object is not there, and its endpoint is.
    Gone,
    /// The object is on its way out; nothing was sent.
    AlreadyDeleting,
    /// Nothing more may be deleted.
    Stop(String),
}

/// The contents of a [`ReDeleteAttemptResult`].
#[verifier::ext_equal]
pub enum AttemptView {
    Accepted,
    Gone,
    AlreadyDeleting,
    Stop(Seq<char>),
}

impl View for ReDeleteAttemptResult {
    type V = AttemptView;

    open spec fn view(&self) -> AttemptView {
        match self {
            ReDeleteAttemptResult::Accepted => AttemptView::Accepted,
            ReDeleteAttemptResult::Gone => AttemptView::Gone,
            ReDeleteAttemptResult::AlreadyDeleting => AttemptView::AlreadyDeleting,
            ReDeleteAttemptResult::Stop(s) => AttemptView::Stop(s@),
        }
    }
}

/// What comes next in an attempt to delete again.
#[derive(Debug)]
pub enum ReDeleteStep {
    /// The attempt is over.
    Done(ReDeleteAttemptResult),
    /// List one object of the kind, to tell an absent object from an absent endpoint.
    VerifyEndpoint,
    /// Write down the leave to delete `live_uid`, and send a DELETE bound to it.
    Authorize { live_uid: String },
}

/// The contents of a [`ReDeleteStep`].
#[verifier::ext_equal]
pub enum ReDeleteStepView {
    Done(AttemptView),
    VerifyEndpoint,
    Authorize { live_uid: Seq<char> },
}

impl View for ReDeleteStep {
    type V = ReDeleteStepView;

    open spec fn view(&self) -> ReDeleteStepView {
        match self {
            ReDeleteStep::Done(r) => ReDeleteStepView::Done(r@),
            ReDeleteStep::VerifyEndpoint => ReDeleteStepView::VerifyEndpoint,
            ReDeleteStep::Authorize { live_uid } => ReDeleteStepView::Authorize {
                live_uid: live_uid@,
            },
        }
    }
}

/// What follows on the answer to the GET. Only what that answer says counts, not
/// the event that reported the recreation.
pub open spec fn redelete_on_get(original_uid: Seq<char>, reply: GetReply) -> ReDeleteStepView {
    match reply {
        GetReply::Failed(e) => if has_code(e, 404) {
            ReDeleteStepView::VerifyEndpoint
        } else {
            ReDeleteStepView::Done(AttemptView::Stop("GET failed: "@ + error_text(e)))
        },
        GetReply::Found(o) => if live_uid(o).len() == 0 {
            ReDeleteStepView::Done(AttemptView::Stop("live resource has no UID"@))
        } else if live_uid(o) == original_uid {
            ReDeleteStepView::Done(
                AttemptView::Stop("live UID matches original — not recreated"@),
            )
        } else if o.terminating {
            ReDeleteStepView::Done(AttemptView::AlreadyDeleting)
        } else {
            ReDeleteStepView::Authorize { live_uid: live_uid(o) }
        },
    }
}

/// What follows on the answer to the GET.
pub fn after_redelete_get(original_uid: &str, reply: &GetReply) -> (r: ReDeleteStep)
    ensures
        r@ == redelete_on_get(original_uid@, *reply),
{
    match reply {
        GetReply::Failed(e) => if e.has_code(404) {
            ReDeleteStep::VerifyEndpoint
        } else {
            ReDeleteStep::Done(
                ReDeleteAttemptResult::Stop("GET failed: ".to_owned().concat(e.text())),
            )
        },
        GetReply::Found(o) => {
            let uid = or_empty(&o.uid);
            if uid.is_empty() {
                ReDeleteStep::Done(
                    ReDeleteAttemptResult::Stop("live resource has no UID".to_owned()),
                )
            } else if same(uid, original_uid) {
                ReDeleteStep::Done(
                    ReDeleteAttemptResult::Stop(
                        "live UID matches original — not recreated".to_owned(),
                    ),
                )
            } else if o.terminating {
                ReDeleteStep::Done(ReDeleteAttemptResult::AlreadyDeleting)
            } else {
                ReDeleteStep::Authorize { live_uid: uid.to_owned() }
            }
        },
    }
}

/// How the attempt ends where the object was not there.
pub open spec fn redelete_on_endpoint(list: Result<(), RequestError>) -> AttemptView {
    match list {
        Ok(_) => AttemptView::Gone,
        Err(e) => AttemptView::Stop("404 but endpoint check failed: "@ + error_text(e)),
    }
}

/// How the attempt ends where the object was not there.
pub fn after_redelete_endpoint(list: &Result<(), RequestError>) -> (r: ReDeleteAttemptResult)
    ensures
        r@ == redelete_on_endpoint(*list),
{
    match list {
        Ok(_) => ReDeleteAttemptResult::Gone,
        Err(e) => ReDeleteAttemptResult::Stop(
            "404 but endpoint check failed: ".to_owned().concat(e.text()),
        ),
    }
}

/// What the answer to the DELETE says; `None` where the endpoint is to be looked at.
pub open spec fn redelete_outcome(reply: Result<(), RequestError>) -> Option<ReDeleteResultView> {
    match reply {
        Ok(_) => Some(ReDeleteResultView::Accepted),
        Err(e) => if has_code(e, 404) {
            None
        } else if e is Status && e->Status_code >= 500 {
            Some(ReDeleteResultView::UnknownOutcome(status_text(e)))
        } else {
            Some(ReDeleteResultView::Failed(error_text(e)))
        },
    }
}

/// What the answer to the DELETE says; `None` where the endpoint is to be looked at.
pub fn after_redelete(reply: &Result<(), RequestError>) -> (r: Option<ReDeleteResult>)
    ensures
        match r {
            Some(x) => redelete_outcome(*reply) == Some(x@),
            None => redelete_outcome(*reply) is None,
        },
{
    match reply {
        Ok(_) => Some(ReDeleteResult::Accepted),
        Err(e) => match e {
            RequestError::Status { code, reason, message, .. } => if *code == 404 {
                None
            } else if *code >= 500 {
                Some(
                    ReDeleteResult::UnknownOutcome(
                        reason.clone().concat(": ").concat(message.as_str()),
                    ),
                )
            } else {
                Some(ReDeleteResult::Failed(e.text().to_owned()))
            },
            RequestError::Other { text } => Some(ReDeleteResult::Failed(text.clone())),
        },
    }
}

/// What came of a DELETE that found nothing.
pub open spec fn redelete_absent(list: Result<(), RequestError>) -> ReDeleteResultView {
    match list {
        Ok(_) => ReDeleteResultView::Gone,
        Err(e) => ReDeleteResultView::UnknownOutcome(
            "DELETE 404 endpoint check failed: "@ + error_text(e),
        ),
    }
}

/// What came of a DELETE that found nothing.
pub fn after_absent_redelete(list: &Result<(), RequestError>) -> (r: ReDeleteResult)
    ensures
        r@ == redelete_absent(*list),
{
    match list {
        Ok(_) => ReDeleteResult::Gone,
        Err(e) => ReDeleteResult::UnknownOutcome(
            "DELETE 404 endpoint check failed: ".to_owned().concat(e.text()),
        ),
    }
}

/// How the attempt ends with what came of the DELETE.
pub open spec fn attempt_of(result: ReDeleteResultView) -> AttemptView {
    match result {
        ReDeleteResultView::Accepted => AttemptView::Accepted,
        ReDeleteResultView::Gone => AttemptView::Gone,
        ReDeleteResultView::Failed(r) => AttemptView::Stop(r),
        ReDeleteResultView::UnknownOutcome(r) => AttemptView::Stop(r),
        ReDeleteResultView::Authorized => AttemptView::Stop("unexpected result"@),
    }
}

/// How the attempt ends with what came of the DELETE.
pub fn conclude_redelete(result: &ReDeleteResult) -> (r: ReDeleteAttemptResult)
    ensures
        r@ == attempt_of(result@),
{
    match result {
        ReDeleteResult::Accepted => ReDeleteAttemptResult::Accepted,
        ReDeleteResult::Gone => ReDeleteAttemptResult::Gone,
        ReDeleteResult::Failed(s) => ReDeleteAttemptResult::Stop(s.clone()),
        ReDeleteResult::UnknownOutcome(s) => ReDeleteAttemptResult::Stop(s.clone()),
        ReDeleteResult::Authorized => ReDeleteAttemptResult::Stop("unexpected result".to_owned()),
    }
}

/// Why an attempt to delete again could not be made.
#[derive(Debug)]
pub enum ReDeleteObstacle {
    UnresolvedApi,
    GateClosed,
    /// The leave could not be written down.
    NotRecorded(String),
    /// What came of the DELETE could not be written down.
    NotSettled(String),
}

/// How an attempt ends at an obstacle.
pub open spec fn obstacle_text(o: ReDeleteObstacle) -> Seq<char> {
    match o {
        ReDeleteObstacle::UnresolvedApi => "cannot resolve API"@,
        ReDeleteObstacle::GateClosed => "gate closed"@,
        ReDeleteObstacle::NotRecorded(e) => "journal persist failed: "@ + e@,
        ReDeleteObstacle::NotSettled(e) => "post-mutation journal checkpoint failed: "@ + e@,
    }
}

/// How an attempt ends at an obstacle.
pub fn obstructed(o: &ReDeleteObstacle) -> (r: ReDeleteAttemptResult)
    ensures
        r@ == AttemptView::Stop(obstacle_text(*o)),
{
    ReDeleteAttemptResult::Stop(
        match o {
            ReDeleteObstacle::UnresolvedApi => "cannot resolve API".to_owned(),
            ReDeleteObstacle::GateClosed => "gate closed".to_owned(),
            ReDeleteObstacle::NotRecorded(e) => "journal persist failed: ".to_owned().concat(
                e.as_str(),
            ),
            ReDeleteObstacle::NotSettled(
                e,
            ) => "post-mutation journal checkpoint failed: ".to_owned().concat(e.as_str()),
        },
    )
}

/// What an attempt to delete again waits for.
#[derive(Debug)]
pub enum ReDeleteStage {
    /// The GET of the object.
    Look,
    /// The list of one object of the kind, where the object was not found.
    LookEndpoint,
    /// A permit to delete the object under this UID.
    Permit { live_uid: String },
    /// The leave to be written down.
    Record { live_uid: String },
    /// The answer to the DELETE.
    Delete { live_uid: String },
    /// The list of one object of the kind, where the DELETE found nothing.
    DeleteEndpoint { live_uid: String },
    /// What came of the DELETE to be written down.
    Settle { live_uid: String, result: ReDeleteResult },
    /// Nothing: the attempt is over.
    Done(ReDeleteAttemptResult),
}

/// The contents of a [`ReDeleteStage`].
#[verifier::ext_equal]
pub enum ReDeleteStageView {
    Look,
    LookEndpoint,
    Permit(Seq<char>),
    Record(Seq<char>),
    Delete(Seq<char>),
    DeleteEndpoint(Seq<char>),
    Settle(Seq<char>, ReDeleteResultView),
    Done(AttemptView),
}

impl View for ReDeleteStage {
    type V = ReDeleteStageView;

    open spec fn view(&self) -> ReDeleteStageView {
        match self {
            ReDeleteStage::Look => ReDeleteStageView::Look,
            ReDeleteStage::LookEndpoint => ReDeleteStageView::LookEndpoint,
            ReDeleteStage::Permit { live_uid } => ReDeleteStageView::Permit(live_uid@),
            ReDeleteStage::Record { live_uid } => ReDeleteStageView::Record(live_uid@),
            ReDeleteStage::Delete { live_uid } => ReDeleteStageView::Delete(live_uid@),
            ReDeleteStage::DeleteEndpoint { live_uid } => ReDeleteStageView::DeleteEndpoint(
                live_uid@,
            ),
            ReDeleteStage::Settle { live_uid, result } => ReDeleteStageView::Settle(
                live_uid@,
                result@,
            ),
            ReDeleteStage::Done(r) => ReDeleteStageView::Done(r@),
        }
    }
}

/// What an attempt to delete again is told.
#[derive(Debug)]
pub enum ReDeleteEvent {
    /// The kind of the object is not known to discovery.
    Unresolved,
    /// The reply to the GET.
    Reply(GetReply),
    /// The answer to the list of one object.
    Listed(Result<(), RequestError>),
    /// Whether a permit was given.
    Permit(bool),
    /// Whether what was to be written down stands in the journal.
    Recorded(Result<(), String>),
    /// The answer to the DELETE.
    Answered(Result<(), RequestError>),
}

/// The attempt stopped at an obstacle.
pub open spec fn obstructed_at(o: ReDeleteObstacle) -> ReDeleteStageView {
    ReDeleteStageView::Done(AttemptView::Stop(obstacle_text(o)))
}

/// The stage of an attempt after it was told something; `original_uid` is the UID
/// whose DELETE was taken first. What it does not wait for changes nothing.
pub open spec fn redelete_next(
    original_uid: Seq<char>,
    s: ReDeleteStageView,
    e: ReDeleteEvent,
) -> ReDeleteStageView {
    match (s, e) {
        (ReDeleteStageView::Look, ReDeleteEvent::Unresolved) => obstructed_at(
            ReDeleteObstacle::UnresolvedApi,
        ),
        (ReDeleteStageView::Look, ReDeleteEvent::Reply(reply)) => match redelete_on_get(
            original_uid,
            reply,
        ) {
            ReDeleteStepView::Done(r) => ReDeleteStageView::Done(r),
            ReDeleteStepView::VerifyEndpoint => ReDeleteStageView::LookEndpoint,
            ReDeleteStepView::Authorize { live_uid } => ReDeleteStageView::Permit(live_uid),
        },
        (ReDeleteStageView::LookEndpoint, ReDeleteEvent::Listed(list)) => ReDeleteStageView::Done(
            redelete_on_endpoint(list),
        ),
        (ReDeleteStageView::Permit(uid), ReDeleteEvent::Permit(given)) => if given {
            ReDeleteStageView::Record(uid)
        } else {
            obstructed_at(ReDeleteObstacle::GateClosed)
        },
        (ReDeleteStageView::Record(uid), ReDeleteEvent::Recorded(written)) => match written {
            Ok(_) => ReDeleteStageView::Delete(uid),
            Err(why) => obstructed_at(ReDeleteObstacle::NotRecorded(why)),
        },
        (ReDeleteStageView::Delete(uid), ReDeleteEvent::Answered(reply)) => match redelete_outcome(
            reply,
        ) {
            Some(result) => ReDeleteStageView::Settle(uid, result),
            None => ReDeleteStageView::DeleteEndpoint(uid),
        },
        (
            ReDeleteStageView::DeleteEndpoint(uid),
            ReDeleteEvent::Listed(list),
        ) => ReDeleteStageView::Settle(uid, redelete_absent(list)),
        (
            ReDeleteStageView::Settle(_, result),
            ReDeleteEvent::Recorded(written),
        ) => match written {
            Ok(_) => ReDeleteStageView::Done(attempt_of(result)),
            Err(why) => obstructed_at(ReDeleteObstacle::NotSettled(why)),
        },
        _ => s,
    }
}

/// An attempt to delete an object that took the place of one whose DELETE was taken.
#[derive(Debug)]
pub struct ReDeleteRun {
    /// The UID whose DELETE was taken first.
    pub original_uid: String,
    pub stage: ReDeleteStage,
}

impl ReDeleteRun {
    /// An attempt that begins.
    pub fn new(original_uid: String) -> (r: ReDeleteRun)
        ensures
            r.original_uid == original_uid,
            r.stage@ is Look,
    {
        ReDeleteRun { original_uid, stage: ReDeleteStage::Look }
    }

    /// Tells the attempt what came of what it waits for.
    pub fn step(self, event: ReDeleteEvent) -> (r: ReDeleteRun)
        ensures
            r.original_uid == self.original_uid,
            r.stage@ == redelete_next(self.original_uid@, self.stage@, event),
    {
        let ReDeleteRun { original_uid, stage } = self;
        let stage = match stage {
            ReDeleteStage::Look => match event {
                ReDeleteEvent::Unresolved => ReDeleteStage::Done(
                    obstructed(&ReDeleteObstacle::UnresolvedApi),
                ),
                ReDeleteEvent::Reply(reply) => match after_redelete_get(
                    original_uid.as_str(),
                    &reply,
                ) {
                    ReDeleteStep::Done(r) => ReDeleteStage::Done(r),
                    ReDeleteStep::VerifyEndpoint => ReDeleteStage::LookEndpoint,
                    ReDeleteStep::Authorize { live_uid } => ReDeleteStage::Permit { live_uid },
                },
                _ => ReDeleteStage::Look,
            },
            ReDeleteStage::LookEndpoint => match event {
                ReDeleteEvent::Listed(list) => ReDeleteStage::Done(after_redelete_endpoint(&list)),
                _ => ReDeleteStage::LookEndpoint,
            },
            ReDeleteStage::Permit { live_uid } => match event {
                ReDeleteEvent::Permit(given) => if given {
                    ReDeleteStage::Record { live_uid }
                } else {
                    ReDeleteStage::Done(obstructed(&ReDeleteObstacle::GateClosed))
                },
                _ => ReDeleteStage::Permit { live_uid },
            },
            ReDeleteStage::Record { live_uid } => match event {
                ReDeleteEvent::Recorded(written) => match written {
                    Ok(_) => ReDeleteStage::Delete { live_uid },
                    Err(why) => ReDeleteStage::Done(
                        obstructed(&ReDeleteObstacle::NotRecorded(why)),
                    ),
                },
                _ => ReDeleteStage::Record { live_uid },
            },
            ReDeleteStage::Delete { live_uid } => match event {
                ReDeleteEvent::Answered(reply) => match after_redelete(&reply) {
                    Some(result) => ReDeleteStage::Settle { live_uid, result },
                    None => ReDeleteStage::DeleteEndpoint { live_uid },
                },
                _ => ReDeleteStage::Delete { live_uid },
            },
            ReDeleteStage::DeleteEndpoint { live_uid } => match event {
                ReDeleteEvent::Listed(list) => ReDeleteStage::Settle {
                    live_uid,
                    result: after_absent_redelete(&list),
                },
                _ => ReDeleteStage::DeleteEndpoint { live_uid },
            },
            ReDeleteStage::Settle { live_uid, result } => match event {
                ReDeleteEvent::Recorded(written) => match written {
                    Ok(_) => ReDeleteStage::Done(conclude_redelete(&result)),
                    Err(why) => ReDeleteStage::Done(
                        obstructed(&ReDeleteObstacle::NotSettled(why)),
                    ),
                },
                _ => ReDeleteStage::Settle { live_uid, result },
            },
            ReDeleteStage::Done(r) => ReDeleteStage::Done(r),
        };
        ReDeleteRun { original_uid, stage }
    }
}

/// The way to a further DELETE: an object that is there under a new UID, a permit, the
/// leave written down under that UID.
pub proof fn law_way_to_a_further_delete(
    original_uid: Seq<char>,
    s: ReDeleteStageView,
    e: ReDeleteEvent,
)
    ensures
        ({
            let n = redelete_next(original_uid, s, e);
            &&& n is Permit && !(s is Permit) ==> s is Look && (e matches ReDeleteEvent::Reply(
                reply,
            ) && redelete_on_get(original_uid, reply) == (ReDeleteStepView::Authorize {
                live_uid: n->Permit_0,
            }))
            &&& n is Record && !(s is Record) ==> s == ReDeleteStageView::Permit(n->Record_0) && e
                == ReDeleteEvent::Permit(true)
            &&& n is Delete && !(s is Delete) ==> s == ReDeleteStageView::Record(n->Delete_0) && (
            e matches ReDeleteEvent::Recorded(w) && w is Ok)
        }),
{
}

/// A DELETE that was sent is settled in the journal before the attempt ends, or the
/// attempt ends in a stop; and an attempt that is over stays so.
pub proof fn law_further_delete_is_settled(
    original_uid: Seq<char>,
    s: ReDeleteStageView,
    e: ReDeleteEvent,
)
    ensures
        ({
            let n = redelete_next(original_uid, s, e);
            &&& s is Delete || s is DeleteEndpoint ==> !(n is Done)
            &&& s is Settle && n is Done && !(n->Done_0 is Stop) ==> (
            e matches ReDeleteEvent::Recorded(w) && w is Ok && n->Done_0 == attempt_of(
                s->Settle_1,
            ))
            &&& s is Done ==> n == s
        }),
{
}

/// A further DELETE is sent only to an object that is there, has a UID other
/// than the first one, and is not on its way out; it is bound to that UID.
pub proof fn law_redelete_needs_a_new_object(original_uid: Seq<char>, reply: GetReply)
    requires
        redelete_on_get(original_uid, reply) is Authorize,
    ensures
        reply is Found,
        !reply->Found_0.terminating,
        live_uid(reply->Found_0).len() > 0,
        live_uid(reply->Found_0) != original_uid,
        redelete_on_get(original_uid, reply)->live_uid == live_uid(reply->Found_0),
{
}

} // verus!
