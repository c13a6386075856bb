//! What the answers of the API server to a GET and a DELETE mean, and how the
//! waves of DELETEs go by them.

use vstd::prelude::*;
use vstd::string::*;

use crate::cluster::{GetReply, LiveObject, RequestError};
use crate::executor::deletion::{
    denial_words, identity_fault, result_on_endpoint, state_after, step_on_delete, step_on_get,
    AbsentAfter, DeleteResult, DeleteResultView, DeleteStepView,
};
use crate::executor::waves::{
    authorities, by_recreation, gone_before, halting, object_key, taken, turned_down, was_recreated,
    wave_next, wave_settled, without, WaveAnswer, WaveEvent, WaveView,
};
use crate::lists::{all_noted, ids, lemma_contains_add, lemma_pick_members, pick};
use crate::resource::{ResourceId, ResourceIdView};
use crate::text::{law_occurs, lower_text, opt_text};
use crate::watch::{ResourceRuntimeState, WatchWaitResult};

verus! {

/// The UID check passes where the plan has a UID, the live object has a UID, neither
/// is empty, and they are the same; and nowhere else. What is wrong is said in words:
/// that the plan has none, that the object has none, or both UIDs.
pub proof fn law_uid_check(plan_uid: Option<Seq<char>>, live: Seq<char>)
    ensures
        plan_uid is None || plan_uid == Some(Seq::<char>::empty()) ==> identity_fault(plan_uid, live)
            == Some("plan resource has no UID — cannot verify identity for safe DELETE"@),
        plan_uid is Some && plan_uid->0.len() > 0 && live.len() == 0 ==> identity_fault(
            plan_uid,
            live,
        ) == Some("live resource has no UID — cannot verify identity for safe DELETE"@),
        plan_uid is Some && plan_uid->0.len() > 0 && live.len() > 0 && plan_uid->0 != live
            ==> identity_fault(plan_uid, live) == Some(
            "UID mismatch: plan expected "@ + plan_uid->0 + " but found "@ + live
                + " — resource may have been recreated"@,
        ),
        plan_uid == Some(live) && live.len() > 0 ==> identity_fault(plan_uid, live) is None,
{
}

/// A DELETE goes out for an object that is no Subscription of the operator lifecycle
/// manager exactly where the object was found under the planned UID, which is not
/// empty; it is bound to that UID and to no resource version. An object that was
/// found under another UID, or under none, is blocked.
pub proof fn law_found_object(id: ResourceIdView, package: Option<Seq<char>>, o: LiveObject)
    requires
        id.kind != "Subscription"@ || id.group != "operators.coreos.com"@,
    ensures
        ({
            let step = step_on_get(id, package, GetReply::Found(o));
            let same = id.uid is Some && id.uid->0.len() > 0 && opt_text(o.uid) == id.uid;
            &&& same ==> step == (DeleteStepView::SendDelete {
                uid: id.uid->0,
                resource_version: None,
            })
            &&& !same ==> step is Done && step->Done_0 is Blocked
        }),
{
}

/// A DELETE goes out for a Subscription of the operator lifecycle manager exactly
/// where, besides, its package is the expected one, which is not empty, and it has a
/// resource version; the DELETE is then bound to that version too. Otherwise the
/// Subscription is blocked.
pub proof fn law_found_subscription(id: ResourceIdView, package: Option<Seq<char>>, o: LiveObject)
    requires
        id.kind == "Subscription"@,
        id.group == "operators.coreos.com"@,
    ensures
        ({
            let step = step_on_get(id, package, GetReply::Found(o));
            let same = id.uid is Some && id.uid->0.len() > 0 && opt_text(o.uid) == id.uid;
            let expected = package is Some && package->0.len() > 0 && opt_text(o.spec_name)
                == package;
            let versioned = o.resource_version is Some && o.resource_version->0@.len() > 0;
            &&& same && expected && versioned ==> step == (DeleteStepView::SendDelete {
                uid: id.uid->0,
                resource_version: Some(o.resource_version->0@),
            })
            &&& !(same && expected && versioned) ==> step is Done && step->Done_0 is Blocked
        }),
{
}

/// A GET that answers 404 leads to a look at the endpoint; one that answers 401 or
/// 403 blocks the DELETE; after any other failure nobody knows. A DELETE is never
/// sent after a GET that failed.
pub proof fn law_failed_get(id: ResourceIdView, package: Option<Seq<char>>, e: RequestError)
    ensures
        ({
            let step = step_on_get(id, package, GetReply::Failed(e));
            &&& e matches RequestError::Status { code, message, .. } ==> {
                &&& code == 404 ==> step == DeleteStepView::VerifyEndpoint(AbsentAfter::Get)
                &&& code == 401 || code == 403 ==> step == DeleteStepView::Done(
                    DeleteResultView::Blocked("pre-delete GET: "@ + message@),
                )
                &&& code != 404 && code != 401 && code != 403
                    ==> step is Done && step->Done_0 is Unknown
            }
            &&& e is Other ==> step is Done && step->Done_0 is Unknown
            &&& !(step is SendDelete)
        }),
{
}

/// What the answer to a DELETE means. A DELETE that succeeded was taken. 404 leads to
/// a look at the endpoint. 409 and 401 block. 403 blocks as well, except where the
/// message, in lower case, speaks of an admission webhook and of a denial: then the
/// DELETE was turned down. 400 and 422 turn it down. After anything else nobody
/// knows.
pub proof fn law_answer_to_a_delete(semantic: bool, reply: Result<(), RequestError>)
    ensures
        ({
            let step = step_on_delete(semantic, reply);
            &&& reply is Ok <==> step == DeleteStepView::Done(DeleteResultView::Accepted)
            &&& reply matches Err(RequestError::Status { code, reason, message, .. }) ==> {
                let said = reason@ + ": "@ + message@;
                let denied = denial_words(lower_text(message@));
                &&& code == 404 <==> step == DeleteStepView::VerifyEndpoint(AbsentAfter::Delete)
                &&& code == 409 ==> step is Done && step->Done_0 is Blocked
                &&& code == 401 ==> step == DeleteStepView::Done(DeleteResultView::Blocked(said))
                &&& code == 403 && !denied ==> step == DeleteStepView::Done(
                    DeleteResultView::Blocked(said),
                )
                &&& code == 403 && denied ==> step == DeleteStepView::Done(
                    DeleteResultView::Rejected(said),
                )
                &&& code == 400 || code == 422 ==> step == DeleteStepView::Done(
                    DeleteResultView::Rejected(said),
                )
                &&& code >= 500 ==> step == DeleteStepView::Done(DeleteResultView::Unknown(said))
                &&& code < 500 && code != 404 && code != 409 && code != 401 && code != 403 && code
                    != 400 && code != 422 ==> step is Done && step->Done_0 is Unknown
            }
            &&& reply matches Err(RequestError::Other { text }) ==> step == DeleteStepView::Done(
                DeleteResultView::Unknown(text@),
            )
        }),
{
}

/// A text speaks of a denial by an admission webhook exactly where both `admission
/// webhook` and `denied` stand in it, with whatever around them.
pub proof fn law_denial_words(
    s: Seq<char>,
    a: Seq<char>,
    b: Seq<char>,
    c: Seq<char>,
    d: Seq<char>,
)
    ensures
        s == a + "admission webhook"@ + b && s == c + "denied"@ + d ==> denial_words(s),
        denial_words(s) ==> (exists|x: Seq<char>, y: Seq<char>|
            s == #[trigger] (x + "admission webhook"@ + y)) && (exists|x: Seq<char>, y: Seq<char>|
            s == #[trigger] (x + "denied"@ + y)),
{
    law_occurs(s, "admission webhook"@, a, b);
    law_occurs(s, "denied"@, c, d);
}

/// An object that was not there is gone where its endpoint is there; where the
/// endpoint is not there either, nobody knows.
pub proof fn law_endpoint_tells(after: AbsentAfter)
    ensures
        result_on_endpoint(after, true) == DeleteResultView::AlreadyGone,
        result_on_endpoint(after, false) is Unknown,
{
}

/// An accepted DELETE leaves an object as requested to go, an absent object as gone,
/// a blocked or unknown one as failed with the reason; one that was turned down
/// leaves it as it was.
pub proof fn law_state_after_a_delete(reason: String)
    ensures
        state_after(DeleteResult::Accepted) == Some(ResourceRuntimeState::DeleteRequested),
        state_after(DeleteResult::AlreadyGone) == Some(ResourceRuntimeState::Gone),
        state_after(DeleteResult::Rejected(reason)) is None,
        state_after(DeleteResult::Blocked(reason)) == Some(
            ResourceRuntimeState::Failed { reason },
        ),
        state_after(DeleteResult::Unknown(reason)) == Some(
            ResourceRuntimeState::Failed { reason },
        ),
{
}

/// The answers of a wave are sorted: what was taken, what was gone already, what was
/// turned down, and what stops the run with its reason. No answer is left out, and
/// nothing is in a place that its answer does not give it. The wave has moved on
/// exactly where something was gone already, and must stop exactly where an answer
/// was blocked or unknown.
pub proof fn law_answers_are_sorted(w: WaveView, a: Seq<WaveAnswer>, i: int)
    requires
        w.stage is Delete,
        0 <= i < a.len(),
    ensures
        ({
            let n = wave_next(w, WaveEvent::Answered(a));
            &&& n.stage is Checkpoint
            &&& n.record
            &&& a[i].1 is Accepted ==> n.accepted.contains(a[i].0)
            &&& a[i].1 is AlreadyGone ==> n.already_gone.contains(a[i].0) && n.progressed
            &&& a[i].1 is Rejected ==> n.rejected.contains(a[i].0)
            &&& a[i].1 matches DeleteResultView::Blocked(why) ==> n.failed.contains((a[i].0, why))
                && n.must_stop
            &&& a[i].1 matches DeleteResultView::Unknown(why) ==> n.failed.contains((a[i].0, why))
                && n.must_stop
            &&& n.accepted_gone == w.accepted_gone
            &&& n.pending.len() == 0
            &&& n.accepted.len() + n.rejected.len() + (n.already_gone.len() - w.already_gone.len())
                + (n.failed.len() - w.failed.len()) == a.len()
        }),
{
    lemma_sorted(a);
    let n = wave_next(w, WaveEvent::Answered(a));
    lemma_contains_add(w.already_gone, gone_before(a), a[i].0);
    if let DeleteResultView::Blocked(why) = a[i].1 {
        lemma_contains_add(w.failed, halting(a), (a[i].0, why));
    }
    if let DeleteResultView::Unknown(why) = a[i].1 {
        lemma_contains_add(w.failed, halting(a), (a[i].0, why));
    }
}

proof fn lemma_sorted(a: Seq<WaveAnswer>)
    ensures
        taken(a).len() + gone_before(a).len() + turned_down(a).len() + halting(a).len() == a.len(),
        forall|i: int|
            0 <= i < a.len() && (#[trigger] a[i]).1 is Accepted ==> taken(a).contains(a[i].0),
        forall|i: int|
            0 <= i < a.len() && (#[trigger] a[i]).1 is AlreadyGone ==> gone_before(a).contains(
                a[i].0,
            ) && gone_before(a).len() > 0,
        forall|i: int|
            0 <= i < a.len() && (#[trigger] a[i]).1 is Rejected ==> turned_down(a).contains(
                a[i].0,
            ),
        forall|i: int|
            0 <= i < a.len() ==> ((#[trigger] a[i]).1 matches DeleteResultView::Blocked(why)
                ==> halting(a).contains((a[i].0, why)) && halting(a).len() > 0),
        forall|i: int|
            0 <= i < a.len() ==> ((#[trigger] a[i]).1 matches DeleteResultView::Unknown(why)
                ==> halting(a).contains((a[i].0, why)) && halting(a).len() > 0),
    decreases a.len(),
{
    if a.len() > 0 {
        let d = a.drop_last();
        lemma_sorted(d);
        let last = a.last();
        assert(taken(a) == if last.1 is Accepted { taken(d).push(last.0) } else { taken(d) });
        assert(gone_before(a) == if last.1 is AlreadyGone {
            gone_before(d).push(last.0)
        } else {
            gone_before(d)
        });
        assert(turned_down(a) == if last.1 is Rejected {
            turned_down(d).push(last.0)
        } else {
            turned_down(d)
        });
        assert forall|i: int| 0 <= i < a.len() && (#[trigger] a[i]).1 is Accepted implies taken(
            a,
        ).contains(a[i].0) by {
            if i < d.len() {
                assert(d[i] == a[i]);
                let k = choose|k: int| 0 <= k < taken(d).len() && taken(d)[k] == a[i].0;
                assert(taken(a)[k] == a[i].0);
            } else {
                assert(taken(a)[taken(d).len() as int] == a[i].0);
            }
        }
        assert forall|i: int|
            0 <= i < a.len() && (#[trigger] a[i]).1 is AlreadyGone implies gone_before(a).contains(
            a[i].0,
        ) && gone_before(a).len() > 0 by {
            if i < d.len() {
                assert(d[i] == a[i]);
                let k = choose|k: int|
                    0 <= k < gone_before(d).len() && gone_before(d)[k] == a[i].0;
                assert(gone_before(a)[k] == a[i].0);
            } else {
                assert(gone_before(a)[gone_before(d).len() as int] == a[i].0);
            }
        }
        assert forall|i: int| 0 <= i < a.len() && (#[trigger] a[i]).1 is Rejected implies turned_down(
            a,
        ).contains(a[i].0) by {
            if i < d.len() {
                assert(d[i] == a[i]);
                let k = choose|k: int|
                    0 <= k < turned_down(d).len() && turned_down(d)[k] == a[i].0;
                assert(turned_down(a)[k] == a[i].0);
            } else {
                assert(turned_down(a)[turned_down(d).len() as int] == a[i].0);
            }
        }
        let f = |x: WaveAnswer|
            match x.1 {
                DeleteResultView::Blocked(reason) => Some((x.0, reason)),
                DeleteResultView::Unknown(reason) => Some((x.0, reason)),
                _ => None,
            };
        lemma_pick_members(a, f);
        assert(halting(a) == pick(a, f));
        assert forall|i: int|
            0 <= i < a.len() && f(#[trigger] a[i]) is Some implies halting(a).contains(
            f(a[i])->0,
        ) && halting(a).len() > 0 by {
            let k = choose|k: int| 0 <= k < halting(a).len() && halting(a)[k] == f(a[i])->0;
        }
        assert forall|i: int| 0 <= i < a.len() implies ((
        #[trigger] a[i]).1 matches DeleteResultView::Blocked(why) ==> halting(a).contains(
            (a[i].0, why),
        ) && halting(a).len() > 0) by {
            if let DeleteResultView::Blocked(why) = a[i].1 {
                assert(f(a[i]) == Some((a[i].0, why)));
            }
        }
        assert forall|i: int| 0 <= i < a.len() implies ((
        #[trigger] a[i]).1 matches DeleteResultView::Unknown(why) ==> halting(a).contains(
            (a[i].0, why),
        ) && halting(a).len() > 0) by {
            if let DeleteResultView::Unknown(why) = a[i].1 {
                assert(f(a[i]) == Some((a[i].0, why)));
            }
        }
    }
}

/// After the answers were written down: where one of them stops the run, the run is
/// over, and what was turned down has failed as well. Otherwise what was taken is
/// waited for. Where nothing was taken the wave is over.
pub proof fn law_recorded_wave(w: WaveView)
    requires
        w.stage is Checkpoint,
    ensures
        ({
            let n = wave_next(w, WaveEvent::Recorded);
            &&& w.must_stop ==> n.stage is Done && n.stopped && n.record && n.accepted_gone
                == w.accepted_gone
            &&& w.must_stop ==> forall|t: ResourceIdView| #[trigger]
                w.rejected.contains(t) ==> n.failed.contains(
                    (t, "phase stopped due to Blocked/Unknown result"@),
                )
            &&& !w.must_stop && w.accepted.len() > 0 ==> n.stage is Wait && n.accepted
                == w.accepted && n.rejected == w.rejected && !n.record
            &&& !w.must_stop && w.accepted.len() == 0 && w.rejected.len() == 0 ==> n.stage is Done
                && n.stopped == w.stopped
            &&& !w.must_stop && w.accepted.len() == 0 && w.rejected.len() > 0 && w.progressed
                ==> n.stage is Delete && n.pending == w.rejected
            &&& !w.must_stop && w.accepted.len() == 0 && w.rejected.len() > 0 && !w.progressed
                ==> n.stage is Done && n.stopped
        }),
{
    let n = wave_next(w, WaveEvent::Recorded);
    let why = "phase stopped due to Blocked/Unknown result"@;
    assert forall|t: ResourceIdView| #[trigger] w.rejected.contains(t) && w.must_stop implies n.failed.contains(
        (t, why),
    ) by {
        lemma_all_noted(w.rejected, why, t);
        lemma_contains_add(w.failed, all_noted(w.rejected, why), (t, why));
    }
}

proof fn lemma_all_noted(s: Seq<ResourceIdView>, why: Seq<char>, t: ResourceIdView)
    requires
        s.contains(t),
    ensures
        all_noted(s, why).contains((t, why)),
{
    let k = choose|k: int| 0 <= k < s.len() && s[k] == t;
    assert(all_noted(s, why)[k] == (t, why));
}

/// A wave that is over: where nothing was turned down, so is the run. What was turned
/// down is tried again, and nothing else is, as long as something has gone in this
/// wave. Where nothing has, the run stops, and everything that was turned down has
/// failed.
pub proof fn law_wave_is_repeated_on_progress(w: WaveView)
    ensures
        ({
            let n = wave_settled(w);
            &&& w.rejected.len() == 0 ==> n.stage is Done && n.stopped == w.stopped && n.failed
                == w.failed
            &&& w.rejected.len() > 0 && w.progressed ==> n.stage is Delete && n.pending
                == w.rejected && n.accepted.len() == 0 && n.rejected.len() == 0 && n.failed
                == w.failed
            &&& w.rejected.len() > 0 && !w.progressed ==> n.stage is Done && n.stopped && n.record
            &&& w.rejected.len() > 0 && !w.progressed ==> forall|t: ResourceIdView| #[trigger]
                w.rejected.contains(t) ==> n.failed.contains(
                    (t, "no progress in delete wave — all targets rejected"@),
                )
            &&& n.accepted_gone == w.accepted_gone
            &&& n.already_gone == w.already_gone
        }),
{
    let n = wave_settled(w);
    let why = "no progress in delete wave — all targets rejected"@;
    assert forall|t: ResourceIdView| #[trigger]
        w.rejected.contains(t) && !w.progressed implies n.failed.contains((t, why)) by {
        assert(w.rejected.len() > 0);
        lemma_all_noted(w.rejected, why, t);
        lemma_contains_add(w.failed, all_noted(w.rejected, why), (t, why));
    }
}

/// What follows on the first wait of a wave. Where all are gone, everything that was
/// taken counts as gone. Where the wait was called off, the run stops. Where it
/// stalled, what is no longer there counts as gone, and what remains is recovered if
/// that may be; otherwise the run stops, and what remains and what was turned down
/// have failed.
pub proof fn law_first_wait(
    w: WaveView,
    result: WatchWaitResult,
    may_recover: bool,
    t: ResourceIdView,
)
    requires
        w.stage is Wait,
    ensures
        ({
            let n = wave_next(w, WaveEvent::Waited(result, may_recover));
            &&& result is AllGone && w.accepted.contains(t) ==> n.accepted_gone.contains(t)
            &&& result is AllGone && w.rejected.len() > 0 && w.accepted.len() > 0 ==> n.stage
                is Delete && n.pending == w.rejected
            &&& result is AllGone && w.rejected.len() == 0 ==> n.stage is Done && n.stopped
                == w.stopped
            &&& result is Cancelled ==> n.stage is Done && n.stopped && n.accepted_gone
                == w.accepted_gone && n.failed == w.failed
            &&& result matches WatchWaitResult::Stalled { remaining, .. } ==> {
                &&& w.accepted.contains(t) && !ids(remaining@).contains(t)
                    ==> n.accepted_gone.contains(t)
                &&& n.accepted_gone.contains(t) && !w.accepted_gone.contains(t)
                    ==> w.accepted.contains(t) && !ids(remaining@).contains(t)
                &&& may_recover && remaining@.len() > 0 ==> n.stage is Recover && n.waiting == ids(
                    remaining@,
                )
                &&& !may_recover || remaining@.len() == 0 ==> n.stage is Done && n.stopped
                &&& !may_recover && ids(remaining@).contains(t) ==> exists|k: int|
                    0 <= k < n.failed.len() && (#[trigger] n.failed[k]).0 == t
                &&& !may_recover && w.rejected.contains(t) ==> exists|k: int|
                    0 <= k < n.failed.len() && (#[trigger] n.failed[k]).0 == t
            }
        }),
{
    let n = wave_next(w, WaveEvent::Waited(result, may_recover));
    lemma_contains_add(w.accepted_gone, w.accepted, t);
    match result {
        WatchWaitResult::Stalled { remaining, reason, .. } => {
            let rest = ids(remaining@);
            let gone = without(w.accepted, rest);
            crate::executor::waves::lemma_without(w.accepted, rest, t);
            lemma_contains_add(w.accepted_gone, gone, t);
            let x = WaveView { stall_reason: reason@, waiting: rest, ..w };
            lemma_stalled_failures(x, rest, t);
            if !may_recover && (rest.contains(t) || w.rejected.contains(t)) {
                let failed = w.failed + all_noted(rest, "barrier stalled: "@ + reason@)
                    + all_noted(w.rejected, "wave stopped — barrier stalled before retry"@);
                let k = choose|k: int| 0 <= k < failed.len() && (#[trigger] failed[k]).0 == t;
                assert(n.failed == failed);
                assert(n.failed[k].0 == t);
            }
        },
        _ => {},
    }
}

proof fn lemma_stalled_failures(w: WaveView, rest: Seq<ResourceIdView>, t: ResourceIdView)
    requires
        w.waiting == rest,
    ensures
        ({
            let failed = w.failed + all_noted(rest, "barrier stalled: "@ + w.stall_reason)
                + all_noted(w.rejected, "wave stopped — barrier stalled before retry"@);
            rest.contains(t) || w.rejected.contains(t) ==> exists|k: int|
                0 <= k < failed.len() && (#[trigger] failed[k]).0 == t
        }),
{
    let a = all_noted(rest, "barrier stalled: "@ + w.stall_reason);
    let b = all_noted(w.rejected, "wave stopped — barrier stalled before retry"@);
    let failed = w.failed + a + b;
    if rest.contains(t) {
        let k = choose|k: int| 0 <= k < rest.len() && rest[k] == t;
        assert(failed[w.failed.len() + k] == a[k]);
    } else if w.rejected.contains(t) {
        let k = choose|k: int| 0 <= k < w.rejected.len() && w.rejected[k] == t;
        assert(failed[w.failed.len() + a.len() + k] == b[k]);
    }
}

/// What follows on the later steps of a wave. Where finalizers were stripped, what
/// remains is waited for once more; otherwise the run stops. Once all are gone, what
/// was waited for counts as gone and the wave is over; otherwise the run stops, and
/// what was waited for has failed. A gate that is closed stops the run.
pub proof fn law_later_steps_of_a_wave(
    w: WaveView,
    result: WatchWaitResult,
    count: Option<usize>,
    t: ResourceIdView,
)
    ensures
        w.stage is Delete ==> wave_next(w, WaveEvent::GateClosed).stage is Done && wave_next(
            w,
            WaveEvent::GateClosed,
        ).stopped && wave_next(w, WaveEvent::GateClosed).accepted_gone == w.accepted_gone,
        w.stage is Recover && count is Some && count->0 > 0 ==> wave_next(
            w,
            WaveEvent::Recovered(count),
        ).stage is WaitRecovered,
        w.stage is Recover && (count is None || count->0 == 0) ==> wave_next(
            w,
            WaveEvent::Recovered(count),
        ).stage is Done && wave_next(w, WaveEvent::Recovered(count)).stopped,
        ({
            let n = wave_next(w, WaveEvent::WaitedAgain(result));
            &&& w.stage is WaitRecovered && result is AllGone && w.waiting.contains(t)
                ==> n.accepted_gone.contains(t)
            &&& w.stage is WaitRecovered && !(result is AllGone) ==> n.stage is Done && n.stopped
                && n.accepted_gone == w.accepted_gone
            &&& w.stage is WaitRecovered && !(result is AllGone) && w.waiting.contains(t)
                ==> exists|k: int| 0 <= k < n.failed.len() && (#[trigger] n.failed[k]).0 == t
            &&& w.stage is Rewait && result is AllGone && w.waiting.contains(t)
                ==> n.accepted_gone.contains(t)
            &&& w.stage is Rewait && (result is Cancelled || result is Stalled) ==> n.stage is Done
                && n.stopped && n.accepted_gone == w.accepted_gone
            &&& w.stage is Rewait && (result is Cancelled || result is Stalled)
                && w.waiting.contains(t) ==> n.failed.contains(
                (t, "wave re-wait stalled/cancelled"@),
            )
        }),
{
    lemma_contains_add(w.accepted_gone, w.waiting, t);
    lemma_stalled_failures(w, w.waiting, t);
    let n = wave_next(w, WaveEvent::WaitedAgain(result));
    if w.stage is WaitRecovered && !(result is AllGone) && w.waiting.contains(t) {
        let failed = w.failed + all_noted(w.waiting, "barrier stalled: "@ + w.stall_reason)
            + all_noted(w.rejected, "wave stopped — barrier stalled before retry"@);
        let k = choose|k: int| 0 <= k < failed.len() && (#[trigger] failed[k]).0 == t;
        assert(n.failed == failed);
        assert(n.failed[k].0 == t);
    }
    crate::lists::lemma_absorbed(w.accepted_gone, w.waiting, t);
    if w.waiting.contains(t) {
        let why = "wave re-wait stalled/cancelled"@;
        lemma_all_noted(w.waiting, why, t);
        lemma_contains_add(w.failed, all_noted(w.waiting, why), (t, why));
    }
}

/// Of what was waited for, that which is no longer there counts as gone, and so does
/// that which was recreated. The rest, and only the rest, is waited for once more;
/// where there is no rest, the wave is over.
pub proof fn law_recreated_counts_as_gone(
    w: WaveView,
    remaining: Vec<ResourceId>,
    recreated: Vec<(ResourceId, String, String)>,
    may_recover: bool,
    t: ResourceIdView,
)
    requires
        w.stage is Wait || w.stage is Rewait,
    ensures
        ({
            let result = WatchWaitResult::Recreated { remaining, recreated };
            let asked = if w.stage is Wait {
                w.accepted
            } else {
                w.waiting
            };
            let n = if w.stage is Wait {
                wave_next(w, WaveEvent::Waited(result, may_recover))
            } else {
                wave_next(w, WaveEvent::WaitedAgain(result))
            };
            let rest = ids(remaining@);
            &&& asked.contains(t) && !rest.contains(t) ==> n.accepted_gone.contains(t)
            &&& rest.contains(t) && was_recreated(recreated@, t) ==> n.accepted_gone.contains(t)
            &&& rest.contains(t) && !was_recreated(recreated@, t) ==> n.stage is Rewait
                && n.waiting.contains(t)
            &&& n.stage is Rewait && n.waiting.contains(t) ==> rest.contains(t) && !was_recreated(
                recreated@,
                t,
            )
            &&& n.accepted_gone.contains(t) && !w.accepted_gone.contains(t) ==> (asked.contains(t)
                && !rest.contains(t)) || (rest.contains(t) && was_recreated(recreated@, t))
            &&& n.failed != w.failed ==> n.stopped
        }),
{
    let asked = if w.stage is Wait {
        w.accepted
    } else {
        w.waiting
    };
    let rest = ids(remaining@);
    let gone = without(asked, rest);
    let again = by_recreation(rest, recreated@, true);
    let still = by_recreation(rest, recreated@, false);
    crate::executor::waves::lemma_without(asked, rest, t);
    lemma_by(rest, recreated@, true, t);
    lemma_by(rest, recreated@, false, t);
    lemma_contains_add(w.accepted_gone, gone, t);
    lemma_contains_add(w.accepted_gone + gone, again, t);
    if still.contains(t) {
        let k = choose|k: int| 0 <= k < still.len() && still[k] == t;
        assert(still.len() > 0);
    }
}

proof fn lemma_by(
    s: Seq<ResourceIdView>,
    recreated: Seq<(ResourceId, String, String)>,
    wanted: bool,
    t: ResourceIdView,
)
    ensures
        by_recreation(s, recreated, wanted).contains(t) <==> s.contains(t) && was_recreated(
            recreated,
            t,
        ) == wanted,
{
    let f = |r: ResourceIdView|
        if was_recreated(recreated, r) == wanted {
            Some(r)
        } else {
            None
        };
    lemma_pick_members(s, f);
    assert(by_recreation(s, recreated, wanted) == pick(s, f));
    if s.contains(t) && was_recreated(recreated, t) == wanted {
        let k = choose|k: int| 0 <= k < s.len() && s[k] == t;
        assert(f(s[k]) == Some(t));
    }
    if pick(s, f).contains(t) {
        let k = choose|k: int| 0 <= k < s.len() && f(#[trigger] s[k]) == Some(t);
        assert(s[k] == t);
    }
}

/// A recreated object is found again under its group, version, kind, namespace and
/// name: the UID does not matter, and two objects that differ in one of these alone
/// are told apart.
pub proof fn law_recreated_object_is_found(
    recreated: Seq<(ResourceId, String, String)>,
    i: int,
    a: ResourceIdView,
    b: ResourceIdView,
)
    ensures
        0 <= i < recreated.len() && recreated[i].0.group@ == a.group && recreated[i].0.version@
            == a.version && recreated[i].0.kind@ == a.kind && recreated[i].0@.namespace
            == a.namespace && recreated[i].0.name@ == a.name ==> was_recreated(recreated, a),
        object_key(a) == object_key(ResourceIdView { uid: b.uid, ..a }),
        object_key(a) == object_key(ResourceIdView { group: b.group, ..a }) ==> a.group
            == b.group,
        object_key(a) == object_key(ResourceIdView { version: b.version, ..a }) ==> a.version
            == b.version,
        object_key(a) == object_key(ResourceIdView { kind: b.kind, ..a }) ==> a.kind == b.kind,
        object_key(a) == object_key(ResourceIdView { namespace: b.namespace, ..a })
            && a.namespace is Some && b.namespace is Some ==> a.namespace == b.namespace,
        object_key(a) == object_key(ResourceIdView { name: b.name, ..a }) ==> a.name == b.name,
{
    if 0 <= i < recreated.len() && recreated[i].0.group@ == a.group && recreated[i].0.version@
        == a.version && recreated[i].0.kind@ == a.kind && recreated[i].0@.namespace == a.namespace
        && recreated[i].0.name@ == a.name {
        assert(object_key(recreated[i].0@) == object_key(a));
    }
    let e = Seq::<char>::empty();
    let s = "/"@;
    let ns = match a.namespace {
        Some(ns) => ns,
        None => "-"@,
    };
    let r3 = s + a.name;
    let r2 = s + ns + r3;
    let r1 = s + a.kind + r2;
    let r0 = s + a.version + r1;
    let p0 = a.group + s;
    let p1 = p0 + a.version + s;
    let p2 = p1 + a.kind + s;
    let p3 = p2 + ns + s;
    let g = ResourceIdView { group: b.group, ..a };
    if object_key(a) == object_key(g) {
        lemma_key(a);
        lemma_key(g);
        lemma_middle(e, a.group, b.group, r0);
    }
    let v = ResourceIdView { version: b.version, ..a };
    if object_key(a) == object_key(v) {
        lemma_key(a);
        lemma_key(v);
        lemma_middle(p0, a.version, b.version, r1);
    }
    let k = ResourceIdView { kind: b.kind, ..a };
    if object_key(a) == object_key(k) {
        lemma_key(a);
        lemma_key(k);
        lemma_middle(p1, a.kind, b.kind, r2);
    }
    let m = ResourceIdView { name: b.name, ..a };
    if object_key(a) == object_key(m) {
        lemma_key(a);
        lemma_key(m);
        lemma_middle(p3, a.name, b.name, e);
    }
    let n = ResourceIdView { namespace: b.namespace, ..a };
    if object_key(a) == object_key(n) && a.namespace is Some && b.namespace is Some {
        lemma_key(a);
        lemma_key(n);
        lemma_middle(p2, ns, b.namespace->0, r3);
    }
}

#[verifier::spinoff_prover]
proof fn lemma_key(a: ResourceIdView)
    ensures
        ({
            let e = Seq::<char>::empty();
            let s = "/"@;
            let ns = match a.namespace {
                Some(ns) => ns,
                None => "-"@,
            };
            let r3 = s + a.name;
            let r2 = s + ns + r3;
            let r1 = s + a.kind + r2;
            let r0 = s + a.version + r1;
            let p0 = a.group + s;
            let p1 = p0 + a.version + s;
            let p2 = p1 + a.kind + s;
            let p3 = p2 + ns + s;
            &&& object_key(a) == e + a.group + r0
            &&& object_key(a) == p0 + a.version + r1
            &&& object_key(a) == p1 + a.kind + r2
            &&& object_key(a) == p2 + ns + r3
            &&& object_key(a) == p3 + a.name + e
        }),
{
    let e = Seq::<char>::empty();
    let s = "/"@;
    let ns = match a.namespace {
        Some(ns) => ns,
        None => "-"@,
    };
    let r3 = s + a.name;
    let r2 = s + ns + r3;
    let r1 = s + a.kind + r2;
    let r0 = s + a.version + r1;
    let p0 = a.group + s;
    let p1 = p0 + a.version + s;
    let p2 = p1 + a.kind + s;
    let p3 = p2 + ns + s;
    assert(p3 + a.name + e =~= p3 + a.name);
    assert(p2 + ns + r3 =~= p3 + a.name);
    assert(p1 + a.kind + r2 =~= p2 + ns + r3);
    assert(p0 + a.version + r1 =~= p1 + a.kind + r2);
    assert(e + a.group + r0 =~= p0 + a.version + r1);
}

proof fn lemma_middle(a: Seq<char>, x: Seq<char>, y: Seq<char>, b: Seq<char>)
    ensures
        a + x + b == a + y + b ==> x == y,
{
    if a + x + b == a + y + b {
        assert((a + x + b).len() == (a + y + b).len());
        assert forall|i: int| 0 <= i < x.len() implies x[i] == y[i] by {
            assert((a + x + b)[a.len() + i] == x[i]);
            assert((a + y + b)[a.len() + i] == y[i]);
        }
        assert(x =~= y);
    }
}

/// What may be deleted again is exactly what was deleted and has a UID, each under
/// the UID that it had.
pub proof fn law_authorities_of_waves(gone: Seq<ResourceIdView>, t: ResourceIdView, uid: Seq<char>)
    ensures
        authorities(gone).contains((t, uid)) <==> gone.contains(t) && t.uid == Some(uid),
{
    let f = |r: ResourceIdView|
        match r.uid {
            Some(uid) => Some((r, uid)),
            None => None,
        };
    lemma_pick_members(gone, f);
    assert(authorities(gone) == pick(gone, f));
    if gone.contains(t) && t.uid == Some(uid) {
        let k = choose|k: int| 0 <= k < gone.len() && gone[k] == t;
        assert(f(gone[k]) == Some((t, uid)));
    }
    if authorities(gone).contains((t, uid)) {
        let k = choose|k: int| 0 <= k < gone.len() && f(#[trigger] gone[k]) == Some((t, uid));
        assert(gone[k] == t);
    }
}

} // verus!
