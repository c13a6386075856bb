//! Waves of DELETEs: what the API server turned down is tried again for as long
//! as other objects go.

use vstd::prelude::*;
use vstd::string::*;

use crate::executor::deletion::{DeleteResult, DeleteResultView};
use crate::lists::{
    absorb, absorbed, all_noted, count_of, ids, lemma_absorbed, lemma_contains_add,
    lemma_count_absorbed, lemma_count_add, lemma_count_member, lemma_count_push, lemma_has_id,
    lemma_pick_members, lemma_pick_take, noted, pick, push_id, push_ids, push_noted, Noted,
};
use crate::resource::{contains_id, copy_ids, ResourceId, ResourceIdView};
use crate::watch::WatchWaitResult;

verus! {

/// What the run needs next.
#[derive(Debug, Clone, Copy, PartialEq, Eq, Structural)]
pub enum WaveStage {
    /// A permit, and then a DELETE for each pending target.
    Delete,
    /// That the answers to the DELETEs are written to the journal.
    Checkpoint,
    /// A wait until the accepted targets are gone.
    Wait,
    /// An attempt to strip the finalizers of what is waited for.
    Recover,
    /// A wait for what was stalled, after finalizers were stripped.
    WaitRecovered,
    /// Another wait for what remains, after some targets were recreated.
    Rewait,
    /// Nothing: the run is over.
    Done,
}

/// A run of delete waves over the targets of one phase.
#[derive(Debug)]
pub struct WaveRun {
    pub stage: WaveStage,
    /// The targets of the next wave.
    pub pending: Vec<ResourceId>,
    /// The targets of this wave whose DELETE was taken.
    pub accepted: Vec<ResourceId>,
    /// The targets of this wave whose DELETE was turned down.
    pub rejected: Vec<ResourceId>,
    /// What is waited for, after the first wait of a wave.
    pub waiting: Vec<ResourceId>,
    /// Why the first wait of this wave stalled.
    pub stall_reason: String,
    /// Something has gone in this wave.
    pub progressed: bool,
    /// An answer of this wave stops the run.
    pub must_stop: bool,
    /// The accepted and the failed targets are to be written to the journal now.
    pub record: bool,
    pub accepted_gone: Vec<ResourceId>,
    pub already_gone: Vec<ResourceId>,
    pub failed: Vec<Noted>,
    pub stopped: bool,
}

/// The contents of a [`WaveRun`].
#[verifier::ext_equal]
pub struct WaveView {
    pub stage: WaveStage,
    pub pending: Seq<ResourceIdView>,
    pub accepted: Seq<ResourceIdView>,
    pub rejected: Seq<ResourceIdView>,
    pub waiting: Seq<ResourceIdView>,
    pub stall_reason: Seq<char>,
    pub progressed: bool,
    pub must_stop: bool,
    pub record: bool,
    pub accepted_gone: Seq<ResourceIdView>,
    pub already_gone: Seq<ResourceIdView>,
    pub failed: Seq<(ResourceIdView, Seq<char>)>,
    pub stopped: bool,
}

impl View for WaveRun {
    type V = WaveView;

    open spec fn view(&self) -> WaveView {
        WaveView {
            stage: self.stage,
            pending: ids(self.pending@),
            accepted: ids(self.accepted@),
            rejected: ids(self.rejected@),
            waiting: ids(self.waiting@),
            stall_reason: self.stall_reason@,
            progressed: self.progressed,
            must_stop: self.must_stop,
            record: self.record,
            accepted_gone: ids(self.accepted_gone@),
            already_gone: ids(self.already_gone@),
            failed: noted(self.failed@),
            stopped: self.stopped,
        }
    }
}

/// What a run of delete waves came to.
#[derive(Debug)]
pub struct WaveResult {
    pub accepted_gone: Vec<ResourceId>,
    pub already_gone: Vec<ResourceId>,
    pub failed: Vec<Noted>,
    pub stopped: bool,
    /// Targets whose DELETE was taken, with the UID that they had. Only these may
    /// be deleted again should they be recreated.
    pub redelete_authorities: Vec<Noted>,
}

/// The answer to one DELETE of a wave.
pub type WaveAnswer = (ResourceIdView, DeleteResultView);

/// The answers to the DELETEs of a wave.
pub open spec fn answers(results: Seq<(ResourceId, DeleteResult)>) -> Seq<WaveAnswer> {
    results.map_values(|x: (ResourceId, DeleteResult)| (x.0@, x.1@))
}

/// The targets whose DELETE was taken.
pub open spec fn taken(a: Seq<WaveAnswer>) -> Seq<ResourceIdView> {
    pick(
        a,
        |x: WaveAnswer|
            if x.1 is Accepted {
                Some(x.0)
            } else {
                None
            },
    )
}

/// The targets that were gone before their DELETE.
pub open spec fn gone_before(a: Seq<WaveAnswer>) -> Seq<ResourceIdView> {
    pick(
        a,
        |x: WaveAnswer|
            if x.1 is AlreadyGone {
                Some(x.0)
            } else {
                None
            },
    )
}

/// The targets whose DELETE was turned down.
pub open spec fn turned_down(a: Seq<WaveAnswer>) -> Seq<ResourceIdView> {
    pick(
        a,
        |x: WaveAnswer|
            if x.1 is Rejected {
                Some(x.0)
            } else {
                None
            },
    )
}

/// The targets whose answer stops the run, with the reason.
pub open spec fn halting(a: Seq<WaveAnswer>) -> Seq<(ResourceIdView, Seq<char>)> {
    pick(
        a,
        |x: WaveAnswer|
            match x.1 {
                DeleteResultView::Blocked(reason) => Some((x.0, reason)),
                DeleteResultView::Unknown(reason) => Some((x.0, reason)),
                _ => None,
            },
    )
}

/// Those of `s` that are not in `others`.
pub open spec fn without(s: Seq<ResourceIdView>, others: Seq<ResourceIdView>) -> Seq<
    ResourceIdView,
> {
    pick(
        s,
        |r: ResourceIdView|
            if others.contains(r) {
                None
            } else {
                Some(r)
            },
    )
}

/// The text by which a recreated object is found again.
pub open spec fn object_key(r: ResourceIdView) -> Seq<char> {
    r.group + "/"@ + r.version + "/"@ + r.kind + "/"@ + (match r.namespace {
        Some(ns) => ns,
        None => "-"@,
    }) + "/"@ + r.name
}

/// `r` is one of the recreated objects.
pub open spec fn was_recreated(
    recreated: Seq<(ResourceId, String, String)>,
    r: ResourceIdView,
) -> bool {
    exists|i: int|
        0 <= i < recreated.len() && object_key((#[trigger] recreated[i]).0@) == object_key(r)
}

/// Those of `s` that were recreated, or, the other way round, were not.
pub open spec fn by_recreation(
    s: Seq<ResourceIdView>,
    recreated: Seq<(ResourceId, String, String)>,
    wanted: bool,
) -> Seq<ResourceIdView> {
    pick(
        s,
        |r: ResourceIdView|
            if was_recreated(recreated, r) == wanted {
                Some(r)
            } else {
                None
            },
    )
}

/// The run is over, and the phase stops with it.
pub open spec fn halted(w: WaveView) -> WaveView {
    WaveView { stage: WaveStage::Done, stopped: true, ..w }
}

/// The wave is over: what was turned down is tried again if something has gone.
pub open spec fn wave_settled(w: WaveView) -> WaveView {
    if w.rejected.len() == 0 {
        WaveView { stage: WaveStage::Done, ..w }
    } else if !w.progressed {
        halted(
            WaveView {
                failed: w.failed + all_noted(
                    w.rejected,
                    "no progress in delete wave — all targets rejected"@,
                ),
                record: true,
                ..w
            },
        )
    } else {
        WaveView {
            stage: WaveStage::Delete,
            pending: w.rejected,
            accepted: seq![],
            rejected: seq![],
            waiting: seq![],
            ..w
        }
    }
}

/// The wave has stalled for good.
pub open spec fn wave_stalled(w: WaveView) -> WaveView {
    halted(
        WaveView {
            failed: w.failed + all_noted(w.waiting, "barrier stalled: "@ + w.stall_reason)
                + all_noted(w.rejected, "wave stopped — barrier stalled before retry"@),
            record: true,
            ..w
        },
    )
}

/// `asked` were waited for, and `remaining` are still there, some of them recreated.
pub open spec fn wave_recreated(
    w: WaveView,
    asked: Seq<ResourceIdView>,
    remaining: Seq<ResourceIdView>,
    recreated: Seq<(ResourceId, String, String)>,
) -> WaveView {
    let gone = without(asked, remaining);
    let again = by_recreation(remaining, recreated, true);
    let still = by_recreation(remaining, recreated, false);
    let next = WaveView {
        accepted_gone: w.accepted_gone + gone + again,
        progressed: w.progressed || gone.len() > 0 || again.len() > 0,
        waiting: still,
        record: false,
        ..w
    };
    if still.len() > 0 {
        WaveView { stage: WaveStage::Rewait, ..next }
    } else {
        wave_settled(next)
    }
}

/// What may happen to a run.
pub enum WaveEvent {
    /// No permit was to be had.
    GateClosed,
    /// The answers to the DELETEs of a wave.
    Answered(Seq<WaveAnswer>),
    /// What was to be written after the answers was written.
    Recorded,
    /// The first wait of a wave is over; recovery may be tried where it stalled.
    Waited(WatchWaitResult, bool),
    /// Recovery stripped the finalizers of so many objects, or failed.
    Recovered(Option<usize>),
    /// The wait after a recovery, or after a recreation, is over.
    WaitedAgain(WatchWaitResult),
}

/// The run after the DELETEs of a wave have been answered. What was taken and what stops the
/// run is written down before anything else happens.
pub open spec fn wave_answered(w: WaveView, a: Seq<WaveAnswer>) -> WaveView {
    WaveView {
        stage: WaveStage::Checkpoint,
        pending: seq![],
        accepted: taken(a),
        rejected: turned_down(a),
        waiting: seq![],
        already_gone: w.already_gone + gone_before(a),
        failed: w.failed + halting(a),
        progressed: gone_before(a).len() > 0,
        must_stop: halting(a).len() > 0,
        record: true,
        ..w
    }
}

/// The run after the answers of a wave were written down. Where one of them stops the run,
/// what was turned down has failed too, and that is written down next.
pub open spec fn wave_recorded(w: WaveView) -> WaveView {
    if w.must_stop {
        halted(
            WaveView {
                failed: w.failed + all_noted(
                    w.rejected,
                    "phase stopped due to Blocked/Unknown result"@,
                ),
                record: true,
                ..w
            },
        )
    } else if w.accepted.len() > 0 {
        WaveView { stage: WaveStage::Wait, record: false, ..w }
    } else {
        wave_settled(WaveView { record: false, ..w })
    }
}

/// The run after the first wait of a wave.
pub open spec fn wave_waited(w: WaveView, result: WatchWaitResult, may_recover: bool) -> WaveView {
    match result {
        WatchWaitResult::AllGone => wave_settled(
            WaveView {
                accepted_gone: w.accepted_gone + w.accepted,
                progressed: w.progressed || w.accepted.len() > 0,
                record: false,
                ..w
            },
        ),
        WatchWaitResult::Cancelled => halted(WaveView { record: true, ..w }),
        WatchWaitResult::Stalled { remaining, reason, .. } => {
            let next = WaveView {
                accepted_gone: w.accepted_gone + without(w.accepted, ids(remaining@)),
                waiting: ids(remaining@),
                stall_reason: reason@,
                record: false,
                ..w
            };
            if may_recover && remaining@.len() > 0 {
                WaveView { stage: WaveStage::Recover, ..next }
            } else {
                wave_stalled(next)
            }
        },
        WatchWaitResult::Recreated { remaining, recreated } => wave_recreated(
            w,
            w.accepted,
            ids(remaining@),
            recreated@,
        ),
    }
}

/// The run after the wait that follows a recovery.
pub open spec fn wave_waited_recovered(w: WaveView, result: WatchWaitResult) -> WaveView {
    if result is AllGone {
        wave_settled(
            WaveView {
                accepted_gone: w.accepted_gone + w.waiting,
                progressed: w.progressed || w.waiting.len() > 0,
                record: false,
                ..w
            },
        )
    } else {
        wave_stalled(w)
    }
}

/// The run after the wait that follows a recreation.
pub open spec fn wave_rewaited(w: WaveView, result: WatchWaitResult) -> WaveView {
    match result {
        WatchWaitResult::AllGone => {
            let all = absorbed(w.accepted_gone, w.waiting);
            wave_settled(
                WaveView {
                    accepted_gone: all,
                    progressed: w.progressed || all.len() > w.accepted_gone.len(),
                    record: false,
                    ..w
                },
            )
        },
        WatchWaitResult::Recreated { remaining, recreated } => wave_recreated(
            w,
            w.waiting,
            ids(remaining@),
            recreated@,
        ),
        _ => halted(
            WaveView {
                failed: w.failed + all_noted(w.waiting, "wave re-wait stalled/cancelled"@),
                record: false,
                ..w
            },
        ),
    }
}

/// The run that follows on an event. An event that was not asked for changes nothing.
pub open spec fn wave_next(w: WaveView, e: WaveEvent) -> WaveView {
    match (w.stage, e) {
        (WaveStage::Delete, WaveEvent::GateClosed) => halted(WaveView { record: false, ..w }),
        (WaveStage::Delete, WaveEvent::Answered(a)) => wave_answered(w, a),
        (WaveStage::Checkpoint, WaveEvent::Recorded) => wave_recorded(w),
        (WaveStage::Wait, WaveEvent::Waited(result, may_recover)) => wave_waited(
            w,
            result,
            may_recover,
        ),
        (WaveStage::Recover, WaveEvent::Recovered(count)) => if count is Some && count->0 > 0 {
            WaveView { stage: WaveStage::WaitRecovered, record: false, ..w }
        } else {
            wave_stalled(w)
        },
        (WaveStage::WaitRecovered, WaveEvent::WaitedAgain(result)) => wave_waited_recovered(
            w,
            result,
        ),
        (WaveStage::Rewait, WaveEvent::WaitedAgain(result)) => wave_rewaited(w, result),
        _ => w,
    }
}

/// The text by which a recreated object is found again.
fn key_of(r: &ResourceId) -> (k: String)
    ensures
        k@ == object_key(r@),
{
    let head = r.group.clone().concat("/").concat(r.version.as_str()).concat("/").concat(
        r.kind.as_str(),
    ).concat("/");
    let ns = match &r.namespace {
        Some(ns) => ns.as_str(),
        None => "-",
    };
    head.concat(ns).concat("/").concat(r.name.as_str())
}

/// Whether `r` is one of the recreated objects.
fn is_recreated(recreated: &Vec<(ResourceId, String, String)>, r: &ResourceId) -> (b: bool)
    ensures
        b == was_recreated(recreated@, r@),
{
    let key = key_of(r);
    for i in 0..recreated.len()
        invariant
            key@ == object_key(r@),
            forall|j: int| 0 <= j < i ==> object_key((#[trigger] recreated@[j]).0@) != key@,
    {
        if key_of(&recreated[i].0) == key {
            assert(object_key(recreated@[i as int].0@) == object_key(r@));
            return true;
        }
    }
    false
}

/// Those of `s` that are not in `others`.
pub fn leave_out(s: &Vec<ResourceId>, others: &Vec<ResourceId>) -> (r: Vec<ResourceId>)
    ensures
        ids(r@) == without(ids(s@), ids(others@)),
{
    let mut out: Vec<ResourceId> = Vec::new();
    let ghost f = |x: ResourceIdView|
        if ids(others@).contains(x) {
            None
        } else {
            Some(x)
        };
    assert(ids(out@) =~= pick(ids(s@).take(0), f));
    for i in 0..s.len()
        invariant
            f == (|x: ResourceIdView|
                if ids(others@).contains(x) {
                    None
                } else {
                    Some(x)
                }),
            ids(out@) == pick(ids(s@).take(i as int), f),
    {
        proof {
            lemma_pick_take(ids(s@), f, i as int);
            lemma_has_id(others@, s@[i as int]@);
        }
        if !contains_id(others, &s[i]) {
            push_id(&mut out, &s[i]);
        }
    }
    assert(ids(s@).take(s@.len() as int) =~= ids(s@));
    out
}

/// Those of `s` that were recreated, or, the other way round, were not.
fn split_recreated(
    s: &Vec<ResourceId>,
    recreated: &Vec<(ResourceId, String, String)>,
    wanted: bool,
) -> (r: Vec<ResourceId>)
    ensures
        ids(r@) == by_recreation(ids(s@), recreated@, wanted),
{
    let mut out: Vec<ResourceId> = Vec::new();
    let ghost f = |x: ResourceIdView|
        if was_recreated(recreated@, x) == wanted {
            Some(x)
        } else {
            None
        };
    assert(ids(out@) =~= pick(ids(s@).take(0), f));
    for i in 0..s.len()
        invariant
            f == (|x: ResourceIdView|
                if was_recreated(recreated@, x) == wanted {
                    Some(x)
                } else {
                    None
                }),
            ids(out@) == pick(ids(s@).take(i as int), f),
    {
        proof {
            lemma_pick_take(ids(s@), f, i as int);
        }
        if is_recreated(recreated, &s[i]) == wanted {
            push_id(&mut out, &s[i]);
        }
    }
    assert(ids(s@).take(s@.len() as int) =~= ids(s@));
    out
}

/// The targets of a wave by the kind of answer that came.
struct Sorted {
    taken: Vec<ResourceId>,
    gone: Vec<ResourceId>,
    turned_down: Vec<ResourceId>,
    halting: Vec<Noted>,
}

/// Sorts the targets of a wave by the kind of answer that came.
fn sort_answers(results: &Vec<(ResourceId, DeleteResult)>) -> (r: Sorted)
    ensures
        ids(r.taken@) == taken(answers(results@)),
        ids(r.gone@) == gone_before(answers(results@)),
        ids(r.turned_down@) == turned_down(answers(results@)),
        noted(r.halting@) == halting(answers(results@)),
{
    let mut out = Sorted {
        taken: Vec::new(),
        gone: Vec::new(),
        turned_down: Vec::new(),
        halting: Vec::new(),
    };
    let ghost a = answers(results@);
    assert(a.take(0) =~= seq![]);
    assert(ids(out.taken@) =~= taken(a.take(0)));
    assert(ids(out.gone@) =~= gone_before(a.take(0)));
    assert(ids(out.turned_down@) =~= turned_down(a.take(0)));
    assert(noted(out.halting@) =~= halting(a.take(0)));
    for i in 0..results.len()
        invariant
            a == answers(results@),
            ids(out.taken@) == taken(a.take(i as int)),
            ids(out.gone@) == gone_before(a.take(i as int)),
            ids(out.turned_down@) == turned_down(a.take(i as int)),
            noted(out.halting@) == halting(a.take(i as int)),
    {
        proof {
            assert(a.take(i + 1).drop_last() =~= a.take(i as int));
            assert(a.take(i + 1).last() == a[i as int]);
        }
        let target = &results[i].0;
        match &results[i].1 {
            DeleteResult::Accepted => push_id(&mut out.taken, target),
            DeleteResult::AlreadyGone => push_id(&mut out.gone, target),
            DeleteResult::Rejected(_) => push_id(&mut out.turned_down, target),
            DeleteResult::Blocked(reason) | DeleteResult::Unknown(reason) => {
                let ghost list = out.halting@;
                out.halting.push((target.clone(), reason.clone()));
                assert(noted(out.halting@) =~= noted(list).push((target@, reason@)));
            },
        }
    }
    assert(a.take(a.len() as int) =~= a);
    out
}

/// Adds all of `more` to a list with notes.
pub fn append_noted(v: &mut Vec<Noted>, more: Vec<Noted>)
    ensures
        noted(final(v)@) == noted(old(v)@) + noted(more@),
{
    let ghost added = more@;
    let mut more = more;
    v.append(&mut more);
    assert(noted(v@) =~= noted(old(v)@) + noted(added));
}

impl WaveRun {
    /// A run over `targets`.
    pub fn new(targets: &Vec<ResourceId>) -> (r: WaveRun)
        ensures
            r@ == (WaveView {
                stage: if targets@.len() == 0 {
                    WaveStage::Done
                } else {
                    WaveStage::Delete
                },
                pending: ids(targets@),
                accepted: seq![],
                rejected: seq![],
                waiting: seq![],
                stall_reason: seq![],
                progressed: false,
                must_stop: false,
                record: false,
                accepted_gone: seq![],
                already_gone: seq![],
                failed: seq![],
                stopped: false,
            }),
    {
        WaveRun {
            stage: if targets.len() == 0 {
                WaveStage::Done
            } else {
                WaveStage::Delete
            },
            pending: copy_ids(targets),
            accepted: Vec::new(),
            rejected: Vec::new(),
            waiting: Vec::new(),
            stall_reason: String::new(),
            progressed: false,
            must_stop: false,
            record: false,
            accepted_gone: Vec::new(),
            already_gone: Vec::new(),
            failed: Vec::new(),
            stopped: false,
        }
    }

    fn halt(&mut self)
        ensures
            final(self)@ == halted(old(self)@),
    {
        self.stage = WaveStage::Done;
        self.stopped = true;
    }

    fn settle(&mut self)
        ensures
            final(self)@ == wave_settled(old(self)@),
    {
        if self.rejected.len() == 0 {
            self.stage = WaveStage::Done;
        } else if !self.progressed {
            push_noted(
                &mut self.failed,
                &self.rejected,
                "no progress in delete wave — all targets rejected",
            );
            self.record = true;
            self.halt();
        } else {
            self.stage = WaveStage::Delete;
            self.pending = copy_ids(&self.rejected);
            self.accepted = Vec::new();
            self.rejected = Vec::new();
            self.waiting = Vec::new();
            assert(self@ =~= wave_settled(old(self)@));
        }
    }

    fn stall(&mut self)
        ensures
            final(self)@ == wave_stalled(old(self)@),
    {
        let note = "barrier stalled: ".to_owned().concat(self.stall_reason.as_str());
        push_noted(&mut self.failed, &self.waiting, note.as_str());
        push_noted(
            &mut self.failed,
            &self.rejected,
            "wave stopped — barrier stalled before retry",
        );
        self.record = true;
        self.halt();
    }

    fn recreate(
        &mut self,
        asked: &Vec<ResourceId>,
        remaining: &Vec<ResourceId>,
        recreated: &Vec<(ResourceId, String, String)>,
    )
        ensures
            final(self)@ == wave_recreated(
                old(self)@,
                ids(asked@),
                ids(remaining@),
                recreated@,
            ),
    {
        let gone = leave_out(asked, remaining);
        let again = split_recreated(remaining, recreated, true);
        let still = split_recreated(remaining, recreated, false);
        assert(ids(gone@).len() == gone@.len());
        assert(ids(again@).len() == again@.len());
        assert(ids(still@).len() == still@.len());
        push_ids(&mut self.accepted_gone, &gone);
        push_ids(&mut self.accepted_gone, &again);
        self.progressed = self.progressed || gone.len() > 0 || again.len() > 0;
        self.record = false;
        let more = still.len() > 0;
        self.waiting = still;
        if more {
            self.stage = WaveStage::Rewait;
        } else {
            self.settle();
        }
    }

    /// No permit was to be had for the wave.
    pub fn gate_closed(&mut self)
        ensures
            final(self)@ == wave_next(old(self)@, WaveEvent::GateClosed),
    {
        match self.stage {
            WaveStage::Delete => {
                self.record = false;
                self.halt();
            },
            _ => {},
        }
    }

    /// The DELETEs of the wave have been answered.
    pub fn answered(&mut self, results: &Vec<(ResourceId, DeleteResult)>)
        ensures
            final(self)@ == wave_next(
                old(self)@,
                WaveEvent::Answered(answers(results@)),
            ),
    {
        match self.stage {
            WaveStage::Delete => {},
            _ => {
                return ;
            },
        }
        let ghost a = answers(results@);
        let sorted = sort_answers(results);
        assert(noted(sorted.halting@).len() == sorted.halting@.len());
        assert(ids(sorted.gone@).len() == sorted.gone@.len());
        assert(ids(sorted.taken@).len() == sorted.taken@.len());
        self.must_stop = sorted.halting.len() > 0;
        self.pending = Vec::new();
        self.progressed = sorted.gone.len() > 0;
        push_ids(&mut self.already_gone, &sorted.gone);
        append_noted(&mut self.failed, sorted.halting);
        self.accepted = sorted.taken;
        self.rejected = sorted.turned_down;
        self.waiting = Vec::new();
        self.record = true;
        assert(ids(self.pending@) =~= seq![]);
        assert(ids(self.waiting@) =~= seq![]);
        self.stage = WaveStage::Checkpoint;
    }

    /// The answers of the wave were written down.
    pub fn recorded(&mut self)
        ensures
            final(self)@ == wave_next(old(self)@, WaveEvent::Recorded),
    {
        match self.stage {
            WaveStage::Checkpoint => {},
            _ => {
                return ;
            },
        }
        assert(ids(self.accepted@).len() == self.accepted@.len());
        if self.must_stop {
            push_noted(
                &mut self.failed,
                &self.rejected,
                "phase stopped due to Blocked/Unknown result",
            );
            self.record = true;
            self.halt();
        } else {
            self.record = false;
            if self.accepted.len() > 0 {
                self.stage = WaveStage::Wait;
            } else {
                self.settle();
            }
        }
    }

    /// The first wait of the wave is over. Where it stalled, recovery is tried
    /// next if `may_recover`.
    pub fn waited(&mut self, result: &WatchWaitResult, may_recover: bool)
        ensures
            final(self)@ == wave_next(old(self)@, WaveEvent::Waited(*result, may_recover)),
    {
        match self.stage {
            WaveStage::Wait => {},
            _ => {
                return ;
            },
        }
        match result {
            WatchWaitResult::AllGone => {
                push_ids(&mut self.accepted_gone, &self.accepted);
                self.progressed = self.progressed || self.accepted.len() > 0;
                self.record = false;
                self.settle();
            },
            WatchWaitResult::Cancelled => {
                self.record = true;
                self.halt();
            },
            WatchWaitResult::Stalled { remaining, reason, .. } => {
                let gone = leave_out(&self.accepted, remaining);
                push_ids(&mut self.accepted_gone, &gone);
                self.waiting = copy_ids(remaining);
                self.stall_reason = reason.clone();
                self.record = false;
                if may_recover && remaining.len() > 0 {
                    self.stage = WaveStage::Recover;
                } else {
                    self.stall();
                }
            },
            WatchWaitResult::Recreated { remaining, recreated } => {
                let asked = copy_ids(&self.accepted);
                self.recreate(&asked, remaining, recreated);
            },
        }
    }

    /// Recovery stripped the finalizers of `count` objects, or failed.
    pub fn recovered(&mut self, count: Option<usize>)
        ensures
            final(self)@ == wave_next(old(self)@, WaveEvent::Recovered(count)),
    {
        match self.stage {
            WaveStage::Recover => {},
            _ => {
                return ;
            },
        }
        match count {
            Some(n) if n > 0 => {
                self.stage = WaveStage::WaitRecovered;
                self.record = false;
            },
            _ => {
                self.stall();
            },
        }
    }

    /// The wait that follows a recovery or a recreation is over.
    pub fn waited_again(&mut self, result: &WatchWaitResult)
        ensures
            final(self)@ == wave_next(old(self)@, WaveEvent::WaitedAgain(*result)),
    {
        match self.stage {
            WaveStage::WaitRecovered => match result {
                WatchWaitResult::AllGone => {
                    push_ids(&mut self.accepted_gone, &self.waiting);
                    self.progressed = self.progressed || self.waiting.len() > 0;
                    self.record = false;
                    self.settle();
                },
                _ => {
                    self.stall();
                },
            },
            WaveStage::Rewait => match result {
                WatchWaitResult::AllGone => {
                    let before: usize = self.accepted_gone.len();
                    absorb(&mut self.accepted_gone, &self.waiting);
                    assert(ids(self.accepted_gone@).len() == self.accepted_gone@.len());
                    assert(ids(old(self).accepted_gone@).len() == before);
                    self.progressed = self.progressed || self.accepted_gone.len() > before;
                    self.record = false;
                    self.settle();
                },
                WatchWaitResult::Recreated { remaining, recreated } => {
                    let asked = copy_ids(&self.waiting);
                    self.recreate(&asked, remaining, recreated);
                },
                _ => {
                    push_noted(
                        &mut self.failed,
                        &self.waiting,
                        "wave re-wait stalled/cancelled",
                    );
                    self.record = false;
                    self.halt();
                },
            },
            _ => {},
        }
    }

    /// What the run came to.
    pub fn finish(self) -> (r: WaveResult)
        ensures
            ids(r.accepted_gone@) == self@.accepted_gone,
            ids(r.already_gone@) == self@.already_gone,
            noted(r.failed@) == self@.failed,
            r.stopped == self.stopped,
            noted(r.redelete_authorities@) == if self.stopped {
                seq![]
            } else {
                authorities(self@.accepted_gone)
            },
    {
        let mut out: Vec<Noted> = Vec::new();
        assert(noted(out@) =~= seq![]);
        if !self.stopped {
            let ghost s = self@.accepted_gone;
            assert(s.take(0) =~= seq![]);
            for i in 0..self.accepted_gone.len()
                invariant
                    s == ids(self.accepted_gone@),
                    noted(out@) == authorities(s.take(i as int)),
            {
                proof {
                    assert(s.take(i + 1).drop_last() =~= s.take(i as int));
                    assert(s.take(i + 1).last() == s[i as int]);
                }
                match &self.accepted_gone[i].uid {
                    Some(uid) => {
                        let ghost list = out@;
                        out.push((self.accepted_gone[i].clone(), uid.clone()));
                        assert(noted(out@) =~= noted(list).push((s[i as int], uid@)));
                    },
                    None => {},
                }
            }
            assert(s.take(s.len() as int) =~= s);
        }
        WaveResult {
            accepted_gone: self.accepted_gone,
            already_gone: self.already_gone,
            failed: self.failed,
            stopped: self.stopped,
            redelete_authorities: out,
        }
    }
}

/// The objects that may be deleted again: those whose DELETE was taken, with the
/// UID that they had.
pub open spec fn authorities(gone: Seq<ResourceIdView>) -> Seq<(ResourceIdView, Seq<char>)> {
    pick(
        gone,
        |r: ResourceIdView|
            match r.uid {
                Some(uid) => Some((r, uid)),
                None => None,
            },
    )
}

/// What the run still has in hand.
pub open spec fn in_hand(w: WaveView, t: ResourceIdView) -> bool {
    match w.stage {
        WaveStage::Delete => w.pending.contains(t),
        WaveStage::Checkpoint => w.accepted.contains(t) || w.rejected.contains(t),
        WaveStage::Wait => w.accepted.contains(t) || w.rejected.contains(t),
        WaveStage::Done => false,
        _ => w.waiting.contains(t) || w.rejected.contains(t),
    }
}

/// An answer that stops the run has stopped it, or is being written down.
pub open spec fn stops_in_time(w: WaveView) -> bool {
    w.must_stop ==> w.stopped || w.stage is Checkpoint
}

/// A run that neither was stopped nor must stop has no failed target, and each of `targets`
/// is gone or still in hand.
pub open spec fn accounts_for(w: WaveView, targets: Seq<ResourceIdView>) -> bool {
    &&& stops_in_time(w)
    &&& !w.stopped && !w.must_stop ==> {
        &&& w.failed.len() == 0
        &&& forall|t: ResourceIdView| #[trigger]
            targets.contains(t) ==> w.accepted_gone.contains(t) || w.already_gone.contains(t)
                || in_hand(w, t)
    }
}

/// The answers to the DELETEs of a wave leave out no target of the wave.
pub open spec fn is_complete(w: WaveView, e: WaveEvent) -> bool {
    w.stage is Delete ==> (e matches WaveEvent::Answered(a) ==> forall|t: ResourceIdView|
        #[trigger] w.pending.contains(t) ==> exists|i: int|
            0 <= i < a.len() && (#[trigger] a[i]).0 == t)
}

/// Membership after leaving out.
pub proof fn lemma_without(s: Seq<ResourceIdView>, others: Seq<ResourceIdView>, t: ResourceIdView)
    ensures
        without(s, others).contains(t) == (s.contains(t) && !others.contains(t)),
{
    let f = |r: ResourceIdView|
        if others.contains(r) {
            None
        } else {
            Some(r)
        };
    lemma_pick_members(s, f);
    if s.contains(t) && !others.contains(t) {
        let i = choose|i: int| 0 <= i < s.len() && s[i] == t;
        assert(f(s[i]) == Some(t));
    }
    if without(s, others).contains(t) {
        let i = choose|i: int| 0 <= i < s.len() && f(#[trigger] s[i]) == Some(t);
        assert(s[i] == t);
    }
}

proof fn lemma_by_recreation(
    s: Seq<ResourceIdView>,
    recreated: Seq<(ResourceId, String, String)>,
    wanted: bool,
    t: ResourceIdView,
)
    ensures
        by_recreation(s, recreated, wanted).contains(t) == (s.contains(t) && was_recreated(
            recreated,
            t,
        ) == wanted),
{
    let f = |r: ResourceIdView|
        if was_recreated(recreated, r) == wanted {
            Some(r)
        } else {
            None
        };
    lemma_pick_members(s, f);
    if s.contains(t) && was_recreated(recreated, t) == wanted {
        let i = choose|i: int| 0 <= i < s.len() && s[i] == t;
        assert(f(s[i]) == Some(t));
    }
    if by_recreation(s, recreated, wanted).contains(t) {
        let i = choose|i: int| 0 <= i < s.len() && f(#[trigger] s[i]) == Some(t);
        assert(s[i] == t);
    }
}

/// Each answer sorts its target into exactly one of the four kinds.
proof fn lemma_answer_kinds(a: Seq<WaveAnswer>)
    ensures
        taken(a).len() + gone_before(a).len() + turned_down(a).len() + halting(a).len() == a.len(),
        forall|i: int|
            0 <= i < a.len() ==> taken(a).contains((#[trigger] a[i]).0) || gone_before(a).contains(
                a[i].0,
            ) || turned_down(a).contains(a[i].0) || halting(a).len() > 0,
    decreases a.len(),
{
    if a.len() > 0 {
        let front = a.drop_last();
        let x = a.last();
        lemma_answer_kinds(front);
        assert forall|i: int| 0 <= i < a.len() implies taken(a).contains((#[trigger] a[i]).0)
            || gone_before(a).contains(a[i].0) || turned_down(a).contains(a[i].0) || halting(
            a,
        ).len() > 0 by {
            if i < front.len() {
                assert(front[i] == a[i]);
                lemma_contains_add(taken(front), seq![x.0], a[i].0);
                lemma_contains_add(gone_before(front), seq![x.0], a[i].0);
                lemma_contains_add(turned_down(front), seq![x.0], a[i].0);
                assert(taken(front).push(x.0) =~= taken(front) + seq![x.0]);
                assert(gone_before(front).push(x.0) =~= gone_before(front) + seq![x.0]);
                assert(turned_down(front).push(x.0) =~= turned_down(front) + seq![x.0]);
            } else {
                assert(taken(front).push(x.0).last() == x.0);
                assert(gone_before(front).push(x.0).last() == x.0);
                assert(turned_down(front).push(x.0).last() == x.0);
            }
        }
    }
}

proof fn lemma_settled_accounts(w: WaveView, targets: Seq<ResourceIdView>)
    requires
        !w.stopped,
        !w.must_stop,
        w.failed.len() == 0,
        forall|t: ResourceIdView| #[trigger]
            targets.contains(t) ==> w.accepted_gone.contains(t) || w.already_gone.contains(t)
                || w.rejected.contains(t),
    ensures
        accounts_for(wave_settled(w), targets),
{
}

proof fn lemma_recreated_accounts(
    w: WaveView,
    asked: Seq<ResourceIdView>,
    remaining: Seq<ResourceIdView>,
    recreated: Seq<(ResourceId, String, String)>,
    targets: Seq<ResourceIdView>,
)
    requires
        !w.stopped,
        !w.must_stop,
        w.failed.len() == 0,
        forall|t: ResourceIdView| #[trigger]
            targets.contains(t) ==> w.accepted_gone.contains(t) || w.already_gone.contains(t)
                || asked.contains(t) || w.rejected.contains(t),
    ensures
        accounts_for(wave_recreated(w, asked, remaining, recreated), targets),
{
    let gone = without(asked, remaining);
    let again = by_recreation(remaining, recreated, true);
    let still = by_recreation(remaining, recreated, false);
    let all = w.accepted_gone + gone + again;
    assert forall|t: ResourceIdView| #[trigger] targets.contains(t) implies all.contains(t)
        || w.already_gone.contains(t) || still.contains(t) || w.rejected.contains(t) by {
        lemma_without(asked, remaining, t);
        lemma_by_recreation(remaining, recreated, true, t);
        lemma_by_recreation(remaining, recreated, false, t);
        lemma_contains_add(w.accepted_gone, gone, t);
        lemma_contains_add(w.accepted_gone + gone, again, t);
    }
    let next = WaveView {
        accepted_gone: all,
        progressed: w.progressed || gone.len() > 0 || again.len() > 0,
        waiting: still,
        record: false,
        ..w
    };
    if still.len() == 0 {
        assert forall|t: ResourceIdView| !still.contains(t) by {}
        lemma_settled_accounts(next, targets);
    }
}

/// No step of a run loses a target: as long as the run is not stopped, each
/// target is gone or still in hand, and none has failed.
pub proof fn law_no_target_is_lost(w: WaveView, e: WaveEvent, targets: Seq<ResourceIdView>)
    requires
        accounts_for(w, targets),
        is_complete(w, e),
    ensures
        accounts_for(wave_next(w, e), targets),
{
    if !w.stopped {
        match (w.stage, e) {
            (WaveStage::Delete, WaveEvent::Answered(a)) => {
                lemma_answer_kinds(a);
                if halting(a).len() == 0 {
                    assert(w.failed + halting(a) =~= w.failed);
                    assert forall|t: ResourceIdView| #[trigger] targets.contains(t) implies
                        w.accepted_gone.contains(t) || (w.already_gone + gone_before(a)).contains(t)
                        || taken(a).contains(t) || turned_down(a).contains(t) by {
                        lemma_contains_add(w.already_gone, gone_before(a), t);
                        if w.pending.contains(t) {
                            let i = choose|i: int| 0 <= i < a.len() && (#[trigger] a[i]).0 == t;
                            assert(a[i].0 == t);
                        }
                    }
                }
            },
            (WaveStage::Checkpoint, WaveEvent::Recorded) => {
                if w.accepted.len() == 0 {
                    assert forall|t: ResourceIdView| !w.accepted.contains(t) by {}
                }
            },
            (WaveStage::Wait, WaveEvent::Waited(result, may_recover)) => {
                match result {
                    WatchWaitResult::AllGone => {
                        assert forall|t: ResourceIdView| #[trigger] targets.contains(t) implies (
                        w.accepted_gone + w.accepted).contains(t) || w.already_gone.contains(t)
                            || w.rejected.contains(t) by {
                            lemma_contains_add(w.accepted_gone, w.accepted, t);
                        }
                    },
                    WatchWaitResult::Cancelled => {},
                    WatchWaitResult::Stalled { remaining, .. } => {
                        let rem = ids(remaining@);
                        assert forall|t: ResourceIdView| #[trigger] targets.contains(t) implies (
                        w.accepted_gone + without(w.accepted, rem)).contains(t)
                            || w.already_gone.contains(t) || rem.contains(t)
                            || w.rejected.contains(t) by {
                            lemma_without(w.accepted, rem, t);
                            lemma_contains_add(w.accepted_gone, without(w.accepted, rem), t);
                        }
                    },
                    WatchWaitResult::Recreated { remaining, recreated } => {
                        lemma_recreated_accounts(
                            w,
                            w.accepted,
                            ids(remaining@),
                            recreated@,
                            targets,
                        );
                    },
                }
            },
            (WaveStage::WaitRecovered, WaveEvent::WaitedAgain(result)) => {
                assert forall|t: ResourceIdView| #[trigger] targets.contains(t) implies (
                w.accepted_gone + w.waiting).contains(t) || w.already_gone.contains(t)
                    || w.rejected.contains(t) by {
                    lemma_contains_add(w.accepted_gone, w.waiting, t);
                }
            },
            (WaveStage::Rewait, WaveEvent::WaitedAgain(result)) => {
                match result {
                    WatchWaitResult::AllGone => {
                        assert forall|t: ResourceIdView| #[trigger] targets.contains(t) implies
                            absorbed(w.accepted_gone, w.waiting).contains(t)
                            || w.already_gone.contains(t) || w.rejected.contains(t) by {
                            lemma_absorbed(w.accepted_gone, w.waiting, t);
                        }
                    },
                    WatchWaitResult::Recreated { remaining, recreated } => {
                        lemma_recreated_accounts(
                            w,
                            w.waiting,
                            ids(remaining@),
                            recreated@,
                            targets,
                        );
                    },
                    _ => {},
                }
            },
            _ => {},
        }
    }
}

/// A run that ends without a stop has every target gone, and no failed one.
pub proof fn law_unstopped_run_leaves_nothing(w: WaveView, targets: Seq<ResourceIdView>)
    requires
        accounts_for(w, targets),
        w.stage is Done,
        !w.stopped,
    ensures
        w.failed.len() == 0,
        forall|t: ResourceIdView| #[trigger]
            targets.contains(t) ==> w.accepted_gone.contains(t) || w.already_gone.contains(t),
{
}

/// The first wave of a run accounts for all its targets.
pub proof fn law_new_run_accounts_for_targets(w: WaveView)
    requires
        w.stage is Delete,
        w.failed.len() == 0,
        !w.must_stop,
    ensures
        accounts_for(w, w.pending),
{
}

/// How many times a run holds `t`: among what is gone, and in hand.
pub open spec fn held(w: WaveView, t: ResourceIdView) -> nat {
    count_of(w.accepted_gone, t) + count_of(w.already_gone, t) + match w.stage {
        WaveStage::Delete => count_of(w.pending, t),
        WaveStage::Checkpoint => count_of(w.accepted, t) + count_of(w.rejected, t),
        WaveStage::Wait => count_of(w.accepted, t) + count_of(w.rejected, t),
        WaveStage::Done => 0,
        _ => count_of(w.waiting, t) + count_of(w.rejected, t),
    }
}

/// A run that neither was stopped nor must stop holds everything as many times as `targets`
/// do.
pub open spec fn holds_exactly(w: WaveView, targets: Seq<ResourceIdView>) -> bool {
    &&& stops_in_time(w)
    &&& !w.stopped && !w.must_stop ==> forall|t: ResourceIdView| #[trigger]
        held(w, t) == count_of(targets, t)
}

/// What the answers of a wave are about.
pub open spec fn asked_about(a: Seq<WaveAnswer>) -> Seq<ResourceIdView> {
    a.map_values(|x: WaveAnswer| x.0)
}

/// What remains of a wait is some of what was waited for, each once.
pub open spec fn remains_of(result: WatchWaitResult, asked: Seq<ResourceIdView>) -> bool {
    match result {
        WatchWaitResult::Stalled { remaining, .. } => is_part(ids(remaining@), asked),
        WatchWaitResult::Recreated { remaining, .. } => is_part(ids(remaining@), asked),
        _ => true,
    }
}

/// Nothing stands in `s` twice, and everything in `s` stands in `all`.
pub open spec fn is_part(s: Seq<ResourceIdView>, all: Seq<ResourceIdView>) -> bool {
    &&& s.no_duplicates()
    &&& forall|t: ResourceIdView| #[trigger] s.contains(t) ==> all.contains(t)
}

/// Each target of a wave is answered for as many times as it was asked for, and what
/// remains of a wait was waited for.
pub open spec fn is_exact(w: WaveView, e: WaveEvent) -> bool {
    match (w.stage, e) {
        (WaveStage::Delete, WaveEvent::Answered(a)) => forall|t: ResourceIdView|
            #[trigger] count_of(asked_about(a), t) == count_of(w.pending, t),
        (WaveStage::Wait, WaveEvent::Waited(result, _)) => remains_of(result, w.accepted),
        (WaveStage::Rewait, WaveEvent::WaitedAgain(result)) => remains_of(result, w.waiting),
        _ => true,
    }
}

proof fn lemma_count_answers(a: Seq<WaveAnswer>, t: ResourceIdView)
    requires
        halting(a).len() == 0,
    ensures
        count_of(asked_about(a), t) == count_of(taken(a), t) + count_of(gone_before(a), t)
            + count_of(turned_down(a), t),
    decreases a.len(),
{
    if a.len() > 0 {
        let front = a.drop_last();
        let x = a.last();
        lemma_count_answers(front, t);
        assert(asked_about(a).drop_last() =~= asked_about(front));
        lemma_count_push(taken(front), x.0, t);
        lemma_count_push(gone_before(front), x.0, t);
        lemma_count_push(turned_down(front), x.0, t);
    }
}

proof fn lemma_count_without(s: Seq<ResourceIdView>, others: Seq<ResourceIdView>, t: ResourceIdView)
    ensures
        count_of(without(s, others), t) == if others.contains(t) {
            0
        } else {
            count_of(s, t)
        },
    decreases s.len(),
{
    if s.len() > 0 {
        lemma_count_without(s.drop_last(), others, t);
        lemma_count_push(without(s.drop_last(), others), s.last(), t);
    }
}

proof fn lemma_count_by_recreation(
    s: Seq<ResourceIdView>,
    recreated: Seq<(ResourceId, String, String)>,
    wanted: bool,
    t: ResourceIdView,
)
    ensures
        count_of(by_recreation(s, recreated, wanted), t) == if was_recreated(recreated, t)
            == wanted {
            count_of(s, t)
        } else {
            0
        },
    decreases s.len(),
{
    if s.len() > 0 {
        lemma_count_by_recreation(s.drop_last(), recreated, wanted, t);
        lemma_count_push(by_recreation(s.drop_last(), recreated, wanted), s.last(), t);
    }
}

/// What was waited for has gone or remains.
proof fn lemma_count_parted(
    asked: Seq<ResourceIdView>,
    remaining: Seq<ResourceIdView>,
    t: ResourceIdView,
)
    requires
        is_part(remaining, asked),
        count_of(asked, t) <= 1,
    ensures
        count_of(asked, t) == count_of(without(asked, remaining), t) + count_of(remaining, t),
{
    lemma_count_without(asked, remaining, t);
    lemma_count_member(remaining, t);
    lemma_count_member(asked, t);
}

proof fn lemma_settled_holds(w: WaveView, t: ResourceIdView)
    ensures
        !wave_settled(w).stopped ==> held(wave_settled(w), t) == count_of(w.accepted_gone, t)
            + count_of(w.already_gone, t) + count_of(w.rejected, t),
{
}

proof fn lemma_recreated_holds(
    w: WaveView,
    asked: Seq<ResourceIdView>,
    remaining: Seq<ResourceIdView>,
    recreated: Seq<(ResourceId, String, String)>,
    t: ResourceIdView,
)
    requires
        is_part(remaining, asked),
        count_of(asked, t) <= 1,
    ensures
        ({
            let next = wave_recreated(w, asked, remaining, recreated);
            !next.stopped ==> held(next, t) == count_of(w.accepted_gone, t) + count_of(
                w.already_gone,
                t,
            ) + count_of(asked, t) + count_of(w.rejected, t)
        }),
{
    let gone = without(asked, remaining);
    let again = by_recreation(remaining, recreated, true);
    let still = by_recreation(remaining, recreated, false);
    lemma_count_parted(asked, remaining, t);
    lemma_count_by_recreation(remaining, recreated, true, t);
    lemma_count_by_recreation(remaining, recreated, false, t);
    lemma_count_add(w.accepted_gone, gone, t);
    lemma_count_add(w.accepted_gone + gone, again, t);
    if still.len() == 0 {
        lemma_settled_holds(
            WaveView {
                accepted_gone: w.accepted_gone + gone + again,
                progressed: w.progressed || gone.len() > 0 || again.len() > 0,
                waiting: still,
                record: false,
                ..w
            },
            t,
        );
    }
}

proof fn lemma_next_holds(w: WaveView, e: WaveEvent, t: ResourceIdView)
    requires
        !w.stopped,
        !w.must_stop,
        held(w, t) <= 1,
        is_exact(w, e),
    ensures
        !wave_next(w, e).stopped && !wave_next(w, e).must_stop ==> held(wave_next(w, e), t)
            == held(w, t),
{
    match (w.stage, e) {
        (WaveStage::Delete, WaveEvent::Answered(a)) => {
            if halting(a).len() == 0 {
                lemma_count_answers(a, t);
                lemma_count_add(w.already_gone, gone_before(a), t);
                assert(count_of(asked_about(a), t) == count_of(w.pending, t));
            }
        },
        (WaveStage::Wait, WaveEvent::Waited(result, _)) => {
            match result {
                WatchWaitResult::AllGone => {
                    lemma_count_add(w.accepted_gone, w.accepted, t);
                },
                WatchWaitResult::Cancelled => {},
                WatchWaitResult::Stalled { remaining, .. } => {
                    let rem = ids(remaining@);
                    lemma_count_parted(w.accepted, rem, t);
                    lemma_count_add(w.accepted_gone, without(w.accepted, rem), t);
                },
                WatchWaitResult::Recreated { remaining, recreated } => {
                    lemma_recreated_holds(w, w.accepted, ids(remaining@), recreated@, t);
                },
            }
        },
        (WaveStage::WaitRecovered, WaveEvent::WaitedAgain(_)) => {
            lemma_count_add(w.accepted_gone, w.waiting, t);
        },
        (WaveStage::Rewait, WaveEvent::WaitedAgain(result)) => {
            match result {
                WatchWaitResult::AllGone => {
                    lemma_count_absorbed(w.accepted_gone, w.waiting, t);
                },
                WatchWaitResult::Recreated { remaining, recreated } => {
                    lemma_recreated_holds(w, w.waiting, ids(remaining@), recreated@, t);
                },
                _ => {},
            }
        },
        _ => {},
    }
}

/// A run that begins holds each of its targets as many times as it was given.
pub proof fn law_new_run_holds_its_targets(w: WaveView)
    requires
        w.stage is Delete,
        w.accepted_gone.len() == 0,
        w.already_gone.len() == 0,
        !w.must_stop,
    ensures
        holds_exactly(w, w.pending),
{
}

/// Over distinct targets, no step of a run that is not stopped drops a target, counts one
/// twice or adds one.
pub proof fn law_targets_are_neither_dropped_nor_doubled(
    w: WaveView,
    e: WaveEvent,
    targets: Seq<ResourceIdView>,
)
    requires
        targets.no_duplicates(),
        holds_exactly(w, targets),
        is_exact(w, e),
    ensures
        holds_exactly(wave_next(w, e), targets),
{
    let next = wave_next(w, e);
    if !w.stopped && !w.must_stop {
        assert forall|t: ResourceIdView| !next.stopped && !next.must_stop implies #[trigger] held(
            next,
            t,
        ) == count_of(targets, t) by {
            lemma_count_member(targets, t);
            assert(held(w, t) == count_of(targets, t));
            lemma_next_holds(w, e, t);
        }
    }
}

/// A run over distinct targets that ends without a stop has put each target exactly once
/// among those whose DELETE was taken or among those that were gone before, and nothing
/// else.
pub proof fn law_each_target_ends_in_one_place(w: WaveView, targets: Seq<ResourceIdView>)
    requires
        targets.no_duplicates(),
        holds_exactly(w, targets),
        w.stage is Done,
        !w.stopped,
    ensures
        forall|t: ResourceIdView|
            count_of(w.accepted_gone, t) + count_of(w.already_gone, t) == #[trigger] count_of(
                targets,
                t,
            ),
        forall|t: ResourceIdView| #[trigger]
            targets.contains(t) ==> count_of(w.accepted_gone, t) + count_of(w.already_gone, t) == 1,
        forall|t: ResourceIdView| #[trigger]
            targets.contains(t) ==> w.accepted_gone.contains(t) != w.already_gone.contains(t),
{
    assert forall|t: ResourceIdView|
        count_of(w.accepted_gone, t) + count_of(w.already_gone, t) == #[trigger] count_of(
            targets,
            t,
        ) by {
        assert(held(w, t) == count_of(targets, t));
    }
    assert forall|t: ResourceIdView| #[trigger] targets.contains(t) implies count_of(
        w.accepted_gone,
        t,
    ) + count_of(w.already_gone, t) == 1 && w.accepted_gone.contains(t) != w.already_gone.contains(
        t,
    ) by {
        lemma_count_member(targets, t);
        lemma_count_member(w.accepted_gone, t);
        lemma_count_member(w.already_gone, t);
        assert(held(w, t) == count_of(targets, t));
    }
}

/// An answer that blocks or that leaves the outcome unknown stops the run: once the answers
/// are written down the run is over, and it stays as it is, whatever happens. Until then
/// nothing else happens.
pub proof fn law_stop_is_final(w: WaveView, a: Seq<WaveAnswer>, e: WaveEvent)
    requires
        w.stage is Delete,
        exists|i: int|
            0 <= i < a.len() && ((#[trigger] a[i]).1 is Blocked || a[i].1 is Unknown),
    ensures
        ({
            let answered = wave_next(w, WaveEvent::Answered(a));
            let over = wave_next(answered, WaveEvent::Recorded);
            &&& !(e is Recorded) ==> wave_next(answered, e) == answered
            &&& over.stopped
            &&& over.stage is Done
            &&& wave_next(over, e) == over
        }),
{
    let i = choose|i: int|
        0 <= i < a.len() && ((#[trigger] a[i]).1 is Blocked || a[i].1 is Unknown);
    let f = |x: WaveAnswer|
        match x.1 {
            DeleteResultView::Blocked(reason) => Some((x.0, reason)),
            DeleteResultView::Unknown(reason) => Some((x.0, reason)),
            _ => None,
        };
    lemma_pick_members(a, f);
    assert(f(a[i]) is Some);
    assert(halting(a).contains(f(a[i])->0));
}

/// What was taken, and what stops the run, is written down before the run waits, tries again
/// or ends: after the answers of a wave nothing but the journal's word moves it on.
pub proof fn law_answers_are_recorded_first(w: WaveView, a: Seq<WaveAnswer>, e: WaveEvent)
    requires
        w.stage is Delete,
    ensures
        ({
            let answered = wave_next(w, WaveEvent::Answered(a));
            &&& answered.stage is Checkpoint
            &&& answered.record
            &&& answered.accepted == taken(a)
            &&& answered.failed == w.failed + halting(a)
            &&& !(e is Recorded) ==> wave_next(answered, e) == answered
        }),
{
}

/// Each further wave has fewer targets than the one before: at most as many
/// waves are run as there are targets. The wave's answers are one per target.
pub proof fn law_waves_shrink(w: WaveView, a: Seq<WaveAnswer>)
    requires
        w.stage is Delete,
        a.len() == w.pending.len(),
    ensures
        ({
            let next = wave_next(wave_next(w, WaveEvent::Answered(a)), WaveEvent::Recorded);
            &&& next.stage is Delete ==> next.pending.len() < w.pending.len()
            &&& next.stage is Wait ==> next.rejected.len() < w.pending.len()
        }),
{
    lemma_answer_kinds(a);
}

/// While a wave waits, what it will try again stays what was turned down.
pub proof fn law_waits_keep_the_rejected(w: WaveView, e: WaveEvent)
    requires
        !(w.stage is Delete),
    ensures
        wave_next(w, e).stage is Delete ==> wave_next(w, e).pending == w.rejected,
        !(wave_next(w, e).stage is Delete) ==> wave_next(w, e).rejected == w.rejected,
{
}

/// Only a target whose DELETE was taken can be deleted again, and none can after
/// a stop.
pub proof fn law_authority_comes_from_accepted(gone: Seq<ResourceIdView>, i: int)
    requires
        0 <= i < authorities(gone).len(),
    ensures
        gone.contains(authorities(gone)[i].0),
        authorities(gone)[i].0.uid == Some(authorities(gone)[i].1),
{
    let f = |r: ResourceIdView|
        match r.uid {
            Some(uid) => Some((r, uid)),
            None => None,
        };
    lemma_pick_members(gone, f);
    let a = authorities(gone)[i];
    assert(pick(gone, f).contains(a));
    let k = choose|k: int| 0 <= k < gone.len() && f(#[trigger] gone[k]) == Some(a);
    assert(gone[k] == a.0);
}

/// Everything the run counts as gone, waits for or holds is one of `targets`.
pub open spec fn stays_within(w: WaveView, targets: Seq<ResourceIdView>) -> bool {
    &&& forall|t: ResourceIdView| #[trigger] w.pending.contains(t) ==> targets.contains(t)
    &&& forall|t: ResourceIdView| #[trigger] w.accepted.contains(t) ==> targets.contains(t)
    &&& forall|t: ResourceIdView| #[trigger] w.rejected.contains(t) ==> targets.contains(t)
    &&& forall|t: ResourceIdView| #[trigger] w.waiting.contains(t) ==> targets.contains(t)
    &&& forall|t: ResourceIdView| #[trigger] w.accepted_gone.contains(t) ==> targets.contains(t)
    &&& forall|t: ResourceIdView| #[trigger] w.already_gone.contains(t) ==> targets.contains(t)
}

/// What remains of a wait is some of `targets`.
pub open spec fn wait_within(result: WatchWaitResult, targets: Seq<ResourceIdView>) -> bool {
    match result {
        WatchWaitResult::Stalled { remaining, .. } => forall|t: ResourceIdView| #[trigger]
            ids(remaining@).contains(t) ==> targets.contains(t),
        WatchWaitResult::Recreated { remaining, .. } => forall|t: ResourceIdView| #[trigger]
            ids(remaining@).contains(t) ==> targets.contains(t),
        _ => true,
    }
}

/// The event speaks of nothing but `targets`.
pub open spec fn event_within(e: WaveEvent, targets: Seq<ResourceIdView>) -> bool {
    match e {
        WaveEvent::Answered(a) => forall|i: int|
            0 <= i < a.len() ==> targets.contains((#[trigger] a[i]).0),
        WaveEvent::Waited(result, _) => wait_within(result, targets),
        WaveEvent::WaitedAgain(result) => wait_within(result, targets),
        _ => true,
    }
}

proof fn lemma_answers_within(a: Seq<WaveAnswer>, targets: Seq<ResourceIdView>)
    requires
        forall|i: int| 0 <= i < a.len() ==> targets.contains((#[trigger] a[i]).0),
    ensures
        forall|t: ResourceIdView| #[trigger] taken(a).contains(t) ==> targets.contains(t),
        forall|t: ResourceIdView| #[trigger] gone_before(a).contains(t) ==> targets.contains(t),
        forall|t: ResourceIdView| #[trigger] turned_down(a).contains(t) ==> targets.contains(t),
{
    lemma_pick_members(
        a,
        |x: WaveAnswer|
            if x.1 is Accepted {
                Some(x.0)
            } else {
                None
            },
    );
    lemma_pick_members(
        a,
        |x: WaveAnswer|
            if x.1 is AlreadyGone {
                Some(x.0)
            } else {
                None
            },
    );
    lemma_pick_members(
        a,
        |x: WaveAnswer|
            if x.1 is Rejected {
                Some(x.0)
            } else {
                None
            },
    );
}

proof fn lemma_recreated_within(
    w: WaveView,
    asked: Seq<ResourceIdView>,
    remaining: Seq<ResourceIdView>,
    recreated: Seq<(ResourceId, String, String)>,
    targets: Seq<ResourceIdView>,
)
    requires
        stays_within(w, targets),
        forall|t: ResourceIdView| #[trigger] asked.contains(t) ==> targets.contains(t),
        forall|t: ResourceIdView| #[trigger] remaining.contains(t) ==> targets.contains(t),
    ensures
        stays_within(wave_recreated(w, asked, remaining, recreated), targets),
{
    let gone = without(asked, remaining);
    let again = by_recreation(remaining, recreated, true);
    let still = by_recreation(remaining, recreated, false);
    let all = w.accepted_gone + gone + again;
    assert forall|t: ResourceIdView| #[trigger] all.contains(t) implies targets.contains(t) by {
        lemma_without(asked, remaining, t);
        lemma_by_recreation(remaining, recreated, true, t);
        lemma_contains_add(w.accepted_gone, gone, t);
        lemma_contains_add(w.accepted_gone + gone, again, t);
    }
    assert forall|t: ResourceIdView| #[trigger] still.contains(t) implies targets.contains(t) by {
        lemma_by_recreation(remaining, recreated, false, t);
    }
}

/// A run counts nothing as deleted but its own targets, as long as answers and
/// waits speak of nothing else.
pub proof fn law_run_stays_within_targets(w: WaveView, e: WaveEvent, targets: Seq<ResourceIdView>)
    requires
        stays_within(w, targets),
        event_within(e, targets),
    ensures
        stays_within(wave_next(w, e), targets),
{
    match (w.stage, e) {
        (WaveStage::Delete, WaveEvent::Answered(a)) => {
            lemma_answers_within(a, targets);
            assert forall|t: ResourceIdView| #[trigger]
                (w.already_gone + gone_before(a)).contains(t) implies targets.contains(t) by {
                lemma_contains_add(w.already_gone, gone_before(a), t);
            }
        },
        (WaveStage::Wait, WaveEvent::Waited(result, _)) => {
            match result {
                WatchWaitResult::AllGone => {
                    assert forall|t: ResourceIdView| #[trigger]
                        (w.accepted_gone + w.accepted).contains(t) implies targets.contains(t) by {
                        lemma_contains_add(w.accepted_gone, w.accepted, t);
                    }
                },
                WatchWaitResult::Stalled { remaining, .. } => {
                    let rem = ids(remaining@);
                    assert forall|t: ResourceIdView| #[trigger]
                        (w.accepted_gone + without(w.accepted, rem)).contains(
                            t,
                        ) implies targets.contains(t) by {
                        lemma_without(w.accepted, rem, t);
                        lemma_contains_add(w.accepted_gone, without(w.accepted, rem), t);
                    }
                },
                WatchWaitResult::Recreated { remaining, recreated } => {
                    lemma_recreated_within(
                        w,
                        w.accepted,
                        ids(remaining@),
                        recreated@,
                        targets,
                    );
                },
                _ => {},
            }
        },
        (WaveStage::WaitRecovered, WaveEvent::WaitedAgain(_)) => {
            assert forall|t: ResourceIdView| #[trigger]
                (w.accepted_gone + w.waiting).contains(t) implies targets.contains(t) by {
                lemma_contains_add(w.accepted_gone, w.waiting, t);
            }
        },
        (WaveStage::Rewait, WaveEvent::WaitedAgain(result)) => {
            match result {
                WatchWaitResult::AllGone => {
                    assert forall|t: ResourceIdView| #[trigger]
                        absorbed(w.accepted_gone, w.waiting).contains(
                            t,
                        ) implies targets.contains(t) by {
                        lemma_absorbed(w.accepted_gone, w.waiting, t);
                    }
                },
                WatchWaitResult::Recreated { remaining, recreated } => {
                    lemma_recreated_within(
                        w,
                        w.waiting,
                        ids(remaining@),
                        recreated@,
                        targets,
                    );
                },
                _ => {},
            }
        },
        _ => {},
    }
}

} // verus!
