//! The course of an audit.
//!
//! The planned objects and the namespaces are looked at first. What was found there
//! decides on the steps that follow.

use vstd::prelude::*;

use crate::audit::attribution::ListScope;
use crate::audit::report::status_of;
use crate::audit::scan::{
    after_probe, after_probe_endpoint, begin_audit, collect_plan_resources, collect_target_uids,
    counted, endpoint_shows, failures_are_noted, first_steps, found_items, has_no_probe,
    has_note, has_room, is_target_uid, lacks_knowledge, last_steps, law_failed_list_is_noted,
    law_failed_probe_is_noted, law_missing_knowledge_is_noted, left_in_place, lemma_first_steps,
    lemma_found_before, lemma_last_steps, lemma_objects_keep_errors, list_taken, place,
    plan_first_steps, plan_last_steps, plural_of, probe_shows, probe_taken, probes, record_list,
    record_probe, resolve_plural, steps, unknown_type, AuditStep, ProbeRole, ProbeView,
    StepView, TargetView,
};
use crate::audit::{push_error, AuditCoverage, AuditView, ResidualAudit, ResidualItemView};
use crate::cluster::{GetReply, LiveObject, RequestError};
use crate::collections::KeySet;
use crate::journal::{AuditContext, RunJournal};
use crate::lists::{ids, pick};
use crate::planner::{all_actions, subject, Action};
use crate::resource::{ResourceId, ResourceIdView};

verus! {

/// What an audit waits for.
#[derive(Debug)]
pub enum AuditStage {
    /// Nothing: it may go on to its next step.
    Next,
    /// The GET of the object, under this plural.
    Get { plural: String },
    /// Whether objects of the type can be listed, where the object was not found.
    VerifyEndpoint { plural: String },
    /// The list of the type.
    List,
    /// Nothing: the audit is over.
    Done,
}

/// The contents of an [`AuditStage`].
#[verifier::ext_equal]
pub enum AuditStageView {
    Next,
    Get(Seq<char>),
    VerifyEndpoint(Seq<char>),
    List,
    Done,
}

impl View for AuditStage {
    type V = AuditStageView;

    open spec fn view(&self) -> AuditStageView {
        match self {
            AuditStage::Next => AuditStageView::Next,
            AuditStage::Get { plural } => AuditStageView::Get(plural@),
            AuditStage::VerifyEndpoint { plural } => AuditStageView::VerifyEndpoint(plural@),
            AuditStage::List => AuditStageView::List,
            AuditStage::Done => AuditStageView::Done,
        }
    }
}

/// What an audit is told.
#[derive(Debug)]
pub enum AuditEvent {
    /// To go on.
    Proceed,
    /// The reply to the GET.
    Reply(GetReply),
    /// Whether one object of the type could be listed.
    Endpoint(bool),
    /// The answer to the list.
    Listed(Result<Vec<LiveObject>, RequestError>),
}

/// An audit under way.
#[derive(Debug)]
pub struct AuditRun {
    /// What was found so far.
    pub audit: ResidualAudit,
    /// The UIDs that tie an object to the operator.
    pub uids: KeySet<String>,
    /// Everything that the plan speaks of.
    pub planned: Vec<ResourceId>,
    pub steps: Vec<AuditStep>,
    /// The position of the step that has its turn.
    pub at: usize,
    /// The steps are the last ones.
    pub last: bool,
    pub stage: AuditStage,
}

/// The contents of an [`AuditRun`].
#[verifier::ext_equal]
pub struct AuditRunView {
    pub audit: AuditView,
    pub uids: KeySet<String>,
    pub planned: Seq<ResourceIdView>,
    pub steps: Seq<StepView>,
    pub at: int,
    pub last: bool,
    pub stage: AuditStageView,
}

impl View for AuditRun {
    type V = AuditRunView;

    open spec fn view(&self) -> AuditRunView {
        AuditRunView {
            audit: self.audit@,
            uids: self.uids,
            planned: ids(self.planned@),
            steps: steps(self.steps@),
            at: self.at as int,
            last: self.last,
            stage: self.stage@,
        }
    }
}

/// The stage goes with the step that has its turn.
pub open spec fn audit_fits(v: AuditRunView) -> bool {
    &&& 0 <= v.at <= v.steps.len()
    &&& v.stage is Get || v.stage is VerifyEndpoint ==> v.at < v.steps.len()
        && v.steps[v.at] is Probe
    &&& v.stage is List ==> v.at < v.steps.len() && v.steps[v.at] is List
}

/// The step is done, and left this behind.
pub open spec fn moved_on(v: AuditRunView, audit: AuditView) -> AuditRunView {
    AuditRunView { audit, at: v.at + 1, stage: AuditStageView::Next, ..v }
}

/// The object of the step was looked at.
pub open spec fn looked_at(v: AuditRunView, result: ProbeView) -> AuditRunView {
    match v.steps[v.at] {
        StepView::Probe { role, resource } => moved_on(
            v,
            probe_taken(v.audit, role, resource, result),
        ),
        _ => v,
    }
}

/// The type of the step was listed.
pub open spec fn listed_at(
    v: AuditRunView,
    j: RunJournal,
    reply: Result<Vec<LiveObject>, RequestError>,
) -> AuditRunView {
    match v.steps[v.at] {
        StepView::List { target, namespace } => moved_on(
            v,
            list_taken(
                v.audit,
                scope_of(target, namespace),
                reply,
                j.audit_context,
                v.uids,
                v.planned,
            ),
        ),
        _ => v,
    }
}

/// Where a list looks.
pub open spec fn scope_of(t: TargetView, namespace: Option<Seq<char>>) -> ListScope {
    ListScope { group: t.group, version: t.version, kind: t.kind, namespace: place(namespace) }
}

/// The audit goes on to the step that has its turn, to the last steps, or to its end.
pub open spec fn proceeded(v: AuditRunView, j: RunJournal) -> AuditRunView {
    if v.at < v.steps.len() {
        match v.steps[v.at] {
            StepView::Probe { resource, .. } => match plural_of(
                resource,
                j.audit_context.known_gvrs,
            ) {
                Some(plural) => AuditRunView { stage: AuditStageView::Get(plural), ..v },
                None => looked_at(v, unknown_type(resource)),
            },
            StepView::List { .. } => AuditRunView { stage: AuditStageView::List, ..v },
            StepView::Note(e) => moved_on(
                v,
                AuditView { errors: v.audit.errors.push(e), ..v.audit },
            ),
        }
    } else if !v.last {
        AuditRunView {
            steps: closing(j, v.audit.deletes),
            at: 0,
            last: true,
            ..v
        }
    } else {
        AuditRunView { stage: AuditStageView::Done, ..v }
    }
}

/// The audit after it was told something. What it does not wait for changes nothing.
pub open spec fn audit_next(v: AuditRunView, j: RunJournal, e: AuditEvent) -> AuditRunView {
    match (v.stage, e) {
        (AuditStageView::Next, AuditEvent::Proceed) => proceeded(v, j),
        (AuditStageView::Get(plural), AuditEvent::Reply(reply)) => match probe_shows(reply) {
            Some(result) => looked_at(v, result),
            None => AuditRunView { stage: AuditStageView::VerifyEndpoint(plural), ..v },
        },
        (AuditStageView::VerifyEndpoint(_), AuditEvent::Endpoint(ok)) => match v.steps[v.at] {
            StepView::Probe { resource, .. } => looked_at(v, endpoint_shows(resource, ok)),
            _ => v,
        },
        (AuditStageView::List, AuditEvent::Listed(reply)) => listed_at(v, j, reply),
        _ => v,
    }
}

/// The last steps of the audit of a journal, with these objects to delete still there.
pub open spec fn closing(j: RunJournal, items: Seq<ResidualItemView>) -> Seq<StepView> {
    last_steps(
        j.operator.owned_crds@.len() > 0,
        all_actions(j.plan_snapshot.phases@),
        j.audit_context,
        items,
    )
}

/// The first steps of the audit of a journal.
pub open spec fn opening(j: RunJournal) -> Seq<StepView> {
    first_steps(all_actions(j.plan_snapshot.phases@), j.audit_context.footprint_namespaces.order())
}

/// An audit that begins.
pub open spec fn audit_begun(v: AuditRunView, j: RunJournal) -> bool {
    let actions = all_actions(j.plan_snapshot.phases@);
    &&& v.audit == AuditView {
        deletes: seq![],
        expects: seq![],
        preserved: pick(actions, |a: Action| left_in_place(a)),
        likely: seq![],
        unattributed: seq![],
        coverage: AuditCoverage { requested_probes: 0, succeeded_probes: 0 },
        errors: seq![],
    }
    &&& forall|t: Seq<char>| #[trigger] v.uids.has(t) == is_target_uid(j.operator, actions, t)
    &&& v.planned == actions.map_values(|a: Action| subject(a)@)
    &&& v.steps == opening(j)
    &&& v.at == 0
    &&& !v.last
    &&& v.stage is Next
}

impl AuditRun {
    /// An audit that begins.
    pub fn begin(journal: &RunJournal) -> (r: AuditRun)
        ensures
            audit_begun(r@, *journal),
            audit_fits(r@),
    {
        let phases = &journal.plan_snapshot.phases;
        AuditRun {
            audit: begin_audit(phases),
            uids: collect_target_uids(&journal.operator, phases),
            planned: collect_plan_resources(phases),
            steps: plan_first_steps(phases, &journal.audit_context.footprint_namespaces),
            at: 0,
            last: false,
            stage: AuditStage::Next,
        }
    }

    fn proceed(&mut self, journal: &RunJournal)
        requires
            audit_fits(old(self)@),
            old(self)@.stage is Next,
            has_room(old(self)@.audit.coverage),
        ensures
            final(self)@ == proceeded(old(self)@, *journal),
    {
        let count: usize = self.steps.len();
        if self.at < count {
            assert(self@.steps[self.at as int] == self.steps@[self.at as int]@);
            match &self.steps[self.at] {
                AuditStep::Probe { role, resource } => {
                    match resolve_plural(resource, &journal.audit_context.known_gvrs) {
                        Ok(plural) => {
                            self.stage = AuditStage::Get { plural };
                        },
                        Err(result) => {
                            record_probe(&mut self.audit, *role, resource, &result);
                            self.at = self.at + 1;
                        },
                    }
                },
                AuditStep::List { .. } => {
                    self.stage = AuditStage::List;
                },
                AuditStep::Note { resource_type, namespace, error } => {
                    push_error(
                        &mut self.audit,
                        resource_type.clone(),
                        namespace.clone(),
                        error.clone(),
                    );
                    self.at = self.at + 1;
                },
            }
        } else if !self.last {
            self.steps = plan_last_steps(
                &journal.operator.owned_crds,
                &journal.plan_snapshot.phases,
                &journal.audit_context,
                &self.audit,
            );
            self.at = 0;
            self.last = true;
        } else {
            self.stage = AuditStage::Done;
        }
    }

    fn read(&mut self, plural: String, reply: &GetReply)
        requires
            audit_fits(old(self)@),
            old(self)@.at < old(self)@.steps.len(),
            old(self)@.steps[old(self)@.at] is Probe,
            has_room(old(self)@.audit.coverage),
        ensures
            final(self)@ == match probe_shows(*reply) {
                Some(result) => looked_at(old(self)@, result),
                None => AuditRunView {
                    stage: AuditStageView::VerifyEndpoint(plural@),
                    ..old(self)@
                },
            },
    {
        let _count: usize = self.steps.len();
        assert(self@.steps[self.at as int] == self.steps@[self.at as int]@);
        match after_probe(reply) {
            Some(result) => {
                if let AuditStep::Probe { role, resource } = &self.steps[self.at] {
                    record_probe(&mut self.audit, *role, resource, &result);
                    self.at = self.at + 1;
                    self.stage = AuditStage::Next;
                }
            },
            None => {
                self.stage = AuditStage::VerifyEndpoint { plural };
            },
        }
    }

    fn read_endpoint(&mut self, ok: bool)
        requires
            audit_fits(old(self)@),
            old(self)@.at < old(self)@.steps.len(),
            old(self)@.steps[old(self)@.at] is Probe,
            has_room(old(self)@.audit.coverage),
        ensures
            final(self)@ == looked_at(
                old(self)@,
                endpoint_shows(old(self)@.steps[old(self)@.at]->resource, ok),
            ),
    {
        let _count: usize = self.steps.len();
        assert(self@.steps[self.at as int] == self.steps@[self.at as int]@);
        if let AuditStep::Probe { role, resource } = &self.steps[self.at] {
            let result = after_probe_endpoint(resource, ok);
            record_probe(&mut self.audit, *role, resource, &result);
            self.at = self.at + 1;
            self.stage = AuditStage::Next;
        }
    }

    fn read_list(&mut self, journal: &RunJournal, reply: &Result<Vec<LiveObject>, RequestError>)
        requires
            audit_fits(old(self)@),
            old(self)@.at < old(self)@.steps.len(),
            old(self)@.steps[old(self)@.at] is List,
            has_room(old(self)@.audit.coverage),
        ensures
            final(self)@ == listed_at(old(self)@, *journal, *reply),
    {
        let _count: usize = self.steps.len();
        assert(self@.steps[self.at as int] == self.steps@[self.at as int]@);
        if let AuditStep::List { group, version, kind, namespace, .. } = &self.steps[self.at] {
            record_list(
                &mut self.audit,
                group.as_str(),
                version.as_str(),
                kind.as_str(),
                namespace,
                reply,
                &journal.audit_context,
                &self.uids,
                &self.planned,
            );
            self.at = self.at + 1;
            self.stage = AuditStage::Next;
        }
    }

    /// Tells the audit something.
    pub fn step(self, journal: &RunJournal, event: AuditEvent) -> (r: AuditRun)
        requires
            audit_fits(self@),
            has_room(self@.audit.coverage),
        ensures
            r@ == audit_next(self@, *journal, event),
            audit_fits(r@),
    {
        let AuditRun { audit, uids, planned, steps, at, last, stage } = self;
        let mut run = AuditRun { audit, uids, planned, steps, at, last, stage: AuditStage::Next };
        match stage {
            AuditStage::Next => match event {
                AuditEvent::Proceed => run.proceed(journal),
                _ => {},
            },
            AuditStage::Get { plural } => match event {
                AuditEvent::Reply(reply) => run.read(plural, &reply),
                _ => {
                    run.stage = AuditStage::Get { plural };
                },
            },
            AuditStage::VerifyEndpoint { plural } => match event {
                AuditEvent::Endpoint(ok) => run.read_endpoint(ok),
                _ => {
                    run.stage = AuditStage::VerifyEndpoint { plural };
                },
            },
            AuditStage::List => match event {
                AuditEvent::Listed(reply) => run.read_list(journal, &reply),
                _ => {
                    run.stage = AuditStage::List;
                },
            },
            AuditStage::Done => {
                run.stage = AuditStage::Done;
            },
        }
        run
    }
}

/// How many of the steps look at something: all but the notes.
pub open spec fn looks(s: Seq<StepView>) -> nat
    decreases s.len(),
{
    if s.len() == 0 {
        0
    } else {
        looks(s.drop_last()) + if s.last() is Note {
            0nat
        } else {
            1
        }
    }
}

/// Every step that was taken was counted if it looked at something, and every look
/// that failed was noted.
pub open spec fn is_accounted(v: AuditRunView, j: RunJournal) -> bool {
    let before = if v.last {
        looks(opening(j))
    } else {
        0
    };
    &&& !v.last ==> v.steps == opening(j)
    &&& v.audit.coverage.requested_probes == before + looks(v.steps.take(v.at))
    &&& v.audit.coverage.succeeded_probes <= v.audit.coverage.requested_probes
    &&& failures_are_noted(v.audit)
    &&& v.stage is Done ==> v.last && v.at == v.steps.len()
}

/// An audit that begins is accounted for.
pub proof fn law_audit_begins_accounted(v: AuditRunView, j: RunJournal)
    requires
        audit_begun(v, j),
    ensures
        is_accounted(v, j),
{
    assert(v.steps.take(0) =~= seq![]);
}

/// An audit stays accounted for, whatever the cluster answers.
pub proof fn law_audit_stays_accounted(v: AuditRunView, j: RunJournal, e: AuditEvent)
    requires
        audit_fits(v),
        has_room(v.audit.coverage),
        is_accounted(v, j),
    ensures
        is_accounted(audit_next(v, j, e), j),
{
    let w = audit_next(v, j, e);
    if v.at < v.steps.len() {
        let more = v.steps.take(v.at + 1);
        assert(more.drop_last() =~= v.steps.take(v.at));
        assert(more.last() == v.steps[v.at]);
        match v.steps[v.at] {
            StepView::Probe { role, resource } => {
                law_failed_probe_is_noted(v.audit, role, resource, unknown_type(resource));
                if let AuditEvent::Reply(reply) = e {
                    if probe_shows(reply) is Some {
                        law_failed_probe_is_noted(
                            v.audit,
                            role,
                            resource,
                            probe_shows(reply)->Some_0,
                        );
                    }
                }
                if let AuditEvent::Endpoint(ok) = e {
                    law_failed_probe_is_noted(v.audit, role, resource, endpoint_shows(resource, ok));
                }
            },
            StepView::List { target, namespace } => {
                if let AuditEvent::Listed(reply) = e {
                    let scope = scope_of(target, namespace);
                    law_failed_list_is_noted(
                        v.audit,
                        scope,
                        reply,
                        j.audit_context,
                        v.uids,
                        v.planned,
                    );
                    lemma_list_coverage(
                        v.audit,
                        scope,
                        reply,
                        j.audit_context,
                        v.uids,
                        v.planned,
                    );
                }
            },
            StepView::Note(_) => {},
        }
    } else {
        assert(v.steps.take(v.at) =~= v.steps);
        assert(w.steps.take(0) =~= seq![]);
    }
}

proof fn lemma_list_coverage(
    a: AuditView,
    scope: ListScope,
    reply: Result<Vec<LiveObject>, RequestError>,
    ctx: AuditContext,
    uids: KeySet<String>,
    planned: Seq<ResourceIdView>,
)
    ensures
        list_taken(a, scope, reply, ctx, uids, planned).coverage == counted(
            a.coverage,
            reply is Ok,
        ),
{
    if reply is Ok {
        let b = AuditView { coverage: counted(a.coverage, true), ..a };
        let items = reply->Ok_0@;
        lemma_objects_keep_errors(b, items, items.len(), scope, ctx, uids, planned);
    }
}

/// An audit that is over and has noted no error looked at everything that was to be
/// looked at, and each look succeeded.
pub proof fn law_silent_audit_saw_everything(v: AuditRunView, j: RunJournal)
    requires
        is_accounted(v, j),
        v.stage is Done,
        v.audit.errors.len() == 0,
    ensures
        v.audit.coverage.requested_probes == looks(opening(j)) + looks(v.steps),
        v.audit.coverage.succeeded_probes == v.audit.coverage.requested_probes,
{
    assert(v.steps.take(v.at) =~= v.steps);
}

/// An audit that is over and counts as complete looked at everything that was to be
/// looked at, and each look succeeded.
pub proof fn law_complete_audit_saw_everything(run: AuditRun, j: RunJournal)
    requires
        is_accounted(run@, j),
        run@.stage is Done,
        !(status_of(run.audit) is AuditIncomplete),
    ensures
        run.audit.coverage.requested_probes == looks(opening(j)) + looks(run@.steps),
        run.audit.coverage.succeeded_probes == run.audit.coverage.requested_probes,
{
    assert(run@.audit.errors.len() == run.audit.scan_errors@.len());
    law_silent_audit_saw_everything(run@, j);
}

/// The audit after it was told one thing after the other.
pub open spec fn audit_after(v: AuditRunView, j: RunJournal, events: Seq<AuditEvent>) -> AuditRunView
    decreases events.len(),
{
    if events.len() == 0 {
        v
    } else {
        audit_next(audit_after(v, j, events.drop_last()), j, events.last())
    }
}

/// The last steps are those of the journal, and every note that had its turn was taken.
pub open spec fn is_noted(v: AuditRunView, j: RunJournal) -> bool {
    &&& audit_fits(v)
    &&& v.last ==> exists|items: Seq<ResidualItemView>|
        v.steps == #[trigger] closing(j, items)
    &&& has_note(v.steps.take(v.at)) && v.last ==> v.audit.errors.len() > 0
    &&& v.stage is Done ==> v.last && v.at == v.steps.len()
}

proof fn lemma_errors_grow(v: AuditRunView, j: RunJournal, e: AuditEvent)
    requires
        audit_fits(v),
    ensures
        audit_next(v, j, e).audit.errors.len() >= v.audit.errors.len(),
{
    if let (AuditStageView::List, AuditEvent::Listed(Ok(items))) = (v.stage, e) {
        if let StepView::List { target, namespace } = v.steps[v.at] {
            let b = AuditView { coverage: counted(v.audit.coverage, true), ..v.audit };
            lemma_objects_keep_errors(
                b,
                items@,
                items@.len(),
                scope_of(target, namespace),
                j.audit_context,
                v.uids,
                v.planned,
            );
        }
    }
}

proof fn lemma_stays_noted(v: AuditRunView, j: RunJournal, e: AuditEvent)
    requires
        is_noted(v, j),
    ensures
        is_noted(audit_next(v, j, e), j),
{
    let w = audit_next(v, j, e);
    lemma_errors_grow(v, j, e);
    if w.last && has_note(w.steps.take(w.at)) {
        let k = choose|k: int|
            0 <= k < w.at && (#[trigger] w.steps.take(w.at)[k]) is Note;
        assert(w.steps.take(w.at)[k] == w.steps[k]);
        if k < v.at && v.last {
            assert(v.steps.take(v.at)[k] is Note);
        }
    }
}

proof fn lemma_noted_throughout(begun: AuditRunView, j: RunJournal, events: Seq<AuditEvent>)
    requires
        audit_begun(begun, j),
    ensures
        is_noted(audit_after(begun, j, events), j),
    decreases events.len(),
{
    if events.len() > 0 {
        lemma_noted_throughout(begun, j, events.drop_last());
        lemma_stays_noted(audit_after(begun, j, events.drop_last()), j, events.last());
    }
}

/// An audit of a journal that lacks knowledge is incomplete once it is over, whatever the
/// cluster answers: it has noted an error.
pub proof fn law_missing_knowledge_leaves_audit_incomplete(
    begun: AuditRunView,
    j: RunJournal,
    events: Seq<AuditEvent>,
    run: AuditRun,
)
    requires
        audit_begun(begun, j),
        lacks_knowledge(j.operator.owned_crds@.len() > 0, j.audit_context),
        run@ == audit_after(begun, j, events),
        run@.stage is Done,
    ensures
        run.audit.scan_errors@.len() > 0,
        status_of(run.audit) is AuditIncomplete,
{
    lemma_noted_throughout(begun, j, events);
    let items = choose|items: Seq<ResidualItemView>|
        run@.steps == #[trigger] closing(j, items);
    law_missing_knowledge_is_noted(
        j.operator.owned_crds@.len() > 0,
        all_actions(j.plan_snapshot.phases@),
        j.audit_context,
        items,
    );
    assert(run@.steps.take(run@.at) =~= run@.steps);
    assert(run@.audit.errors.len() == run.audit.scan_errors@.len());
}

/// The look at an object of the plan that is over once the audit is told `e`, and what it
/// showed.
pub open spec fn look_done(v: AuditRunView, j: RunJournal, e: AuditEvent) -> Option<ProbeView> {
    match (v.stage, e) {
        (AuditStageView::Next, AuditEvent::Proceed) => if v.at < v.steps.len() {
            match v.steps[v.at] {
                StepView::Probe { resource, .. } => if plural_of(
                    resource,
                    j.audit_context.known_gvrs,
                ) is None {
                    Some(unknown_type(resource))
                } else {
                    None
                },
                _ => None,
            }
        } else {
            None
        },
        (AuditStageView::Get(_), AuditEvent::Reply(reply)) => probe_shows(reply),
        (AuditStageView::VerifyEndpoint(_), AuditEvent::Endpoint(ok)) => match v.steps[v.at] {
            StepView::Probe { resource, .. } => Some(endpoint_shows(resource, ok)),
            _ => None,
        },
        _ => None,
    }
}

/// What the looks at the objects of the plan showed, in order.
pub open spec fn looks_done(
    begun: AuditRunView,
    j: RunJournal,
    events: Seq<AuditEvent>,
) -> Seq<ProbeView>
    decreases events.len(),
{
    if events.len() == 0 {
        seq![]
    } else {
        let before = looks_done(begun, j, events.drop_last());
        match look_done(audit_after(begun, j, events.drop_last()), j, events.last()) {
            Some(look) => before.push(look),
            None => before,
        }
    }
}

/// The audit lists what the looks showed so far: one for each object of the plan that had
/// its turn.
pub open spec fn lists_what_was_found(
    v: AuditRunView,
    j: RunJournal,
    looks: Seq<ProbeView>,
) -> bool {
    let actions = all_actions(j.plan_snapshot.phases@);
    let all = probes(actions);
    &&& audit_fits(v)
    &&& !v.last ==> v.steps == opening(j)
    &&& v.last ==> has_no_probe(v.steps)
    &&& v.stage is Done ==> v.last
    &&& looks.len() == if !v.last && v.at < all.len() {
        v.at
    } else {
        all.len() as int
    }
    &&& v.audit.deletes == found_items(all, looks, ProbeRole::Delete, looks.len())
    &&& v.audit.expects == found_items(all, looks, ProbeRole::Expect, looks.len())
    &&& v.audit.preserved == pick(actions, |a: Action| left_in_place(a))
}

proof fn lemma_keeps_listing(v: AuditRunView, j: RunJournal, looks: Seq<ProbeView>, e: AuditEvent)
    requires
        lists_what_was_found(v, j, looks),
    ensures
        lists_what_was_found(
            audit_next(v, j, e),
            j,
            match look_done(v, j, e) {
                Some(look) => looks.push(look),
                None => looks,
            },
        ),
{
    let actions = all_actions(j.plan_snapshot.phases@);
    let all = probes(actions);
    lemma_first_steps(actions, j.audit_context.footprint_namespaces.order());
    if let Some(look) = look_done(v, j, e) {
        assert(v.steps[v.at] is Probe);
        assert(v.steps[v.at] == all[v.at]);
        lemma_found_before(all, looks, look, ProbeRole::Delete, looks.len());
        lemma_found_before(all, looks, look, ProbeRole::Expect, looks.len());
    }
    if v.stage is Next && e is Proceed && v.at >= v.steps.len() && !v.last {
        lemma_last_steps(
            j.operator.owned_crds@.len() > 0,
            actions,
            j.audit_context,
            v.audit.deletes,
        );
    }
    if let (AuditStageView::List, AuditEvent::Listed(Ok(items))) = (v.stage, e) {
        if let StepView::List { target, namespace } = v.steps[v.at] {
            let b = AuditView { coverage: counted(v.audit.coverage, true), ..v.audit };
            lemma_objects_keep_errors(
                b,
                items@,
                items@.len(),
                scope_of(target, namespace),
                j.audit_context,
                v.uids,
                v.planned,
            );
        }
    }
}

proof fn lemma_listing_throughout(begun: AuditRunView, j: RunJournal, events: Seq<AuditEvent>)
    requires
        audit_begun(begun, j),
    ensures
        lists_what_was_found(audit_after(begun, j, events), j, looks_done(begun, j, events)),
    decreases events.len(),
{
    if events.len() == 0 {
        lemma_first_steps(
            all_actions(j.plan_snapshot.phases@),
            j.audit_context.footprint_namespaces.order(),
        );
    } else {
        lemma_listing_throughout(begun, j, events.drop_last());
        lemma_keeps_listing(
            audit_after(begun, j, events.drop_last()),
            j,
            looks_done(begun, j, events.drop_last()),
            events.last(),
        );
    }
}

/// An audit that is over has looked once at each object of the plan that was to be deleted,
/// expected to go or found by a label. It lists exactly those of the first two kinds that
/// were found, in the order of the plan, each with the UID that it was found under, and
/// everything that the plan leaves in place.
pub proof fn law_finished_audit_lists_what_was_found(
    begun: AuditRunView,
    j: RunJournal,
    events: Seq<AuditEvent>,
)
    requires
        audit_begun(begun, j),
        audit_after(begun, j, events).stage is Done,
    ensures
        ({
            let actions = all_actions(j.plan_snapshot.phases@);
            let all = probes(actions);
            let looks = looks_done(begun, j, events);
            let audit = audit_after(begun, j, events).audit;
            &&& looks.len() == all.len()
            &&& audit.deletes == found_items(all, looks, ProbeRole::Delete, all.len())
            &&& audit.expects == found_items(all, looks, ProbeRole::Expect, all.len())
            &&& audit.preserved == pick(actions, |a: Action| left_in_place(a))
        }),
{
    lemma_listing_throughout(begun, j, events);
}

} // verus!
