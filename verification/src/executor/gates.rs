//! What must hold before a plan may run at all.

use vstd::prelude::*;
use vstd::string::*;

use crate::lists::pick;
use crate::planner::{
    all_actions, collect_all_objects, objects_of, ActionKind, PreflightCheck, PreflightSeverity,
    TeardownPlan,
};
use crate::resource::{label, uid_bound, ResourceIdView};
use crate::text::{decimal, join, joined, push_text, texts, to_decimal};

verus! {

/// The names of the checks of one severity that failed.
pub open spec fn failed_checks(
    checks: Seq<PreflightCheck>,
    severity: PreflightSeverity,
) -> Seq<Seq<char>> {
    pick(
        checks,
        |c: PreflightCheck|
            if !c.passed && c.severity == severity {
                Some(c.name@)
            } else {
                None
            },
    )
}

/// The names of the checks of one severity that failed.
pub fn collect_failed_checks(plan: &TeardownPlan, severity: PreflightSeverity) -> (r: Vec<String>)
    ensures
        texts(r@) == failed_checks(plan.preflight.checks@, severity),
{
    let checks: &Vec<PreflightCheck> = &plan.preflight.checks;
    let mut out: Vec<String> = Vec::new();
    assert(checks@.take(0) =~= seq![]);
    assert(texts(out@) =~= seq![]);
    for i in 0..checks.len()
        invariant
            texts(out@) == failed_checks(checks@.take(i as int), severity),
    {
        assert(checks@.take(i + 1).drop_last() =~= checks@.take(i as int));
        if !checks[i].passed && checks[i].severity == severity {
            push_text(&mut out, checks[i].name.clone());
        }
    }
    assert(checks@.take(checks@.len() as int) =~= checks@);
    out
}

/// Why a plan may not run.
#[derive(Debug, PartialEq, Eq)]
pub enum PlanRefusal {
    /// Something outside the plan stands against it.
    Blockers,
    /// A critical check failed; no flag overrides it.
    CriticalPreflight,
    /// These objects are to be deleted, but carry no UID.
    UnboundDeletes(Vec<String>),
}

/// Refuses a plan that has blockers or failed a critical check. A dry run is
/// never refused.
pub fn check_plan(plan: &TeardownPlan, dry_run: bool) -> (r: Result<(), PlanRefusal>)
    ensures
        r is Ok <==> dry_run || (plan.blockers@.len() == 0 && failed_checks(
            plan.preflight.checks@,
            PreflightSeverity::Critical,
        ).len() == 0),
        r matches Err(e) ==> e == if plan.blockers@.len() > 0 {
            PlanRefusal::Blockers
        } else {
            PlanRefusal::CriticalPreflight
        },
{
    if dry_run {
        return Ok(());
    }
    if plan.blockers.len() > 0 {
        return Err(PlanRefusal::Blockers);
    }
    let critical = collect_failed_checks(plan, PreflightSeverity::Critical);
    assert(texts(critical@).len() == critical@.len());
    if critical.len() > 0 {
        return Err(PlanRefusal::CriticalPreflight);
    }
    Ok(())
}

/// The objects that are to be deleted, but carry no UID.
pub open spec fn unbound_deletes(plan: TeardownPlan) -> Seq<Seq<char>> {
    pick(
        objects_of(all_actions(plan.phases@), ActionKind::Delete),
        |r: ResourceIdView|
            if uid_bound(r) {
                None
            } else {
                Some(label(r))
            },
    )
}

/// Refuses a plan that would delete an object without knowing its UID. This is
/// looked at before anything is written down or changed.
pub fn check_uids(plan: &TeardownPlan) -> (r: Result<(), PlanRefusal>)
    ensures
        r is Ok <==> unbound_deletes(*plan).len() == 0,
        r matches Err(e) ==> e matches PlanRefusal::UnboundDeletes(v) && texts(v@)
            == unbound_deletes(*plan),
{
    let deletes = collect_all_objects(&plan.phases, ActionKind::Delete);
    let ghost all = crate::lists::ids(deletes@);
    let mut out: Vec<String> = Vec::new();
    let ghost f = |r: ResourceIdView|
        if uid_bound(r) {
            None
        } else {
            Some(label(r))
        };
    assert(all.take(0) =~= seq![]);
    assert(texts(out@) =~= pick(all.take(0), f));
    for i in 0..deletes.len()
        invariant
            all == crate::lists::ids(deletes@),
            f == (|r: ResourceIdView|
                if uid_bound(r) {
                    None
                } else {
                    Some(label(r))
                }),
            texts(out@) == pick(all.take(i as int), f),
    {
        assert(all.take(i + 1).drop_last() =~= all.take(i as int));
        assert(all.take(i + 1).last() == deletes@[i as int]@);
        if !deletes[i].has_bound_uid() {
            push_text(&mut out, deletes[i].label());
        }
    }
    assert(all.take(all.len() as int) =~= all);
    assert(texts(out@).len() == out@.len());
    if out.len() > 0 {
        Err(PlanRefusal::UnboundDeletes(out))
    } else {
        Ok(())
    }
}

/// The message for a refusal.
pub open spec fn refusal_text(e: PlanRefusal) -> Seq<char> {
    match e {
        PlanRefusal::Blockers => {
            "Plan has blockers. Resolve external dependencies before applying."@
        },
        PlanRefusal::CriticalPreflight => {
            "Critical preflight checks failed. Cannot override with --force."@
        },
        PlanRefusal::UnboundDeletes(v) => "Cannot execute: "@ + decimal(v@.len())
            + " DELETE action(s) have unbound UIDs (UID binding should happen at plan time): "@
            + joined(texts(v@), ", "@),
    }
}

impl PlanRefusal {
    /// The message for the refusal.
    pub fn message(&self) -> (r: String)
        ensures
            r@ == refusal_text(*self),
    {
        match self {
            PlanRefusal::Blockers => {
                "Plan has blockers. Resolve external dependencies before applying.".to_owned()
            },
            PlanRefusal::CriticalPreflight => {
                "Critical preflight checks failed. Cannot override with --force.".to_owned()
            },
            PlanRefusal::UnboundDeletes(v) => "Cannot execute: ".to_owned().concat(
                to_decimal(v.len()).as_str(),
            ).concat(
                " DELETE action(s) have unbound UIDs (UID binding should happen at plan time): ",
            ).concat(join(v, ", ").as_str()),
        }
    }
}

/// What is said where a plan is not run. Deletes without a UID are counted and named.
pub proof fn law_refused_plan_in_words(v: Vec<String>)
    ensures
        refusal_text(PlanRefusal::Blockers)
            == "Plan has blockers. Resolve external dependencies before applying."@,
        refusal_text(PlanRefusal::CriticalPreflight)
            == "Critical preflight checks failed. Cannot override with --force."@,
        refusal_text(PlanRefusal::UnboundDeletes(v)) == "Cannot execute: "@ + decimal(v@.len())
            + " DELETE action(s) have unbound UIDs (UID binding should happen at plan time): "@
            + joined(texts(v@), ", "@),
{
}

} // verus!
