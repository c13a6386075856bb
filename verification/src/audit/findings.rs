//! How an audit goes on from look to look, what it comes to, and what its report says.

use vstd::prelude::*;
use vstd::string::*;

use crate::audit::attribution::{objects_taken, ListScope};
use crate::audit::looks::{
    is_listed_type, law_namespaces_are_listed, law_planned_objects_are_looked_at,
    law_types_of_the_operator_are_listed, law_uids_of_the_operator, law_what_is_left_in_place,
};
use crate::audit::report::{
    confidence_word, coverage_lines, error_line, error_section, evidence_words, item_line,
    likely_entry, likely_lines, object_line, planned_section, preserved_lines, report, report_head,
    section, status_of, unattributed_lines,
};
use crate::audit::scan::{
    counted, crd_part, footprint_lists, gvk_part, gvr_part, gvr_steps, gvrs_steps, is_pruned,
    left_in_place, plural_of, probes, ProbeRole, StepView, TargetView,
};
use crate::audit::sweep::{
    audit_begun, audit_next, closing, AuditEvent, AuditRunView, AuditStageView,
};
use crate::audit::{
    AttributedView, AuditView, EvidenceView, PreservedItemView, RecreationState, ResidualAudit,
    ResidualItem, ResidualItemView, ScanErrorView,
};
use crate::cluster::{GetReply, LiveObject, RequestError};
use crate::journal::{state_name, GvrScope, KnownGvr, ResidualStatus, RunJournal};
use crate::lists::{lemma_contains_add, lemma_pick_members};
use crate::planner::{all_actions, subject, Action};
use crate::resource::ResourceIdView;
use crate::text::{begins_with, decimal, law_begins_and_finishes};

verus! {

/// How an audit goes on. The step that has its turn is taken: a look at an object
/// begins with a GET under the plural of its type, a list with the list, and a note is
/// noted as it is. Behind the first steps come the last ones, and behind those the
/// audit is over.
pub proof fn law_audit_goes_on(v: AuditRunView, j: RunJournal)
    requires
        v.stage is Next,
        0 <= v.at,
    ensures
        ({
            let n = audit_next(v, j, AuditEvent::Proceed);
            &&& v.at < v.steps.len() ==> {
                &&& v.steps[v.at] matches StepView::Probe { resource, .. } ==> (plural_of(
                    resource,
                    j.audit_context.known_gvrs,
                ) matches Some(p) ==> n.stage == AuditStageView::Get(p) && n.at == v.at && n.audit
                    == v.audit)
                &&& v.steps[v.at] matches StepView::Probe { resource, .. } ==> (plural_of(
                    resource,
                    j.audit_context.known_gvrs,
                ) is None ==> n.stage is Next && n.at == v.at + 1 && n.audit.errors.len()
                    == v.audit.errors.len() + 1)
                &&& v.steps[v.at] is List ==> n.stage is List && n.at == v.at && n.audit == v.audit
                &&& v.steps[v.at] matches StepView::Note(e) ==> n.stage is Next && n.at == v.at + 1
                    && n.audit.errors == v.audit.errors.push(e)
            }
            &&& v.at >= v.steps.len() && !v.last ==> n.last && n.at == 0 && n.stage is Next
                && n.steps == closing(j, v.audit.deletes) && n.audit == v.audit
            &&& v.at >= v.steps.len() && v.last ==> n.stage is Done && n.audit == v.audit
        }),
{
}

/// What ends a look: an object that was found, or that could not be read, ends it at
/// once; one that was not found leads to a look at its type, and that ends it. A list
/// ends with its answer. Then the next step has its turn.
pub proof fn law_look_ends(
    v: AuditRunView,
    j: RunJournal,
    plural: Seq<char>,
    reply: GetReply,
    ok: bool,
)
    requires
        0 <= v.at < v.steps.len(),
        v.steps[v.at] is Probe,
    ensures
        v.stage == AuditStageView::Get(plural) ==> {
            let n = audit_next(v, j, AuditEvent::Reply(reply));
            let absent = reply matches GetReply::Failed(RequestError::Status { code, .. }) && code
                == 404;
            &&& absent ==> n.stage == AuditStageView::VerifyEndpoint(plural) && n.at == v.at
                && n.audit == v.audit
            &&& !absent ==> n.stage is Next && n.at == v.at + 1
            &&& !absent && reply is Failed ==> n.audit.errors.len() == v.audit.errors.len() + 1
            &&& reply is Found && v.steps[v.at]->Probe_role is Delete ==> n.audit.deletes.len()
                == v.audit.deletes.len() + 1
            &&& reply is Found && v.steps[v.at]->Probe_role is Expect ==> n.audit.expects.len()
                == v.audit.expects.len() + 1
        },
        v.stage == AuditStageView::VerifyEndpoint(plural) ==> {
            let n = audit_next(v, j, AuditEvent::Endpoint(ok));
            &&& n.stage is Next && n.at == v.at + 1
            &&& ok ==> n.audit.errors == v.audit.errors
            &&& !ok ==> n.audit.errors.len() == v.audit.errors.len() + 1
            &&& n.audit.deletes == v.audit.deletes && n.audit.expects == v.audit.expects
        },
{
}

/// An audit is incomplete exactly where it has an error, or where of a planned object
/// that is still there nobody knows whether it is the planned one. Otherwise it
/// observed nothing exactly where it has no residual of any sort, and the number that
/// it observed is that of all of them.
pub proof fn law_what_an_audit_comes_to(a: ResidualAudit)
    requires
        a.planned_delete_still_present@.len() + a.planned_expect_still_present@.len()
            + a.likely_operator_residual@.len() + a.unattributed@.len() <= usize::MAX,
    ensures
        ({
            let open = a.scan_errors@.len() > 0 || (exists|i: int|
                0 <= i < a.planned_delete_still_present@.len() && (
                #[trigger] a.planned_delete_still_present@[i]).recreation is Unknown) || (exists|
                i: int,
            |
                0 <= i < a.planned_expect_still_present@.len() && (
                #[trigger] a.planned_expect_still_present@[i]).recreation is Unknown);
            let n = a.planned_delete_still_present@.len() + a.planned_expect_still_present@.len()
                + a.likely_operator_residual@.len() + a.unattributed@.len();
            &&& open <==> status_of(a) is AuditIncomplete
            &&& !open && n == 0 <==> status_of(a) is NoneObservedInScope
            &&& !open && n > 0 ==> (status_of(a) matches ResidualStatus::ResidualsObserved { count }
                && count == n)
        }),
{
    lemma_unknown(a.planned_delete_still_present@);
    lemma_unknown(a.planned_expect_still_present@);
}

proof fn lemma_unknown(items: Seq<ResidualItem>)
    ensures
        crate::audit::report::any_unknown(items) <==> exists|i: int|
            0 <= i < items.len() && (#[trigger] items[i]).recreation is Unknown,
{
    if crate::audit::report::any_unknown(items) {
        let i = choose|i: int|
            0 <= i < items.len() && (#[trigger] items[i]).recreation == RecreationState::Unknown;
        assert(items[i].recreation is Unknown);
    }
    if exists|i: int| 0 <= i < items.len() && (#[trigger] items[i]).recreation is Unknown {
        let i = choose|i: int| 0 <= i < items.len() && (#[trigger] items[i]).recreation is Unknown;
        assert(items[i].recreation == RecreationState::Unknown);
    }
}

/// The line of an object: two spaces, its kind, a slash, its name, and its namespace in
/// brackets where it has one.
pub open spec fn names_object(line: Seq<char>, id: ResourceIdView) -> bool {
    begins_with(
        line,
        "  "@ + id.kind + "/"@ + id.name + (match id.namespace {
            Some(ns) => " ("@ + ns + ")"@,
            None => seq![],
        }),
    )
}

proof fn lemma_object_line(id: ResourceIdView, rest: Seq<char>)
    ensures
        names_object(object_line(id), id),
        names_object(object_line(id) + rest, id),
{
    let head = "  "@ + id.kind + "/"@ + id.name + (match id.namespace {
        Some(ns) => " ("@ + ns + ")"@,
        None => seq![],
    });
    assert(object_line(id) =~= head);
    assert(head =~= head + Seq::<char>::empty());
    law_begins_and_finishes(object_line(id), head, Seq::<char>::empty());
    law_begins_and_finishes(object_line(id) + rest, head, rest);
}

proof fn lemma_preserved(items: Seq<PreservedItemView>, n: nat, i: int)
    requires
        0 <= i < n <= items.len(),
    ensures
        preserved_lines(items, n).contains(object_line(items[i].resource)),
    decreases n,
{
    let front = preserved_lines(items, (n - 1) as nat);
    let back = seq![
        object_line(items[n - 1].resource),
        "    \x1b[2m"@ + items[n - 1].reason + "\x1b[0m"@,
    ];
    if i < n - 1 {
        lemma_preserved(items, (n - 1) as nat, i);
    } else {
        assert(back[0] == object_line(items[i].resource));
    }
    lemma_contains_add(front, back, object_line(items[i].resource));
}

proof fn lemma_likely(items: Seq<AttributedView>, n: nat, i: int)
    requires
        0 <= i < n <= items.len(),
    ensures
        likely_lines(items, n).contains(object_line(items[i].resource)),
    decreases n,
{
    let front = likely_lines(items, (n - 1) as nat);
    let back = likely_entry(items[n - 1]);
    if i < n - 1 {
        lemma_likely(items, (n - 1) as nat, i);
    } else {
        assert(back[0] == object_line(items[i].resource));
    }
    lemma_contains_add(front, back, object_line(items[i].resource));
}

proof fn lemma_unattributed(items: Seq<AttributedView>, n: nat, i: int)
    requires
        0 <= i < n <= items.len(),
    ensures
        unattributed_lines(items, n).contains(object_line(items[i].resource)),
    decreases n,
{
    let front = unattributed_lines(items, (n - 1) as nat);
    let back = seq![
        object_line(items[n - 1].resource),
        "    no sufficient operator attribution evidence"@,
    ];
    if i < n - 1 {
        lemma_unattributed(items, (n - 1) as nat, i);
    } else {
        assert(back[0] == object_line(items[i].resource));
    }
    lemma_contains_add(front, back, object_line(items[i].resource));
}

proof fn lemma_section(title: Seq<char>, count: nat, lines: Seq<Seq<char>>, x: Seq<char>)
    requires
        count > 0,
        lines.contains(x),
    ensures
        section(title, count, lines).contains(x),
{
    let head = seq![title + " ("@ + crate::text::decimal(count) + ")"@];
    lemma_contains_add(head, lines, x);
    lemma_contains_add(head + lines, seq![Seq::<char>::empty()], x);
}

proof fn lemma_planned(
    items: Seq<ResidualItemView>,
    title: Seq<char>,
    colour: Seq<char>,
    i: int,
)
    requires
        0 <= i < items.len(),
    ensures
        planned_section(items, title, colour).contains(item_line(items[i])),
        names_object(item_line(items[i]), items[i].resource),
{
    let head = seq![colour + title + "\x1b[0m ("@ + crate::text::decimal(items.len()) + ")"@];
    let lines = items.map_values(|x: ResidualItemView| item_line(x));
    let x = item_line(items[i]);
    assert(lines[i] == x);
    lemma_contains_add(head, lines, x);
    lemma_contains_add(head + lines, seq![Seq::<char>::empty()], x);
    lemma_object_line(items[i].resource, " \x1b[33m(RECREATED — different UID)\x1b[0m"@);
    lemma_object_line(
        items[i].resource,
        " \x1b[33m(UID unknown — cannot verify identity)\x1b[0m"@,
    );
}

proof fn lemma_in_report(a: ResidualAudit, j: RunJournal, x: Seq<char>)
    requires
        ({
            let v = a@;
            ||| planned_section(
                v.deletes,
                "PLANNED DELETE STILL PRESENT"@,
                "\x1b[1;31m"@,
            ).contains(x)
            ||| planned_section(
                v.expects,
                "PLANNED EXPECT-GONE STILL PRESENT"@,
                "\x1b[1;33m"@,
            ).contains(x)
            ||| section(
                "\x1b[1mEXPECTED PRESERVED\x1b[0m"@,
                v.preserved.len(),
                preserved_lines(v.preserved, v.preserved.len()),
            ).contains(x)
            ||| section(
                "\x1b[1;35mLIKELY OPERATOR RESIDUAL\x1b[0m"@,
                v.likely.len(),
                likely_lines(v.likely, v.likely.len()),
            ).contains(x)
            ||| section(
                "\x1b[1mUNATTRIBUTED\x1b[0m"@,
                v.unattributed.len(),
                unattributed_lines(v.unattributed, v.unattributed.len()),
            ).contains(x)
            ||| coverage_lines(v, j.audit_context.footprint_namespaces.order().len()).contains(x)
            ||| error_section(v.errors).contains(x)
        }),
    ensures
        report(a, j).contains(x),
{
    let v = a@;
    let p0 = report_head(a, j);
    let s1 = planned_section(v.deletes, "PLANNED DELETE STILL PRESENT"@, "\x1b[1;31m"@);
    let s2 = planned_section(v.expects, "PLANNED EXPECT-GONE STILL PRESENT"@, "\x1b[1;33m"@);
    let s3 = section(
        "\x1b[1mEXPECTED PRESERVED\x1b[0m"@,
        v.preserved.len(),
        preserved_lines(v.preserved, v.preserved.len()),
    );
    let s4 = section(
        "\x1b[1;35mLIKELY OPERATOR RESIDUAL\x1b[0m"@,
        v.likely.len(),
        likely_lines(v.likely, v.likely.len()),
    );
    let s5 = section(
        "\x1b[1mUNATTRIBUTED\x1b[0m"@,
        v.unattributed.len(),
        unattributed_lines(v.unattributed, v.unattributed.len()),
    );
    let s6 = coverage_lines(v, j.audit_context.footprint_namespaces.order().len());
    let s7 = error_section(v.errors);
    lemma_contains_add(p0, s1, x);
    lemma_contains_add(p0 + s1, s2, x);
    lemma_contains_add(p0 + s1 + s2, s3, x);
    lemma_contains_add(p0 + s1 + s2 + s3, s4, x);
    lemma_contains_add(p0 + s1 + s2 + s3 + s4, s5, x);
    lemma_contains_add(p0 + s1 + s2 + s3 + s4 + s5, s6, x);
    lemma_contains_add(p0 + s1 + s2 + s3 + s4 + s5 + s6, s7, x);
}

/// The report leaves nothing out: every planned object that is still there, every
/// preserved, attributed and unattributed object has a line with its kind, name and
/// namespace, and every error has a line with its type, place and words.
pub proof fn law_report_leaves_nothing_out(a: ResidualAudit, j: RunJournal, i: int)
    ensures
        0 <= i < a@.deletes.len() ==> exists|k: int|
            0 <= k < report(a, j).len() && names_object(
                #[trigger] report(a, j)[k],
                a@.deletes[i].resource,
            ),
        0 <= i < a@.expects.len() ==> exists|k: int|
            0 <= k < report(a, j).len() && names_object(
                #[trigger] report(a, j)[k],
                a@.expects[i].resource,
            ),
        0 <= i < a@.preserved.len() ==> exists|k: int|
            0 <= k < report(a, j).len() && names_object(
                #[trigger] report(a, j)[k],
                a@.preserved[i].resource,
            ),
        0 <= i < a@.likely.len() ==> exists|k: int|
            0 <= k < report(a, j).len() && names_object(
                #[trigger] report(a, j)[k],
                a@.likely[i].resource,
            ),
        0 <= i < a@.unattributed.len() ==> exists|k: int|
            0 <= k < report(a, j).len() && names_object(
                #[trigger] report(a, j)[k],
                a@.unattributed[i].resource,
            ),
        0 <= i < a@.errors.len() ==> report(a, j).contains(
            "  "@ + a@.errors[i].resource_type + "/"@ + a@.errors[i].namespace + ": "@
                + a@.errors[i].error,
        ),
{
    let v = a@;
    let r = report(a, j);
    let none = Seq::<char>::empty();
    if 0 <= i < v.deletes.len() {
        lemma_planned(v.deletes, "PLANNED DELETE STILL PRESENT"@, "\x1b[1;31m"@, i);
        lemma_in_report(a, j, item_line(v.deletes[i]));
        let k = choose|k: int| 0 <= k < r.len() && r[k] == item_line(v.deletes[i]);
        assert(names_object(r[k], v.deletes[i].resource));
    }
    if 0 <= i < v.expects.len() {
        lemma_planned(v.expects, "PLANNED EXPECT-GONE STILL PRESENT"@, "\x1b[1;33m"@, i);
        lemma_in_report(a, j, item_line(v.expects[i]));
        let k = choose|k: int| 0 <= k < r.len() && r[k] == item_line(v.expects[i]);
        assert(names_object(r[k], v.expects[i].resource));
    }
    if 0 <= i < v.preserved.len() {
        let x = object_line(v.preserved[i].resource);
        lemma_preserved(v.preserved, v.preserved.len(), i);
        lemma_section(
            "\x1b[1mEXPECTED PRESERVED\x1b[0m"@,
            v.preserved.len(),
            preserved_lines(v.preserved, v.preserved.len()),
            x,
        );
        lemma_in_report(a, j, x);
        lemma_object_line(v.preserved[i].resource, none);
        let k = choose|k: int| 0 <= k < r.len() && r[k] == x;
        assert(names_object(r[k], v.preserved[i].resource));
    }
    if 0 <= i < v.likely.len() {
        let x = object_line(v.likely[i].resource);
        lemma_likely(v.likely, v.likely.len(), i);
        lemma_section(
            "\x1b[1;35mLIKELY OPERATOR RESIDUAL\x1b[0m"@,
            v.likely.len(),
            likely_lines(v.likely, v.likely.len()),
            x,
        );
        lemma_in_report(a, j, x);
        lemma_object_line(v.likely[i].resource, none);
        let k = choose|k: int| 0 <= k < r.len() && r[k] == x;
        assert(names_object(r[k], v.likely[i].resource));
    }
    if 0 <= i < v.unattributed.len() {
        let x = object_line(v.unattributed[i].resource);
        lemma_unattributed(v.unattributed, v.unattributed.len(), i);
        lemma_section(
            "\x1b[1mUNATTRIBUTED\x1b[0m"@,
            v.unattributed.len(),
            unattributed_lines(v.unattributed, v.unattributed.len()),
            x,
        );
        lemma_in_report(a, j, x);
        lemma_object_line(v.unattributed[i].resource, none);
        let k = choose|k: int| 0 <= k < r.len() && r[k] == x;
        assert(names_object(r[k], v.unattributed[i].resource));
    }
    if 0 <= i < v.errors.len() {
        let x = error_line(v.errors[i]);
        let lines = v.errors.map_values(|e: ScanErrorView| error_line(e));
        assert(lines[i] == x);
        lemma_contains_add(seq!["\x1b[1;33mINCOMPLETE\x1b[0m"@], lines, x);
        lemma_in_report(a, j, x);
    }
}

/// A planned object that was recreated, or of which nobody knows whether it was, is
/// marked so in its line, and the planned one is not marked.
pub proof fn law_recreated_objects_are_marked(item: ResidualItemView)
    ensures
        item.recreation is SameResource ==> item_line(item) == object_line(item.resource),
        item.recreation is Recreated ==> item_line(item) == object_line(item.resource)
            + " \x1b[33m(RECREATED — different UID)\x1b[0m"@,
        item.recreation is Unknown ==> item_line(item) == object_line(item.resource)
            + " \x1b[33m(UID unknown — cannot verify identity)\x1b[0m"@,
{
}

/// Each sort of evidence that there is has its words, and only those have.
pub proof fn law_evidence_in_words(e: EvidenceView)
    ensures
        e.owner_ref_match <==> evidence_words(e).contains("ownerRef matches operator identity"@),
        e.service_account_match <==> evidence_words(e).contains("service account match"@),
        evidence_words(e).len() == (if e.owner_ref_match {
            1int
        } else {
            0int
        }) + (if e.matching_managers.len() > 0 {
            1int
        } else {
            0int
        }) + (if e.matching_labels.len() > 0 {
            1int
        } else {
            0int
        }) + (if e.service_account_match {
            1int
        } else {
            0int
        }),
{
    reveal_strlit("ownerRef matches operator identity");
    reveal_strlit("service account match");
    reveal_strlit("managedFields manager: ");
    reveal_strlit("matching labels: ");
    let w = evidence_words(e);
    let a = "ownerRef matches operator identity"@;
    let b = "service account match"@;
    assert(a[0] == 'o');
    assert(b[0] == 's');
    assert(("managedFields manager: "@ + crate::text::joined(e.matching_managers, ", "@))[0]
        == 'm');
    assert(("matching labels: "@ + crate::text::joined(
        crate::audit::report::label_words(e.matching_labels),
        ", "@,
    ))[0] == 'm');
    if e.owner_ref_match {
        assert(w[0] == a);
    }
    if e.service_account_match {
        assert(w[w.len() - 1] == b);
    }
    if w.contains(a) {
        let k = choose|k: int| 0 <= k < w.len() && w[k] == a;
        assert(w[k][0] == 'o');
    }
    if w.contains(b) {
        let k = choose|k: int| 0 <= k < w.len() && w[k] == b;
        assert(w[k][0] == 's');
    }
}

/// How a report begins, and what it says of the audit as a whole: the operator, the run,
/// when it was created, its state with the phases that were completed, how many residuals
/// were observed, and how many of the probes succeeded over how many namespaces.
pub proof fn law_report_begins(a: ResidualAudit, j: RunJournal)
    ensures
        report(a, j).len() >= 8,
        report(a, j)[1] == "\x1b[1mTeardown status\x1b[0m: "@ + j.operator.csv_name@,
        report(a, j)[2] == "Session: "@ + j.run_id@,
        report(a, j)[3] == "Created: "@ + j.created_at@,
        report(a, j)[5] == "Execution: "@ + state_name(j.state) + " ("@
            + decimal(j.execution.phases_completed as nat) + "/"@
            + decimal(j.execution.phases_total as nat) + " phases)"@,
        report(a, j)[6] == "Residual audit: "@ + decimal(
            a@.deletes.len() + a@.expects.len() + a@.likely.len() + a@.unattributed.len(),
        ) + " residuals observed"@,
        report(a, j).contains(
            "Audit coverage: "@ + decimal(a.coverage.succeeded_probes as nat) + "/"@
                + decimal(a.coverage.requested_probes as nat)
                + " probes succeeded (scope: "@ + decimal(
                j.audit_context.footprint_namespaces.order().len(),
            ) + " namespace(s))"@,
        ),
        a@.errors.len() > 0 ==> report(a, j).contains("\x1b[1;33mINCOMPLETE\x1b[0m"@),
{
    let head = report_head(a, j);
    let tail = report(a, j).skip(8);
    assert(report(a, j) =~= head + tail);
    let c = coverage_lines(a@, j.audit_context.footprint_namespaces.order().len());
    assert(c.contains(c[0]));
    lemma_in_report(a, j, c[0]);
    if a@.errors.len() > 0 {
        let e = error_section(a@.errors);
        assert(e[0] == "\x1b[1;33mINCOMPLETE\x1b[0m"@);
        assert(e.contains(e[0]));
        lemma_in_report(a, j, e[0]);
    }
}

/// The first two sections of a report are always there: with a title that counts the
/// planned deletes, or the objects expected to go, that are still present, or with the
/// word that there are none.
pub proof fn law_planned_sections(a: ResidualAudit, j: RunJournal)
    ensures
        a@.deletes.len() == 0 ==> report(a, j)[8] == "\x1b[1m"@
            + "PLANNED DELETE STILL PRESENT"@ + "\x1b[0m"@,
        a@.deletes.len() == 0 ==> report(a, j)[9] == "  none"@,
        a@.deletes.len() > 0 ==> report(a, j)[8] == "\x1b[1;31m"@
            + "PLANNED DELETE STILL PRESENT"@ + "\x1b[0m ("@ + decimal(
            a@.deletes.len(),
        ) + ")"@,
        a@.deletes.len() > 0 ==> forall|i: int|
            0 <= i < a@.deletes.len() ==> #[trigger] report(a, j)[9 + i] == item_line(
                a@.deletes[i],
            ),
        a@.expects.len() > 0 ==> report(a, j).contains(
            "\x1b[1;33m"@ + "PLANNED EXPECT-GONE STILL PRESENT"@ + "\x1b[0m ("@
                + decimal(a@.expects.len()) + ")"@,
        ),
        a@.expects.len() == 0 ==> report(a, j).contains(
            "\x1b[1m"@ + "PLANNED EXPECT-GONE STILL PRESENT"@ + "\x1b[0m"@,
        ),
{
    let head = report_head(a, j);
    let first = planned_section(a@.deletes, "PLANNED DELETE STILL PRESENT"@, "\x1b[1;31m"@);
    let tail = report(a, j).skip((8 + first.len()) as int);
    assert(report(a, j) =~= head + first + tail);
    if a@.deletes.len() > 0 {
        assert forall|i: int| 0 <= i < a@.deletes.len() implies #[trigger] report(a, j)[9 + i]
            == item_line(a@.deletes[i]) by {
            assert(first[1 + i] == item_line(a@.deletes[i]));
        }
    }
    let second = planned_section(
        a@.expects,
        "PLANNED EXPECT-GONE STILL PRESENT"@,
        "\x1b[1;33m"@,
    );
    assert(second.contains(second[0]));
    lemma_in_report(a, j, second[0]);
}

/// What a report says of the objects that the plan did not delete: their number, why each
/// was preserved, and how sure it is that each belongs to the operator.
pub proof fn law_other_sections(a: ResidualAudit, j: RunJournal, i: int)
    ensures
        0 <= i < a@.preserved.len() ==> report(a, j).contains(
            "\x1b[1mEXPECTED PRESERVED\x1b[0m"@ + " ("@ + decimal(a@.preserved.len())
                + ")"@,
        ) && report(a, j).contains("    \x1b[2m"@ + a@.preserved[i].reason + "\x1b[0m"@),
        0 <= i < a@.likely.len() ==> report(a, j).contains(
            "\x1b[1;35mLIKELY OPERATOR RESIDUAL\x1b[0m"@ + " ("@ + decimal(
                a@.likely.len(),
            ) + ")"@,
        ) && report(a, j).contains(
            "    confidence: "@ + confidence_word(a@.likely[i].confidence),
        ),
        0 <= i < a@.unattributed.len() ==> report(a, j).contains(
            "\x1b[1mUNATTRIBUTED\x1b[0m"@ + " ("@ + decimal(a@.unattributed.len())
                + ")"@,
        ),
{
    let v = a@;
    if 0 <= i < v.preserved.len() {
        let lines = preserved_lines(v.preserved, v.preserved.len());
        let all = section("\x1b[1mEXPECTED PRESERVED\x1b[0m"@, v.preserved.len(), lines);
        assert(all.contains(all[0]));
        lemma_in_report(a, j, all[0]);
        let x = "    \x1b[2m"@ + v.preserved[i].reason + "\x1b[0m"@;
        lemma_reason_is_told(v.preserved, i, v.preserved.len());
        let k = choose|k: int| 0 <= k < lines.len() && lines[k] == x;
        assert(all[k + 1] == x);
        assert(all.contains(x));
        lemma_in_report(a, j, x);
    }
    if 0 <= i < v.likely.len() {
        let lines = likely_lines(v.likely, v.likely.len());
        let all = section("\x1b[1;35mLIKELY OPERATOR RESIDUAL\x1b[0m"@, v.likely.len(), lines);
        assert(all.contains(all[0]));
        lemma_in_report(a, j, all[0]);
        let x = "    confidence: "@ + confidence_word(
            v.likely[i].confidence,
        );
        lemma_confidence_is_told(v.likely, i, v.likely.len());
        let k = choose|k: int| 0 <= k < lines.len() && lines[k] == x;
        assert(all[k + 1] == x);
        assert(all.contains(x));
        lemma_in_report(a, j, x);
    }
    if 0 <= i < v.unattributed.len() {
        let all = section(
            "\x1b[1mUNATTRIBUTED\x1b[0m"@,
            v.unattributed.len(),
            unattributed_lines(v.unattributed, v.unattributed.len()),
        );
        assert(all.contains(all[0]));
        lemma_in_report(a, j, all[0]);
    }
}

proof fn lemma_reason_is_told(items: Seq<PreservedItemView>, i: int, n: nat)
    requires
        0 <= i < n <= items.len(),
    ensures
        preserved_lines(items, n).contains("    \x1b[2m"@ + items[i].reason + "\x1b[0m"@),
    decreases n,
{
    let before = preserved_lines(items, (n - 1) as nat);
    let all = preserved_lines(items, n);
    let x = "    \x1b[2m"@ + items[i].reason + "\x1b[0m"@;
    if i == n - 1 {
        assert(all[all.len() - 1] == x);
    } else {
        lemma_reason_is_told(items, i, (n - 1) as nat);
        let k = choose|k: int| 0 <= k < before.len() && before[k] == x;
        assert(all[k] == x);
    }
}

proof fn lemma_confidence_is_told(items: Seq<AttributedView>, i: int, n: nat)
    requires
        0 <= i < n <= items.len(),
    ensures
        likely_lines(items, n).contains(
            "    confidence: "@ + confidence_word(items[i].confidence),
        ),
    decreases n,
{
    let before = likely_lines(items, (n - 1) as nat);
    let all = likely_lines(items, n);
    let x = "    confidence: "@ + confidence_word(items[i].confidence);
    if i == n - 1 {
        let e = likely_entry(items[i]);
        assert(e[e.len() - 1] == x);
        assert(all[all.len() - 1] == x);
    } else {
        lemma_confidence_is_told(items, i, (n - 1) as nat);
        let k = choose|k: int| 0 <= k < before.len() && before[k] == x;
        assert(all[k] == x);
    }
}

/// An audit that begins has every object in view that the plan deletes or expects to go,
/// and every kind of every namespace of the footprint; it knows every object of the plan,
/// holds what the plan leaves in place, has found nothing else yet and has missed nothing.
pub proof fn law_audit_begins(v: AuditRunView, j: RunJournal, i: int, k: int, t: TargetView)
    requires
        audit_begun(v, j),
    ensures
        ({
            let actions = all_actions(j.plan_snapshot.phases@);
            let namespaces = j.audit_context.footprint_namespaces.order();
            &&& v.stage is Next && v.at == 0 && !v.last
            &&& v.audit.deletes.len() == 0 && v.audit.expects.len() == 0 && v.audit.likely.len()
                == 0 && v.audit.unattributed.len() == 0 && v.audit.errors.len() == 0
            &&& v.audit.coverage.requested_probes == 0 && v.audit.coverage.succeeded_probes == 0
            &&& v.planned.len() == actions.len()
            &&& 0 <= i < actions.len() ==> {
                &&& v.planned[i] == subject(actions[i])@
                &&& actions[i] matches Action::Delete { resource, .. } ==> v.steps.contains(
                    (StepView::Probe { role: ProbeRole::Delete, resource: resource@ }),
                ) && (resource@.uid matches Some(u) ==> v.uids.has(u))
                &&& actions[i] matches Action::ExpectGone { resource, .. } ==> v.steps.contains(
                    (StepView::Probe { role: ProbeRole::Expect, resource: resource@ }),
                ) && (resource@.uid matches Some(u) ==> v.uids.has(u))
                &&& actions[i] matches Action::Keep { resource, reason } ==> v.audit.preserved.contains(
                    (PreservedItemView {
                        resource: resource@,
                        reason: reason@,
                        confirmed_descendants: 0,
                        associated_active_workloads: 0,
                    }),
                )
            }
            &&& 0 <= k < namespaces.len() && is_listed_type(t) ==> v.steps.contains(
                (StepView::List { target: t, namespace: Some(namespaces[k]@) }),
            )
            &&& v.uids.has(j.operator.csv.uid@)
        }),
{
    let actions = all_actions(j.plan_snapshot.phases@);
    let namespaces = j.audit_context.footprint_namespaces.order();
    law_uids_of_the_operator(j.operator, actions, j.operator.csv.uid@);
    if 0 <= i < actions.len() {
        law_planned_objects_are_looked_at(actions, namespaces, i);
        if subject(actions[i])@.uid is Some {
            law_uids_of_the_operator(j.operator, actions, subject(actions[i])@.uid->0);
        }
        if actions[i] is Keep {
            let f = |a: Action| left_in_place(a);
            law_what_is_left_in_place(actions[i]);
            lemma_pick_members(actions, f);
            assert(f(actions[i]) is Some);
        }
    }
    if 0 <= k < namespaces.len() && is_listed_type(t) {
        law_namespaces_are_listed(namespaces, namespaces.len(), k, t);
        lemma_contains_add(
            probes(actions),
            footprint_lists(namespaces, namespaces.len()),
            (StepView::List { target: t, namespace: Some(namespaces[k]@) }),
        );
    }
}

/// How a list ends. One that fails is noted under its kind and its namespace, with
/// nothing found. One that was read is taken object by object, under the group, the
/// version and the kind that were listed, by what the journal says of the operator.
pub proof fn law_list_ends(
    v: AuditRunView,
    j: RunJournal,
    target: TargetView,
    namespace: Option<Seq<char>>,
    e: RequestError,
    items: Vec<LiveObject>,
)
    requires
        0 <= v.at < v.steps.len(),
        v.stage is List,
        v.steps[v.at] == (StepView::List { target, namespace }),
    ensures
        ({
            let place = match namespace {
                Some(ns) => ns,
                None => "cluster"@,
            };
            let failed = audit_next(v, j, AuditEvent::Listed(Err(e)));
            let read = audit_next(v, j, AuditEvent::Listed(Ok(items)));
            &&& failed.stage is Next && failed.at == v.at + 1 && failed.steps == v.steps
            &&& failed.audit.errors.len() == v.audit.errors.len() + 1
            &&& failed.audit.errors.last().resource_type == target.kind
            &&& failed.audit.errors.last().namespace == place
            &&& failed.audit.likely == v.audit.likely && failed.audit.unattributed
                == v.audit.unattributed && failed.audit.deletes == v.audit.deletes
                && failed.audit.expects == v.audit.expects
            &&& read.stage is Next && read.at == v.at + 1 && read.steps == v.steps
            &&& read.audit == objects_taken(
                (AuditView { coverage: counted(v.audit.coverage, true), ..v.audit }),
                items@,
                items@.len(),
                (ListScope {
                    group: target.group,
                    version: target.version,
                    kind: target.kind,
                    namespace: place,
                }),
                j.audit_context,
                v.uids,
                v.planned,
            )
        }),
{
}

proof fn lemma_steps_of_a_type(
    gvrs: Seq<KnownGvr>,
    n: nat,
    actions: Seq<Action>,
    items: Seq<ResidualItemView>,
    namespaces: Seq<String>,
    i: int,
    x: StepView,
)
    requires
        0 <= i < n <= gvrs.len(),
        gvr_steps(gvrs[i]@, is_pruned(gvrs[i]@, actions, items), namespaces).contains(x),
    ensures
        gvrs_steps(gvrs, n, actions, items, namespaces).contains(x),
    decreases n,
{
    let m = (n - 1) as nat;
    lemma_contains_add(
        gvrs_steps(gvrs, m, actions, items, namespaces),
        gvr_steps(gvrs[n - 1]@, is_pruned(gvrs[n - 1]@, actions, items), namespaces),
        x,
    );
    if i < n - 1 {
        lemma_steps_of_a_type(gvrs, m, actions, items, namespaces, i, x);
    }
}

/// Behind the first steps of an audit, each type that the operator defines is listed,
/// unless its definition was deleted and is gone: once where it is of the cluster, and in
/// every namespace of the footprint where it is not.
pub proof fn law_owned_types_are_listed(
    j: RunJournal,
    items: Seq<ResidualItemView>,
    gvrs: Vec<KnownGvr>,
    i: int,
    k: int,
)
    requires
        j.audit_context.owned_cr_gvrs == Some(gvrs),
        0 <= i < gvrs@.len(),
        !is_pruned(gvrs@[i]@, all_actions(j.plan_snapshot.phases@), items),
    ensures
        ({
            let g = gvrs@[i]@;
            let t = TargetView { group: g.group, version: g.version, kind: g.kind, plural: g.plural };
            let namespaces = j.audit_context.footprint_namespaces.order();
            &&& g.scope == GvrScope::Cluster ==> closing(j, items).contains(
                (StepView::List { target: t, namespace: None }),
            )
            &&& g.scope == GvrScope::Namespaced && 0 <= k < namespaces.len() ==> closing(
                j,
                items,
            ).contains((StepView::List { target: t, namespace: Some(namespaces[k]@) }))
        }),
{
    let actions = all_actions(j.plan_snapshot.phases@);
    let ctx = j.audit_context;
    let namespaces = ctx.footprint_namespaces.order();
    let owns = j.operator.owned_crds@.len() > 0;
    let g = gvrs@[i]@;
    let t = TargetView { group: g.group, version: g.version, kind: g.kind, plural: g.plural };
    let steps = gvr_steps(g, false, namespaces);
    let own = gvrs_steps(gvrs@, gvrs@.len(), actions, items, namespaces);
    law_types_of_the_operator_are_listed(g, false, namespaces, k);
    if g.scope == GvrScope::Cluster || 0 <= k < namespaces.len() {
        let x = if g.scope == GvrScope::Cluster {
            StepView::List { target: t, namespace: None }
        } else {
            StepView::List { target: t, namespace: Some(namespaces[k]@) }
        };
        if g.scope == GvrScope::Cluster {
            assert(steps[0] == x);
        } else {
            assert(steps[k] == x);
        }
        assert(steps.contains(x));
        lemma_steps_of_a_type(gvrs@, gvrs@.len(), actions, items, namespaces, i, x);
        lemma_contains_add(own, crd_part(owns, ctx), x);
        lemma_contains_add(own + crd_part(owns, ctx), gvk_part(ctx), x);
        lemma_contains_add(own + crd_part(owns, ctx) + gvk_part(ctx), gvr_part(ctx), x);
    }
}

} // verus!
