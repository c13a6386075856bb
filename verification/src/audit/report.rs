//! What an audit comes to, in one word and in full.

use vstd::prelude::*;
use vstd::string::*;

use crate::audit::{
    pair_texts, AttributedResidual, AttributedView, AuditScanError, AuditView, EvidenceView,
    PreservedItem, PreservedItemView, RecreationState, ResidualAudit, ResidualConfidence,
    ResidualEvidence, ResidualItem, ResidualItemView, ScanErrorView,
};
use crate::audit::scan::failures_are_noted;
use crate::journal::{state_name, ResidualStatus, RunJournal};
use crate::resource::{label, ResourceId, ResourceIdView};
use crate::text::{decimal, join, joined, push_text, texts, to_decimal};

verus! {

/// It is not known whether one of the items is the planned object.
pub open spec fn any_unknown(items: Seq<ResidualItem>) -> bool {
    exists|i: int| 0 <= i < items.len() && (#[trigger] items[i]).recreation == RecreationState::Unknown
}

/// Everything that an audit found of the operator.
pub open spec fn residual_count(a: ResidualAudit) -> nat {
    a.planned_delete_still_present@.len() + a.planned_expect_still_present@.len()
        + a.likely_operator_residual@.len() + a.unattributed@.len()
}

/// What an audit comes to. With an error, or with an object of unknown identity, it
/// is incomplete.
pub open spec fn status_of(a: ResidualAudit) -> ResidualStatus {
    if a.scan_errors@.len() > 0 || any_unknown(a.planned_delete_still_present@) || any_unknown(
        a.planned_expect_still_present@,
    ) {
        ResidualStatus::AuditIncomplete
    } else if residual_count(a) == 0 {
        ResidualStatus::NoneObservedInScope
    } else {
        ResidualStatus::ResidualsObserved { count: residual_count(a) as usize }
    }
}

fn has_unknown(items: &Vec<ResidualItem>) -> (r: bool)
    ensures
        r == any_unknown(items@),
{
    for i in 0..items.len()
        invariant
            forall|k: int|
                0 <= k < i ==> (#[trigger] items@[k]).recreation != RecreationState::Unknown,
    {
        if items[i].recreation == RecreationState::Unknown {
            assert(items@[i as int].recreation == RecreationState::Unknown);
            return true;
        }
    }
    false
}

/// What an audit comes to.
pub fn residual_status_from_audit(audit: &ResidualAudit) -> (r: ResidualStatus)
    requires
        residual_count(*audit) <= usize::MAX,
    ensures
        r == status_of(*audit),
{
    if audit.scan_errors.len() > 0 || has_unknown(&audit.planned_delete_still_present)
        || has_unknown(&audit.planned_expect_still_present) {
        return ResidualStatus::AuditIncomplete;
    }
    let total: usize = audit.planned_delete_still_present.len()
        + audit.planned_expect_still_present.len() + audit.likely_operator_residual.len()
        + audit.unattributed.len();
    if total == 0 {
        ResidualStatus::NoneObservedInScope
    } else {
        ResidualStatus::ResidualsObserved { count: total }
    }
}

/// Nothing observed means that nothing was found, that everything was looked at, and
/// that nothing is of unknown identity.
pub proof fn law_nothing_observed(a: ResidualAudit)
    requires
        residual_count(a) <= usize::MAX,
    ensures
        status_of(a) is NoneObservedInScope <==> a.scan_errors@.len() == 0 && residual_count(a)
            == 0,
        a.scan_errors@.len() > 0 ==> status_of(a) is AuditIncomplete,
{
}

/// An audit of which not every look succeeded is incomplete.
pub proof fn law_uncovered_audit_is_incomplete(a: ResidualAudit)
    requires
        failures_are_noted(a@),
        a.coverage.succeeded_probes < a.coverage.requested_probes,
    ensures
        status_of(a) is AuditIncomplete,
{
    assert(a@.errors.len() == a.scan_errors@.len());
}

/// The namespace of an object in brackets, where it has one.
pub open spec fn namespace_note(id: ResourceIdView) -> Seq<char> {
    match id.namespace {
        Some(ns) => " ("@ + ns + ")"@,
        None => seq![],
    }
}

/// The namespace of an object in brackets, where it has one.
pub fn ns_suffix(resource: &ResourceId) -> (r: String)
    ensures
        r@ == namespace_note(resource@),
{
    match &resource.namespace {
        Some(ns) => " (".to_owned().concat(ns.as_str()).concat(")"),
        None => {
            let r = "".to_owned();
            proof {
                reveal_strlit("");
            }
            assert(r@ =~= seq![]);
            r
        },
    }
}

/// `key=value` for each label.
pub open spec fn label_words(labels: Seq<(Seq<char>, Seq<char>)>) -> Seq<Seq<char>> {
    labels.map_values(|l: (Seq<char>, Seq<char>)| l.0 + "="@ + l.1)
}

/// The parts of the evidence, each in words.
pub open spec fn evidence_words(e: EvidenceView) -> Seq<Seq<char>> {
    let owner = if e.owner_ref_match {
        seq!["ownerRef matches operator identity"@]
    } else {
        seq![]
    };
    let managers = if e.matching_managers.len() > 0 {
        seq!["managedFields manager: "@ + joined(e.matching_managers, ", "@)]
    } else {
        seq![]
    };
    let labels = if e.matching_labels.len() > 0 {
        seq!["matching labels: "@ + joined(label_words(e.matching_labels), ", "@)]
    } else {
        seq![]
    };
    let account = if e.service_account_match {
        seq!["service account match"@]
    } else {
        seq![]
    };
    owner + managers + labels + account
}

/// The evidence in words.
pub fn format_evidence(evidence: &ResidualEvidence) -> (r: String)
    ensures
        r@ == joined(evidence_words(evidence@), ", "@),
{
    let mut parts: Vec<String> = Vec::new();
    assert(texts(parts@) =~= seq![]);
    if evidence.owner_ref_match {
        push_text(&mut parts, "ownerRef matches operator identity".to_owned());
    }
    assert(evidence@.matching_managers.len() == evidence.matching_managers@.len());
    if evidence.matching_managers.len() > 0 {
        push_text(
            &mut parts,
            "managedFields manager: ".to_owned().concat(
                join(&evidence.matching_managers, ", ").as_str(),
            ),
        );
    }
    let labels: &Vec<(String, String)> = &evidence.matching_labels;
    assert(evidence@.matching_labels.len() == labels@.len());
    if labels.len() > 0 {
        let mut words: Vec<String> = Vec::new();
        let ghost all = label_words(evidence@.matching_labels);
        assert(texts(words@) =~= all.take(0));
        for i in 0..labels.len()
            invariant
                all == label_words(pair_texts(labels@)),
                texts(words@) == all.take(i as int),
        {
            push_text(
                &mut words,
                labels[i].0.clone().concat("=").concat(labels[i].1.as_str()),
            );
            assert(all[i as int] == labels@[i as int].0@ + "="@ + labels@[i as int].1@);
            assert(all.take(i + 1) =~= all.take(i as int).push(all[i as int]));
        }
        assert(all.take(all.len() as int) =~= all);
        push_text(
            &mut parts,
            "matching labels: ".to_owned().concat(join(&words, ", ").as_str()),
        );
    }
    if evidence.service_account_match {
        push_text(&mut parts, "service account match".to_owned());
    }
    assert(texts(parts@) =~= evidence_words(evidence@));
    join(&parts, ", ")
}

/// The line of an object: its kind, name and namespace.
pub open spec fn object_line(id: ResourceIdView) -> Seq<char> {
    "  "@ + label(id) + namespace_note(id)
}

fn object_text(resource: &ResourceId) -> (r: String)
    ensures
        r@ == object_line(resource@),
{
    "  ".to_owned().concat(resource.label().as_str()).concat(ns_suffix(resource).as_str())
}

/// The line of a planned object that is still there.
pub open spec fn item_line(item: ResidualItemView) -> Seq<char> {
    match item.recreation {
        RecreationState::Recreated => object_line(item.resource)
            + " \x1b[33m(RECREATED — different UID)\x1b[0m"@,
        RecreationState::Unknown => object_line(item.resource)
            + " \x1b[33m(UID unknown — cannot verify identity)\x1b[0m"@,
        RecreationState::SameResource => object_line(item.resource),
    }
}

/// The line of a planned object that is still there.
pub fn print_residual_item(item: &ResidualItem) -> (r: String)
    ensures
        r@ == item_line(item@),
{
    let line = object_text(&item.resource);
    match item.recreation {
        RecreationState::Recreated => line.concat(" \x1b[33m(RECREATED — different UID)\x1b[0m"),
        RecreationState::Unknown => line.concat(
            " \x1b[33m(UID unknown — cannot verify identity)\x1b[0m",
        ),
        RecreationState::SameResource => line,
    }
}

/// The section on planned objects that are still there.
pub open spec fn planned_section(
    items: Seq<ResidualItemView>,
    title: Seq<char>,
    colour: Seq<char>,
) -> Seq<
    Seq<char>,
> {
    if items.len() == 0 {
        seq!["\x1b[1m"@ + title + "\x1b[0m"@, "  none"@, seq![]]
    } else {
        seq![colour + title + "\x1b[0m ("@ + decimal(items.len()) + ")"@] + items.map_values(
            |x: ResidualItemView| item_line(x),
        ) + seq![Seq::<char>::empty()]
    }
}

/// The lines of the first `n` preserved objects.
pub open spec fn preserved_lines(items: Seq<PreservedItemView>, n: nat) -> Seq<Seq<char>>
    decreases n,
{
    if n == 0 {
        seq![]
    } else {
        preserved_lines(items, (n - 1) as nat) + seq![
            object_line(items[n - 1].resource),
            "    \x1b[2m"@ + items[n - 1].reason + "\x1b[0m"@,
        ]
    }
}

/// The word for a confidence.
pub open spec fn confidence_word(c: ResidualConfidence) -> Seq<char> {
    match c {
        ResidualConfidence::High => "High"@,
        ResidualConfidence::Medium => "Medium"@,
        ResidualConfidence::Low => "Low"@,
        ResidualConfidence::NoEvidence => "None"@,
    }
}

impl ResidualConfidence {
    /// The word for the confidence.
    pub fn word(&self) -> (r: &'static str)
        ensures
            r@ == confidence_word(*self),
    {
        match self {
            ResidualConfidence::High => "High",
            ResidualConfidence::Medium => "Medium",
            ResidualConfidence::Low => "Low",
            ResidualConfidence::NoEvidence => "None",
        }
    }
}

/// The lines of one attributed object.
pub open spec fn likely_entry(item: AttributedView) -> Seq<Seq<char>> {
    let evidence = joined(evidence_words(item.evidence), ", "@);
    let middle = if evidence.len() > 0 {
        seq!["    evidence: "@ + evidence]
    } else {
        seq![]
    };
    seq![object_line(item.resource)] + middle + seq![
        "    confidence: "@ + confidence_word(item.confidence),
    ]
}

/// The lines of the first `n` attributed objects.
pub open spec fn likely_lines(items: Seq<AttributedView>, n: nat) -> Seq<Seq<char>>
    decreases n,
{
    if n == 0 {
        seq![]
    } else {
        likely_lines(items, (n - 1) as nat) + likely_entry(items[n - 1])
    }
}

/// The lines of the first `n` unattributed objects.
pub open spec fn unattributed_lines(items: Seq<AttributedView>, n: nat) -> Seq<Seq<char>>
    decreases n,
{
    if n == 0 {
        seq![]
    } else {
        unattributed_lines(items, (n - 1) as nat) + seq![
            object_line(items[n - 1].resource),
            "    no sufficient operator attribution evidence"@,
        ]
    }
}

/// A section that is left out where it is empty.
pub open spec fn section(title: Seq<char>, count: nat, lines: Seq<Seq<char>>) -> Seq<Seq<char>> {
    if count == 0 {
        seq![]
    } else {
        seq![title + " ("@ + decimal(count) + ")"@] + lines + seq![Seq::<char>::empty()]
    }
}

/// The line of an error.
pub open spec fn error_line(e: ScanErrorView) -> Seq<char> {
    "  "@ + e.resource_type + "/"@ + e.namespace + ": "@ + e.error
}

/// The section on errors.
pub open spec fn error_section(errors: Seq<ScanErrorView>) -> Seq<Seq<char>> {
    if errors.len() == 0 {
        seq![]
    } else {
        seq!["\x1b[1;33mINCOMPLETE\x1b[0m"@] + errors.map_values(|e: ScanErrorView| error_line(e))
    }
}

/// The head of the report.
pub open spec fn report_head(a: ResidualAudit, j: RunJournal) -> Seq<Seq<char>> {
    seq![
        seq![],
        "\x1b[1mTeardown status\x1b[0m: "@ + j.operator.csv_name@,
        "Session: "@ + j.run_id@,
        "Created: "@ + j.created_at@,
        seq![],
        "Execution: "@ + state_name(j.state) + " ("@ + decimal(j.execution.phases_completed as nat)
            + "/"@ + decimal(j.execution.phases_total as nat) + " phases)"@,
        "Residual audit: "@ + decimal(residual_count(a)) + " residuals observed"@,
        seq![],
    ]
}

/// What the report says of the coverage.
pub open spec fn coverage_lines(a: AuditView, namespaces: nat) -> Seq<Seq<char>> {
    seq![
        "Audit coverage: "@ + decimal(a.coverage.succeeded_probes as nat) + "/"@ + decimal(
            a.coverage.requested_probes as nat,
        ) + " probes succeeded (scope: "@ + decimal(namespaces) + " namespace(s))"@,
        "  \x1b[2mScope: install namespace + plan action namespaces only."@,
        "  Residuals in namespaces outside this footprint are not covered.\x1b[0m"@,
    ]
}

/// The report.
pub open spec fn report(a: ResidualAudit, j: RunJournal) -> Seq<Seq<char>> {
    let v = a@;
    report_head(a, j) + planned_section(
        v.deletes,
        "PLANNED DELETE STILL PRESENT"@,
        "\x1b[1;31m"@,
    ) + planned_section(v.expects, "PLANNED EXPECT-GONE STILL PRESENT"@, "\x1b[1;33m"@) + section(
        "\x1b[1mEXPECTED PRESERVED\x1b[0m"@,
        v.preserved.len(),
        preserved_lines(v.preserved, v.preserved.len()),
    ) + section(
        "\x1b[1;35mLIKELY OPERATOR RESIDUAL\x1b[0m"@,
        v.likely.len(),
        likely_lines(v.likely, v.likely.len()),
    ) + section(
        "\x1b[1mUNATTRIBUTED\x1b[0m"@,
        v.unattributed.len(),
        unattributed_lines(v.unattributed, v.unattributed.len()),
    ) + coverage_lines(v, j.audit_context.footprint_namespaces.order().len()) + error_section(
        v.errors,
    )
}

fn append_lines(v: &mut Vec<String>, more: Vec<String>)
    ensures
        texts(final(v)@) == texts(old(v)@) + texts(more@),
{
    let ghost extra = more@;
    let mut more = more;
    v.append(&mut more);
    assert(texts(v@) =~= texts(old(v)@) + texts(extra));
}

fn push_blank(v: &mut Vec<String>)
    ensures
        texts(final(v)@) == texts(old(v)@).push(seq![]),
{
    let s = "".to_owned();
    proof {
        reveal_strlit("");
    }
    assert(s@ =~= seq![]);
    push_text(v, s);
}

fn head_lines(audit: &ResidualAudit, journal: &RunJournal) -> (r: Vec<String>)
    requires
        residual_count(*audit) <= usize::MAX,
    ensures
        texts(r@) == report_head(*audit, *journal),
{
    let total: usize = audit.planned_delete_still_present.len()
        + audit.planned_expect_still_present.len() + audit.likely_operator_residual.len()
        + audit.unattributed.len();
    let mut out: Vec<String> = Vec::new();
    push_blank(&mut out);
    push_text(
        &mut out,
        "\x1b[1mTeardown status\x1b[0m: ".to_owned().concat(journal.operator.csv_name.as_str()),
    );
    push_text(&mut out, "Session: ".to_owned().concat(journal.run_id.as_str()));
    push_text(&mut out, "Created: ".to_owned().concat(journal.created_at.as_str()));
    push_blank(&mut out);
    push_text(
        &mut out,
        "Execution: ".to_owned().concat(journal.state.name()).concat(" (").concat(
            to_decimal(journal.execution.phases_completed).as_str(),
        ).concat("/").concat(to_decimal(journal.execution.phases_total).as_str()).concat(
            " phases)",
        ),
    );
    push_text(
        &mut out,
        "Residual audit: ".to_owned().concat(to_decimal(total).as_str()).concat(
            " residuals observed",
        ),
    );
    push_blank(&mut out);
    assert(texts(out@) =~= report_head(*audit, *journal));
    out
}

fn planned_lines(items: &Vec<ResidualItem>, title: &str, colour: &str) -> (r: Vec<String>)
    ensures
        texts(r@) == planned_section(
            items@.map_values(|x: ResidualItem| x@),
            title@,
            colour@,
        ),
{
    let ghost view = items@.map_values(|x: ResidualItem| x@);
    let mut out: Vec<String> = Vec::new();
    if items.len() == 0 {
        push_text(&mut out, "\x1b[1m".to_owned().concat(title).concat("\x1b[0m"));
        push_text(&mut out, "  none".to_owned());
    } else {
        push_text(
            &mut out,
            colour.to_owned().concat(title).concat("\x1b[0m (").concat(
                to_decimal(items.len()).as_str(),
            ).concat(")"),
        );
        let ghost head = texts(out@);
        let ghost lines = view.map_values(|x: ResidualItemView| item_line(x));
        assert(head + lines.take(0) =~= head);
        for i in 0..items.len()
            invariant
                view == items@.map_values(|x: ResidualItem| x@),
                lines == view.map_values(|x: ResidualItemView| item_line(x)),
                texts(out@) == head + lines.take(i as int),
        {
            push_text(&mut out, print_residual_item(&items[i]));
            assert(lines[i as int] == item_line(items@[i as int]@));
            assert(head + lines.take(i + 1) =~= (head + lines.take(i as int)).push(
                lines[i as int],
            ));
        }
        assert(lines.take(lines.len() as int) =~= lines);
    }
    push_blank(&mut out);
    assert(texts(out@) =~= planned_section(view, title@, colour@));
    out
}

fn sectioned(title: &str, count: usize, lines: Vec<String>) -> (r: Vec<String>)
    ensures
        texts(r@) == section(title@, count as nat, texts(lines@)),
{
    let mut out: Vec<String> = Vec::new();
    if count > 0 {
        push_text(
            &mut out,
            title.to_owned().concat(" (").concat(to_decimal(count).as_str()).concat(")"),
        );
        append_lines(&mut out, lines);
        push_blank(&mut out);
    }
    assert(texts(out@) =~= section(title@, count as nat, texts(lines@)));
    out
}

fn lines_of_preserved(items: &Vec<PreservedItem>) -> (r: Vec<String>)
    ensures
        texts(r@) == preserved_lines(
            items@.map_values(|x: PreservedItem| x@),
            items@.len(),
        ),
{
    let ghost view = items@.map_values(|x: PreservedItem| x@);
    let mut out: Vec<String> = Vec::new();
    assert(texts(out@) =~= seq![]);
    for i in 0..items.len()
        invariant
            view == items@.map_values(|x: PreservedItem| x@),
            texts(out@) == preserved_lines(view, i as nat),
    {
        let ghost before = texts(out@);
        assert(view[i as int] == items@[i as int]@);
        push_text(&mut out, object_text(&items[i].resource));
        push_text(
            &mut out,
            "    \x1b[2m".to_owned().concat(items[i].reason.as_str()).concat("\x1b[0m"),
        );
        assert(texts(out@) =~= preserved_lines(view, (i + 1) as nat));
    }
    out
}

fn lines_of_likely(items: &Vec<AttributedResidual>) -> (r: Vec<String>)
    ensures
        texts(r@) == likely_lines(
            items@.map_values(|x: AttributedResidual| x@),
            items@.len(),
        ),
{
    let ghost view = items@.map_values(|x: AttributedResidual| x@);
    let mut out: Vec<String> = Vec::new();
    assert(texts(out@) =~= seq![]);
    for i in 0..items.len()
        invariant
            view == items@.map_values(|x: AttributedResidual| x@),
            texts(out@) == likely_lines(view, i as nat),
    {
        let ghost before = texts(out@);
        assert(view[i as int] == items@[i as int]@);
        push_text(&mut out, object_text(&items[i].resource));
        let evidence = format_evidence(&items[i].evidence);
        if !evidence.as_str().is_empty() {
            push_text(&mut out, "    evidence: ".to_owned().concat(evidence.as_str()));
        }
        push_text(
            &mut out,
            "    confidence: ".to_owned().concat(items[i].confidence.word()),
        );
        assert(texts(out@) =~= before + likely_entry(view[i as int]));
    }
    out
}

fn lines_of_unattributed(items: &Vec<AttributedResidual>) -> (r: Vec<String>)
    ensures
        texts(r@) == unattributed_lines(
            items@.map_values(|x: AttributedResidual| x@),
            items@.len(),
        ),
{
    let ghost view = items@.map_values(|x: AttributedResidual| x@);
    let mut out: Vec<String> = Vec::new();
    assert(texts(out@) =~= seq![]);
    for i in 0..items.len()
        invariant
            view == items@.map_values(|x: AttributedResidual| x@),
            texts(out@) == unattributed_lines(view, i as nat),
    {
        assert(view[i as int] == items@[i as int]@);
        push_text(&mut out, object_text(&items[i].resource));
        push_text(
            &mut out,
            "    no sufficient operator attribution evidence".to_owned(),
        );
        assert(texts(out@) =~= unattributed_lines(view, (i + 1) as nat));
    }
    out
}

fn tail_lines(audit: &ResidualAudit, namespaces: usize) -> (r: Vec<String>)
    ensures
        texts(r@) == coverage_lines(audit@, namespaces as nat) + error_section(audit@.errors),
{
    let mut out: Vec<String> = Vec::new();
    push_text(
        &mut out,
        "Audit coverage: ".to_owned().concat(
            to_decimal(audit.coverage.succeeded_probes).as_str(),
        ).concat("/").concat(to_decimal(audit.coverage.requested_probes).as_str()).concat(
            " probes succeeded (scope: ",
        ).concat(to_decimal(namespaces).as_str()).concat(" namespace(s))"),
    );
    push_text(
        &mut out,
        "  \x1b[2mScope: install namespace + plan action namespaces only.".to_owned(),
    );
    push_text(
        &mut out,
        "  Residuals in namespaces outside this footprint are not covered.\x1b[0m".to_owned(),
    );
    assert(texts(out@) =~= coverage_lines(audit@, namespaces as nat));
    let errors: &Vec<AuditScanError> = &audit.scan_errors;
    let ghost view = audit@.errors;
    assert(view.len() == errors@.len());
    if errors.len() > 0 {
        push_text(&mut out, "\x1b[1;33mINCOMPLETE\x1b[0m".to_owned());
        let ghost head = texts(out@);
        let ghost lines = view.map_values(|e: ScanErrorView| error_line(e));
        assert(head + lines.take(0) =~= head);
        for i in 0..errors.len()
            invariant
                view == errors@.map_values(|x: AuditScanError| x@),
                lines == view.map_values(|e: ScanErrorView| error_line(e)),
                texts(out@) == head + lines.take(i as int),
        {
            let e: &AuditScanError = &errors[i];
            push_text(
                &mut out,
                "  ".to_owned().concat(e.resource_type.as_str()).concat("/").concat(
                    e.namespace.as_str(),
                ).concat(": ").concat(e.error.as_str()),
            );
            assert(lines[i as int] == error_line(errors@[i as int]@));
            assert(head + lines.take(i + 1) =~= (head + lines.take(i as int)).push(
                lines[i as int],
            ));
        }
        assert(lines.take(lines.len() as int) =~= lines);
    }
    assert(texts(out@) =~= coverage_lines(audit@, namespaces as nat) + error_section(
        audit@.errors,
    ));
    out
}

/// The lines of the report on an audit.
pub fn print_residual_audit(audit: &ResidualAudit, journal: &RunJournal) -> (r: Vec<String>)
    requires
        residual_count(*audit) <= usize::MAX,
    ensures
        texts(r@) == report(*audit, *journal),
{
    let mut out = head_lines(audit, journal);
    append_lines(
        &mut out,
        planned_lines(
            &audit.planned_delete_still_present,
            "PLANNED DELETE STILL PRESENT",
            "\x1b[1;31m",
        ),
    );
    append_lines(
        &mut out,
        planned_lines(
            &audit.planned_expect_still_present,
            "PLANNED EXPECT-GONE STILL PRESENT",
            "\x1b[1;33m",
        ),
    );
    append_lines(
        &mut out,
        sectioned(
            "\x1b[1mEXPECTED PRESERVED\x1b[0m",
            audit.expected_preserved.len(),
            lines_of_preserved(&audit.expected_preserved),
        ),
    );
    append_lines(
        &mut out,
        sectioned(
            "\x1b[1;35mLIKELY OPERATOR RESIDUAL\x1b[0m",
            audit.likely_operator_residual.len(),
            lines_of_likely(&audit.likely_operator_residual),
        ),
    );
    append_lines(
        &mut out,
        sectioned(
            "\x1b[1mUNATTRIBUTED\x1b[0m",
            audit.unattributed.len(),
            lines_of_unattributed(&audit.unattributed),
        ),
    );
    append_lines(
        &mut out,
        tail_lines(audit, journal.audit_context.footprint_namespaces.len()),
    );
    assert(texts(out@) =~= report(*audit, *journal));
    out
}

} // verus!
