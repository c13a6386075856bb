//! Why a resource stands where it stands in a plan.

use vstd::prelude::*;
use vstd::string::*;

use crate::graph::{Confidence, Edge, Evidence, EvidenceGraph, Relation};
use crate::lists::{lemma_pick_take, pick};
use crate::olm::OperatorInstance;
use crate::planner::{action_resource, subject, Action, PlanPhase, TeardownPlan};
use crate::resource::{label, ResourceId, ResourceIdView};
use crate::text::{
    before_first, begins_with, decimal, ends_with, eq_ignoring_ascii_case, finishes_with, has,
    has_text, head_of, join, joined, law_begins_and_finishes, law_parted, lower_text, lowercase,
    part, parted, push_text, same, same_ignoring_ascii_case, starts_with, strip_suffix, texts,
    to_decimal,
};

verus! {

/// The resource is the one that is asked about.
pub open spec fn is_asked(id: ResourceIdView, kind: Seq<char>, name: Seq<char>) -> bool {
    same_ignoring_ascii_case(id.kind, kind) && id.name == name
}

fn asked(id: &ResourceId, kind: &str, name: &str) -> (r: bool)
    ensures
        r == is_asked(id@, kind@, name@),
{
    eq_ignoring_ascii_case(id.kind.as_str(), kind) && same(id.name.as_str(), name)
}

/// An action in words.
pub open spec fn action_text(a: Action) -> Seq<char> {
    match a {
        Action::Delete { reason, .. } => "DELETE — "@ + reason@,
        Action::ExpectGone { reason, .. } => "EXPECT-GONE — "@ + reason@,
        Action::Keep { reason, .. } => "KEEP — "@ + reason@,
        Action::Review { reason, .. } => "REVIEW — "@ + reason@,
        Action::WaitGone { .. } => "WAIT for deletion"@,
    }
}

fn describe_action(a: &Action) -> (r: String)
    ensures
        r@ == action_text(*a),
{
    match a {
        Action::Delete { reason, .. } => "DELETE — ".to_owned().concat(reason.as_str()),
        Action::ExpectGone { reason, .. } => "EXPECT-GONE — ".to_owned().concat(reason.as_str()),
        Action::Keep { reason, .. } => "KEEP — ".to_owned().concat(reason.as_str()),
        Action::Review { reason, .. } => "REVIEW — ".to_owned().concat(reason.as_str()),
        Action::WaitGone { .. } => "WAIT for deletion".to_owned(),
    }
}

/// The first action, from position `i` on, about the resource.
pub open spec fn action_about(
    actions: Seq<Action>,
    kind: Seq<char>,
    name: Seq<char>,
    i: nat,
) -> Option<
    Action,
>
    decreases actions.len() - i,
{
    if i >= actions.len() {
        None
    } else if is_asked(subject(actions[i as int])@, kind, name) {
        Some(actions[i as int])
    } else {
        action_about(actions, kind, name, i + 1)
    }
}

/// Where the resource stands in the plan first, from phase `i` on: the phase, its
/// name, and what is done.
pub open spec fn place_in_plan(
    phases: Seq<PlanPhase>,
    kind: Seq<char>,
    name: Seq<char>,
    i: nat,
) -> Option<
    (nat, Seq<char>, Seq<char>),
>
    decreases phases.len() - i,
{
    if i >= phases.len() {
        None
    } else {
        match action_about(phases[i as int].actions@, kind, name, 0) {
            Some(a) => Some((i, phases[i as int].name@, action_text(a))),
            None => place_in_plan(phases, kind, name, i + 1),
        }
    }
}

fn find_action<'a>(actions: &'a Vec<Action>, kind: &str, name: &str) -> (r: Option<&'a Action>)
    ensures
        match r {
            Some(a) => action_about(actions@, kind@, name@, 0) == Some(*a),
            None => action_about(actions@, kind@, name@, 0) is None,
        },
{
    for i in 0..actions.len()
        invariant
            action_about(actions@, kind@, name@, 0) == action_about(
                actions@,
                kind@,
                name@,
                i as nat,
            ),
    {
        if asked(action_resource(&actions[i]), kind, name) {
            return Some(&actions[i]);
        }
    }
    None
}

/// Where the resource stands in the plan first.
pub fn find_in_plan(plan: &TeardownPlan, kind: &str, name: &str) -> (r: Option<
    (usize, String, String),
>)
    ensures
        match r {
            Some(p) => place_in_plan(plan.phases@, kind@, name@, 0) == Some(
                (p.0 as nat, p.1@, p.2@),
            ),
            None => place_in_plan(plan.phases@, kind@, name@, 0) is None,
        },
{
    let phases: &Vec<PlanPhase> = &plan.phases;
    for i in 0..phases.len()
        invariant
            phases@ == plan.phases@,
            place_in_plan(phases@, kind@, name@, 0) == place_in_plan(
                phases@,
                kind@,
                name@,
                i as nat,
            ),
    {
        match find_action(&phases[i].actions, kind, name) {
            Some(a) => {
                return Some((i, phases[i].name.clone(), describe_action(a)));
            },
            None => {},
        }
    }
    None
}

/// The plural of a lower-case kind.
pub open spec fn plural_of_lower(lower: Seq<char>) -> Seq<char> {
    if finishes_with(lower, "s"@) {
        lower + "es"@
    } else if finishes_with(lower, "y"@) {
        lower.take(lower.len() - 1) + "ies"@
    } else {
        lower + "s"@
    }
}

/// The plural of a lower-case kind.
pub fn make_plural(lower: &str) -> (r: String)
    ensures
        r@ == plural_of_lower(lower@),
{
    if ends_with(lower, "s") {
        lower.to_owned().concat("es")
    } else {
        match strip_suffix(lower, "y") {
            Some(stem) => {
                proof {
                    reveal_strlit("y");
                    assert(lower@.take(lower@.len() - 1) =~= stem@);
                    assert(lower@.skip(lower@.len() - 1) =~= "y"@);
                }
                stem.concat("ies")
            },
            None => lower.to_owned().concat("s"),
        }
    }
}

/// The plural of a kind.
pub fn pluralize(kind: &str) -> (r: String)
    ensures
        r@ == plural_of_lower(lower_text(kind@)),
{
    make_plural(lowercase(kind).as_str())
}

/// A CRD with the lower-case name `crd` defines the kind.
pub open spec fn defines_kind(crd: Seq<char>, kind: Seq<char>, plural: Seq<char>) -> bool {
    begins_with(crd, plural + "."@) || begins_with(crd, kind + "."@)
}

/// Whether a CRD with the lower-case name `crd` defines the kind.
pub fn is_defined_by(crd: &str, kind: &str, plural: &str) -> (r: bool)
    ensures
        r == defines_kind(crd@, kind@, plural@),
{
    starts_with(crd, plural.to_owned().concat(".").as_str()) || starts_with(
        crd,
        kind.to_owned().concat(".").as_str(),
    )
}

/// One of the CRDs defines the kind.
pub open spec fn owns_kind(crds: Seq<String>, kind: Seq<char>) -> bool {
    exists|i: int|
        0 <= i < crds.len() && defines_kind(
            lower_text((#[trigger] crds[i])@),
            lower_text(kind),
            plural_of_lower(lower_text(lower_text(kind))),
        )
}

/// The first operator, from position `i` on, that owns a CRD of the kind.
pub open spec fn owner_of_kind(operators: Seq<OperatorInstance>, kind: Seq<char>, i: nat) -> Option<
    OperatorInstance,
>
    decreases operators.len() - i,
{
    if i >= operators.len() {
        None
    } else if owns_kind(operators[i as int].owned_crds@, kind) {
        Some(operators[i as int])
    } else {
        owner_of_kind(operators, kind, i + 1)
    }
}

fn any_defines(crds: &Vec<String>, kind: &str) -> (r: bool)
    ensures
        r == owns_kind(crds@, kind@),
{
    let lower = lowercase(kind);
    let plural = pluralize(lower.as_str());
    for i in 0..crds.len()
        invariant
            lower@ == lower_text(kind@),
            plural@ == plural_of_lower(lower_text(lower_text(kind@))),
            forall|k: int|
                0 <= k < i ==> !defines_kind(lower_text((#[trigger] crds@[k])@), lower@, plural@),
    {
        let crd = lowercase(crds[i].as_str());
        if is_defined_by(crd.as_str(), lower.as_str(), plural.as_str()) {
            assert(defines_kind(lower_text(crds@[i as int]@), lower@, plural@));
            return true;
        }
    }
    false
}

/// The first operator that owns a CRD of the kind.
pub fn find_owning_operator<'a>(kind: &str, operators: &'a Vec<OperatorInstance>) -> (r: Option<
    &'a OperatorInstance,
>)
    ensures
        match r {
            Some(o) => owner_of_kind(operators@, kind@, 0) == Some(*o),
            None => owner_of_kind(operators@, kind@, 0) is None,
        },
{
    for i in 0..operators.len()
        invariant
            owner_of_kind(operators@, kind@, 0) == owner_of_kind(operators@, kind@, i as nat),
    {
        if any_defines(&operators[i].owned_crds, kind) {
            return Some(&operators[i]);
        }
    }
    None
}

/// The CRD is the one to name for a kind: it has the plural, or begins like the kind.
pub open spec fn is_named_for(crd: Seq<char>, kind: Seq<char>) -> bool {
    same_ignoring_ascii_case(head_of(crd, '.'), plural_of_lower(lower_text(kind))) || begins_with(
        lower_text(crd),
        lower_text(kind),
    )
}

/// The first CRD, from position `i` on, to name for a kind.
pub open spec fn crd_for(crds: Seq<String>, kind: Seq<char>, i: nat) -> Seq<char>
    decreases crds.len() - i,
{
    if i >= crds.len() {
        "unknown"@
    } else if is_named_for(crds[i as int]@, kind) {
        crds[i as int]@
    } else {
        crd_for(crds, kind, i + 1)
    }
}

fn find_crd(crds: &Vec<String>, kind: &str) -> (r: String)
    ensures
        r@ == crd_for(crds@, kind@, 0),
{
    let lower = lowercase(kind);
    let plural = pluralize(kind);
    for i in 0..crds.len()
        invariant
            lower@ == lower_text(kind@),
            plural@ == plural_of_lower(lower_text(kind@)),
            crd_for(crds@, kind@, 0) == crd_for(crds@, kind@, i as nat),
    {
        let head = before_first(crds[i].as_str(), '.');
        if eq_ignoring_ascii_case(head.as_str(), plural.as_str()) || starts_with(
            lowercase(crds[i].as_str()).as_str(),
            lower.as_str(),
        ) {
            return crds[i].clone();
        }
    }
    "unknown".to_owned()
}

/// The word for a confidence.
pub open spec fn confidence_word(c: Confidence) -> Seq<char> {
    match c {
        Confidence::Hard => "HARD"@,
        Confidence::Inferred => "INFERRED"@,
        Confidence::Heuristic => "HEURISTIC"@,
    }
}

/// A piece of evidence in words.
pub open spec fn evidence_text(e: Evidence) -> Seq<char> {
    match e {
        Evidence::OwnerReference => "OwnerReference"@,
        Evidence::CsvOwnedCrd { crd_name } => "CsvOwnedCrd: "@ + crd_name@,
        Evidence::CsvRequiredCrd { crd_name } => "CsvRequiredCrd: "@ + crd_name@,
        Evidence::CsvInstallStrategy => "CsvInstallStrategy"@,
        Evidence::SpecField { path } => "SpecField: "@ + path@,
        Evidence::LabelSelector { selector } => "LabelSelector: "@ + selector@,
        Evidence::ManagedFields { manager } => "ManagedFields: "@ + manager@,
        Evidence::Finalizer { name } => "Finalizer: "@ + name@,
        Evidence::StorageBinding => "StorageBinding"@,
        Evidence::WebhookService => "WebhookService"@,
        Evidence::ApiServiceBackend => "ApiServiceBackend"@,
    }
}

/// The confidence of an edge and the first piece of its evidence.
pub open spec fn grounds(evidence: Seq<Evidence>, c: Confidence) -> Seq<char> {
    confidence_word(c) + ": "@ + if evidence.len() > 0 {
        evidence_text(evidence[0])
    } else {
        "unknown"@
    }
}

fn describe_evidence(e: &Evidence) -> (r: String)
    ensures
        r@ == evidence_text(*e),
{
    match e {
        Evidence::OwnerReference => "OwnerReference".to_owned(),
        Evidence::CsvOwnedCrd { crd_name } => "CsvOwnedCrd: ".to_owned().concat(crd_name.as_str()),
        Evidence::CsvRequiredCrd { crd_name } => "CsvRequiredCrd: ".to_owned().concat(
            crd_name.as_str(),
        ),
        Evidence::CsvInstallStrategy => "CsvInstallStrategy".to_owned(),
        Evidence::SpecField { path } => "SpecField: ".to_owned().concat(path.as_str()),
        Evidence::LabelSelector { selector } => "LabelSelector: ".to_owned().concat(
            selector.as_str(),
        ),
        Evidence::ManagedFields { manager } => "ManagedFields: ".to_owned().concat(
            manager.as_str(),
        ),
        Evidence::Finalizer { name } => "Finalizer: ".to_owned().concat(name.as_str()),
        Evidence::StorageBinding => "StorageBinding".to_owned(),
        Evidence::WebhookService => "WebhookService".to_owned(),
        Evidence::ApiServiceBackend => "ApiServiceBackend".to_owned(),
    }
}

/// The confidence of an edge and the first piece of its evidence.
pub fn format_evidence(evidence: &Vec<Evidence>, confidence: &Confidence) -> (r: String)
    ensures
        r@ == grounds(evidence@, *confidence),
{
    let word = match confidence {
        Confidence::Hard => "HARD",
        Confidence::Inferred => "INFERRED",
        Confidence::Heuristic => "HEURISTIC",
    };
    let first = if evidence.len() > 0 {
        describe_evidence(&evidence[0])
    } else {
        "unknown".to_owned()
    };
    word.to_owned().concat(": ").concat(first.as_str())
}

/// What is asked about: kind and name as they were given.
pub open spec fn topic(kind: Seq<char>, name: Seq<char>) -> Seq<char> {
    kind + "/"@ + name
}

fn topic_text(kind: &str, name: &str) -> (r: String)
    ensures
        r@ == topic(kind@, name@),
{
    kind.to_owned().concat("/").concat(name)
}

/// The part on the operator that owns the CRD.
pub open spec fn crd_text(
    owner: Option<OperatorInstance>,
    kind: Seq<char>,
    name: Seq<char>,
) -> Seq<char> {
    match owner {
        Some(op) => "\n  "@ + topic(kind, name) + "\n    └─ is an instance of CRD "@ + crd_for(
            op.owned_crds@,
            kind,
            0,
        ) + "\n       └─ owned by CSV/"@ + op.csv.name@
            + "                    \x1b[36m[HARD: CsvOwnedCrd]\x1b[0m\n"@,
        None => seq![],
    }
}

fn empty_text() -> (r: String)
    ensures
        r@ == Seq::<char>::empty(),
{
    let r = "".to_owned();
    proof {
        reveal_strlit("");
    }
    assert(r@ =~= seq![]);
    r
}

fn explain_crd(owner: &Option<&OperatorInstance>, kind: &str, name: &str) -> (r: String)
    ensures
        r@ == crd_text(
            match *owner {
                Some(o) => Some(*o),
                None => None,
            },
            kind@,
            name@,
        ),
{
    match owner {
        Some(op) => "\n  ".to_owned().concat(topic_text(kind, name).as_str()).concat(
            "\n    └─ is an instance of CRD ",
        ).concat(find_crd(&op.owned_crds, kind).as_str()).concat(
            "\n       └─ owned by CSV/",
        ).concat(op.csv.name.as_str()).concat(
            "                    \x1b[36m[HARD: CsvOwnedCrd]\x1b[0m\n",
        ),
        None => empty_text(),
    }
}

/// The part on the owners of the resource, among the first `n` edges.
pub open spec fn owners_text(
    edges: Seq<Edge>,
    kind: Seq<char>,
    name: Seq<char>,
    n: nat,
) -> Seq<char>
    decreases n,
{
    if n == 0 {
        seq![]
    } else {
        let before = owners_text(edges, kind, name, (n - 1) as nat);
        let e = edges[n - 1];
        if is_asked(e.to@, kind, name) && e.relation == Relation::Owns {
            before + ("\n  "@ + topic(kind, name) + "\n    └─ owned by "@ + label(e.from@)
                + "                      \x1b[36m["@ + grounds(e.evidence@, e.confidence)
                + "]\x1b[0m\n"@)
        } else {
            before
        }
    }
}

fn explain_owners(edges: &Vec<Edge>, kind: &str, name: &str) -> (r: String)
    ensures
        r@ == owners_text(edges@, kind@, name@, edges@.len()),
{
    let mut out = empty_text();
    for i in 0..edges.len()
        invariant
            out@ == owners_text(edges@, kind@, name@, i as nat),
    {
        let e: &Edge = &edges[i];
        if asked(&e.to, kind, name) && e.relation == Relation::Owns {
            let line = "\n  ".to_owned().concat(topic_text(kind, name).as_str()).concat(
                "\n    └─ owned by ",
            ).concat(e.from.label().as_str()).concat("                      \x1b[36m[").concat(
                format_evidence(&e.evidence, &e.confidence).as_str(),
            ).concat("]\x1b[0m\n");
            out = out.concat(line.as_str());
        }
    }
    out
}

/// The resource owns another.
pub open spec fn has_children(edges: Seq<Edge>, kind: Seq<char>, name: Seq<char>) -> bool {
    exists|i: int|
        0 <= i < edges.len() && is_asked((#[trigger] edges[i]).from@, kind, name)
            && edges[i].relation == Relation::Owns
}

/// The part on what the resource owns.
pub open spec fn children_text(parent: bool, kind: Seq<char>, name: Seq<char>) -> Seq<char> {
    if parent {
        "\n  "@ + topic(kind, name)
            + "\n    └─ is a parent of other resources (ownerReference)   \x1b[36m[HARD: OwnerReference]\x1b[0m\n       └─ must be deleted AFTER its children (Phase 1)\n"@
    } else {
        seq![]
    }
}

fn explain_children(edges: &Vec<Edge>, kind: &str, name: &str) -> (r: String)
    ensures
        r@ == children_text(has_children(edges@, kind@, name@), kind@, name@),
{
    for i in 0..edges.len()
        invariant
            forall|k: int|
                0 <= k < i ==> !(is_asked((#[trigger] edges@[k]).from@, kind@, name@)
                    && edges@[k].relation == Relation::Owns),
    {
        if asked(&edges[i].from, kind, name) && edges[i].relation == Relation::Owns {
            assert(has_children(edges@, kind@, name@));
            return "\n  ".to_owned().concat(topic_text(kind, name).as_str()).concat(
                "\n    └─ is a parent of other resources (ownerReference)   \x1b[36m[HARD: OwnerReference]\x1b[0m\n       └─ must be deleted AFTER its children (Phase 1)\n",
            );
        }
    }
    empty_text()
}

/// One resource points to another by the relation, and uses it.
pub open spec fn refers(r: Relation) -> bool {
    r == Relation::References || r == Relation::UsesStorage || r == Relation::UsesServiceAccount
}

/// The edge is a reference from the resource to another.
pub open spec fn is_reference(e: Edge, kind: Seq<char>, name: Seq<char>) -> bool {
    is_asked(e.from@, kind, name) && refers(e.relation)
}

fn is_referring(r: Relation) -> (b: bool)
    ensures
        b == refers(r),
{
    match r {
        Relation::References | Relation::UsesStorage | Relation::UsesServiceAccount => true,
        Relation::Owns | Relation::Other => false,
    }
}

/// The references from the resource to others, each as its target and its grounds.
pub open spec fn references(edges: Seq<Edge>, kind: Seq<char>, name: Seq<char>) -> Seq<
    (Seq<char>, Seq<char>),
> {
    pick(
        edges,
        |e: Edge|
            if is_reference(e, kind, name) {
                Some((label(e.to@), grounds(e.evidence@, e.confidence)))
            } else {
                None
            },
    )
}

/// The lines of the first `n` references; the last of all gets a corner.
pub open spec fn reference_lines(refs: Seq<(Seq<char>, Seq<char>)>, n: nat) -> Seq<char>
    decreases n,
{
    if n == 0 {
        seq![]
    } else {
        reference_lines(refs, (n - 1) as nat) + ("       "@ + if n == refs.len() {
            "└─"@
        } else {
            "├─"@
        } + " "@ + refs[n - 1].0 + "  \x1b[36m["@ + refs[n - 1].1 + "]\x1b[0m\n"@)
    }
}

/// The part on references.
pub open spec fn references_text(
    refs: Seq<(Seq<char>, Seq<char>)>,
    kind: Seq<char>,
    name: Seq<char>,
) -> Seq<char> {
    if refs.len() == 0 {
        seq![]
    } else {
        "\n  "@ + topic(kind, name) + "\n    └─ references:\n"@ + reference_lines(refs, refs.len())
    }
}

fn collect_references(edges: &Vec<Edge>, kind: &str, name: &str) -> (r: Vec<(String, String)>)
    ensures
        crate::audit::pair_texts(r@) == references(edges@, kind@, name@),
{
    let ghost f = |e: Edge|
        if is_reference(e, kind@, name@) {
            Some((label(e.to@), grounds(e.evidence@, e.confidence)))
        } else {
            None
        };
    let mut out: Vec<(String, String)> = Vec::new();
    assert(edges@.take(0) =~= seq![]);
    assert(crate::audit::pair_texts(out@) =~= seq![]);
    for i in 0..edges.len()
        invariant
            f == (|e: Edge|
                if is_reference(e, kind@, name@) {
                    Some((label(e.to@), grounds(e.evidence@, e.confidence)))
                } else {
                    None
                }),
            crate::audit::pair_texts(out@) == pick(edges@.take(i as int), f),
    {
        proof {
            lemma_pick_take(edges@, f, i as int);
        }
        let e: &Edge = &edges[i];
        if asked(&e.from, kind, name) && is_referring(e.relation) {
            let ghost list = out@;
            let entry = (e.to.label(), format_evidence(&e.evidence, &e.confidence));
            let ghost view = (entry.0@, entry.1@);
            out.push(entry);
            assert(crate::audit::pair_texts(out@) =~= crate::audit::pair_texts(list).push(view));
        }
    }
    assert(edges@.take(edges@.len() as int) =~= edges@);
    out
}

fn explain_references(edges: &Vec<Edge>, kind: &str, name: &str) -> (r: String)
    ensures
        r@ == references_text(references(edges@, kind@, name@), kind@, name@),
{
    let refs = collect_references(edges, kind, name);
    let ghost view = crate::audit::pair_texts(refs@);
    let count: usize = refs.len();
    assert(view.len() == count);
    if count == 0 {
        return empty_text();
    }
    let mut lines = empty_text();
    for i in 0..count
        invariant
            view == crate::audit::pair_texts(refs@),
            count == refs@.len(),
            lines@ == reference_lines(view, i as nat),
    {
        assert(view[i as int] == (refs@[i as int].0@, refs@[i as int].1@));
        let corner = if i + 1 == count {
            "└─"
        } else {
            "├─"
        };
        let line = "       ".to_owned().concat(corner).concat(" ").concat(
            refs[i].0.as_str(),
        ).concat("  \x1b[36m[").concat(refs[i].1.as_str()).concat("]\x1b[0m\n");
        lines = lines.concat(line.as_str());
    }
    "\n  ".to_owned().concat(topic_text(kind, name).as_str()).concat(
        "\n    └─ references:\n",
    ).concat(lines.as_str())
}

/// The part on the controller.
pub open spec fn safety_text(owner: Option<OperatorInstance>) -> Seq<char> {
    match owner {
        Some(op) => "\n  CSV/"@ + op.csv.name@
            + "\n    └─ is the controller for this resource's CRD\n       └─ must stay alive until all operands are gone (Phase 3)  \x1b[31m[SAFETY]\x1b[0m\n"@,
        None => seq![],
    }
}

fn explain_safety(owner: &Option<&OperatorInstance>) -> (r: String)
    ensures
        r@ == safety_text(
            match *owner {
                Some(o) => Some(*o),
                None => None,
            },
        ),
{
    match owner {
        Some(op) => "\n  CSV/".to_owned().concat(op.csv.name.as_str()).concat(
            "\n    └─ is the controller for this resource's CRD\n       └─ must stay alive until all operands are gone (Phase 3)  \x1b[31m[SAFETY]\x1b[0m\n",
        ),
        None => empty_text(),
    }
}

/// The edge joins the resource that is asked about and `other`, in either direction.
pub open spec fn joins(e: Edge, kind: Seq<char>, name: Seq<char>, other: ResourceIdView) -> bool {
    ||| is_asked(e.from@, kind, name) && e.to.kind@ == other.kind && e.to.name@ == other.name
    ||| is_asked(e.to@, kind, name) && e.from.kind@ == other.kind && e.from.name@ == other.name
}

/// `other` has to do with the resource: it is the version, the subscription or a CRD
/// of the operator that owns its kind, or an edge joins the two.
pub open spec fn is_related(
    other: ResourceIdView,
    kind: Seq<char>,
    name: Seq<char>,
    operators: Seq<OperatorInstance>,
    edges: Seq<Edge>,
) -> bool {
    ||| owner_of_kind(operators, kind, 0) matches Some(op) && is_part_of(other, op)
    ||| exists|i: int| 0 <= i < edges.len() && joins(#[trigger] edges[i], kind, name, other)
}

/// The resource is the version, the subscription or a CRD of the operator.
pub open spec fn is_part_of(id: ResourceIdView, op: OperatorInstance) -> bool {
    ||| id.kind == "ClusterServiceVersion"@ && op.csv.name@ == id.name
    ||| id.kind == "Subscription"@ && (op.subscription matches Some(sub) && sub.name@ == id.name)
    ||| id.kind == "CustomResourceDefinition"@ && has_text(op.owned_crds@, id.name)
}

fn part_of(id: &ResourceId, op: &OperatorInstance) -> (r: bool)
    ensures
        r == is_part_of(id@, *op),
{
    if same(id.kind.as_str(), "ClusterServiceVersion") && same(
        op.csv.name.as_str(),
        id.name.as_str(),
    ) {
        return true;
    }
    if same(id.kind.as_str(), "Subscription") {
        match &op.subscription {
            Some(sub) => {
                if same(sub.name.as_str(), id.name.as_str()) {
                    return true;
                }
            },
            None => {},
        }
    }
    same(id.kind.as_str(), "CustomResourceDefinition") && has(&op.owned_crds, id.name.as_str())
}

/// Whether the resource of an action has to do with the one that is asked about.
pub fn is_related_to_resource(
    action: &Action,
    query_kind: &str,
    query_name: &str,
    operators: &Vec<OperatorInstance>,
    edges: &Vec<Edge>,
) -> (r: bool)
    ensures
        r == is_related(subject(*action)@, query_kind@, query_name@, operators@, edges@),
{
    let other = action_resource(action);
    match find_owning_operator(query_kind, operators) {
        Some(op) => {
            if part_of(other, op) {
                return true;
            }
        },
        None => {},
    }
    for i in 0..edges.len()
        invariant
            *other == subject(*action),
            forall|k: int|
                0 <= k < i ==> !joins(#[trigger] edges@[k], query_kind@, query_name@, other@),
    {
        let e: &Edge = &edges[i];
        let outgoing = asked(&e.from, query_kind, query_name) && same(
            e.to.kind.as_str(),
            other.kind.as_str(),
        ) && same(e.to.name.as_str(), other.name.as_str());
        let incoming = asked(&e.to, query_kind, query_name) && same(
            e.from.kind.as_str(),
            other.kind.as_str(),
        ) && same(e.from.name.as_str(), other.name.as_str());
        if outgoing || incoming {
            assert(joins(edges@[i as int], query_kind@, query_name@, other@));
            return true;
        }
    }
    assert(!exists|k: int|
        0 <= k < edges@.len() && joins(#[trigger] edges@[k], query_kind@, query_name@, other@));
    false
}

/// What happens to the resource, in words.
pub open spec fn fate(a: Action) -> Seq<char> {
    match a {
        Action::Delete { .. } => "deleted"@,
        Action::ExpectGone { .. } => "expected to be removed by controller"@,
        Action::Keep { .. } => "kept"@,
        Action::Review { .. } => "marked for review"@,
        Action::WaitGone { .. } => "waiting for deletion"@,
    }
}

/// What happens to the resource, in words.
pub fn action_label(a: &Action) -> (r: &'static str)
    ensures
        r@ == fate(*a),
{
    match a {
        Action::Delete { .. } => "deleted",
        Action::ExpectGone { .. } => "expected to be removed by controller",
        Action::Keep { .. } => "kept",
        Action::Review { .. } => "marked for review",
        Action::WaitGone { .. } => "waiting for deletion",
    }
}

/// Another action, in short.
pub open spec fn mention(a: Action) -> Seq<char> {
    label(subject(a)@) + match a {
        Action::Delete { .. } => Seq::<char>::empty(),
        Action::ExpectGone { .. } => " (expected)"@,
        Action::Keep { .. } => " (kept)"@,
        Action::Review { .. } => " (review)"@,
        Action::WaitGone { .. } => " (wait)"@,
    }
}

fn mention_text(a: &Action) -> (r: String)
    ensures
        r@ == mention(*a),
{
    let name = action_resource(a).label();
    match a {
        Action::Delete { .. } => {
            assert(name@ =~= name@ + Seq::<char>::empty());
            name
        },
        Action::ExpectGone { .. } => name.concat(" (expected)"),
        Action::Keep { .. } => name.concat(" (kept)"),
        Action::Review { .. } => name.concat(" (review)"),
        Action::WaitGone { .. } => name.concat(" (wait)"),
    }
}

/// At most the first three of a list.
pub open spec fn first_three(s: Seq<Seq<char>>) -> Seq<Seq<char>> {
    if s.len() <= 3 {
        s
    } else {
        s.take(3)
    }
}

/// The related actions of a phase, in short.
pub open spec fn related_mentions(
    actions: Seq<Action>,
    kind: Seq<char>,
    name: Seq<char>,
    operators: Seq<OperatorInstance>,
    edges: Seq<Edge>,
) -> Seq<Seq<char>> {
    pick(
        actions,
        |a: Action|
            if is_related(subject(a)@, kind, name, operators, edges) {
                Some(mention(a))
            } else {
                None
            },
    )
}

fn collect_mentions(
    actions: &Vec<Action>,
    kind: &str,
    name: &str,
    operators: &Vec<OperatorInstance>,
    edges: &Vec<Edge>,
) -> (r: Vec<String>)
    ensures
        texts(r@) == first_three(related_mentions(actions@, kind@, name@, operators@, edges@)),
{
    let ghost f = |a: Action|
        if is_related(subject(a)@, kind@, name@, operators@, edges@) {
            Some(mention(a))
        } else {
            None
        };
    let mut out: Vec<String> = Vec::new();
    assert(actions@.take(0) =~= seq![]);
    assert(texts(out@) =~= seq![]);
    for i in 0..actions.len()
        invariant
            f == (|a: Action|
                if is_related(subject(a)@, kind@, name@, operators@, edges@) {
                    Some(mention(a))
                } else {
                    None
                }),
            texts(out@) == first_three(pick(actions@.take(i as int), f)),
    {
        let ghost so_far = pick(actions@.take(i as int), f);
        proof {
            lemma_pick_take(actions@, f, i as int);
        }
        assert(texts(out@).len() == out@.len());
        if is_related_to_resource(&actions[i], kind, name, operators, edges) {
            let ghost m = mention(actions@[i as int]);
            if out.len() < 3 {
                push_text(&mut out, mention_text(&actions[i]));
            } else {
                assert(so_far.push(m).take(3) =~= first_three(so_far));
            }
        }
    }
    assert(actions@.take(actions@.len() as int) =~= actions@);
    out
}

/// The line of phase `i`, or nothing.
pub open spec fn phase_text(
    phase: PlanPhase,
    i: nat,
    kind: Seq<char>,
    name: Seq<char>,
    operators: Seq<OperatorInstance>,
    edges: Seq<Edge>,
) -> Seq<char> {
    match action_about(phase.actions@, kind, name, 0) {
        Some(a) => "  Phase "@ + decimal(i) + ": "@ + topic(kind, name) + " is "@ + fate(a)
            + "    \x1b[1;33m◀ HERE\x1b[0m\n"@,
        None => {
            let mentions = first_three(
                related_mentions(phase.actions@, kind, name, operators, edges),
            );
            if mentions.len() == 0 {
                seq![]
            } else {
                "  Phase "@ + decimal(i) + ": "@ + phase.name@ + " — "@ + joined(mentions, ", "@)
                    + "\n"@
            }
        },
    }
}

/// The lines of the first `n` phases.
pub open spec fn phases_text(
    phases: Seq<PlanPhase>,
    kind: Seq<char>,
    name: Seq<char>,
    operators: Seq<OperatorInstance>,
    edges: Seq<Edge>,
    n: nat,
) -> Seq<char>
    decreases n,
{
    if n == 0 {
        seq![]
    } else {
        phases_text(phases, kind, name, operators, edges, (n - 1) as nat) + phase_text(
            phases[n - 1],
            (n - 1) as nat,
            kind,
            name,
            operators,
            edges,
        )
    }
}

fn explain_phase(
    phase: &PlanPhase,
    i: usize,
    kind: &str,
    name: &str,
    operators: &Vec<OperatorInstance>,
    edges: &Vec<Edge>,
) -> (r: String)
    ensures
        r@ == phase_text(*phase, i as nat, kind@, name@, operators@, edges@),
{
    match find_action(&phase.actions, kind, name) {
        Some(a) => "  Phase ".to_owned().concat(to_decimal(i).as_str()).concat(": ").concat(
            topic_text(kind, name).as_str(),
        ).concat(" is ").concat(action_label(a)).concat("    \x1b[1;33m◀ HERE\x1b[0m\n"),
        None => {
            let mentions = collect_mentions(&phase.actions, kind, name, operators, edges);
            assert(texts(mentions@).len() == mentions@.len());
            if mentions.len() == 0 {
                empty_text()
            } else {
                "  Phase ".to_owned().concat(to_decimal(i).as_str()).concat(": ").concat(
                    phase.name.as_str(),
                ).concat(" — ").concat(join(&mentions, ", ").as_str()).concat("\n")
            }
        },
    }
}

/// The explanation of a resource that stands in the plan.
pub open spec fn full_text(
    plan: TeardownPlan,
    kind: Seq<char>,
    name: Seq<char>,
    place: (nat, Seq<char>, Seq<char>),
    operators: Seq<OperatorInstance>,
    edges: Seq<Edge>,
) -> Seq<char> {
    let owner = owner_of_kind(operators, kind, 0);
    "\x1b[1m"@ + topic(kind, name) + "\x1b[0m is in \x1b[1mPhase "@ + decimal(place.0) + " ("@
        + place.1 + ")\x1b[0m\n  Action: "@ + place.2
        + "\n\n\x1b[1mOrdering constraints:\x1b[0m\n"@ + crd_text(owner, kind, name) + owners_text(
        edges,
        kind,
        name,
        edges.len(),
    ) + children_text(has_children(edges, kind, name), kind, name) + references_text(
        references(edges, kind, name),
        kind,
        name,
    ) + safety_text(owner) + "\n\x1b[1mTherefore:\x1b[0m\n"@ + phases_text(
        plan.phases@,
        kind,
        name,
        operators,
        edges,
        plan.phases@.len(),
    )
}

/// What is said of a resource, given as `kind/name`.
pub open spec fn explanation(
    plan: TeardownPlan,
    query: Seq<char>,
    operators: Seq<OperatorInstance>,
    edges: Seq<Edge>,
) -> Seq<char> {
    match parted(query, '/') {
        None => "Invalid resource format '"@ + query + "'. Use kind/name."@,
        Some(q) => match place_in_plan(plan.phases@, q.0, q.1, 0) {
            None => topic(q.0, q.1)
                + " not found in the teardown plan.\n\nHint: use `oc-deps teardown plan` to see all resources in the plan."@,
            Some(place) => full_text(plan, q.0, q.1, place, operators, edges),
        },
    }
}

/// What is to be said of a resource, given as `kind/name`: where it stands in the
/// plan, and why.
pub fn explain_resource(
    plan: &TeardownPlan,
    resource_query: &str,
    operators: &Vec<OperatorInstance>,
    evidence_graph: &EvidenceGraph,
) -> (r: String)
    ensures
        r@ == explanation(*plan, resource_query@, operators@, evidence_graph.edges@),
{
    let (kind, name) = match part(resource_query, '/') {
        Some(q) => q,
        None => {
            return "Invalid resource format '".to_owned().concat(resource_query).concat(
                "'. Use kind/name.",
            );
        },
    };
    let place = match find_in_plan(plan, kind.as_str(), name.as_str()) {
        Some(p) => p,
        None => {
            return topic_text(kind.as_str(), name.as_str()).concat(
                " not found in the teardown plan.\n\nHint: use `oc-deps teardown plan` to see all resources in the plan.",
            );
        },
    };
    let edges: &Vec<Edge> = &evidence_graph.edges;
    let owner = find_owning_operator(kind.as_str(), operators);
    let head = "\x1b[1m".to_owned().concat(
        topic_text(kind.as_str(), name.as_str()).as_str(),
    ).concat("\x1b[0m is in \x1b[1mPhase ").concat(to_decimal(place.0).as_str()).concat(
        " (",
    ).concat(place.1.as_str()).concat(")\x1b[0m\n  Action: ").concat(place.2.as_str()).concat(
        "\n\n\x1b[1mOrdering constraints:\x1b[0m\n",
    ).concat(explain_crd(&owner, kind.as_str(), name.as_str()).as_str()).concat(
        explain_owners(edges, kind.as_str(), name.as_str()).as_str(),
    ).concat(explain_children(edges, kind.as_str(), name.as_str()).as_str()).concat(
        explain_references(edges, kind.as_str(), name.as_str()).as_str(),
    ).concat(explain_safety(&owner).as_str()).concat("\n\x1b[1mTherefore:\x1b[0m\n");
    let phases: &Vec<PlanPhase> = &plan.phases;
    let mut lines = empty_text();
    for i in 0..phases.len()
        invariant
            lines@ == phases_text(
                phases@,
                kind@,
                name@,
                operators@,
                edges@,
                i as nat,
            ),
    {
        let line = explain_phase(
            &phases[i],
            i,
            kind.as_str(),
            name.as_str(),
            operators,
            edges,
        );
        lines = lines.concat(line.as_str());
    }
    head.concat(lines.as_str())
}

proof fn lemma_action_about(actions: Seq<Action>, kind: Seq<char>, name: Seq<char>, i: nat)
    ensures
        action_about(actions, kind, name, i) is None <==> forall|k: int|
            i <= k < actions.len() ==> !is_asked(subject(#[trigger] actions[k])@, kind, name),
        action_about(actions, kind, name, i) matches Some(a) ==> exists|k: int|
            i <= k < actions.len() && #[trigger] actions[k] == a && is_asked(
                subject(a)@,
                kind,
                name,
            ) && forall|j: int|
                i <= j < k ==> !is_asked(subject(#[trigger] actions[j])@, kind, name),
    decreases actions.len() - i,
{
    if i < actions.len() {
        if is_asked(subject(actions[i as int])@, kind, name) {
            assert(actions[i as int] == action_about(actions, kind, name, i)->0);
        } else {
            lemma_action_about(actions, kind, name, i + 1);
            if let Some(a) = action_about(actions, kind, name, i + 1) {
                let k = choose|k: int|
                    i + 1 <= k < actions.len() && #[trigger] actions[k] == a && is_asked(
                        subject(a)@,
                        kind,
                        name,
                    ) && forall|j: int|
                        i + 1 <= j < k ==> !is_asked(subject(#[trigger] actions[j])@, kind, name);
                assert(actions[k] == a);
            }
        }
    }
}

/// A resource stands in the first phase that has an action on it, and there with the
/// first such action: `p` and `k` are its place where no earlier phase and no earlier
/// action of the phase is about a resource of that kind, in whatever case, and name.
pub proof fn law_place_in_the_plan(
    phases: Seq<PlanPhase>,
    kind: Seq<char>,
    name: Seq<char>,
    i: nat,
    p: int,
    k: int,
)
    requires
        i <= p < phases.len(),
        0 <= k < phases[p].actions@.len(),
        same_ignoring_ascii_case(subject(phases[p].actions@[k])@.kind, kind),
        subject(phases[p].actions@[k])@.name == name,
        forall|j: int|
            0 <= j < k ==> !is_asked(subject(#[trigger] phases[p].actions@[j])@, kind, name),
        forall|q: int, j: int|
            i <= q < p && 0 <= j < phases[q].actions@.len() ==> !is_asked(
                subject(#[trigger] phases[q].actions@[j])@,
                kind,
                name,
            ),
    ensures
        place_in_plan(phases, kind, name, i) == Some(
            (p as nat, phases[p].name@, action_text(phases[p].actions@[k])),
        ),
    decreases phases.len() - i,
{
    let actions = phases[i as int].actions@;
    lemma_action_about(actions, kind, name, 0);
    if i < p {
        assert forall|j: int| 0 <= j < actions.len() implies !is_asked(
            subject(#[trigger] actions[j])@,
            kind,
            name,
        ) by {
            assert(!is_asked(subject(phases[i as int].actions@[j])@, kind, name));
        }
        law_place_in_the_plan(phases, kind, name, i + 1, p, k);
    } else {
        assert(is_asked(subject(actions[k])@, kind, name));
        let a = action_about(actions, kind, name, 0)->0;
        let c = choose|c: int|
            0 <= c < actions.len() && #[trigger] actions[c] == a && is_asked(
                subject(a)@,
                kind,
                name,
            ) && forall|j: int|
                0 <= j < c ==> !is_asked(subject(#[trigger] actions[j])@, kind, name);
        if c < k {
            assert(!is_asked(subject(phases[p].actions@[c])@, kind, name));
        }
        assert(c == k);
    }
}

/// A resource that no action of any phase is about is not found; the answer names it as
/// it was asked for. A question without a slash is not understood.
pub proof fn law_resource_that_is_not_found(
    plan: TeardownPlan,
    kind: Seq<char>,
    name: Seq<char>,
    operators: Seq<OperatorInstance>,
    edges: Seq<Edge>,
)
    requires
        !kind.contains('/'),
        forall|p: int, j: int|
            0 <= p < plan.phases@.len() && 0 <= j < plan.phases@[p].actions@.len() ==> !is_asked(
                subject(#[trigger] plan.phases@[p].actions@[j])@,
                kind,
                name,
            ),
    ensures
        explanation(plan, kind + seq!['/'] + name, operators, edges) == kind + "/"@ + name
            + " not found in the teardown plan.\n\nHint: use `oc-deps teardown plan` to see all resources in the plan."@,
        explanation(plan, kind, operators, edges) == "Invalid resource format '"@ + kind
            + "'. Use kind/name."@,
{
    law_parted(kind + seq!['/'] + name, kind, '/', name);
    law_parted(kind, kind, '/', name);
    lemma_not_in_plan(plan.phases@, kind, name, 0);
}

proof fn lemma_not_in_plan(phases: Seq<PlanPhase>, kind: Seq<char>, name: Seq<char>, i: nat)
    requires
        forall|p: int, j: int|
            i <= p < phases.len() && 0 <= j < phases[p].actions@.len() ==> !is_asked(
                subject(#[trigger] phases[p].actions@[j])@,
                kind,
                name,
            ),
    ensures
        place_in_plan(phases, kind, name, i) is None,
    decreases phases.len() - i,
{
    if i < phases.len() {
        let actions = phases[i as int].actions@;
        lemma_action_about(actions, kind, name, 0);
        assert forall|j: int| 0 <= j < actions.len() implies !is_asked(
            subject(#[trigger] actions[j])@,
            kind,
            name,
        ) by {
            assert(!is_asked(subject(phases[i as int].actions@[j])@, kind, name));
        }
        lemma_not_in_plan(phases, kind, name, i + 1);
    }
}

/// What is said of an action, of the fate of its resource, and of it in passing, each by
/// what it does.
pub proof fn law_actions_in_words(resource: ResourceId, reason: String)
    ensures
        ({
            let l = resource.kind@ + "/"@ + resource.name@;
            let delete = Action::Delete { resource, reason };
            let expect = Action::ExpectGone { resource, reason };
            let wait = Action::WaitGone { resource };
            let keep = Action::Keep { resource, reason };
            let review = Action::Review { resource, reason, metadata: None };
            &&& action_text(delete) == "DELETE — "@ + reason@
            &&& action_text(expect) == "EXPECT-GONE — "@ + reason@
            &&& action_text(wait) == "WAIT for deletion"@
            &&& action_text(keep) == "KEEP — "@ + reason@
            &&& action_text(review) == "REVIEW — "@ + reason@
            &&& fate(delete) == "deleted"@
            &&& fate(expect) == "expected to be removed by controller"@
            &&& fate(wait) == "waiting for deletion"@
            &&& fate(keep) == "kept"@
            &&& fate(review) == "marked for review"@
            &&& mention(delete) == l
            &&& mention(expect) == l + " (expected)"@
            &&& mention(wait) == l + " (wait)"@
            &&& mention(keep) == l + " (kept)"@
            &&& mention(review) == l + " (review)"@
        }),
{
    let l = resource.kind@ + "/"@ + resource.name@;
    assert(l + Seq::<char>::empty() =~= l);
}

/// The plural of a kind in lower case: `es` behind an `s`, `ies` in place of a `y`, and
/// `s` behind anything else.
pub proof fn law_plural(stem: Seq<char>, c: char)
    requires
        c != 's',
        c != 'y',
    ensures
        plural_of_lower(stem + seq!['s']) == stem + seq!['s'] + "es"@,
        plural_of_lower(stem + seq!['y']) == stem + "ies"@,
        plural_of_lower(stem + seq![c]) == stem + seq![c] + "s"@,
{
    reveal_strlit("s");
    reveal_strlit("y");
    assert("s"@ =~= seq!['s']);
    assert("y"@ =~= seq!['y']);
    law_begins_and_finishes(stem + seq!['s'], "s"@, stem);
    law_begins_and_finishes(stem + seq!['y'], "y"@, stem);
    let a = stem + seq!['y'];
    let b = stem + seq![c];
    assert(a.skip(a.len() - 1) =~= seq!['y']);
    assert(b.skip(b.len() - 1) =~= seq![c]);
    assert(seq!['y'][0] == 'y');
    assert(seq![c][0] == c);
    assert(seq!['s'][0] == 's');
    assert(a.take(a.len() - 1) =~= stem);
}

/// A definition defines a kind where its name, in lower case, begins with the plural and
/// a dot, or with the kind and a dot.
pub proof fn law_what_defines_a_kind(
    crd: Seq<char>,
    kind: Seq<char>,
    plural: Seq<char>,
    rest: Seq<char>,
)
    ensures
        crd == plural + "."@ + rest ==> defines_kind(crd, kind, plural),
        crd == kind + "."@ + rest ==> defines_kind(crd, kind, plural),
        defines_kind(crd, kind, plural) ==> exists|r: Seq<char>|
            crd == #[trigger] (plural + "."@ + r) || crd == kind + "."@ + r,
{
    law_begins_and_finishes(crd, plural + "."@, rest);
    law_begins_and_finishes(crd, kind + "."@, rest);
    if begins_with(crd, plural + "."@) {
        let r = choose|r: Seq<char>| crd == #[trigger] ((plural + "."@) + r);
        assert(crd == plural + "."@ + r);
    } else if begins_with(crd, kind + "."@) {
        let r = choose|r: Seq<char>| crd == #[trigger] ((kind + "."@) + r);
        let x = plural + "."@ + r;
        assert(crd == kind + "."@ + r);
    }
}

/// The operator of a kind is the first that owns a definition of it.
pub proof fn law_operator_of_a_kind(
    operators: Seq<OperatorInstance>,
    kind: Seq<char>,
    i: nat,
    k: int,
)
    ensures
        i <= k < operators.len() && owns_kind(operators[k].owned_crds@, kind) && (forall|j: int|
            i <= j < k ==> !owns_kind((#[trigger] operators[j]).owned_crds@, kind))
            ==> owner_of_kind(operators, kind, i) == Some(operators[k]),
        (forall|j: int|
            i <= j < operators.len() ==> !owns_kind((#[trigger] operators[j]).owned_crds@, kind))
            ==> owner_of_kind(operators, kind, i) is None,
    decreases operators.len() - i,
{
    if i < operators.len() && !owns_kind(operators[i as int].owned_crds@, kind) {
        law_operator_of_a_kind(operators, kind, i + 1, k);
    }
}

/// A reference is an edge from the resource by which it references another or uses its
/// storage or its service account; what it owns is no reference. Each reference is
/// listed with the kind and name of its target.
pub proof fn law_references(edges: Seq<Edge>, kind: Seq<char>, name: Seq<char>, e: Edge)
    ensures
        references(edges.push(e), kind, name) == if is_asked(e.from@, kind, name) && (e.relation
            is References || e.relation is UsesStorage || e.relation is UsesServiceAccount) {
            references(edges, kind, name).push(
                (e.to.kind@ + "/"@ + e.to.name@, grounds(e.evidence@, e.confidence)),
            )
        } else {
            references(edges, kind, name)
        },
        references(seq![], kind, name).len() == 0,
{
    assert(edges.push(e).drop_last() =~= edges);
}

/// Each edge by which another resource owns this one has its part in the text, with the
/// kind and name of the owner; no other edge has. And a resource owns something exactly
/// where an edge from it says so.
pub proof fn law_owners_and_children(edges: Seq<Edge>, kind: Seq<char>, name: Seq<char>, n: nat)
    requires
        n < edges.len(),
    ensures
        ({
            let e = edges[n as int];
            let owned = is_asked(e.to@, kind, name) && e.relation is Owns;
            &&& owned ==> owners_text(edges, kind, name, n + 1) == owners_text(
                edges,
                kind,
                name,
                n,
            ) + ("\n  "@ + topic(kind, name) + "\n    └─ owned by "@ + (e.from.kind@ + "/"@
                + e.from.name@) + "                      \x1b[36m["@ + grounds(
                e.evidence@,
                e.confidence,
            ) + "]\x1b[0m\n"@)
            &&& !owned ==> owners_text(edges, kind, name, n + 1) == owners_text(
                edges,
                kind,
                name,
                n,
            )
        }),
        has_children(edges, kind, name) <==> exists|i: int|
            0 <= i < edges.len() && (#[trigger] edges[i]).relation is Owns && is_asked(
                edges[i].from@,
                kind,
                name,
            ),
{
    if has_children(edges, kind, name) {
        let i = choose|i: int|
            0 <= i < edges.len() && is_asked((#[trigger] edges[i]).from@, kind, name)
                && edges[i].relation == Relation::Owns;
        assert(edges[i].relation is Owns);
    }
    if exists|i: int|
        0 <= i < edges.len() && (#[trigger] edges[i]).relation is Owns && is_asked(
            edges[i].from@,
            kind,
            name,
        ) {
        let i = choose|i: int|
            0 <= i < edges.len() && (#[trigger] edges[i]).relation is Owns && is_asked(
                edges[i].from@,
                kind,
                name,
            );
        assert(edges[i].relation == Relation::Owns);
    }
}

/// Another resource has to do with the one that is asked about where it is the
/// ClusterServiceVersion, the Subscription or an owned CustomResourceDefinition of the
/// operator of the kind, or where an edge leads from one of the two to the other; and
/// nowhere else.
pub proof fn law_what_is_related(
    other: ResourceIdView,
    kind: Seq<char>,
    name: Seq<char>,
    operators: Seq<OperatorInstance>,
    edges: Seq<Edge>,
)
    ensures
        is_related(other, kind, name, operators, edges) <==> {
            ||| owner_of_kind(operators, kind, 0) matches Some(op) && {
                ||| other.kind == "ClusterServiceVersion"@ && op.csv.name@ == other.name
                ||| other.kind == "Subscription"@ && op.subscription is Some
                    && op.subscription->0.name@ == other.name
                ||| other.kind == "CustomResourceDefinition"@ && exists|i: int|
                    0 <= i < op.owned_crds@.len() && (#[trigger] op.owned_crds@[i])@ == other.name
            }
            ||| exists|i: int|
                0 <= i < edges.len() && {
                    let e = #[trigger] edges[i];
                    ||| is_asked(e.from@, kind, name) && e.to.kind@ == other.kind && e.to.name@
                        == other.name
                    ||| is_asked(e.to@, kind, name) && e.from.kind@ == other.kind && e.from.name@
                        == other.name
                }
        },
{
    if exists|i: int| 0 <= i < edges.len() && joins(#[trigger] edges[i], kind, name, other) {
        let i = choose|i: int| 0 <= i < edges.len() && joins(#[trigger] edges[i], kind, name, other);
        assert(joins(edges[i], kind, name, other));
    }
    if exists|i: int|
        0 <= i < edges.len() && {
            let e = #[trigger] edges[i];
            ||| is_asked(e.from@, kind, name) && e.to.kind@ == other.kind && e.to.name@
                == other.name
            ||| is_asked(e.to@, kind, name) && e.from.kind@ == other.kind && e.from.name@
                == other.name
        } {
        let i = choose|i: int|
            0 <= i < edges.len() && {
                let e = #[trigger] edges[i];
                ||| is_asked(e.from@, kind, name) && e.to.kind@ == other.kind && e.to.name@
                    == other.name
                ||| is_asked(e.to@, kind, name) && e.from.kind@ == other.kind && e.from.name@
                    == other.name
            };
        assert(joins(edges[i], kind, name, other));
    }
}

/// The related actions of a phase are mentioned in their order, each that is related and
/// no other; of more than three, the first three are shown.
pub proof fn law_related_actions_are_mentioned(
    actions: Seq<Action>,
    a: Action,
    kind: Seq<char>,
    name: Seq<char>,
    operators: Seq<OperatorInstance>,
    edges: Seq<Edge>,
    s: Seq<Seq<char>>,
)
    ensures
        related_mentions(actions.push(a), kind, name, operators, edges) == if is_related(
            subject(a)@,
            kind,
            name,
            operators,
            edges,
        ) {
            related_mentions(actions, kind, name, operators, edges).push(mention(a))
        } else {
            related_mentions(actions, kind, name, operators, edges)
        },
        related_mentions(seq![], kind, name, operators, edges).len() == 0,
        s.len() <= 3 ==> first_three(s) == s,
        s.len() > 3 ==> first_three(s).len() == 3 && first_three(s)[0] == s[0] && first_three(s)[1]
            == s[1] && first_three(s)[2] == s[2],
{
    assert(actions.push(a).drop_last() =~= actions);
}

/// The words for the grounds of an edge: how firmly it is believed, and what its first
/// piece of evidence is, or that it is unknown.
pub proof fn law_grounds_in_words(evidence: Seq<Evidence>, c: Confidence, s: String)
    ensures
        confidence_word(Confidence::Hard) == "HARD"@,
        confidence_word(Confidence::Inferred) == "INFERRED"@,
        confidence_word(Confidence::Heuristic) == "HEURISTIC"@,
        evidence.len() == 0 ==> grounds(evidence, c) == confidence_word(c) + ": "@ + "unknown"@,
        evidence.len() > 0 ==> grounds(evidence, c) == confidence_word(c) + ": "@ + evidence_text(
            evidence[0],
        ),
        evidence_text(Evidence::OwnerReference) == "OwnerReference"@,
        evidence_text(Evidence::CsvInstallStrategy) == "CsvInstallStrategy"@,
        evidence_text(Evidence::StorageBinding) == "StorageBinding"@,
        evidence_text(Evidence::WebhookService) == "WebhookService"@,
        evidence_text(Evidence::ApiServiceBackend) == "ApiServiceBackend"@,
        evidence_text(Evidence::CsvOwnedCrd { crd_name: s }) == "CsvOwnedCrd: "@ + s@,
        evidence_text(Evidence::CsvRequiredCrd { crd_name: s }) == "CsvRequiredCrd: "@ + s@,
        evidence_text(Evidence::SpecField { path: s }) == "SpecField: "@ + s@,
        evidence_text(Evidence::LabelSelector { selector: s }) == "LabelSelector: "@ + s@,
        evidence_text(Evidence::ManagedFields { manager: s }) == "ManagedFields: "@ + s@,
        evidence_text(Evidence::Finalizer { name: s }) == "Finalizer: "@ + s@,
{
}

/// The definition that is named for a kind is the first that has the plural before its
/// first dot, in whatever case, or that begins like the kind in lower case; where there is
/// none it is unknown.
pub proof fn law_definition_named_for_a_kind(crds: Seq<String>, kind: Seq<char>, i: nat, k: int)
    ensures
        i <= k < crds.len() && (same_ignoring_ascii_case(
            head_of(crds[k]@, '.'),
            plural_of_lower(lower_text(kind)),
        ) || begins_with(lower_text(crds[k]@), lower_text(kind))) && (forall|j: int|
            i <= j < k ==> !same_ignoring_ascii_case(
                head_of((#[trigger] crds[j])@, '.'),
                plural_of_lower(lower_text(kind)),
            ) && !begins_with(lower_text(crds[j]@), lower_text(kind))) ==> crd_for(crds, kind, i)
            == crds[k]@,
        (forall|j: int|
            i <= j < crds.len() ==> !same_ignoring_ascii_case(
                head_of((#[trigger] crds[j])@, '.'),
                plural_of_lower(lower_text(kind)),
            ) && !begins_with(lower_text(crds[j]@), lower_text(kind))) ==> crd_for(crds, kind, i)
            == "unknown"@,
    decreases crds.len() - i,
{
    if i < crds.len() {
        law_definition_named_for_a_kind(crds, kind, i + 1, k);
    }
}

/// A phase with an action on the resource says what becomes of it; any other phase
/// mentions what is related to it, and is left out where nothing is.
pub proof fn law_phase_in_words(
    phase: PlanPhase,
    i: nat,
    kind: Seq<char>,
    name: Seq<char>,
    operators: Seq<OperatorInstance>,
    edges: Seq<Edge>,
    k: int,
)
    ensures
        0 <= k < phase.actions@.len() && is_asked(subject(phase.actions@[k])@, kind, name) && (
        forall|j: int|
            0 <= j < k ==> !is_asked(subject(#[trigger] phase.actions@[j])@, kind, name))
            ==> phase_text(phase, i, kind, name, operators, edges) == "  Phase "@ + decimal(i)
            + ": "@ + (kind + "/"@ + name) + " is "@ + fate(phase.actions@[k])
            + "    \x1b[1;33m◀ HERE\x1b[0m\n"@,
        (forall|j: int|
            0 <= j < phase.actions@.len() ==> !is_asked(
                subject(#[trigger] phase.actions@[j])@,
                kind,
                name,
            )) ==> {
            let related = related_mentions(phase.actions@, kind, name, operators, edges);
            let text = phase_text(phase, i, kind, name, operators, edges);
            &&& related.len() == 0 ==> text.len() == 0
            &&& related.len() > 0 ==> text == "  Phase "@ + decimal(i) + ": "@ + phase.name@
                + " — "@ + joined(first_three(related), ", "@) + "\n"@
        },
{
    let actions = phase.actions@;
    lemma_action_about(actions, kind, name, 0);
    if 0 <= k < actions.len() && is_asked(subject(actions[k])@, kind, name) && (forall|j: int|
        0 <= j < k ==> !is_asked(subject(#[trigger] actions[j])@, kind, name)) {
        let a = action_about(actions, kind, name, 0)->0;
        let c = choose|c: int|
            0 <= c < actions.len() && #[trigger] actions[c] == a && is_asked(
                subject(a)@,
                kind,
                name,
            ) && forall|j: int|
                0 <= j < c ==> !is_asked(subject(#[trigger] actions[j])@, kind, name);
        assert(c == k);
    }
}

/// What an explanation says behind its head: which definition the resource is an
/// instance of and which version owns that, that its children go first, that the
/// controller stays until the operands are gone, and each phase in turn. What does not
/// apply is not said.
pub proof fn law_constraints_in_words(
    op: OperatorInstance,
    kind: Seq<char>,
    name: Seq<char>,
    phases: Seq<PlanPhase>,
    operators: Seq<OperatorInstance>,
    edges: Seq<Edge>,
    n: nat,
)
    ensures
        crd_text(Some(op), kind, name) == "\n  "@ + (kind + "/"@ + name)
            + "\n    └─ is an instance of CRD "@ + crd_for(op.owned_crds@, kind, 0)
            + "\n       └─ owned by CSV/"@ + op.csv.name@
            + "                    \x1b[36m[HARD: CsvOwnedCrd]\x1b[0m\n"@,
        crd_text(None, kind, name).len() == 0,
        children_text(true, kind, name) == "\n  "@ + (kind + "/"@ + name)
            + "\n    └─ is a parent of other resources (ownerReference)   \x1b[36m[HARD: OwnerReference]\x1b[0m\n       └─ must be deleted AFTER its children (Phase 1)\n"@,
        children_text(false, kind, name).len() == 0,
        safety_text(Some(op)) == "\n  CSV/"@ + op.csv.name@
            + "\n    └─ is the controller for this resource's CRD\n       └─ must stay alive until all operands are gone (Phase 3)  \x1b[31m[SAFETY]\x1b[0m\n"@,
        safety_text(None).len() == 0,
        phases_text(phases, kind, name, operators, edges, 0).len() == 0,
        phases_text(phases, kind, name, operators, edges, n + 1) == phases_text(
            phases,
            kind,
            name,
            operators,
            edges,
            n,
        ) + phase_text(phases[n as int], n, kind, name, operators, edges),
{
}

/// The references of a resource are listed one to a line, each with its grounds; the
/// last is marked as the last.
pub proof fn law_references_in_words(
    refs: Seq<(Seq<char>, Seq<char>)>,
    kind: Seq<char>,
    name: Seq<char>,
    n: nat,
)
    requires
        n < refs.len(),
    ensures
        references_text(seq![], kind, name).len() == 0,
        references_text(refs, kind, name) == "\n  "@ + (kind + "/"@ + name)
            + "\n    └─ references:\n"@ + reference_lines(refs, refs.len()),
        reference_lines(refs, 0).len() == 0,
        n + 1 < refs.len() ==> reference_lines(refs, n + 1) == reference_lines(refs, n) + (
        "       "@ + "├─"@ + " "@ + refs[n as int].0 + "  \x1b[36m["@ + refs[n as int].1
            + "]\x1b[0m\n"@),
        n + 1 == refs.len() ==> reference_lines(refs, n + 1) == reference_lines(refs, n) + (
        "       "@ + "└─"@ + " "@ + refs[n as int].0 + "  \x1b[36m["@ + refs[n as int].1
            + "]\x1b[0m\n"@),
{
}

/// An explanation of a resource of the plan: its phase, its action, then the ordering
/// constraints of it, of its owners, of its children, of what it refers to and of its
/// controller, then the phases.
pub proof fn law_explanation_in_full(
    plan: TeardownPlan,
    kind: Seq<char>,
    name: Seq<char>,
    place: (nat, Seq<char>, Seq<char>),
    operators: Seq<OperatorInstance>,
    edges: Seq<Edge>,
)
    requires
        !kind.contains('/'),
        place_in_plan(plan.phases@, kind, name, 0) == Some(place),
    ensures
        explanation(plan, kind + seq!['/'] + name, operators, edges) == "\x1b[1m"@ + (kind + "/"@
            + name) + "\x1b[0m is in \x1b[1mPhase "@ + decimal(place.0) + " ("@ + place.1
            + ")\x1b[0m\n  Action: "@ + place.2 + "\n\n\x1b[1mOrdering constraints:\x1b[0m\n"@
            + crd_text(owner_of_kind(operators, kind, 0), kind, name) + owners_text(
            edges,
            kind,
            name,
            edges.len(),
        ) + children_text(has_children(edges, kind, name), kind, name) + references_text(
            references(edges, kind, name),
            kind,
            name,
        ) + safety_text(owner_of_kind(operators, kind, 0)) + "\n\x1b[1mTherefore:\x1b[0m\n"@
            + phases_text(plan.phases@, kind, name, operators, edges, plan.phases@.len()),
{
    let s = kind + seq!['/'] + name;
    law_parted(s, kind, '/', name);
    assert(parted(s, '/') == Some((kind, name)));
}

} // verus!
