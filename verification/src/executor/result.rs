//! What a run came to, and what is found out on the way.

use vstd::prelude::*;
use vstd::string::*;

use crate::journal::PreservedView;
use crate::lists::{ids, noted, Noted};
use crate::olm::OperatorInstance;
use crate::plan::PlannedPreserved;
use crate::planner::{all_actions, flatten, Action, TeardownPlan};
use crate::resource::{label, ResourceId, ResourceIdView};
use crate::text::{
    begins_with, decimal, join, joined, law_begins_and_finishes, push_text, texts, to_decimal,
};

verus! {

/// What a run of a plan came to.
#[derive(Debug)]
pub struct ExecutionResult {
    pub phases_completed: usize,
    pub phases_total: usize,
    pub deleted: Vec<ResourceId>,
    pub already_gone: Vec<ResourceId>,
    pub failed: Vec<Noted>,
    pub barrier_timeout: Option<BarrierTimeout>,
    pub kept: Vec<PlannedPreserved>,
    pub reviewed: Vec<PlannedPreserved>,
}

/// What stopped a run, where a wait or a guard did.
#[derive(Debug)]
pub struct BarrierTimeout {
    pub phase: String,
    pub remaining: Vec<ResourceId>,
    pub finalizers: Vec<(ResourceId, Vec<String>)>,
}

/// The identities and lists of texts in a list.
pub open spec fn id_texts(v: Seq<(ResourceId, Vec<String>)>) -> Seq<
    (ResourceIdView, Seq<Seq<char>>),
> {
    v.map_values(|x: (ResourceId, Vec<String>)| (x.0@, texts(x.1@)))
}

/// The contents of a [`BarrierTimeout`].
#[verifier::ext_equal]
pub struct TimeoutView {
    pub phase: Seq<char>,
    pub remaining: Seq<ResourceIdView>,
    pub finalizers: Seq<(ResourceIdView, Seq<Seq<char>>)>,
}

impl View for BarrierTimeout {
    type V = TimeoutView;

    open spec fn view(&self) -> TimeoutView {
        TimeoutView {
            phase: self.phase@,
            remaining: ids(self.remaining@),
            finalizers: id_texts(self.finalizers@),
        }
    }
}

/// The contents of what a plan leaves in place.
pub open spec fn preserved(v: Seq<PlannedPreserved>) -> Seq<PreservedView> {
    v.map_values(|p: PlannedPreserved| p@)
}

/// The contents of an [`ExecutionResult`].
#[verifier::ext_equal]
pub struct ResultView {
    pub phases_completed: nat,
    pub phases_total: nat,
    pub deleted: Seq<ResourceIdView>,
    pub already_gone: Seq<ResourceIdView>,
    pub failed: Seq<(ResourceIdView, Seq<char>)>,
    pub timeout: Option<TimeoutView>,
    pub kept: Seq<PreservedView>,
    pub reviewed: Seq<PreservedView>,
}

impl View for ExecutionResult {
    type V = ResultView;

    open spec fn view(&self) -> ResultView {
        ResultView {
            phases_completed: self.phases_completed as nat,
            phases_total: self.phases_total as nat,
            deleted: ids(self.deleted@),
            already_gone: ids(self.already_gone@),
            failed: noted(self.failed@),
            timeout: match self.barrier_timeout {
                Some(t) => Some(t@),
                None => None,
            },
            kept: preserved(self.kept@),
            reviewed: preserved(self.reviewed@),
        }
    }
}

/// What was observed of an object. What is not known is never taken for gone.
#[derive(Debug, Clone, PartialEq, Eq)]
pub enum ObservationState {
    Gone,
    Exists { finalizer_count: usize, has_deletion_timestamp: bool },
    Unknown(String),
}

/// The finalizers of an object, as far as they are known.
#[derive(Debug, Clone)]
pub enum FinalizerCheckResult {
    Known { finalizers: Vec<String>, terminating: bool },
    Gone,
    Unknown(String),
}

/// How many objects of a type there are, as far as it is known.
#[derive(Debug)]
pub enum LiveCount {
    Zero,
    NonZero(usize),
    Unknown(String),
}

/// How many actions of each kind there are.
pub struct ActionCounts {
    pub delete: nat,
    pub expect: nat,
    pub keep: nat,
    pub review: nat,
}

/// How many of `actions` delete, expect, keep and leave for review.
pub open spec fn counts(actions: Seq<Action>) -> ActionCounts
    decreases actions.len(),
{
    if actions.len() == 0 {
        ActionCounts { delete: 0, expect: 0, keep: 0, review: 0 }
    } else {
        let c = counts(actions.drop_last());
        match actions.last() {
            Action::Delete { .. } => ActionCounts { delete: c.delete + 1, ..c },
            Action::ExpectGone { .. } => ActionCounts { expect: c.expect + 1, ..c },
            Action::Keep { .. } => ActionCounts { keep: c.keep + 1, ..c },
            Action::Review { .. } => ActionCounts { review: c.review + 1, ..c },
            Action::WaitGone { .. } => c,
        }
    }
}

/// Whether `(delete, expect, keep, review)` are the numbers `c`.
pub open spec fn is_counts(r: (usize, usize, usize, usize), c: ActionCounts) -> bool {
    r.0 == c.delete && r.1 == c.expect && r.2 == c.keep && r.3 == c.review
}

fn tally(action: &Action, c: (usize, usize, usize, usize), i: usize) -> (r: (
    usize,
    usize,
    usize,
    usize,
))
    requires
        c.0 <= i,
        c.1 <= i,
        c.2 <= i,
        c.3 <= i,
        i < usize::MAX,
    ensures
        r.0 == c.0 + if action is Delete {
            1int
        } else {
            0
        },
        r.1 == c.1 + if action is ExpectGone {
            1int
        } else {
            0
        },
        r.2 == c.2 + if action is Keep {
            1int
        } else {
            0
        },
        r.3 == c.3 + if action is Review {
            1int
        } else {
            0
        },
{
    match action {
        Action::Delete { .. } => (c.0 + 1, c.1, c.2, c.3),
        Action::ExpectGone { .. } => (c.0, c.1 + 1, c.2, c.3),
        Action::Keep { .. } => (c.0, c.1, c.2 + 1, c.3),
        Action::Review { .. } => (c.0, c.1, c.2, c.3 + 1),
        Action::WaitGone { .. } => c,
    }
}

/// How many actions of a plan delete, expect, keep and leave for review.
pub fn count_actions(plan: &TeardownPlan) -> (r: (usize, usize, usize, usize))
    ensures
        is_counts(r, counts(all_actions(plan.phases@))),
{
    let actions = flatten(&plan.phases);
    let ghost all = all_actions(plan.phases@);
    let mut c: (usize, usize, usize, usize) = (0, 0, 0, 0);
    for i in 0..actions.len()
        invariant
            actions@.len() == all.len(),
            forall|k: int| 0 <= k < actions@.len() ==> *(#[trigger] actions@[k]) == all[k],
            c.0 <= i,
            c.1 <= i,
            c.2 <= i,
            c.3 <= i,
            is_counts(c, counts(all.take(i as int))),
    {
        assert(all.take(i + 1).drop_last() =~= all.take(i as int));
        assert(all.take(i + 1).last() == *actions@[i as int]);
        c = tally(actions[i], c, i);
    }
    assert(all.take(all.len() as int) =~= all);
    c
}

/// How many actions of a phase delete, expect, keep and leave for review.
pub fn count_phase_actions(actions: &Vec<Action>) -> (r: (usize, usize, usize, usize))
    ensures
        is_counts(r, counts(actions@)),
{
    let mut c: (usize, usize, usize, usize) = (0, 0, 0, 0);
    for i in 0..actions.len()
        invariant
            c.0 <= i,
            c.1 <= i,
            c.2 <= i,
            c.3 <= i,
            is_counts(c, counts(actions@.take(i as int))),
    {
        assert(actions@.take(i + 1).drop_last() =~= actions@.take(i as int));
        c = tally(&actions[i], c, i);
    }
    assert(actions@.take(actions@.len() as int) =~= actions@);
    c
}

/// Where an object lives, as it is shown behind its name.
pub open spec fn scope_note(id: ResourceIdView) -> Seq<char> {
    match id.namespace {
        Some(ns) => "  \x1b[2m(ns: "@ + ns + ")\x1b[0m"@,
        None => "  \x1b[2m(cluster-scoped)\x1b[0m"@,
    }
}

/// Where an object lives, as it is shown behind its name.
pub fn scope_suffix(resource: &ResourceId) -> (r: String)
    ensures
        r@ == scope_note(resource@),
{
    match &resource.namespace {
        Some(ns) => "  \x1b[2m(ns: ".to_owned().concat(ns.as_str()).concat(")\x1b[0m"),
        None => "  \x1b[2m(cluster-scoped)\x1b[0m".to_owned(),
    }
}

/// The words on how many actions of each kind a phase has; none where it has none.
pub open spec fn count_words(c: ActionCounts) -> Seq<Seq<char>> {
    (if c.delete > 0 {
        seq![decimal(c.delete) + " DELETE"@]
    } else {
        seq![]
    }) + (if c.expect > 0 {
        seq![decimal(c.expect) + " EXPECT"@]
    } else {
        seq![]
    }) + (if c.keep > 0 {
        seq![decimal(c.keep) + " KEEP"@]
    } else {
        seq![]
    }) + (if c.review > 0 {
        seq![decimal(c.review) + " REVIEW"@]
    } else {
        seq![]
    })
}

fn push_count(parts: &mut Vec<String>, n: usize, word: &str)
    ensures
        texts(final(parts)@) == texts(old(parts)@) + if n > 0 {
            seq![decimal(n as nat) + word@]
        } else {
            seq![]
        },
{
    let ghost before = texts(parts@);
    if n > 0 {
        parts.push(to_decimal(n).concat(word));
        assert(texts(parts@) =~= before + seq![decimal(n as nat) + word@]);
    } else {
        assert(before + seq![] =~= before);
    }
}

/// The lines that sum up the first `n` phases before a run.
pub open spec fn phase_lines(plan: TeardownPlan, n: nat) -> Seq<Seq<char>>
    decreases n,
{
    if n == 0 {
        seq![]
    } else {
        let i = (n - 1) as nat;
        let words = count_words(counts(plan.phases@[i as int].actions@));
        if words.len() > 0 {
            phase_lines(plan, i).push("  Phase "@ + decimal(i) + ": "@ + joined(words, ", "@))
        } else {
            phase_lines(plan, i)
        }
    }
}

/// The names of the targets of a plan.
pub open spec fn target_names(plan: TeardownPlan) -> Seq<Seq<char>> {
    Seq::new(plan.targets@.len(), |i: int| plan.targets@[i].csv.name@)
}

/// The lines that sum up a plan before somebody confirms its run.
pub open spec fn confirmation(plan: TeardownPlan) -> Seq<Seq<char>> {
    let c = counts(all_actions(plan.phases@));
    seq![
        "\n\x1b[1;33m⚠ This will DELETE "@ + decimal(c.delete) + " resources ("@ + decimal(c.expect)
            + " expected to auto-remove) across "@ + decimal(plan.phases@.len())
            + " phases.\x1b[0m\n"@,
        "  Targets: "@ + joined(target_names(plan), ", "@),
        ""@,
    ] + phase_lines(plan, plan.phases@.len())
}

/// The lines that sum up a plan before somebody confirms its run.
pub fn confirmation_lines(plan: &TeardownPlan) -> (r: Vec<String>)
    ensures
        texts(r@) == confirmation(*plan),
{
    let mut out: Vec<String> = Vec::new();
    let c = count_actions(plan);
    out.push(
        "\n\x1b[1;33m⚠ This will DELETE ".to_owned().concat(to_decimal(c.0).as_str()).concat(
            " resources (",
        ).concat(to_decimal(c.1).as_str()).concat(" expected to auto-remove) across ").concat(
            to_decimal(plan.phases.len()).as_str(),
        ).concat(" phases.\x1b[0m\n"),
    );
    let mut names: Vec<String> = Vec::new();
    for i in 0..plan.targets.len()
        invariant
            texts(names@) =~= target_names(*plan).take(i as int),
    {
        push_text(&mut names, plan.targets[i].csv.name.clone());
    }
    assert(texts(names@) =~= target_names(*plan));
    out.push("  Targets: ".to_owned().concat(join(&names, ", ").as_str()));
    out.push("".to_owned());
    let ghost head = texts(out@);
    assert(head =~= confirmation(*plan).take(3));
    assert(head + seq![] =~= head);
    for i in 0..plan.phases.len()
        invariant
            texts(out@) == head + phase_lines(*plan, i as nat),
    {
        let n = count_phase_actions(&plan.phases[i].actions);
        let mut parts: Vec<String> = Vec::new();
        assert(texts(parts@) =~= seq![]);
        push_count(&mut parts, n.0, " DELETE");
        push_count(&mut parts, n.1, " EXPECT");
        push_count(&mut parts, n.2, " KEEP");
        push_count(&mut parts, n.3, " REVIEW");
        let ghost words = count_words(counts(plan.phases@[i as int].actions@));
        assert(texts(parts@) =~= words);
        assert(texts(parts@).len() == parts@.len());
        if parts.len() > 0 {
            let line = "  Phase ".to_owned().concat(to_decimal(i).as_str()).concat(": ").concat(
                join(&parts, ", ").as_str(),
            );
            let ghost l = line@;
            let ghost before = out@;
            out.push(line);
            assert(texts(out@) =~= texts(before).push(l));
            assert((head + phase_lines(*plan, i as nat)).push(l) =~= head + phase_lines(
                *plan,
                i as nat,
            ).push(l));
        }
    }
    assert(texts(out@) =~= confirmation(*plan));
    out
}

/// The words that confirm a run.
pub open spec fn is_yes(answer: Seq<char>) -> bool {
    answer == "y"@ || answer == "yes"@
}

/// Whether a lower-case answer without white space around it confirms a run.
pub fn answer_confirms(answer: &str) -> (r: bool)
    ensures
        r == is_yes(answer@),
{
    crate::text::same(answer, "y") || crate::text::same(answer, "yes")
}

/// Whether an answer confirms a run, in any case and with white space around it.
pub fn confirms(input: &str) -> (r: bool)
    ensures
        r == is_yes(crate::text::lower_text(crate::text::trimmed(input@))),
{
    let answer = crate::text::lowercase(crate::text::trim(input).as_str());
    answer_confirms(answer.as_str())
}

/// The texts that `details` has for `id`, one after the other.
pub open spec fn details_of(
    details: Seq<(ResourceIdView, Seq<Seq<char>>)>,
    id: ResourceIdView,
) -> Seq<Seq<char>>
    decreases details.len(),
{
    if details.len() == 0 {
        seq![]
    } else if details.last().0 == id {
        details_of(details.drop_last(), id) + details.last().1
    } else {
        details_of(details.drop_last(), id)
    }
}

/// The texts that `details` has for `id`, one after the other.
pub fn collect_details(details: &Vec<(ResourceId, Vec<String>)>, id: &ResourceId) -> (r: Vec<
    String,
>)
    ensures
        texts(r@) == details_of(id_texts(details@), id@),
{
    let mut out: Vec<String> = Vec::new();
    let ghost all = id_texts(details@);
    assert(all.take(0) =~= seq![]);
    assert(texts(out@) =~= seq![]);
    for i in 0..details.len()
        invariant
            all == id_texts(details@),
            texts(out@) == details_of(all.take(i as int), id@),
    {
        assert(all.take(i + 1).drop_last() =~= all.take(i as int));
        assert(all.take(i + 1).last() == (details@[i as int].0@, texts(details@[i as int].1@)));
        if details[i].0.same(id) {
            let found: &Vec<String> = &details[i].1;
            let ghost before = texts(out@);
            assert(before + texts(found@).take(0) =~= before);
            for j in 0..found.len()
                invariant
                    texts(out@) == before + texts(found@).take(j as int),
            {
                push_text(&mut out, found[j].clone());
                assert(texts(out@) =~= before + texts(found@).take(j + 1));
            }
            assert(texts(found@).take(found@.len() as int) =~= texts(found@));
        }
    }
    assert(all.take(all.len() as int) =~= all);
    out
}

/// One line per failed action.
pub open spec fn failure_lines(failed: Seq<(ResourceIdView, Seq<char>)>) -> Seq<Seq<char>> {
    failed.map_values(|x: (ResourceIdView, Seq<char>)| "  "@ + label(x.0) + ": "@ + x.1)
}

/// One line per object that remains, with its finalizers.
pub open spec fn remaining_lines(t: TimeoutView) -> Seq<Seq<char>> {
    t.remaining.map_values(
        |r: ResourceIdView|
            if details_of(t.finalizers, r).len() == 0 {
                "  "@ + label(r)
            } else {
                "  "@ + label(r) + " (finalizers: ["@ + joined(details_of(t.finalizers, r), ", "@)
                    + "])"@
            },
    )
}

/// The lines that sum up a run.
pub open spec fn summary(r: ResultView) -> Seq<Seq<char>> {
    seq![
        "\n\x1b[1mExecution Summary\x1b[0m: "@ + decimal(r.phases_completed) + "/"@ + decimal(
            r.phases_total,
        ) + " phases completed"@,
        "  "@ + decimal(r.deleted.len()) + " deleted, "@ + decimal(r.already_gone.len())
            + " already gone, "@ + decimal(r.failed.len()) + " failed"@,
    ] + (if r.failed.len() > 0 {
        seq!["\n\x1b[1;31mFailed:\x1b[0m"@] + failure_lines(r.failed)
    } else {
        seq![]
    }) + (if r.kept.len() > 0 || r.reviewed.len() > 0 {
        seq![
            "\n\x1b[1mPlanned preserved\x1b[0m: "@ + decimal(r.kept.len()) + " KEEP, "@ + decimal(
                r.reviewed.len(),
            ) + " REVIEW"@,
        ]
    } else {
        seq![]
    }) + (match r.timeout {
        Some(t) => seq![
            "\n\x1b[1;33mBarrier stalled in phase '"@ + t.phase + "'\x1b[0m — "@ + decimal(
                t.remaining.len(),
            ) + " resources remain:"@,
        ] + remaining_lines(t),
        None => seq![],
    })
}

/// The lines that sum up a run.
pub fn print_execution_result(result: &ExecutionResult) -> (r: Vec<String>)
    ensures
        texts(r@) == summary(result@),
{
    let mut out: Vec<String> = Vec::new();
    assert(texts(out@) =~= seq![]);
    push_text(
        &mut out,
        "\n\x1b[1mExecution Summary\x1b[0m: ".to_owned().concat(
            to_decimal(result.phases_completed).as_str(),
        ).concat("/").concat(to_decimal(result.phases_total).as_str()).concat(" phases completed"),
    );
    push_text(
        &mut out,
        "  ".to_owned().concat(to_decimal(result.deleted.len()).as_str()).concat(
            " deleted, ",
        ).concat(to_decimal(result.already_gone.len()).as_str()).concat(" already gone, ").concat(
            to_decimal(result.failed.len()).as_str(),
        ).concat(" failed"),
    );
    let ghost v = result@;
    assert(v.failed.len() == result.failed@.len());
    assert(v.kept.len() == result.kept@.len());
    assert(v.reviewed.len() == result.reviewed@.len());
    let ghost part1 = texts(out@);
    assert(part1 =~= summary(v).take(2));
    if result.failed.len() > 0 {
        push_text(&mut out, "\n\x1b[1;31mFailed:\x1b[0m".to_owned());
        let ghost head = texts(out@);
        assert(head + failure_lines(v.failed).take(0) =~= head);
        for i in 0..result.failed.len()
            invariant
                v == result@,
                texts(out@) == head + failure_lines(v.failed).take(i as int),
        {
            let item = &result.failed[i];
            let line = "  ".to_owned().concat(item.0.label().as_str()).concat(": ").concat(
                item.1.as_str(),
            );
            assert(line@ == failure_lines(v.failed)[i as int]);
            push_text(&mut out, line);
            assert(texts(out@) =~= head + failure_lines(v.failed).take(i + 1));
        }
        assert(failure_lines(v.failed).take(result.failed@.len() as int) =~= failure_lines(
            v.failed,
        ));
    }
    let ghost part2 = texts(out@);
    if result.kept.len() > 0 || result.reviewed.len() > 0 {
        push_text(
            &mut out,
            "\n\x1b[1mPlanned preserved\x1b[0m: ".to_owned().concat(
                to_decimal(result.kept.len()).as_str(),
            ).concat(" KEEP, ").concat(to_decimal(result.reviewed.len()).as_str()).concat(
                " REVIEW",
            ),
        );
    }
    let ghost part3 = texts(out@);
    match &result.barrier_timeout {
        Some(timeout) => {
            let ghost t = timeout@;
            push_text(
                &mut out,
                "\n\x1b[1;33mBarrier stalled in phase '".to_owned().concat(
                    timeout.phase.as_str(),
                ).concat("'\x1b[0m — ").concat(
                    to_decimal(timeout.remaining.len()).as_str(),
                ).concat(" resources remain:"),
            );
            let ghost head = texts(out@);
            assert(head + remaining_lines(t).take(0) =~= head);
            for i in 0..timeout.remaining.len()
                invariant
                    t == timeout@,
                    texts(out@) == head + remaining_lines(t).take(i as int),
            {
                let res = &timeout.remaining[i];
                let fins = collect_details(&timeout.finalizers, res);
                assert(texts(fins@).len() == fins@.len());
                let line = if fins.len() == 0 {
                    "  ".to_owned().concat(res.label().as_str())
                } else {
                    "  ".to_owned().concat(res.label().as_str()).concat(
                        " (finalizers: [",
                    ).concat(join(&fins, ", ").as_str()).concat("])")
                };
                assert(line@ == remaining_lines(t)[i as int]);
                push_text(&mut out, line);
                assert(texts(out@) =~= head + remaining_lines(t).take(i + 1));
            }
            assert(remaining_lines(t).take(timeout.remaining@.len() as int) =~= remaining_lines(t));
        },
        None => {},
    }
    assert(texts(out@) =~= summary(v));
    out
}

/// One more action is counted under what it does: as a DELETE, as an expected departure,
/// as kept or as left for review. A wait is not counted.
pub proof fn law_actions_are_counted(actions: Seq<Action>, a: Action)
    ensures
        ({
            let c = counts(actions);
            let d = counts(actions.push(a));
            &&& d.delete == c.delete + if a is Delete {
                1int
            } else {
                0int
            }
            &&& d.expect == c.expect + if a is ExpectGone {
                1int
            } else {
                0int
            }
            &&& d.keep == c.keep + if a is Keep {
                1int
            } else {
                0int
            }
            &&& d.review == c.review + if a is Review {
                1int
            } else {
                0int
            }
        }),
        counts(seq![]).delete == 0,
        counts(seq![]).expect == 0,
        counts(seq![]).keep == 0,
        counts(seq![]).review == 0,
{
    assert(actions.push(a).drop_last() =~= actions);
}

/// A run is confirmed by `y` and by `yes`, and by nothing else.
pub proof fn law_what_confirms(answer: Seq<char>)
    ensures
        is_yes("y"@),
        is_yes("yes"@),
        is_yes(answer) ==> answer == "y"@ || answer == "yes"@,
{
}

/// A phase is summed up by how many DELETEs, expected departures, kept and reviewed
/// objects it has, each sort that there is and no other; a phase with none has no line.
pub proof fn law_phases_are_summed_up(plan: TeardownPlan, n: nat, c: ActionCounts)
    requires
        n < plan.phases@.len(),
    ensures
        c.delete > 0 ==> count_words(c).contains(decimal(c.delete) + " DELETE"@),
        count_words(c).len() == (if c.delete > 0 {
            1int
        } else {
            0int
        }) + (if c.expect > 0 {
            1int
        } else {
            0int
        }) + (if c.keep > 0 {
            1int
        } else {
            0int
        }) + (if c.review > 0 {
            1int
        } else {
            0int
        }),
        c.expect > 0 ==> count_words(c).contains(decimal(c.expect) + " EXPECT"@),
        c.keep > 0 ==> count_words(c).contains(decimal(c.keep) + " KEEP"@),
        c.review > 0 ==> count_words(c).contains(decimal(c.review) + " REVIEW"@),
        ({
            let here = counts(plan.phases@[n as int].actions@);
            let none = here.delete == 0 && here.expect == 0 && here.keep == 0 && here.review == 0;
            &&& none ==> phase_lines(plan, n + 1) == phase_lines(plan, n)
            &&& !none ==> phase_lines(plan, n + 1) == phase_lines(plan, n).push(
                "  Phase "@ + decimal(n) + ": "@ + joined(count_words(here), ", "@),
            )
        }),
{
    let w = count_words(c);
    let a: int = if c.delete > 0 {
        1
    } else {
        0
    };
    let b: int = a + if c.expect > 0 {
        1int
    } else {
        0int
    };
    let d: int = b + if c.keep > 0 {
        1int
    } else {
        0int
    };
    if c.delete > 0 {
        assert(w[0] == decimal(c.delete) + " DELETE"@);
    }
    if c.expect > 0 {
        assert(w[a] == decimal(c.expect) + " EXPECT"@);
    }
    if c.keep > 0 {
        assert(w[b] == decimal(c.keep) + " KEEP"@);
    }
    if c.review > 0 {
        assert(w[d] == decimal(c.review) + " REVIEW"@);
    }
}

/// The summary of a run has a line for each failed action, with kind, name and reason;
/// and, where a wait stopped the run, a line for each object that remains.
pub proof fn law_summary_names_what_failed(r: ResultView, i: int)
    ensures
        0 <= i < r.failed.len() ==> summary(r).contains(
            "  "@ + r.failed[i].0.kind + "/"@ + r.failed[i].0.name + ": "@ + r.failed[i].1,
        ),
        r.timeout matches Some(t) ==> (0 <= i < t.remaining.len() ==> exists|k: int|
            0 <= k < summary(r).len() && begins_with(
                #[trigger] summary(r)[k],
                "  "@ + t.remaining[i].kind + "/"@ + t.remaining[i].name,
            )),
{
    let head = seq![
        "\n\x1b[1mExecution Summary\x1b[0m: "@ + decimal(r.phases_completed) + "/"@ + decimal(
            r.phases_total,
        ) + " phases completed"@,
        "  "@ + decimal(r.deleted.len()) + " deleted, "@ + decimal(r.already_gone.len())
            + " already gone, "@ + decimal(r.failed.len()) + " failed"@,
    ];
    let failed = if r.failed.len() > 0 {
        seq!["\n\x1b[1;31mFailed:\x1b[0m"@] + failure_lines(r.failed)
    } else {
        seq![]
    };
    let preserved = if r.kept.len() > 0 || r.reviewed.len() > 0 {
        seq![
            "\n\x1b[1mPlanned preserved\x1b[0m: "@ + decimal(r.kept.len()) + " KEEP, "@ + decimal(
                r.reviewed.len(),
            ) + " REVIEW"@,
        ]
    } else {
        seq![]
    };
    let tail = match r.timeout {
        Some(t) => seq![
            "\n\x1b[1;33mBarrier stalled in phase '"@ + t.phase + "'\x1b[0m — "@ + decimal(
                t.remaining.len(),
            ) + " resources remain:"@,
        ] + remaining_lines(t),
        None => seq![],
    };
    let all = summary(r);
    assert(all == head + failed + preserved + tail);
    if 0 <= i < r.failed.len() {
        let x = "  "@ + r.failed[i].0.kind + "/"@ + r.failed[i].0.name + ": "@ + r.failed[i].1;
        assert(failure_lines(r.failed)[i] =~= x);
        assert(failed[i + 1] == x);
        assert(all[head.len() + i + 1] == x);
    }
    if let Some(t) = r.timeout {
        if 0 <= i < t.remaining.len() {
            let x = remaining_lines(t)[i];
            let l = "  "@ + t.remaining[i].kind + "/"@ + t.remaining[i].name;
            let at = head.len() + failed.len() + preserved.len() + i + 1;
            assert(tail[i + 1] == x);
            assert(all[at as int] == x);
            assert("  "@ + label(t.remaining[i]) =~= l);
            let e = Seq::<char>::empty();
            assert(l + e =~= l);
            let d = details_of(t.finalizers, t.remaining[i]);
            let more = " (finalizers: ["@ + joined(d, ", "@) + "])"@;
            assert(d.len() > 0 ==> x =~= l + more);
            law_begins_and_finishes(x, l, e);
            law_begins_and_finishes(x, l, more);
        }
    }
}

/// What is asked before a plan runs: how many objects of the whole plan are deleted and
/// how many are expected to go, over how many phases, for which targets; then one line
/// for each phase that does anything.
pub proof fn law_confirmation(plan: TeardownPlan, id: ResourceIdView)
    ensures
        ({
            let c = counts(all_actions(plan.phases@));
            let names = plan.targets@.map_values(|t: OperatorInstance| t.csv.name@);
            let lines = confirmation(plan);
            &&& lines[0] == "\n\x1b[1;33m⚠ This will DELETE "@ + decimal(c.delete)
                + " resources ("@ + decimal(c.expect) + " expected to auto-remove) across "@
                + decimal(plan.phases@.len()) + " phases.\x1b[0m\n"@
            &&& lines[1] == "  Targets: "@ + joined(names, ", "@)
            &&& lines[2] == ""@
            &&& lines.skip(3) == phase_lines(plan, plan.phases@.len())
        }),
        id.namespace is None ==> scope_note(id) == "  \x1b[2m(cluster-scoped)\x1b[0m"@,
        id.namespace is Some ==> scope_note(id) == "  \x1b[2m(ns: "@ + id.namespace->0
            + ")\x1b[0m"@,
{
    let names = plan.targets@.map_values(|t: OperatorInstance| t.csv.name@);
    assert(target_names(plan) =~= names);
    assert(confirmation(plan).skip(3) =~= phase_lines(plan, plan.phases@.len()));
}

} // verus!
