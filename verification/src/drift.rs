//! Drift between a saved execution plan and one made afresh.

use vstd::prelude::*;
use vstd::string::*;

use crate::lists::lemma_contains_add;
use crate::plan::{
    action_word, ExecutionAction, ExecutionPhase, ExecutionPlan, ExecutionResource,
};
use crate::text::{
    compare_text, compare_texts, copy_opt, decimal, lemma_compare_text_chain,
    lemma_compare_text_flip, opt_text, quoted, quoted_opt, quoted_opt_text, quoted_text,
    same_opt, texts, to_decimal, u32_to_decimal,
};

verus! {

/// A resource of a plan together with its phase.
struct PlanEntry {
    phase: u32,
    phase_name: String,
    action: String,
    group: String,
    kind: String,
    namespace: Option<String>,
    name: String,
    uid: Option<String>,
}

/// The contents of a resource of a plan together with its phase.
#[verifier::ext_equal]
pub struct EntryView {
    pub phase: int,
    pub phase_name: Seq<char>,
    pub action: Seq<char>,
    pub group: Seq<char>,
    pub kind: Seq<char>,
    pub namespace: Option<Seq<char>>,
    pub name: Seq<char>,
    pub uid: Option<Seq<char>>,
}

impl View for PlanEntry {
    type V = EntryView;

    closed spec fn view(&self) -> EntryView {
        EntryView {
            phase: self.phase as int,
            phase_name: self.phase_name@,
            action: self.action@,
            group: self.group@,
            kind: self.kind@,
            namespace: opt_text(self.namespace),
            name: self.name@,
            uid: opt_text(self.uid),
        }
    }
}

/// The entry for a resource of a phase.
pub open spec fn entry_of(p: ExecutionPhase, r: ExecutionResource) -> EntryView {
    EntryView {
        phase: p.phase as int,
        phase_name: p.name@,
        action: action_word(r.action),
        group: r.group@,
        kind: r.kind@,
        namespace: opt_text(r.namespace),
        name: r.name@,
        uid: opt_text(r.uid),
    }
}

/// The entries of a phase.
pub open spec fn phase_entries(p: ExecutionPhase) -> Seq<EntryView> {
    Seq::new(p.resources@.len(), |j: int| entry_of(p, p.resources@[j]))
}

/// The entries of all phases, in the order of the plan.
pub open spec fn plan_entries(phases: Seq<ExecutionPhase>) -> Seq<EntryView>
    decreases phases.len(),
{
    if phases.len() == 0 {
        seq![]
    } else {
        plan_entries(phases.drop_last()) + phase_entries(phases.last())
    }
}

/// Order of two optional texts; none comes first.
pub open spec fn compare_opt(a: Option<Seq<char>>, b: Option<Seq<char>>) -> int {
    match (a, b) {
        (None, None) => 0,
        (None, Some(_)) => -1,
        (Some(_), None) => 1,
        (Some(x), Some(y)) => compare_text(x, y),
    }
}

/// Order of two numbers.
pub open spec fn compare_int(a: int, b: int) -> int {
    if a < b {
        -1
    } else if a > b {
        1
    } else {
        0
    }
}

/// Order of two entries: by phase, phase name, action, group, kind, namespace,
/// name and UID.
pub open spec fn compare_entry(a: EntryView, b: EntryView) -> int {
    if a.phase != b.phase {
        compare_int(a.phase, b.phase)
    } else if compare_text(a.phase_name, b.phase_name) != 0 {
        compare_text(a.phase_name, b.phase_name)
    } else if compare_text(a.action, b.action) != 0 {
        compare_text(a.action, b.action)
    } else if compare_text(a.group, b.group) != 0 {
        compare_text(a.group, b.group)
    } else if compare_text(a.kind, b.kind) != 0 {
        compare_text(a.kind, b.kind)
    } else if compare_opt(a.namespace, b.namespace) != 0 {
        compare_opt(a.namespace, b.namespace)
    } else if compare_text(a.name, b.name) != 0 {
        compare_text(a.name, b.name)
    } else {
        compare_opt(a.uid, b.uid)
    }
}

/// `s` with `e` put behind everything that does not come after it.
pub open spec fn placed(s: Seq<EntryView>, e: EntryView) -> Seq<EntryView>
    decreases s.len(),
{
    if s.len() == 0 || compare_entry(s.last(), e) <= 0 {
        s.push(e)
    } else {
        placed(s.drop_last(), e).push(s.last())
    }
}

/// The entries `s` in ascending order.
pub open spec fn ordered(s: Seq<EntryView>) -> Seq<EntryView>
    decreases s.len(),
{
    if s.len() == 0 {
        seq![]
    } else {
        placed(ordered(s.drop_last()), s.last())
    }
}

/// The entries of a plan in ascending order.
pub open spec fn ordered_entries(plan: ExecutionPlan) -> Seq<EntryView> {
    ordered(plan_entries(plan.phases@))
}

/// The message where the plans have different numbers of phases.
pub open spec fn phase_count_drift(saved: int, fresh: int) -> Seq<Seq<char>> {
    if saved != fresh {
        seq![
            "Phase count drift: saved "@ + decimal(saved as nat) + " phases, fresh "@ + decimal(
                fresh as nat,
            ) + " phases"@,
        ]
    } else {
        seq![]
    }
}

/// The messages for the first `n` phases whose number or name differs.
pub open spec fn metadata_drift(
    saved: Seq<ExecutionPhase>,
    fresh: Seq<ExecutionPhase>,
    n: nat,
) -> Seq<Seq<char>>
    decreases n,
{
    if n == 0 {
        seq![]
    } else {
        let i = n - 1;
        let before = metadata_drift(saved, fresh, i as nat);
        let s = saved[i];
        let f = fresh[i];
        if s.phase != f.phase || s.name@ != f.name@ {
            before.push(
                "Phase metadata drift at index "@ + decimal(i as nat) + ": saved ("@ + decimal(
                    s.phase as nat,
                ) + ", "@ + quoted_text(s.name@) + ") vs fresh ("@ + decimal(f.phase as nat)
                    + ", "@ + quoted_text(f.name@) + ")"@,
            )
        } else {
            before
        }
    }
}

/// The message where the plans have different numbers of resources.
pub open spec fn resource_count_drift(saved: int, fresh: int) -> Seq<Seq<char>> {
    if saved != fresh {
        seq![
            "Resource count drift: saved "@ + decimal(saved as nat) + ", fresh "@ + decimal(
                fresh as nat,
            ),
        ]
    } else {
        seq![]
    }
}

/// How an entry is described in messages.
pub open spec fn describe(e: EntryView) -> Seq<char> {
    "phase "@ + decimal(e.phase as nat) + "/"@ + e.phase_name + " "@ + e.action + " "@ + e.kind
        + "/"@ + e.name + " uid="@ + quoted_opt_text(e.uid)
}

/// How often `e` occurs in `s`.
pub open spec fn times(s: Seq<EntryView>, e: EntryView) -> nat {
    s.to_multiset().count(e)
}

/// `s[i]` occurs at no earlier position.
pub open spec fn first_time(s: Seq<EntryView>, i: int) -> bool {
    !s.take(i).contains(s[i])
}

/// One message, led by `head`, for each entry that occurs more often in `a`
/// than in `b`, among the first `n` of `a`.
pub open spec fn surplus(
    a: Seq<EntryView>,
    b: Seq<EntryView>,
    head: Seq<char>,
    n: nat,
) -> Seq<Seq<char>>
    decreases n,
{
    if n == 0 {
        seq![]
    } else {
        let i = n - 1;
        let before = surplus(a, b, head, i as nat);
        if first_time(a, i) && times(b, a[i]) < times(a, a[i]) {
            before.push(
                head + describe(a[i]) + " (×"@ + decimal(
                    (times(a, a[i]) - times(b, a[i])) as nat,
                ) + ")"@,
            )
        } else {
            before
        }
    }
}

/// Two entries are of one resource in one phase, whatever their UIDs.
pub open spec fn same_place(a: EntryView, b: EntryView) -> bool {
    &&& a.phase == b.phase
    &&& a.action == b.action
    &&& a.group == b.group
    &&& a.kind == b.kind
    &&& a.namespace == b.namespace
    &&& a.name == b.name
}

/// The UID of the last of the first `n` entries of `s` that is in the place of `e`.
pub open spec fn last_uid(s: Seq<EntryView>, e: EntryView, n: nat) -> Option<Option<Seq<char>>>
    decreases n,
{
    if n == 0 {
        None
    } else if same_place(s[n - 1], e) {
        Some(s[n - 1].uid)
    } else {
        last_uid(s, e, (n - 1) as nat)
    }
}

/// The messages for those of the first `n` entries of `fresh` whose UID is not
/// the saved one.
pub open spec fn uid_changes(
    saved: Seq<EntryView>,
    fresh: Seq<EntryView>,
    n: nat,
) -> Seq<Seq<char>>
    decreases n,
{
    if n == 0 {
        seq![]
    } else {
        let e = fresh[n - 1];
        let before = uid_changes(saved, fresh, (n - 1) as nat);
        match last_uid(saved, e, saved.len()) {
            Some(uid) => if uid != e.uid {
                before.push(
                    "UID changed for "@ + e.kind + "/"@ + e.name + " in "@ + quoted_opt_text(
                        e.namespace,
                    ) + ": saved "@ + quoted_opt_text(uid) + " → fresh "@ + quoted_opt_text(e.uid),
                )
            } else {
                before
            },
            None => before,
        }
    }
}

/// The shorter of two lengths.
pub open spec fn shorter(a: nat, b: nat) -> nat {
    if a < b {
        a
    } else {
        b
    }
}

/// Every message on how `fresh` has drifted from `saved`.
pub open spec fn drift(saved: ExecutionPlan, fresh: ExecutionPlan) -> Seq<Seq<char>> {
    let s = ordered_entries(saved);
    let f = ordered_entries(fresh);
    phase_count_drift(saved.phases@.len() as int, fresh.phases@.len() as int) + metadata_drift(
        saved.phases@,
        fresh.phases@,
        shorter(saved.phases@.len(), fresh.phases@.len()),
    ) + resource_count_drift(s.len() as int, f.len() as int) + surplus(
        s,
        f,
        "Resource missing from cluster: "@,
        s.len(),
    ) + surplus(f, s, "Resource added since plan: "@, f.len()) + uid_changes(s, f, f.len())
}

/// The contents of a list of entries.
spec fn views(v: Seq<PlanEntry>) -> Seq<EntryView> {
    v.map_values(|e: PlanEntry| e@)
}

/// Order of two optional texts; none comes first.
fn compare_opts(a: &Option<String>, b: &Option<String>) -> (r: i8)
    ensures
        r == compare_opt(opt_text(*a), opt_text(*b)),
{
    match (a, b) {
        (None, None) => 0,
        (None, Some(_)) => -1,
        (Some(_), None) => 1,
        (Some(x), Some(y)) => compare_texts(x.as_str(), y.as_str()),
    }
}

impl PlanEntry {
    /// The order of the entry against another.
    fn compare(&self, other: &PlanEntry) -> (r: i8)
        ensures
            r == compare_entry(self@, other@),
    {
        if self.phase < other.phase {
            return -1;
        }
        if self.phase > other.phase {
            return 1;
        }
        let by_phase_name = compare_texts(self.phase_name.as_str(), other.phase_name.as_str());
        if by_phase_name != 0 {
            return by_phase_name;
        }
        let by_action = compare_texts(self.action.as_str(), other.action.as_str());
        if by_action != 0 {
            return by_action;
        }
        let by_group = compare_texts(self.group.as_str(), other.group.as_str());
        if by_group != 0 {
            return by_group;
        }
        let by_kind = compare_texts(self.kind.as_str(), other.kind.as_str());
        if by_kind != 0 {
            return by_kind;
        }
        let by_namespace = compare_opts(&self.namespace, &other.namespace);
        if by_namespace != 0 {
            return by_namespace;
        }
        let by_name = compare_texts(self.name.as_str(), other.name.as_str());
        if by_name != 0 {
            return by_name;
        }
        compare_opts(&self.uid, &other.uid)
    }

    /// Whether two entries are of one resource in one phase, whatever their UIDs.
    fn in_place_of(&self, other: &PlanEntry) -> (r: bool)
        ensures
            r == same_place(self@, other@),
    {
        self.phase == other.phase && self.action == other.action && self.group == other.group
            && self.kind == other.kind && same_opt(&self.namespace, &other.namespace)
            && self.name == other.name
    }

    /// Whether two entries agree in everything.
    fn same(&self, other: &PlanEntry) -> (r: bool)
        ensures
            r == (self@ == other@),
    {
        self.in_place_of(other) && self.phase_name == other.phase_name && same_opt(
            &self.uid,
            &other.uid,
        )
    }

    /// How the entry is described in messages.
    fn description(&self) -> (r: String)
        ensures
            r@ == describe(self@),
    {
        "phase ".to_owned().concat(u32_to_decimal(self.phase).as_str()).concat("/").concat(
            self.phase_name.as_str(),
        ).concat(" ").concat(self.action.as_str()).concat(" ").concat(self.kind.as_str()).concat(
            "/",
        ).concat(self.name.as_str()).concat(" uid=").concat(quoted_opt(&self.uid).as_str())
    }
}

/// [`placed`] splits at the first position behind everything that does not come
/// after the entry, looking from the end.
proof fn lemma_placed(s: Seq<EntryView>, e: EntryView, at: int)
    requires
        0 <= at <= s.len(),
        at > 0 ==> compare_entry(s[at - 1], e) <= 0,
        forall|k: int| at <= k < s.len() ==> compare_entry(#[trigger] s[k], e) > 0,
    ensures
        placed(s, e) == s.insert(at, e),
    decreases s.len() - at,
{
    if at == s.len() {
        assert(s.push(e) =~= s.insert(at, e));
    } else {
        assert(compare_entry(s[s.len() - 1], e) > 0);
        let front = s.drop_last();
        assert forall|k: int| at <= k < front.len() implies compare_entry(
            #[trigger] front[k],
            e,
        ) > 0 by {
            assert(s[k] == front[k]);
        }
        lemma_placed(front, e, at);
        assert(front.insert(at, e).push(s.last()) =~= s.insert(at, e));
    }
}

/// Puts `e` in its place among the ordered entries.
fn place(entries: &mut Vec<PlanEntry>, e: PlanEntry)
    ensures
        views(final(entries)@) == placed(views(old(entries)@), e@),
{
    let ghost before = views(entries@);
    let mut at: usize = entries.len();
    while at > 0 && entries[at - 1].compare(&e) > 0
        invariant
            at <= entries@.len(),
            before == views(entries@),
            forall|k: int|
                at <= k < before.len() ==> compare_entry(#[trigger] before[k], e@) > 0,
        ensures
            at > 0 ==> compare_entry(before[at - 1], e@) <= 0,
        decreases at,
    {
        at = at - 1;
    }
    proof {
        lemma_placed(before, e@, at as int);
    }
    let ghost ev = e@;
    entries.insert(at, e);
    assert(views(entries@) =~= before.insert(at as int, ev));
}

/// The entries of a plan in ascending order.
fn collect_ordered(plan: &ExecutionPlan) -> (r: Vec<PlanEntry>)
    ensures
        views(r@) == ordered_entries(*plan),
{
    let mut out: Vec<PlanEntry> = Vec::new();
    assert(views(out@) =~= seq![]);
    for i in 0..plan.phases.len()
        invariant
            views(out@) == ordered(plan_entries(plan.phases@.take(i as int))),
    {
        let phase = &plan.phases[i];
        let ghost upto = plan_entries(plan.phases@.take(i as int));
        let ghost here = phase_entries(*phase);
        assert(upto + here.take(0) =~= upto);
        for j in 0..phase.resources.len()
            invariant
                here == phase_entries(*phase),
                views(out@) == ordered(upto + here.take(j as int)),
        {
            let res = &phase.resources[j];
            let entry = PlanEntry {
                phase: phase.phase,
                phase_name: phase.name.clone(),
                action: res.action.word().to_owned(),
                group: res.group.clone(),
                kind: res.kind.clone(),
                namespace: copy_opt(&res.namespace),
                name: res.name.clone(),
                uid: copy_opt(&res.uid),
            };
            assert(entry@ == here[j as int]);
            proof {
                let longer = upto + here.take(j + 1);
                assert(longer.drop_last() =~= upto + here.take(j as int));
                assert(longer.last() == entry@);
            }
            place(&mut out, entry);
        }
        proof {
            assert(here.take(here.len() as int) =~= here);
            assert(plan.phases@.take(i + 1).drop_last() =~= plan.phases@.take(i as int));
            assert(plan.phases@.take(i + 1).last() == plan.phases@[i as int]);
        }
    }
    assert(plan.phases@.take(plan.phases@.len() as int) =~= plan.phases@);
    out
}

/// How often `e` occurs among the first `n` of `entries`.
fn count_among(entries: &Vec<PlanEntry>, e: &PlanEntry, n: usize) -> (r: usize)
    requires
        n <= entries@.len(),
    ensures
        r == times(views(entries@).take(n as int), e@),
{
    let mut count: usize = 0;
    proof {
        broadcast use vstd::multiset::group_multiset_axioms;

        assert(views(entries@).take(0) =~= Seq::<EntryView>::empty());
        views(entries@).take(0).to_multiset_ensures();
    }
    for i in 0..n
        invariant
            n <= entries@.len(),
            count <= i,
            count == times(views(entries@).take(i as int), e@),
    {
        proof {
            broadcast use vstd::multiset::group_multiset_axioms;

            let shorter = views(entries@).take(i as int);
            shorter.to_multiset_ensures();
            assert(views(entries@).take(i + 1) =~= shorter.push(entries@[i as int]@));
        }
        if entries[i].same(e) {
            count = count + 1;
        }
    }
    count
}

/// Adds one message for each entry that occurs more often in `a` than in `b`.
fn push_surplus(errors: &mut Vec<String>, a: &Vec<PlanEntry>, b: &Vec<PlanEntry>, head: &str)
    ensures
        texts(final(errors)@) == texts(old(errors)@) + surplus(
            views(a@),
            views(b@),
            head@,
            a@.len(),
        ),
{
    let ghost base = texts(errors@);
    let ghost va = views(a@);
    let ghost vb = views(b@);
    assert(base + seq![] =~= base);
    for i in 0..a.len()
        invariant
            va == views(a@),
            vb == views(b@),
            texts(errors@) == base + surplus(va, vb, head@, i as nat),
    {
        let e = &a[i];
        let earlier: usize = count_among(a, e, i);
        let in_a: usize = count_among(a, e, a.len());
        let in_b: usize = count_among(b, e, b.len());
        assert(va.take(a@.len() as int) =~= va);
        assert(vb.take(b@.len() as int) =~= vb);
        assert(va[i as int] == e@);
        assert(first_time(va, i as int) == (earlier == 0)) by {
            va.take(i as int).to_multiset_ensures();
        }
        if earlier == 0 && in_b < in_a {
            let message = head.to_owned().concat(e.description().as_str()).concat(" (×").concat(
                to_decimal(in_a - in_b).as_str(),
            ).concat(")");
            let ghost m = message@;
            let ghost list = errors@;
            errors.push(message);
            assert(texts(errors@) =~= texts(list).push(m));
            assert((base + surplus(va, vb, head@, i as nat)).push(m) =~= base + surplus(
                va,
                vb,
                head@,
                i as nat,
            ).push(m));
        }
    }
}

/// The UID of the last entry in the place of `e`.
fn find_last_uid<'a>(saved: &'a Vec<PlanEntry>, e: &PlanEntry) -> (r: Option<&'a Option<String>>)
    ensures
        match r {
            Some(uid) => last_uid(views(saved@), e@, saved@.len()) == Some(opt_text(*uid)),
            None => last_uid(views(saved@), e@, saved@.len()) is None,
        },
{
    let mut n: usize = saved.len();
    while n > 0
        invariant
            n <= saved@.len(),
            last_uid(views(saved@), e@, saved@.len()) == last_uid(views(saved@), e@, n as nat),
        decreases n,
    {
        assert(views(saved@)[n - 1] == saved@[n - 1]@);
        if saved[n - 1].in_place_of(e) {
            return Some(&saved[n - 1].uid);
        }
        n = n - 1;
    }
    None
}

/// Adds a message for each entry of `fresh` whose UID is not the saved one.
fn push_uid_changes(errors: &mut Vec<String>, saved: &Vec<PlanEntry>, fresh: &Vec<PlanEntry>)
    ensures
        texts(final(errors)@) == texts(old(errors)@) + uid_changes(
            views(saved@),
            views(fresh@),
            fresh@.len(),
        ),
{
    let ghost base = texts(errors@);
    let ghost vs = views(saved@);
    let ghost vf = views(fresh@);
    assert(base + seq![] =~= base);
    for i in 0..fresh.len()
        invariant
            vs == views(saved@),
            vf == views(fresh@),
            texts(errors@) == base + uid_changes(vs, vf, i as nat),
    {
        let e = &fresh[i];
        assert(vf[i as int] == e@);
        match find_last_uid(saved, e) {
            Some(uid) => {
                if !same_opt(uid, &e.uid) {
                    let message = "UID changed for ".to_owned().concat(e.kind.as_str()).concat(
                        "/",
                    ).concat(e.name.as_str()).concat(" in ").concat(
                        quoted_opt(&e.namespace).as_str(),
                    ).concat(": saved ").concat(quoted_opt(uid).as_str()).concat(
                        " → fresh ",
                    ).concat(quoted_opt(&e.uid).as_str());
                    let ghost m = message@;
                    let ghost list = errors@;
                    errors.push(message);
                    assert(texts(errors@) =~= texts(list).push(m));
                    assert((base + uid_changes(vs, vf, i as nat)).push(m) =~= base + uid_changes(
                        vs,
                        vf,
                        i as nat,
                    ).push(m));
                }
            },
            None => {},
        }
    }
}

/// Adds a message for each phase whose number or name differs.
fn push_metadata_drift(errors: &mut Vec<String>, saved: &ExecutionPlan, fresh: &ExecutionPlan)
    ensures
        texts(final(errors)@) == texts(old(errors)@) + metadata_drift(
            saved.phases@,
            fresh.phases@,
            shorter(saved.phases@.len(), fresh.phases@.len()),
        ),
{
    let ghost base = texts(errors@);
    assert(base + seq![] =~= base);
    let mut i: usize = 0;
    while i < saved.phases.len() && i < fresh.phases.len()
        invariant
            i <= shorter(saved.phases@.len(), fresh.phases@.len()),
            texts(errors@) == base + metadata_drift(saved.phases@, fresh.phases@, i as nat),
        decreases saved.phases@.len() - i,
    {
        let s = &saved.phases[i];
        let f = &fresh.phases[i];
        if s.phase != f.phase || s.name != f.name {
            let message = "Phase metadata drift at index ".to_owned().concat(
                to_decimal(i).as_str(),
            ).concat(": saved (").concat(u32_to_decimal(s.phase).as_str()).concat(", ").concat(
                quoted(s.name.as_str()).as_str(),
            ).concat(") vs fresh (").concat(u32_to_decimal(f.phase).as_str()).concat(", ").concat(
                quoted(f.name.as_str()).as_str(),
            ).concat(")");
            let ghost m = message@;
            let ghost list = errors@;
            errors.push(message);
            assert(texts(errors@) =~= texts(list).push(m));
            assert((base + metadata_drift(saved.phases@, fresh.phases@, i as nat)).push(m) =~= base
                + metadata_drift(saved.phases@, fresh.phases@, i as nat).push(m));
        }
        i = i + 1;
    }
}

/// Holds a saved plan against one made afresh: `Err` lists every way in which
/// phases, resources or UIDs have drifted.
pub fn validate_execution_plan_against_fresh(
    saved: &ExecutionPlan,
    fresh: &ExecutionPlan,
) -> (r: Result<(), Vec<String>>)
    ensures
        match r {
            Ok(_) => drift(*saved, *fresh).len() == 0,
            Err(errors) => texts(errors@) == drift(*saved, *fresh) && errors@.len() > 0,
        },
{
    let mut errors: Vec<String> = Vec::new();
    assert(texts(errors@) =~= seq![]);
    if saved.phases.len() != fresh.phases.len() {
        let message = "Phase count drift: saved ".to_owned().concat(
            to_decimal(saved.phases.len()).as_str(),
        ).concat(" phases, fresh ").concat(to_decimal(fresh.phases.len()).as_str()).concat(
            " phases",
        );
        errors.push(message);
    }
    assert(texts(errors@) =~= phase_count_drift(
        saved.phases@.len() as int,
        fresh.phases@.len() as int,
    ));
    push_metadata_drift(&mut errors, saved, fresh);
    let saved_entries = collect_ordered(saved);
    let fresh_entries = collect_ordered(fresh);
    let ghost list = texts(errors@);
    if saved_entries.len() != fresh_entries.len() {
        let message = "Resource count drift: saved ".to_owned().concat(
            to_decimal(saved_entries.len()).as_str(),
        ).concat(", fresh ").concat(to_decimal(fresh_entries.len()).as_str());
        errors.push(message);
    }
    assert(texts(errors@) =~= list + resource_count_drift(
        views(saved_entries@).len() as int,
        views(fresh_entries@).len() as int,
    ));
    push_surplus(&mut errors, &saved_entries, &fresh_entries, "Resource missing from cluster: ");
    push_surplus(&mut errors, &fresh_entries, &saved_entries, "Resource added since plan: ");
    push_uid_changes(&mut errors, &saved_entries, &fresh_entries);
    assert(texts(errors@).len() == errors@.len());
    if errors.len() == 0 {
        Ok(())
    } else {
        Err(errors)
    }
}

/// The two plans have the same phases: the same numbers and names in the same order.
pub open spec fn same_phases(saved: ExecutionPlan, fresh: ExecutionPlan) -> bool {
    &&& saved.phases@.len() == fresh.phases@.len()
    &&& forall|i: int|
        0 <= i < saved.phases@.len() ==> (#[trigger] saved.phases@[i]).phase
            == fresh.phases@[i].phase && saved.phases@[i].name@ == fresh.phases@[i].name@
}

/// The two plans hold the same entries, each as often as the other.
pub open spec fn same_resources(saved: ExecutionPlan, fresh: ExecutionPlan) -> bool {
    plan_entries(saved.phases@).to_multiset() == plan_entries(fresh.phases@).to_multiset()
}

/// No resource stands twice in one phase, under one action, with different UIDs.
pub open spec fn unambiguous(entries: Seq<EntryView>) -> bool {
    forall|a: EntryView, b: EntryView|
        #![trigger entries.contains(a), entries.contains(b)]
        entries.contains(a) && entries.contains(b) && same_place(a, b) ==> a.uid == b.uid
}

proof fn lemma_placed_multiset(s: Seq<EntryView>, e: EntryView)
    ensures
        placed(s, e).to_multiset() == s.to_multiset().insert(e),
    decreases s.len(),
{
    broadcast use vstd::multiset::group_multiset_axioms;

    s.to_multiset_ensures();
    if s.len() == 0 || compare_entry(s.last(), e) <= 0 {
    } else {
        let front = s.drop_last();
        lemma_placed_multiset(front, e);
        placed(front, e).to_multiset_ensures();
        front.to_multiset_ensures();
        assert(front.push(s.last()) =~= s);
        assert(placed(s, e).to_multiset() =~= s.to_multiset().insert(e));
    }
}

/// Putting entries in order neither adds nor drops one.
pub proof fn lemma_ordered_multiset(s: Seq<EntryView>)
    ensures
        ordered(s).to_multiset() == s.to_multiset(),
    decreases s.len(),
{
    if s.len() > 0 {
        let front = s.drop_last();
        lemma_ordered_multiset(front);
        lemma_placed_multiset(ordered(front), s.last());
        front.to_multiset_ensures();
        assert(front.push(s.last()) =~= s);
    } else {
        assert(s =~= ordered(s));
    }
}

proof fn lemma_compare_opt_chain(
    a: Option<Seq<char>>,
    b: Option<Seq<char>>,
    c: Option<Seq<char>>,
)
    requires
        compare_opt(a, b) <= 0,
        compare_opt(b, c) <= 0,
    ensures
        compare_opt(a, c) <= 0,
        compare_opt(a, c) == 0 ==> compare_opt(a, b) == 0 && compare_opt(b, c) == 0,
{
    match (a, b, c) {
        (Some(x), Some(y), Some(z)) => {
            lemma_compare_text_chain(x, y, z);
        },
        _ => {},
    }
}

proof fn lemma_compare_opt_flip(a: Option<Seq<char>>, b: Option<Seq<char>>)
    ensures
        compare_opt(a, b) == -compare_opt(b, a),
{
    match (a, b) {
        (Some(x), Some(y)) => {
            lemma_compare_text_flip(x, y);
        },
        _ => {},
    }
}

proof fn lemma_compare_entry_flip(a: EntryView, b: EntryView)
    ensures
        compare_entry(a, b) == -compare_entry(b, a),
{
    lemma_compare_text_flip(a.phase_name, b.phase_name);
    lemma_compare_text_flip(a.action, b.action);
    lemma_compare_text_flip(a.group, b.group);
    lemma_compare_text_flip(a.kind, b.kind);
    lemma_compare_opt_flip(a.namespace, b.namespace);
    lemma_compare_text_flip(a.name, b.name);
    lemma_compare_opt_flip(a.uid, b.uid);
}

proof fn lemma_compare_entry_chain(a: EntryView, b: EntryView, c: EntryView)
    requires
        compare_entry(a, b) <= 0,
        compare_entry(b, c) <= 0,
    ensures
        compare_entry(a, c) <= 0,
{
    if a.phase == b.phase && b.phase == c.phase {
        lemma_compare_text_chain(a.phase_name, b.phase_name, c.phase_name);
        if compare_text(a.phase_name, c.phase_name) == 0 {
            lemma_compare_text_chain(a.action, b.action, c.action);
            if compare_text(a.action, c.action) == 0 {
                lemma_compare_text_chain(a.group, b.group, c.group);
                if compare_text(a.group, c.group) == 0 {
                    lemma_compare_text_chain(a.kind, b.kind, c.kind);
                    if compare_text(a.kind, c.kind) == 0 {
                        lemma_compare_opt_chain(a.namespace, b.namespace, c.namespace);
                        if compare_opt(a.namespace, c.namespace) == 0 {
                            lemma_compare_text_chain(a.name, b.name, c.name);
                            if compare_text(a.name, c.name) == 0 {
                                lemma_compare_opt_chain(a.uid, b.uid, c.uid);
                            }
                        }
                    }
                }
            }
        }
    }
}

/// No entry of `s` comes after one that stands behind it.
pub open spec fn ascending(s: Seq<EntryView>) -> bool {
    forall|i: int, j: int|
        #![trigger s[i], s[j]]
        0 <= i < j < s.len() ==> compare_entry(s[i], s[j]) <= 0
}

proof fn lemma_placed_ascending(s: Seq<EntryView>, e: EntryView)
    requires
        ascending(s),
    ensures
        ascending(placed(s, e)),
        forall|x: EntryView| #[trigger]
            placed(s, e).contains(x) ==> x == e || s.contains(x),
    decreases s.len(),
{
    let p = placed(s, e);
    if s.len() == 0 || compare_entry(s.last(), e) <= 0 {
        assert forall|i: int, j: int|
            #![trigger p[i], p[j]]
            0 <= i < j < p.len() implies compare_entry(p[i], p[j]) <= 0 by {
            if j == s.len() && i < s.len() - 1 {
                lemma_compare_entry_chain(s[i], s.last(), e);
            }
        }
        assert forall|x: EntryView| #[trigger] p.contains(x) implies x == e || s.contains(x) by {
            let k = choose|k: int| 0 <= k < p.len() && p[k] == x;
            if k < s.len() {
                assert(s[k] == x);
            }
        }
    } else {
        let front = s.drop_last();
        let q = placed(front, e);
        lemma_placed_ascending(front, e);
        lemma_compare_entry_flip(s.last(), e);
        assert forall|i: int, j: int|
            #![trigger p[i], p[j]]
            0 <= i < j < p.len() implies compare_entry(p[i], p[j]) <= 0 by {
            if j == q.len() {
                assert(q.contains(q[i]));
                if q[i] != e {
                    let k = choose|k: int| 0 <= k < front.len() && front[k] == q[i];
                    assert(s[k] == q[i]);
                    assert(s[s.len() - 1] == s.last());
                }
            } else {
                assert(q[i] == p[i] && q[j] == p[j]);
            }
        }
        assert forall|x: EntryView| #[trigger] p.contains(x) implies x == e || s.contains(x) by {
            let k = choose|k: int| 0 <= k < p.len() && p[k] == x;
            if k < q.len() {
                assert(q[k] == x);
                assert(q.contains(x));
                if x != e {
                    let m = choose|m: int| 0 <= m < front.len() && front[m] == x;
                    assert(s[m] == x);
                }
            } else {
                assert(s[s.len() - 1] == x);
            }
        }
    }
}

/// [`ordered`] puts entries in ascending order.
pub proof fn lemma_ordered_ascending(s: Seq<EntryView>)
    ensures
        ascending(ordered(s)),
    decreases s.len(),
{
    if s.len() > 0 {
        lemma_ordered_ascending(s.drop_last());
        lemma_placed_ascending(ordered(s.drop_last()), s.last());
    }
}

proof fn lemma_no_surplus(a: Seq<EntryView>, b: Seq<EntryView>, head: Seq<char>, n: nat)
    requires
        n <= a.len(),
    ensures
        surplus(a, b, head, n).len() == 0 <==> forall|i: int|
            0 <= i < n && #[trigger] first_time(a, i) ==> times(a, a[i]) <= times(b, a[i]),
    decreases n,
{
    if n > 0 {
        lemma_no_surplus(a, b, head, (n - 1) as nat);
        assert(first_time(a, n - 1) ==> first_time(a, n - 1));
    }
}

proof fn lemma_first_time(a: Seq<EntryView>, e: EntryView, n: nat)
    requires
        n <= a.len(),
        a.take(n as int).contains(e),
    ensures
        exists|i: int| 0 <= i < n && #[trigger] first_time(a, i) && a[i] == e,
    decreases n,
{
    let k = choose|k: int| 0 <= k < n && a.take(n as int)[k] == e;
    assert(a[k] == e);
    if a.take(k).contains(e) {
        lemma_first_time(a, e, k as nat);
    } else {
        assert(first_time(a, k));
    }
}

proof fn lemma_surplus_free(a: Seq<EntryView>, b: Seq<EntryView>, head: Seq<char>)
    ensures
        surplus(a, b, head, a.len()).len() == 0 <==> forall|e: EntryView|
            #[trigger] times(a, e) <= times(b, e),
{
    lemma_no_surplus(a, b, head, a.len());
    if surplus(a, b, head, a.len()).len() == 0 {
        assert forall|e: EntryView| #[trigger] times(a, e) <= times(b, e) by {
            a.to_multiset_ensures();
            if times(a, e) > 0 {
                assert(a.contains(e));
                assert(a.take(a.len() as int) =~= a);
                lemma_first_time(a, e, a.len());
            }
        }
    }
}

proof fn lemma_last_uid(s: Seq<EntryView>, e: EntryView, n: nat)
    requires
        n <= s.len(),
    ensures
        last_uid(s, e, n) matches Some(u) ==> exists|i: int|
            0 <= i < n && same_place(#[trigger] s[i], e) && s[i].uid == u,
    decreases n,
{
    if n > 0 && !same_place(s[n - 1], e) {
        lemma_last_uid(s, e, (n - 1) as nat);
    }
}

proof fn lemma_no_uid_changes(saved: Seq<EntryView>, fresh: Seq<EntryView>, n: nat)
    requires
        n <= fresh.len(),
        unambiguous(saved),
        forall|i: int| 0 <= i < fresh.len() ==> saved.contains(#[trigger] fresh[i]),
    ensures
        uid_changes(saved, fresh, n).len() == 0,
    decreases n,
{
    if n > 0 {
        lemma_no_uid_changes(saved, fresh, (n - 1) as nat);
        let e = fresh[n - 1];
        lemma_last_uid(saved, e, saved.len());
        assert(saved.contains(e));
        match last_uid(saved, e, saved.len()) {
            Some(u) => {
                let i = choose|i: int|
                    0 <= i < saved.len() && same_place(#[trigger] saved[i], e) && saved[i].uid == u;
                assert(saved.contains(saved[i]));
            },
            None => {},
        }
    }
}

proof fn lemma_metadata_free(saved: Seq<ExecutionPhase>, fresh: Seq<ExecutionPhase>, n: nat)
    ensures
        metadata_drift(saved, fresh, n).len() == 0 <==> forall|i: int|
            0 <= i < n ==> (#[trigger] saved[i]).phase == fresh[i].phase && saved[i].name@
                == fresh[i].name@,
    decreases n,
{
    if n > 0 {
        lemma_metadata_free(saved, fresh, (n - 1) as nat);
    }
}

/// A plan is accepted only where the fresh plan has the same phases and holds
/// the same resources under the same actions and UIDs. The other way round, such
/// a fresh plan is accepted wherever no resource stands twice in one phase,
/// under one action, with different UIDs.
pub proof fn law_accepted_plans_agree(saved: ExecutionPlan, fresh: ExecutionPlan)
    ensures
        drift(saved, fresh).len() == 0 ==> same_phases(saved, fresh) && same_resources(
            saved,
            fresh,
        ),
        same_phases(saved, fresh) && same_resources(saved, fresh) && unambiguous(
            plan_entries(saved.phases@),
        ) ==> drift(saved, fresh).len() == 0,
{
    broadcast use vstd::multiset::group_multiset_axioms;

    let ps = plan_entries(saved.phases@);
    let pf = plan_entries(fresh.phases@);
    let s = ordered(ps);
    let f = ordered(pf);
    lemma_ordered_multiset(ps);
    lemma_ordered_multiset(pf);
    lemma_surplus_free(s, f, "Resource missing from cluster: "@);
    lemma_surplus_free(f, s, "Resource added since plan: "@);
    lemma_metadata_free(
        saved.phases@,
        fresh.phases@,
        shorter(saved.phases@.len(), fresh.phases@.len()),
    );
    s.to_multiset_ensures();
    f.to_multiset_ensures();
    if drift(saved, fresh).len() == 0 {
        assert forall|e: EntryView| #[trigger]
            s.to_multiset().count(e) == f.to_multiset().count(e) by {
            assert(times(s, e) <= times(f, e));
            assert(times(f, e) <= times(s, e));
        }
        assert(s.to_multiset() =~= f.to_multiset());
    }
    if same_phases(saved, fresh) && same_resources(saved, fresh) && unambiguous(ps) {
        ps.to_multiset_ensures();
        assert forall|i: int| 0 <= i < f.len() implies s.contains(#[trigger] f[i]) by {
            assert(f.contains(f[i]));
            assert(f.to_multiset().count(f[i]) > 0);
        }
        assert forall|a: EntryView, b: EntryView|
            #![trigger s.contains(a), s.contains(b)]
            s.contains(a) && s.contains(b) && same_place(a, b) implies a.uid == b.uid by {
            assert(s.to_multiset().count(a) > 0);
            assert(s.to_multiset().count(b) > 0);
            assert(ps.contains(a));
            assert(ps.contains(b));
        }
        lemma_no_uid_changes(s, f, f.len());
    }
}

/// The resource `r` of phase `p` and the resource `q` of phase `o` agree: same
/// number and name of the phase, same action, group, kind, namespace, name and UID.
pub open spec fn agree(
    p: ExecutionPhase,
    r: ExecutionResource,
    o: ExecutionPhase,
    q: ExecutionResource,
) -> bool {
    &&& p.phase == o.phase
    &&& p.name@ == o.name@
    &&& r.action == q.action
    &&& r.group@ == q.group@
    &&& r.kind@ == q.kind@
    &&& opt_text(r.namespace) == opt_text(q.namespace)
    &&& r.name@ == q.name@
    &&& opt_text(r.uid) == opt_text(q.uid)
}

proof fn lemma_plan_entry(phases: Seq<ExecutionPhase>, i: int, j: int)
    requires
        0 <= i < phases.len(),
        0 <= j < phases[i].resources@.len(),
    ensures
        plan_entries(phases).contains(entry_of(phases[i], phases[i].resources@[j])),
    decreases phases.len(),
{
    let front = plan_entries(phases.drop_last());
    let back = phase_entries(phases.last());
    let e = entry_of(phases[i], phases[i].resources@[j]);
    if i < phases.len() - 1 {
        lemma_plan_entry(phases.drop_last(), i, j);
    } else {
        assert(back[j] == e);
    }
    lemma_contains_add(front, back, e);
}

proof fn lemma_entry_of_plan(phases: Seq<ExecutionPhase>, e: EntryView)
    requires
        plan_entries(phases).contains(e),
    ensures
        exists|i: int, j: int|
            #![trigger phases[i].resources@[j]]
            0 <= i < phases.len() && 0 <= j < phases[i].resources@.len() && entry_of(
                phases[i],
                phases[i].resources@[j],
            ) == e,
    decreases phases.len(),
{
    if phases.len() > 0 {
        let front = plan_entries(phases.drop_last());
        let back = phase_entries(phases.last());
        lemma_contains_add(front, back, e);
        if front.contains(e) {
            lemma_entry_of_plan(phases.drop_last(), e);
            let d = phases.drop_last();
            let (i, j) = choose|i: int, j: int|
                #![trigger d[i].resources@[j]]
                0 <= i < d.len() && 0 <= j < d[i].resources@.len() && entry_of(
                    d[i],
                    d[i].resources@[j],
                ) == e;
            assert(phases[i].resources@[j] == d[i].resources@[j]);
        } else {
            let j = choose|j: int| 0 <= j < back.len() && back[j] == e;
            let last = phases[phases.len() - 1];
            assert(last.resources@[j] == phases.last().resources@[j]);
        }
    }
}

proof fn lemma_action_words(a: ExecutionAction, b: ExecutionAction)
    requires
        action_word(a) == action_word(b),
    ensures
        a == b,
{
    reveal_strlit("DELETE");
    reveal_strlit("EXPECT");
    reveal_strlit("WAIT");
    reveal_strlit("KEEP");
    reveal_strlit("REVIEW");
    assert("DELETE"@[0] == 'D');
    assert("EXPECT"@[0] == 'E');
    assert("WAIT"@[0] == 'W');
    assert("KEEP"@[0] == 'K');
    assert("REVIEW"@[0] == 'R');
    assert(action_word(a)[0] == action_word(b)[0]);
}

proof fn lemma_counterpart(a: ExecutionPlan, b: ExecutionPlan, i: int, j: int)
    requires
        same_resources(a, b),
        0 <= i < a.phases@.len(),
        0 <= j < a.phases@[i].resources@.len(),
    ensures
        exists|k: int, m: int|
            #![trigger b.phases@[k].resources@[m]]
            0 <= k < b.phases@.len() && 0 <= m < b.phases@[k].resources@.len() && agree(
                a.phases@[i],
                a.phases@[i].resources@[j],
                b.phases@[k],
                b.phases@[k].resources@[m],
            ),
{
    broadcast use vstd::multiset::group_multiset_axioms;

    let e = entry_of(a.phases@[i], a.phases@[i].resources@[j]);
    let pa = plan_entries(a.phases@);
    let pb = plan_entries(b.phases@);
    lemma_plan_entry(a.phases@, i, j);
    lemma_ordered_multiset(pa);
    lemma_ordered_multiset(pb);
    pa.to_multiset_ensures();
    pb.to_multiset_ensures();
    assert(pa.to_multiset().count(e) > 0);
    assert(pb.contains(e));
    lemma_entry_of_plan(b.phases@, e);
    let (k, m) = choose|k: int, m: int|
        #![trigger b.phases@[k].resources@[m]]
        0 <= k < b.phases@.len() && 0 <= m < b.phases@[k].resources@.len() && entry_of(
            b.phases@[k],
            b.phases@[k].resources@[m],
        ) == e;
    lemma_action_words(
        a.phases@[i].resources@[j].action,
        b.phases@[k].resources@[m].action,
    );
    assert(agree(
        a.phases@[i],
        a.phases@[i].resources@[j],
        b.phases@[k],
        b.phases@[k].resources@[m],
    ));
}

/// Where a plan is accepted, each resource of the saved plan, under whatever
/// action, has its counterpart in the fresh plan: in a phase of the same number and
/// name, with the same action, group, kind, namespace, name and UID. And the other
/// way round: the fresh plan holds no resource without such a counterpart in the
/// saved plan.
pub proof fn law_accepted_resources_have_counterparts(
    saved: ExecutionPlan,
    fresh: ExecutionPlan,
    i: int,
    j: int,
)
    requires
        drift(saved, fresh).len() == 0,
    ensures
        0 <= i < saved.phases@.len() && 0 <= j < saved.phases@[i].resources@.len() ==> exists|
            k: int,
            m: int,
        |
            #![trigger fresh.phases@[k].resources@[m]]
            {
                let p = saved.phases@[i];
                let r = p.resources@[j];
                let o = fresh.phases@[k];
                let q = o.resources@[m];
                &&& 0 <= k < fresh.phases@.len()
                &&& 0 <= m < o.resources@.len()
                &&& p.phase == o.phase
                &&& p.name@ == o.name@
                &&& r.action == q.action
                &&& r.group@ == q.group@
                &&& r.kind@ == q.kind@
                &&& opt_text(r.namespace) == opt_text(q.namespace)
                &&& r.name@ == q.name@
                &&& opt_text(r.uid) == opt_text(q.uid)
            },
        0 <= i < fresh.phases@.len() && 0 <= j < fresh.phases@[i].resources@.len() ==> exists|
            k: int,
            m: int,
        |
            #![trigger saved.phases@[k].resources@[m]]
            {
                let p = fresh.phases@[i];
                let r = p.resources@[j];
                let o = saved.phases@[k];
                let q = o.resources@[m];
                &&& 0 <= k < saved.phases@.len()
                &&& 0 <= m < o.resources@.len()
                &&& p.phase == o.phase
                &&& p.name@ == o.name@
                &&& r.action == q.action
                &&& r.group@ == q.group@
                &&& r.kind@ == q.kind@
                &&& opt_text(r.namespace) == opt_text(q.namespace)
                &&& r.name@ == q.name@
                &&& opt_text(r.uid) == opt_text(q.uid)
            },
{
    law_accepted_plans_agree(saved, fresh);
    if 0 <= i < saved.phases@.len() && 0 <= j < saved.phases@[i].resources@.len() {
        lemma_counterpart(saved, fresh, i, j);
        let (k, m) = choose|k: int, m: int|
            #![trigger fresh.phases@[k].resources@[m]]
            0 <= k < fresh.phases@.len() && 0 <= m < fresh.phases@[k].resources@.len() && agree(
                saved.phases@[i],
                saved.phases@[i].resources@[j],
                fresh.phases@[k],
                fresh.phases@[k].resources@[m],
            );
        assert(fresh.phases@[k].resources@[m] == fresh.phases@[k].resources@[m]);
    }
    if 0 <= i < fresh.phases@.len() && 0 <= j < fresh.phases@[i].resources@.len() {
        lemma_counterpart(fresh, saved, i, j);
        let (k, m) = choose|k: int, m: int|
            #![trigger saved.phases@[k].resources@[m]]
            0 <= k < saved.phases@.len() && 0 <= m < saved.phases@[k].resources@.len() && agree(
                fresh.phases@[i],
                fresh.phases@[i].resources@[j],
                saved.phases@[k],
                saved.phases@[k].resources@[m],
            );
        assert(saved.phases@[k].resources@[m] == saved.phases@[k].resources@[m]);
    }
}

/// Where a plan is accepted, both plans have equally many phases, and at each place
/// a phase of the same number and name.
pub proof fn law_accepted_phases_are_the_same(saved: ExecutionPlan, fresh: ExecutionPlan, i: int)
    requires
        drift(saved, fresh).len() == 0,
    ensures
        saved.phases@.len() == fresh.phases@.len(),
        0 <= i < saved.phases@.len() ==> saved.phases@[i].phase == fresh.phases@[i].phase
            && saved.phases@[i].name@ == fresh.phases@[i].name@,
{
    law_accepted_plans_agree(saved, fresh);
    assert(same_phases(saved, fresh));
}

proof fn lemma_same_entries(a: Seq<ExecutionPhase>, b: Seq<ExecutionPhase>)
    requires
        a.len() == b.len(),
        forall|i: int|
            0 <= i < a.len() ==> (#[trigger] a[i]).resources@.len() == b[i].resources@.len(),
        forall|i: int, j: int|
            #![trigger a[i].resources@[j]]
            0 <= i < a.len() && 0 <= j < a[i].resources@.len() ==> agree(
                a[i],
                a[i].resources@[j],
                b[i],
                b[i].resources@[j],
            ),
    ensures
        plan_entries(a) == plan_entries(b),
    decreases a.len(),
{
    if a.len() > 0 {
        let x = a.drop_last();
        let y = b.drop_last();
        assert forall|i: int, j: int|
            #![trigger x[i].resources@[j]]
            0 <= i < x.len() && 0 <= j < x[i].resources@.len() implies agree(
            x[i],
            x[i].resources@[j],
            y[i],
            y[i].resources@[j],
        ) by {
            assert(a[i].resources@[j] == x[i].resources@[j]);
        }
        assert forall|i: int| 0 <= i < x.len() implies (#[trigger] x[i]).resources@.len()
            == y[i].resources@.len() by {
            assert(a[i] == x[i]);
        }
        lemma_same_entries(x, y);
        let p = a[a.len() - 1];
        let q = b[a.len() - 1];
        assert forall|j: int| 0 <= j < p.resources@.len() implies #[trigger] phase_entries(p)[j]
            == phase_entries(q)[j] by {
            assert(agree(p, p.resources@[j], q, q.resources@[j]));
            assert(entry_of(p, p.resources@[j]) =~= entry_of(q, q.resources@[j]));
        }
        assert(phase_entries(p) =~= phase_entries(q));
    }
}

/// A fresh plan that agrees with the saved one phase by phase and resource by
/// resource is accepted, as long as the saved plan does not hold one resource twice
/// in phases of one number, under one action, with different UIDs.
pub proof fn law_equal_plan_is_accepted(saved: ExecutionPlan, fresh: ExecutionPlan)
    requires
        saved.phases@.len() == fresh.phases@.len(),
        forall|i: int|
            0 <= i < saved.phases@.len() ==> (#[trigger] saved.phases@[i]).phase
                == fresh.phases@[i].phase && saved.phases@[i].name@ == fresh.phases@[i].name@
                && saved.phases@[i].resources@.len() == fresh.phases@[i].resources@.len(),
        forall|i: int, j: int|
            #![trigger saved.phases@[i].resources@[j]]
            0 <= i < saved.phases@.len() && 0 <= j < saved.phases@[i].resources@.len() ==> {
                let r = saved.phases@[i].resources@[j];
                let q = fresh.phases@[i].resources@[j];
                &&& r.action == q.action
                &&& r.group@ == q.group@
                &&& r.kind@ == q.kind@
                &&& opt_text(r.namespace) == opt_text(q.namespace)
                &&& r.name@ == q.name@
                &&& opt_text(r.uid) == opt_text(q.uid)
            },
        forall|i: int, j: int, k: int, m: int|
            #![trigger saved.phases@[i].resources@[j], saved.phases@[k].resources@[m]]
            0 <= i < saved.phases@.len() && 0 <= j < saved.phases@[i].resources@.len() && 0 <= k
                < saved.phases@.len() && 0 <= m < saved.phases@[k].resources@.len() ==> {
                let r = saved.phases@[i].resources@[j];
                let q = saved.phases@[k].resources@[m];
                saved.phases@[i].phase == saved.phases@[k].phase && r.action == q.action
                    && r.group@ == q.group@ && r.kind@ == q.kind@ && opt_text(r.namespace)
                    == opt_text(q.namespace) && r.name@ == q.name@ ==> opt_text(r.uid)
                    == opt_text(q.uid)
            },
    ensures
        drift(saved, fresh).len() == 0,
{
    let a = saved.phases@;
    let b = fresh.phases@;
    assert forall|i: int, j: int|
        #![trigger a[i].resources@[j]]
        0 <= i < a.len() && 0 <= j < a[i].resources@.len() implies agree(
        a[i],
        a[i].resources@[j],
        b[i],
        b[i].resources@[j],
    ) by {
        assert(a[i].phase == b[i].phase);
    }
    lemma_same_entries(a, b);
    let ps = plan_entries(a);
    assert forall|x: EntryView, y: EntryView|
        #![trigger ps.contains(x), ps.contains(y)]
        ps.contains(x) && ps.contains(y) && same_place(x, y) implies x.uid == y.uid by {
        lemma_entry_of_plan(a, x);
        lemma_entry_of_plan(a, y);
        let (i, j) = choose|i: int, j: int|
            #![trigger a[i].resources@[j]]
            0 <= i < a.len() && 0 <= j < a[i].resources@.len() && entry_of(
                a[i],
                a[i].resources@[j],
            ) == x;
        let (k, m) = choose|k: int, m: int|
            #![trigger a[k].resources@[m]]
            0 <= k < a.len() && 0 <= m < a[k].resources@.len() && entry_of(
                a[k],
                a[k].resources@[m],
            ) == y;
        lemma_action_words(a[i].resources@[j].action, a[k].resources@[m].action);
        assert(saved.phases@[i].resources@[j] == a[i].resources@[j]);
        assert(saved.phases@[k].resources@[m] == a[k].resources@[m]);
    }
    law_accepted_plans_agree(saved, fresh);
}

proof fn lemma_surplus_is_told(
    a: Seq<EntryView>,
    b: Seq<EntryView>,
    head: Seq<char>,
    i: int,
    n: nat,
)
    requires
        0 <= i < n <= a.len(),
        times(b, a[i]) < times(a, a[i]),
    ensures
        surplus(a, b, head, n).contains(
            head + describe(a[i]) + " (×"@ + decimal((times(a, a[i]) - times(b, a[i])) as nat)
                + ")"@,
        ),
    decreases n,
{
    let m = (n - 1) as nat;
    let before = surplus(a, b, head, m);
    let all = surplus(a, b, head, n);
    let told = head + describe(a[i]) + " (×"@ + decimal(
        (times(a, a[i]) - times(b, a[i])) as nat,
    ) + ")"@;
    if i == m && first_time(a, i) {
        assert(all[all.len() - 1] == told);
    } else {
        if i == m {
            let k = choose|k: int| 0 <= k < a.take(i).len() && a.take(i)[k] == a[i];
            assert(a[k] == a[i]);
            lemma_surplus_is_told(a, b, head, k, m);
        } else {
            lemma_surplus_is_told(a, b, head, i, m);
        }
        let k = choose|k: int| 0 <= k < before.len() && before[k] == told;
        assert(all[k] == told);
    }
}

proof fn lemma_told(saved: ExecutionPlan, fresh: ExecutionPlan, x: Seq<char>)
    ensures
        ({
            let s = ordered_entries(saved);
            let f = ordered_entries(fresh);
            phase_count_drift(
                saved.phases@.len() as int,
                fresh.phases@.len() as int,
            ).contains(x) || metadata_drift(
                saved.phases@,
                fresh.phases@,
                shorter(saved.phases@.len(), fresh.phases@.len()),
            ).contains(x) || resource_count_drift(s.len() as int, f.len() as int).contains(x)
                || surplus(s, f, "Resource missing from cluster: "@, s.len()).contains(x)
                || surplus(f, s, "Resource added since plan: "@, f.len()).contains(x)
                || uid_changes(s, f, f.len()).contains(x)
        }) ==> drift(saved, fresh).contains(x),
{
    let s = ordered_entries(saved);
    let f = ordered_entries(fresh);
    let a = phase_count_drift(saved.phases@.len() as int, fresh.phases@.len() as int);
    let b = metadata_drift(
        saved.phases@,
        fresh.phases@,
        shorter(saved.phases@.len(), fresh.phases@.len()),
    );
    let c = resource_count_drift(s.len() as int, f.len() as int);
    let d = surplus(s, f, "Resource missing from cluster: "@, s.len());
    let e = surplus(f, s, "Resource added since plan: "@, f.len());
    let g = uid_changes(s, f, f.len());
    lemma_contains_add(a, b, x);
    lemma_contains_add(a + b, c, x);
    lemma_contains_add(a + b + c, d, x);
    lemma_contains_add(a + b + c + d, e, x);
    lemma_contains_add(a + b + c + d + e, g, x);
}

/// A resource that one of two plans has more often than the other is reported, with
/// its phase, its action, its kind, its name and its UID and with how often it is
/// missing or added: what only the saved plan has is missing from the cluster, and what
/// only the fresh plan has was added.
pub proof fn law_missing_and_added_are_reported(
    saved: ExecutionPlan,
    fresh: ExecutionPlan,
    e: EntryView,
)
    ensures
        ({
            let s = plan_entries(saved.phases@).to_multiset().count(e);
            let f = plan_entries(fresh.phases@).to_multiset().count(e);
            let what = "phase "@ + decimal(e.phase as nat) + "/"@ + e.phase_name + " "@ + e.action
                + " "@ + e.kind + "/"@ + e.name + " uid="@ + quoted_opt_text(e.uid) + " (×"@;
            &&& f < s ==> drift(saved, fresh).contains(
                "Resource missing from cluster: "@ + what + decimal((s - f) as nat) + ")"@,
            )
            &&& s < f ==> drift(saved, fresh).contains(
                "Resource added since plan: "@ + what + decimal((f - s) as nat) + ")"@,
            )
        }),
{
    broadcast use vstd::multiset::group_multiset_axioms;

    let ps = plan_entries(saved.phases@);
    let pf = plan_entries(fresh.phases@);
    let s = ordered_entries(saved);
    let f = ordered_entries(fresh);
    lemma_ordered_multiset(ps);
    lemma_ordered_multiset(pf);
    s.to_multiset_ensures();
    f.to_multiset_ensures();
    let what = "phase "@ + decimal(e.phase as nat) + "/"@ + e.phase_name + " "@ + e.action + " "@
        + e.kind + "/"@ + e.name + " uid="@ + quoted_opt_text(e.uid) + " (×"@;
    if times(f, e) < times(s, e) {
        assert(s.contains(e));
        let i = choose|i: int| 0 <= i < s.len() && s[i] == e;
        lemma_surplus_is_told(s, f, "Resource missing from cluster: "@, i, s.len());
        let n = decimal((times(s, e) - times(f, e)) as nat);
        let x = "Resource missing from cluster: "@ + describe(e) + " (×"@ + n + ")"@;
        lemma_told(saved, fresh, x);
        assert(x =~= "Resource missing from cluster: "@ + what + n + ")"@);
    }
    if times(s, e) < times(f, e) {
        assert(f.contains(e));
        let i = choose|i: int| 0 <= i < f.len() && f[i] == e;
        lemma_surplus_is_told(f, s, "Resource added since plan: "@, i, f.len());
        let n = decimal((times(f, e) - times(s, e)) as nat);
        let x = "Resource added since plan: "@ + describe(e) + " (×"@ + n + ")"@;
        lemma_told(saved, fresh, x);
        assert(x =~= "Resource added since plan: "@ + what + n + ")"@);
    }
}

proof fn lemma_uid_change_is_told(
    saved: Seq<EntryView>,
    fresh: Seq<EntryView>,
    uid: Option<Seq<char>>,
    i: int,
    n: nat,
)
    requires
        0 <= i < n <= fresh.len(),
        last_uid(saved, fresh[i], saved.len()) == Some(uid),
        uid != fresh[i].uid,
    ensures
        uid_changes(saved, fresh, n).contains(
            "UID changed for "@ + fresh[i].kind + "/"@ + fresh[i].name + " in "@ + quoted_opt_text(
                fresh[i].namespace,
            ) + ": saved "@ + quoted_opt_text(uid) + " → fresh "@ + quoted_opt_text(fresh[i].uid),
        ),
    decreases n,
{
    let told = "UID changed for "@ + fresh[i].kind + "/"@ + fresh[i].name + " in "@
        + quoted_opt_text(fresh[i].namespace) + ": saved "@ + quoted_opt_text(uid) + " → fresh "@
        + quoted_opt_text(fresh[i].uid);
    let before = uid_changes(saved, fresh, (n - 1) as nat);
    let all = uid_changes(saved, fresh, n);
    if i == n - 1 {
        assert(all[all.len() - 1] == told);
    } else {
        lemma_uid_change_is_told(saved, fresh, uid, i, (n - 1) as nat);
        let k = choose|k: int| 0 <= k < before.len() && before[k] == told;
        assert(all[k] == told);
    }
}

proof fn lemma_sole_uid(s: Seq<EntryView>, e: EntryView, uid: Option<Seq<char>>, i: int, n: nat)
    requires
        0 <= i < n <= s.len(),
        same_place(s[i], e),
        forall|k: int| 0 <= k < s.len() && same_place(#[trigger] s[k], e) ==> s[k].uid == uid,
    ensures
        last_uid(s, e, n) == Some(uid),
    decreases n,
{
    if !same_place(s[n - 1], e) {
        lemma_sole_uid(s, e, uid, i, (n - 1) as nat);
    }
}

/// Where the fresh plan has a resource under another UID than the saved plan has it
/// under, in the same phase and with the same action, group, kind, namespace and name,
/// that change is reported with both UIDs.
pub proof fn law_changed_uid_is_reported(
    saved: ExecutionPlan,
    fresh: ExecutionPlan,
    a: EntryView,
    b: EntryView,
)
    requires
        plan_entries(saved.phases@).contains(a),
        plan_entries(fresh.phases@).contains(b),
        a.phase == b.phase && a.action == b.action && a.group == b.group && a.kind == b.kind
            && a.namespace == b.namespace && a.name == b.name,
        a.uid != b.uid,
        forall|c: EntryView| #[trigger]
            plan_entries(saved.phases@).contains(c) && c.phase == b.phase && c.action == b.action
                && c.group == b.group && c.kind == b.kind && c.namespace == b.namespace && c.name
                == b.name ==> c.uid == a.uid,
    ensures
        drift(saved, fresh).contains(
            "UID changed for "@ + b.kind + "/"@ + b.name + " in "@ + quoted_opt_text(b.namespace)
                + ": saved "@ + quoted_opt_text(a.uid) + " → fresh "@ + quoted_opt_text(b.uid),
        ),
{
    broadcast use vstd::multiset::group_multiset_axioms;

    let ps = plan_entries(saved.phases@);
    let pf = plan_entries(fresh.phases@);
    let s = ordered_entries(saved);
    let f = ordered_entries(fresh);
    lemma_ordered_multiset(ps);
    lemma_ordered_multiset(pf);
    s.to_multiset_ensures();
    f.to_multiset_ensures();
    ps.to_multiset_ensures();
    pf.to_multiset_ensures();
    assert(ps.to_multiset().count(a) > 0);
    assert(pf.to_multiset().count(b) > 0);
    assert(s.contains(a));
    assert(f.contains(b));
    let i = choose|i: int| 0 <= i < s.len() && s[i] == a;
    let k = choose|k: int| 0 <= k < f.len() && f[k] == b;
    assert forall|m: int| 0 <= m < s.len() && same_place(#[trigger] s[m], b) implies s[m].uid
        == a.uid by {
        assert(s.contains(s[m]));
        assert(s.to_multiset().count(s[m]) > 0);
        assert(ps.contains(s[m]));
    }
    lemma_sole_uid(s, b, a.uid, i, s.len());
    lemma_uid_change_is_told(s, f, a.uid, k, f.len());
    lemma_told(
        saved,
        fresh,
        "UID changed for "@ + b.kind + "/"@ + b.name + " in "@ + quoted_opt_text(b.namespace)
            + ": saved "@ + quoted_opt_text(a.uid) + " → fresh "@ + quoted_opt_text(b.uid),
    );
}

proof fn lemma_metadata_is_told(
    saved: Seq<ExecutionPhase>,
    fresh: Seq<ExecutionPhase>,
    i: int,
    n: nat,
)
    requires
        0 <= i < n,
        saved[i].phase != fresh[i].phase || saved[i].name@ != fresh[i].name@,
    ensures
        metadata_drift(saved, fresh, n).contains(
            "Phase metadata drift at index "@ + decimal(i as nat) + ": saved ("@ + decimal(
                saved[i].phase as nat,
            ) + ", "@ + quoted_text(saved[i].name@) + ") vs fresh ("@ + decimal(
                fresh[i].phase as nat,
            ) + ", "@ + quoted_text(fresh[i].name@) + ")"@,
        ),
    decreases n,
{
    let told = "Phase metadata drift at index "@ + decimal(i as nat) + ": saved ("@ + decimal(
        saved[i].phase as nat,
    ) + ", "@ + quoted_text(saved[i].name@) + ") vs fresh ("@ + decimal(fresh[i].phase as nat)
        + ", "@ + quoted_text(fresh[i].name@) + ")"@;
    let before = metadata_drift(saved, fresh, (n - 1) as nat);
    let all = metadata_drift(saved, fresh, n);
    if i == n - 1 {
        assert(all[all.len() - 1] == told);
    } else {
        lemma_metadata_is_told(saved, fresh, i, (n - 1) as nat);
        let k = choose|k: int| 0 <= k < before.len() && before[k] == told;
        assert(all[k] == told);
    }
}

/// Plans with different numbers of phases are reported with both numbers, and so is
/// each phase that has another number or another name in the two plans, at its place.
pub proof fn law_changed_phases_are_reported(saved: ExecutionPlan, fresh: ExecutionPlan, i: int)
    ensures
        saved.phases@.len() != fresh.phases@.len() ==> drift(saved, fresh).contains(
            "Phase count drift: saved "@ + decimal(saved.phases@.len()) + " phases, fresh "@
                + decimal(fresh.phases@.len()) + " phases"@,
        ),
        0 <= i < saved.phases@.len() && i < fresh.phases@.len() && (saved.phases@[i].phase
            != fresh.phases@[i].phase || saved.phases@[i].name@ != fresh.phases@[i].name@)
            ==> drift(saved, fresh).contains(
            "Phase metadata drift at index "@ + decimal(i as nat) + ": saved ("@ + decimal(
                saved.phases@[i].phase as nat,
            ) + ", "@ + quoted_text(saved.phases@[i].name@) + ") vs fresh ("@ + decimal(
                fresh.phases@[i].phase as nat,
            ) + ", "@ + quoted_text(fresh.phases@[i].name@) + ")"@,
        ),
{
    if saved.phases@.len() != fresh.phases@.len() {
        let x = "Phase count drift: saved "@ + decimal(saved.phases@.len()) + " phases, fresh "@
            + decimal(fresh.phases@.len()) + " phases"@;
        assert(phase_count_drift(
            saved.phases@.len() as int,
            fresh.phases@.len() as int,
        )[0] == x);
        lemma_told(saved, fresh, x);
    }
    if 0 <= i < saved.phases@.len() && i < fresh.phases@.len() && (saved.phases@[i].phase
        != fresh.phases@[i].phase || saved.phases@[i].name@ != fresh.phases@[i].name@) {
        lemma_metadata_is_told(
            saved.phases@,
            fresh.phases@,
            i,
            shorter(saved.phases@.len(), fresh.phases@.len()),
        );
        lemma_told(
            saved,
            fresh,
            "Phase metadata drift at index "@ + decimal(i as nat) + ": saved ("@ + decimal(
                saved.phases@[i].phase as nat,
            ) + ", "@ + quoted_text(saved.phases@[i].name@) + ") vs fresh ("@ + decimal(
                fresh.phases@[i].phase as nat,
            ) + ", "@ + quoted_text(fresh.phases@[i].name@) + ")"@,
        );
    }
}

/// Plans with different numbers of resources are reported with both numbers.
pub proof fn law_changed_count_is_reported(saved: ExecutionPlan, fresh: ExecutionPlan)
    ensures
        ({
            let s = plan_entries(saved.phases@).len();
            let f = plan_entries(fresh.phases@).len();
            s != f ==> drift(saved, fresh).contains(
                "Resource count drift: saved "@ + decimal(s) + ", fresh "@ + decimal(f),
            )
        }),
{
    let ps = plan_entries(saved.phases@);
    let pf = plan_entries(fresh.phases@);
    lemma_ordered_multiset(ps);
    lemma_ordered_multiset(pf);
    ps.to_multiset_ensures();
    pf.to_multiset_ensures();
    ordered(ps).to_multiset_ensures();
    ordered(pf).to_multiset_ensures();
    if ps.len() != pf.len() {
        let x = "Resource count drift: saved "@ + decimal(ps.len()) + ", fresh "@ + decimal(
            pf.len(),
        );
        assert(resource_count_drift(ordered(ps).len() as int, ordered(pf).len() as int)[0] == x);
        lemma_told(saved, fresh, x);
    }
}

} // verus!
