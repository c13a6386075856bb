//! Leaving what does not go to the audit that follows the controller's removal.
//!
//! A controller may recreate its objects for as long as it lives. A phase may
//! leave such objects behind, but never a root that is still there under the UID
//! that was to be deleted, and never where something is not known.

use vstd::prelude::*;

use crate::cluster::{has_code, GetReply};
use crate::journal::records::{has_taken_redelete, redelete_taken, redeletes, ReDeleteView};
use crate::journal::ReDeleteRecord;
use crate::lists::{ids, lemma_has_id};
use crate::planner::{collect_objects, objects_of, ActionKind, PlanPhase};
use crate::resource::{contains_id, same_slot, ResourceId, ResourceIdView};
use crate::text::{opt_text, same_opt};
use crate::watch::ResourceRuntimeState;

verus! {

/// What comes next in finding out whether a phase may leave objects behind.
#[derive(Debug, Clone, Copy, PartialEq, Eq, Structural)]
pub enum DeferStep {
    /// The answer.
    Answer(bool),
    /// Look at everything that remains.
    Observe,
    /// GET the root at this position.
    LookAt(usize),
    /// List one object of the kind of the root at this position.
    VerifyEndpoint(usize),
}

/// One of `v` has the group, kind, namespace and name of `id`.
pub open spec fn any_same_slot(v: Seq<ResourceIdView>, id: ResourceIdView) -> bool {
    exists|i: int| 0 <= i < v.len() && same_slot(#[trigger] v[i], id)
}

/// Whether one of `v` has the group, kind, namespace and name of `id`.
pub fn has_same_slot(v: &Vec<ResourceId>, id: &ResourceId) -> (r: bool)
    ensures
        r == any_same_slot(ids(v@), id@),
{
    let ghost all = ids(v@);
    for i in 0..v.len()
        invariant
            all == ids(v@),
            forall|k: int| 0 <= k < i ==> !same_slot(#[trigger] all[k], id@),
    {
        assert(all[i as int] == v@[i as int]@);
        if v[i].is_same_slot(id) {
            assert(same_slot(all[i as int], id@));
            return true;
        }
    }
    false
}

/// `id` is a root of the phase, whatever its UID, or exactly one of the objects
/// that the phase expects to go.
pub open spec fn belongs_to(phase: PlanPhase, id: ResourceIdView) -> bool {
    any_same_slot(objects_of(phase.actions@, ActionKind::Delete), id) || objects_of(
        phase.actions@,
        ActionKind::ExpectGone,
    ).contains(id)
}

/// The first step: nothing remaining may always be left, and what is not of the
/// phase never.
pub open spec fn defer_begins(remaining: Seq<ResourceIdView>, phase: PlanPhase) -> DeferStep {
    if remaining.len() == 0 {
        DeferStep::Answer(true)
    } else if exists|i: int| 0 <= i < remaining.len() && !belongs_to(phase, #[trigger] remaining[i]) {
        DeferStep::Answer(false)
    } else {
        DeferStep::Observe
    }
}

/// The first step.
pub fn begin_defer(remaining: &Vec<ResourceId>, phase: &PlanPhase) -> (r: DeferStep)
    ensures
        r == defer_begins(ids(remaining@), *phase),
{
    let ghost all = ids(remaining@);
    assert(all.len() == remaining@.len());
    if remaining.len() == 0 {
        return DeferStep::Answer(true);
    }
    let deleted = collect_objects(&phase.actions, ActionKind::Delete);
    let expected = collect_objects(&phase.actions, ActionKind::ExpectGone);
    for i in 0..remaining.len()
        invariant
            all == ids(remaining@),
            all.len() > 0,
            ids(deleted@) == objects_of(phase.actions@, ActionKind::Delete),
            ids(expected@) == objects_of(phase.actions@, ActionKind::ExpectGone),
            forall|k: int| 0 <= k < i ==> belongs_to(*phase, #[trigger] all[k]),
    {
        assert(all[i as int] == remaining@[i as int]@);
        proof {
            lemma_has_id(expected@, remaining@[i as int]@);
        }
        if !has_same_slot(&deleted, &remaining[i]) && !contains_id(&expected, &remaining[i]) {
            assert(!belongs_to(*phase, all[i as int]));
            return DeferStep::Answer(false);
        }
    }
    DeferStep::Observe
}

/// What was observed of an object is enough to leave it behind.
pub open spec fn is_certain(state: Option<ResourceRuntimeState>) -> bool {
    match state {
        None => false,
        Some(s) => !(s is Unknown) && !(s is Failed),
    }
}

/// The step behind the root at position `i` of `n`.
pub open spec fn next_root(i: int, n: nat) -> DeferStep {
    if i < n {
        DeferStep::LookAt(i as usize)
    } else {
        DeferStep::Answer(true)
    }
}

fn step_to_root(i: usize, n: usize) -> (r: DeferStep)
    ensures
        r == next_root(i as int, n as nat),
{
    if i < n {
        DeferStep::LookAt(i)
    } else {
        DeferStep::Answer(true)
    }
}

/// The step after everything that remains was looked at.
pub open spec fn defer_observes(
    states: Seq<Option<ResourceRuntimeState>>,
    roots: nat,
) -> DeferStep {
    if exists|i: int| 0 <= i < states.len() && !is_certain(#[trigger] states[i]) {
        DeferStep::Answer(false)
    } else {
        next_root(0, roots)
    }
}

/// The step after everything that remains was looked at. `roots` are the objects
/// that the phase deletes.
pub fn observe_defer(
    states: &Vec<Option<ResourceRuntimeState>>,
    roots: &Vec<ResourceId>,
) -> (r: DeferStep)
    ensures
        r == defer_observes(states@, roots@.len()),
{
    for i in 0..states.len()
        invariant
            forall|k: int| 0 <= k < i ==> is_certain(#[trigger] states@[k]),
    {
        let certain = match &states[i] {
            None => false,
            Some(ResourceRuntimeState::Unknown { .. }) => false,
            Some(ResourceRuntimeState::Failed { .. }) => false,
            Some(_) => true,
        };
        if !certain {
            assert(!is_certain(states@[i as int]));
            return DeferStep::Answer(false);
        }
    }
    step_to_root(0, roots.len())
}

/// The root is there under another UID than the planned one, and the DELETE of
/// that one was taken.
pub open spec fn is_replaced(
    root: ResourceIdView,
    current: Option<Seq<char>>,
    records: Seq<ReDeleteView>,
) -> bool {
    &&& current is Some
    &&& root.uid != current
    &&& redelete_taken(
        records,
        root,
        match root.uid {
            Some(u) => u,
            None => seq![],
        },
        current->0,
    )
}

/// The step after the GET of the root at position `i`; `None` where its kind is
/// not known to discovery.
pub open spec fn defer_looks(
    roots: Seq<ResourceIdView>,
    i: int,
    reply: Option<GetReply>,
    records: Seq<ReDeleteView>,
) -> DeferStep {
    match reply {
        None => DeferStep::Answer(false),
        Some(GetReply::Failed(e)) => if has_code(e, 404) {
            DeferStep::VerifyEndpoint(i as usize)
        } else {
            DeferStep::Answer(false)
        },
        Some(GetReply::Found(o)) => if is_replaced(roots[i], opt_text(o.uid), records) {
            next_root(i + 1, roots.len())
        } else {
            DeferStep::Answer(false)
        },
    }
}

/// The step after the GET of the root at position `i`.
pub fn look_at_root(
    roots: &Vec<ResourceId>,
    i: usize,
    reply: &Option<GetReply>,
    records: &Vec<ReDeleteRecord>,
) -> (r: DeferStep)
    requires
        i < roots@.len(),
    ensures
        r == defer_looks(ids(roots@), i as int, *reply, redeletes(records@)),
{
    let count: usize = roots.len();
    let root = &roots[i];
    assert(ids(roots@)[i as int] == root@);
    match reply {
        None => DeferStep::Answer(false),
        Some(GetReply::Failed(e)) => if e.has_code(404) {
            DeferStep::VerifyEndpoint(i)
        } else {
            DeferStep::Answer(false)
        },
        Some(GetReply::Found(o)) => match &o.uid {
            None => DeferStep::Answer(false),
            Some(current) => {
                if same_opt(&root.uid, &o.uid) {
                    return DeferStep::Answer(false);
                }
                let planned = crate::cluster::or_empty(&root.uid);
                if has_taken_redelete(records, root, planned, current.as_str()) {
                    step_to_root(i + 1, count)
                } else {
                    DeferStep::Answer(false)
                }
            },
        },
    }
}

/// The step after the endpoint of an absent root was looked at.
pub open spec fn defer_verifies(i: int, roots: nat, endpoint_ok: bool) -> DeferStep {
    if endpoint_ok {
        next_root(i + 1, roots)
    } else {
        DeferStep::Answer(false)
    }
}

/// The step after the endpoint of an absent root was looked at.
pub fn verify_root_endpoint(roots: &Vec<ResourceId>, i: usize, endpoint_ok: bool) -> (r: DeferStep)
    requires
        i < roots@.len(),
    ensures
        r == defer_verifies(i as int, roots@.len(), endpoint_ok),
{
    let count: usize = roots.len();
    if endpoint_ok {
        step_to_root(i + 1, count)
    } else {
        DeferStep::Answer(false)
    }
}

/// What the cluster says of the roots of a phase.
pub struct RootReadings {
    /// The answer to the GET of each root.
    pub replies: Seq<Option<GetReply>>,
    /// Whether the endpoint of each root is there.
    pub endpoints: Seq<bool>,
}

/// A root does not stand against leaving objects behind: it is absent and its
/// endpoint is there, or it was replaced and the DELETE of its replacement was taken.
pub open spec fn root_allows(
    root: ResourceIdView,
    reply: Option<GetReply>,
    endpoint_ok: bool,
    records: Seq<ReDeleteView>,
) -> bool {
    match reply {
        None => false,
        Some(GetReply::Failed(e)) => has_code(e, 404) && endpoint_ok,
        Some(GetReply::Found(o)) => is_replaced(root, opt_text(o.uid), records),
    }
}

/// The answer that is come to from the root at position `i` on.
pub open spec fn roots_answer(
    roots: Seq<ResourceIdView>,
    readings: RootReadings,
    records: Seq<ReDeleteView>,
    i: nat,
) -> bool
    decreases roots.len() - i,
{
    if i >= roots.len() {
        true
    } else {
        let looked = defer_looks(roots, i as int, readings.replies[i as int], records);
        let step = if looked is VerifyEndpoint {
            defer_verifies(i as int, roots.len(), readings.endpoints[i as int])
        } else {
            looked
        };
        if step == DeferStep::Answer(false) {
            false
        } else {
            roots_answer(roots, readings, records, i + 1)
        }
    }
}

/// Objects are left behind only where every root of the phase is gone: absent
/// with its endpoint there, or replaced under a UID whose DELETE was taken.
pub proof fn law_deferral_needs_all_roots_gone(
    roots: Seq<ResourceIdView>,
    readings: RootReadings,
    records: Seq<ReDeleteView>,
    i: nat,
)
    requires
        i <= roots.len(),
    ensures
        roots_answer(roots, readings, records, i) <==> forall|k: int|
            i <= k < roots.len() ==> root_allows(
                #[trigger] roots[k],
                readings.replies[k],
                readings.endpoints[k],
                records,
            ),
    decreases roots.len() - i,
{
    if i < roots.len() {
        law_deferral_needs_all_roots_gone(roots, readings, records, i + 1);
        let allowed = root_allows(
            roots[i as int],
            readings.replies[i as int],
            readings.endpoints[i as int],
            records,
        );
        assert(roots_answer(roots, readings, records, i) == (allowed && roots_answer(
            roots,
            readings,
            records,
            i + 1,
        )));
        if roots_answer(roots, readings, records, i) {
            assert forall|k: int| i <= k < roots.len() implies root_allows(
                #[trigger] roots[k],
                readings.replies[k],
                readings.endpoints[k],
                records,
            ) by {
                if k > i {
                    assert(i + 1 <= k);
                }
            }
        }
    }
}

/// A root that is there under its planned UID never allows objects to be left behind.
pub proof fn law_original_root_blocks(
    root: ResourceIdView,
    o: crate::cluster::LiveObject,
    endpoint_ok: bool,
    records: Seq<ReDeleteView>,
)
    requires
        opt_text(o.uid) == root.uid,
    ensures
        !root_allows(root, Some(GetReply::Found(o)), endpoint_ok, records),
{
}

} // verus!
