//! How a wait for objects to be gone ends, and what is known of an object meanwhile.

use vstd::prelude::*;

use crate::planner::Action;
use crate::resource::ResourceId;

verus! {

/// How a wait for a list of objects ended.
#[derive(Debug)]
pub enum WatchWaitResult {
    /// Every object is gone.
    AllGone,
    /// The wait was called off.
    Cancelled,
    /// Nothing has changed for too long.
    Stalled {
        remaining: Vec<ResourceId>,
        /// The number of finalizers that an object carries.
        finalizer_details: Vec<(ResourceId, usize)>,
        reason: String,
    },
    /// An object is gone, and another of the same name has taken its place.
    Recreated {
        remaining: Vec<ResourceId>,
        /// The object, the UID that it had and the UID that it has now.
        recreated: Vec<(ResourceId, String, String)>,
    },
}

/// What is known of an object while a plan runs.
#[derive(Debug, Clone, PartialEq, Eq)]
pub enum ResourceRuntimeState {
    Planned,
    ExpectingGone,
    Keep,
    Review,
    DeleteRequested,
    Deleting,
    FinalizerBlocked { count: usize },
    Stalled,
    Gone,
    Failed { reason: String },
    Unknown { reason: String },
}

/// What is known of the object of an action before the plan runs.
pub open spec fn state_before(a: Action) -> ResourceRuntimeState {
    match a {
        Action::Delete { .. } => ResourceRuntimeState::Planned,
        Action::ExpectGone { .. } => ResourceRuntimeState::ExpectingGone,
        Action::WaitGone { .. } => ResourceRuntimeState::ExpectingGone,
        Action::Keep { .. } => ResourceRuntimeState::Keep,
        Action::Review { .. } => ResourceRuntimeState::Review,
    }
}

/// What is known of the object of an action before the plan runs.
pub fn planned_state(action: &Action) -> (r: ResourceRuntimeState)
    ensures
        r == state_before(*action),
{
    match action {
        Action::Delete { .. } => ResourceRuntimeState::Planned,
        Action::ExpectGone { .. } | Action::WaitGone { .. } => ResourceRuntimeState::ExpectingGone,
        Action::Keep { .. } => ResourceRuntimeState::Keep,
        Action::Review { .. } => ResourceRuntimeState::Review,
    }
}

/// Before a run, what is to be deleted is planned, what is expected to go or waited for
/// is expected to be gone, and what is kept or left for review is that.
pub proof fn law_state_before_a_run(a: Action)
    ensures
        a is Delete <==> state_before(a) is Planned,
        a is ExpectGone || a is WaitGone <==> state_before(a) is ExpectingGone,
        a is Keep <==> state_before(a) is Keep,
        a is Review <==> state_before(a) is Review,
{
}

} // verus!
