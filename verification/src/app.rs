//! The screens of a teardown: which command is allowed on which, and what it does.

use vstd::prelude::*;
use vstd::string::*;

use crate::lists::{ids, lemma_has_id, lemma_pick_take, pick, push_id};
use crate::resource::{contains_id, debug_form, label, ResourceId, ResourceIdView};
use crate::text::{copy_opt, opt_text, push_text, texts};

verus! {

#[derive(Debug, Clone, Copy, PartialEq, Eq, Structural)]
pub enum AppScreen {
    PlanReview,
    Executing,
    ResidualCleanup,
    Paused,
    Finished,
}

/// What was decided on a resource that was up for review.
#[derive(Debug, Clone)]
pub struct DraftOverride {
    pub resource: ResourceId,
    pub original_action: String,
    pub new_action: DraftAction,
}

#[derive(Debug, Clone, Copy, PartialEq, Eq, Structural)]
pub enum DraftAction {
    Delete,
    Keep,
}

#[derive(Debug, Clone)]
pub enum AppCommand {
    ApproveReview { resource: ResourceId },
    KeepReview { resource: ResourceId },
    ToggleFinalizerRecovery,
    StartExecution,
    SelectResidual { resource: ResourceId },
    DeselectResidual { resource: ResourceId },
    DeleteSelected,
    Pause,
    Finish,
}

/// The contents of an [`AppCommand`].
#[verifier::ext_equal]
pub enum CommandView {
    ApproveReview(ResourceIdView),
    KeepReview(ResourceIdView),
    ToggleFinalizerRecovery,
    StartExecution,
    SelectResidual(ResourceIdView),
    DeselectResidual(ResourceIdView),
    DeleteSelected,
    Pause,
    Finish,
}

impl View for AppCommand {
    type V = CommandView;

    open spec fn view(&self) -> CommandView {
        match self {
            AppCommand::ApproveReview { resource } => CommandView::ApproveReview(resource@),
            AppCommand::KeepReview { resource } => CommandView::KeepReview(resource@),
            AppCommand::ToggleFinalizerRecovery => CommandView::ToggleFinalizerRecovery,
            AppCommand::StartExecution => CommandView::StartExecution,
            AppCommand::SelectResidual { resource } => CommandView::SelectResidual(resource@),
            AppCommand::DeselectResidual { resource } => CommandView::DeselectResidual(resource@),
            AppCommand::DeleteSelected => CommandView::DeleteSelected,
            AppCommand::Pause => CommandView::Pause,
            AppCommand::Finish => CommandView::Finish,
        }
    }
}

/// The debug form of a command about one resource.
pub open spec fn about(word: Seq<char>, id: ResourceIdView) -> Seq<char> {
    word + " { resource: "@ + debug_form(id) + " }"@
}

/// The debug form of a command.
pub open spec fn command_text(c: CommandView) -> Seq<char> {
    match c {
        CommandView::ApproveReview(id) => about("ApproveReview"@, id),
        CommandView::KeepReview(id) => about("KeepReview"@, id),
        CommandView::ToggleFinalizerRecovery => "ToggleFinalizerRecovery"@,
        CommandView::StartExecution => "StartExecution"@,
        CommandView::SelectResidual(id) => about("SelectResidual"@, id),
        CommandView::DeselectResidual(id) => about("DeselectResidual"@, id),
        CommandView::DeleteSelected => "DeleteSelected"@,
        CommandView::Pause => "Pause"@,
        CommandView::Finish => "Finish"@,
    }
}

fn about_text(word: &str, id: &ResourceId) -> (r: String)
    ensures
        r@ == about(word@, id@),
{
    word.to_owned().concat(" { resource: ").concat(id.debug_text().as_str()).concat(" }")
}

impl AppCommand {
    /// The debug form of the command.
    pub fn debug_text(&self) -> (r: String)
        ensures
            r@ == command_text(self@),
    {
        match self {
            AppCommand::ApproveReview { resource } => about_text("ApproveReview", resource),
            AppCommand::KeepReview { resource } => about_text("KeepReview", resource),
            AppCommand::ToggleFinalizerRecovery => "ToggleFinalizerRecovery".to_owned(),
            AppCommand::StartExecution => "StartExecution".to_owned(),
            AppCommand::SelectResidual { resource } => about_text("SelectResidual", resource),
            AppCommand::DeselectResidual { resource } => about_text("DeselectResidual", resource),
            AppCommand::DeleteSelected => "DeleteSelected".to_owned(),
            AppCommand::Pause => "Pause".to_owned(),
            AppCommand::Finish => "Finish".to_owned(),
        }
    }
}

/// Why a command is not allowed.
#[derive(Debug, Clone, Copy, PartialEq, Eq, Structural)]
pub enum CommandRefusal {
    /// The plan is not under review.
    NotInReview,
    /// Execution can only be started from the review.
    NotStartable,
    /// Residuals are not being cleaned up.
    NotInCleanup,
    /// Nothing is under way that could be paused.
    NotPausable,
    /// Only a cleanup can be finished.
    NotFinishable,
}

/// A refusal in words.
pub open spec fn refusal_words(r: CommandRefusal) -> Seq<char> {
    match r {
        CommandRefusal::NotInReview => "Plan modifications only allowed in Plan Review screen"@,
        CommandRefusal::NotStartable => "Start only allowed from Plan Review screen"@,
        CommandRefusal::NotInCleanup => {
            "Residual operations only allowed in Residual Cleanup screen"@
        },
        CommandRefusal::NotPausable => {
            "Pause only allowed during Execution or Residual Cleanup"@
        },
        CommandRefusal::NotFinishable => "Finish only allowed from Residual Cleanup screen"@,
    }
}

impl CommandRefusal {
    /// The refusal in words.
    pub fn message(&self) -> (r: &'static str)
        ensures
            r@ == refusal_words(*self),
    {
        match self {
            CommandRefusal::NotInReview => "Plan modifications only allowed in Plan Review screen",
            CommandRefusal::NotStartable => "Start only allowed from Plan Review screen",
            CommandRefusal::NotInCleanup => {
                "Residual operations only allowed in Residual Cleanup screen"
            },
            CommandRefusal::NotPausable => {
                "Pause only allowed during Execution or Residual Cleanup"
            },
            CommandRefusal::NotFinishable => "Finish only allowed from Residual Cleanup screen",
        }
    }
}

#[derive(Debug)]
pub struct AppState {
    pub screen: AppScreen,
    pub draft_overrides: Vec<DraftOverride>,
    pub selected_residuals: Vec<ResourceId>,
    pub execution_error: Option<String>,
    /// Whether finalizers may be stripped; settled once execution starts.
    pub finalizer_recovery_approved: bool,
}

/// The contents of a [`DraftOverride`].
#[verifier::ext_equal]
pub struct OverrideView {
    pub resource: ResourceIdView,
    pub original_action: Seq<char>,
    pub new_action: DraftAction,
}

impl View for DraftOverride {
    type V = OverrideView;

    open spec fn view(&self) -> OverrideView {
        OverrideView {
            resource: self.resource@,
            original_action: self.original_action@,
            new_action: self.new_action,
        }
    }
}

/// The contents of a list of overrides.
pub open spec fn overrides(v: Seq<DraftOverride>) -> Seq<OverrideView> {
    v.map_values(|o: DraftOverride| o@)
}

/// The contents of an [`AppState`].
#[verifier::ext_equal]
pub struct AppView {
    pub screen: AppScreen,
    pub overrides: Seq<OverrideView>,
    pub selected: Seq<ResourceIdView>,
    pub error: Option<Seq<char>>,
    pub recovery_approved: bool,
}

impl View for AppState {
    type V = AppView;

    open spec fn view(&self) -> AppView {
        AppView {
            screen: self.screen,
            overrides: overrides(self.draft_overrides@),
            selected: ids(self.selected_residuals@),
            error: opt_text(self.execution_error),
            recovery_approved: self.finalizer_recovery_approved,
        }
    }
}

impl AppState {
    /// The state in which a teardown begins.
    pub fn new(finalizer_recovery_from_cli: bool) -> (r: AppState)
        ensures
            r@ == (AppView {
                screen: AppScreen::PlanReview,
                overrides: seq![],
                selected: seq![],
                error: None,
                recovery_approved: finalizer_recovery_from_cli,
            }),
    {
        let r = AppState {
            screen: AppScreen::PlanReview,
            draft_overrides: Vec::new(),
            selected_residuals: Vec::new(),
            execution_error: None,
            finalizer_recovery_approved: finalizer_recovery_from_cli,
        };
        assert(r@.overrides =~= seq![]);
        assert(r@.selected =~= seq![]);
        r
    }
}

/// Why a command is not allowed on a screen, or `None`.
pub open spec fn refusal(screen: AppScreen, c: CommandView) -> Option<CommandRefusal> {
    match c {
        CommandView::ApproveReview(_)
        | CommandView::KeepReview(_)
        | CommandView::ToggleFinalizerRecovery => if screen == AppScreen::PlanReview {
            None
        } else {
            Some(CommandRefusal::NotInReview)
        },
        CommandView::StartExecution => if screen == AppScreen::PlanReview {
            None
        } else {
            Some(CommandRefusal::NotStartable)
        },
        CommandView::SelectResidual(_)
        | CommandView::DeselectResidual(_)
        | CommandView::DeleteSelected => if screen == AppScreen::ResidualCleanup {
            None
        } else {
            Some(CommandRefusal::NotInCleanup)
        },
        CommandView::Pause => if screen == AppScreen::Executing || screen
            == AppScreen::ResidualCleanup {
            None
        } else {
            Some(CommandRefusal::NotPausable)
        },
        CommandView::Finish => if screen == AppScreen::ResidualCleanup {
            None
        } else {
            Some(CommandRefusal::NotFinishable)
        },
    }
}

/// What a check says.
pub open spec fn refused(r: Result<(), CommandRefusal>) -> Option<CommandRefusal> {
    match r {
        Ok(_) => None,
        Err(e) => Some(e),
    }
}

/// Refuses a command that the screen does not allow.
pub fn validate_command(state: &AppState, cmd: &AppCommand) -> (r: Result<(), CommandRefusal>)
    ensures
        refused(r) == refusal(state.screen, cmd@),
{
    match cmd {
        AppCommand::ApproveReview { .. }
        | AppCommand::KeepReview { .. }
        | AppCommand::ToggleFinalizerRecovery => {
            if state.screen != AppScreen::PlanReview {
                return Err(CommandRefusal::NotInReview);
            }
        },
        AppCommand::StartExecution => {
            if state.screen != AppScreen::PlanReview {
                return Err(CommandRefusal::NotStartable);
            }
        },
        AppCommand::SelectResidual { .. }
        | AppCommand::DeselectResidual { .. }
        | AppCommand::DeleteSelected => {
            if state.screen != AppScreen::ResidualCleanup {
                return Err(CommandRefusal::NotInCleanup);
            }
        },
        AppCommand::Pause => {
            if state.screen != AppScreen::Executing && state.screen != AppScreen::ResidualCleanup {
                return Err(CommandRefusal::NotPausable);
            }
        },
        AppCommand::Finish => {
            if state.screen != AppScreen::ResidualCleanup {
                return Err(CommandRefusal::NotFinishable);
            }
        },
    }
    Ok(())
}

/// The overrides of other resources.
pub open spec fn others(s: Seq<OverrideView>, id: ResourceIdView) -> Seq<OverrideView> {
    pick(
        s,
        |o: OverrideView|
            if o.resource == id {
                None
            } else {
                Some(o)
            },
    )
}

/// The overrides with this one in the place of any earlier one on the resource.
pub open spec fn overridden(s: Seq<OverrideView>, id: ResourceIdView, action: DraftAction) -> Seq<
    OverrideView,
> {
    others(s, id).push(
        OverrideView { resource: id, original_action: "Review"@, new_action: action },
    )
}

/// The selection without a resource.
pub open spec fn deselected(s: Seq<ResourceIdView>, id: ResourceIdView) -> Seq<ResourceIdView> {
    pick(
        s,
        |r: ResourceIdView|
            if r == id {
                None
            } else {
                Some(r)
            },
    )
}

/// The state after a command that is allowed.
pub open spec fn applied(v: AppView, c: CommandView) -> AppView {
    match c {
        CommandView::ApproveReview(id) => AppView {
            overrides: overridden(v.overrides, id, DraftAction::Delete),
            ..v
        },
        CommandView::KeepReview(id) => AppView {
            overrides: overridden(v.overrides, id, DraftAction::Keep),
            ..v
        },
        CommandView::ToggleFinalizerRecovery => AppView {
            recovery_approved: !v.recovery_approved,
            ..v
        },
        CommandView::StartExecution => AppView { screen: AppScreen::Executing, ..v },
        CommandView::SelectResidual(id) => if v.selected.contains(id) {
            v
        } else {
            AppView { selected: v.selected.push(id), ..v }
        },
        CommandView::DeselectResidual(id) => AppView { selected: deselected(v.selected, id), ..v },
        CommandView::DeleteSelected => v,
        CommandView::Pause => AppView { screen: AppScreen::Paused, ..v },
        CommandView::Finish => AppView { screen: AppScreen::Finished, ..v },
    }
}

/// The state after a command; one that is not allowed changes nothing.
pub open spec fn after(v: AppView, c: CommandView) -> AppView {
    if refusal(v.screen, c) is None {
        applied(v, c)
    } else {
        v
    }
}

fn override_review(list: &mut Vec<DraftOverride>, id: &ResourceId, action: DraftAction)
    ensures
        overrides(final(list)@) == overridden(overrides(old(list)@), id@, action),
{
    let ghost all = overrides(list@);
    let ghost f = |o: OverrideView|
        if o.resource == id@ {
            None
        } else {
            Some(o)
        };
    let mut kept: Vec<DraftOverride> = Vec::new();
    assert(all.take(0) =~= seq![]);
    assert(overrides(kept@) =~= seq![]);
    for i in 0..list.len()
        invariant
            all == overrides(list@),
            list@ == old(list)@,
            f == (|o: OverrideView|
                if o.resource == id@ {
                    None
                } else {
                    Some(o)
                }),
            overrides(kept@) == pick(all.take(i as int), f),
    {
        proof {
            lemma_pick_take(all, f, i as int);
        }
        let o: &DraftOverride = &list[i];
        assert(all[i as int] == o@);
        if !o.resource.same(id) {
            let ghost before = kept@;
            let copy = DraftOverride {
                resource: o.resource.clone(),
                original_action: o.original_action.clone(),
                new_action: o.new_action,
            };
            let ghost view = copy@;
            kept.push(copy);
            assert(view == o@);
            assert(overrides(kept@) =~= overrides(before).push(view));
        }
    }
    assert(all.take(all.len() as int) =~= all);
    assert(overrides(kept@) == others(all, id@));
    let ghost before = kept@;
    let added = DraftOverride {
        resource: id.clone(),
        original_action: "Review".to_owned(),
        new_action: action,
    };
    let ghost view = added@;
    kept.push(added);
    assert(overrides(kept@) =~= overrides(before).push(view));
    *list = kept;
}

fn deselect(list: &mut Vec<ResourceId>, id: &ResourceId)
    ensures
        ids(final(list)@) == deselected(ids(old(list)@), id@),
{
    let ghost all = ids(list@);
    let ghost f = |r: ResourceIdView|
        if r == id@ {
            None
        } else {
            Some(r)
        };
    let mut kept: Vec<ResourceId> = Vec::new();
    assert(all.take(0) =~= seq![]);
    assert(ids(kept@) =~= seq![]);
    for i in 0..list.len()
        invariant
            all == ids(list@),
            list@ == old(list)@,
            f == (|r: ResourceIdView|
                if r == id@ {
                    None
                } else {
                    Some(r)
                }),
            ids(kept@) == pick(all.take(i as int), f),
    {
        proof {
            lemma_pick_take(all, f, i as int);
        }
        assert(all[i as int] == list@[i as int]@);
        if !list[i].same(id) {
            push_id(&mut kept, &list[i]);
        }
    }
    assert(all.take(all.len() as int) =~= all);
    *list = kept;
}

/// Carries out a command. One that is not allowed changes nothing.
pub fn apply_command(state: &mut AppState, cmd: &AppCommand) -> (r: Result<(), CommandRefusal>)
    ensures
        refused(r) == refusal(old(state).screen, cmd@),
        final(state)@ == after(old(state)@, cmd@),
{
    match validate_command(state, cmd) {
        Ok(_) => {},
        Err(e) => {
            return Err(e);
        },
    }
    match cmd {
        AppCommand::ApproveReview { resource } => {
            override_review(&mut state.draft_overrides, resource, DraftAction::Delete);
        },
        AppCommand::KeepReview { resource } => {
            override_review(&mut state.draft_overrides, resource, DraftAction::Keep);
        },
        AppCommand::ToggleFinalizerRecovery => {
            state.finalizer_recovery_approved = !state.finalizer_recovery_approved;
        },
        AppCommand::StartExecution => {
            state.screen = AppScreen::Executing;
        },
        AppCommand::SelectResidual { resource } => {
            proof {
                lemma_has_id(state.selected_residuals@, resource@);
            }
            if !contains_id(&state.selected_residuals, resource) {
                push_id(&mut state.selected_residuals, resource);
            }
        },
        AppCommand::DeselectResidual { resource } => {
            deselect(&mut state.selected_residuals, resource);
        },
        AppCommand::DeleteSelected => {},
        AppCommand::Pause => {
            state.screen = AppScreen::Paused;
        },
        AppCommand::Finish => {
            state.screen = AppScreen::Finished;
        },
    }
    Ok(())
}

/// What is shown of a state.
#[derive(Debug, Clone)]
pub struct AppStateSnapshot {
    pub screen: AppScreen,
    pub draft_override_count: usize,
    pub draft_overrides: Vec<DraftOverrideSnapshot>,
    pub selected_residual_count: usize,
    pub selected_residuals: Vec<String>,
    pub execution_error: Option<String>,
    pub finalizer_recovery_approved: bool,
}

#[derive(Debug, Clone)]
pub struct DraftOverrideSnapshot {
    pub resource: String,
    pub action: DraftAction,
}

/// The contents of an [`AppStateSnapshot`].
#[verifier::ext_equal]
pub struct SnapshotView {
    pub screen: AppScreen,
    pub override_count: nat,
    pub overrides: Seq<(Seq<char>, DraftAction)>,
    pub selected_count: nat,
    pub selected: Seq<Seq<char>>,
    pub error: Option<Seq<char>>,
    pub recovery_approved: bool,
}

/// The contents of a list of shown overrides.
pub open spec fn shown_overrides(v: Seq<DraftOverrideSnapshot>) -> Seq<(Seq<char>, DraftAction)> {
    v.map_values(|o: DraftOverrideSnapshot| (o.resource@, o.action))
}

impl View for AppStateSnapshot {
    type V = SnapshotView;

    open spec fn view(&self) -> SnapshotView {
        SnapshotView {
            screen: self.screen,
            override_count: self.draft_override_count as nat,
            overrides: shown_overrides(self.draft_overrides@),
            selected_count: self.selected_residual_count as nat,
            selected: texts(self.selected_residuals@),
            error: opt_text(self.execution_error),
            recovery_approved: self.finalizer_recovery_approved,
        }
    }
}

/// What is shown of a state.
pub open spec fn snapshot(v: AppView) -> SnapshotView {
    SnapshotView {
        screen: v.screen,
        override_count: v.overrides.len(),
        overrides: v.overrides.map_values(
            |o: OverrideView| (label(o.resource), o.new_action),
        ),
        selected_count: v.selected.len(),
        selected: v.selected.map_values(|r: ResourceIdView| label(r)),
        error: v.error,
        recovery_approved: v.recovery_approved,
    }
}

impl AppStateSnapshot {
    /// What is shown of `state`.
    pub fn from(state: &AppState) -> (r: AppStateSnapshot)
        ensures
            r@ == snapshot(state@),
    {
        let drafts: &Vec<DraftOverride> = &state.draft_overrides;
        let ghost want = snapshot(state@);
        let mut shown: Vec<DraftOverrideSnapshot> = Vec::new();
        assert(shown_overrides(shown@) =~= want.overrides.take(0));
        for i in 0..drafts.len()
            invariant
                want == snapshot(state@),
                drafts@ == state.draft_overrides@,
                shown_overrides(shown@) == want.overrides.take(i as int),
        {
            let ghost list = shown@;
            let one = DraftOverrideSnapshot {
                resource: drafts[i].resource.label(),
                action: drafts[i].new_action,
            };
            let ghost entry = (one.resource@, one.action);
            shown.push(one);
            assert(state@.overrides[i as int] == drafts@[i as int]@);
            assert(want.overrides[i as int] == entry);
            assert(shown_overrides(shown@) =~= shown_overrides(list).push(entry));
            assert(want.overrides.take(i + 1) =~= want.overrides.take(i as int).push(entry));
        }
        assert(want.overrides.take(want.overrides.len() as int) =~= want.overrides);
        let picked: &Vec<ResourceId> = &state.selected_residuals;
        let mut names: Vec<String> = Vec::new();
        assert(texts(names@) =~= want.selected.take(0));
        for i in 0..picked.len()
            invariant
                want == snapshot(state@),
                picked@ == state.selected_residuals@,
                texts(names@) == want.selected.take(i as int),
        {
            push_text(&mut names, picked[i].label());
            assert(state@.selected[i as int] == picked@[i as int]@);
            assert(want.selected[i as int] == label(picked@[i as int]@));
            assert(want.selected.take(i + 1) =~= want.selected.take(i as int).push(
                want.selected[i as int],
            ));
        }
        assert(want.selected.take(want.selected.len() as int) =~= want.selected);
        AppStateSnapshot {
            screen: state.screen,
            draft_override_count: drafts.len(),
            draft_overrides: shown,
            selected_residual_count: picked.len(),
            selected_residuals: names,
            execution_error: copy_opt(&state.execution_error),
            finalizer_recovery_approved: state.finalizer_recovery_approved,
        }
    }
}

/// Every resource has at most one override.
pub open spec fn one_each(s: Seq<OverrideView>) -> bool {
    forall|i: int, j: int|
        #![trigger s[i], s[j]]
        0 <= i < j < s.len() ==> s[i].resource != s[j].resource
}

/// Nothing is selected twice.
pub open spec fn all_different(s: Seq<ResourceIdView>) -> bool {
    forall|i: int, j: int| #![trigger s[i], s[j]] 0 <= i < j < s.len() ==> s[i] != s[j]
}

proof fn lemma_others(s: Seq<OverrideView>, id: ResourceIdView)
    ensures
        forall|i: int| 0 <= i < others(s, id).len() ==> (#[trigger] others(s, id)[i]).resource != id,
        forall|o: OverrideView| #[trigger]
            others(s, id).contains(o) <==> s.contains(o) && o.resource != id,
        one_each(s) ==> one_each(others(s, id)),
    decreases s.len(),
{
    if s.len() > 0 {
        let front = s.drop_last();
        let last = s.last();
        let rest = others(front, id);
        lemma_others(front, id);
        assert(s =~= front.push(last));
        assert(one_each(s) ==> one_each(front)) by {
            if one_each(s) {
                assert forall|i: int, j: int|
                    #![trigger front[i], front[j]]
                    0 <= i < j < front.len() implies front[i].resource != front[j].resource by {
                    assert(s[i].resource != s[j].resource);
                }
            }
        }
        assert forall|o: OverrideView| #[trigger] s.contains(o) <==> front.contains(o) || o == last by {
            if front.contains(o) {
                let k = choose|k: int| 0 <= k < front.len() && front[k] == o;
                assert(s[k] == o);
            }
            if o == last {
                assert(s[s.len() - 1] == o);
            }
            if s.contains(o) && o != last {
                let k = choose|k: int| 0 <= k < s.len() && s[k] == o;
                assert(front[k] == o);
            }
        }
        if last.resource != id {
            let whole = rest.push(last);
            assert(others(s, id) == whole);
            assert forall|o: OverrideView| #[trigger] whole.contains(o) <==> rest.contains(o) || o
                == last by {
                if rest.contains(o) {
                    let k = choose|k: int| 0 <= k < rest.len() && rest[k] == o;
                    assert(whole[k] == o);
                }
                if o == last {
                    assert(whole[rest.len() as int] == o);
                }
                if whole.contains(o) && o != last {
                    let k = choose|k: int| 0 <= k < whole.len() && whole[k] == o;
                    assert(rest[k] == o);
                }
            }
            if one_each(s) {
                assert forall|i: int, j: int|
                    #![trigger whole[i], whole[j]]
                    0 <= i < j < whole.len() implies whole[i].resource != whole[j].resource by {
                    assert(whole[i] == rest[i]);
                    assert(rest.contains(rest[i]));
                    if j == rest.len() {
                        assert(front.contains(rest[i]));
                        let k = choose|k: int| 0 <= k < front.len() && front[k] == rest[i];
                        assert(s[k].resource != s[s.len() - 1].resource);
                    } else {
                        assert(rest[i].resource != rest[j].resource);
                    }
                }
            }
        } else {
            assert(others(s, id) == rest);
        }
    }
}

proof fn lemma_deselected(s: Seq<ResourceIdView>, id: ResourceIdView)
    ensures
        forall|t: ResourceIdView| #[trigger]
            deselected(s, id).contains(t) <==> s.contains(t) && t != id,
        all_different(s) ==> all_different(deselected(s, id)),
        !s.contains(id) ==> deselected(s, id) == s,
    decreases s.len(),
{
    if s.len() > 0 {
        let front = s.drop_last();
        let last = s.last();
        let rest = deselected(front, id);
        lemma_deselected(front, id);
        assert(s =~= front.push(last));
        assert(all_different(s) ==> all_different(front)) by {
            if all_different(s) {
                assert forall|i: int, j: int|
                    #![trigger front[i], front[j]]
                    0 <= i < j < front.len() implies front[i] != front[j] by {
                    assert(s[i] != s[j]);
                }
            }
        }
        assert forall|t: ResourceIdView| #[trigger] s.contains(t) <==> front.contains(t) || t == last by {
            if front.contains(t) {
                let k = choose|k: int| 0 <= k < front.len() && front[k] == t;
                assert(s[k] == t);
            }
            if t == last {
                assert(s[s.len() - 1] == t);
            }
            if s.contains(t) && t != last {
                let k = choose|k: int| 0 <= k < s.len() && s[k] == t;
                assert(front[k] == t);
            }
        }
        if last != id {
            let whole = rest.push(last);
            assert(deselected(s, id) == whole);
            assert forall|t: ResourceIdView| #[trigger] whole.contains(t) <==> rest.contains(t) || t
                == last by {
                if rest.contains(t) {
                    let k = choose|k: int| 0 <= k < rest.len() && rest[k] == t;
                    assert(whole[k] == t);
                }
                if t == last {
                    assert(whole[rest.len() as int] == t);
                }
                if whole.contains(t) && t != last {
                    let k = choose|k: int| 0 <= k < whole.len() && whole[k] == t;
                    assert(rest[k] == t);
                }
            }
            if all_different(s) {
                assert forall|i: int, j: int|
                    #![trigger whole[i], whole[j]]
                    0 <= i < j < whole.len() implies whole[i] != whole[j] by {
                    assert(whole[i] == rest[i]);
                    assert(rest.contains(rest[i]));
                    if j == rest.len() {
                        assert(front.contains(rest[i]));
                        let k = choose|k: int| 0 <= k < front.len() && front[k] == rest[i];
                        assert(s[k] != s[s.len() - 1]);
                    } else {
                        assert(rest[i] != rest[j]);
                    }
                }
            }
            if !s.contains(id) {
                assert(!front.contains(id));
                assert(whole =~= s);
            }
        } else {
            assert(deselected(s, id) == rest);
            assert(s.contains(id));
        }
    }
}

/// A command that is not allowed leaves everything as it was.
pub proof fn law_refused_command_changes_nothing(v: AppView, c: CommandView)
    requires
        refusal(v.screen, c) is Some,
    ensures
        after(v, c) == v,
{
}

/// Every resource has at most one override and nothing is selected twice, after
/// every command.
pub proof fn law_drafts_and_selection_stay_distinct(v: AppView, c: CommandView)
    requires
        one_each(v.overrides),
        all_different(v.selected),
    ensures
        one_each(after(v, c).overrides),
        all_different(after(v, c).selected),
{
    match c {
        CommandView::ApproveReview(id) | CommandView::KeepReview(id) => {
            lemma_others(v.overrides, id);
            let rest = others(v.overrides, id);
            let whole = after(v, c).overrides;
            if refusal(v.screen, c) is None {
                assert forall|i: int, j: int|
                    #![trigger whole[i], whole[j]]
                    0 <= i < j < whole.len() implies whole[i].resource != whole[j].resource by {
                    assert(whole[i] == rest[i]);
                    if j < rest.len() {
                        assert(whole[j] == rest[j]);
                    }
                }
            }
        },
        CommandView::SelectResidual(id) => {
            let whole = after(v, c).selected;
            if whole != v.selected {
                assert forall|i: int, j: int|
                    #![trigger whole[i], whole[j]]
                    0 <= i < j < whole.len() implies whole[i] != whole[j] by {
                    assert(whole[i] == v.selected[i]);
                    assert(v.selected.contains(v.selected[i]));
                    if j < v.selected.len() {
                        assert(whole[j] == v.selected[j]);
                    }
                }
            }
        },
        CommandView::DeselectResidual(id) => {
            lemma_deselected(v.selected, id);
        },
        _ => {},
    }
}

/// The last decision on a resource is the one that counts, and it touches no other
/// resource.
pub proof fn law_last_decision_counts(
    v: AppView,
    id: ResourceIdView,
    action: DraftAction,
    o: OverrideView,
)
    requires
        v.screen == AppScreen::PlanReview,
    ensures
        ({
            let c = if action == DraftAction::Delete {
                CommandView::ApproveReview(id)
            } else {
                CommandView::KeepReview(id)
            };
            let n = after(v, c).overrides;
            &&& o.resource == id ==> (n.contains(o) <==> o == (OverrideView {
                resource: id,
                original_action: "Review"@,
                new_action: action,
            }))
            &&& o.resource != id ==> (n.contains(o) <==> v.overrides.contains(o))
        }),
{
    lemma_others(v.overrides, id);
    let rest = others(v.overrides, id);
    let added = OverrideView { resource: id, original_action: "Review"@, new_action: action };
    let n = rest.push(added);
    assert(n[rest.len() as int] == added);
    if rest.contains(o) {
        let k = choose|k: int| 0 <= k < rest.len() && rest[k] == o;
        assert(n[k] == o);
    }
    if n.contains(o) && o != added {
        let k = choose|k: int| 0 <= k < n.len() && n[k] == o;
        assert(rest[k] == o);
    }
}

/// Selecting twice is selecting once.
pub proof fn law_select_is_idempotent(v: AppView, id: ResourceIdView)
    ensures
        after(after(v, CommandView::SelectResidual(id)), CommandView::SelectResidual(id)) == after(
            v,
            CommandView::SelectResidual(id),
        ),
{
    let s = v.selected.push(id);
    assert(s[v.selected.len() as int] == id);
}

/// Deselecting undoes selecting.
pub proof fn law_deselect_undoes_select(v: AppView, id: ResourceIdView)
    requires
        !v.selected.contains(id),
    ensures
        after(after(v, CommandView::SelectResidual(id)), CommandView::DeselectResidual(id)) == v,
{
    lemma_deselected(v.selected, id);
    let s = v.selected.push(id);
    assert(s.drop_last() =~= v.selected);
    assert(deselected(s, id) == deselected(v.selected, id));
}

/// A deselected resource is not selected, and every other one stays as it was.
pub proof fn law_deselect_is_exact(v: AppView, id: ResourceIdView, t: ResourceIdView)
    requires
        v.screen == AppScreen::ResidualCleanup,
    ensures
        after(v, CommandView::DeselectResidual(id)).selected.contains(t) <==> v.selected.contains(t)
            && t != id,
{
    lemma_deselected(v.selected, id);
}

/// Toggling twice changes nothing.
pub proof fn law_toggle_twice(v: AppView)
    ensures
        after(
            after(v, CommandView::ToggleFinalizerRecovery),
            CommandView::ToggleFinalizerRecovery,
        ) == v,
{
}

/// Once execution has started, no command changes the decisions on the plan or the
/// approval of finalizer recovery, and none leads back to the review.
pub proof fn law_plan_is_settled_at_start(v: AppView, c: CommandView)
    requires
        v.screen != AppScreen::PlanReview,
    ensures
        after(v, c).overrides == v.overrides,
        after(v, c).recovery_approved == v.recovery_approved,
        after(v, c).screen != AppScreen::PlanReview,
{
}

/// No command is allowed any more once the run is paused or finished.
pub proof fn law_paused_and_finished_take_no_command(v: AppView, c: CommandView)
    requires
        v.screen == AppScreen::Paused || v.screen == AppScreen::Finished,
    ensures
        refusal(v.screen, c) is Some,
        after(v, c) == v,
{
}

/// Which command is allowed on which screen: decisions on the plan, the toggle and the
/// start in the review; selecting, deselecting, deleting and finishing in the cleanup;
/// pausing during execution and in the cleanup. Nothing else is.
pub proof fn law_where_commands_are_allowed(screen: AppScreen, id: ResourceIdView)
    ensures
        refusal(screen, CommandView::ApproveReview(id)) is None <==> screen is PlanReview,
        refusal(screen, CommandView::KeepReview(id)) is None <==> screen is PlanReview,
        refusal(screen, CommandView::ToggleFinalizerRecovery) is None <==> screen is PlanReview,
        refusal(screen, CommandView::StartExecution) is None <==> screen is PlanReview,
        refusal(screen, CommandView::SelectResidual(id)) is None <==> screen is ResidualCleanup,
        refusal(screen, CommandView::DeselectResidual(id)) is None <==> screen is ResidualCleanup,
        refusal(screen, CommandView::DeleteSelected) is None <==> screen is ResidualCleanup,
        refusal(screen, CommandView::Finish) is None <==> screen is ResidualCleanup,
        refusal(screen, CommandView::Pause) is None <==> screen is Executing || screen
            is ResidualCleanup,
{
}

/// What the commands do: starting leads to the execution, pausing to the pause and
/// finishing to the end, each with everything else as it was; the toggle turns the
/// approval of finalizer recovery round and changes nothing else; selecting adds the
/// resource at the end and changes nothing else; deleting the selection changes
/// nothing by itself.
pub proof fn law_what_commands_do(v: AppView, id: ResourceIdView)
    ensures
        v.screen is PlanReview ==> after(v, CommandView::StartExecution) == (AppView {
            screen: AppScreen::Executing,
            ..v
        }),
        v.screen is PlanReview ==> after(v, CommandView::ToggleFinalizerRecovery) == (AppView {
            recovery_approved: !v.recovery_approved,
            ..v
        }),
        v.screen is Executing || v.screen is ResidualCleanup ==> after(v, CommandView::Pause) == (
        AppView { screen: AppScreen::Paused, ..v }),
        v.screen is ResidualCleanup ==> after(v, CommandView::Finish) == (AppView {
            screen: AppScreen::Finished,
            ..v
        }),
        v.screen is ResidualCleanup && !v.selected.contains(id) ==> after(
            v,
            CommandView::SelectResidual(id),
        ) == (AppView { selected: v.selected.push(id), ..v }),
        v.screen is ResidualCleanup && v.selected.contains(id) ==> after(
            v,
            CommandView::SelectResidual(id),
        ) == v,
        after(v, CommandView::DeleteSelected) == v,
        ({
            let n = after(v, CommandView::DeselectResidual(id));
            n.screen == v.screen && n.overrides == v.overrides && n.error == v.error
                && n.recovery_approved == v.recovery_approved
        }),
        ({
            let n = after(v, CommandView::ApproveReview(id));
            n.screen == v.screen && n.selected == v.selected && n.error == v.error
                && n.recovery_approved == v.recovery_approved
        }),
        ({
            let n = after(v, CommandView::KeepReview(id));
            n.screen == v.screen && n.selected == v.selected && n.error == v.error
                && n.recovery_approved == v.recovery_approved
        }),
{
}

/// What is shown of a state is true of it: the screen, the error and the approval as
/// they are, each override as kind and name with its action, each selected resource as
/// kind and name, in their order, and how many there are.
pub proof fn law_snapshot_is_true(v: AppView, i: int)
    ensures
        snapshot(v).screen == v.screen,
        snapshot(v).error == v.error,
        snapshot(v).recovery_approved == v.recovery_approved,
        snapshot(v).override_count == v.overrides.len(),
        snapshot(v).overrides.len() == v.overrides.len(),
        snapshot(v).selected_count == v.selected.len(),
        snapshot(v).selected.len() == v.selected.len(),
        0 <= i < v.overrides.len() ==> snapshot(v).overrides[i].0 == v.overrides[i].resource.kind
            + "/"@ + v.overrides[i].resource.name && snapshot(v).overrides[i].1
            == v.overrides[i].new_action,
        0 <= i < v.selected.len() ==> snapshot(v).selected[i] == v.selected[i].kind + "/"@
            + v.selected[i].name,
{
}

/// What is said of a refused command.
pub proof fn law_refusals_in_words()
    ensures
        refusal_words(CommandRefusal::NotInReview)
            == "Plan modifications only allowed in Plan Review screen"@,
        refusal_words(CommandRefusal::NotStartable)
            == "Start only allowed from Plan Review screen"@,
        refusal_words(CommandRefusal::NotInCleanup)
            == "Residual operations only allowed in Residual Cleanup screen"@,
        refusal_words(CommandRefusal::NotPausable)
            == "Pause only allowed during Execution or Residual Cleanup"@,
        refusal_words(CommandRefusal::NotFinishable)
            == "Finish only allowed from Residual Cleanup screen"@,
{
}

} // verus!
