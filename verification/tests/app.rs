//! The screens and their commands.

use teardown::app::{
    apply_command, validate_command, AppCommand, AppScreen, AppState, AppStateSnapshot,
    CommandRefusal, DraftAction,
};
use teardown::resource::ResourceId;

fn res(name: &str) -> ResourceId {
    ResourceId {
        group: "test.io".to_string(),
        version: "v1".to_string(),
        kind: "Thing".to_string(),
        namespace: Some("ns".to_string()),
        name: name.to_string(),
        uid: Some(format!("uid-{}", name)),
    }
}

// ── Plan Review ──

#[test]
fn test_approve_review_in_plan_review() {
    let mut s = AppState::new(false);
    assert!(apply_command(&mut s, &AppCommand::ApproveReview { resource: res("a") }).is_ok());
    assert_eq!(s.draft_overrides.len(), 1);
    assert_eq!(s.draft_overrides[0].new_action, DraftAction::Delete);
}

#[test]
fn test_keep_review_in_plan_review() {
    let mut s = AppState::new(false);
    assert!(apply_command(&mut s, &AppCommand::KeepReview { resource: res("b") }).is_ok());
    assert_eq!(s.draft_overrides.len(), 1);
    assert_eq!(s.draft_overrides[0].new_action, DraftAction::Keep);
}

#[test]
fn test_override_replaces_previous() {
    let mut s = AppState::new(false);
    apply_command(&mut s, &AppCommand::ApproveReview { resource: res("a") }).unwrap();
    apply_command(&mut s, &AppCommand::KeepReview { resource: res("a") }).unwrap();
    assert_eq!(s.draft_overrides.len(), 1);
    assert_eq!(s.draft_overrides[0].new_action, DraftAction::Keep);
}

#[test]
fn test_start_transitions_to_executing() {
    let mut s = AppState::new(false);
    apply_command(&mut s, &AppCommand::StartExecution).unwrap();
    assert_eq!(s.screen, AppScreen::Executing);
}

// ── Execution rejects plan changes ──

#[test]
fn test_execution_rejects_approve() {
    let mut s = AppState::new(false);
    s.screen = AppScreen::Executing;
    assert!(apply_command(&mut s, &AppCommand::ApproveReview { resource: res("a") }).is_err());
}

#[test]
fn test_execution_rejects_keep() {
    let mut s = AppState::new(false);
    s.screen = AppScreen::Executing;
    assert!(apply_command(&mut s, &AppCommand::KeepReview { resource: res("a") }).is_err());
}

#[test]
fn test_execution_rejects_start() {
    let mut s = AppState::new(false);
    s.screen = AppScreen::Executing;
    assert!(apply_command(&mut s, &AppCommand::StartExecution).is_err());
}

// ── Residual Cleanup ──

#[test]
fn test_residual_select_requires_cleanup_screen() {
    let mut s = AppState::new(false); // PlanReview
    assert!(apply_command(&mut s, &AppCommand::SelectResidual { resource: res("x") }).is_err());
}

#[test]
fn test_residual_select_deselect() {
    let mut s = AppState::new(false);
    s.screen = AppScreen::ResidualCleanup;
    apply_command(&mut s, &AppCommand::SelectResidual { resource: res("a") }).unwrap();
    assert_eq!(s.selected_residuals.len(), 1);
    apply_command(&mut s, &AppCommand::DeselectResidual { resource: res("a") }).unwrap();
    assert_eq!(s.selected_residuals.len(), 0);
}

#[test]
fn test_residual_select_idempotent() {
    let mut s = AppState::new(false);
    s.screen = AppScreen::ResidualCleanup;
    apply_command(&mut s, &AppCommand::SelectResidual { resource: res("a") }).unwrap();
    apply_command(&mut s, &AppCommand::SelectResidual { resource: res("a") }).unwrap();
    assert_eq!(s.selected_residuals.len(), 1);
}

#[test]
fn test_delete_selected_requires_cleanup_screen() {
    let mut s = AppState::new(false);
    s.screen = AppScreen::Executing;
    assert!(apply_command(&mut s, &AppCommand::DeleteSelected).is_err());
}

// ── Pause ──

#[test]
fn test_pause_from_executing() {
    let mut s = AppState::new(false);
    s.screen = AppScreen::Executing;
    apply_command(&mut s, &AppCommand::Pause).unwrap();
    assert_eq!(s.screen, AppScreen::Paused);
}

#[test]
fn test_pause_from_residual_cleanup() {
    let mut s = AppState::new(false);
    s.screen = AppScreen::ResidualCleanup;
    apply_command(&mut s, &AppCommand::Pause).unwrap();
    assert_eq!(s.screen, AppScreen::Paused);
}

#[test]
fn test_pause_from_plan_review_rejected() {
    let mut s = AppState::new(false);
    assert!(apply_command(&mut s, &AppCommand::Pause).is_err());
}

// ── Finish ──

#[test]
fn test_finish_only_from_residual_cleanup() {
    let mut s = AppState::new(false);
    s.screen = AppScreen::ResidualCleanup;
    apply_command(&mut s, &AppCommand::Finish).unwrap();
    assert_eq!(s.screen, AppScreen::Finished);
}

#[test]
fn test_finish_rejected_from_other_screens() {
    for screen in [
        AppScreen::PlanReview,
        AppScreen::Executing,
        AppScreen::Paused,
    ] {
        let mut s = AppState::new(false);
        s.screen = screen.clone();
        assert!(
            apply_command(&mut s, &AppCommand::Finish).is_err(),
            "Finish must be rejected from {:?}",
            screen
        );
    }
}

// ── Snapshot ──

#[test]
fn test_snapshot_reflects_state() {
    let mut s = AppState::new(false);
    apply_command(&mut s, &AppCommand::ApproveReview { resource: res("x") }).unwrap();
    let snap = AppStateSnapshot::from(&s);
    assert_eq!(snap.screen, AppScreen::PlanReview);
    assert_eq!(snap.draft_override_count, 1);
    assert_eq!(snap.draft_overrides[0].resource, "Thing/x");
    assert!(!snap.finalizer_recovery_approved);
}

#[test]
fn snapshot_reflects_toggle_finalizer_recovery() {
    let mut s = AppState::new(false);
    assert!(!AppStateSnapshot::from(&s).finalizer_recovery_approved);
    apply_command(&mut s, &AppCommand::ToggleFinalizerRecovery).unwrap();
    assert!(AppStateSnapshot::from(&s).finalizer_recovery_approved);
    apply_command(&mut s, &AppCommand::ToggleFinalizerRecovery).unwrap();
    assert!(!AppStateSnapshot::from(&s).finalizer_recovery_approved);
}

#[test]
fn toggle_finalizer_recovery_in_plan_review() {
    let mut s = AppState::new(false);
    assert!(!s.finalizer_recovery_approved);
    apply_command(&mut s, &AppCommand::ToggleFinalizerRecovery).unwrap();
    assert!(s.finalizer_recovery_approved);
    apply_command(&mut s, &AppCommand::ToggleFinalizerRecovery).unwrap();
    assert!(!s.finalizer_recovery_approved);
}

#[test]
fn toggle_finalizer_recovery_blocked_after_start() {
    let mut s = AppState::new(false);
    apply_command(&mut s, &AppCommand::StartExecution).unwrap();
    let err = apply_command(&mut s, &AppCommand::ToggleFinalizerRecovery);
    assert!(err.is_err(), "Toggle must be rejected after StartExecution");
}

#[test]
fn cli_flag_seeds_finalizer_recovery() {
    let s = AppState::new(true);
    assert!(s.finalizer_recovery_approved);
}

// ── Headless scripts ──

/// The command that a script line names.
fn script_command(line: &str) -> AppCommand {
    match serde_json::from_str::<String>(line).unwrap().as_str() {
        "ToggleFinalizerRecovery" => AppCommand::ToggleFinalizerRecovery,
        "StartExecution" => AppCommand::StartExecution,
        other => panic!("no command {}", other),
    }
}

#[test]
fn headless_toggle_then_start_fixes_flag() {
    let mut s = AppState::new(false);
    let toggle: AppCommand = script_command(r#""ToggleFinalizerRecovery""#);
    apply_command(&mut s, &toggle).unwrap();
    assert!(s.finalizer_recovery_approved);

    let start: AppCommand = script_command(r#""StartExecution""#);
    apply_command(&mut s, &start).unwrap();
    assert_eq!(s.screen, AppScreen::Executing);
    assert!(s.finalizer_recovery_approved, "flag must be fixed at Start");

    // After Start, toggle must be rejected
    assert!(apply_command(&mut s, &toggle).is_err());
}

/// A script of JSON commands, and the value that a journal would be created with.
#[test]
fn headless_script_sequence_journal_receives_app_flag() {
    let script_lines = [r#""ToggleFinalizerRecovery""#, r#""StartExecution""#];

    let mut app = AppState::new(false);
    for line in &script_lines {
        let cmd: AppCommand = script_command(line);
        let _ = apply_command(&mut app, &cmd);
    }

    assert!(
        app.finalizer_recovery_approved,
        "journal must receive true after toggle in script"
    );
    assert_eq!(app.screen, AppScreen::Executing);

    // Double-toggle → false: verify the journal would get false
    let mut app2 = AppState::new(false);
    let cmds = [
        r#""ToggleFinalizerRecovery""#,
        r#""ToggleFinalizerRecovery""#,
        r#""StartExecution""#,
    ];
    for line in &cmds {
        let cmd: AppCommand = script_command(line);
        let _ = apply_command(&mut app2, &cmd);
    }
    assert!(
        !app2.finalizer_recovery_approved,
        "double-toggle must result in false for journal"
    );
}

/// CLI flag=true without toggle: journal receives true directly.
#[test]
fn headless_cli_flag_true_no_toggle_journal_receives_true() {
    let mut app = AppState::new(true);
    let start: AppCommand = script_command(r#""StartExecution""#);
    apply_command(&mut app, &start).unwrap();
    assert!(
        app.finalizer_recovery_approved,
        "CLI flag=true must propagate to journal without toggle"
    );
}

#[test]
fn refusals_name_their_reason() {
    let mut s = AppState::new(false);
    assert_eq!(validate_command(&s, &AppCommand::Finish), Err(CommandRefusal::NotFinishable));
    assert_eq!(validate_command(&s, &AppCommand::Pause), Err(CommandRefusal::NotPausable));
    assert_eq!(
        validate_command(&s, &AppCommand::DeleteSelected),
        Err(CommandRefusal::NotInCleanup)
    );
    s.screen = AppScreen::Executing;
    assert_eq!(
        validate_command(&s, &AppCommand::ToggleFinalizerRecovery),
        Err(CommandRefusal::NotInReview)
    );
    assert_eq!(
        validate_command(&s, &AppCommand::StartExecution),
        Err(CommandRefusal::NotStartable)
    );
    assert_eq!(
        CommandRefusal::NotInReview.message(),
        "Plan modifications only allowed in Plan Review screen"
    );
    assert_eq!(
        CommandRefusal::NotStartable.message(),
        "Start only allowed from Plan Review screen"
    );
    assert_eq!(
        CommandRefusal::NotInCleanup.message(),
        "Residual operations only allowed in Residual Cleanup screen"
    );
    assert_eq!(
        CommandRefusal::NotPausable.message(),
        "Pause only allowed during Execution or Residual Cleanup"
    );
    assert_eq!(
        CommandRefusal::NotFinishable.message(),
        "Finish only allowed from Residual Cleanup screen"
    );
}

#[test]
fn refused_command_changes_nothing() {
    let mut s = AppState::new(true);
    apply_command(&mut s, &AppCommand::ApproveReview { resource: res("a") }).unwrap();
    s.screen = AppScreen::Paused;
    assert!(apply_command(&mut s, &AppCommand::KeepReview { resource: res("a") }).is_err());
    assert_eq!(s.screen, AppScreen::Paused);
    assert_eq!(s.draft_overrides.len(), 1);
    assert_eq!(s.draft_overrides[0].new_action, DraftAction::Delete);
    assert!(s.finalizer_recovery_approved);
}

#[test]
fn override_keeps_other_resources_in_order() {
    let mut s = AppState::new(false);
    for name in ["a", "b", "c"] {
        apply_command(&mut s, &AppCommand::ApproveReview { resource: res(name) }).unwrap();
    }
    apply_command(&mut s, &AppCommand::KeepReview { resource: res("a") }).unwrap();
    let names: Vec<&str> = s.draft_overrides.iter().map(|o| o.resource.name.as_str()).collect();
    assert_eq!(names, vec!["b", "c", "a"]);
    assert_eq!(s.draft_overrides[2].original_action, "Review");
}

#[test]
fn deselect_leaves_the_others() {
    let mut s = AppState::new(false);
    s.screen = AppScreen::ResidualCleanup;
    for name in ["a", "b"] {
        apply_command(&mut s, &AppCommand::SelectResidual { resource: res(name) }).unwrap();
    }
    apply_command(&mut s, &AppCommand::DeselectResidual { resource: res("x") }).unwrap();
    assert_eq!(s.selected_residuals.len(), 2);
    apply_command(&mut s, &AppCommand::DeselectResidual { resource: res("a") }).unwrap();
    assert_eq!(s.selected_residuals, vec![res("b")]);
}

#[test]
fn same_name_with_another_uid_is_another_resource() {
    let mut s = AppState::new(false);
    s.screen = AppScreen::ResidualCleanup;
    let mut other = res("a");
    other.uid = Some("uid-z".to_string());
    apply_command(&mut s, &AppCommand::SelectResidual { resource: res("a") }).unwrap();
    apply_command(&mut s, &AppCommand::SelectResidual { resource: other }).unwrap();
    assert_eq!(s.selected_residuals.len(), 2);
}
