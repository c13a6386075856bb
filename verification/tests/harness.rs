//! Traces of command sequences.

use teardown::app::{AppCommand, AppScreen, AppState};
use teardown::harness::{run_scenario, HarnessResult};
use teardown::resource::ResourceId;

fn res(name: &str) -> ResourceId {
    ResourceId {
        group: "test.io".to_string(),
        version: "v1".to_string(),
        kind: "Widget".to_string(),
        namespace: Some("ns".to_string()),
        name: name.to_string(),
        uid: Some(format!("uid-{}", name)),
    }
}

#[test]
fn test_plan_review_to_execution_scenario() {
    let events = run_scenario(
        AppState::new(false),
        &vec![
            AppCommand::ApproveReview { resource: res("a") },
            AppCommand::KeepReview { resource: res("b") },
            AppCommand::StartExecution,
        ],
    );

    assert_eq!(events.len(), 3);

    // Step 0: approve
    assert!(matches!(events[0].result, HarnessResult::Done));
    assert_eq!(events[0].state.screen, AppScreen::PlanReview);
    assert_eq!(events[0].state.draft_override_count, 1);

    // Step 1: keep
    assert!(matches!(events[1].result, HarnessResult::Done));
    assert_eq!(events[1].state.draft_override_count, 2);

    // Step 2: start
    assert!(matches!(events[2].result, HarnessResult::Done));
    assert_eq!(events[2].state.screen, AppScreen::Executing);
}

#[test]
fn test_execution_rejects_plan_changes() {
    let events = run_scenario(
        AppState::new(false),
        &vec![
            AppCommand::StartExecution,
            AppCommand::ApproveReview { resource: res("a") },
        ],
    );

    assert_eq!(events.len(), 2);
    assert!(matches!(events[0].result, HarnessResult::Done));
    assert!(matches!(events[1].result, HarnessResult::Error(_)));

    // Screen didn't change back
    assert_eq!(events[1].state.screen, AppScreen::Executing);
}


#[test]
fn test_residual_cleanup_scenario() {
    let mut state = AppState::new(false);
    state.screen = AppScreen::ResidualCleanup;

    let events = run_scenario(
        state,
        &vec![
            AppCommand::SelectResidual { resource: res("r1") },
            AppCommand::SelectResidual { resource: res("r2") },
            AppCommand::DeselectResidual { resource: res("r1") },
            AppCommand::DeleteSelected,
        ],
    );

    assert_eq!(events.len(), 4);
    assert_eq!(events[1].state.selected_residual_count, 2);
    assert_eq!(events[2].state.selected_residual_count, 1);
    assert!(matches!(events[3].result, HarnessResult::Done));
}

#[test]
fn test_residual_ops_rejected_outside_cleanup_screen() {
    let events = run_scenario(
        AppState::new(false), // PlanReview
        &vec![
            AppCommand::SelectResidual { resource: res("x") },
            AppCommand::DeleteSelected,
        ],
    );

    assert!(matches!(events[0].result, HarnessResult::Error(_)));
    assert!(matches!(events[1].result, HarnessResult::Error(_)));
}

#[test]
fn finish_after_pause_is_refused_in_the_trace() {
    let events = run_scenario(
        AppState::new(false),
        &vec![
            AppCommand::StartExecution,
            AppCommand::Pause,
            AppCommand::Finish,
        ],
    );
    assert_eq!(events[1].state.screen, AppScreen::Paused);
    assert_eq!(events[2].state.screen, AppScreen::Paused);
    match &events[2].result {
        HarnessResult::Error(e) => {
            assert_eq!(e, "Finish only allowed from Residual Cleanup screen")
        }
        HarnessResult::Done => panic!("finish was carried out"),
    }
}

#[test]
fn trace_names_steps_and_commands() {
    let approve = AppCommand::ApproveReview { resource: res("a\"b") };
    let written = format!("{:?}", approve);
    let events = run_scenario(
        AppState::new(false),
        &vec![approve, AppCommand::ToggleFinalizerRecovery],
    );
    assert_eq!(events[0].step, 0);
    assert_eq!(events[0].command, written);
    assert_eq!(events[0].state.draft_overrides[0].resource, "Widget/a\"b");
    assert_eq!(events[1].step, 1);
    assert_eq!(events[1].command, "ToggleFinalizerRecovery");
    assert!(events[1].state.finalizer_recovery_approved);
}

#[test]
fn empty_scenario_has_no_trace() {
    assert!(run_scenario(AppState::new(false), &vec![]).is_empty());
}
