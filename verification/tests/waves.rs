//! Delete waves, from the answers of the API server to what is left.

use teardown::executor::deletion::DeleteResult;
use teardown::executor::waves::{WaveRun, WaveStage};
use teardown::resource::ResourceId;
use teardown::watch::WatchWaitResult;

fn cm(name: &str) -> ResourceId {
    ResourceId {
        group: String::new(),
        version: "v1".to_string(),
        kind: "ConfigMap".to_string(),
        namespace: Some("ns".to_string()),
        name: name.to_string(),
        uid: Some(format!("uid-{}", name)),
    }
}

fn stalled(remaining: Vec<ResourceId>) -> WatchWaitResult {
    WatchWaitResult::Stalled {
        remaining,
        finalizer_details: vec![],
        reason: "60s without progress".to_string(),
    }
}

fn notes(v: &Vec<(ResourceId, String)>) -> Vec<(String, String)> {
    v.iter().map(|(r, s)| (r.name.clone(), s.clone())).collect()
}

fn names(v: &Vec<ResourceId>) -> Vec<String> {
    v.iter().map(|r| r.name.clone()).collect()
}

#[test]
fn a_rejected_target_is_tried_again_once_another_has_gone() {
    let mut run = WaveRun::new(&vec![cm("a"), cm("b")]);
    assert_eq!(run.stage, WaveStage::Delete);
    assert_eq!(names(&run.pending), ["a", "b"]);

    run.answered(&vec![
        (cm("a"), DeleteResult::Accepted),
        (cm("b"), DeleteResult::Rejected("still used".to_string())),
    ]);
    assert_eq!(run.stage, WaveStage::Checkpoint);
    assert!(run.record);
    run.recorded();
    assert_eq!(run.stage, WaveStage::Wait);
    assert!(!run.record);
    assert_eq!(names(&run.accepted), ["a"]);

    run.waited(&WatchWaitResult::AllGone, false);
    assert_eq!(run.stage, WaveStage::Delete);
    assert_eq!(names(&run.pending), ["b"]);

    run.answered(&vec![(cm("b"), DeleteResult::Accepted)]);
    run.recorded();
    run.waited(&WatchWaitResult::AllGone, false);
    assert_eq!(run.stage, WaveStage::Done);

    let result = run.finish();
    assert!(!result.stopped);
    assert_eq!(names(&result.accepted_gone), ["a", "b"]);
    assert!(result.failed.is_empty());
    assert_eq!(
        notes(&result.redelete_authorities),
        [
            ("a".to_string(), "uid-a".to_string()),
            ("b".to_string(), "uid-b".to_string())
        ]
    );
}

#[test]
fn three_waves_reach_a_fixpoint() {
    let mut run = WaveRun::new(&vec![cm("a"), cm("b"), cm("c")]);
    let mut left = vec!["a", "b", "c"];
    while run.stage != WaveStage::Done {
        assert_eq!(run.stage, WaveStage::Delete);
        assert_eq!(names(&run.pending), left);
        let answers = run
            .pending
            .iter()
            .enumerate()
            .map(|(i, r)| {
                if i == 0 {
                    (r.clone(), DeleteResult::Accepted)
                } else {
                    (r.clone(), DeleteResult::Rejected("in use".to_string()))
                }
            })
            .collect();
        run.answered(&answers);
        run.recorded();
        run.waited(&WatchWaitResult::AllGone, false);
        left.remove(0);
    }
    assert_eq!(names(&run.finish().accepted_gone), ["a", "b", "c"]);
}

#[test]
fn a_wave_in_which_all_are_rejected_stops_the_run() {
    let mut run = WaveRun::new(&vec![cm("a"), cm("b")]);
    run.answered(&vec![
        (cm("a"), DeleteResult::Rejected("x".to_string())),
        (cm("b"), DeleteResult::Rejected("y".to_string())),
    ]);
    run.recorded();
    assert_eq!(run.stage, WaveStage::Done);
    assert!(run.record);
    let result = run.finish();
    assert!(result.stopped);
    let why = "no progress in delete wave — all targets rejected".to_string();
    assert_eq!(
        notes(&result.failed),
        [("a".to_string(), why.clone()), ("b".to_string(), why)]
    );
    assert!(result.redelete_authorities.is_empty());
}

#[test]
fn a_blocked_answer_stops_the_run_at_once() {
    let mut run = WaveRun::new(&vec![cm("a"), cm("b"), cm("c")]);
    run.answered(&vec![
        (cm("a"), DeleteResult::Blocked("403 Forbidden".to_string())),
        (cm("b"), DeleteResult::Rejected("later".to_string())),
        (cm("c"), DeleteResult::Accepted),
    ]);
    run.recorded();
    assert_eq!(run.stage, WaveStage::Done);
    let result = run.finish();
    assert!(result.stopped);
    assert_eq!(
        notes(&result.failed),
        [
            ("a".to_string(), "403 Forbidden".to_string()),
            (
                "b".to_string(),
                "phase stopped due to Blocked/Unknown result".to_string()
            )
        ]
    );
}

#[test]
fn an_unknown_answer_stops_the_run_at_once() {
    let mut run = WaveRun::new(&vec![cm("a"), cm("b")]);
    run.answered(&vec![
        (cm("a"), DeleteResult::Unknown("500".to_string())),
        (cm("b"), DeleteResult::Rejected("later".to_string())),
    ]);
    run.recorded();
    let result = run.finish();
    assert!(result.stopped);
    assert_eq!(result.failed.len(), 2);
}

#[test]
fn a_target_that_was_gone_counts_as_progress() {
    let mut run = WaveRun::new(&vec![cm("a"), cm("b")]);
    run.answered(&vec![
        (cm("a"), DeleteResult::AlreadyGone),
        (cm("b"), DeleteResult::Rejected("later".to_string())),
    ]);
    run.recorded();
    assert_eq!(run.stage, WaveStage::Delete);
    assert_eq!(names(&run.pending), ["b"]);
    run.answered(&vec![(cm("b"), DeleteResult::AlreadyGone)]);
    run.recorded();
    let result = run.finish();
    assert!(!result.stopped);
    assert_eq!(names(&result.already_gone), ["a", "b"]);
    assert!(result.accepted_gone.is_empty());
    assert!(result.redelete_authorities.is_empty());
}

#[test]
fn a_closed_gate_stops_a_wave() {
    let mut run = WaveRun::new(&vec![cm("a")]);
    run.gate_closed();
    assert_eq!(run.stage, WaveStage::Done);
    let result = run.finish();
    assert!(result.stopped);
    assert!(result.failed.is_empty());
}

#[test]
fn a_stall_without_recovery_stops_the_run() {
    let mut run = WaveRun::new(&vec![cm("a"), cm("b"), cm("c")]);
    run.answered(&vec![
        (cm("a"), DeleteResult::Accepted),
        (cm("b"), DeleteResult::Accepted),
        (cm("c"), DeleteResult::Rejected("later".to_string())),
    ]);
    run.recorded();
    run.waited(&stalled(vec![cm("b")]), false);
    let result = run.finish();
    assert!(result.stopped);
    assert_eq!(names(&result.accepted_gone), ["a"]);
    assert_eq!(
        notes(&result.failed),
        [
            (
                "b".to_string(),
                "barrier stalled: 60s without progress".to_string()
            ),
            (
                "c".to_string(),
                "wave stopped — barrier stalled before retry".to_string()
            )
        ]
    );
}

#[test]
fn recovery_frees_a_stalled_wave() {
    let mut run = WaveRun::new(&vec![cm("a")]);
    run.answered(&vec![(cm("a"), DeleteResult::Accepted)]);
    run.recorded();
    run.waited(&stalled(vec![cm("a")]), true);
    assert_eq!(run.stage, WaveStage::Recover);
    run.recovered(Some(1));
    assert_eq!(run.stage, WaveStage::WaitRecovered);
    run.waited_again(&WatchWaitResult::AllGone);
    let result = run.finish();
    assert!(!result.stopped);
    assert_eq!(names(&result.accepted_gone), ["a"]);
}

#[test]
fn recovery_that_frees_nothing_leaves_the_wave_stalled() {
    for count in [None, Some(0)] {
        let mut run = WaveRun::new(&vec![cm("a")]);
        run.answered(&vec![(cm("a"), DeleteResult::Accepted)]);
        run.recorded();
        run.waited(&stalled(vec![cm("a")]), true);
        run.recovered(count);
        let result = run.finish();
        assert!(result.stopped);
        assert_eq!(result.failed.len(), 1);
    }
}

#[test]
fn a_recreated_target_is_passed_on_and_not_deleted_again() {
    let mut run = WaveRun::new(&vec![cm("a"), cm("b")]);
    run.answered(&vec![
        (cm("a"), DeleteResult::Accepted),
        (cm("b"), DeleteResult::Accepted),
    ]);
    run.recorded();
    run.waited(
        &WatchWaitResult::Recreated {
            remaining: vec![cm("a"), cm("b")],
            recreated: vec![(cm("a"), "uid-a".to_string(), "uid-new".to_string())],
        },
        false,
    );
    assert_eq!(run.stage, WaveStage::Rewait);
    assert_eq!(names(&run.waiting), ["b"]);
    run.waited_again(&WatchWaitResult::AllGone);
    let result = run.finish();
    assert!(!result.stopped);
    assert_eq!(names(&result.accepted_gone), ["a", "b"]);
}

#[test]
fn a_second_wait_that_stalls_stops_the_run() {
    let mut run = WaveRun::new(&vec![cm("a"), cm("b")]);
    run.answered(&vec![
        (cm("a"), DeleteResult::Accepted),
        (cm("b"), DeleteResult::Accepted),
    ]);
    run.recorded();
    run.waited(
        &WatchWaitResult::Recreated {
            remaining: vec![cm("a"), cm("b")],
            recreated: vec![(cm("a"), "uid-a".to_string(), "uid-new".to_string())],
        },
        false,
    );
    run.waited_again(&stalled(vec![cm("b")]));
    let result = run.finish();
    assert!(result.stopped);
    assert_eq!(
        notes(&result.failed),
        [(
            "b".to_string(),
            "wave re-wait stalled/cancelled".to_string()
        )]
    );
}

#[test]
fn a_cancelled_wait_stops_the_run() {
    let mut run = WaveRun::new(&vec![cm("a")]);
    run.answered(&vec![(cm("a"), DeleteResult::Accepted)]);
    run.recorded();
    run.waited(&WatchWaitResult::Cancelled, true);
    assert!(run.finish().stopped);
}

#[test]
fn nothing_moves_a_run_that_is_over() {
    let mut run = WaveRun::new(&vec![cm("a")]);
    run.gate_closed();
    run.answered(&vec![(cm("a"), DeleteResult::Accepted)]);
    run.recorded();
    run.waited(&WatchWaitResult::AllGone, true);
    run.recovered(Some(1));
    run.waited_again(&WatchWaitResult::AllGone);
    assert_eq!(run.stage, WaveStage::Done);
    assert!(run.stopped);
    assert!(run.accepted_gone.is_empty());
}

#[test]
fn each_target_ends_in_one_place() {
    let targets = vec![cm("a"), cm("b"), cm("c"), cm("d")];
    let mut run = WaveRun::new(&targets);
    run.answered(&vec![
        (cm("d"), DeleteResult::AlreadyGone),
        (cm("c"), DeleteResult::Rejected("later".to_string())),
        (cm("b"), DeleteResult::Accepted),
        (cm("a"), DeleteResult::Accepted),
    ]);
    run.recorded();
    run.waited(
        &WatchWaitResult::Recreated {
            remaining: vec![cm("a"), cm("b")],
            recreated: vec![(cm("b"), "uid-b".to_string(), "uid-new".to_string())],
        },
        false,
    );
    run.waited_again(&WatchWaitResult::AllGone);
    assert_eq!(names(&run.pending), ["c"]);
    run.answered(&vec![(cm("c"), DeleteResult::Accepted)]);
    run.recorded();
    run.waited(&WatchWaitResult::AllGone, false);
    let result = run.finish();
    assert!(!result.stopped);
    assert_eq!(names(&result.accepted_gone), ["b", "a", "c"]);
    assert_eq!(names(&result.already_gone), ["d"]);
}

#[test]
fn answers_are_written_down_before_their_consequences() {
    // What stops the run first, then what it takes with it.
    let mut run = WaveRun::new(&vec![cm("a"), cm("b"), cm("c")]);
    run.answered(&vec![
        (cm("a"), DeleteResult::Blocked("403".to_string())),
        (cm("b"), DeleteResult::Rejected("later".to_string())),
        (cm("c"), DeleteResult::Accepted),
    ]);
    assert_eq!(run.stage, WaveStage::Checkpoint);
    assert!(run.record);
    assert!(!run.stopped);
    assert_eq!(names(&run.accepted), ["c"]);
    assert_eq!(notes(&run.failed), [("a".to_string(), "403".to_string())]);
    // Nothing else moves it on.
    run.waited(&WatchWaitResult::AllGone, true);
    run.gate_closed();
    assert_eq!(run.stage, WaveStage::Checkpoint);
    run.recorded();
    assert_eq!(run.stage, WaveStage::Done);
    assert!(run.record);
    assert!(run.stopped);
    assert_eq!(run.failed.len(), 2);

    // A wave in which nothing went: the answers, and then the failures.
    let mut run = WaveRun::new(&vec![cm("a")]);
    run.answered(&vec![(cm("a"), DeleteResult::Rejected("no".to_string()))]);
    assert!(run.record);
    assert!(run.failed.is_empty());
    run.recorded();
    assert!(run.record);
    assert_eq!(run.failed.len(), 1);

    // A wave in which everything was gone: the answers only.
    let mut run = WaveRun::new(&vec![cm("a")]);
    run.answered(&vec![(cm("a"), DeleteResult::AlreadyGone)]);
    assert!(run.record);
    run.recorded();
    assert!(!run.record);
    assert_eq!(run.stage, WaveStage::Done);
}
