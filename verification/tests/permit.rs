//! Leave for every change to the cluster.

use teardown::permit::{Gate, GateRefusal};

#[test]
fn an_open_gate_lets_changes_in() {
    let mut gate = Gate::new(2);
    assert!(gate.is_open());
    assert!(gate.ask().is_ok());
    assert!(gate.enter().is_ok());
    assert!(gate.enter().is_ok());
    assert_eq!(gate.held, 2);
    assert!(!gate.is_drained());
}

#[test]
fn a_closed_gate_refuses_in_words() {
    let mut gate = Gate::new(1);
    gate.close();
    assert!(!gate.is_open());
    assert_eq!(gate.ask(), Err(GateRefusal::Closed));
    assert_eq!(gate.enter(), Err(GateRefusal::ClosedWhileWaiting));
    assert_eq!(gate.held, 0);
    assert_ne!(
        GateRefusal::Closed.message(),
        GateRefusal::ClosedWhileWaiting.message()
    );
}

#[test]
fn a_closed_gate_drains_and_opens_again() {
    let mut gate = Gate::new(1);
    assert!(gate.enter().is_ok());
    gate.close();
    assert!(!gate.is_drained());
    gate.leave();
    assert!(gate.is_drained());
    gate.reopen();
    assert!(gate.enter().is_ok());
}

/// A change that waits for no slot.
fn acquire(gate: &mut Gate) -> Result<(), GateRefusal> {
    gate.ask()?;
    gate.enter()
}

#[test]
fn test_acquire_when_open() {
    let mut gate = Gate::new(4);
    assert!(acquire(&mut gate).is_ok());
}

#[test]
fn test_acquire_when_closed() {
    let mut gate = Gate::new(4);
    gate.close();
    assert!(acquire(&mut gate).is_err());
}

#[test]
fn gate_closed_acquire_fails() {
    let mut gate = Gate::new(4);
    gate.close();
    assert!(gate.is_drained());
    assert!(acquire(&mut gate).is_err());
}

#[test]
fn test_reopen_allows_acquire() {
    let mut gate = Gate::new(4);
    gate.close();
    assert!(acquire(&mut gate).is_err());
    gate.reopen();
    assert!(acquire(&mut gate).is_ok());
}

#[test]
fn test_close_and_drain_waits_for_active_permit() {
    let mut gate = Gate::new(4);
    assert!(acquire(&mut gate).is_ok());
    gate.close();
    assert!(!gate.is_drained());
    gate.leave();
    assert!(gate.is_drained());
    assert!(acquire(&mut gate).is_err());
}

#[test]
fn test_pause_drain_race_no_post_close_mutation() {
    let mut gate = Gate::new(4);
    assert!(acquire(&mut gate).is_ok());
    gate.close();
    assert!(acquire(&mut gate).is_err());
    assert!(!gate.is_drained());
    gate.leave();
    assert!(gate.is_drained());
    assert!(acquire(&mut gate).is_err());
}

#[test]
fn test_double_check_toctou() {
    let mut gate = Gate::new(1);
    assert!(acquire(&mut gate).is_ok());
    // Another change asks and waits for the slot; the mutation gate closes meanwhile.
    assert!(gate.ask().is_ok());
    gate.close();
    gate.leave();
    assert_eq!(gate.enter(), Err(GateRefusal::ClosedWhileWaiting));
}
