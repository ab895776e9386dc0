//! The controlled loop and its guards.

use mutants_core::controlled::{controlled_loop, should_stop, should_stop_const, val};

#[test]
fn controlled_loop_terminates() {
    // Two passes: first the trigger is false but gets set, then the
    // trigger is true and the loop terminates.
    let mut trigger = false;
    assert_eq!(controlled_loop(&mut trigger), 2);
}

#[test]
fn val_is_correct() {
    assert_eq!(val(), 1);
}

#[test]
fn guard_stops_at_once() {
    assert!(should_stop_const());
}

#[test]
fn trigger_is_set_on_first_call() {
    let mut trigger = false;
    assert!(!should_stop(&mut trigger));
    assert!(trigger);
    assert!(should_stop(&mut trigger));
}
