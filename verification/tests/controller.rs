use mcap_replay::controller::{Directive, LoopController};

#[test]
fn without_looping_there_is_one_pass() {
    let mut controller = LoopController::new(false);
    assert!(!controller.is_halted());
    assert_eq!(controller.next_pass(false), Directive::BeginPass { reset_session: false });
    assert!(controller.poll(false));
    assert_eq!(controller.next_pass(false), Directive::Halt);
    assert!(controller.is_halted());
    assert_eq!(controller.next_pass(false), Directive::Halt);
}

#[test]
fn looping_restarts_with_a_session_reset() {
    let mut controller = LoopController::new(true);
    assert_eq!(controller.next_pass(false), Directive::BeginPass { reset_session: false });
    for _ in 0..5 {
        assert!(controller.poll(false));
        assert_eq!(controller.next_pass(false), Directive::BeginPass { reset_session: true });
    }
    assert!(!controller.is_halted());
}

#[test]
fn cancellation_in_a_pass_prevents_the_next_pass() {
    let mut controller = LoopController::new(true);
    assert_eq!(controller.next_pass(false), Directive::BeginPass { reset_session: false });
    assert!(controller.poll(false));
    assert!(!controller.poll(true));
    assert!(controller.is_halted());
    assert!(!controller.poll(false));
    assert_eq!(controller.next_pass(false), Directive::Halt);
    assert_eq!(controller.next_pass(false), Directive::Halt);
}

#[test]
fn cancellation_at_a_boundary_halts() {
    let mut controller = LoopController::new(true);
    assert_eq!(controller.next_pass(false), Directive::BeginPass { reset_session: false });
    assert_eq!(controller.next_pass(true), Directive::Halt);
    assert_eq!(controller.next_pass(false), Directive::Halt);
    assert!(!controller.poll(false));
}

#[test]
fn cancellation_before_the_first_pass() {
    let mut looping = LoopController::new(true);
    assert_eq!(looping.next_pass(true), Directive::Halt);
    assert_eq!(looping.next_pass(false), Directive::Halt);
    let mut single = LoopController::new(false);
    assert!(!single.poll(true));
    assert_eq!(single.next_pass(false), Directive::Halt);
}
