use midi_router::SupervisorAction;
use midi_router::should_continue;
use midi_router::should_restart;
use midi_router::supervisor_action;

#[test]
fn continue_until_exit() {
    assert!(should_continue(false));
    assert!(!should_continue(true));
}

#[test]
fn restart_only_without_exit() {
    assert!(should_restart(true, false));
    assert!(!should_restart(true, true));
    assert!(!should_restart(false, false));
    assert!(!should_restart(false, true));
}

#[test]
fn action_table() {
    assert_eq!(supervisor_action(false, true), SupervisorAction::Exit);
    assert_eq!(supervisor_action(true, true), SupervisorAction::Exit);
    assert_eq!(supervisor_action(true, false), SupervisorAction::Rebuild);
    assert_eq!(supervisor_action(false, false), SupervisorAction::Poll);
}
