use suprasonic_core::{AudioCommand, CaptureAction, CaptureController, CaptureState};

#[test]
fn second_start_is_ignored() {
    let mut c = CaptureController::new(true);
    assert_eq!(c.handle_command(AudioCommand::Start), CaptureAction::BuildSession);
    assert!(c.session_built(true));
    assert!(c.is_active());
    assert_eq!(c.handle_command(AudioCommand::Start), CaptureAction::Ignore);
    assert!(c.is_active());
}

#[test]
fn start_while_starting_is_ignored() {
    let mut c = CaptureController::new(false);
    assert_eq!(c.handle_command(AudioCommand::Start), CaptureAction::BuildSession);
    assert_eq!(c.current(), CaptureState::Starting);
    assert_eq!(c.handle_command(AudioCommand::Start), CaptureAction::Ignore);
}

#[test]
fn failed_build_returns_to_idle_and_allows_retry() {
    let mut c = CaptureController::new(true);
    c.handle_command(AudioCommand::Start);
    assert!(!c.session_built(false));
    assert_eq!(c.current(), CaptureState::Idle);
    assert_eq!(c.handle_command(AudioCommand::Start), CaptureAction::BuildSession);
}

#[test]
fn stop_tears_down_and_flushes_by_configuration() {
    let mut c = CaptureController::new(true);
    c.handle_command(AudioCommand::Start);
    c.session_built(true);
    assert_eq!(c.handle_command(AudioCommand::Stop), CaptureAction::Stop { tear_down: true, flush: true });
    assert_eq!(c.current(), CaptureState::Idle);
    assert_eq!(c.handle_command(AudioCommand::Stop), CaptureAction::Stop { tear_down: false, flush: true });

    let mut s = CaptureController::new(false);
    s.handle_command(AudioCommand::Start);
    s.session_built(true);
    assert_eq!(s.handle_command(AudioCommand::Stop), CaptureAction::Stop { tear_down: true, flush: false });
}

#[test]
fn build_reported_after_stop_is_discarded() {
    let mut c = CaptureController::new(true);
    c.handle_command(AudioCommand::Start);
    c.handle_command(AudioCommand::Stop);
    assert!(!c.session_built(true));
    assert_eq!(c.current(), CaptureState::Idle);
}
