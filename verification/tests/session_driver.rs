use opendisplay::session_driver::{
    drive_step, session_tick, AttemptOutcome, ControlRead, DriveDecision, SessionOutcome, StopReason,
};
use opendisplay::session_state::{SessionEvent, SessionState, TerminalReason, REFUSALS_BEFORE_ANOTHER_SENDER};

#[test]
fn refusals_retry_until_the_floor_then_stop() {
    let mut refusals = 0;
    for _ in 0..(REFUSALS_BEFORE_ANOTHER_SENDER - 1) {
        let (n, decision) = drive_step(refusals, AttemptOutcome::DialRefused);
        assert_eq!(decision, DriveDecision::RetryAfterInterval);
        refusals = n;
    }
    let (n, decision) = drive_step(refusals, AttemptOutcome::DialRefused);
    assert_eq!(n, REFUSALS_BEFORE_ANOTHER_SENDER);
    assert_eq!(decision, DriveDecision::Stop(StopReason::AnotherSenderConnected));
}

#[test]
fn a_completed_handshake_resets_the_refusal_count() {
    let (n, decision) = drive_step(2, AttemptOutcome::SessionEnded(SessionOutcome::Retry));
    assert_eq!((n, decision), (0, DriveDecision::RetryAfterInterval));
    let (n, _) = drive_step(2, AttemptOutcome::DisplayFailed);
    assert_eq!(n, 0);
}

#[test]
fn other_failures_retry_and_keep_the_count() {
    for outcome in [AttemptOutcome::DeviceNotFound, AttemptOutcome::DialFailed, AttemptOutcome::HandshakeFailed] {
        assert_eq!(drive_step(1, outcome), (1, DriveDecision::RetryAfterInterval));
    }
}

#[test]
fn terminal_outcomes_stop_the_driver() {
    assert_eq!(drive_step(0, AttemptOutcome::TeardownRequested).1, DriveDecision::Stop(StopReason::TornDown));
    assert_eq!(
        drive_step(0, AttemptOutcome::PeerBelowMinSupported).1,
        DriveDecision::Stop(StopReason::PeerBelowMinSupported)
    );
    assert_eq!(
        drive_step(0, AttemptOutcome::SessionEnded(SessionOutcome::Terminal(TerminalReason::Closing))).1,
        DriveDecision::Stop(StopReason::SessionEnded(TerminalReason::Closing))
    );
    assert_eq!(
        drive_step(0, AttemptOutcome::SessionEnded(SessionOutcome::ExternallyStopped)).1,
        DriveDecision::Stop(StopReason::TornDown)
    );
}

#[test]
fn a_session_tick_follows_teardown_then_the_read() {
    assert_eq!(
        session_tick(SessionState::Connected, true, ControlRead::Failed),
        (SessionState::Connected, Some(SessionOutcome::ExternallyStopped))
    );
    assert_eq!(session_tick(SessionState::Connected, false, ControlRead::Nothing), (SessionState::Connected, None));
    assert_eq!(
        session_tick(SessionState::Connected, false, ControlRead::Failed),
        (SessionState::Connected, Some(SessionOutcome::Retry))
    );
    assert_eq!(
        session_tick(SessionState::Connected, false, ControlRead::Message { event: None }),
        (SessionState::Connected, None)
    );
}

#[test]
fn sleeping_ends_the_session_for_a_redial_and_closing_for_good() {
    assert_eq!(
        session_tick(SessionState::Connected, false, ControlRead::Message { event: Some(SessionEvent::ReceivedSleeping) }),
        (SessionState::Paused, Some(SessionOutcome::Retry))
    );
    assert_eq!(
        session_tick(SessionState::Connected, false, ControlRead::Message { event: Some(SessionEvent::ReceivedClosing) }),
        (
            SessionState::Terminal { reason: TerminalReason::Closing },
            Some(SessionOutcome::Terminal(TerminalReason::Closing))
        )
    );
}
