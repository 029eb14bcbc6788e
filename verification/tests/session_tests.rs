use typefree::session::Session;
use typefree::session::SessionAction;
use typefree::session::SessionInput;
use typefree::session::SessionOutcome;
use typefree::session::SessionState;
use typefree::session::TranscriptEvent;

fn streaming_session() -> Session {
    let mut s = Session::new();
    s.begin_connect();
    s.connected();
    s
}

#[test]
fn scripted_partials_then_finish() {
    let mut s = streaming_session();
    let a1 = s.on_input(SessionInput::Inbound(TranscriptEvent::Partial("A".to_string())));
    assert_eq!(a1, SessionAction::EmitPartial("A".to_string()));
    let a2 = s.on_input(SessionInput::Inbound(TranscriptEvent::Partial("AB".to_string())));
    assert_eq!(a2, SessionAction::EmitPartial("AB".to_string()));
    let a3 = s.on_input(SessionInput::Inbound(TranscriptEvent::Final(String::new())));
    assert_eq!(a3, SessionAction::FinishWith("AB".to_string()));
    assert_eq!(s.state, SessionState::Closed);
    assert_eq!(s.outcome, Some(SessionOutcome::Success));
}

#[test]
fn partial_overwrites_never_appends() {
    let mut s = streaming_session();
    s.on_input(SessionInput::Inbound(TranscriptEvent::Partial("hello".to_string())));
    s.on_input(SessionInput::Inbound(TranscriptEvent::Partial("world".to_string())));
    assert_eq!(s.partial, "world".to_string());
}

#[test]
fn empty_partial_is_ignored() {
    let mut s = streaming_session();
    let a = s.on_input(SessionInput::Inbound(TranscriptEvent::Partial(String::new())));
    assert_eq!(a, SessionAction::Nothing);
    assert_eq!(s.partial, String::new());
}

#[test]
fn grace_timeout_delivers_last_partial_once() {
    let mut s = streaming_session();
    s.on_input(SessionInput::Inbound(TranscriptEvent::Partial("draft".to_string())));
    let armed = s.on_input(SessionInput::Stop);
    assert_eq!(armed, SessionAction::ArmGrace);
    assert_eq!(s.state, SessionState::Finalizing);
    let fin = s.on_input(SessionInput::GraceExpired);
    assert_eq!(fin, SessionAction::FinishWith("draft".to_string()));
    assert_eq!(s.state, SessionState::Closed);
    assert_eq!(s.outcome, Some(SessionOutcome::Success));
    // Nothing fires after the session closed.
    let after = s.on_input(SessionInput::Inbound(TranscriptEvent::Final(String::new())));
    assert_eq!(after, SessionAction::Nothing);
    let after2 = s.on_input(SessionInput::GraceExpired);
    assert_eq!(after2, SessionAction::Nothing);
}

#[test]
fn stop_arms_grace_only_once() {
    let mut s = streaming_session();
    assert_eq!(s.on_input(SessionInput::Stop), SessionAction::ArmGrace);
    assert_eq!(s.on_input(SessionInput::Stop), SessionAction::Nothing);
}

#[test]
fn partials_still_arrive_while_finalizing() {
    let mut s = streaming_session();
    s.on_input(SessionInput::Stop);
    let a = s.on_input(SessionInput::Inbound(TranscriptEvent::Partial("late".to_string())));
    assert_eq!(a, SessionAction::EmitPartial("late".to_string()));
    let fin = s.on_input(SessionInput::GraceExpired);
    assert_eq!(fin, SessionAction::FinishWith("late".to_string()));
}

#[test]
fn service_error_invalidates_and_aborts() {
    let mut s = streaming_session();
    s.on_input(SessionInput::Inbound(TranscriptEvent::Partial("text".to_string())));
    let a = s.on_input(SessionInput::Inbound(TranscriptEvent::ServiceError(
        710012,
        "blocked".to_string(),
    )));
    assert_eq!(a, SessionAction::FailInvalidate(710012, "blocked".to_string()));
    assert_eq!(s.state, SessionState::Closed);
    assert_eq!(s.outcome, Some(SessionOutcome::ServiceFailed(710012, "blocked".to_string())));
    // No final callback for that run, whatever arrives afterwards.
    let after = s.on_input(SessionInput::Inbound(TranscriptEvent::Final(String::new())));
    assert_eq!(after, SessionAction::Nothing);
    let after2 = s.on_input(SessionInput::Disconnected);
    assert_eq!(after2, SessionAction::Nothing);
}

#[test]
fn disconnect_delivers_existing_partial() {
    let mut s = streaming_session();
    s.on_input(SessionInput::Inbound(TranscriptEvent::Partial("kept".to_string())));
    let a = s.on_input(SessionInput::Disconnected);
    assert_eq!(a, SessionAction::FinishWith("kept".to_string()));
    assert_eq!(s.outcome, Some(SessionOutcome::Success));
}

#[test]
fn disconnect_without_partial_is_silent() {
    let mut s = streaming_session();
    let a = s.on_input(SessionInput::Disconnected);
    assert_eq!(a, SessionAction::FinishSilent);
    assert_eq!(s.outcome, Some(SessionOutcome::Success));
}

#[test]
fn finish_without_partial_is_silent() {
    let mut s = streaming_session();
    let a = s.on_input(SessionInput::Inbound(TranscriptEvent::Final(String::new())));
    assert_eq!(a, SessionAction::FinishSilent);
    assert_eq!(s.outcome, Some(SessionOutcome::Success));
}

#[test]
fn malformed_frames_are_skipped() {
    let mut s = streaming_session();
    assert_eq!(s.on_input(SessionInput::Malformed), SessionAction::Nothing);
    assert_eq!(s.state, SessionState::Streaming);
}

#[test]
fn connect_failure_closes_without_callback() {
    let mut s = Session::new();
    s.begin_connect();
    s.connect_failed("handshake refused".to_string());
    assert_eq!(s.state, SessionState::Closed);
    assert_eq!(
        s.outcome,
        Some(SessionOutcome::ConnectFailed("handshake refused".to_string()))
    );
    let after = s.on_input(SessionInput::Inbound(TranscriptEvent::Partial("x".to_string())));
    assert_eq!(after, SessionAction::Nothing);
}
