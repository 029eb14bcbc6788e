use typefree::frames::finish_frame_text;
use typefree::frames::parse_inbound_frame;
use typefree::session::TranscriptEvent;

#[test]
fn result_frame_becomes_partial() {
    let r = parse_inbound_frame("{\"event\":\"result\",\"result\":{\"Text\":\"hello\"}}");
    assert_eq!(r, Some(TranscriptEvent::Partial("hello".to_string())));
}

#[test]
fn empty_result_text_is_ignored() {
    let r = parse_inbound_frame("{\"event\":\"result\",\"result\":{\"Text\":\"\"}}");
    assert_eq!(r, None);
}

#[test]
fn result_without_text_is_ignored() {
    let r = parse_inbound_frame("{\"event\":\"result\"}");
    assert_eq!(r, None);
}

#[test]
fn finish_frame_finishes() {
    let r = parse_inbound_frame("{\"event\":\"finish\"}");
    assert_eq!(r, Some(TranscriptEvent::Final(String::new())));
}

#[test]
fn finish_frame_carries_text_when_present() {
    let r = parse_inbound_frame("{\"event\":\"finish\",\"result\":{\"Text\":\"done\"}}");
    assert_eq!(r, Some(TranscriptEvent::Final("done".to_string())));
}

#[test]
fn nonzero_code_is_a_service_error() {
    let r = parse_inbound_frame("{\"code\":710012,\"message\":\"blocked\"}");
    assert_eq!(r, Some(TranscriptEvent::ServiceError(710012, "blocked".to_string())));
}

#[test]
fn nonzero_code_without_message_gets_placeholder() {
    let r = parse_inbound_frame("{\"code\":5}");
    assert_eq!(r, Some(TranscriptEvent::ServiceError(5, "unknown".to_string())));
}

#[test]
fn zero_code_is_ignored() {
    assert_eq!(parse_inbound_frame("{\"code\":0}"), None);
}

#[test]
fn unknown_event_is_ignored() {
    assert_eq!(parse_inbound_frame("{\"event\":\"heartbeat\"}"), None);
}

#[test]
fn malformed_json_is_ignored() {
    assert_eq!(parse_inbound_frame("not json at all"), None);
    assert_eq!(parse_inbound_frame("{\"event\":"), None);
}

#[test]
fn extra_fields_do_not_disturb_recognition() {
    let r = parse_inbound_frame(
        "{\"extra\":[1,2,{\"x\":null}],\"event\":\"result\",\"result\":{\"Text\":\"ok\",\"more\":true}}",
    );
    assert_eq!(r, Some(TranscriptEvent::Partial("ok".to_string())));
}

#[test]
fn finish_control_frame_text_is_fixed() {
    assert_eq!(finish_frame_text(), "{\"event\":\"finish\"}".to_string());
}
