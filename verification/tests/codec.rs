use codex_supervisor::codec::plan_send;
use codex_supervisor::codec::frame_line;
use codex_supervisor::codec::SendPlan;

#[test]
fn string_identifier_is_canonicalized_with_quotes() {
    match plan_send("{\"id\":\"r1\",\"method\":\"ping\"}") {
        SendPlan::Request { id, line } => {
            assert_eq!(id, "\"r1\"");
            assert_eq!(line, "{\"id\":\"r1\",\"method\":\"ping\"}");
        },
        _ => panic!("a payload with an id must be planned as a request"),
    }
}

#[test]
fn numeric_identifier_is_canonicalized_as_digits() {
    match plan_send("{\"id\":0,\"method\":\"initialize\"}") {
        SendPlan::Request { id, .. } => assert_eq!(id, "0"),
        _ => panic!("a payload with an id must be planned as a request"),
    }
}

#[test]
fn numeric_and_string_identifiers_do_not_collide() {
    let numeric = match plan_send("{\"id\":1}") {
        SendPlan::Request { id, .. } => id,
        _ => panic!("expected a request"),
    };
    let textual = match plan_send("{\"id\":\"1\"}") {
        SendPlan::Request { id, .. } => id,
        _ => panic!("expected a request"),
    };
    assert_ne!(numeric, textual);
}

#[test]
fn payload_without_identifier_is_a_notification() {
    match plan_send("{\"method\":\"log\",\"params\":{\"msg\":\"hi\"}}") {
        SendPlan::Notify { line } => {
            assert_eq!(line, "{\"method\":\"log\",\"params\":{\"msg\":\"hi\"}}");
        },
        _ => panic!("a payload without an id must be planned as a notification"),
    }
}

#[test]
fn malformed_payload_is_rejected_with_a_description() {
    match plan_send("this is not json") {
        SendPlan::Invalid { error } => assert!(!error.is_empty()),
        _ => panic!("a malformed payload must be rejected"),
    }
}

#[test]
fn planned_line_is_the_canonical_compact_rendering() {
    match plan_send("{ \"b\" : 1 , \"a\" : 2 }") {
        SendPlan::Notify { line } => assert_eq!(line, "{\"a\":2,\"b\":1}"),
        _ => panic!("expected a notification"),
    }
}

#[test]
fn framing_appends_exactly_one_newline() {
    assert_eq!(frame_line("{\"a\":1}"), "{\"a\":1}\n");
    assert_eq!(frame_line(""), "\n");
}
