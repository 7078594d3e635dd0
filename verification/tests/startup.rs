use codex_supervisor::codec::plan_send;
use codex_supervisor::codec::SendPlan;
use codex_supervisor::escape::json_escape;
use codex_supervisor::startup::ClientInfo;
use codex_supervisor::startup::complete_handshake;
use codex_supervisor::startup::init_request_line;
use codex_supervisor::startup::initialized_notification_line;
use codex_supervisor::startup::resolve_binary;
use codex_supervisor::startup::stopped_error_line;
use codex_supervisor::startup::validate_working_directory;

#[test]
fn default_client_identity() {
    let c = ClientInfo::default();
    assert_eq!(c.name, "codexeasy");
    assert_eq!(c.title, "Codex Easy GUI");
    assert_eq!(c.version, "0.1.0");
}

#[test]
fn escaping_leaves_plain_text_alone() {
    assert_eq!(json_escape("plain text"), "plain text");
}

#[test]
fn escaping_quotes_backslashes_and_control_characters() {
    assert_eq!(json_escape("a\"b\\c"), "a\\\"b\\\\c");
    assert_eq!(json_escape("\n"), "\\u000a");
    assert_eq!(json_escape("\u{1f}"), "\\u001f");
}

#[test]
fn init_request_carries_the_identity_under_id_zero() {
    let line = init_request_line(&ClientInfo::default());
    assert_eq!(
        line,
        "{\"id\":0,\"method\":\"initialize\",\"params\":{\"clientInfo\":\
         {\"name\":\"codexeasy\",\"title\":\"Codex Easy GUI\",\"version\":\"0.1.0\"}}}"
    );
    match plan_send(&line) {
        SendPlan::Request { id, .. } => assert_eq!(id, "0"),
        _ => panic!("the init request must carry identifier 0"),
    }
}

#[test]
fn init_request_survives_hostile_identity_strings() {
    let c = ClientInfo {
        name: String::from("a\"b"),
        title: String::from("c\\d"),
        version: String::from("e\nf"),
    };
    match plan_send(&init_request_line(&c)) {
        SendPlan::Request { id, .. } => assert_eq!(id, "0"),
        _ => panic!("an escaped identity must still form one well-formed request"),
    }
}

#[test]
fn initialized_notification_carries_no_identifier() {
    let line = initialized_notification_line();
    assert_eq!(line, "{\"method\":\"initialized\",\"params\":{}}");
    match plan_send(&line) {
        SendPlan::Notify { .. } => (),
        _ => panic!("the initialized notification must carry no id"),
    }
}

#[test]
fn stopped_error_is_one_well_formed_line() {
    let line = stopped_error_line();
    assert_eq!(line, "{\"error\":{\"message\":\"codex app-server stopped\"}}");
    match plan_send(&line) {
        SendPlan::Notify { .. } => (),
        _ => panic!("the stop resolution payload must be well-formed JSON without an id"),
    }
}

#[test]
fn binary_path_resolution() {
    assert_eq!(resolve_binary(&None), "codex");
    assert_eq!(resolve_binary(&Some(String::from("   "))), "codex");
    assert_eq!(resolve_binary(&Some(String::from(""))), "codex");
    assert_eq!(resolve_binary(&Some(String::from("/usr/bin/codex"))), "/usr/bin/codex");
}

#[test]
fn working_directory_validation() {
    assert!(validate_working_directory(&None, false, false).is_ok());
    assert!(validate_working_directory(&Some(String::from("/w")), true, true).is_ok());
    assert_eq!(
        validate_working_directory(&Some(String::from("/w")), false, false),
        Err(String::from("Workspace path does not exist: /w"))
    );
    assert_eq!(
        validate_working_directory(&Some(String::from("/w")), true, false),
        Err(String::from("Workspace path is not a directory: /w"))
    );
}

#[test]
fn handshake_response_yields_the_user_agent() {
    let r = complete_handshake(
        "{\"id\":0,\"result\":{\"userAgent\":\"x\"}}",
        String::from("codex"),
        Some(String::from("/w")),
    );
    assert_eq!(r.user_agent, Some(String::from("x")));
    assert_eq!(r.binary_path, "codex");
    assert_eq!(r.working_directory, Some(String::from("/w")));
}

#[test]
fn handshake_response_without_user_agent() {
    let r = complete_handshake("{\"id\":0,\"result\":{}}", String::from("codex"), None);
    assert_eq!(r.user_agent, None);
    let r2 = complete_handshake("not json at all", String::from("codex"), None);
    assert_eq!(r2.user_agent, None);
}
