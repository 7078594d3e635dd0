use codex_supervisor::codec::plan_send;
use codex_supervisor::codec::SendPlan;
use codex_supervisor::supervisor::route_stderr_line;
use codex_supervisor::supervisor::Event;
use codex_supervisor::supervisor::ExitPoll;
use codex_supervisor::supervisor::Routed;
use codex_supervisor::supervisor::StopOutcome;
use codex_supervisor::supervisor::Supervisor;
use codex_supervisor::supervisor::WatchStep;

fn running_supervisor() -> Supervisor<u32> {
    let mut s: Supervisor<u32> = Supervisor::new();
    assert!(s.mark_started());
    s
}

fn register_payload(s: &mut Supervisor<u32>, payload: &str, waiter: u32) -> String {
    match plan_send(payload) {
        SendPlan::Request { id, line } => {
            assert!(s.register(id, waiter).is_none());
            line
        },
        _ => panic!("expected a request payload"),
    }
}

#[test]
fn echoed_response_resolves_the_request_exactly() {
    let mut s = running_supervisor();
    let line = register_payload(&mut s, "{\"id\":\"r1\",\"method\":\"ping\"}", 7);
    assert_eq!(line, "{\"id\":\"r1\",\"method\":\"ping\"}");
    match s.route_line("{\"id\":\"r1\",\"result\":\"pong\"}") {
        Routed::Respond { waiter, message } => {
            assert_eq!(waiter, 7);
            assert_eq!(message, "{\"id\":\"r1\",\"result\":\"pong\"}");
        },
        _ => panic!("the echoed response must resolve the registered request"),
    }
}

#[test]
fn unrelated_traffic_does_not_touch_the_registered_request() {
    let mut s = running_supervisor();
    register_payload(&mut s, "{\"id\":\"r1\",\"method\":\"ping\"}", 7);
    match s.route_line("") {
        Routed::Blank => (),
        _ => panic!("a blank line is skipped"),
    }
    match s.route_line("   \t ") {
        Routed::Blank => (),
        _ => panic!("a whitespace line is skipped"),
    }
    match s.route_line("{\"id\":\"r2\",\"result\":1}") {
        Routed::Forward { message } => assert_eq!(message, "{\"id\":\"r2\",\"result\":1}"),
        _ => panic!("a response to no outstanding request is forwarded"),
    }
    match s.route_line("{\"method\":\"event\"}") {
        Routed::Forward { .. } => (),
        _ => panic!("a message without an id is forwarded"),
    }
    match s.route_line("{broken") {
        Routed::Malformed { error } => assert!(!error.is_empty()),
        _ => panic!("a malformed line is reported"),
    }
    match s.route_line("{\"id\":\"r1\",\"result\":\"pong\"}") {
        Routed::Respond { waiter, .. } => assert_eq!(waiter, 7),
        _ => panic!("the request must still be resolvable after unrelated traffic"),
    }
}

#[test]
fn a_response_is_delivered_once_never_also_forwarded() {
    let mut s = running_supervisor();
    register_payload(&mut s, "{\"id\":9}", 3);
    match s.route_line("{\"id\":9,\"result\":null}") {
        Routed::Respond { .. } => (),
        _ => panic!("first arrival resolves the request"),
    }
    match s.route_line("{\"id\":9,\"result\":null}") {
        Routed::Forward { .. } => (),
        _ => panic!("with the entry gone, the same line is only forwarded"),
    }
}

#[test]
fn second_start_is_refused_and_leaves_the_instance_alone() {
    let mut s = running_supervisor();
    register_payload(&mut s, "{\"id\":\"r1\"}", 7);
    assert!(!s.mark_started());
    assert!(s.is_running());
    match s.route_line("{\"id\":\"r1\",\"result\":true}") {
        Routed::Respond { waiter, .. } => assert_eq!(waiter, 7),
        _ => panic!("the refused start must not have altered the pending table"),
    }
}

#[test]
fn stop_resolves_every_outstanding_request() {
    let mut s = running_supervisor();
    register_payload(&mut s, "{\"id\":1}", 11);
    register_payload(&mut s, "{\"id\":2}", 12);
    register_payload(&mut s, "{\"id\":3}", 13);
    match s.on_stop() {
        StopOutcome::Stopping { mut waiters } => {
            waiters.sort_by(|a, b| a.0.cmp(&b.0));
            let flat: Vec<(String, u32)> = waiters;
            assert_eq!(
                flat,
                vec![
                    (String::from("1"), 11),
                    (String::from("2"), 12),
                    (String::from("3"), 13),
                ]
            );
        },
        StopOutcome::WasIdle => panic!("a running instance must be stopped, not skipped"),
    }
    assert!(!s.is_running());
}

#[test]
fn stop_is_idempotent() {
    let mut s: Supervisor<u32> = Supervisor::new();
    match s.on_stop() {
        StopOutcome::WasIdle => (),
        _ => panic!("stopping nothing is a no-op"),
    }
    let mut s2 = running_supervisor();
    match s2.on_stop() {
        StopOutcome::Stopping { .. } => (),
        _ => panic!("the first stop acts"),
    }
    match s2.on_stop() {
        StopOutcome::WasIdle => (),
        _ => panic!("the second stop in a row is a no-op"),
    }
}

#[test]
fn unprompted_exit_emits_one_exit_event_and_clears_the_slot() {
    let mut s = running_supervisor();
    register_payload(&mut s, "{\"id\":5}", 9);
    match s.exit_watch_step(ExitPoll::StillAlive) {
        WatchStep::KeepWatching => (),
        _ => panic!("a live process keeps the watcher watching"),
    }
    match s.exit_watch_step(ExitPoll::PollError) {
        WatchStep::KeepWatching => (),
        _ => panic!("a failed poll keeps the watcher watching"),
    }
    match s.exit_watch_step(ExitPoll::Exited { code: Some(1), signal: None }) {
        WatchStep::EmitExit { code, signal, waiters } => {
            assert_eq!(code, Some(1));
            assert_eq!(signal, None);
            assert_eq!(waiters, vec![(String::from("5"), 9)]);
        },
        _ => panic!("the first observed exit emits the exit event"),
    }
    assert!(!s.is_running());
    match s.exit_watch_step(ExitPoll::Exited { code: Some(1), signal: None }) {
        WatchStep::Finished => (),
        _ => panic!("a second observation must not emit a second exit event"),
    }
}

#[test]
fn watcher_ends_silently_after_a_stop() {
    let mut s = running_supervisor();
    match s.on_stop() {
        StopOutcome::Stopping { .. } => (),
        _ => panic!("the stop acts"),
    }
    match s.exit_watch_step(ExitPoll::Exited { code: Some(0), signal: None }) {
        WatchStep::Finished => (),
        _ => panic!("with the slot cleared by stop, the watcher emits nothing"),
    }
}

#[test]
fn stderr_lines_become_verbatim_diagnostics() {
    match route_stderr_line(String::from("warning: something")) {
        Event::Diagnostic { line } => assert_eq!(line, "warning: something"),
        _ => panic!("stderr is forwarded verbatim as a diagnostic"),
    }
}
