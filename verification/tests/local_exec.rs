use nativechat::client::DaemonMachine;
use nativechat::json::{to_json_text, Json};
use nativechat::local_exec::{
    exec_request, exec_response_body, frame_action, machine_label, outcome_json, plan_daemon,
    shell_plan, DaemonPlan, FrameAction, RequestStream, ShellOutcome, ShellPlan, StoredDaemon, EXEC_TIMEOUT_MS,
};

fn exec_json(text: &str) -> Json {
    Json::parse(text).expect("test JSON")
}

fn exec_frame(request_id: &str, command: &str) -> Json {
    exec_json(&format!(
        r#"{{"kind":"exec","requestId":"{request_id}","serverMessage":{{"shellStreamArgs":{{"command":"{command}","workingDirectory":"","timeout":5000}}}}}}"#
    ))
}

#[test]
fn exec_frame_names_the_command() {
    let frame = exec_frame("req-1", "ls /tmp");
    let request = exec_request(&frame).expect("an exec request");
    assert_eq!(request.request_id, "req-1");
    assert_eq!(request.command, "ls /tmp");
    assert_eq!(request.cwd, "");
    assert_eq!(request.timeout_ms, 5000);
}

/// No time named, or zero, is the standing limit; no request id is no
/// request at all.
#[test]
fn a_frame_without_a_time_gets_the_standing_one() {
    let frame = exec_json(r#"{"kind":"exec","requestId":"req-2","serverMessage":{"shellStreamArgs":{"command":"pwd","timeout":0}}}"#);
    assert_eq!(exec_request(&frame).unwrap().timeout_ms, EXEC_TIMEOUT_MS);
    let bare = exec_json(r#"{"kind":"exec","requestId":"req-3"}"#);
    let request = exec_request(&bare).unwrap();
    assert_eq!(request.command, "");
    assert_eq!(request.timeout_ms, 120000);
    assert!(exec_request(&exec_json(r#"{"kind":"exec"}"#)).is_none());
}

#[test]
fn an_exec_for_a_command_already_running_is_not_run_again() {
    let running = vec!["req-1".to_string()];
    assert!(matches!(frame_action(&exec_frame("req-1", "ls"), &running), FrameAction::Ignore));
    assert!(matches!(frame_action(&exec_frame("req-2", "ls"), &running), FrameAction::Start(id) if id == "req-2"));
    let cancel = exec_json(r#"{"kind":"cancel","requestId":"req-1"}"#);
    assert!(matches!(frame_action(&cancel, &running), FrameAction::Stop(id) if id == "req-1"));
    assert!(matches!(frame_action(&cancel, &[]), FrameAction::Ignore));
    let welcome = exec_json(r#"{"kind":"welcome","requestId":"req-9"}"#);
    assert!(matches!(frame_action(&welcome, &running), FrameAction::Ignore));
}

fn machine(id: &str, revoked: bool) -> DaemonMachine {
    DaemonMachine { machine_id: id.into(), label: String::new(), revoked, connected: false }
}

#[test]
fn a_listed_enrolment_is_kept_and_a_revoked_one_replaced() {
    let stored = StoredDaemon { machine_id: "mac_1".into(), token: "t".into(), label: String::new() };
    let listed = vec![machine("mac_0", true), machine("mac_1", false)];
    assert!(matches!(plan_daemon(Some(&stored), &listed), DaemonPlan::Keep));
    let revoked = vec![machine("mac_1", true), machine("mac_2", false)];
    assert!(matches!(plan_daemon(Some(&stored), &revoked), DaemonPlan::Enrol(Some(id)) if id == "mac_2"));
    assert!(matches!(plan_daemon(None, &[machine("mac_3", true)]), DaemonPlan::Enrol(None)));
}

#[test]
fn the_label_names_the_host_or_this_mac() {
    assert_eq!(machine_label(Some("  studio.local\n")), "NativeChat on studio.local");
    assert_eq!(machine_label(Some("   ")), "NativeChat on this Mac");
    assert_eq!(machine_label(None), "NativeChat on this Mac");
}

#[test]
fn a_blank_command_is_refused_and_a_blank_directory_ignored() {
    match shell_plan("   ", "/tmp") {
        ShellPlan::Refuse(ShellOutcome::SpawnError(why)) => assert_eq!(why, "empty command"),
        other => panic!("expected a refusal, got {other:?}"),
    }
    assert!(matches!(shell_plan("ls", " "), ShellPlan::Run(None)));
    assert!(matches!(shell_plan("ls", "/tmp"), ShellPlan::Run(Some(dir)) if dir == "/tmp"));
}

#[test]
fn the_result_posted_names_how_the_command_ended() {
    let done = ShellOutcome::Finished {
        success: false,
        code: -2,
        stdout: "a".into(),
        stderr: "b\n".into(),
    };
    assert_eq!(
        to_json_text(&outcome_json(&done)),
        r#"{"failure":{"exitCode":-2,"stderr":"b\n","stdout":"a"}}"#
    );
    assert_eq!(
        to_json_text(&outcome_json(&ShellOutcome::TimedOut(120000))),
        r#"{"timeout":{"timeoutMs":120000}}"#
    );
    let body = exec_response_body("mac_1", "req-1", &ShellOutcome::SpawnError("empty command".into()));
    assert_eq!(
        to_json_text(&body),
        r#"{"frames":[{"kind":"client","message":{"shellResult":{"spawnError":{"error":"empty command"}}},"requestId":"req-1"}],"providerId":"mac_1"}"#
    );
}

/// Only whole events are read; a `data:` line with nothing, or with what
/// is not JSON, hands nothing on; an event cut across two reads is read once.
#[test]
fn the_request_stream_hands_on_each_whole_frame_once() {
    let mut stream = RequestStream::new();
    let first = stream.feed(": keepalive\n\ndata: {\"kind\":\"exec\",\"requestId\":\"r1\"}\n\ndata: {\"kind\":");
    assert_eq!(first.len(), 1);
    assert_eq!(first[0].str_at("requestId"), Some("r1"));
    let second = stream.feed("\"cancel\",\"requestId\":\"r1\"}\r\n\ndata:\n\ndata: not json\n\n");
    assert_eq!(second.len(), 1);
    assert_eq!(second[0].str_at("kind"), Some("cancel"));
    assert!(stream.feed("data: {}").is_empty());
    assert_eq!(stream.feed("\n\n").len(), 1);
}

/// Cut anywhere, the stream hands on the same frames as read whole.
#[test]
fn the_request_stream_reads_the_same_however_it_is_cut() {
    let body = "data: {\"kind\":\"exec\",\"requestId\":\"r1\"}\n\n: ping\n\ndata: {\"kind\":\"cancel\",\"requestId\":\"r1\"}\n\ndata: {\"kind\"";
    let mut whole = RequestStream::new();
    let expected: Vec<String> = whole.feed(body).iter().map(to_json_text).collect();
    assert_eq!(expected.len(), 2);
    for cut in 0..=body.len() {
        if !body.is_char_boundary(cut) {
            continue;
        }
        let mut stream = RequestStream::new();
        let mut got: Vec<String> = stream.feed(&body[..cut]).iter().map(to_json_text).collect();
        got.extend(stream.feed(&body[cut..]).iter().map(to_json_text));
        assert_eq!(got, expected, "cut at {cut}");
    }
}
