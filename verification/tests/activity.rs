use nativechat::activity::{
    activity_from_agui, activity_from_replay, deeds_from_replay, short_command, tool_standin,
    ActivityTick, BotActivity, ToolCallTracker, WAKING_COMPUTER,
};
use nativechat::json::Json;

fn frame(text: &str) -> Json {
    Json::parse(text).expect("test JSON")
}

fn showing(label: &str) -> ActivityTick {
    ActivityTick::Show(BotActivity { label: label.into() })
}

#[test]
fn thinking_and_writing() {
    let ev = frame(r#"{"type":"REASONING_MESSAGE_CONTENT","delta":"hmm"}"#);
    assert_eq!(activity_from_agui(&ev, None), showing("Thinking"));
    let ev = frame(r#"{"type":"TEXT_MESSAGE_CONTENT","delta":"Hi"}"#);
    assert_eq!(activity_from_agui(&ev, None), showing("Writing"));
    let ev = frame(r#"{"type":"RUN_FINISHED"}"#);
    assert_eq!(activity_from_agui(&ev, None), ActivityTick::Clear);
}

#[test]
fn read_and_shell_labels() {
    let ev = frame(r#"{"type":"TOOL_CALL_START","toolCallName":"Read"}"#);
    assert_eq!(
        activity_from_agui(&ev, Some(r#"{"path":"/tmp/foo.rs"}"#)),
        showing("Reading foo.rs")
    );
    let ev = frame(r#"{"type":"TOOL_CALL_START","toolCallName":"Shell"}"#);
    assert_eq!(
        activity_from_agui(&ev, Some(r#"{"command":"cat > notes.md"}"#)),
        showing("Drafting the file")
    );
    assert_eq!(
        activity_from_agui(&ev, Some(r#"{"command":"cargo test"}"#)),
        showing("Running `cargo test`")
    );
    assert_eq!(activity_from_agui(&ev, None), showing("Running commands"));
}

#[test]
fn args_frame_is_labelled_by_the_name_from_its_start_frame() {
    let mut tracker = ToolCallTracker::default();
    let start = frame(r#"{"type":"TOOL_CALL_START","toolCallId":"c1","toolCallName":"Shell"}"#);
    assert_eq!(tracker.tick(&start), showing("Running commands"));
    let args = frame(
        r#"{"type":"TOOL_CALL_ARGS","toolCallId":"c1","delta":"{\"command\":\"cargo test\"}"}"#,
    );
    assert_eq!(tracker.tick(&args), showing("Running `cargo test`"));
}

#[test]
fn replay_status_is_the_last_frame_that_set_one() {
    let mut events = vec![
        frame(r#"{"type":"RUN_STARTED"}"#),
        frame(r#"{"type":"TOOL_CALL_START","toolCallId":"c1","toolCallName":"Shell"}"#),
        frame(r#"{"type":"TOOL_CALL_ARGS","toolCallId":"c1","arguments":{"command":"date"}}"#),
    ];
    assert_eq!(
        activity_from_replay(&events),
        Some(BotActivity { label: "Running `date`".into() })
    );
    events.push(frame(r#"{"type":"RUN_FINISHED"}"#));
    assert_eq!(activity_from_replay(&events), None);
}

#[test]
fn screen_tools_say_what_the_bot_is_doing_on_its_computer() {
    let ev = frame(r#"{"type":"TOOL_CALL_START","toolCallName":"computer"}"#);
    assert_eq!(
        activity_from_agui(&ev, Some(r#"{"action":"screenshot"}"#)),
        showing("Looking at its screen")
    );
    assert_eq!(
        activity_from_agui(&ev, Some(r#"{"action":"click","coordinate":[1,2]}"#)),
        showing("Clicking on its computer")
    );
    let ev = frame(r#"{"type":"TOOL_CALL_START","toolCallName":"open_url"}"#);
    assert_eq!(
        activity_from_agui(&ev, Some(r#"{"url":"https://facebook.com/login"}"#)),
        showing("Opening facebook.com")
    );
}

#[test]
fn short_command_keeps_the_status_line_to_one_line() {
    assert_eq!(short_command("ls -la"), "ls -la");
    assert_eq!(short_command("  echo hi\nls"), "echo hi…");
    let long = "x".repeat(60);
    let cut = short_command(&long);
    assert_eq!(cut.chars().count(), 49);
    assert!(cut.ends_with('…'));
}

#[test]
fn a_turn_that_only_looked_at_its_screen_leaves_that_behind() {
    let mut tracker = ToolCallTracker::default();
    tracker.tick(&frame(r#"{"type":"TOOL_CALL_START","toolCallId":"c1","toolCallName":"computer"}"#));
    tracker.tick(&frame(
        r#"{"type":"TOOL_CALL_ARGS","toolCallId":"c1","arguments":{"action":"screenshot"}}"#,
    ));
    assert_eq!(
        tool_standin(&tracker.deeds()),
        Some("[took a screenshot of my screen]".into())
    );
}

#[test]
fn a_turn_that_did_nothing_has_nothing_to_stand_in_for() {
    assert_eq!(tool_standin(&[]), None);
}

#[test]
fn deeds_name_each_tool_once_and_in_the_order_it_was_called() {
    let events = vec![
        frame(r#"{"type":"TOOL_CALL_START","toolCallId":"c1","toolCallName":"open_url"}"#),
        frame(r#"{"type":"TOOL_CALL_ARGS","toolCallId":"c1","arguments":{"url":"https://example.com/login"}}"#),
        frame(r#"{"type":"TOOL_CALL_START","toolCallId":"c2","toolCallName":"computer"}"#),
        frame(r#"{"type":"TOOL_CALL_ARGS","toolCallId":"c2","arguments":{"action":"screenshot"}}"#),
        frame(r#"{"type":"TOOL_CALL_START","toolCallId":"c3","toolCallName":"computer"}"#),
        frame(r#"{"type":"TOOL_CALL_ARGS","toolCallId":"c3","arguments":{"action":"screenshot"}}"#),
    ];
    assert_eq!(
        tool_standin(&deeds_from_replay(&events)),
        Some("[opened example.com, then took a screenshot of my screen]".into())
    );
}

#[test]
fn a_generative_form_or_chart_is_remembered_as_shown_not_used() {
    let events = vec![
        frame(r#"{"type":"TOOL_CALL_START","toolCallId":"c1","toolCallName":"form"}"#),
        frame(r#"{"type":"TOOL_CALL_START","toolCallId":"c2","toolCallName":"bar_chart"}"#),
    ];
    assert_eq!(
        tool_standin(&deeds_from_replay(&events)),
        Some("[showed you a form, then drew you a chart]".into())
    );
}

#[test]
fn a_box_being_woken_is_a_status() {
    let ev = frame(r#"{"type":"CUSTOM","name":"box-waking","coworkerId":"cw_1"}"#);
    assert_eq!(activity_from_agui(&ev, None), showing(WAKING_COMPUTER));
}

#[test]
fn awaiting_approval_is_a_status() {
    let ev = frame(r#"{"type":"CUSTOM","name":"run-awaiting-approval"}"#);
    assert_eq!(activity_from_agui(&ev, None), showing("Waiting for approval"));
}

#[test]
fn a_live_user_form_is_waiting_for_you_not_approval() {
    let ev = frame(
        r#"{
            "type": "CUSTOM",
            "name": "run-awaiting-approval",
            "runId": "run-1",
            "callId": "call-9",
            "tool": "request_user_form",
            "reason": "user-form",
            "why": "Waiting for you",
            "arguments": {
                "title": "Google account email",
                "fields": [{"id":"email","label":"Email","type":"email","required":true}]
            }
        }"#,
    );
    assert_eq!(activity_from_agui(&ev, None), showing("Waiting for you"));
    let fixture = frame(
        r#"{
            "type": "CUSTOM",
            "name": "user-form",
            "value": {
                "entryId": "e1",
                "formRequest": {
                    "title": "Google account email",
                    "fields": [{"id":"email","label":"Email","type":"email","required":true}]
                }
            }
        }"#,
    );
    assert_eq!(activity_from_agui(&fixture, None), showing("Waiting for you"));
    let settled = frame(
        r#"{
            "type": "CUSTOM",
            "name": "user-form",
            "value": { "entryId": "e1", "formResolution": "submitted" }
        }"#,
    );
    assert_eq!(activity_from_agui(&settled, None), ActivityTick::Clear);
    let tool = frame(r#"{"type":"TOOL_CALL_START","toolCallName":"request_user_form"}"#);
    assert_eq!(activity_from_agui(&tool, None), showing("Waiting for you"));
}

/// A tool called twice over is one deed in the stand-in, however often it ran.
#[test]
fn a_tool_called_again_is_said_once() {
    let events = vec![
        frame(r#"{"type":"TOOL_CALL_START","toolCallId":"c1","toolCallName":"computer"}"#),
        frame(r#"{"type":"TOOL_CALL_ARGS","toolCallId":"c1","arguments":{"action":"screenshot"}}"#),
        frame(r#"{"type":"TOOL_CALL_START","toolCallId":"c1","toolCallName":"computer"}"#),
        frame(r#"{"type":"TOOL_CALL_ARGS","toolCallId":"c1","arguments":{"action":"screenshot"}}"#),
    ];
    let deeds = deeds_from_replay(&events);
    assert_eq!(deeds.len(), 1);
}

/// A run's deeds come in the order each call first came, each once, from
/// the arguments its frames spelled: the second screenshot adds nothing.
#[test]
fn a_runs_deeds_come_in_call_order_each_once() {
    let mut tracker = ToolCallTracker::default();
    for text in [
        r#"{"type":"TOOL_CALL_START","toolCallId":"c1","toolCallName":"open_url"}"#,
        r#"{"type":"TOOL_CALL_ARGS","toolCallId":"c1","delta":"{\"url\":\"https://example.com"}"#,
        r#"{"type":"TOOL_CALL_ARGS","toolCallId":"c1","delta":"/login\"}"}"#,
        r#"{"type":"TOOL_CALL_START","toolCallId":"c2","toolCallName":"computer"}"#,
        r#"{"type":"TOOL_CALL_ARGS","toolCallId":"c2","arguments":{"action":"screenshot"}}"#,
        r#"{"type":"TOOL_CALL_START","toolCallId":"c3","toolCallName":"computer"}"#,
        r#"{"type":"TOOL_CALL_ARGS","toolCallId":"c3","arguments":{"action":"screenshot"}}"#,
        r#"{"type":"TOOL_CALL_END","toolCallId":"c1"}"#,
    ] {
        tracker.tick(&frame(text));
    }
    assert_eq!(
        tracker.deeds(),
        vec!["opened example.com".to_string(), "took a screenshot of my screen".to_string()]
    );
}
