use nativechat::client::LocalExecMode;
use nativechat::gen_ui::{
    agui_tools, collapse_open_approvals, command_from_replay_events, local_exec_outcome,
    policy_answer, ApprovalSpec, ChatPart, LocalExecResolution, TurnAssembler, UiSpec,
    USER_MACHINE_SHELL,
};
use nativechat::json::Json;
use nativechat::user_form::UserFormFieldKind;

fn ev(text: &str) -> Json {
    Json::parse(text).expect("test JSON")
}

fn text(delta: &str) -> Json {
    let mut escaped = String::new();
    for c in delta.chars() {
        match c {
            '"' => escaped.push_str("\\\""),
            '\\' => escaped.push_str("\\\\"),
            '\n' => escaped.push_str("\\n"),
            _ => escaped.push(c),
        }
    }
    ev(&format!(r#"{{"type":"TEXT_MESSAGE_CONTENT","delta":"{escaped}"}}"#))
}

#[test]
fn local_exec_outcome_matches_grok_copy() {
    let here = "your computer";
    assert_eq!(
        local_exec_outcome("Hexuria", LocalExecResolution::AllowOnce, here),
        "Hexuria can run commands on your computer this time."
    );
    assert_eq!(
        local_exec_outcome("Hexuria", LocalExecResolution::Always, here),
        "Hexuria can run commands on your computer."
    );
    assert_eq!(
        local_exec_outcome("Hexuria", LocalExecResolution::DenyOnce, here),
        "Hexuria was not allowed to run commands on your computer."
    );
    assert_eq!(
        local_exec_outcome("Hexuria", LocalExecResolution::Never, here),
        "Hexuria cannot run commands on your computer."
    );
    assert_eq!(
        local_exec_outcome("Hexuria", LocalExecResolution::AllowOnce, "its computer"),
        "Hexuria can run commands on its computer this time."
    );
}

fn approval_for(tool: &str) -> ApprovalSpec {
    ApprovalSpec {
        run_id: "r1".into(),
        call_id: "c1".into(),
        tool: tool.into(),
        command: "ls".into(),
        why: String::new(),
        reason: "exec-consent".into(),
        output: None,
        ok: None,
    }
}

#[test]
fn only_the_local_shell_tool_runs_on_this_mac() {
    let local = approval_for(USER_MACHINE_SHELL);
    let boxed = approval_for("Shell");
    assert!(local.runs_on_this_mac());
    assert!(!boxed.runs_on_this_mac());
    assert_eq!(local.place(), "your computer");
    assert_eq!(boxed.place(), "its computer");
}

#[test]
fn machine_policy_never_answers_for_a_box_tool() {
    let local = approval_for(USER_MACHINE_SHELL);
    let boxed = approval_for("Shell");
    assert_eq!(policy_answer(&local, Some(LocalExecMode::Always)), Some(LocalExecResolution::Always));
    assert_eq!(policy_answer(&local, Some(LocalExecMode::Never)), Some(LocalExecResolution::Never));
    assert_eq!(policy_answer(&local, Some(LocalExecMode::Ask)), None);
    assert_eq!(policy_answer(&local, None), None);
    assert_eq!(policy_answer(&boxed, Some(LocalExecMode::Always)), None);
    assert_eq!(policy_answer(&boxed, Some(LocalExecMode::Never)), None);
}

#[test]
fn text_deltas_stream_before_the_run_ends() {
    let mut turn = TurnAssembler::default();
    turn.push_event(&text("Hello "));
    let (plain, parts) = turn.snapshot();
    assert_eq!(plain, "Hello ");
    assert_eq!(parts, vec![ChatPart::Text("Hello ".into())]);
}

#[test]
fn incomplete_ui_json_is_held_not_painted() {
    let mut turn = TurnAssembler::default();
    turn.push_event(&text("See this {\"ui\":\"bar-chart\",\"bars\":["));
    let (plain, parts) = turn.snapshot();
    assert_eq!(plain, "");
    assert!(parts.is_empty());
}

#[test]
fn a_ui_tool_in_flight_does_not_stream() {
    let mut turn = TurnAssembler::default();
    turn.push_event(&ev(r#"{"type":"TOOL_CALL_START","toolCallId":"c1","toolCallName":"bar_chart"}"#));
    turn.push_event(&text("should not appear yet"));
    let (plain, parts) = turn.snapshot();
    assert_eq!(plain, "");
    assert!(parts.is_empty());
    turn.push_event(&ev(
        r#"{"type":"TOOL_CALL_ARGS","toolCallId":"c1","delta":"{\"title\":\"Q3\",\"bars\":[{\"label\":\"A\",\"value\":3}]}"}"#,
    ));
    turn.push_event(&ev(r#"{"type":"TOOL_CALL_END","toolCallId":"c1"}"#));
    let (_, parts) = turn.snapshot();
    assert!(matches!(parts.first(), Some(ChatPart::Text(t)) if t == "should not appear yet"));
    assert!(matches!(parts.get(1), Some(ChatPart::Ui(UiSpec::BarChart(_)))));
    let done = turn.take_completed_ui_tools();
    assert_eq!(done.len(), 1);
    assert_eq!(done[0].id, "c1");
}

#[test]
fn a_complete_bar_chart_object_mounts_without_waiting_for_later_text() {
    let mut turn = TurnAssembler::default();
    turn.push_event(&text(
        "See this {\"ui\":\"bar-chart\",\"title\":\"Q3\",\"bars\":[{\"label\":\"A\",\"value\":10}]} and more",
    ));
    let (plain, parts) = turn.snapshot();
    assert_eq!(plain, "See this  and more");
    assert!(matches!(parts[0], ChatPart::Text(ref t) if t == "See this "));
    assert!(matches!(parts[1], ChatPart::Ui(UiSpec::BarChart(_))));
    assert!(matches!(parts[2], ChatPart::Text(ref t) if t == " and more"));
}

#[test]
fn a_tool_call_chart_mounts_when_args_are_complete() {
    let mut turn = TurnAssembler::default();
    turn.push_event(&text("Here:"));
    turn.push_event(&ev(r#"{"type":"TOOL_CALL_START","toolCallId":"c1","toolCallName":"bar_chart"}"#));
    turn.push_event(&ev(
        r#"{"type":"TOOL_CALL_ARGS","toolCallId":"c1","delta":"{\"title\":\"Q3\",\"bars\":[{\"label\":\"A\",\"value\":3}]}"}"#,
    ));
    let (_, mid) = turn.snapshot();
    assert!(mid.iter().all(|p| !matches!(p, ChatPart::Ui(_))));
    turn.push_event(&ev(r#"{"type":"TOOL_CALL_END","toolCallId":"c1"}"#));
    let (_, parts) = turn.snapshot();
    assert!(matches!(parts.last(), Some(ChatPart::Ui(UiSpec::BarChart(_)))));
}

#[test]
fn a_custom_form_event_mounts_as_a_widget() {
    let mut turn = TurnAssembler::default();
    turn.push_event(&ev(
        r#"{"type":"CUSTOM","name":"ui","value":{"component":"form","title":"Next","fields":[{"id":"go","label":"Go","options":["Yes","No"]}],"submit":"Send"}}"#,
    ));
    let (_, parts) = turn.snapshot();
    assert!(matches!(parts.as_slice(), [ChatPart::Ui(UiSpec::Form(_))]));
}

#[test]
fn curly_braces_in_prose_are_not_held() {
    let mut turn = TurnAssembler::default();
    turn.push_event(&text("The set {a, b} is finite."));
    let (plain, _) = turn.snapshot();
    assert_eq!(plain, "The set {a, b} is finite.");
}

#[test]
fn command_from_replay_reads_tool_args_and_custom() {
    let events = vec![
        ev(r#"{"type":"TOOL_CALL_ARGS","toolCallId":"c1","delta":"{\"command\":\"ls /Volumes/goldcoders\"}"}"#),
        ev(r#"{"type":"CUSTOM","name":"run-awaiting-approval","callId":"c1","arguments":null}"#),
    ];
    assert_eq!(command_from_replay_events(&events, "c1"), "ls /Volumes/goldcoders");
    let custom = vec![ev(
        r#"{"type":"CUSTOM","name":"run-awaiting-approval","callId":"c2","arguments":{"command":"pwd"}}"#,
    )];
    assert_eq!(command_from_replay_events(&custom, "c2"), "pwd");
}

#[test]
fn shell_args_fill_an_approval_card_command() {
    let mut turn = TurnAssembler::default();
    turn.push_event(&ev(r#"{"type":"TOOL_CALL_START","toolCallId":"call-9","toolCallName":"user_machine_shell"}"#));
    turn.push_event(&ev(
        r#"{"type":"TOOL_CALL_ARGS","toolCallId":"call-9","delta":"{\"command\":\"ls /Volumes/goldcoders\"}"}"#,
    ));
    turn.push_event(&ev(
        r#"{"type":"CUSTOM","name":"run-awaiting-approval","runId":"run-1","callId":"call-9","tool":"user_machine_shell"}"#,
    ));
    let (_, parts) = turn.snapshot();
    match parts.as_slice() {
        [ChatPart::Approval(spec)] => {
            assert_eq!(spec.command, "ls /Volumes/goldcoders");
            assert_eq!(spec.run_id, "run-1");
        }
        other => panic!("expected approval with command, got {other:?}"),
    }
}

#[test]
fn run_awaiting_approval_is_a_card_not_a_sentence() {
    let mut turn = TurnAssembler::default();
    turn.push_event(&text("I'll check that path."));
    turn.push_event(&ev(
        r#"{
            "type": "CUSTOM",
            "name": "run-awaiting-approval",
            "runId": "run-1",
            "threadId": "t1",
            "callId": "call-9",
            "tool": "user_machine_shell",
            "arguments": {"command": "ls /Volumes/goldcoders/examples"},
            "reason": "exec-consent",
            "why": "your machine's owner must approve this command"
        }"#,
    ));
    let (plain, parts) = turn.snapshot();
    assert_eq!(plain, "I'll check that path.");
    assert!(turn.waiting_approval());
    match parts.as_slice() {
        [ChatPart::Text(text), ChatPart::Approval(spec)] => {
            assert_eq!(text, "I'll check that path.");
            assert_eq!(spec.run_id, "run-1");
            assert_eq!(spec.call_id, "call-9");
            assert_eq!(spec.tool, "user_machine_shell");
            assert_eq!(spec.command, "ls /Volumes/goldcoders/examples");
            assert_eq!(spec.reason, "exec-consent");
        }
        other => panic!("expected text + approval card, got {other:?}"),
    }
}

#[test]
fn a_finished_run_is_no_longer_waiting() {
    let mut turn = TurnAssembler::default();
    turn.push_event(&ev(
        r#"{"type":"CUSTOM","name":"run-awaiting-approval","runId":"run-1","callId":"call-9","tool":"user_machine_shell","arguments":{"command":"ls"}}"#,
    ));
    assert!(turn.waiting_approval());
    turn.push_event(&ev(r#"{"type":"RUN_FINISHED"}"#));
    assert!(!turn.waiting_approval());
}

fn ask(call_id: &str, command: &str) -> ChatPart {
    ChatPart::Approval(ApprovalSpec {
        run_id: "r".into(),
        call_id: call_id.into(),
        tool: "user_machine_shell".into(),
        command: command.into(),
        why: String::new(),
        reason: "exec-consent".into(),
        output: None,
        ok: None,
    })
}

#[test]
fn extra_open_approval_cards_are_dropped() {
    let parts = vec![ChatPart::Text("ok".into()), ask("old", "ls"), ask("new", "uname")];
    let open = vec!["old".to_string(), "new".to_string()];
    let out = collapse_open_approvals(&parts, &open);
    assert_eq!(out.len(), 2);
    assert!(matches!(&out[0], ChatPart::Text(t) if t == "ok"));
    assert!(matches!(&out[1], ChatPart::Approval(s) if s.call_id == "new"));
}

/// A card for a call that is no longer open is not a question, and stays.
#[test]
fn an_answered_card_is_left_alone() {
    let parts = vec![ask("done", "ls"), ask("new", "uname"), ask("new", "uname")];
    let open = vec!["new".to_string()];
    let out = collapse_open_approvals(&parts, &open);
    assert_eq!(out.len(), 2);
    assert!(matches!(&out[0], ChatPart::Approval(s) if s.call_id == "done"));
    assert!(matches!(&out[1], ChatPart::Approval(s) if s.call_id == "new"));
}

#[test]
fn a_refused_shell_result_is_not_a_permission_card() {
    let mut turn = TurnAssembler::default();
    turn.push_event(&ev(
        r#"{"type":"TOOL_CALL_START","toolCallId":"call_missing_args","toolCallName":"user_machine_shell"}"#,
    ));
    turn.push_event(&ev(r#"{"type":"TOOL_CALL_END","toolCallId":"call_missing_args"}"#));
    turn.push_event(&ev(
        r#"{"type":"TOOL_CALL_RESULT","toolCallId":"call_missing_args","ok":false,"content":"refused: bad arguments: missing field `command`"}"#,
    ));
    let (_, parts) = turn.snapshot();
    assert!(
        parts.iter().all(|part| !matches!(part, ChatPart::Approval(_))),
        "a refusal is not a command to approve, got {parts:?}"
    );
    assert!(!turn.waiting_approval());
}

#[test]
fn tool_result_stdout_lands_on_the_approval_card() {
    let mut turn = TurnAssembler::default();
    turn.push_event(&ev(
        r#"{"type":"CUSTOM","name":"run-awaiting-approval","runId":"run-1","callId":"call-9","tool":"user_machine_shell","arguments":{"command":"ls"}}"#,
    ));
    turn.push_event(&ev(
        r#"{"type":"TOOL_CALL_RESULT","toolCallId":"call-9","ok":true,"content":"exit 0\n--- stdout ---\nhello\n"}"#,
    ));
    let (_, parts) = turn.snapshot();
    match parts.as_slice() {
        [ChatPart::Approval(spec)] => {
            assert_eq!(spec.ok, Some(true));
            assert_eq!(spec.output.as_deref(), Some("exit 0\n--- stdout ---\nhello\n"));
        }
        other => panic!("expected approval with stdout, got {other:?}"),
    }
    assert!(!turn.waiting_approval());
}

/// A 1x1 transparent PNG: enough bytes to be a picture, small enough to read.
const TINY_PNG: &str = "iVBORw0KGgoAAAANSUhEUgAAAAEAAAABCAYAAAAfFcSJAAAADUlEQVR42mNkYPhfDwAChwGA60e6kgAAAABJRU5ErkJggg==";

fn result_with_image(call: &str, content: &str, mime: &str, width: u32, height: u32) -> Json {
    ev(&format!(
        r#"{{"type":"TOOL_CALL_RESULT","toolCallId":"{call}","content":"{content}","ok":true,"image":{{"mime":"{mime}","base64":"{TINY_PNG}","width":{width},"height":{height}}}}}"#
    ))
}

#[test]
fn a_tool_result_with_a_picture_is_a_screenshot_row() {
    let mut turn = TurnAssembler::default();
    turn.push_event(&text("Looking."));
    turn.push_event(&result_with_image(
        "c9",
        "clicking at 10,10; screenshot of the 1280x800 screen attached",
        "image/png",
        1280,
        800,
    ));
    turn.finish();
    let (_, parts) = turn.snapshot();
    let shot = parts
        .iter()
        .find_map(|part| match part {
            ChatPart::Screenshot(spec) => Some(spec),
            _ => None,
        })
        .expect("a screenshot part");
    assert_eq!(shot.call_id, "c9");
    assert_eq!((shot.width, shot.height), (1280, 800));
    assert!(shot.caption.starts_with("clicking at 10,10"));
    assert!(!shot.png.is_empty());
    assert!(matches!(parts.first(), Some(ChatPart::Text(text)) if text.contains("Looking.")));
}

#[test]
fn words_either_side_of_a_picture_are_two_paragraphs() {
    let mut turn = TurnAssembler::default();
    turn.push_event(&text("I'll open YouTube on my box "));
    turn.push_event(&text("using the taught recipe."));
    turn.push_event(&result_with_image(
        "c1",
        "ran recipe \\\"youtube\\\" (v2): 6 steps",
        "image/png",
        1280,
        800,
    ));
    turn.push_event(&text("YouTube is open on my box."));
    turn.finish();
    let (plain, _) = turn.snapshot();
    assert_eq!(
        plain,
        "I'll open YouTube on my box using the taught recipe.\n\nYouTube is open on my box."
    );
}

#[test]
fn a_result_without_a_png_is_not_a_screenshot() {
    let mut turn = TurnAssembler::default();
    turn.push_event(&result_with_image("c1", "wrote /tmp/x", "image/jpeg", 1, 1));
    turn.finish();
    let (_, parts) = turn.snapshot();
    assert!(!parts.iter().any(|part| matches!(part, ChatPart::Screenshot(_))));
}

/// The PNG's bytes are the decoded base64, not the text of it.
#[test]
fn a_screenshot_holds_the_decoded_bytes() {
    let mut turn = TurnAssembler::default();
    turn.push_event(&result_with_image("c2", "shot", "image/png", 1, 1));
    let (_, parts) = turn.snapshot();
    match parts.as_slice() {
        [ChatPart::Screenshot(shot)] => {
            assert_eq!(&shot.png[..8], &[0x89, b'P', b'N', b'G', 0x0d, 0x0a, 0x1a, 0x0a]);
            assert_eq!(shot.png.len(), 70);
        }
        other => panic!("expected one screenshot, got {other:?}"),
    }
}

fn user_form_custom(entry: &str, request: &str, resolution: &str) -> Json {
    ev(&format!(
        r#"{{"type":"CUSTOM","name":"user-form","value":{{"entryId":"{entry}","formRequest":{request},"formResolution":{resolution}}}}}"#
    ))
}

const PASSWORD_REQUEST: &str = r#"{
    "title": "Google password",
    "instruction": "Enter the password for that account.",
    "fields": [
        {"id": "password", "label": "Password", "type": "password", "required": true, "value": "s3cret-pass"}
    ]
}"#;

#[test]
fn a_user_form_custom_is_not_a_generative_form() {
    let mut turn = TurnAssembler::default();
    turn.push_event(&user_form_custom("entry-pw", PASSWORD_REQUEST, "null"));
    let (plain, parts) = turn.snapshot();
    assert_eq!(plain, "", "field values must not become chat text");
    match parts.as_slice() {
        [ChatPart::UserForm(spec)] => {
            assert_eq!(spec.title, "Google password");
            assert!(spec.fields[0].masked());
            assert!(spec.fields[0].prefill.is_none());
            assert!(spec.is_unresolved());
        }
        other => panic!("expected UserForm, got {other:?}"),
    }
    assert!(
        parts.iter().all(|part| !matches!(part, ChatPart::Ui(_))),
        "user-form must not mount as UiSpec::Form: {parts:?}"
    );
    let dump = format!("{parts:?}");
    assert!(!dump.contains("s3cret-pass"), "password must not appear in the assembler snapshot: {dump}");
    assert!(turn.waiting_user_form());
    assert!(!turn.waiting_approval());
}

#[test]
fn form_resolution_settles_the_same_entry() {
    let mut turn = TurnAssembler::default();
    turn.push_event(&user_form_custom("entry-pw", PASSWORD_REQUEST, "null"));
    turn.push_event(&ev(
        r#"{"type":"CUSTOM","name":"user-form","value":{"entryId":"entry-pw","formResolution":"fill_failed"}}"#,
    ));
    let (plain, parts) = turn.snapshot();
    assert_eq!(plain, "");
    match parts.as_slice() {
        [ChatPart::UserForm(spec)] => {
            assert_eq!(spec.pill(), Some("Not filled"));
            assert!(!spec.is_unresolved());
        }
        other => panic!("expected one settled card, got {other:?}"),
    }
    assert!(!turn.waiting_user_form());
}

#[test]
fn request_user_form_tool_mounts_as_user_form() {
    let mut turn = TurnAssembler::default();
    turn.push_event(&ev(r#"{"type":"TOOL_CALL_START","toolCallId":"c-form","toolCallName":"request_user_form"}"#));
    turn.push_event(&ev(
        r#"{"type":"TOOL_CALL_ARGS","toolCallId":"c-form","delta":"{\"formRequest\":{\"title\":\"Code\",\"fields\":[{\"id\":\"otp\",\"label\":\"Code\",\"type\":\"otp\",\"required\":true,\"value\":\"654321\"}]}}"}"#,
    ));
    turn.push_event(&ev(r#"{"type":"TOOL_CALL_END","toolCallId":"c-form"}"#));
    let (plain, parts) = turn.snapshot();
    assert_eq!(plain, "");
    match parts.as_slice() {
        [ChatPart::UserForm(spec)] => {
            assert_eq!(spec.fields[0].kind, UserFormFieldKind::Otp);
            assert!(spec.fields[0].prefill.is_none());
        }
        other => panic!("expected UserForm from tool, got {other:?}"),
    }
    let dump = format!("{parts:?}");
    assert!(!dump.contains("654321"), "otp must not appear in snapshot: {dump}");
}

#[test]
fn a_custom_form_event_is_still_generative_ui() {
    let mut turn = TurnAssembler::default();
    turn.push_event(&ev(
        r#"{"type":"CUSTOM","name":"ui","value":{"component":"form","title":"Next","fields":[{"id":"go","label":"Go","options":["Yes","No"]}],"submit":"Send"}}"#,
    ));
    let (_, parts) = turn.snapshot();
    assert!(matches!(parts.as_slice(), [ChatPart::Ui(UiSpec::Form(_))]));
    assert!(!turn.waiting_user_form());
}

#[test]
fn user_form_does_not_use_formspec_submit_copy() {
    let mut turn = TurnAssembler::default();
    turn.push_event(&user_form_custom(
        "e1",
        r#"{"title":"Email","fields":[{"id":"email","label":"Email","type":"email","required":true}]}"#,
        "null",
    ));
    let (_, parts) = turn.snapshot();
    let dump = format!("{parts:?}");
    assert!(
        !dump.contains("Fill in the required field to continue"),
        "must not steal plugin-setup copy: {dump}"
    );
    assert!(!matches!(parts.as_slice(), [ChatPart::Ui(UiSpec::Form(_))]));
}

#[test]
fn a_form_named_custom_is_still_generative_choice_chips() {
    let mut turn = TurnAssembler::default();
    turn.push_event(&ev(
        r#"{"type":"CUSTOM","name":"form","value":{"title":"Next","fields":[{"id":"go","label":"Go","options":["Yes","No"]}],"submit":"Send"}}"#,
    ));
    let (_, parts) = turn.snapshot();
    match parts.as_slice() {
        [ChatPart::Ui(UiSpec::Form(spec))] => {
            assert_eq!(spec.title.as_deref(), Some("Next"));
            assert_eq!(spec.fields[0].options, vec!["Yes", "No"]);
        }
        other => panic!("expected FormSpec, got {other:?}"),
    }
    assert!(!turn.waiting_user_form());
}

#[test]
fn official_send_message_envelope_mounts_as_user_form() {
    let mut turn = TurnAssembler::default();
    turn.push_event(&ev(
        r#"{
            "type": "CUSTOM",
            "name": "user-form",
            "value": {
                "kind": "send-message",
                "id": "entry-email",
                "message": {
                    "type": "user-form",
                    "formRequest": {
                        "title": "Google account email",
                        "instruction": "Enter the other Gmail address you want to sign in with.",
                        "fields": [
                            {"id": "email", "label": "Email or phone", "type": "email", "required": true}
                        ],
                        "domain": "accounts.google.com",
                        "liveHost": "accounts.google.com"
                    }
                },
                "formResolution": null
            }
        }"#,
    ));
    let (plain, parts) = turn.snapshot();
    assert_eq!(plain, "");
    match parts.as_slice() {
        [ChatPart::UserForm(spec)] => {
            assert_eq!(spec.entry_id, "entry-email");
            assert_eq!(spec.title, "Google account email");
            assert!(spec.is_unresolved());
        }
        other => panic!("expected UserForm from official envelope, got {other:?}"),
    }
}

/// The tools a turn offers: a chart and a form, with the parameters each
/// requires, in the order serde_json keeps an object's keys.
#[test]
fn agui_tools_offer_a_chart_and_a_form() {
    let tools = agui_tools();
    assert_eq!(tools.len(), 2);
    assert_eq!(tools[0].str_at("name"), Some("bar_chart"));
    assert_eq!(tools[1].str_at("name"), Some("form"));
    let text = nativechat::json::to_json_text(&tools[0]);
    assert_eq!(
        text,
        r#"{"description":"Render an interactive bar chart in the chat instead of markdown or ASCII.","name":"bar_chart","parameters":{"properties":{"bars":{"items":{"properties":{"label":{"type":"string"},"value":{"type":"number"}},"required":["label","value"],"type":"object"},"type":"array"},"title":{"type":"string"}},"required":["bars"],"type":"object"}}"#
    );
    let form = tools[1].get("parameters").and_then(|p| p.get("required")).expect("required");
    assert_eq!(nativechat::json::to_json_text(form), r#"["fields"]"#);
}
