use nativechat::client::{
    TurnRecipe, DaemonMachine, LocalExecMode, NewSchedule, NewSkill, ScheduleKind, ScheduleRow, SiteLoginSave,
    SkillFile, SkillSource,
};
use nativechat::error::{Failure, Unreachable};
use nativechat::json::{to_json_text, Json};
use nativechat::requests::{
    box_handoff_reply, computer_from, message_json, deleted, enrol_body, hire_body, icon_bytes, icon_reply,
    live_machines, recipe_body, revealed_password, revealed_secrets, schedule_body,
    schedules_for, site_login_body, skill_body, skill_from_tape_body, skill_version_body,
    tape_error, turn_body, user_form_reply, IconReply,
};
use nativechat::types::{AguiMessage, ReplyQuote};
use nativechat::user_form::{BoxHandoffReply, UserFormActionReply};

fn body_json(text: &str) -> Json {
    Json::parse(text).expect("test JSON")
}

fn wire(value: &Json) -> String {
    to_json_text(value)
}

#[test]
fn a_hire_sends_the_model_only_when_one_was_picked() {
    assert_eq!(wire(&hire_body("NativeChat", None)), r#"{"name":"NativeChat"}"#);
    assert_eq!(wire(&hire_body("NativeChat", Some(""))), r#"{"name":"NativeChat"}"#);
    assert_eq!(
        wire(&hire_body("NativeChat", Some("grok-4"))),
        r#"{"model":"grok-4","name":"NativeChat"}"#
    );
}

#[test]
fn an_enrolment_takes_over_a_machine_only_when_it_names_one() {
    assert_eq!(wire(&enrol_body("Studio", None)), r#"{"label":"Studio"}"#);
    assert_eq!(wire(&enrol_body("Studio", Some(""))), r#"{"label":"Studio"}"#);
    assert_eq!(
        wire(&enrol_body("Studio", Some("mac_1"))),
        r#"{"label":"Studio","machineId":"mac_1"}"#
    );
}

#[test]
fn a_schedule_leaves_out_a_blank_name_and_a_missing_clock() {
    let webhook = NewSchedule {
        coworker_id: "cw_1".into(),
        kind: ScheduleKind::Webhook,
        prompt: "tidy up".into(),
        name: "   ".into(),
        cron: None,
    };
    assert_eq!(
        wire(&schedule_body(&webhook)),
        r#"{"coworkerId":"cw_1","kind":"webhook","prompt":"tidy up"}"#
    );
    let nightly = NewSchedule {
        coworker_id: "cw_1".into(),
        kind: ScheduleKind::Cron,
        prompt: "report".into(),
        name: "Nightly".into(),
        cron: Some("0 3 * * *".into()),
    };
    assert_eq!(
        wire(&schedule_body(&nightly)),
        r#"{"coworkerId":"cw_1","cron":"0 3 * * *","kind":"cron","name":"Nightly","prompt":"report"}"#
    );
}

#[test]
fn a_skill_without_prose_is_a_draft() {
    let draft = NewSkill {
        name: "triage".into(),
        description: " ".into(),
        body: "".into(),
        source: SkillSource::Authored,
        files: Vec::new(),
    };
    assert_eq!(wire(&skill_body(&draft)), r#"{"name":"triage","source":"authored"}"#);
    let upload = NewSkill {
        name: "triage".into(),
        description: "Sort the inbox".into(),
        body: "# Triage".into(),
        source: SkillSource::Uploaded,
        files: vec![SkillFile { path: "ref.md".into(), bytes: "aGk=".into() }],
    };
    assert_eq!(
        wire(&skill_body(&upload)),
        r##"{"body":"# Triage","description":"Sort the inbox","files":[{"bytes":"aGk=","path":"ref.md"}],"name":"triage","source":"uploaded"}"##
    );
}

#[test]
fn a_recipe_carries_its_tape_and_the_screen_it_was_taught_on() {
    let raw = vec![body_json(r#"{"op":"click","x":1,"y":2}"#)];
    assert_eq!(
        wire(&recipe_body("Invoice", "Files it", &raw)),
        r#"{"description":"Files it","name":"Invoice","raw":[{"op":"click","x":1,"y":2}],"screen":{"height":800,"width":1280}}"#
    );
}

#[test]
fn a_skill_from_a_tape_leaves_the_blank_words_to_the_server() {
    let raw = vec![body_json(r#"{"op":"wait","ms":500}"#)];
    assert_eq!(
        wire(&skill_from_tape_body("cw_1", " ", "", &raw)),
        r#"{"coworkerId":"cw_1","raw":[{"ms":500,"op":"wait"}],"screen":{"height":800,"width":1280}}"#
    );
    assert_eq!(
        wire(&skill_from_tape_body("cw_1", "filing", "Files invoices", &[])),
        r#"{"coworkerId":"cw_1","description":"Files invoices","name":"filing","raw":[],"screen":{"height":800,"width":1280}}"#
    );
}

#[test]
fn a_skill_version_names_where_it_came_from() {
    assert_eq!(
        wire(&skill_version_body("# v2", "", SkillSource::Taught, &[])),
        r##"{"body":"# v2","kind":"taught"}"##
    );
    let files = vec![SkillFile { path: "a.txt".into(), bytes: "YQ==".into() }];
    assert_eq!(
        wire(&skill_version_body("# v3", "shorter", SkillSource::Uploaded, &files)),
        r##"{"body":"# v3","files":[{"bytes":"YQ==","path":"a.txt"}],"kind":"uploaded","note":"shorter"}"##
    );
}

#[test]
fn a_site_login_sends_whichever_secrets_it_has() {
    let save = SiteLoginSave {
        origin: "https://example.com",
        username: "ada",
        label: "Example",
        notes: "",
        kind: "password",
        password: Some("hunter2"),
        otpauth: None,
    };
    assert_eq!(
        wire(&site_login_body(&save)),
        r#"{"kind":"password","label":"Example","notes":"","origin":"https://example.com","password":"hunter2","username":"ada"}"#
    );
    let seed_only = SiteLoginSave { password: None, otpauth: Some("otpauth://totp/x"), ..save };
    assert_eq!(
        wire(&site_login_body(&seed_only)),
        r#"{"kind":"password","label":"Example","notes":"","origin":"https://example.com","otpauth":"otpauth://totp/x","username":"ada"}"#
    );
}

#[test]
fn a_reveal_keeps_only_the_secrets_that_say_something() {
    let both = revealed_secrets(&body_json(r#"{"password":"pw","otpauth":""}"#));
    assert_eq!(both.password.as_deref(), Some("pw"));
    assert_eq!(both.otpauth, None);
    assert_eq!(revealed_password(&body_json(r#"{"password":"pw"}"#)).unwrap(), "pw");
    let none = revealed_password(&body_json(r#"{"otpauth":"x"}"#)).unwrap_err();
    assert_eq!(none.status, Some(200));
    assert_eq!(none.message, "the reveal carried no password");
}

#[test]
fn a_form_reply_reads_a_missing_card_and_refuses_the_rest() {
    let missing =
        user_form_reply(404, r#"{"error":"form entry missing"}"#, "form entry missing".into());
    assert!(matches!(missing, Ok(UserFormActionReply::MissingEntry)));
    let route = user_form_reply(404, "", "".into());
    assert!(matches!(route, Ok(UserFormActionReply::MissingRoute)));
    let empty = user_form_reply(200, "null", "".into());
    assert!(matches!(empty, Ok(UserFormActionReply::Empty)));
    let already = user_form_reply(200, r#"{"alreadyAnswered":true}"#, "".into());
    assert!(matches!(already, Ok(UserFormActionReply::AlreadyAnswered)));
    let refused = user_form_reply(500, r#"{"error":"boom"}"#, "boom".into()).unwrap_err();
    assert_eq!(refused.status, Some(500));
    assert_eq!(refused.message, "boom");
}

#[test]
fn a_box_reply_reads_a_missing_route_and_refuses_the_rest() {
    assert_eq!(box_handoff_reply(404, "", "".into()).unwrap(), BoxHandoffReply::MissingRoute);
    assert_eq!(
        box_handoff_reply(404, r#"{"error":"form entry missing"}"#, "".into()).unwrap(),
        BoxHandoffReply::Empty
    );
    assert_eq!(box_handoff_reply(200, "{}", "".into()).unwrap(), BoxHandoffReply::Settled);
    assert_eq!(
        box_handoff_reply(200, r#"{"alreadyAnswered":true}"#, "".into()).unwrap(),
        BoxHandoffReply::AlreadyAnswered
    );
    let refused = box_handoff_reply(403, "", "no".into()).unwrap_err();
    assert_eq!(refused.status, Some(403));
}

#[test]
fn an_icon_is_absent_read_or_refused() {
    assert_eq!(icon_reply(204), IconReply::Absent);
    assert_eq!(icon_reply(404), IconReply::Absent);
    assert_eq!(icon_reply(200), IconReply::Read);
    assert_eq!(icon_reply(500), IconReply::Refused);
    assert_eq!(icon_bytes(vec![0x89, 0x50]), Some(vec![0x89, 0x50]));
    assert_eq!(icon_bytes(Vec::new()), None);
}

#[test]
fn a_row_the_server_no_longer_has_counts_as_deleted() {
    assert!(deleted(204));
    assert!(deleted(404));
    assert!(!deleted(500));
    assert!(!deleted(403));
}

#[test]
fn a_tape_refusal_is_a_verdict_unless_the_gateway_is_down() {
    let empty = tape_error(502, "the model wrote nothing".into());
    assert_eq!(empty.status, Some(502));
    assert_eq!(empty.failure(), Failure::Verdict);
    let down = tape_error(502, "The model gateway is unreachable".into());
    assert_eq!(down.failure(), Failure::OutOfReach(Unreachable::Gateway));
}

fn machine(id: &str, label: &str, revoked: bool, connected: bool) -> DaemonMachine {
    DaemonMachine { machine_id: id.into(), label: label.into(), revoked, connected }
}

#[test]
fn the_roster_leaves_out_revoked_machines_and_names_the_unnamed() {
    let live = live_machines(vec![
        machine("m1", "Studio", false, true),
        machine("m2", "Old", true, false),
        machine("m3", " ", false, false),
    ]);
    assert_eq!(live.len(), 2);
    assert_eq!(live[0].machine_id, "m1");
    assert_eq!(live[1].machine_id, "m3");
    let row = computer_from(&live[1], "bypass");
    assert_eq!(row.label, "Computer");
    assert_eq!(row.mode, LocalExecMode::Always);
    assert!(!row.this_machine);
    assert!(!row.online);
    let studio = computer_from(&live[0], "");
    assert_eq!(studio.label, "Studio");
    assert!(studio.online);
}

fn schedule(id: &str, coworker_id: &str) -> ScheduleRow {
    ScheduleRow {
        id: id.into(),
        coworker_id: coworker_id.into(),
        kind: ScheduleKind::Cron,
        cron: Some("* * * * *".into()),
        prompt: String::new(),
        name: None,
        active: true,
        next_due_ms: None,
        webhook: None,
    }
}

#[test]
fn another_bots_routines_are_not_listed_under_this_one() {
    let rows = vec![schedule("s1", "cw_1"), schedule("s2", "cw_2"), schedule("s3", "")];
    let kept = schedules_for(rows, "cw_1");
    let ids: Vec<&str> = kept.iter().map(|r| r.id.as_str()).collect();
    assert_eq!(ids, vec!["s1", "s3"]);
}

fn said(id: &str, content: &str) -> AguiMessage {
    AguiMessage {
        id: id.into(),
        role: "user".into(),
        content: content.into(),
        tool_call_id: None,
        reply_to: None,
    }
}

fn as_value(json: &Json) -> serde_json::Value {
    serde_json::from_str(&to_json_text(json)).expect("the library writes JSON")
}

fn value_of(text: &str) -> serde_json::Value {
    serde_json::from_str(text).expect("test JSON")
}

#[test]
fn a_turn_carries_the_active_recipe_and_its_values_in_forwarded_props() {
    let recipe = TurnRecipe {
        id: "rcp_1".into(),
        values: vec![
            ("search_term".into(), body_json(r#""mundo""#)),
            ("count".into(), body_json("5")),
            ("shorts".into(), body_json("true")),
        ],
    };
    let body = as_value(&turn_body(
        "cw_1",
        "thread_1",
        "run_1",
        &[said("u1", "find me something")],
        Some(&recipe),
        None,
    ));
    assert_eq!(
        body["forwardedProps"],
        value_of(
            r#"{"coworkerId":"cw_1","recipe":"rcp_1","recipeValues":{"search_term":"mundo","count":5,"shorts":true}}"#
        )
    );
    assert_eq!(body["messages"][0]["content"], "find me something");
    assert_eq!(body["runId"], "run_1");
    assert_eq!(body["threadId"], "thread_1");
    assert_eq!(body["tools"].as_array().map(Vec::len), Some(2));
    let plain = as_value(&turn_body("cw_1", "thread_1", "run_2", &[said("u2", "hello")], None, None));
    assert_eq!(plain["forwardedProps"], value_of(r#"{"coworkerId":"cw_1"}"#));
}

#[test]
fn a_turn_carries_the_chosen_skill_and_a_turn_without_one_is_unchanged() {
    let message = [said("u1", "expense-report file this one")];
    let with = as_value(&turn_body("cw_1", "thread_1", "run_1", &message, None, Some("skl_1")));
    let without = as_value(&turn_body("cw_1", "thread_1", "run_2", &message, None, None));
    assert_eq!(with["forwardedProps"], value_of(r#"{"coworkerId":"cw_1","skill":"skl_1"}"#));
    assert_eq!(with["messages"][0]["content"], "expense-report file this one");
    assert_eq!(without["forwardedProps"], value_of(r#"{"coworkerId":"cw_1"}"#));
    let mut with = with;
    with["forwardedProps"].as_object_mut().expect("props are an object").remove("skill");
    with["runId"] = without["runId"].clone();
    assert_eq!(serde_json::to_vec(&with).unwrap(), serde_json::to_vec(&without).unwrap());
}

#[test]
fn a_message_sends_its_quote_and_tool_call_only_when_it_has_them() {
    let reply = AguiMessage {
        id: "u3".into(),
        role: "tool".into(),
        content: "done".into(),
        tool_call_id: Some("call-1".into()),
        reply_to: Some(ReplyQuote { message_id: "a1".into(), preview: "earlier".into(), is_me: false }),
    };
    let body = turn_body("cw_1", "t", "r", &[reply, said("u4", "hi")], None, None);
    let messages = body.get("messages").expect("messages");
    let items = messages.as_array().expect("an array");
    assert_eq!(
        to_json_text(&items[0]),
        r#"{"content":"done","id":"u3","replyTo":{"isMe":false,"messageId":"a1","preview":"earlier"},"role":"tool","toolCallId":"call-1"}"#
    );
    assert_eq!(to_json_text(&items[1]), r#"{"content":"hi","id":"u4","role":"user"}"#);
}

#[test]
fn a_message_with_no_reply_leaves_reply_to_off_the_wire() {
    let message = AguiMessage {
        id: "m1".into(),
        role: "user".into(),
        content: "hi".into(),
        tool_call_id: None,
        reply_to: None,
    };
    let json = as_value(&message_json(&message));
    assert_eq!(json["content"], "hi");
    assert!(json.get("replyTo").is_none(), "{json}");
    assert!(json.get("toolCallId").is_none(), "{json}");
}

#[test]
fn a_reply_rides_along_under_reply_to() {
    let message = AguiMessage {
        id: "m2".into(),
        role: "user".into(),
        content: "what am I replying to?".into(),
        tool_call_id: None,
        reply_to: Some(ReplyQuote {
            message_id: "m1".into(),
            preview: "The build is green.".into(),
            is_me: false,
        }),
    };
    let json = as_value(&message_json(&message));
    assert_eq!(json["replyTo"]["messageId"], "m1");
    assert_eq!(json["replyTo"]["preview"], "The build is green.");
    assert_eq!(json["replyTo"]["isMe"], false);
}

#[test]
fn debug_lines_name_the_login_and_never_its_secrets() {
    let save = SiteLoginSave {
        origin: "https://example.com",
        username: "ada",
        label: "Example",
        notes: "call first",
        kind: "password",
        password: Some("hunter2"),
        otpauth: Some("otpauth://totp/x?secret=ABC"),
    };
    let line = save.debug();
    assert_eq!(line, r#"SiteLoginSave { origin: "https://example.com", username: "ada", kind: "password" }"#);
    assert!(!line.contains("hunter2"));
    let quoted = SiteLoginSave { username: "a\"b", ..save };
    assert_eq!(
        quoted.debug(),
        r#"SiteLoginSave { origin: "https://example.com", username: "a\"b", kind: "password" }"#
    );
    let secrets = revealed_secrets(&body_json(r#"{"password":"pw","otpauth":"seed"}"#));
    assert_eq!(secrets.debug(), r#"RevealedSecrets { password: Some("<redacted>"), otpauth: Some("<redacted>") }"#);
    let none = revealed_secrets(&body_json("{}"));
    assert_eq!(none.debug(), "RevealedSecrets { password: None, otpauth: None }");
}
