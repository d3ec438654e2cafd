use nativechat::json::Json;
use nativechat::user_form::{
    bind_call_peers, box_handoff_action_from_http, box_handoff_resolve_entry_id,
    box_handoff_settles_locally, computer_handoff_card_id, continue_enabled, dismiss_request_body,
    is_user_form_awaiting, is_user_form_event, resolve_handoff_request_body,
    settle_user_form_http, submit_request_body, user_form_action_from_http, user_form_dismiss_id,
    user_form_screen_id, BoxHandoffReply, BoxHandoffResolution, ComputerHandoffSpec,
    ComputerHandoffStatus, FormResolution, UserFormActionReply, UserFormDismissMode,
    UserFormField, UserFormFieldKind, UserFormHttpSettle, UserFormSelectOption, UserFormSpec, UserFormValues,
    UserFormVerb, MASKED_PRESENCE_STUB, USER_FORM_SERVER_FILL_AVAILABLE,
};

fn form_json(text: &str) -> Json {
    Json::parse(text).expect("test JSON")
}

const GOOGLE_EMAIL_REQUEST: &str = r#"{
    "title": "Google account email",
    "instruction": "Enter the other Gmail address you want to sign in with.",
    "fields": [
        {"id": "email", "label": "Email or phone", "type": "email", "required": true}
    ],
    "domain": "accounts.google.com",
    "liveHost": "accounts.google.com"
}"#;

fn live_awaiting(entry_id: Option<&str>) -> Json {
    live_awaiting_call(entry_id, "call-9")
}

fn live_awaiting_call(entry_id: Option<&str>, call_id: &str) -> Json {
    let entry = match entry_id {
        Some(id) => format!(r#","entryId":"{id}""#),
        None => String::new(),
    };
    form_json(&format!(
        r#"{{
            "type": "CUSTOM",
            "name": "run-awaiting-approval",
            "runId": "run-1",
            "callId": "{call_id}",
            "tool": "request_user_form",
            "reason": "user-form",
            "why": "Waiting for you",
            "arguments": {{
                "title": "Google account email",
                "instruction": "Enter the other Gmail address you want to sign in with.",
                "fields": [
                    {{"id": "email", "label": "Email or phone", "type": "email", "required": true}},
                    {{"id": "password", "label": "Password", "type": "password", "required": true}}
                ],
                "liveHost": "accounts.google.com"
            }}{entry}
        }}"#
    ))
}

const D12FFFC_SCHEMA: &str = r#"{
    "title": "Google account",
    "instruction": "Enter the address and password.",
    "liveHost": "accounts.google.com",
    "fields": [
        {"id": "email", "label": "Email", "type": "email", "required": true, "secret": false},
        {"id": "password", "label": "Password", "type": "password", "required": true, "secret": false}
    ]
}"#;

fn official_d12fffc_frame() -> Json {
    form_json(&format!(
        r#"{{
            "type": "CUSTOM",
            "timestamp": 1789672932380,
            "name": "run-awaiting-approval",
            "threadId": "thr-1",
            "runId": "run-1",
            "callId": "mock-form-1",
            "tool": "request_user_form",
            "reason": "user-form",
            "why": "Waiting for you",
            "entryId": "e_form",
            "arguments": {D12FFFC_SCHEMA},
            "formRequest": {D12FFFC_SCHEMA}
        }}"#
    ))
}

fn send_message(id: &str, resolution: &str, extra: &str) -> Json {
    form_json(&format!(
        r#"{{
            "kind": "send-message",
            "id": "{id}",
            "message": {{"type": "user-form", "formRequest": {GOOGLE_EMAIL_REQUEST}}},
            "formResolution": {resolution}{extra}
        }}"#
    ))
}

fn filled_login(email: &str) -> UserFormValues {
    let mut filled = UserFormValues::default();
    filled.by_id.insert("email".into(), email.into());
    filled.by_id.insert("password".into(), "s3cret-pass".into());
    filled
}

#[test]
fn resolution_table_matches_grok_bot_chrome() {
    let cases = [
        (FormResolution::Sending, "Submitting", "Submitting…"),
        (
            FormResolution::Submitted,
            "Submitted",
            "Filled into the page. Secret values were never shown to your Bot.",
        ),
        (
            FormResolution::FillFailed,
            "Not filled",
            "Could not fill into the page — it may have moved or changed. Secret values were never shown to your Bot.",
        ),
        (FormResolution::Escalated, "Dismissed", "Dismissed without filling anything."),
        (FormResolution::Dismissed, "Dismissed", "Dismissed without filling anything."),
        (FormResolution::Skipped, "Skipped", "Skipped without filling anything."),
    ];
    for (resolution, pill, body) in cases {
        assert_eq!(resolution.pill(), pill);
        assert_eq!(resolution.body(), body);
    }
}

#[test]
fn open_handoff_does_not_post_form_entry_id() {
    assert_eq!(
        box_handoff_resolve_entry_id(Some("e_hand"), "e_form").as_deref(),
        Some("e_hand"),
        "dismiss sibling wins when the server minted one"
    );
    assert_eq!(
        box_handoff_resolve_entry_id(None, "e_form"),
        None,
        "never POST the form gateway id into is_live_handoff"
    );
    assert_eq!(box_handoff_resolve_entry_id(Some("   "), "e_form"), None);
    assert_eq!(
        box_handoff_resolve_entry_id(Some("e_form"), "e_form"),
        None,
        "a stored form id is not a sibling"
    );
    assert_eq!(box_handoff_resolve_entry_id(None, ""), None, "never invent a callId");
    assert_eq!(box_handoff_resolve_entry_id(Some("e_hand"), "").as_deref(), Some("e_hand"));
    assert!(box_handoff_settles_locally(&BoxHandoffReply::Empty));
    assert!(box_handoff_settles_locally(&BoxHandoffReply::Settled));
    assert!(box_handoff_settles_locally(&BoxHandoffReply::AlreadyAnswered));
    assert!(!box_handoff_settles_locally(&BoxHandoffReply::MissingRoute));
    assert!(!box_handoff_settles_locally(&BoxHandoffReply::MissingEntryId));
}

#[test]
fn the_button_says_log_in_only_for_a_one_page_login() {
    let login = UserFormSpec::from_tool_args(
        &form_json(
            r#"{ "title": "Log in", "samePage": true, "fields": [
                { "id": "email", "label": "Email", "type": "email" },
                { "id": "password", "label": "Password", "type": "password" }
            ]}"#,
        ),
        "c_1",
    )
    .expect("spec");
    assert_eq!(login.continue_label(), "Log in");
    let email_only = UserFormSpec::from_tool_args(
        &form_json(r#"{ "title": "Email", "fields": [{ "id": "email", "label": "Email", "type": "email" }]}"#),
        "c_2",
    )
    .expect("spec");
    assert_eq!(email_only.continue_label(), "Continue");
    let password_only = UserFormSpec::from_tool_args(
        &form_json(
            r#"{ "title": "Password", "fields": [{ "id": "password", "label": "Password", "type": "password" }]}"#,
        ),
        "c_3",
    )
    .expect("spec");
    assert_eq!(password_only.continue_label(), "Continue");
}

#[test]
fn official_send_message_envelope_parses_idle_card() {
    let event = form_json(&format!(
        r#"{{
            "type": "CUSTOM",
            "name": "user-form",
            "value": {{
                "kind": "send-message",
                "id": "e_entry-email",
                "message": {{"type": "user-form", "formRequest": {GOOGLE_EMAIL_REQUEST}}},
                "formResolution": null
            }}
        }}"#
    ));
    let spec = UserFormSpec::from_custom_event(&event).expect("idle card");
    assert_eq!(spec.entry_id, "e_entry-email");
    assert!(spec.has_gateway_entry_id());
    assert_eq!(spec.title, "Google account email");
    assert_eq!(
        spec.instruction.as_deref(),
        Some("Enter the other Gmail address you want to sign in with.")
    );
    assert_eq!(spec.fields.len(), 1);
    assert_eq!(spec.fields[0].kind, UserFormFieldKind::Email);
    assert!(spec.fields[0].required);
    assert!(!spec.fields[0].masked());
    assert!(spec.is_unresolved());
    assert_eq!(spec.domain.as_deref(), Some("accounts.google.com"));
    assert_eq!(spec.live_host.as_deref(), Some("accounts.google.com"));
}

#[test]
fn live_awaiting_paints_from_arguments_and_does_not_use_call_id_as_entry() {
    let spec = UserFormSpec::from_custom_event(&live_awaiting(None)).expect("card");
    assert!(is_user_form_awaiting(&live_awaiting(None)));
    assert_eq!(spec.call_id, "call-9");
    assert_eq!(spec.run_id, "run-1");
    assert!(spec.entry_id.is_empty(), "callId must not be sent as entryId: {}", spec.entry_id);
    assert!(!spec.has_gateway_entry_id());
    assert_eq!(spec.title, "Google account email");
    assert_eq!(spec.fields.len(), 2);
    assert!(spec.fields[1].masked());
    assert!(spec.is_unresolved());
    let filled = filled_login("you@gmail.com");
    assert!(!continue_enabled(&spec, &filled, true), "without a gateway entryId Continue stays gated");
    assert!(!spec.can_post(true));
    assert!(spec.can_dismiss(), "call-* Dismiss / Open the screen stay live without entryId");
    assert_eq!(spec.card_key(), "call-9");
    assert_eq!(user_form_dismiss_id(spec.card_key()), "user-form-dismiss-call-9");
    assert_eq!(user_form_screen_id(spec.card_key()), "user-form-screen-call-9");
    assert_eq!(computer_handoff_card_id(spec.card_key()), "computer-handoff-call-9");
}

#[test]
fn agui_event_id_is_not_the_gateway_card() {
    let event = form_json(
        r#"{
            "type": "CUSTOM",
            "name": "run-awaiting-approval",
            "runId": "run-1",
            "callId": "call-9",
            "tool": "request_user_form",
            "reason": "user-form",
            "why": "Waiting for you",
            "id": "agui-event-1",
            "arguments": {
                "title": "Google account email",
                "fields": [{"id": "email", "label": "Email or phone", "type": "email", "required": true}]
            },
            "formRequest": {
                "title": "Google account email",
                "fields": [{"id": "email", "label": "Email or phone", "type": "email", "required": true}]
            }
        }"#,
    );
    let spec = UserFormSpec::from_custom_event(&event).expect("card");
    assert!(
        spec.entry_id.is_empty(),
        "CUSTOM id is not a gateway entryId even with formRequest: {}",
        spec.entry_id
    );
    assert_eq!(spec.call_id, "call-9");
}

#[test]
fn awaiting_paints_arguments_and_takes_entry_id_from_send_message_value() {
    let event = form_json(&format!(
        r#"{{
            "type": "CUSTOM",
            "name": "run-awaiting-approval",
            "runId": "run-1",
            "callId": "call-9",
            "tool": "request_user_form",
            "reason": "user-form",
            "why": "Waiting for you",
            "arguments": {{
                "title": "Google account email",
                "fields": [
                    {{"id": "email", "label": "Email or phone", "type": "email", "required": true}},
                    {{"id": "password", "label": "Password", "type": "password", "required": true}}
                ]
            }},
            "value": {{
                "kind": "send-message",
                "id": "e_from_gateway",
                "message": {{"type": "user-form", "formRequest": {GOOGLE_EMAIL_REQUEST}}},
                "formResolution": null
            }}
        }}"#
    ));
    let spec = UserFormSpec::from_custom_event(&event).expect("card");
    assert_eq!(spec.entry_id, "e_from_gateway");
    assert_eq!(spec.call_id, "call-9");
    assert!(spec.has_gateway_entry_id());
    assert_eq!(spec.fields.len(), 2, "arguments win over value for paint");
    assert!(spec.fields.iter().any(|f| f.masked()));
    assert!(continue_enabled(&spec, &filled_login("you@gmail.com"), true));
}

#[test]
fn awaiting_without_arguments_still_paints_a_send_message_value() {
    let event = form_json(&format!(
        r#"{{
            "type": "CUSTOM",
            "name": "run-awaiting-approval",
            "runId": "run-1",
            "callId": "call-9",
            "tool": "request_user_form",
            "reason": "user-form",
            "value": {{
                "kind": "send-message",
                "id": "e_entry-email",
                "message": {{"type": "user-form", "formRequest": {GOOGLE_EMAIL_REQUEST}}},
                "formResolution": null
            }}
        }}"#
    ));
    let spec = UserFormSpec::from_custom_event(&event).expect("card");
    assert_eq!(spec.entry_id, "e_entry-email");
    assert_eq!(spec.call_id, "call-9");
    assert_eq!(spec.title, "Google account email");
    assert!(spec.is_unresolved());
    assert!(spec.has_gateway_entry_id());
}

#[test]
fn awaiting_with_entry_id_can_post() {
    let spec = UserFormSpec::from_custom_event(&live_awaiting(Some("e_form"))).expect("card");
    assert_eq!(spec.entry_id, "e_form");
    assert_eq!(spec.call_id, "call-9");
    assert!(spec.has_gateway_entry_id());
    assert!(continue_enabled(&spec, &filled_login("you@gmail.com"), true));
    assert!(USER_FORM_SERVER_FILL_AVAILABLE);
}

#[test]
fn stamped_siblings_do_not_complete_with_each_other() {
    let a = UserFormSpec::from_custom_event(&live_awaiting(Some("e_a"))).expect("a");
    let b = UserFormSpec::from_custom_event(&live_awaiting_call(Some("e_b"), "call-b")).expect("b");
    assert!(a.has_gateway_entry_id() && b.has_gateway_entry_id());
    assert!(!a.completes_with(&b), "two stamped request_user_form cards are siblings, not twins");
    assert!(a.can_post(false) && b.can_post(false));
    let empty = UserFormValues::default();
    assert!(!a.continue_enabled(&empty, true));
    assert!(!b.continue_enabled(&empty, true));
    let filled = filled_login("you@gmail.com");
    assert!(a.continue_enabled(&filled, true));
    assert!(
        b.continue_enabled(&filled, false),
        "per-card requireds; server_fill must not gray a sibling that has entryId"
    );
    let awaiting = UserFormSpec::from_custom_event(&live_awaiting(None)).expect("awaiting");
    let envelope = UserFormSpec::from_custom_event(&live_awaiting(Some("e_form"))).expect("env");
    assert!(
        awaiting.completes_with(&envelope),
        "awaiting without entryId still folds onto a later stamped envelope"
    );
}

#[test]
fn d12fffc_top_level_entry_id_makes_buttons_live() {
    let spec = UserFormSpec::from_custom_event(&official_d12fffc_frame()).expect("card");
    assert!(is_user_form_awaiting(&official_d12fffc_frame()));
    assert_eq!(spec.entry_id, "e_form");
    assert_eq!(spec.call_id, "mock-form-1");
    assert_eq!(spec.run_id, "run-1");
    assert_ne!(spec.entry_id, spec.call_id);
    assert!(spec.has_gateway_entry_id());
    assert_eq!(spec.title, "Google account");
    assert_eq!(spec.fields.len(), 2);
    assert!(spec.fields[1].masked(), "password is secret by type");
    assert!(spec.can_post(true), "Continue POSTs with a gateway entryId");
    assert!(spec.can_dismiss(), "Open the screen / Dismiss go live");
    let empty = UserFormValues::default();
    assert!(!continue_enabled(&spec, &empty, true), "Continue stays gated while required fields are empty");
    let filled = filled_login("ada@example.com");
    assert!(continue_enabled(&spec, &filled, true));
    assert!(spec.can_post(false), "a missing-route 404 on another card must not freeze this one");
    let submit = submit_request_body(&spec.entry_id, "cw_1", &filled);
    assert_eq!(submit.str_at("entryId"), Some("e_form"));
    assert_ne!(submit.str_at("entryId"), Some(spec.call_id.as_str()));
    assert_eq!(
        submit.get("values").and_then(|v| v.str_at("password")),
        Some("s3cret-pass")
    );
    let dismiss = dismiss_request_body(&spec.entry_id, "cw_1", UserFormDismissMode::Dismissed);
    assert_eq!(dismiss.str_at("entryId"), Some("e_form"));
    assert_eq!(dismiss.str_at("mode"), Some("dismissed"));
    let dump = format!("{spec:?}");
    assert!(!dump.contains("s3cret-pass"), "{dump}");
}

#[test]
fn form_request_alias_paints_when_arguments_are_absent() {
    let event = form_json(
        r#"{
            "type": "CUSTOM",
            "name": "run-awaiting-approval",
            "runId": "run-1",
            "callId": "mock-form-1",
            "tool": "request_user_form",
            "reason": "user-form",
            "entryId": "e_form",
            "formRequest": {
                "title": "Google account",
                "fields": [{"id": "email", "label": "Email", "type": "email", "required": true}]
            }
        }"#,
    );
    let spec = UserFormSpec::from_custom_event(&event).expect("card");
    assert_eq!(spec.entry_id, "e_form");
    assert_eq!(spec.title, "Google account");
    assert!(spec.can_post(true));
}

#[test]
fn exec_consent_awaiting_is_not_a_user_form() {
    let event = form_json(
        r#"{
            "type": "CUSTOM",
            "name": "run-awaiting-approval",
            "runId": "run-1",
            "callId": "call-9",
            "tool": "user_machine_shell",
            "reason": "exec-consent",
            "arguments": {"command": "ls"}
        }"#,
    );
    assert!(!is_user_form_awaiting(&event));
    assert!(UserFormSpec::from_custom_event(&event).is_none());
}

#[test]
fn form_request_sibling_resolution_settles_the_card() {
    let idle = form_json(&format!(
        r#"{{"type":"CUSTOM","name":"user-form","value":{{"entryId":"e1","formRequest":{GOOGLE_EMAIL_REQUEST}}}}}"#
    ));
    let mut spec = UserFormSpec::from_custom_event(&idle).unwrap();
    let settled = form_json(
        r#"{"type":"CUSTOM","name":"user-form","value":{"entryId":"e1","formResolution":"submitted"}}"#,
    );
    spec.merge(UserFormSpec::from_custom_event(&settled).unwrap());
    assert_eq!(spec.title, "Google account email");
    assert_eq!(spec.effective_resolution(), Some(FormResolution::Submitted));
    assert_eq!(spec.pill(), Some("Submitted"));
    assert_eq!(
        spec.settled_body(),
        Some("Filled into the page. Secret values were never shown to your Bot.")
    );
}

#[test]
fn widget_dismissed_without_resolution_is_dismissed() {
    let event = form_json(&format!(
        r#"{{"type":"CUSTOM","name":"user-form","value":{{"entryId":"e1","formRequest":{GOOGLE_EMAIL_REQUEST},"widgetDismissed":true}}}}"#
    ));
    let spec = UserFormSpec::from_custom_event(&event).unwrap();
    assert!(!spec.is_unresolved());
    assert_eq!(spec.effective_resolution(), Some(FormResolution::Dismissed));
}

#[test]
fn every_field_type_from_issue_17() {
    let event = form_json(
        r#"{
            "type": "CUSTOM",
            "name": "user-form",
            "value": {
                "entryId": "kitchen",
                "formRequest": {
                    "title": "Kitchen sink",
                    "fields": [
                        {"id": "e", "label": "Email", "type": "email", "required": true},
                        {"id": "t", "label": "Phone", "type": "tel"},
                        {"id": "p", "label": "Password", "type": "password", "required": true, "value": "s3cret-pass"},
                        {"id": "o", "label": "Code", "type": "otp", "value": "123456"},
                        {"id": "n", "label": "Age", "type": "number"},
                        {"id": "d", "label": "When", "type": "date"},
                        {"id": "s", "label": "Pick", "type": "select", "options": ["A", {"label": "Bee", "value": "b"}]},
                        {"id": "x", "label": "Notes", "type": "textarea"},
                        {"id": "c", "label": "Remember", "type": "checkbox"},
                        {"id": "u", "label": "Name"},
                        {"id": "k", "label": "Token", "type": "text", "secret": true, "default": "leak-me"}
                    ]
                }
            }
        }"#,
    );
    let spec = UserFormSpec::from_custom_event(&event).unwrap();
    let kinds: Vec<_> = spec.fields.iter().map(|f| f.kind).collect();
    assert_eq!(
        kinds,
        vec![
            UserFormFieldKind::Email,
            UserFormFieldKind::Tel,
            UserFormFieldKind::Password,
            UserFormFieldKind::Otp,
            UserFormFieldKind::Number,
            UserFormFieldKind::Date,
            UserFormFieldKind::Select,
            UserFormFieldKind::Textarea,
            UserFormFieldKind::Checkbox,
            UserFormFieldKind::Text,
            UserFormFieldKind::Text,
        ]
    );
    let password = spec.fields.iter().find(|f| f.id == "p").unwrap();
    assert!(password.masked());
    assert!(password.prefill.is_none(), "password default must be dropped");
    let otp = spec.fields.iter().find(|f| f.id == "o").unwrap();
    assert!(otp.masked());
    assert!(otp.prefill.is_none());
    let token = spec.fields.iter().find(|f| f.id == "k").unwrap();
    assert!(token.secret);
    assert!(token.masked());
    assert!(token.prefill.is_none());
    let select = spec.fields.iter().find(|f| f.id == "s").unwrap();
    assert_eq!(select.options.len(), 2);
    assert_eq!(select.options[1].label, "Bee");
    let dump = format!("{spec:?}");
    assert!(!dump.contains("s3cret-pass"), "password must not appear in Debug: {dump}");
    assert!(!dump.contains("123456"), "otp value in Debug: {dump}");
    assert!(!dump.contains("leak-me"), "secret default in Debug: {dump}");
}

#[test]
fn continue_needs_server_fill_entry_id_and_required_fields() {
    let spec = UserFormSpec::parse(
        &form_json(&format!(r#"{{"entryId":"e1","formRequest":{GOOGLE_EMAIL_REQUEST}}}"#)),
        None,
    )
    .unwrap();
    assert!(spec.has_gateway_entry_id());
    let empty = UserFormValues::default();
    let mut filled = UserFormValues::default();
    filled.by_id.insert("email".into(), "you@gmail.com".into());
    assert!(!continue_enabled(&spec, &empty, true));
    assert!(continue_enabled(&spec, &filled, USER_FORM_SERVER_FILL_AVAILABLE));
    assert!(
        continue_enabled(&spec, &filled, false),
        "stacked open forms stay Continue-able if a sibling 404 flipped the old global lock"
    );
    assert!(USER_FORM_SERVER_FILL_AVAILABLE);
}

#[test]
fn required_checkbox_is_empty_until_true() {
    let spec = UserFormSpec::parse(
        &form_json(
            r#"{"entryId":"e1","formRequest":{"title":"Agree","fields":[{"id":"ok","label":"OK","type":"checkbox","required":true}]}}"#,
        ),
        None,
    )
    .unwrap();
    let mut values = UserFormValues::default();
    assert!(!spec.required_fields_filled(&values));
    values.by_id.insert("ok".into(), UserFormField::checkbox_wire(false).into());
    assert!(!spec.required_fields_filled(&values));
    values.by_id.insert("ok".into(), UserFormField::checkbox_wire(true).into());
    assert!(spec.required_fields_filled(&values));
}

#[test]
fn masked_presence_stub_does_not_enable_continue_without_input_state() {
    let spec = UserFormSpec::from_custom_event(&official_d12fffc_frame()).expect("card");
    assert!(spec.fields.iter().any(|field| field.masked() && field.required));
    let mut display = UserFormValues::default();
    display.by_id.insert("email".into(), "ada@example.com".into());
    display.by_id.insert("password".into(), MASKED_PRESENCE_STUB.into());
    let empty_input_state = UserFormValues::default();
    assert!(!continue_enabled(&spec, &display, true), "display stub \"1\" is not a typed password");
    assert!(!continue_enabled(&spec, &empty_input_state, true), "empty InputState keeps Continue gated");
    let mut live = UserFormValues::default();
    live.by_id.insert("email".into(), "ada@example.com".into());
    live.by_id.insert("password".into(), "typed-in-input-state".into());
    assert!(continue_enabled(&spec, &live, true), "a real InputState value enables Continue");
}

#[test]
fn submit_after_sending_binds_form_resolution_never_idle() {
    assert_eq!(
        user_form_action_from_http(200, &Json::Null),
        UserFormActionReply::Empty,
        "classifier still reports 200-null as Empty"
    );
    assert_eq!(
        settle_user_form_http(UserFormVerb::Submit, &UserFormActionReply::Empty),
        UserFormHttpSettle::Paint(FormResolution::FillFailed),
        "200-null is disclosure, not Submitted"
    );
    assert_eq!(
        settle_user_form_http(UserFormVerb::Submit, &UserFormActionReply::AlreadyAnswered),
        UserFormHttpSettle::Paint(FormResolution::FillFailed)
    );
    let submitted = user_form_action_from_http(200, &send_message("e_form", r#""submitted""#, ""));
    match settle_user_form_http(UserFormVerb::Submit, &submitted) {
        UserFormHttpSettle::Merge(spec) => {
            assert_eq!(spec.effective_resolution(), Some(FormResolution::Submitted));
            assert!(!spec.is_unresolved(), "collapsed: no idle fields");
        }
        other => panic!("expected Merge submitted, got {other:?}"),
    }
    let failed = user_form_action_from_http(200, &send_message("e_form", r#""fill_failed""#, ""));
    match settle_user_form_http(UserFormVerb::Submit, &failed) {
        UserFormHttpSettle::Merge(spec) => {
            assert_eq!(spec.effective_resolution(), Some(FormResolution::FillFailed));
            assert!(!spec.is_unresolved());
        }
        other => panic!("expected Merge fill_failed, got {other:?}"),
    }
    let missing_entry = user_form_action_from_http(404, &form_json(r#"{ "error": "form entry missing" }"#));
    assert_eq!(missing_entry, UserFormActionReply::MissingEntry);
    assert_eq!(
        settle_user_form_http(UserFormVerb::Submit, &missing_entry),
        UserFormHttpSettle::Paint(FormResolution::FillFailed),
        "404 form entry missing is Not filled, not idle fields"
    );
    for reply in [
        UserFormActionReply::Empty,
        UserFormActionReply::AlreadyAnswered,
        UserFormActionReply::MissingRoute,
        UserFormActionReply::MissingEntry,
        UserFormActionReply::MissingEntryId,
        submitted,
        failed,
    ] {
        assert!(
            !matches!(settle_user_form_http(UserFormVerb::Submit, &reply), UserFormHttpSettle::Restore),
            "after Sending, never restore idle fields: {reply:?}"
        );
    }
    assert_eq!(
        settle_user_form_http(UserFormVerb::Submit, &UserFormActionReply::MissingEntryId),
        UserFormHttpSettle::Paint(FormResolution::FillFailed)
    );
    assert_eq!(
        settle_user_form_http(UserFormVerb::Submit, &UserFormActionReply::MissingRoute),
        UserFormHttpSettle::Paint(FormResolution::FillFailed),
        "404 after Continue is Not filled, not idle fields"
    );
    let mut sending = UserFormSpec::parse(
        &form_json(&format!(r#"{{"entryId":"e_form","formRequest":{GOOGLE_EMAIL_REQUEST}}}"#)),
        None,
    )
    .unwrap();
    sending.resolution = Some(FormResolution::Sending);
    assert!(!sending.is_unresolved(), "Sending is collapsed: no idle email/password fields");
    sending.resolution = Some(FormResolution::Submitted);
    assert!(!sending.is_unresolved());
    assert_eq!(FormResolution::Submitted.pill(), "Submitted");
    assert!(FormResolution::Submitted.body().contains("Filled into the page"));
    assert_eq!(FormResolution::FillFailed.pill(), "Not filled");
}

#[test]
fn values_debug_does_not_print_secrets() {
    let spec = UserFormSpec::parse(
        &form_json(
            r#"{"entryId":"e1","formRequest":{"title":"Login","fields":[
                {"id":"email","label":"Email","type":"email"},
                {"id":"password","label":"Password","type":"password"}
            ]}}"#,
        ),
        None,
    )
    .unwrap();
    let mut values = UserFormValues::default();
    values.by_id.insert("email".into(), "a@b.com".into());
    values.by_id.insert("password".into(), "s3cret-pass".into());
    let dump = values.debug_without_secrets(&spec.fields);
    assert!(!dump.contains("s3cret-pass"));
    assert!(!dump.contains("a@b.com"));
    assert!(dump.contains("password:<masked>"));
    let debug = values.debug();
    assert!(!debug.contains("s3cret-pass"), "UserFormValues Debug leaked a secret: {debug}");
    assert!(!debug.contains("a@b.com"));
    assert_eq!(debug, "UserFormValues { fields: 2 }");
}

#[test]
fn a_generative_form_payload_is_not_a_user_form() {
    let value = r#"{"component":"form","title":"Next","fields":[{"id":"go","label":"Go","options":["Yes","No"]}],"submit":"Send"}"#;
    assert!(!is_user_form_event("ui", &form_json(value)));
    assert!(!is_user_form_event("form", &form_json(value)));
    assert!(UserFormSpec::from_custom_event(&form_json(&format!(
        r#"{{"type":"CUSTOM","name":"ui","value":{value}}}"#
    )))
    .is_none());
}

#[test]
fn tool_args_keep_call_id_off_entry_id() {
    let spec = UserFormSpec::from_tool_args(
        &form_json(&format!(r#"{{"formRequest":{GOOGLE_EMAIL_REQUEST}}}"#)),
        "call-9",
    )
    .unwrap();
    assert_eq!(spec.call_id, "call-9");
    assert!(spec.entry_id.is_empty(), "tool call id is not the gateway card: {}", spec.entry_id);
    assert!(!spec.has_gateway_entry_id());
    assert!(spec.is_unresolved());
}

#[test]
fn http_404_entry_missing_is_not_missing_route() {
    assert_eq!(user_form_action_from_http(404, &Json::Null), UserFormActionReply::MissingRoute);
    assert_eq!(
        user_form_action_from_http(404, &form_json(r#"{ "error": "form entry missing" }"#)),
        UserFormActionReply::MissingEntry
    );
    assert_eq!(
        settle_user_form_http(UserFormVerb::Dismiss, &UserFormActionReply::MissingEntry),
        UserFormHttpSettle::Restore
    );
    assert_eq!(
        box_handoff_action_from_http(404, &form_json(r#"{ "error": "form entry missing" }"#)),
        BoxHandoffReply::Empty
    );
    assert_eq!(user_form_action_from_http(200, &Json::Null), UserFormActionReply::Empty);
    assert_eq!(
        user_form_action_from_http(200, &form_json(r#"{ "alreadyAnswered": true }"#)),
        UserFormActionReply::AlreadyAnswered
    );
    match user_form_action_from_http(200, &send_message("e_form", r#""submitted""#, "")) {
        UserFormActionReply::Settled(spec) => {
            assert_eq!(spec.entry_id, "e_form");
            assert_eq!(spec.effective_resolution(), Some(FormResolution::Submitted));
        }
        other => panic!("expected Settled, got {other:?}"),
    }
}

#[test]
fn submit_body_carries_values_that_must_not_become_chat_text() {
    let values = filled_login("ada@example.com");
    let body = submit_request_body("e_form", "cw_1", &values);
    assert_eq!(body.str_at("entryId"), Some("e_form"));
    assert_eq!(body.str_at("agentId"), Some("cw_1"));
    assert_eq!(body.get("values").and_then(|v| v.str_at("password")), Some("s3cret-pass"));
    let dismiss = dismiss_request_body("e_form", "cw_1", UserFormDismissMode::Escalated);
    assert_eq!(dismiss.str_at("mode"), Some("escalated"));
    assert!(dismiss.get("values").is_none());
}

#[test]
fn dismiss_escalated_stores_handoff_entry_id_not_as_form_id() {
    match user_form_action_from_http(
        200,
        &send_message("e_form", r#""escalated""#, r#","widgetDismissed":true,"handoffEntryId":"e_hand""#),
    ) {
        UserFormActionReply::Settled(spec) => {
            assert_eq!(spec.entry_id, "e_form");
            assert_eq!(spec.handoff_entry_id.as_deref(), Some("e_hand"));
            assert!(
                spec.is_unresolved(),
                "escalated must not settle the form: {:?}",
                spec.effective_resolution()
            );
            assert_eq!(spec.computer_handoff, Some(ComputerHandoffStatus::ActionNeeded));
            assert_ne!(spec.pill(), Some("On the computer"));
            assert!(spec.shows_form_chrome());
            assert!(spec.shows_computer_handoff());
            let resolve = resolve_handoff_request_body(
                spec.handoff_entry_id.as_deref().unwrap(),
                "cw_1",
                BoxHandoffResolution::HandedBack,
            );
            assert_eq!(resolve.str_at("entryId"), Some("e_hand"));
            assert_ne!(resolve.str_at("entryId"), Some(spec.entry_id.as_str()));
            assert_eq!(resolve.str_at("resolution"), Some("handed_back"));
            assert!(resolve.get("values").is_none());
        }
        other => panic!("expected Settled, got {other:?}"),
    }
}

#[test]
fn bind_call_peers_settles_the_call_twin_not_a_later_otp() {
    let call_twin = UserFormSpec::from_tool_args(
        &form_json(&format!(r#"{{"formRequest":{GOOGLE_EMAIL_REQUEST}}}"#)),
        "call-9",
    )
    .unwrap();
    let entry = UserFormSpec::from_custom_event(&live_awaiting(Some("e_form"))).unwrap();
    let otp = UserFormSpec::from_custom_event(&form_json(
        r#"{
            "type": "CUSTOM",
            "name": "run-awaiting-approval",
            "callId": "call-otp",
            "entryId": "e_otp",
            "reason": "user-form",
            "arguments": {
                "title": "Enter the code",
                "fields": [{"id": "otp", "label": "Code", "type": "otp", "required": true}]
            }
        }"#,
    ))
    .unwrap();
    assert_eq!(call_twin.card_key(), "call-9");
    assert_eq!(entry.card_key(), "e_form");
    assert!(entry.shares_call_id("call-9"));
    assert!(!otp.shares_call_id("call-9"));
    let mut specs = vec![call_twin, entry, otp];
    bind_call_peers(&mut specs, "call-9", FormResolution::Submitted);
    assert_eq!(specs[0].effective_resolution(), Some(FormResolution::Submitted));
    assert!(!specs[0].is_unresolved(), "call twin must collapse");
    assert_eq!(specs[1].effective_resolution(), Some(FormResolution::Submitted));
    assert!(specs[2].is_unresolved(), "OTP is a different call");
    assert_eq!(specs[2].entry_id, "e_otp");
}

#[test]
fn resolve_handoff_never_posts_the_form_card_id() {
    let body = resolve_handoff_request_body("e_hand", "cw_1", BoxHandoffResolution::Declined);
    assert_eq!(body.str_at("entryId"), Some("e_hand"));
    assert_eq!(body.str_at("agentId"), Some("cw_1"));
    assert_eq!(body.str_at("resolution"), Some("declined"));
    assert_ne!(body.str_at("entryId"), Some("e_form"));
    assert_eq!(box_handoff_action_from_http(404, &Json::Null), BoxHandoffReply::MissingRoute);
    assert_eq!(box_handoff_action_from_http(200, &Json::Null), BoxHandoffReply::Empty);
    assert_eq!(
        box_handoff_action_from_http(200, &form_json(r#"{ "alreadyAnswered": true }"#)),
        BoxHandoffReply::AlreadyAnswered
    );
    assert_eq!(
        box_handoff_action_from_http(200, &form_json(r#"{ "id": "e_hand", "boxResolution": "handed_back" }"#)),
        BoxHandoffReply::Settled
    );
}

#[test]
fn handoff_entry_id_parses_aliases_and_nested_envelopes() {
    let snake = UserFormSpec::parse(
        &form_json(
            r#"{"entryId":"e_form","formResolution":"escalated","handoff_entry_id":"e_hand_snake","formRequest":{"title":"Computer"}}"#,
        ),
        None,
    )
    .unwrap();
    assert_eq!(snake.handoff_entry_id.as_deref(), Some("e_hand_snake"));
    let nested = UserFormSpec::parse(
        &form_json(
            r#"{"id":"e_form","kind":"send-message","formResolution":"escalated","message":{"type":"user-form","handoffEntryId":"e_nested","formRequest":{"title":"Computer"}}}"#,
        ),
        None,
    )
    .unwrap();
    assert_eq!(nested.handoff_entry_id.as_deref(), Some("e_nested"));
}

#[test]
fn computer_handoff_attachment_becomes_an_escalated_form() {
    let spec = ComputerHandoffSpec::from_event(&form_json(
        r#"{"type":"CUSTOM","name":"computer-handoff-card","value":{"entryId":"e_form","boxRequestId":"box-9","boxInstruction":"Sign in on the computer."}}"#,
    ))
    .expect("handoff");
    assert_eq!(spec.form_entry_id, "e_form");
    assert_eq!(spec.box_request_id.as_deref(), Some("box-9"));
    assert_eq!(spec.handoff_entry_id, None);
    let form = spec.as_escalated_form();
    assert!(form.shows_computer_handoff());
    assert!(!form.shows_form_chrome());
    assert_eq!(form.entry_id, "e_form");
    assert_eq!(form.box_request_id.as_deref(), Some("box-9"));
    assert_eq!(form.handoff_prompt(), "Sign in on the computer.");
    assert!(form.is_unresolved());
    assert_eq!(form.computer_handoff, Some(ComputerHandoffStatus::ActionNeeded));
    let sand = ComputerHandoffSpec::from_event(&form_json(
        r#"{"type":"CUSTOM","name":"ui","value":{"uri":"sand://box","boxRequestId":"box-2","instruction":"Finish this step."}}"#,
    ))
    .expect("sand://box");
    assert_eq!(sand.box_request_id.as_deref(), Some("box-2"));
    assert_eq!(sand.as_escalated_form().handoff_prompt(), "Finish this step.");
    let sibling = ComputerHandoffSpec::from_event(&form_json(
        r#"{"type":"CUSTOM","name":"computer-handoff-card","value":{"formEntryId":"e_form","entryId":"e_hand","handoffEntryId":"e_hand","boxRequestId":"box-9","boxInstruction":"Sign in on the computer."}}"#,
    ))
    .expect("sibling");
    assert_eq!(sibling.form_entry_id, "e_form");
    assert_eq!(sibling.handoff_entry_id.as_deref(), Some("e_hand"));
    assert_eq!(sibling.as_escalated_form().handoff_entry_id.as_deref(), Some("e_hand"));
    assert_ne!(sibling.as_escalated_form().handoff_entry_id.as_deref(), Some("e_form"));
}

#[test]
fn open_the_screen_keeps_form_and_adds_computer_sibling() {
    let mut form = UserFormSpec::from_custom_event(&live_awaiting(Some("e_form"))).unwrap();
    assert!(form.is_unresolved());
    assert!(form.shows_form_chrome());
    assert!(!form.shows_computer_handoff());
    form.merge(
        UserFormSpec::from_custom_event(&form_json(&format!(
            r#"{{"type":"CUSTOM","name":"user-form","value":{{"id":"e_form","formResolution":"escalated","widgetDismissed":true,"handoffEntryId":"e_hand","formRequest":{GOOGLE_EMAIL_REQUEST}}}}}"#
        )))
        .unwrap(),
    );
    assert!(form.is_unresolved(), "form stays in place: {:?}", form.pill());
    assert_eq!(form.title, "Google account email");
    assert!(!form.fields.is_empty());
    assert_eq!(form.computer_handoff, Some(ComputerHandoffStatus::ActionNeeded));
    assert_ne!(form.pill(), Some("On the computer"));
    form.resolution = Some(FormResolution::Dismissed);
    form.computer_handoff = Some(ComputerHandoffStatus::Done);
    assert_eq!(form.pill(), Some("Dismissed"));
    assert_eq!(form.computer_handoff.map(|s| s.pill()), Some("Done"));
    assert!(form.shows_form_chrome());
    assert!(form.shows_computer_handoff());
    form.merge(
        UserFormSpec::from_custom_event(&form_json(&format!(
            r#"{{"type":"CUSTOM","name":"user-form","value":{{"id":"e_form","formResolution":"escalated","formRequest":{GOOGLE_EMAIL_REQUEST}}}}}"#
        )))
        .unwrap(),
    );
    assert_eq!(
        form.effective_resolution(),
        Some(FormResolution::Dismissed),
        "server escalated must not resurrect On the computer"
    );
    assert_eq!(form.computer_handoff, Some(ComputerHandoffStatus::Done), "Computer card stays Done");
    let mut skipped = UserFormSpec::from_custom_event(&live_awaiting(Some("e_skip"))).unwrap();
    skipped.resolution = Some(FormResolution::Skipped);
    skipped.computer_handoff = Some(ComputerHandoffStatus::Skipped);
    assert_eq!(skipped.pill(), Some("Skipped"));
    assert_eq!(skipped.computer_handoff.map(|s| s.pill()), Some("Skipped"));
    assert_eq!(
        UserFormSpec::settle_form_from_box(BoxHandoffResolution::HandedBack),
        FormResolution::Dismissed
    );
    assert_eq!(
        UserFormSpec::settle_form_from_box(BoxHandoffResolution::Declined),
        FormResolution::Skipped
    );
}

/// A field's debug line says a prefill is there, never what it is.
#[test]
fn a_field_debug_line_never_shows_its_prefill() {
    let email = UserFormField {
        id: "email".into(),
        label: "Email".into(),
        kind: UserFormFieldKind::Email,
        required: true,
        secret: false,
        options: Vec::new(),
        placeholder: Some("you@example.com".into()),
        prefill: Some("ada@example.com".into()),
    };
    let line = email.debug();
    assert_eq!(
        line,
        r#"UserFormField { id: "email", label: "Email", kind: Email, required: true, secret: false, options: [], placeholder: Some("you@example.com"), prefill: Some("<set>") }"#
    );
    assert!(!line.contains("ada@example.com"));
    let pick = UserFormField {
        id: "size".into(),
        label: "Size".into(),
        kind: UserFormFieldKind::Select,
        required: false,
        secret: true,
        options: vec![
            UserFormSelectOption { value: "s".into(), label: "Small".into() },
            UserFormSelectOption { value: "l".into(), label: "Large".into() },
        ],
        placeholder: None,
        prefill: Some("l".into()),
    };
    assert_eq!(
        pick.debug(),
        r#"UserFormField { id: "size", label: "Size", kind: Select, required: false, secret: true, options: [UserFormSelectOption { value: "s", label: "Small" }, UserFormSelectOption { value: "l", label: "Large" }], placeholder: None, prefill: Some("<redacted>") }"#
    );
}
