use nativechat::json::Json;
use nativechat::pending::{
    live_messages, PendingCustom, PendingOp, PendingUserMessage, PendingWrite, CUSTOM_NAME, PAYLOAD_V,
};

fn pending_json(text: &str) -> Json {
    Json::parse(text).expect("test JSON")
}

fn custom_event(op: &str, message: Option<&str>) -> Json {
    let message = match message {
        Some(m) => format!(r#","message":{m}"#),
        None => String::new(),
    };
    pending_json(&format!(
        r#"{{"type":"CUSTOM","name":"{CUSTOM_NAME}","timestamp":1710000000000,"value":{{"v":1,"op":"{op}","threadId":"th_1"{message}}}}}"#
    ))
}

fn row(id: &str, client_message_id: Option<&str>) -> PendingUserMessage {
    PendingUserMessage {
        v: PAYLOAD_V,
        id: id.into(),
        thread_id: "th_1".into(),
        content: "later".into(),
        reply_to: None,
        recipe_id: None,
        recipe_values: None,
        skill_id: None,
        client_message_id: client_message_id.map(str::to_string),
        status: "pending".into(),
        created_at_ms: 10,
        updated_at_ms: 20,
        drained_at_ms: None,
        drained_run_id: None,
    }
}

fn read_row(text: &str) -> Option<PendingUserMessage> {
    PendingUserMessage::from_json(&pending_json(text))
}

#[test]
fn a_pending_row_reads_camel_case_and_names_its_bubble() {
    let row = read_row(
        r#"{"v":1,"id":"pum_1","threadId":"th_1","content":"send this after the turn",
            "replyTo":{"messageId":"m1","preview":"hi"},"recipeId":"rec_1",
            "recipeValues":{"q":"later"},"skillId":"skl_1","clientMessageId":"msg_bubble_1",
            "status":"pending","createdAtMs":10,"updatedAtMs":20,"drainedAtMs":null,"drainedRunId":null}"#,
    )
    .expect("row");
    assert_eq!(row.v, PAYLOAD_V);
    assert_eq!(row.thread_id, "th_1");
    assert_eq!(row.bubble_id(), "msg_bubble_1");
    assert_eq!(row.reply_to.as_ref().and_then(|r| r.str_at("messageId")), Some("m1"));
    assert_eq!(row.recipe_id.as_deref(), Some("rec_1"));
    assert_eq!(row.skill_id.as_deref(), Some("skl_1"));
}

#[test]
fn a_row_without_a_client_id_is_named_by_the_server_id() {
    let read = read_row(r#"{"id":"pum_x","content":"later"}"#).expect("row");
    assert_eq!(read.bubble_id(), "pum_x");
    assert_eq!(row("pum_y", Some("   ")).bubble_id(), "pum_y");
    assert_eq!(row("pum_z", Some("  msg_1 ")).bubble_id(), "msg_1");
}

/// Left-out fields take their defaults; a null optional is none.
#[test]
fn a_sparse_row_reads_its_defaults() {
    let row = read_row(r#"{"id":"pum_2","recipeId":null,"extra":true}"#).expect("row");
    assert_eq!(row.v, 0);
    assert_eq!(row.thread_id, "");
    assert_eq!(row.content, "");
    assert_eq!(row.status, "");
    assert_eq!(row.created_at_ms, 0);
    assert!(row.recipe_id.is_none());
    assert!(row.reply_to.is_none());
    assert!(row.drained_at_ms.is_none());
}

/// A row given as an array reads its fields by place.
#[test]
fn a_positional_row_reads_by_place() {
    let row = read_row(r#"[1,"pum_3","th_3","words"]"#).expect("row");
    assert_eq!(row.v, 1);
    assert_eq!(row.id, "pum_3");
    assert_eq!(row.thread_id, "th_3");
    assert_eq!(row.content, "words");
    assert_eq!(row.status, "");
    assert!(read_row(r#"[1]"#).is_none(), "the id is not there");
    assert!(read_row(r#"[1,"a","","",null,null,null,null,null,"",0,0,null,null,"more"]"#).is_none());
}

/// Without a string id, or with a null or mistyped field, a value is no row.
#[test]
fn a_value_of_another_shape_is_no_row() {
    assert!(read_row(r#"{"content":"later"}"#).is_none());
    assert!(read_row(r#"{"id":7}"#).is_none());
    assert!(read_row(r#"{"id":"pum_1","content":null}"#).is_none());
    assert!(read_row(r#"{"id":"pum_1","v":-1}"#).is_none());
    assert!(read_row(r#"{"id":"pum_1","v":4294967296}"#).is_none());
    assert!(read_row(r#"{"id":"pum_1","createdAtMs":1.5}"#).is_none());
    assert!(read_row(r#""pum_1""#).is_none());
}

#[test]
fn enqueue_write_is_v1_and_omits_empty_optionals() {
    let body = PendingWrite::enqueue("later".into(), "msg_1".into(), None, None, None, None);
    assert_eq!(body.v, PAYLOAD_V);
    assert_eq!(body.content.as_deref(), Some("later"));
    assert_eq!(body.client_message_id.as_deref(), Some("msg_1"));
    assert!(body.reply_to.is_none());
    assert!(body.recipe_id.is_none());
    assert!(body.skill_id.is_none());
    let blank = PendingWrite::enqueue(
        "later".into(),
        String::new(),
        None,
        Some(String::new()),
        None,
        Some("skl_1".into()),
    );
    assert!(blank.client_message_id.is_none());
    assert!(blank.recipe_id.is_none());
    assert_eq!(blank.skill_id.as_deref(), Some("skl_1"));
}

#[test]
fn a_content_patch_does_not_clear_the_other_fields() {
    let body = PendingWrite::content_patch("instead".into());
    assert_eq!(body.v, 1);
    assert_eq!(body.content.as_deref(), Some("instead"));
    assert!(body.client_message_id.is_none());
    assert!(body.reply_to.is_none());
    assert!(body.recipe_id.is_none());
    assert!(body.recipe_values.is_none());
    assert!(body.skill_id.is_none());
}

#[test]
fn pending_user_message_customs_are_v1_and_name_every_op() {
    let row = r#"{"v":1,"id":"pum_1","threadId":"th_1","content":"later","clientMessageId":"msg_1","status":"pending"}"#;
    for op in ["created", "edited", "drained", "snapshot"] {
        let custom = PendingCustom::from_agui(&custom_event(op, Some(row))).expect(op);
        assert_eq!(custom.v, PAYLOAD_V);
        assert_eq!(custom.op.as_str(), op);
        assert_eq!(custom.thread_id, "th_1");
        assert_eq!(custom.timestamp, Some(1710000000000));
        let message = custom.message.as_ref().expect("the row");
        assert_eq!(message.bubble_id(), "msg_1");
        assert_eq!(message.id, "pum_1");
    }
    let canceled = PendingCustom::from_agui(&custom_event("canceled", None)).expect("canceled");
    assert_eq!(canceled.op, PendingOp::Canceled);
    assert!(canceled.message.is_none(), "canceled omits the words");
}

#[test]
fn a_custom_for_another_name_or_version_is_not_ours() {
    let event = pending_json(
        r#"{"type":"CUSTOM","name":"user-form","value":{"v":1,"op":"created","threadId":"th_1"}}"#,
    );
    assert!(PendingCustom::from_agui(&event).is_none());
    let event = pending_json(
        r#"{"type":"CUSTOM","name":"pending-user-message","value":{"v":2,"op":"created","threadId":"th_1"}}"#,
    );
    assert!(PendingCustom::from_agui(&event).is_none());
    assert!(PendingCustom::from_agui(&pending_json(r#"{ "type": "TEXT_MESSAGE_START" }"#)).is_none());
}

#[test]
fn a_list_prefers_snapshot_events_when_the_field_is_present() {
    let row = r#"{"id":"pum_1","content":"from the event","clientMessageId":"msg_1"}"#;
    let events = vec![custom_event("snapshot", Some(row))];
    let stale = vec![read_row(
        r#"{"id":"pum_stale","content":"from the row list","clientMessageId":"msg_stale"}"#,
    )
    .expect("row")];
    let live = live_messages(Some(&events), stale);
    assert_eq!(live.len(), 1);
    assert_eq!(live[0].content, "from the event");
    assert_eq!(live[0].bubble_id(), "msg_1");
}

/// A CUSTOM whose message is not a row carries none, and the live queue
/// leaves it out.
#[test]
fn a_message_that_is_not_a_row_is_dropped() {
    let custom = PendingCustom::from_agui(&custom_event("created", Some(r#"{"content":"no id"}"#)))
        .expect("still ours");
    assert!(custom.message.is_none());
    let events = vec![
        custom_event("snapshot", Some(r#"{"content":"no id"}"#)),
        custom_event("snapshot", Some(r#"{"id":"pum_ok"}"#)),
    ];
    let live = PendingCustom::snapshot_messages(&events);
    assert_eq!(live.len(), 1);
    assert_eq!(live[0].id, "pum_ok");
}

#[test]
fn an_empty_pending_events_array_is_none_held() {
    assert!(PendingCustom::snapshot_messages(&[]).is_empty());
}

/// Edits and cancels are not rows of the live queue; only snapshots and
/// creations are.
#[test]
fn only_snapshots_and_creations_are_live_rows() {
    let row = r#"{"id":"pum_1","content":"later","clientMessageId":"msg_1"}"#;
    let events = vec![
        custom_event("edited", Some(row)),
        custom_event("created", Some(row)),
        custom_event("canceled", None),
        custom_event("drained", Some(row)),
    ];
    assert_eq!(PendingCustom::snapshot_messages(&events).len(), 1);
}

/// A `v` missing from the payload reads as version 1.
#[test]
fn a_payload_without_a_version_is_v1() {
    let event = pending_json(
        r#"{"type":"CUSTOM","name":"pending-user-message","value":{"op":"created","thread_id":"th_2"}}"#,
    );
    let custom = PendingCustom::from_agui(&event).expect("v1");
    assert_eq!(custom.thread_id, "th_2");
    assert_eq!(custom.timestamp, None);
}

/// A listing without the snapshot field reads its rows; one with the field
/// reads the snapshots, even when there are none.
#[test]
fn the_live_queue_prefers_the_snapshots_when_they_were_sent() {
    let rows = vec![row("pum_1", Some("msg_1"))];
    let from_rows = live_messages(None, rows);
    assert_eq!(from_rows.len(), 1);
    assert_eq!(from_rows[0].id, "pum_1");
    assert!(live_messages(Some(&[]), vec![row("pum_1", Some("msg_1"))]).is_empty());
}
