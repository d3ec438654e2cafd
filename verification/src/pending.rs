//! Durable pending user messages: the server's follow-up queue, per thread,
//! and the `pending-user-message` CUSTOM frames that say what happened to it.

use vstd::prelude::*;

use crate::json::{as_i64, as_str, as_u64, get, opt_json, opt_view, str_at, Json, JsonV};
use crate::text::{either, opt_seq, or_else, owned, same, trim, trimmed};

verus! {

/// The payload version. A write that names another is refused unread;
/// a missing `v` is this one.
pub const PAYLOAD_V: u32 = 1;

/// The CUSTOM `name` of mutation and snapshot events.
pub const CUSTOM_NAME: &'static str = "pending-user-message";

/// One follow-up as the thread and pending routes return it.
#[derive(Debug)]
pub struct PendingUserMessage {
    pub v: u32,
    pub id: String,
    pub thread_id: String,
    pub content: String,
    pub reply_to: Option<Json>,
    pub recipe_id: Option<String>,
    pub recipe_values: Option<Json>,
    pub skill_id: Option<String>,
    pub client_message_id: Option<String>,
    pub status: String,
    pub created_at_ms: i64,
    pub updated_at_ms: i64,
    pub drained_at_ms: Option<i64>,
    pub drained_run_id: Option<String>,
}

/// The bubble a row is about: its client message id, trimmed, else the
/// server's own id.
pub open spec fn bubble_of(id: Seq<char>, client_message_id: Option<Seq<char>>) -> Seq<char> {
    match client_message_id {
        Some(c) => if trim(c).len() > 0 {
            trim(c)
        } else {
            id
        },
        None => id,
    }
}

impl PendingUserMessage {
    pub fn bubble_id(&self) -> (r: String)
        ensures
            r@ == bubble_of(self.id@, opt_seq(self.client_message_id)),
    {
        match &self.client_message_id {
            Some(c) => {
                let t = trimmed(c.as_str());
                if t.as_str().unicode_len() > 0 {
                    t
                } else {
                    self.id.clone()
                }
            },
            None => self.id.clone(),
        }
    }
}

/// A row as the contracts read it.
pub struct RowV {
    pub v: u32,
    pub id: Seq<char>,
    pub thread_id: Seq<char>,
    pub content: Seq<char>,
    pub reply_to: Option<JsonV>,
    pub recipe_id: Option<Seq<char>>,
    pub recipe_values: Option<JsonV>,
    pub skill_id: Option<Seq<char>>,
    pub client_message_id: Option<Seq<char>>,
    pub status: Seq<char>,
    pub created_at_ms: i64,
    pub updated_at_ms: i64,
    pub drained_at_ms: Option<i64>,
    pub drained_run_id: Option<Seq<char>>,
}

impl View for PendingUserMessage {
    type V = RowV;

    open spec fn view(&self) -> RowV {
        RowV {
            v: self.v,
            id: self.id@,
            thread_id: self.thread_id@,
            content: self.content@,
            reply_to: opt_json(self.reply_to),
            recipe_id: opt_seq(self.recipe_id),
            recipe_values: opt_json(self.recipe_values),
            skill_id: opt_seq(self.skill_id),
            client_message_id: opt_seq(self.client_message_id),
            status: self.status@,
            created_at_ms: self.created_at_ms,
            updated_at_ms: self.updated_at_ms,
            drained_at_ms: self.drained_at_ms,
            drained_run_id: opt_seq(self.drained_run_id),
        }
    }
}

/// The fields of a row, in the order a positional row gives them.
pub const ROW_FIELDS: usize = 14;

/// What a row holds for a field: the member named so in an object, the
/// element at the field's place in an array; nothing when it is left out.
pub open spec fn slot_of(v: JsonV, index: nat, key: Seq<char>) -> Option<JsonV> {
    match v {
        JsonV::Object(_) => get(v, key),
        JsonV::Array(items) => if index < items.len() {
            Some(items[index as int])
        } else {
            None
        },
        _ => None,
    }
}

/// A text field: empty when left out; only a string reads.
pub open spec fn text_slot(s: Option<JsonV>) -> Option<Seq<char>> {
    match s {
        None => Some(Seq::empty()),
        Some(JsonV::Str(t)) => Some(t),
        Some(_) => None,
    }
}

/// An optional text field: none when left out or null; only a string reads.
pub open spec fn opt_text_slot(s: Option<JsonV>) -> Option<Option<Seq<char>>> {
    match s {
        None => Some(None),
        Some(JsonV::Null) => Some(None),
        Some(JsonV::Str(t)) => Some(Some(t)),
        Some(_) => None,
    }
}

/// An optional value field: none when left out or null, else the value.
pub open spec fn any_slot(s: Option<JsonV>) -> Option<JsonV> {
    match s {
        Some(JsonV::Null) => None,
        other => other,
    }
}

/// A `u32` field: zero when left out; only a whole number in range reads.
pub open spec fn u32_slot(s: Option<JsonV>) -> Option<u32> {
    match s {
        None => Some(0),
        Some(JsonV::Number { unsigned: Some(n), .. }) => if n <= u32::MAX {
            Some(n as u32)
        } else {
            None
        },
        Some(_) => None,
    }
}

/// An `i64` field: zero when left out; only a whole number in range reads.
pub open spec fn i64_slot(s: Option<JsonV>) -> Option<i64> {
    match s {
        None => Some(0),
        Some(JsonV::Number { signed: Some(n), .. }) => Some(n),
        Some(_) => None,
    }
}

/// An optional `i64` field: none when left out or null.
pub open spec fn opt_i64_slot(s: Option<JsonV>) -> Option<Option<i64>> {
    match s {
        None => Some(None),
        Some(JsonV::Null) => Some(None),
        Some(JsonV::Number { signed: Some(n), .. }) => Some(Some(n)),
        Some(_) => None,
    }
}

/// The id, which a row must have, as a string.
pub open spec fn id_slot(s: Option<JsonV>) -> Option<Seq<char>> {
    match s {
        Some(JsonV::Str(t)) => Some(t),
        _ => None,
    }
}

/// A value read as a row the way serde reads the row's shape: an object by
/// its camelCase keys, or an array by the fields' places (no more elements
/// than fields); each field of its type, left out for its default, and the
/// id a string that is there. Anything else is no row.
pub open spec fn row_of(v: JsonV) -> Option<RowV> {
    let shape = v is Object || (v is Array && v->Array_0.len() <= ROW_FIELDS);
    let ver = u32_slot(slot_of(v, 0, "v"@));
    let id = id_slot(slot_of(v, 1, "id"@));
    let thread_id = text_slot(slot_of(v, 2, "threadId"@));
    let content = text_slot(slot_of(v, 3, "content"@));
    let recipe_id = opt_text_slot(slot_of(v, 5, "recipeId"@));
    let skill_id = opt_text_slot(slot_of(v, 7, "skillId"@));
    let client_message_id = opt_text_slot(slot_of(v, 8, "clientMessageId"@));
    let status = text_slot(slot_of(v, 9, "status"@));
    let created = i64_slot(slot_of(v, 10, "createdAtMs"@));
    let updated = i64_slot(slot_of(v, 11, "updatedAtMs"@));
    let drained_at = opt_i64_slot(slot_of(v, 12, "drainedAtMs"@));
    let drained_run = opt_text_slot(slot_of(v, 13, "drainedRunId"@));
    if shape && ver is Some && id is Some && thread_id is Some && content is Some
        && recipe_id is Some && skill_id is Some && client_message_id is Some && status is Some
        && created is Some && updated is Some && drained_at is Some && drained_run is Some {
        Some(
            RowV {
                v: ver->0,
                id: id->0,
                thread_id: thread_id->0,
                content: content->0,
                reply_to: any_slot(slot_of(v, 4, "replyTo"@)),
                recipe_id: recipe_id->0,
                recipe_values: any_slot(slot_of(v, 6, "recipeValues"@)),
                skill_id: skill_id->0,
                client_message_id: client_message_id->0,
                status: status->0,
                created_at_ms: created->0,
                updated_at_ms: updated->0,
                drained_at_ms: drained_at->0,
                drained_run_id: drained_run->0,
            },
        )
    } else {
        None
    }
}

fn slot<'a>(value: &'a Json, index: usize, key: &str) -> (r: Option<&'a Json>)
    ensures
        opt_view(r) == slot_of(value@, index as nat, key@),
{
    match value {
        Json::Object(_) => value.get(key),
        Json::Array(items) => if index < items.len() {
            Some(&items[index])
        } else {
            None
        },
        _ => None,
    }
}

fn text_of(s: Option<&Json>) -> (r: Option<String>)
    ensures
        opt_seq(r) == text_slot(opt_view(s)),
{
    match s {
        None => Some(String::new()),
        Some(Json::Str(t)) => Some(t.clone()),
        Some(_) => None,
    }
}

fn opt_text_of(s: Option<&Json>) -> (r: Option<Option<String>>)
    ensures
        match r {
            Some(x) => opt_text_slot(opt_view(s)) == Some(opt_seq(x)),
            None => opt_text_slot(opt_view(s)) is None,
        },
{
    match s {
        None => Some(None),
        Some(Json::Null) => Some(None),
        Some(Json::Str(t)) => Some(Some(t.clone())),
        Some(_) => None,
    }
}

fn any_of(s: Option<&Json>) -> (r: Option<Json>)
    ensures
        opt_json(r) == any_slot(opt_view(s)),
{
    match s {
        None => None,
        Some(Json::Null) => None,
        Some(v) => Some(v.copy()),
    }
}

fn u32_of(s: Option<&Json>) -> (r: Option<u32>)
    ensures
        r == u32_slot(opt_view(s)),
{
    match s {
        None => Some(0),
        Some(Json::Number(n)) => match n.unsigned {
            Some(u) => if u <= 0xffff_ffffu64 {
                Some(u as u32)
            } else {
                None
            },
            None => None,
        },
        Some(_) => None,
    }
}

fn i64_of(s: Option<&Json>) -> (r: Option<i64>)
    ensures
        r == i64_slot(opt_view(s)),
{
    match s {
        None => Some(0),
        Some(Json::Number(n)) => n.signed,
        Some(_) => None,
    }
}

fn opt_i64_of(s: Option<&Json>) -> (r: Option<Option<i64>>)
    ensures
        r == opt_i64_slot(opt_view(s)),
{
    match s {
        None => Some(None),
        Some(Json::Null) => Some(None),
        Some(Json::Number(n)) => match n.signed {
            Some(x) => Some(Some(x)),
            None => None,
        },
        Some(_) => None,
    }
}

fn id_of(s: Option<&Json>) -> (r: Option<String>)
    ensures
        opt_seq(r) == id_slot(opt_view(s)),
{
    match s {
        Some(Json::Str(t)) => Some(t.clone()),
        _ => None,
    }
}

impl PendingUserMessage {
    /// A value read as a row, or nothing when it does not have a row's shape.
    pub fn from_json(value: &Json) -> (r: Option<Self>)
        ensures
            match r {
                Some(m) => row_of(value@) == Some(m@),
                None => row_of(value@) is None,
            },
    {
        let shaped = match value {
            Json::Object(_) => true,
            Json::Array(items) => items.len() <= ROW_FIELDS,
            _ => false,
        };
        if !shaped {
            return None;
        }
        let v = match u32_of(slot(value, 0, "v")) {
            Some(x) => x,
            None => return None,
        };
        let id = match id_of(slot(value, 1, "id")) {
            Some(x) => x,
            None => return None,
        };
        let thread_id = match text_of(slot(value, 2, "threadId")) {
            Some(x) => x,
            None => return None,
        };
        let content = match text_of(slot(value, 3, "content")) {
            Some(x) => x,
            None => return None,
        };
        let recipe_id = match opt_text_of(slot(value, 5, "recipeId")) {
            Some(x) => x,
            None => return None,
        };
        let skill_id = match opt_text_of(slot(value, 7, "skillId")) {
            Some(x) => x,
            None => return None,
        };
        let client_message_id = match opt_text_of(slot(value, 8, "clientMessageId")) {
            Some(x) => x,
            None => return None,
        };
        let status = match text_of(slot(value, 9, "status")) {
            Some(x) => x,
            None => return None,
        };
        let created_at_ms = match i64_of(slot(value, 10, "createdAtMs")) {
            Some(x) => x,
            None => return None,
        };
        let updated_at_ms = match i64_of(slot(value, 11, "updatedAtMs")) {
            Some(x) => x,
            None => return None,
        };
        let drained_at_ms = match opt_i64_of(slot(value, 12, "drainedAtMs")) {
            Some(x) => x,
            None => return None,
        };
        let drained_run_id = match opt_text_of(slot(value, 13, "drainedRunId")) {
            Some(x) => x,
            None => return None,
        };
        Some(PendingUserMessage {
            v,
            id,
            thread_id,
            content,
            reply_to: any_of(slot(value, 4, "replyTo")),
            recipe_id,
            recipe_values: any_of(slot(value, 6, "recipeValues")),
            skill_id,
            client_message_id,
            status,
            created_at_ms,
            updated_at_ms,
            drained_at_ms,
            drained_run_id,
        })
    }
}

/// What a `pending-user-message` CUSTOM did.
#[derive(Debug, Clone, Copy, PartialEq, Eq, Structural)]
pub enum PendingOp {
    Created,
    Edited,
    Canceled,
    Drained,
    Snapshot,
}

pub open spec fn op_word(op: PendingOp) -> Seq<char> {
    match op {
        PendingOp::Created => "created"@,
        PendingOp::Edited => "edited"@,
        PendingOp::Canceled => "canceled"@,
        PendingOp::Drained => "drained"@,
        PendingOp::Snapshot => "snapshot"@,
    }
}

/// Exactly one of the five words, or nothing.
pub open spec fn op_of(raw: Seq<char>) -> Option<PendingOp> {
    if raw == "created"@ {
        Some(PendingOp::Created)
    } else if raw == "edited"@ {
        Some(PendingOp::Edited)
    } else if raw == "canceled"@ {
        Some(PendingOp::Canceled)
    } else if raw == "drained"@ {
        Some(PendingOp::Drained)
    } else if raw == "snapshot"@ {
        Some(PendingOp::Snapshot)
    } else {
        None
    }
}

impl PendingOp {
    pub fn as_str(self) -> (r: &'static str)
        ensures
            r@ == op_word(self),
    {
        match self {
            PendingOp::Created => "created",
            PendingOp::Edited => "edited",
            PendingOp::Canceled => "canceled",
            PendingOp::Drained => "drained",
            PendingOp::Snapshot => "snapshot",
        }
    }

    pub fn parse(raw: &str) -> (r: Option<Self>)
        ensures
            r == op_of(raw@),
    {
        if same(raw, "created") {
            Some(PendingOp::Created)
        } else if same(raw, "edited") {
            Some(PendingOp::Edited)
        } else if same(raw, "canceled") {
            Some(PendingOp::Canceled)
        } else if same(raw, "drained") {
            Some(PendingOp::Drained)
        } else if same(raw, "snapshot") {
            Some(PendingOp::Snapshot)
        } else {
            None
        }
    }
}

/// Every op reads back as itself from its word.
pub proof fn lemma_op_round_trip(op: PendingOp)
    ensures
        op_of(op_word(op)) == Some(op),
{
    reveal_strlit("created");
    reveal_strlit("edited");
    reveal_strlit("canceled");
    reveal_strlit("drained");
    reveal_strlit("snapshot");
    assert("created"@[0] != "edited"@[0] && "created"@[0] != "drained"@[0]
        && "created"@[0] != "snapshot"@[0]);
    assert("canceled"@.len() != "created"@.len());
    assert("edited"@[0] != "drained"@[0] && "edited"@[0] != "snapshot"@[0]);
    assert("drained"@[0] != "snapshot"@[0]);
}

/// A `pending-user-message` CUSTOM, `v: 1`. Its message is the row it
/// carried, when that reads as a row; a `canceled` carries none.
#[derive(Debug)]
pub struct PendingCustom {
    pub timestamp: Option<i64>,
    pub v: u32,
    pub op: PendingOp,
    pub thread_id: String,
    pub message: Option<PendingUserMessage>,
}

pub struct PendingCustomV {
    pub timestamp: Option<i64>,
    pub op: PendingOp,
    pub thread_id: Seq<char>,
    pub message: Option<RowV>,
}

pub open spec fn opt_row(m: Option<PendingUserMessage>) -> Option<RowV> {
    match m {
        Some(r) => Some(r@),
        None => None,
    }
}

impl View for PendingCustom {
    type V = PendingCustomV;

    open spec fn view(&self) -> PendingCustomV {
        PendingCustomV {
            timestamp: self.timestamp,
            op: self.op,
            thread_id: self.thread_id@,
            message: opt_row(self.message),
        }
    }
}

/// The frame read as ours: a CUSTOM named so, with a `value` of version 1
/// (or none given) and an op this client knows.
pub open spec fn pending_custom(event: JsonV) -> Option<PendingCustomV> {
    if str_at(event, "type"@) != Some("CUSTOM"@) || str_at(event, "name"@) != Some(CUSTOM_NAME@) {
        None
    } else {
        match get(event, "value"@) {
            None => None,
            Some(value) => {
                let v = match get(value, "v"@) {
                    Some(x) => or_else(as_u64(x), PAYLOAD_V as u64),
                    None => PAYLOAD_V as u64,
                };
                let op = match str_at(value, "op"@) {
                    Some(w) => op_of(w),
                    None => None,
                };
                if v != PAYLOAD_V || op is None {
                    None
                } else {
                    Some(
                        PendingCustomV {
                            timestamp: match get(event, "timestamp"@) {
                                Some(t) => as_i64(t),
                                None => None,
                            },
                            op: op->0,
                            thread_id: match either(
                                get(value, "threadId"@),
                                get(value, "thread_id"@),
                            ) {
                                Some(t) => or_else(as_str(t), Seq::empty()),
                                None => Seq::empty(),
                            },
                            message: match get(value, "message"@) {
                                Some(m) => if m is Null {
                                    None
                                } else {
                                    row_of(m)
                                },
                                None => None,
                            },
                        },
                    )
                }
            },
        }
    }
}

impl PendingCustom {
    /// `None` when this is not our CUSTOM, or when `v` names another number.
    pub fn from_agui(event: &Json) -> (r: Option<Self>)
        ensures
            match r {
                Some(c) => pending_custom(event@) == Some(c@) && c.v == PAYLOAD_V,
                None => pending_custom(event@) is None,
            },
    {
        let is_custom = match event.str_at("type") {
            Some(t) => same(t, "CUSTOM"),
            None => false,
        };
        let is_ours = match event.str_at("name") {
            Some(n) => same(n, CUSTOM_NAME),
            None => false,
        };
        if !is_custom || !is_ours {
            return None;
        }
        let value = match event.get("value") {
            Some(v) => v,
            None => {
                return None;
            },
        };
        let v: u64 = match value.get("v") {
            Some(x) => match x.as_u64() {
                Some(n) => n,
                None => PAYLOAD_V as u64,
            },
            None => PAYLOAD_V as u64,
        };
        if v != PAYLOAD_V as u64 {
            return None;
        }
        let op = match value.str_at("op") {
            Some(w) => match PendingOp::parse(w) {
                Some(op) => op,
                None => {
                    return None;
                },
            },
            None => {
                return None;
            },
        };
        let thread = match value.get("threadId") {
            Some(t) => Some(t),
            None => value.get("thread_id"),
        };
        let thread_id = match thread {
            Some(t) => match t.as_str() {
                Some(s) => owned(s),
                None => String::new(),
            },
            None => String::new(),
        };
        let message = match value.get("message") {
            Some(m) => if m.is_null() {
                None
            } else {
                PendingUserMessage::from_json(m)
            },
            None => None,
        };
        let timestamp = match event.get("timestamp") {
            Some(t) => t.as_i64(),
            None => None,
        };
        Some(PendingCustom { timestamp, v: PAYLOAD_V, op, thread_id, message })
    }
}

/// The live rows among snapshot events: the message of each of our frames
/// that is a snapshot (or a created that got onto the list), in order.
pub open spec fn snapshot_rows(events: Seq<JsonV>) -> Seq<RowV>
    decreases events.len(),
{
    if events.len() == 0 {
        Seq::empty()
    } else {
        let prev = snapshot_rows(events.drop_last());
        match pending_custom(events.last()) {
            Some(c) => if (c.op == PendingOp::Snapshot || c.op == PendingOp::Created)
                && c.message is Some {
                prev.push(c.message->0)
            } else {
                prev
            },
            None => prev,
        }
    }
}

/// Rows by their views.
pub open spec fn rows_view(rows: Seq<PendingUserMessage>) -> Seq<RowV> {
    rows.map_values(|m: PendingUserMessage| m@)
}

impl PendingCustom {
    /// Each live row among snapshot events.
    pub fn snapshot_messages(events: &[Json]) -> (r: Vec<PendingUserMessage>)
        ensures
            rows_view(r@) == snapshot_rows(events@.map_values(|j: Json| j@)),
    {
        let ghost all = events@.map_values(|j: Json| j@);
        let mut out: Vec<PendingUserMessage> = Vec::new();
        let mut i: usize = 0;
        while i < events.len()
            invariant
                i <= events@.len(),
                all == events@.map_values(|j: Json| j@),
                rows_view(out@) == snapshot_rows(all.subrange(0, i as int)),
            decreases events@.len() - i,
        {
            let ghost before = rows_view(out@);
            proof {
                let sub = all.subrange(0, i + 1);
                assert(sub.drop_last() =~= all.subrange(0, i as int));
                assert(sub.last() == events@[i as int]@);
            }
            if let Some(custom) = PendingCustom::from_agui(&events[i]) {
                let live = match custom.op {
                    PendingOp::Snapshot | PendingOp::Created => true,
                    _ => false,
                };
                if live {
                    if let Some(m) = custom.message {
                        let ghost mv = m@;
                        out.push(m);
                        assert(rows_view(out@) =~= before.push(mv));
                    }
                }
            }
            i = i + 1;
        }
        assert(all.subrange(0, i as int) =~= all);
        out
    }
}

/// A create or an edit. Omitted fields stay as they are on an edit.
#[derive(Debug)]
pub struct PendingWrite {
    pub v: u32,
    pub content: Option<String>,
    pub client_message_id: Option<String>,
    pub reply_to: Option<Json>,
    pub recipe_id: Option<String>,
    pub recipe_values: Option<Json>,
    pub skill_id: Option<String>,
}

/// An id, unless it is empty.
pub open spec fn nonempty_id(id: Option<Seq<char>>) -> Option<Seq<char>> {
    match id {
        Some(s) => if s.len() > 0 {
            Some(s)
        } else {
            None
        },
        None => None,
    }
}

fn nonempty(id: Option<String>) -> (r: Option<String>)
    ensures
        opt_seq(r) == nonempty_id(opt_seq(id)),
{
    match id {
        Some(s) => if s.as_str().unicode_len() > 0 {
            Some(s)
        } else {
            None
        },
        None => None,
    }
}

impl PendingWrite {
    /// A new follow-up: version 1, its content, and the ids that are not empty.
    pub fn enqueue(
        content: String,
        client_message_id: String,
        reply_to: Option<Json>,
        recipe_id: Option<String>,
        recipe_values: Option<Json>,
        skill_id: Option<String>,
    ) -> (r: Self)
        ensures
            r.v == PAYLOAD_V,
            opt_seq(r.content) == Some(content@),
            opt_seq(r.client_message_id) == nonempty_id(Some(client_message_id@)),
            opt_json(r.reply_to) == opt_json(reply_to),
            opt_seq(r.recipe_id) == nonempty_id(opt_seq(recipe_id)),
            opt_json(r.recipe_values) == opt_json(recipe_values),
            opt_seq(r.skill_id) == nonempty_id(opt_seq(skill_id)),
    {
        PendingWrite {
            v: PAYLOAD_V,
            content: Some(content),
            client_message_id: nonempty(Some(client_message_id)),
            reply_to,
            recipe_id: nonempty(recipe_id),
            recipe_values,
            skill_id: nonempty(skill_id),
        }
    }

    /// An edit of the content alone.
    pub fn content_patch(content: String) -> (r: Self)
        ensures
            r.v == PAYLOAD_V,
            opt_seq(r.content) == Some(content@),
            r.client_message_id is None && r.reply_to is None && r.recipe_id is None
                && r.recipe_values is None && r.skill_id is None,
    {
        PendingWrite {
            v: PAYLOAD_V,
            content: Some(content),
            client_message_id: None,
            reply_to: None,
            recipe_id: None,
            recipe_values: None,
            skill_id: None,
        }
    }
}

/// The live queue of a pending listing: the rows of the snapshot events
/// when the server sent that field (even empty), the listed rows otherwise.
pub fn live_messages(pending_events: Option<&[Json]>, rows: Vec<PendingUserMessage>) -> (r: Vec<
    PendingUserMessage,
>)
    ensures
        rows_view(r@) == match pending_events {
            Some(events) => snapshot_rows(events@.map_values(|j: Json| j@)),
            None => rows_view(rows@),
        },
{
    match pending_events {
        Some(events) => PendingCustom::snapshot_messages(events),
        None => rows,
    }
}

} // verus!
