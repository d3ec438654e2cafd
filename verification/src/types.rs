//! The account, its coworkers and threads as the server lists them, and the
//! AG-UI message shape a turn sends.

use vstd::prelude::*;

use crate::json::{parse_json, parsed_json, str_at, Json, JsonV};
use crate::text::{
    chars_of, find_exec, find_from, has_prefix, lemma_find_from_occurs, occurs_at, or_else, owned,
    push_str,
    same, starts_with, string_of, trim, trimmed,
};

verus! {

#[derive(Debug, Clone, PartialEq, Eq)]
pub struct Account {
    pub id: String,
    pub email: String,
    pub first_name: String,
    pub last_name: String,
    pub avatar_url: Option<String>,
    pub org_id: Option<String>,
    pub verified: bool,
    pub enabled: bool,
    pub is_admin: Option<bool>,
}

/// The person's name, first and last, trimmed; the email when that is blank.
pub open spec fn display_name_of(first: Seq<char>, last: Seq<char>, email: Seq<char>) -> Seq<char> {
    let name = trim(first + " "@ + last);
    if name.len() == 0 {
        email
    } else {
        name
    }
}

impl Account {
    pub fn display_name(&self) -> (r: String)
        ensures
            r@ == display_name_of(self.first_name@, self.last_name@, self.email@),
    {
        let mut full = self.first_name.clone();
        push_str(&mut full, " ");
        push_str(&mut full, self.last_name.as_str());
        let name = trimmed(full.as_str());
        if name.as_str().unicode_len() == 0 {
            self.email.clone()
        } else {
            name
        }
    }
}

#[derive(Debug, Clone, Default)]
pub struct ProfileUpdate {
    pub first_name: Option<String>,
    pub last_name: Option<String>,
    pub avatar_url: Option<String>,
}

#[derive(Debug, Clone, PartialEq, Eq)]
pub struct Coworker {
    pub id: String,
    pub name: String,
    pub model: String,
    pub role: Option<String>,
    pub title: Option<String>,
    pub avatar_shape: Option<String>,
    pub avatar_color: Option<String>,
    pub notify_on_updates: Option<bool>,
    /// Hire or rename time; idle bots sort by it.
    pub updated_at_ms: i64,
    pub hidden_from_sidebar: bool,
    pub box_id: Option<String>,
}

/// A coworker edit; a field left `None` is left alone.
#[derive(Debug, Clone, Default)]
pub struct CoworkerPatch {
    pub name: Option<String>,
    pub model: Option<String>,
    pub role: Option<String>,
    pub title: Option<String>,
    pub avatar_shape: Option<String>,
    pub avatar_color: Option<String>,
    pub notify_on_updates: Option<bool>,
    pub hidden_from_sidebar: Option<bool>,
}

impl CoworkerPatch {
    /// Nothing to change.
    pub fn is_empty(&self) -> (r: bool)
        ensures
            r == (self.name is None && self.model is None && self.role is None && self.title is None
                && self.avatar_shape is None && self.avatar_color is None
                && self.notify_on_updates is None && self.hidden_from_sidebar is None),
    {
        self.name.is_none() && self.model.is_none() && self.role.is_none() && self.title.is_none()
            && self.avatar_shape.is_none() && self.avatar_color.is_none()
            && self.notify_on_updates.is_none() && self.hidden_from_sidebar.is_none()
    }
}

/// One of the account's conversations, newest first on the list.
#[derive(Debug, Clone, PartialEq, Eq)]
pub struct ThreadListing {
    pub thread_id: String,
    pub coworker_id: Option<String>,
    /// `chat`, `schedule`, `webhook` or `monitor`.
    pub origin: String,
    pub title: Option<String>,
    pub last_run_id: String,
    pub last_status: String,
    /// The thread's latest activity: the list's order and its cursor.
    pub updated_at_ms: i64,
}

#[derive(Debug, Clone, PartialEq, Eq)]
pub struct ModelEntry {
    pub id: String,
}

#[derive(Debug, Clone, Default)]
pub struct ModelCatalogue {
    pub models: Vec<ModelEntry>,
    pub note: Option<String>,
}

/// The message a reply points at, carried beside the message that answers it.
#[derive(Debug, Clone, PartialEq, Eq)]
pub struct ReplyQuote {
    pub message_id: String,
    /// The quoted words, already clipped.
    pub preview: String,
    /// The person wrote the quoted message.
    pub is_me: bool,
}

#[derive(Debug, Clone)]
pub struct AguiMessage {
    pub id: String,
    pub role: String,
    pub content: String,
    pub tool_call_id: Option<String>,
    pub reply_to: Option<ReplyQuote>,
}

/// The pieces of a text between its line feeds, from position `from`.
pub open spec fn pieces_from(s: Seq<char>, from: nat) -> Seq<Seq<char>>
    decreases s.len() - from,
{
    match find_from(s, seq!['\n'], from) {
        Some(i) => {
            proof {
                lemma_find_from_occurs(s, seq!['\n'], from);
            }
            if i < from || i >= s.len() {
                Seq::empty()
            } else {
                seq![s.subrange(from as int, i as int)] + pieces_from(s, i + 1)
            }
        },
        None => seq![s.subrange(from as int, s.len() as int)],
    }
}

/// What one SSE line of a run carries: nothing, an event, or the run's
/// failure with its message.
pub enum LineOut {
    Skip,
    Event(JsonV),
    Fail(Seq<char>),
}

pub open spec fn line_out(line: Seq<char>) -> LineOut {
    if !has_prefix(line, "data:"@) {
        LineOut::Skip
    } else {
        let data = trim(line.skip(5));
        if data.len() == 0 || data == "[DONE]"@ {
            LineOut::Skip
        } else {
            match parsed_json(data) {
                None => LineOut::Skip,
                Some(v) => if or_else(str_at(v, "type"@), Seq::empty()) == "RUN_ERROR"@ {
                    LineOut::Fail(or_else(str_at(v, "message"@), "run failed"@))
                } else {
                    LineOut::Event(v)
                },
            }
        }
    }
}

/// The words a text event adds to the reply.
pub open spec fn text_delta(v: JsonV) -> Seq<char> {
    let kind = or_else(str_at(v, "type"@), Seq::empty());
    if kind == "TEXT_MESSAGE_CONTENT"@ || kind == "TEXT_MESSAGE_CHUNK"@ {
        or_else(str_at(v, "delta"@), Seq::empty())
    } else {
        Seq::empty()
    }
}

/// What one SSE line adds to the reply: the delta of a text frame, or
/// nothing; or the run's failure.
pub open spec fn sse_step(line: Seq<char>) -> Result<Seq<char>, Seq<char>> {
    match line_out(line) {
        LineOut::Skip => Ok(Seq::empty()),
        LineOut::Event(v) => Ok(text_delta(v)),
        LineOut::Fail(m) => Err(m),
    }
}

/// The reply an SSE body spells, line by line: the deltas in order, or the
/// first failure.
pub open spec fn sse_reply(lines: Seq<Seq<char>>, acc: Seq<char>) -> Result<Seq<char>, Seq<char>>
    decreases lines.len(),
{
    if lines.len() == 0 {
        Ok(acc)
    } else {
        match sse_step(lines[0]) {
            Err(m) => Err(m),
            Ok(add) => sse_reply(lines.drop_first(), acc + add),
        }
    }
}

pub(crate) fn split_lines(s: &str) -> (r: Vec<String>)
    ensures
        r@.map_values(|x: String| x@) == pieces_from(s@, 0),
{
    let v = chars_of(s);
    let mut nl: Vec<char> = Vec::new();
    nl.push('\n');
    assert(nl@ =~= seq!['\n']);
    let mut out: Vec<String> = Vec::new();
    let mut from: usize = 0;
    loop
        invariant
            from <= v@.len(),
            v@ == s@,
            nl@ == seq!['\n'],
            pieces_from(s@, 0) == out@.map_values(|x: String| x@) + pieces_from(s@, from as nat),
        decreases v@.len() - from,
    {
        let ghost before = out@.map_values(|x: String| x@);
        proof {
            lemma_find_from_occurs(s@, seq!['\n'], from as nat);
        }
        match find_exec(&v, &nl, from) {
            Some(i) => {
                assert(occurs_at(s@, seq!['\n'], i as int));
                assert(i + 1 <= v@.len());
                assert(v@.len() == v.len());
                let piece = string_of(&v, from, i);
                out.push(piece);
                assert(out@.map_values(|x: String| x@) =~= before.push(s@.subrange(from as int, i as int)));
                assert(pieces_from(s@, from as nat) =~= seq![s@.subrange(from as int, i as int)]
                    + pieces_from(s@, (i + 1) as nat));
                from = i + 1;
            },
            None => {
                let piece = string_of(&v, from, v.len());
                out.push(piece);
                assert(out@.map_values(|x: String| x@) =~= before.push(s@.subrange(from as int, s@.len() as int)));
                return out;
            },
        }
    }
}

pub open spec fn result_view(r: Result<String, String>) -> Result<Seq<char>, Seq<char>> {
    match r {
        Ok(s) => Ok(s@),
        Err(m) => Err(m@),
    }
}

/// One line's reading, in the library's own values.
enum LineRead {
    Skip,
    Event(Json),
    Fail(String),
}

spec fn read_view(r: LineRead) -> LineOut {
    match r {
        LineRead::Skip => LineOut::Skip,
        LineRead::Event(v) => LineOut::Event(v@),
        LineRead::Fail(m) => LineOut::Fail(m@),
    }
}

fn read_line(line: &str) -> (r: LineRead)
    ensures
        read_view(r) == line_out(line@),
{
    proof {
        reveal_strlit("");
        reveal_strlit("data:");
    }
    if !starts_with(line, "data:") {
        return LineRead::Skip;
    }
    let v = chars_of(line);
    let rest = string_of(&v, 5, v.len());
    assert(rest@ =~= line@.skip(5));
    let data = trimmed(rest.as_str());
    let data = data.as_str();
    if data.unicode_len() == 0 || same(data, "[DONE]") {
        return LineRead::Skip;
    }
    match parse_json(data) {
        None => LineRead::Skip,
        Some(value) => {
            let kind: &str = match value.str_at("type") {
                Some(k) => k,
                None => "",
            };
            assert(kind@ =~= or_else(str_at(value@, "type"@), Seq::empty()));
            if same(kind, "RUN_ERROR") {
                let message = match value.str_at("message") {
                    Some(m) => owned(m),
                    None => owned("run failed"),
                };
                LineRead::Fail(message)
            } else {
                LineRead::Event(value)
            }
        },
    }
}

fn text_delta_of(v: &Json) -> (r: String)
    ensures
        r@ == text_delta(v@),
{
    proof {
        reveal_strlit("");
    }
    let kind: &str = match v.str_at("type") {
        Some(k) => k,
        None => "",
    };
    assert(kind@ =~= or_else(str_at(v@, "type"@), Seq::empty()));
    if same(kind, "TEXT_MESSAGE_CONTENT") || same(kind, "TEXT_MESSAGE_CHUNK") {
        match v.str_at("delta") {
            Some(d) => owned(d),
            None => String::new(),
        }
    } else {
        String::new()
    }
}

/// The assistant's reply spelled out of an AG-UI SSE body: every text
/// frame's delta, in order, or the message of the first `RUN_ERROR`.
pub fn assistant_text_from_sse(body: &str) -> (r: Result<String, String>)
    ensures
        result_view(r) == sse_reply(pieces_from(body@, 0), Seq::empty()),
{
    let lines = split_lines(body);
    let ghost all = lines@.map_values(|x: String| x@);
    let mut out = String::new();
    let mut i: usize = 0;
    assert(all.skip(0) =~= all);
    assert(out@ =~= Seq::<char>::empty());
    while i < lines.len()
        invariant
            i <= lines@.len(),
            all == lines@.map_values(|x: String| x@),
            all == pieces_from(body@, 0),
            sse_reply(all, Seq::empty()) == sse_reply(all.skip(i as int), out@),
        decreases lines@.len() - i,
    {
        proof {
            let rest = all.skip(i as int);
            assert(rest[0] == lines@[i as int]@);
            assert(rest.drop_first() =~= all.skip(i + 1));
        }
        match read_line(lines[i].as_str()) {
            LineRead::Skip => {
                assert(out@ + Seq::<char>::empty() =~= out@);
            },
            LineRead::Event(v) => {
                let delta = text_delta_of(&v);
                push_str(&mut out, delta.as_str());
            },
            LineRead::Fail(m) => {
                return Err(m);
            },
        }
        i = i + 1;
    }
    Ok(out)
}

/// The sentence a failed request is shown as: the body's own `error` when
/// it read as one and says something, else the body trimmed, else a plain
/// "request failed".
pub open spec fn error_message_of(parsed_error: Option<Seq<char>>, body: Seq<char>) -> Seq<char> {
    match parsed_error {
        Some(e) if e.len() > 0 => e,
        _ => if trim(body).len() == 0 {
            "request failed"@
        } else {
            trim(body)
        },
    }
}

/// `parsed_error` is the `error` member the body read as, when it read as
/// an error body at all.
pub fn error_message(parsed_error: Option<&str>, body: &str) -> (r: String)
    ensures
        r@ == error_message_of(
            match parsed_error {
                Some(e) => Some(e@),
                None => None,
            },
            body@,
        ),
{
    if let Some(e) = parsed_error {
        if e.unicode_len() > 0 {
            return owned(e);
        }
    }
    let t = trimmed(body);
    if t.as_str().unicode_len() == 0 {
        owned("request failed")
    } else {
        t
    }
}

pub open spec fn views_of(v: Seq<Json>) -> Seq<JsonV> {
    v.map_values(|j: Json| j@)
}

/// A frame's lines read in turn onto the reply so far and the events so
/// far, stopping at a failure.
pub open spec fn read_lines(lines: Seq<Seq<char>>, reply: Seq<char>, events: Seq<JsonV>) -> (
    Seq<char>,
    Seq<JsonV>,
    Option<Seq<char>>,
)
    decreases lines.len(),
{
    if lines.len() == 0 {
        (reply, events, None)
    } else {
        match line_out(lines[0]) {
            LineOut::Skip => read_lines(lines.drop_first(), reply, events),
            LineOut::Event(v) => read_lines(lines.drop_first(), reply + text_delta(v), events.push(v)),
            LineOut::Fail(m) => (reply, events, Some(m)),
        }
    }
}

/// The whole frames at the front of `buf` (each ended by a blank line) read
/// in turn: what is left unread, the reply, the events, and the run's
/// failure if one came.
pub open spec fn read_frames(buf: Seq<char>, reply: Seq<char>, events: Seq<JsonV>) -> (
    Seq<char>,
    Seq<char>,
    Seq<JsonV>,
    Option<Seq<char>>,
)
    decreases buf.len(),
{
    match find_from(buf, "\n\n"@, 0) {
        None => (buf, reply, events, None),
        Some(i) => {
            proof {
                lemma_find_from_occurs(buf, "\n\n"@, 0);
            }
            if i + 2 > buf.len() {
                (buf, reply, events, None)
            } else {
                let (r, e, f) = read_lines(pieces_from(buf.take(i as int), 0), reply, events);
                match f {
                    Some(m) => (buf.skip(i + 2 as int), r, e, Some(m)),
                    None => read_frames(buf.skip(i + 2 as int), r, e),
                }
            }
        },
    }
}

pub(crate) proof fn lemma_find_in_front(a: Seq<char>, b: Seq<char>, n: Seq<char>, j: nat, k: nat)
    requires
        find_from(a, n, j) == Some(k),
    ensures
        find_from(a + b, n, j) == Some(k),
    decreases k - j,
{
    lemma_find_from_occurs(a, n, j);
    if occurs_at(a, n, j as int) {
        assert((a + b).subrange(j as int, j + n.len() as int) =~= a.subrange(j as int, j + n.len() as int));
    } else {
        lemma_find_from_occurs(a, n, j + 1);
        assert((a + b).subrange(j as int, j + n.len() as int) =~= a.subrange(j as int, j + n.len() as int));
        lemma_find_in_front(a, b, n, j + 1, k);
    }
}

/// However the body was cut, the stream reads the same: reading `a` and then
/// what it left with `b` hands on the same events, spells the same reply and
/// ends with the same failure as reading `a + b` at once.
pub proof fn lemma_feed_in_pieces(a: Seq<char>, b: Seq<char>, reply: Seq<char>, events: Seq<JsonV>)
    ensures
        ({
            let (left, r1, e1, f1) = read_frames(a, reply, events);
            let whole = read_frames(a + b, reply, events);
            match f1 {
                None => whole == read_frames(left + b, r1, e1),
                Some(m) => whole.1 == r1 && whole.2 == e1 && whole.3 == Some(m),
            }
        }),
    decreases a.len(),
{
    reveal_strlit("\n\n");
    lemma_find_from_occurs(a, "\n\n"@, 0);
    match find_from(a, "\n\n"@, 0) {
        None => {},
        Some(i) => {
            lemma_find_in_front(a, b, "\n\n"@, 0, i);
            assert((a + b).take(i as int) =~= a.take(i as int));
            assert((a + b).skip(i + 2 as int) =~= a.skip(i + 2 as int) + b);
            lemma_feed_in_pieces(a.skip(i + 2 as int), b, read_lines(
                pieces_from(a.take(i as int), 0),
                reply,
                events,
            ).0, read_lines(pieces_from(a.take(i as int), 0), reply, events).1);
        },
    }
}

fn read_frame(frame: &str, reply: &mut String, events: &mut Vec<Json>) -> (r: Option<String>)
    ensures
        ({
            let (rp, ev, f) = read_lines(pieces_from(frame@, 0), old(reply)@, views_of(old(events)@));
            &&& final(reply)@ == rp
            &&& views_of(final(events)@) == ev
            &&& match r {
                Some(m) => f == Some(m@),
                None => f is None,
            }
        }),
{
    let lines = split_lines(frame);
    let ghost all = lines@.map_values(|x: String| x@);
    let ghost goal = read_lines(all, reply@, views_of(events@));
    let mut i: usize = 0;
    assert(all.skip(0) =~= all);
    while i < lines.len()
        invariant
            i <= lines@.len(),
            all == lines@.map_values(|x: String| x@),
            all == pieces_from(frame@, 0),
            goal == read_lines(all.skip(i as int), reply@, views_of(events@)),
            goal == read_lines(all, old(reply)@, views_of(old(events)@)),
        decreases lines@.len() - i,
    {
        proof {
            let rest = all.skip(i as int);
            assert(rest[0] == lines@[i as int]@);
            assert(rest.drop_first() =~= all.skip(i + 1));
        }
        match read_line(lines[i].as_str()) {
            LineRead::Skip => {},
            LineRead::Event(v) => {
                let delta = text_delta_of(&v);
                push_str(reply, delta.as_str());
                let ghost before = views_of(events@);
                let ghost vv = v@;
                events.push(v);
                assert(views_of(events@) =~= before.push(vv));
            },
            LineRead::Fail(m) => {
                return Some(m);
            },
        }
        i = i + 1;
    }
    assert(all.skip(i as int) =~= Seq::<Seq<char>>::empty());
    None
}

/// A run's SSE stream as it comes in: the text not yet ended by a blank
/// line, and the reply spelled so far.
pub struct TurnStream {
    buf: String,
    reply: String,
}

impl TurnStream {
    pub closed spec fn pending(&self) -> Seq<char> {
        self.buf@
    }

    pub closed spec fn reply_so_far(&self) -> Seq<char> {
        self.reply@
    }

    pub fn new() -> (r: Self)
        ensures
            r.pending() == Seq::<char>::empty(),
            r.reply_so_far() == Seq::<char>::empty(),
    {
        TurnStream { buf: String::new(), reply: String::new() }
    }

    /// Takes the next piece of the body: the events of the frames it
    /// completes, in order, each for the caller to hand on; and the run's
    /// failure message when a `RUN_ERROR` frame ends it.
    pub fn feed(&mut self, chunk: &str) -> (r: (Vec<Json>, Option<String>))
        ensures
            ({
                let (left, rp, ev, f) = read_frames(
                    old(self).pending() + chunk@,
                    old(self).reply_so_far(),
                    Seq::empty(),
                );
                &&& final(self).pending() == left
                &&& final(self).reply_so_far() == rp
                &&& views_of(r.0@) == ev
                &&& match r.1 {
                    Some(m) => f == Some(m@),
                    None => f is None,
                }
            }),
    {
        let mut buf = String::new();
        std::mem::swap(&mut buf, &mut self.buf);
        push_str(&mut buf, chunk);
        let mut events: Vec<Json> = Vec::new();
        let ghost goal = read_frames(buf@, self.reply@, Seq::empty());
        assert(views_of(events@) =~= Seq::<JsonV>::empty());
        let mut gap: Vec<char> = Vec::new();
        gap.push('\n');
        gap.push('\n');
        proof {
            reveal_strlit("\n\n");
        }
        assert(gap@ =~= "\n\n"@);
        loop
            invariant
                goal == read_frames(buf@, self.reply@, views_of(events@)),
                goal == read_frames(
                    old(self).pending() + chunk@,
                    old(self).reply_so_far(),
                    Seq::empty(),
                ),
                gap@ == "\n\n"@,
                self.buf@ == Seq::<char>::empty(),
            decreases buf@.len(),
        {
            let v = chars_of(buf.as_str());
            proof {
                reveal_strlit("\n\n");
                lemma_find_from_occurs(buf@, "\n\n"@, 0);
            }
            match find_exec(&v, &gap, 0) {
                None => {
                    self.buf = buf;
                    return (events, None);
                },
                Some(i) => {
                    assert(occurs_at(buf@, "\n\n"@, i as int));
                    assert(i + 2 <= v.len());
                    let frame = string_of(&v, 0, i);
                    assert(frame@ =~= buf@.take(i as int));
                    let rest = string_of(&v, i + 2, v.len());
                    assert(rest@ =~= buf@.skip(i + 2));
                    let failed = read_frame(frame.as_str(), &mut self.reply, &mut events);
                    buf = rest;
                    if let Some(m) = failed {
                        self.buf = buf;
                        return (events, Some(m));
                    }
                },
            }
        }
    }

    /// The reply spelled from the frames read so far.
    pub fn reply(&self) -> (r: String)
        ensures
            r@ == self.reply_so_far(),
    {
        owned(self.reply.as_str())
    }
}

} // verus!
