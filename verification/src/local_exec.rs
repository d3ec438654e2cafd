//! This Mac as the server's reverse-exec daemon: which enrolment to keep,
//! what each frame on the request stream asks for, how a command is run,
//! and the result posted back.
//!
//! The AG-UI card is the person's yes. Frames that arrive here already
//! passed the server's gate, so they run without a second prompt.

use vstd::prelude::*;

use crate::client::DaemonMachine;
use crate::json::{
    as_u64, get, object_of, members_view, signed_json, signed_number, str_at, text_json,
    unsigned_json, unsigned_number, array_of, items_view, Json, JsonV,
};
use crate::json::{parse_json, parsed_json};
use crate::text::{
    chars_of, find_exec, find_from, has_prefix, lemma_find_from_occurs, occurs_at, or_else, owned,
    push_str, same, starts_with, string_of, trim, trimmed,
};
use crate::types::{lemma_find_in_front, pieces_from, split_lines, views_of};

verus! {

/// Where the daemon's credential is kept, under the app's data directory.
pub const CREDENTIAL_FILE: &'static str = "local-exec-daemon.json";

/// How long a command may run when its frame names no time.
pub const EXEC_TIMEOUT_MS: u64 = 120000;

/// The credential this Mac enrolled with.
#[derive(Debug)]
pub struct StoredDaemon {
    pub machine_id: String,
    pub token: String,
    pub label: String,
}

impl Clone for StoredDaemon {
    fn clone(&self) -> (r: Self)
        ensures
            r.machine_id@ == self.machine_id@,
            r.token@ == self.token@,
            r.label@ == self.label@,
    {
        StoredDaemon {
            machine_id: owned(self.machine_id.as_str()),
            token: owned(self.token.as_str()),
            label: owned(self.label.as_str()),
        }
    }
}

/// Each machine the server lists: its id, and whether it was revoked.
pub open spec fn machines_view(machines: Seq<DaemonMachine>) -> Seq<(Seq<char>, bool)> {
    machines.map_values(|m: DaemonMachine| (m.machine_id@, m.revoked))
}

/// The server still lists this machine, not revoked.
pub open spec fn still_listed(machines: Seq<(Seq<char>, bool)>, id: Seq<char>) -> bool {
    exists|i: int| 0 <= i < machines.len() && #[trigger] machines[i] == (id, false)
}

/// The first machine from `i` on that was not revoked.
pub open spec fn first_live(machines: Seq<(Seq<char>, bool)>, i: nat) -> Option<Seq<char>>
    decreases machines.len() - i,
{
    if i >= machines.len() {
        None
    } else if !machines[i as int].1 {
        Some(machines[i as int].0)
    } else {
        first_live(machines, i + 1)
    }
}

/// What to do about this Mac's enrolment.
#[derive(Debug)]
pub enum DaemonPlan {
    /// The stored credential stands.
    Keep,
    /// Enrol anew, taking over this machine id when there is one.
    Enrol(Option<String>),
}

pub enum PlanV {
    Keep,
    Enrol(Option<Seq<char>>),
}

impl View for DaemonPlan {
    type V = PlanV;

    open spec fn view(&self) -> PlanV {
        match self {
            DaemonPlan::Keep => PlanV::Keep,
            DaemonPlan::Enrol(id) => PlanV::Enrol(
                match id {
                    Some(s) => Some(s@),
                    None => None,
                },
            ),
        }
    }
}

/// A stored credential whose machine the server still lists is kept;
/// otherwise this Mac enrols, over the first machine not revoked if any.
pub open spec fn daemon_plan(stored: Option<Seq<char>>, machines: Seq<(Seq<char>, bool)>) -> PlanV {
    match stored {
        Some(id) if still_listed(machines, id) => PlanV::Keep,
        _ => PlanV::Enrol(first_live(machines, 0)),
    }
}

fn listed_live(machines: &[DaemonMachine], id: &str) -> (r: bool)
    ensures
        r == still_listed(machines_view(machines@), id@),
{
    let ghost ms = machines_view(machines@);
    let mut i: usize = 0;
    while i < machines.len()
        invariant
            i <= machines@.len(),
            ms == machines_view(machines@),
            forall|k: int| 0 <= k < i ==> ms[k] != (id@, false),
        decreases machines@.len() - i,
    {
        if !machines[i].revoked && same(machines[i].machine_id.as_str(), id) {
            assert(ms[i as int] == (id@, false));
            return true;
        }
        i = i + 1;
    }
    false
}

fn first_live_id(machines: &[DaemonMachine]) -> (r: Option<String>)
    ensures
        match r {
            Some(s) => first_live(machines_view(machines@), 0) == Some(s@),
            None => first_live(machines_view(machines@), 0) is None,
        },
{
    let ghost ms = machines_view(machines@);
    let mut i: usize = 0;
    while i < machines.len()
        invariant
            i <= machines@.len(),
            ms == machines_view(machines@),
            first_live(ms, 0) == first_live(ms, i as nat),
        decreases machines@.len() - i,
    {
        if !machines[i].revoked {
            return Some(owned(machines[i].machine_id.as_str()));
        }
        i = i + 1;
    }
    None
}

/// Which enrolment this Mac serves under, given what it stored and what the
/// server lists.
pub fn plan_daemon(stored: Option<&StoredDaemon>, machines: &[DaemonMachine]) -> (r: DaemonPlan)
    ensures
        r@ == daemon_plan(
            match stored {
                Some(d) => Some(d.machine_id@),
                None => None,
            },
            machines_view(machines@),
        ),
{
    if let Some(d) = stored {
        if listed_live(machines, d.machine_id.as_str()) {
            return DaemonPlan::Keep;
        }
    }
    DaemonPlan::Enrol(first_live_id(machines))
}

/// The name this Mac enrols under, from what `hostname` printed.
pub open spec fn machine_label_of(hostname: Option<Seq<char>>) -> Seq<char> {
    let name = match hostname {
        Some(h) if trim(h).len() > 0 => trim(h),
        _ => "this Mac"@,
    };
    "NativeChat on "@ + name
}

pub fn machine_label(hostname: Option<&str>) -> (r: String)
    ensures
        r@ == machine_label_of(
            match hostname {
                Some(h) => Some(h@),
                None => None,
            },
        ),
{
    let name = match hostname {
        Some(h) => {
            let t = trimmed(h);
            if t.as_str().unicode_len() > 0 {
                t
            } else {
                owned("this Mac")
            }
        },
        None => owned("this Mac"),
    };
    let mut out = owned("NativeChat on ");
    push_str(&mut out, name.as_str());
    out
}

/// What one frame on the request stream asks of this Mac.
#[derive(Debug)]
pub enum FrameAction {
    /// Not for this loop, or a command already running.
    Ignore,
    /// Run the command this request carries.
    Start(String),
    /// Stop the running command with this request id.
    Stop(String),
}

pub enum ActionV {
    Ignore,
    Start(Seq<char>),
    Stop(Seq<char>),
}

impl View for FrameAction {
    type V = ActionV;

    open spec fn view(&self) -> ActionV {
        match self {
            FrameAction::Ignore => ActionV::Ignore,
            FrameAction::Start(s) => ActionV::Start(s@),
            FrameAction::Stop(s) => ActionV::Stop(s@),
        }
    }
}

/// `exec` starts a command unless one with its request id is running;
/// `cancel` stops the running one it names; anything else, such as the
/// `welcome` a stream opens with, and a frame with no request id, is not
/// for this loop.
pub open spec fn frame_action_of(frame: JsonV, running: Seq<Seq<char>>) -> ActionV {
    match str_at(frame, "requestId"@) {
        None => ActionV::Ignore,
        Some(id) => {
            let kind = str_at(frame, "kind"@);
            if kind == Some("exec"@) {
                if running.contains(id) {
                    ActionV::Ignore
                } else {
                    ActionV::Start(id)
                }
            } else if kind == Some("cancel"@) && running.contains(id) {
                ActionV::Stop(id)
            } else {
                ActionV::Ignore
            }
        },
    }
}

fn is_running(id: &str, running: &[String]) -> (r: bool)
    ensures
        r == running@.map_values(|s: String| s@).contains(id@),
{
    let ghost ids = running@.map_values(|s: String| s@);
    let mut i: usize = 0;
    while i < running.len()
        invariant
            i <= running@.len(),
            ids == running@.map_values(|s: String| s@),
            forall|k: int| 0 <= k < i ==> ids[k] != id@,
        decreases running@.len() - i,
    {
        if same(running[i].as_str(), id) {
            assert(ids[i as int] == id@);
            return true;
        }
        i = i + 1;
    }
    false
}

/// What to do with one frame, given the request ids of the commands
/// running now.
pub fn frame_action(frame: &Json, running: &[String]) -> (r: FrameAction)
    ensures
        r@ == frame_action_of(frame@, running@.map_values(|s: String| s@)),
{
    let id = match frame.str_at("requestId") {
        Some(id) => id,
        None => {
            return FrameAction::Ignore;
        },
    };
    match frame.str_at("kind") {
        Some(kind) => {
            if same(kind, "exec") {
                if is_running(id, running) {
                    FrameAction::Ignore
                } else {
                    FrameAction::Start(owned(id))
                }
            } else if same(kind, "cancel") && is_running(id, running) {
                FrameAction::Stop(owned(id))
            } else {
                FrameAction::Ignore
            }
        },
        None => FrameAction::Ignore,
    }
}

/// A command the server asked this Mac to run.
#[derive(Debug)]
pub struct ExecRequest {
    pub request_id: String,
    pub command: String,
    pub cwd: String,
    pub timeout_ms: u64,
}

/// The `shellStreamArgs` of an exec frame, or null.
pub open spec fn shell_args(frame: JsonV) -> JsonV {
    match get(frame, "serverMessage"@) {
        Some(m) => or_else(get(m, "shellStreamArgs"@), JsonV::Null),
        None => JsonV::Null,
    }
}

/// The time a frame allows, in milliseconds; none or zero means the
/// standing limit.
pub open spec fn timeout_of(args: JsonV) -> u64 {
    let t = match get(args, "timeout"@) {
        Some(x) => or_else(as_u64(x), 0),
        None => 0,
    };
    if t == 0 {
        EXEC_TIMEOUT_MS
    } else {
        t
    }
}

/// The request id, command, working directory and time limit of an exec
/// frame; nothing without a request id.
pub open spec fn exec_request_of(frame: JsonV) -> Option<(Seq<char>, Seq<char>, Seq<char>, u64)> {
    match str_at(frame, "requestId"@) {
        None => None,
        Some(id) => {
            let args = shell_args(frame);
            Some(
                (
                    id,
                    or_else(str_at(args, "command"@), Seq::empty()),
                    or_else(str_at(args, "workingDirectory"@), Seq::empty()),
                    timeout_of(args),
                ),
            )
        },
    }
}

/// An exec frame is a request exactly when it names a request id; the
/// request runs the `command` the frame's `shellStreamArgs` carry, in the
/// `workingDirectory` they carry, for the positive `timeout` they carry (the
/// standing limit when there is none).
pub proof fn lemma_an_exec_request_is_what_the_frame_says(
    frame: JsonV,
    message: JsonV,
    args: JsonV,
)
    requires
        get(frame, "serverMessage"@) == Some(message),
        get(message, "shellStreamArgs"@) == Some(args),
    ensures
        exec_request_of(frame) is Some <==> str_at(frame, "requestId"@) is Some,
        match exec_request_of(frame) {
            Some((id, command, cwd, timeout)) => {
                &&& Some(id) == str_at(frame, "requestId"@)
                &&& str_at(args, "command"@) is Some ==> Some(command) == str_at(args, "command"@)
                &&& str_at(args, "workingDirectory"@) is Some ==> Some(cwd) == str_at(
                    args,
                    "workingDirectory"@,
                )
                &&& (match get(args, "timeout"@) {
                    Some(t) => match as_u64(t) {
                        Some(n) => n > 0 ==> timeout == n,
                        None => timeout == EXEC_TIMEOUT_MS,
                    },
                    None => timeout == EXEC_TIMEOUT_MS,
                })
            },
            None => true,
        },
{
}

pub fn exec_request(frame: &Json) -> (r: Option<ExecRequest>)
    ensures
        match r {
            Some(x) => exec_request_of(frame@) == Some(
                (x.request_id@, x.command@, x.cwd@, x.timeout_ms),
            ),
            None => exec_request_of(frame@) is None,
        },
{
    proof {
        reveal_strlit("");
    }
    let id = match frame.str_at("requestId") {
        Some(id) => owned(id),
        None => {
            return None;
        },
    };
    let null = Json::Null;
    let args: &Json = match frame.get("serverMessage") {
        Some(m) => match m.get("shellStreamArgs") {
            Some(a) => a,
            None => &null,
        },
        None => &null,
    };
    assert(args@ == shell_args(frame@));
    let command = match args.str_at("command") {
        Some(c) => owned(c),
        None => String::new(),
    };
    assert(command@ =~= or_else(str_at(args@, "command"@), Seq::empty()));
    let cwd = match args.str_at("workingDirectory") {
        Some(c) => owned(c),
        None => String::new(),
    };
    assert(cwd@ =~= or_else(str_at(args@, "workingDirectory"@), Seq::empty()));
    let t: u64 = match args.get("timeout") {
        Some(x) => match x.as_u64() {
            Some(n) => n,
            None => 0,
        },
        None => 0,
    };
    let timeout_ms = if t == 0 {
        EXEC_TIMEOUT_MS
    } else {
        t
    };
    Some(ExecRequest { request_id: id, command, cwd, timeout_ms })
}

/// How a command ended.
#[derive(Debug)]
pub enum ShellOutcome {
    /// It could not be started, with why.
    SpawnError(String),
    /// It ran to its end.
    Finished { success: bool, code: i32, stdout: String, stderr: String },
    /// It ran out of its time, in milliseconds.
    TimedOut(u64),
}

/// How to go about a command.
#[derive(Debug)]
pub enum ShellPlan {
    /// Nothing to run: the outcome stands as it is.
    Refuse(ShellOutcome),
    /// Run it with `sh -c`, in this directory when one is given.
    Run(Option<String>),
}

/// A blank command is refused; a blank directory leaves the command where
/// the app runs.
pub fn shell_plan(command: &str, cwd: &str) -> (r: ShellPlan)
    ensures
        trim(command@).len() == 0 ==> (r matches ShellPlan::Refuse(ShellOutcome::SpawnError(m))
            && m@ == "empty command"@),
        trim(command@).len() > 0 ==> (r matches ShellPlan::Run(dir) && match dir {
            Some(d) => trim(cwd@).len() > 0 && d@ == cwd@,
            None => trim(cwd@).len() == 0,
        }),
{
    if trimmed(command).as_str().unicode_len() == 0 {
        return ShellPlan::Refuse(ShellOutcome::SpawnError(owned("empty command")));
    }
    if trimmed(cwd).as_str().unicode_len() == 0 {
        ShellPlan::Run(None)
    } else {
        ShellPlan::Run(Some(owned(cwd)))
    }
}

/// The `shellResult` the server reads: one member named for how the
/// command ended.
pub open spec fn outcome_value(o: ShellOutcome) -> JsonV {
    match o {
        ShellOutcome::SpawnError(e) => JsonV::Object(
            seq![("spawnError"@, JsonV::Object(seq![("error"@, JsonV::Str(e@))]))],
        ),
        ShellOutcome::Finished { success, code, stdout, stderr } => JsonV::Object(
            seq![
                (
                    if success {
                        "success"@
                    } else {
                        "failure"@
                    },
                    JsonV::Object(
                        seq![
                            ("exitCode"@, signed_number(code as i64)),
                            ("stderr"@, JsonV::Str(stderr@)),
                            ("stdout"@, JsonV::Str(stdout@)),
                        ],
                    ),
                ),
            ],
        ),
        ShellOutcome::TimedOut(ms) => JsonV::Object(
            seq![("timeout"@, JsonV::Object(seq![("timeoutMs"@, unsigned_number(ms))]))],
        ),
    }
}

fn one_member(key: &str, value: Json) -> (r: Json)
    ensures
        r@ == JsonV::Object(seq![(key@, value@)]),
{
    let ghost vv = value@;
    let mut e: Vec<(String, Json)> = Vec::new();
    e.push((owned(key), value));
    let r = object_of(e);
    assert(members_view(e@) =~= seq![(key@, vv)]);
    r
}

pub fn outcome_json(o: &ShellOutcome) -> (r: Json)
    ensures
        r@ == outcome_value(*o),
{
    match o {
        ShellOutcome::SpawnError(e) => one_member("spawnError", one_member("error", text_json(e.as_str()))),
        ShellOutcome::Finished { success, code, stdout, stderr } => {
            let mut e: Vec<(String, Json)> = Vec::new();
            e.push((owned("exitCode"), signed_json(*code as i64)));
            e.push((owned("stderr"), text_json(stderr.as_str())));
            e.push((owned("stdout"), text_json(stdout.as_str())));
            let ghost ev = members_view(e@);
            let inner = object_of(e);
            assert(ev =~= seq![
                ("exitCode"@, signed_number(*code as i64)),
                ("stderr"@, JsonV::Str(stderr@)),
                ("stdout"@, JsonV::Str(stdout@)),
            ]);
            let case = if *success {
                "success"
            } else {
                "failure"
            };
            one_member(case, inner)
        },
        ShellOutcome::TimedOut(ms) => one_member("timeout", one_member("timeoutMs", unsigned_json(*ms))),
    }
}

/// The body posted to `/local-exec/responses` for one finished command.
pub open spec fn exec_response_value(machine_id: Seq<char>, request_id: Seq<char>, result: JsonV) -> JsonV {
    JsonV::Object(
        seq![
            (
                "frames"@,
                JsonV::Array(
                    seq![
                        JsonV::Object(
                            seq![
                                ("kind"@, JsonV::Str("client"@)),
                                ("message"@, JsonV::Object(seq![("shellResult"@, result)])),
                                ("requestId"@, JsonV::Str(request_id)),
                            ],
                        ),
                    ],
                ),
            ),
            ("providerId"@, JsonV::Str(machine_id)),
        ],
    )
}

pub fn exec_response_body(machine_id: &str, request_id: &str, outcome: &ShellOutcome) -> (r: Json)
    ensures
        r@ == exec_response_value(machine_id@, request_id@, outcome_value(*outcome)),
{
    let result = outcome_json(outcome);
    let mut f: Vec<(String, Json)> = Vec::new();
    f.push((owned("kind"), text_json("client")));
    f.push((owned("message"), one_member("shellResult", result)));
    f.push((owned("requestId"), text_json(request_id)));
    let ghost fv = members_view(f@);
    let frame = object_of(f);
    assert(fv =~= seq![
        ("kind"@, JsonV::Str("client"@)),
        ("message"@, JsonV::Object(seq![("shellResult"@, outcome_value(*outcome))])),
        ("requestId"@, JsonV::Str(request_id@)),
    ]);
    let ghost framev = frame@;
    let mut frames: Vec<Json> = Vec::new();
    frames.push(frame);
    let frames = array_of(frames);
    let ghost framesv = frames@;
    assert(framesv->Array_0 =~= seq![framev]);
    let mut top: Vec<(String, Json)> = Vec::new();
    top.push((owned("frames"), frames));
    top.push((owned("providerId"), text_json(machine_id)));
    let ghost tv = members_view(top@);
    let r = object_of(top);
    assert(tv =~= seq![("frames"@, framesv), ("providerId"@, JsonV::Str(machine_id@))]);
    r
}

/// What one line of the request stream hands on: the JSON of a `data:` line
/// that carries some.
pub open spec fn request_line(line: Seq<char>) -> Option<JsonV> {
    if !has_prefix(line, "data:"@) {
        None
    } else {
        let data = trim(line.skip(5));
        if data.len() == 0 {
            None
        } else {
            parsed_json(data)
        }
    }
}

/// The frames a run of lines hands on, in order.
pub open spec fn request_lines(lines: Seq<Seq<char>>) -> Seq<JsonV>
    decreases lines.len(),
{
    if lines.len() == 0 {
        Seq::empty()
    } else {
        match request_line(lines[0]) {
            Some(v) => seq![v] + request_lines(lines.drop_first()),
            None => request_lines(lines.drop_first()),
        }
    }
}

/// The whole events at the front of `buf` (each ended by a blank line): what
/// is left unread, and the frames they hand on, in order.
pub open spec fn request_frames(buf: Seq<char>) -> (Seq<char>, Seq<JsonV>)
    decreases buf.len(),
{
    match find_from(buf, "\n\n"@, 0) {
        None => (buf, Seq::empty()),
        Some(i) => {
            proof {
                lemma_find_from_occurs(buf, "\n\n"@, 0);
            }
            if i + 2 > buf.len() {
                (buf, Seq::empty())
            } else {
                let rest = request_frames(buf.skip(i + 2 as int));
                (rest.0, request_lines(pieces_from(buf.take(i as int), 0)) + rest.1)
            }
        },
    }
}

/// However the stream was cut, the same frames come out: reading `a` and
/// then what it left with `b` hands on, in order, exactly the frames that
/// reading `a + b` at once does, and leaves the same text unread.
pub proof fn lemma_requests_in_pieces(a: Seq<char>, b: Seq<char>)
    ensures
        ({
            let (left, first) = request_frames(a);
            let (rest, second) = request_frames(left + b);
            request_frames(a + b) == (rest, first + second)
        }),
    decreases a.len(),
{
    reveal_strlit("\n\n");
    lemma_find_from_occurs(a, "\n\n"@, 0);
    match find_from(a, "\n\n"@, 0) {
        None => {
            assert(Seq::<JsonV>::empty() + request_frames(a + b).1 =~= request_frames(a + b).1);
        },
        Some(i) => {
            lemma_find_in_front(a, b, "\n\n"@, 0, i);
            assert((a + b).take(i as int) =~= a.take(i as int));
            assert((a + b).skip(i + 2 as int) =~= a.skip(i + 2 as int) + b);
            lemma_requests_in_pieces(a.skip(i + 2 as int), b);
            let lines = request_lines(pieces_from(a.take(i as int), 0));
            let tail = request_frames(a.skip(i + 2 as int));
            let after = request_frames(tail.0 + b);
            assert(lines + (tail.1 + after.1) =~= (lines + tail.1) + after.1);
        },
    }
}

fn request_of(line: &str) -> (r: Option<Json>)
    ensures
        match r {
            Some(v) => request_line(line@) == Some(v@),
            None => request_line(line@) is None,
        },
{
    proof {
        reveal_strlit("data:");
    }
    if !starts_with(line, "data:") {
        return None;
    }
    let v = chars_of(line);
    let rest = string_of(&v, 5, v.len());
    assert(rest@ =~= line@.skip(5));
    let data = trimmed(rest.as_str());
    if data.as_str().unicode_len() == 0 {
        return None;
    }
    parse_json(data.as_str())
}

fn requests_in(frame: &str, out: &mut Vec<Json>)
    ensures
        views_of(final(out)@) == views_of(old(out)@) + request_lines(pieces_from(frame@, 0)),
{
    let lines = split_lines(frame);
    let ghost all = lines@.map_values(|x: String| x@);
    let ghost start = views_of(out@);
    let mut i: usize = 0;
    assert(all.skip(0) =~= all);
    while i < lines.len()
        invariant
            i <= lines@.len(),
            all == lines@.map_values(|x: String| x@),
            all == pieces_from(frame@, 0),
            start == views_of(old(out)@),
            start + request_lines(all) == views_of(out@) + request_lines(all.skip(i as int)),
        decreases lines@.len() - i,
    {
        let ghost before = views_of(out@);
        proof {
            let rest = all.skip(i as int);
            assert(rest[0] == lines@[i as int]@);
            assert(rest.drop_first() =~= all.skip(i + 1));
        }
        match request_of(lines[i].as_str()) {
            Some(v) => {
                let ghost vv = v@;
                out.push(v);
                assert(views_of(out@) =~= before.push(vv));
                assert(before + request_lines(all.skip(i as int)) =~= views_of(out@)
                    + request_lines(all.skip(i + 1)));
            },
            None => {},
        }
        i = i + 1;
    }
    assert(all.skip(i as int) =~= Seq::<Seq<char>>::empty());
    assert(views_of(out@) + Seq::<JsonV>::empty() =~= views_of(out@));
}

/// The daemon's request stream as it comes in: the text not yet ended by a
/// blank line.
pub struct RequestStream {
    buf: String,
}

impl RequestStream {
    pub closed spec fn pending(&self) -> Seq<char> {
        self.buf@
    }

    pub fn new() -> (r: Self)
        ensures
            r.pending() == Seq::<char>::empty(),
    {
        RequestStream { buf: String::new() }
    }

    /// Takes the next piece of the stream, and gives the frames of the
    /// events it completes, in order, each for the daemon to act on.
    pub fn feed(&mut self, chunk: &str) -> (r: Vec<Json>)
        ensures
            final(self).pending() == request_frames(old(self).pending() + chunk@).0,
            views_of(r@) == request_frames(old(self).pending() + chunk@).1,
    {
        let mut buf = String::new();
        std::mem::swap(&mut buf, &mut self.buf);
        push_str(&mut buf, chunk);
        let mut frames: Vec<Json> = Vec::new();
        let ghost goal = request_frames(buf@);
        assert(views_of(frames@) =~= Seq::<JsonV>::empty());
        let mut gap: Vec<char> = Vec::new();
        gap.push('\n');
        gap.push('\n');
        proof {
            reveal_strlit("\n\n");
        }
        assert(gap@ =~= "\n\n"@);
        assert(goal.1 =~= views_of(frames@) + request_frames(buf@).1);
        loop
            invariant
                goal == request_frames(old(self).pending() + chunk@),
                goal.0 == request_frames(buf@).0,
                goal.1 == views_of(frames@) + request_frames(buf@).1,
                gap@ == "\n\n"@,
                self.buf@ == Seq::<char>::empty(),
            decreases buf@.len(),
        {
            let v = chars_of(buf.as_str());
            proof {
                reveal_strlit("\n\n");
                lemma_find_from_occurs(buf@, "\n\n"@, 0);
            }
            match find_exec(&v, &gap, 0) {
                None => {
                    assert(views_of(frames@) + Seq::<JsonV>::empty() =~= views_of(frames@));
                    self.buf = buf;
                    return frames;
                },
                Some(i) => {
                    assert(occurs_at(buf@, "\n\n"@, i as int));
                    assert(i + 2 <= v.len());
                    let frame = string_of(&v, 0, i);
                    assert(frame@ =~= buf@.take(i as int));
                    let rest = string_of(&v, i + 2, v.len());
                    assert(rest@ =~= buf@.skip(i + 2));
                    let ghost before = views_of(frames@);
                    requests_in(frame.as_str(), &mut frames);
                    assert(before + request_frames(buf@).1 =~= views_of(frames@) + request_frames(
                        rest@,
                    ).1);
                    buf = rest;
                },
            }
        }
    }
}

} // verus!
