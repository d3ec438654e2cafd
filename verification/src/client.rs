//! What the OpenGrok server's replies mean to the app: the local-exec policy,
//! the bot's computer, the roster of this person's machines, schedules,
//! recipes and skills. The HTTP round trips themselves live outside the
//! library; these are the values they carry and the decisions made on them.

use vstd::prelude::*;

use crate::clock::{duration_from_secs, duration_of_secs, secs_of};
use crate::json::{as_bool, bool_at, get, opt_json, str_at, text_at, Json, JsonV};
use crate::text::{
    copy_opt, debug_quoted, debug_text, decimal, lower, normalized, opt_seq, or_else, owned,
    parse_whole, push_decimal, push_signed_decimal, push_str, same, same_ignoring_case,
    same_ignoring_case_exec, signed_decimal, str_opt, trim, trimmed, whole_i64, word, word_of,
};
use crate::activity::joined_with;
use std::time::Duration;

verus! {

/// How close to its expiry an access token is refreshed rather than used, in seconds.
pub const REFRESH_SLACK_SECS: i64 = 30;

/// Whether the access token needs replacing before the next request goes out.
/// A token whose time left cannot be read is one that needs replacing: an
/// expired cookie is dropped from the jar and reads as nothing at all.
pub fn needs_refresh(seconds_left: Option<i64>) -> (r: bool)
    ensures
        r == match seconds_left {
            Some(left) => left < REFRESH_SLACK_SECS,
            None => true,
        },
{
    match seconds_left {
        Some(left) => left < REFRESH_SLACK_SECS,
        None => true,
    }
}

/// What `POST /ag-ui/runs/{id}/answer` answers with.
#[derive(Debug, Clone, PartialEq, Eq)]
pub struct AnswerReply {
    pub already_answered: bool,
    pub continuing: bool,
}

/// What `POST /ag-ui/runs/{id}/stop` answers with: the run, and what it is now.
#[derive(Debug, Clone, PartialEq, Eq)]
pub struct StopReply {
    pub run_id: String,
    pub status: String,
}

/// One machine enrolled with the local-exec daemon.
#[derive(Debug, Clone, PartialEq, Eq)]
pub struct DaemonMachine {
    pub machine_id: String,
    pub label: String,
    pub revoked: bool,
    pub connected: bool,
}

/// The person's standing answer to a command on this Mac.
#[derive(Debug, Clone, Copy, PartialEq, Eq, Structural)]
pub enum LocalExecMode {
    Ask,
    Always,
    Never,
}

pub open spec fn mode_from_stored(mode: Seq<char>) -> LocalExecMode {
    if mode == "ask"@ {
        LocalExecMode::Ask
    } else if mode == "bypass"@ {
        LocalExecMode::Always
    } else {
        LocalExecMode::Never
    }
}

/// Exactly one of the three words (trimmed, any case), or nothing.
pub open spec fn mode_of_word(mode: Seq<char>) -> Option<LocalExecMode> {
    let w = word(mode);
    if w == "ask"@ {
        Some(LocalExecMode::Ask)
    } else if w == "bypass"@ {
        Some(LocalExecMode::Always)
    } else if w == "never"@ {
        Some(LocalExecMode::Never)
    } else {
        None
    }
}

pub open spec fn mode_stored(mode: LocalExecMode) -> Seq<char> {
    match mode {
        LocalExecMode::Ask => "ask"@,
        LocalExecMode::Always => "bypass"@,
        LocalExecMode::Never => "never"@,
    }
}

impl LocalExecMode {
    /// The stored word; anything but `ask` and `bypass` is Never.
    pub fn from_stored(mode: &str) -> (r: Self)
        ensures
            r == mode_from_stored(mode@),
    {
        if same(mode, "ask") {
            LocalExecMode::Ask
        } else if same(mode, "bypass") {
            LocalExecMode::Always
        } else {
            LocalExecMode::Never
        }
    }

    /// Exactly one of the three words, or nothing, for a field whose absence
    /// means there is no such control.
    pub fn parse(mode: &str) -> (r: Option<Self>)
        ensures
            r == mode_of_word(mode@),
    {
        let w = word_of(mode);
        let w = w.as_str();
        if same(w, "ask") {
            Some(LocalExecMode::Ask)
        } else if same(w, "bypass") {
            Some(LocalExecMode::Always)
        } else if same(w, "never") {
            Some(LocalExecMode::Never)
        } else {
            None
        }
    }

    pub fn as_stored(self) -> (r: &'static str)
        ensures
            r@ == mode_stored(self),
    {
        match self {
            LocalExecMode::Ask => "ask",
            LocalExecMode::Always => "bypass",
            LocalExecMode::Never => "never",
        }
    }

    pub fn label(self) -> (r: &'static str)
        ensures
            r@ == (match self {
                LocalExecMode::Ask => "Ask every time"@,
                LocalExecMode::Always => "Always allow"@,
                LocalExecMode::Never => "Never allow"@,
            }),
    {
        match self {
            LocalExecMode::Ask => "Ask every time",
            LocalExecMode::Always => "Always allow",
            LocalExecMode::Never => "Never allow",
        }
    }
}

/// Every mode reads back as itself from its stored word, both ways of reading it.
pub proof fn lemma_mode_round_trip(mode: LocalExecMode)
    ensures
        mode_from_stored(mode_stored(mode)) == mode,
        mode_of_word(mode_stored(mode)) == Some(mode),
{
    reveal_strlit("ask");
    reveal_strlit("bypass");
    reveal_strlit("never");
    crate::text::lemma_word_of_plain("ask"@);
    crate::text::lemma_word_of_plain("bypass"@);
    crate::text::lemma_word_of_plain("never"@);
}

/// Who owns this bot's box.
#[derive(Debug, Clone, Copy, PartialEq, Eq, Structural)]
pub enum BoxShareScope {
    Dedicated,
    User,
    Group,
    Org,
}

pub open spec fn share_scope_of(raw: Seq<char>) -> Option<BoxShareScope> {
    let w = word(raw);
    if w == "dedicated"@ {
        Some(BoxShareScope::Dedicated)
    } else if w == "user"@ {
        Some(BoxShareScope::User)
    } else if w == "group"@ {
        Some(BoxShareScope::Group)
    } else if w == "org"@ || w == "organization"@ || w == "organisation"@ {
        Some(BoxShareScope::Org)
    } else {
        None
    }
}

impl BoxShareScope {
    pub fn parse(raw: &str) -> (r: Option<Self>)
        ensures
            r == share_scope_of(raw@),
    {
        let w = word_of(raw);
        let w = w.as_str();
        if same(w, "dedicated") {
            Some(BoxShareScope::Dedicated)
        } else if same(w, "user") {
            Some(BoxShareScope::User)
        } else if same(w, "group") {
            Some(BoxShareScope::Group)
        } else if same(w, "org") || same(w, "organization") || same(w, "organisation") {
            Some(BoxShareScope::Org)
        } else {
            None
        }
    }
}

/// The box's egress tunnel: `ready` is provisioned, `enabled` the box's
/// current opt-in, and the URL when the server exposes one.
#[derive(Debug, Clone, PartialEq, Eq)]
pub struct EgressTunnel {
    pub ready: bool,
    pub enabled: Option<bool>,
    pub url: Option<String>,
}

pub struct TunnelV {
    pub ready: bool,
    pub enabled: Option<bool>,
    pub url: Option<Seq<char>>,
}

impl View for EgressTunnel {
    type V = TunnelV;

    open spec fn view(&self) -> TunnelV {
        TunnelV { ready: self.ready, enabled: self.enabled, url: opt_seq(self.url) }
    }
}

/// The tunnel's URL under any of its spellings, trimmed.
pub open spec fn tunnel_url(value: JsonV) -> Option<Seq<char>> {
    crate::text::either(
        text_at(value, "url"@),
        crate::text::either(
            text_at(value, "wsUrl"@),
            crate::text::either(
                text_at(value, "ws_url"@),
                crate::text::either(text_at(value, "endpoint"@), text_at(value, "uri"@)),
            ),
        ),
    )
}

/// The tunnel as the computer JSON carries it: a boolean is readiness; a
/// string is a URL (ready when not blank); an object has `ready` (or the
/// older `available`, or a URL) and `enabled`; `null` and anything else is
/// no tunnel.
pub open spec fn egress_of(value: JsonV) -> Option<TunnelV> {
    match value {
        JsonV::Bool(b) => Some(TunnelV { ready: b, enabled: None, url: None }),
        JsonV::Str(u) => if trim(u).len() == 0 {
            Some(TunnelV { ready: false, enabled: None, url: None })
        } else {
            Some(TunnelV { ready: true, enabled: None, url: Some(trim(u)) })
        },
        JsonV::Object(_) => {
            let url = tunnel_url(value);
            Some(
                TunnelV {
                    ready: or_else(bool_at(value, "ready"@), false) || or_else(
                        bool_at(value, "available"@),
                        false,
                    ) || url is Some,
                    enabled: bool_at(value, "enabled"@),
                    url,
                },
            )
        },
        _ => None,
    }
}

fn first_text(value: &Json, a: &str, b: &str) -> (r: Option<String>)
    ensures
        opt_seq(r) == crate::text::either(text_at(value@, a@), text_at(value@, b@)),
{
    match value.text_at(a) {
        Some(t) => Some(t),
        None => value.text_at(b),
    }
}

/// Reads the computer JSON's tunnel field.
pub fn egress_tunnel_from_json(value: &Json) -> (r: Option<EgressTunnel>)
    ensures
        match r {
            Some(t) => egress_of(value@) == Some(t@),
            None => egress_of(value@) is None,
        },
{
    match value {
        Json::Bool(b) => Some(EgressTunnel { ready: *b, enabled: None, url: None }),
        Json::Str(u) => {
            let t = trimmed(u.as_str());
            if t.as_str().unicode_len() == 0 {
                Some(EgressTunnel { ready: false, enabled: None, url: None })
            } else {
                Some(EgressTunnel { ready: true, enabled: None, url: Some(t) })
            }
        },
        Json::Object(_) => {
            let url = match first_text(value, "url", "wsUrl") {
                Some(u) => Some(u),
                None => match first_text(value, "ws_url", "endpoint") {
                    Some(u) => Some(u),
                    None => value.text_at("uri"),
                },
            };
            let ready = match value.bool_at("ready") {
                Some(b) => b,
                None => false,
            } || match value.bool_at("available") {
                Some(b) => b,
                None => false,
            } || url.is_some();
            Some(EgressTunnel { ready, enabled: value.bool_at("enabled"), url })
        },
        _ => None,
    }
}

/// What the box runs against what a new one would get.
#[derive(Debug, Clone, PartialEq, Eq)]
pub struct ImageStatus {
    pub running: String,
    pub latest: String,
    pub stale: bool,
}

/// An update in flight, or the failure the last one ended in.
#[derive(Debug, Clone, PartialEq, Eq)]
pub struct UpdateStatus {
    /// `pulling` | `transferring` | `starting` | `failed`.
    pub phase: String,
    pub started_at_ms: i64,
    pub error: Option<String>,
}

impl UpdateStatus {
    pub fn in_flight(&self) -> (r: bool)
        ensures
            r == (self.phase@ != "failed"@),
    {
        !same(self.phase.as_str(), "failed")
    }

    /// The banner's second line for this phase.
    pub fn detail(&self) -> (r: String)
        ensures
            r@ == (if self.phase@ == "pulling"@ {
                "Fetching the newest image"@
            } else if self.phase@ == "transferring"@ {
                "Transferring your data"@
            } else if self.phase@ == "starting"@ {
                "Starting the new computer"@
            } else if self.phase@ == "failed"@ {
                or_else(opt_seq(self.error), "The update failed"@)
            } else {
                self.phase@
            }),
    {
        let p = self.phase.as_str();
        if same(p, "pulling") {
            owned("Fetching the newest image")
        } else if same(p, "transferring") {
            owned("Transferring your data")
        } else if same(p, "starting") {
            owned("Starting the new computer")
        } else if same(p, "failed") {
            match &self.error {
                Some(e) => e.clone(),
                None => owned("The update failed"),
            }
        } else {
            owned(p)
        }
    }
}

/// The bot's computer as `GET /coworkers/{id}/computer` describes it.
#[derive(Debug, Clone, PartialEq, Eq)]
pub struct CoworkerComputer {
    pub agent_id: String,
    pub state: String,
    pub vnc_url: Option<String>,
    /// The scope's live box, the one a person is looking at.
    pub box_id: Option<String>,
    pub image: Option<ImageStatus>,
    pub update: Option<UpdateStatus>,
    /// Host intent, not box provisioning.
    pub is_egress_tunnel_available: bool,
    pub egress_tunnel: Option<EgressTunnel>,
    pub share_scope: Option<BoxShareScope>,
    pub group_id: Option<String>,
    /// The standing answer to the tunnel's card, in the local-exec words.
    pub egress_policy: Option<LocalExecMode>,
}

/// The image is out of date: flagged so, or running one that is not the latest.
pub open spec fn image_is_stale(image: Option<ImageStatus>) -> bool {
    match image {
        Some(i) => i.stale || (i.running@.len() > 0 && i.latest@.len() > 0 && i.running@
            != i.latest@),
        None => false,
    }
}

impl CoworkerComputer {
    pub fn vnc_url(&self) -> (r: Option<&str>)
        ensures
            match r {
                Some(u) => self.vnc_url matches Some(v) && v@ == u@ && u@.len() > 0,
                None => match self.vnc_url {
                    Some(v) => v@.len() == 0,
                    None => true,
                },
            },
    {
        match &self.vnc_url {
            Some(u) => if u.as_str().unicode_len() > 0 {
                Some(u.as_str())
            } else {
                None
            },
            None => None,
        }
    }

    pub fn updating(&self) -> (r: bool)
        ensures
            r == (self.update matches Some(u) && u.phase@ != "failed"@),
    {
        match &self.update {
            Some(u) => u.in_flight(),
            None => false,
        }
    }

    pub fn image_stale(&self) -> (r: bool)
        ensures
            r == image_is_stale(self.image),
    {
        match &self.image {
            Some(i) => i.stale || (i.running.as_str().unicode_len() > 0
                && i.latest.as_str().unicode_len() > 0 && !same(
                i.running.as_str(),
                i.latest.as_str(),
            )),
            None => false,
        }
    }

    /// The box itself has a ready tunnel. Host availability is not this.
    pub fn box_egress_provisioned(&self) -> (r: bool)
        ensures
            r == (self.egress_tunnel matches Some(t) && t.ready),
    {
        match &self.egress_tunnel {
            Some(t) => t.ready,
            None => false,
        }
    }

    pub fn egress_tunnel_ready(&self) -> (r: bool)
        ensures
            r == (self.egress_tunnel matches Some(t) && t.ready),
    {
        self.box_egress_provisioned()
    }

    /// `Some` when the box JSON exposed a tunnel field.
    pub fn box_egress_ready(&self) -> (r: Option<bool>)
        ensures
            r == (match self.egress_tunnel {
                Some(t) => Some(t.ready),
                None => None,
            }),
    {
        match &self.egress_tunnel {
            Some(t) => Some(t.ready),
            None => None,
        }
    }

    /// The group id, trimmed, when there is one.
    pub fn group_id(&self) -> (r: Option<String>)
        ensures
            opt_seq(r) == (match self.group_id {
                Some(g) => crate::json::nonblank(g@),
                None => None,
            }),
    {
        match &self.group_id {
            Some(g) => crate::json::nonblank_of(g.as_str()),
            None => None,
        }
    }
}

/// One of this person's machines in the Settings roster.
#[derive(Debug, Clone, PartialEq, Eq)]
pub struct ConnectedComputer {
    pub machine_id: String,
    pub label: String,
    pub mode: LocalExecMode,
    pub this_machine: bool,
    pub online: bool,
}

pub struct ComputerV {
    pub machine_id: Seq<char>,
    pub label: Seq<char>,
    pub mode: LocalExecMode,
    pub this_machine: bool,
    pub online: bool,
}

impl View for ConnectedComputer {
    type V = ComputerV;

    open spec fn view(&self) -> ComputerV {
        ComputerV {
            machine_id: self.machine_id@,
            label: self.label@,
            mode: self.mode,
            this_machine: self.this_machine,
            online: self.online,
        }
    }
}

/// This Mac beats another; then online beats offline.
pub open spec fn preferred(a: ComputerV, b: ComputerV) -> bool {
    if a.this_machine && !b.this_machine {
        true
    } else if !a.this_machine && b.this_machine {
        false
    } else {
        a.online && !b.online
    }
}

/// A label rows are folded by: trimmed and lowercased, and none for a blank
/// label or the stock word `computer`.
pub open spec fn label_key(c: ComputerV) -> Option<Seq<char>> {
    let label = word(c.label);
    if label.len() == 0 || label == "computer"@ {
        None
    } else {
        Some(label)
    }
}

/// The key a fold groups rows by: the machine id, or the label key.
pub open spec fn roster_key(c: ComputerV, by_label: bool) -> Option<Seq<char>> {
    if by_label {
        label_key(c)
    } else {
        Some(c.machine_id)
    }
}

/// The first row from `i` on that has the key.
pub open spec fn first_with_key(rows: Seq<ComputerV>, k: Seq<char>, by_label: bool, i: nat) -> Option<nat>
    decreases rows.len() - i,
{
    if i >= rows.len() {
        None
    } else if roster_key(rows[i as int], by_label) == Some(k) {
        Some(i)
    } else {
        first_with_key(rows, k, by_label, i + 1)
    }
}

/// What the search finds is a row with the key; when it finds none, no row
/// from `i` on has it.
pub proof fn lemma_first_with_key(rows: Seq<ComputerV>, k: Seq<char>, by_label: bool, i: nat)
    ensures
        first_with_key(rows, k, by_label, i) matches Some(j) ==> i <= j < rows.len()
            && roster_key(rows[j as int], by_label) == Some(k),
        first_with_key(rows, k, by_label, i) is None ==> forall|j: int|
            i <= j < rows.len() ==> roster_key(#[trigger] rows[j], by_label) != Some(k),
    decreases rows.len() - i,
{
    if i < rows.len() && roster_key(rows[i as int], by_label) != Some(k) {
        lemma_first_with_key(rows, k, by_label, i + 1);
    }
}

/// Rows folded in order: a row without a key stays; a row whose key is new
/// is added; a row whose key is already there replaces that row when it is
/// preferred over it, and is dropped otherwise.
pub open spec fn folded(rows: Seq<ComputerV>, by_label: bool) -> Seq<ComputerV>
    decreases rows.len(),
{
    if rows.len() == 0 {
        Seq::empty()
    } else {
        let out = folded(rows.drop_last(), by_label);
        let c = rows.last();
        match roster_key(c, by_label) {
            None => out.push(c),
            Some(k) => match first_with_key(out, k, by_label, 0) {
                Some(i) => if preferred(c, out[i as int]) {
                    out.update(i as int, c)
                } else {
                    out
                },
                None => out.push(c),
            },
        }
    }
}

impl ConnectedComputer {
    fn preferred_over(&self, other: &Self) -> (r: bool)
        ensures
            r == preferred(self@, other@),
    {
        if self.this_machine && !other.this_machine {
            true
        } else if !self.this_machine && other.this_machine {
            false
        } else {
            self.online && !other.online
        }
    }

    fn copy(&self) -> (r: Self)
        ensures
            r@ == self@,
    {
        ConnectedComputer {
            machine_id: self.machine_id.clone(),
            label: self.label.clone(),
            mode: self.mode,
            this_machine: self.this_machine,
            online: self.online,
        }
    }
}

fn computer_label_key(computer: &ConnectedComputer) -> (r: Option<String>)
    ensures
        opt_seq(r) == label_key(computer@),
{
    let label = word_of(computer.label.as_str());
    if label.as_str().unicode_len() == 0 || same(label.as_str(), "computer") {
        None
    } else {
        Some(label)
    }
}

fn key_of(computer: &ConnectedComputer, by_label: bool) -> (r: Option<String>)
    ensures
        opt_seq(r) == roster_key(computer@, by_label),
{
    if by_label {
        computer_label_key(computer)
    } else {
        Some(computer.machine_id.clone())
    }
}

pub open spec fn roster(cs: Seq<ConnectedComputer>) -> Seq<ComputerV> {
    cs.map_values(|c: ConnectedComputer| c@)
}

fn position_of_key(out: &Vec<ConnectedComputer>, k: &str, by_label: bool) -> (r: Option<usize>)
    ensures
        match r {
            Some(i) => first_with_key(roster(out@), k@, by_label, 0) == Some(i as nat),
            None => first_with_key(roster(out@), k@, by_label, 0) is None,
        },
{
    let ghost rows = roster(out@);
    let mut i: usize = 0;
    while i < out.len()
        invariant
            i <= out@.len(),
            rows == roster(out@),
            first_with_key(rows, k@, by_label, 0) == first_with_key(rows, k@, by_label, i as nat),
        decreases out@.len() - i,
    {
        let here = match key_of(&out[i], by_label) {
            Some(x) => same(x.as_str(), k),
            None => false,
        };
        assert(rows[i as int] == out@[i as int]@);
        if here {
            return Some(i);
        }
        i = i + 1;
    }
    None
}

fn fold_computers(computers: Vec<ConnectedComputer>, by_label: bool) -> (r: Vec<ConnectedComputer>)
    ensures
        roster(r@) == folded(roster(computers@), by_label),
{
    let ghost rows = roster(computers@);
    let mut out: Vec<ConnectedComputer> = Vec::new();
    let mut i: usize = 0;
    while i < computers.len()
        invariant
            i <= computers@.len(),
            rows == roster(computers@),
            roster(out@) == folded(rows.subrange(0, i as int), by_label),
        decreases computers@.len() - i,
    {
        let ghost before = roster(out@);
        let computer = computers[i].copy();
        proof {
            let sub = rows.subrange(0, i + 1);
            assert(sub.drop_last() =~= rows.subrange(0, i as int));
            assert(sub.last() == computer@);
        }
        match key_of(&computer, by_label) {
            None => {
                out.push(computer);
                assert(roster(out@) =~= before.push(computer@));
            },
            Some(k) => match position_of_key(&out, k.as_str(), by_label) {
                Some(p) => {
                    proof {
                        lemma_first_with_key(before, k@, by_label, 0);
                    }
                    if computer.preferred_over(&out[p]) {
                        let ghost cv = computer@;
                        out.set(p, computer);
                        assert(roster(out@) =~= before.update(p as int, cv));
                    }
                },
                None => {
                    out.push(computer);
                    assert(roster(out@) =~= before.push(computer@));
                },
            },
        }
        i = i + 1;
    }
    assert(rows.subrange(0, i as int) =~= rows);
    out
}

/// The same machine listed twice becomes one row.
pub fn collapse_computers_by_machine_id(computers: Vec<ConnectedComputer>) -> (r: Vec<
    ConnectedComputer,
>)
    ensures
        roster(r@) == folded(roster(computers@), false),
{
    fold_computers(computers, false)
}

/// One row per machine, and a stale enrol with the same label as a live one
/// collapses to the preferred row: this Mac first, then the one online.
pub fn collapse_computer_roster(computers: Vec<ConnectedComputer>) -> (r: Vec<ConnectedComputer>)
    ensures
        roster(r@) == folded(folded(roster(computers@), false), true),
{
    fold_computers(collapse_computers_by_machine_id(computers), true)
}

/// No two rows share a key.
pub open spec fn keys_distinct(rows: Seq<ComputerV>, by_label: bool) -> bool {
    forall|i: int, j: int|
        0 <= i < rows.len() && 0 <= j < rows.len() && i != j && roster_key(rows[i], by_label) is Some
            ==> roster_key(#[trigger] rows[i], by_label) != roster_key(#[trigger] rows[j], by_label)
}

/// A fold leaves one row per key.
pub proof fn lemma_folded_keys_distinct(rows: Seq<ComputerV>, by_label: bool)
    ensures
        keys_distinct(folded(rows, by_label), by_label),
    decreases rows.len(),
{
    if rows.len() > 0 {
        let out = folded(rows.drop_last(), by_label);
        lemma_folded_keys_distinct(rows.drop_last(), by_label);
        let c = rows.last();
        let now = folded(rows, by_label);
        match roster_key(c, by_label) {
            None => {
                assert forall|i: int, j: int|
                    0 <= i < now.len() && 0 <= j < now.len() && i != j && roster_key(now[i], by_label) is Some
                        implies roster_key(#[trigger] now[i], by_label) != roster_key(#[trigger] now[j], by_label) by {
                    if i < out.len() && j < out.len() {
                        assert(now[i] == out[i] && now[j] == out[j]);
                    } else if i < out.len() {
                        assert(now[i] == out[i]);
                    }
                }
            },
            Some(k) => {
                lemma_first_with_key(out, k, by_label, 0);
                match first_with_key(out, k, by_label, 0) {
                    Some(p) => {
                        assert forall|i: int, j: int|
                            0 <= i < now.len() && 0 <= j < now.len() && i != j && roster_key(now[i], by_label) is Some
                                implies roster_key(#[trigger] now[i], by_label) != roster_key(#[trigger] now[j], by_label) by {
                            assert(roster_key(now[i], by_label) == roster_key(out[i], by_label));
                            assert(roster_key(now[j], by_label) == roster_key(out[j], by_label));
                        }
                    },
                    None => {
                        assert forall|i: int, j: int|
                            0 <= i < now.len() && 0 <= j < now.len() && i != j && roster_key(now[i], by_label) is Some
                                implies roster_key(#[trigger] now[i], by_label) != roster_key(#[trigger] now[j], by_label) by {
                            if i < out.len() && j < out.len() {
                                assert(now[i] == out[i] && now[j] == out[j]);
                            } else if i < out.len() {
                                assert(now[i] == out[i]);
                                assert(roster_key(out[i], by_label) != Some(k));
                            } else {
                                assert(now[j] == out[j]);
                                assert(roster_key(out[j], by_label) != Some(k));
                            }
                        }
                    },
                }
            },
        }
    }
}

/// The roster shows each machine once, and each label (other than a blank
/// or the stock `computer`) once.
pub proof fn lemma_roster_one_row_each(rows: Seq<ComputerV>)
    ensures
        keys_distinct(folded(rows, false), false),
        keys_distinct(folded(folded(rows, false), true), true),
{
    lemma_folded_keys_distinct(rows, false);
    lemma_folded_keys_distinct(folded(rows, false), true);
}

/// A row the output answers for: one with the same key that it is not
/// preferred over.
pub open spec fn kept_in(out: Seq<ComputerV>, c: ComputerV, by_label: bool) -> bool {
    exists|j: int|
        0 <= j < out.len() && roster_key(#[trigger] out[j], by_label) == roster_key(c, by_label)
            && !preferred(c, out[j])
}

/// Some row shown is at least as good as `c`.
pub open spec fn shown_not_worse(out: Seq<ComputerV>, c: ComputerV) -> bool {
    exists|j: int| 0 <= j < out.len() && !preferred(c, #[trigger] out[j])
}

/// A fold drops no row that beats the one it kept: every row has, in the
/// output, a row with its key that it is not preferred over (a row with no
/// key stays itself).
pub proof fn lemma_fold_keeps_the_preferred(rows: Seq<ComputerV>, by_label: bool)
    ensures
        forall|i: int| 0 <= i < rows.len() ==> kept_in(folded(rows, by_label), #[trigger] rows[i], by_label),
    decreases rows.len(),
{
    if rows.len() > 0 {
        let prev = rows.drop_last();
        lemma_fold_keeps_the_preferred(prev, by_label);
        let out = folded(prev, by_label);
        let now = folded(rows, by_label);
        let c = rows.last();
        assert forall|i: int| 0 <= i < rows.len() implies kept_in(now, #[trigger] rows[i], by_label) by {
            let r = rows[i];
            if i == rows.len() - 1 {
                match roster_key(c, by_label) {
                    None => {
                        assert(now[out.len() as int] == c);
                    },
                    Some(k) => {
                        lemma_first_with_key(out, k, by_label, 0);
                        match first_with_key(out, k, by_label, 0) {
                            Some(p) => {
                                if preferred(c, out[p as int]) {
                                    assert(now[p as int] == c);
                                } else {
                                    assert(now[p as int] == out[p as int]);
                                }
                            },
                            None => {
                                assert(now[out.len() as int] == c);
                            },
                        }
                    },
                }
            } else {
                assert(r == prev[i]);
                assert(kept_in(out, prev[i], by_label));
                let j = choose|j: int|
                    0 <= j < out.len() && roster_key(#[trigger] out[j], by_label) == roster_key(r, by_label)
                        && !preferred(r, out[j]);
                match roster_key(c, by_label) {
                    None => {
                        assert(now[j] == out[j]);
                    },
                    Some(k) => {
                        lemma_first_with_key(out, k, by_label, 0);
                        match first_with_key(out, k, by_label, 0) {
                            Some(p) => {
                                if preferred(c, out[p as int]) && j == p {
                                    assert(now[j] == c);
                                } else {
                                    assert(now[j] == out[j]);
                                }
                            },
                            None => {
                                assert(now[j] == out[j]);
                            },
                        }
                    },
                }
            }
        }
    }
}

/// The roster never hides a better row behind a worse one: for every row
/// listed, the roster shows one it is not preferred over; so when this Mac
/// is listed, the roster shows this Mac.
pub proof fn lemma_roster_keeps_the_preferred(rows: Seq<ComputerV>)
    ensures
        forall|i: int|
            0 <= i < rows.len() ==> shown_not_worse(folded(folded(rows, false), true), #[trigger] rows[i]),
        (exists|i: int| 0 <= i < rows.len() && (#[trigger] rows[i]).this_machine) ==> exists|j: int|
            0 <= j < folded(folded(rows, false), true).len() && (#[trigger] folded(
                folded(rows, false),
                true,
            )[j]).this_machine,
{
    let once = folded(rows, false);
    let twice = folded(once, true);
    lemma_fold_keeps_the_preferred(rows, false);
    lemma_fold_keeps_the_preferred(once, true);
    assert forall|i: int| 0 <= i < rows.len() implies shown_not_worse(twice, #[trigger] rows[i]) by {
        let r = rows[i];
        assert(kept_in(once, r, false));
        let j = choose|j: int|
            0 <= j < once.len() && roster_key(#[trigger] once[j], false) == roster_key(r, false)
                && !preferred(r, once[j]);
        assert(kept_in(twice, once[j], true));
        let m = choose|m: int|
            0 <= m < twice.len() && roster_key(#[trigger] twice[m], true) == roster_key(once[j], true)
                && !preferred(once[j], twice[m]);
        assert(!preferred(r, twice[m]));
    }
    if exists|i: int| 0 <= i < rows.len() && (#[trigger] rows[i]).this_machine {
        let i = choose|i: int| 0 <= i < rows.len() && (#[trigger] rows[i]).this_machine;
        assert(shown_not_worse(twice, rows[i]));
        let j = choose|j: int| 0 <= j < twice.len() && !preferred(rows[i], #[trigger] twice[j]);
        assert(twice[j].this_machine);
    }
}

/// A machine's enrolment with the local-exec daemon.
#[derive(Debug, Clone, PartialEq, Eq)]
pub struct DaemonEnrol {
    pub machine_id: String,
    pub token: String,
}

/// What sets a schedule off: the clock, or somebody POSTing to a URL. A
/// word this client has no name for reads as a cron schedule.
#[derive(Debug, Clone, Copy, PartialEq, Eq, Structural, Default)]
pub enum ScheduleKind {
    Webhook,
    #[default]
    Cron,
}

/// The word the server sends and takes for a schedule's kind.
pub open spec fn schedule_word(kind: ScheduleKind) -> Seq<char> {
    match kind {
        ScheduleKind::Cron => "cron"@,
        ScheduleKind::Webhook => "webhook"@,
    }
}

impl ScheduleKind {
    /// The word the server sends and takes.
    pub fn word(self) -> (r: &'static str)
        ensures
            r@ == schedule_word(self),
    {
        match self {
            ScheduleKind::Cron => "cron",
            ScheduleKind::Webhook => "webhook",
        }
    }
}

/// The URL a webhook schedule fires from, and what has to be on the request.
#[derive(Debug, Clone, Default, PartialEq, Eq)]
pub struct WebhookInfo {
    pub url: String,
    pub key: String,
    pub header: String,
}

/// One schedule: a coworker, a prompt, and when to send it.
#[derive(Debug, Clone, PartialEq, Eq)]
pub struct ScheduleRow {
    pub id: String,
    pub coworker_id: String,
    pub kind: ScheduleKind,
    /// The cron line; a webhook has no clock.
    pub cron: Option<String>,
    pub prompt: String,
    pub name: Option<String>,
    pub active: bool,
    pub next_due_ms: Option<i64>,
    pub webhook: Option<WebhookInfo>,
}

/// What `POST /schedules` is asked for.
#[derive(Debug, Clone, PartialEq, Eq)]
pub struct NewSchedule {
    pub coworker_id: String,
    pub kind: ScheduleKind,
    pub prompt: String,
    pub name: String,
    pub cron: Option<String>,
}

/// The screen every recipe is taught and played back on, in CSS pixels.
pub const RECIPE_SCREEN_WIDTH: u32 = 1280;

pub const RECIPE_SCREEN_HEIGHT: u32 = 800;

/// The most a recipe upload may weigh.
pub const RECIPE_UPLOAD_LIMIT: usize = 5 * 1024 * 1024;

/// The least time between two `move` events that both go up.
pub const RECIPE_MOVE_INTERVAL_MS: i64 = 40;

pub open spec fn is_move(e: JsonV) -> bool {
    str_at(e, "kind"@) == Some("move"@)
}

pub open spec fn event_at(e: JsonV) -> i64 {
    match get(e, "at"@) {
        Some(v) => or_else(crate::json::as_i64(v), 0),
        None => 0,
    }
}

/// A tape thinned: every event but a `move` stays; a `move` stays when no
/// move went up before it or the last one that did is at least the interval
/// behind it. With the time of the last move kept.
pub open spec fn thinned(events: Seq<JsonV>) -> (Seq<JsonV>, Option<i64>)
    decreases events.len(),
{
    if events.len() == 0 {
        (Seq::empty(), None)
    } else {
        let (kept, last) = thinned(events.drop_last());
        let e = events.last();
        if !is_move(e) {
            (kept.push(e), last)
        } else {
            match last {
                Some(l) => if event_at(e) - l < RECIPE_MOVE_INTERVAL_MS {
                    (kept, last)
                } else {
                    (kept.push(e), Some(event_at(e)))
                },
                None => (kept.push(e), Some(event_at(e))),
            }
        }
    }
}

/// The events thinning never touches: all but the moves.
pub open spec fn not_a_move() -> spec_fn(JsonV) -> bool {
    |e: JsonV| !is_move(e)
}

/// Thinning drops only moves: every other event of the tape is in the
/// thinned tape, in its order, and nothing else that is not a move is.
pub proof fn lemma_thinning_keeps_every_other_event(events: Seq<JsonV>)
    ensures
        thinned(events).0.filter(not_a_move()) == events.filter(not_a_move()),
    decreases events.len(),
{
    reveal(Seq::filter);
    if events.len() > 0 {
        lemma_thinning_keeps_every_other_event(events.drop_last());
        let kept = thinned(events.drop_last()).0;
        let e = events.last();
        assert(kept.push(e).drop_last() =~= kept);
        assert(kept.push(e).last() == e);
    }
}

/// The moves of a tape.
pub open spec fn a_move() -> spec_fn(JsonV) -> bool {
    |e: JsonV| is_move(e)
}

/// Moves each at least the interval after the one before.
pub open spec fn spaced(moves: Seq<JsonV>) -> bool {
    forall|i: int, j: int|
        0 <= i && j == i + 1 && j < moves.len() ==> #[trigger] event_at(moves[j]) - #[trigger] event_at(
            moves[i],
        ) >= RECIPE_MOVE_INTERVAL_MS
}

/// The moves that go up are one per interval: each kept move is at least
/// the interval after the kept move before it, and the time thinning
/// carries on with is the last kept move's.
pub proof fn lemma_kept_moves_are_spaced(events: Seq<JsonV>)
    ensures
        spaced(thinned(events).0.filter(a_move())),
        thinned(events).0.filter(a_move()).len() == 0 <==> thinned(events).1 is None,
        thinned(events).0.filter(a_move()).len() > 0 ==> thinned(events).1 == Some(
            event_at(thinned(events).0.filter(a_move()).last()),
        ),
    decreases events.len(),
{
    reveal(Seq::filter);
    if events.len() > 0 {
        lemma_kept_moves_are_spaced(events.drop_last());
        let kept = thinned(events.drop_last()).0;
        let e = events.last();
        assert(kept.push(e).drop_last() =~= kept);
        assert(kept.push(e).last() == e);
        let m = kept.filter(a_move());
        let last = thinned(events.drop_last()).1;
        let goes = match last {
            Some(l) => event_at(e) - l >= RECIPE_MOVE_INTERVAL_MS,
            None => true,
        };
        if is_move(e) && goes {
            let m2 = m.push(e);
            assert(thinned(events).0 == kept.push(e));
            assert(thinned(events).0.filter(a_move()) == m2);
            assert forall|i: int, j: int|
                0 <= i && j == i + 1 && j < m2.len() implies #[trigger] event_at(m2[j])
                - #[trigger] event_at(m2[i]) >= RECIPE_MOVE_INTERVAL_MS by {
                if j < m.len() {
                    assert(m2[i] == m[i] && m2[j] == m[j]);
                } else {
                    assert(m2[i] == m.last());
                    assert(m2[j] == e);
                }
            }
        }
    }
}

/// The tape with its `move` events thinned to one per interval; every other
/// event stays, in order.
pub fn thin_tape(events: &[Json]) -> (r: Vec<Json>)
    ensures
        r@.map_values(|e: Json| e@) == thinned(events@.map_values(|e: Json| e@)).0,
{
    let ghost all = events@.map_values(|e: Json| e@);
    let mut out: Vec<Json> = Vec::new();
    let mut last: Option<i64> = None;
    let mut i: usize = 0;
    while i < events.len()
        invariant
            i <= events@.len(),
            all == events@.map_values(|e: Json| e@),
            out@.map_values(|e: Json| e@) == thinned(all.subrange(0, i as int)).0,
            last == thinned(all.subrange(0, i as int)).1,
        decreases events@.len() - i,
    {
        let ghost before = out@.map_values(|e: Json| e@);
        let e = &events[i];
        proof {
            let sub = all.subrange(0, i + 1);
            assert(sub.drop_last() =~= all.subrange(0, i as int));
            assert(sub.last() == e@);
        }
        let moving = match e.str_at("kind") {
            Some(k) => same(k, "move"),
            None => false,
        };
        let keep = if !moving {
            true
        } else {
            let at: i64 = match e.get("at") {
                Some(v) => match v.as_i64() {
                    Some(n) => n,
                    None => 0,
                },
                None => 0,
            };
            let close = match last {
                Some(l) => (at as i128) - (l as i128) < RECIPE_MOVE_INTERVAL_MS as i128,
                None => false,
            };
            if !close {
                last = Some(at);
            }
            !close
        };
        if keep {
            out.push(e.copy());
            assert(out@.map_values(|e: Json| e@) =~= before.push(e@));
        }
        i = i + 1;
    }
    assert(all.subrange(0, i as int) =~= all);
    out
}

/// The screen a recipe is taught on.
#[derive(Debug, Clone, Copy, PartialEq, Eq)]
pub struct RecipeScreen {
    pub width: u32,
    pub height: u32,
}

impl Default for RecipeScreen {
    fn default() -> (r: Self)
        ensures
            r.width == RECIPE_SCREEN_WIDTH && r.height == RECIPE_SCREEN_HEIGHT,
    {
        RecipeScreen { width: RECIPE_SCREEN_WIDTH, height: RECIPE_SCREEN_HEIGHT }
    }
}

/// How the person stands to a recipe.
#[derive(Debug, Clone, Copy, PartialEq, Eq, Structural, Default)]
pub enum RecipeRelation {
    Mine,
    Shared,
    Invited,
    /// Nothing in particular: an org listing they may look at.
    #[default]
    Unrelated,
}

/// A recipe or a workflow; a word this client has no name for reads as a recipe.
#[derive(Debug, Clone, Copy, PartialEq, Eq, Structural, Default)]
pub enum RecipeKind {
    Workflow,
    #[default]
    Recipe,
}

impl RecipeKind {
    pub fn label(self) -> (r: &'static str)
        ensures
            r@ == (match self {
                RecipeKind::Recipe => "Recipe"@,
                RecipeKind::Workflow => "Workflow"@,
            }),
    {
        match self {
            RecipeKind::Recipe => "Recipe",
            RecipeKind::Workflow => "Workflow",
        }
    }

    pub fn word(self) -> (r: &'static str)
        ensures
            r@ == (match self {
                RecipeKind::Recipe => "recipe"@,
                RecipeKind::Workflow => "workflow"@,
            }),
    {
        match self {
            RecipeKind::Recipe => "recipe",
            RecipeKind::Workflow => "workflow",
        }
    }

    pub fn icon(self) -> (r: &'static str)
        ensures
            r@ == (match self {
                RecipeKind::Recipe => "icons/record.svg"@,
                RecipeKind::Workflow => "icons/branch.svg"@,
            }),
    {
        match self {
            RecipeKind::Recipe => "icons/record.svg",
            RecipeKind::Workflow => "icons/branch.svg",
        }
    }
}

/// Where a share stands with the person it went to.
#[derive(Debug, Clone, Copy, PartialEq, Eq, Structural)]
pub enum RecipeShareState {
    Accepted,
    Declined,
    Pending,
    Unknown,
}

/// What a parameter takes; a kind this client has no word for is text.
#[derive(Debug, Clone, Copy, PartialEq, Eq, Structural, Default)]
pub enum RecipeParameterKind {
    Number,
    Boolean,
    #[default]
    Text,
}

impl RecipeParameterKind {
    pub fn label(&self) -> (r: &'static str)
        ensures
            r@ == (match *self {
                RecipeParameterKind::Number => "number"@,
                RecipeParameterKind::Boolean => "yes or no"@,
                RecipeParameterKind::Text => "text"@,
            }),
    {
        match self {
            RecipeParameterKind::Number => "number",
            RecipeParameterKind::Boolean => "yes or no",
            RecipeParameterKind::Text => "text",
        }
    }
}

/// One thing a recipe needs told before it runs.
#[derive(Debug, Clone, PartialEq, Eq)]
pub struct RecipeParameter {
    pub name: String,
    pub description: String,
    pub required: bool,
    pub kind: RecipeParameterKind,
    /// What it stands at when nobody says otherwise, as the words a person would type.
    pub default: Option<String>,
    /// The only values it takes, when the declaration narrows it.
    pub values: Option<Vec<String>>,
}

/// One row of the Recipes list.
#[derive(Debug, Clone, PartialEq, Eq)]
pub struct RecipeSummary {
    pub id: String,
    pub owner_id: String,
    pub org_id: Option<String>,
    pub name: String,
    pub description: String,
    pub screen: RecipeScreen,
    pub created_at_ms: i64,
    pub updated_at_ms: i64,
    pub deleted_at_ms: Option<i64>,
    pub latest_version: u32,
    pub relation: RecipeRelation,
    pub share_state: Option<RecipeShareState>,
    pub kind: RecipeKind,
    pub parameters: Vec<RecipeParameter>,
}

impl RecipeSummary {
    pub fn is_mine(&self) -> (r: bool)
        ensures
            r == (self.relation == RecipeRelation::Mine),
    {
        self.relation == RecipeRelation::Mine
    }

    pub fn is_workflow(&self) -> (r: bool)
        ensures
            r == (self.kind == RecipeKind::Workflow),
    {
        self.kind == RecipeKind::Workflow
    }

    /// A share the person has not answered.
    pub fn is_pending_invite(&self) -> (r: bool)
        ensures
            r == (self.relation == RecipeRelation::Invited && (self.share_state == Some(
                RecipeShareState::Pending,
            ) || self.share_state is None)),
    {
        self.relation == RecipeRelation::Invited && match self.share_state {
            Some(RecipeShareState::Pending) | None => true,
            _ => false,
        }
    }
}

pub open spec fn is_digit(c: char) -> bool {
    '0' <= c && c <= '9'
}

/// How many digits run from `i`.
pub open spec fn digit_run(s: Seq<char>, i: int) -> nat
    decreases s.len() - i,
{
    if 0 <= i < s.len() && is_digit(s[i]) {
        1 + digit_run(s, i + 1)
    } else {
        0
    }
}

/// From `i` the text is empty, or an exponent: `e` or `E`, a sign or none,
/// and digits to the end.
pub open spec fn exponent_ok(s: Seq<char>, i: int) -> bool {
    i == s.len() || (0 <= i < s.len() && (s[i] == 'e' || s[i] == 'E') && {
        let j = if i + 1 < s.len() && (s[i + 1] == '+' || s[i + 1] == '-') {
            i + 2
        } else {
            i + 1
        };
        digit_run(s, j) > 0 && j + digit_run(s, j) == s.len()
    })
}

/// Digits with an optional point (a digit on one side at least), then an
/// optional exponent.
pub open spec fn decimal_number(s: Seq<char>) -> bool {
    let a = digit_run(s, 0);
    if a < s.len() && s[a as int] == '.' {
        let b = digit_run(s, (a + 1) as int);
        a + b > 0 && exponent_ok(s, (a + 1 + b) as int)
    } else {
        a > 0 && exponent_ok(s, a as int)
    }
}

/// The texts `f64::from_str` reads: an optional sign, then `inf`,
/// `infinity` or `nan` in any case, or a decimal number.
pub open spec fn float_text(t: Seq<char>) -> bool {
    let body = if t.len() > 0 && (t[0] == '+' || t[0] == '-') {
        t.drop_first()
    } else {
        t
    };
    lower(body) == "inf"@ || lower(body) == "infinity"@ || lower(body) == "nan"@ || decimal_number(
        body,
    )
}

proof fn lemma_digit_run(s: Seq<char>, i: int, j: int)
    requires
        0 <= i <= j <= s.len(),
        forall|k: int| i <= k < j ==> is_digit(#[trigger] s[k]),
        j == s.len() || !is_digit(s[j]),
    ensures
        digit_run(s, i) == j - i,
    decreases j - i,
{
    if i < j {
        lemma_digit_run(s, i + 1, j);
    }
}

fn digits_from(v: &Vec<char>, i: usize) -> (r: usize)
    requires
        i <= v@.len(),
    ensures
        r == digit_run(v@, i as int),
        i + r <= v@.len(),
{
    let mut j = i;
    while j < v.len() && '0' <= v[j] && v[j] <= '9'
        invariant
            i <= j <= v@.len(),
            forall|k: int| i <= k < j ==> is_digit(#[trigger] v@[k]),
        decreases v@.len() - j,
    {
        j = j + 1;
    }
    proof {
        lemma_digit_run(v@, i as int, j as int);
    }
    j - i
}

fn exponent_ok_exec(v: &Vec<char>, i: usize) -> (r: bool)
    requires
        i <= v@.len(),
    ensures
        r == exponent_ok(v@, i as int),
{
    if i == v.len() {
        return true;
    }
    if !(v[i] == 'e' || v[i] == 'E') {
        return false;
    }
    let j = if i + 1 < v.len() && (v[i + 1] == '+' || v[i + 1] == '-') {
        i + 2
    } else {
        i + 1
    };
    let d = digits_from(v, j);
    d > 0 && j + d == v.len()
}

fn decimal_number_exec(v: &Vec<char>) -> (r: bool)
    ensures
        r == decimal_number(v@),
{
    let a = digits_from(v, 0);
    if a < v.len() && v[a] == '.' {
        let b = digits_from(v, a + 1);
        a + b > 0 && exponent_ok_exec(v, a + 1 + b)
    } else {
        a > 0 && exponent_ok_exec(v, a)
    }
}

/// Whether `f64::from_str` reads the text as a number.
pub fn is_float_text(text: &str) -> (r: bool)
    ensures
        r == float_text(text@),
{
    let v = crate::text::chars_of(text);
    let signed = v.len() > 0 && (v[0] == '+' || v[0] == '-');
    let body = if signed {
        let b = crate::text::string_of(&v, 1, v.len());
        assert(b@ =~= text@.drop_first());
        b
    } else {
        owned(text)
    };
    let low = crate::text::lowered(body.as_str());
    let low = low.as_str();
    if same(low, "inf") || same(low, "infinity") || same(low, "nan") {
        return true;
    }
    let bv = crate::text::chars_of(body.as_str());
    decimal_number_exec(&bv)
}

/// The yes or the no a person may have written, whichever way they wrote it.
pub open spec fn boolean_of(text: Seq<char>) -> Option<bool> {
    let w = word(text);
    if w == "true"@ || w == "yes"@ || w == "y"@ || w == "1"@ {
        Some(true)
    } else if w == "false"@ || w == "no"@ || w == "n"@ || w == "0"@ {
        Some(false)
    } else {
        None
    }
}

pub fn boolean_text(text: &str) -> (r: Option<bool>)
    ensures
        r == boolean_of(text@),
{
    let w = word_of(text);
    let w = w.as_str();
    if same(w, "true") || same(w, "yes") || same(w, "y") || same(w, "1") {
        Some(true)
    } else if same(w, "false") || same(w, "no") || same(w, "n") || same(w, "0") {
        Some(false)
    } else {
        None
    }
}

/// One JSON scalar as the words a person would type for it; an object, an
/// array or `null` is no value.
pub open spec fn scalar_text(value: JsonV) -> Option<Seq<char>> {
    match value {
        JsonV::Str(s) => Some(s),
        JsonV::Number { text, .. } => Some(text),
        JsonV::Bool(b) => Some(
            if b {
                "true"@
            } else {
                "false"@
            },
        ),
        _ => None,
    }
}

pub fn value_text(value: &Json) -> (r: Option<String>)
    ensures
        opt_seq(r) == scalar_text(value@),
{
    match value {
        Json::Str(s) => Some(s.clone()),
        Json::Number(n) => Some(n.text.clone()),
        Json::Bool(b) => Some(
            owned(
                if *b {
                    "true"
                } else {
                    "false"
                },
            ),
        ),
        _ => None,
    }
}

/// The values a parameter is narrowed to, when it is narrowed at all.
pub open spec fn allowed_values(p: RecipeParameter) -> Option<Seq<Seq<char>>> {
    match p.values {
        Some(v) => if v@.len() > 0 {
            Some(v@.map_values(|s: String| s@))
        } else {
            None
        },
        None => None,
    }
}

/// The first allowed value that names the text, in any case.
pub open spec fn first_declared(values: Seq<Seq<char>>, text: Seq<char>, i: nat) -> Option<Seq<char>>
    decreases values.len() - i,
{
    if i >= values.len() {
        None
    } else if same_ignoring_case(values[i as int], text) {
        Some(values[i as int])
    } else {
        first_declared(values, text, i + 1)
    }
}

pub open spec fn declared_value(p: RecipeParameter, text: Seq<char>) -> Option<Seq<char>> {
    match allowed_values(p) {
        Some(vs) => first_declared(vs, text, 0),
        None => None,
    }
}

/// Why a typed value is not one the parameter takes, or none when it is.
pub open spec fn rejection(p: RecipeParameter, text: Seq<char>) -> Option<Seq<char>> {
    match allowed_values(p) {
        Some(vs) => if declared_value(p, text) is None {
            Some(p.name@ + " takes one of: "@ + joined_with(vs, ", "@) + "."@)
        } else {
            None
        },
        None => match p.kind {
            RecipeParameterKind::Number => if float_text(text) {
                None
            } else {
                Some(p.name@ + " takes a number, and \""@ + text + "\" is not one."@)
            },
            RecipeParameterKind::Boolean => if boolean_of(text) is None {
                Some(p.name@ + " is a yes or a no, so pick one."@)
            } else {
                None
            },
            RecipeParameterKind::Text => None,
        },
    }
}

pub open spec fn slice_strings(r: Option<&[String]>) -> Option<Seq<Seq<char>>> {
    match r {
        Some(s) => Some(s@.map_values(|x: String| x@)),
        None => None,
    }
}

impl RecipeParameter {
    /// The values this parameter is narrowed to, if it is narrowed at all.
    pub fn allowed(&self) -> (r: Option<&[String]>)
        ensures
            slice_strings(r) == allowed_values(*self),
    {
        match &self.values {
            Some(v) => if v.len() > 0 {
                Some(v.as_slice())
            } else {
                None
            },
            None => None,
        }
    }

    /// The declared value this text names, in the declaration's spelling.
    pub fn declared(&self, text: &str) -> (r: Option<&str>)
        ensures
            match r {
                Some(v) => declared_value(*self, text@) == Some(v@),
                None => declared_value(*self, text@) is None,
            },
    {
        let values = match self.allowed() {
            Some(v) => v,
            None => {
                return None;
            },
        };
        let ghost vs = values@.map_values(|x: String| x@);
        let mut i: usize = 0;
        while i < values.len()
            invariant
                i <= values@.len(),
                vs == values@.map_values(|x: String| x@),
                Some(vs) == allowed_values(*self),
                first_declared(vs, text@, 0) == first_declared(vs, text@, i as nat),
            decreases values@.len() - i,
        {
            assert(vs[i as int] == values@[i as int]@);
            if same_ignoring_case_exec(values[i].as_str(), text) {
                return Some(values[i].as_str());
            }
            i = i + 1;
        }
        None
    }

    /// Why this text is not a value this parameter takes, or `None` when it is.
    pub fn reject(&self, text: &str) -> (r: Option<String>)
        ensures
            opt_seq(r) == rejection(*self, text@),
    {
        if let Some(allowed) = self.allowed() {
            if self.declared(text).is_none() {
                let mut out = self.name.clone();
                crate::text::push_str(&mut out, " takes one of: ");
                let ghost vs = allowed@.map_values(|x: String| x@);
                let mut i: usize = 0;
                let ghost start = out@;
                while i < allowed.len()
                    invariant
                        i <= allowed@.len(),
                        vs == allowed@.map_values(|x: String| x@),
                        out@ == start + joined_with(vs.take(i as int), ", "@),
                    decreases allowed@.len() - i,
                {
                    if i > 0 {
                        crate::text::push_str(&mut out, ", ");
                    }
                    crate::text::push_str(&mut out, allowed[i].as_str());
                    proof {
                        let sub = vs.take(i + 1);
                        assert(sub.drop_last() =~= vs.take(i as int));
                        assert(sub.last() == allowed@[i as int]@);
                    }
                    i = i + 1;
                }
                assert(vs.take(i as int) =~= vs);
                crate::text::push_str(&mut out, ".");
                return Some(out);
            }
            return None;
        }
        match self.kind {
            RecipeParameterKind::Number => if is_float_text(text) {
                None
            } else {
                let mut out = self.name.clone();
                crate::text::push_str(&mut out, " takes a number, and \"");
                crate::text::push_str(&mut out, text);
                crate::text::push_str(&mut out, "\" is not one.");
                Some(out)
            },
            RecipeParameterKind::Boolean => if boolean_text(text).is_none() {
                let mut out = self.name.clone();
                crate::text::push_str(&mut out, " is a yes or a no, so pick one.");
                Some(out)
            } else {
                None
            },
            RecipeParameterKind::Text => None,
        }
    }
}

/// One event off a taught tape. `kind` decides which of the rest matter.
#[derive(Debug, Clone, PartialEq, Eq, Default)]
pub struct RecipeTapeEvent {
    pub kind: String,
    pub x: i32,
    pub y: i32,
    pub button: i32,
    pub dx: i32,
    pub dy: i32,
    pub key: String,
    pub code: String,
    pub at: i64,
}

/// Who a recipe has been shared with.
#[derive(Debug, Clone, PartialEq, Eq)]
pub struct RecipeShare {
    pub recipe_id: String,
    /// `org` or `account`.
    pub scope: String,
    pub scope_id: String,
    pub granted_by: Option<String>,
    pub granted_at_ms: i64,
    pub accepted_at_ms: Option<i64>,
    pub declined_at_ms: Option<i64>,
}

impl RecipeShare {
    /// What the person it went to has done with it: a decline outranks an accept.
    pub fn state_label(&self) -> (r: &'static str)
        ensures
            r@ == (if self.declined_at_ms is Some {
                "declined"@
            } else if self.accepted_at_ms is Some {
                "accepted"@
            } else {
                "pending"@
            }),
    {
        if self.declined_at_ms.is_some() {
            "declined"
        } else if self.accepted_at_ms.is_some() {
            "accepted"
        } else {
            "pending"
        }
    }
}

/// A bot that may run the recipe.
#[derive(Debug, Clone, PartialEq, Eq)]
pub struct RecipeGrant {
    pub recipe_id: String,
    pub coworker_id: String,
    pub granted_by: Option<String>,
    pub granted_at_ms: i64,
}

/// One of the person's own bots, as the detail lists them.
#[derive(Debug, Clone, PartialEq, Eq)]
pub struct RecipeBot {
    pub id: String,
    pub name: String,
}

/// Who a recipe goes to: the whole org, or one person by email.
#[derive(Debug, Clone, PartialEq, Eq)]
pub enum RecipeShareTarget {
    Org,
    Account { email: String },
}

/// Where a skill's prose came from; a word this client has no name for
/// reads as written by hand.
#[derive(Debug, Clone, Copy, PartialEq, Eq, Structural, Default)]
pub enum SkillSource {
    Uploaded,
    Taught,
    #[default]
    Authored,
}

/// The word the server sends and takes for where a skill came from.
pub open spec fn source_word(source: SkillSource) -> Seq<char> {
    match source {
        SkillSource::Authored => "authored"@,
        SkillSource::Uploaded => "uploaded"@,
        SkillSource::Taught => "taught"@,
    }
}

impl SkillSource {
    /// The word the server sends and takes.
    pub fn word(self) -> (r: &'static str)
        ensures
            r@ == source_word(self),
    {
        match self {
            SkillSource::Authored => "authored",
            SkillSource::Uploaded => "uploaded",
            SkillSource::Taught => "taught",
        }
    }

    /// What the row's chip says; a skill written here wears none.
    pub fn chip(self) -> (r: Option<&'static str>)
        ensures
            match self {
                SkillSource::Authored => r is None,
                SkillSource::Uploaded => r matches Some(c) && c@ == "Uploaded"@,
                SkillSource::Taught => r matches Some(c) && c@ == "Taught"@,
            },
    {
        match self {
            SkillSource::Authored => None,
            SkillSource::Uploaded => Some("Uploaded"),
            SkillSource::Taught => Some("Taught"),
        }
    }
}

/// One supporting file beside a skill's `SKILL.md`; `bytes` is base64.
#[derive(Debug, Clone, PartialEq, Eq)]
pub struct SkillFile {
    pub path: String,
    pub bytes: String,
}

/// One row of the Skills list.
#[derive(Debug, Clone, PartialEq, Eq)]
pub struct SkillSummary {
    pub id: String,
    pub name: String,
    pub description: String,
    pub source: SkillSource,
    pub updated_at_ms: i64,
    pub version_count: u32,
    /// Named and kept, with no prose in it yet.
    pub draft: bool,
    /// Off means nobody in the org sees it and nothing may run it.
    pub enabled: bool,
    /// When the owner first switched it on; `None` while nobody has.
    pub approved_at_ms: Option<i64>,
}

/// Everything the detail pane shows about one skill.
#[derive(Debug, Clone, PartialEq, Eq)]
pub struct SkillDetail {
    pub skill: SkillSummary,
    /// The `SKILL.md` with its frontmatter taken off.
    pub body: String,
    /// Which version that prose is; `0` is a draft.
    pub version: u32,
    pub files: Vec<SkillFile>,
}

/// What a new skill is made of.
#[derive(Debug, Clone, Default, PartialEq, Eq)]
pub struct NewSkill {
    pub name: String,
    pub description: String,
    pub body: String,
    pub source: SkillSource,
    pub files: Vec<SkillFile>,
}

/// What a `PUT /skills/{id}` changes; a field left `None` is left alone.
#[derive(Debug, Clone, Default, PartialEq, Eq)]
pub struct SkillPatch {
    pub name: Option<String>,
    pub description: Option<String>,
    pub enabled: Option<bool>,
}

/// One version of a skill.
#[derive(Debug, Clone, PartialEq, Eq)]
pub struct SkillVersion {
    pub version: u32,
    pub kind: SkillSource,
    pub created_at_ms: i64,
    pub note: String,
}

/// How long writing a skill from a tape is given, in seconds: longer than
/// the server's own 60-second bound on the model it waits for.
pub const SKILL_FROM_TAPE_TIMEOUT_SECS: u64 = 90;

/// [`SKILL_FROM_TAPE_TIMEOUT_SECS`] as a duration.
pub fn skill_from_tape_timeout() -> (d: Duration)
    ensures
        d == duration_of_secs(SKILL_FROM_TAPE_TIMEOUT_SECS),
        secs_of(d) == SKILL_FROM_TAPE_TIMEOUT_SECS,
{
    duration_from_secs(SKILL_FROM_TAPE_TIMEOUT_SECS)
}

/// The most a skill's instructions may be, in characters.
pub const SKILL_BODY_CHARS: usize = 8000;

/// The most a skill's supporting files may weigh once decoded.
pub const SKILL_BUNDLE_LIMIT: usize = 256 * 1024;

/// The most supporting files a skill may have.
pub const SKILL_BUNDLE_FILES: usize = 32;

/// What a site-login save sends.
#[derive(Clone)]
pub struct SiteLoginSave<'a> {
    pub origin: &'a str,
    pub username: &'a str,
    pub label: &'a str,
    pub notes: &'a str,
    pub kind: &'a str,
    pub password: Option<&'a str>,
    pub otpauth: Option<&'a str>,
}

/// What a reveal gives back.
#[derive(Clone, PartialEq, Eq)]
pub struct RevealedSecrets {
    pub password: Option<String>,
    pub otpauth: Option<String>,
}

/// The debug line of a save: where and who, never the secrets.
pub open spec fn save_debug(origin: Seq<char>, username: Seq<char>, kind: Seq<char>) -> Seq<char> {
    "SiteLoginSave { origin: "@ + debug_text(origin) + ", username: "@ + debug_text(username)
        + ", kind: "@ + debug_text(kind) + " }"@
}

impl<'a> SiteLoginSave<'a> {
    /// The debug line: origin, username and kind, and nothing of the
    /// password or the one-time code.
    pub fn debug(&self) -> (r: String)
        ensures
            r@ == save_debug(self.origin@, self.username@, self.kind@),
    {
        let mut out = owned("SiteLoginSave { origin: ");
        push_str(&mut out, debug_quoted(self.origin).as_str());
        push_str(&mut out, ", username: ");
        push_str(&mut out, debug_quoted(self.username).as_str());
        push_str(&mut out, ", kind: ");
        push_str(&mut out, debug_quoted(self.kind).as_str());
        push_str(&mut out, " }");
        out
    }
}

/// A secret's place in a debug line: whether there is one, never what.
pub open spec fn redacted(present: bool) -> Seq<char> {
    if present {
        "Some(\"<redacted>\")"@
    } else {
        "None"@
    }
}

pub open spec fn secrets_debug(password: bool, otpauth: bool) -> Seq<char> {
    "RevealedSecrets { password: "@ + redacted(password) + ", otpauth: "@ + redacted(otpauth)
        + " }"@
}

fn push_redacted(out: &mut String, present: bool)
    ensures
        final(out)@ == old(out)@ + redacted(present),
{
    if present {
        push_str(out, "Some(\"<redacted>\")");
    } else {
        push_str(out, "None");
    }
}

impl RevealedSecrets {
    /// The debug line, with each secret shown only as there or not.
    pub fn debug(&self) -> (r: String)
        ensures
            r@ == secrets_debug(self.password is Some, self.otpauth is Some),
    {
        let mut out = owned("RevealedSecrets { password: ");
        push_redacted(&mut out, self.password.is_some());
        push_str(&mut out, ", otpauth: ");
        push_redacted(&mut out, self.otpauth.is_some());
        push_str(&mut out, " }");
        out
    }
}

/// Two saves to the same place for the same person debug alike, whatever
/// their secrets: the line never carries a password or a code.
pub proof fn lemma_save_debug_hides_secrets(a: SiteLoginSave, b: SiteLoginSave)
    requires
        a.origin@ == b.origin@,
        a.username@ == b.username@,
        a.kind@ == b.kind@,
    ensures
        save_debug(a.origin@, a.username@, a.kind@) == save_debug(b.origin@, b.username@, b.kind@),
{
}

/// Revealed secrets debug alike whenever the same ones are present: the line
/// shows that a secret came back, never what it is.
pub proof fn lemma_secrets_debug_hides_values(a: RevealedSecrets, b: RevealedSecrets)
    requires
        (a.password is Some) == (b.password is Some),
        (a.otpauth is Some) == (b.otpauth is Some),
    ensures
        secrets_debug(a.password is Some, a.otpauth is Some) == secrets_debug(
            b.password is Some,
            b.otpauth is Some,
        ),
{
}

/// One saved site login as the server lists it. Never the password.
#[derive(Debug, Clone, PartialEq, Eq)]
pub struct RemoteSiteLogin {
    pub id: String,
    pub origin: String,
    pub username: String,
    pub label: String,
    /// `password`, `code` or `passkey`.
    pub kind: String,
    pub notes: String,
    pub last_used_at_ms: Option<i64>,
    pub updated_at_ms: i64,
}

/// What `PATCH /site-logins/{id}` may change.
#[derive(Debug, Clone, Default, PartialEq, Eq)]
pub struct SiteLoginUpdate {
    pub label: Option<String>,
    pub notes: Option<String>,
}


/// A parameter's value as it travels to the server.
#[derive(Debug, PartialEq, Eq)]
pub enum RecipeValue {
    /// A whole number.
    Whole(i64),
    /// A number with a fraction or an exponent, in the words that spell it.
    Decimal(String),
    /// A yes or a no.
    Flag(bool),
    /// Anything else, as written.
    Words(String),
}

pub enum RecipeValueV {
    Whole(int),
    Decimal(Seq<char>),
    Flag(bool),
    Words(Seq<char>),
}

impl View for RecipeValue {
    type V = RecipeValueV;

    open spec fn view(&self) -> RecipeValueV {
        match self {
            RecipeValue::Whole(n) => RecipeValueV::Whole(*n as int),
            RecipeValue::Decimal(t) => RecipeValueV::Decimal(t@),
            RecipeValue::Flag(b) => RecipeValueV::Flag(*b),
            RecipeValue::Words(t) => RecipeValueV::Words(t@),
        }
    }
}

/// A declared `number` travels as a number and a `boolean` as a boolean,
/// in the declaration's spelling when the text names a declared value; what
/// does not read as its kind travels as the words.
pub open spec fn encoded(p: RecipeParameter, text: Seq<char>) -> RecipeValueV {
    let t = or_else(declared_value(p, text), text);
    match p.kind {
        RecipeParameterKind::Number => match whole_i64(t) {
            Some(n) => RecipeValueV::Whole(n as int),
            None => if float_text(t) {
                RecipeValueV::Decimal(t)
            } else {
                RecipeValueV::Words(t)
            },
        },
        RecipeParameterKind::Boolean => match boolean_of(t) {
            Some(b) => RecipeValueV::Flag(b),
            None => RecipeValueV::Words(t),
        },
        RecipeParameterKind::Text => RecipeValueV::Words(t),
    }
}

impl RecipeParameter {
    /// The value as it travels to the server, so `recipeValues` carries what
    /// the declaration asked for rather than the words that stood for it.
    pub fn encode(&self, text: &str) -> (r: RecipeValue)
        ensures
            r@ == encoded(*self, text@),
    {
        let t: &str = match self.declared(text) {
            Some(d) => d,
            None => text,
        };
        match self.kind {
            RecipeParameterKind::Number => match parse_whole(t) {
                Some(n) => RecipeValue::Whole(n),
                None => if is_float_text(t) {
                    RecipeValue::Decimal(owned(t))
                } else {
                    RecipeValue::Words(owned(t))
                },
            },
            RecipeParameterKind::Boolean => match boolean_text(t) {
                Some(b) => RecipeValue::Flag(b),
                None => RecipeValue::Words(owned(t)),
            },
            RecipeParameterKind::Text => RecipeValue::Words(owned(t)),
        }
    }
}

/// A value the composer accepts travels as the kind the parameter declares:
/// an accepted number is sent as a number and an accepted yes or no as a
/// boolean, never as the words.
pub proof fn lemma_accepted_value_travels_as_its_kind(p: RecipeParameter, text: Seq<char>)
    requires
        allowed_values(p) is None,
        rejection(p, text) is None,
    ensures
        p.kind == RecipeParameterKind::Number ==> !(encoded(p, text) is Words),
        p.kind == RecipeParameterKind::Boolean ==> encoded(p, text) is Flag,
        p.kind == RecipeParameterKind::Text ==> encoded(p, text) == RecipeValueV::Words(text),
{
}

/// The recipe a turn runs, and what its parameters were filled in with. It
/// travels in `forwardedProps` beside the coworker, never in the message.
#[derive(Debug, Default)]
pub struct TurnRecipe {
    pub id: String,
    pub values: Vec<(String, Json)>,
}

/// What a raw version carries under `events`: how many events were taped,
/// or the tape itself; any other shape is kept as it came.
#[derive(Debug)]
pub enum RecipeTape {
    Count(u64),
    Events(Vec<RecipeTapeEvent>),
    Other(Json),
}

pub open spec fn tape_count(t: RecipeTape) -> u64 {
    match t {
        RecipeTape::Count(c) => c,
        RecipeTape::Events(e) => e@.len() as u64,
        RecipeTape::Other(_) => 0,
    }
}

impl RecipeTape {
    /// How many events were taped, whether the tape came with them or only
    /// with its size.
    pub fn count(&self) -> (r: u64)
        ensures
            r == tape_count(*self),
    {
        match self {
            RecipeTape::Count(c) => *c,
            RecipeTape::Events(e) => e.len() as u64,
            RecipeTape::Other(_) => 0,
        }
    }

    pub fn events(&self) -> (r: Option<&[RecipeTapeEvent]>)
        ensures
            match *self {
                RecipeTape::Events(e) => r is Some && r->0@ == e@,
                _ => r is None,
            },
    {
        match self {
            RecipeTape::Events(e) => Some(e.as_slice()),
            _ => None,
        }
    }
}

/// One thing a bot does when a recipe runs, on the recipe's 1280×800 screen.
#[derive(Debug)]
pub enum RecipeStep {
    /// `button` is the server's word or number for it, kept as sent.
    Click { x: i64, y: i64, button: Option<Json> },
    DoubleClick { x: i64, y: i64 },
    Drag { x1: i64, y1: i64, x2: i64, y2: i64 },
    Type { text: String },
    Key { key: String },
    Scroll { x: i64, y: i64, dx: i64, dy: i64 },
    Wait { ms: u64 },
}

pub open spec fn point_text(x: i64, y: i64) -> Seq<char> {
    "("@ + signed_decimal(x as int) + ", "@ + signed_decimal(y as int) + ")"@
}

/// The button a click names when it is not the left one, the button a
/// click means.
pub open spec fn other_button(b: Option<JsonV>) -> Option<Seq<char>> {
    match b {
        Some(JsonV::Str(name)) => if name != "left"@ {
            Some(name)
        } else {
            None
        },
        Some(JsonV::Number { signed, text, .. }) => if signed != Some(0i64) {
            Some(text)
        } else {
            None
        },
        _ => None,
    }
}

/// The step as one readable line: `click (412, 88)`, `type "example.com"`,
/// `wait 500 ms`.
pub open spec fn step_text(step: RecipeStep) -> Seq<char> {
    match step {
        RecipeStep::Click { x, y, button } => match other_button(opt_json(button)) {
            Some(b) => "click "@ + point_text(x, y) + " button "@ + b,
            None => "click "@ + point_text(x, y),
        },
        RecipeStep::DoubleClick { x, y } => "double-click "@ + point_text(x, y),
        RecipeStep::Drag { x1, y1, x2, y2 } => "drag "@ + point_text(x1, y1) + " to "@ + point_text(
            x2,
            y2,
        ),
        RecipeStep::Type { text } => "type "@ + debug_text(text@),
        RecipeStep::Key { key } => "key "@ + key@,
        RecipeStep::Scroll { x, y, dx, dy } => "scroll "@ + point_text(x, y) + " by "@ + point_text(
            dx,
            dy,
        ),
        RecipeStep::Wait { ms } => "wait "@ + decimal(ms as nat) + " ms"@,
    }
}

fn push_point(out: &mut String, x: i64, y: i64)
    ensures
        final(out)@ == old(out)@ + point_text(x, y),
{
    push_str(out, "(");
    push_signed_decimal(out, x);
    push_str(out, ", ");
    push_signed_decimal(out, y);
    push_str(out, ")");
    assert(final(out)@ =~= old(out)@ + point_text(x, y));
}

impl RecipeStep {
    pub fn describe(&self) -> (r: String)
        ensures
            r@ == step_text(*self),
    {
        match self {
            RecipeStep::Click { x, y, button } => {
                let other: Option<String> = match button {
                    Some(Json::Str(name)) => if !same(name.as_str(), "left") {
                        Some(owned(name.as_str()))
                    } else {
                        None
                    },
                    Some(Json::Number(n)) => {
                        let zero = match n.signed {
                            Some(v) => v == 0,
                            None => false,
                        };
                        if !zero {
                            Some(owned(n.text.as_str()))
                        } else {
                            None
                        }
                    },
                    _ => None,
                };
                let mut out = owned("click ");
                push_point(&mut out, *x, *y);
                if let Some(b) = other {
                    push_str(&mut out, " button ");
                    push_str(&mut out, b.as_str());
                }
                out
            },
            RecipeStep::DoubleClick { x, y } => {
                let mut out = owned("double-click ");
                push_point(&mut out, *x, *y);
                out
            },
            RecipeStep::Drag { x1, y1, x2, y2 } => {
                let mut out = owned("drag ");
                push_point(&mut out, *x1, *y1);
                push_str(&mut out, " to ");
                push_point(&mut out, *x2, *y2);
                out
            },
            RecipeStep::Type { text } => {
                let mut out = owned("type ");
                let q = debug_quoted(text.as_str());
                push_str(&mut out, q.as_str());
                out
            },
            RecipeStep::Key { key } => {
                let mut out = owned("key ");
                push_str(&mut out, key.as_str());
                out
            },
            RecipeStep::Scroll { x, y, dx, dy } => {
                let mut out = owned("scroll ");
                push_point(&mut out, *x, *y);
                push_str(&mut out, " by ");
                push_point(&mut out, *dx, *dy);
                out
            },
            RecipeStep::Wait { ms } => {
                let mut out = owned("wait ");
                push_decimal(&mut out, *ms);
                push_str(&mut out, " ms");
                out
            },
        }
    }
}

/// A version's body: the tape for v1, the steps for every version after it.
#[derive(Debug, Default)]
pub struct RecipeVersionBody {
    pub events: Option<RecipeTape>,
    /// The tape itself, cut at a cap with `truncated` saying so.
    pub tape: Vec<RecipeTapeEvent>,
    pub truncated: bool,
    pub steps: Vec<RecipeStep>,
    /// The declaration, when the server writes it inside the body.
    pub parameters: Vec<RecipeParameter>,
    pub stop_on_error: Option<bool>,
    pub screenshot: Option<Json>,
}

/// One version of a recipe: the tape (v1), the steps the server filtered
/// from it (v2), or steps a person edited.
#[derive(Debug)]
pub struct RecipeVersion {
    pub version: u32,
    /// `raw`, `filtered` or `edited`.
    pub kind: String,
    pub note: Option<String>,
    pub created_by: Option<String>,
    pub created_at_ms: i64,
    pub parameters: Vec<RecipeParameter>,
    pub body: RecipeVersionBody,
}

impl RecipeVersion {
    /// The tape is kept, not run; every other kind carries steps.
    pub fn is_runnable(&self) -> (r: bool)
        ensures
            r == (self.kind@ != "raw"@),
    {
        !same(self.kind.as_str(), "raw")
    }

    /// What this version declares it needs told, beside its fields or in
    /// its body, whichever the server wrote.
    pub fn declared(&self) -> (r: &[RecipeParameter])
        ensures
            r@ == (if self.parameters@.len() > 0 {
                self.parameters@
            } else {
                self.body.parameters@
            }),
    {
        if self.parameters.len() > 0 {
            self.parameters.as_slice()
        } else {
            self.body.parameters.as_slice()
        }
    }

    /// A version someone wrote by editing; a server that names no kind still
    /// numbers them, so past the second a runnable version counts.
    pub fn is_edited(&self) -> (r: bool)
        ensures
            r == (self.kind@ == "edited"@ || (self.version > 2 && self.kind@ != "raw"@)),
    {
        same(self.kind.as_str(), "edited") || (self.version > 2 && self.is_runnable())
    }

    /// How many tape events a raw version holds.
    pub fn event_count(&self) -> (r: u64)
        ensures
            r == (match self.body.events {
                Some(t) => tape_count(t),
                None => 0,
            }),
    {
        match &self.body.events {
            Some(t) => t.count(),
            None => 0,
        }
    }

    /// The tape, when the server sent it rather than only its size: under
    /// `tape`, or under `events`.
    pub fn tape_events(&self) -> (r: Option<&[RecipeTapeEvent]>)
        ensures
            self.body.tape@.len() > 0 ==> r is Some && r->0@ == self.body.tape@,
            self.body.tape@.len() == 0 ==> match self.body.events {
                Some(RecipeTape::Events(e)) => r is Some && r->0@ == e@,
                _ => r is None,
            },
    {
        if self.body.tape.len() > 0 {
            return Some(self.body.tape.as_slice());
        }
        match &self.body.events {
            Some(t) => t.events(),
            None => None,
        }
    }

    /// Whether the tape that arrived is only the front of a longer one.
    pub fn tape_truncated(&self) -> (r: bool)
        ensures
            r == self.body.truncated,
    {
        self.body.truncated
    }
}

/// One past run of a recipe.
#[derive(Debug)]
pub struct RecipeRun {
    pub id: String,
    pub recipe_id: String,
    pub version: u32,
    pub coworker_id: String,
    pub ok: bool,
    /// The step the run stopped at, when it did not finish.
    pub stopped_at: Option<u64>,
    /// What the box said the run came to: `{ok, ran, stopped_at, steps}`.
    pub receipt: Json,
    pub at_ms: i64,
}

/// A step's error, when it says something.
pub open spec fn step_error(step: JsonV) -> Option<Seq<char>> {
    match str_at(step, "error"@) {
        Some(e) => if trim(e).len() > 0 {
            Some(e)
        } else {
            None
        },
        None => None,
    }
}

/// Every step of a receipt: whether it did what it was asked, and what went
/// wrong where it did not.
pub open spec fn receipt_rows(receipt: JsonV) -> Seq<(bool, Option<Seq<char>>)> {
    match get(receipt, "steps"@) {
        Some(JsonV::Array(steps)) => steps.map_values(
            |st: JsonV| (or_else(bool_at(st, "ok"@), false), step_error(st)),
        ),
        _ => Seq::empty(),
    }
}

pub open spec fn rows_view(rows: Seq<(bool, Option<String>)>) -> Seq<(bool, Option<Seq<char>>)> {
    rows.map_values(|row: (bool, Option<String>)| (row.0, opt_seq(row.1)))
}

/// The first step error from `i` on.
pub open spec fn first_error(rows: Seq<(bool, Option<Seq<char>>)>, i: nat) -> Option<Seq<char>>
    decreases rows.len() - i,
{
    if i >= rows.len() {
        None
    } else if rows[i as int].1 is Some {
        rows[i as int].1
    } else {
        first_error(rows, i + 1)
    }
}

/// Why a run stopped: the first step's error, else the receipt's own.
pub open spec fn run_error(receipt: JsonV) -> Option<Seq<char>> {
    match first_error(receipt_rows(receipt), 0) {
        Some(e) => Some(e),
        None => match str_at(receipt, "error"@) {
            Some(e) => if trim(e).len() > 0 {
                Some(e)
            } else {
                None
            },
            None => None,
        },
    }
}

fn error_of_step(step: &Json) -> (r: Option<String>)
    ensures
        opt_seq(r) == step_error(step@),
{
    match step.str_at("error") {
        Some(e) => if trimmed(e).as_str().unicode_len() > 0 {
            Some(owned(e))
        } else {
            None
        },
        None => None,
    }
}

impl RecipeRun {
    pub fn receipt_steps(&self) -> (r: Vec<(bool, Option<String>)>)
        ensures
            rows_view(r@) == receipt_rows(self.receipt@),
    {
        let mut out: Vec<(bool, Option<String>)> = Vec::new();
        let steps = match self.receipt.get("steps") {
            Some(s) => match s.as_array() {
                Some(a) => a,
                None => {
                    assert(rows_view(out@) =~= Seq::<(bool, Option<Seq<char>>)>::empty());
                    return out;
                },
            },
            None => {
                assert(rows_view(out@) =~= Seq::<(bool, Option<Seq<char>>)>::empty());
                return out;
            },
        };
        let ghost all = receipt_rows(self.receipt@);
        let mut i: usize = 0;
        while i < steps.len()
            invariant
                i <= steps@.len(),
                all == receipt_rows(self.receipt@),
                all.len() == steps@.len(),
                forall|k: int|
                    0 <= k < steps@.len() ==> #[trigger] all[k] == (
                        or_else(bool_at(steps@[k]@, "ok"@), false),
                        step_error(steps@[k]@),
                    ),
                rows_view(out@) == all.take(i as int),
            decreases steps@.len() - i,
        {
            let ok = match steps[i].bool_at("ok") {
                Some(b) => b,
                None => false,
            };
            let error = error_of_step(&steps[i]);
            let ghost before = rows_view(out@);
            out.push((ok, error));
            assert(rows_view(out@) =~= all.take(i + 1)) by {
                assert(all.take(i + 1) =~= before.push(all[i as int]));
            }
            i = i + 1;
        }
        assert(all.take(i as int) =~= all);
        out
    }

    /// Why the run stopped, in the box's own words.
    pub fn error(&self) -> (r: Option<String>)
        ensures
            opt_seq(r) == run_error(self.receipt@),
    {
        let rows = self.receipt_steps();
        let ghost rv = rows_view(rows@);
        let mut i: usize = 0;
        while i < rows.len()
            invariant
                i <= rows@.len(),
                rv == rows_view(rows@),
                rv == receipt_rows(self.receipt@),
                first_error(rv, 0) == first_error(rv, i as nat),
            decreases rows@.len() - i,
        {
            assert(rv[i as int] == (rows@[i as int].0, opt_seq(rows@[i as int].1)));
            if let Some(e) = &rows[i].1 {
                return Some(owned(e.as_str()));
            }
            i = i + 1;
        }
        match self.receipt.str_at("error") {
            Some(e) => if trimmed(e).as_str().unicode_len() > 0 {
                Some(owned(e))
            } else {
                None
            },
            None => None,
        }
    }
}

/// Everything the detail view shows about one recipe.
#[derive(Debug)]
pub struct RecipeDetail {
    pub recipe: RecipeSummary,
    pub versions: Vec<RecipeVersion>,
    pub shares: Vec<RecipeShare>,
    pub grants: Vec<RecipeGrant>,
    pub runs: Vec<RecipeRun>,
    pub my_bots: Vec<RecipeBot>,
}

/// Each version's number, and whether it runs.
pub open spec fn version_keys(vs: Seq<RecipeVersion>) -> Seq<(u32, bool)> {
    vs.map_values(|v: RecipeVersion| (v.version, v.kind@ != "raw"@))
}

/// Among the first `n` versions, the runnable one with the highest number;
/// of equal numbers, the later.
pub open spec fn newest_runnable(vs: Seq<(u32, bool)>, n: nat) -> Option<nat>
    decreases n,
{
    if n == 0 {
        None
    } else {
        let best = newest_runnable(vs, (n - 1) as nat);
        let i = (n - 1) as nat;
        if !vs[i as int].1 {
            best
        } else {
            match best {
                None => Some(i),
                Some(b) => if vs[i as int].0 >= vs[b as int].0 {
                    Some(i)
                } else {
                    Some(b)
                },
            }
        }
    }
}

proof fn lemma_newest_runnable_bounds(vs: Seq<(u32, bool)>, n: nat)
    ensures
        newest_runnable(vs, n) matches Some(b) ==> b < n,
    decreases n,
{
    if n > 0 {
        lemma_newest_runnable_bounds(vs, (n - 1) as nat);
    }
}

/// The bot's place among the person's bots, the first with this id.
pub open spec fn first_bot(bots: Seq<RecipeBot>, id: Seq<char>, i: nat) -> Option<nat>
    decreases bots.len() - i,
{
    if i >= bots.len() {
        None
    } else if bots[i as int].id@ == id {
        Some(i)
    } else {
        first_bot(bots, id, i + 1)
    }
}

/// The bot's name, trimmed, or its id when it is not one of the person's or
/// its name is blank.
pub open spec fn bot_name_of(bots: Seq<RecipeBot>, id: Seq<char>) -> Seq<char> {
    match first_bot(bots, id, 0) {
        Some(k) => if trim(bots[k as int].name@).len() > 0 {
            trim(bots[k as int].name@)
        } else {
            id
        },
        None => id,
    }
}

impl RecipeDetail {
    /// The version a run plays: the newest one with steps.
    pub fn runnable_version(&self) -> (r: Option<&RecipeVersion>)
        ensures
            match newest_runnable(version_keys(self.versions@), self.versions@.len()) {
                Some(i) => r is Some && *r->0 == self.versions@[i as int],
                None => r is None,
            },
    {
        let ghost keys = version_keys(self.versions@);
        let mut best: Option<usize> = None;
        let mut i: usize = 0;
        while i < self.versions.len()
            invariant
                i <= self.versions@.len(),
                keys == version_keys(self.versions@),
                match best {
                    Some(b) => newest_runnable(keys, i as nat) == Some(b as nat),
                    None => newest_runnable(keys, i as nat) is None,
                },
            decreases self.versions@.len() - i,
        {
            proof {
                lemma_newest_runnable_bounds(keys, i as nat);
            }
            assert(keys[i as int] == (
                self.versions@[i as int].version,
                self.versions@[i as int].kind@ != "raw"@,
            ));
            if self.versions[i].is_runnable() {
                match best {
                    None => {
                        best = Some(i);
                    },
                    Some(b) => {
                        assert(keys[b as int].0 == self.versions@[b as int].version);
                        if self.versions[i].version >= self.versions[b].version {
                            best = Some(i);
                        }
                    },
                }
            }
            i = i + 1;
        }
        match best {
            Some(b) => {
                proof {
                    lemma_newest_runnable_bounds(keys, i as nat);
                }
                Some(&self.versions[b])
            },
            None => None,
        }
    }

    /// One of the recipe's grants is to this bot.
    pub fn is_granted(&self, coworker_id: &str) -> (r: bool)
        ensures
            r == exists|i: int|
                0 <= i < self.grants@.len() && #[trigger] self.grants@[i].coworker_id@
                    == coworker_id@,
    {
        let mut i: usize = 0;
        while i < self.grants.len()
            invariant
                i <= self.grants@.len(),
                forall|k: int| 0 <= k < i ==> self.grants@[k].coworker_id@ != coworker_id@,
            decreases self.grants@.len() - i,
        {
            if same(self.grants[i].coworker_id.as_str(), coworker_id) {
                return true;
            }
            i = i + 1;
        }
        false
    }

    /// The bot's name, or its id when it is not one of the person's.
    pub fn bot_name(&self, coworker_id: &str) -> (r: String)
        ensures
            r@ == bot_name_of(self.my_bots@, coworker_id@),
    {
        let mut i: usize = 0;
        while i < self.my_bots.len()
            invariant
                i <= self.my_bots@.len(),
                first_bot(self.my_bots@, coworker_id@, 0) == first_bot(
                    self.my_bots@,
                    coworker_id@,
                    i as nat,
                ),
            decreases self.my_bots@.len() - i,
        {
            if same(self.my_bots[i].id.as_str(), coworker_id) {
                let name = trimmed(self.my_bots[i].name.as_str());
                if name.as_str().unicode_len() > 0 {
                    return name;
                }
                return owned(coworker_id);
            }
            i = i + 1;
        }
        owned(coworker_id)
    }
}

/// What `POST /recipes/{id}/run` came back with.
#[derive(Debug)]
pub struct RecipeRunResult {
    pub version: u32,
    pub ok: bool,
    /// How many steps ran: a count, or the steps themselves.
    pub ran: Option<Json>,
    pub stopped_at: Option<u64>,
    pub error: Option<String>,
    /// The screen after the run, `{mime, base64, width, height}`.
    pub image: Option<Json>,
}

impl RecipeRunResult {
    pub fn ran_count(&self) -> (r: Option<u64>)
        ensures
            r == (match opt_json(self.ran) {
                Some(JsonV::Number { unsigned, .. }) => unsigned,
                Some(JsonV::Array(items)) => Some(items.len() as u64),
                _ => None,
            }),
    {
        match &self.ran {
            Some(Json::Number(n)) => n.unsigned,
            Some(Json::Array(items)) => Some(items.len() as u64),
            _ => None,
        }
    }
}

/// A suspended run waiting on a permission card.
#[derive(Debug)]
pub struct QueuedApproval {
    pub run_id: String,
    pub thread_id: String,
    pub call_id: String,
    pub tool: String,
    pub arguments: Json,
    /// Why the run stopped, in the server's word for it.
    pub reason: Option<String>,
    /// The sentence the card puts under the command.
    pub why: Option<String>,
}

/// Where in the queue the last card of this conversation is, given the
/// conversation each card's thread belongs to.
pub open spec fn latest_index(conversations: Seq<Seq<char>>, conversation_id: Seq<char>) -> Option<int>
    decreases conversations.len(),
{
    if conversations.len() == 0 {
        None
    } else if conversations.last() == conversation_id {
        Some(conversations.len() - 1)
    } else {
        latest_index(conversations.drop_last(), conversation_id)
    }
}

pub open spec fn strings_view(v: Seq<String>) -> Seq<Seq<char>> {
    v.map_values(|s: String| s@)
}

impl QueuedApproval {
    /// One suspended run at a time in the transcript: the last card queued
    /// for this conversation. `conversations[i]` is the conversation the
    /// thread of `queue[i]` belongs to; a card filed under another thread of
    /// the same conversation is still that conversation's card.
    pub fn latest_for_conversation<'a>(
        queue: &'a [QueuedApproval],
        conversations: &[String],
        conversation_id: &str,
    ) -> (r: Option<&'a QueuedApproval>)
        requires
            conversations@.len() == queue@.len(),
        ensures
            r == match latest_index(strings_view(conversations@), conversation_id@) {
                Some(i) => Some(&queue@[i]),
                None => None,
            },
    {
        let ghost all = strings_view(conversations@);
        let mut n: usize = conversations.len();
        assert(all.take(n as int) =~= all);
        while n > 0
            invariant
                n <= conversations@.len(),
                conversations@.len() == queue@.len(),
                all == strings_view(conversations@),
                latest_index(all, conversation_id@) == latest_index(all.take(n as int), conversation_id@),
            decreases n,
        {
            let i = n - 1;
            assert(all.take(n as int).last() == conversations@[i as int]@);
            if same(conversations[i].as_str(), conversation_id) {
                return Some(&queue[i]);
            }
            assert(all.take(n as int).drop_last() =~= all.take(i as int));
            n = i;
        }
        None
    }
}

/// One run as the server replays it.
#[derive(Debug)]
pub struct RunReplay {
    pub run_id: String,
    pub status: String,
    pub started_at_ms: i64,
    pub failure: Option<String>,
    pub events: Vec<Json>,
    pub pending: Option<Json>,
}

/// One turn of a thread, as the server kept it.
#[derive(Debug)]
pub struct ThreadRun {
    pub run_id: String,
    pub status: String,
    pub started_at_ms: i64,
    pub updated_at_ms: i64,
    pub failure: Option<String>,
    pub events: Vec<Json>,
}

impl ThreadRun {
    /// The run has not ended: it is still working, or parked on a card.
    pub fn is_live(&self) -> (r: bool)
        ensures
            r == (self.status@ == "running"@ || self.status@ == "awaiting-approval"@),
    {
        same(self.status.as_str(), "running") || same(self.status.as_str(), "awaiting-approval")
    }
}

/// A thread's runs, oldest first, and the runs this account hid.
#[derive(Debug, Default)]
pub struct ThreadReplay {
    pub thread_id: String,
    pub runs: Vec<ThreadRun>,
    pub hidden_run_ids: Vec<String>,
}

/// Whether the environment turns the egress tunnel on: either of its two
/// variables set to exactly `1` (not `true`).
pub fn egress_tunnel_env_flag(og: Option<&str>, sand: Option<&str>) -> (r: bool)
    ensures
        r == (str_opt(og) == Some("1"@) || str_opt(sand) == Some("1"@)),
{
    proof {
        reveal_strlit("1");
    }
    let a = match og {
        Some(v) => same(v, "1"),
        None => false,
    };
    let b = match sand {
        Some(v) => same(v, "1"),
        None => false,
    };
    a || b
}

/// `egressTunnelAvailable` on the host-settings record, when the host sent it.
pub fn host_egress_tunnel_available(settings: &Json) -> (r: Option<bool>)
    ensures
        r == bool_at(settings@, "egressTunnelAvailable"@),
{
    settings.bool_at("egressTunnelAvailable")
}

/// `egressTunnelEnabled` on the host-settings record, when the host sent it;
/// a missing key must not overwrite the app's own default.
pub fn host_egress_tunnel_flag(settings: &Json) -> (r: Option<bool>)
    ensures
        r == bool_at(settings@, "egressTunnelEnabled"@),
{
    settings.bool_at("egressTunnelEnabled")
}

/// The host means the tunnel to be on.
pub fn host_egress_tunnel_enabled(settings: &Json) -> (r: bool)
    ensures
        r == (bool_at(settings@, "egressTunnelEnabled"@) == Some(true)),
{
    match host_egress_tunnel_flag(settings) {
        Some(b) => b,
        None => false,
    }
}

/// `/ag-ui/host-settings`, with the coworker whose box the egress question
/// is about.
pub open spec fn host_settings_path_of(coworker: Option<Seq<char>>) -> Seq<char> {
    match coworker {
        Some(id) if id.len() > 0 => "/ag-ui/host-settings?coworker="@ + id,
        _ => "/ag-ui/host-settings"@,
    }
}

pub fn host_settings_path(coworker: Option<&str>) -> (r: String)
    ensures
        r@ == host_settings_path_of(
            match coworker {
                Some(c) => Some(c@),
                None => None,
            },
        ),
{
    match coworker {
        Some(id) => if id.unicode_len() > 0 {
            let mut out = owned("/ag-ui/host-settings?coworker=");
            push_str(&mut out, id);
            out
        } else {
            owned("/ag-ui/host-settings")
        },
        None => owned("/ag-ui/host-settings"),
    }
}

} // verus!
