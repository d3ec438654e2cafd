//! Per-turn wall clock from the OpenGrok harness, when the server sends it,
//! and the clock words the app paints: `12s`, `6m12s`, `1h2m`.

use vstd::prelude::*;

use crate::clock::{
    duration_from_millis, duration_millis, duration_secs, elapsed_between, elapsed_of, millis_of,
    secs_of,
};
use crate::json::{get, parsed_json, str_at, Json, JsonV};
use crate::text::{decimal, either, or_else, owned, push_decimal, push_str, same};
use std::time::{Duration, SystemTime};

verus! {

/// The CUSTOM `name` the harness is asked to use.
pub const RUN_TIMING_CUSTOM: &'static str = "run-timing";

/// Its alias.
pub const TURN_TIMELINE_CUSTOM: &'static str = "turn-timeline";

/// The schema version this client writes and prefers to read.
pub const TIMING_SCHEMA_V: u32 = 1;

/// Longer than any turn a person waits on, in milliseconds.
pub const LONGEST_TURN_MS: u64 = 30 * 24 * 60 * 60 * 1000;

/// One tool's wall clock inside a turn.
#[derive(Debug, Clone, PartialEq, Eq)]
pub struct ToolTiming {
    pub name: String,
    pub ms: u64,
}

/// One model round's wall clock.
#[derive(Debug, Clone, PartialEq, Eq)]
pub struct RoundTiming {
    pub model_ms: u64,
}

/// The phases of one run, as the harness measured them.
#[derive(Debug, Clone, PartialEq, Eq)]
pub struct TurnTiming {
    pub v: u32,
    pub total_ms: Option<u64>,
    pub model_ms: Option<u64>,
    pub auto_review_ms: Option<u64>,
    /// Wall clock of the tool batches, which run side by side.
    pub tool_wait_ms: Option<u64>,
    pub tool_rounds: Option<u32>,
    pub rounds: Vec<RoundTiming>,
    pub tools: Vec<ToolTiming>,
}

pub fn is_timing_name(name: &str) -> (r: bool)
    ensures
        r == (name@ == RUN_TIMING_CUSTOM@ || name@ == TURN_TIMELINE_CUSTOM@),
{
    same(name, RUN_TIMING_CUSTOM) || same(name, TURN_TIMELINE_CUSTOM)
}

/// A timing frame: named so, and a CUSTOM (in either case) or of no type.
pub open spec fn timing_event(event: JsonV) -> bool {
    let name = or_else(str_at(event, "name"@), Seq::empty());
    (name == RUN_TIMING_CUSTOM@ || name == TURN_TIMELINE_CUSTOM@) && match str_at(event, "type"@) {
        Some(t) => t == "CUSTOM"@ || t == "custom"@,
        None => true,
    }
}

pub fn is_timing_event(event: &Json) -> (r: bool)
    ensures
        r == timing_event(event@),
{
    proof {
        reveal_strlit("");
    }
    let name: &str = match event.str_at("name") {
        Some(n) => n,
        None => "",
    };
    assert(name@ =~= or_else(str_at(event@, "name"@), Seq::empty()));
    if !is_timing_name(name) {
        return false;
    }
    match event.str_at("type") {
        Some(t) => same(t, "CUSTOM") || same(t, "custom"),
        None => true,
    }
}

/// Compact wall clock from whole milliseconds and whole seconds:
/// milliseconds under a second, then seconds, minutes and seconds, hours
/// and minutes, a zero tail left off.
pub open spec fn clock_text(ms: nat, secs: nat) -> Seq<char> {
    if ms < 1000 {
        decimal(ms) + "ms"@
    } else if secs < 60 {
        decimal(secs) + "s"@
    } else if secs < 3600 {
        if secs % 60 == 0 {
            decimal(secs / 60) + "m"@
        } else {
            decimal(secs / 60) + "m"@ + decimal(secs % 60) + "s"@
        }
    } else {
        if (secs % 3600) / 60 == 0 {
            decimal(secs / 3600) + "h"@
        } else {
            decimal(secs / 3600) + "h"@ + decimal((secs % 3600) / 60) + "m"@
        }
    }
}

/// The clock words for a number of milliseconds.
pub open spec fn ms_text(ms: u64) -> Seq<char> {
    clock_text(ms as nat, (ms / 1000) as nat)
}

pub fn format_duration(d: Duration) -> (r: String)
    ensures
        r@ == clock_text(millis_of(d) as nat, secs_of(d) as nat),
{
    let ms = duration_millis(d);
    let mut out = String::new();
    if ms < 1000 {
        push_decimal(&mut out, ms as u64);
        push_str(&mut out, "ms");
        return out;
    }
    let secs = duration_secs(d);
    if secs < 60 {
        push_decimal(&mut out, secs);
        push_str(&mut out, "s");
    } else if secs < 3600 {
        push_decimal(&mut out, secs / 60);
        push_str(&mut out, "m");
        if secs % 60 != 0 {
            push_decimal(&mut out, secs % 60);
            push_str(&mut out, "s");
        }
    } else {
        push_decimal(&mut out, secs / 3600);
        push_str(&mut out, "h");
        if (secs % 3600) / 60 != 0 {
            push_decimal(&mut out, (secs % 3600) / 60);
            push_str(&mut out, "m");
        }
    }
    out
}

pub fn format_ms(ms: u64) -> (r: String)
    ensures
        r@ == ms_text(ms),
{
    format_duration(duration_from_millis(ms))
}

/// How long a finished run took, for the peek stamp; a wait under a second
/// is left off.
pub fn stamp_duration(start: SystemTime, end: SystemTime) -> (r: Option<String>)
    ensures
        match elapsed_of(start, end) {
            None => r is None,
            Some(d) => match r {
                Some(s) => secs_of(d) >= 1 && s@ == clock_text(millis_of(d) as nat, secs_of(d) as nat),
                None => secs_of(d) < 1,
            },
        },
{
    let d = match elapsed_between(start, end) {
        Some(d) => d,
        None => {
            return None;
        },
    };
    stamp_of_elapsed(d)
}

/// The peek stamp for a run that took `d`: its clock words, unless it took
/// under a second.
pub fn stamp_of_elapsed(d: Duration) -> (r: Option<String>)
    ensures
        match r {
            Some(s) => secs_of(d) >= 1 && s@ == clock_text(millis_of(d) as nat, secs_of(d) as nat),
            None => secs_of(d) < 1,
        },
{
    if duration_secs(d) >= 1 {
        Some(format_duration(d))
    } else {
        None
    }
}

/// A phase that took time; a phase at zero is left out.
pub open spec fn spent(ms: Option<u64>) -> Option<u64> {
    match ms {
        Some(m) => if m > 0 {
            Some(m)
        } else {
            None
        },
        None => None,
    }
}

pub open spec fn first_round(t: TurnTiming) -> Option<u64> {
    if t.rounds@.len() > 0 {
        Some(t.rounds@[0].model_ms)
    } else {
        None
    }
}

pub open spec fn total_lines(t: TurnTiming) -> Seq<Seq<char>> {
    match t.total_ms {
        Some(ms) => seq![ms_text(ms) + " total"@],
        None => Seq::empty(),
    }
}

pub open spec fn round_line(i: int, ms: u64) -> Seq<char> {
    "round "@ + decimal((i + 1) as nat) + "  "@ + ms_text(ms)
}

/// The model's rounds, one line each when there were several; else the
/// model's time when it took any.
pub open spec fn model_lines(t: TurnTiming) -> Seq<Seq<char>> {
    if t.rounds@.len() > 1 {
        Seq::new(t.rounds@.len(), |i: int| round_line(i, t.rounds@[i].model_ms))
    } else {
        match either(spent(t.model_ms), spent(first_round(t))) {
            Some(ms) => seq!["model  "@ + ms_text(ms)],
            None => Seq::empty(),
        }
    }
}

pub open spec fn tool_line(tool: ToolTiming) -> Seq<char> {
    (if tool.name@.len() == 0 {
        "tool"@
    } else {
        tool.name@
    }) + "  "@ + ms_text(tool.ms)
}

pub open spec fn wait_lines(t: TurnTiming) -> Seq<Seq<char>> {
    match spent(t.tool_wait_ms) {
        Some(ms) => seq![
            "tool wait  "@ + ms_text(ms) + match t.tool_rounds {
                Some(n) => if n > 1 {
                    " over "@ + decimal(n as nat) + " rounds"@
                } else {
                    Seq::empty()
                },
                None => Seq::empty(),
            },
        ],
        None => Seq::empty(),
    }
}

pub open spec fn review_lines(t: TurnTiming) -> Seq<Seq<char>> {
    match spent(t.auto_review_ms) {
        Some(ms) => seq!["auto-review  "@ + ms_text(ms)],
        None => Seq::empty(),
    }
}

/// The lines under the bubble: the total, the model's time or its rounds,
/// each tool, the tool wait, the auto-review; a phase at zero left out.
pub open spec fn timing_lines(t: TurnTiming) -> Seq<Seq<char>> {
    total_lines(t) + model_lines(t) + t.tools@.map_values(|x: ToolTiming| tool_line(x))
        + wait_lines(t) + review_lines(t)
}

pub open spec fn strings(v: Seq<String>) -> Seq<Seq<char>> {
    v.map_values(|s: String| s@)
}

fn push_line(lines: &mut Vec<String>, line: String)
    ensures
        strings(final(lines)@) == strings(old(lines)@).push(line@),
{
    let ghost before = lines@;
    lines.push(line);
    assert(strings(lines@) =~= strings(before).push(line@));
}

fn ms_line(ms: u64, before: &str, after: &str) -> (r: String)
    ensures
        r@ == before@ + ms_text(ms) + after@,
{
    let mut out = owned(before);
    let t = format_ms(ms);
    push_str(&mut out, t.as_str());
    push_str(&mut out, after);
    out
}

fn spent_ms(ms: Option<u64>) -> (r: Option<u64>)
    ensures
        r == spent(ms),
{
    match ms {
        Some(m) => if m > 0 {
            Some(m)
        } else {
            None
        },
        None => None,
    }
}

impl TurnTiming {
    /// The lines under the bubble when Show turn timing is on.
    pub fn debug_lines(&self) -> (r: Vec<String>)
        ensures
            strings(r@) == timing_lines(*self),
    {
        let mut lines: Vec<String> = Vec::new();
        assert(strings(lines@) =~= Seq::<Seq<char>>::empty());
        if let Some(ms) = self.total_ms {
            push_line(&mut lines, ms_line(ms, "", " total"));
            assert((""@ + ms_text(ms) + " total"@) =~= (ms_text(ms) + " total"@)) by {
                reveal_strlit("");
            }
        }
        assert(strings(lines@) =~= total_lines(*self));
        let ghost after_total = strings(lines@);
        if self.rounds.len() > 1 {
            let mut i: usize = 0;
            while i < self.rounds.len()
                invariant
                    self.rounds@.len() > 1,
                    i <= self.rounds@.len(),
                    strings(lines@) == after_total + Seq::new(
                        i as nat,
                        |k: int| round_line(k, self.rounds@[k].model_ms),
                    ),
                decreases self.rounds@.len() - i,
            {
                let mut line = owned("round ");
                push_decimal(&mut line, (i as u64) + 1);
                push_str(&mut line, "  ");
                push_str(&mut line, format_ms(self.rounds[i].model_ms).as_str());
                push_line(&mut lines, line);
                i = i + 1;
                assert(strings(lines@) =~= after_total + Seq::new(
                    i as nat,
                    |k: int| round_line(k, self.rounds@[k].model_ms),
                ));
            }
            assert(Seq::new(i as nat, |k: int| round_line(k, self.rounds@[k].model_ms))
                =~= model_lines(*self));
        } else {
            let first = if self.rounds.len() > 0 {
                Some(self.rounds[0].model_ms)
            } else {
                None
            };
            let model = match spent_ms(self.model_ms) {
                Some(m) => Some(m),
                None => spent_ms(first),
            };
            if let Some(ms) = model {
                push_line(&mut lines, ms_line(ms, "model  ", ""));
                assert(("model  "@ + ms_text(ms) + ""@) =~= ("model  "@ + ms_text(ms))) by {
                    reveal_strlit("");
                }
            }
            assert(strings(lines@) =~= after_total + model_lines(*self));
        }
        let ghost after_model = strings(lines@);
        let mut j: usize = 0;
        while j < self.tools.len()
            invariant
                j <= self.tools@.len(),
                strings(lines@) == after_model + self.tools@.take(j as int).map_values(
                    |x: ToolTiming| tool_line(x),
                ),
            decreases self.tools@.len() - j,
        {
            let tool = &self.tools[j];
            let name: &str = if tool.name.as_str().unicode_len() == 0 {
                "tool"
            } else {
                tool.name.as_str()
            };
            let mut before = owned(name);
            push_str(&mut before, "  ");
            push_line(&mut lines, ms_line(tool.ms, before.as_str(), ""));
            proof {
                reveal_strlit("");
                assert(self.tools@.take(j + 1) =~= self.tools@.take(j as int).push(*tool));
            }
            j = j + 1;
            assert(strings(lines@) =~= after_model + self.tools@.take(j as int).map_values(
                |x: ToolTiming| tool_line(x),
            ));
        }
        assert(self.tools@.take(j as int) =~= self.tools@);
        let ghost after_tools = strings(lines@);
        if let Some(ms) = spent_ms(self.tool_wait_ms) {
            let over = match self.tool_rounds {
                Some(n) => if n > 1 {
                    let mut o = owned(" over ");
                    push_decimal(&mut o, n as u64);
                    push_str(&mut o, " rounds");
                    o
                } else {
                    String::new()
                },
                None => String::new(),
            };
            push_line(&mut lines, ms_line(ms, "tool wait  ", over.as_str()));
        }
        assert(strings(lines@) =~= after_tools + wait_lines(*self));
        let ghost after_wait = strings(lines@);
        if let Some(ms) = spent_ms(self.auto_review_ms) {
            push_line(&mut lines, ms_line(ms, "auto-review  ", ""));
            assert(("auto-review  "@ + ms_text(ms) + ""@) =~= ("auto-review  "@ + ms_text(ms))) by {
                reveal_strlit("");
            }
        }
        assert(strings(lines@) =~= after_wait + review_lines(*self));
        lines
    }
}

/// A millisecond count is kept only when it is no longer than any turn.
pub fn within_longest_turn(ms: u64) -> (r: Option<u64>)
    ensures
        r == (if ms <= LONGEST_TURN_MS {
            Some(ms)
        } else {
            None
        }),
{
    if ms <= LONGEST_TURN_MS {
        Some(ms)
    } else {
        None
    }
}

/// Whether a frame's readings time anything at all.
pub open spec fn times_something(
    total_ms: Option<u64>,
    model_ms: Option<u64>,
    auto_review_ms: Option<u64>,
    tool_wait_ms: Option<u64>,
    rounds: nat,
    tools: nat,
) -> bool {
    total_ms is Some || model_ms is Some || auto_review_ms is Some || tool_wait_ms is Some
        || rounds > 0 || tools > 0
}

/// A timing frame from what was read out of it: the schema version (the
/// current one when the frame names none) and each phase. Version 0 is no
/// payload, and neither is a frame that times nothing.
pub fn timing_from_parts(
    version: Option<u32>,
    total_ms: Option<u64>,
    model_ms: Option<u64>,
    auto_review_ms: Option<u64>,
    tool_wait_ms: Option<u64>,
    tool_rounds: Option<u32>,
    rounds: Vec<RoundTiming>,
    tools: Vec<ToolTiming>,
) -> (r: Option<TurnTiming>)
    ensures
        ({
            let v = match version {
                Some(n) => n,
                None => TIMING_SCHEMA_V,
            };
            match r {
                None => v == 0 || !times_something(
                    total_ms,
                    model_ms,
                    auto_review_ms,
                    tool_wait_ms,
                    rounds@.len(),
                    tools@.len(),
                ),
                Some(t) => v != 0 && times_something(
                    total_ms,
                    model_ms,
                    auto_review_ms,
                    tool_wait_ms,
                    rounds@.len(),
                    tools@.len(),
                ) && t.v == v && t.total_ms == total_ms && t.model_ms == model_ms
                    && t.auto_review_ms == auto_review_ms && t.tool_wait_ms == tool_wait_ms
                    && t.tool_rounds == tool_rounds && t.rounds@ == rounds@ && t.tools@ == tools@,
            }
        }),
{
    let v = match version {
        Some(n) => n,
        None => TIMING_SCHEMA_V,
    };
    if v == 0 {
        return None;
    }
    if total_ms.is_none() && model_ms.is_none() && auto_review_ms.is_none() && tool_wait_ms.is_none()
        && rounds.len() == 0 && tools.len() == 0 {
        return None;
    }
    Some(TurnTiming { v, total_ms, model_ms, auto_review_ms, tool_wait_ms, tool_rounds, rounds, tools })
}

/// A millisecond reading that is not a whole number as written: the text
/// of a fraction, or of a number sent as a string, and that text read as a
/// finite, non-negative float and rounded to whole milliseconds.
#[derive(Debug, Clone)]
pub struct RoundedLeaf {
    pub text: String,
    pub ms: u64,
}

/// The rounded reading of a text: the first entry written so.
pub open spec fn rounded_in(table: Seq<RoundedLeaf>, text: Seq<char>) -> Option<u64>
    decreases table.len(),
{
    if table.len() == 0 {
        None
    } else if table[0].text@ == text {
        Some(table[0].ms)
    } else {
        rounded_in(table.drop_first(), text)
    }
}

/// A leaf as milliseconds: a whole number as itself; a fraction or a text
/// by its rounded reading; anything else nothing. Longer than any turn is
/// nothing too.
pub open spec fn leaf_ms(leaf: JsonV, table: Seq<RoundedLeaf>) -> Option<u64> {
    let read = match leaf {
        JsonV::Number { unsigned: Some(n), .. } => Some(n),
        JsonV::Number { unsigned: None, text, .. } => rounded_in(table, text),
        JsonV::Str(s) => rounded_in(table, s),
        _ => None,
    };
    match read {
        Some(ms) => if ms <= LONGEST_TURN_MS {
            Some(ms)
        } else {
            None
        },
        None => None,
    }
}

/// The milliseconds under `key`.
pub open spec fn ms_key(value: JsonV, key: Seq<char>, table: Seq<RoundedLeaf>) -> Option<u64> {
    match get(value, key) {
        Some(x) => leaf_ms(x, table),
        None => None,
    }
}

/// The whole number under `key`, when it fits `u32`.
pub open spec fn u32_key(value: JsonV, key: Seq<char>) -> Option<u32> {
    match get(value, key) {
        Some(JsonV::Number { unsigned: Some(n), .. }) => if n <= u32::MAX {
            Some(n as u32)
        } else {
            None
        },
        _ => None,
    }
}

/// A tool entry of a list: its name under the first of its name keys that
/// holds a string (empty when none does), and its milliseconds under the
/// first of its duration keys that reads; no entry without them.
pub open spec fn listed_tool(item: JsonV, table: Seq<RoundedLeaf>) -> Option<(Seq<char>, u64)> {
    let name = either(
        str_at(item, "name"@),
        either(str_at(item, "tool"@), either(str_at(item, "toolCallName"@), str_at(item, "tool_name"@))),
    );
    let ms = either(
        ms_key(item, "ms"@, table),
        either(
            ms_key(item, "duration_ms"@, table),
            either(ms_key(item, "durationMs"@, table), ms_key(item, "elapsed_ms"@, table)),
        ),
    );
    match ms {
        Some(m) => Some((or_else(name, Seq::empty()), m)),
        None => None,
    }
}

/// The tools of a list, in order, each entry that reads.
pub open spec fn listed_tools(items: Seq<JsonV>, table: Seq<RoundedLeaf>) -> Seq<(Seq<char>, u64)>
    decreases items.len(),
{
    if items.len() == 0 {
        Seq::empty()
    } else {
        let prev = listed_tools(items.drop_last(), table);
        match listed_tool(items.last(), table) {
            Some(t) => prev.push(t),
            None => prev,
        }
    }
}

/// The tools of an object keyed by name, in order, each whose value reads.
pub open spec fn named_tools(entries: Seq<(Seq<char>, JsonV)>, table: Seq<RoundedLeaf>) -> Seq<
    (Seq<char>, u64),
>
    decreases entries.len(),
{
    if entries.len() == 0 {
        Seq::empty()
    } else {
        let prev = named_tools(entries.drop_last(), table);
        match leaf_ms(entries.last().1, table) {
            Some(m) => prev.push((entries.last().0, m)),
            None => prev,
        }
    }
}

/// The tools of a frame: a list, or an object keyed by name; none otherwise.
pub open spec fn tools_of(tools: Option<JsonV>, table: Seq<RoundedLeaf>) -> Seq<(Seq<char>, u64)> {
    match tools {
        Some(JsonV::Array(items)) => listed_tools(items, table),
        Some(JsonV::Object(entries)) => named_tools(entries, table),
        _ => Seq::empty(),
    }
}

/// A model round: the entry as milliseconds, else under its first key that
/// reads.
pub open spec fn round_ms(item: JsonV, table: Seq<RoundedLeaf>) -> Option<u64> {
    either(
        leaf_ms(item, table),
        either(
            ms_key(item, "model_ms"@, table),
            either(ms_key(item, "modelMs"@, table), ms_key(item, "ms"@, table)),
        ),
    )
}

/// The rounds of a list, in order, each entry that reads.
pub open spec fn listed_rounds(items: Seq<JsonV>, table: Seq<RoundedLeaf>) -> Seq<u64>
    decreases items.len(),
{
    if items.len() == 0 {
        Seq::empty()
    } else {
        let prev = listed_rounds(items.drop_last(), table);
        match round_ms(items.last(), table) {
            Some(m) => prev.push(m),
            None => prev,
        }
    }
}

/// The rounds of a frame: a list; none otherwise.
pub open spec fn rounds_of(rounds: Option<JsonV>, table: Seq<RoundedLeaf>) -> Seq<u64> {
    match rounds {
        Some(JsonV::Array(items)) => listed_rounds(items, table),
        _ => Seq::empty(),
    }
}

/// The model entry: under the first of its keys that is there.
pub open spec fn model_entry(value: JsonV) -> Option<JsonV> {
    either(get(value, "model_ms"@), get(value, "modelMs"@))
}

/// Where the rounds are: `rounds`, else the model entry when it is a list.
pub open spec fn rounds_entry(value: JsonV) -> Option<JsonV> {
    either(
        get(value, "rounds"@),
        match model_entry(value) {
            Some(m) => if m is Array {
                Some(m)
            } else {
                None
            },
            None => None,
        },
    )
}

/// Tools by name and milliseconds.
pub open spec fn tool_views(tools: Seq<ToolTiming>) -> Seq<(Seq<char>, u64)> {
    tools.map_values(|t: ToolTiming| (t.name@, t.ms))
}

/// Rounds by their milliseconds.
pub open spec fn round_views(rounds: Seq<RoundTiming>) -> Seq<u64> {
    rounds.map_values(|r: RoundTiming| r.model_ms)
}

fn rounded_lookup(table: &[RoundedLeaf], text: &str) -> (r: Option<u64>)
    ensures
        r == rounded_in(table@, text@),
{
    let mut i: usize = 0;
    assert(table@.skip(0) =~= table@);
    while i < table.len()
        invariant
            i <= table@.len(),
            rounded_in(table@, text@) == rounded_in(table@.skip(i as int), text@),
        decreases table@.len() - i,
    {
        assert(table@.skip(i as int).drop_first() =~= table@.skip(i + 1));
        if same(table[i].text.as_str(), text) {
            return Some(table[i].ms);
        }
        i = i + 1;
    }
    None
}

fn leaf_reading(leaf: &Json, table: &[RoundedLeaf]) -> (r: Option<u64>)
    ensures
        r == leaf_ms(leaf@, table@),
{
    let read = match leaf {
        Json::Number(n) => match n.unsigned {
            Some(u) => Some(u),
            None => rounded_lookup(table, n.text.as_str()),
        },
        Json::Str(s) => rounded_lookup(table, s.as_str()),
        _ => None,
    };
    match read {
        Some(ms) => within_longest_turn(ms),
        None => None,
    }
}

fn ms_under(value: &Json, key: &str, table: &[RoundedLeaf]) -> (r: Option<u64>)
    ensures
        r == ms_key(value@, key@, table@),
{
    match value.get(key) {
        Some(x) => leaf_reading(x, table),
        None => None,
    }
}

fn u32_under(value: &Json, key: &str) -> (r: Option<u32>)
    ensures
        r == u32_key(value@, key@),
{
    match value.get(key) {
        Some(x) => match x.as_u64() {
            Some(n) => if n <= 0xffff_ffffu64 {
                Some(n as u32)
            } else {
                None
            },
            None => None,
        },
        None => None,
    }
}

fn first_ms(a: Option<u64>, b: Option<u64>) -> (r: Option<u64>)
    ensures
        r == either(a, b),
{
    match a {
        Some(x) => Some(x),
        None => b,
    }
}

fn tool_in_list(item: &Json, table: &[RoundedLeaf]) -> (r: Option<ToolTiming>)
    ensures
        match r {
            Some(t) => listed_tool(item@, table@) == Some((t.name@, t.ms)),
            None => listed_tool(item@, table@) is None,
        },
{
    let ms = first_ms(
        ms_under(item, "ms", table),
        first_ms(
            ms_under(item, "duration_ms", table),
            first_ms(ms_under(item, "durationMs", table), ms_under(item, "elapsed_ms", table)),
        ),
    );
    let ms = match ms {
        Some(m) => m,
        None => return None,
    };
    let name = match item.str_at("name") {
        Some(n) => owned(n),
        None => match item.str_at("tool") {
            Some(n) => owned(n),
            None => match item.str_at("toolCallName") {
                Some(n) => owned(n),
                None => match item.str_at("tool_name") {
                    Some(n) => owned(n),
                    None => String::new(),
                },
            },
        },
    };
    Some(ToolTiming { name, ms })
}

fn tools_reading(tools: Option<&Json>, table: &[RoundedLeaf]) -> (r: Vec<ToolTiming>)
    ensures
        tool_views(r@) == tools_of(
            match tools {
                Some(t) => Some(t@),
                None => None,
            },
            table@,
        ),
{
    let mut out: Vec<ToolTiming> = Vec::new();
    match tools {
        Some(Json::Array(items)) => {
            let ghost all = tools.unwrap()@->Array_0;
            assert(all.len() == items@.len());
            assert(forall|k: int| 0 <= k < items@.len() ==> #[trigger] all[k] == items@[k]@);
            let mut i: usize = 0;
            while i < items.len()
                invariant
                    i <= items@.len(),
                    all.len() == items@.len(),
                    forall|k: int| 0 <= k < items@.len() ==> #[trigger] all[k] == items@[k]@,
                    tool_views(out@) == listed_tools(all.subrange(0, i as int), table@),
                decreases items@.len() - i,
            {
                let ghost before = tool_views(out@);
                proof {
                    let sub = all.subrange(0, i + 1);
                    assert(sub.drop_last() =~= all.subrange(0, i as int));
                    assert(sub.last() == items@[i as int]@);
                }
                if let Some(t) = tool_in_list(&items[i], table) {
                    let ghost tv = (t.name@, t.ms);
                    out.push(t);
                    assert(tool_views(out@) =~= before.push(tv));
                }
                i = i + 1;
            }
            assert(all.subrange(0, i as int) =~= all);
            out
        },
        Some(Json::Object(entries)) => {
            let ghost all = tools.unwrap()@->Object_0;
            assert(all.len() == entries@.len());
            assert(forall|k: int|
                0 <= k < entries@.len() ==> #[trigger] all[k] == (entries@[k].0@, entries@[k].1@));
            let mut i: usize = 0;
            while i < entries.len()
                invariant
                    i <= entries@.len(),
                    all.len() == entries@.len(),
                    forall|k: int|
                        0 <= k < entries@.len() ==> #[trigger] all[k] == (
                            entries@[k].0@,
                            entries@[k].1@,
                        ),
                    tool_views(out@) == named_tools(all.subrange(0, i as int), table@),
                decreases entries@.len() - i,
            {
                let ghost before = tool_views(out@);
                proof {
                    let sub = all.subrange(0, i + 1);
                    assert(sub.drop_last() =~= all.subrange(0, i as int));
                    assert(sub.last() == all[i as int]);
                }
                if let Some(ms) = leaf_reading(&entries[i].1, table) {
                    let name = entries[i].0.clone();
                    let ghost tv = (name@, ms);
                    out.push(ToolTiming { name, ms });
                    assert(tool_views(out@) =~= before.push(tv));
                }
                i = i + 1;
            }
            assert(all.subrange(0, i as int) =~= all);
            out
        },
        _ => {
            assert(tool_views(out@) =~= Seq::empty());
            out
        },
    }
}

fn round_reading(item: &Json, table: &[RoundedLeaf]) -> (r: Option<u64>)
    ensures
        r == round_ms(item@, table@),
{
    first_ms(
        leaf_reading(item, table),
        first_ms(
            ms_under(item, "model_ms", table),
            first_ms(ms_under(item, "modelMs", table), ms_under(item, "ms", table)),
        ),
    )
}

fn rounds_reading(rounds: Option<&Json>, table: &[RoundedLeaf]) -> (r: Vec<RoundTiming>)
    ensures
        round_views(r@) == rounds_of(
            match rounds {
                Some(t) => Some(t@),
                None => None,
            },
            table@,
        ),
{
    let mut out: Vec<RoundTiming> = Vec::new();
    match rounds {
        Some(Json::Array(items)) => {
            let ghost all = rounds.unwrap()@->Array_0;
            assert(all.len() == items@.len());
            assert(forall|k: int| 0 <= k < items@.len() ==> #[trigger] all[k] == items@[k]@);
            let mut i: usize = 0;
            while i < items.len()
                invariant
                    i <= items@.len(),
                    all.len() == items@.len(),
                    forall|k: int| 0 <= k < items@.len() ==> #[trigger] all[k] == items@[k]@,
                    round_views(out@) == listed_rounds(all.subrange(0, i as int), table@),
                decreases items@.len() - i,
            {
                let ghost before = round_views(out@);
                proof {
                    let sub = all.subrange(0, i + 1);
                    assert(sub.drop_last() =~= all.subrange(0, i as int));
                    assert(sub.last() == items@[i as int]@);
                }
                if let Some(ms) = round_reading(&items[i], table) {
                    out.push(RoundTiming { model_ms: ms });
                    assert(round_views(out@) =~= before.push(ms));
                }
                i = i + 1;
            }
            assert(all.subrange(0, i as int) =~= all);
            out
        },
        _ => {
            assert(round_views(out@) =~= Seq::empty());
            out
        },
    }
}

/// A frame's version: under `v` or `version`, the current one when neither
/// reads.
pub open spec fn frame_version(v: JsonV) -> u32 {
    or_else(either(u32_key(v, "v"@), u32_key(v, "version"@)), TIMING_SCHEMA_V)
}

pub open spec fn frame_total(v: JsonV, t: Seq<RoundedLeaf>) -> Option<u64> {
    either(ms_key(v, "total_ms"@, t), ms_key(v, "totalMs"@, t))
}

pub open spec fn frame_model(v: JsonV, t: Seq<RoundedLeaf>) -> Option<u64> {
    match model_entry(v) {
        Some(m) => leaf_ms(m, t),
        None => None,
    }
}

pub open spec fn frame_review(v: JsonV, t: Seq<RoundedLeaf>) -> Option<u64> {
    either(ms_key(v, "auto_review_ms"@, t), ms_key(v, "autoReviewMs"@, t))
}

pub open spec fn frame_wait(v: JsonV, t: Seq<RoundedLeaf>) -> Option<u64> {
    either(ms_key(v, "tool_wait_ms"@, t), ms_key(v, "toolWaitMs"@, t))
}

pub open spec fn frame_tool_rounds(v: JsonV) -> Option<u32> {
    either(u32_key(v, "tool_rounds"@), u32_key(v, "toolRounds"@))
}

pub open spec fn frame_rounds(v: JsonV, t: Seq<RoundedLeaf>) -> Seq<u64> {
    rounds_of(rounds_entry(v), t)
}

pub open spec fn frame_tools(v: JsonV, t: Seq<RoundedLeaf>) -> Seq<(Seq<char>, u64)> {
    tools_of(get(v, "tools"@), t)
}

/// Whether a payload reads as a timing: a version other than 0, and some
/// phase timed.
pub open spec fn reads_some(v: JsonV, t: Seq<RoundedLeaf>) -> bool {
    frame_version(v) != 0 && times_something(
        frame_total(v, t),
        frame_model(v, t),
        frame_review(v, t),
        frame_wait(v, t),
        frame_rounds(v, t).len(),
        frame_tools(v, t).len(),
    )
}

/// Whether `x` holds what the payload reads as.
pub open spec fn read_as(v: JsonV, t: Seq<RoundedLeaf>, x: TurnTiming) -> bool {
    &&& x.v == frame_version(v)
    &&& x.total_ms == frame_total(v, t)
    &&& x.model_ms == frame_model(v, t)
    &&& x.auto_review_ms == frame_review(v, t)
    &&& x.tool_wait_ms == frame_wait(v, t)
    &&& x.tool_rounds == frame_tool_rounds(v)
    &&& round_views(x.rounds@) == frame_rounds(v, t)
    &&& tool_views(x.tools@) == frame_tools(v, t)
}

/// What a payload reads as, by [`reads_some`] and [`read_as`].
pub open spec fn reading_of(v: JsonV, t: Seq<RoundedLeaf>, r: Option<TurnTiming>) -> bool {
    match r {
        None => !reads_some(v, t),
        Some(x) => reads_some(v, t) && read_as(v, t, x),
    }
}

/// What a timing frame carries: its `value` (or the frame itself), and when
/// that is a string, the JSON written in it; nothing for any other frame.
pub open spec fn timing_payload(event: JsonV) -> Option<JsonV> {
    if !timing_event(event) {
        None
    } else {
        match or_else(get(event, "value"@), event) {
            JsonV::Str(raw) => parsed_json(raw),
            other => Some(other),
        }
    }
}

/// Whether a frame is a timing frame whose payload reads.
pub open spec fn event_reads(event: JsonV, t: Seq<RoundedLeaf>) -> bool {
    match timing_payload(event) {
        Some(p) => reads_some(p, t),
        None => false,
    }
}

impl TurnTiming {
    /// The object inside a timing frame's `value` (or the frame itself),
    /// read with the rounded readings of its fractional and textual leaves:
    /// each field under the first of its keys that reads, the rounds from
    /// `rounds` or a model entry that is a list, the tools from a list or
    /// an object keyed by name. Version 0, or nothing timed, is no payload.
    pub fn from_value(value: &Json, rounded: &[RoundedLeaf]) -> (r: Option<TurnTiming>)
        ensures
            reading_of(value@, rounded@, r),
    {
        let version = match u32_under(value, "v") {
            Some(n) => Some(n),
            None => u32_under(value, "version"),
        };
        let total = first_ms(ms_under(value, "total_ms", rounded), ms_under(value, "totalMs", rounded));
        let model = match value.get("model_ms") {
            Some(m) => Some(m),
            None => value.get("modelMs"),
        };
        let model_ms = match model {
            Some(m) => leaf_reading(m, rounded),
            None => None,
        };
        let review = first_ms(
            ms_under(value, "auto_review_ms", rounded),
            ms_under(value, "autoReviewMs", rounded),
        );
        let wait = first_ms(ms_under(value, "tool_wait_ms", rounded), ms_under(value, "toolWaitMs", rounded));
        let tool_rounds = match u32_under(value, "tool_rounds") {
            Some(n) => Some(n),
            None => u32_under(value, "toolRounds"),
        };
        let rounds_at = match value.get("rounds") {
            Some(x) => Some(x),
            None => match model {
                Some(m) => match m {
                    Json::Array(_) => Some(m),
                    _ => None,
                },
                None => None,
            },
        };
        let rounds = rounds_reading(rounds_at, rounded);
        let tools = tools_reading(value.get("tools"), rounded);
        let ghost rv = round_views(rounds@);
        let ghost tv = tool_views(tools@);
        let r = timing_from_parts(version, total, model_ms, review, wait, tool_rounds, rounds, tools);
        proof {
            if r is Some {
                assert(round_views(r->0.rounds@) == rv);
                assert(tool_views(r->0.tools@) == tv);
            }
        }
        r
    }

    /// A timing frame, when it is one this build can read: its payload
    /// read as [`TurnTiming::from_value`] reads it.
    pub fn from_event(event: &Json, rounded: &[RoundedLeaf]) -> (r: Option<TurnTiming>)
        ensures
            match timing_payload(event@) {
                Some(p) => reading_of(p, rounded@, r),
                None => r is None,
            },
    {
        if !is_timing_event(event) {
            return None;
        }
        let value = match event.get("value") {
            Some(v) => v,
            None => event,
        };
        match value {
            Json::Str(raw) => match Json::parse(raw.as_str()) {
                Some(parsed) => TurnTiming::from_value(&parsed, rounded),
                None => None,
            },
            other => TurnTiming::from_value(other, rounded),
        }
    }

    /// The last timing frame of a journal that reads; earlier ones are
    /// drafts.
    pub fn from_events(events: &[Json], rounded: &[RoundedLeaf]) -> (r: Option<TurnTiming>)
        ensures
            match r {
                None => forall|i: int|
                    0 <= i < events@.len() ==> !event_reads(#[trigger] events@[i]@, rounded@),
                Some(x) => exists|i: int|
                    0 <= i < events@.len() && event_reads(#[trigger] events@[i]@, rounded@)
                        && read_as(timing_payload(events@[i]@)->0, rounded@, x) && forall|j: int|
                        i < j < events@.len() ==> !event_reads(#[trigger] events@[j]@, rounded@),
            },
    {
        let mut i: usize = events.len();
        while i > 0
            invariant
                i <= events@.len(),
                forall|j: int| i <= j < events@.len() ==> !event_reads(#[trigger] events@[j]@, rounded@),
            decreases i,
        {
            i = i - 1;
            let found = TurnTiming::from_event(&events[i], rounded);
            match found {
                Some(x) => {
                    assert(event_reads(events@[i as int]@, rounded@));
                    return Some(x);
                },
                None => {
                    assert(!event_reads(events@[i as int]@, rounded@));
                },
            }
        }
        None
    }

    /// A stored timing: its JSON text read as [`TurnTiming::from_value`]
    /// reads a payload; nothing when it is not JSON.
    pub fn from_json(raw: &str, rounded: &[RoundedLeaf]) -> (r: Option<TurnTiming>)
        ensures
            match parsed_json(raw@) {
                Some(p) => reading_of(p, rounded@, r),
                None => r is None,
            },
    {
        match Json::parse(raw) {
            Some(parsed) => TurnTiming::from_value(&parsed, rounded),
            None => None,
        }
    }
}

} // verus!
