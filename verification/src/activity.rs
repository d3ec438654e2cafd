//! Live bot status from AG-UI frames: what the bot is doing now, for the
//! status strip, and what a turn did, for the line a wordless turn leaves.

use vstd::prelude::*;

use crate::gen_ui::USER_MACHINE_SHELL;
use crate::json::{get, has, json_text, opt_view, parse_json, parsed_json, str_at, to_json_text, Json, JsonV};
use crate::strmap::StrMap;
use crate::user_form::{
    custom_event_form, effective_resolution, is_user_form_awaiting, is_user_form_event, typed,
    user_form_awaiting, user_form_event, UserFormSpec, WAITING_FOR_YOU,
};
use crate::text::{
    after_sep, after_sep_exec, before_sep, before_sep_exec, chars_of, contains, contains_str,
    either, first_chars, first_chars_exec, opt_seq, or_else, owned, push_str, same, str_opt, string_of, trim,
    trimmed,
};

verus! {

/// `/` or `\`: where a path breaks.
pub open spec fn is_path_sep(c: char) -> bool {
    c == '/' || c == '\\'
}

/// The path without its trailing separators.
pub open spec fn strip_seps(s: Seq<char>) -> Seq<char>
    decreases s.len(),
{
    if s.len() > 0 && is_path_sep(s.last()) {
        strip_seps(s.drop_last())
    } else {
        s
    }
}

/// What follows the last separator.
pub open spec fn last_segment(s: Seq<char>) -> Seq<char>
    decreases s.len(),
{
    if s.len() == 0 {
        s
    } else if is_path_sep(s.last()) {
        Seq::empty()
    } else {
        last_segment(s.drop_last()).push(s.last())
    }
}

/// The last non-empty piece of a path split at `/` and `\`.
pub open spec fn basename(path: Seq<char>) -> Option<Seq<char>> {
    let t = strip_seps(path);
    if t.len() == 0 {
        None
    } else {
        Some(last_segment(t))
    }
}

proof fn lemma_strip_seps(s: Seq<char>, j: int)
    requires
        0 <= j <= s.len(),
        forall|k: int| j <= k < s.len() ==> is_path_sep(#[trigger] s[k]),
        j == 0 || !is_path_sep(s[j - 1]),
    ensures
        strip_seps(s) == s.take(j),
    decreases s.len(),
{
    if s.len() > j {
        assert(is_path_sep(s.last()));
        let t = s.drop_last();
        assert forall|k: int| j <= k < t.len() implies is_path_sep(#[trigger] t[k]) by {
            assert(t[k] == s[k]);
        }
        if j > 0 {
            assert(t[j - 1] == s[j - 1]);
        }
        lemma_strip_seps(t, j);
        assert(t.take(j) =~= s.take(j));
    } else {
        assert(s.take(j) =~= s);
        if s.len() > 0 {
            assert(s.last() == s[j - 1]);
        }
    }
}

proof fn lemma_last_segment(t: Seq<char>, i: int)
    requires
        0 <= i <= t.len(),
        forall|k: int| i <= k < t.len() ==> !is_path_sep(#[trigger] t[k]),
        i == 0 || is_path_sep(t[i - 1]),
    ensures
        last_segment(t) == t.subrange(i, t.len() as int),
    decreases t.len(),
{
    if t.len() > i {
        let u = t.drop_last();
        assert forall|k: int| i <= k < u.len() implies !is_path_sep(#[trigger] u[k]) by {
            assert(u[k] == t[k]);
        }
        if i > 0 {
            assert(u[i - 1] == t[i - 1]);
        }
        lemma_last_segment(u, i);
        assert(t.subrange(i, t.len() as int) =~= u.subrange(i, u.len() as int).push(t.last()));
    } else if t.len() > 0 {
        assert(t.last() == t[i - 1]);
        assert(t.subrange(i, t.len() as int) =~= Seq::<char>::empty());
    }
}

fn file_basename(path: &str) -> (r: Option<String>)
    ensures
        opt_seq(r) == basename(path@),
{
    let v = chars_of(path);
    let mut j: usize = v.len();
    while j > 0 && (v[j - 1] == '/' || v[j - 1] == '\\')
        invariant
            j <= v@.len(),
            forall|k: int| j <= k < v@.len() ==> is_path_sep(#[trigger] v@[k]),
        decreases j,
    {
        j = j - 1;
    }
    proof {
        lemma_strip_seps(v@, j as int);
    }
    if j == 0 {
        return None;
    }
    let mut i: usize = j;
    while i > 0 && !(v[i - 1] == '/' || v[i - 1] == '\\')
        invariant
            i <= j <= v@.len(),
            forall|k: int| i <= k < j ==> !is_path_sep(#[trigger] v@[k]),
        decreases i,
    {
        i = i - 1;
    }
    proof {
        let t = v@.take(j as int);
        assert forall|k: int| i <= k < t.len() implies !is_path_sep(#[trigger] t[k]) by {
            assert(t[k] == v@[k]);
        }
        if i > 0 {
            assert(t[i - 1] == v@[i - 1]);
        }
        lemma_last_segment(t, i as int);
        assert(t.subrange(i as int, t.len() as int) =~= v@.subrange(i as int, j as int));
    }
    Some(string_of(&v, i, j))
}

/// How many characters of a command the status line shows.
pub const SHORT_COMMAND_CHARS: usize = 48;

/// The command has a line after its first.
pub open spec fn has_second_line(command: Seq<char>) -> bool {
    match after_sep(command, seq!['\n']) {
        Some(rest) => rest.len() > 0,
        None => false,
    }
}

/// The first line of a command, trimmed and cut to 48 characters, with `…`
/// when it was cut or more lines followed.
pub open spec fn short_command_text(command: Seq<char>) -> Seq<char> {
    let line = trim(before_sep(command, seq!['\n']));
    let out = first_chars(line, SHORT_COMMAND_CHARS as nat);
    if line.len() > SHORT_COMMAND_CHARS || has_second_line(command) {
        out.push('…')
    } else {
        out
    }
}

pub fn short_command(command: &str) -> (r: String)
    ensures
        r@ == short_command_text(command@),
{
    proof {
        reveal_strlit("\n");
    }
    let first = before_sep_exec(command, "\n");
    assert("\n"@ =~= seq!['\n']);
    let line = trimmed(first.as_str());
    let mut out = first_chars_exec(line.as_str(), SHORT_COMMAND_CHARS);
    let more = match after_sep_exec(command, "\n") {
        Some(rest) => rest.as_str().unicode_len() > 0,
        None => false,
    };
    if line.as_str().unicode_len() > SHORT_COMMAND_CHARS || more {
        out.push('…');
    }
    out
}

/// The host of a URL as the status line names it: the piece after `://`
/// (up to any later `://`), or the whole text, cut at its first `/`.
pub open spec fn host_of_url(url: Seq<char>) -> Seq<char> {
    let rest = match after_sep(url, "://"@) {
        Some(r) => before_sep(r, "://"@),
        None => url,
    };
    before_sep(rest, "/"@)
}

fn url_host(url: &str) -> (r: String)
    ensures
        r@ == host_of_url(url@),
{
    let rest = match after_sep_exec(url, "://") {
        Some(r) => before_sep_exec(r.as_str(), "://"),
        None => owned(url),
    };
    before_sep_exec(rest.as_str(), "/")
}

fn concat(a: &str, b: &str) -> (r: String)
    ensures
        r@ == a@ + b@,
{
    let mut s = owned(a);
    push_str(&mut s, b);
    s
}

/// The string at `key` of the parsed arguments, as sent.
pub open spec fn arg_text(parsed: Option<JsonV>, key: Seq<char>) -> Option<Seq<char>> {
    match parsed {
        Some(v) => str_at(v, key),
        None => None,
    }
}

fn arg_string(parsed: Option<&Json>, key: &str) -> (r: Option<String>)
    ensures
        opt_seq(r) == arg_text(opt_view(parsed), key@),
{
    match parsed {
        Some(v) => match v.str_at(key) {
            Some(s) => Some(owned(s)),
            None => None,
        },
        None => None,
    }
}

/// Arguments as the status reads them: the JSON text parsed, when it is JSON.
pub open spec fn parsed_args(args: Option<Seq<char>>) -> Option<JsonV> {
    match args {
        Some(raw) => parsed_json(raw),
        None => None,
    }
}

fn parse_args(args: Option<&str>) -> (r: Option<Json>)
    ensures
        match r {
            Some(j) => parsed_args(str_opt(args)) == Some(j@),
            None => parsed_args(str_opt(args)) is None,
        },
{
    match args {
        Some(raw) => parse_json(raw),
        None => None,
    }
}

pub open spec fn is_read_tool(name: Seq<char>) -> bool {
    name == "Read"@ || name == "ExternalRead"@ || name == "BoxRead"@ || name == "readToolCall"@
}

pub open spec fn is_web_search(name: Seq<char>) -> bool {
    name == "WebSearch"@ || name == "webSearchToolCall"@
}

pub open spec fn is_web_fetch(name: Seq<char>) -> bool {
    name == "WebFetch"@ || name == "webFetchToolCall"@
}

pub open spec fn is_image_tool(name: Seq<char>) -> bool {
    name == "GenerateImage"@ || name == "generateImageToolCall"@
}

pub open spec fn is_shell_tool(name: Seq<char>) -> bool {
    name == "Shell"@ || name == "BoxShell"@ || name == "shellToolCall"@ || name == "ExternalShell"@
}

pub open spec fn is_screen_tool(name: Seq<char>) -> bool {
    name == "Computer"@ || name == "Screenshot"@ || name == "computerUseToolCall"@
}

pub open spec fn is_form_request_tool(name: Seq<char>) -> bool {
    name == "request_user_form"@ || name == "request-user-form"@ || name == "user-form"@
}

pub open spec fn is_click(action: Seq<char>) -> bool {
    action == "click"@ || action == "double_click"@ || action == "right_click"@ || action
        == "drag"@ || action == "move"@
}

/// A shell command that writes a file.
pub open spec fn is_drafting(command: Seq<char>) -> bool {
    contains(command, ">"@) || contains(command, "tee "@) || contains(command, "sed "@)
}

/// What the bot is doing with a tool, for the status strip.
pub open spec fn tool_label(name: Seq<char>, parsed: Option<JsonV>) -> Seq<char> {
    let path = arg_text(parsed, "path"@);
    let command = arg_text(parsed, "command"@);
    if is_read_tool(name) {
        match path {
            Some(p) => match basename(p) {
                Some(n) => "Reading "@ + n,
                None => "Reading file"@,
            },
            None => "Reading file"@,
        }
    } else if is_web_search(name) {
        "Searching the web"@
    } else if is_web_fetch(name) {
        "Reading the web"@
    } else if is_image_tool(name) {
        "Generating a photo"@
    } else if is_shell_tool(name) {
        match command {
            Some(c) => if is_drafting(c) {
                "Drafting the file"@
            } else {
                "Running `"@ + short_command_text(c) + "`"@
            },
            None => "Running commands"@,
        }
    } else if name == USER_MACHINE_SHELL@ {
        match command {
            Some(c) => "On your machine: "@ + short_command_text(c),
            None => "On your machine"@,
        }
    } else if is_screen_tool(name) {
        "On its computer"@
    } else if name == "computer"@ {
        match arg_text(parsed, "action"@) {
            Some(a) => if a == "screenshot"@ {
                "Looking at its screen"@
            } else if a == "type"@ {
                "Typing on its computer"@
            } else if a == "key"@ {
                "Pressing a key on its computer"@
            } else if a == "scroll"@ {
                "Scrolling on its computer"@
            } else if is_click(a) {
                "Clicking on its computer"@
            } else {
                "On its computer"@
            },
            None => "On its computer"@,
        }
    } else if name == "open_url"@ {
        match arg_text(parsed, "url"@) {
            Some(u) => "Opening "@ + host_of_url(u),
            None => "Opening a page on its computer"@,
        }
    } else if is_form_request_tool(name) {
        "Waiting for you"@
    } else if name.len() == 0 {
        "Working"@
    } else {
        "Using "@ + name
    }
}

fn is_one_of(name: &str, a: &str, b: &str) -> (r: bool)
    ensures
        r == (name@ == a@ || name@ == b@),
{
    same(name, a) || same(name, b)
}

/// The status strip's label for a tool, from its arguments already parsed.
pub fn describe_parsed_tool(name: &str, parsed: Option<&Json>) -> (r: String)
    ensures
        r@ == tool_label(name@, opt_view(parsed)),
{
    if is_one_of(name, "Read", "ExternalRead") || is_one_of(name, "BoxRead", "readToolCall") {
        return match arg_string(parsed, "path") {
            Some(p) => match file_basename(p.as_str()) {
                Some(n) => concat("Reading ", n.as_str()),
                None => owned("Reading file"),
            },
            None => owned("Reading file"),
        };
    }
    if is_one_of(name, "WebSearch", "webSearchToolCall") {
        return owned("Searching the web");
    }
    if is_one_of(name, "WebFetch", "webFetchToolCall") {
        return owned("Reading the web");
    }
    if is_one_of(name, "GenerateImage", "generateImageToolCall") {
        return owned("Generating a photo");
    }
    if is_one_of(name, "Shell", "BoxShell") || is_one_of(name, "shellToolCall", "ExternalShell") {
        return match arg_string(parsed, "command") {
            Some(c) => {
                let c = c.as_str();
                if contains_str(c, ">") || contains_str(c, "tee ") || contains_str(c, "sed ") {
                    owned("Drafting the file")
                } else {
                    let mut out = concat("Running `", short_command(c).as_str());
                    push_str(&mut out, "`");
                    out
                }
            },
            None => owned("Running commands"),
        };
    }
    if same(name, USER_MACHINE_SHELL) {
        return match arg_string(parsed, "command") {
            Some(c) => concat("On your machine: ", short_command(c.as_str()).as_str()),
            None => owned("On your machine"),
        };
    }
    if is_one_of(name, "Computer", "Screenshot") || same(name, "computerUseToolCall") {
        return owned("On its computer");
    }
    if same(name, "computer") {
        return match arg_string(parsed, "action") {
            Some(a) => {
                let a = a.as_str();
                if same(a, "screenshot") {
                    owned("Looking at its screen")
                } else if same(a, "type") {
                    owned("Typing on its computer")
                } else if same(a, "key") {
                    owned("Pressing a key on its computer")
                } else if same(a, "scroll") {
                    owned("Scrolling on its computer")
                } else if is_one_of(a, "click", "double_click") || is_one_of(a, "right_click", "drag")
                    || same(a, "move") {
                    owned("Clicking on its computer")
                } else {
                    owned("On its computer")
                }
            },
            None => owned("On its computer"),
        };
    }
    if same(name, "open_url") {
        return match arg_string(parsed, "url") {
            Some(u) => concat("Opening ", url_host(u.as_str()).as_str()),
            None => owned("Opening a page on its computer"),
        };
    }
    if is_one_of(name, "request_user_form", "request-user-form") || same(name, "user-form") {
        return owned("Waiting for you");
    }
    if name.unicode_len() == 0 {
        return owned("Working");
    }
    concat("Using ", name)
}

/// The status strip's label for a tool, its arguments given as JSON text.
fn describe_tool(name: &str, args: Option<&str>) -> (r: String)
    ensures
        r@ == tool_label(name@, parsed_args(str_opt(args))),
{
    let parsed = parse_args(args);
    match &parsed {
        Some(j) => describe_parsed_tool(name, Some(j)),
        None => describe_parsed_tool(name, None),
    }
}

pub open spec fn is_form_tool(name: Seq<char>) -> bool {
    name == "form"@ || name == "show_form"@ || name == "show-form"@ || name == "render_form"@
        || name == "render-form"@
}

pub open spec fn is_chart_tool(name: Seq<char>) -> bool {
    name == "bar_chart"@ || name == "bar-chart"@ || name == "barchart"@ || name
        == "show_bar_chart"@ || name == "show-bar-chart"@ || name == "render_bar_chart"@ || name
        == "render-bar-chart"@
}

/// One tool call in the bot's own voice, past tense, for the line a wordless
/// turn leaves. A call with no name did nothing to tell.
pub open spec fn tool_deed(name: Seq<char>, parsed: Option<JsonV>) -> Option<Seq<char>> {
    if name.len() == 0 {
        None
    } else if is_read_tool(name) || name == "read_file"@ {
        Some(
            match arg_text(parsed, "path"@) {
                Some(p) => match basename(p) {
                    Some(f) => "read "@ + f,
                    None => "read a file"@,
                },
                None => "read a file"@,
            },
        )
    } else if name == "write_file"@ {
        Some(
            match arg_text(parsed, "path"@) {
                Some(p) => match basename(p) {
                    Some(f) => "wrote "@ + f,
                    None => "wrote a file"@,
                },
                None => "wrote a file"@,
            },
        )
    } else if is_web_search(name) {
        Some("searched the web"@)
    } else if is_web_fetch(name) {
        Some("read a page on the web"@)
    } else if is_image_tool(name) {
        Some("made a picture"@)
    } else if is_shell_tool(name) || name == "shell"@ {
        Some("ran a shell command"@)
    } else if name == USER_MACHINE_SHELL@ {
        Some("ran a command on your computer"@)
    } else if name == "run_recipe"@ {
        Some("ran a recipe"@)
    } else if is_screen_tool(name) {
        Some("took a screenshot of my screen"@)
    } else if name == "computer"@ {
        Some(
            match arg_text(parsed, "action"@) {
                Some(a) => if a == "type"@ {
                    "typed on my screen"@
                } else if a == "key"@ {
                    "pressed a key on my screen"@
                } else if a == "scroll"@ {
                    "scrolled my screen"@
                } else if is_click(a) {
                    "clicked on my screen"@
                } else {
                    "took a screenshot of my screen"@
                },
                None => "took a screenshot of my screen"@,
            },
        )
    } else if name == "open_url"@ {
        Some(
            match arg_text(parsed, "url"@) {
                Some(u) => "opened "@ + host_of_url(u),
                None => "opened a page on my screen"@,
            },
        )
    } else if is_form_request_tool(name) {
        Some("asked you to fill a form"@)
    } else if is_form_tool(name) {
        Some("showed you a form"@)
    } else if is_chart_tool(name) {
        Some("drew you a chart"@)
    } else {
        Some("used "@ + name)
    }
}

/// A write is told as a write and a read as a read: a `write_file` call's
/// deed begins "wrote ", a `read_file` call's "read ", and with a path whose
/// last piece is `f` the deed is that verb and `f`.
pub proof fn lemma_file_deeds_name_their_verb(parsed: Option<JsonV>, path: Seq<char>, f: Seq<char>)
    ensures
        tool_deed("write_file"@, parsed) is Some,
        "wrote "@.is_prefix_of(tool_deed("write_file"@, parsed)->0),
        tool_deed("read_file"@, parsed) is Some,
        "read "@.is_prefix_of(tool_deed("read_file"@, parsed)->0),
        arg_text(parsed, "path"@) == Some(path) && basename(path) == Some(f) ==> tool_deed(
            "write_file"@,
            parsed,
        ) == Some("wrote "@ + f) && tool_deed("read_file"@, parsed) == Some("read "@ + f),
{
    reveal_strlit("write_file");
    reveal_strlit("read_file");
    reveal_strlit("Read");
    reveal_strlit("ExternalRead");
    reveal_strlit("BoxRead");
    reveal_strlit("readToolCall");
    reveal_strlit("wrote ");
    reveal_strlit("wrote a file");
    reveal_strlit("read ");
    reveal_strlit("read a file");
    let w = tool_deed("write_file"@, parsed)->0;
    let r = tool_deed("read_file"@, parsed)->0;
    assert(w.subrange(0, 6) =~= "wrote "@);
    assert(r.subrange(0, 5) =~= "read "@);
}

fn file_deed(parsed: Option<&Json>, verb: &str, fallback: &str) -> (r: String)
    ensures
        r@ == (match arg_text(opt_view(parsed), "path"@) {
            Some(p) => match basename(p) {
                Some(f) => verb@ + f,
                None => fallback@,
            },
            None => fallback@,
        }),
{
    match arg_string(parsed, "path") {
        Some(p) => match file_basename(p.as_str()) {
            Some(f) => concat(verb, f.as_str()),
            None => owned(fallback),
        },
        None => owned(fallback),
    }
}

/// A tool call's deed, from its arguments already parsed.
pub fn deed_from_parsed_tool(name: &str, parsed: Option<&Json>) -> (r: Option<String>)
    ensures
        opt_seq(r) == tool_deed(name@, opt_view(parsed)),
{
    if name.unicode_len() == 0 {
        return None;
    }
    if is_one_of(name, "Read", "ExternalRead") || is_one_of(name, "BoxRead", "readToolCall")
        || same(name, "read_file") {
        return Some(file_deed(parsed, "read ", "read a file"));
    }
    if same(name, "write_file") {
        return Some(file_deed(parsed, "wrote ", "wrote a file"));
    }
    if is_one_of(name, "WebSearch", "webSearchToolCall") {
        return Some(owned("searched the web"));
    }
    if is_one_of(name, "WebFetch", "webFetchToolCall") {
        return Some(owned("read a page on the web"));
    }
    if is_one_of(name, "GenerateImage", "generateImageToolCall") {
        return Some(owned("made a picture"));
    }
    if is_one_of(name, "Shell", "BoxShell") || is_one_of(name, "shellToolCall", "ExternalShell")
        || same(name, "shell") {
        return Some(owned("ran a shell command"));
    }
    if same(name, USER_MACHINE_SHELL) {
        return Some(owned("ran a command on your computer"));
    }
    if same(name, "run_recipe") {
        return Some(owned("ran a recipe"));
    }
    if is_one_of(name, "Computer", "Screenshot") || same(name, "computerUseToolCall") {
        return Some(owned("took a screenshot of my screen"));
    }
    if same(name, "computer") {
        let deed = match arg_string(parsed, "action") {
            Some(a) => {
                let a = a.as_str();
                if same(a, "type") {
                    "typed on my screen"
                } else if same(a, "key") {
                    "pressed a key on my screen"
                } else if same(a, "scroll") {
                    "scrolled my screen"
                } else if is_one_of(a, "click", "double_click") || is_one_of(a, "right_click", "drag")
                    || same(a, "move") {
                    "clicked on my screen"
                } else {
                    "took a screenshot of my screen"
                }
            },
            None => "took a screenshot of my screen",
        };
        return Some(owned(deed));
    }
    if same(name, "open_url") {
        return Some(
            match arg_string(parsed, "url") {
                Some(u) => concat("opened ", url_host(u.as_str()).as_str()),
                None => owned("opened a page on my screen"),
            },
        );
    }
    if is_one_of(name, "request_user_form", "request-user-form") || same(name, "user-form") {
        return Some(owned("asked you to fill a form"));
    }
    if is_one_of(name, "form", "show_form") || is_one_of(name, "show-form", "render_form") || same(
        name,
        "render-form",
    ) {
        return Some(owned("showed you a form"));
    }
    if is_one_of(name, "bar_chart", "bar-chart") || is_one_of(name, "barchart", "show_bar_chart")
        || is_one_of(name, "show-bar-chart", "render_bar_chart") || same(name, "render-bar-chart") {
        return Some(owned("drew you a chart"));
    }
    Some(concat("used ", name))
}

/// A tool call's deed, its arguments given as JSON text.
fn deed_from_tool(name: &str, args: Option<&str>) -> (r: Option<String>)
    ensures
        opt_seq(r) == tool_deed(name@, parsed_args(str_opt(args))),
{
    let parsed = parse_args(args);
    match &parsed {
        Some(j) => deed_from_parsed_tool(name, Some(j)),
        None => deed_from_parsed_tool(name, None),
    }
}

/// The label while a turn waits for the coworker's box to wake.
pub const WAKING_COMPUTER: &'static str = "Waking the computer";

#[derive(Debug, Clone, PartialEq, Eq)]
pub struct BotActivity {
    pub label: String,
}

#[derive(Debug, Clone, PartialEq, Eq)]
pub enum ActivityTick {
    Show(BotActivity),
    Keep,
    Clear,
}

/// What a frame does to the status line: sets a label, keeps it, clears it.
pub enum TickV {
    Show(Seq<char>),
    Keep,
    Clear,
}

impl View for ActivityTick {
    type V = TickV;

    open spec fn view(&self) -> TickV {
        match self {
            ActivityTick::Show(a) => TickV::Show(a.label@),
            ActivityTick::Keep => TickV::Keep,
            ActivityTick::Clear => TickV::Clear,
        }
    }
}

pub open spec fn is_thinking_kind(kind: Seq<char>) -> bool {
    kind == "RUN_STARTED"@ || kind == "REASONING_START"@ || kind == "REASONING_MESSAGE_START"@
        || kind == "REASONING_MESSAGE_CONTENT"@ || kind == "REASONING_MESSAGE_CHUNK"@
}

pub open spec fn is_writing_kind(kind: Seq<char>) -> bool {
    kind == "TEXT_MESSAGE_START"@ || kind == "TEXT_MESSAGE_CONTENT"@ || kind
        == "TEXT_MESSAGE_CHUNK"@
}

/// The status a CUSTOM frame sets: Waiting for you on a live or unresolved
/// user-form, Waiting for approval on another awaiting run, the waking
/// label while the box starts; a settled user-form clears the line.
pub open spec fn custom_activity(event: JsonV) -> TickV {
    let name = str_at(event, "name"@);
    if user_form_awaiting(event) {
        TickV::Show(WAITING_FOR_YOU@)
    } else if name == Some("run-awaiting-approval"@) {
        TickV::Show("Waiting for approval"@)
    } else if name == Some("box-waking"@) {
        TickV::Show(WAKING_COMPUTER@)
    } else if user_form_event(or_else(name, Seq::empty()), or_else(get(event, "value"@), event)) {
        let unresolved = match custom_event_form(event) {
            Some(f) => effective_resolution(f) is None,
            None => true,
        };
        if unresolved {
            TickV::Show(WAITING_FOR_YOU@)
        } else {
            TickV::Clear
        }
    } else {
        TickV::Keep
    }
}

/// The status one AG-UI frame sets, the tool named by `name` where the frame
/// itself names none.
pub open spec fn activity_of(
    event: JsonV,
    name: Option<Seq<char>>,
    tool_args: Option<Seq<char>>,
) -> TickV {
    match str_at(event, "type"@) {
        None => TickV::Keep,
        Some(kind) => if is_thinking_kind(kind) {
            TickV::Show("Thinking"@)
        } else if is_writing_kind(kind) {
            TickV::Show("Writing"@)
        } else if kind == "TOOL_CALL_START"@ || kind == "TOOL_CALL_ARGS"@ {
            let tool = match name {
                Some(n) => n,
                None => or_else(str_at(event, "toolCallName"@), Seq::empty()),
            };
            TickV::Show(tool_label(tool, parsed_args(tool_args)))
        } else if kind == "TOOL_CALL_END"@ {
            TickV::Show("Thinking"@)
        } else if kind == "RUN_FINISHED"@ || kind == "RUN_ERROR"@ {
            TickV::Clear
        } else if kind == "CUSTOM"@ {
            custom_activity(event)
        } else {
            TickV::Keep
        },
    }
}

fn set_label(label: String) -> (r: ActivityTick)
    ensures
        r@ == TickV::Show(label@),
{
    ActivityTick::Show(BotActivity { label })
}

fn custom_tick(event: &Json) -> (r: ActivityTick)
    ensures
        r@ == custom_activity(event@),
{
    proof {
        reveal_strlit("");
    }
    if is_user_form_awaiting(event) {
        return set_label(owned(WAITING_FOR_YOU));
    }
    let name = event.str_at("name");
    let is_named = |n: &str| -> (r: bool)
        ensures
            r == (str_opt(name) == Some(n@)),
        {
            match name {
                Some(x) => same(x, n),
                None => false,
            }
        };
    if is_named("run-awaiting-approval") {
        return set_label(owned("Waiting for approval"));
    }
    if is_named("box-waking") {
        return set_label(owned(WAKING_COMPUTER));
    }
    let name_text: &str = match name {
        Some(x) => x,
        None => "",
    };
    assert(name_text@ =~= or_else(str_opt(name), Seq::empty()));
    let value: &Json = match event.get("value") {
        Some(v) => v,
        None => event,
    };
    if !is_user_form_event(name_text, value) {
        return ActivityTick::Keep;
    }
    let unresolved = match UserFormSpec::from_custom_event(event) {
        Some(spec) => spec.is_unresolved(),
        None => true,
    };
    if unresolved {
        set_label(owned(WAITING_FOR_YOU))
    } else {
        ActivityTick::Clear
    }
}

fn activity_for(event: &Json, name: Option<&str>, tool_args: Option<&str>) -> (r: ActivityTick)
    ensures
        r@ == activity_of(event@, str_opt(name), str_opt(tool_args)),
{
    proof {
        reveal_strlit("");
    }
    let kind = match event.str_at("type") {
        Some(k) => k,
        None => {
            return ActivityTick::Keep;
        },
    };
    if is_one_of(kind, "RUN_STARTED", "REASONING_START") || is_one_of(
        kind,
        "REASONING_MESSAGE_START",
        "REASONING_MESSAGE_CONTENT",
    ) || same(kind, "REASONING_MESSAGE_CHUNK") {
        return set_label(owned("Thinking"));
    }
    if is_one_of(kind, "TEXT_MESSAGE_START", "TEXT_MESSAGE_CONTENT") || same(
        kind,
        "TEXT_MESSAGE_CHUNK",
    ) {
        return set_label(owned("Writing"));
    }
    if is_one_of(kind, "TOOL_CALL_START", "TOOL_CALL_ARGS") {
        let tool: &str = match name {
            Some(n) => n,
            None => match event.str_at("toolCallName") {
                Some(n) => n,
                None => "",
            },
        };
        assert(tool@ =~= match str_opt(name) {
            Some(n) => n,
            None => or_else(str_at(event@, "toolCallName"@), Seq::empty()),
        });
        return set_label(describe_tool(tool, tool_args));
    }
    if same(kind, "TOOL_CALL_END") {
        return set_label(owned("Thinking"));
    }
    if is_one_of(kind, "RUN_FINISHED", "RUN_ERROR") {
        return ActivityTick::Clear;
    }
    if same(kind, "CUSTOM") {
        return custom_tick(event);
    }
    ActivityTick::Keep
}

/// The status one AG-UI frame sets, given the arguments its tool call has had.
pub fn activity_from_agui(event: &Json, tool_args: Option<&str>) -> (r: ActivityTick)
    ensures
        r@ == activity_of(event@, None, str_opt(tool_args)),
{
    activity_for(event, None, tool_args)
}

/// No call id appears twice.
pub open spec fn no_repeats(order: Seq<Seq<char>>) -> bool {
    forall|i: int, j: int|
        0 <= i < order.len() && 0 <= j < order.len() && i != j ==> #[trigger] order[i] != #[trigger] order[j]
}

/// The tracker as the contracts read it: each call's tool name, each call's
/// arguments as JSON text, and the call ids in the order they first came.
pub struct TrackerV {
    pub names: Map<Seq<char>, Seq<char>>,
    pub args: Map<Seq<char>, Seq<char>>,
    pub order: Seq<Seq<char>>,
}

/// Per-call memory for the frames AG-UI splits: the start frame names the
/// tool and has no arguments, the args frames have arguments and no name.
/// Fed every frame in order, each one is labelled right.
pub struct ToolCallTracker {
    names: StrMap,
    args: StrMap,
    order: Vec<String>,
}

impl View for ToolCallTracker {
    type V = TrackerV;

    closed spec fn view(&self) -> TrackerV {
        TrackerV {
            names: self.names@,
            args: self.args@,
            order: self.order@.map_values(|s: String| s@),
        }
    }
}

pub open spec fn empty_tracker() -> TrackerV {
    TrackerV { names: Map::empty(), args: Map::empty(), order: Seq::empty() }
}

/// What a frame teaches the tracker: its call id joins the order the first
/// time it is seen; a name is remembered; `arguments` replace the call's
/// text, a `delta` is appended to it.
pub open spec fn after_frame(t: TrackerV, event: JsonV) -> TrackerV {
    match str_at(event, "toolCallId"@) {
        None => t,
        Some(id) => TrackerV {
            order: if t.order.contains(id) {
                t.order
            } else {
                t.order.push(id)
            },
            names: match str_at(event, "toolCallName"@) {
                Some(n) => t.names.insert(id, n),
                None => t.names,
            },
            args: match get(event, "arguments"@) {
                Some(a) => t.args.insert(id, json_text(a)),
                None => match str_at(event, "delta"@) {
                    Some(d) => t.args.insert(id, typed(t.args, id) + d),
                    None => t.args,
                },
            },
        },
    }
}

pub open spec fn lookup(m: Map<Seq<char>, Seq<char>>, key: Option<Seq<char>>) -> Option<Seq<char>> {
    match key {
        Some(k) => if m.contains_key(k) {
            Some(m[k])
        } else {
            None
        },
        None => None,
    }
}

/// The status a frame sets once the tracker has learnt from it: labelled
/// with its call's arguments so far, and with the call's remembered tool
/// when the frame names none.
pub open spec fn tick_result(t: TrackerV, event: JsonV) -> TickV {
    let id = str_at(event, "toolCallId"@);
    let remembered = if has(event, "toolCallName"@) {
        None
    } else {
        lookup(t.names, id)
    };
    activity_of(event, remembered, lookup(t.args, id))
}

/// What a run did: each call with a name and a deed, in the order the calls
/// came, each deed said once.
pub open spec fn deeds_of(order: Seq<Seq<char>>, names: Map<Seq<char>, Seq<char>>, args: Map<Seq<char>, Seq<char>>) -> Seq<Seq<char>>
    decreases order.len(),
{
    if order.len() == 0 {
        Seq::empty()
    } else {
        let prev = deeds_of(order.drop_last(), names, args);
        let id = order.last();
        if !names.contains_key(id) {
            prev
        } else {
            match tool_deed(names[id], parsed_args(lookup(args, Some(id)))) {
                Some(d) => if prev.contains(d) {
                    prev
                } else {
                    prev.push(d)
                },
                None => prev,
            }
        }
    }
}

fn contains_string(v: &Vec<String>, s: &str) -> (r: bool)
    ensures
        r == v@.map_values(|x: String| x@).contains(s@),
{
    let ghost vs = v@.map_values(|x: String| x@);
    let mut i: usize = 0;
    while i < v.len()
        invariant
            i <= v@.len(),
            vs == v@.map_values(|x: String| x@),
            forall|k: int| 0 <= k < i ==> vs[k] != s@,
        decreases v@.len() - i,
    {
        if same(v[i].as_str(), s) {
            assert(vs[i as int] == s@);
            return true;
        }
        i = i + 1;
    }
    false
}

impl ToolCallTracker {
    pub fn new() -> (r: Self)
        ensures
            r@ == empty_tracker(),
    {
        let r = ToolCallTracker { names: StrMap::new(), args: StrMap::new(), order: Vec::new() };
        assert(r@.order =~= Seq::<Seq<char>>::empty());
        r
    }

    fn note_call(&mut self, id: &str)
        ensures
            final(self)@ == (TrackerV {
                order: if old(self)@.order.contains(id@) {
                    old(self)@.order
                } else {
                    old(self)@.order.push(id@)
                },
                ..old(self)@
            }),
    {
        let seen = contains_string(&self.order, id);
        if !seen {
            let ghost before = self.order@.map_values(|s: String| s@);
            self.order.push(owned(id));
            assert(self.order@.map_values(|s: String| s@) =~= before.push(id@));
        }
    }

    /// The status one frame implies, given the frames before it.
    pub fn tick(&mut self, event: &Json) -> (r: ActivityTick)
        ensures
            final(self)@ == after_frame(old(self)@, event@),
            r@ == tick_result(after_frame(old(self)@, event@), event@),
    {
        let call_id = event.str_at("toolCallId");
        if let Some(id) = call_id {
            self.note_call(id);
            if let Some(name) = event.str_at("toolCallName") {
                self.names.insert(owned(id), owned(name));
            }
            if let Some(arguments) = event.get("arguments") {
                self.args.insert(owned(id), to_json_text(arguments));
            } else if let Some(delta) = event.str_at("delta") {
                self.args.append(id, delta);
            }
        }
        let args: Option<&str> = match call_id {
            Some(id) => self.args.get(id),
            None => None,
        };
        let remembered: Option<&str> = if event.has("toolCallName") {
            None
        } else {
            match call_id {
                Some(id) => self.names.get(id),
                None => None,
            }
        };
        activity_for(event, remembered, args)
    }

    /// What this turn did, each tool said once and in the order it was called.
    pub fn deeds(&self) -> (r: Vec<String>)
        ensures
            r@.map_values(|s: String| s@) == deeds_of(self@.order, self@.names, self@.args),
    {
        let ghost order = self@.order;
        let mut out: Vec<String> = Vec::new();
        let mut i: usize = 0;
        while i < self.order.len()
            invariant
                i <= self.order@.len(),
                order == self@.order,
                order == self.order@.map_values(|s: String| s@),
                out@.map_values(|s: String| s@) == deeds_of(
                    order.subrange(0, i as int),
                    self@.names,
                    self@.args,
                ),
            decreases self.order@.len() - i,
        {
            let ghost prev = out@.map_values(|s: String| s@);
            let id = self.order[i].as_str();
            proof {
                let sub = order.subrange(0, i + 1);
                assert(sub.drop_last() =~= order.subrange(0, i as int));
                assert(sub.last() == id@);
            }
            if let Some(name) = self.names.get(id) {
                let deed = deed_from_tool(name, self.args.get(id));
                if let Some(d) = deed {
                    if !contains_string(&out, d.as_str()) {
                        let ghost dv = d@;
                        out.push(d);
                        assert(out@.map_values(|s: String| s@) =~= prev.push(dv));
                    }
                }
            }
            i = i + 1;
        }
        assert(order.subrange(0, i as int) =~= order);
        out
    }
}

impl Default for ToolCallTracker {
    fn default() -> (r: Self)
        ensures
            r@ == empty_tracker(),
    {
        ToolCallTracker::new()
    }
}

/// Each call id is remembered once, in the order the calls first came: a
/// frame never repeats an id in the order.
pub proof fn lemma_call_ids_stay_once(t: TrackerV, event: JsonV)
    requires
        no_repeats(t.order),
    ensures
        no_repeats(after_frame(t, event).order),
        t.order.is_prefix_of(after_frame(t, event).order),
{
    if let Some(id) = str_at(event, "toolCallId"@) {
        if !t.order.contains(id) {
            let now = t.order.push(id);
            assert forall|i: int, j: int|
                0 <= i < now.len() && 0 <= j < now.len() && i != j implies #[trigger] now[i]
                != #[trigger] now[j] by {
                if i < t.order.len() && j < t.order.len() {
                } else if i < t.order.len() {
                    assert(t.order.contains(t.order[i]));
                } else {
                    assert(t.order.contains(t.order[j]));
                }
            }
            assert(t.order.is_prefix_of(now)) by {
                assert(now.subrange(0, t.order.len() as int) =~= t.order);
            }
        } else {
            assert(t.order.is_prefix_of(t.order)) by {
                assert(t.order.subrange(0, t.order.len() as int) =~= t.order);
            }
        }
    } else {
        assert(t.order.is_prefix_of(t.order)) by {
            assert(t.order.subrange(0, t.order.len() as int) =~= t.order);
        }
    }
}

/// A run replayed frame by frame: what the tracker learnt, and the status
/// the last frame that set or cleared one left.
pub open spec fn replay(events: Seq<JsonV>) -> (TrackerV, Option<Seq<char>>)
    decreases events.len(),
{
    if events.len() == 0 {
        (empty_tracker(), None)
    } else {
        let (t, current) = replay(events.drop_last());
        let next = after_frame(t, events.last());
        match tick_result(next, events.last()) {
            TickV::Show(label) => (next, Some(label)),
            TickV::Clear => (next, None),
            TickV::Keep => (next, current),
        }
    }
}

pub open spec fn frames(events: Seq<Json>) -> Seq<JsonV> {
    events.map_values(|e: Json| e@)
}

/// Where a journaled run is right now: the last frame that set a status.
pub fn activity_from_replay(events: &[Json]) -> (r: Option<BotActivity>)
    ensures
        match r {
            Some(a) => replay(frames(events@)).1 == Some(a.label@),
            None => replay(frames(events@)).1 is None,
        },
{
    let ghost all = frames(events@);
    let mut tracker = ToolCallTracker::new();
    let mut current: Option<BotActivity> = None;
    let mut i: usize = 0;
    while i < events.len()
        invariant
            i <= events@.len(),
            all == frames(events@),
            tracker@ == replay(all.subrange(0, i as int)).0,
            match current {
                Some(a) => replay(all.subrange(0, i as int)).1 == Some(a.label@),
                None => replay(all.subrange(0, i as int)).1 is None,
            },
        decreases events@.len() - i,
    {
        proof {
            let sub = all.subrange(0, i + 1);
            assert(sub.drop_last() =~= all.subrange(0, i as int));
            assert(sub.last() == events@[i as int]@);
        }
        match tracker.tick(&events[i]) {
            ActivityTick::Keep => {},
            ActivityTick::Clear => {
                current = None;
            },
            ActivityTick::Show(activity) => {
                current = Some(activity);
            },
        }
        i = i + 1;
    }
    assert(all.subrange(0, i as int) =~= all);
    current
}

/// What a journaled run did, for a turn rebuilt from the journal.
pub fn deeds_from_replay(events: &[Json]) -> (r: Vec<String>)
    ensures
        r@.map_values(|s: String| s@) == ({
            let t = replay(frames(events@)).0;
            deeds_of(t.order, t.names, t.args)
        }),
{
    let ghost all = frames(events@);
    let mut tracker = ToolCallTracker::new();
    let mut i: usize = 0;
    while i < events.len()
        invariant
            i <= events@.len(),
            all == frames(events@),
            tracker@ == replay(all.subrange(0, i as int)).0,
        decreases events@.len() - i,
    {
        proof {
            let sub = all.subrange(0, i + 1);
            assert(sub.drop_last() =~= all.subrange(0, i as int));
            assert(sub.last() == events@[i as int]@);
        }
        tracker.tick(&events[i]);
        i = i + 1;
    }
    assert(all.subrange(0, i as int) =~= all);
    tracker.deeds()
}

/// How many deeds the stand-in names.
pub const STANDIN_DEEDS: usize = 3;

/// The parts joined with a separator.
pub open spec fn joined_with(parts: Seq<Seq<char>>, sep: Seq<char>) -> Seq<char>
    decreases parts.len(),
{
    if parts.len() == 0 {
        Seq::empty()
    } else if parts.len() == 1 {
        parts[0]
    } else {
        joined_with(parts.drop_last(), sep) + sep + parts.last()
    }
}

/// The line a turn that acted but said nothing leaves in the transcript: its
/// first three deeds, joined by `, then `, with `…` when there were more, in
/// brackets. A turn with no deeds leaves none.
pub open spec fn standin(deeds: Seq<Seq<char>>) -> Option<Seq<char>> {
    if deeds.len() == 0 {
        None
    } else {
        let shown = if deeds.len() <= STANDIN_DEEDS {
            deeds
        } else {
            deeds.take(STANDIN_DEEDS as int)
        };
        let line = joined_with(shown, ", then "@);
        Some(
            "["@ + (if deeds.len() > STANDIN_DEEDS {
                line.push('…')
            } else {
                line
            }) + "]"@,
        )
    }
}

pub fn tool_standin(deeds: &[String]) -> (r: Option<String>)
    ensures
        opt_seq(r) == standin(deeds@.map_values(|s: String| s@)),
{
    let ghost all = deeds@.map_values(|s: String| s@);
    if deeds.len() == 0 {
        return None;
    }
    let n = if deeds.len() <= STANDIN_DEEDS {
        deeds.len()
    } else {
        STANDIN_DEEDS
    };
    let mut line = String::new();
    let mut i: usize = 0;
    while i < n
        invariant
            n <= deeds@.len(),
            n == (if deeds@.len() <= STANDIN_DEEDS {
                deeds@.len()
            } else {
                STANDIN_DEEDS as nat
            }),
            i <= n,
            all == deeds@.map_values(|s: String| s@),
            line@ == joined_with(all.take(i as int), ", then "@),
        decreases n - i,
    {
        if i > 0 {
            push_str(&mut line, ", then ");
        }
        push_str(&mut line, deeds[i].as_str());
        proof {
            let sub = all.take(i + 1);
            assert(sub.drop_last() =~= all.take(i as int));
            assert(sub.last() == deeds@[i as int]@);
            if i == 0 {
                assert(sub.len() == 1);
            }
        }
        i = i + 1;
    }
    proof {
        if deeds@.len() <= STANDIN_DEEDS {
            assert(all.take(n as int) =~= all);
        }
    }
    if deeds.len() > STANDIN_DEEDS {
        line.push('…');
    }
    let mut out = owned("[");
    push_str(&mut out, line.as_str());
    push_str(&mut out, "]");
    Some(out)
}

/// The tracker after a run of frames, each learnt from in turn.
pub open spec fn after_frames(t: TrackerV, events: Seq<JsonV>) -> TrackerV
    decreases events.len(),
{
    if events.len() == 0 {
        t
    } else {
        after_frame(after_frames(t, events.drop_last()), events.last())
    }
}

/// The call ids of a run, in the order each first came, once each.
pub open spec fn call_ids(events: Seq<JsonV>) -> Seq<Seq<char>>
    decreases events.len(),
{
    if events.len() == 0 {
        Seq::empty()
    } else {
        let prev = call_ids(events.drop_last());
        match str_at(events.last(), "toolCallId"@) {
            Some(id) => if prev.contains(id) {
                prev
            } else {
                prev.push(id)
            },
            None => prev,
        }
    }
}

/// The last tool name a run gave a call, if it gave one.
pub open spec fn name_of(events: Seq<JsonV>, id: Seq<char>) -> Option<Seq<char>>
    decreases events.len(),
{
    if events.len() == 0 {
        None
    } else {
        let e = events.last();
        if str_at(e, "toolCallId"@) == Some(id) && str_at(e, "toolCallName"@) is Some {
            str_at(e, "toolCallName"@)
        } else {
            name_of(events.drop_last(), id)
        }
    }
}

/// A call's arguments as a run spelled them: the last `arguments` value as
/// JSON text, with every `delta` after it appended; none when no frame of the
/// call carried either.
pub open spec fn args_of(events: Seq<JsonV>, id: Seq<char>) -> Option<Seq<char>>
    decreases events.len(),
{
    if events.len() == 0 {
        None
    } else {
        let e = events.last();
        let prev = args_of(events.drop_last(), id);
        if str_at(e, "toolCallId"@) == Some(id) {
            match get(e, "arguments"@) {
                Some(a) => Some(json_text(a)),
                None => match str_at(e, "delta"@) {
                    Some(d) => Some(or_else(prev, Seq::empty()) + d),
                    None => prev,
                },
            }
        } else {
            prev
        }
    }
}

/// The deeds of a run over its call ids: each id with a name, its deed from
/// its last name and its arguments, later repeats and calls with no deed
/// left out.
pub open spec fn deeds_in(ids: Seq<Seq<char>>, events: Seq<JsonV>) -> Seq<Seq<char>>
    decreases ids.len(),
{
    if ids.len() == 0 {
        Seq::empty()
    } else {
        let prev = deeds_in(ids.drop_last(), events);
        match name_of(events, ids.last()) {
            None => prev,
            Some(n) => match tool_deed(n, parsed_args(args_of(events, ids.last()))) {
                Some(d) => if prev.contains(d) {
                    prev
                } else {
                    prev.push(d)
                },
                None => prev,
            },
        }
    }
}

proof fn lemma_tracker_after_run(events: Seq<JsonV>)
    ensures
        after_frames(empty_tracker(), events).order == call_ids(events),
        forall|id: Seq<char>|
            lookup(#[trigger] after_frames(empty_tracker(), events).names, Some(id)) == name_of(
                events,
                id,
            ),
        forall|id: Seq<char>|
            lookup(#[trigger] after_frames(empty_tracker(), events).args, Some(id)) == args_of(
                events,
                id,
            ),
    decreases events.len(),
{
    if events.len() > 0 {
        lemma_tracker_after_run(events.drop_last());
        let t = after_frames(empty_tracker(), events.drop_last());
        let e = events.last();
        let now = after_frames(empty_tracker(), events);
        assert(now == after_frame(t, e));
        assert forall|id: Seq<char>| lookup(#[trigger] now.names, Some(id)) == name_of(events, id) by {
            assert(lookup(t.names, Some(id)) == name_of(events.drop_last(), id));
        }
        assert forall|id: Seq<char>| lookup(#[trigger] now.args, Some(id)) == args_of(events, id) by {
            assert(lookup(t.args, Some(id)) == args_of(events.drop_last(), id));
            if str_at(e, "toolCallId"@) == Some(id) && get(e, "arguments"@) is None {
                if str_at(e, "delta"@) is Some {
                    assert(typed(t.args, id) == or_else(
                        args_of(events.drop_last(), id),
                        Seq::empty(),
                    ));
                }
            }
        }
    }
}

proof fn lemma_deeds_agree(
    ids: Seq<Seq<char>>,
    events: Seq<JsonV>,
    names: Map<Seq<char>, Seq<char>>,
    args: Map<Seq<char>, Seq<char>>,
)
    requires
        forall|id: Seq<char>| lookup(names, Some(id)) == #[trigger] name_of(events, id),
        forall|id: Seq<char>| lookup(args, Some(id)) == #[trigger] args_of(events, id),
    ensures
        deeds_of(ids, names, args) == deeds_in(ids, events),
    decreases ids.len(),
{
    if ids.len() > 0 {
        lemma_deeds_agree(ids.drop_last(), events, names, args);
        let id = ids.last();
        assert(lookup(names, Some(id)) == name_of(events, id));
        assert(lookup(args, Some(id)) == args_of(events, id));
    }
}

/// What a run did, read off the tracker that saw it from the start: for
/// each call id in the order it first came, the deed of its last tool name
/// with the arguments its frames spelled, calls with no name or no deed
/// left out, each deed once.
pub proof fn lemma_deeds_of_a_run(events: Seq<JsonV>)
    ensures
        ({
            let t = after_frames(empty_tracker(), events);
            &&& deeds_of(t.order, t.names, t.args) == deeds_in(call_ids(events), events)
            &&& no_repeats(deeds_in(call_ids(events), events))
        }),
{
    lemma_tracker_after_run(events);
    let t = after_frames(empty_tracker(), events);
    lemma_deeds_agree(call_ids(events), events, t.names, t.args);
    lemma_deeds_said_once(t.order, t.names, t.args);
}

/// A turn's story says each deed once.
pub proof fn lemma_deeds_said_once(
    order: Seq<Seq<char>>,
    names: Map<Seq<char>, Seq<char>>,
    args: Map<Seq<char>, Seq<char>>,
)
    ensures
        no_repeats(deeds_of(order, names, args)),
    decreases order.len(),
{
    if order.len() > 0 {
        lemma_deeds_said_once(order.drop_last(), names, args);
        let prev = deeds_of(order.drop_last(), names, args);
        let now = deeds_of(order, names, args);
        if now != prev {
            assert forall|i: int, j: int|
                0 <= i < now.len() && 0 <= j < now.len() && i != j implies #[trigger] now[i]
                != #[trigger] now[j] by {
                if i < prev.len() && j < prev.len() {
                    assert(now[i] == prev[i] && now[j] == prev[j]);
                } else if i < prev.len() {
                    assert(now[i] == prev[i]);
                    assert(prev.contains(prev[i]));
                } else {
                    assert(now[j] == prev[j]);
                    assert(prev.contains(prev[j]));
                }
            }
        }
    }
}

} // verus!
