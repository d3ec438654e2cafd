//! What the client sends to the server and how it reads what comes back:
//! the request bodies whose members depend on what was asked, and the
//! verdicts on replies whose status alone does not say what happened. The
//! round trips themselves are the app's.

use vstd::prelude::*;

use crate::client::{
    TurnRecipe, ConnectedComputer, DaemonMachine, LocalExecMode, NewSchedule, NewSkill,
    RevealedSecrets, ScheduleRow, SiteLoginSave, SkillFile, SkillSource, RECIPE_SCREEN_HEIGHT,
    RECIPE_SCREEN_WIDTH,
};
use crate::error::{reads_as_gateway_down, Failure, OpenGrokError, Unreachable};
use crate::json::{
    array_of, items_view, members_view, object_of, parse_json, parsed_json, str_at, text_json,
    unsigned_json, unsigned_number, Json, JsonV,
};
use crate::gen_ui::{agui_tools, bar_chart_tool, form_tool};
use crate::text::{or_else, owned, same, str_opt, trim, trimmed};
use crate::types::{AguiMessage, ReplyQuote};
use crate::user_form::{
    box_handoff_action_from_http, box_reply, is_form_reply, user_form_action_from_http,
    BoxHandoffReply, UserFormActionReply,
};

verus! {

/// A member, when it is to be sent.
pub open spec fn member_if(send: bool, key: Seq<char>, value: JsonV) -> Seq<(Seq<char>, JsonV)> {
    if send {
        seq![(key, value)]
    } else {
        Seq::empty()
    }
}

fn push_member(e: &mut Vec<(String, Json)>, key: &str, value: Json)
    ensures
        members_view(final(e)@) == members_view(old(e)@).push((key@, value@)),
{
    let ghost before = members_view(e@);
    let ghost v = value@;
    e.push((owned(key), value));
    assert(members_view(e@) =~= before.push((key@, v)));
}

fn push_text_if(e: &mut Vec<(String, Json)>, send: bool, key: &str, text: &str)
    ensures
        members_view(final(e)@) == members_view(old(e)@) + member_if(send, key@, JsonV::Str(text@)),
{
    let ghost before = members_view(e@);
    if send {
        push_member(e, key, text_json(text));
        assert(members_view(e@) =~= before + member_if(send, key@, JsonV::Str(text@)));
    } else {
        assert(members_view(e@) =~= before + member_if(send, key@, JsonV::Str(text@)));
    }
}

/// An optional text, sent only when it is there and not empty.
pub open spec fn nonempty_text(t: Option<Seq<char>>) -> Option<Seq<char>> {
    match t {
        Some(s) if s.len() > 0 => Some(s),
        _ => None,
    }
}

/// `POST /coworkers`: the name, and the model when one was picked.
pub open spec fn hire_value(name: Seq<char>, model: Option<Seq<char>>) -> JsonV {
    JsonV::Object(
        member_if(nonempty_text(model) is Some, "model"@, JsonV::Str(or_else(model, Seq::empty())))
            + Seq::empty().push(("name"@, JsonV::Str(name))),
    )
}

pub fn hire_body(name: &str, model: Option<&str>) -> (r: Json)
    ensures
        r@ == hire_value(name@, str_opt(model)),
{
    let mut e: Vec<(String, Json)> = Vec::new();
    let m: &str = match model {
        Some(m) => m,
        None => "",
    };
    proof {
        reveal_strlit("");
    }
    assert(m@ == or_else(str_opt(model), Seq::empty()));
    push_text_if(&mut e, m.unicode_len() > 0, "model", m);
    push_member(&mut e, "name", text_json(name));
    assert(members_view(e@) =~= member_if(
        nonempty_text(str_opt(model)) is Some,
        "model"@,
        JsonV::Str(m@),
    ) + Seq::empty().push(("name"@, JsonV::Str(name@))));
    object_of(e)
}

/// `POST /local-exec/daemon`: the label, and the machine id to take over
/// when there is one.
pub open spec fn enrol_value(label: Seq<char>, machine_id: Option<Seq<char>>) -> JsonV {
    JsonV::Object(
        Seq::empty().push(("label"@, JsonV::Str(label))) + member_if(
            nonempty_text(machine_id) is Some,
            "machineId"@,
            JsonV::Str(or_else(machine_id, Seq::empty())),
        ),
    )
}

pub fn enrol_body(label: &str, machine_id: Option<&str>) -> (r: Json)
    ensures
        r@ == enrol_value(label@, str_opt(machine_id)),
{
    proof {
        reveal_strlit("");
    }
    let id: &str = match machine_id {
        Some(m) => m,
        None => "",
    };
    assert(id@ == or_else(str_opt(machine_id), Seq::empty()));
    let mut e: Vec<(String, Json)> = Vec::new();
    push_member(&mut e, "label", text_json(label));
    push_text_if(&mut e, id.unicode_len() > 0, "machineId", id);
    assert(members_view(e@) =~= Seq::empty().push(("label"@, JsonV::Str(label@))) + member_if(
        nonempty_text(str_opt(machine_id)) is Some,
        "machineId"@,
        JsonV::Str(id@),
    ));
    object_of(e)
}

/// `POST /schedules`: the coworker, the cron line when there is one, the
/// kind's word, the name unless it is blank, and the prompt.
pub open spec fn schedule_value(
    coworker_id: Seq<char>,
    cron: Option<Seq<char>>,
    kind_word: Seq<char>,
    name: Seq<char>,
    prompt: Seq<char>,
) -> JsonV {
    JsonV::Object(
        Seq::empty().push(("coworkerId"@, JsonV::Str(coworker_id))) + member_if(
            cron is Some,
            "cron"@,
            JsonV::Str(or_else(cron, Seq::empty())),
        ) + Seq::empty().push(("kind"@, JsonV::Str(kind_word))) + member_if(
            trim(name).len() > 0,
            "name"@,
            JsonV::Str(name),
        ) + Seq::empty().push(("prompt"@, JsonV::Str(prompt))),
    )
}

pub fn schedule_body(new: &NewSchedule) -> (r: Json)
    ensures
        r@ == schedule_value(
            new.coworker_id@,
            match new.cron {
                Some(c) => Some(c@),
                None => None,
            },
            crate::client::schedule_word(new.kind),
            new.name@,
            new.prompt@,
        ),
{
    proof {
        reveal_strlit("");
    }
    let mut e: Vec<(String, Json)> = Vec::new();
    push_member(&mut e, "coworkerId", text_json(new.coworker_id.as_str()));
    let cron: &str = match &new.cron {
        Some(c) => c.as_str(),
        None => "",
    };
    push_text_if(&mut e, new.cron.is_some(), "cron", cron);
    push_member(&mut e, "kind", text_json(new.kind.word()));
    let named = trimmed(new.name.as_str()).as_str().unicode_len() > 0;
    push_text_if(&mut e, named, "name", new.name.as_str());
    push_member(&mut e, "prompt", text_json(new.prompt.as_str()));
    assert(members_view(e@) =~= Seq::empty().push(("coworkerId"@, JsonV::Str(new.coworker_id@)))
        + member_if(new.cron is Some, "cron"@, JsonV::Str(cron@)) + Seq::empty().push(
        ("kind"@, JsonV::Str(crate::client::schedule_word(new.kind))),
    ) + member_if(trim(new.name@).len() > 0, "name"@, JsonV::Str(new.name@)) + Seq::empty().push(
        ("prompt"@, JsonV::Str(new.prompt@)),
    ));
    object_of(e)
}

/// A supporting file as it travels: its base64 bytes and its path.
pub open spec fn file_value(f: SkillFile) -> JsonV {
    JsonV::Object(seq![("bytes"@, JsonV::Str(f.bytes@)), ("path"@, JsonV::Str(f.path@))])
}

pub open spec fn files_value(files: Seq<SkillFile>) -> JsonV {
    JsonV::Array(files.map_values(|f: SkillFile| file_value(f)))
}

fn files_json(files: &[SkillFile]) -> (r: Json)
    ensures
        r@ == files_value(files@),
{
    let mut items: Vec<Json> = Vec::new();
    let mut i: usize = 0;
    while i < files.len()
        invariant
            i <= files@.len(),
            items_view(items@) == files@.take(i as int).map_values(|f: SkillFile| file_value(f)),
        decreases files@.len() - i,
    {
        let mut e: Vec<(String, Json)> = Vec::new();
        push_member(&mut e, "bytes", text_json(files[i].bytes.as_str()));
        push_member(&mut e, "path", text_json(files[i].path.as_str()));
        assert(members_view(e@) =~= seq![
            ("bytes"@, JsonV::Str(files@[i as int].bytes@)),
            ("path"@, JsonV::Str(files@[i as int].path@)),
        ]);
        let ghost before = items_view(items@);
        items.push(object_of(e));
        assert(items_view(items@) =~= before.push(file_value(files@[i as int])));
        assert(files@.take(i + 1).map_values(|f: SkillFile| file_value(f)) =~= files@.take(
            i as int,
        ).map_values(|f: SkillFile| file_value(f)).push(file_value(files@[i as int])));
        i = i + 1;
    }
    assert(files@.take(i as int) =~= files@);
    array_of(items)
}

/// `POST /skills`: the prose and the description unless blank (no prose
/// leaves a draft), the files when there are any, the name and the source's
/// word.
pub open spec fn skill_value(new: NewSkill) -> JsonV {
    JsonV::Object(
        member_if(trim(new.body@).len() > 0, "body"@, JsonV::Str(new.body@)) + member_if(
            trim(new.description@).len() > 0,
            "description"@,
            JsonV::Str(new.description@),
        ) + member_if(new.files@.len() > 0, "files"@, files_value(new.files@)) + Seq::empty().push(
            ("name"@, JsonV::Str(new.name@)),
        ) + Seq::empty().push(("source"@, JsonV::Str(crate::client::source_word(new.source)))),
    )
}

fn push_files_if(e: &mut Vec<(String, Json)>, files: &[SkillFile])
    ensures
        members_view(final(e)@) == members_view(old(e)@) + member_if(
            files@.len() > 0,
            "files"@,
            files_value(files@),
        ),
{
    let ghost before = members_view(e@);
    if files.len() > 0 {
        push_member(e, "files", files_json(files));
        assert(members_view(e@) =~= before + member_if(
            files@.len() > 0,
            "files"@,
            files_value(files@),
        ));
    } else {
        assert(members_view(e@) =~= before + member_if(
            files@.len() > 0,
            "files"@,
            files_value(files@),
        ));
    }
}

pub fn skill_body(new: &NewSkill) -> (r: Json)
    ensures
        r@ == skill_value(*new),
{
    let mut e: Vec<(String, Json)> = Vec::new();
    let has_body = trimmed(new.body.as_str()).as_str().unicode_len() > 0;
    push_text_if(&mut e, has_body, "body", new.body.as_str());
    let described = trimmed(new.description.as_str()).as_str().unicode_len() > 0;
    push_text_if(&mut e, described, "description", new.description.as_str());
    push_files_if(&mut e, new.files.as_slice());
    push_member(&mut e, "name", text_json(new.name.as_str()));
    push_member(&mut e, "source", text_json(new.source.word()));
    assert(members_view(e@) =~= member_if(trim(new.body@).len() > 0, "body"@, JsonV::Str(new.body@))
        + member_if(
        trim(new.description@).len() > 0,
        "description"@,
        JsonV::Str(new.description@),
    ) + member_if(new.files@.len() > 0, "files"@, files_value(new.files@)) + Seq::empty().push(
        ("name"@, JsonV::Str(new.name@)),
    ) + Seq::empty().push(("source"@, JsonV::Str(crate::client::source_word(new.source)))));
    object_of(e)
}

/// The recipe screen every tape is taught on.
pub open spec fn screen_value() -> JsonV {
    JsonV::Object(
        seq![
            ("height"@, unsigned_number(RECIPE_SCREEN_HEIGHT as u64)),
            ("width"@, unsigned_number(RECIPE_SCREEN_WIDTH as u64)),
        ],
    )
}

fn screen_json() -> (r: Json)
    ensures
        r@ == screen_value(),
{
    let mut e: Vec<(String, Json)> = Vec::new();
    push_member(&mut e, "height", unsigned_json(RECIPE_SCREEN_HEIGHT as u64));
    push_member(&mut e, "width", unsigned_json(RECIPE_SCREEN_WIDTH as u64));
    assert(members_view(e@) =~= seq![
        ("height"@, unsigned_number(RECIPE_SCREEN_HEIGHT as u64)),
        ("width"@, unsigned_number(RECIPE_SCREEN_WIDTH as u64)),
    ]);
    object_of(e)
}

fn tape_json(raw: &[Json]) -> (r: Json)
    ensures
        r@ == JsonV::Array(items_view(raw@)),
{
    let mut items: Vec<Json> = Vec::new();
    let mut i: usize = 0;
    while i < raw.len()
        invariant
            i <= raw@.len(),
            items_view(items@) == items_view(raw@.take(i as int)),
        decreases raw@.len() - i,
    {
        let ghost before = items_view(items@);
        items.push(raw[i].copy());
        assert(items_view(items@) =~= before.push(raw@[i as int]@));
        assert(items_view(raw@.take(i + 1)) =~= items_view(raw@.take(i as int)).push(
            raw@[i as int]@,
        ));
        i = i + 1;
    }
    assert(raw@.take(i as int) =~= raw@);
    array_of(items)
}

/// `POST /recipes`: the description, the name, the tape and its screen.
pub open spec fn recipe_value(name: Seq<char>, description: Seq<char>, raw: Seq<JsonV>) -> JsonV {
    JsonV::Object(
        seq![
            ("description"@, JsonV::Str(description)),
            ("name"@, JsonV::Str(name)),
            ("raw"@, JsonV::Array(raw)),
            ("screen"@, screen_value()),
        ],
    )
}

pub fn recipe_body(name: &str, description: &str, raw: &[Json]) -> (r: Json)
    ensures
        r@ == recipe_value(name@, description@, items_view(raw@)),
{
    let mut e: Vec<(String, Json)> = Vec::new();
    push_member(&mut e, "description", text_json(description));
    push_member(&mut e, "name", text_json(name));
    push_member(&mut e, "raw", tape_json(raw));
    push_member(&mut e, "screen", screen_json());
    assert(members_view(e@) =~= seq![
        ("description"@, JsonV::Str(description@)),
        ("name"@, JsonV::Str(name@)),
        ("raw"@, JsonV::Array(items_view(raw@))),
        ("screen"@, screen_value()),
    ]);
    object_of(e)
}

/// `POST /skills/from-tape`: the coworker, the description and the name
/// unless blank (the server writes its own for either), the tape and its
/// screen.
pub open spec fn skill_from_tape_value(
    coworker_id: Seq<char>,
    name: Seq<char>,
    description: Seq<char>,
    raw: Seq<JsonV>,
) -> JsonV {
    JsonV::Object(
        Seq::empty().push(("coworkerId"@, JsonV::Str(coworker_id))) + member_if(
            trim(description).len() > 0,
            "description"@,
            JsonV::Str(description),
        ) + member_if(trim(name).len() > 0, "name"@, JsonV::Str(name)) + Seq::empty().push(
            ("raw"@, JsonV::Array(raw)),
        ) + Seq::empty().push(("screen"@, screen_value())),
    )
}

pub fn skill_from_tape_body(coworker_id: &str, name: &str, description: &str, raw: &[Json]) -> (r:
    Json)
    ensures
        r@ == skill_from_tape_value(coworker_id@, name@, description@, items_view(raw@)),
{
    let mut e: Vec<(String, Json)> = Vec::new();
    push_member(&mut e, "coworkerId", text_json(coworker_id));
    let described = trimmed(description).as_str().unicode_len() > 0;
    push_text_if(&mut e, described, "description", description);
    let named = trimmed(name).as_str().unicode_len() > 0;
    push_text_if(&mut e, named, "name", name);
    push_member(&mut e, "raw", tape_json(raw));
    push_member(&mut e, "screen", screen_json());
    assert(members_view(e@) =~= Seq::empty().push(("coworkerId"@, JsonV::Str(coworker_id@)))
        + member_if(trim(description@).len() > 0, "description"@, JsonV::Str(description@))
        + member_if(trim(name@).len() > 0, "name"@, JsonV::Str(name@)) + Seq::empty().push(
        ("raw"@, JsonV::Array(items_view(raw@))),
    ) + Seq::empty().push(("screen"@, screen_value())));
    object_of(e)
}

/// `POST /skills/{id}/versions`: the prose, the files when there are any,
/// the source's word, and the note unless blank.
pub open spec fn skill_version_value(
    body: Seq<char>,
    note: Seq<char>,
    source: SkillSource,
    files: Seq<SkillFile>,
) -> JsonV {
    JsonV::Object(
        Seq::empty().push(("body"@, JsonV::Str(body))) + member_if(
            files.len() > 0,
            "files"@,
            files_value(files),
        ) + Seq::empty().push(("kind"@, JsonV::Str(crate::client::source_word(source))))
            + member_if(trim(note).len() > 0, "note"@, JsonV::Str(note)),
    )
}

pub fn skill_version_body(body: &str, note: &str, source: SkillSource, files: &[SkillFile]) -> (r:
    Json)
    ensures
        r@ == skill_version_value(body@, note@, source, files@),
{
    let mut e: Vec<(String, Json)> = Vec::new();
    push_member(&mut e, "body", text_json(body));
    push_files_if(&mut e, files);
    push_member(&mut e, "kind", text_json(source.word()));
    let noted = trimmed(note).as_str().unicode_len() > 0;
    push_text_if(&mut e, noted, "note", note);
    assert(members_view(e@) =~= Seq::empty().push(("body"@, JsonV::Str(body@))) + member_if(
        files@.len() > 0,
        "files"@,
        files_value(files@),
    ) + Seq::empty().push(("kind"@, JsonV::Str(crate::client::source_word(source)))) + member_if(
        trim(note@).len() > 0,
        "note"@,
        JsonV::Str(note@),
    ));
    object_of(e)
}

/// `POST /site-logins`: where, who, how it is labelled and noted, its kind,
/// and whichever secrets it has.
pub open spec fn site_login_value(
    origin: Seq<char>,
    username: Seq<char>,
    label: Seq<char>,
    notes: Seq<char>,
    kind: Seq<char>,
    password: Option<Seq<char>>,
    otpauth: Option<Seq<char>>,
) -> JsonV {
    JsonV::Object(
        seq![
            ("kind"@, JsonV::Str(kind)),
            ("label"@, JsonV::Str(label)),
            ("notes"@, JsonV::Str(notes)),
            ("origin"@, JsonV::Str(origin)),
        ] + member_if(otpauth is Some, "otpauth"@, JsonV::Str(or_else(otpauth, Seq::empty())))
            + member_if(
            password is Some,
            "password"@,
            JsonV::Str(or_else(password, Seq::empty())),
        ) + Seq::empty().push(("username"@, JsonV::Str(username))),
    )
}

pub fn site_login_body(save: &SiteLoginSave) -> (r: Json)
    ensures
        r@ == site_login_value(
            save.origin@,
            save.username@,
            save.label@,
            save.notes@,
            save.kind@,
            str_opt(save.password),
            str_opt(save.otpauth),
        ),
{
    proof {
        reveal_strlit("");
    }
    let mut e: Vec<(String, Json)> = Vec::new();
    push_member(&mut e, "kind", text_json(save.kind));
    push_member(&mut e, "label", text_json(save.label));
    push_member(&mut e, "notes", text_json(save.notes));
    push_member(&mut e, "origin", text_json(save.origin));
    assert(members_view(e@) =~= seq![
        ("kind"@, JsonV::Str(save.kind@)),
        ("label"@, JsonV::Str(save.label@)),
        ("notes"@, JsonV::Str(save.notes@)),
        ("origin"@, JsonV::Str(save.origin@)),
    ]);
    let otp: &str = match save.otpauth {
        Some(o) => o,
        None => "",
    };
    assert(otp@ == or_else(str_opt(save.otpauth), Seq::empty()));
    push_text_if(&mut e, save.otpauth.is_some(), "otpauth", otp);
    let password: &str = match save.password {
        Some(p) => p,
        None => "",
    };
    assert(password@ == or_else(str_opt(save.password), Seq::empty()));
    push_text_if(&mut e, save.password.is_some(), "password", password);
    push_member(&mut e, "username", text_json(save.username));
    assert(members_view(e@) =~= seq![
        ("kind"@, JsonV::Str(save.kind@)),
        ("label"@, JsonV::Str(save.label@)),
        ("notes"@, JsonV::Str(save.notes@)),
        ("origin"@, JsonV::Str(save.origin@)),
    ] + member_if(save.otpauth is Some, "otpauth"@, JsonV::Str(otp@)) + member_if(
        save.password is Some,
        "password"@,
        JsonV::Str(password@),
    ) + Seq::empty().push(("username"@, JsonV::Str(save.username@))));
    object_of(e)
}

/// A reveal's secret at `key`, when it says something.
pub open spec fn secret_at(body: JsonV, key: Seq<char>) -> Option<Seq<char>> {
    nonempty_text(str_at(body, key))
}

fn secret_of(body: &Json, key: &str) -> (r: Option<String>)
    ensures
        match r {
            Some(s) => secret_at(body@, key@) == Some(s@),
            None => secret_at(body@, key@) is None,
        },
{
    match body.str_at(key) {
        Some(s) => if s.unicode_len() > 0 {
            Some(owned(s))
        } else {
            None
        },
        None => None,
    }
}

/// Both secrets a reveal carried, whichever the row has.
pub fn revealed_secrets(body: &Json) -> (r: RevealedSecrets)
    ensures
        match r.password {
            Some(p) => secret_at(body@, "password"@) == Some(p@),
            None => secret_at(body@, "password"@) is None,
        },
        match r.otpauth {
            Some(o) => secret_at(body@, "otpauth"@) == Some(o@),
            None => secret_at(body@, "otpauth"@) is None,
        },
{
    RevealedSecrets { password: secret_of(body, "password"), otpauth: secret_of(body, "otpauth") }
}

/// The password a reveal carried; a reveal without one is the server's
/// answer with nothing in it.
pub fn revealed_password(body: &Json) -> (r: Result<String, OpenGrokError>)
    ensures
        match r {
            Ok(p) => str_at(body@, "password"@) == Some(p@),
            Err(e) => str_at(body@, "password"@) is None && e.code() == Some(200u16) && e.words()
                == "the reveal carried no password"@,
        },
{
    match body.str_at("password") {
        Some(p) => Ok(owned(p)),
        None => Err(OpenGrokError::from_server(Some(200), owned("the reveal carried no password"))),
    }
}

/// A reply's body as a value: null when it is blank or is not JSON.
pub open spec fn reply_value(text: Seq<char>) -> JsonV {
    if trim(text).len() == 0 {
        JsonV::Null
    } else {
        or_else(parsed_json(text), JsonV::Null)
    }
}

fn reply_json(text: &str) -> (r: Json)
    ensures
        r@ == reply_value(text@),
{
    if trimmed(text).as_str().unicode_len() == 0 {
        Json::Null
    } else {
        match parse_json(text) {
            Some(v) => v,
            None => Json::Null,
        }
    }
}

/// A status in the 2xx range.
pub open spec fn succeeded(status: u16) -> bool {
    200 <= status < 300
}

/// How a submit or dismiss came back: a 404 or a 403 is read for which card
/// it is about; any other failure is the server's error, in `message`, the
/// words the app read out of the body; a success is read as a card.
pub fn user_form_reply(status: u16, text: &str, message: String) -> (r: Result<
    UserFormActionReply,
    OpenGrokError,
>)
    ensures
        (status == 404 || status == 403 || succeeded(status)) ==> r is Ok,
        r is Ok ==> is_form_reply(r->Ok_0, status, reply_value(text@)),
        !(status == 404 || status == 403 || succeeded(status)) ==> (r is Err && r->Err_0.code()
            == Some(status) && r->Err_0.words() == message@),
{
    let value = reply_json(text);
    if status == 404 || status == 403 {
        return Ok(user_form_action_from_http(status, &value));
    }
    if !(200 <= status && status < 300) {
        return Err(OpenGrokError::from_server(Some(status), message));
    }
    Ok(user_form_action_from_http(status, &value))
}

/// How a box hand-back came back: a 404 is read; any other failure is the
/// server's error; a success is read.
pub fn box_handoff_reply(status: u16, text: &str, message: String) -> (r: Result<
    BoxHandoffReply,
    OpenGrokError,
>)
    ensures
        (status == 404 || succeeded(status)) ==> r is Ok,
        r is Ok ==> r->Ok_0 == box_reply(status, reply_value(text@)),
        !(status == 404 || succeeded(status)) ==> (r is Err && r->Err_0.code() == Some(status)
            && r->Err_0.words() == message@),
{
    let value = reply_json(text);
    if status == 404 {
        return Ok(box_handoff_action_from_http(status, &value));
    }
    if !(200 <= status && status < 300) {
        return Err(OpenGrokError::from_server(Some(status), message));
    }
    Ok(box_handoff_action_from_http(status, &value))
}

/// What a site's icon request came to.
#[derive(Debug, Clone, Copy, PartialEq, Eq, Structural)]
pub enum IconReply {
    /// No icon: the server has none (204) or no such route (404).
    Absent,
    /// Read the bytes.
    Read,
    /// The server's error.
    Refused,
}

pub fn icon_reply(status: u16) -> (r: IconReply)
    ensures
        r == (if status == 204 || status == 404 {
            IconReply::Absent
        } else if succeeded(status) {
            IconReply::Read
        } else {
            IconReply::Refused
        }),
{
    if status == 204 || status == 404 {
        IconReply::Absent
    } else if 200 <= status && status < 300 {
        IconReply::Read
    } else {
        IconReply::Refused
    }
}

/// An icon's bytes, or none when the body was empty.
pub fn icon_bytes(bytes: Vec<u8>) -> (r: Option<Vec<u8>>)
    ensures
        match r {
            Some(b) => b@ == bytes@ && bytes@.len() > 0,
            None => bytes@.len() == 0,
        },
{
    if bytes.len() > 0 {
        Some(bytes)
    } else {
        None
    }
}

/// A delete of a row the server no longer has counts as done.
pub fn deleted(status: u16) -> (r: bool)
    ensures
        r == (status == 404 || succeeded(status)),
{
    status == 404 || (200 <= status && status < 300)
}

/// A refusal from `/skills/from-tape`. On this route a `502` is the model
/// having written nothing that can be kept and a `504` its overrunning the
/// server's time: verdicts about this recording. Only the server saying it
/// could not reach the gateway is the gateway out of reach.
pub fn tape_error(status: u16, message: String) -> (r: OpenGrokError)
    ensures
        r.code() == Some(status),
        r.words() == message@,
        r.kind() == (if reads_as_gateway_down(message@) {
            Failure::OutOfReach(Unreachable::Gateway)
        } else {
            Failure::Verdict
        }),
{
    if crate::error::reads_as_gateway_unreachable(message.as_str()) {
        OpenGrokError::from_server(Some(status), message)
    } else {
        OpenGrokError::status(status, message)
    }
}

/// The machines the roster is made of: every one not revoked, in order.
pub open spec fn live_machines_of(machines: Seq<DaemonMachine>) -> Seq<DaemonMachine>
    decreases machines.len(),
{
    if machines.len() == 0 {
        Seq::empty()
    } else if machines.last().revoked {
        live_machines_of(machines.drop_last())
    } else {
        live_machines_of(machines.drop_last()).push(machines.last())
    }
}

pub fn live_machines(machines: Vec<DaemonMachine>) -> (r: Vec<DaemonMachine>)
    ensures
        r@ == live_machines_of(machines@),
{
    let mut kept: Vec<DaemonMachine> = Vec::new();
    let mut rest = machines;
    let ghost all = rest@;
    let ghost mut done: Seq<DaemonMachine> = Seq::empty();
    while rest.len() > 0
        invariant
            all == done + rest@,
            kept@ == live_machines_of(done),
        decreases rest@.len(),
    {
        let ghost before = rest@;
        let m = rest.remove(0);
        proof {
            assert(before == seq![m] + rest@);
            assert(all == done.push(m) + rest@);
            assert(done.push(m).drop_last() =~= done);
            done = done.push(m);
        }
        if !m.revoked {
            kept.push(m);
        }
    }
    assert(done =~= all);
    kept
}

/// One row of the roster from a machine the server lists and its stored
/// mode: a blank label reads as `Computer`.
pub open spec fn roster_row(machine_id: Seq<char>, label: Seq<char>, stored_mode: Seq<char>, online: bool) -> (
    Seq<char>,
    Seq<char>,
    LocalExecMode,
    bool,
) {
    (
        machine_id,
        if trim(label).len() == 0 {
            "Computer"@
        } else {
            label
        },
        crate::client::mode_from_stored(stored_mode),
        online,
    )
}

pub fn computer_from(machine: &DaemonMachine, stored_mode: &str) -> (r: ConnectedComputer)
    ensures
        (r.machine_id@, r.label@, r.mode, r.online) == roster_row(
            machine.machine_id@,
            machine.label@,
            stored_mode@,
            machine.connected,
        ),
        !r.this_machine,
{
    let label = if trimmed(machine.label.as_str()).as_str().unicode_len() == 0 {
        owned("Computer")
    } else {
        owned(machine.label.as_str())
    };
    ConnectedComputer {
        machine_id: owned(machine.machine_id.as_str()),
        label,
        mode: LocalExecMode::from_stored(stored_mode),
        this_machine: false,
        online: machine.connected,
    }
}

/// The rows kept for a coworker: those naming it, and those naming nobody.
pub open spec fn rows_for(rows: Seq<ScheduleRow>, coworker_id: Seq<char>) -> Seq<ScheduleRow>
    decreases rows.len(),
{
    if rows.len() == 0 {
        Seq::empty()
    } else {
        let rest = rows_for(rows.drop_last(), coworker_id);
        let row = rows.last();
        if row.coworker_id@.len() == 0 || row.coworker_id@ == coworker_id {
            rest.push(row)
        } else {
            rest
        }
    }
}

/// The schedules that are this coworker's, in order. A server that ignored
/// the query would otherwise put another bot's routines under this one.
pub fn schedules_for(rows: Vec<ScheduleRow>, coworker_id: &str) -> (r: Vec<ScheduleRow>)
    ensures
        r@ == rows_for(rows@, coworker_id@),
{
    let mut kept: Vec<ScheduleRow> = Vec::new();
    let mut rest = rows;
    let ghost all = rest@;
    let ghost mut done: Seq<ScheduleRow> = Seq::empty();
    while rest.len() > 0
        invariant
            all == done + rest@,
            kept@ == rows_for(done, coworker_id@),
        decreases rest@.len(),
    {
        let ghost before = rest@;
        let row = rest.remove(0);
        proof {
            assert(before == seq![row] + rest@);
            assert(all == done.push(row) + rest@);
            assert(done.push(row).drop_last() =~= done);
            done = done.push(row);
        }
        if row.coworker_id.as_str().unicode_len() == 0 || same(row.coworker_id.as_str(), coworker_id) {
            kept.push(row);
        }
    }
    assert(done =~= all);
    kept
}

/// A quoted message as it rides on a reply.
pub open spec fn quote_value(q: ReplyQuote) -> JsonV {
    JsonV::Object(
        seq![
            ("isMe"@, JsonV::Bool(q.is_me)),
            ("messageId"@, JsonV::Str(q.message_id@)),
            ("preview"@, JsonV::Str(q.preview@)),
        ],
    )
}

/// A turn's message as it travels: its words, id and role, and the quote
/// and the tool call it answers when it has them.
pub open spec fn message_value(m: AguiMessage) -> JsonV {
    JsonV::Object(
        seq![("content"@, JsonV::Str(m.content@)), ("id"@, JsonV::Str(m.id@))] + member_if(
            m.reply_to is Some,
            "replyTo"@,
            match m.reply_to {
                Some(q) => quote_value(q),
                None => JsonV::Null,
            },
        ) + seq![("role"@, JsonV::Str(m.role@))] + member_if(
            m.tool_call_id is Some,
            "toolCallId"@,
            JsonV::Str(
                match m.tool_call_id {
                    Some(t) => t@,
                    None => Seq::empty(),
                },
            ),
        ),
    )
}

/// What rides beside the messages: the coworker always; the recipe and
/// its values when one is running; the skill's id when one was picked.
pub open spec fn forwarded_value(
    coworker_id: Seq<char>,
    recipe: Option<(Seq<char>, Seq<(Seq<char>, JsonV)>)>,
    skill: Option<Seq<char>>,
) -> JsonV {
    JsonV::Object(
        seq![("coworkerId"@, JsonV::Str(coworker_id))] + match recipe {
            Some((id, values)) => seq![
                ("recipe"@, JsonV::Str(id)),
                ("recipeValues"@, JsonV::Object(values)),
            ],
            None => Seq::empty(),
        } + member_if(skill is Some, "skill"@, JsonV::Str(or_else(skill, Seq::empty()))),
    )
}

pub open spec fn recipe_view(recipe: Option<&TurnRecipe>) -> Option<(Seq<char>, Seq<(Seq<char>, JsonV)>)> {
    match recipe {
        Some(r) => Some((r.id@, members_view(r.values@))),
        None => None,
    }
}

/// `POST /ag-ui`: the props, the messages, the run the caller minted, the
/// thread, and the frontend tools.
pub open spec fn turn_value(
    coworker_id: Seq<char>,
    thread_id: Seq<char>,
    run_id: Seq<char>,
    messages: Seq<AguiMessage>,
    recipe: Option<(Seq<char>, Seq<(Seq<char>, JsonV)>)>,
    skill: Option<Seq<char>>,
) -> JsonV {
    JsonV::Object(
        seq![
            ("forwardedProps"@, forwarded_value(coworker_id, recipe, skill)),
            ("messages"@, JsonV::Array(messages.map_values(|m: AguiMessage| message_value(m)))),
            ("runId"@, JsonV::Str(run_id)),
            ("threadId"@, JsonV::Str(thread_id)),
            ("tools"@, JsonV::Array(seq![bar_chart_tool(), form_tool()])),
        ],
    )
}

/// A turn's message as it travels.
pub fn message_json(m: &AguiMessage) -> (r: Json)
    ensures
        r@ == message_value(*m),
{
    let mut e: Vec<(String, Json)> = Vec::new();
    push_member(&mut e, "content", text_json(m.content.as_str()));
    push_member(&mut e, "id", text_json(m.id.as_str()));
    let ghost with_id = members_view(e@);
    match &m.reply_to {
        Some(q) => {
            let mut qe: Vec<(String, Json)> = Vec::new();
            push_member(&mut qe, "isMe", Json::Bool(q.is_me));
            push_member(&mut qe, "messageId", text_json(q.message_id.as_str()));
            push_member(&mut qe, "preview", text_json(q.preview.as_str()));
            assert(members_view(qe@) =~= seq![
                ("isMe"@, JsonV::Bool(q.is_me)),
                ("messageId"@, JsonV::Str(q.message_id@)),
                ("preview"@, JsonV::Str(q.preview@)),
            ]);
            push_member(&mut e, "replyTo", object_of(qe));
        },
        None => {},
    }
    let ghost with_quote = members_view(e@);
    assert(with_quote =~= seq![("content"@, JsonV::Str(m.content@)), ("id"@, JsonV::Str(m.id@))]
        + member_if(
        m.reply_to is Some,
        "replyTo"@,
        match m.reply_to {
            Some(q) => quote_value(q),
            None => JsonV::Null,
        },
    ));
    push_member(&mut e, "role", text_json(m.role.as_str()));
    match &m.tool_call_id {
        Some(t) => push_member(&mut e, "toolCallId", text_json(t.as_str())),
        None => {},
    }
    assert(members_view(e@) =~= with_quote + seq![("role"@, JsonV::Str(m.role@))] + member_if(
        m.tool_call_id is Some,
        "toolCallId"@,
        JsonV::Str(
            match m.tool_call_id {
                Some(t) => t@,
                None => Seq::empty(),
            },
        ),
    ));
    object_of(e)
}

fn members_copy(values: &[(String, Json)]) -> (r: Vec<(String, Json)>)
    ensures
        members_view(r@) == members_view(values@),
{
    let mut out: Vec<(String, Json)> = Vec::new();
    let mut i: usize = 0;
    while i < values.len()
        invariant
            i <= values@.len(),
            members_view(out@) == members_view(values@.take(i as int)),
        decreases values@.len() - i,
    {
        let ghost before = members_view(out@);
        let item = (owned(values[i].0.as_str()), values[i].1.copy());
        out.push(item);
        assert(members_view(out@) =~= before.push((values@[i as int].0@, values@[i as int].1@)));
        assert(members_view(values@.take(i + 1)) =~= members_view(values@.take(i as int)).push(
            (values@[i as int].0@, values@[i as int].1@),
        ));
        i = i + 1;
    }
    assert(values@.take(i as int) =~= values@);
    out
}

fn forwarded_json(coworker_id: &str, recipe: Option<&TurnRecipe>, skill: Option<&str>) -> (r: Json)
    ensures
        r@ == forwarded_value(coworker_id@, recipe_view(recipe), str_opt(skill)),
{
    proof {
        reveal_strlit("");
    }
    let mut e: Vec<(String, Json)> = Vec::new();
    push_member(&mut e, "coworkerId", text_json(coworker_id));
    let ghost start = members_view(e@);
    match recipe {
        Some(r) => {
            push_member(&mut e, "recipe", text_json(r.id.as_str()));
            push_member(&mut e, "recipeValues", object_of(members_copy(r.values.as_slice())));
        },
        None => {},
    }
    let ghost with_recipe = members_view(e@);
    assert(with_recipe =~= start + match recipe_view(recipe) {
        Some((id, values)) => seq![
            ("recipe"@, JsonV::Str(id)),
            ("recipeValues"@, JsonV::Object(values)),
        ],
        None => Seq::empty(),
    });
    let picked: &str = match skill {
        Some(s) => s,
        None => "",
    };
    assert(picked@ == or_else(str_opt(skill), Seq::empty()));
    push_text_if(&mut e, skill.is_some(), "skill", picked);
    assert(members_view(e@) =~= seq![("coworkerId"@, JsonV::Str(coworker_id@))] + match recipe_view(
        recipe,
    ) {
        Some((id, values)) => seq![
            ("recipe"@, JsonV::Str(id)),
            ("recipeValues"@, JsonV::Object(values)),
        ],
        None => Seq::empty(),
    } + member_if(skill is Some, "skill"@, JsonV::Str(picked@)));
    object_of(e)
}

/// The body of a turn: what `POST /ag-ui` is sent.
pub fn turn_body(
    coworker_id: &str,
    thread_id: &str,
    run_id: &str,
    messages: &[AguiMessage],
    recipe: Option<&TurnRecipe>,
    skill: Option<&str>,
) -> (r: Json)
    ensures
        r@ == turn_value(
            coworker_id@,
            thread_id@,
            run_id@,
            messages@,
            recipe_view(recipe),
            str_opt(skill),
        ),
{
    let mut items: Vec<Json> = Vec::new();
    let mut i: usize = 0;
    while i < messages.len()
        invariant
            i <= messages@.len(),
            items_view(items@) == messages@.take(i as int).map_values(
                |m: AguiMessage| message_value(m),
            ),
        decreases messages@.len() - i,
    {
        let ghost before = items_view(items@);
        items.push(message_json(&messages[i]));
        assert(items_view(items@) =~= before.push(message_value(messages@[i as int])));
        assert(messages@.take(i + 1).map_values(|m: AguiMessage| message_value(m))
            =~= messages@.take(i as int).map_values(|m: AguiMessage| message_value(m)).push(
            message_value(messages@[i as int]),
        ));
        i = i + 1;
    }
    assert(messages@.take(i as int) =~= messages@);
    let mut e: Vec<(String, Json)> = Vec::new();
    push_member(&mut e, "forwardedProps", forwarded_json(coworker_id, recipe, skill));
    push_member(&mut e, "messages", array_of(items));
    push_member(&mut e, "runId", text_json(run_id));
    push_member(&mut e, "threadId", text_json(thread_id));
    let tools = agui_tools();
    let ghost tv = items_view(tools@);
    push_member(&mut e, "tools", array_of(tools));
    assert(members_view(e@) =~= seq![
        ("forwardedProps"@, forwarded_value(coworker_id@, recipe_view(recipe), str_opt(skill))),
        ("messages"@, JsonV::Array(messages@.map_values(|m: AguiMessage| message_value(m)))),
        ("runId"@, JsonV::Str(run_id@)),
        ("threadId"@, JsonV::Str(thread_id@)),
        ("tools"@, JsonV::Array(seq![bar_chart_tool(), form_tool()])),
    ]);
    object_of(e)
}

/// What a turn carries beside its messages is only what was picked: with
/// no recipe and no skill the props hold the coworker and nothing else, and
/// a picked skill is one member more than the same turn without it, with the
/// rest of the body unchanged.
pub proof fn lemma_props_carry_only_what_was_picked(
    coworker_id: Seq<char>,
    thread_id: Seq<char>,
    run_id: Seq<char>,
    messages: Seq<AguiMessage>,
    recipe: Option<(Seq<char>, Seq<(Seq<char>, JsonV)>)>,
    skill: Seq<char>,
)
    ensures
        forwarded_value(coworker_id, None, None) == JsonV::Object(
            seq![("coworkerId"@, JsonV::Str(coworker_id))],
        ),
        forwarded_value(coworker_id, recipe, Some(skill))->Object_0 == forwarded_value(
            coworker_id,
            recipe,
            None,
        )->Object_0.push(("skill"@, JsonV::Str(skill))),
        turn_value(coworker_id, thread_id, run_id, messages, recipe, Some(skill))->Object_0.update(
            0,
            ("forwardedProps"@, forwarded_value(coworker_id, recipe, None)),
        ) == turn_value(coworker_id, thread_id, run_id, messages, recipe, None)->Object_0,
{
    assert(forwarded_value(coworker_id, None, None)->Object_0 =~= seq![
        ("coworkerId"@, JsonV::Str(coworker_id)),
    ]);
    assert(forwarded_value(coworker_id, recipe, Some(skill))->Object_0 =~= forwarded_value(
        coworker_id,
        recipe,
        None,
    )->Object_0.push(("skill"@, JsonV::Str(skill))));
    assert(turn_value(coworker_id, thread_id, run_id, messages, recipe, Some(skill))->Object_0.update(
        0,
        ("forwardedProps"@, forwarded_value(coworker_id, recipe, None)),
    ) =~= turn_value(coworker_id, thread_id, run_id, messages, recipe, None)->Object_0);
}

} // verus!
