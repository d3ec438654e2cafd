//! User-form: in-chat credentials that fill the box page, never the bot.
//!
//! The live card arrives as a CUSTOM `run-awaiting-approval` whose reason is
//! `user-form`, painted from `arguments` (alias `formRequest`) and posted by
//! its top-level `entryId`, the gateway card id. A settled card comes back as
//! a CUSTOM `user-form` whose value carries `formRequest` and a sibling
//! `formResolution`, and folds onto the awaiting card. `callId` merges
//! events; it is never posted as an `entryId`. Opening the screen adds a
//! Computer card beside the form, which keeps its place in the transcript.

use vstd::prelude::*;

use crate::json::{
    as_bool, as_str, bool_at, get, has, nonblank, nonblank_of, opt_view, parse_json, parsed_json, str_at,
    text_at,
    Json, JsonV,
};
use crate::strmap::StrMap;
use crate::text::{
    copy_opt, either, lower, normalize_name, normalized, opt_seq, or_else, owned, push_decimal,
    push_str, decimal, same, same_ignoring_case, same_ignoring_case_exec, str_opt, trim, trimmed,
    word, word_of, debug_quoted, debug_text,
};

verus! {

/// Settled/replay CUSTOM `name`.
pub const USER_FORM_CUSTOM: &'static str = "user-form";

/// The tool the bot waits on the card with.
pub const REQUEST_USER_FORM_TOOL: &'static str = "request_user_form";

/// Working-line copy while an unresolved user-form is on screen.
pub const WAITING_FOR_YOU: &'static str = "Waiting for you";

pub const USER_FORM_SUBMIT_PATH: &'static str = "/ag-ui/user-form/submit";

pub const USER_FORM_DISMISS_PATH: &'static str = "/ag-ui/user-form/dismiss";

/// Hand back / decline / timeout. `entryId` is the handoff card, not the form.
pub const BOX_HANDOFF_RESOLVE_PATH: &'static str = "/ag-ui/box-handoff/resolve";

/// The server has the fill routes; a missing route on one card freezes only that card.
pub const USER_FORM_SERVER_FILL_AVAILABLE: bool = true;

/// The 404 sentence for a stamped card that is gone from the transcript.
pub const FORM_ENTRY_MISSING: &'static str = "form entry missing";

/// What the transcript keeps for a typed secret: presence, not the secret.
pub const MASKED_PRESENCE_STUB: &'static str = "1";

/// Field types. Anything else is plain text.
#[derive(Debug, Clone, Copy, PartialEq, Eq, Structural)]
pub enum UserFormFieldKind {
    Email,
    Tel,
    Password,
    Otp,
    Number,
    Date,
    Select,
    Textarea,
    Checkbox,
    Text,
}

pub open spec fn field_kind_of(raw: Seq<char>) -> UserFormFieldKind {
    let w = word(raw);
    if w == "email"@ {
        UserFormFieldKind::Email
    } else if w == "tel"@ || w == "phone"@ {
        UserFormFieldKind::Tel
    } else if w == "password"@ {
        UserFormFieldKind::Password
    } else if w == "otp"@ {
        UserFormFieldKind::Otp
    } else if w == "number"@ {
        UserFormFieldKind::Number
    } else if w == "date"@ {
        UserFormFieldKind::Date
    } else if w == "select"@ {
        UserFormFieldKind::Select
    } else if w == "textarea"@ {
        UserFormFieldKind::Textarea
    } else if w == "checkbox"@ {
        UserFormFieldKind::Checkbox
    } else {
        UserFormFieldKind::Text
    }
}

pub open spec fn field_kind_word(kind: UserFormFieldKind) -> Seq<char> {
    match kind {
        UserFormFieldKind::Email => "email"@,
        UserFormFieldKind::Tel => "tel"@,
        UserFormFieldKind::Password => "password"@,
        UserFormFieldKind::Otp => "otp"@,
        UserFormFieldKind::Number => "number"@,
        UserFormFieldKind::Date => "date"@,
        UserFormFieldKind::Select => "select"@,
        UserFormFieldKind::Textarea => "textarea"@,
        UserFormFieldKind::Checkbox => "checkbox"@,
        UserFormFieldKind::Text => "text"@,
    }
}

pub open spec fn is_secret_kind(kind: UserFormFieldKind) -> bool {
    kind == UserFormFieldKind::Password || kind == UserFormFieldKind::Otp
}

impl UserFormFieldKind {
    pub fn parse(raw: &str) -> (r: Self)
        ensures
            r == field_kind_of(raw@),
    {
        let w = word_of(raw);
        let w = w.as_str();
        if same(w, "email") {
            UserFormFieldKind::Email
        } else if same(w, "tel") || same(w, "phone") {
            UserFormFieldKind::Tel
        } else if same(w, "password") {
            UserFormFieldKind::Password
        } else if same(w, "otp") {
            UserFormFieldKind::Otp
        } else if same(w, "number") {
            UserFormFieldKind::Number
        } else if same(w, "date") {
            UserFormFieldKind::Date
        } else if same(w, "select") {
            UserFormFieldKind::Select
        } else if same(w, "textarea") {
            UserFormFieldKind::Textarea
        } else if same(w, "checkbox") {
            UserFormFieldKind::Checkbox
        } else {
            UserFormFieldKind::Text
        }
    }

    pub fn as_str(self) -> (r: &'static str)
        ensures
            r@ == field_kind_word(self),
    {
        match self {
            UserFormFieldKind::Email => "email",
            UserFormFieldKind::Tel => "tel",
            UserFormFieldKind::Password => "password",
            UserFormFieldKind::Otp => "otp",
            UserFormFieldKind::Number => "number",
            UserFormFieldKind::Date => "date",
            UserFormFieldKind::Select => "select",
            UserFormFieldKind::Textarea => "textarea",
            UserFormFieldKind::Checkbox => "checkbox",
            UserFormFieldKind::Text => "text",
        }
    }

    /// `password` and `otp` are secret even without `secret: true`.
    pub fn is_secret_kind(self) -> (r: bool)
        ensures
            r == is_secret_kind(self),
    {
        match self {
            UserFormFieldKind::Password | UserFormFieldKind::Otp => true,
            _ => false,
        }
    }
}

#[derive(Debug, PartialEq, Eq)]
pub struct UserFormSelectOption {
    pub value: String,
    pub label: String,
}

/// One field on the idle card. Typed values never live here, and a masked
/// field carries no prefill.
#[derive(Debug, PartialEq, Eq)]
pub struct UserFormField {
    pub id: String,
    pub label: String,
    pub kind: UserFormFieldKind,
    pub required: bool,
    /// `secret: true` on the wire, or a password/otp type.
    pub secret: bool,
    pub options: Vec<UserFormSelectOption>,
    pub placeholder: Option<String>,
    /// Non-secret default only.
    pub prefill: Option<String>,
}

/// A field as the contracts read it.
pub struct FieldV {
    pub id: Seq<char>,
    pub label: Seq<char>,
    pub kind: UserFormFieldKind,
    pub required: bool,
    pub secret: bool,
    pub options: Seq<(Seq<char>, Seq<char>)>,
    pub placeholder: Option<Seq<char>>,
    pub prefill: Option<Seq<char>>,
}

impl View for UserFormField {
    type V = FieldV;

    open spec fn view(&self) -> FieldV {
        FieldV {
            id: self.id@,
            label: self.label@,
            kind: self.kind,
            required: self.required,
            secret: self.secret,
            options: self.options@.map_values(|o: UserFormSelectOption| (o.value@, o.label@)),
            placeholder: opt_seq(self.placeholder),
            prefill: opt_seq(self.prefill),
        }
    }
}

pub open spec fn field_masked(f: FieldV) -> bool {
    f.secret || is_secret_kind(f.kind)
}

/// `{:?}` of a field kind: its variant's name.
pub open spec fn kind_debug(kind: UserFormFieldKind) -> Seq<char> {
    match kind {
        UserFormFieldKind::Email => "Email"@,
        UserFormFieldKind::Tel => "Tel"@,
        UserFormFieldKind::Password => "Password"@,
        UserFormFieldKind::Otp => "Otp"@,
        UserFormFieldKind::Number => "Number"@,
        UserFormFieldKind::Date => "Date"@,
        UserFormFieldKind::Select => "Select"@,
        UserFormFieldKind::Textarea => "Textarea"@,
        UserFormFieldKind::Checkbox => "Checkbox"@,
        UserFormFieldKind::Text => "Text"@,
    }
}

pub open spec fn bool_debug(b: bool) -> Seq<char> {
    if b {
        "true"@
    } else {
        "false"@
    }
}

/// `{:?}` of an optional text.
pub open spec fn opt_text_debug(t: Option<Seq<char>>) -> Seq<char> {
    match t {
        Some(s) => "Some("@ + debug_text(s) + ")"@,
        None => "None"@,
    }
}

pub open spec fn option_debug(o: (Seq<char>, Seq<char>)) -> Seq<char> {
    "UserFormSelectOption { value: "@ + debug_text(o.0) + ", label: "@ + debug_text(o.1) + " }"@
}

/// The options between the brackets, comma separated.
pub open spec fn options_debug(options: Seq<(Seq<char>, Seq<char>)>) -> Seq<char>
    decreases options.len(),
{
    if options.len() == 0 {
        Seq::empty()
    } else if options.len() == 1 {
        option_debug(options[0])
    } else {
        options_debug(options.drop_last()) + ", "@ + option_debug(options.last())
    }
}

/// What the line says of a prefill: that there is one, never what.
pub open spec fn prefill_debug(f: FieldV) -> Seq<char> {
    match f.prefill {
        Some(_) => if field_masked(f) {
            "Some(\"<redacted>\")"@
        } else {
            "Some(\"<set>\")"@
        },
        None => "None"@,
    }
}

/// The debug line of a field: everything but its prefill, which shows only
/// as there or not.
pub open spec fn field_debug(f: FieldV) -> Seq<char> {
    "UserFormField { id: "@ + debug_text(f.id) + ", label: "@ + debug_text(f.label) + ", kind: "@
        + kind_debug(f.kind) + ", required: "@ + bool_debug(f.required) + ", secret: "@
        + bool_debug(f.secret) + ", options: ["@ + options_debug(f.options) + "], placeholder: "@
        + opt_text_debug(f.placeholder) + ", prefill: "@ + prefill_debug(f) + " }"@
}

fn push_bool(out: &mut String, b: bool)
    ensures
        final(out)@ == old(out)@ + bool_debug(b),
{
    if b {
        push_str(out, "true");
    } else {
        push_str(out, "false");
    }
}

/// Two fields alike but for what their prefills hold debug alike: the line
/// never carries a prefill's value.
pub proof fn lemma_field_debug_hides_prefill(a: FieldV, b: FieldV)
    requires
        a.id == b.id,
        a.label == b.label,
        a.kind == b.kind,
        a.required == b.required,
        a.secret == b.secret,
        a.options == b.options,
        a.placeholder == b.placeholder,
        a.prefill is Some <==> b.prefill is Some,
    ensures
        field_debug(a) == field_debug(b),
{
}

impl UserFormField {
    pub fn masked(&self) -> (r: bool)
        ensures
            r == field_masked(self@),
    {
        self.secret || self.kind.is_secret_kind()
    }

    /// The debug line: the field's shape, with its prefill shown only as
    /// there or not.
    pub fn debug(&self) -> (r: String)
        ensures
            r@ == field_debug(self@),
    {
        let mut out = owned("UserFormField { id: ");
        push_str(&mut out, debug_quoted(self.id.as_str()).as_str());
        push_str(&mut out, ", label: ");
        push_str(&mut out, debug_quoted(self.label.as_str()).as_str());
        push_str(&mut out, ", kind: ");
        let kind: &str = match self.kind {
            UserFormFieldKind::Email => "Email",
            UserFormFieldKind::Tel => "Tel",
            UserFormFieldKind::Password => "Password",
            UserFormFieldKind::Otp => "Otp",
            UserFormFieldKind::Number => "Number",
            UserFormFieldKind::Date => "Date",
            UserFormFieldKind::Select => "Select",
            UserFormFieldKind::Textarea => "Textarea",
            UserFormFieldKind::Checkbox => "Checkbox",
            UserFormFieldKind::Text => "Text",
        };
        push_str(&mut out, kind);
        push_str(&mut out, ", required: ");
        push_bool(&mut out, self.required);
        push_str(&mut out, ", secret: ");
        push_bool(&mut out, self.secret);
        push_str(&mut out, ", options: [");
        let ghost opts = self@.options;
        let ghost start = out@;
        let mut i: usize = 0;
        while i < self.options.len()
            invariant
                i <= self.options@.len(),
                opts == self@.options,
                out@ == start + options_debug(opts.take(i as int)),
            decreases self.options@.len() - i,
        {
            let ghost before = out@;
            if i > 0 {
                push_str(&mut out, ", ");
            }
            push_str(&mut out, "UserFormSelectOption { value: ");
            push_str(&mut out, debug_quoted(self.options[i].value.as_str()).as_str());
            push_str(&mut out, ", label: ");
            push_str(&mut out, debug_quoted(self.options[i].label.as_str()).as_str());
            push_str(&mut out, " }");
            proof {
                let next = opts.take(i + 1);
                assert(next.drop_last() =~= opts.take(i as int));
                assert(next.last() == opts[i as int]);
                assert(opts[i as int] == (self.options@[i as int].value@, self.options@[i as int].label@));
                if i == 0 {
                    assert(next.len() == 1);
                    assert(out@ =~= start + options_debug(next));
                } else {
                    assert(out@ =~= start + options_debug(next));
                }
            }
            i = i + 1;
        }
        assert(opts.take(i as int) =~= opts);
        push_str(&mut out, "], placeholder: ");
        match &self.placeholder {
            Some(p) => {
                push_str(&mut out, "Some(");
                push_str(&mut out, debug_quoted(p.as_str()).as_str());
                push_str(&mut out, ")");
            },
            None => push_str(&mut out, "None"),
        }
        push_str(&mut out, ", prefill: ");
        if self.prefill.is_some() {
            if self.masked() {
                push_str(&mut out, "Some(\"<redacted>\")");
            } else {
                push_str(&mut out, "Some(\"<set>\")");
            }
        } else {
            push_str(&mut out, "None");
        }
        push_str(&mut out, " }");
        out
    }

    /// Checkbox submit values are the strings `"true"` / `"false"`.
    pub fn checkbox_wire(checked: bool) -> (r: &'static str)
        ensures
            r@ == (if checked {
                "true"@
            } else {
                "false"@
            }),
    {
        if checked {
            "true"
        } else {
            "false"
        }
    }
}

/// Settled `formResolution`, including the local-only Sending.
#[derive(Debug, Clone, Copy, PartialEq, Eq, Structural)]
pub enum FormResolution {
    Sending,
    Submitted,
    FillFailed,
    /// Wire value for dismiss `mode: escalated`; never painted on the form.
    Escalated,
    Dismissed,
    Skipped,
    /// A later message moved the thread on.
    Superseded,
}

pub open spec fn resolution_of(raw: Seq<char>) -> FormResolution {
    let w = word(raw);
    if w == "sending"@ || w == "submitting"@ {
        FormResolution::Sending
    } else if w == "submitted"@ {
        FormResolution::Submitted
    } else if w == "fill_failed"@ || w == "fill-failed"@ || w == "not_filled"@ || w
        == "not-filled"@ {
        FormResolution::FillFailed
    } else if w == "escalated"@ || w == "on_screen"@ || w == "on-screen"@ || w
        == "on_the_computer"@ || w == "on-the-computer"@ {
        FormResolution::Escalated
    } else if w == "skipped"@ || w == "skip"@ {
        FormResolution::Skipped
    } else if w == "superseded"@ {
        FormResolution::Superseded
    } else {
        FormResolution::Dismissed
    }
}

pub open spec fn resolution_word(r: FormResolution) -> Seq<char> {
    match r {
        FormResolution::Sending => "sending"@,
        FormResolution::Submitted => "submitted"@,
        FormResolution::FillFailed => "fill_failed"@,
        FormResolution::Escalated => "escalated"@,
        FormResolution::Dismissed => "dismissed"@,
        FormResolution::Skipped => "skipped"@,
        FormResolution::Superseded => "superseded"@,
    }
}

pub open spec fn resolution_pill(r: FormResolution) -> Seq<char> {
    match r {
        FormResolution::Sending => "Submitting"@,
        FormResolution::Submitted => "Submitted"@,
        FormResolution::FillFailed => "Not filled"@,
        FormResolution::Escalated => "Dismissed"@,
        FormResolution::Dismissed => "Dismissed"@,
        FormResolution::Skipped => "Skipped"@,
        FormResolution::Superseded => "Superseded"@,
    }
}

pub open spec fn resolution_body(r: FormResolution) -> Seq<char> {
    match r {
        FormResolution::Sending => "Submitting…"@,
        FormResolution::Submitted => "Filled into the page. Secret values were never shown to your Bot."@,
        FormResolution::FillFailed => "Could not fill into the page — it may have moved or changed. Secret values were never shown to your Bot."@,
        FormResolution::Escalated => "Dismissed without filling anything."@,
        FormResolution::Dismissed => "Dismissed without filling anything."@,
        FormResolution::Skipped => "Skipped without filling anything."@,
        FormResolution::Superseded => "Moved on to your next message."@,
    }
}

pub open spec fn resolution_terminal(r: FormResolution) -> bool {
    r == FormResolution::Submitted || r == FormResolution::FillFailed || r
        == FormResolution::Dismissed || r == FormResolution::Skipped || r
        == FormResolution::Superseded
}

impl FormResolution {
    pub fn parse(raw: &str) -> (r: Self)
        ensures
            r == resolution_of(raw@),
    {
        let w = word_of(raw);
        let w = w.as_str();
        if same(w, "sending") || same(w, "submitting") {
            FormResolution::Sending
        } else if same(w, "submitted") {
            FormResolution::Submitted
        } else if same(w, "fill_failed") || same(w, "fill-failed") || same(w, "not_filled")
            || same(w, "not-filled") {
            FormResolution::FillFailed
        } else if same(w, "escalated") || same(w, "on_screen") || same(w, "on-screen") || same(
            w,
            "on_the_computer",
        ) || same(w, "on-the-computer") {
            FormResolution::Escalated
        } else if same(w, "skipped") || same(w, "skip") {
            FormResolution::Skipped
        } else if same(w, "superseded") {
            FormResolution::Superseded
        } else {
            FormResolution::Dismissed
        }
    }

    pub fn as_str(self) -> (r: &'static str)
        ensures
            r@ == resolution_word(self),
    {
        match self {
            FormResolution::Sending => "sending",
            FormResolution::Submitted => "submitted",
            FormResolution::FillFailed => "fill_failed",
            FormResolution::Escalated => "escalated",
            FormResolution::Dismissed => "dismissed",
            FormResolution::Skipped => "skipped",
            FormResolution::Superseded => "superseded",
        }
    }

    /// Pill copy on the settled form.
    pub fn pill(self) -> (r: &'static str)
        ensures
            r@ == resolution_pill(self),
    {
        match self {
            FormResolution::Sending => "Submitting",
            FormResolution::Submitted => "Submitted",
            FormResolution::FillFailed => "Not filled",
            FormResolution::Escalated => "Dismissed",
            FormResolution::Dismissed => "Dismissed",
            FormResolution::Skipped => "Skipped",
            FormResolution::Superseded => "Superseded",
        }
    }

    /// Body copy under the collapsed card.
    pub fn body(self) -> (r: &'static str)
        ensures
            r@ == resolution_body(self),
    {
        match self {
            FormResolution::Sending => "Submitting…",
            FormResolution::Submitted => "Filled into the page. Secret values were never shown to your Bot.",
            FormResolution::FillFailed => "Could not fill into the page — it may have moved or changed. Secret values were never shown to your Bot.",
            FormResolution::Escalated => "Dismissed without filling anything.",
            FormResolution::Dismissed => "Dismissed without filling anything.",
            FormResolution::Skipped => "Skipped without filling anything.",
            FormResolution::Superseded => "Moved on to your next message.",
        }
    }

    pub fn is_terminal(self) -> (r: bool)
        ensures
            r == resolution_terminal(self),
    {
        match self {
            FormResolution::Submitted | FormResolution::FillFailed | FormResolution::Dismissed
            | FormResolution::Skipped | FormResolution::Superseded => true,
            _ => false,
        }
    }
}

/// The Computer card that sits beside a user-form, not in its place.
#[derive(Debug, Clone, Copy, PartialEq, Eq, Structural)]
pub enum ComputerHandoffStatus {
    ActionNeeded,
    Done,
    Skipped,
}

impl Default for ComputerHandoffStatus {
    fn default() -> (r: Self)
        ensures
            r == ComputerHandoffStatus::ActionNeeded,
    {
        ComputerHandoffStatus::ActionNeeded
    }
}

/// Local Done / Skipped wins over a later server Action needed.
pub open spec fn handoff_fold(
    current: Option<ComputerHandoffStatus>,
    incoming: Option<ComputerHandoffStatus>,
) -> Option<ComputerHandoffStatus> {
    match (current, incoming) {
        (Some(ComputerHandoffStatus::Done), _) => current,
        (Some(ComputerHandoffStatus::Skipped), _) => current,
        (_, Some(next)) => Some(next),
        (cur, None) => cur,
    }
}

impl ComputerHandoffStatus {
    pub fn as_str(self) -> (r: &'static str)
        ensures
            r@ == (match self {
                ComputerHandoffStatus::ActionNeeded => "action_needed"@,
                ComputerHandoffStatus::Done => "done"@,
                ComputerHandoffStatus::Skipped => "skipped"@,
            }),
    {
        match self {
            ComputerHandoffStatus::ActionNeeded => "action_needed",
            ComputerHandoffStatus::Done => "done",
            ComputerHandoffStatus::Skipped => "skipped",
        }
    }

    pub fn pill(self) -> (r: &'static str)
        ensures
            r@ == (match self {
                ComputerHandoffStatus::ActionNeeded => "Action needed"@,
                ComputerHandoffStatus::Done => "Done"@,
                ComputerHandoffStatus::Skipped => "Skipped"@,
            }),
    {
        match self {
            ComputerHandoffStatus::ActionNeeded => "Action needed",
            ComputerHandoffStatus::Done => "Done",
            ComputerHandoffStatus::Skipped => "Skipped",
        }
    }

    pub fn body(self) -> (r: &'static str)
        ensures
            r@ == (match self {
                ComputerHandoffStatus::ActionNeeded => "Complete this step on the computer."@,
                ComputerHandoffStatus::Done => "Finished on the computer."@,
                ComputerHandoffStatus::Skipped => "Skipped this computer step."@,
            }),
    {
        match self {
            ComputerHandoffStatus::ActionNeeded => "Complete this step on the computer.",
            ComputerHandoffStatus::Done => "Finished on the computer.",
            ComputerHandoffStatus::Skipped => "Skipped this computer step.",
        }
    }

    pub fn is_live(self) -> (r: bool)
        ensures
            r == (self == ComputerHandoffStatus::ActionNeeded),
    {
        match self {
            ComputerHandoffStatus::ActionNeeded => true,
            _ => false,
        }
    }

    /// Local Done / Skipped wins over a later server Action needed.
    pub fn fold(current: Option<Self>, incoming: Option<Self>) -> (r: Option<Self>)
        ensures
            r == handoff_fold(current, incoming),
    {
        match (current, incoming) {
            (Some(ComputerHandoffStatus::Done), _) | (Some(ComputerHandoffStatus::Skipped), _) => {
                current
            },
            (_, Some(next)) => Some(next),
            (cur, None) => cur,
        }
    }
}

/// `POST /ag-ui/box-handoff/resolve` `resolution`.
#[derive(Debug, Clone, Copy, PartialEq, Eq, Structural)]
pub enum BoxHandoffResolution {
    HandedBack,
    Declined,
    TimedOut,
}

impl BoxHandoffResolution {
    pub fn as_str(self) -> (r: &'static str)
        ensures
            r@ == (match self {
                BoxHandoffResolution::HandedBack => "handed_back"@,
                BoxHandoffResolution::Declined => "declined"@,
                BoxHandoffResolution::TimedOut => "timed_out"@,
            }),
    {
        match self {
            BoxHandoffResolution::HandedBack => "handed_back",
            BoxHandoffResolution::Declined => "declined",
            BoxHandoffResolution::TimedOut => "timed_out",
        }
    }
}

/// What `POST /ag-ui/box-handoff/resolve` meant.
#[derive(Debug, Clone, Copy, PartialEq, Eq, Structural)]
pub enum BoxHandoffReply {
    Settled,
    AlreadyAnswered,
    Empty,
    MissingRoute,
    MissingEntryId,
}

/// The dismiss `mode`. Open the screen is `Escalated`.
#[derive(Debug, Clone, Copy, PartialEq, Eq, Structural)]
pub enum UserFormDismissMode {
    Dismissed,
    Escalated,
}

impl UserFormDismissMode {
    pub fn as_str(self) -> (r: &'static str)
        ensures
            r@ == (match self {
                UserFormDismissMode::Dismissed => "dismissed"@,
                UserFormDismissMode::Escalated => "escalated"@,
            }),
    {
        match self {
            UserFormDismissMode::Dismissed => "dismissed",
            UserFormDismissMode::Escalated => "escalated",
        }
    }

    pub fn resolution(self) -> (r: FormResolution)
        ensures
            r == (match self {
                UserFormDismissMode::Dismissed => FormResolution::Dismissed,
                UserFormDismissMode::Escalated => FormResolution::Escalated,
            }),
    {
        match self {
            UserFormDismissMode::Dismissed => FormResolution::Dismissed,
            UserFormDismissMode::Escalated => FormResolution::Escalated,
        }
    }
}

/// Continue vs Dismiss.
#[derive(Debug, Clone, Copy, PartialEq, Eq, Structural)]
pub enum UserFormVerb {
    Submit,
    Dismiss,
}


/// An option as the contracts read it: its value and its label.
pub open spec fn option_view(o: UserFormSelectOption) -> (Seq<char>, Seq<char>) {
    (o.value@, o.label@)
}

impl Clone for UserFormSelectOption {
    fn clone(&self) -> (r: Self)
        ensures
            option_view(r) == option_view(*self),
    {
        UserFormSelectOption { value: self.value.clone(), label: self.label.clone() }
    }
}

fn clone_options(v: &Vec<UserFormSelectOption>) -> (r: Vec<UserFormSelectOption>)
    ensures
        r@.map_values(|o: UserFormSelectOption| (o.value@, o.label@)) == v@.map_values(
            |o: UserFormSelectOption| (o.value@, o.label@),
        ),
{
    let mut out: Vec<UserFormSelectOption> = Vec::new();
    let mut i: usize = 0;
    while i < v.len()
        invariant
            i <= v@.len(),
            out@.len() == i,
            forall|k: int| 0 <= k < i ==> option_view(#[trigger] out@[k]) == option_view(v@[k]),
        decreases v@.len() - i,
    {
        out.push(v[i].clone());
        i = i + 1;
    }
    assert(out@.map_values(|o: UserFormSelectOption| (o.value@, o.label@)) =~= v@.map_values(
        |o: UserFormSelectOption| (o.value@, o.label@),
    )) by {
        assert forall|k: int| 0 <= k < v@.len() implies option_view(out@[k]) == option_view(v@[k]) by {}
    }
    out
}

impl Clone for UserFormField {
    fn clone(&self) -> (r: Self)
        ensures
            r@ == self@,
    {
        UserFormField {
            id: self.id.clone(),
            label: self.label.clone(),
            kind: self.kind,
            required: self.required,
            secret: self.secret,
            options: clone_options(&self.options),
            placeholder: copy_opt(&self.placeholder),
            prefill: copy_opt(&self.prefill),
        }
    }
}

fn clone_fields(v: &Vec<UserFormField>) -> (r: Vec<UserFormField>)
    ensures
        r@.map_values(|f: UserFormField| f@) == v@.map_values(|f: UserFormField| f@),
{
    let mut out: Vec<UserFormField> = Vec::new();
    let mut i: usize = 0;
    while i < v.len()
        invariant
            i <= v@.len(),
            out@.len() == i,
            forall|k: int| 0 <= k < i ==> (#[trigger] out@[k])@ == v@[k]@,
        decreases v@.len() - i,
    {
        out.push(v[i].clone());
        i = i + 1;
    }
    assert(out@.map_values(|f: UserFormField| f@) =~= v@.map_values(|f: UserFormField| f@));
    out
}


/// What the fill HTTP made of the idle card: a real `formResolution` to bind
/// the paint to, or one of the ways nothing was filled.
#[derive(Debug, PartialEq, Eq)]
pub enum UserFormActionReply {
    Settled(UserFormSpec),
    AlreadyAnswered,
    /// 200 JSON `null`, an empty body, or an object with no `formResolution`.
    Empty,
    /// The route is not on this server.
    MissingRoute,
    /// 404 `{error: "form entry missing"}`: the verbs exist, this card does not.
    MissingEntry,
    /// No gateway card id: a `callId` is never posted in its place.
    MissingEntryId,
}

/// What the idle card becomes after the fill HTTP returns.
#[derive(Debug, PartialEq, Eq)]
pub enum UserFormHttpSettle {
    /// The body carried a card: fold it on.
    Merge(UserFormSpec),
    /// Stay collapsed without a body: after Continue, Not filled.
    Paint(FormResolution),
    /// Dismiss already painted its pill; keep it.
    Keep,
    /// No POST, or a dismiss miss: undo the optimistic paint.
    Restore,
}

/// A user-form card in the transcript. Typed values are not stored here.
#[derive(Debug, PartialEq, Eq)]
pub struct UserFormSpec {
    /// Gateway transcript card id. Required to POST; never made from `callId`.
    pub entry_id: String,
    /// AG-UI tool call id: merges events, never sent as `entryId`.
    pub call_id: String,
    /// AG-UI run to follow after a real settle.
    pub run_id: String,
    pub title: String,
    pub instruction: Option<String>,
    pub fields: Vec<UserFormField>,
    pub domain: Option<String>,
    pub live_host: Option<String>,
    pub resolution: Option<FormResolution>,
    pub widget_dismissed: bool,
    /// The Computer sibling's card id from an escalated dismiss. Never the form's.
    pub handoff_entry_id: Option<String>,
    /// `sand://box` request id. Not a POST id.
    pub box_request_id: Option<String>,
    /// Instruction on the Computer card.
    pub box_instruction: Option<String>,
    /// Computer sibling chrome, beside the form and independent of its resolution.
    pub computer_handoff: Option<ComputerHandoffStatus>,
}

/// A card as the contracts read it.
pub struct FormV {
    pub entry_id: Seq<char>,
    pub call_id: Seq<char>,
    pub run_id: Seq<char>,
    pub title: Seq<char>,
    pub instruction: Option<Seq<char>>,
    pub fields: Seq<FieldV>,
    pub domain: Option<Seq<char>>,
    pub live_host: Option<Seq<char>>,
    pub resolution: Option<FormResolution>,
    pub widget_dismissed: bool,
    pub handoff_entry_id: Option<Seq<char>>,
    pub box_request_id: Option<Seq<char>>,
    pub box_instruction: Option<Seq<char>>,
    pub computer_handoff: Option<ComputerHandoffStatus>,
}

impl View for UserFormSpec {
    type V = FormV;

    open spec fn view(&self) -> FormV {
        FormV {
            entry_id: self.entry_id@,
            call_id: self.call_id@,
            run_id: self.run_id@,
            title: self.title@,
            instruction: opt_seq(self.instruction),
            fields: self.fields@.map_values(|f: UserFormField| f@),
            domain: opt_seq(self.domain),
            live_host: opt_seq(self.live_host),
            resolution: self.resolution,
            widget_dismissed: self.widget_dismissed,
            handoff_entry_id: opt_seq(self.handoff_entry_id),
            box_request_id: opt_seq(self.box_request_id),
            box_instruction: opt_seq(self.box_instruction),
            computer_handoff: self.computer_handoff,
        }
    }
}

impl Clone for UserFormSpec {
    fn clone(&self) -> (r: Self)
        ensures
            r@ == self@,
    {
        UserFormSpec {
            entry_id: self.entry_id.clone(),
            call_id: self.call_id.clone(),
            run_id: self.run_id.clone(),
            title: self.title.clone(),
            instruction: copy_opt(&self.instruction),
            fields: clone_fields(&self.fields),
            domain: copy_opt(&self.domain),
            live_host: copy_opt(&self.live_host),
            resolution: self.resolution,
            widget_dismissed: self.widget_dismissed,
            handoff_entry_id: copy_opt(&self.handoff_entry_id),
            box_request_id: copy_opt(&self.box_request_id),
            box_instruction: copy_opt(&self.box_instruction),
            computer_handoff: self.computer_handoff,
        }
    }
}

/// The resolution the card paints: the wire's, or Dismissed for a widget
/// that was closed without one.
pub open spec fn effective_resolution(f: FormV) -> Option<FormResolution> {
    match f.resolution {
        Some(r) => Some(r),
        None => if f.widget_dismissed {
            Some(FormResolution::Dismissed)
        } else {
            None
        },
    }
}

pub open spec fn has_entry(f: FormV) -> bool {
    f.entry_id.len() > 0
}

/// The card's identity in the transcript view: its gateway id, else its call
/// id, else `user-form`.
pub open spec fn form_card_key(f: FormV) -> Seq<char> {
    if f.entry_id.len() > 0 {
        f.entry_id
    } else if f.call_id.len() > 0 {
        f.call_id
    } else {
        "user-form"@
    }
}

pub open spec fn has_password_field(f: FormV) -> bool {
    exists|i: int| 0 <= i < f.fields.len() && (#[trigger] f.fields[i]).kind == UserFormFieldKind::Password
}

/// Form chrome stays in document order; a Computer-only stub (no fields, no
/// title, no form settle) paints just the Computer card.
pub open spec fn shows_form_chrome(f: FormV) -> bool {
    !(f.computer_handoff is Some && f.fields.len() == 0 && f.title.len() == 0
        && effective_resolution(f) is None)
}

pub open spec fn same_card(a: FormV, b: FormV) -> bool {
    (has_entry(a) && has_entry(b) && a.entry_id == b.entry_id) || (a.call_id.len() > 0
        && a.call_id == b.call_id)
}

pub open spec fn completes_with(a: FormV, b: FormV) -> bool {
    if has_entry(a) && has_entry(b) {
        a.entry_id == b.entry_id
    } else if a.call_id.len() > 0 && b.call_id.len() > 0 {
        a.call_id == b.call_id
    } else {
        true
    }
}

pub open spec fn shares_call_id(f: FormV, call_id: Seq<char>) -> bool {
    call_id.len() > 0 && f.call_id.len() > 0 && f.call_id == call_id
}

pub open spec fn default_handoff_prompt() -> Seq<char> {
    "Complete this step on the computer."@
}

/// The Computer card's prompt: the box instruction, else the form's, trimmed;
/// the stock sentence when that leaves nothing.
pub open spec fn handoff_prompt(f: FormV) -> Seq<char> {
    match either(f.box_instruction, f.instruction) {
        Some(s) => if trim(s).len() > 0 {
            trim(s)
        } else {
            default_handoff_prompt()
        },
        None => default_handoff_prompt(),
    }
}

/// A later event for the same card folded onto it. Ids, run, instruction,
/// fields and the rest are taken from `b` where it has them; the title only
/// where `b` is form chrome or `a` is not; a widget once dismissed stays so;
/// the Computer card folds; and a Skipped, Submitted or Not filled
/// resolution is not overwritten by any other.
pub open spec fn merged(a: FormV, b: FormV) -> FormV {
    FormV {
        entry_id: if has_entry(b) { b.entry_id } else { a.entry_id },
        call_id: if b.call_id.len() > 0 { b.call_id } else { a.call_id },
        run_id: if b.run_id.len() > 0 { b.run_id } else { a.run_id },
        title: if b.title.len() > 0 && (shows_form_chrome(b) || !shows_form_chrome(a)) {
            b.title
        } else {
            a.title
        },
        instruction: either(b.instruction, a.instruction),
        fields: if b.fields.len() > 0 { b.fields } else { a.fields },
        domain: either(b.domain, a.domain),
        live_host: either(b.live_host, a.live_host),
        resolution: if sticky(b.resolution) {
            b.resolution
        } else if b.resolution is Some && !sticky(a.resolution) {
            b.resolution
        } else {
            a.resolution
        },
        widget_dismissed: a.widget_dismissed || b.widget_dismissed,
        handoff_entry_id: either(b.handoff_entry_id, a.handoff_entry_id),
        box_request_id: either(b.box_request_id, a.box_request_id),
        box_instruction: either(b.box_instruction, a.box_instruction),
        computer_handoff: handoff_fold(a.computer_handoff, b.computer_handoff),
    }
}

/// Skipped, Submitted and Not filled are not overwritten by a later event.
pub open spec fn sticky(r: Option<FormResolution>) -> bool {
    r == Some(FormResolution::Skipped) || r == Some(FormResolution::Submitted) || r == Some(
        FormResolution::FillFailed,
    )
}

/// The prefix and the key, as the GPUI element ids are made.
pub open spec fn element_id(prefix: Seq<char>, key: Seq<char>) -> Seq<char> {
    prefix + key
}

fn joined(prefix: &str, key: &str) -> (r: String)
    ensures
        r@ == prefix@ + key@,
{
    let mut s = String::new();
    push_str(&mut s, prefix);
    push_str(&mut s, key);
    s
}

pub fn user_form_card_id(card_key: &str) -> (r: String)
    ensures
        r@ == element_id("user-form-"@, card_key@),
{
    joined("user-form-", card_key)
}

pub fn user_form_pill_id(card_key: &str) -> (r: String)
    ensures
        r@ == element_id("user-form-pill-"@, card_key@),
{
    joined("user-form-pill-", card_key)
}

pub fn user_form_continue_id(card_key: &str) -> (r: String)
    ensures
        r@ == element_id("user-form-continue-"@, card_key@),
{
    joined("user-form-continue-", card_key)
}

pub fn user_form_dismiss_id(card_key: &str) -> (r: String)
    ensures
        r@ == element_id("user-form-dismiss-"@, card_key@),
{
    joined("user-form-dismiss-", card_key)
}

pub fn user_form_screen_id(card_key: &str) -> (r: String)
    ensures
        r@ == element_id("user-form-screen-"@, card_key@),
{
    joined("user-form-screen-", card_key)
}

pub fn computer_handoff_card_id(card_key: &str) -> (r: String)
    ensures
        r@ == element_id("computer-handoff-"@, card_key@),
{
    joined("computer-handoff-", card_key)
}

pub fn computer_handoff_takeover_id(card_key: &str) -> (r: String)
    ensures
        r@ == element_id("computer-handoff-takeover-"@, card_key@),
{
    joined("computer-handoff-takeover-", card_key)
}

pub fn computer_handoff_done_id(card_key: &str) -> (r: String)
    ensures
        r@ == element_id("computer-handoff-done-"@, card_key@),
{
    joined("computer-handoff-done-", card_key)
}

pub fn computer_handoff_skip_id(card_key: &str) -> (r: String)
    ensures
        r@ == element_id("computer-handoff-skip-"@, card_key@),
{
    joined("computer-handoff-skip-", card_key)
}

pub fn computer_attention_id() -> (r: &'static str)
    ensures
        r@ == "computer-attention"@,
{
    "computer-attention"
}

pub fn computer_attention_skip_id(card_key: &str) -> (r: String)
    ensures
        r@ == element_id("computer-attention-skip-"@, card_key@),
{
    joined("computer-attention-skip-", card_key)
}

pub fn computer_attention_done_id(card_key: &str) -> (r: String)
    ensures
        r@ == element_id("computer-attention-done-"@, card_key@),
{
    joined("computer-attention-done-", card_key)
}

pub fn computer_window_attention_id() -> (r: &'static str)
    ensures
        r@ == "computer-window-attention"@,
{
    "computer-window-attention"
}

pub fn computer_window_attention_skip_id(card_key: &str) -> (r: String)
    ensures
        r@ == element_id("computer-window-attention-skip-"@, card_key@),
{
    joined("computer-window-attention-skip-", card_key)
}

pub fn computer_window_attention_done_id(card_key: &str) -> (r: String)
    ensures
        r@ == element_id("computer-window-attention-done-"@, card_key@),
{
    joined("computer-window-attention-done-", card_key)
}

/// `user-form-field-{card}-{field}`.
pub fn user_form_field_id(card_key: &str, field_id: &str) -> (r: String)
    ensures
        r@ == "user-form-field-"@ + card_key@ + "-"@ + field_id@,
{
    let mut s = joined("user-form-field-", card_key);
    push_str(&mut s, "-");
    push_str(&mut s, field_id);
    s
}


fn is_sticky(r: Option<FormResolution>) -> (b: bool)
    ensures
        b == sticky(r),
{
    match r {
        Some(FormResolution::Skipped) | Some(FormResolution::Submitted) | Some(
            FormResolution::FillFailed,
        ) => true,
        _ => false,
    }
}

impl UserFormSpec {
    pub fn effective_resolution(&self) -> (r: Option<FormResolution>)
        ensures
            r == effective_resolution(self@),
    {
        match self.resolution {
            Some(r) => Some(r),
            None => if self.widget_dismissed {
                Some(FormResolution::Dismissed)
            } else {
                None
            },
        }
    }

    pub fn is_unresolved(&self) -> (r: bool)
        ensures
            r == (effective_resolution(self@) is None),
    {
        self.effective_resolution().is_none()
    }

    pub fn pill(&self) -> (r: Option<&'static str>)
        ensures
            str_opt(r) == (match effective_resolution(self@) {
                Some(x) => Some(resolution_pill(x)),
                None => None,
            }),
    {
        match self.effective_resolution() {
            Some(x) => Some(x.pill()),
            None => None,
        }
    }

    pub fn settled_body(&self) -> (r: Option<&'static str>)
        ensures
            str_opt(r) == (match effective_resolution(self@) {
                Some(x) => Some(resolution_body(x)),
                None => None,
            }),
    {
        match self.effective_resolution() {
            Some(x) => Some(x.body()),
            None => None,
        }
    }

    /// A one-page login (a password beside another field) says "Log in";
    /// anything else says "Continue".
    pub fn continue_label(&self) -> (r: &'static str)
        ensures
            r@ == (if has_password_field(self@) && self@.fields.len() > 1 {
                "Log in"@
            } else {
                "Continue"@
            }),
    {
        let mut has_password = false;
        let mut i: usize = 0;
        while i < self.fields.len()
            invariant
                i <= self.fields@.len(),
                has_password <==> exists|k: int|
                    0 <= k < i && (#[trigger] self@.fields[k]).kind == UserFormFieldKind::Password,
            decreases self.fields@.len() - i,
        {
            assert(self@.fields[i as int] == self.fields@[i as int]@);
            if self.fields[i].kind == UserFormFieldKind::Password {
                has_password = true;
            }
            i = i + 1;
        }
        if has_password && self.fields.len() > 1 {
            "Log in"
        } else {
            "Continue"
        }
    }

    /// Submit looks the gateway entry up by this id; `callId` is no substitute.
    pub fn has_gateway_entry_id(&self) -> (r: bool)
        ensures
            r == has_entry(self@),
    {
        self.entry_id.as_str().unicode_len() > 0
    }

    pub fn card_key(&self) -> (r: &str)
        ensures
            r@ == form_card_key(self@),
    {
        if self.entry_id.as_str().unicode_len() > 0 {
            self.entry_id.as_str()
        } else if self.call_id.as_str().unicode_len() > 0 {
            self.call_id.as_str()
        } else {
            "user-form"
        }
    }

    pub fn same_card(&self, other: &Self) -> (r: bool)
        ensures
            r == same_card(self@, other@),
    {
        if self.has_gateway_entry_id() && other.has_gateway_entry_id() && same(
            self.entry_id.as_str(),
            other.entry_id.as_str(),
        ) {
            return true;
        }
        self.call_id.as_str().unicode_len() > 0 && same(self.call_id.as_str(), other.call_id.as_str())
    }

    /// The call-only twin of a stamped card.
    pub fn shares_call_id(&self, call_id: &str) -> (r: bool)
        ensures
            r == shares_call_id(self@, call_id@),
    {
        call_id.unicode_len() > 0 && self.call_id.as_str().unicode_len() > 0 && same(
            self.call_id.as_str(),
            call_id,
        )
    }

    /// Whether a later event is this card with its missing id: two cards that
    /// each carry a gateway id, or each a call id, are siblings unless the ids
    /// agree.
    pub fn completes_with(&self, other: &Self) -> (r: bool)
        ensures
            r == completes_with(self@, other@),
    {
        if self.has_gateway_entry_id() && other.has_gateway_entry_id() {
            return same(self.entry_id.as_str(), other.entry_id.as_str());
        }
        if self.call_id.as_str().unicode_len() > 0 && other.call_id.as_str().unicode_len() > 0 {
            return same(self.call_id.as_str(), other.call_id.as_str());
        }
        true
    }

    /// Continue posts only with this card's gateway id. `server_fill` no
    /// longer gates a card that has one.
    pub fn can_post(&self, server_fill: bool) -> (r: bool)
        ensures
            r == has_entry(self@),
    {
        self.has_gateway_entry_id()
    }

    /// Dismiss / Open the screen: a call-keyed card still settles locally.
    pub fn can_dismiss(&self) -> (r: bool)
        ensures
            r == (has_entry(self@) || self@.call_id.len() > 0),
    {
        self.has_gateway_entry_id() || self.call_id.as_str().unicode_len() > 0
    }

    pub fn shows_form_chrome(&self) -> (r: bool)
        ensures
            r == shows_form_chrome(self@),
    {
        !(self.computer_handoff.is_some() && self.fields.len() == 0
            && self.title.as_str().unicode_len() == 0 && self.effective_resolution().is_none())
    }

    /// Open the screen: a Computer sibling, live or settled history.
    pub fn shows_computer_handoff(&self) -> (r: bool)
        ensures
            r == (self@.computer_handoff is Some),
    {
        self.computer_handoff.is_some()
    }

    pub fn live_computer_handoff(&self) -> (r: bool)
        ensures
            r == (self@.computer_handoff == Some(ComputerHandoffStatus::ActionNeeded)),
    {
        match self.computer_handoff {
            Some(ComputerHandoffStatus::ActionNeeded) => true,
            _ => false,
        }
    }

    /// I'm done and a timeout settle the form Dismissed; Skip settles it Skipped.
    pub fn settle_form_from_box(resolution: BoxHandoffResolution) -> (r: FormResolution)
        ensures
            r == (match resolution {
                BoxHandoffResolution::Declined => FormResolution::Skipped,
                _ => FormResolution::Dismissed,
            }),
    {
        match resolution {
            BoxHandoffResolution::Declined => FormResolution::Skipped,
            BoxHandoffResolution::HandedBack | BoxHandoffResolution::TimedOut => {
                FormResolution::Dismissed
            },
        }
    }

    pub fn handoff_prompt(&self) -> (r: String)
        ensures
            r@ == handoff_prompt(self@),
    {
        let chosen: Option<&String> = match &self.box_instruction {
            Some(s) => Some(s),
            None => match &self.instruction {
                Some(s) => Some(s),
                None => None,
            },
        };
        match chosen {
            Some(s) => {
                let t = trimmed(s.as_str());
                if t.as_str().unicode_len() > 0 {
                    t
                } else {
                    owned("Complete this step on the computer.")
                }
            },
            None => owned("Complete this step on the computer."),
        }
    }

    /// Folds a later event for the same card onto this one. Secret values are
    /// not carried.
    pub fn merge(&mut self, incoming: UserFormSpec)
        ensures
            final(self)@ == merged(old(self)@, incoming@),
    {
        let take_title = incoming.title.as_str().unicode_len() > 0 && (incoming.shows_form_chrome()
            || !self.shows_form_chrome());
        let take_entry = incoming.has_gateway_entry_id();
        let take_call = incoming.call_id.as_str().unicode_len() > 0;
        let take_run = incoming.run_id.as_str().unicode_len() > 0;
        let take_fields = incoming.fields.len() > 0;
        let resolution = merged_resolution(self.resolution, incoming.resolution);
        let computer_handoff = ComputerHandoffStatus::fold(
            self.computer_handoff,
            incoming.computer_handoff,
        );
        let mut cur = UserFormSpec::blank();
        std::mem::swap(&mut cur, self);
        let UserFormSpec {
            entry_id,
            call_id,
            run_id,
            title,
            instruction,
            fields,
            domain,
            live_host,
            widget_dismissed,
            handoff_entry_id,
            box_request_id,
            box_instruction,
            ..
        } = incoming;
        let out = UserFormSpec {
            entry_id: pick(take_entry, entry_id, cur.entry_id),
            call_id: pick(take_call, call_id, cur.call_id),
            run_id: pick(take_run, run_id, cur.run_id),
            title: pick(take_title, title, cur.title),
            instruction: pick_opt(instruction, cur.instruction),
            fields: if take_fields {
                fields
            } else {
                cur.fields
            },
            domain: pick_opt(domain, cur.domain),
            live_host: pick_opt(live_host, cur.live_host),
            resolution,
            widget_dismissed: cur.widget_dismissed || widget_dismissed,
            handoff_entry_id: pick_opt(handoff_entry_id, cur.handoff_entry_id),
            box_request_id: pick_opt(box_request_id, cur.box_request_id),
            box_instruction: pick_opt(box_instruction, cur.box_instruction),
            computer_handoff,
        };
        *self = out;
    }

    /// A card with nothing on it.
    fn blank() -> (r: UserFormSpec)
        ensures
            r@.entry_id.len() == 0,
    {
        UserFormSpec {
            entry_id: String::new(),
            call_id: String::new(),
            run_id: String::new(),
            title: String::new(),
            instruction: None,
            fields: Vec::new(),
            domain: None,
            live_host: None,
            resolution: None,
            widget_dismissed: false,
            handoff_entry_id: None,
            box_request_id: None,
            box_instruction: None,
            computer_handoff: None,
        }
    }
}

fn pick(take: bool, incoming: String, current: String) -> (r: String)
    ensures
        r@ == (if take {
            incoming@
        } else {
            current@
        }),
{
    if take {
        incoming
    } else {
        current
    }
}

fn pick_opt(incoming: Option<String>, current: Option<String>) -> (r: Option<String>)
    ensures
        opt_seq(r) == either(opt_seq(incoming), opt_seq(current)),
{
    match incoming {
        Some(s) => Some(s),
        None => current,
    }
}

fn merged_resolution(current: Option<FormResolution>, incoming: Option<FormResolution>) -> (r:
    Option<FormResolution>)
    ensures
        r == (if sticky(incoming) {
            incoming
        } else if incoming is Some && !sticky(current) {
            incoming
        } else {
            current
        }),
{
    if is_sticky(incoming) {
        incoming
    } else if incoming.is_some() && !is_sticky(current) {
        incoming
    } else {
        current
    }
}

/// After Continue has painted Sending, idle fields never come back: a body
/// with a card merges; any other reply to a submit paints Not filled. A
/// dismiss keeps its pill on an empty or already-answered reply and is
/// undone on a miss.
pub fn settle_user_form_http(verb: UserFormVerb, reply: &UserFormActionReply) -> (r:
    UserFormHttpSettle)
    ensures
        match reply {
            UserFormActionReply::Settled(spec) => r is Merge && r->Merge_0@ == spec@,
            UserFormActionReply::Empty | UserFormActionReply::AlreadyAnswered => r == (match verb {
                UserFormVerb::Submit => UserFormHttpSettle::Paint(FormResolution::FillFailed),
                UserFormVerb::Dismiss => UserFormHttpSettle::Keep,
            }),
            _ => r == (match verb {
                UserFormVerb::Submit => UserFormHttpSettle::Paint(FormResolution::FillFailed),
                UserFormVerb::Dismiss => UserFormHttpSettle::Restore,
            }),
        },
{
    match reply {
        UserFormActionReply::Settled(spec) => UserFormHttpSettle::Merge(spec.clone()),
        UserFormActionReply::Empty | UserFormActionReply::AlreadyAnswered => match verb {
            UserFormVerb::Submit => UserFormHttpSettle::Paint(FormResolution::FillFailed),
            UserFormVerb::Dismiss => UserFormHttpSettle::Keep,
        },
        _ => match verb {
            UserFormVerb::Submit => UserFormHttpSettle::Paint(FormResolution::FillFailed),
            UserFormVerb::Dismiss => UserFormHttpSettle::Restore,
        },
    }
}

/// What was typed for a field, or nothing.
pub open spec fn typed(values: Map<Seq<char>, Seq<char>>, id: Seq<char>) -> Seq<char> {
    if values.contains_key(id) {
        values[id]
    } else {
        Seq::empty()
    }
}

/// A checkbox is filled when it reads `true`; a masked field when something
/// other than the presence stub was typed; any other when anything was.
pub open spec fn value_filled(values: Map<Seq<char>, Seq<char>>, f: FieldV) -> bool {
    let raw = typed(values, f.id);
    if f.kind == UserFormFieldKind::Checkbox {
        raw == "true"@
    } else if field_masked(f) {
        trim(raw).len() > 0 && trim(raw) != "1"@
    } else {
        trim(raw).len() > 0
    }
}

pub open spec fn required_filled(values: Map<Seq<char>, Seq<char>>, fields: Seq<FieldV>) -> bool {
    forall|i: int| 0 <= i < fields.len() && (#[trigger] fields[i]).required ==> value_filled(values, fields[i])
}

/// How the debug line shows one field: never its value.
pub open spec fn shown_value(values: Map<Seq<char>, Seq<char>>, f: FieldV) -> Seq<char> {
    let present = values.contains_key(f.id) && values[f.id].len() > 0;
    if field_masked(f) {
        if present {
            "<masked>"@
        } else {
            "<empty>"@
        }
    } else if present {
        "<set>"@
    } else {
        "<empty>"@
    }
}

pub open spec fn debug_part(values: Map<Seq<char>, Seq<char>>, f: FieldV) -> Seq<char> {
    f.id + ":"@ + shown_value(values, f)
}

/// The parts for each field, joined with commas.
pub open spec fn debug_line(values: Map<Seq<char>, Seq<char>>, fields: Seq<FieldV>) -> Seq<char>
    decreases fields.len(),
{
    if fields.len() == 0 {
        Seq::empty()
    } else if fields.len() == 1 {
        debug_part(values, fields[0])
    } else {
        debug_line(values, fields.drop_last()) + ","@ + debug_part(values, fields.last())
    }
}

/// The typed values as a JSON object, member for member.
pub open spec fn values_object(pairs: Seq<(Seq<char>, Seq<char>)>) -> JsonV {
    JsonV::Object(Seq::new(pairs.len(), |i: int| (pairs[i].0, JsonV::Str(pairs[i].1))))
}

/// Values typed on the idle card. They never enter a chat part, a message's
/// content, or storage.
pub struct UserFormValues {
    pub by_id: StrMap,
}

impl View for UserFormValues {
    type V = Map<Seq<char>, Seq<char>>;

    open spec fn view(&self) -> Map<Seq<char>, Seq<char>> {
        self.by_id@
    }
}

impl Clone for UserFormValues {
    fn clone(&self) -> (r: Self)
        ensures
            r@ == self@,
    {
        UserFormValues { by_id: self.by_id.clone() }
    }
}

impl Default for UserFormValues {
    fn default() -> (r: Self)
        ensures
            r@ == Map::<Seq<char>, Seq<char>>::empty(),
    {
        UserFormValues { by_id: StrMap::new() }
    }
}

impl UserFormValues {
    pub fn filled(&self, field: &UserFormField) -> (r: bool)
        ensures
            r == value_filled(self@, field@),
    {
        proof {
            reveal_strlit("");
        }
        let raw: &str = match self.by_id.get(field.id.as_str()) {
            Some(v) => v,
            None => "",
        };
        assert(raw@ =~= typed(self@, field@.id));
        match field.kind {
            UserFormFieldKind::Checkbox => same(raw, "true"),
            _ => {
                let t = trimmed(raw);
                if field.masked() {
                    t.as_str().unicode_len() > 0 && !same(t.as_str(), "1")
                } else {
                    t.as_str().unicode_len() > 0
                }
            },
        }
    }

    /// `field:<masked>`, `field:<set>` or `field:<empty>` for each field, joined
    /// with commas: which fields hold something, never what.
    pub fn debug_without_secrets(&self, fields: &Vec<UserFormField>) -> (r: String)
        ensures
            r@ == debug_line(self@, fields@.map_values(|f: UserFormField| f@)),
    {
        let ghost fs = fields@.map_values(|f: UserFormField| f@);
        let mut out = String::new();
        let mut i: usize = 0;
        while i < fields.len()
            invariant
                i <= fields@.len(),
                fs == fields@.map_values(|f: UserFormField| f@),
                out@ == debug_line(self@, fs.subrange(0, i as int)),
            decreases fields@.len() - i,
        {
            let field = &fields[i];
            let present = match self.by_id.get(field.id.as_str()) {
                Some(v) => v.unicode_len() > 0,
                None => false,
            };
            let shown = if field.masked() {
                if present {
                    "<masked>"
                } else {
                    "<empty>"
                }
            } else if present {
                "<set>"
            } else {
                "<empty>"
            };
            if i > 0 {
                push_str(&mut out, ",");
            }
            push_str(&mut out, field.id.as_str());
            push_str(&mut out, ":");
            push_str(&mut out, shown);
            proof {
                let next = fs.subrange(0, i + 1);
                assert(next.drop_last() =~= fs.subrange(0, i as int));
                assert(next.last() == field@);
                assert(shown@ == shown_value(self@, field@));
            }
            i = i + 1;
        }
        assert(fs.subrange(0, i as int) =~= fs);
        out
    }

    /// The values as a JSON object, for the submit body.
    pub fn as_json_object(&self) -> (r: Json)
        ensures
            r@ == values_object(self.by_id.pairs()),
    {
        let mut members: Vec<(String, Json)> = Vec::new();
        let n = self.by_id.len();
        let mut i: usize = 0;
        while i < n
            invariant
                n == self.by_id.pairs().len(),
                i <= n,
                members@.len() == i,
                forall|k: int|
                    0 <= k < i ==> (#[trigger] members@[k]).0@ == self.by_id.pairs()[k].0
                        && members@[k].1@ == JsonV::Str(self.by_id.pairs()[k].1),
            decreases n - i,
        {
            let (k, v) = self.by_id.entry(i);
            members.push((owned(k), Json::Str(owned(v))));
            i = i + 1;
        }
        let r = Json::Object(members);
        assert(r@->Object_0 =~= values_object(self.by_id.pairs())->Object_0);
        r
    }

    /// A debug line that counts the fields and shows none of them.
    pub fn debug(&self) -> (r: String)
        ensures
            r@ == "UserFormValues { fields: "@ + decimal(self.by_id.pairs().len()) + " }"@,
    {
        let mut out = owned("UserFormValues { fields: ");
        push_decimal(&mut out, self.by_id.len() as u64);
        push_str(&mut out, " }");
        out
    }
}

impl UserFormSpec {
    pub fn required_fields_filled(&self, values: &UserFormValues) -> (r: bool)
        ensures
            r == required_filled(values@, self@.fields),
    {
        let mut i: usize = 0;
        while i < self.fields.len()
            invariant
                i <= self.fields@.len(),
                forall|k: int|
                    0 <= k < i && (#[trigger] self@.fields[k]).required ==> value_filled(
                        values@,
                        self@.fields[k],
                    ),
            decreases self.fields@.len() - i,
        {
            assert(self@.fields[i as int] == self.fields@[i as int]@);
            if self.fields[i].required && !values.filled(&self.fields[i]) {
                return false;
            }
            i = i + 1;
        }
        true
    }

    /// Continue posts when this card has its gateway id and every required
    /// field is filled.
    pub fn continue_enabled(&self, values: &UserFormValues, server_fill: bool) -> (r: bool)
        ensures
            r == (has_entry(self@) && required_filled(values@, self@.fields)),
    {
        self.can_post(server_fill) && self.required_fields_filled(values)
    }
}

/// Continue's gates, for the renderer. Never "fill succeeded".
pub fn continue_enabled(spec: &UserFormSpec, values: &UserFormValues, server_fill: bool) -> (r:
    bool)
    ensures
        r == (has_entry(spec@) && required_filled(values@, spec@.fields)),
{
    spec.continue_enabled(values, server_fill)
}

/// A settled or replayed user-form CUSTOM name.
pub open spec fn user_form_custom_name(name: Seq<char>) -> bool {
    let n = normalized(name);
    n == "user-form"@ || n == "form-request"@ || n == "form-resolution"@ || n
        == "request-user-form"@
}

/// The tool the bot waits on a user-form with.
pub open spec fn user_form_tool_name(name: Seq<char>) -> bool {
    let n = normalized(name);
    n == "request-user-form"@ || n == "user-form"@
}

/// A Computer handoff attachment's name.
pub open spec fn computer_handoff_name(name: Seq<char>) -> bool {
    let n = normalized(name);
    n == "computer-handoff-card"@ || n == "computer-handoff"@ || n == "sand://box"@ || n
        == "sand:box"@ || n == "box-handoff"@ || n == "box-handoff-card"@
}

pub fn is_user_form_custom_name(name: &str) -> (r: bool)
    ensures
        r == user_form_custom_name(name@),
{
    let n = normalize_name(name);
    let n = n.as_str();
    same(n, "user-form") || same(n, "form-request") || same(n, "form-resolution") || same(
        n,
        "request-user-form",
    )
}

pub fn is_user_form_tool(name: &str) -> (r: bool)
    ensures
        r == user_form_tool_name(name@),
{
    let n = normalize_name(name);
    let n = n.as_str();
    same(n, "request-user-form") || same(n, "user-form")
}

pub fn is_computer_handoff_name(name: &str) -> (r: bool)
    ensures
        r == computer_handoff_name(name@),
{
    let n = normalize_name(name);
    let n = n.as_str();
    same(n, "computer-handoff-card") || same(n, "computer-handoff") || same(n, "sand://box")
        || same(n, "sand:box") || same(n, "box-handoff") || same(n, "box-handoff-card")
}

/// A flag at `key`: a JSON boolean, or a string that reads `true` (any case)
/// or `1`.
pub open spec fn flag_at(value: JsonV, key: Seq<char>) -> Option<bool> {
    match get(value, key) {
        Some(v) => match as_bool(v) {
            Some(b) => Some(b),
            None => match as_str(v) {
                Some(s) => Some(same_ignoring_case(s, "true"@) || s == "1"@),
                None => None,
            },
        },
        None => None,
    }
}

fn read_flag(value: &Json, key: &str) -> (r: Option<bool>)
    ensures
        r == flag_at(value@, key@),
{
    match value.get(key) {
        Some(v) => match v.as_bool() {
            Some(b) => Some(b),
            None => match v.as_str() {
                Some(s) => Some(same_ignoring_case_exec(s, "true") || same(s, "1")),
                None => None,
            },
        },
        None => None,
    }
}

/// The member `inner` of the member `outer`.
pub open spec fn nested(value: JsonV, outer: Seq<char>, inner: Seq<char>) -> Option<JsonV> {
    match get(value, outer) {
        Some(x) => get(x, inner),
        None => None,
    }
}

fn nested_value<'a>(value: &'a Json, outer: &str, inner: &str) -> (r: Option<&'a Json>)
    ensures
        opt_view(r) == nested(value@, outer@, inner@),
{
    match value.get(outer) {
        Some(x) => x.get(inner),
        None => None,
    }
}

/// The text at `key` of the member `outer`.
pub open spec fn nested_text(value: JsonV, outer: Seq<char>, key: Seq<char>) -> Option<Seq<char>> {
    match get(value, outer) {
        Some(x) => text_at(x, key),
        None => None,
    }
}

fn nested_text_of(value: &Json, outer: &str, key: &str) -> (r: Option<String>)
    ensures
        opt_seq(r) == nested_text(value@, outer@, key@),
{
    match value.get(outer) {
        Some(x) => x.text_at(key),
        None => None,
    }
}

/// The envelope's `message.type` reads `user-form`.
pub open spec fn message_is_user_form(value: JsonV) -> bool {
    match get(value, "message"@) {
        Some(m) => match str_at(m, "type"@) {
            Some(t) => same_ignoring_case(t, "user-form"@),
            None => false,
        },
        None => false,
    }
}

fn message_says_user_form(value: &Json) -> (r: bool)
    ensures
        r == message_is_user_form(value@),
{
    match value.get("message") {
        Some(m) => match m.str_at("type") {
            Some(t) => same_ignoring_case_exec(t, "user-form"),
            None => false,
        },
        None => false,
    }
}

/// A value that carries a user-form: a request or resolution at the top, or
/// a send-message envelope whose message is one.
pub open spec fn looks_like_user_form(value: JsonV) -> bool {
    has(value, "formRequest"@) || has(value, "formResolution"@) || message_is_user_form(value)
        || nested(value, "message"@, "formRequest"@) is Some
}

fn looks_like_user_form_value(value: &Json) -> (r: bool)
    ensures
        r == looks_like_user_form(value@),
{
    value.has("formRequest") || value.has("formResolution") || message_says_user_form(value)
        || nested_value(value, "message", "formRequest").is_some()
}

/// A user-form event: by its name or by what it carries.
pub open spec fn user_form_event(name: Seq<char>, value: JsonV) -> bool {
    user_form_custom_name(name) || looks_like_user_form(value)
}

pub fn is_user_form_event(name: &str, value: &Json) -> (r: bool)
    ensures
        r == user_form_event(name@, value@),
{
    is_user_form_custom_name(name) || looks_like_user_form_value(value)
}

/// The form request: `formRequest`, else the message's, else a message whose
/// type is `user-form`.
pub open spec fn form_request_of(value: JsonV) -> Option<JsonV> {
    either(
        get(value, "formRequest"@),
        either(
            nested(value, "message"@, "formRequest"@),
            if message_is_user_form(value) {
                get(value, "message"@)
            } else {
                None
            },
        ),
    )
}

fn form_request_object(value: &Json) -> (r: Option<&Json>)
    ensures
        opt_view(r) == form_request_of(value@),
{
    match value.get("formRequest") {
        Some(x) => Some(x),
        None => match nested_value(value, "message", "formRequest") {
            Some(x) => Some(x),
            None => if message_says_user_form(value) {
                value.get("message")
            } else {
                None
            },
        },
    }
}

/// The gateway card id in a value: its `entryId`, or the `id` of a
/// send-message envelope. A `callId`, `toolCallId` or event `id` is not one.
pub open spec fn gateway_id_in(value: JsonV) -> Option<Seq<char>> {
    either(
        text_at(value, "entryId"@),
        if str_at(value, "kind"@) == Some("send-message"@) {
            text_at(value, "id"@)
        } else {
            None
        },
    )
}

fn gateway_entry_id_in(value: &Json) -> (r: Option<String>)
    ensures
        opt_seq(r) == gateway_id_in(value@),
{
    match value.text_at("entryId") {
        Some(id) => Some(id),
        None => {
            let send_message = match value.str_at("kind") {
                Some(k) => same(k, "send-message"),
                None => false,
            };
            if send_message {
                value.text_at("id")
            } else {
                None
            }
        },
    }
}

/// The gateway card id of an event: its top-level `entryId`, else the one in
/// `value`, else the one in the event's own `value`.
pub open spec fn gateway_id(event: JsonV, value: JsonV) -> Option<Seq<char>> {
    either(
        text_at(event, "entryId"@),
        either(
            gateway_id_in(value),
            match get(event, "value"@) {
                Some(x) => gateway_id_in(x),
                None => None,
            },
        ),
    )
}

fn gateway_entry_id(event: &Json, value: &Json) -> (r: Option<String>)
    ensures
        opt_seq(r) == gateway_id(event@, value@),
{
    match event.text_at("entryId") {
        Some(id) => Some(id),
        None => match gateway_entry_id_in(value) {
            Some(id) => Some(id),
            None => match event.get("value") {
                Some(x) => gateway_entry_id_in(x),
                None => None,
            },
        },
    }
}

/// The wire `formResolution`: a string, or an object's `status` (else
/// `state`) when that is one; `null` and anything else is none.
pub open spec fn wire_resolution(value: JsonV) -> Option<FormResolution> {
    match either(get(value, "formResolution"@), nested(value, "message"@, "formResolution"@)) {
        Some(raw) => if raw is Null {
            None
        } else {
            match as_str(raw) {
                Some(s) => Some(resolution_of(s)),
                None => match either(get(raw, "status"@), get(raw, "state"@)) {
                    Some(x) => match as_str(x) {
                        Some(s) => Some(resolution_of(s)),
                        None => None,
                    },
                    None => None,
                },
            }
        },
        None => None,
    }
}

fn parse_resolution(value: &Json) -> (r: Option<FormResolution>)
    ensures
        r == wire_resolution(value@),
{
    let raw = match value.get("formResolution") {
        Some(x) => x,
        None => match nested_value(value, "message", "formResolution") {
            Some(x) => x,
            None => {
                return None;
            },
        },
    };
    if raw.is_null() {
        return None;
    }
    if let Some(s) = raw.as_str() {
        return Some(FormResolution::parse(s));
    }
    let status = match raw.get("status") {
        Some(x) => Some(x),
        None => raw.get("state"),
    };
    match status {
        Some(x) => match x.as_str() {
            Some(s) => Some(FormResolution::parse(s)),
            None => None,
        },
        None => None,
    }
}

/// The first of the hand-off id's spellings that holds text.
pub open spec fn handoff_id_here(value: JsonV) -> Option<Seq<char>> {
    either(
        text_at(value, "handoffEntryId"@),
        either(
            text_at(value, "handoff_entry_id"@),
            either(text_at(value, "boxHandoffEntryId"@), text_at(value, "handoffId"@)),
        ),
    )
}

fn first_handoff_entry_id(value: &Json) -> (r: Option<String>)
    ensures
        opt_seq(r) == handoff_id_here(value@),
{
    match value.text_at("handoffEntryId") {
        Some(id) => Some(id),
        None => match value.text_at("handoff_entry_id") {
            Some(id) => Some(id),
            None => match value.text_at("boxHandoffEntryId") {
                Some(id) => Some(id),
                None => value.text_at("handoffId"),
            },
        },
    }
}

pub open spec fn handoff_id_under(value: JsonV, key: Seq<char>) -> Option<Seq<char>> {
    match get(value, key) {
        Some(x) => handoff_id_here(x),
        None => None,
    }
}

/// The hand-off card id, at the top or in `message`, `formRequest` or `value`.
pub open spec fn handoff_id(value: JsonV) -> Option<Seq<char>> {
    either(
        handoff_id_here(value),
        either(
            handoff_id_under(value, "message"@),
            either(handoff_id_under(value, "formRequest"@), handoff_id_under(value, "value"@)),
        ),
    )
}

fn handoff_id_in_member(value: &Json, key: &str) -> (r: Option<String>)
    ensures
        opt_seq(r) == handoff_id_under(value@, key@),
{
    match value.get(key) {
        Some(x) => first_handoff_entry_id(x),
        None => None,
    }
}

fn parse_handoff_entry_id(value: &Json) -> (r: Option<String>)
    ensures
        opt_seq(r) == handoff_id(value@),
{
    match first_handoff_entry_id(value) {
        Some(id) => Some(id),
        None => match handoff_id_in_member(value, "message") {
            Some(id) => Some(id),
            None => match handoff_id_in_member(value, "formRequest") {
                Some(id) => Some(id),
                None => handoff_id_in_member(value, "value"),
            },
        },
    }
}

/// An option: a bare string is its own value and label; an object gives its
/// `value` (else `id`) and its `label`, which defaults to the value.
pub open spec fn option_from(opt: JsonV) -> Option<(Seq<char>, Seq<char>)> {
    match as_str(opt) {
        Some(s) => Some((s, s)),
        None => match either(text_at(opt, "value"@), text_at(opt, "id"@)) {
            Some(v) => Some((v, or_else(text_at(opt, "label"@), v))),
            None => None,
        },
    }
}

/// The options that read as options, in order.
pub open spec fn options_from(opts: Seq<JsonV>) -> Seq<(Seq<char>, Seq<char>)>
    decreases opts.len(),
{
    if opts.len() == 0 {
        Seq::empty()
    } else {
        options_from(opts.drop_last()) + match option_from(opts.last()) {
            Some(o) => seq![o],
            None => Seq::empty(),
        }
    }
}

pub open spec fn options_of(row: JsonV) -> Seq<(Seq<char>, Seq<char>)> {
    match get(row, "options"@) {
        Some(JsonV::Array(opts)) => options_from(opts),
        _ => Seq::empty(),
    }
}

fn parse_option(opt: &Json) -> (r: Option<UserFormSelectOption>)
    ensures
        match r {
            Some(o) => option_from(opt@) == Some(option_view(o)),
            None => option_from(opt@) is None,
        },
{
    if let Some(s) = opt.as_str() {
        return Some(UserFormSelectOption { value: owned(s), label: owned(s) });
    }
    let value = match opt.text_at("value") {
        Some(v) => v,
        None => match opt.text_at("id") {
            Some(v) => v,
            None => {
                return None;
            },
        },
    };
    let label = match opt.text_at("label") {
        Some(l) => l,
        None => value.clone(),
    };
    Some(UserFormSelectOption { value, label })
}

fn parse_options(row: &Json) -> (r: Vec<UserFormSelectOption>)
    ensures
        r@.map_values(|o: UserFormSelectOption| (o.value@, o.label@)) == options_of(row@),
{
    let opts = match row.get("options") {
        Some(x) => match x.as_array() {
            Some(items) => items,
            None => {
                return Vec::new();
            },
        },
        None => {
            return Vec::new();
        },
    };
    let ghost all = get(row@, "options"@)->0->Array_0;
    let mut out: Vec<UserFormSelectOption> = Vec::new();
    let mut i: usize = 0;
    while i < opts.len()
        invariant
            i <= opts@.len(),
            all.len() == opts@.len(),
            forall|k: int| 0 <= k < opts@.len() ==> #[trigger] all[k] == opts@[k]@,
            out@.map_values(|o: UserFormSelectOption| (o.value@, o.label@)) == options_from(
                all.subrange(0, i as int),
            ),
        decreases opts@.len() - i,
    {
        let ghost before = out@;
        let next = parse_option(&opts[i]);
        proof {
            let sub = all.subrange(0, i + 1);
            assert(sub.drop_last() =~= all.subrange(0, i as int));
            assert(sub.last() == opts@[i as int]@);
        }
        match next {
            Some(o) => {
                let ghost ov = option_view(o);
                out.push(o);
                assert(out@.map_values(|o: UserFormSelectOption| (o.value@, o.label@))
                    =~= before.map_values(|o: UserFormSelectOption| (o.value@, o.label@)).push(ov));
            },
            None => {},
        }
        i = i + 1;
    }
    assert(all.subrange(0, i as int) =~= all);
    out
}

/// A field row: it needs a label (else a name); its id defaults to
/// `field-{index}`; password and otp are masked even without `secret`; a
/// masked field carries no prefill.
pub open spec fn field_from(row: JsonV, index: nat) -> Option<FieldV> {
    match either(text_at(row, "label"@), text_at(row, "name"@)) {
        None => None,
        Some(label) => {
            let kind = match str_at(row, "type"@) {
                Some(t) => field_kind_of(t),
                None => UserFormFieldKind::Text,
            };
            let secret = or_else(flag_at(row, "secret"@), false) || is_secret_kind(kind);
            Some(
                FieldV {
                    id: or_else(text_at(row, "id"@), "field-"@ + decimal(index)),
                    label,
                    kind,
                    required: or_else(flag_at(row, "required"@), false),
                    secret,
                    options: options_of(row),
                    placeholder: text_at(row, "placeholder"@),
                    prefill: if secret {
                        None
                    } else {
                        either(text_at(row, "value"@), text_at(row, "default"@))
                    },
                },
            )
        },
    }
}

/// The rows that read as fields, in order, each numbered by its place among
/// all the rows.
pub open spec fn fields_from(rows: Seq<JsonV>) -> Seq<FieldV>
    decreases rows.len(),
{
    if rows.len() == 0 {
        Seq::empty()
    } else {
        fields_from(rows.drop_last()) + match field_from(rows.last(), (rows.len() - 1) as nat) {
            Some(f) => seq![f],
            None => Seq::empty(),
        }
    }
}

pub open spec fn fields_in(value: JsonV) -> Seq<FieldV> {
    match value {
        JsonV::Array(rows) => fields_from(rows),
        _ => Seq::empty(),
    }
}

fn parse_field(row: &Json, index: usize) -> (r: Option<UserFormField>)
    ensures
        match r {
            Some(f) => field_from(row@, index as nat) == Some(f@),
            None => field_from(row@, index as nat) is None,
        },
{
    let label = match row.text_at("label") {
        Some(l) => l,
        None => match row.text_at("name") {
            Some(l) => l,
            None => {
                return None;
            },
        },
    };
    let id = match row.text_at("id") {
        Some(id) => id,
        None => {
            let mut id = owned("field-");
            push_decimal(&mut id, index as u64);
            id
        },
    };
    let kind = match row.str_at("type") {
        Some(t) => UserFormFieldKind::parse(t),
        None => UserFormFieldKind::Text,
    };
    let secret_flag = match read_flag(row, "secret") {
        Some(b) => b,
        None => false,
    };
    let secret = secret_flag || kind.is_secret_kind();
    let required = match read_flag(row, "required") {
        Some(b) => b,
        None => false,
    };
    let options = parse_options(row);
    let placeholder = row.text_at("placeholder");
    let prefill = if secret {
        None
    } else {
        match row.text_at("value") {
            Some(v) => Some(v),
            None => row.text_at("default"),
        }
    };
    Some(UserFormField { id, label, kind, required, secret, options, placeholder, prefill })
}

fn parse_fields_value(fields: &Json) -> (r: Vec<UserFormField>)
    ensures
        r@.map_values(|f: UserFormField| f@) == fields_in(fields@),
{
    let rows = match fields.as_array() {
        Some(rows) => rows,
        None => {
            return Vec::new();
        },
    };
    let ghost all = fields@->Array_0;
    let mut out: Vec<UserFormField> = Vec::new();
    let mut i: usize = 0;
    while i < rows.len()
        invariant
            i <= rows@.len(),
            all.len() == rows@.len(),
            forall|k: int| 0 <= k < rows@.len() ==> #[trigger] all[k] == rows@[k]@,
            out@.map_values(|f: UserFormField| f@) == fields_from(all.subrange(0, i as int)),
        decreases rows@.len() - i,
    {
        let ghost before = out@;
        let next = parse_field(&rows[i], i);
        proof {
            let sub = all.subrange(0, i + 1);
            assert(sub.drop_last() =~= all.subrange(0, i as int));
            assert(sub.last() == rows@[i as int]@);
        }
        match next {
            Some(f) => {
                let ghost fv = f@;
                out.push(f);
                assert(out@.map_values(|f: UserFormField| f@) =~= before.map_values(
                    |f: UserFormField| f@,
                ).push(fv));
            },
            None => {},
        }
        i = i + 1;
    }
    assert(all.subrange(0, i as int) =~= all);
    out
}

/// The text at `key` of the form request, when there is one.
pub open spec fn req_text(request: Option<JsonV>, key: Seq<char>) -> Option<Seq<char>> {
    match request {
        Some(r) => text_at(r, key),
        None => None,
    }
}

fn request_text(request: Option<&Json>, key: &str) -> (r: Option<String>)
    ensures
        opt_seq(r) == req_text(opt_view(request), key@),
{
    match request {
        Some(x) => x.text_at(key),
        None => None,
    }
}

/// The fields: the request's `fields` when there is a request, else the
/// value's own `fields`.
pub open spec fn form_fields(value: JsonV, request: Option<JsonV>) -> Seq<FieldV> {
    match request {
        Some(req) => match get(req, "fields"@) {
            Some(f) => fields_in(f),
            None => Seq::empty(),
        },
        None => match get(value, "fields"@) {
            Some(f) => fields_in(f),
            None => Seq::empty(),
        },
    }
}

/// The live host: the request's `liveHost` (else `live_host`), else the
/// value's `liveHost`.
pub open spec fn form_live_host(value: JsonV, request: Option<JsonV>) -> Option<Seq<char>> {
    either(
        match request {
            Some(r) => either(text_at(r, "liveHost"@), text_at(r, "live_host"@)),
            None => None,
        },
        text_at(value, "liveHost"@),
    )
}

/// A card read from a value. An `escalated` resolution is no settle of the
/// form: it opens a live Computer card beside it and leaves the form as it
/// was. A value with no fields, title, resolution, dismissal or Computer
/// card is no card.
pub open spec fn parsed_form(value: JsonV, entry_id: Option<Seq<char>>) -> Option<FormV> {
    let request = form_request_of(value);
    let wire = wire_resolution(value);
    let escalated = wire == Some(FormResolution::Escalated);
    let resolution = if escalated {
        None
    } else {
        wire
    };
    let widget_dismissed = if escalated {
        false
    } else {
        or_else(flag_at(value, "widgetDismissed"@), false)
    };
    let computer_handoff = if escalated {
        Some(ComputerHandoffStatus::ActionNeeded)
    } else {
        None
    };
    let fields = form_fields(value, request);
    let title = or_else(either(req_text(request, "title"@), text_at(value, "title"@)), Seq::empty());
    if fields.len() == 0 && title.len() == 0 && resolution is None && !widget_dismissed
        && computer_handoff is None {
        None
    } else {
        Some(
            FormV {
                entry_id: or_else(either(entry_id, gateway_id_in(value)), Seq::empty()),
                call_id: Seq::empty(),
                run_id: Seq::empty(),
                title,
                instruction: either(req_text(request, "instruction"@), text_at(value, "instruction"@)),
                fields,
                domain: either(req_text(request, "domain"@), text_at(value, "domain"@)),
                live_host: form_live_host(value, request),
                resolution,
                widget_dismissed,
                handoff_entry_id: either(
                    handoff_id(value),
                    match request {
                        Some(r) => handoff_id(r),
                        None => None,
                    },
                ),
                box_request_id: either(
                    req_text(request, "boxRequestId"@),
                    text_at(value, "boxRequestId"@),
                ),
                box_instruction: either(
                    req_text(request, "boxInstruction"@),
                    text_at(value, "boxInstruction"@),
                ),
                computer_handoff,
            },
        )
    }
}

/// The view of an optional card.
pub open spec fn opt_form(r: Option<UserFormSpec>) -> Option<FormV> {
    match r {
        Some(s) => Some(s@),
        None => None,
    }
}

fn form_fields_of(value: &Json, request: Option<&Json>) -> (r: Vec<UserFormField>)
    ensures
        r@.map_values(|f: UserFormField| f@) == form_fields(value@, opt_view(request)),
{
    let source = match request {
        Some(req) => req.get("fields"),
        None => value.get("fields"),
    };
    match source {
        Some(f) => parse_fields_value(f),
        None => {
            let v: Vec<UserFormField> = Vec::new();
            assert(v@.map_values(|f: UserFormField| f@) =~= Seq::<FieldV>::empty());
            v
        },
    }
}

fn live_host_of(value: &Json, request: Option<&Json>) -> (r: Option<String>)
    ensures
        opt_seq(r) == form_live_host(value@, opt_view(request)),
{
    let from_request = match request {
        Some(req) => pick_opt(req.text_at("liveHost"), req.text_at("live_host")),
        None => None,
    };
    pick_opt(from_request, value.text_at("liveHost"))
}

fn handoff_of(value: &Json, request: Option<&Json>) -> (r: Option<String>)
    ensures
        opt_seq(r) == either(
            handoff_id(value@),
            match opt_view(request) {
                Some(x) => handoff_id(x),
                None => None,
            },
        ),
{
    let from_request = match request {
        Some(req) => parse_handoff_entry_id(req),
        None => None,
    };
    pick_opt(parse_handoff_entry_id(value), from_request)
}

impl UserFormSpec {
    /// Reads a card from a value, with the gateway id given or found in it.
    pub fn parse(value: &Json, entry_id: Option<String>) -> (r: Option<Self>)
        ensures
            opt_form(r) == parsed_form(value@, opt_seq(entry_id)),
    {
        let request = form_request_object(value);
        let wire = parse_resolution(value);
        let escalated = match wire {
            Some(FormResolution::Escalated) => true,
            _ => false,
        };
        let resolution = if escalated {
            None
        } else {
            wire
        };
        let widget_dismissed = if escalated {
            false
        } else {
            match read_flag(value, "widgetDismissed") {
                Some(b) => b,
                None => false,
            }
        };
        let computer_handoff = if escalated {
            Some(ComputerHandoffStatus::ActionNeeded)
        } else {
            None
        };
        let fields = form_fields_of(value, request);
        let title = match pick_opt(request_text(request, "title"), value.text_at("title")) {
            Some(t) => t,
            None => String::new(),
        };
        if fields.len() == 0 && title.as_str().unicode_len() == 0 && resolution.is_none()
            && !widget_dismissed && computer_handoff.is_none() {
            return None;
        }
        let entry_id = match pick_opt(entry_id, gateway_entry_id_in(value)) {
            Some(id) => id,
            None => String::new(),
        };
        let spec = UserFormSpec {
            entry_id,
            call_id: String::new(),
            run_id: String::new(),
            title,
            instruction: pick_opt(request_text(request, "instruction"), value.text_at("instruction")),
            fields,
            domain: pick_opt(request_text(request, "domain"), value.text_at("domain")),
            live_host: live_host_of(value, request),
            resolution,
            widget_dismissed,
            handoff_entry_id: handoff_of(value, request),
            box_request_id: pick_opt(
                request_text(request, "boxRequestId"),
                value.text_at("boxRequestId"),
            ),
            box_instruction: pick_opt(
                request_text(request, "boxInstruction"),
                value.text_at("boxInstruction"),
            ),
            computer_handoff,
        };
        Some(spec)
    }
}

/// The run and call a card is followed and merged by, taken from the event
/// where the card has none: `runId`, and `callId` (else `toolCallId`), at the
/// top or in the event's `value`.
pub open spec fn with_run_and_call(f: FormV, event: JsonV) -> FormV {
    FormV {
        run_id: if f.run_id.len() > 0 {
            f.run_id
        } else {
            or_else(
                either(text_at(event, "runId"@), nested_text(event, "value"@, "runId"@)),
                Seq::empty(),
            )
        },
        call_id: if f.call_id.len() > 0 {
            f.call_id
        } else {
            or_else(
                either(
                    text_at(event, "callId"@),
                    either(
                        text_at(event, "toolCallId"@),
                        either(
                            nested_text(event, "value"@, "callId"@),
                            nested_text(event, "value"@, "toolCallId"@),
                        ),
                    ),
                ),
                Seq::empty(),
            )
        },
        ..f
    }
}

fn fill_run_and_call(spec: &mut UserFormSpec, event: &Json)
    ensures
        final(spec)@ == with_run_and_call(old(spec)@, event@),
{
    if spec.run_id.as_str().unicode_len() == 0 {
        spec.run_id = match pick_opt(event.text_at("runId"), nested_text_of(event, "value", "runId")) {
            Some(id) => id,
            None => String::new(),
        };
    }
    if spec.call_id.as_str().unicode_len() == 0 {
        let found = pick_opt(
            event.text_at("callId"),
            pick_opt(
                event.text_at("toolCallId"),
                pick_opt(
                    nested_text_of(event, "value", "callId"),
                    nested_text_of(event, "value", "toolCallId"),
                ),
            ),
        );
        spec.call_id = match found {
            Some(id) => id,
            None => String::new(),
        };
    }
}

/// The live user-form: a `run-awaiting-approval` (by name at the top or in
/// `value`) whose reason is `user-form`, or whose tool is the user-form's.
pub open spec fn user_form_awaiting(event: JsonV) -> bool {
    let name = or_else(
        either(
            str_at(event, "name"@),
            match get(event, "value"@) {
                Some(v) => str_at(v, "name"@),
                None => None,
            },
        ),
        Seq::empty(),
    );
    let reason = or_else(
        either(text_at(event, "reason"@), nested_text(event, "value"@, "reason"@)),
        Seq::empty(),
    );
    let tool = or_else(
        either(text_at(event, "tool"@), nested_text(event, "value"@, "tool"@)),
        Seq::empty(),
    );
    name == "run-awaiting-approval"@ && (same_ignoring_case(reason, "user-form"@)
        || user_form_tool_name(tool))
}

pub fn is_user_form_awaiting(event: &Json) -> (r: bool)
    ensures
        r == user_form_awaiting(event@),
{
    proof {
        reveal_strlit("");
    }
    let name: &str = match event.str_at("name") {
        Some(n) => n,
        None => match event.get("value") {
            Some(v) => match v.str_at("name") {
                Some(n) => n,
                None => "",
            },
            None => "",
        },
    };
    assert(name@ =~= or_else(
        either(
            str_at(event@, "name"@),
            match get(event@, "value"@) {
                Some(v) => str_at(v, "name"@),
                None => None,
            },
        ),
        Seq::empty(),
    ));
    if !same(name, "run-awaiting-approval") {
        return false;
    }
    let reason = match pick_opt(event.text_at("reason"), nested_text_of(event, "value", "reason")) {
        Some(r) => r,
        None => String::new(),
    };
    if same_ignoring_case_exec(reason.as_str(), "user-form") {
        return true;
    }
    let tool = match pick_opt(event.text_at("tool"), nested_text_of(event, "value", "tool")) {
        Some(t) => t,
        None => String::new(),
    };
    is_user_form_tool(tool.as_str())
}

/// Where the live card's schema sits before it is read: `arguments` at the
/// top or in `value`, else `formRequest`, else the fallback.
pub open spec fn raw_arguments(event: JsonV, fallback: Option<JsonV>) -> Option<JsonV> {
    either(
        get(event, "arguments"@),
        either(nested(event, "value"@, "arguments"@), either(get(event, "formRequest"@), fallback)),
    )
}

/// The live card's schema: a JSON `null` gives way to the fallback, and a
/// string is read as JSON text, kept as it is when it is not JSON.
pub open spec fn awaiting_arguments(event: JsonV, fallback: Option<JsonV>) -> JsonV {
    match raw_arguments(event, fallback) {
        Some(raw) => if raw is Null {
            or_else(fallback, JsonV::Null)
        } else {
            match as_str(raw) {
                Some(s) => match parsed_json(s) {
                    Some(j) => j,
                    None => raw,
                },
                None => raw,
            }
        },
        None => or_else(fallback, JsonV::Null),
    }
}

fn copy_or_null(value: Option<&Json>) -> (r: Json)
    ensures
        r@ == or_else(opt_view(value), JsonV::Null),
{
    match value {
        Some(v) => v.copy(),
        None => Json::Null,
    }
}

fn arguments_object(event: &Json, fallback: Option<&Json>) -> (r: Json)
    ensures
        r@ == awaiting_arguments(event@, opt_view(fallback)),
{
    let raw: Option<&Json> = match event.get("arguments") {
        Some(x) => Some(x),
        None => match nested_value(event, "value", "arguments") {
            Some(x) => Some(x),
            None => match event.get("formRequest") {
                Some(x) => Some(x),
                None => fallback,
            },
        },
    };
    match raw {
        Some(raw) => {
            if raw.is_null() {
                return copy_or_null(fallback);
            }
            match raw.as_str() {
                Some(s) => match parse_json(s) {
                    Some(j) => j,
                    None => raw.copy(),
                },
                None => raw.copy(),
            }
        },
        None => copy_or_null(fallback),
    }
}

/// `{"formRequest": arguments}`.
pub open spec fn as_form_request(arguments: JsonV) -> JsonV {
    JsonV::Object(seq![("formRequest"@, arguments)])
}

/// The live card read from its schema: the schema itself, else the schema
/// as a `formRequest`, else the event, else a user-form carried in the
/// event's `value`; then given the event's run and call.
pub open spec fn form_from_arguments(event: JsonV, arguments: JsonV) -> Option<FormV> {
    let value = or_else(get(event, "value"@), JsonV::Null);
    let hint = either(gateway_id(event, arguments), gateway_id(event, event));
    let found = either(
        parsed_form(arguments, hint),
        either(
            parsed_form(as_form_request(arguments), hint),
            either(
                parsed_form(event, hint),
                if looks_like_user_form(value) {
                    parsed_form(value, hint)
                } else {
                    None
                },
            ),
        ),
    );
    match found {
        Some(f) => Some(with_run_and_call(f, event)),
        None => None,
    }
}

/// The live card of a `run-awaiting-approval`.
pub open spec fn awaiting_form(event: JsonV, fallback: Option<JsonV>) -> Option<FormV> {
    form_from_arguments(event, awaiting_arguments(event, fallback))
}

/// A card from a CUSTOM event: the live card when the event is the awaiting
/// one and carries it, else a settled or replayed user-form read from the
/// event's `value` (or the event itself).
pub open spec fn custom_event_form(event: JsonV) -> Option<FormV> {
    let live = if user_form_awaiting(event) {
        awaiting_form(event, None)
    } else {
        None
    };
    if live is Some {
        live
    } else {
        let name = or_else(str_at(event, "name"@), Seq::empty());
        let value = or_else(get(event, "value"@), event);
        if !user_form_event(name, value) {
            None
        } else {
            match parsed_form(value, gateway_id(event, value)) {
                Some(f) => Some(with_run_and_call(f, event)),
                None => None,
            }
        }
    }
}

/// A card from tool arguments that carry one; the tool call id becomes its
/// call id, never its gateway id.
pub open spec fn tool_args_form(args: JsonV, tool_call_id: Seq<char>) -> Option<FormV> {
    if !looks_like_user_form(args) && !(has(args, "fields"@)) {
        None
    } else {
        match parsed_form(args, gateway_id_in(args)) {
            Some(f) => Some(
                if f.call_id.len() == 0 && tool_call_id.len() > 0 {
                    FormV { call_id: tool_call_id, ..f }
                } else {
                    f
                },
            ),
            None => None,
        }
    }
}

impl UserFormSpec {
    /// The live card from its schema, already read out of the event.
    pub fn from_awaiting_arguments(event: &Json, arguments: &Json) -> (r: Option<Self>)
        ensures
            opt_form(r) == form_from_arguments(event@, arguments@),
    {
        let hint = match gateway_entry_id(event, arguments) {
            Some(id) => Some(id),
            None => gateway_entry_id(event, event),
        };
        let mut spec = match Self::parse(arguments, copy_opt(&hint)) {
            Some(s) => s,
            None => {
                let mut members: Vec<(String, Json)> = Vec::new();
                members.push((owned("formRequest"), arguments.copy()));
                let wrapped = Json::Object(members);
                assert(wrapped@->Object_0 =~= as_form_request(arguments@)->Object_0);
                match Self::parse(&wrapped, copy_opt(&hint)) {
                    Some(s) => s,
                    None => match Self::parse(event, copy_opt(&hint)) {
                        Some(s) => s,
                        None => {
                            let value = match event.get("value") {
                                Some(v) => v.copy(),
                                None => Json::Null,
                            };
                            if !looks_like_user_form_value(&value) {
                                return None;
                            }
                            match Self::parse(&value, hint) {
                                Some(s) => s,
                                None => {
                                    return None;
                                },
                            }
                        },
                    },
                }
            },
        };
        fill_run_and_call(&mut spec, event);
        Some(spec)
    }

    /// The live card of a `run-awaiting-approval`: painted from `arguments`
    /// (alias `formRequest`), posted by the top-level `entryId`.
    pub fn from_awaiting_event(event: &Json, args_fallback: Option<&Json>) -> (r: Option<Self>)
        ensures
            opt_form(r) == awaiting_form(event@, opt_view(args_fallback)),
    {
        let arguments = arguments_object(event, args_fallback);
        Self::from_awaiting_arguments(event, &arguments)
    }

    pub fn from_custom_event(event: &Json) -> (r: Option<Self>)
        ensures
            opt_form(r) == custom_event_form(event@),
    {
        proof {
            reveal_strlit("");
        }
        if is_user_form_awaiting(event) {
            if let Some(spec) = Self::from_awaiting_event(event, None) {
                return Some(spec);
            }
        }
        let name: &str = match event.str_at("name") {
            Some(n) => n,
            None => "",
        };
        assert(name@ =~= or_else(str_at(event@, "name"@), Seq::empty()));
        let value: &Json = match event.get("value") {
            Some(v) => v,
            None => event,
        };
        if !is_user_form_event(name, value) {
            return None;
        }
        let mut spec = match Self::parse(value, gateway_entry_id(event, value)) {
            Some(s) => s,
            None => {
                return None;
            },
        };
        fill_run_and_call(&mut spec, event);
        Some(spec)
    }

    pub fn from_tool_args(args: &Json, tool_call_id: &str) -> (r: Option<Self>)
        ensures
            opt_form(r) == tool_args_form(args@, tool_call_id@),
    {
        if !looks_like_user_form_value(args) && !args.has("fields") {
            return None;
        }
        let mut spec = match Self::parse(args, gateway_entry_id_in(args)) {
            Some(s) => s,
            None => {
                return None;
            },
        };
        if spec.call_id.as_str().unicode_len() == 0 && tool_call_id.unicode_len() > 0 {
            spec.call_id = owned(tool_call_id);
        }
        Some(spec)
    }
}

/// The Computer handoff attachment (`sand://box` / `computer_handoff_card`).
#[derive(Debug, PartialEq, Eq)]
pub struct ComputerHandoffSpec {
    pub form_entry_id: String,
    /// The sibling card id for the hand-back route. Never the form's id.
    pub handoff_entry_id: Option<String>,
    pub box_request_id: Option<String>,
    pub instruction: String,
}

/// A Computer attachment as the contracts read it.
pub struct HandoffV {
    pub form_entry_id: Seq<char>,
    pub handoff_entry_id: Option<Seq<char>>,
    pub box_request_id: Option<Seq<char>>,
    pub instruction: Seq<char>,
}

impl View for ComputerHandoffSpec {
    type V = HandoffV;

    open spec fn view(&self) -> HandoffV {
        HandoffV {
            form_entry_id: self.form_entry_id@,
            handoff_entry_id: opt_seq(self.handoff_entry_id),
            box_request_id: opt_seq(self.box_request_id),
            instruction: self.instruction@,
        }
    }
}

/// A value that is a Computer attachment by what it carries.
pub open spec fn handoff_payload(value: JsonV) -> bool {
    text_at(value, "uri"@) == Some("sand://box"@) || has(value, "boxRequestId"@) || has(
        value,
        "boxInstruction"@,
    )
}

fn is_computer_handoff_payload(value: &Json) -> (r: bool)
    ensures
        r == handoff_payload(value@),
{
    let uri = match value.text_at("uri") {
        Some(u) => same(u.as_str(), "sand://box"),
        None => false,
    };
    uri || value.has("boxRequestId") || value.has("boxInstruction")
}

/// The sibling's id by a plain `id` that is not the form's.
pub open spec fn sibling_by_id(value: JsonV, event: JsonV, form: Seq<char>) -> Option<Seq<char>> {
    match either(text_at(value, "id"@), text_at(event, "id"@)) {
        Some(id) => if id.len() == 0 || id == form {
            None
        } else {
            Some(id)
        },
        None => None,
    }
}

/// The sibling's id by an `entryId` that differs from the `formEntryId`.
pub open spec fn sibling_by_entry(value: JsonV) -> Option<Seq<char>> {
    match text_at(value, "formEntryId"@) {
        Some(f) => match text_at(value, "entryId"@) {
            Some(e) => if e != f {
                Some(e)
            } else {
                None
            },
            None => None,
        },
        None => None,
    }
}

/// A Computer attachment read from an event, by its name or its payload. It
/// needs a form id, a box request id or an instruction; its hand-off id is
/// never the form's.
pub open spec fn handoff_card(event: JsonV) -> Option<HandoffV> {
    let name = or_else(str_at(event, "name"@), Seq::empty());
    let value = or_else(get(event, "value"@), JsonV::Null);
    let instruction = or_else(
        either(
            text_at(value, "boxInstruction"@),
            either(
                text_at(value, "instruction"@),
                either(text_at(event, "boxInstruction"@), text_at(event, "instruction"@)),
            ),
        ),
        Seq::empty(),
    );
    let form = or_else(
        either(
            text_at(value, "formEntryId"@),
            either(
                text_at(event, "formEntryId"@),
                either(text_at(value, "entryId"@), text_at(event, "entryId"@)),
            ),
        ),
        Seq::empty(),
    );
    let candidate = either(
        handoff_id(value),
        either(handoff_id(event), either(sibling_by_id(value, event, form), sibling_by_entry(value))),
    );
    let handoff = match candidate {
        Some(id) => if id.len() > 0 && id != form {
            Some(id)
        } else {
            None
        },
        None => None,
    };
    let box_id = either(text_at(value, "boxRequestId"@), text_at(event, "boxRequestId"@));
    if !computer_handoff_name(name) && !handoff_payload(value) {
        None
    } else if form.len() == 0 && box_id is None && instruction.len() == 0 {
        None
    } else {
        Some(
            HandoffV {
                form_entry_id: form,
                handoff_entry_id: handoff,
                box_request_id: box_id,
                instruction,
            },
        )
    }
}

pub open spec fn handoff_key(h: HandoffV) -> Seq<char> {
    if h.form_entry_id.len() > 0 {
        h.form_entry_id
    } else {
        or_else(h.box_request_id, "box"@)
    }
}

/// A standalone Computer sibling, when no user-form card is there to fold
/// onto. Its title stays empty so it paints no form named Computer.
pub open spec fn escalated_form(h: HandoffV) -> FormV {
    let instruction = if h.instruction.len() > 0 {
        Some(h.instruction)
    } else {
        None
    };
    FormV {
        entry_id: handoff_key(h),
        call_id: Seq::empty(),
        run_id: Seq::empty(),
        title: Seq::empty(),
        instruction,
        fields: Seq::empty(),
        domain: None,
        live_host: None,
        resolution: None,
        widget_dismissed: false,
        handoff_entry_id: h.handoff_entry_id,
        box_request_id: h.box_request_id,
        box_instruction: instruction,
        computer_handoff: Some(ComputerHandoffStatus::ActionNeeded),
    }
}

fn text_or_empty(t: Option<String>) -> (r: String)
    ensures
        r@ == or_else(opt_seq(t), Seq::empty()),
{
    match t {
        Some(s) => s,
        None => String::new(),
    }
}

impl ComputerHandoffSpec {
    pub fn from_event(event: &Json) -> (r: Option<Self>)
        ensures
            match r {
                Some(h) => handoff_card(event@) == Some(h@),
                None => handoff_card(event@) is None,
            },
    {
        proof {
            reveal_strlit("");
        }
        let name: &str = match event.str_at("name") {
            Some(n) => n,
            None => "",
        };
        assert(name@ =~= or_else(str_at(event@, "name"@), Seq::empty()));
        let value = copy_or_null(event.get("value"));
        if !is_computer_handoff_name(name) && !is_computer_handoff_payload(&value) {
            return None;
        }
        let instruction = text_or_empty(
            pick_opt(
                value.text_at("boxInstruction"),
                pick_opt(
                    value.text_at("instruction"),
                    pick_opt(event.text_at("boxInstruction"), event.text_at("instruction")),
                ),
            ),
        );
        let form_entry_id = text_or_empty(
            pick_opt(
                value.text_at("formEntryId"),
                pick_opt(
                    event.text_at("formEntryId"),
                    pick_opt(value.text_at("entryId"), event.text_at("entryId")),
                ),
            ),
        );
        let by_id = match pick_opt(value.text_at("id"), event.text_at("id")) {
            Some(id) => if id.as_str().unicode_len() == 0 || same(
                id.as_str(),
                form_entry_id.as_str(),
            ) {
                None
            } else {
                Some(id)
            },
            None => None,
        };
        let by_entry = match value.text_at("formEntryId") {
            Some(f) => match value.text_at("entryId") {
                Some(e) => if !same(e.as_str(), f.as_str()) {
                    Some(e)
                } else {
                    None
                },
                None => None,
            },
            None => None,
        };
        let candidate = pick_opt(
            parse_handoff_entry_id(&value),
            pick_opt(parse_handoff_entry_id(event), pick_opt(by_id, by_entry)),
        );
        let handoff_entry_id = match candidate {
            Some(id) => if id.as_str().unicode_len() > 0 && !same(
                id.as_str(),
                form_entry_id.as_str(),
            ) {
                Some(id)
            } else {
                None
            },
            None => None,
        };
        let box_request_id = pick_opt(value.text_at("boxRequestId"), event.text_at("boxRequestId"));
        if form_entry_id.as_str().unicode_len() == 0 && box_request_id.is_none()
            && instruction.as_str().unicode_len() == 0 {
            return None;
        }
        Some(ComputerHandoffSpec { form_entry_id, handoff_entry_id, box_request_id, instruction })
    }

    pub fn card_key(&self) -> (r: &str)
        ensures
            r@ == handoff_key(self@),
    {
        if self.form_entry_id.as_str().unicode_len() > 0 {
            self.form_entry_id.as_str()
        } else {
            match &self.box_request_id {
                Some(b) => b.as_str(),
                None => "box",
            }
        }
    }

    pub fn as_escalated_form(&self) -> (r: UserFormSpec)
        ensures
            r@ == escalated_form(self@),
    {
        let has_instruction = self.instruction.as_str().unicode_len() > 0;
        let r = UserFormSpec {
            entry_id: owned(self.card_key()),
            call_id: String::new(),
            run_id: String::new(),
            title: String::new(),
            instruction: if has_instruction {
                Some(self.instruction.clone())
            } else {
                None
            },
            fields: Vec::new(),
            domain: None,
            live_host: None,
            resolution: None,
            widget_dismissed: false,
            handoff_entry_id: copy_opt(&self.handoff_entry_id),
            box_request_id: copy_opt(&self.box_request_id),
            box_instruction: if has_instruction {
                Some(self.instruction.clone())
            } else {
                None
            },
            computer_handoff: Some(ComputerHandoffStatus::ActionNeeded),
        };
        assert(r@.fields =~= Seq::<FieldV>::empty());
        r
    }
}

/// The 404 body of a stamped card that is gone from the transcript.
pub open spec fn entry_missing(body: JsonV) -> bool {
    match str_at(body, "error"@) {
        Some(e) => same_ignoring_case(e, "form entry missing"@),
        None => false,
    }
}

pub fn is_form_entry_missing(body: &Json) -> (r: bool)
    ensures
        r == entry_missing(body@),
{
    match body.str_at("error") {
        Some(e) => same_ignoring_case_exec(e, FORM_ENTRY_MISSING),
        None => false,
    }
}

/// The card a 200 body settles: one that reads as a card and is resolved or
/// carries a Computer sibling (whose hand-off id the hand-back route needs).
pub open spec fn settled_card(body: JsonV) -> Option<FormV> {
    match parsed_form(body, gateway_id_in(body)) {
        Some(f) => if effective_resolution(f) is Some || f.computer_handoff is Some {
            Some(f)
        } else {
            None
        },
        None => None,
    }
}

/// Classifies a submit or dismiss response. A 404 is a missing card when its
/// body says so and a missing route otherwise; any other non-200, and a 200
/// `null`, is empty; a 200 body that settles a card is that card; else it is
/// already answered when it says so, and empty.
pub open spec fn is_form_reply(r: UserFormActionReply, status: u16, body: JsonV) -> bool {
    &&& status == 404 ==> r == (if entry_missing(body) {
        UserFormActionReply::MissingEntry
    } else {
        UserFormActionReply::MissingRoute
    })
    &&& status != 404 && (status != 200 || body is Null) ==> r == UserFormActionReply::Empty
    &&& status == 200 && !(body is Null) ==> match settled_card(body) {
        Some(f) => r is Settled && r->Settled_0@ == f,
        None => r == (if or_else(bool_at(body, "alreadyAnswered"@), false) {
            UserFormActionReply::AlreadyAnswered
        } else {
            UserFormActionReply::Empty
        }),
    }
}

pub fn user_form_action_from_http(status: u16, body: &Json) -> (r: UserFormActionReply)
    ensures
        is_form_reply(r, status, body@),
{
    if status == 404 {
        if is_form_entry_missing(body) {
            return UserFormActionReply::MissingEntry;
        }
        return UserFormActionReply::MissingRoute;
    }
    if status != 200 {
        return UserFormActionReply::Empty;
    }
    if body.is_null() {
        return UserFormActionReply::Empty;
    }
    let already = match body.bool_at("alreadyAnswered") {
        Some(b) => b,
        None => false,
    };
    if let Some(spec) = UserFormSpec::parse(body, gateway_entry_id_in(body)) {
        if spec.effective_resolution().is_some() || spec.computer_handoff.is_some() {
            return UserFormActionReply::Settled(spec);
        }
    }
    if already {
        return UserFormActionReply::AlreadyAnswered;
    }
    UserFormActionReply::Empty
}

/// What a hand-back response meant. A miss is never handed back.
pub open spec fn box_reply(status: u16, body: JsonV) -> BoxHandoffReply {
    if status == 404 {
        if entry_missing(body) {
            BoxHandoffReply::Empty
        } else {
            BoxHandoffReply::MissingRoute
        }
    } else if status != 200 || body is Null {
        BoxHandoffReply::Empty
    } else if or_else(bool_at(body, "alreadyAnswered"@), false) {
        BoxHandoffReply::AlreadyAnswered
    } else {
        BoxHandoffReply::Settled
    }
}

pub fn box_handoff_action_from_http(status: u16, body: &Json) -> (r: BoxHandoffReply)
    ensures
        r == box_reply(status, body@),
{
    if status == 404 {
        if is_form_entry_missing(body) {
            return BoxHandoffReply::Empty;
        }
        return BoxHandoffReply::MissingRoute;
    }
    if status != 200 || body.is_null() {
        return BoxHandoffReply::Empty;
    }
    match body.bool_at("alreadyAnswered") {
        Some(true) => BoxHandoffReply::AlreadyAnswered,
        _ => BoxHandoffReply::Settled,
    }
}

/// Local Skip / I'm done settles on these replies; a missing route does not.
pub fn box_handoff_settles_locally(reply: &BoxHandoffReply) -> (r: bool)
    ensures
        r == (*reply == BoxHandoffReply::Settled || *reply == BoxHandoffReply::AlreadyAnswered
            || *reply == BoxHandoffReply::Empty),
{
    match reply {
        BoxHandoffReply::Settled | BoxHandoffReply::AlreadyAnswered | BoxHandoffReply::Empty => true,
        _ => false,
    }
}

/// The id the hand-back route is posted: the hand-off id, trimmed, and never
/// the form's own gateway id.
pub open spec fn resolve_entry_id(handoff: Option<Seq<char>>, form: Seq<char>) -> Option<Seq<char>> {
    match handoff {
        Some(h) => if trim(h).len() == 0 {
            None
        } else if trim(form).len() > 0 && trim(h) == trim(form) {
            None
        } else {
            Some(trim(h))
        },
        None => None,
    }
}

pub fn box_handoff_resolve_entry_id(handoff_entry_id: Option<&str>, form_entry_id: &str) -> (r:
    Option<String>)
    ensures
        opt_seq(r) == resolve_entry_id(str_opt(handoff_entry_id), form_entry_id@),
{
    let id = match handoff_entry_id {
        Some(h) => trimmed(h),
        None => {
            return None;
        },
    };
    if id.as_str().unicode_len() == 0 {
        return None;
    }
    let form = trimmed(form_entry_id);
    if form.as_str().unicode_len() > 0 && same(id.as_str(), form.as_str()) {
        return None;
    }
    Some(id)
}

/// `{"agentId", "entryId", key: word}`, members in serde_json's order.
pub open spec fn request_body(entry_id: Seq<char>, agent_id: Seq<char>, key: Seq<char>, last: JsonV) -> JsonV {
    JsonV::Object(
        seq![("agentId"@, JsonV::Str(agent_id)), ("entryId"@, JsonV::Str(entry_id)), (key, last)],
    )
}

fn body_with(entry_id: &str, agent_id: &str, key: &str, last: Json) -> (r: Json)
    ensures
        r@ == request_body(entry_id@, agent_id@, key@, last@),
{
    let mut members: Vec<(String, Json)> = Vec::new();
    members.push((owned("agentId"), Json::Str(owned(agent_id))));
    members.push((owned("entryId"), Json::Str(owned(entry_id))));
    members.push((owned(key), last));
    assert(members@.len() == 3);
    assert(members@[0].1@ == JsonV::Str(agent_id@));
    assert(members@[1].1@ == JsonV::Str(entry_id@));
    assert(members@[2].1@ == last@);
    let r = Json::Object(members);
    assert(r@->Object_0 =~= request_body(entry_id@, agent_id@, key@, last@)->Object_0);
    r
}

/// `POST /ag-ui/user-form/submit` `{entryId, agentId, values}`.
pub fn submit_request_body(entry_id: &str, agent_id: &str, values: &UserFormValues) -> (r: Json)
    ensures
        r@ == request_body(entry_id@, agent_id@, "values"@, values_object(values.by_id.pairs())),
{
    body_with(entry_id, agent_id, "values", values.as_json_object())
}

/// `POST /ag-ui/user-form/dismiss` `{entryId, agentId, mode}`.
pub fn dismiss_request_body(entry_id: &str, agent_id: &str, mode: UserFormDismissMode) -> (r: Json)
    ensures
        r@ == request_body(
            entry_id@,
            agent_id@,
            "mode"@,
            JsonV::Str(
                match mode {
                    UserFormDismissMode::Dismissed => "dismissed"@,
                    UserFormDismissMode::Escalated => "escalated"@,
                },
            ),
        ),
{
    body_with(entry_id, agent_id, "mode", Json::Str(owned(mode.as_str())))
}

/// `POST /ag-ui/box-handoff/resolve` `{entryId, agentId, resolution}`; the
/// entry id is the hand-off card's.
pub fn resolve_handoff_request_body(
    handoff_entry_id: &str,
    agent_id: &str,
    resolution: BoxHandoffResolution,
) -> (r: Json)
    ensures
        r@ == request_body(
            handoff_entry_id@,
            agent_id@,
            "resolution"@,
            JsonV::Str(
                match resolution {
                    BoxHandoffResolution::HandedBack => "handed_back"@,
                    BoxHandoffResolution::Declined => "declined"@,
                    BoxHandoffResolution::TimedOut => "timed_out"@,
                },
            ),
        ),
{
    body_with(handoff_entry_id, agent_id, "resolution", Json::Str(owned(resolution.as_str())))
}

/// A card with its resolution set.
pub open spec fn resolved_as(f: FormV, resolution: FormResolution) -> FormV {
    FormV { resolution: Some(resolution), ..f }
}

/// Settles every card that shares `call_id` (the stamped card and its
/// call-only twin); a card of another call stays as it was.
pub fn bind_call_peers(specs: &mut Vec<UserFormSpec>, call_id: &str, resolution: FormResolution)
    ensures
        final(specs)@.len() == old(specs)@.len(),
        forall|i: int|
            0 <= i < old(specs)@.len() ==> (#[trigger] final(specs)@[i])@ == (if shares_call_id(
                old(specs)@[i]@,
                call_id@,
            ) {
                resolved_as(old(specs)@[i]@, resolution)
            } else {
                old(specs)@[i]@
            }),
{
    let ghost before = specs@;
    if call_id.unicode_len() == 0 {
        return;
    }
    let mut i: usize = 0;
    while i < specs.len()
        invariant
            call_id@.len() > 0,
            specs@.len() == before.len(),
            i <= specs@.len(),
            forall|k: int|
                0 <= k < i ==> (#[trigger] specs@[k])@ == (if shares_call_id(
                    before[k]@,
                    call_id@,
                ) {
                    resolved_as(before[k]@, resolution)
                } else {
                    before[k]@
                }),
            forall|k: int| i <= k < specs@.len() ==> #[trigger] specs@[k] == before[k],
        decreases specs@.len() - i,
    {
        if specs[i].shares_call_id(call_id) {
            let mut s = specs[i].clone();
            s.resolution = Some(resolution);
            specs.set(i, s);
        }
        i = i + 1;
    }
}

/// Folding a card onto itself changes nothing.
pub proof fn lemma_merge_with_itself(a: FormV)
    ensures
        merged(a, a) == a,
{
    assert(handoff_fold(a.computer_handoff, a.computer_handoff) == a.computer_handoff);
}

/// A card that is settled stays settled whatever is folded onto it; and a
/// Skipped, Submitted or Not filled settle is never overwritten by another
/// kind of settle, while a later one of those three always lands.
pub proof fn lemma_settled_stays_settled(a: FormV, b: FormV)
    ensures
        effective_resolution(a) is Some ==> effective_resolution(merged(a, b)) is Some,
        sticky(a.resolution) && !sticky(b.resolution) ==> merged(a, b).resolution == a.resolution,
        sticky(b.resolution) ==> merged(a, b).resolution == b.resolution,
{
}

/// A Computer card finished or skipped locally stays so when a later event
/// says Action needed.
pub proof fn lemma_finished_computer_card_stays(a: FormV, b: FormV)
    requires
        a.computer_handoff == Some(ComputerHandoffStatus::Done) || a.computer_handoff == Some(
            ComputerHandoffStatus::Skipped,
        ),
    ensures
        merged(a, b).computer_handoff == a.computer_handoff,
{
}

/// A merge never loses a gateway id: the card keeps its own when the later
/// event has none, and a card with one can post after any merge.
pub proof fn lemma_merge_keeps_gateway_id(a: FormV, b: FormV)
    ensures
        has_entry(a) && !has_entry(b) ==> merged(a, b).entry_id == a.entry_id,
        has_entry(a) || has_entry(b) ==> has_entry(merged(a, b)),
{
}

/// A tool call id never becomes a card's gateway id: the card's id is the
/// one the arguments carry, or none.
pub proof fn lemma_tool_call_id_is_not_the_gateway_id(args: JsonV, tool_call_id: Seq<char>)
    ensures
        tool_args_form(args, tool_call_id) matches Some(f) ==> f.entry_id == or_else(
            gateway_id_in(args),
            Seq::empty(),
        ),
{
}

/// Open the screen keeps the form: an `escalated` wire resolution leaves the
/// form unresolved and not dismissed, and opens a live Computer card beside it.
pub proof fn lemma_escalated_keeps_the_form(value: JsonV, entry_id: Option<Seq<char>>)
    requires
        wire_resolution(value) == Some(FormResolution::Escalated),
    ensures
        parsed_form(value, entry_id) matches Some(f) && f.resolution is None && !f.widget_dismissed
            && f.computer_handoff == Some(ComputerHandoffStatus::ActionNeeded),
{
}

/// The hand-back route is never posted the form's own gateway id.
pub proof fn lemma_resolve_never_posts_the_form_id(handoff: Option<Seq<char>>, form: Seq<char>)
    ensures
        resolve_entry_id(handoff, form) matches Some(id) ==> id.len() > 0 && (trim(form).len() == 0
            || id != trim(form)),
{
}

} // verus!
