//! Generative UI and the local-exec approval card.

use vstd::prelude::*;

use crate::client::LocalExecMode;
use crate::json::{
    array_of, as_str, get, items_view, json_text, members_view, object_of, opt_view, parse_json,
    parsed_json, str_at, text_at, text_json, to_json_text, Json, JsonV,
};
use crate::text::{
    copy_opt, decimal, either, normalize_name, normalized, opt_seq, or_else, owned, push_decimal,
    chars_of, has_prefix, push_str, same, same_ignoring_case, same_ignoring_case_exec, starts_with,
    string_of, trim, trim_end, trim_start, trimmed,
};
use crate::strmap::StrMap;
use crate::user_form::{
    custom_event_form, merged, tool_args_form, user_form_tool_name, FormV, UserFormSpec,
};

verus! {

/// The tool that runs a command on the person's own machine.
pub const USER_MACHINE_SHELL: &'static str = "user_machine_shell";

/// The fields the answer route needs, and what the permission card shows.
#[derive(Debug, PartialEq, Eq)]
pub struct ApprovalSpec {
    pub run_id: String,
    pub call_id: String,
    pub tool: String,
    pub command: String,
    pub why: String,
    pub reason: String,
    /// The tool's result after the command ran.
    pub output: Option<String>,
    pub ok: Option<bool>,
}

pub struct ApprovalV {
    pub run_id: Seq<char>,
    pub call_id: Seq<char>,
    pub tool: Seq<char>,
    pub command: Seq<char>,
    pub why: Seq<char>,
    pub reason: Seq<char>,
    pub output: Option<Seq<char>>,
    pub ok: Option<bool>,
}

impl View for ApprovalSpec {
    type V = ApprovalV;

    open spec fn view(&self) -> ApprovalV {
        ApprovalV {
            run_id: self.run_id@,
            call_id: self.call_id@,
            tool: self.tool@,
            command: self.command@,
            why: self.why@,
            reason: self.reason@,
            output: opt_seq(self.output),
            ok: self.ok,
        }
    }
}

impl Clone for ApprovalSpec {
    fn clone(&self) -> (r: Self)
        ensures
            r@ == self@,
    {
        ApprovalSpec {
            run_id: self.run_id.clone(),
            call_id: self.call_id.clone(),
            tool: self.tool.clone(),
            command: self.command.clone(),
            why: self.why.clone(),
            reason: self.reason.clone(),
            output: crate::text::copy_opt(&self.output),
            ok: self.ok,
        }
    }
}

/// The person's answer on a permission card.
#[derive(Clone, Copy, Debug, PartialEq, Eq, Structural)]
pub enum LocalExecResolution {
    Always,
    AllowOnce,
    Never,
    DenyOnce,
}

pub open spec fn runs_here(a: ApprovalV) -> bool {
    a.tool == USER_MACHINE_SHELL@
}

impl ApprovalSpec {
    /// Only the local-shell tool runs on this Mac; every other runs on the box.
    pub fn runs_on_this_mac(&self) -> (r: bool)
        ensures
            r == runs_here(self@),
    {
        same(self.tool.as_str(), USER_MACHINE_SHELL)
    }

    /// Where the command runs, the way the card and its outcome line say it.
    pub fn place(&self) -> (r: &'static str)
        ensures
            r@ == (if runs_here(self@) {
                "your computer"@
            } else {
                "its computer"@
            }),
    {
        if self.runs_on_this_mac() {
            "your computer"
        } else {
            "its computer"
        }
    }
}

/// What this Mac's Always / Never setting answers on its own: only for the
/// local-shell tool; a box tool always gets its card, and Ask answers nothing.
pub open spec fn policy_of(a: ApprovalV, mode: Option<LocalExecMode>) -> Option<LocalExecResolution> {
    if !runs_here(a) {
        None
    } else {
        match mode {
            Some(LocalExecMode::Always) => Some(LocalExecResolution::Always),
            Some(LocalExecMode::Never) => Some(LocalExecResolution::Never),
            _ => None,
        }
    }
}

pub fn policy_answer(spec: &ApprovalSpec, mode: Option<LocalExecMode>) -> (r: Option<
    LocalExecResolution,
>)
    ensures
        r == policy_of(spec@, mode),
{
    if !spec.runs_on_this_mac() {
        return None;
    }
    match mode {
        Some(LocalExecMode::Always) => Some(LocalExecResolution::Always),
        Some(LocalExecMode::Never) => Some(LocalExecResolution::Never),
        _ => None,
    }
}

/// The centred status line after the permission card leaves the transcript.
pub open spec fn outcome_line(bot: Seq<char>, resolution: LocalExecResolution, place: Seq<char>) -> Seq<char> {
    match resolution {
        LocalExecResolution::Always => bot + " can run commands on "@ + place + "."@,
        LocalExecResolution::Never => bot + " cannot run commands on "@ + place + "."@,
        LocalExecResolution::DenyOnce => bot + " was not allowed to run commands on "@ + place + "."@,
        LocalExecResolution::AllowOnce => bot + " can run commands on "@ + place + " this time."@,
    }
}

pub fn local_exec_outcome(bot: &str, resolution: LocalExecResolution, place: &str) -> (r: String)
    ensures
        r@ == outcome_line(bot@, resolution, place@),
{
    let mut out = owned(bot);
    let (middle, end) = match resolution {
        LocalExecResolution::Always => (" can run commands on ", "."),
        LocalExecResolution::Never => (" cannot run commands on ", "."),
        LocalExecResolution::DenyOnce => (" was not allowed to run commands on ", "."),
        LocalExecResolution::AllowOnce => (" can run commands on ", " this time."),
    };
    push_str(&mut out, middle);
    push_str(&mut out, place);
    push_str(&mut out, end);
    out
}

/// What the next run is told after the app paints a frontend tool.
pub const UI_TOOL_RESULT: &'static str = "It is now on screen for the person.";

pub const MAX_TURN_CONTINUES: usize = 8;

/// A frontend tool the turn painted, so the next run can be told.
#[derive(Debug, PartialEq, Eq)]
pub struct CompletedUiTool {
    pub id: String,
    pub name: String,
}

impl Clone for CompletedUiTool {
    fn clone(&self) -> (r: Self)
        ensures
            r.id@ == self.id@ && r.name@ == self.name@,
    {
        CompletedUiTool { id: self.id.clone(), name: self.name.clone() }
    }
}

/// A bar chart's bar: its label and its number as the JSON sent it, which
/// the painter reads as a float.
#[derive(Debug, PartialEq, Eq)]
pub struct BarItem {
    pub label: String,
    pub value: String,
}

#[derive(Debug, PartialEq, Eq)]
pub struct BarChartSpec {
    pub title: Option<String>,
    pub bars: Vec<BarItem>,
}

/// A generative choice-chip form; answers go back as chat text. Never
/// credentials: those are user-forms.
#[derive(Debug, PartialEq, Eq)]
pub struct FormSpec {
    pub title: Option<String>,
    pub prompt: Option<String>,
    pub fields: Vec<FormField>,
    pub submit: String,
}

#[derive(Debug, PartialEq, Eq)]
pub struct FormField {
    pub id: String,
    pub label: String,
    pub options: Vec<String>,
}

#[derive(Debug, PartialEq, Eq)]
pub enum UiSpec {
    BarChart(BarChartSpec),
    Form(FormSpec),
}

/// A widget as the contracts read it.
pub enum UiV {
    BarChart { title: Option<Seq<char>>, bars: Seq<(Seq<char>, Seq<char>)> },
    Form {
        title: Option<Seq<char>>,
        prompt: Option<Seq<char>>,
        fields: Seq<(Seq<char>, Seq<char>, Seq<Seq<char>>)>,
        submit: Seq<char>,
    },
}

pub open spec fn strings_of(v: Seq<String>) -> Seq<Seq<char>> {
    v.map_values(|s: String| s@)
}

pub open spec fn bar_view(b: BarItem) -> (Seq<char>, Seq<char>) {
    (b.label@, b.value@)
}

pub open spec fn field_view(f: FormField) -> (Seq<char>, Seq<char>, Seq<Seq<char>>) {
    (f.id@, f.label@, strings_of(f.options@))
}

impl View for UiSpec {
    type V = UiV;

    open spec fn view(&self) -> UiV {
        match self {
            UiSpec::BarChart(c) => UiV::BarChart {
                title: opt_seq(c.title),
                bars: c.bars@.map_values(|b: BarItem| bar_view(b)),
            },
            UiSpec::Form(f) => UiV::Form {
                title: opt_seq(f.title),
                prompt: opt_seq(f.prompt),
                fields: f.fields@.map_values(|x: FormField| field_view(x)),
                submit: f.submit@,
            },
        }
    }
}

fn clone_strings(v: &Vec<String>) -> (r: Vec<String>)
    ensures
        strings_of(r@) == strings_of(v@),
{
    let mut out: Vec<String> = Vec::new();
    let mut i: usize = 0;
    while i < v.len()
        invariant
            i <= v@.len(),
            out@.len() == i,
            forall|k: int| 0 <= k < i ==> (#[trigger] out@[k])@ == v@[k]@,
        decreases v@.len() - i,
    {
        out.push(v[i].clone());
        i = i + 1;
    }
    assert(strings_of(out@) =~= strings_of(v@));
    out
}

impl UiSpec {
    /// A copy of the widget.
    pub fn copy(&self) -> (r: UiSpec)
        ensures
            r@ == self@,
    {
        match self {
            UiSpec::BarChart(c) => {
                let mut bars: Vec<BarItem> = Vec::new();
                let mut i: usize = 0;
                while i < c.bars.len()
                    invariant
                        i <= c.bars@.len(),
                        bars@.len() == i,
                        forall|k: int| 0 <= k < i ==> bar_view(#[trigger] bars@[k]) == bar_view(c.bars@[k]),
                    decreases c.bars@.len() - i,
                {
                    bars.push(BarItem { label: c.bars[i].label.clone(), value: c.bars[i].value.clone() });
                    i = i + 1;
                }
                let r = UiSpec::BarChart(BarChartSpec { title: copy_opt(&c.title), bars });
                assert(r@->bars =~= self@->bars);
                r
            },
            UiSpec::Form(f) => {
                let mut fields: Vec<FormField> = Vec::new();
                let mut i: usize = 0;
                while i < f.fields.len()
                    invariant
                        i <= f.fields@.len(),
                        fields@.len() == i,
                        forall|k: int| 0 <= k < i ==> field_view(#[trigger] fields@[k]) == field_view(f.fields@[k]),
                    decreases f.fields@.len() - i,
                {
                    let x = &f.fields[i];
                    fields.push(FormField { id: x.id.clone(), label: x.label.clone(), options: clone_strings(&x.options) });
                    i = i + 1;
                }
                let r = UiSpec::Form(FormSpec {
                    title: copy_opt(&f.title),
                    prompt: copy_opt(&f.prompt),
                    fields,
                    submit: f.submit.clone(),
                });
                assert(r@->Form_fields =~= self@->Form_fields);
                r
            },
        }
    }
}

/// What kind of widget a value names: its `ui` (else `component`) when that
/// is a string, else its `type`, or a `type: ui`'s `name`; normalised.
pub open spec fn ui_kind(v: JsonV) -> Option<Seq<char>> {
    match either(get(v, "ui"@), get(v, "component"@)) {
        Some(x) if as_str(x) is Some => Some(normalized(as_str(x)->0)),
        _ => match str_at(v, "type"@) {
            Some(ty) => if same_ignoring_case(ty, "ui"@) {
                match str_at(v, "name"@) {
                    Some(n) => Some(normalized(n)),
                    None => None,
                }
            } else {
                Some(normalized(ty))
            },
            None => None,
        },
    }
}

fn ui_kind_of(v: &Json) -> (r: Option<String>)
    ensures
        opt_seq(r) == ui_kind(v@),
{
    let named = match v.get("ui") {
        Some(x) => Some(x),
        None => v.get("component"),
    };
    if let Some(x) = named {
        if let Some(k) = x.as_str() {
            return Some(normalize_name(k));
        }
    }
    match v.str_at("type") {
        Some(ty) => if same_ignoring_case_exec(ty, "ui") {
            match v.str_at("name") {
                Some(n) => Some(normalize_name(n)),
                None => None,
            }
        } else {
            Some(normalize_name(ty))
        },
        None => None,
    }
}

/// A JSON number's text.
pub open spec fn number_text(v: JsonV) -> Option<Seq<char>> {
    match v {
        JsonV::Number { text, .. } => Some(text),
        _ => None,
    }
}

fn number_text_of(v: Option<&Json>) -> (r: Option<String>)
    ensures
        opt_seq(r) == (match opt_view(v) {
            Some(x) => number_text(x),
            None => None,
        }),
{
    match v {
        Some(Json::Number(n)) => Some(n.text.clone()),
        _ => None,
    }
}

/// A bar: a `[label, number]` pair, or an object with a `label` (else
/// `name`) and a `value` (else `y`) that is a number; a bar needs both.
pub open spec fn bar_of(row: JsonV) -> Option<(Seq<char>, Seq<char>)> {
    match row {
        JsonV::Array(arr) => {
            let label = if arr.len() > 0 { as_str(arr[0]) } else { None };
            let value = if arr.len() > 1 { number_text(arr[1]) } else { None };
            if label is Some && value is Some {
                Some((label->0, value->0))
            } else {
                None
            }
        },
        _ => {
            let label = or_else(either(text_at(row, "label"@), text_at(row, "name"@)), Seq::empty());
            let value = match either(get(row, "value"@), get(row, "y"@)) {
                Some(x) => number_text(x),
                None => None,
            };
            if value is None || label.len() == 0 {
                None
            } else {
                Some((label, value->0))
            }
        },
    }
}

pub open spec fn bars_from(rows: Seq<JsonV>) -> Seq<(Seq<char>, Seq<char>)>
    decreases rows.len(),
{
    if rows.len() == 0 {
        Seq::empty()
    } else {
        bars_from(rows.drop_last()) + match bar_of(rows.last()) {
            Some(b) => seq![b],
            None => Seq::empty(),
        }
    }
}

fn parse_bar(row: &Json) -> (r: Option<BarItem>)
    ensures
        match r {
            Some(b) => bar_of(row@) == Some(bar_view(b)),
            None => bar_of(row@) is None,
        },
{
    if let Some(arr) = row.as_array() {
        let label = if arr.len() > 0 {
            arr[0].as_str()
        } else {
            None
        };
        let value = if arr.len() > 1 {
            number_text_of(Some(&arr[1]))
        } else {
            None
        };
        return match (label, value) {
            (Some(l), Some(v)) => Some(BarItem { label: owned(l), value: v }),
            _ => None,
        };
    }
    let label = match row.text_at("label") {
        Some(l) => l,
        None => match row.text_at("name") {
            Some(l) => l,
            None => String::new(),
        },
    };
    let picked = match row.get("value") {
        Some(x) => Some(x),
        None => row.get("y"),
    };
    let value = match number_text_of(picked) {
        Some(v) => v,
        None => {
            return None;
        },
    };
    if label.as_str().unicode_len() == 0 {
        return None;
    }
    Some(BarItem { label, value })
}

fn parse_bars(rows: &Json) -> (r: Vec<BarItem>)
    ensures
        r@.map_values(|b: BarItem| bar_view(b)) == (match rows@ {
            JsonV::Array(items) => bars_from(items),
            _ => Seq::empty(),
        }),
{
    let items = match rows.as_array() {
        Some(items) => items,
        None => {
            let v: Vec<BarItem> = Vec::new();
            assert(v@.map_values(|b: BarItem| bar_view(b)) =~= Seq::<(Seq<char>, Seq<char>)>::empty());
            return v;
        },
    };
    let ghost all = rows@->Array_0;
    let mut out: Vec<BarItem> = Vec::new();
    let mut i: usize = 0;
    while i < items.len()
        invariant
            i <= items@.len(),
            all.len() == items@.len(),
            forall|k: int| 0 <= k < items@.len() ==> #[trigger] all[k] == items@[k]@,
            out@.map_values(|b: BarItem| bar_view(b)) == bars_from(all.subrange(0, i as int)),
        decreases items@.len() - i,
    {
        let ghost before = out@.map_values(|b: BarItem| bar_view(b));
        proof {
            let sub = all.subrange(0, i + 1);
            assert(sub.drop_last() =~= all.subrange(0, i as int));
            assert(sub.last() == items@[i as int]@);
        }
        if let Some(b) = parse_bar(&items[i]) {
            let ghost bv = bar_view(b);
            out.push(b);
            assert(out@.map_values(|b: BarItem| bar_view(b)) =~= before.push(bv));
        }
        i = i + 1;
    }
    assert(all.subrange(0, i as int) =~= all);
    out
}

/// The object a widget's fields sit in: its `data`, or the value itself.
pub open spec fn ui_data(v: JsonV) -> JsonV {
    or_else(get(v, "data"@), v)
}

/// A bar chart: bars under `bars` (else `values`) in its data, else under the
/// value's own `bars`; at least one bar that reads.
pub open spec fn bar_chart_of(v: JsonV) -> Option<UiV> {
    let data = ui_data(v);
    match either(get(data, "bars"@), either(get(data, "values"@), get(v, "bars"@))) {
        Some(rows) => {
            let bars = match rows {
                JsonV::Array(items) => bars_from(items),
                _ => Seq::empty(),
            };
            if bars.len() == 0 {
                None
            } else {
                Some(UiV::BarChart { title: either(text_at(data, "title"@), text_at(v, "title"@)), bars })
            }
        },
        None => None,
    }
}

fn bar_chart_from(v: &Json) -> (r: Option<UiSpec>)
    ensures
        match r {
            Some(u) => bar_chart_of(v@) == Some(u@),
            None => bar_chart_of(v@) is None,
        },
{
    let data = match v.get("data") {
        Some(d) => d,
        None => v,
    };
    let rows = match data.get("bars") {
        Some(x) => x,
        None => match data.get("values") {
            Some(x) => x,
            None => match v.get("bars") {
                Some(x) => x,
                None => {
                    return None;
                },
            },
        },
    };
    let bars = parse_bars(rows);
    if bars.len() == 0 {
        return None;
    }
    let title = match data.text_at("title") {
        Some(t) => Some(t),
        None => v.text_at("title"),
    };
    Some(UiSpec::BarChart(BarChartSpec { title, bars }))
}

/// An option of a choice: the string itself, else its `label`, else its `value`.
pub open spec fn choice_of(opt: JsonV) -> Option<Seq<char>> {
    either(as_str(opt), either(text_at(opt, "label"@), text_at(opt, "value"@)))
}

pub open spec fn choices_from(opts: Seq<JsonV>) -> Seq<Seq<char>>
    decreases opts.len(),
{
    if opts.len() == 0 {
        Seq::empty()
    } else {
        choices_from(opts.drop_last()) + match choice_of(opts.last()) {
            Some(c) => seq![c],
            None => Seq::empty(),
        }
    }
}

/// A choice field: a label (else name), an id (else `field-{index}`), and
/// its options.
pub open spec fn choice_field_of(row: JsonV, index: nat) -> Option<(Seq<char>, Seq<char>, Seq<Seq<char>>)> {
    match either(text_at(row, "label"@), text_at(row, "name"@)) {
        None => None,
        Some(label) => Some(
            (
                or_else(text_at(row, "id"@), "field-"@ + decimal(index)),
                label,
                match get(row, "options"@) {
                    Some(JsonV::Array(opts)) => choices_from(opts),
                    _ => Seq::empty(),
                },
            ),
        ),
    }
}

pub open spec fn choice_fields_from(rows: Seq<JsonV>) -> Seq<(Seq<char>, Seq<char>, Seq<Seq<char>>)>
    decreases rows.len(),
{
    if rows.len() == 0 {
        Seq::empty()
    } else {
        choice_fields_from(rows.drop_last()) + match choice_field_of(rows.last(), (rows.len() - 1) as nat) {
            Some(f) => seq![f],
            None => Seq::empty(),
        }
    }
}

fn parse_choices(row: &Json) -> (r: Vec<String>)
    ensures
        strings_of(r@) == (match get(row@, "options"@) {
            Some(JsonV::Array(opts)) => choices_from(opts),
            _ => Seq::empty(),
        }),
{
    let opts = match row.get("options") {
        Some(x) => match x.as_array() {
            Some(items) => items,
            None => {
                let v: Vec<String> = Vec::new();
                assert(strings_of(v@) =~= Seq::<Seq<char>>::empty());
                return v;
            },
        },
        None => {
            let v: Vec<String> = Vec::new();
            assert(strings_of(v@) =~= Seq::<Seq<char>>::empty());
            return v;
        },
    };
    let ghost all = get(row@, "options"@)->0->Array_0;
    let mut out: Vec<String> = Vec::new();
    let mut i: usize = 0;
    while i < opts.len()
        invariant
            i <= opts@.len(),
            all.len() == opts@.len(),
            forall|k: int| 0 <= k < opts@.len() ==> #[trigger] all[k] == opts@[k]@,
            strings_of(out@) == choices_from(all.subrange(0, i as int)),
        decreases opts@.len() - i,
    {
        let ghost before = strings_of(out@);
        proof {
            let sub = all.subrange(0, i + 1);
            assert(sub.drop_last() =~= all.subrange(0, i as int));
            assert(sub.last() == opts@[i as int]@);
        }
        let o = &opts[i];
        let choice = match o.as_str() {
            Some(s) => Some(owned(s)),
            None => match o.text_at("label") {
                Some(l) => Some(l),
                None => o.text_at("value"),
            },
        };
        if let Some(c) = choice {
            let ghost cv = c@;
            out.push(c);
            assert(strings_of(out@) =~= before.push(cv));
        }
        i = i + 1;
    }
    assert(all.subrange(0, i as int) =~= all);
    out
}

fn parse_choice_field(row: &Json, index: usize) -> (r: Option<FormField>)
    ensures
        match r {
            Some(f) => choice_field_of(row@, index as nat) == Some(field_view(f)),
            None => choice_field_of(row@, index as nat) is None,
        },
{
    let label = match row.text_at("label") {
        Some(l) => l,
        None => match row.text_at("name") {
            Some(l) => l,
            None => {
                return None;
            },
        },
    };
    let id = match row.text_at("id") {
        Some(id) => id,
        None => {
            let mut id = owned("field-");
            push_decimal(&mut id, index as u64);
            id
        },
    };
    Some(FormField { id, label, options: parse_choices(row) })
}

fn parse_choice_fields(rows: &Vec<Json>, whole: &Json) -> (r: Vec<FormField>)
    requires
        whole@ is Array,
        whole@->Array_0.len() == rows@.len(),
        forall|k: int| 0 <= k < rows@.len() ==> #[trigger] whole@->Array_0[k] == rows@[k]@,
    ensures
        r@.map_values(|f: FormField| field_view(f)) == choice_fields_from(whole@->Array_0),
{
    let ghost all = whole@->Array_0;
    let mut out: Vec<FormField> = Vec::new();
    let mut i: usize = 0;
    while i < rows.len()
        invariant
            i <= rows@.len(),
            all == whole@->Array_0,
            all.len() == rows@.len(),
            forall|k: int| 0 <= k < rows@.len() ==> #[trigger] all[k] == rows@[k]@,
            out@.map_values(|f: FormField| field_view(f)) == choice_fields_from(all.subrange(0, i as int)),
        decreases rows@.len() - i,
    {
        let ghost before = out@.map_values(|f: FormField| field_view(f));
        proof {
            let sub = all.subrange(0, i + 1);
            assert(sub.drop_last() =~= all.subrange(0, i as int));
            assert(sub.last() == rows@[i as int]@);
        }
        if let Some(f) = parse_choice_field(&rows[i], i) {
            let ghost fv = field_view(f);
            out.push(f);
            assert(out@.map_values(|f: FormField| field_view(f)) =~= before.push(fv));
        }
        i = i + 1;
    }
    assert(all.subrange(0, i as int) =~= all);
    out
}

/// A choice form: fields under its data's `fields` (else the value's); at
/// least one that reads; its submit label defaults to `Send`.
pub open spec fn choice_form_of(v: JsonV) -> Option<UiV> {
    let data = ui_data(v);
    let fields = match either(get(data, "fields"@), get(v, "fields"@)) {
        Some(JsonV::Array(rows)) => choice_fields_from(rows),
        _ => Seq::empty(),
    };
    if fields.len() == 0 {
        None
    } else {
        Some(
            UiV::Form {
                title: either(text_at(data, "title"@), text_at(v, "title"@)),
                prompt: either(text_at(data, "prompt"@), text_at(v, "prompt"@)),
                fields,
                submit: or_else(either(text_at(data, "submit"@), text_at(v, "submit"@)), "Send"@),
            },
        )
    }
}

fn choice_form_from(v: &Json) -> (r: Option<UiSpec>)
    ensures
        match r {
            Some(u) => choice_form_of(v@) == Some(u@),
            None => choice_form_of(v@) is None,
        },
{
    let data = match v.get("data") {
        Some(d) => d,
        None => v,
    };
    let rows = match data.get("fields") {
        Some(x) => Some(x),
        None => v.get("fields"),
    };
    let fields = match rows {
        Some(x) => match x.as_array() {
            Some(items) => parse_choice_fields(items, x),
            None => Vec::new(),
        },
        None => Vec::new(),
    };
    if fields.len() == 0 {
        return None;
    }
    let pick = |a: Option<String>, b: Option<String>| -> (r: Option<String>)
        ensures
            opt_seq(r) == either(opt_seq(a), opt_seq(b)),
        {
            match a {
                Some(x) => Some(x),
                None => b,
            }
        };
    let title = pick(data.text_at("title"), v.text_at("title"));
    let prompt = pick(data.text_at("prompt"), v.text_at("prompt"));
    let submit = match pick(data.text_at("submit"), v.text_at("submit")) {
        Some(s) => s,
        None => owned("Send"),
    };
    Some(UiSpec::Form(FormSpec { title, prompt, fields, submit }))
}

pub open spec fn is_chart_word(k: Seq<char>) -> bool {
    k == "bar-chart"@ || k == "barchart"@
}

/// A widget by what a value names itself.
pub open spec fn ui_of_value(v: JsonV) -> Option<UiV> {
    match ui_kind(v) {
        Some(k) => if is_chart_word(k) {
            bar_chart_of(v)
        } else if k == "form"@ {
            choice_form_of(v)
        } else {
            None
        },
        None => None,
    }
}

/// A widget from a tool's arguments: by what they name themselves, else by
/// the tool's name.
pub open spec fn ui_from_tool(name: Seq<char>, v: JsonV) -> Option<UiV> {
    match ui_of_value(v) {
        Some(u) => Some(u),
        None => {
            let n = normalized(name);
            if is_chart_word(n) {
                bar_chart_of(v)
            } else if n == "form"@ {
                choice_form_of(v)
            } else {
                None
            }
        },
    }
}

/// A widget from a CUSTOM frame: one named `ui` (or nothing) reads by its
/// value; any other name reads as a tool of that name.
pub open spec fn ui_from_custom(name: Seq<char>, v: JsonV) -> Option<UiV> {
    if normalized(name) == "ui"@ || name.len() == 0 {
        ui_of_value(v)
    } else {
        ui_from_tool(name, v)
    }
}

pub open spec fn opt_ui(r: Option<UiSpec>) -> Option<UiV> {
    match r {
        Some(u) => Some(u@),
        None => None,
    }
}

impl UiSpec {
    pub fn from_value(value: &Json) -> (r: Option<Self>)
        ensures
            opt_ui(r) == ui_of_value(value@),
    {
        let kind = match ui_kind_of(value) {
            Some(k) => k,
            None => {
                return None;
            },
        };
        let k = kind.as_str();
        if same(k, "bar-chart") || same(k, "barchart") {
            bar_chart_from(value)
        } else if same(k, "form") {
            choice_form_from(value)
        } else {
            None
        }
    }

    fn from_tool(name: &str, value: &Json) -> (r: Option<Self>)
        ensures
            opt_ui(r) == ui_from_tool(name@, value@),
    {
        if let Some(spec) = Self::from_value(value) {
            return Some(spec);
        }
        let n = normalize_name(name);
        let n = n.as_str();
        if same(n, "bar-chart") || same(n, "barchart") {
            bar_chart_from(value)
        } else if same(n, "form") {
            choice_form_from(value)
        } else {
            None
        }
    }

    fn from_custom(name: &str, value: &Json) -> (r: Option<Self>)
        ensures
            opt_ui(r) == ui_from_custom(name@, value@),
    {
        let n = normalize_name(name);
        if same(n.as_str(), "ui") || name.unicode_len() == 0 {
            Self::from_value(value)
        } else {
            Self::from_tool(name, value)
        }
    }
}

/// The tool names that mount a widget.
pub open spec fn ui_tool_name(name: Seq<char>) -> bool {
    let n = normalized(name);
    n == "bar-chart"@ || n == "barchart"@ || n == "show-bar-chart"@ || n == "render-bar-chart"@
        || n == "form"@ || n == "show-form"@ || n == "render-form"@
}

fn is_ui_tool(name: &str) -> (r: bool)
    ensures
        r == ui_tool_name(name@),
{
    let n = normalize_name(name);
    let n = n.as_str();
    same(n, "bar-chart") || same(n, "barchart") || same(n, "show-bar-chart") || same(
        n,
        "render-bar-chart",
    ) || same(n, "form") || same(n, "show-form") || same(n, "render-form")
}

/// What standard, padded base64 decoding makes of a text: its bytes, or
/// nothing when the text is not base64.
pub uninterp spec fn base64_decoded(text: Seq<char>) -> Option<Seq<u8>>;

/// `base64::engine::general_purpose::STANDARD.decode`: the bytes a text
/// spells, or nothing when it is not standard padded base64. What it makes
/// of a text is named, not written out: the alphabet and the padding rules
/// are the crate's.
#[verifier::external_body]
fn decode_base64(text: &str) -> (r: Option<Vec<u8>>)
    ensures
        match r {
            Some(bytes) => base64_decoded(text@) == Some(bytes@),
            None => base64_decoded(text@) is None,
        },
{
    base64::Engine::decode(&base64::engine::general_purpose::STANDARD, text).ok()
}

/// A screenshot the run produced: the PNG's bytes and size, and the tool's
/// words about it. The app makes a picture of the bytes.
#[derive(Debug)]
pub struct ScreenshotSpec {
    pub call_id: String,
    /// The tool's own words about the screen.
    pub caption: String,
    pub png: Vec<u8>,
    pub width: u32,
    pub height: u32,
}

pub struct ShotV {
    pub call_id: Seq<char>,
    pub caption: Seq<char>,
    pub png: Seq<u8>,
    pub width: u32,
    pub height: u32,
}

impl View for ScreenshotSpec {
    type V = ShotV;

    open spec fn view(&self) -> ShotV {
        ShotV {
            call_id: self.call_id@,
            caption: self.caption@,
            png: self.png@,
            width: self.width,
            height: self.height,
        }
    }
}

/// One screenshot per call: the bytes need not be compared to know it is
/// the same one.
pub open spec fn same_shot(a: ShotV, b: ShotV) -> bool {
    a.call_id == b.call_id && a.caption == b.caption && a.width == b.width && a.height == b.height
}

impl PartialEq for ScreenshotSpec {
    fn eq(&self, other: &Self) -> (r: bool) {
        same(self.call_id.as_str(), other.call_id.as_str()) && same(
            self.caption.as_str(),
            other.caption.as_str(),
        ) && self.width == other.width && self.height == other.height
    }
}

impl vstd::std_specs::cmp::PartialEqSpecImpl for ScreenshotSpec {
    open spec fn obeys_eq_spec() -> bool {
        true
    }

    open spec fn eq_spec(&self, other: &Self) -> bool {
        same_shot(self@, other@)
    }
}

pub open spec fn u64_at(v: JsonV, key: Seq<char>) -> Option<u64> {
    match get(v, key) {
        Some(x) => crate::json::as_u64(x),
        None => None,
    }
}

/// A screenshot from a tool result's `image`: a PNG (the mime defaults to
/// one) whose base64 decodes, with a width and a height (each cut to 32 bits).
pub open spec fn screenshot_of(call_id: Seq<char>, caption: Seq<char>, image: JsonV) -> Option<ShotV> {
    let mime = or_else(str_at(image, "mime"@), "image/png"@);
    match (str_at(image, "base64"@), u64_at(image, "width"@), u64_at(image, "height"@)) {
        (Some(encoded), Some(w), Some(h)) => if mime != "image/png"@ {
            None
        } else {
            match base64_decoded(encoded) {
                Some(png) => Some(
                    ShotV { call_id, caption, png, width: w as u32, height: h as u32 },
                ),
                None => None,
            }
        },
        _ => None,
    }
}

fn u64_of(v: &Json, key: &str) -> (r: Option<u64>)
    ensures
        r == u64_at(v@, key@),
{
    match v.get(key) {
        Some(x) => x.as_u64(),
        None => None,
    }
}

impl ScreenshotSpec {
    pub fn from_frame(call_id: &str, caption: &str, image: &Json) -> (r: Option<Self>)
        ensures
            match r {
                Some(s) => screenshot_of(call_id@, caption@, image@) == Some(s@),
                None => screenshot_of(call_id@, caption@, image@) is None,
            },
    {
        let png_mime = match image.str_at("mime") {
            Some(m) => same(m, "image/png"),
            None => true,
        };
        proof {
            reveal_strlit("image/png");
        }
        let encoded = image.str_at("base64");
        let width = u64_of(image, "width");
        let height = u64_of(image, "height");
        let (encoded, w, h) = match (encoded, width, height) {
            (Some(e), Some(w), Some(h)) => (e, w, h),
            _ => {
                return None;
            },
        };
        if !png_mime {
            return None;
        }
        let png = match decode_base64(encoded) {
            Some(b) => b,
            None => {
                return None;
            },
        };
        Some(
            ScreenshotSpec {
                call_id: owned(call_id),
                caption: owned(caption),
                png,
                width: w as u32,
                height: h as u32,
            },
        )
    }

    pub fn copy(&self) -> (r: Self)
        ensures
            r@ == self@,
    {
        ScreenshotSpec {
            call_id: self.call_id.clone(),
            caption: self.caption.clone(),
            png: self.png.clone(),
            width: self.width,
            height: self.height,
        }
    }
}

/// The keys a command sits under in a tool's arguments, in the order they
/// are looked at.
pub open spec fn command_keys() -> Seq<Seq<char>> {
    seq!["command"@, "cmd"@, "shell"@, "script"@]
}

/// The first of the command keys from `i` that holds text, trimmed.
pub open spec fn keyed_command(args: JsonV, i: nat) -> Option<Seq<char>>
    decreases 4 - i,
{
    if i >= 4 {
        None
    } else {
        match str_at(args, command_keys()[i as int]) {
            Some(c) => if trim(c).len() > 0 {
                Some(trim(c))
            } else {
                keyed_command(args, i + 1)
            },
            None => keyed_command(args, i + 1),
        }
    }
}

/// The command a tool's arguments carry: the first command key that holds
/// text; a string is JSON read again (or the command itself when it is not
/// JSON); `null` or an empty object is none; anything else is its JSON text.
/// `depth` bounds how often a string is read again, and each reading leaves
/// a shorter string, so the text's length is always enough.
pub open spec fn command_of(args: JsonV, depth: nat) -> Seq<char>
    decreases depth,
{
    match keyed_command(args, 0) {
        Some(c) => c,
        None => match args {
            JsonV::Str(raw) => if depth == 0 {
                raw
            } else {
                match parsed_json(raw) {
                    Some(p) => command_of(p, (depth - 1) as nat),
                    None => raw,
                }
            },
            JsonV::Null => Seq::empty(),
            JsonV::Object(entries) => if entries.len() == 0 {
                Seq::empty()
            } else {
                json_text(args)
            },
            _ => json_text(args),
        },
    }
}

/// How many readings a tool's arguments can need.
pub open spec fn command_depth(args: JsonV) -> nat {
    match args {
        JsonV::Str(raw) => raw.len(),
        _ => 0,
    }
}

fn keyed_command_of(args: &Json) -> (r: Option<String>)
    ensures
        opt_seq(r) == keyed_command(args@, 0),
{
    proof {
        reveal_strlit("command");
        reveal_strlit("cmd");
        reveal_strlit("shell");
        reveal_strlit("script");
    }
    let keys = ["command", "cmd", "shell", "script"];
    let mut i: usize = 0;
    while i < 4
        invariant
            i <= 4,
            keys@.len() == 4,
            forall|k: int| 0 <= k < 4 ==> (#[trigger] keys@[k])@ == command_keys()[k],
            keyed_command(args@, 0) == keyed_command(args@, i as nat),
        decreases 4 - i,
    {
        if let Some(c) = args.str_at(keys[i]) {
            let t = trimmed(c);
            if t.as_str().unicode_len() > 0 {
                return Some(t);
            }
        }
        i = i + 1;
    }
    None
}

fn command_with(args: &Json, depth: usize) -> (r: String)
    ensures
        r@ == command_of(args@, depth as nat),
    decreases depth,
{
    if let Some(c) = keyed_command_of(args) {
        return c;
    }
    match args {
        Json::Str(raw) => {
            if depth == 0 {
                return raw.clone();
            }
            match parse_json(raw.as_str()) {
                Some(p) => command_with(&p, depth - 1),
                None => raw.clone(),
            }
        },
        Json::Null => String::new(),
        Json::Object(entries) => if entries.len() == 0 {
            String::new()
        } else {
            to_json_text(args)
        },
        _ => to_json_text(args),
    }
}

/// Text that is there and is not all blank.
pub open spec fn holds_text(o: Option<Seq<char>>) -> bool {
    o is Some && trim(o->0).len() > 0
}

/// The command on an approval card is the first of `command`, `cmd`,
/// `shell` and `script` (in that order) that holds non-blank text, trimmed,
/// whatever else the arguments hold and however deep the reading may go.
pub proof fn lemma_the_command_is_the_first_keyed_text(args: JsonV, depth: nat)
    ensures
        holds_text(str_at(args, "command"@)) ==> command_of(args, depth) == trim(
            str_at(args, "command"@)->0,
        ),
        !holds_text(str_at(args, "command"@)) && holds_text(str_at(args, "cmd"@)) ==> command_of(
            args,
            depth,
        ) == trim(str_at(args, "cmd"@)->0),
        !holds_text(str_at(args, "command"@)) && !holds_text(str_at(args, "cmd"@)) && holds_text(
            str_at(args, "shell"@),
        ) ==> command_of(args, depth) == trim(str_at(args, "shell"@)->0),
        !holds_text(str_at(args, "command"@)) && !holds_text(str_at(args, "cmd"@)) && !holds_text(
            str_at(args, "shell"@),
        ) && holds_text(str_at(args, "script"@)) ==> command_of(args, depth) == trim(
            str_at(args, "script"@)->0,
        ),
{
    reveal_with_fuel(keyed_command, 5);
    let keys = command_keys();
    assert(keys[0] == "command"@);
    assert(keys[1] == "cmd"@);
    assert(keys[2] == "shell"@);
    assert(keys[3] == "script"@);
}

/// The command a tool's arguments carry.
pub fn command_from_args(arguments: &Json) -> (r: String)
    ensures
        r@ == command_of(arguments@, command_depth(arguments@)),
{
    let depth = match arguments {
        Json::Str(raw) => raw.as_str().unicode_len(),
        _ => 0,
    };
    command_with(arguments, depth)
}

/// A frame's text at `key`, at the top or in its `value`, untrimmed.
pub open spec fn frame_text(event: JsonV, key: Seq<char>) -> Option<Seq<char>> {
    either(
        str_at(event, key),
        match get(event, "value"@) {
            Some(v) => str_at(v, key),
            None => None,
        },
    )
}

fn frame_string(event: &Json, key: &str) -> (r: Option<String>)
    ensures
        opt_seq(r) == frame_text(event@, key@),
{
    match event.str_at(key) {
        Some(s) => Some(owned(s)),
        None => match event.get("value") {
            Some(v) => match v.str_at(key) {
                Some(s) => Some(owned(s)),
                None => None,
            },
            None => None,
        },
    }
}

/// A permission card from a `run-awaiting-approval`: it needs a run id and
/// a call id; the tool defaults to `a tool` and the reason to `exec-consent`;
/// the command is read from the arguments.
pub open spec fn approval_of(event: JsonV) -> Option<ApprovalV> {
    match (frame_text(event, "runId"@), frame_text(event, "callId"@)) {
        (Some(run_id), Some(call_id)) => if run_id.len() == 0 || call_id.len() == 0 {
            None
        } else {
            let arguments = or_else(
                either(
                    get(event, "arguments"@),
                    match get(event, "value"@) {
                        Some(v) => get(v, "arguments"@),
                        None => None,
                    },
                ),
                JsonV::Null,
            );
            Some(
                ApprovalV {
                    run_id,
                    call_id,
                    tool: or_else(frame_text(event, "tool"@), "a tool"@),
                    command: command_of(arguments, command_depth(arguments)),
                    why: or_else(frame_text(event, "why"@), Seq::empty()),
                    reason: or_else(frame_text(event, "reason"@), "exec-consent"@),
                    output: None,
                    ok: None,
                },
            )
        },
        _ => None,
    }
}

pub fn approval_from_event(event: &Json) -> (r: Option<ApprovalSpec>)
    ensures
        match r {
            Some(a) => approval_of(event@) == Some(a@),
            None => approval_of(event@) is None,
        },
{
    let run_id = match frame_string(event, "runId") {
        Some(r) => r,
        None => {
            return None;
        },
    };
    let call_id = match frame_string(event, "callId") {
        Some(c) => c,
        None => {
            return None;
        },
    };
    if run_id.as_str().unicode_len() == 0 || call_id.as_str().unicode_len() == 0 {
        return None;
    }
    let tool = match frame_string(event, "tool") {
        Some(t) => t,
        None => owned("a tool"),
    };
    let arguments = match event.get("arguments") {
        Some(a) => a.copy(),
        None => match event.get("value") {
            Some(v) => match v.get("arguments") {
                Some(a) => a.copy(),
                None => Json::Null,
            },
            None => Json::Null,
        },
    };
    let command = command_from_args(&arguments);
    let why = match frame_string(event, "why") {
        Some(w) => w,
        None => String::new(),
    };
    let reason = match frame_string(event, "reason") {
        Some(r) => r,
        None => owned("exec-consent"),
    };
    Some(ApprovalSpec { run_id, call_id, tool, command, why, reason, output: None, ok: None })
}

/// A replayed run's command for one call: the first frame of that call whose
/// arguments carry one, else the arguments its deltas spelled, read as JSON
/// or else trimmed.
pub open spec fn replay_command(events: Seq<JsonV>, call_id: Seq<char>, args: Seq<char>) -> Seq<char>
    decreases events.len(),
{
    if events.len() == 0 {
        match parsed_json(args) {
            Some(p) => if command_of(p, command_depth(p)).len() > 0 {
                command_of(p, command_depth(p))
            } else {
                trim(args)
            },
            None => trim(args),
        }
    } else {
        let e = events[0];
        let kind = or_else(str_at(e, "type"@), Seq::empty());
        let tool_id = match either(get(e, "toolCallId"@), either(get(e, "id"@), get(e, "callId"@))) {
            Some(x) => as_str(x),
            None => None,
        };
        let of_call = (kind == "TOOL_CALL_ARGS"@ || kind == "TOOL_CALL_CHUNK"@) && tool_id == Some(call_id);
        let next = if of_call {
            args + or_else(str_at(e, "delta"@), Seq::empty())
        } else {
            args
        };
        let from_args = match get(e, "arguments"@) {
            Some(a) => command_of(a, command_depth(a)),
            None => Seq::empty(),
        };
        let awaiting = kind == "CUSTOM"@ && str_at(e, "name"@) == Some("run-awaiting-approval"@)
            && str_at(e, "callId"@) == Some(call_id);
        let from_card = match either(get(e, "arguments"@), get(e, "args"@)) {
            Some(a) => command_of(a, command_depth(a)),
            None => Seq::empty(),
        };
        if of_call && from_args.len() > 0 {
            from_args
        } else if awaiting && from_card.len() > 0 {
            from_card
        } else {
            replay_command(events.drop_first(), call_id, next)
        }
    }
}

fn command_of_member(e: &Json, a: &str, b: &str) -> (r: String)
    ensures
        r@ == (match either(get(e@, a@), get(e@, b@)) {
            Some(x) => command_of(x, command_depth(x)),
            None => Seq::empty(),
        }),
{
    match e.get(a) {
        Some(x) => command_from_args(x),
        None => match e.get(b) {
            Some(x) => command_from_args(x),
            None => String::new(),
        },
    }
}

pub fn command_from_replay_events(events: &[Json], call_id: &str) -> (r: String)
    ensures
        r@ == replay_command(events@.map_values(|e: Json| e@), call_id@, Seq::empty()),
{
    proof {
        reveal_strlit("");
    }
    let ghost all = events@.map_values(|e: Json| e@);
    let mut args = String::new();
    let mut i: usize = 0;
    assert(all.skip(0) =~= all);
    while i < events.len()
        invariant
            i <= events@.len(),
            all == events@.map_values(|e: Json| e@),
            replay_command(all, call_id@, Seq::empty()) == replay_command(all.skip(i as int), call_id@, args@),
        decreases events@.len() - i,
    {
        proof {
            reveal_strlit("");
            let rest = all.skip(i as int);
            assert(rest[0] == events@[i as int]@);
            assert(rest.drop_first() =~= all.skip(i + 1));
        }
        let e = &events[i];
        let kind: &str = match e.str_at("type") {
            Some(k) => k,
            None => "",
        };
        assert(kind@ =~= or_else(str_at(e@, "type"@), Seq::empty()));
        let tool_ref = match e.get("toolCallId") {
            Some(x) => Some(x),
            None => match e.get("id") {
                Some(x) => Some(x),
                None => e.get("callId"),
            },
        };
        let tool_id = match tool_ref {
            Some(x) => x.as_str(),
            None => None,
        };
        let same_call = match tool_id {
            Some(t) => same(t, call_id),
            None => false,
        };
        let of_call = (same(kind, "TOOL_CALL_ARGS") || same(kind, "TOOL_CALL_CHUNK")) && same_call;
        if of_call {
            if let Some(d) = e.str_at("delta") {
                push_str(&mut args, d);
            } else {
                assert(args@ + Seq::<char>::empty() =~= args@);
            }
            let from_args = match e.get("arguments") {
                Some(a) => command_from_args(a),
                None => String::new(),
            };
            if from_args.as_str().unicode_len() > 0 {
                return from_args;
            }
        }
        let named = match e.str_at("name") {
            Some(n) => same(n, "run-awaiting-approval"),
            None => false,
        };
        let for_call = match e.str_at("callId") {
            Some(c) => same(c, call_id),
            None => false,
        };
        if same(kind, "CUSTOM") && named && for_call {
            let from_card = command_of_member(e, "arguments", "args");
            if from_card.as_str().unicode_len() > 0 {
                return from_card;
            }
        }
        i = i + 1;
    }
    assert(all.skip(i as int) =~= Seq::<JsonV>::empty());
    if let Some(p) = parse_json(args.as_str()) {
        let command = command_from_args(&p);
        if command.as_str().unicode_len() > 0 {
            return command;
        }
    }
    trimmed(args.as_str())
}

/// One part of a turn as the transcript paints it.
#[derive(Debug, PartialEq)]
pub enum ChatPart {
    Text(String),
    Ui(UiSpec),
    /// A tool the person must allow or refuse before the run continues.
    Approval(ApprovalSpec),
    /// The bot's screen after a `computer` action.
    Screenshot(ScreenshotSpec),
    /// In-chat credentials that fill the box page.
    UserForm(UserFormSpec),
}

pub enum PartV {
    Text(Seq<char>),
    Ui(UiV),
    Approval(ApprovalV),
    Screenshot(ShotV),
    UserForm(FormV),
}

impl View for ChatPart {
    type V = PartV;

    open spec fn view(&self) -> PartV {
        match self {
            ChatPart::Text(t) => PartV::Text(t@),
            ChatPart::Ui(u) => PartV::Ui(u@),
            ChatPart::Approval(a) => PartV::Approval(a@),
            ChatPart::Screenshot(s) => PartV::Screenshot(s@),
            ChatPart::UserForm(f) => PartV::UserForm(f@),
        }
    }
}

pub open spec fn parts_of(v: Seq<ChatPart>) -> Seq<PartV> {
    v.map_values(|p: ChatPart| p@)
}

impl ChatPart {
    /// A copy of the part.
    pub fn copy(&self) -> (r: ChatPart)
        ensures
            r@ == self@,
    {
        match self {
            ChatPart::Text(t) => ChatPart::Text(t.clone()),
            ChatPart::Ui(u) => ChatPart::Ui(u.copy()),
            ChatPart::Approval(a) => ChatPart::Approval(a.clone()),
            ChatPart::Screenshot(s) => ChatPart::Screenshot(s.copy()),
            ChatPart::UserForm(f) => ChatPart::UserForm(f.clone()),
        }
    }

    /// Anything but words.
    pub fn is_widget(&self) -> (r: bool)
        ensures
            r == !(self@ is Text),
    {
        match self {
            ChatPart::Text(_) => false,
            _ => true,
        }
    }
}

fn copy_parts(v: &Vec<ChatPart>) -> (r: Vec<ChatPart>)
    ensures
        parts_of(r@) == parts_of(v@),
{
    let mut out: Vec<ChatPart> = Vec::new();
    let mut i: usize = 0;
    while i < v.len()
        invariant
            i <= v@.len(),
            out@.len() == i,
            forall|k: int| 0 <= k < i ==> (#[trigger] out@[k])@ == v@[k]@,
        decreases v@.len() - i,
    {
        out.push(v[i].copy());
        i = i + 1;
    }
    assert(parts_of(out@) =~= parts_of(v@));
    out
}

/// A widget object opens here: `{"ui"` or `{"component"`, with or without a
/// space after the brace.
pub open spec fn ui_opening(rest: Seq<char>) -> bool {
    has_prefix(rest, "{\"ui\""@) || has_prefix(rest, "{ \"ui\""@) || has_prefix(
        rest,
        "{\"component\""@,
    ) || has_prefix(rest, "{ \"component\""@)
}

/// Where the first widget object in the text starts, from `i` on.
pub open spec fn find_ui_from(s: Seq<char>, i: nat) -> Option<nat>
    decreases s.len() - i,
{
    if i >= s.len() {
        None
    } else if s[i as int] == '{' && ui_opening(trim_start(s.skip(i as int))) {
        Some(i)
    } else {
        find_ui_from(s, i + 1)
    }
}

/// Scans JSON text from `i` with the brace depth, inside a string or not,
/// after a backslash or not: the length up to the brace that closes the
/// first, or none when the text ends first.
pub open spec fn json_scan(s: Seq<char>, i: nat, depth: int, in_str: bool, escape: bool) -> Option<nat>
    decreases s.len() - i,
{
    if i >= s.len() {
        None
    } else {
        let c = s[i as int];
        if in_str {
            if escape {
                json_scan(s, i + 1, depth, true, false)
            } else if c == '\\' {
                json_scan(s, i + 1, depth, true, true)
            } else if c == '"' {
                json_scan(s, i + 1, depth, false, false)
            } else {
                json_scan(s, i + 1, depth, true, false)
            }
        } else if c == '"' {
            json_scan(s, i + 1, depth, true, false)
        } else if c == '{' {
            json_scan(s, i + 1, depth + 1, false, false)
        } else if c == '}' {
            if depth - 1 == 0 {
                Some(i + 1)
            } else {
                json_scan(s, i + 1, depth - 1, false, false)
            }
        } else {
            json_scan(s, i + 1, depth, false, false)
        }
    }
}

/// The length of the whole JSON object the text starts with.
pub open spec fn json_len(s: Seq<char>) -> Option<nat> {
    if s.len() > 0 && s[0] == '{' {
        json_scan(s, 0, 0, false, false)
    } else {
        None
    }
}

proof fn lemma_json_scan_bounds(s: Seq<char>, i: nat, depth: int, in_str: bool, escape: bool)
    ensures
        json_scan(s, i, depth, in_str, escape) matches Some(n) ==> i < n <= s.len(),
    decreases s.len() - i,
{
    if i < s.len() {
        lemma_json_scan_bounds(s, i + 1, depth, in_str, escape);
        lemma_json_scan_bounds(s, i + 1, depth, true, false);
        lemma_json_scan_bounds(s, i + 1, depth, true, true);
        lemma_json_scan_bounds(s, i + 1, depth, false, false);
        lemma_json_scan_bounds(s, i + 1, depth + 1, false, false);
        lemma_json_scan_bounds(s, i + 1, depth - 1, false, false);
    }
}

fn find_ui_object(v: &Vec<char>) -> (r: Option<usize>)
    ensures
        match r {
            Some(i) => find_ui_from(v@, 0) == Some(i as nat),
            None => find_ui_from(v@, 0) is None,
        },
{
    let mut i: usize = 0;
    while i < v.len()
        invariant
            i <= v@.len(),
            find_ui_from(v@, 0) == find_ui_from(v@, i as nat),
        decreases v@.len() - i,
    {
        if v[i] == '{' {
            let rest = string_of(v, i, v.len());
            assert(rest@ =~= v@.skip(i as int));
            let rest = crate::text::trimmed_start(rest.as_str());
            let rest = rest.as_str();
            if starts_with(rest, "{\"ui\"") || starts_with(rest, "{ \"ui\"") || starts_with(
                rest,
                "{\"component\"",
            ) || starts_with(rest, "{ \"component\"") {
                return Some(i);
            }
        }
        i = i + 1;
    }
    None
}

/// The length of the whole JSON object that starts at `start`.
fn complete_json_len(v: &Vec<char>, start: usize) -> (r: Option<usize>)
    requires
        start <= v@.len(),
    ensures
        match r {
            Some(n) => json_len(v@.skip(start as int)) == Some(n as nat),
            None => json_len(v@.skip(start as int)) is None,
        },
{
    let ghost t = v@.skip(start as int);
    if start >= v.len() || v[start] != '{' {
        return None;
    }
    let mut depth: usize = 0;
    let mut in_str = false;
    let mut escape = false;
    let mut j: usize = start;
    while j < v.len()
        invariant
            start <= j <= v@.len(),
            t == v@.skip(start as int),
            t.len() > 0 && t[0] == '{',
            depth <= j - start,
            j > start ==> depth >= 1 && !(escape && !in_str),
            j == start ==> depth == 0 && !in_str && !escape,
            json_len(t) == json_scan(t, (j - start) as nat, depth as int, in_str, escape),
        decreases v@.len() - j,
    {
        let c = v[j];
        assert(t[(j - start) as int] == c);
        if in_str {
            if escape {
                escape = false;
            } else if c == '\\' {
                escape = true;
            } else if c == '"' {
                in_str = false;
            }
        } else if c == '"' {
            in_str = true;
        } else if c == '{' {
            depth = depth + 1;
        } else if c == '}' {
            depth = depth - 1;
            if depth == 0 {
                return Some(j + 1 - start);
            }
        }
        j = j + 1;
    }
    None
}

/// Text broken at each whole widget object: the words before it, then the
/// widget (or, when it does not read as one, its text); the rest is held
/// from the first object that is not yet whole.
pub open spec fn drained(buf: Seq<char>, out: Seq<PartV>) -> (Seq<char>, Seq<PartV>)
    decreases buf.len(),
{
    match find_ui_from(buf, 0) {
        None => if buf.len() > 0 {
            (Seq::empty(), out.push(PartV::Text(buf)))
        } else {
            (buf, out)
        },
        Some(start) => match json_len(buf.skip(start as int)) {
            None => (buf, out),
            Some(len) => if len == 0 || start + len > buf.len() {
                (buf, out)
            } else {
                let before = if start > 0 {
                    out.push(PartV::Text(buf.take(start as int)))
                } else {
                    out
                };
                let raw = buf.subrange(start as int, (start + len) as int);
                let part = match parsed_json(raw) {
                    Some(v) => match ui_of_value(v) {
                        Some(u) => PartV::Ui(u),
                        None => PartV::Text(raw),
                    },
                    None => PartV::Text(raw),
                };
                drained(buf.skip((start + len) as int), before.push(part))
            },
        },
    }
}

proof fn lemma_find_ui_bounds(s: Seq<char>, i: nat)
    ensures
        find_ui_from(s, i) matches Some(k) ==> i <= k < s.len(),
    decreases s.len() - i,
{
    if i < s.len() {
        lemma_find_ui_bounds(s, i + 1);
    }
}

fn drain_complete_ui(buf: &mut String, out: &mut Vec<ChatPart>)
    ensures
        (final(buf)@, parts_of(final(out)@)) == drained(old(buf)@, parts_of(old(out)@)),
{
    let ghost goal = drained(buf@, parts_of(out@));
    loop
        invariant
            drained(buf@, parts_of(out@)) == goal,
            goal == drained(old(buf)@, parts_of(old(out)@)),
        decreases buf@.len(),
    {
        let v = chars_of(buf.as_str());
        proof {
            lemma_find_ui_bounds(v@, 0);
        }
        let start = match find_ui_object(&v) {
            Some(s) => s,
            None => {
                if v.len() > 0 {
                    let mut rest = String::new();
                    std::mem::swap(&mut rest, buf);
                    let ghost before = parts_of(out@);
                    let ghost rv = rest@;
                    out.push(ChatPart::Text(rest));
                    assert(parts_of(out@) =~= before.push(PartV::Text(rv)));
                }
                return;
            },
        };
        let len = match complete_json_len(&v, start) {
            Some(n) => n,
            None => {
                return;
            },
        };
        proof {
            lemma_json_scan_bounds(v@.skip(start as int), 0, 0, false, false);
            assert(v@.skip(start as int).len() == v@.len() - start);
            assert(0 < len <= v@.len() - start);
        }
        let ghost before = parts_of(out@);
        if start > 0 {
            let head = string_of(&v, 0, start);
            assert(head@ =~= v@.take(start as int));
            let ghost hv = head@;
            out.push(ChatPart::Text(head));
            assert(parts_of(out@) =~= before.push(PartV::Text(hv)));
        }
        let ghost mid = parts_of(out@);
        assert(start + len <= v.len());
        let end = start + len;
        let raw = string_of(&v, start, end);
        let rest = string_of(&v, end, v.len());
        assert(rest@ =~= v@.skip(end as int));
        let part = match parse_json(raw.as_str()) {
            Some(value) => match UiSpec::from_value(&value) {
                Some(spec) => ChatPart::Ui(spec),
                None => ChatPart::Text(raw),
            },
            None => ChatPart::Text(raw),
        };
        let ghost pv = part@;
        out.push(part);
        assert(parts_of(out@) =~= mid.push(pv));
        *buf = rest;
    }
}

/// A widget object has started in the text and is not whole yet.
pub open spec fn ui_incomplete(text: Seq<char>) -> bool {
    match find_ui_from(text, 0) {
        None => false,
        Some(start) => json_len(text.skip(start as int)) is None,
    }
}

fn ui_object_incomplete(text: &str) -> (r: bool)
    ensures
        r == ui_incomplete(text@),
{
    let v = chars_of(text);
    proof {
        lemma_find_ui_bounds(v@, 0);
    }
    match find_ui_object(&v) {
        None => false,
        Some(start) => complete_json_len(&v, start).is_none(),
    }
}

/// One bubble's words onto the end of the turn, a blank line after what came
/// before; words that are only whitespace add nothing.
pub open spec fn push_run(out: Seq<char>, run: Seq<char>) -> Seq<char> {
    if trim(run).len() == 0 {
        out
    } else if out.len() == 0 {
        run
    } else {
        trim_end(out) + "\n\n"@ + trim_start(run)
    }
}

/// A turn's words: neighbouring text parts join with nothing between them,
/// a chart sits inside its sentence, and any other part breaks the text into
/// a new paragraph.
pub open spec fn plain_fold(parts: Seq<PartV>, out: Seq<char>, run: Seq<char>) -> Seq<char>
    decreases parts.len(),
{
    if parts.len() == 0 {
        push_run(out, run)
    } else {
        match parts[0] {
            PartV::Text(t) => plain_fold(parts.drop_first(), out, run + t),
            PartV::Ui(_) => plain_fold(parts.drop_first(), out, run),
            _ => plain_fold(parts.drop_first(), push_run(out, run), Seq::empty()),
        }
    }
}

pub open spec fn plain_text_of(parts: Seq<PartV>) -> Seq<char> {
    plain_fold(parts, Seq::empty(), Seq::empty())
}

fn push_run_exec(out: &mut String, run: &str)
    ensures
        final(out)@ == push_run(old(out)@, run@),
{
    let t = trimmed(run);
    if t.as_str().unicode_len() == 0 {
        return;
    }
    if out.as_str().unicode_len() == 0 {
        push_str(out, run);
        return;
    }
    let mut joined = crate::text::trimmed_end(out.as_str());
    push_str(&mut joined, "\n\n");
    push_str(&mut joined, crate::text::trimmed_start(run).as_str());
    *out = joined;
}

fn plain_text(parts: &Vec<ChatPart>) -> (r: String)
    ensures
        r@ == plain_text_of(parts_of(parts@)),
{
    let ghost all = parts_of(parts@);
    let mut out = String::new();
    let mut run = String::new();
    let mut i: usize = 0;
    assert(all.skip(0) =~= all);
    while i < parts.len()
        invariant
            i <= parts@.len(),
            all == parts_of(parts@),
            plain_text_of(all) == plain_fold(all.skip(i as int), out@, run@),
        decreases parts@.len() - i,
    {
        proof {
            let rest = all.skip(i as int);
            assert(rest[0] == parts@[i as int]@);
            assert(rest.drop_first() =~= all.skip(i + 1));
        }
        match &parts[i] {
            ChatPart::Text(t) => push_str(&mut run, t.as_str()),
            ChatPart::Ui(_) => {},
            _ => {
                push_run_exec(&mut out, run.as_str());
                run = String::new();
            },
        }
        i = i + 1;
    }
    push_run_exec(&mut out, run.as_str());
    out
}

/// The tool call whose arguments are still streaming.
#[derive(Debug)]
struct OpenTool {
    id: String,
    name: String,
    args: String,
}

pub struct ToolV {
    pub id: Seq<char>,
    pub name: Seq<char>,
    pub args: Seq<char>,
}

/// A turn being put together from its AG-UI frames, as the contracts read
/// it: the parts painted so far, the words not yet committed, the widget
/// tool in flight, whether a permission card waits, the widget tools the
/// turn painted, and each shell call's arguments so far.
pub struct AssemblerV {
    pub committed: Seq<PartV>,
    pub text: Seq<char>,
    pub tool: Option<ToolV>,
    pub waiting: bool,
    pub completed: Seq<(Seq<char>, Seq<char>)>,
    pub shell_args: Map<Seq<char>, Seq<char>>,
}

/// Text paints as it arrives; a bar chart or a form mounts only once its
/// JSON is whole, and text held behind it does not stall the prose around it.
pub struct TurnAssembler {
    committed: Vec<ChatPart>,
    text: String,
    tool: Option<OpenTool>,
    waiting_approval: bool,
    completed_ui: Vec<CompletedUiTool>,
    shell_args: StrMap,
}

spec fn tool_view(t: Option<OpenTool>) -> Option<ToolV> {
    match t {
        Some(o) => Some(ToolV { id: o.id@, name: o.name@, args: o.args@ }),
        None => None,
    }
}

pub open spec fn completed_view(c: Seq<CompletedUiTool>) -> Seq<(Seq<char>, Seq<char>)> {
    c.map_values(|t: CompletedUiTool| (t.id@, t.name@))
}

impl View for TurnAssembler {
    type V = AssemblerV;

    closed spec fn view(&self) -> AssemblerV {
        AssemblerV {
            committed: parts_of(self.committed@),
            text: self.text@,
            tool: tool_view(self.tool),
            waiting: self.waiting_approval,
            completed: completed_view(self.completed_ui@),
            shell_args: self.shell_args@,
        }
    }
}

pub open spec fn fresh_turn() -> AssemblerV {
    AssemblerV {
        committed: Seq::empty(),
        text: Seq::empty(),
        tool: None,
        waiting: false,
        completed: Seq::empty(),
        shell_args: Map::empty(),
    }
}

/// Whole widget objects in the uncommitted text are committed.
pub open spec fn flushed(s: AssemblerV) -> AssemblerV {
    let (text, committed) = drained(s.text, s.committed);
    AssemblerV { text, committed, ..s }
}

/// The first user-form part with this gateway id, from `i` on.
pub open spec fn form_with_entry(parts: Seq<PartV>, entry_id: Seq<char>, i: nat) -> Option<nat>
    decreases parts.len() - i,
{
    if i >= parts.len() {
        None
    } else if parts[i as int] matches PartV::UserForm(f) && f.entry_id == entry_id {
        Some(i)
    } else {
        form_with_entry(parts, entry_id, i + 1)
    }
}

/// A user-form folds onto the card with its gateway id, or is added.
pub open spec fn with_user_form(s: AssemblerV, f: FormV) -> AssemblerV {
    match form_with_entry(s.committed, f.entry_id, 0) {
        Some(i) => AssemblerV {
            committed: s.committed.update(
                i as int,
                PartV::UserForm(merged(s.committed[i as int]->UserForm_0, f)),
            ),
            ..s
        },
        None => AssemblerV { committed: s.committed.push(PartV::UserForm(f)), ..s },
    }
}

/// What a rule drops from the parts.
pub enum Discard {
    /// The permission cards of a call.
    Approvals(Seq<char>),
    /// The screenshots of a call.
    Shots(Seq<char>),
    /// The charts (when a chart arrives) or the forms (when a form does).
    Widgets(bool),
}

pub open spec fn dropped(p: PartV, rule: Discard) -> bool {
    match rule {
        Discard::Approvals(call) => p matches PartV::Approval(a) && a.call_id == call,
        Discard::Shots(call) => p matches PartV::Screenshot(x) && x.call_id == call,
        Discard::Widgets(chart) => match p {
            PartV::Ui(UiV::BarChart { .. }) => chart,
            PartV::Ui(UiV::Form { .. }) => !chart,
            _ => false,
        },
    }
}

/// The parts a rule keeps, in order.
pub open spec fn kept(parts: Seq<PartV>, rule: Discard) -> Seq<PartV>
    decreases parts.len(),
{
    if parts.len() == 0 {
        Seq::empty()
    } else if dropped(parts.last(), rule) {
        kept(parts.drop_last(), rule)
    } else {
        kept(parts.drop_last(), rule).push(parts.last())
    }
}

/// The painted widget tools other than those of this name.
pub open spec fn other_tools(tools: Seq<(Seq<char>, Seq<char>)>, name: Seq<char>) -> Seq<(Seq<char>, Seq<char>)>
    decreases tools.len(),
{
    if tools.len() == 0 {
        Seq::empty()
    } else if tools.last().1 == name {
        other_tools(tools.drop_last(), name)
    } else {
        other_tools(tools.drop_last(), name).push(tools.last())
    }
}

/// A widget from a tool replaces the widget of its kind, and the tool is
/// remembered as painted.
pub open spec fn with_ui(s: AssemblerV, u: UiV, id: Seq<char>, name: Seq<char>) -> AssemblerV {
    AssemblerV {
        committed: kept(s.committed, Discard::Widgets(u is BarChart)).push(PartV::Ui(u)),
        completed: other_tools(s.completed, name).push((id, name)),
        ..s
    }
}

/// A finished widget tool: its arguments mount a user-form or a widget when
/// they read as one.
pub open spec fn closed_tool(s: AssemblerV, t: ToolV) -> AssemblerV {
    match parsed_json(t.args) {
        None => s,
        Some(v) => if user_form_tool_name(t.name) {
            match tool_args_form(v, t.id) {
                Some(f) => with_user_form(s, f),
                None => s,
            }
        } else {
            match ui_from_tool(t.name, v) {
                Some(u) => with_ui(s, u, t.id, t.name),
                None => s,
            }
        },
    }
}

/// The text flushed, and the open tool closed.
pub open spec fn finished(s: AssemblerV) -> AssemblerV {
    let f = flushed(s);
    match f.tool {
        Some(t) => closed_tool(AssemblerV { tool: None, ..f }, t),
        None => f,
    }
}

/// The first permission card of a call, from `i` on.
pub open spec fn approval_at(parts: Seq<PartV>, call: Seq<char>, i: nat) -> Option<nat>
    decreases parts.len() - i,
{
    if i >= parts.len() {
        None
    } else if parts[i as int] matches PartV::Approval(a) && a.call_id == call {
        Some(i)
    } else {
        approval_at(parts, call, i + 1)
    }
}

/// A tool's result lands on its call's permission card; a result with a
/// PNG becomes the call's screenshot row.
pub open spec fn with_result(s: AssemblerV, event: JsonV) -> AssemblerV {
    let call = or_else(str_at(event, "toolCallId"@), Seq::empty());
    let content = or_else(str_at(event, "content"@), Seq::empty());
    let ok = match get(event, "ok"@) {
        Some(x) => crate::json::as_bool(x),
        None => None,
    };
    if call.len() == 0 {
        s
    } else {
        let c1 = match approval_at(s.committed, call, 0) {
            Some(i) => s.committed.update(
                i as int,
                PartV::Approval(
                    ApprovalV { output: Some(content), ok, ..s.committed[i as int]->Approval_0 },
                ),
            ),
            None => s.committed,
        };
        let c2 = match get(event, "image"@) {
            Some(img) => match screenshot_of(call, content, img) {
                Some(shot) => kept(c1, Discard::Shots(call)).push(PartV::Screenshot(shot)),
                None => c1,
            },
            None => c1,
        };
        AssemblerV { committed: c2, ..s }
    }
}

/// A permission card arrives: an empty command is filled from the call's
/// streamed shell arguments, and the card replaces any earlier one of its
/// call; the turn now waits on it.
pub open spec fn with_approval(s: AssemblerV, event: JsonV) -> AssemblerV {
    match approval_of(event) {
        None => s,
        Some(a) => {
            let filled = if a.command.len() == 0 && s.shell_args.contains_key(a.call_id) {
                let raw = s.shell_args[a.call_id];
                match parsed_json(raw) {
                    Some(v) => ApprovalV { command: command_of(v, command_depth(v)), ..a },
                    None => if trim(raw).len() > 0 {
                        ApprovalV { command: raw, ..a }
                    } else {
                        a
                    },
                }
            } else {
                a
            };
            AssemblerV {
                committed: kept(s.committed, Discard::Approvals(filled.call_id)).push(
                    PartV::Approval(filled),
                ),
                waiting: true,
                ..s
            }
        },
    }
}

/// A tool call's id, from `toolCallId` (else `id`) when it is a string.
pub open spec fn call_id_of(event: JsonV) -> Option<Seq<char>> {
    match either(get(event, "toolCallId"@), get(event, "id"@)) {
        Some(x) => as_str(x),
        None => None,
    }
}

/// A tool call starts (or a chunk of it arrives): a local-shell call gets an
/// argument buffer; a chunk's delta and whole arguments land in it; a widget
/// or user-form tool holds the text until it ends.
pub open spec fn with_tool_start(s: AssemblerV, event: JsonV, chunk: bool) -> AssemblerV {
    let name = or_else(str_at(event, "toolCallName"@), Seq::empty());
    let id = or_else(call_id_of(event), Seq::empty());
    let args0 = if name == USER_MACHINE_SHELL@ && id.len() > 0 && !s.shell_args.contains_key(id) {
        s.shell_args.insert(id, Seq::empty())
    } else {
        s.shell_args
    };
    let args1 = if chunk {
        let with_delta = match str_at(event, "delta"@) {
            Some(d) => if args0.contains_key(id) {
                args0.insert(id, args0[id] + d)
            } else {
                args0
            },
            None => args0,
        };
        match get(event, "arguments"@) {
            Some(a) => if command_of(a, command_depth(a)).len() > 0 && id.len() > 0 {
                with_delta.insert(id, json_text(a))
            } else {
                with_delta
            },
            None => with_delta,
        }
    } else {
        args0
    };
    let s1 = AssemblerV { shell_args: args1, ..s };
    if ui_tool_name(name) || user_form_tool_name(name) {
        AssemblerV { tool: Some(ToolV { id, name, args: Seq::empty() }), ..flushed(s1) }
    } else {
        s1
    }
}

/// Arguments stream in: the delta goes to the call's shell buffer and to the
/// open widget tool.
pub open spec fn with_tool_args(s: AssemblerV, event: JsonV) -> AssemblerV {
    match str_at(event, "delta"@) {
        None => s,
        Some(d) => {
            let args = match call_id_of(event) {
                Some(i) => s.shell_args.insert(i, crate::user_form::typed(s.shell_args, i) + d),
                None => s.shell_args,
            };
            let tool = match s.tool {
                Some(t) => Some(ToolV { args: t.args + d, ..t }),
                None => None,
            };
            AssemblerV { shell_args: args, tool, ..s }
        },
    }
}

/// A CUSTOM frame: a permission card; else a user-form; else a widget.
pub open spec fn with_custom(s: AssemblerV, event: JsonV) -> AssemblerV {
    let name = or_else(str_at(event, "name"@), Seq::empty());
    if name == "run-awaiting-approval"@ {
        with_approval(flushed(s), event)
    } else {
        match custom_event_form(event) {
            Some(f) => with_user_form(flushed(s), f),
            None => match ui_from_custom(name, or_else(get(event, "value"@), JsonV::Null)) {
                Some(u) => {
                    let f = flushed(s);
                    AssemblerV { committed: f.committed.push(PartV::Ui(u)), ..f }
                },
                None => s,
            },
        }
    }
}

/// What one AG-UI frame does to the turn.
pub open spec fn assembled(s: AssemblerV, event: JsonV) -> AssemblerV {
    let kind = or_else(str_at(event, "type"@), Seq::empty());
    if kind == "TEXT_MESSAGE_CONTENT"@ || kind == "TEXT_MESSAGE_CHUNK"@ {
        match str_at(event, "delta"@) {
            Some(d) => {
                let s1 = AssemblerV { text: s.text + d, ..s };
                if s.tool is None {
                    flushed(s1)
                } else {
                    s1
                }
            },
            None => s,
        }
    } else if kind == "TOOL_CALL_START"@ || kind == "TOOL_CALL_CHUNK"@ {
        with_tool_start(s, event, kind == "TOOL_CALL_CHUNK"@)
    } else if kind == "TOOL_CALL_ARGS"@ {
        with_tool_args(s, event)
    } else if kind == "TOOL_CALL_END"@ {
        finished(s)
    } else if kind == "CUSTOM"@ {
        with_custom(s, event)
    } else if kind == "TOOL_CALL_RESULT"@ {
        with_result(flushed(AssemblerV { waiting: false, ..s }), event)
    } else if kind == "RUN_FINISHED"@ || kind == "RUN_ERROR"@ {
        AssemblerV { waiting: false, ..s }
    } else {
        s
    }
}

/// The turn as painted now: while a widget is held, only the committed parts;
/// else those and the words after them; with the turn's words.
pub open spec fn snapshot_of(s: AssemblerV) -> (Seq<char>, Seq<PartV>) {
    if s.tool is Some || ui_incomplete(s.text) {
        (plain_text_of(s.committed), s.committed)
    } else {
        let parts = if s.text.len() > 0 {
            s.committed.push(PartV::Text(s.text))
        } else {
            s.committed
        };
        (plain_text_of(parts), parts)
    }
}

/// What a rule drops, in the library's own values.
enum DropRule {
    Approvals(String),
    Shots(String),
    Widgets(bool),
}

spec fn rule_view(r: &DropRule) -> Discard {
    match r {
        DropRule::Approvals(c) => Discard::Approvals(c@),
        DropRule::Shots(c) => Discard::Shots(c@),
        DropRule::Widgets(chart) => Discard::Widgets(*chart),
    }
}

fn drops(p: &ChatPart, rule: &DropRule) -> (r: bool)
    ensures
        r == dropped(p@, rule_view(rule)),
{
    match (p, rule) {
        (ChatPart::Approval(a), DropRule::Approvals(call)) => same(a.call_id.as_str(), call.as_str()),
        (ChatPart::Screenshot(x), DropRule::Shots(call)) => same(x.call_id.as_str(), call.as_str()),
        (ChatPart::Ui(UiSpec::BarChart(_)), DropRule::Widgets(chart)) => *chart,
        (ChatPart::Ui(UiSpec::Form(_)), DropRule::Widgets(chart)) => !*chart,
        _ => false,
    }
}

fn retain_parts(parts: Vec<ChatPart>, rule: &DropRule) -> (r: Vec<ChatPart>)
    ensures
        parts_of(r@) == kept(parts_of(parts@), rule_view(rule)),
{
    let ghost all = parts_of(parts@);
    let mut out: Vec<ChatPart> = Vec::new();
    let mut i: usize = 0;
    while i < parts.len()
        invariant
            i <= parts@.len(),
            all == parts_of(parts@),
            parts_of(out@) == kept(all.subrange(0, i as int), rule_view(rule)),
        decreases parts@.len() - i,
    {
        let ghost before = parts_of(out@);
        proof {
            let sub = all.subrange(0, i + 1);
            assert(sub.drop_last() =~= all.subrange(0, i as int));
            assert(sub.last() == parts@[i as int]@);
        }
        if !drops(&parts[i], rule) {
            let p = parts[i].copy();
            let ghost pv = p@;
            out.push(p);
            assert(parts_of(out@) =~= before.push(pv));
        }
        i = i + 1;
    }
    assert(all.subrange(0, i as int) =~= all);
    out
}

fn retain_tools(tools: Vec<CompletedUiTool>, name: &str) -> (r: Vec<CompletedUiTool>)
    ensures
        completed_view(r@) == other_tools(completed_view(tools@), name@),
{
    let ghost all = completed_view(tools@);
    let mut out: Vec<CompletedUiTool> = Vec::new();
    let mut i: usize = 0;
    while i < tools.len()
        invariant
            i <= tools@.len(),
            all == completed_view(tools@),
            completed_view(out@) == other_tools(all.subrange(0, i as int), name@),
        decreases tools@.len() - i,
    {
        let ghost before = completed_view(out@);
        proof {
            let sub = all.subrange(0, i + 1);
            assert(sub.drop_last() =~= all.subrange(0, i as int));
            assert(sub.last() == (tools@[i as int].id@, tools@[i as int].name@));
        }
        if !same(tools[i].name.as_str(), name) {
            let t = tools[i].clone();
            let ghost tv = (t.id@, t.name@);
            out.push(t);
            assert(completed_view(out@) =~= before.push(tv));
        }
        i = i + 1;
    }
    assert(all.subrange(0, i as int) =~= all);
    out
}

proof fn lemma_form_with_entry(parts: Seq<PartV>, entry_id: Seq<char>, i: nat)
    ensures
        form_with_entry(parts, entry_id, i) matches Some(k) ==> (i <= k < parts.len()
            && (parts[k as int] matches PartV::UserForm(f) && f.entry_id == entry_id)),
    decreases parts.len() - i,
{
    if i < parts.len() {
        lemma_form_with_entry(parts, entry_id, i + 1);
    }
}

proof fn lemma_approval_at(parts: Seq<PartV>, call: Seq<char>, i: nat)
    ensures
        approval_at(parts, call, i) matches Some(k) ==> (i <= k < parts.len()
            && (parts[k as int] matches PartV::Approval(a) && a.call_id == call)),
    decreases parts.len() - i,
{
    if i < parts.len() {
        lemma_approval_at(parts, call, i + 1);
    }
}

fn form_index(parts: &Vec<ChatPart>, entry_id: &str) -> (r: Option<usize>)
    ensures
        match r {
            Some(i) => form_with_entry(parts_of(parts@), entry_id@, 0) == Some(i as nat) && i
                < parts@.len() && (parts@[i as int]@ matches PartV::UserForm(f) && f.entry_id
                == entry_id@),
            None => form_with_entry(parts_of(parts@), entry_id@, 0) is None,
        },
{
    let ghost all = parts_of(parts@);
    proof {
        lemma_form_with_entry(all, entry_id@, 0);
    }
    let mut i: usize = 0;
    while i < parts.len()
        invariant
            i <= parts@.len(),
            all == parts_of(parts@),
            form_with_entry(all, entry_id@, 0) == form_with_entry(all, entry_id@, i as nat),
        decreases parts@.len() - i,
    {
        assert(all[i as int] == parts@[i as int]@);
        let here = match &parts[i] {
            ChatPart::UserForm(f) => same(f.entry_id.as_str(), entry_id),
            _ => false,
        };
        if here {
            return Some(i);
        }
        i = i + 1;
    }
    None
}

fn approval_index(parts: &Vec<ChatPart>, call: &str) -> (r: Option<usize>)
    ensures
        match r {
            Some(i) => approval_at(parts_of(parts@), call@, 0) == Some(i as nat) && i
                < parts@.len() && (parts@[i as int]@ matches PartV::Approval(a) && a.call_id
                == call@),
            None => approval_at(parts_of(parts@), call@, 0) is None,
        },
{
    let ghost all = parts_of(parts@);
    proof {
        lemma_approval_at(all, call@, 0);
    }
    let mut i: usize = 0;
    while i < parts.len()
        invariant
            i <= parts@.len(),
            all == parts_of(parts@),
            approval_at(all, call@, 0) == approval_at(all, call@, i as nat),
        decreases parts@.len() - i,
    {
        assert(all[i as int] == parts@[i as int]@);
        let here = match &parts[i] {
            ChatPart::Approval(a) => same(a.call_id.as_str(), call),
            _ => false,
        };
        if here {
            return Some(i);
        }
        i = i + 1;
    }
    None
}

impl TurnAssembler {
    fn flush_text(&mut self)
        ensures
            final(self)@ == flushed(old(self)@),
    {
        drain_complete_ui(&mut self.text, &mut self.committed);
    }

    fn push_user_form(&mut self, spec: UserFormSpec)
        ensures
            final(self)@ == with_user_form(old(self)@, spec@),
    {
        let ghost parts = parts_of(self.committed@);
        match form_index(&self.committed, spec.entry_id.as_str()) {
            Some(i) => {
                let mut f = match &self.committed[i] {
                    ChatPart::UserForm(f) => f.clone(),
                    _ => spec.clone(),
                };
                assert(parts[i as int] == self.committed@[i as int]@);
                f.merge(spec);
                let ghost fv = f@;
                self.committed.set(i, ChatPart::UserForm(f));
                assert(parts_of(self.committed@) =~= parts.update(i as int, PartV::UserForm(fv)));
            },
            None => {
                let ghost sv = spec@;
                self.committed.push(ChatPart::UserForm(spec));
                assert(parts_of(self.committed@) =~= parts.push(PartV::UserForm(sv)));
            },
        }
    }

    fn push_ui(&mut self, spec: UiSpec, id: String, name: String)
        ensures
            final(self)@ == with_ui(old(self)@, spec@, id@, name@),
    {
        let chart = match &spec {
            UiSpec::BarChart(_) => true,
            UiSpec::Form(_) => false,
        };
        let mut committed: Vec<ChatPart> = Vec::new();
        std::mem::swap(&mut committed, &mut self.committed);
        let mut committed = retain_parts(committed, &DropRule::Widgets(chart));
        let ghost before = parts_of(committed@);
        let ghost uv = spec@;
        committed.push(ChatPart::Ui(spec));
        assert(parts_of(committed@) =~= before.push(PartV::Ui(uv)));
        self.committed = committed;
        let mut tools: Vec<CompletedUiTool> = Vec::new();
        std::mem::swap(&mut tools, &mut self.completed_ui);
        let mut tools = retain_tools(tools, name.as_str());
        let ghost tb = completed_view(tools@);
        let ghost tv = (id@, name@);
        tools.push(CompletedUiTool { id, name });
        assert(completed_view(tools@) =~= tb.push(tv));
        self.completed_ui = tools;
    }

    fn close_tool(&mut self, tool: OpenTool)
        ensures
            final(self)@ == closed_tool(old(self)@, tool_view(Some(tool))->0),
    {
        let value = match parse_json(tool.args.as_str()) {
            Some(v) => v,
            None => {
                return;
            },
        };
        if crate::user_form::is_user_form_tool(tool.name.as_str()) {
            if let Some(spec) = UserFormSpec::from_tool_args(&value, tool.id.as_str()) {
                self.push_user_form(spec);
            }
            return;
        }
        if let Some(spec) = UiSpec::from_tool(tool.name.as_str(), &value) {
            self.push_ui(spec, tool.id, tool.name);
        }
    }

    fn attach_tool_result(&mut self, event: &Json)
        ensures
            final(self)@ == with_result(old(self)@, event@),
    {
        proof {
            reveal_strlit("");
        }
        let call_id: String = match event.str_at("toolCallId") {
            Some(c) => owned(c),
            None => String::new(),
        };
        assert(call_id@ =~= or_else(str_at(event@, "toolCallId"@), Seq::empty()));
        if call_id.as_str().unicode_len() == 0 {
            return;
        }
        let content: String = match event.str_at("content") {
            Some(c) => owned(c),
            None => String::new(),
        };
        assert(content@ =~= or_else(str_at(event@, "content"@), Seq::empty()));
        let ok = match event.get("ok") {
            Some(x) => x.as_bool(),
            None => None,
        };
        let ghost parts = parts_of(self.committed@);
        if let Some(i) = approval_index(&self.committed, call_id.as_str()) {
            assert(parts[i as int] == self.committed@[i as int]@);
            let found = match &self.committed[i] {
                ChatPart::Approval(a) => Some(a.clone()),
                _ => None,
            };
            if let Some(mut a) = found {
                a.output = Some(content.clone());
                a.ok = ok;
                let ghost av = a@;
                self.committed.set(i, ChatPart::Approval(a));
                assert(parts_of(self.committed@) =~= parts.update(i as int, PartV::Approval(av)));
            }
        }
        let shot = match event.get("image") {
            Some(image) => ScreenshotSpec::from_frame(call_id.as_str(), content.as_str(), image),
            None => None,
        };
        if let Some(shot) = shot {
            let mut committed: Vec<ChatPart> = Vec::new();
            std::mem::swap(&mut committed, &mut self.committed);
            let mut committed = retain_parts(committed, &DropRule::Shots(call_id));
            let ghost before = parts_of(committed@);
            let ghost sv = shot@;
            committed.push(ChatPart::Screenshot(shot));
            assert(parts_of(committed@) =~= before.push(PartV::Screenshot(sv)));
            self.committed = committed;
        }
    }

    /// Applies one AG-UI frame to the turn.
    pub fn push_event(&mut self, event: &Json)
        ensures
            final(self)@ == assembled(old(self)@, event@),
    {
        proof {
            reveal_strlit("");
        }
        let kind: &str = match event.str_at("type") {
            Some(k) => k,
            None => "",
        };
        assert(kind@ =~= or_else(str_at(event@, "type"@), Seq::empty()));
        if same(kind, "TEXT_MESSAGE_CONTENT") || same(kind, "TEXT_MESSAGE_CHUNK") {
            if let Some(delta) = event.str_at("delta") {
                push_str(&mut self.text, delta);
                if self.tool.is_none() {
                    self.flush_text();
                }
            }
        } else if same(kind, "TOOL_CALL_START") || same(kind, "TOOL_CALL_CHUNK") {
            let chunk = same(kind, "TOOL_CALL_CHUNK");
            self.tool_start(event, chunk);
        } else if same(kind, "TOOL_CALL_ARGS") {
            self.tool_args(event);
        } else if same(kind, "TOOL_CALL_END") {
            self.finish();
        } else if same(kind, "CUSTOM") {
            self.custom(event);
        } else if same(kind, "TOOL_CALL_RESULT") {
            self.waiting_approval = false;
            self.flush_text();
            self.attach_tool_result(event);
        } else if same(kind, "RUN_FINISHED") || same(kind, "RUN_ERROR") {
            self.waiting_approval = false;
        }
    }

    fn tool_start(&mut self, event: &Json, chunk: bool)
        ensures
            final(self)@ == with_tool_start(old(self)@, event@, chunk),
    {
        proof {
            reveal_strlit("");
        }
        let name: &str = match event.str_at("toolCallName") {
            Some(n) => n,
            None => "",
        };
        assert(name@ =~= or_else(str_at(event@, "toolCallName"@), Seq::empty()));
        let id: String = match call_id_at(event) {
            Some(i) => owned(i),
            None => String::new(),
        };
        assert(id@ =~= or_else(call_id_of(event@), Seq::empty()));
        if same(name, USER_MACHINE_SHELL) && id.as_str().unicode_len() > 0 {
            self.shell_args.ensure(id.as_str());
        }
        if chunk {
            if let Some(delta) = event.str_at("delta") {
                if self.shell_args.contains(id.as_str()) {
                    self.shell_args.append(id.as_str(), delta);
                }
            }
            if let Some(args) = event.get("arguments") {
                let command = command_from_args(args);
                if command.as_str().unicode_len() > 0 && id.as_str().unicode_len() > 0 {
                    self.shell_args.insert(owned(id.as_str()), to_json_text(args));
                }
            }
        }
        if is_ui_tool(name) || crate::user_form::is_user_form_tool(name) {
            self.flush_text();
            self.tool = Some(OpenTool { id, name: owned(name), args: String::new() });
        }
    }

    fn tool_args(&mut self, event: &Json)
        ensures
            final(self)@ == with_tool_args(old(self)@, event@),
    {
        if let Some(delta) = event.str_at("delta") {
            if let Some(id) = call_id_at(event) {
                self.shell_args.append(id, delta);
            }
            if let Some(mut tool) = self.tool.take() {
                push_str(&mut tool.args, delta);
                self.tool = Some(tool);
            }
        }
    }

    fn custom(&mut self, event: &Json)
        ensures
            final(self)@ == with_custom(old(self)@, event@),
    {
        proof {
            reveal_strlit("");
        }
        let name: &str = match event.str_at("name") {
            Some(n) => n,
            None => "",
        };
        assert(name@ =~= or_else(str_at(event@, "name"@), Seq::empty()));
        if same(name, "run-awaiting-approval") {
            self.flush_text();
            self.approval(event);
        } else if let Some(spec) = UserFormSpec::from_custom_event(event) {
            self.flush_text();
            self.push_user_form(spec);
        } else {
            let null = Json::Null;
            let value: &Json = match event.get("value") {
                Some(v) => v,
                None => &null,
            };
            assert(value@ == or_else(get(event@, "value"@), JsonV::Null));
            if let Some(spec) = UiSpec::from_custom(name, value) {
                self.flush_text();
                let ghost before = parts_of(self.committed@);
                let ghost uv = spec@;
                self.committed.push(ChatPart::Ui(spec));
                assert(parts_of(self.committed@) =~= before.push(PartV::Ui(uv)));
            }
        }
    }

    fn approval(&mut self, event: &Json)
        ensures
            final(self)@ == with_approval(old(self)@, event@),
    {
        if let Some(mut spec) = approval_from_event(event) {
            if spec.command.as_str().unicode_len() == 0 {
                if let Some(raw) = self.shell_args.get(spec.call_id.as_str()) {
                    match parse_json(raw) {
                        Some(value) => {
                            spec.command = command_from_args(&value);
                        },
                        None => {
                            if trimmed(raw).as_str().unicode_len() > 0 {
                                spec.command = owned(raw);
                            }
                        },
                    }
                }
            }
            let mut committed: Vec<ChatPart> = Vec::new();
            std::mem::swap(&mut committed, &mut self.committed);
            let call = owned(spec.call_id.as_str());
            let mut committed = retain_parts(committed, &DropRule::Approvals(call));
            let ghost before = parts_of(committed@);
            let ghost av = spec@;
            committed.push(ChatPart::Approval(spec));
            assert(parts_of(committed@) =~= before.push(PartV::Approval(av)));
            self.committed = committed;
            self.waiting_approval = true;
        }
    }

    /// The turn as it paints now, with its plain words.
    pub fn snapshot(&self) -> (r: (String, Vec<ChatPart>))
        ensures
            (r.0@, parts_of(r.1@)) == snapshot_of(self@),
    {
        if self.tool.is_some() || ui_object_incomplete(self.text.as_str()) {
            let plain = plain_text(&self.committed);
            return (plain, copy_parts(&self.committed));
        }
        let mut parts = copy_parts(&self.committed);
        if self.text.as_str().unicode_len() > 0 {
            let ghost before = parts_of(parts@);
            let words = owned(self.text.as_str());
            let ghost wv = words@;
            parts.push(ChatPart::Text(words));
            assert(parts_of(parts@) =~= before.push(PartV::Text(wv)));
        }
        let plain = plain_text(&parts);
        (plain, parts)
    }

    /// A permission card waits for an answer.
    pub fn waiting_approval(&self) -> (r: bool)
        ensures
            r == self@.waiting,
    {
        self.waiting_approval
    }

    /// An unresolved user-form card is on the turn.
    pub fn waiting_user_form(&self) -> (r: bool)
        ensures
            r == has_open_form(self@.committed),
    {
        let ghost all = parts_of(self.committed@);
        let mut i: usize = 0;
        while i < self.committed.len()
            invariant
                i <= self.committed@.len(),
                all == parts_of(self.committed@),
                forall|k: int| 0 <= k < i ==> !open_form_at(all, k),
            decreases self.committed@.len() - i,
        {
            assert(all[i as int] == self.committed@[i as int]@);
            let open = match &self.committed[i] {
                ChatPart::UserForm(f) => f.is_unresolved(),
                _ => false,
            };
            if open {
                assert(open_form_at(all, i as int));
                return true;
            }
            i = i + 1;
        }
        false
    }

    /// The stream ended: whole widget text is committed and the open tool,
    /// if any, is closed.
    pub fn finish(&mut self)
        ensures
            final(self)@ == finished(old(self)@),
    {
        self.flush_text();
        if let Some(tool) = self.tool.take() {
            self.close_tool(tool);
        }
    }

    /// Hands over the widget tools painted so far, leaving none.
    pub fn take_completed_ui_tools(&mut self) -> (r: Vec<CompletedUiTool>)
        ensures
            completed_view(r@) == old(self)@.completed,
            final(self)@ == (AssemblerV { completed: Seq::empty(), ..old(self)@ }),
    {
        let mut out: Vec<CompletedUiTool> = Vec::new();
        std::mem::swap(&mut out, &mut self.completed_ui);
        assert(completed_view(self.completed_ui@) =~= Seq::<(Seq<char>, Seq<char>)>::empty());
        out
    }
}

impl Default for TurnAssembler {
    fn default() -> (r: Self)
        ensures
            r@ == fresh_turn(),
    {
        let r = TurnAssembler {
            committed: Vec::new(),
            text: String::new(),
            tool: None,
            waiting_approval: false,
            completed_ui: Vec::new(),
            shell_args: StrMap::new(),
        };
        assert(r@.committed =~= Seq::<PartV>::empty());
        assert(r@.completed =~= Seq::<(Seq<char>, Seq<char>)>::empty());
        r
    }
}

/// The call id of a tool frame: `toolCallId`, else `id`, when a string.
fn call_id_at(event: &Json) -> (r: Option<&str>)
    ensures
        match r {
            Some(s) => call_id_of(event@) == Some(s@),
            None => call_id_of(event@) is None,
        },
{
    let v = match event.get("toolCallId") {
        Some(v) => Some(v),
        None => event.get("id"),
    };
    match v {
        Some(x) => x.as_str(),
        None => None,
    }
}

pub open spec fn open_form_at(parts: Seq<PartV>, k: int) -> bool {
    parts[k] matches PartV::UserForm(f) && crate::user_form::effective_resolution(f) is None
}

/// Some user-form card on the turn is still unresolved.
pub open spec fn has_open_form(parts: Seq<PartV>) -> bool {
    exists|k: int| 0 <= k < parts.len() && #[trigger] open_form_at(parts, k)
}


/// A permission card for one of the calls still waiting on an answer.
pub open spec fn is_open_card(p: PartV, open: Seq<Seq<char>>) -> bool {
    p matches PartV::Approval(a) && open.contains(a.call_id)
}

/// The call of the last open permission card.
pub open spec fn last_open_call(parts: Seq<PartV>, open: Seq<Seq<char>>) -> Option<Seq<char>>
    decreases parts.len(),
{
    if parts.len() == 0 {
        None
    } else if is_open_card(parts.last(), open) {
        Some(parts.last()->Approval_0.call_id)
    } else {
        last_open_call(parts.drop_last(), open)
    }
}

/// The first `n` parts with open cards culled: only the first card of the
/// kept call stays; the flag says whether it has been passed.
pub open spec fn collapse_prefix(
    parts: Seq<PartV>,
    n: nat,
    open: Seq<Seq<char>>,
    keep: Option<Seq<char>>,
) -> (Seq<PartV>, bool)
    decreases n,
{
    if n == 0 {
        (Seq::empty(), false)
    } else {
        let (out, kept) = collapse_prefix(parts, (n - 1) as nat, open, keep);
        let p = parts[n - 1];
        if is_open_card(p, open) {
            if keep == Some(p->Approval_0.call_id) && !kept {
                (out.push(p), true)
            } else {
                (out, kept)
            }
        } else {
            (out.push(p), kept)
        }
    }
}

/// The parts with at most one open permission card: the first card of the
/// call whose card came last.
pub open spec fn collapsed(parts: Seq<PartV>, open: Seq<Seq<char>>) -> Seq<PartV> {
    collapse_prefix(parts, parts.len(), open, last_open_call(parts, open)).0
}

fn listed(call: &str, open: &[String]) -> (r: bool)
    ensures
        r == strings_of(open@).contains(call@),
{
    let ghost ids = strings_of(open@);
    let mut i: usize = 0;
    while i < open.len()
        invariant
            i <= open@.len(),
            ids == strings_of(open@),
            forall|k: int| 0 <= k < i ==> ids[k] != call@,
        decreases open@.len() - i,
    {
        if same(open[i].as_str(), call) {
            assert(ids[i as int] == call@);
            return true;
        }
        i = i + 1;
    }
    false
}

fn open_card_call<'a>(p: &'a ChatPart, open: &[String]) -> (r: Option<&'a str>)
    ensures
        match r {
            Some(c) => is_open_card(p@, strings_of(open@)) && p@->Approval_0.call_id == c@,
            None => !is_open_card(p@, strings_of(open@)),
        },
{
    match p {
        ChatPart::Approval(a) => {
            if listed(a.call_id.as_str(), open) {
                Some(a.call_id.as_str())
            } else {
                None
            }
        },
        _ => None,
    }
}

fn last_open<'a>(parts: &'a [ChatPart], open: &[String]) -> (r: Option<&'a str>)
    ensures
        match r {
            Some(c) => last_open_call(parts_of(parts@), strings_of(open@)) == Some(c@),
            None => last_open_call(parts_of(parts@), strings_of(open@)) is None,
        },
{
    let ghost all = parts_of(parts@);
    let ghost ids = strings_of(open@);
    assert(all.take(parts@.len() as int) =~= all);
    let mut j: usize = parts.len();
    while j > 0
        invariant
            j <= parts@.len(),
            all == parts_of(parts@),
            ids == strings_of(open@),
            last_open_call(all, ids) == last_open_call(all.take(j as int), ids),
        decreases j,
    {
        let ghost pre = all.take(j as int);
        assert(pre.drop_last() =~= all.take(j - 1));
        assert(pre.last() == parts@[j - 1]@);
        if let Some(c) = open_card_call(&parts[j - 1], open) {
            return Some(c);
        }
        j = j - 1;
    }
    assert(all.take(0) =~= Seq::<PartV>::empty());
    None
}

/// At most one open permission card: older unanswered shell runs stay off
/// the bubble, so a turn never asks for two yeses.
pub fn collapse_open_approvals(parts: &[ChatPart], open_call_ids: &[String]) -> (r: Vec<ChatPart>)
    ensures
        parts_of(r@) == collapsed(parts_of(parts@), strings_of(open_call_ids@)),
{
    let ghost all = parts_of(parts@);
    let ghost open = strings_of(open_call_ids@);
    let keep = last_open(parts, open_call_ids);
    let ghost want = last_open_call(all, open);
    let mut out: Vec<ChatPart> = Vec::new();
    let mut kept = false;
    let mut i: usize = 0;
    while i < parts.len()
        invariant
            i <= parts@.len(),
            all == parts_of(parts@),
            open == strings_of(open_call_ids@),
            want == last_open_call(all, open),
            match keep {
                Some(c) => want == Some(c@),
                None => want is None,
            },
            (parts_of(out@), kept) == collapse_prefix(all, i as nat, open, want),
        decreases parts@.len() - i,
    {
        assert(all[i as int] == parts@[i as int]@);
        let ghost before = parts_of(out@);
        match open_card_call(&parts[i], open_call_ids) {
            Some(c) => {
                let hit = match keep {
                    Some(k) => same(k, c),
                    None => false,
                };
                if hit && !kept {
                    let p = parts[i].copy();
                    out.push(p);
                    assert(parts_of(out@) =~= before.push(all[i as int]));
                    kept = true;
                }
            },
            None => {
                let p = parts[i].copy();
                out.push(p);
                assert(parts_of(out@) =~= before.push(all[i as int]));
            },
        }
        i = i + 1;
    }
    out
}

proof fn lemma_collapse_prefix_cards(
    parts: Seq<PartV>,
    n: nat,
    open: Seq<Seq<char>>,
    keep: Option<Seq<char>>,
)
    requires
        n <= parts.len(),
    ensures
        ({
            let (out, kept) = collapse_prefix(parts, n, open, keep);
            &&& !kept ==> forall|a: int| 0 <= a < out.len() ==> !is_open_card(#[trigger] out[a], open)
            &&& forall|a: int, b: int|
                0 <= a < b < out.len() ==> !(is_open_card(#[trigger] out[a], open) && is_open_card(
                    #[trigger] out[b],
                    open,
                ))
        }),
    decreases n,
{
    if n > 0 {
        lemma_collapse_prefix_cards(parts, (n - 1) as nat, open, keep);
        let (out0, kept0) = collapse_prefix(parts, (n - 1) as nat, open, keep);
        let (out, kept) = collapse_prefix(parts, n, open, keep);
        assert forall|a: int| 0 <= a < out0.len() implies out[a] == out0[a] by {}
    }
}

/// However many permission cards wait, a collapsed turn shows at most one
/// of them.
pub proof fn lemma_at_most_one_open_card(parts: Seq<PartV>, open: Seq<Seq<char>>)
    ensures
        forall|a: int, b: int|
            0 <= a < b < collapsed(parts, open).len() ==> !(is_open_card(
                #[trigger] collapsed(parts, open)[a],
                open,
            ) && is_open_card(#[trigger] collapsed(parts, open)[b], open)),
{
    lemma_collapse_prefix_cards(parts, parts.len(), open, last_open_call(parts, open));
}


/// A schema that names only a type.
pub open spec fn of_type(t: Seq<char>) -> JsonV {
    JsonV::Object(seq![("type"@, JsonV::Str(t))])
}

/// An object schema: its properties, then the names it requires.
pub open spec fn object_schema(properties: Seq<(Seq<char>, JsonV)>, required: Seq<Seq<char>>) -> JsonV {
    JsonV::Object(
        seq![
            ("properties"@, JsonV::Object(properties)),
            ("required"@, JsonV::Array(required.map_values(|n: Seq<char>| JsonV::Str(n)))),
            ("type"@, JsonV::Str("object"@)),
        ],
    )
}

/// An array schema over items of one schema.
pub open spec fn array_schema(items: JsonV) -> JsonV {
    JsonV::Object(seq![("items"@, items), ("type"@, JsonV::Str("array"@))])
}

/// A frontend tool: its description, name and parameter schema.
pub open spec fn tool_def(name: Seq<char>, description: Seq<char>, parameters: JsonV) -> JsonV {
    JsonV::Object(
        seq![
            ("description"@, JsonV::Str(description)),
            ("name"@, JsonV::Str(name)),
            ("parameters"@, parameters),
        ],
    )
}

pub open spec fn bar_chart_tool() -> JsonV {
    tool_def(
        "bar_chart"@,
        "Render an interactive bar chart in the chat instead of markdown or ASCII."@,
        object_schema(
            seq![
                (
                    "bars"@,
                    array_schema(
                        object_schema(
                            seq![("label"@, of_type("string"@)), ("value"@, of_type("number"@))],
                            seq!["label"@, "value"@],
                        ),
                    ),
                ),
                ("title"@, of_type("string"@)),
            ],
            seq!["bars"@],
        ),
    )
}

pub open spec fn form_tool() -> JsonV {
    tool_def(
        "form"@,
        "Render an interactive choice form in the chat instead of a bullet list."@,
        object_schema(
            seq![
                (
                    "fields"@,
                    array_schema(
                        object_schema(
                            seq![
                                ("id"@, of_type("string"@)),
                                ("label"@, of_type("string"@)),
                                ("options"@, array_schema(of_type("string"@))),
                            ],
                            seq!["label"@, "options"@],
                        ),
                    ),
                ),
                ("prompt"@, of_type("string"@)),
                ("submit"@, of_type("string"@)),
                ("title"@, of_type("string"@)),
            ],
            seq!["fields"@],
        ),
    )
}

fn of_type_json(t: &str) -> (r: Json)
    ensures
        r@ == of_type(t@),
{
    let mut e: Vec<(String, Json)> = Vec::new();
    e.push((owned("type"), text_json(t)));
    let r = object_of(e);
    assert(members_view(e@) =~= seq![("type"@, JsonV::Str(t@))]);
    r
}

fn names_json(names: &[&str]) -> (r: Json)
    ensures
        r@ == JsonV::Array(names@.map_values(|n: &str| JsonV::Str(n@))),
{
    let mut items: Vec<Json> = Vec::new();
    let mut i: usize = 0;
    while i < names.len()
        invariant
            i <= names@.len(),
            items_view(items@) == names@.take(i as int).map_values(|n: &str| JsonV::Str(n@)),
        decreases names@.len() - i,
    {
        let ghost before = items_view(items@);
        items.push(text_json(names[i]));
        assert(items_view(items@) =~= before.push(JsonV::Str(names@[i as int]@)));
        assert(names@.take(i + 1).map_values(|n: &str| JsonV::Str(n@)) =~= names@.take(
            i as int,
        ).map_values(|n: &str| JsonV::Str(n@)).push(JsonV::Str(names@[i as int]@)));
        i = i + 1;
    }
    assert(names@.take(i as int) =~= names@);
    array_of(items)
}

fn object_schema_json(properties: Json, required: &[&str]) -> (r: Json)
    requires
        properties@ is Object,
    ensures
        r@ == object_schema(
            properties@->Object_0,
            required@.map_values(|n: &str| n@),
        ),
{
    let mut e: Vec<(String, Json)> = Vec::new();
    let ghost pv = properties@;
    e.push((owned("properties"), properties));
    let req = names_json(required);
    let ghost rv = req@;
    e.push((owned("required"), req));
    e.push((owned("type"), text_json("object")));
    let r = object_of(e);
    assert(required@.map_values(|n: &str| n@).map_values(|n: Seq<char>| JsonV::Str(n))
        =~= required@.map_values(|n: &str| JsonV::Str(n@)));
    assert(members_view(e@) =~= seq![
        ("properties"@, pv),
        ("required"@, rv),
        ("type"@, JsonV::Str("object"@)),
    ]);
    r
}

fn array_schema_json(items: Json) -> (r: Json)
    ensures
        r@ == array_schema(items@),
{
    let ghost iv = items@;
    let mut e: Vec<(String, Json)> = Vec::new();
    e.push((owned("items"), items));
    e.push((owned("type"), text_json("array")));
    let r = object_of(e);
    assert(members_view(e@) =~= seq![("items"@, iv), ("type"@, JsonV::Str("array"@))]);
    r
}

fn tool_def_json(name: &str, description: &str, parameters: Json) -> (r: Json)
    ensures
        r@ == tool_def(name@, description@, parameters@),
{
    let ghost pv = parameters@;
    let mut e: Vec<(String, Json)> = Vec::new();
    e.push((owned("description"), text_json(description)));
    e.push((owned("name"), text_json(name)));
    e.push((owned("parameters"), parameters));
    let r = object_of(e);
    assert(members_view(e@) =~= seq![
        ("description"@, JsonV::Str(description@)),
        ("name"@, JsonV::Str(name@)),
        ("parameters"@, pv),
    ]);
    r
}

fn bar_chart_tool_json() -> (r: Json)
    ensures
        r@ == bar_chart_tool(),
{
    let mut bar: Vec<(String, Json)> = Vec::new();
    bar.push((owned("label"), of_type_json("string")));
    bar.push((owned("value"), of_type_json("number")));
    let ghost bv = members_view(bar@);
    let bar = object_of(bar);
    let mut bar_required: Vec<&str> = Vec::new();
    bar_required.push("label");
    bar_required.push("value");
    let bar = object_schema_json(bar, bar_required.as_slice());
    let bars = array_schema_json(bar);
    let ghost barsv = bars@;
    let mut props: Vec<(String, Json)> = Vec::new();
    props.push((owned("bars"), bars));
    props.push((owned("title"), of_type_json("string")));
    let ghost pv = members_view(props@);
    let props = object_of(props);
    let mut required: Vec<&str> = Vec::new();
    required.push("bars");
    let params = object_schema_json(props, required.as_slice());
    let r = tool_def_json(
        "bar_chart",
        "Render an interactive bar chart in the chat instead of markdown or ASCII.",
        params,
    );
    assert(bv =~= seq![("label"@, of_type("string"@)), ("value"@, of_type("number"@))]);
    assert(bar_required@.map_values(|n: &str| n@) =~= seq!["label"@, "value"@]);
    assert(pv =~= seq![("bars"@, barsv), ("title"@, of_type("string"@))]);
    assert(required@.map_values(|n: &str| n@) =~= seq!["bars"@]);
    r
}

fn form_tool_json() -> (r: Json)
    ensures
        r@ == form_tool(),
{
    let mut field: Vec<(String, Json)> = Vec::new();
    field.push((owned("id"), of_type_json("string")));
    field.push((owned("label"), of_type_json("string")));
    field.push((owned("options"), array_schema_json(of_type_json("string"))));
    let ghost fv = members_view(field@);
    let field = object_of(field);
    let mut field_required: Vec<&str> = Vec::new();
    field_required.push("label");
    field_required.push("options");
    let field = object_schema_json(field, field_required.as_slice());
    let fields = array_schema_json(field);
    let ghost fieldsv = fields@;
    let mut props: Vec<(String, Json)> = Vec::new();
    props.push((owned("fields"), fields));
    props.push((owned("prompt"), of_type_json("string")));
    props.push((owned("submit"), of_type_json("string")));
    props.push((owned("title"), of_type_json("string")));
    let ghost pv = members_view(props@);
    let props = object_of(props);
    let mut required: Vec<&str> = Vec::new();
    required.push("fields");
    let params = object_schema_json(props, required.as_slice());
    let r = tool_def_json(
        "form",
        "Render an interactive choice form in the chat instead of a bullet list.",
        params,
    );
    assert(fv =~= seq![
        ("id"@, of_type("string"@)),
        ("label"@, of_type("string"@)),
        ("options"@, array_schema(of_type("string"@))),
    ]);
    assert(field_required@.map_values(|n: &str| n@) =~= seq!["label"@, "options"@]);
    assert(pv =~= seq![
        ("fields"@, fieldsv),
        ("prompt"@, of_type("string"@)),
        ("submit"@, of_type("string"@)),
        ("title"@, of_type("string"@)),
    ]);
    assert(required@.map_values(|n: &str| n@) =~= seq!["fields"@]);
    r
}

/// The frontend tools a turn offers the agent: a bar chart and a choice
/// form, each with its parameter schema.
pub fn agui_tools() -> (r: Vec<Json>)
    ensures
        items_view(r@) == seq![bar_chart_tool(), form_tool()],
{
    let mut out: Vec<Json> = Vec::new();
    out.push(bar_chart_tool_json());
    out.push(form_tool_json());
    assert(items_view(out@) =~= seq![bar_chart_tool(), form_tool()]);
    out
}


proof fn lemma_kept_drops_all(parts: Seq<PartV>, rule: Discard)
    ensures
        forall|i: int| 0 <= i < kept(parts, rule).len() ==> !dropped(#[trigger] kept(parts, rule)[i], rule),
    decreases parts.len(),
{
    if parts.len() > 0 {
        let rest = kept(parts.drop_last(), rule);
        lemma_kept_drops_all(parts.drop_last(), rule);
        if !dropped(parts.last(), rule) {
            let k = rest.push(parts.last());
            assert forall|i: int| 0 <= i < k.len() implies !dropped(#[trigger] k[i], rule) by {
                if i < rest.len() {
                    assert(k[i] == rest[i]);
                }
            }
        }
    }
}

proof fn lemma_other_tools_drops_all(tools: Seq<(Seq<char>, Seq<char>)>, name: Seq<char>)
    ensures
        forall|i: int|
            0 <= i < other_tools(tools, name).len() ==> (#[trigger] other_tools(tools, name)[i]).1
                != name,
    decreases tools.len(),
{
    if tools.len() > 0 {
        let rest = other_tools(tools.drop_last(), name);
        lemma_other_tools_drops_all(tools.drop_last(), name);
        if tools.last().1 != name {
            let k = rest.push(tools.last());
            assert forall|i: int| 0 <= i < k.len() implies (#[trigger] k[i]).1 != name by {
                if i < rest.len() {
                    assert(k[i] == rest[i]);
                }
            }
        }
    }
}

/// A permission card for a call replaces any card the call had: after it
/// the turn holds that call's card once, last.
pub proof fn lemma_one_card_per_call(s: AssemblerV, event: JsonV)
    requires
        approval_of(event) is Some,
    ensures
        ({
            let t = with_approval(s, event).committed;
            let call = approval_of(event)->0.call_id;
            &&& t.len() > 0
            &&& t.last() matches PartV::Approval(a) && a.call_id == call
            &&& forall|i: int|
                0 <= i < t.len() - 1 ==> !(#[trigger] t[i] matches PartV::Approval(a) && a.call_id
                    == call)
        }),
{
    let a = approval_of(event)->0;
    lemma_kept_drops_all(s.committed, Discard::Approvals(a.call_id));
    let k = kept(s.committed, Discard::Approvals(a.call_id));
    let t = with_approval(s, event).committed;
    assert forall|i: int| 0 <= i < t.len() - 1 implies !(#[trigger] t[i] matches PartV::Approval(x)
        && x.call_id == a.call_id) by {
        assert(t[i] == k[i]);
        assert(!dropped(k[i], Discard::Approvals(a.call_id)));
    }
}

/// A result's screenshot replaces any the call had: one picture per call.
pub proof fn lemma_one_shot_per_call(s: AssemblerV, event: JsonV, img: JsonV, shot: ShotV)
    requires
        or_else(str_at(event, "toolCallId"@), Seq::empty()).len() > 0,
        get(event, "image"@) == Some(img),
        screenshot_of(
            or_else(str_at(event, "toolCallId"@), Seq::empty()),
            or_else(str_at(event, "content"@), Seq::empty()),
            img,
        ) == Some(shot),
    ensures
        ({
            let t = with_result(s, event).committed;
            let call = or_else(str_at(event, "toolCallId"@), Seq::empty());
            &&& t.len() > 0
            &&& t.last() == PartV::Screenshot(shot)
            &&& forall|i: int|
                0 <= i < t.len() - 1 ==> !(#[trigger] t[i] matches PartV::Screenshot(x)
                    && x.call_id == call)
        }),
{
    let call = or_else(str_at(event, "toolCallId"@), Seq::empty());
    let content = or_else(str_at(event, "content"@), Seq::empty());
    let ok = match get(event, "ok"@) {
        Some(x) => crate::json::as_bool(x),
        None => None,
    };
    let c1 = match approval_at(s.committed, call, 0) {
        Some(i) => s.committed.update(
            i as int,
            PartV::Approval(ApprovalV { output: Some(content), ok, ..s.committed[i as int]->Approval_0 }),
        ),
        None => s.committed,
    };
    lemma_kept_drops_all(c1, Discard::Shots(call));
    let k = kept(c1, Discard::Shots(call));
    let t = with_result(s, event).committed;
    assert(t == k.push(PartV::Screenshot(shot)));
    assert forall|i: int| 0 <= i < t.len() - 1 implies !(#[trigger] t[i] matches PartV::Screenshot(x)
        && x.call_id == call) by {
        assert(t[i] == k[i]);
        assert(!dropped(k[i], Discard::Shots(call)));
    }
}

/// A widget from a tool replaces the widget of its kind: the turn shows one
/// chart and one choice form at most, the newest; and the painted tools name
/// each tool once.
pub proof fn lemma_one_widget_of_a_kind(s: AssemblerV, u: UiV, id: Seq<char>, name: Seq<char>)
    ensures
        ({
            let t = with_ui(s, u, id, name);
            let chart = u is BarChart;
            &&& t.committed.last() == PartV::Ui(u)
            &&& forall|i: int|
                0 <= i < t.committed.len() - 1 ==> !dropped(
                    #[trigger] t.committed[i],
                    Discard::Widgets(chart),
                )
            &&& t.completed.last() == (id, name)
            &&& forall|i: int|
                0 <= i < t.completed.len() - 1 ==> (#[trigger] t.completed[i]).1 != name
        }),
{
    let chart = u is BarChart;
    lemma_kept_drops_all(s.committed, Discard::Widgets(chart));
    lemma_other_tools_drops_all(s.completed, name);
    let t = with_ui(s, u, id, name);
    let k = kept(s.committed, Discard::Widgets(chart));
    let o = other_tools(s.completed, name);
    assert forall|i: int| 0 <= i < t.committed.len() - 1 implies !dropped(
        #[trigger] t.committed[i],
        Discard::Widgets(chart),
    ) by {
        assert(t.committed[i] == k[i]);
    }
    assert forall|i: int| 0 <= i < t.completed.len() - 1 implies (#[trigger] t.completed[i]).1
        != name by {
        assert(t.completed[i] == o[i]);
    }
}

} // verus!
