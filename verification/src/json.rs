//! A JSON value as the app reads it: the AG-UI frames, tool arguments and
//! HTTP bodies that the logic looks into. Objects keep their members in
//! order, each key once. Reading and writing JSON text is serde_json's.

use vstd::prelude::*;

use crate::text::{
    decimal, opt_seq, owned, push_decimal, push_signed_decimal, same, signed_decimal, trim,
    trimmed,
};

verus! {

/// A JSON number, in the three readings the app uses: as an unsigned
/// integer, as a signed one, and as its text.
#[derive(Debug)]
pub struct JsonNumber {
    /// The number, when it is a whole number that fits `u64`.
    pub unsigned: Option<u64>,
    /// The number, when it is a whole number that fits `i64`.
    pub signed: Option<i64>,
    /// The number as JSON writes it.
    pub text: String,
}

/// A JSON value.
#[derive(Debug)]
pub enum Json {
    Null,
    Bool(bool),
    Number(JsonNumber),
    Str(String),
    Array(Vec<Json>),
    Object(Vec<(String, Json)>),
}

/// The mathematical JSON value a [`Json`] stands for.
pub enum JsonV {
    Null,
    Bool(bool),
    Number { unsigned: Option<u64>, signed: Option<i64>, text: Seq<char> },
    Str(Seq<char>),
    Array(Seq<JsonV>),
    Object(Seq<(Seq<char>, JsonV)>),
}

pub open spec fn json_view(j: Json) -> JsonV
    decreases j,
{
    match j {
        Json::Null => JsonV::Null,
        Json::Bool(b) => JsonV::Bool(b),
        Json::Number(n) => JsonV::Number { unsigned: n.unsigned, signed: n.signed, text: n.text@ },
        Json::Str(s) => JsonV::Str(s@),
        Json::Array(items) => JsonV::Array(
            Seq::new(
                items@.len(),
                |i: int|
                    if 0 <= i < items@.len() {
                        json_view(items@[i])
                    } else {
                        JsonV::Null
                    },
            ),
        ),
        Json::Object(e) => JsonV::Object(
            Seq::new(
                e@.len(),
                |i: int|
                    if 0 <= i < e@.len() {
                        (e@[i].0@, json_view(e@[i].1))
                    } else {
                        (Seq::empty(), JsonV::Null)
                    },
            ),
        ),
    }
}

impl View for Json {
    type V = JsonV;

    open spec fn view(&self) -> JsonV {
        json_view(*self)
    }
}

/// The first member of an object named `key`.
pub open spec fn member(entries: Seq<(Seq<char>, JsonV)>, key: Seq<char>) -> Option<JsonV>
    decreases entries.len(),
{
    if entries.len() == 0 {
        None
    } else if entries[0].0 == key {
        Some(entries[0].1)
    } else {
        member(entries.drop_first(), key)
    }
}

/// `value.get(key)`: the member of an object, or nothing for any other value.
pub open spec fn get(value: JsonV, key: Seq<char>) -> Option<JsonV> {
    match value {
        JsonV::Object(entries) => member(entries, key),
        _ => None,
    }
}

/// `value.as_str()`.
pub open spec fn as_str(value: JsonV) -> Option<Seq<char>> {
    match value {
        JsonV::Str(s) => Some(s),
        _ => None,
    }
}

/// `value.as_bool()`.
pub open spec fn as_bool(value: JsonV) -> Option<bool> {
    match value {
        JsonV::Bool(b) => Some(b),
        _ => None,
    }
}

/// `value.as_u64()`.
pub open spec fn as_u64(value: JsonV) -> Option<u64> {
    match value {
        JsonV::Number { unsigned, .. } => unsigned,
        _ => None,
    }
}

/// `value.as_i64()`.
pub open spec fn as_i64(value: JsonV) -> Option<i64> {
    match value {
        JsonV::Number { signed, .. } => signed,
        _ => None,
    }
}

/// The string at `key`, as sent.
pub open spec fn str_at(value: JsonV, key: Seq<char>) -> Option<Seq<char>> {
    match get(value, key) {
        Some(v) => as_str(v),
        None => None,
    }
}

/// The boolean at `key`.
pub open spec fn bool_at(value: JsonV, key: Seq<char>) -> Option<bool> {
    match get(value, key) {
        Some(v) => as_bool(v),
        None => None,
    }
}

/// A string trimmed, when anything is left of it.
pub open spec fn nonblank(s: Seq<char>) -> Option<Seq<char>> {
    if trim(s).len() > 0 {
        Some(trim(s))
    } else {
        None
    }
}

/// The string at `key`, trimmed, when anything is left of it.
pub open spec fn text_at(value: JsonV, key: Seq<char>) -> Option<Seq<char>> {
    match str_at(value, key) {
        Some(s) => nonblank(s),
        None => None,
    }
}

/// The member is there at all, whatever it holds.
pub open spec fn has(value: JsonV, key: Seq<char>) -> bool {
    get(value, key) is Some
}

/// The value is an object with no members.
pub open spec fn is_empty_object(value: JsonV) -> bool {
    value matches JsonV::Object(entries) && entries.len() == 0
}

/// The view of an optional reference.
pub open spec fn opt_view(r: Option<&Json>) -> Option<JsonV> {
    match r {
        Some(v) => Some(v@),
        None => None,
    }
}

impl Json {
    pub fn get<'a>(&'a self, key: &str) -> (r: Option<&'a Json>)
        ensures
            opt_view(r) == get(self@, key@),
    {
        match self {
            Json::Object(entries) => {
                let ghost es = self@->Object_0;
                let mut i: usize = 0;
                assert(es.skip(0) =~= es);
                while i < entries.len()
                    invariant
                        *self == Json::Object(*entries),
                        es == self@->Object_0,
                        es.len() == entries@.len(),
                        forall|k: int|
                            0 <= k < es.len() ==> #[trigger] es[k] == (
                                entries@[k].0@,
                                entries@[k].1@,
                            ),
                        i <= entries@.len(),
                        member(es, key@) == member(es.skip(i as int), key@),
                    decreases entries@.len() - i,
                {
                    proof {
                        let rest = es.skip(i as int);
                        assert(rest[0] == es[i as int]);
                        assert(rest.drop_first() =~= es.skip(i + 1));
                    }
                    if same(entries[i].0.as_str(), key) {
                        assert(es[i as int] == (entries@[i as int].0@, entries@[i as int].1@));
                        return Some(&entries[i].1);
                    }
                    i = i + 1;
                }
                assert(es.skip(i as int) =~= Seq::<(Seq<char>, JsonV)>::empty());
                None
            },
            _ => None,
        }
    }

    pub fn as_str(&self) -> (r: Option<&str>)
        ensures
            match r {
                Some(s) => as_str(self@) == Some(s@),
                None => as_str(self@) is None,
            },
    {
        match self {
            Json::Str(s) => Some(s.as_str()),
            _ => None,
        }
    }

    pub fn as_bool(&self) -> (r: Option<bool>)
        ensures
            r == as_bool(self@),
    {
        match self {
            Json::Bool(b) => Some(*b),
            _ => None,
        }
    }

    pub fn as_u64(&self) -> (r: Option<u64>)
        ensures
            r == as_u64(self@),
    {
        match self {
            Json::Number(n) => n.unsigned,
            _ => None,
        }
    }

    pub fn as_i64(&self) -> (r: Option<i64>)
        ensures
            r == as_i64(self@),
    {
        match self {
            Json::Number(n) => n.signed,
            _ => None,
        }
    }

    pub fn as_array(&self) -> (r: Option<&Vec<Json>>)
        ensures
            match r {
                Some(items) => self@ is Array && self@->Array_0.len() == items@.len() && (forall|
                    k: int,
                | 0 <= k < items@.len() ==> #[trigger] self@->Array_0[k] == items@[k]@),
                None => !(self@ is Array),
            },
    {
        match self {
            Json::Array(items) => Some(items),
            _ => None,
        }
    }

    pub fn is_null(&self) -> (r: bool)
        ensures
            r == (self@ is Null),
    {
        match self {
            Json::Null => true,
            _ => false,
        }
    }

    pub fn is_empty_object(&self) -> (r: bool)
        ensures
            r == is_empty_object(self@),
    {
        match self {
            Json::Object(entries) => entries.len() == 0,
            _ => false,
        }
    }

    /// The string at `key`, as sent.
    pub fn str_at(&self, key: &str) -> (r: Option<&str>)
        ensures
            match r {
                Some(s) => str_at(self@, key@) == Some(s@),
                None => str_at(self@, key@) is None,
            },
    {
        match self.get(key) {
            Some(v) => v.as_str(),
            None => None,
        }
    }

    /// The boolean at `key`.
    pub fn bool_at(&self, key: &str) -> (r: Option<bool>)
        ensures
            r == bool_at(self@, key@),
    {
        match self.get(key) {
            Some(v) => v.as_bool(),
            None => None,
        }
    }

    /// The string at `key`, trimmed, when anything is left of it.
    pub fn text_at(&self, key: &str) -> (r: Option<String>)
        ensures
            opt_seq(r) == text_at(self@, key@),
    {
        match self.str_at(key) {
            Some(s) => nonblank_of(s),
            None => None,
        }
    }

    pub fn has(&self, key: &str) -> (r: bool)
        ensures
            r == has(self@, key@),
    {
        self.get(key).is_some()
    }
}

/// A string trimmed, when anything is left of it.
pub fn nonblank_of(s: &str) -> (r: Option<String>)
    ensures
        opt_seq(r) == nonblank(s@),
{
    let t = trimmed(s);
    if t.as_str().unicode_len() > 0 {
        Some(t)
    } else {
        None
    }
}

/// What `serde_json::Value::to_string` writes for a value: compact JSON, an
/// object's members sorted by key as serde_json's map keeps them.
pub uninterp spec fn json_text(value: JsonV) -> Seq<char>;

/// `serde_json::Value::to_string`, on the value carried over into serde_json:
/// the compact JSON text. What it writes is named, not spelled out: the
/// escapes and the number forms are serde_json's.
#[verifier::external_body]
fn written_json(value: &Json) -> (r: String)
    ensures
        r@ == json_text(value@),
{
    serde_from_json(value).to_string()
}

/// The one-for-one carrying over of a [`Json`] into a `serde_json::Value`:
/// each variant into its namesake, a number read back from its text, an
/// object's members into serde_json's map. It decides nothing.
#[verifier::external_body]
fn serde_from_json(value: &Json) -> serde_json::Value {
    match value {
        Json::Null => serde_json::Value::Null,
        Json::Bool(b) => serde_json::Value::Bool(*b),
        Json::Number(n) => serde_json::from_str(n.text.as_str()).unwrap_or(serde_json::Value::Null),
        Json::Str(s) => serde_json::Value::String(s.clone()),
        Json::Array(items) => serde_json::Value::Array(items.iter().map(serde_from_json).collect()),
        Json::Object(entries) => serde_json::Value::Object(
            entries.iter().map(|(k, v)| (k.clone(), serde_from_json(v))).collect(),
        ),
    }
}

/// The value as compact JSON, the way `Value::to_string` writes it.
pub fn to_json_text(value: &Json) -> (r: String)
    ensures
        r@ == json_text(value@),
{
    written_json(value)
}

impl JsonNumber {
    pub fn copy(&self) -> (r: JsonNumber)
        ensures
            r.unsigned == self.unsigned,
            r.signed == self.signed,
            r.text@ == self.text@,
    {
        JsonNumber { unsigned: self.unsigned, signed: self.signed, text: self.text.clone() }
    }
}

impl Json {
    /// A copy of the value.
    pub fn copy(&self) -> (r: Json)
        ensures
            r@ == self@,
        decreases self,
    {
        match self {
            Json::Null => Json::Null,
            Json::Bool(b) => Json::Bool(*b),
            Json::Number(n) => Json::Number(n.copy()),
            Json::Str(s) => Json::Str(s.clone()),
            Json::Array(items) => {
                let mut out: Vec<Json> = Vec::new();
                let mut i: usize = 0;
                while i < items.len()
                    invariant
                        *self == Json::Array(*items),
                        i <= items@.len(),
                        out@.len() == i,
                        forall|k: int| 0 <= k < i ==> #[trigger] out@[k]@ == items@[k]@,
                    decreases items@.len() - i,
                {
                    assert(decreases_to!(*self => (*self)->Array_0));
                    assert(decreases_to!(*items => items@));
                    assert(decreases_to!(items@ => items@[i as int]));
                    out.push(items[i].copy());
                    i = i + 1;
                }
                let r = Json::Array(out);
                assert forall|k: int| 0 <= k < out@.len() implies r@->Array_0[k]
                    == self@->Array_0[k] by {
                    assert(r@->Array_0[k] == out@[k]@);
                    assert(self@->Array_0[k] == items@[k]@);
                }
                assert(r@->Array_0 =~= self@->Array_0);
                r
            },
            Json::Object(entries) => {
                let mut out: Vec<(String, Json)> = Vec::new();
                let mut i: usize = 0;
                while i < entries.len()
                    invariant
                        *self == Json::Object(*entries),
                        i <= entries@.len(),
                        out@.len() == i,
                        forall|k: int|
                            0 <= k < i ==> #[trigger] out@[k].0@ == entries@[k].0@ && out@[k].1@
                                == entries@[k].1@,
                    decreases entries@.len() - i,
                {
                    assert(decreases_to!(*self => (*self)->Object_0));
                    assert(decreases_to!(*entries => entries@));
                    assert(decreases_to!(entries@ => entries@[i as int]));
                    assert(decreases_to!(entries@[i as int] => entries@[i as int].1));
                    let item = (entries[i].0.clone(), entries[i].1.copy());
                    out.push(item);
                    i = i + 1;
                }
                let r = Json::Object(out);
                assert(r@->Object_0 =~= self@->Object_0);
                r
            },
        }
    }
}

impl Json {
    /// Reads a JSON text the way `serde_json::from_str` does, or nothing
    /// when it is not JSON.
    pub fn parse(text: &str) -> (r: Option<Json>)
        ensures
            match r {
                Some(j) => parsed_json(text@) == Some(j@),
                None => parsed_json(text@) is None,
            },
    {
        parse_json(text)
    }
}

/// An optional value by its view.
pub open spec fn opt_json(o: Option<Json>) -> Option<JsonV> {
    match o {
        Some(j) => Some(j@),
        None => None,
    }
}

/// The members of an object, key and value each by its view.
pub open spec fn members_view(e: Seq<(String, Json)>) -> Seq<(Seq<char>, JsonV)> {
    e.map_values(|m: (String, Json)| (m.0@, m.1@))
}

/// The items of an array, each by its view.
pub open spec fn items_view(items: Seq<Json>) -> Seq<JsonV> {
    items.map_values(|j: Json| j@)
}

/// A JSON string.
pub fn text_json(s: &str) -> (r: Json)
    ensures
        r@ == JsonV::Str(s@),
{
    Json::Str(owned(s))
}

/// An object with these members, in this order.
pub fn object_of(entries: Vec<(String, Json)>) -> (r: Json)
    ensures
        r@ == JsonV::Object(members_view(entries@)),
{
    let ghost ev = members_view(entries@);
    let r = Json::Object(entries);
    assert(r@->Object_0 =~= ev);
    r
}

/// An array of these items, in this order.
pub fn array_of(items: Vec<Json>) -> (r: Json)
    ensures
        r@ == JsonV::Array(items_view(items@)),
{
    let ghost iv = items_view(items@);
    let r = Json::Array(items);
    assert(r@->Array_0 =~= iv);
    r
}

/// A whole number as serde_json holds one that came from a `u64`.
pub open spec fn unsigned_number(n: u64) -> JsonV {
    JsonV::Number {
        unsigned: Some(n),
        signed: if n <= i64::MAX {
            Some(n as i64)
        } else {
            None
        },
        text: decimal(n as nat),
    }
}

/// A whole number as serde_json holds one that came from an `i64`.
pub open spec fn signed_number(n: i64) -> JsonV {
    JsonV::Number {
        unsigned: if n >= 0 {
            Some(n as u64)
        } else {
            None
        },
        signed: Some(n),
        text: signed_decimal(n as int),
    }
}

pub fn unsigned_json(n: u64) -> (r: Json)
    ensures
        r@ == unsigned_number(n),
{
    let mut text = String::new();
    push_decimal(&mut text, n);
    assert(text@ =~= decimal(n as nat));
    let signed = if n <= 9223372036854775807u64 {
        Some(n as i64)
    } else {
        None
    };
    Json::Number(JsonNumber { unsigned: Some(n), signed, text })
}

pub fn signed_json(n: i64) -> (r: Json)
    ensures
        r@ == signed_number(n),
{
    let mut text = String::new();
    push_signed_decimal(&mut text, n);
    assert(text@ =~= signed_decimal(n as int));
    let unsigned = if n >= 0 {
        Some(n as u64)
    } else {
        None
    };
    Json::Number(JsonNumber { unsigned, signed: Some(n), text })
}

/// `serde_json::Value`, carried through as it is.
#[verifier::external_type_specification]
#[verifier::external_body]
pub struct ExSerdeValue(serde_json::Value);

/// What `serde_json::from_str::<Value>` makes of a text, member for member in
/// this library's terms, or nothing when the text is not JSON.
pub uninterp spec fn parsed_json(raw: Seq<char>) -> Option<JsonV>;

/// `serde_json::from_str::<serde_json::Value>`, carried over one for one into
/// a [`Json`]. What it returns is a function of the text alone, and it is
/// named, not written out: the grammar is serde_json's.
#[verifier::external_body]
pub(crate) fn parse_json(raw: &str) -> (r: Option<Json>)
    ensures
        match r {
            Some(j) => parsed_json(raw@) == Some(j@),
            None => parsed_json(raw@) is None,
        },
{
    serde_json::from_str::<serde_json::Value>(raw).ok().map(|value| json_from_serde(&value))
}

/// The one-for-one carrying over of a `serde_json::Value` into a [`Json`]:
/// each variant into its namesake, a number into its three readings, an
/// object's members in serde_json's order. It decides nothing.
#[verifier::external_body]
fn json_from_serde(value: &serde_json::Value) -> Json {
    match value {
        serde_json::Value::Null => Json::Null,
        serde_json::Value::Bool(b) => Json::Bool(*b),
        serde_json::Value::Number(n) => Json::Number(
            JsonNumber { unsigned: n.as_u64(), signed: n.as_i64(), text: n.to_string() },
        ),
        serde_json::Value::String(s) => Json::Str(s.clone()),
        serde_json::Value::Array(items) => Json::Array(items.iter().map(json_from_serde).collect()),
        serde_json::Value::Object(map) => Json::Object(
            map.iter().map(|(k, v)| (k.clone(), json_from_serde(v))).collect(),
        ),
    }
}

} // verus!
