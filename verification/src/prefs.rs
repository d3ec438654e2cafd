//! The app's own preferences: one JSON object, one key per preference. A key
//! this build does not know is kept as it was, so two builds share the file.
//! Reading and writing the file is the app's; what the object says, and the
//! object a save writes, are decided here.

use vstd::prelude::*;

use crate::json::{as_bool, as_str, get, member, parse_json, parsed_json, Json, JsonV};
use crate::send_policy::{on_send_of, OnSend};
use crate::text::{or_else, owned, same, str_opt};

verus! {

/// The key of the on-send policy.
pub const ON_SEND: &'static str = "on_send";

/// The key of the Show turn timing switch.
pub const SHOW_TURN_TIMING: &'static str = "show_turn_timing";

/// The preferences a file's text holds: its object, or an empty one when
/// the file is missing, is not JSON, or is not an object.
pub open spec fn prefs_of(raw: Option<Seq<char>>) -> JsonV {
    match raw {
        Some(text) => match parsed_json(text) {
            Some(JsonV::Object(entries)) => JsonV::Object(entries),
            _ => JsonV::Object(Seq::empty()),
        },
        None => JsonV::Object(Seq::empty()),
    }
}

pub fn prefs_object(raw: Option<&str>) -> (r: Json)
    ensures
        r@ == prefs_of(str_opt(raw)),
{
    let parsed = match raw {
        Some(text) => parse_json(text),
        None => None,
    };
    match parsed {
        Some(Json::Object(entries)) => Json::Object(entries),
        _ => {
            let r = Json::Object(Vec::new());
            assert(r@->Object_0 =~= Seq::<(Seq<char>, JsonV)>::empty());
            r
        },
    }
}

/// The on-send policy the preferences hold: the word at `on_send`, read as
/// the policy reads words; Queue when there is none.
pub open spec fn on_send_in(prefs: JsonV) -> OnSend {
    match get(prefs, ON_SEND@) {
        Some(v) => match as_str(v) {
            Some(w) => on_send_of(w),
            None => OnSend::Queue,
        },
        None => OnSend::Queue,
    }
}

pub fn load_on_send_in(prefs: &Json) -> (r: OnSend)
    ensures
        r == on_send_in(prefs@),
{
    match prefs.str_at(ON_SEND) {
        Some(w) => OnSend::parse(w),
        None => OnSend::Queue,
    }
}

/// The Show turn timing switch: on only when the preferences say `true`.
pub open spec fn show_turn_timing_in(prefs: JsonV) -> bool {
    match get(prefs, SHOW_TURN_TIMING@) {
        Some(v) => or_else(as_bool(v), false),
        None => false,
    }
}

pub fn load_show_turn_timing_in(prefs: &Json) -> (r: bool)
    ensures
        r == show_turn_timing_in(prefs@),
{
    match prefs.bool_at(SHOW_TURN_TIMING) {
        Some(b) => b,
        None => false,
    }
}

/// The members with `key` set to `value`: the first member of that name
/// takes it, or it is added at the end.
pub open spec fn set_member(entries: Seq<(Seq<char>, JsonV)>, key: Seq<char>, value: JsonV) -> Seq<
    (Seq<char>, JsonV),
>
    decreases entries.len(),
{
    if entries.len() == 0 {
        seq![(key, value)]
    } else if entries[0].0 == key {
        entries.update(0, (key, value))
    } else {
        seq![entries[0]] + set_member(entries.drop_first(), key, value)
    }
}

/// The preferences with one key set, every other key as it was.
pub open spec fn with_pref(prefs: JsonV, key: Seq<char>, value: JsonV) -> JsonV {
    match prefs {
        JsonV::Object(entries) => JsonV::Object(set_member(entries, key, value)),
        _ => JsonV::Object(seq![(key, value)]),
    }
}

proof fn lemma_set_member_splits(entries: Seq<(Seq<char>, JsonV)>, key: Seq<char>, value: JsonV, i: int)
    requires
        0 <= i <= entries.len(),
        forall|k: int| 0 <= k < i ==> #[trigger] entries[k].0 != key,
        i == entries.len() || entries[i].0 == key,
    ensures
        set_member(entries, key, value) == (if i == entries.len() {
            entries.push((key, value))
        } else {
            entries.update(i, (key, value))
        }),
    decreases i,
{
    if i > 0 {
        let rest = entries.drop_first();
        assert forall|k: int| 0 <= k < i - 1 implies #[trigger] rest[k].0 != key by {
            assert(rest[k] == entries[k + 1]);
        }
        if i < entries.len() {
            assert(rest[i - 1] == entries[i]);
        }
        lemma_set_member_splits(rest, key, value, i - 1);
        if i == entries.len() {
            assert(seq![entries[0]] + rest.push((key, value)) =~= entries.push((key, value)));
        } else {
            assert(seq![entries[0]] + rest.update(i - 1, (key, value)) =~= entries.update(
                i,
                (key, value),
            ));
        }
    } else if entries.len() == 0 {
        assert(seq![(key, value)] =~= entries.push((key, value)));
    }
}

fn set_pref(prefs: Json, key: &str, value: Json) -> (r: Json)
    ensures
        r@ == with_pref(prefs@, key@, value@),
{
    let ghost v = value@;
    match prefs {
        Json::Object(mut entries) => {
            let ghost es = Json::Object(entries)@->Object_0;
            let mut i: usize = 0;
            while i < entries.len() && !same(entries[i].0.as_str(), key)
                invariant
                    i <= entries@.len(),
                    es.len() == entries@.len(),
                    forall|k: int| 0 <= k < entries@.len() ==> #[trigger] es[k] == (entries@[k].0@, entries@[k].1@),
                    forall|k: int| 0 <= k < i ==> #[trigger] es[k].0 != key@,
                decreases entries@.len() - i,
            {
                assert(es[i as int].0 != key@);
                i = i + 1;
            }
            proof {
                lemma_set_member_splits(es, key@, v, i as int);
            }
            if i < entries.len() {
                entries.set(i, (owned(key), value));
            } else {
                entries.push((owned(key), value));
            }
            let r = Json::Object(entries);
            assert(r@->Object_0 =~= set_member(es, key@, v));
            r
        },
        _ => {
            let mut entries: Vec<(String, Json)> = Vec::new();
            entries.push((owned(key), value));
            let r = Json::Object(entries);
            assert(r@->Object_0 =~= seq![(key@, v)]);
            r
        },
    }
}

/// The preferences a save of the on-send policy writes.
pub fn save_on_send_in(prefs: Json, on_send: OnSend) -> (r: Json)
    ensures
        r@ == with_pref(prefs@, ON_SEND@, JsonV::Str(crate::send_policy::on_send_word(on_send))),
{
    set_pref(prefs, ON_SEND, Json::Str(owned(on_send.as_str())))
}

/// The preferences a save of the turn-timing switch writes.
pub fn save_show_turn_timing_in(prefs: Json, on: bool) -> (r: Json)
    ensures
        r@ == with_pref(prefs@, SHOW_TURN_TIMING@, JsonV::Bool(on)),
{
    set_pref(prefs, SHOW_TURN_TIMING, Json::Bool(on))
}

proof fn lemma_member_of_set(entries: Seq<(Seq<char>, JsonV)>, key: Seq<char>, value: JsonV, other: Seq<char>)
    ensures
        member(set_member(entries, key, value), key) == Some(value),
        other != key ==> member(set_member(entries, key, value), other) == member(entries, other),
    decreases entries.len(),
{
    if entries.len() > 0 && entries[0].0 != key {
        lemma_member_of_set(entries.drop_first(), key, value, other);
        let s = set_member(entries, key, value);
        assert(s[0] == entries[0]);
        assert(s.drop_first() =~= set_member(entries.drop_first(), key, value));
        assert(member(s, key) == member(s.drop_first(), key));
        if other != key {
            if entries[0].0 == other {
                assert(member(s, other) == Some(entries[0].1));
            } else {
                assert(member(s, other) == member(s.drop_first(), other));
                assert(member(entries, other) == member(entries.drop_first(), other));
            }
        }
    } else if entries.len() > 0 {
        let s = set_member(entries, key, value);
        assert(s.drop_first() =~= entries.drop_first());
        if other != key {
            assert(member(s, other) == member(s.drop_first(), other));
            assert(member(entries, other) == member(entries.drop_first(), other));
        }
    } else {
        let s = set_member(entries, key, value);
        assert(s.drop_first() =~= Seq::<(Seq<char>, JsonV)>::empty());
        if other != key {
            assert(member(s, other) == member(s.drop_first(), other));
        }
    }
}

/// A saved preference reads back as saved, and a save keeps every other key
/// as it was.
pub proof fn lemma_a_save_reads_back(prefs: JsonV, key: Seq<char>, value: JsonV, other: Seq<char>)
    requires
        prefs is Object,
    ensures
        get(with_pref(prefs, key, value), key) == Some(value),
        other != key ==> get(with_pref(prefs, key, value), other) == get(prefs, other),
{
    lemma_member_of_set(prefs->Object_0, key, value, other);
}

/// The on-send policy reads back as saved.
pub proof fn lemma_on_send_reads_back(prefs: JsonV, on_send: OnSend)
    requires
        prefs is Object,
    ensures
        on_send_in(with_pref(prefs, ON_SEND@, JsonV::Str(crate::send_policy::on_send_word(on_send))))
            == on_send,
        show_turn_timing_in(with_pref(prefs, ON_SEND@, JsonV::Str(crate::send_policy::on_send_word(on_send))))
            == show_turn_timing_in(prefs),
{
    let w = JsonV::Str(crate::send_policy::on_send_word(on_send));
    lemma_member_of_set(prefs->Object_0, ON_SEND@, w, SHOW_TURN_TIMING@);
    crate::send_policy::lemma_on_send_round_trip(on_send);
    assert(ON_SEND@ != SHOW_TURN_TIMING@) by {
        reveal_strlit("on_send");
        reveal_strlit("show_turn_timing");
        assert(ON_SEND@.len() != SHOW_TURN_TIMING@.len());
    }
}

} // verus!
