//! The save-login offer. Its payload never carries a password: the host
//! saves from values already in the local user-form.

use vstd::prelude::*;

use crate::json::{get, str_at, text_at, Json, JsonV};
use crate::text::{either, opt_seq, or_else, owned, push_str, same};

verus! {

/// The one locked CUSTOM name: an offer to save a login.
pub const CREDENTIAL_OFFER_SAVE: &'static str = "credential.offer_save";

/// The save prompt in the transcript. No password field.
#[derive(Debug, PartialEq, Eq)]
pub struct SaveLoginSpec {
    pub form_entry_id: String,
    pub origin: String,
    pub username: String,
}

pub struct SaveLoginV {
    pub form_entry_id: Seq<char>,
    pub origin: Seq<char>,
    pub username: Seq<char>,
}

impl View for SaveLoginSpec {
    type V = SaveLoginV;

    open spec fn view(&self) -> SaveLoginV {
        SaveLoginV {
            form_entry_id: self.form_entry_id@,
            origin: self.origin@,
            username: self.username@,
        }
    }
}

/// An offer read from its CUSTOM frame: the origin and the user name (from
/// `value`, else the frame) are needed; the form id is taken where it is
/// found. Nothing else in the frame is read.
pub open spec fn offer_of(event: JsonV) -> Option<SaveLoginV> {
    let value = or_else(get(event, "value"@), JsonV::Null);
    let origin = either(text_at(value, "origin"@), text_at(event, "origin"@));
    let username = either(text_at(value, "username"@), text_at(event, "username"@));
    if or_else(str_at(event, "name"@), Seq::empty()) != CREDENTIAL_OFFER_SAVE@ {
        None
    } else if origin is None || username is None {
        None
    } else {
        Some(
            SaveLoginV {
                form_entry_id: or_else(
                    either(
                        text_at(value, "formEntryId"@),
                        either(
                            text_at(value, "form_entry_id"@),
                            either(text_at(event, "formEntryId"@), text_at(event, "entryId"@)),
                        ),
                    ),
                    Seq::empty(),
                ),
                origin: origin->0,
                username: username->0,
            },
        )
    }
}

fn text_of(value: Option<&Json>, key: &str) -> (r: Option<String>)
    ensures
        opt_seq(r) == (match value {
            Some(v) => text_at(v@, key@),
            None => text_at(JsonV::Null, key@),
        }),
{
    match value {
        Some(v) => v.text_at(key),
        None => None,
    }
}

fn first_of(a: Option<String>, b: Option<String>) -> (r: Option<String>)
    ensures
        opt_seq(r) == either(opt_seq(a), opt_seq(b)),
{
    match a {
        Some(x) => Some(x),
        None => b,
    }
}

impl SaveLoginSpec {
    pub fn from_event(event: &Json) -> (r: Option<Self>)
        ensures
            match r {
                Some(s) => offer_of(event@) == Some(s@),
                None => offer_of(event@) is None,
            },
    {
        let named = match event.str_at("name") {
            Some(n) => same(n, CREDENTIAL_OFFER_SAVE),
            None => false,
        };
        proof {
            reveal_strlit("credential.offer_save");
            assert(CREDENTIAL_OFFER_SAVE@.len() > 0);
        }
        if !named {
            return None;
        }
        let value = event.get("value");
        let origin = match first_of(text_of(value, "origin"), event.text_at("origin")) {
            Some(o) => o,
            None => {
                return None;
            },
        };
        let username = match first_of(text_of(value, "username"), event.text_at("username")) {
            Some(u) => u,
            None => {
                return None;
            },
        };
        let form_entry_id = match first_of(
            text_of(value, "formEntryId"),
            first_of(
                text_of(value, "form_entry_id"),
                first_of(event.text_at("formEntryId"), event.text_at("entryId")),
            ),
        ) {
            Some(id) => id,
            None => String::new(),
        };
        Some(SaveLoginSpec { form_entry_id, origin, username })
    }

    pub fn card_id(&self) -> (r: String)
        ensures
            r@ == "save-login-"@ + self.form_entry_id@,
    {
        save_login_card_id(self.form_entry_id.as_str())
    }
}

fn prefixed(prefix: &str, key: &str) -> (r: String)
    ensures
        r@ == prefix@ + key@,
{
    let mut s = owned(prefix);
    push_str(&mut s, key);
    s
}

pub fn save_login_card_id(form_entry_id: &str) -> (r: String)
    ensures
        r@ == "save-login-"@ + form_entry_id@,
{
    prefixed("save-login-", form_entry_id)
}

pub fn save_login_save_id(form_entry_id: &str) -> (r: String)
    ensures
        r@ == "save-login-save-"@ + form_entry_id@,
{
    prefixed("save-login-save-", form_entry_id)
}

pub fn save_login_skip_id(form_entry_id: &str) -> (r: String)
    ensures
        r@ == "save-login-skip-"@ + form_entry_id@,
{
    prefixed("save-login-skip-", form_entry_id)
}

/// The save prompt from values the host already has: only after the form was
/// submitted, when the login is not saved and no card is up, and with a form
/// id, an origin and a user name. It never takes a password.
pub fn save_login_from_local(
    form_entry_id: &str,
    origin: &str,
    username: &str,
    already_saved: bool,
    form_submitted: bool,
    already_has_card: bool,
) -> (r: Option<SaveLoginSpec>)
    ensures
        match r {
            Some(s) => !already_saved && form_submitted && !already_has_card && form_entry_id@.len()
                > 0 && origin@.len() > 0 && username@.len() > 0 && s.form_entry_id@
                == form_entry_id@ && s.origin@ == origin@ && s.username@ == username@,
            None => already_saved || !form_submitted || already_has_card || form_entry_id@.len()
                == 0 || origin@.len() == 0 || username@.len() == 0,
        },
{
    if already_saved || !form_submitted || already_has_card {
        return None;
    }
    if form_entry_id.unicode_len() == 0 || origin.unicode_len() == 0 || username.unicode_len() == 0 {
        return None;
    }
    Some(
        SaveLoginSpec {
            form_entry_id: owned(form_entry_id),
            origin: owned(origin),
            username: owned(username),
        },
    )
}

/// A journalled offer is kept only while the host still has the local secret
/// and the login is not saved yet.
pub fn keep_local_save_offer(have_pending: bool, already_saved: bool) -> (r: bool)
    ensures
        r == (have_pending && !already_saved),
{
    have_pending && !already_saved
}

} // verus!
