//! The signed-in session as the client holds it: the cookies its jar hands
//! back, what the access token says about its own expiry, and when to trade
//! the refresh cookie for a new one. The jar, the clock and the round trips
//! are the app's; these are the readings and the decisions.

use vstd::prelude::*;

use crate::client::needs_refresh;
use crate::error::{Failure, OpenGrokError};
use crate::json::{as_i64, get, parse_json, parsed_json, Json, JsonV};
use crate::text::{
    chars_of, has_prefix, owned, push_str, same, starts_with, string_of, trim, trimmed,
};

verus! {

/// The cookie that carries the access token.
pub const ACCESS_COOKIE: &'static str = "og_access";

/// The cookie that can be traded for a new access token.
pub const REFRESH_COOKIE: &'static str = "og_refresh";

/// What a signed-out failure says when the server said nothing.
pub const SIGNED_OUT_MESSAGE: &'static str = "OpenGrok does not know who this app is signed in as.";

/// The first `c` at or after `i`, or the length when there is none.
pub open spec fn next_char(s: Seq<char>, c: char, i: nat) -> nat
    decreases s.len() - i,
{
    if i >= s.len() {
        s.len()
    } else if s[i as int] == c {
        i
    } else {
        next_char(s, c, i + 1)
    }
}

proof fn lemma_next_char(s: Seq<char>, c: char, i: nat)
    requires
        i <= s.len(),
    ensures
        i <= next_char(s, c, i) <= s.len(),
        next_char(s, c, i) < s.len() ==> s[next_char(s, c, i) as int] == c,
        forall|k: int| i <= k < next_char(s, c, i) ==> s[k] != c,
    decreases s.len() - i,
{
    if i < s.len() && s[i as int] != c {
        lemma_next_char(s, c, i + 1);
    }
}

/// `s.split(c)` from `from` on: the pieces between the separators.
pub open spec fn split_from(s: Seq<char>, c: char, from: nat) -> Seq<Seq<char>>
    decreases s.len() - from,
{
    let i = next_char(s, c, from);
    if i >= s.len() || i < from {
        seq![s.subrange(from as int, s.len() as int)]
    } else {
        seq![s.subrange(from as int, i as int)] + split_from(s, c, i + 1)
    }
}

fn next_char_exec(v: &Vec<char>, c: char, i: usize) -> (r: usize)
    requires
        i <= v@.len(),
    ensures
        r == next_char(v@, c, i as nat),
{
    let mut j = i;
    while j < v.len()
        invariant
            i <= j <= v@.len(),
            next_char(v@, c, i as nat) == next_char(v@, c, j as nat),
        decreases v@.len() - j,
    {
        if v[j] == c {
            return j;
        }
        j = j + 1;
    }
    j
}

/// `s.split(c)`, each piece as its own string.
pub fn split_char(s: &str, c: char) -> (r: Vec<String>)
    ensures
        r@.map_values(|p: String| p@) == split_from(s@, c, 0),
{
    let v = chars_of(s);
    let mut out: Vec<String> = Vec::new();
    let mut from: usize = 0;
    loop
        invariant
            from <= v@.len(),
            v@ == s@,
            split_from(s@, c, 0) == out@.map_values(|p: String| p@) + split_from(s@, c, from as nat),
        decreases v@.len() - from,
    {
        let ghost before = out@.map_values(|p: String| p@);
        proof {
            lemma_next_char(v@, c, from as nat);
        }
        let i = next_char_exec(&v, c, from);
        if i >= v.len() {
            let piece = string_of(&v, from, v.len());
            out.push(piece);
            assert(out@.map_values(|p: String| p@) =~= before.push(s@.subrange(from as int, s@.len() as int)));
            return out;
        }
        let piece = string_of(&v, from, i);
        out.push(piece);
        assert(out@.map_values(|p: String| p@) =~= before.push(s@.subrange(from as int, i as int)));
        assert(split_from(s@, c, from as nat) =~= seq![s@.subrange(from as int, i as int)]
            + split_from(s@, c, (i + 1) as nat));
        from = i + 1;
    }
}

/// One `name=value` piece of a `Cookie` header, trimmed, split at its first
/// `=`: the name and the value, each trimmed.
pub open spec fn cookie_split(piece: Seq<char>) -> Option<(Seq<char>, Seq<char>)> {
    let p = trim(piece);
    let i = next_char(p, '=', 0);
    if i >= p.len() {
        None
    } else {
        Some((trim(p.take(i as int)), trim(p.skip(i + 1 as int))))
    }
}

/// The cookies a header's pieces hold, each with a name.
pub open spec fn cookies_in(pieces: Seq<Seq<char>>) -> Seq<(Seq<char>, Seq<char>)>
    decreases pieces.len(),
{
    if pieces.len() == 0 {
        Seq::empty()
    } else {
        let rest = cookies_in(pieces.drop_last());
        match cookie_split(pieces.last()) {
            Some(pair) => if pair.0.len() > 0 {
                rest.push(pair)
            } else {
                rest
            },
            None => rest,
        }
    }
}

/// The first piece naming this cookie, from `i` on: its value.
pub open spec fn cookie_value_from(pieces: Seq<Seq<char>>, name: Seq<char>, i: nat) -> Option<Seq<char>>
    decreases pieces.len() - i,
{
    if i >= pieces.len() {
        None
    } else {
        match cookie_split(pieces[i as int]) {
            Some(pair) if pair.0 == name => Some(pair.1),
            _ => cookie_value_from(pieces, name, i + 1),
        }
    }
}

fn split_cookie(piece: &str) -> (r: Option<(String, String)>)
    ensures
        match r {
            Some(pair) => cookie_split(piece@) == Some((pair.0@, pair.1@)),
            None => cookie_split(piece@) is None,
        },
{
    let p = trimmed(piece);
    let v = chars_of(p.as_str());
    proof {
        lemma_next_char(v@, '=', 0);
    }
    let i = next_char_exec(&v, '=', 0);
    if i >= v.len() {
        return None;
    }
    let name = string_of(&v, 0, i);
    assert(name@ =~= v@.take(i as int));
    let value = string_of(&v, i + 1, v.len());
    assert(value@ =~= v@.skip(i + 1));
    Some((trimmed(name.as_str()), trimmed(value.as_str())))
}

pub open spec fn pairs_view(v: Seq<(String, String)>) -> Seq<(Seq<char>, Seq<char>)> {
    v.map_values(|p: (String, String)| (p.0@, p.1@))
}

/// The cookies a `Cookie` header carries, in order, each with a name.
pub fn cookie_pairs(raw: &str) -> (r: Vec<(String, String)>)
    ensures
        pairs_view(r@) == cookies_in(split_from(raw@, ';', 0)),
{
    let pieces = split_char(raw, ';');
    let ghost all = pieces@.map_values(|p: String| p@);
    let mut out: Vec<(String, String)> = Vec::new();
    let mut i: usize = 0;
    while i < pieces.len()
        invariant
            i <= pieces@.len(),
            all == pieces@.map_values(|p: String| p@),
            all == split_from(raw@, ';', 0),
            pairs_view(out@) == cookies_in(all.take(i as int)),
        decreases pieces@.len() - i,
    {
        let ghost before = pairs_view(out@);
        proof {
            let pre = all.take(i + 1);
            assert(pre.drop_last() =~= all.take(i as int));
            assert(pre.last() == pieces@[i as int]@);
        }
        if let Some(pair) = split_cookie(pieces[i].as_str()) {
            if pair.0.as_str().unicode_len() > 0 {
                let ghost pv = (pair.0@, pair.1@);
                out.push(pair);
                assert(pairs_view(out@) =~= before.push(pv));
            }
        }
        i = i + 1;
    }
    assert(all.take(i as int) =~= all);
    out
}

/// One cookie out of a `Cookie` header, by name.
pub fn cookie_value(raw: &str, name: &str) -> (r: Option<String>)
    ensures
        match r {
            Some(v) => cookie_value_from(split_from(raw@, ';', 0), name@, 0) == Some(v@),
            None => cookie_value_from(split_from(raw@, ';', 0), name@, 0) is None,
        },
{
    let pieces = split_char(raw, ';');
    let ghost all = pieces@.map_values(|p: String| p@);
    let mut i: usize = 0;
    while i < pieces.len()
        invariant
            i <= pieces@.len(),
            all == pieces@.map_values(|p: String| p@),
            all == split_from(raw@, ';', 0),
            cookie_value_from(all, name@, 0) == cookie_value_from(all, name@, i as nat),
        decreases pieces@.len() - i,
    {
        assert(all[i as int] == pieces@[i as int]@);
        if let Some(pair) = split_cookie(pieces[i].as_str()) {
            if same(pair.0.as_str(), name) {
                return Some(pair.1);
            }
        }
        i = i + 1;
    }
    None
}

/// The header line that puts a cookie back in the jar.
pub fn cookie_line(name: &str, value: &str) -> (r: String)
    ensures
        r@ == name@ + "="@ + value@ + "; Path=/"@,
{
    let mut out = owned(name);
    push_str(&mut out, "=");
    push_str(&mut out, value);
    push_str(&mut out, "; Path=/");
    out
}

/// A text with every `/` at its end taken off.
pub open spec fn without_trailing_slashes(s: Seq<char>) -> Seq<char>
    decreases s.len(),
{
    if s.len() > 0 && s.last() == '/' {
        without_trailing_slashes(s.drop_last())
    } else {
        s
    }
}

fn trim_trailing_slashes(s: &str) -> (r: String)
    ensures
        r@ == without_trailing_slashes(s@),
{
    let v = chars_of(s);
    let mut n = v.len();
    assert(v@.take(n as int) =~= v@);
    while n > 0 && v[n - 1] == '/'
        invariant
            n <= v@.len(),
            v@ == s@,
            without_trailing_slashes(s@) == without_trailing_slashes(v@.take(n as int)),
        decreases n,
    {
        assert(v@.take(n as int).drop_last() =~= v@.take(n - 1));
        n = n - 1;
    }
    let r = string_of(&v, 0, n);
    assert(r@ =~= v@.take(n as int));
    r
}

/// A saved session is restored only onto the server it was saved for, and
/// only when it kept some cookies.
pub fn session_restores(stored_base: &str, base: &str, cookie_count: usize) -> (r: bool)
    ensures
        r == (without_trailing_slashes(stored_base@) == without_trailing_slashes(base@)
            && cookie_count > 0),
{
    let a = trim_trailing_slashes(stored_base);
    let b = trim_trailing_slashes(base);
    same(a.as_str(), b.as_str()) && cookie_count > 0
}

/// What URL-safe base64 without padding makes of a text: its bytes, or
/// nothing when the text is not that.
pub uninterp spec fn base64_url_decoded(text: Seq<char>) -> Option<Seq<u8>>;

/// `base64::engine::general_purpose::URL_SAFE_NO_PAD.decode`: the bytes a
/// text spells in the URL-safe alphabet without padding, or nothing. What
/// it makes of a text is named, not written out: the alphabet and the rules
/// on trailing bits are the crate's.
#[verifier::external_body]
fn decode_base64_url(text: &str) -> (r: Option<Vec<u8>>)
    ensures
        match r {
            Some(bytes) => base64_url_decoded(text@) == Some(bytes@),
            None => base64_url_decoded(text@) is None,
        },
{
    base64::Engine::decode(&base64::engine::general_purpose::URL_SAFE_NO_PAD, text).ok()
}

/// What `std::str::from_utf8` makes of bytes: their text, or nothing when
/// they are not UTF-8.
pub uninterp spec fn utf8_text(bytes: Seq<u8>) -> Option<Seq<char>>;

/// `std::str::from_utf8`: the text the bytes encode, or nothing when they
/// are not valid UTF-8. Named rather than spelled out: the encoding's rules
/// are std's.
#[verifier::external_body]
fn text_of_utf8(bytes: &[u8]) -> (r: Option<String>)
    ensures
        match r {
            Some(t) => utf8_text(bytes@) == Some(t@),
            None => utf8_text(bytes@) is None,
        },
{
    match std::str::from_utf8(bytes) {
        Ok(t) => Some(t.to_string()),
        Err(_) => None,
    }
}

/// The `exp` a JWT's claims carry: the second dot-separated piece, decoded
/// and read as JSON. Not verified: the server verifies; this only decides
/// whether to refresh first.
pub open spec fn token_exp(token: Seq<char>) -> Option<i64> {
    let pieces = split_from(token, '.', 0);
    if pieces.len() < 2 {
        None
    } else {
        match base64_url_decoded(pieces[1]) {
            None => None,
            Some(bytes) => match utf8_text(bytes) {
                None => None,
                Some(text) => match parsed_json(text) {
                    None => None,
                    Some(claims) => match get(claims, "exp"@) {
                        Some(x) => as_i64(x),
                        None => None,
                    },
                },
            },
        }
    }
}

/// Seconds until the access token expires, when its `exp` can be read and
/// the difference fits.
pub open spec fn seconds_left_of(token: Seq<char>, now_secs: i64) -> Option<i64> {
    match token_exp(token) {
        Some(exp) => if i64::MIN <= exp - now_secs <= i64::MAX {
            Some((exp - now_secs) as i64)
        } else {
            None
        },
        None => None,
    }
}

/// Seconds until the access token expires, read from its `exp` against the
/// clock the app read.
pub fn token_seconds_left(token: &str, now_secs: i64) -> (r: Option<i64>)
    ensures
        r == seconds_left_of(token@, now_secs),
{
    let pieces = split_char(token, '.');
    proof {
        assert(pieces@.map_values(|p: String| p@).len() == pieces@.len());
    }
    if pieces.len() < 2 {
        return None;
    }
    assert(pieces@.map_values(|p: String| p@)[1] == pieces@[1]@);
    let bytes = match decode_base64_url(pieces[1].as_str()) {
        Some(b) => b,
        None => {
            return None;
        },
    };
    let text = match text_of_utf8(bytes.as_slice()) {
        Some(t) => t,
        None => {
            return None;
        },
    };
    let claims = match parse_json(text.as_str()) {
        Some(c) => c,
        None => {
            return None;
        },
    };
    let exp = match claims.get("exp") {
        Some(x) => match x.as_i64() {
            Some(e) => e,
            None => {
                return None;
            },
        },
        None => {
            return None;
        },
    };
    let left: i128 = (exp as i128) - (now_secs as i128);
    if left < -9223372036854775808i128 || left > 9223372036854775807i128 {
        None
    } else {
        Some(left as i64)
    }
}

/// Before a request: refresh first when it is not an auth route, there is
/// something in the jar to trade, and the token is near its end or cannot
/// be read.
pub fn refresh_first(path: &str, has_session: bool, seconds_left: Option<i64>) -> (r: bool)
    ensures
        r == (!has_prefix(path@, "/auth/"@) && has_session && match seconds_left {
            Some(left) => left < crate::client::REFRESH_SLACK_SECS,
            None => true,
        }),
{
    !starts_with(path, "/auth/") && has_session && needs_refresh(seconds_left)
}

/// A `401` on a route other than an auth route is a token that died between
/// checks: refresh once and send again. On `/auth/login` it is a wrong
/// password, and it stands.
pub fn retry_after_unauthorized(status: u16, path: &str) -> (r: bool)
    ensures
        r == (status == 401 && !has_prefix(path@, "/auth/"@)),
{
    status == 401 && !starts_with(path, "/auth/")
}

/// A `401` read as the session being gone, with the server's own sentence
/// when it said one.
pub fn signed_out_error(message: String) -> (r: OpenGrokError)
    ensures
        r.code() == Some(401u16),
        r.kind() == Failure::SignedOut,
        r.words() == (if trim(message@).len() == 0 {
            SIGNED_OUT_MESSAGE@
        } else {
            message@
        }),
{
    if trimmed(message.as_str()).as_str().unicode_len() == 0 {
        OpenGrokError::signed_out(owned(SIGNED_OUT_MESSAGE))
    } else {
        OpenGrokError::signed_out(message)
    }
}

/// How a refresh goes about it.
#[derive(Debug, Clone, Copy, PartialEq, Eq, Structural)]
pub enum RefreshPlan {
    /// A refresh is in flight: wait on it rather than start a second.
    Join,
    /// The jar already holds a fresh access token.
    Skip,
    /// Trade the refresh cookie now.
    Start,
}

/// Single flight: a running refresh is joined; without one, a fresh token
/// makes a refresh needless unless the server has already refused it.
pub fn refresh_plan(in_flight: bool, force: bool, fresh_access: bool) -> (r: RefreshPlan)
    ensures
        r == (if in_flight {
            RefreshPlan::Join
        } else if !force && fresh_access {
            RefreshPlan::Skip
        } else {
            RefreshPlan::Start
        }),
{
    if in_flight {
        RefreshPlan::Join
    } else if !force && fresh_access {
        RefreshPlan::Skip
    } else {
        RefreshPlan::Start
    }
}

/// What a refused refresh comes to.
#[derive(Debug, Clone, Copy, PartialEq, Eq, Structural)]
pub enum RefreshRefused {
    /// A refresh beside this one already wrote a new pair: keep it.
    AlreadyFresh,
    /// The refresh token is gone: forget the saved session, and fail.
    ForgetSession,
    /// Fail, and keep what is saved.
    Fail,
}

/// A `401` from `/auth/refresh` with a fresh token in the jar is another
/// refresh having won; without one the saved session is worthless. Any other
/// refusal leaves the session be.
pub fn refresh_refused(unauthorized: bool, fresh_access: bool) -> (r: RefreshRefused)
    ensures
        r == (if !unauthorized {
            RefreshRefused::Fail
        } else if fresh_access {
            RefreshRefused::AlreadyFresh
        } else {
            RefreshRefused::ForgetSession
        }),
{
    if !unauthorized {
        RefreshRefused::Fail
    } else if fresh_access {
        RefreshRefused::AlreadyFresh
    } else {
        RefreshRefused::ForgetSession
    }
}

} // verus!
