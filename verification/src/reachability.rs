//! Whether the app can reach what it talks to, kept as a state: one value
//! that the chrome reads, that a retry can clear, and that nothing has to
//! remember to delete.

use vstd::prelude::*;

use std::time::Duration;

use crate::clock::{duration_from_secs, duration_of_secs, millis_of, secs_of};
use crate::error::Unreachable;
use crate::text::{chars_of, push_str, string_of, trimmed, trim};

verus! {

/// Seconds the app waits before asking again the first time.
pub const FIRST_WAIT_SECS: u64 = 2;

/// The most seconds the app will ever wait between tries.
pub const MAX_WAIT_SECS: u64 = 30;

/// Doubling past this many failures cannot reach further than the cap.
pub const MAX_DOUBLINGS: u32 = 8;

/// How much of a failure's own words the indicator's second line carries.
pub const DETAIL_CHARS: usize = 160;

/// How long the app waits before asking again the first time.
pub fn first_wait() -> (d: Duration)
    ensures
        d == duration_of_secs(FIRST_WAIT_SECS),
        secs_of(d) == FIRST_WAIT_SECS,
        millis_of(d) == FIRST_WAIT_SECS * 1000,
{
    duration_from_secs(FIRST_WAIT_SECS)
}

/// The longest the app will ever wait between tries.
pub fn max_wait() -> (d: Duration)
    ensures
        d == duration_of_secs(MAX_WAIT_SECS),
        secs_of(d) == MAX_WAIT_SECS,
        millis_of(d) == MAX_WAIT_SECS * 1000,
{
    duration_from_secs(MAX_WAIT_SECS)
}

/// Two seconds doubled `n` times.
pub open spec fn doubled(n: nat) -> nat
    decreases n,
{
    if n == 0 {
        2
    } else {
        2 * doubled((n - 1) as nat)
    }
}

/// The wait after `failures` failed tries: two seconds, doubling with each
/// failure after the first, never more than thirty.
pub open spec fn wait_secs_after(failures: nat) -> nat {
    let doublings = if failures == 0 {
        0
    } else if failures - 1 > MAX_DOUBLINGS {
        MAX_DOUBLINGS as nat
    } else {
        (failures - 1) as nat
    };
    if doubled(doublings) > MAX_WAIT_SECS {
        MAX_WAIT_SECS as nat
    } else {
        doubled(doublings)
    }
}

/// `text`, cut to `limit` characters with an ellipsis when it is longer.
pub open spec fn clipped(text: Seq<char>, limit: nat) -> Seq<char> {
    if text.len() <= limit {
        text
    } else {
        text.take(limit as int).push('…')
    }
}

pub open spec fn indicator_title(what: Unreachable) -> Seq<char> {
    match what {
        Unreachable::Server => "Reconnecting to OpenGrok…"@,
        Unreachable::Gateway => "Waiting for the model gateway…"@,
    }
}

pub open spec fn indicator_lead(what: Unreachable) -> Seq<char> {
    match what {
        Unreachable::Server => "The server is not answering."@,
        Unreachable::Gateway => "OpenGrok is answering; the model gateway behind it is not."@,
    }
}

/// What the app knows of its reach: the machine out of reach, the tries that
/// failed since something last answered, and the last failure's own words.
pub struct ReachabilityView {
    pub unreachable: Option<Unreachable>,
    pub failures: nat,
    pub detail: Seq<char>,
}

/// The two lines the indicator shows for a state.
pub open spec fn indicator_of(state: ReachabilityView) -> Option<(Seq<char>, Seq<char>)> {
    match state.unreachable {
        None => None,
        Some(what) => Some(
            (
                indicator_title(what),
                if state.detail.len() == 0 {
                    indicator_lead(what)
                } else {
                    indicator_lead(what) + " "@ + clipped(state.detail, DETAIL_CHARS as nat)
                },
            ),
        ),
    }
}

/// What the app can and cannot reach right now.
#[derive(Debug, PartialEq, Eq)]
pub struct Reachability {
    unreachable: Option<Unreachable>,
    failures: u32,
    detail: String,
}

impl View for Reachability {
    type V = ReachabilityView;

    closed spec fn view(&self) -> ReachabilityView {
        ReachabilityView {
            unreachable: self.unreachable,
            failures: self.failures as nat,
            detail: self.detail@,
        }
    }
}

impl Reachability {
    /// A state with nothing out of reach is the everything-answers state: no
    /// failures counted and no words kept.
    #[verifier::type_invariant]
    spec fn reachable_is_clear(self) -> bool {
        self.unreachable is None ==> self.failures == 0 && self.detail@.len() == 0
    }
}

impl Clone for Reachability {
    fn clone(&self) -> (r: Self)
        ensures
            r@ == self@,
    {
        proof {
            use_type_invariant(self);
        }
        Reachability { unreachable: self.unreachable, failures: self.failures, detail: self.detail.clone() }
    }
}

impl Default for Reachability {
    /// Everything answers: nothing out of reach, no failures, no words.
    fn default() -> (r: Self)
        ensures
            r@.unreachable is None,
            r@.failures == 0,
            r@.detail.len() == 0,
    {
        Reachability { unreachable: None, failures: 0, detail: String::new() }
    }
}

impl Reachability {
    pub fn unreachable(&self) -> (r: Option<Unreachable>)
        ensures
            r == self@.unreachable,
            r is None ==> self@.failures == 0 && self@.detail.len() == 0,
    {
        proof {
            use_type_invariant(self);
        }
        self.unreachable
    }

    /// Whether everything answers; a reachable state is always the
    /// default one, with no failures and no words.
    pub fn is_reachable(&self) -> (r: bool)
        ensures
            r == (self@.unreachable is None),
            r ==> self@.failures == 0 && self@.detail.len() == 0,
    {
        proof {
            use_type_invariant(self);
        }
        self.unreachable.is_none()
    }

    pub fn failures(&self) -> (r: u32)
        ensures
            r == self@.failures,
            self@.unreachable is None ==> r == 0,
    {
        proof {
            use_type_invariant(self);
        }
        self.failures
    }

    /// A try that did not get through. Answers true when this is news: a
    /// first failure, or a different machine than the one failing before,
    /// which also starts the wait over.
    pub fn fail(&mut self, what: Unreachable, detail: &str) -> (news: bool)
        ensures
            news == (old(self)@.unreachable != Some(what)),
            final(self)@.unreachable == Some(what),
            final(self)@.failures == (if news {
                1
            } else if old(self)@.failures < u32::MAX {
                old(self)@.failures + 1
            } else {
                old(self)@.failures
            }),
            final(self)@.detail == trim(detail@),
    {
        proof {
            use_type_invariant(&*self);
        }
        let news = match self.unreachable {
            Some(current) => current != what,
            None => true,
        };
        if news {
            self.failures = 0;
        }
        self.unreachable = Some(what);
        if self.failures < u32::MAX {
            self.failures = self.failures + 1;
        }
        self.detail = trimmed(detail);
        news
    }

    fn clear(&mut self)
        ensures
            final(self)@.unreachable is None,
            final(self)@.failures == 0,
            final(self)@.detail.len() == 0,
    {
        proof {
            use_type_invariant(&*self);
        }
        self.failures = 0;
        self.detail = String::new();
        self.unreachable = None;
    }

    /// The server answered, whatever it answered. A refusal proves the wire,
    /// so it clears the server's own state and nothing else: the gateway
    /// behind the server is not vouched for by the server answering.
    pub fn server_answered(&mut self) -> (cleared: bool)
        ensures
            cleared == (old(self)@.unreachable == Some(Unreachable::Server)),
            cleared ==> final(self)@.unreachable is None && final(self)@.failures == 0
                && final(self)@.detail.len() == 0,
            !cleared ==> final(self)@ == old(self)@,
    {
        match self.unreachable {
            Some(Unreachable::Server) => {
                self.clear();
                true
            },
            _ => false,
        }
    }

    /// The whole path worked. Answers true when that cleared something.
    pub fn all_clear(&mut self) -> (cleared: bool)
        ensures
            cleared == (old(self)@.unreachable is Some),
            final(self)@.unreachable is None,
            final(self)@.failures == 0,
            final(self)@.detail.len() == 0,
            !cleared ==> final(self)@ == old(self)@,
    {
        proof {
            use_type_invariant(&*self);
        }
        if self.unreachable.is_none() {
            return false;
        }
        self.clear();
        true
    }

    /// Seconds to wait before the next try.
    pub fn wait_secs(&self) -> (secs: u64)
        ensures
            secs == wait_secs_after(self@.failures),
    {
        let doublings: u32 = if self.failures == 0 {
            0
        } else if self.failures - 1 > MAX_DOUBLINGS {
            MAX_DOUBLINGS
        } else {
            self.failures - 1
        };
        let mut wait: u64 = 2;
        let mut i: u32 = 0;
        while i < doublings
            invariant
                doublings <= MAX_DOUBLINGS,
                i <= doublings,
                wait == doubled(i as nat),
                wait <= 512,
            decreases doublings - i,
        {
            proof {
                lemma_doubled_bound(i as nat);
            }
            wait = wait * 2;
            i = i + 1;
        }
        if wait > MAX_WAIT_SECS {
            MAX_WAIT_SECS
        } else {
            wait
        }
    }

    /// How long to wait before the next try: two seconds, doubling, capped
    /// at thirty.
    pub fn wait(&self) -> (d: Duration)
        ensures
            d == duration_of_secs(wait_secs_after(self@.failures) as u64),
            secs_of(d) == wait_secs_after(self@.failures),
            millis_of(d) == wait_secs_after(self@.failures) * 1000,
    {
        duration_from_secs(self.wait_secs())
    }

    /// The two lines the indicator shows, or `None` while everything answers.
    /// Each names its own machine, and the gateway's line says that OpenGrok
    /// itself is fine.
    pub fn indicator(&self) -> (r: Option<(String, String)>)
        ensures
            r matches Some(lines) ==> indicator_of(self@) == Some((lines.0@, lines.1@)),
            r is None <==> indicator_of(self@) is None,
    {
        let what = match self.unreachable {
            Some(what) => what,
            None => return None,
        };
        let (title, lead) = match what {
            Unreachable::Server => (
                "Reconnecting to OpenGrok…".to_owned(),
                "The server is not answering.",
            ),
            Unreachable::Gateway => (
                "Waiting for the model gateway…".to_owned(),
                "OpenGrok is answering; the model gateway behind it is not.",
            ),
        };
        let mut detail = lead.to_owned();
        if self.detail.as_str().unicode_len() > 0 {
            push_str(&mut detail, " ");
            let clip = clip(self.detail.as_str(), DETAIL_CHARS);
            push_str(&mut detail, clip.as_str());
        }
        Some((title, detail))
    }
}

pub proof fn lemma_doubled_bound(n: nat)
    requires
        n < MAX_DOUBLINGS,
    ensures
        doubled(n) <= 256,
        doubled(n + 1) == 2 * doubled(n),
{
    reveal_with_fuel(doubled, 9);
    assert(doubled(7) == 256);
    if n < 7 {
        lemma_doubled_grows(n, 7);
    }
}

/// `text` cut to `limit` characters, with an ellipsis when anything was cut.
fn clip(text: &str, limit: usize) -> (r: String)
    ensures
        r@ == clipped(text@, limit as nat),
{
    let v = chars_of(text);
    if v.len() <= limit {
        return string_of(&v, 0, v.len());
    }
    let mut head = string_of(&v, 0, limit);
    head.push('…');
    head
}

/// Doubling grows: two, four, eight and so on.
pub proof fn lemma_doubled_grows(a: nat, b: nat)
    requires
        a <= b,
    ensures
        doubled(a) <= doubled(b),
    decreases b,
{
    if a < b {
        lemma_doubled_grows(a, (b - 1) as nat);
    }
}

/// The wait is never shorter than the first wait nor longer than the cap, and
/// it never shrinks while failures pile up.
pub proof fn lemma_wait_bounded_and_monotone(f: nat, g: nat)
    requires
        f <= g,
    ensures
        FIRST_WAIT_SECS <= wait_secs_after(f) <= MAX_WAIT_SECS,
        wait_secs_after(f) <= wait_secs_after(g),
{
    let df = if f == 0 {
        0
    } else if f - 1 > MAX_DOUBLINGS {
        MAX_DOUBLINGS as nat
    } else {
        (f - 1) as nat
    };
    let dg = if g == 0 {
        0
    } else if g - 1 > MAX_DOUBLINGS {
        MAX_DOUBLINGS as nat
    } else {
        (g - 1) as nat
    };
    lemma_doubled_grows(0, df);
    lemma_doubled_grows(df, dg);
}

/// After everything answers again, the next outage starts from the first wait.
pub proof fn lemma_clear_restarts_the_wait(state: ReachabilityView)
    requires
        state.failures == 0,
    ensures
        wait_secs_after(state.failures) == FIRST_WAIT_SECS,
{
}

} // verus!
