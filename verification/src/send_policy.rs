//! What a composer send does while the coworker is busy.
//!
//! Three states of the thread, one answer each: idle posts; parked (a card is
//! waiting on the person) steers, because the server settles the card on the
//! next message and the person's words are that message; running queues
//! unless the person asked to interrupt, with the chord or the `on_send`
//! preference.

use vstd::prelude::*;

use crate::text::{same, word, word_of};

verus! {

/// What a plain send does while a turn is running. Persisted in the prefs file.
#[derive(Clone, Copy, Debug, PartialEq, Eq, Structural)]
pub enum OnSend {
    /// Hold the message and send it when the turn ends.
    Queue,
    /// Stop the turn at its next step and send now.
    Steer,
}

/// The preference a word names: `steer` or `interrupt` steer, anything else queues.
pub open spec fn on_send_of(raw: Seq<char>) -> OnSend {
    if word(raw) == "steer"@ || word(raw) == "interrupt"@ {
        OnSend::Steer
    } else {
        OnSend::Queue
    }
}

/// The word a preference is stored as.
pub open spec fn on_send_word(on_send: OnSend) -> Seq<char> {
    match on_send {
        OnSend::Queue => "queue"@,
        OnSend::Steer => "steer"@,
    }
}

impl Default for OnSend {
    fn default() -> (r: Self)
        ensures
            r == OnSend::Queue,
    {
        OnSend::Queue
    }
}

impl OnSend {
    /// Unknown words fall back to `Queue`, so a preference written by a later
    /// build (say, `auto`) never turns into an interrupt on this one.
    pub fn parse(raw: &str) -> (r: Self)
        ensures
            r == on_send_of(raw@),
    {
        let w = word_of(raw);
        if same(w.as_str(), "steer") || same(w.as_str(), "interrupt") {
            OnSend::Steer
        } else {
            OnSend::Queue
        }
    }

    pub fn as_str(self) -> (r: &'static str)
        ensures
            r@ == on_send_word(self),
    {
        match self {
            OnSend::Queue => "queue",
            OnSend::Steer => "steer",
        }
    }
}

/// The thread as the composer finds it.
#[derive(Clone, Copy, Debug, PartialEq, Eq, Structural)]
pub enum Busy {
    Idle,
    /// A run is in flight and nothing is waiting on the person.
    Running,
    /// A user-form or approval card is waiting on the person, or the chrome
    /// still says so.
    Parked,
}

/// What to do with the message.
#[derive(Clone, Copy, Debug, PartialEq, Eq, Structural)]
pub enum SendPlan {
    Post,
    /// Settle what is parked (or stop what is running), then post.
    Steer,
    /// Keep it until the thread is idle.
    Queue,
}

/// Idle posts; parked always steers; running steers only when the chord is
/// held or the preference says so, and queues otherwise.
pub fn plan_send(busy: Busy, on_send: OnSend, force_steer: bool) -> (plan: SendPlan)
    ensures
        busy == Busy::Idle ==> plan == SendPlan::Post,
        busy == Busy::Parked ==> plan == SendPlan::Steer,
        busy == Busy::Running ==> plan == (if force_steer || on_send == OnSend::Steer {
            SendPlan::Steer
        } else {
            SendPlan::Queue
        }),
{
    match busy {
        Busy::Idle => SendPlan::Post,
        // Parked is always a steer: the server ends the parked run on the next
        // message whatever the preference says, and holding the words back
        // would leave the card open for nothing.
        Busy::Parked => SendPlan::Steer,
        Busy::Running => {
            if force_steer || on_send == OnSend::Steer {
                SendPlan::Steer
            } else {
                SendPlan::Queue
            }
        },
    }
}

/// A preference read back from the word it was stored as is the same
/// preference.
pub proof fn lemma_on_send_round_trip(on_send: OnSend)
    ensures
        on_send_of(on_send_word(on_send)) == on_send,
{
    reveal_strlit("queue");
    reveal_strlit("steer");
    reveal_strlit("interrupt");
    crate::text::lemma_word_of_plain("queue"@);
    crate::text::lemma_word_of_plain("steer"@);
}

} // verus!
