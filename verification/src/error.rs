//! What a failure against OpenGrok *is*, as opposed to what it says.

use vstd::prelude::*;

use crate::json::{opt_json, Json, JsonV};
use crate::pending::{pending_custom, PendingCustom};
use crate::text::{contains, contains_str, lower, lowered, push_decimal, push_str, decimal, same};

verus! {

/// The machine a request could not reach.
///
/// The two are different machines with different fixes, and the app names
/// which one because a person reading "unreachable" cannot tell them apart.
#[derive(Debug, Clone, Copy, PartialEq, Eq, Structural)]
pub enum Unreachable {
    /// The OpenGrok server: the app's own request never got an answer at all.
    Server,
    /// OpenGrok answered, and what it said was that the model gateway behind it did not.
    Gateway,
}

impl Unreachable {
    /// The machine's own name.
    pub fn as_str(self) -> (r: &'static str)
        ensures
            r@ == (match self {
                Unreachable::Server => "server"@,
                Unreachable::Gateway => "gateway"@,
            }),
    {
        match self {
            Unreachable::Server => "server",
            Unreachable::Gateway => "gateway",
        }
    }
}

/// What a failure is: something decided against the request, nothing
/// answered, or the server does not know who is asking.
#[derive(Debug, Clone, Copy, PartialEq, Eq, Structural)]
pub enum Failure {
    /// Something answered the request and decided against it.
    Verdict,
    /// Nothing answered; the named machine is out of reach.
    OutOfReach(Unreachable),
    /// The server answered that it does not know who is asking.
    SignedOut,
}

/// The server's wordings for the gateway being out of reach.
pub open spec fn gateway_marks() -> Seq<Seq<char>> {
    seq![
        "the model gateway is unreachable"@,
        "the gateway is unreachable"@,
        "the gateway could not be reached"@,
    ]
}

/// The message, lowercased, holds one of the server's sentences for the
/// gateway being down.
pub open spec fn reads_as_gateway_down(message: Seq<char>) -> bool {
    exists|i: int| 0 <= i < gateway_marks().len() && contains(lower(message), #[trigger] gateway_marks()[i])
}

/// The server's own words for the gateway being out of reach. The wire
/// carries no code for this, so the sentences are matched here, once.
pub fn reads_as_gateway_unreachable(message: &str) -> (r: bool)
    ensures
        r == reads_as_gateway_down(message@),
{
    let text = lowered(message);
    let a = contains_str(text.as_str(), "the model gateway is unreachable");
    let b = contains_str(text.as_str(), "the gateway is unreachable");
    let c = contains_str(text.as_str(), "the gateway could not be reached");
    proof {
        let marks = gateway_marks();
        assert(marks[0] == "the model gateway is unreachable"@);
        assert(marks[1] == "the gateway is unreachable"@);
        assert(marks[2] == "the gateway could not be reached"@);
        if a || b || c {
            if a {
                assert(contains(lower(message@), marks[0]));
            } else if b {
                assert(contains(lower(message@), marks[1]));
            } else {
                assert(contains(lower(message@), marks[2]));
            }
        }
    }
    a || b || c
}

/// The kind a server's answer is: the gateway's sentence, a proxy's `502` to
/// `504` (the server out of reach one hop away), or a verdict.
pub open spec fn failure_of_answer(status: Option<u16>, message: Seq<char>) -> Failure {
    if reads_as_gateway_down(message) {
        Failure::OutOfReach(Unreachable::Gateway)
    } else if status matches Some(code) && 502 <= code <= 504 {
        Failure::OutOfReach(Unreachable::Server)
    } else {
        Failure::Verdict
    }
}

/// How a server's answer is classed: the gateway's sentence makes it the
/// gateway out of reach whatever the status; otherwise every status from
/// `502` to `504` is the server out of reach one hop away, and any other
/// status, or none, is a verdict.
pub proof fn lemma_answers_are_classed_by_status_and_words(status: Option<u16>, message: Seq<char>)
    ensures
        reads_as_gateway_down(message) ==> failure_of_answer(status, message)
            == Failure::OutOfReach(Unreachable::Gateway),
        !reads_as_gateway_down(message) ==> (failure_of_answer(status, message)
            == Failure::OutOfReach(Unreachable::Server) <==> (status == Some(502u16) || status
            == Some(503u16) || status == Some(504u16))),
        !reads_as_gateway_down(message) && !(status == Some(502u16) || status == Some(503u16)
            || status == Some(504u16)) ==> failure_of_answer(status, message) == Failure::Verdict,
        failure_of_answer(status, message) != Failure::SignedOut,
{
}

/// An HTTP failure against OpenGrok. The status is kept so a login `401` can
/// be told apart, and the kind is fixed where the failure is built.
#[derive(Debug)]
pub struct OpenGrokError {
    pub status: Option<u16>,
    pub message: String,
    failure: Failure,
    pending_event: Option<Json>,
    history_missed: bool,
}

impl OpenGrokError {
    /// The status line, when there was one.
    pub closed spec fn code(&self) -> Option<u16> {
        self.status
    }

    /// The server's (or the transport's) words.
    pub closed spec fn words(&self) -> Seq<char> {
        self.message@
    }

    /// What kind of failure this is.
    pub closed spec fn kind(&self) -> Failure {
        self.failure
    }

    /// The CUSTOM frame a pending refusal carried, when it carried one.
    pub closed spec fn held_event(&self) -> Option<JsonV> {
        opt_json(self.pending_event)
    }

    /// Whether a run route's `503` said the run's history was not written.
    pub closed spec fn spec_history_missed(&self) -> bool {
        self.history_missed
    }

    /// A failure with a message and nothing else: a verdict.
    pub fn message(message: String) -> (r: Self)
        ensures
            r.code() is None,
            r.words() == message@,
            r.kind() == Failure::Verdict,
            !r.spec_history_missed(),
    {
        OpenGrokError {
            status: None,
            message,
            failure: Failure::Verdict,
            pending_event: None,
            history_missed: false,
        }
    }

    /// A status and a message: a verdict.
    pub fn status(status: u16, message: String) -> (r: Self)
        ensures
            r.code() == Some(status),
            r.words() == message@,
            r.kind() == Failure::Verdict,
            !r.spec_history_missed(),
    {
        OpenGrokError {
            status: Some(status),
            message,
            failure: Failure::Verdict,
            pending_event: None,
            history_missed: false,
        }
    }

    /// The server does not know who is asking. Built where the route is known,
    /// because a `401` on `/auth/login` is a wrong password instead.
    pub fn signed_out(message: String) -> (r: Self)
        ensures
            r.code() == Some(401u16),
            r.words() == message@,
            r.kind() == Failure::SignedOut,
            !r.spec_history_missed(),
    {
        OpenGrokError {
            status: Some(401),
            message,
            failure: Failure::SignedOut,
            pending_event: None,
            history_missed: false,
        }
    }

    /// A request that never came back with an answer (connect, timeout, a
    /// request or body that did not get through) is the server out of reach;
    /// anything else the transport reports is a verdict or our own bug.
    pub fn from_transport(out_of_reach: bool, message: String) -> (r: Self)
        ensures
            r.code() is None,
            r.words() == message@,
            r.kind() == (if out_of_reach {
                Failure::OutOfReach(Unreachable::Server)
            } else {
                Failure::Verdict
            }),
            !r.spec_history_missed(),
    {
        OpenGrokError {
            status: None,
            message,
            failure: if out_of_reach {
                Failure::OutOfReach(Unreachable::Server)
            } else {
                Failure::Verdict
            },
            pending_event: None,
            history_missed: false,
        }
    }

    /// Something the server said, read for whether it is saying the gateway is
    /// out of reach.
    pub fn from_server(status: Option<u16>, message: String) -> (r: Self)
        ensures
            r.code() == status,
            r.words() == message@,
            r.kind() == failure_of_answer(status, message@),
            !r.spec_history_missed(),
    {
        let failure = if reads_as_gateway_unreachable(message.as_str()) {
            Failure::OutOfReach(Unreachable::Gateway)
        } else {
            match status {
                Some(code) if 502 <= code && code <= 504 => Failure::OutOfReach(Unreachable::Server),
                _ => Failure::Verdict,
            }
        };
        OpenGrokError { status, message, failure, pending_event: None, history_missed: false }
    }

    pub fn is_unauthorized(&self) -> (r: bool)
        ensures
            r == (self.code() == Some(401u16)),
    {
        match self.status {
            Some(code) => code == 401,
            None => false,
        }
    }

    /// What kind of failure this is.
    pub fn failure(&self) -> (r: Failure)
        ensures
            r == self.kind(),
    {
        self.failure
    }

    /// Which machine was out of reach, when that is what happened.
    pub fn unreachable(&self) -> (r: Option<Unreachable>)
        ensures
            r == (match self.kind() {
                Failure::OutOfReach(what) => Some(what),
                _ => None,
            }),
    {
        match self.failure {
            Failure::OutOfReach(what) => Some(what),
            _ => None,
        }
    }

    /// The server answered and did not know who was asking.
    pub fn is_signed_out(&self) -> (r: bool)
        ensures
            r == (self.kind() == Failure::SignedOut),
    {
        match self.failure {
            Failure::SignedOut => true,
            _ => false,
        }
    }

    /// Nothing at this path, or a thread this account does not own.
    pub fn is_not_found(&self) -> (r: bool)
        ensures
            r == (self.code() == Some(404u16)),
    {
        match self.status {
            Some(code) => code == 404,
            None => false,
        }
    }

    fn is_conflict_saying(&self, words: &str) -> (r: bool)
        ensures
            r == (self.code() == Some(409u16) && self.words() == words@),
    {
        match self.status {
            Some(code) => code == 409 && same(self.message.as_str(), words),
            None => false,
        }
    }

    /// A follow-up that already became a run.
    pub fn is_already_consumed(&self) -> (r: bool)
        ensures
            r == (self.code() == Some(409u16) && self.words() == "already-consumed"@),
    {
        self.is_conflict_saying("already-consumed")
    }

    /// A pending id that was canceled, or never heard of.
    pub fn is_not_pending(&self) -> (r: bool)
        ensures
            r == (self.code() == Some(409u16) && self.words() == "not-pending"@),
    {
        self.is_conflict_saying("not-pending")
    }

    /// A queued send that no longer matches its row.
    pub fn is_stale_pending(&self) -> (r: bool)
        ensures
            r == (self.code() == Some(409u16) && self.words() == "stale-pending-message"@),
    {
        self.is_conflict_saying("stale-pending-message")
    }

    /// The one conflict the server asks to be retried.
    pub fn is_enqueue_conflict(&self) -> (r: bool)
        ensures
            r == (self.code() == Some(409u16) && self.words()
                == "another writer got there first; retry"@),
    {
        self.is_conflict_saying("another writer got there first; retry")
    }

    /// The run played and the server could not write it into the recipe's
    /// history.
    pub fn history_missed(&self) -> (r: bool)
        ensures
            r == self.spec_history_missed(),
    {
        self.history_missed
    }

    /// The `pending-user-message` CUSTOM a pending refusal carried.
    pub fn pending_custom(&self) -> (r: Option<PendingCustom>)
        ensures
            match self.held_event() {
                Some(e) => match r {
                    Some(c) => pending_custom(e) == Some(c@),
                    None => pending_custom(e) is None,
                },
                None => r is None,
            },
    {
        match &self.pending_event {
            Some(e) => PendingCustom::from_agui(e),
            None => None,
        }
    }

    /// The same failure, carrying the CUSTOM frame of a pending refusal.
    pub fn with_pending_event(self, event: Option<Json>) -> (r: Self)
        ensures
            r.code() == self.code(),
            r.words() == self.words(),
            r.kind() == self.kind(),
            r.spec_history_missed() == self.spec_history_missed(),
            r.held_event() == opt_json(event),
    {
        OpenGrokError { pending_event: event, ..self }
    }

    pub fn with_history_missed(self) -> (r: Self)
        ensures
            r.code() == self.code(),
            r.words() == self.words(),
            r.kind() == self.kind(),
            r.held_event() == self.held_event(),
            r.spec_history_missed(),
    {
        OpenGrokError { history_missed: true, ..self }
    }

    /// The failure as a line: the status and the message, or the message alone.
    pub fn display(&self) -> (r: String)
        ensures
            r@ == (match self.code() {
                Some(code) => decimal(code as nat) + ": "@ + self.words(),
                None => self.words(),
            }),
    {
        let mut out = String::new();
        match self.status {
            Some(code) => {
                push_decimal(&mut out, code as u64);
                push_str(&mut out, ": ");
                push_str(&mut out, self.message.as_str());
            },
            None => {
                push_str(&mut out, self.message.as_str());
            },
        }
        out
    }
}

/// Whether `POST /pending` should be sent again: the server asks for one retry
/// of its enqueue conflict, and a second is the same answer.
pub fn retry_enqueue(error: &OpenGrokError, attempt: u32) -> (r: bool)
    ensures
        r == (error.code() == Some(409u16) && error.words()
            == "another writer got there first; retry"@ && attempt < 2),
{
    error.is_enqueue_conflict() && attempt < 2
}

} // verus!
