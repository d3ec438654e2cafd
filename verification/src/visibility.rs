//! What a screenshot on a tool result is for: the live Computer pane
//! (`agent`), or the chat (`transcript`, `failure`, `end`). A frame without
//! the tag keeps the older rule: pin a failed tool's shot now, and the last
//! shot at the end of the turn.

use vstd::prelude::*;

use crate::text::{same, word, word_of};

verus! {

/// The `visibility` a tool result's image carries.
#[derive(Debug, Clone, Copy, PartialEq, Eq, Structural)]
pub enum ImageVisibility {
    Agent,
    Transcript,
    Failure,
    End,
}

/// The visibility a word names, if any.
pub open spec fn visibility_of(raw: Seq<char>) -> Option<ImageVisibility> {
    let w = word(raw);
    if w == "agent"@ {
        Some(ImageVisibility::Agent)
    } else if w == "transcript"@ {
        Some(ImageVisibility::Transcript)
    } else if w == "failure"@ {
        Some(ImageVisibility::Failure)
    } else if w == "end"@ {
        Some(ImageVisibility::End)
    } else {
        None
    }
}

impl ImageVisibility {
    pub fn parse(raw: &str) -> (r: Option<Self>)
        ensures
            r == visibility_of(raw@),
    {
        let w = word_of(raw);
        if same(w.as_str(), "agent") {
            Some(ImageVisibility::Agent)
        } else if same(w.as_str(), "transcript") {
            Some(ImageVisibility::Transcript)
        } else if same(w.as_str(), "failure") {
            Some(ImageVisibility::Failure)
        } else if same(w.as_str(), "end") {
            Some(ImageVisibility::End)
        } else {
            None
        }
    }

    /// A first-class chat event: everything but the Computer pane.
    pub fn belongs_in_transcript(self) -> (r: bool)
        ensures
            r == (self != ImageVisibility::Agent),
    {
        match self {
            ImageVisibility::Agent => false,
            _ => true,
        }
    }
}

/// Pin into chat now: a tagged shot when it belongs in the transcript; an
/// untagged one only when its tool failed.
pub fn pin_shot_now(visibility: Option<ImageVisibility>, ok: Option<bool>) -> (r: bool)
    ensures
        r == (match visibility {
            Some(v) => v != ImageVisibility::Agent,
            None => ok == Some(false),
        }),
{
    match visibility {
        Some(visibility) => visibility.belongs_in_transcript(),
        None => match ok {
            Some(flag) => !flag,
            None => false,
        },
    }
}

/// Pin at turn end: everything but a tagged `agent` shot.
pub fn pin_shot_at_turn_end(visibility: Option<ImageVisibility>) -> (r: bool)
    ensures
        r == (visibility != Some(ImageVisibility::Agent)),
{
    match visibility {
        Some(ImageVisibility::Agent) => false,
        _ => true,
    }
}

/// Each visibility is read back from its own name.
pub proof fn lemma_visibility_names_read_back()
    ensures
        visibility_of("agent"@) == Some(ImageVisibility::Agent),
        visibility_of("transcript"@) == Some(ImageVisibility::Transcript),
        visibility_of("failure"@) == Some(ImageVisibility::Failure),
        visibility_of("end"@) == Some(ImageVisibility::End),
{
    reveal_strlit("agent");
    reveal_strlit("transcript");
    reveal_strlit("failure");
    reveal_strlit("end");
    crate::text::lemma_word_of_plain("agent"@);
    crate::text::lemma_word_of_plain("transcript"@);
    crate::text::lemma_word_of_plain("failure"@);
    crate::text::lemma_word_of_plain("end"@);
}

} // verus!
