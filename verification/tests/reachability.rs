use nativechat::error::Unreachable;
use nativechat::reachability::{first_wait, max_wait, Reachability};
use std::time::Duration;

#[test]
fn a_fresh_state_is_reachable_and_shows_nothing() {
    let state = Reachability::default();
    assert!(state.is_reachable());
    assert_eq!(state.indicator(), None);
}

#[test]
fn the_wait_grows_and_is_capped() {
    let mut state = Reachability::default();
    let mut waits = Vec::new();
    for _ in 0..10 {
        state.fail(Unreachable::Server, "error sending request");
        waits.push(state.wait());
    }
    assert_eq!(
        &waits[..5],
        &[
            Duration::from_secs(2),
            Duration::from_secs(4),
            Duration::from_secs(8),
            Duration::from_secs(16),
            max_wait(),
        ]
    );
    assert!(
        waits.iter().all(|wait| *wait <= max_wait()),
        "the wait never passes the cap: {waits:?}"
    );
    assert_eq!(waits.last(), Some(&max_wait()));
}

#[test]
fn a_success_resets_the_wait() {
    let mut state = Reachability::default();
    for _ in 0..4 {
        state.fail(Unreachable::Server, "error sending request");
    }
    assert_eq!(state.wait(), Duration::from_secs(16));
    assert!(state.all_clear());
    assert_eq!(state.failures(), 0);
    assert_eq!(state.wait(), first_wait(), "the next outage starts over");
}

#[test]
fn a_reachability_state_clears_itself() {
    let mut state = Reachability::default();
    assert!(state.fail(Unreachable::Server, "error sending request"));
    assert!(!state.is_reachable());
    assert!(state.all_clear(), "the first success is the news");
    assert!(state.is_reachable());
    assert!(!state.all_clear(), "and there is nothing left to clear");
    assert_eq!(state.indicator(), None);
}

#[test]
fn the_server_answering_does_not_vouch_for_the_gateway() {
    let mut state = Reachability::default();
    state.fail(Unreachable::Gateway, "the gateway could not be reached");
    assert!(!state.server_answered());
    assert_eq!(state.unreachable(), Some(Unreachable::Gateway));
    assert!(state.all_clear(), "only a model answer clears the gateway");
}

#[test]
fn a_refusal_clears_the_server_because_it_proves_the_wire() {
    let mut state = Reachability::default();
    state.fail(Unreachable::Server, "error sending request");
    assert!(state.server_answered());
    assert!(state.is_reachable());
}

#[test]
fn switching_machines_starts_the_wait_over() {
    let mut state = Reachability::default();
    for _ in 0..4 {
        state.fail(Unreachable::Server, "error sending request");
    }
    assert!(
        state.fail(Unreachable::Gateway, "the gateway could not be reached"),
        "a different machine is news"
    );
    assert_eq!(state.failures(), 1);
    assert_eq!(state.wait(), first_wait());
    assert!(
        !state.fail(Unreachable::Gateway, "the gateway could not be reached"),
        "the same machine again is not"
    );
    assert_eq!(state.failures(), 2);
}

#[test]
fn each_machine_is_named_and_the_gateway_says_the_server_is_fine() {
    let mut state = Reachability::default();
    state.fail(Unreachable::Server, "error sending request for url (…)");
    let (title, detail) = state.indicator().expect("a server outage shows");
    assert!(title.contains("OpenGrok"), "{title}");
    assert!(detail.contains("The server is not answering."), "{detail}");

    state.fail(
        Unreachable::Gateway,
        "the gateway could not be reached: error sending request for url \
         (http://127.0.0.1:29080/v1/models)",
    );
    let (title, detail) = state.indicator().expect("a gateway outage shows");
    assert!(title.contains("model gateway"), "{title}");
    assert!(
        detail.contains("OpenGrok is answering"),
        "nobody should restart the server over this: {detail}"
    );
    assert!(detail.contains("29080"), "the dead port survives: {detail}");
}

#[test]
fn a_long_reason_is_clipped_rather_than_sprawling() {
    let mut state = Reachability::default();
    state.fail(Unreachable::Server, &"x".repeat(500));
    let (_, detail) = state.indicator().expect("shows");
    assert!(detail.chars().count() < 260, "{}", detail.len());
    assert!(detail.ends_with('…'), "{detail}");
}

/// However it got there, a state where everything answers is the default
/// one: no failures, no indicator.
#[test]
fn a_reachable_state_is_always_the_default_one() {
    let mut state = Reachability::default();
    state.fail(Unreachable::Gateway, "no route to 29080");
    state.fail(Unreachable::Gateway, "still none");
    assert_eq!(state.failures(), 2);
    assert!(state.all_clear());
    assert!(!state.all_clear());
    assert!(state.is_reachable());
    assert_eq!(state.failures(), 0);
    assert_eq!(state.indicator(), None);
    assert_eq!(state, Reachability::default());
}
