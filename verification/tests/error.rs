use nativechat::error::{
    reads_as_gateway_unreachable, retry_enqueue, Failure, OpenGrokError, Unreachable,
};

#[test]
fn the_models_note_reads_as_the_gateway_being_down() {
    assert!(reads_as_gateway_unreachable(
        "the gateway could not be reached: error sending request for url \
         (http://127.0.0.1:29080/v1/models)"
    ));
    assert!(!reads_as_gateway_unreachable(
        "the gateway advertises no models on this key's route — a pin can still be typed by hand"
    ));
    assert!(!reads_as_gateway_unreachable(
        "the gateway answered 429 Too Many Requests when asked for its models"
    ));
}

#[test]
fn a_refusal_is_a_verdict_and_not_a_state() {
    let refused = OpenGrokError::status(401, "invalid email or password".into());
    assert!(refused.is_unauthorized());
    assert_eq!(refused.unreachable(), None);
    assert_eq!(refused.failure(), Failure::Verdict);
    let declined = OpenGrokError::from_server(Some(403), "this model is not on your plan".into());
    assert_eq!(declined.unreachable(), None);
    assert_eq!(declined.failure(), Failure::Verdict);
}

#[test]
fn the_server_and_the_gateway_are_named_apart() {
    let gateway = OpenGrokError::from_server(
        None,
        "the model gateway is unreachable: error sending request for url \
         (http://127.0.0.1:29080/v1/chat/completions)"
            .into(),
    );
    assert_eq!(gateway.unreachable(), Some(Unreachable::Gateway));
    assert_eq!(gateway.unreachable().map(Unreachable::as_str), Some("gateway"));
    let in_front = OpenGrokError::from_server(Some(502), "Bad Gateway".into());
    assert_eq!(in_front.unreachable(), Some(Unreachable::Server));
}

#[test]
fn a_session_that_is_gone_is_neither_a_verdict_nor_a_state_that_clears_itself() {
    let gone =
        OpenGrokError::signed_out("this turn does not say whose spend it is — sign in again".into());
    assert_eq!(gone.failure(), Failure::SignedOut);
    assert!(gone.is_signed_out());
    assert!(gone.is_unauthorized(), "it is still a 401 on the wire");
    assert_eq!(gone.unreachable(), None, "nothing is out of reach: the server answered");
}

#[test]
fn a_verdict_with_a_reason_stays_a_verdict() {
    let refused = OpenGrokError::from_server(
        Some(402),
        "the model gateway refused: 402 spend cap reached for this org".into(),
    );
    assert_eq!(refused.failure(), Failure::Verdict);
    assert!(!refused.is_signed_out());
    assert_eq!(refused.unreachable(), None);
}

#[test]
fn a_pending_conflict_is_a_verdict_about_that_id() {
    let consumed = OpenGrokError::from_server(Some(409), "already-consumed".into());
    assert!(consumed.is_already_consumed());
    assert!(!consumed.is_not_pending());
    assert_eq!(consumed.failure(), Failure::Verdict);
    let canceled = OpenGrokError::from_server(Some(409), "not-pending".into());
    assert!(canceled.is_not_pending());
    assert!(!canceled.is_already_consumed());
    let missing = OpenGrokError::from_server(Some(404), "no such thread".into());
    assert!(missing.is_not_found());
    assert!(!missing.is_already_consumed());
    let raced =
        OpenGrokError::from_server(Some(409), "another writer got there first; retry".into());
    assert!(raced.is_enqueue_conflict());
    assert!(!consumed.is_enqueue_conflict());
    assert!(retry_enqueue(&raced, 1));
    assert!(!retry_enqueue(&raced, 2), "one retry, then the conflict is a decision");
    assert!(!retry_enqueue(&consumed, 1));
}

#[test]
fn a_wrong_password_is_not_a_session_that_has_gone() {
    let typed_wrong = OpenGrokError::from_server(Some(401), "invalid email or password".into());
    assert!(typed_wrong.is_unauthorized());
    assert!(!typed_wrong.is_signed_out());
    assert_eq!(typed_wrong.failure(), Failure::Verdict);
}

/// A failure keeps what it says when it is marked for a missed history or
/// handed a frame, and reads no pending row out of a frame that is not one.
#[test]
fn marking_a_failure_keeps_its_words() {
    let error = OpenGrokError::from_server(Some(503), "history not written".into())
        .with_history_missed()
        .with_pending_event(None);
    assert!(error.history_missed());
    assert_eq!(error.display(), "503: history not written");
    assert!(error.pending_custom().is_none());
    let transport = OpenGrokError::from_transport(true, "connection refused".into());
    assert_eq!(transport.unreachable(), Some(Unreachable::Server));
    assert_eq!(transport.display(), "connection refused");
}
