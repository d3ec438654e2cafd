use nativechat::types::{assistant_text_from_sse, error_message, TurnStream};

#[test]
fn sse_collects_text_deltas() {
    let body = [
        "data: {\"type\":\"RUN_STARTED\",\"threadId\":\"t\",\"runId\":\"r\"}\n\n",
        "data: {\"type\":\"TEXT_MESSAGE_START\",\"messageId\":\"m1\",\"role\":\"assistant\"}\n\n",
        "data: {\"type\":\"TEXT_MESSAGE_CONTENT\",\"messageId\":\"m1\",\"delta\":\"Hello\"}\n\n",
        "data: {\"type\":\"TEXT_MESSAGE_CONTENT\",\"messageId\":\"m1\",\"delta\":\" world\"}\n\n",
        "data: {\"type\":\"TEXT_MESSAGE_END\",\"messageId\":\"m1\"}\n\n",
        "data: {\"type\":\"RUN_FINISHED\",\"runId\":\"r\"}\n\n",
    ].concat();
    assert_eq!(assistant_text_from_sse(&body).unwrap(), "Hello world");
}

#[test]
fn a_run_error_ends_the_reply_with_its_sentence() {
    let body = [
        "data: {\"type\":\"TEXT_MESSAGE_CONTENT\",\"delta\":\"Hi\"}\n\n",
        "data: {\"type\":\"RUN_ERROR\",\"message\":\"the model gateway is unreachable\"}\n\n",
        "data: {\"type\":\"TEXT_MESSAGE_CONTENT\",\"delta\":\" later\"}\n\n",
    ].concat();
    assert_eq!(
        assistant_text_from_sse(&body),
        Err("the model gateway is unreachable".to_string())
    );
    assert_eq!(
        assistant_text_from_sse("data: {\"type\":\"RUN_ERROR\"}\n\n"),
        Err("run failed".to_string())
    );
}

/// Frames split across chunks are read once whole, in order, each handed
/// on; the reply is the same however the body was cut.
#[test]
fn a_stream_reads_frames_however_the_body_is_cut() {
    let mut stream = TurnStream::new();
    let (events, failed) = stream.feed("data: {\"type\":\"TEXT_MESSAGE_CONTENT\",\"del");
    assert!(events.is_empty());
    assert!(failed.is_none());
    let (events, failed) = stream.feed("ta\":\"Hel\"}\n\ndata: [DONE]\n\ndata: {\"type\":\"TEXT_MESSAGE_CHUNK\",\"delta\":\"lo\"}\n");
    assert_eq!(events.len(), 1);
    assert!(failed.is_none());
    assert_eq!(stream.reply(), "Hel");
    let (events, failed) = stream.feed("\ndata: {\"type\":\"RUN_FINISHED\"}\n\n");
    assert_eq!(events.len(), 2);
    assert_eq!(events[1].str_at("type"), Some("RUN_FINISHED"));
    assert!(failed.is_none());
    assert_eq!(stream.reply(), "Hello");
}

#[test]
fn a_stream_stops_at_its_failure() {
    let mut stream = TurnStream::new();
    let (events, failed) = stream.feed(&[
        "data: {\"type\":\"TEXT_MESSAGE_CONTENT\",\"delta\":\"Hi\"}\n\n",
        "data: {\"type\":\"RUN_ERROR\",\"message\":\"refused\"}\n\n",
        "data: {\"type\":\"TEXT_MESSAGE_CONTENT\",\"delta\":\"!\"}\n\n",
    ].concat());
    assert_eq!(events.len(), 1);
    assert_eq!(failed.as_deref(), Some("refused"));
    assert_eq!(stream.reply(), "Hi");
}

#[test]
fn a_failed_request_says_the_servers_words_or_its_body() {
    assert_eq!(error_message(Some("no such thread"), "{\"error\":\"no such thread\"}"), "no such thread");
    assert_eq!(error_message(Some(""), "  plain words \n"), "plain words");
    assert_eq!(error_message(None, "   "), "request failed");
    assert_eq!(error_message(None, "<html>502</html>"), "<html>502</html>");
}
