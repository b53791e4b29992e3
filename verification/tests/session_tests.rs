use screen_ai_reader::decode::StreamFormat;
use screen_ai_reader::event::ErrorKind;
use screen_ai_reader::event::StreamEvent;
use screen_ai_reader::session::CancellationToken;
use screen_ai_reader::session::InferenceSession;
use screen_ai_reader::session::SessionState;

fn delta(s: &str) -> StreamEvent {
    StreamEvent::TextDelta(String::from(s))
}

fn streaming_session(format: StreamFormat) -> InferenceSession {
    let mut session = InferenceSession::new(format);
    assert_eq!(session.state(), SessionState::Sending);
    session.on_send_success();
    assert_eq!(session.state(), SessionState::Streaming);
    session
}

#[test]
fn cancel_before_any_chunk_yields_no_events() {
    let mut session = streaming_session(StreamFormat::Ndjson);
    session.on_cancel();
    assert_eq!(session.state(), SessionState::Cancelled);
    let events = session.on_chunk(b"{\"response\":\"late\",\"done\":false}\n");
    assert_eq!(events, vec![]);
    assert_eq!(session.state(), SessionState::Cancelled);
}

#[test]
fn cancel_after_deltas_keeps_exactly_those_deltas() {
    let mut session = streaming_session(StreamFormat::Ndjson);
    let events = session.on_chunk(
        b"{\"response\":\"one\",\"done\":false}\n{\"response\":\"two\",\"done\":false}\n",
    );
    assert_eq!(events, vec![delta("one"), delta("two")]);
    session.on_cancel();
    assert_eq!(session.state(), SessionState::Cancelled);
    assert_eq!(session.on_chunk(b"{\"response\":\"three\",\"done\":false}\n"), vec![]);
    assert_eq!(session.on_stream_end(), vec![]);
    assert_eq!(session.state(), SessionState::Cancelled);
}

#[test]
fn cancelling_twice_is_the_same_as_once() {
    let mut session = streaming_session(StreamFormat::OpenAiSse);
    session.on_cancel();
    session.on_cancel();
    assert_eq!(session.state(), SessionState::Cancelled);
}

#[test]
fn token_firing_is_idempotent() {
    let mut token = CancellationToken::new();
    assert!(!token.is_fired());
    token.fire();
    assert!(token.is_fired());
    token.fire();
    assert!(token.is_fired());
}

#[test]
fn send_failure_is_terminal_and_silent() {
    let mut session = InferenceSession::new(StreamFormat::AnthropicSse);
    let err = session.on_send_failure(String::from("connection refused"));
    assert_eq!(err.kind, ErrorKind::NetworkError);
    assert_eq!(err.message, "connection refused");
    assert_eq!(session.state(), SessionState::Failed);
    assert_eq!(session.on_chunk(b"data: anything\n"), vec![]);
    assert_eq!(session.on_stream_end(), vec![]);
}

#[test]
fn decoded_completion_ends_the_session() {
    let mut session = streaming_session(StreamFormat::Ndjson);
    let events = session.on_chunk(b"{\"response\":\"done now\",\"done\":true}\n");
    assert_eq!(events, vec![delta("done now"), StreamEvent::Completed]);
    assert_eq!(session.state(), SessionState::Completed);
    assert_eq!(session.on_chunk(b"{\"response\":\"more\",\"done\":false}\n"), vec![]);
}

#[test]
fn early_closed_stream_completes_gracefully() {
    let mut session = streaming_session(StreamFormat::OpenAiSse);
    let events = session.on_chunk(b"data: {\"choices\":[{\"delta\":{\"content\":\"partial\"}}]}\n");
    assert_eq!(events, vec![delta("partial")]);
    let end = session.on_stream_end();
    assert_eq!(end, vec![StreamEvent::Completed]);
    assert_eq!(session.state(), SessionState::Completed);
}

#[test]
fn transport_error_is_delivered_as_the_terminal_event() {
    let mut session = streaming_session(StreamFormat::AnthropicSse);
    let events = session.on_stream_error(String::from("connection reset"));
    assert_eq!(
        events,
        vec![StreamEvent::Failed(ErrorKind::StreamError, String::from("connection reset"))]
    );
    assert_eq!(session.state(), SessionState::Failed);
    assert_eq!(session.on_chunk(b"data: [DONE]\n"), vec![]);
}

#[test]
fn concatenated_deltas_reproduce_the_answer_ndjson() {
    let mut session = streaming_session(StreamFormat::Ndjson);
    let mut answer = String::new();
    let chunks: [&[u8]; 3] = [
        b"{\"response\":\"Hel\",\"done\":false}\n{\"respo",
        b"nse\":\"lo, \",\"done\":false}\n",
        b"{\"response\":\"world\",\"done\":true}\n",
    ];
    let mut terminal = None;
    for chunk in chunks {
        for event in session.on_chunk(chunk) {
            match event {
                StreamEvent::TextDelta(t) => answer.push_str(&t),
                other => terminal = Some(other),
            }
        }
    }
    assert_eq!(answer, "Hello, world");
    assert_eq!(terminal, Some(StreamEvent::Completed));
    assert_eq!(session.state(), SessionState::Completed);
}

#[test]
fn concatenated_deltas_reproduce_the_answer_anthropic() {
    let mut session = streaming_session(StreamFormat::AnthropicSse);
    let mut answer = String::new();
    let body: &[u8] = b"data: {\"type\":\"message_start\"}\n\
data: {\"type\":\"content_block_start\",\"index\":0}\n\
data: {\"type\":\"content_block_delta\",\"delta\":{\"text\":\"Hej \"}}\n\
data: {\"type\":\"content_block_delta\",\"delta\":{\"text\":\"hej\"}}\n\
data: {\"type\":\"content_block_stop\",\"index\":0}\n\
data: {\"type\":\"message_stop\"}\n";
    for event in session.on_chunk(body) {
        match event {
            StreamEvent::TextDelta(t) => answer.push_str(&t),
            other => panic!("unexpected terminal {:?}", other),
        }
    }
    for event in session.on_stream_end() {
        assert_eq!(event, StreamEvent::Completed);
    }
    assert_eq!(answer, "Hej hej");
    assert_eq!(session.state(), SessionState::Completed);
}
