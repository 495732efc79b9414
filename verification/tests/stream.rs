use agents_rs::agent::Response;
use agents_rs::error::AgentError;
use agents_rs::message::Context;
use agents_rs::stream::agents::{CharStreamAgent, FailingStreamAgent, StreamingEchoAgent, WordStreamAgent};
use agents_rs::stream::chunk::{Chunk, ToolEvent};
use agents_rs::stream::collector::StreamCollector;
use agents_rs::stream::turn::{Reaction, Turn};

fn ok_chunks(items: Vec<Result<Chunk, AgentError>>) -> Vec<Chunk> {
    items.into_iter().map(|i| i.unwrap()).collect()
}

fn collected(chunks: &[Chunk]) -> String {
    match StreamCollector::<()>::collect_chunks(chunks) {
        Response::Message(s) => s,
        _ => panic!("expected Message"),
    }
}

#[test]
fn char_stream_agent() {
    let chunks = ok_chunks(CharStreamAgent::new("Hi").stream_items(&Context::new()));
    assert_eq!(chunks, vec![Chunk::text("H"), Chunk::text("i"), Chunk::end()]);
}

#[test]
fn streaming_echo_agent() {
    let chunks = ok_chunks(StreamingEchoAgent.stream_items(&Context::new().with_user("AB")));
    assert_eq!(chunks, vec![Chunk::text("A"), Chunk::text("B"), Chunk::end()]);
}

#[test]
fn word_stream_agent() {
    let chunks = ok_chunks(WordStreamAgent::new("Hello world").stream_items(&Context::new()));
    assert_eq!(chunks, vec![Chunk::text("Hello"), Chunk::text(" world"), Chunk::end()]);
}

#[test]
fn word_stream_collapses_runs_of_white_space() {
    let chunks = ok_chunks(WordStreamAgent::new("  a \t b\n").stream_items(&Context::new()));
    assert_eq!(chunks, vec![Chunk::text("a"), Chunk::text(" b"), Chunk::end()]);
}

#[test]
fn failing_stream_agent() {
    let items = FailingStreamAgent::new("boom").stream_items(&Context::new());
    assert_eq!(items.len(), 1);
    assert!(matches!(&items[0], Err(AgentError::Other(e)) if e == "boom"));
}

#[test]
fn empty_text_stream() {
    let chunks = ok_chunks(CharStreamAgent::new("").stream_items(&Context::new()));
    assert_eq!(chunks, vec![Chunk::end()]);
}

#[test]
fn collector_keeps_only_text() {
    let chunks = ok_chunks(WordStreamAgent::new("Hello world").stream_items(&Context::new()));
    assert_eq!(collected(&chunks), "Hello world");
    let mixed = vec![
        Chunk::text("a"),
        Chunk::Tool(ToolEvent::Started { id: "1".into(), name: "t".into() }),
        Chunk::text("b"),
        Chunk::end(),
    ];
    assert_eq!(collected(&mixed), "ab");
    assert_eq!(collected(&[]), "");
}

#[test]
fn collector_wraps_and_unwraps() {
    let c = StreamCollector::new(CharStreamAgent::new("x"));
    assert_eq!(c.inner().text, "x");
    assert_eq!(c.into_inner().text, "x");
}

#[test]
fn chunk_helpers() {
    assert!(Chunk::text("a").is_text());
    assert!(Chunk::end().is_end());
    assert_eq!(Chunk::text("a").as_text(), Some("a"));
    assert_eq!(Chunk::end().as_text(), None);
}

#[test]
fn collects_char_stream_into_message() {
    let chunks = ok_chunks(CharStreamAgent::new("Test").stream_items(&Context::new()));
    assert_eq!(collected(&chunks), "Test");
}

#[test]
fn collects_word_stream_with_spaces() {
    let chunks = ok_chunks(WordStreamAgent::new("Hello world").stream_items(&Context::new()));
    assert_eq!(collected(&chunks), "Hello world");
}

#[test]
fn empty_stream_yields_empty_message() {
    let chunks = ok_chunks(CharStreamAgent::new("").stream_items(&Context::new()));
    assert_eq!(collected(&chunks), "");
}

#[test]
fn turn_joins_fragments_per_call_after_start() {
    let ev = |e: ToolEvent| Chunk::Tool(e);
    let mut t = Turn::new();
    t.on_chunk(ev(ToolEvent::Arguments { id: "a".into(), fragment: "ignored".into() }));
    t.on_chunk(ev(ToolEvent::Started { id: "a".into(), name: "x".into() }));
    t.on_chunk(ev(ToolEvent::Started { id: "b".into(), name: "y".into() }));
    t.on_chunk(ev(ToolEvent::Arguments { id: "a".into(), fragment: "{\"n\":".into() }));
    t.on_chunk(ev(ToolEvent::Arguments { id: "b".into(), fragment: "[1,".into() }));
    t.on_chunk(ev(ToolEvent::Arguments { id: "a".into(), fragment: "2}".into() }));
    t.on_chunk(ev(ToolEvent::Arguments { id: "b".into(), fragment: "3]".into() }));
    let Reaction::Dispatch { index, args, .. } = t.on_chunk(ev(ToolEvent::Finished { id: "a".into() })) else {
        panic!("expected a dispatch")
    };
    assert_eq!(index, 0);
    assert_eq!(args, agents_rs::json::JsonValue::from_json_text(r#"{"n":2}"#).unwrap());
    let Reaction::Dispatch { index, args, .. } = t.on_chunk(ev(ToolEvent::Finished { id: "b".into() })) else {
        panic!("expected a dispatch")
    };
    assert_eq!(index, 1);
    assert_eq!(args, agents_rs::json::JsonValue::from_json_text("[1,3]").unwrap());
}
