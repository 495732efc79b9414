use agents_rs::agent::{fn_agent, Response};
use agents_rs::caching::{CacheStep, ResponseCache};
use agents_rs::error::AgentError;
use agents_rs::logging::{LoggingAgent, LoggingStream};
use agents_rs::message::{Context, Message, MessageContent, Role};
use agents_rs::retry::{RetryAgent, RetryDecision};
use agents_rs::schema::kind::SchemaKind;
use agents_rs::schema::typed_agent::extract_input;
use agents_rs::stream::chunk::{Chunk, ToolEvent};
use agents_rs::structured::final_message;
use agents_rs::usage::UsageMetrics;

#[test]
fn retry_decides_up_to_the_limit() {
    let agent = RetryAgent::new((), 2).with_delay_ms(5);
    assert_eq!(agent.after_failure(0), RetryDecision::Retry { delay_ms: 5 });
    assert_eq!(agent.after_failure(1), RetryDecision::Retry { delay_ms: 5 });
    assert_eq!(agent.after_failure(2), RetryDecision::GiveUp);
    assert_eq!(RetryAgent::new((), 0).after_failure(0), RetryDecision::GiveUp);
}

#[test]
fn cache_returns_what_was_stored() {
    let mut cache = ResponseCache::new();
    assert!(cache.get("k").is_none());
    cache.insert("k".to_string(), Response::message("one"));
    cache.insert("k".to_string(), Response::message("two"));
    cache.insert("j".to_string(), Response::message("three"));
    assert_eq!(cache.len(), 2);
    assert!(matches!(cache.get("k"), Some(Response::Message(s)) if s == "two"));
    cache.clear();
    assert_eq!(cache.len(), 0);
}

#[test]
fn logging_stream_tallies_chunks() {
    let agent = LoggingAgent::new("label", 7u8);
    assert_eq!(agent.label(), "label");
    assert_eq!(*agent.inner(), 7);
    let mut s = LoggingStream::new((), "l", std::time::Instant::now());
    s.observe(&Chunk::text("héllo"));
    s.observe(&Chunk::Tool(ToolEvent::Started { id: "1".into(), name: "t".into() }));
    s.observe(&Chunk::end());
    assert_eq!(s.text_chars(), 5);
    assert_eq!(s.tools_started(), 1);
    assert!(s.finish());
    assert!(!s.finish());
}

#[test]
fn error_texts() {
    assert_eq!(AgentError::UnknownTool("x".into()).to_string(), "unknown tool: x");
    assert_eq!(AgentError::MaxIterations(3).to_string(), "tool loop exceeded 3 iterations");
    assert_eq!(AgentError::Other("o".into()).to_string(), "o");
}

#[test]
fn typed_input_is_validated_json() {
    let schema = SchemaKind::object().field("value", SchemaKind::integer()).build();
    let ctx = Context::new().with_user(r#"{"value": 2}"#);
    assert!(extract_input(&ctx, &schema).is_ok());
    match extract_input(&Context::new(), &schema) {
        Err(AgentError::Other(e)) => assert_eq!(e, "no user message to extract typed input from"),
        _ => panic!("expected an error"),
    }
    assert!(matches!(extract_input(&Context::new().with_user("{"), &schema), Err(AgentError::Json(_))));
    match extract_input(&Context::new().with_user(r#"{"value": "x"}"#), &schema) {
        Err(AgentError::Other(e)) => assert!(e.starts_with("schema validation failed: Invalid field 'value'")),
        _ => panic!("expected an error"),
    }
}

#[test]
fn final_message_refuses_tool_calls() {
    assert_eq!(final_message(Response::message("a")).unwrap(), "a");
    assert!(final_message(Response::tool_calls(vec![])).is_err());
}

#[test]
fn usage_builders() {
    let u = UsageMetrics::new().with_tokens(3, 4).with_processing_time_ms(9).with_ttft_ms(2);
    assert_eq!(u.total_tokens, Some(7));
    assert_eq!(u.processing_time_ms, Some(9));
    assert_eq!(u.ttft_ms, Some(2));
}

#[test]
fn context_finds_last_user_text() {
    let ctx = Context::new().with_system("s").with_user("a").with_message(Message::assistant("b")).with_user("c");
    assert_eq!(ctx.last_user_message(), Some("c"));
    assert!(Role::Custom("x".into()) == Role::Custom("x".into()));
    assert!(Role::User != Role::System);
    let mut content = MessageContent::text("a");
    content.push(agents_rs::message::ContentPart::Text { text: "b".into() });
    assert_eq!(content.as_text(), None);
    assert_eq!(content.to_text(), "ab");
}

#[test]
fn fn_agent_holds_its_function() {
    let a = fn_agent(|x: u8| x + 1);
    assert_eq!((a.func())(1), 2);
}

fn double_input_schema() -> SchemaKind {
    SchemaKind::object().field("value", SchemaKind::integer()).build()
}

#[test]
fn adapter_rejects_input_that_fails_schema_validation() {
    let ctx = Context::new().with_user(r#"{"value": "not a number"}"#);
    assert!(extract_input(&ctx, &double_input_schema()).is_err());
}

#[test]
fn adapter_rejects_input_missing_required_field() {
    let ctx = Context::new().with_user(r#"{}"#);
    assert!(extract_input(&ctx, &double_input_schema()).is_err());
}

#[test]
fn adapter_errors_without_user_message() {
    assert!(extract_input(&Context::new(), &double_input_schema()).is_err());
}

#[test]
fn cache_replays_success_and_skips_errors() {
    let mut cache = ResponseCache::new();
    assert!(matches!(cache.begin("k"), CacheStep::Run));
    let r = cache.record("k".to_string(), Err(AgentError::Other("boom".into())));
    assert!(matches!(r, Err(AgentError::Other(e)) if e == "boom"));
    assert_eq!(cache.len(), 0);
    assert!(matches!(cache.begin("k"), CacheStep::Run));
    let r = cache.record("k".to_string(), Ok(Response::message("hi")));
    assert!(matches!(r, Ok(Response::Message(s)) if s == "hi"));
    assert_eq!(cache.len(), 1);
    assert!(matches!(cache.begin("k"), CacheStep::Hit(Response::Message(s)) if s == "hi"));
    assert!(matches!(cache.begin("other"), CacheStep::Run));
}
