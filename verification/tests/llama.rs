use agents_rs::agent::{Response, ToolCall};
use agents_rs::json::JsonValue;
use agents_rs::llama::{
    assistant_reply_json, decode_openai_response, decode_openai_value, ends_with_any_stop, grammar_split, inject_schema_instruction, lcp,
    messages_to_openai_json, prefill_start, stream_route, template_call_chunks, template_reply_json,
    tools_to_openai_json, DeltaState,
};
use agents_rs::message::Message;
use agents_rs::schema::kind::{GrammarSource, SchemaKind};
use agents_rs::stream::chunk::{Chunk, ToolEvent};
use agents_rs::structured::output_schema::OutputSchemaRequest;
use agents_rs::tool::{ToolDefinition, ToolRegistry};
use agents_rs::tool_response::ToolResult;

fn j(text: &str) -> JsonValue {
    JsonValue::from_json_text(text).unwrap()
}

#[test]
fn ends_with_any_stop_gives_byte_cut() {
    let stops = vec!["".to_string(), "<|im_end|>".to_string()];
    assert_eq!(ends_with_any_stop("héllo<|im_end|>", &stops), Some(6));
    assert_eq!(ends_with_any_stop("hello", &stops), None);
    assert_eq!(ends_with_any_stop("", &[]), None);
}

#[test]
fn lcp_counts_shared_prefix() {
    assert_eq!(lcp(&[1, 2, 3], &[1, 2, 4]), 2);
    assert_eq!(lcp(&[], &[1]), 0);
    assert_eq!(lcp(&[5, 6], &[5, 6]), 2);
}

#[test]
fn prefill_reuses_cache_only_for_strict_extension() {
    assert_eq!(prefill_start(&[1, 2], &[1, 2, 3], 100).unwrap(), 2);
    assert_eq!(prefill_start(&[1, 2], &[1, 2], 100).unwrap(), 0);
    assert_eq!(prefill_start(&[1, 9], &[1, 2, 3], 100).unwrap(), 0);
    assert_eq!(prefill_start(&[], &[1, 2, 3], 100).unwrap(), 0);
    match prefill_start(&[], &[], 100) {
        Err(agents_rs::error::AgentError::Other(e)) => assert_eq!(e, "empty prompt"),
        _ => panic!("expected an error"),
    }
    match prefill_start(&[], &[1, 2, 3], 3) {
        Err(agents_rs::error::AgentError::Other(e)) => assert_eq!(e, "prompt tokens (3) >= n_ctx (3)"),
        _ => panic!("expected an error"),
    }
}

#[test]
fn grammar_split_routes_schema_and_gbnf() {
    let req = OutputSchemaRequest::new(SchemaKind::string(), "S");
    let (schema, grammar) = grammar_split(Some(&req));
    assert_eq!(schema.as_deref(), Some(r#"{"type":"string"}"#));
    assert!(grammar.is_none());
    let raw = OutputSchemaRequest::from_grammar(GrammarSource::Gbnf("root ::= x".into()), "G");
    assert_eq!(grammar_split(Some(&raw)), (None, Some("root ::= x".to_string())));
    assert_eq!(grammar_split(None), (None, None));
}

#[test]
fn schema_instruction_joins_the_system_message() {
    let out = inject_schema_instruction(&[Message::user("hi")], "{}");
    assert_eq!(out.len(), 2);
    assert_eq!(
        out[0].as_text(),
        Some("Reply with a single JSON object matching this schema:\n{}\nOutput only the JSON object — no preamble, no markdown.")
    );
}

#[test]
fn messages_render_as_openai_json() {
    let msgs = vec![
        Message::system("s"),
        Message::tool("c1", "echo", ToolResult::Error("bad".into())),
    ];
    assert_eq!(
        messages_to_openai_json(&msgs).unwrap(),
        r#"[{"content":"s","role":"system"},{"content":"Error: bad","role":"tool","tool_call_id":"c1"}]"#
    );
}

#[test]
fn tools_render_as_openai_json() {
    let registry = ToolRegistry::new().register(ToolDefinition::builder("ping", "p").build(), ());
    assert_eq!(
        tools_to_openai_json(&registry),
        r#"[{"function":{"description":"p","name":"ping","parameters":{"properties":{},"required":[],"type":"object"}},"type":"function"}]"#
    );
}

#[test]
fn decode_reads_tool_calls_and_messages() {
    let r = decode_openai_response(
        r#"{"role":"assistant","tool_calls":[{"id":"x","function":{"name":"add","arguments":"{\"a\":1}"}},{"function":{"name":"b","arguments":{"k":2}}}]}"#,
    )
    .unwrap();
    let Response::ToolCalls(calls) = r else { panic!("expected calls") };
    assert_eq!(calls.len(), 2);
    assert_eq!(calls[0].id, "x");
    assert_eq!(calls[0].arguments, j(r#"{"a":1}"#));
    assert_eq!(calls[1].id, "1");
    assert_eq!(calls[1].arguments, j(r#"{"k":2}"#));
    match decode_openai_response(r#"{"content":"hi","tool_calls":[]}"#).unwrap() {
        Response::Message(s) => assert_eq!(s, "hi"),
        _ => panic!("expected a message"),
    }
    match decode_openai_response("nope") {
        Err(agents_rs::error::AgentError::Other(e)) => {
            assert!(e.starts_with("parse_response_oaicompat returned non-JSON: "));
            assert!(e.ends_with("\nraw: nope"));
        },
        _ => panic!("expected an error"),
    }
}

#[test]
fn deltas_become_chunks_with_stable_ids() {
    let mut st = DeltaState::new();
    let c = st.parse_delta(r#"{"content":"Hi"}"#);
    assert_eq!(c, vec![Chunk::text("Hi")]);
    let c = st.parse_delta(r#"{"tool_calls":[{"index":0,"id":"abc","function":{"name":"add","arguments":"{\"a\""}}]}"#);
    assert_eq!(
        c,
        vec![
            Chunk::Tool(ToolEvent::Started { id: "abc".into(), name: "add".into() }),
            Chunk::Tool(ToolEvent::Arguments { id: "abc".into(), fragment: "{\"a\"".into() }),
        ]
    );
    let c = st.parse_delta(r#"{"tool_calls":[{"index":0,"function":{"arguments":":1}"}}]}"#);
    assert_eq!(c, vec![Chunk::Tool(ToolEvent::Arguments { id: "abc".into(), fragment: ":1}".into() })]);
    let c = st.parse_delta(r#"{"tool_calls":[{"index":1,"function":{"name":"b"}}]}"#);
    assert_eq!(
        c,
        vec![
            Chunk::Tool(ToolEvent::Finished { id: "abc".into() }),
            Chunk::Tool(ToolEvent::Started { id: "call_1".into(), name: "b".into() }),
        ]
    );
    assert_eq!(st.final_close(), Some(Chunk::Tool(ToolEvent::Finished { id: "call_1".into() })));
    assert!(st.parse_delta("not json").is_empty());
}

#[test]
fn call_without_id_is_closed_under_its_started_id() {
    let mut st = DeltaState::new();
    assert_eq!(st.final_close(), None);
    let c = st.parse_delta(r#"{"tool_calls":[{"index":0,"function":{"name":"a","arguments":"{}"}}]}"#);
    assert_eq!(c[0], Chunk::Tool(ToolEvent::Started { id: "call_0".into(), name: "a".into() }));
    assert_eq!(st.final_close(), Some(Chunk::Tool(ToolEvent::Finished { id: "call_0".into() })));
    let c = st.parse_delta(r#"{"tool_calls":[{"index":1,"function":{"name":"b"}}]}"#);
    assert_eq!(c[0], Chunk::Tool(ToolEvent::Finished { id: "call_0".into() }));
    assert_eq!(st.final_close(), Some(Chunk::Tool(ToolEvent::Finished { id: "call_1".into() })));
}

#[test]
fn template_calls_become_chunks_and_reply() {
    let calls = vec![ToolCall { id: "call_0".into(), name: "add".into(), arguments: j(r#"{"a":1}"#) }];
    assert_eq!(
        template_call_chunks(&calls),
        vec![
            Chunk::Tool(ToolEvent::Started { id: "call_0".into(), name: "add".into() }),
            Chunk::Tool(ToolEvent::Arguments { id: "call_0".into(), fragment: r#"{"a":1}"#.into() }),
            Chunk::Tool(ToolEvent::Finished { id: "call_0".into() }),
        ]
    );
    assert_eq!(
        template_reply_json("x", &calls, true),
        r#"{"content":"","role":"assistant","tool_calls":[{"function":{"arguments":"{\"a\":1}","name":"add"},"id":"call_0","type":"function"}]}"#
    );
    assert_eq!(template_reply_json("x", &calls, false), r#"{"content":"x","role":"assistant"}"#);
    assert_eq!(assistant_reply_json("y"), r#"{"content":"y","role":"assistant"}"#);
}

#[test]
fn stream_route_uses_template_for_tool_and_schema_turns() {
    assert_eq!(stream_route(true, true, false, false), Some(true));
    assert_eq!(stream_route(true, false, true, false), Some(false));
    assert_eq!(stream_route(true, false, false, false), None);
    assert_eq!(stream_route(false, true, false, false), None);
}

#[test]
fn decoded_value_reads_calls_or_content() {
    match decode_openai_value(&j(r#"{"content":"ok"}"#)) {
        Response::Message(s) => assert_eq!(s, "ok"),
        _ => panic!("expected a message"),
    }
    match decode_openai_value(&j(r#"{"tool_calls":[{"function":{"name":"f","arguments":"{}"}}]}"#)) {
        Response::ToolCalls(c) => {
            assert_eq!(c.len(), 1);
            assert_eq!(c[0].name, "f");
            assert_eq!(c[0].id, "0");
        },
        _ => panic!("expected calls"),
    }
}
