use agents_rs::agent::{Response, ToolCall};
use agents_rs::error::AgentError;
use agents_rs::json::JsonValue;
use agents_rs::message::Context;
use agents_rs::schema::kind::SchemaKind;
use agents_rs::stream::chunk::{Chunk, ToolEvent};
use agents_rs::stream::loop_event::{DriveStep, StreamLoop};
use agents_rs::stream::turn::Reaction;
use agents_rs::structured::output_schema::OutputSchemaRequest;
use agents_rs::tool::{ToolDefinition, ToolRegistry};
use agents_rs::tool_loop::{render_tool_envelope, validates_against_schema, LoopStep, ToolLoop};

fn j(text: &str) -> JsonValue {
    JsonValue::from_json_text(text).unwrap()
}

fn echo_registry() -> ToolRegistry<()> {
    ToolRegistry::new().register(ToolDefinition::builder("echo", "Echo back the input.").build(), ())
}

fn call(id: &str, name: &str, args: &str) -> ToolCall {
    ToolCall { id: id.to_string(), name: name.to_string(), arguments: j(args) }
}

#[test]
fn tool_loop_runs_tool_then_returns_message() {
    let registry = echo_registry();
    let (mut lp, step) = ToolLoop::new(Context::new(), 4);
    assert!(matches!(step, LoopStep::Ask(_)));
    let step = lp.on_reply(Response::tool_calls(vec![call("1", "echo", r#"{"v": 42}"#)]), &registry);
    let LoopStep::Run(c) = step else { panic!("expected a tool run") };
    assert_eq!(c.name, "echo");
    let step = lp.on_result(c.arguments.clone(), &registry);
    let LoopStep::Ask(ctx) = step else { panic!("expected another ask") };
    assert_eq!(ctx.messages.len(), 2);
    assert_eq!(ctx.messages[0].as_text(), Some(r#"{"args":{"v":42},"tool":"echo"}"#));
    let step = lp.on_reply(Response::message("done"), &registry);
    assert!(matches!(step, LoopStep::Done(s) if s == "done"));
}

#[test]
fn unknown_tool_errors() {
    let registry = ToolRegistry::<()>::new();
    let (mut lp, _) = ToolLoop::new(Context::new(), 2);
    let step = lp.on_reply(Response::tool_calls(vec![call("1", "missing", "{}")]), &registry);
    assert!(matches!(step, LoopStep::Fail(AgentError::UnknownTool(n)) if n == "missing"));
}

#[test]
fn tool_loop_gives_up_after_max_iterations() {
    let registry = echo_registry();
    let (mut lp, _) = ToolLoop::new(Context::new(), 2);
    for round in 0..2 {
        let step = lp.on_reply(Response::tool_calls(vec![call("1", "echo", "{}")]), &registry);
        let LoopStep::Run(_) = step else { panic!("expected a tool run") };
        let step = lp.on_result(j("{}"), &registry);
        if round == 0 {
            assert!(matches!(step, LoopStep::Ask(_)));
        } else {
            assert!(matches!(step, LoopStep::Fail(AgentError::MaxIterations(2))));
        }
    }
}

#[test]
fn zero_iterations_fail_at_once() {
    let (_, step) = ToolLoop::new(Context::new(), 0);
    assert!(matches!(step, LoopStep::Fail(AgentError::MaxIterations(0))));
}

fn point_request() -> OutputSchemaRequest {
    OutputSchemaRequest::new(
        SchemaKind::object().field("x", SchemaKind::integer()).field("y", SchemaKind::integer()).build(),
        "Point",
    )
}

#[test]
fn structured_loop_returns_conforming_message_verbatim() {
    let registry = echo_registry();
    let (mut lp, _) = ToolLoop::structured(Context::new(), 3, point_request());
    let step = lp.on_reply(Response::message(r#"{"x": 1, "y": 2}"#), &registry);
    assert!(matches!(step, LoopStep::Done(s) if s == r#"{"x": 1, "y": 2}"#));
}

#[test]
fn structured_loop_repeat_switches_to_schema_turn() {
    let registry = echo_registry();
    let (mut lp, _) = ToolLoop::structured(Context::new(), 5, point_request());
    let LoopStep::Run(_) = lp.on_reply(Response::tool_calls(vec![call("1", "echo", r#"{"v":1}"#)]), &registry) else {
        panic!("expected a tool run")
    };
    let LoopStep::Ask(_) = lp.on_result(j("1"), &registry) else { panic!("expected an ask") };
    let step = lp.on_reply(Response::tool_calls(vec![call("2", "echo", r#"{"v":1}"#)]), &registry);
    let LoopStep::Ask(ctx) = step else { panic!("expected the schema turn") };
    assert!(ctx.output_schema_request().is_some());
    let step = lp.on_reply(Response::message("not json"), &registry);
    match step {
        LoopStep::Fail(AgentError::Other(e)) => {
            assert_eq!(e, "schema turn produced non-conforming output for Point:\nnot json")
        },
        other => panic!("unexpected {other:?}"),
    }
}

#[test]
fn structured_loop_off_shape_answer_gets_schema_turn() {
    let registry = echo_registry();
    let (mut lp, _) = ToolLoop::structured(Context::new(), 3, point_request());
    let LoopStep::Ask(ctx) = lp.on_reply(Response::message("x is 1"), &registry) else { panic!("expected ask") };
    assert_eq!(ctx.messages.len(), 1);
    assert!(ctx.output_schema_request().is_some());
    let step = lp.on_reply(Response::message(r#"{"x":1,"y":2}"#), &registry);
    assert!(matches!(step, LoopStep::Done(_)));
}

#[test]
fn envelope_renders_one_call_as_object_and_many_as_array() {
    assert_eq!(render_tool_envelope(&[call("1", "a", "{}")]), r#"{"args":{},"tool":"a"}"#);
    assert_eq!(
        render_tool_envelope(&[call("1", "a", "{}"), call("2", "b", "[1]")]),
        r#"[{"args":{},"tool":"a"},{"args":[1],"tool":"b"}]"#
    );
}

#[test]
fn schema_check_parses_then_validates() {
    let req = point_request();
    assert!(validates_against_schema(r#"{"x":1,"y":2}"#, &req));
    assert!(!validates_against_schema(r#"{"x":1}"#, &req));
    assert!(!validates_against_schema("nope", &req));
    let gbnf = OutputSchemaRequest::from_grammar(agents_rs::schema::kind::GrammarSource::Gbnf("root ::= x".into()), "G");
    assert!(validates_against_schema("[1]", &gbnf));
}

fn tool_chunk(e: ToolEvent) -> Chunk {
    Chunk::Tool(e)
}

#[test]
fn stream_loop_dispatches_then_finishes() {
    let (mut lp, step) = StreamLoop::start(Context::new(), 3, None);
    assert!(matches!(step, DriveStep::Stream(_)));
    assert!(matches!(lp.on_chunk(Chunk::text("thinking ")), Reaction::Text(_)));
    assert!(matches!(
        lp.on_chunk(tool_chunk(ToolEvent::Started { id: "t1".into(), name: "echo".into() })),
        Reaction::Started { .. }
    ));
    assert!(matches!(
        lp.on_chunk(tool_chunk(ToolEvent::Started { id: "t1".into(), name: "other".into() })),
        Reaction::Quiet
    ));
    lp.on_chunk(tool_chunk(ToolEvent::Arguments { id: "t1".into(), fragment: "{\"v\":".into() }));
    lp.on_chunk(tool_chunk(ToolEvent::Arguments { id: "t1".into(), fragment: "1}".into() }));
    let Reaction::Dispatch { index, id, name, args } = lp.on_chunk(tool_chunk(ToolEvent::Finished { id: "t1".into() })) else {
        panic!("expected a dispatch")
    };
    assert_eq!(index, 0);
    assert_eq!(id, "t1");
    assert_eq!(name, "echo");
    assert_eq!(args, j(r#"{"v":1}"#));
    lp.on_dispatched(index, j("7"));
    assert!(matches!(lp.on_chunk(tool_chunk(ToolEvent::Finished { id: "t1".into() })), Reaction::Quiet));
    assert!(matches!(lp.on_chunk(Chunk::end()), Reaction::End));
    let DriveStep::Stream(ctx) = lp.end_turn() else { panic!("expected another turn") };
    assert_eq!(ctx.messages.len(), 2);
    assert_eq!(ctx.messages[0].as_text(), Some(r#"{"args":{"v":1},"tool":"echo"}"#));
    lp.on_chunk(Chunk::text("all done"));
    assert!(matches!(lp.end_turn(), DriveStep::Done(s) if s == "all done"));
}

#[test]
fn stream_loop_schema_turn_collects_text() {
    let (mut lp, _) = StreamLoop::start(Context::new(), 1, Some(point_request()));
    lp.on_chunk(Chunk::text("not json"));
    let DriveStep::Stream(ctx) = lp.end_turn() else { panic!("expected the schema turn") };
    assert!(ctx.output_schema_request().is_some());
    lp.on_chunk(Chunk::text("{\"x\":1,"));
    lp.on_chunk(Chunk::text("\"y\":2}"));
    assert!(matches!(lp.end_turn(), DriveStep::Done(s) if s == "{\"x\":1,\"y\":2}"));
}

#[test]
fn stream_loop_without_schema_fails_at_limit() {
    let (mut lp, _) = StreamLoop::start(Context::new(), 1, None);
    lp.on_chunk(tool_chunk(ToolEvent::Started { id: "a".into(), name: "echo".into() }));
    assert!(matches!(lp.end_turn(), DriveStep::Fail(AgentError::MaxIterations(1))));
}

#[test]
fn dispatch_consumer_sees_held_back_answer_once() {
    let (mut lp, _) = StreamLoop::start(Context::new(), 2, None);
    assert!(!lp.forwards_text());
    lp.on_chunk(Chunk::text("final"));
    lp.on_chunk(Chunk::end());
    let (step, shown) = lp.end_turn_shown();
    assert!(matches!(step, DriveStep::Done(s) if s == "final"));
    assert_eq!(shown.as_deref(), Some("final"));

    let (mut lp, _) = StreamLoop::start(Context::new(), 1, Some(point_request()));
    lp.on_chunk(Chunk::text("not json"));
    let (step, shown) = lp.end_turn_shown();
    assert!(matches!(step, DriveStep::Stream(_)));
    assert_eq!(shown, None);
    assert!(lp.forwards_text());
    lp.on_chunk(Chunk::text(r#"{"x":1,"y":2}"#));
    let (step, shown) = lp.end_turn_shown();
    assert!(matches!(step, DriveStep::Done(s) if s == r#"{"x":1,"y":2}"#));
    assert_eq!(shown, None);
}
