use agents_rs::json::JsonValue;
use agents_rs::message::Message;
use agents_rs::schema::kind::SchemaKind;
use agents_rs::templates::chatml::{ChatMLTemplate, ThinkingMode};
use agents_rs::templates::grammar::GbnfToolCallGrammar;
use agents_rs::templates::kind::ChatTemplateKind;
use agents_rs::templates::prompt::{build_tools_summary, format_prompt, prepare_messages_with_tools};
use agents_rs::tool::{ToolDefinition, ToolRegistry};
use agents_rs::error::AgentError;

fn echo_def() -> ToolDefinition {
    ToolDefinition::builder("echo", "Echo back the message")
        .input(SchemaKind::object().field("message", SchemaKind::string()).build())
        .output(SchemaKind::string())
        .build()
}

fn add_def() -> ToolDefinition {
    ToolDefinition::builder("add", "Add two numbers")
        .input(SchemaKind::object().field("a", SchemaKind::number()).field("b", SchemaKind::number()).build())
        .output(SchemaKind::number())
        .build()
}

fn s(text: &str) -> JsonValue {
    JsonValue::String(text.to_string())
}

#[test]
fn register_and_lookup() {
    let registry = ToolRegistry::new().register(echo_def(), 1u8).register(add_def(), 2u8);
    assert_eq!(registry.len(), 2);
    assert!(registry.contains("echo"));
    assert!(registry.contains("add"));
    assert!(registry.get("missing").is_none());
}

#[test]
fn combined_schema_has_one_variant_per_tool() {
    let registry = ToolRegistry::new().register(echo_def(), ()).register(add_def(), ());
    let SchemaKind::Enum { variants } = registry.to_combined_schema() else {
        panic!("expected enum schema");
    };
    assert_eq!(variants.len(), 2);
}

#[test]
fn anthropic_tools_carry_input_schema() {
    let registry = ToolRegistry::new().register(echo_def(), ());
    let tools = registry.to_anthropic_tools();
    assert_eq!(tools.len(), 1);
    assert_eq!(tools[0].get("name"), Some(&s("echo")));
    assert_eq!(tools[0].get("input_schema").unwrap().get("type"), Some(&s("object")));
}

#[test]
fn tool_call_grammar_lists_each_tool_as_alternative() {
    let registry = ToolRegistry::new().register(echo_def(), ()).register(add_def(), ());
    let grammar = registry.to_tool_call_grammar();
    assert!(grammar.starts_with("root ::="));
    assert!(grammar.contains("echo"));
    assert!(grammar.contains("add"));
}

#[test]
fn empty_registry_grammar_is_empty_object() {
    let grammar = ToolRegistry::<()>::new().to_tool_call_grammar();
    assert_eq!(grammar, "root ::= \"{}\"");
}

#[test]
fn registering_a_name_again_replaces_its_tool() {
    let registry = ToolRegistry::new().register(echo_def(), 1u8).register(add_def(), 2u8).register(echo_def(), 3u8);
    assert_eq!(registry.len(), 2);
    assert_eq!(registry.get("echo"), Some(&3u8));
    assert_eq!(registry.names(), vec!["echo".to_string(), "add".to_string()]);
}

#[test]
fn merge_prefers_the_second_registry() {
    let a = ToolRegistry::new().register(echo_def(), 1u8).register(add_def(), 2u8);
    let b = ToolRegistry::new().register(add_def(), 9u8);
    let merged = a.merge(b);
    assert_eq!(merged.len(), 2);
    assert_eq!(merged.get("add"), Some(&9u8));
    assert_eq!(merged.get("echo"), Some(&1u8));
}

#[test]
fn resolve_reports_unknown_tool() {
    let registry = ToolRegistry::new().register(echo_def(), ());
    assert!(registry.resolve("echo").is_ok());
    match registry.resolve("missing") {
        Err(AgentError::UnknownTool(name)) => assert_eq!(name, "missing"),
        other => panic!("expected unknown tool, got {:?}", other.map(|_| ())),
    }
}

#[test]
fn tool_call_grammar_exact_text() {
    let def = ToolDefinition::builder("ping", "").build();
    let registry = ToolRegistry::new().register(def, ());
    assert_eq!(
        registry.to_tool_call_grammar(),
        "root ::= (\"{\\\"name\\\":\\\"ping\\\"\" \",\\\"arguments\\\":\" \"{}\" \"}\")"
    );
}

#[test]
fn gbnf_grammar_from_registry() {
    assert!(GbnfToolCallGrammar::from_registry(&ToolRegistry::<()>::new()).is_none());
    let registry = ToolRegistry::new().register(ToolDefinition::builder("ping", "").build(), ());
    let g = GbnfToolCallGrammar::from_registry(&registry).unwrap();
    assert!(g.starts_with("root ::= block+\nblock ::= text | tool-call\ntext ::= [^{]+\ntool-call ::= (\"{\" ws \"\\\"tool\\\":\" ws \"\\\"ping\\\"\" ws"));
    assert!(g.contains("\nws ::= [ \\t\\n]*\n"));
    assert!(g.ends_with("ws \"}\"\n"));
}

#[test]
fn tools_summary_lists_names_and_descriptions() {
    assert!(build_tools_summary(&ToolRegistry::<()>::new()).is_none());
    let registry = ToolRegistry::new()
        .register(echo_def(), ())
        .register(ToolDefinition::builder("ping", "").build(), ());
    assert_eq!(
        build_tools_summary(&registry).unwrap(),
        "Tools (call with JSON {\"tool\": \"name\", \"args\": {...}}):\n- echo: Echo back the message\n- ping"
    );
}

#[test]
fn tools_summary_goes_into_the_system_message() {
    let registry = ToolRegistry::new().register(ToolDefinition::builder("ping", "").build(), ());
    let summary = build_tools_summary(&registry).unwrap();
    let prepared = prepare_messages_with_tools(&[Message::system("sys"), Message::user("hi")], Some(&summary));
    assert_eq!(prepared.len(), 2);
    assert_eq!(prepared[0].as_text(), Some(format!("sys\n\n{summary}").as_str()));

    let without_system = prepare_messages_with_tools(&[Message::user("hi")], Some(&summary));
    assert_eq!(without_system.len(), 2);
    assert_eq!(without_system[0].as_text(), Some(summary.as_str()));

    let prompt = format_prompt(
        &[Message::user("hi")],
        Some(&registry),
        &ChatTemplateKind::ChatML(ChatMLTemplate { thinking: ThinkingMode::Off }),
    );
    assert!(prompt.starts_with(&format!("<|im_start|>system\n{summary}<|im_end|>\n")));
}

#[test]
fn execute_unknown_tool_yields_unknown_tool_error() {
    let registry: ToolRegistry<()> = ToolRegistry::new();
    assert!(matches!(registry.resolve("missing"), Err(AgentError::UnknownTool(_))));
}
