use agents_rs::json::{JsonNumber, JsonValue};
use agents_rs::message::Message;
use agents_rs::templates::calls::{parse_tool_calls, CallIds};
use agents_rs::templates::chatml::{strip_think_blocks, ChatMLTemplate, ThinkingMode};
use agents_rs::templates::gemma4::{strip_gemma_think_channels, Gemma4Template};
use agents_rs::templates::kind::ChatTemplateKind;
use agents_rs::templates::llama3::Llama3Template;
use agents_rs::templates::mistral::MistralTemplate;
use agents_rs::templates::template::ChatTemplate;

fn sample_messages() -> Vec<Message> {
    vec![Message::system("you decompose intents"), Message::user("pin this")]
}

fn num(n: u64) -> JsonValue {
    JsonValue::Number(JsonNumber::PosInt(n))
}

#[test]
fn chatml_none_has_no_prefill() {
    let template = ChatMLTemplate { thinking: ThinkingMode::Off };
    let prompt = template.format(&sample_messages());
    assert!(prompt.ends_with("<|im_start|>assistant\n"));
    assert!(!prompt.contains("<think>"));
}

#[test]
fn chatml_suppressed_prefills_empty_think_block() {
    let template = ChatMLTemplate { thinking: ThinkingMode::Suppressed };
    let prompt = template.format(&sample_messages());
    assert!(prompt.ends_with("<think>\n\n</think>\n\n"));
}

#[test]
fn chatml_enabled_prefills_open_think_tag() {
    let template = ChatMLTemplate { thinking: ThinkingMode::Enabled };
    let prompt = template.format(&sample_messages());
    assert!(prompt.ends_with("<think>\n"));
}

#[test]
fn chatml_prefix_leads_full_format() {
    let template = ChatMLTemplate { thinking: ThinkingMode::Off };
    let prefix = template.format_system_prefix("you decompose intents").unwrap();
    let full = template.format(&sample_messages());
    assert!(full.starts_with(&prefix), "prefix={prefix:?}\nfull={full:?}");
}

#[test]
fn llama3_prefix_leads_full_format() {
    let template = Llama3Template;
    let prefix = template.format_system_prefix("you decompose intents").unwrap();
    let full = template.format(&sample_messages());
    assert!(full.starts_with(&prefix), "prefix={prefix:?}\nfull={full:?}");
}

#[test]
fn gemma4_prefix_leads_full_format() {
    let template = Gemma4Template { thinking: false };
    let prefix = template.format_system_prefix("you decompose intents").unwrap();
    let full = template.format(&sample_messages());
    assert!(full.starts_with(&prefix), "prefix={prefix:?}\nfull={full:?}");
}

#[test]
fn mistral_has_no_stable_prefix() {
    let template = MistralTemplate;
    assert!(template.format_system_prefix("anything").is_none());
}

#[test]
fn gemma_strips_think_channel_blocks() {
    let raw = "before<|channel>thought reasoning here<channel|>after";
    assert_eq!(strip_gemma_think_channels(raw), "beforeafter");
}

#[test]
fn gemma_clean_response_strips_channels() {
    let template = Gemma4Template { thinking: true };
    let cleaned = template.clean_response("hello<|channel>thought xyz<channel|> world");
    assert_eq!(cleaned, "hello world");
}

#[test]
fn kind_roundtrip_through_string() {
    for spec in ["llama3", "gemma4", "gemma4-thinking", "chatml", "chatml-suppressed", "chatml-thinking", "mistral"] {
        let parsed: ChatTemplateKind = spec.parse().unwrap();
        assert_eq!(parsed.to_string(), spec);
    }
}

#[test]
fn kind_unknown_spec_errors() {
    assert!("bogus".parse::<ChatTemplateKind>().is_err());
}

#[test]
fn kind_default_is_chatml_none() {
    assert_eq!(ChatTemplateKind::default().to_string(), "chatml");
}

#[test]
fn parse_tool_calls_extracts_single_call() {
    let output = r#"{"tool": "add", "args": {"a": 2, "b": 3}}"#;
    let calls = parse_tool_calls(output, &mut CallIds::new());
    assert_eq!(calls.len(), 1);
    assert_eq!(calls[0].name, "add");
    assert_eq!(calls[0].arguments.get("a"), Some(&num(2)));
    assert_eq!(calls[0].arguments.get("b"), Some(&num(3)));
}

#[test]
fn parse_tool_calls_finds_call_after_text() {
    let output = "Sure, let me add those.\n{\"tool\": \"add\", \"args\": {\"a\": 1, \"b\": 2}}";
    let calls = parse_tool_calls(output, &mut CallIds::new());
    assert_eq!(calls.len(), 1);
    assert_eq!(calls[0].name, "add");
}

#[test]
fn parse_tool_calls_returns_empty_on_plain_text() {
    let calls = parse_tool_calls("just a chat response, nothing structured", &mut CallIds::new());
    assert!(calls.is_empty());
}

#[test]
fn parse_tool_calls_skips_non_tool_objects() {
    let output = r#"Here is some JSON: {"foo": 1} but no tool call."#;
    let calls = parse_tool_calls(output, &mut CallIds::new());
    assert!(calls.is_empty());
}

#[test]
fn parse_tool_calls_handles_nested_args() {
    let output = r#"{"tool": "search", "args": {"filters": {"type": "code"}}}"#;
    let calls = parse_tool_calls(output, &mut CallIds::new());
    assert_eq!(calls.len(), 1);
    let filters = calls[0].arguments.get("filters").unwrap();
    assert_eq!(filters.get("type"), Some(&JsonValue::String("code".to_string())));
}

#[test]
fn parse_tool_calls_extracts_multiple_calls() {
    let output = r#"{"tool": "a", "args": {}} then {"tool": "b", "args": {"x": 1}}"#;
    let calls = parse_tool_calls(output, &mut CallIds::new());
    assert_eq!(calls.len(), 2);
    assert_eq!(calls[0].name, "a");
    assert_eq!(calls[1].name, "b");
}

#[test]
fn parse_tool_calls_ignores_braces_in_strings() {
    let output = r#"{"tool": "echo", "args": {"text": "hello {world}"}}"#;
    let calls = parse_tool_calls(output, &mut CallIds::new());
    assert_eq!(calls.len(), 1);
    assert_eq!(calls[0].arguments.get("text"), Some(&JsonValue::String("hello {world}".to_string())));
}

#[test]
fn parse_tool_calls_assigns_unique_ids() {
    let output = r#"{"tool": "a", "args": {}} {"tool": "b", "args": {}}"#;
    let calls = parse_tool_calls(output, &mut CallIds::new());
    assert_eq!(calls.len(), 2);
    assert_ne!(calls[0].id, calls[1].id);
}

#[test]
fn call_ids_keep_counting_across_outputs() {
    let mut ids = CallIds::new();
    let first = parse_tool_calls(r#"{"tool": "a", "args": {}}"#, &mut ids);
    let second = parse_tool_calls(r#"{"tool": "b", "args": {}}"#, &mut ids);
    assert_eq!(first[0].id, "call_0");
    assert_eq!(second[0].id, "call_1");
}

#[test]
fn chatml_formats_every_role() {
    let template = ChatMLTemplate { thinking: ThinkingMode::Off };
    let prompt = template.format(&[
        Message::system("sys"),
        Message::user("hi"),
        Message::assistant("<think>plan</think>hello"),
    ]);
    assert_eq!(
        prompt,
        "<|im_start|>system\nsys<|im_end|>\n<|im_start|>user\nhi<|im_end|>\n<|im_start|>assistant\nhello<|im_end|>\n<|im_start|>assistant\n"
    );
}

#[test]
fn strip_think_blocks_drops_unclosed_block() {
    assert_eq!(strip_think_blocks("a<think>b</think>c<think>d"), "ac");
    assert_eq!(strip_think_blocks("plain"), "plain");
}

#[test]
fn gemma_thinking_marks_only_first_system_turn() {
    let template = Gemma4Template { thinking: true };
    let prompt = template.format(&[Message::system("one"), Message::system("two")]);
    assert_eq!(
        prompt,
        "<bos><|turn>system\n<|think|>\none<turn|>\n<|turn>system\ntwo<turn|>\n<|turn>model\n"
    );
}

#[test]
fn mistral_inlines_system_into_first_user_turn() {
    let prompt = MistralTemplate.format(&[
        Message::system("be brief"),
        Message::user("hi"),
        Message::assistant("hello"),
        Message::user("again"),
    ]);
    assert_eq!(prompt, "<s>[INST] be brief\n\nhi [/INST]hello</s>[INST] again [/INST]");
}

#[test]
fn llama3_dated_format_with_fixed_date() {
    let prompt = Llama3Template.format_dated(&sample_messages(), "01 Jan 2024");
    assert_eq!(
        prompt,
        "<|begin_of_text|><|start_header_id|>system<|end_header_id|>\n\nCutting Knowledge Date: December 2023\nToday Date: 01 Jan 2024\n\nyou decompose intents<|eot_id|><|start_header_id|>user<|end_header_id|>\n\npin this<|eot_id|><|start_header_id|>assistant<|end_header_id|>\n\n"
    );
}

#[test]
fn kind_parse_error_names_the_input() {
    let err = ChatTemplateKind::parse("bogus").unwrap_err();
    assert!(err.starts_with("unknown chat template: 'bogus'"));
}

#[test]
fn parse_tool_calls_refuses_repeated_call_fields() {
    let mut ids = CallIds::new();
    assert!(parse_tool_calls(r#"{"tool": "a", "tool": "b", "args": {}}"#, &mut ids).is_empty());
    assert!(parse_tool_calls(r#"{"tool": "a", "args": {}, "args": {"x": 1}}"#, &mut ids).is_empty());
    assert!(parse_tool_calls(r#"{"tool": "a", "to\u006fl": "b", "args": {}}"#, &mut ids).is_empty());
    let calls = parse_tool_calls(r#"{"tool": "a", "args": {"tool": 1, "tool": 2}, "note": "args"}"#, &mut ids);
    assert_eq!(calls.len(), 1);
    assert_eq!(calls[0].name, "a");
}

#[test]
fn from_str_matches_parse() {
    assert_eq!("mistral".parse::<ChatTemplateKind>(), ChatTemplateKind::parse("mistral"));
    assert_eq!(
        "nope".parse::<ChatTemplateKind>(),
        Err("unknown chat template: 'nope' (expected: llama3, gemma4, gemma4-thinking, chatml, chatml-suppressed, chatml-thinking, mistral)".to_string())
    );
}
