use agents_rs::json::JsonValue;
use agents_rs::tool_parser::{balanced_end, extract_tool_calls};

fn j(text: &str) -> JsonValue {
    JsonValue::from_json_text(text).unwrap()
}

#[test]
fn parses_single_envelope() {
    let calls = extract_tool_calls(r#"{"tool": "add", "args": {"a": 1, "b": 2}}"#);
    assert_eq!(calls.len(), 1);
    assert_eq!(calls[0].name, "add");
    assert_eq!(calls[0].arguments, j(r#"{"a": 1, "b": 2}"#));
}

#[test]
fn parses_envelope_with_surrounding_text() {
    let calls = extract_tool_calls(r#"Sure! {"tool":"echo","args":{"v":3}} done."#);
    assert_eq!(calls.len(), 1);
    assert_eq!(calls[0].name, "echo");
}

#[test]
fn parses_array_of_calls() {
    let calls = extract_tool_calls(r#"[{"tool":"a","args":{"x":1}},{"tool":"b","args":{"y":2}}]"#);
    assert_eq!(calls.len(), 2);
    assert_eq!(calls[0].name, "a");
    assert_eq!(calls[0].id, "0");
    assert_eq!(calls[1].name, "b");
    assert_eq!(calls[1].id, "1");
}

#[test]
fn drops_repeated_envelope_after_first() {
    let calls = extract_tool_calls(r#"{"tool":"a","args":{}} and then {"tool":"b","args":{"k":"v"}}"#);
    assert_eq!(calls.len(), 1);
    assert_eq!(calls[0].name, "a");
}

#[test]
fn drops_repeated_array_after_first() {
    let calls = extract_tool_calls(
        r#"[{"tool":"a","args":{}},{"tool":"b","args":{}}][{"tool":"a","args":{}},{"tool":"b","args":{}}]"#,
    );
    assert_eq!(calls.len(), 2);
    assert_eq!(calls[0].name, "a");
    assert_eq!(calls[1].name, "b");
}

#[test]
fn ignores_non_envelope_json() {
    assert!(extract_tool_calls(r#"{"x": 1}"#).is_empty());
}

#[test]
fn ignores_plain_text() {
    assert!(extract_tool_calls("hello there").is_empty());
}

#[test]
fn missing_args_read_as_empty_object() {
    let calls = extract_tool_calls(r#"{"tool": "ping"}"#);
    assert_eq!(calls.len(), 1);
    assert_eq!(calls[0].arguments, j("{}"));
}

#[test]
fn array_ids_count_only_calls_found() {
    let calls = extract_tool_calls(r#"[{"x":1},{"tool":"b"}]"#);
    assert_eq!(calls.len(), 1);
    assert_eq!(calls[0].id, "0");
}

#[test]
fn balanced_end_skips_brackets_in_strings() {
    let chars: Vec<char> = r#"x{"a":"}]","b":[1,{}]}y"#.chars().collect();
    assert_eq!(balanced_end(&chars, 1), Some(chars.len() - 1));
    let open: Vec<char> = "{[".chars().collect();
    assert_eq!(balanced_end(&open, 0), None);
}
