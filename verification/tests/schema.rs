use agents_rs::json::{json_str, JsonValue};
use agents_rs::schema::kind::{GrammarSource, SchemaKind};
use agents_rs::schema::validation::SchemaValidationError;

fn j(text: &str) -> JsonValue {
    JsonValue::from_json_text(text).unwrap()
}

fn s(text: &str) -> JsonValue {
    JsonValue::String(text.to_string())
}

#[test]
fn primitives_match_constructors() {
    assert_eq!(SchemaKind::string(), SchemaKind::String);
    assert_eq!(SchemaKind::number(), SchemaKind::Number);
    assert_eq!(SchemaKind::integer(), SchemaKind::Integer);
    assert_eq!(SchemaKind::boolean(), SchemaKind::Boolean);
    assert_eq!(SchemaKind::any(), SchemaKind::Any);
}

#[test]
fn object_builder_records_required_and_descriptions() {
    let schema = SchemaKind::object()
        .field("name", SchemaKind::string())
        .field_with_desc("age", SchemaKind::integer(), "User's age")
        .optional_field("email", SchemaKind::string())
        .build();
    let SchemaKind::Object { fields } = schema else {
        panic!("expected object");
    };
    assert_eq!(fields.len(), 3);
    assert!(fields[0].required);
    assert_eq!(fields[1].description, "User's age");
    assert!(!fields[2].required);
}

#[test]
fn enum_builder_supports_units_and_data_variants() {
    let schema = SchemaKind::enumeration()
        .unit("low")
        .unit_with_desc("medium", "Medium priority")
        .variant("custom", SchemaKind::object().field("value", SchemaKind::integer()).build())
        .build();
    let SchemaKind::Enum { variants } = schema else {
        panic!("expected enum");
    };
    assert_eq!(variants.len(), 3);
    assert!(variants[0].data.is_none());
    assert_eq!(variants[1].description, "Medium priority");
    assert!(variants[2].data.is_some());
}

#[test]
fn json_schema_object() {
    let schema = SchemaKind::object()
        .field("name", SchemaKind::string())
        .field("age", SchemaKind::integer())
        .build();
    let json = schema.to_json_schema();
    assert_eq!(json.get("type"), Some(&s("object")));
    let props = json.get("properties").unwrap();
    assert_eq!(props.get("name").unwrap().get("type"), Some(&s("string")));
    assert_eq!(props.get("age").unwrap().get("type"), Some(&s("integer")));
}

#[test]
fn json_schema_array() {
    let json = SchemaKind::array(SchemaKind::string()).to_json_schema();
    assert_eq!(json.get("type"), Some(&s("array")));
    assert_eq!(json.get("items").unwrap().get("type"), Some(&s("string")));
}

#[test]
fn json_schema_simple_enum() {
    let schema = SchemaKind::enumeration().unit("a").unit("b").unit("c").build();
    let json = schema.to_json_schema();
    assert_eq!(json.get("type"), Some(&s("string")));
    assert!(json.get("enum").unwrap().as_array().unwrap().contains(&s("a")));
}

#[test]
fn validate_primitives() {
    assert!(SchemaKind::string().validate(&j("\"hi\"")).is_ok());
    assert!(SchemaKind::string().validate(&j("1")).is_err());

    assert!(SchemaKind::number().validate(&j("3.14")).is_ok());
    assert!(SchemaKind::number().validate(&j("\"3\"")).is_err());

    assert!(SchemaKind::integer().validate(&j("42")).is_ok());
    assert!(SchemaKind::integer().validate(&j("42.0")).is_ok());
    assert!(SchemaKind::integer().validate(&j("3.14")).is_err());

    assert!(SchemaKind::boolean().validate(&j("true")).is_ok());
    assert!(SchemaKind::boolean().validate(&j("1")).is_err());

    assert!(SchemaKind::any().validate(&j("null")).is_ok());
}

#[test]
fn validate_literal() {
    let schema = SchemaKind::literal(json_str("hello"));
    assert!(schema.validate(&j("\"hello\"")).is_ok());
    assert!(schema.validate(&j("\"world\"")).is_err());
}

#[test]
fn validate_array_and_optional_and_map() {
    let arr = SchemaKind::array(SchemaKind::string());
    assert!(arr.validate(&j(r#"["a", "b"]"#)).is_ok());
    assert!(arr.validate(&j("[1]")).is_err());

    let opt = SchemaKind::optional(SchemaKind::string());
    assert!(opt.validate(&j("null")).is_ok());
    assert!(opt.validate(&j("\"x\"")).is_ok());
    assert!(opt.validate(&j("1")).is_err());

    let map = SchemaKind::map(SchemaKind::integer());
    assert!(map.validate(&j(r#"{"a": 1, "b": 2}"#)).is_ok());
    assert!(map.validate(&j(r#"{"a": "x"}"#)).is_err());
}

#[test]
fn validate_object_required_and_optional() {
    let schema = SchemaKind::object()
        .field("name", SchemaKind::string())
        .optional_field("nickname", SchemaKind::string())
        .build();
    assert!(schema.validate(&j(r#"{"name": "A"}"#)).is_ok());
    assert!(schema.validate(&j(r#"{"name": "A", "nickname": "B"}"#)).is_ok());
    assert!(schema.validate(&j("{}")).is_err());
    assert!(schema.validate(&j(r#"{"name": "A", "nickname": 1}"#)).is_err());
}

#[test]
fn validate_simple_enum() {
    let schema = SchemaKind::enumeration().unit("low").unit("high").build();
    assert!(schema.validate(&j("\"low\"")).is_ok());
    assert!(schema.validate(&j("\"nope\"")).is_err());
    assert!(schema.validate(&j("1")).is_err());
}

#[test]
fn validate_tagged_union() {
    let schema = SchemaKind::enumeration()
        .variant("read", SchemaKind::object().field("path", SchemaKind::string()).build())
        .variant(
            "write",
            SchemaKind::object()
                .field("path", SchemaKind::string())
                .field("content", SchemaKind::string())
                .build(),
        )
        .unit("list")
        .build();

    assert!(schema.validate(&j(r#"{"type": "read", "path": "/x"}"#)).is_ok());
    assert!(schema.validate(&j(r#"{"type": "write", "path": "/x", "content": "y"}"#)).is_ok());
    assert!(schema.validate(&j(r#"{"type": "list"}"#)).is_ok());
    assert!(schema.validate(&j(r#"{"type": "read"}"#)).is_err());
    assert!(schema.validate(&j(r#"{"type": "nope"}"#)).is_err());
}

#[test]
fn regex_primitives_match_canonical_values() {
    let s = regex::Regex::new(&SchemaKind::string().to_regex()).unwrap();
    assert!(s.is_match(r#""hello""#));
    let i = regex::Regex::new(&SchemaKind::integer().to_regex()).unwrap();
    assert!(i.is_match("42"));
    assert!(i.is_match("-1"));
    let b = regex::Regex::new(&SchemaKind::boolean().to_regex()).unwrap();
    assert!(b.is_match("true"));
    assert!(b.is_match("false"));
}

#[test]
fn regex_compiles_for_all_basic_shapes() {
    let schemas = [
        SchemaKind::string(),
        SchemaKind::number(),
        SchemaKind::integer(),
        SchemaKind::boolean(),
        SchemaKind::any(),
        SchemaKind::array(SchemaKind::string()),
        SchemaKind::optional(SchemaKind::string()),
        SchemaKind::map(SchemaKind::integer()),
        SchemaKind::object().field("name", SchemaKind::string()).build(),
        SchemaKind::enumeration().unit("a").unit("b").build(),
    ];
    for schema in schemas {
        let pattern = schema.to_regex();
        regex::Regex::new(&pattern)
            .unwrap_or_else(|e| panic!("regex compile failed for {schema:?}: {e}\n{pattern}"));
    }
}

#[test]
fn empty_object_round_trips() {
    let schema = SchemaKind::object().build();
    assert_eq!(schema.to_gbnf(), "\"{}\"");
    let json = schema.to_json_schema();
    match json.get("properties") {
        Some(JsonValue::Object(entries)) => assert!(entries.is_empty()),
        other => panic!("expected an object, got {other:?}"),
    }
    let re = regex::Regex::new(&schema.to_regex()).unwrap();
    assert!(re.is_match("{}"));
    assert!(schema.validate(&j("{}")).is_ok());
}

#[test]
fn tagged_enum_inlines_object_fields_in_gbnf_and_regex() {
    let schema = SchemaKind::enumeration()
        .unit("stop")
        .variant(
            "move_to",
            SchemaKind::object().field("x", SchemaKind::number()).field("y", SchemaKind::number()).build(),
        )
        .build();
    let gbnf = schema.to_gbnf();
    assert!(!gbnf.contains("\"{{\""), "gbnf nested braces: {gbnf}");
    assert!(gbnf.contains('x') && gbnf.contains('y'));

    let re = regex::Regex::new(&schema.to_regex()).unwrap();
    assert!(re.is_match(r#"{"type":"stop"}"#));
    assert!(re.is_match(r#"{"type":"move_to","x":1,"y":2}"#));
    assert!(!re.is_match(r#"{"type":"move_to",{"x":1,"y":2}}"#));
}

#[test]
fn tagged_enum_wraps_non_object_data_under_data_key() {
    let schema = SchemaKind::enumeration()
        .unit("none")
        .variant("names", SchemaKind::array(SchemaKind::string()))
        .build();

    let gbnf = schema.to_gbnf();
    assert!(gbnf.contains("data"));

    let re = regex::Regex::new(&schema.to_regex()).unwrap();
    assert!(re.is_match(r#"{"type":"names","data":["a","b"]}"#));
    assert!(!re.is_match(r#"{"type":"names",["a","b"]}"#));

    let json = schema.to_json_schema();
    let one_of = json.get("oneOf").unwrap().as_array().unwrap();
    assert!(one_of[1].get("properties").unwrap().get("data").unwrap().is_object());
}

#[test]
fn grammar_source_routes_per_backend() {
    let schema = SchemaKind::object().field("answer", SchemaKind::string()).build();
    let from_schema = GrammarSource::Schema(schema.clone());
    assert!(from_schema.to_json_schema().is_some());
    assert!(from_schema.to_regex().is_some());
    assert!(!from_schema.to_gbnf().is_empty());

    let raw = GrammarSource::Gbnf("root ::= \"x\"\n".into());
    assert!(raw.to_json_schema().is_none());
    assert!(raw.to_regex().is_none());
    assert_eq!(raw.to_gbnf(), "root ::= \"x\"\n");
}

#[test]
fn validation_error_text_names_the_path() {
    let schema = SchemaKind::object().field("tags", SchemaKind::array(SchemaKind::string())).build();
    let err = schema.validate(&j(r#"{"tags": ["a", 2]}"#)).unwrap_err();
    assert_eq!(
        err.to_string(),
        "Invalid field 'tags': Invalid array element at index 1: Type mismatch: expected string, got integer"
    );
}

#[test]
fn json_text_round_trips() {
    let v = j(r#"{"b": [1, -2, 1.5], "a": null}"#);
    assert_eq!(v.to_json_text(), r#"{"a":null,"b":[1,-2,1.5]}"#);
    assert!(JsonValue::from_json_text("{not json").is_none());
}

#[test]
fn array_reports_first_invalid_element() {
    let s = SchemaKind::array(SchemaKind::integer());
    assert!(s.validate(&j("[1, 2, 3]")).is_ok());
    match s.validate(&j(r#"[1, "a", "b"]"#)) {
        Err(SchemaValidationError::InvalidArrayElement { index, .. }) => assert_eq!(index, 1),
        other => panic!("unexpected {:?}", other),
    }
}
