use agents_rs::json::{JsonNumber, JsonValue};
use agents_rs::schema::kind::SchemaKind;
use agents_rs::structured::output_schema::OutputSchemaRequest;

#[test]
fn test_output_schema_request_new() {
    let request = OutputSchemaRequest::new(SchemaKind::string(), "MyType");

    assert_eq!(request.type_label, "MyType");
    assert!(request.strict);
    assert!(request.description.is_none());
    assert!(request.example.is_none());
}

#[test]
fn test_output_schema_request_builder() {
    let request = OutputSchemaRequest::new(SchemaKind::integer(), "Score")
        .with_description("A score from 1-100")
        .with_example(JsonValue::Number(JsonNumber::PosInt(75)))
        .strict(false);

    assert_eq!(request.description, Some("A score from 1-100".into()));
    assert_eq!(request.example, Some(JsonValue::Number(JsonNumber::PosInt(75))));
    assert!(!request.strict);
}
