//! Schema types. [`SchemaKind`] is a universal schema convertible to JSON
//! Schema, GBNF, or regex, and usable to validate a JSON value.
pub mod kind;
pub mod json_schema;
pub mod gbnf;
pub mod regex;
pub mod validation;
pub mod typed_agent;
