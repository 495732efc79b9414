//! The input side of a typed agent: the last user message, read as JSON and
//! checked against the input schema.
use vstd::prelude::*;

use crate::error::{AgentError, ErrModel};
use crate::json::{json_parse, parse_json, Json, JsonValue};
use crate::message::{last_user_text, Context};
use crate::schema::kind::{Schema, SchemaKind};
use crate::schema::validation::{validate, verr_text};

verus! {

/// What a typed agent reads from a conversation, given its input schema.
pub open spec fn typed_input(text: Option<Seq<char>>, schema: Schema) -> Result<Json, ErrModel> {
    match text {
        None => Err(ErrModel::Other("no user message to extract typed input from"@)),
        Some(t) => match json_parse(t) {
            None => Err(ErrModel::Json),
            Some(v) => match validate(schema, v) {
                Err(e) => Err(ErrModel::Other("schema validation failed: "@ + verr_text(e))),
                Ok(_) => Ok(v),
            },
        },
    }
}

/// The last user message as a JSON value that satisfies `schema`.
pub fn extract_input(ctx: &Context, schema: &SchemaKind) -> (r: Result<JsonValue, AgentError>)
    ensures
        match (r, typed_input(last_user_text(ctx@.messages), schema@)) {
            (Ok(v), Ok(w)) => v@ == w,
            (Err(e), Err(f)) => e@ == f,
            _ => false,
        },
{
    let msg = match ctx.last_user_message() {
        Some(m) => m,
        None => return Err(AgentError::Other("no user message to extract typed input from".to_owned())),
    };
    let value = match parse_json(msg) {
        Ok(v) => v,
        Err(e) => return Err(AgentError::Json(e)),
    };
    match schema.validate(&value) {
        Ok(()) => Ok(value),
        Err(e) => {
            let mut text = String::from_str("schema validation failed: ");
            e.write_message(&mut text);
            Err(AgentError::Other(text))
        },
    }
}

} // verus!
