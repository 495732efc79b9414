//! Tool response types returned to the conversation.
use vstd::prelude::*;

use crate::json::{Json, JsonValue};

verus! {

/// Result of a tool execution.
#[derive(Debug, PartialEq)]
pub enum ToolResult {
    Json(JsonValue),
    Text(String),
    Binary { data: Vec<u8>, content_type: String },
    Error(String),
}

/// Model of a [`ToolResult`].
pub enum ResultModel {
    Json(Json),
    Text(Seq<char>),
    Binary { data: Seq<u8>, content_type: Seq<char> },
    Error(Seq<char>),
}

impl View for ToolResult {
    type V = ResultModel;

    open spec fn view(&self) -> ResultModel {
        match self {
            ToolResult::Json(v) => ResultModel::Json(v@),
            ToolResult::Text(t) => ResultModel::Text(t@),
            ToolResult::Binary { data, content_type } => ResultModel::Binary { data: data@, content_type: content_type@ },
            ToolResult::Error(e) => ResultModel::Error(e@),
        }
    }
}

impl Clone for ToolResult {
    fn clone(&self) -> (r: Self)
        ensures
            r@ == self@,
    {
        match self {
            ToolResult::Json(v) => ToolResult::Json(v.deep_clone()),
            ToolResult::Text(t) => ToolResult::Text(t.clone()),
            ToolResult::Binary { data, content_type } => ToolResult::Binary { data: data.clone(), content_type: content_type.clone() },
            ToolResult::Error(e) => ToolResult::Error(e.clone()),
        }
    }
}

impl ToolResult {
    pub fn json(value: JsonValue) -> (r: Self)
        ensures
            r@ == ResultModel::Json(value@),
    {
        ToolResult::Json(value)
    }

    pub fn text(text: &str) -> (r: Self)
        ensures
            r@ == ResultModel::Text(text@),
    {
        ToolResult::Text(text.to_owned())
    }

    pub fn error(message: &str) -> (r: Self)
        ensures
            r@ == ResultModel::Error(message@),
    {
        ToolResult::Error(message.to_owned())
    }

    pub fn binary(data: Vec<u8>, content_type: &str) -> (r: Self)
        ensures
            r@ == (ResultModel::Binary { data: data@, content_type: content_type@ }),
    {
        ToolResult::Binary { data, content_type: content_type.to_owned() }
    }

    pub fn is_error(&self) -> (r: bool)
        ensures
            r == (self@ is Error),
    {
        match self {
            ToolResult::Error(_) => true,
            _ => false,
        }
    }

    pub fn error_message(&self) -> (r: Option<&str>)
        ensures
            match self@ {
                ResultModel::Error(m) => r matches Some(s) && s@ == m,
                _ => r is None,
            },
    {
        match self {
            ToolResult::Error(m) => Some(m.as_str()),
            _ => None,
        }
    }
}

/// Response from a tool execution.
#[derive(Debug, PartialEq)]
pub struct ToolResponse {
    pub call_id: String,
    pub name: String,
    pub result: ToolResult,
}

/// Model of a [`ToolResponse`].
pub struct ToolResponseModel {
    pub call_id: Seq<char>,
    pub name: Seq<char>,
    pub result: ResultModel,
}

impl View for ToolResponse {
    type V = ToolResponseModel;

    open spec fn view(&self) -> ToolResponseModel {
        ToolResponseModel { call_id: self.call_id@, name: self.name@, result: self.result@ }
    }
}

impl Clone for ToolResponse {
    fn clone(&self) -> (r: Self)
        ensures
            r@ == self@,
    {
        ToolResponse { call_id: self.call_id.clone(), name: self.name.clone(), result: self.result.clone() }
    }
}

impl ToolResponse {
    pub fn new(call_id: &str, name: &str, result: ToolResult) -> (r: Self)
        ensures
            r@ == (ToolResponseModel { call_id: call_id@, name: name@, result: result@ }),
    {
        ToolResponse { call_id: call_id.to_owned(), name: name.to_owned(), result }
    }
}

} // verus!
