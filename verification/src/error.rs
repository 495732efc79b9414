//! The library's error type.
use vstd::prelude::*;

verus! {

#[verifier::external_type_specification]
#[verifier::external_body]
pub struct ExSerdeJsonError(serde_json::Error);

/// What can go wrong while running an agent.
#[derive(Debug)]
pub enum AgentError {
    Other(String),
    UnknownTool(String),
    MaxIterations(usize),
    Json(serde_json::Error),
}

/// Model of an [`AgentError`]: the `Json` case keeps no payload.
pub enum ErrModel {
    Other(Seq<char>),
    UnknownTool(Seq<char>),
    MaxIterations(nat),
    Json,
}

impl View for AgentError {
    type V = ErrModel;

    open spec fn view(&self) -> ErrModel {
        match self {
            AgentError::Other(s) => ErrModel::Other(s@),
            AgentError::UnknownTool(s) => ErrModel::UnknownTool(s@),
            AgentError::MaxIterations(n) => ErrModel::MaxIterations(*n as nat),
            AgentError::Json(_) => ErrModel::Json,
        }
    }
}

} // verus!

verus! {

/// `serde_json::Error`'s text, as its `Display` writes it; nothing is stated
/// of it.
#[verifier::external_body]
fn json_error_text(e: &serde_json::Error) -> String {
    e.to_string()
}

/// The text of an error; `None` for a JSON error, whose text serde_json writes.
pub open spec fn err_text(e: ErrModel) -> Option<Seq<char>> {
    match e {
        ErrModel::Other(s) => Some(s),
        ErrModel::UnknownTool(s) => Some("unknown tool: "@ + s),
        ErrModel::MaxIterations(n) => Some("tool loop exceeded "@ + crate::text::decimal(n) + " iterations"@),
        ErrModel::Json => None,
    }
}

impl AgentError {
    /// The error's text.
    pub fn to_string(&self) -> (r: String)
        ensures
            err_text(self@) matches Some(t) ==> r@ == t,
    {
        match self {
            AgentError::Other(s) => s.clone(),
            AgentError::UnknownTool(s) => {
                let mut out = String::from_str("unknown tool: ");
                out.append(s.as_str());
                out
            },
            AgentError::MaxIterations(n) => {
                let mut out = String::from_str("tool loop exceeded ");
                crate::text::push_decimal(&mut out, *n as u64);
                out.append(" iterations");
                out
            },
            AgentError::Json(e) => json_error_text(e),
        }
    }
}

} // verus!
