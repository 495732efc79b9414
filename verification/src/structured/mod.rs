//! Structured output: schema requests carried through the agent pipeline.
pub mod output_schema;

use vstd::prelude::*;

use crate::agent::{Response, ResponseModel};
use crate::error::{AgentError, ErrModel};

verus! {

/// The text of a final answer; tool calls where a final message was due are
/// an error.
pub fn final_message(response: Response) -> (r: Result<String, AgentError>)
    ensures
        match response@ {
            ResponseModel::Message(s) => r matches Ok(t) && t@ == s,
            ResponseModel::ToolCalls(_) => r matches Err(e) && e@ == ErrModel::Other("expected final message, got tool calls"@),
        },
{
    match response {
        Response::Message(s) => Ok(s),
        Response::ToolCalls(_) => Err(AgentError::Other("expected final message, got tool calls".to_owned())),
    }
}

} // verus!
