//! What an agent answers: a message, or tool calls to run.
use vstd::prelude::*;

use crate::json::{Json, JsonValue};

verus! {

/// A tool invocation requested by an agent.
#[derive(Debug, PartialEq)]
pub struct ToolCall {
    pub id: String,
    pub name: String,
    pub arguments: JsonValue,
}

/// Model of a [`ToolCall`].
pub struct CallModel {
    pub id: Seq<char>,
    pub name: Seq<char>,
    pub arguments: Json,
}

impl View for ToolCall {
    type V = CallModel;

    open spec fn view(&self) -> CallModel {
        CallModel { id: self.id@, name: self.name@, arguments: self.arguments@ }
    }
}

impl Clone for ToolCall {
    fn clone(&self) -> (r: Self)
        ensures
            r@ == self@,
    {
        ToolCall { id: self.id.clone(), name: self.name.clone(), arguments: self.arguments.deep_clone() }
    }
}

/// The models of a list of calls.
pub open spec fn call_models(calls: Seq<ToolCall>) -> Seq<CallModel> {
    calls.map_values(|c: ToolCall| c@)
}

/// An agent's answer.
#[derive(Debug)]
pub enum Response {
    Message(String),
    ToolCalls(Vec<ToolCall>),
}

/// Model of a [`Response`].
pub enum ResponseModel {
    Message(Seq<char>),
    ToolCalls(Seq<CallModel>),
}

impl View for Response {
    type V = ResponseModel;

    open spec fn view(&self) -> ResponseModel {
        match self {
            Response::Message(s) => ResponseModel::Message(s@),
            Response::ToolCalls(cs) => ResponseModel::ToolCalls(call_models(cs@)),
        }
    }
}

/// Copies a list of calls.
pub fn clone_calls(calls: &Vec<ToolCall>) -> (r: Vec<ToolCall>)
    ensures
        call_models(r@) == call_models(calls@),
{
    let mut out: Vec<ToolCall> = Vec::new();
    let mut i: usize = 0;
    while i < calls.len()
        invariant
            i <= calls.len(),
            out@.len() == i,
            forall|k: int| 0 <= k < i ==> #[trigger] out@[k]@ == calls@[k]@,
        decreases calls.len() - i,
    {
        out.push(calls[i].clone());
        i = i + 1;
    }
    assert(call_models(out@) =~= call_models(calls@));
    out
}

impl Clone for Response {
    fn clone(&self) -> (r: Self)
        ensures
            r@ == self@,
    {
        match self {
            Response::Message(s) => Response::Message(s.clone()),
            Response::ToolCalls(cs) => Response::ToolCalls(clone_calls(cs)),
        }
    }
}

impl Response {
    pub fn message(s: &str) -> (r: Self)
        ensures
            r@ == ResponseModel::Message(s@),
    {
        Response::Message(s.to_owned())
    }

    pub fn tool_calls(calls: Vec<ToolCall>) -> (r: Self)
        ensures
            r@ == ResponseModel::ToolCalls(call_models(calls@)),
    {
        Response::ToolCalls(calls)
    }
}

/// An agent made of a function from context to response; its owner runs
/// the function.
pub struct FnAgent<F>(F);

impl<F> FnAgent<F> {
    pub closed spec fn func_spec(&self) -> F {
        self.0
    }

    pub fn func(&self) -> (r: &F)
        ensures
            *r == self.func_spec(),
    {
        &self.0
    }
}

/// Wraps a function as an agent.
pub fn fn_agent<F>(f: F) -> (r: FnAgent<F>)
    ensures
        r.func_spec() == f,
{
    FnAgent(f)
}

} // verus!
