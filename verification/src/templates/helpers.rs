//! Text pieces shared by the per-family templates.
use vstd::prelude::*;

use crate::json::{json_render, render_json};
use crate::message::{all_text, sole_text, ContentPart, Message, MessageModel, PartModel};
use crate::text::push_char;
use crate::tool_response::{ResultModel, ToolResult};

verus! {

broadcast use vstd::std_specs::vec::group_vec_axioms;

/// The text a template renders for a message: its sole text part, or else
/// all of its text parts concatenated.
pub open spec fn text_of(m: MessageModel) -> Seq<char> {
    match sole_text(m.content) {
        Some(t) => t,
        None => all_text(m.content),
    }
}

/// How a tool result reads inside a prompt.
pub open spec fn result_text(r: ResultModel) -> Seq<char> {
    match r {
        ResultModel::Json(v) => json_render(v),
        ResultModel::Text(t) => t,
        ResultModel::Error(e) => "Error: "@ + e,
        ResultModel::Binary { content_type, .. } => "[binary: "@ + content_type + seq![']'],
    }
}

/// The rendered results of every tool-response part, in order.
pub open spec fn tool_results_text(parts: Seq<PartModel>) -> Seq<char>
    decreases parts.len(),
{
    if parts.len() == 0 {
        Seq::empty()
    } else {
        tool_results_text(parts.drop_last()) + match parts.last() {
            PartModel::ToolResponse(r) => result_text(r.result),
            _ => Seq::empty(),
        }
    }
}

/// Appends [`text_of`] the message.
pub fn push_text_content(prompt: &mut String, msg: &Message)
    ensures
        final(prompt)@ == old(prompt)@ + text_of(msg@),
{
    match msg.as_text() {
        Some(text) => prompt.append(text),
        None => {
            let t = msg.content.to_text();
            prompt.append(t.as_str());
        },
    }
}

/// [`text_of`] the message, as a new string.
pub fn collect_text_content(msg: &Message) -> (r: String)
    ensures
        r@ == text_of(msg@),
{
    match msg.as_text() {
        Some(text) => text.to_owned(),
        None => msg.content.to_text(),
    }
}

/// Appends the rendered result of every tool-response part of the message.
pub fn push_tool_result_content(prompt: &mut String, msg: &Message)
    ensures
        final(prompt)@ == old(prompt)@ + tool_results_text(msg@.content),
{
    let parts = msg.content.iter();
    let ghost ps = msg@.content;
    let ghost start = prompt@;
    let mut i: usize = 0;
    while i < parts.len()
        invariant
            i <= parts.len(),
            parts@.map_values(|p: ContentPart| p@) == ps,
            prompt@ == start + tool_results_text(ps.subrange(0, i as int)),
        decreases parts.len() - i,
    {
        proof {
            let sub = ps.subrange(0, i + 1);
            assert(sub.drop_last() == ps.subrange(0, i as int));
            assert(sub.last() == parts@[i as int]@);
        }
        match &parts[i] {
            ContentPart::ToolResponse { response } => {
                match &response.result {
                    ToolResult::Json(value) => {
                        let json = render_json(value);
                        prompt.append(json.as_str());
                    },
                    ToolResult::Text(text) => prompt.append(text.as_str()),
                    ToolResult::Error(err) => {
                        prompt.append("Error: ");
                        prompt.append(err.as_str());
                    },
                    ToolResult::Binary { content_type, .. } => {
                        prompt.append("[binary: ");
                        prompt.append(content_type.as_str());
                        push_char(prompt, ']');
                    },
                }
            },
            _ => {},
        }
        i = i + 1;
    }
    proof { assert(ps.subrange(0, parts.len() as int) == ps); }
}

} // verus!
