//! Llama 3 Instruct template.
use vstd::prelude::*;

use crate::message::{message_models, text_message, Message, MessageModel, Role, RoleModel};
use crate::templates::helpers::{push_text_content, push_tool_result_content, text_of, tool_results_text};
use crate::templates::calendar::{is_date_of, today_date_string};
use crate::templates::template::ChatTemplate;
use crate::templates::helpers::result_text;
use crate::tool_response::ToolResponseModel;
use crate::message::PartModel;
use crate::text::occurs_at;

verus! {

broadcast use vstd::std_specs::vec::group_vec_axioms;

/// Llama 3 Instruct template.
#[derive(Clone, Copy, Debug, Default, PartialEq, Eq, Structural)]
pub struct Llama3Template;

/// Whether any message is a tool message.
pub open spec fn has_tool(ms: Seq<MessageModel>) -> bool
    decreases ms.len(),
{
    if ms.len() == 0 {
        false
    } else {
        has_tool(ms.drop_last()) || ms.last().role is Tool
    }
}

/// The dated header of a system turn.
pub open spec fn llama_system_header(tools: bool, today: Seq<char>) -> Seq<char> {
    "<|start_header_id|>system<|end_header_id|>\n\n"@ + (if tools { "Environment: ipython\n"@ } else { Seq::empty() })
        + "Cutting Knowledge Date: December 2023\n"@ + "Today Date: "@ + today + "\n\n"@
}

/// One message as a Llama 3 turn.
pub open spec fn llama_turn(m: MessageModel, tools: bool, today: Seq<char>) -> Seq<char> {
    match m.role {
        RoleModel::System => llama_system_header(tools, today) + text_of(m) + "<|eot_id|>"@,
        RoleModel::Assistant => "<|start_header_id|>assistant<|end_header_id|>\n\n"@ + text_of(m) + "<|eot_id|>"@,
        RoleModel::Tool => "<|start_header_id|>ipython<|end_header_id|>\n\n"@ + tool_results_text(m.content) + "<|eot_id|>"@,
        _ => "<|start_header_id|>user<|end_header_id|>\n\n"@ + text_of(m) + "<|eot_id|>"@,
    }
}

/// Every message as a Llama 3 turn, in order.
pub open spec fn llama_turns(ms: Seq<MessageModel>, tools: bool, today: Seq<char>) -> Seq<char>
    decreases ms.len(),
{
    if ms.len() == 0 {
        Seq::empty()
    } else {
        llama_turns(ms.drop_last(), tools, today) + llama_turn(ms.last(), tools, today)
    }
}

/// The full Llama 3 prompt, system turns dated `today`.
pub open spec fn llama_prompt(ms: Seq<MessageModel>, today: Seq<char>) -> Seq<char> {
    "<|begin_of_text|>"@ + llama_turns(ms, has_tool(ms), today) + "<|start_header_id|>assistant<|end_header_id|>\n\n"@
}

/// The opening marker and the system turn alone, dated `today`.
pub open spec fn llama_system_prefix(system: Seq<char>, today: Seq<char>) -> Seq<char> {
    "<|begin_of_text|><|start_header_id|>system<|end_header_id|>\n\n"@ + "Cutting Knowledge Date: December 2023\n"@
        + "Today Date: "@ + today + "\n\n"@ + system + "<|eot_id|>"@
}

fn any_tool(messages: &[Message]) -> (r: bool)
    ensures
        r == has_tool(message_models(messages@)),
{
    let ghost ms = message_models(messages@);
    let mut i: usize = 0;
    let mut found = false;
    while i < messages.len()
        invariant
            i <= messages.len(),
            ms == message_models(messages@),
            found == has_tool(ms.subrange(0, i as int)),
        decreases messages.len() - i,
    {
        proof {
            let sub = ms.subrange(0, i + 1);
            assert(sub.drop_last() == ms.subrange(0, i as int));
            assert(sub.last() == messages@[i as int]@);
        }
        match &messages[i].role {
            Role::Tool => found = true,
            _ => {},
        }
        i = i + 1;
    }
    proof { assert(ms.subrange(0, messages.len() as int) == ms); }
    found
}

impl Llama3Template {
    fn push_turn(prompt: &mut String, msg: &Message, tools: bool, today: &str)
        ensures
            final(prompt)@ == old(prompt)@ + llama_turn(msg@, tools, today@),
    {
        match &msg.role {
            Role::System => {
                prompt.append("<|start_header_id|>system<|end_header_id|>\n\n");
                if tools {
                    prompt.append("Environment: ipython\n");
                } else {
                    assert(prompt@ == prompt@ + Seq::<char>::empty());
                }
                prompt.append("Cutting Knowledge Date: December 2023\n");
                prompt.append("Today Date: ");
                prompt.append(today);
                prompt.append("\n\n");
                push_text_content(prompt, msg);
                prompt.append("<|eot_id|>");
            },
            Role::Assistant => {
                prompt.append("<|start_header_id|>assistant<|end_header_id|>\n\n");
                push_text_content(prompt, msg);
                prompt.append("<|eot_id|>");
            },
            Role::Tool => {
                prompt.append("<|start_header_id|>ipython<|end_header_id|>\n\n");
                push_tool_result_content(prompt, msg);
                prompt.append("<|eot_id|>");
            },
            _ => {
                prompt.append("<|start_header_id|>user<|end_header_id|>\n\n");
                push_text_content(prompt, msg);
                prompt.append("<|eot_id|>");
            },
        }
    }

    /// The prompt, with every system turn dated `today`.
    pub fn format_dated(&self, messages: &[Message], today: &str) -> (r: String)
        ensures
            r@ == llama_prompt(message_models(messages@), today@),
    {
        let ghost ms = message_models(messages@);
        let mut prompt = String::from_str("<|begin_of_text|>");
        let tools = any_tool(messages);
        let mut i: usize = 0;
        while i < messages.len()
            invariant
                i <= messages.len(),
                ms == message_models(messages@),
                tools == has_tool(ms),
                prompt@ == "<|begin_of_text|>"@ + llama_turns(ms.subrange(0, i as int), tools, today@),
            decreases messages.len() - i,
        {
            proof {
                let sub = ms.subrange(0, i + 1);
                assert(sub.drop_last() == ms.subrange(0, i as int));
                assert(sub.last() == messages@[i as int]@);
            }
            Self::push_turn(&mut prompt, &messages[i], tools, today);
            i = i + 1;
        }
        proof { assert(ms.subrange(0, messages.len() as int) == ms); }
        prompt.append("<|start_header_id|>assistant<|end_header_id|>\n\n");
        prompt
    }

    /// The system prefix, dated `today`.
    pub fn format_system_prefix_dated(&self, system: &str, today: &str) -> (r: String)
        ensures
            r@ == llama_system_prefix(system@, today@),
    {
        let mut prompt = String::from_str("<|begin_of_text|><|start_header_id|>system<|end_header_id|>\n\n");
        prompt.append("Cutting Knowledge Date: December 2023\n");
        prompt.append("Today Date: ");
        prompt.append(today);
        prompt.append("\n\n");
        prompt.append(system);
        prompt.append("<|eot_id|>");
        prompt
    }
}

/// A date by the system clock: some day on or after 1970-01-01.
pub open spec fn is_clock_date(t: Seq<char>) -> bool {
    exists|days: int| 0 <= days && #[trigger] is_date_of(t, days)
}

impl ChatTemplate for Llama3Template {
    /// The prompt, its system turns dated today by the system clock.
    fn format(&self, messages: &[Message]) -> (r: String)
        ensures
            exists|today: Seq<char>| #[trigger] is_clock_date(today) && r@ == llama_prompt(message_models(messages@), today),
    {
        let today = today_date_string();
        let r = self.format_dated(messages, today.as_str());
        assert(is_clock_date(today@));
        r
    }

    fn stop_tokens(&self) -> (r: &'static [&'static str])
        ensures
            r@.len() == 1,
            r@[0]@ == "<|eot_id|>"@,
    {
        &["<|eot_id|>"]
    }

    fn clean_response(&self, text: &str) -> (r: String)
        ensures
            r@ == text@,
    {
        text.to_owned()
    }

    /// The system prefix, dated today by the system clock.
    fn format_system_prefix(&self, system: &str) -> (r: Option<String>)
        ensures
            r matches Some(p) && exists|today: Seq<char>| #[trigger] is_clock_date(today) && p@ == llama_system_prefix(system@, today),
    {
        let today = today_date_string();
        let p = self.format_system_prefix_dated(system, today.as_str());
        assert(is_clock_date(today@));
        Some(p)
    }
}

/// The turns of a non-empty conversation begin with its first turn.
pub proof fn lemma_llama_first_turn(ms: Seq<MessageModel>, tools: bool, today: Seq<char>)
    requires
        ms.len() >= 1,
    ensures
        llama_turn(ms[0], tools, today).is_prefix_of(llama_turns(ms, tools, today)),
    decreases ms.len(),
{
    if ms.len() == 1 {
        assert(ms.drop_last() == Seq::<MessageModel>::empty());
        assert(llama_turns(ms.drop_last(), tools, today) == Seq::<char>::empty());
        assert(llama_turns(ms, tools, today) =~= llama_turn(ms[0], tools, today));
    } else {
        lemma_llama_first_turn(ms.drop_last(), tools, today);
        let a = llama_turn(ms[0], tools, today);
        let b = llama_turns(ms.drop_last(), tools, today);
        assert(b.subrange(0, a.len() as int) == a);
        assert((b + llama_turn(ms.last(), tools, today)).subrange(0, a.len() as int) == a);
    }
}

/// With one date for both, the system prefix leads the whole prompt of every
/// conversation that opens with that system text and holds no tool message
/// (a tool message adds an environment line to the system turn).
pub proof fn law_llama3_system_prefix_leads_format(system: Seq<char>, ms: Seq<MessageModel>, today: Seq<char>)
    requires
        ms.len() >= 1,
        ms[0] == text_message(RoleModel::System, system),
        !has_tool(ms),
    ensures
        llama_system_prefix(system, today).is_prefix_of(llama_prompt(ms, today)),
{
    reveal_strlit("<|begin_of_text|><|start_header_id|>system<|end_header_id|>\n\n");
    reveal_strlit("<|begin_of_text|>");
    reveal_strlit("<|start_header_id|>system<|end_header_id|>\n\n");
    lemma_llama_first_turn(ms, false, today);
    let m = ms[0];
    assert(text_of(m) == system);
    let p = llama_system_prefix(system, today);
    let head = llama_turn(m, false, today);
    assert(p =~= "<|begin_of_text|>"@ + head);
    let t = llama_turns(ms, false, today);
    assert(t.subrange(0, head.len() as int) == head);
    let full = llama_prompt(ms, today);
    assert(full == "<|begin_of_text|>"@ + t + "<|start_header_id|>assistant<|end_header_id|>\n\n"@);
    assert(full.subrange(0, p.len() as int) =~= p);
}


proof fn lemma_one_response_text(parts: Seq<PartModel>, resp: ToolResponseModel)
    requires
        parts == seq![PartModel::ToolResponse(resp)],
    ensures
        tool_results_text(parts) == result_text(resp.result),
{
    assert(parts.drop_last() =~= Seq::<PartModel>::empty());
    assert(parts.last() == PartModel::ToolResponse(resp));
    assert(tool_results_text(parts.drop_last()) == Seq::<char>::empty());
    assert(tool_results_text(parts) =~= result_text(resp.result));
}

proof fn lemma_llama_turns_prefix(ms: Seq<MessageModel>, j: int, tools: bool, today: Seq<char>)
    requires
        0 <= j <= ms.len(),
    ensures
        llama_turns(ms.subrange(0, j), tools, today).is_prefix_of(llama_turns(ms, tools, today)),
    decreases ms.len(),
{
    if j == ms.len() {
        assert(ms.subrange(0, j) =~= ms);
    } else {
        lemma_llama_turns_prefix(ms.drop_last(), j, tools, today);
        assert(ms.drop_last().subrange(0, j) =~= ms.subrange(0, j));
        let a = llama_turns(ms.subrange(0, j), tools, today);
        let b = llama_turns(ms.drop_last(), tools, today);
        assert((b + llama_turn(ms.last(), tools, today)).subrange(0, a.len() as int) =~= b.subrange(0, a.len() as int));
    }
}

/// A tool message's result reaches the Llama 3 prompt: wherever a message
/// answers a call with result `r`, the prompt holds `result_text(r)` as the
/// body of an `ipython` turn.
pub proof fn law_llama3_prompt_shows_tool_result(ms: Seq<MessageModel>, k: int, resp: ToolResponseModel, today: Seq<char>)
    requires
        0 <= k < ms.len(),
        ms[k].role == RoleModel::Tool,
        ms[k].content == seq![PartModel::ToolResponse(resp)],
    ensures
        exists|i: int| #[trigger] occurs_at(llama_prompt(ms, today),
            "<|start_header_id|>ipython<|end_header_id|>\n\n"@ + result_text(resp.result) + "<|eot_id|>"@, i),
{
    let tools = has_tool(ms);
    lemma_one_response_text(ms[k].content, resp);
    lemma_llama_turns_prefix(ms, k + 1, tools, today);
    let sub = ms.subrange(0, k + 1);
    assert(sub.drop_last() =~= ms.subrange(0, k));
    assert(sub.last() == ms[k]);
    let x = "<|start_header_id|>ipython<|end_header_id|>\n\n"@ + result_text(resp.result) + "<|eot_id|>"@;
    assert(llama_turn(ms[k], tools, today) == x);
    let pre = "<|begin_of_text|>"@ + llama_turns(ms.subrange(0, k), tools, today);
    let full_turns = llama_turns(ms, tools, today);
    let head_turns = llama_turns(sub, tools, today);
    assert(head_turns == llama_turns(ms.subrange(0, k), tools, today) + x);
    let t = llama_prompt(ms, today);
    let n = pre.len() as int;
    assert(t.subrange(n, n + x.len()) =~= full_turns.subrange(n - "<|begin_of_text|>"@.len(), n - "<|begin_of_text|>"@.len() + x.len()));
    assert(full_turns.subrange(0, head_turns.len() as int) == head_turns);
    assert(head_turns.subrange(head_turns.len() - x.len(), head_turns.len() as int) =~= x);
    assert(t.subrange(n, n + x.len()) =~= x);
    assert(occurs_at(t, x, n));
}

} // verus!
