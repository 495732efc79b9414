//! ChatML template (Qwen, Nemotron).
use vstd::prelude::*;

use crate::message::{message_models, text_message, Message, MessageModel, Role, RoleModel};
use crate::templates::helpers::{
    collect_text_content, push_text_content, push_tool_result_content, text_of, tool_results_text,
};
use crate::templates::template::ChatTemplate;
use crate::text::{occurs_at, push_char, strip_blocks, strip_blocks_exec};
use crate::templates::helpers::result_text;
use crate::tool_response::ToolResponseModel;
use crate::message::PartModel;

verus! {

broadcast use vstd::std_specs::vec::group_vec_axioms;

/// What follows the final `<|im_start|>assistant\n` marker.
#[derive(Clone, Copy, Debug, Default, PartialEq, Eq, Structural)]
pub enum ThinkingMode {
    /// No prefill: the right choice for non-reasoning ChatML models.
    #[default]
    Off,
    /// An empty `<think>` block, which suppresses chain-of-thought.
    Suppressed,
    /// An open `<think>` tag, which enables chain-of-thought.
    Enabled,
}

/// ChatML template.
#[derive(Clone, Copy, Debug, Default, PartialEq, Eq, Structural)]
pub struct ChatMLTemplate {
    pub thinking: ThinkingMode,
}

/// `t` without its `<think>...</think>` blocks.
pub open spec fn strip_think(t: Seq<char>) -> Seq<char> {
    strip_blocks(t, "<think>"@, "</think>"@, "<think>"@.len() as int)
}

/// Removes every `<think>...</think>` block; an unclosed block drops the rest.
pub fn strip_think_blocks(text: &str) -> (r: String)
    ensures
        r@ == strip_think(text@),
{
    proof {
        reveal_strlit("<think>");
        reveal_strlit("</think>");
    }
    strip_blocks_exec(text, "<think>", "</think>", 7)
}

/// The header line of a plain turn.
pub open spec fn chatml_role_name(role: RoleModel) -> Seq<char> {
    match role {
        RoleModel::System => "system"@,
        RoleModel::User => "user"@,
        RoleModel::Custom(r) => r,
        _ => Seq::empty(),
    }
}

/// One message as a ChatML turn.
pub open spec fn chatml_turn(m: MessageModel) -> Seq<char> {
    match m.role {
        RoleModel::Tool => "<|im_start|>user\n<tool_response>\n"@ + tool_results_text(m.content)
            + "\n</tool_response><|im_end|>\n"@,
        RoleModel::Assistant => "<|im_start|>assistant\n"@ + strip_think(text_of(m)) + "<|im_end|>\n"@,
        _ => "<|im_start|>"@ + chatml_role_name(m.role) + seq!['\n'] + text_of(m) + "<|im_end|>\n"@,
    }
}

/// Every message as a ChatML turn, in order.
pub open spec fn chatml_turns(ms: Seq<MessageModel>) -> Seq<char>
    decreases ms.len(),
{
    if ms.len() == 0 {
        Seq::empty()
    } else {
        chatml_turns(ms.drop_last()) + chatml_turn(ms.last())
    }
}

/// The prefill after the final assistant marker.
pub open spec fn thinking_prefill(mode: ThinkingMode) -> Seq<char> {
    match mode {
        ThinkingMode::Off => Seq::empty(),
        ThinkingMode::Suppressed => "<think>\n\n</think>\n\n"@,
        ThinkingMode::Enabled => "<think>\n"@,
    }
}

/// The full ChatML prompt.
pub open spec fn chatml_prompt(mode: ThinkingMode, ms: Seq<MessageModel>) -> Seq<char> {
    chatml_turns(ms) + "<|im_start|>assistant\n"@ + thinking_prefill(mode)
}

/// The system turn alone.
pub open spec fn chatml_system_prefix(system: Seq<char>) -> Seq<char> {
    "<|im_start|>system\n"@ + system + "<|im_end|>\n"@
}

impl ChatMLTemplate {
    fn push_turn(prompt: &mut String, msg: &Message)
        ensures
            final(prompt)@ == old(prompt)@ + chatml_turn(msg@),
    {
        match &msg.role {
            Role::Tool => {
                prompt.append("<|im_start|>user\n<tool_response>\n");
                push_tool_result_content(prompt, msg);
                prompt.append("\n</tool_response><|im_end|>\n");
            },
            Role::Assistant => {
                prompt.append("<|im_start|>assistant\n");
                let text = collect_text_content(msg);
                let stripped = strip_think_blocks(text.as_str());
                prompt.append(stripped.as_str());
                prompt.append("<|im_end|>\n");
            },
            _ => {
                prompt.append("<|im_start|>");
                match &msg.role {
                    Role::System => prompt.append("system"),
                    Role::User => prompt.append("user"),
                    Role::Custom(r) => prompt.append(r.as_str()),
                    _ => {},
                }
                push_char(prompt, '\n');
                push_text_content(prompt, msg);
                prompt.append("<|im_end|>\n");
            },
        }
    }
}

impl ChatTemplate for ChatMLTemplate {
    fn format(&self, messages: &[Message]) -> (r: String)
        ensures
            r@ == chatml_prompt(self.thinking, message_models(messages@)),
    {
        let ghost ms = message_models(messages@);
        let mut prompt = String::new();
        let mut i: usize = 0;
        while i < messages.len()
            invariant
                i <= messages.len(),
                ms == message_models(messages@),
                prompt@ == chatml_turns(ms.subrange(0, i as int)),
            decreases messages.len() - i,
        {
            proof {
                let sub = ms.subrange(0, i + 1);
                assert(sub.drop_last() == ms.subrange(0, i as int));
                assert(sub.last() == messages@[i as int]@);
            }
            Self::push_turn(&mut prompt, &messages[i]);
            i = i + 1;
        }
        proof { assert(ms.subrange(0, messages.len() as int) == ms); }
        prompt.append("<|im_start|>assistant\n");
        match self.thinking {
            ThinkingMode::Off => {
                assert(prompt@ == prompt@ + Seq::<char>::empty());
            },
            ThinkingMode::Suppressed => prompt.append("<think>\n\n</think>\n\n"),
            ThinkingMode::Enabled => prompt.append("<think>\n"),
        }
        prompt
    }

    fn stop_tokens(&self) -> (r: &'static [&'static str])
        ensures
            r@.len() == 1,
            r@[0]@ == "<|im_end|>"@,
    {
        &["<|im_end|>"]
    }

    fn clean_response(&self, text: &str) -> (r: String)
        ensures
            r@ == text@,
    {
        text.to_owned()
    }

    fn format_system_prefix(&self, system: &str) -> (r: Option<String>)
        ensures
            r matches Some(p) && p@ == chatml_system_prefix(system@),
    {
        let mut prompt = String::from_str("<|im_start|>system\n");
        prompt.append(system);
        prompt.append("<|im_end|>\n");
        Some(prompt)
    }
}

/// The turns of a non-empty conversation begin with its first turn.
pub proof fn lemma_chatml_first_turn(ms: Seq<MessageModel>)
    requires
        ms.len() >= 1,
    ensures
        chatml_turn(ms[0]).is_prefix_of(chatml_turns(ms)),
    decreases ms.len(),
{
    if ms.len() == 1 {
        assert(ms.drop_last() == Seq::<MessageModel>::empty());
        assert(chatml_turns(ms.drop_last()) == Seq::<char>::empty());
        assert(chatml_turns(ms) =~= chatml_turn(ms[0]));
    } else {
        lemma_chatml_first_turn(ms.drop_last());
        let a = chatml_turn(ms[0]);
        let b = chatml_turns(ms.drop_last());
        assert(b.subrange(0, a.len() as int) == a);
        assert((b + chatml_turn(ms.last())).subrange(0, a.len() as int) == a);
    }
}

/// The system prefix leads the whole prompt of every conversation whose
/// first message is that system text, whatever follows it and whatever the
/// thinking mode.
pub proof fn law_chatml_system_prefix_leads_format(mode: ThinkingMode, system: Seq<char>, ms: Seq<MessageModel>)
    requires
        ms.len() >= 1,
        ms[0] == text_message(RoleModel::System, system),
    ensures
        chatml_system_prefix(system).is_prefix_of(chatml_prompt(mode, ms)),
{
    reveal_strlit("<|im_start|>system\n");
    reveal_strlit("<|im_start|>");
    reveal_strlit("system");
    lemma_chatml_first_turn(ms);
    let m = ms[0];
    assert(text_of(m) == system);
    assert(chatml_turn(m) =~= chatml_system_prefix(system));
    let p = chatml_system_prefix(system);
    let full = chatml_prompt(mode, ms);
    assert(full == chatml_turns(ms) + ("<|im_start|>assistant\n"@ + thinking_prefill(mode)));
    assert(full.subrange(0, p.len() as int) == chatml_turns(ms).subrange(0, p.len() as int));
}

proof fn lemma_chatml_turns_append(a: Seq<MessageModel>, b: Seq<MessageModel>)
    ensures
        chatml_turns(a + b) == chatml_turns(a) + chatml_turns(b),
    decreases b.len(),
{
    if b.len() == 0 {
        assert(a + b =~= a);
        assert(chatml_turns(b) =~= Seq::<char>::empty());
        assert(chatml_turns(a) + chatml_turns(b) =~= chatml_turns(a));
    } else {
        lemma_chatml_turns_append(a, b.drop_last());
        assert((a + b).drop_last() =~= a + b.drop_last());
        assert((a + b).last() == b.last());
        assert(chatml_turns(a) + chatml_turns(b.drop_last()) + chatml_turn(b.last())
            =~= chatml_turns(a) + (chatml_turns(b.drop_last()) + chatml_turn(b.last())));
    }
}

/// A tool message's result reaches the ChatML prompt: wherever a message
/// answers a call with result `r`, the prompt holds `result_text(r)` between
/// the `<tool_response>` tags.
pub proof fn law_chatml_prompt_shows_tool_result(mode: ThinkingMode, ms: Seq<MessageModel>, k: int, resp: ToolResponseModel)
    requires
        0 <= k < ms.len(),
        ms[k].role == RoleModel::Tool,
        ms[k].content == seq![PartModel::ToolResponse(resp)],
    ensures
        exists|i: int| #[trigger] occurs_at(chatml_prompt(mode, ms),
            "<tool_response>\n"@ + result_text(resp.result) + "\n</tool_response>"@, i),
{
    let a = ms.subrange(0, k);
    let b = ms.subrange(k + 1, ms.len() as int);
    assert(ms =~= a + seq![ms[k]] + b);
    lemma_chatml_turns_append(a + seq![ms[k]], b);
    lemma_chatml_turns_append(a, seq![ms[k]]);
    assert(seq![ms[k]].drop_last() =~= Seq::<MessageModel>::empty());
    let parts = ms[k].content;
    assert(parts.drop_last() =~= Seq::<PartModel>::empty());
    assert(parts.last() == PartModel::ToolResponse(resp));
    assert(tool_results_text(parts.drop_last()) == Seq::<char>::empty());
    assert(tool_results_text(parts) =~= result_text(resp.result));
    let x = "<tool_response>\n"@ + result_text(resp.result) + "\n</tool_response>"@;
    let head = "<|im_start|>user\n"@;
    let tail = "<|im_end|>\n"@;
    reveal_strlit("<|im_start|>user\n<tool_response>\n");
    reveal_strlit("\n</tool_response><|im_end|>\n");
    reveal_strlit("<tool_response>\n");
    reveal_strlit("\n</tool_response>");
    reveal_strlit("<|im_start|>user\n");
    reveal_strlit("<|im_end|>\n");
    assert(chatml_turn(ms[k]) =~= head + x + tail);
    assert(chatml_turns(seq![ms[k]].drop_last()) == Seq::<char>::empty());
    assert(chatml_turns(seq![ms[k]]) =~= chatml_turn(ms[k]));
    let pre = chatml_turns(a) + head;
    let t = chatml_prompt(mode, ms);
    assert(t =~= pre + x + (tail + chatml_turns(b) + "<|im_start|>assistant\n"@ + thinking_prefill(mode)));
    assert(t.subrange(pre.len() as int, (pre.len() + x.len()) as int) =~= x);
    assert(occurs_at(t, x, pre.len() as int));
}

} // verus!
