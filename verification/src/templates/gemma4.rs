//! Gemma 4 template.
use vstd::prelude::*;

use crate::message::{message_models, text_message, Message, MessageModel, Role, RoleModel};
use crate::templates::helpers::{
    collect_text_content, push_text_content, push_tool_result_content, text_of, tool_results_text,
};
use crate::templates::template::ChatTemplate;
use crate::templates::helpers::result_text;
use crate::tool_response::ToolResponseModel;
use crate::message::PartModel;
use crate::text::occurs_at;
use crate::text::{strip_blocks, strip_blocks_exec};

verus! {

broadcast use vstd::std_specs::vec::group_vec_axioms;

/// Gemma 4 template. `thinking: true` puts `<|think|>` in the first system
/// turn, which enables reasoning.
#[derive(Clone, Copy, Debug, Default, PartialEq, Eq, Structural)]
pub struct Gemma4Template {
    pub thinking: bool,
}

/// `t` without its `<|channel>thought...<channel|>` blocks.
pub open spec fn strip_gemma(t: Seq<char>) -> Seq<char> {
    strip_blocks(t, "<|channel>thought"@, "<channel|>"@, 0)
}

/// Removes Gemma 4 `<|channel>thought...<channel|>` reasoning blocks; an
/// unclosed block drops the rest.
pub fn strip_gemma_think_channels(text: &str) -> (r: String)
    ensures
        r@ == strip_gemma(text@),
{
    proof { reveal_strlit("<channel|>"); }
    strip_blocks_exec(text, "<|channel>thought", "<channel|>", 0)
}

/// Whether any message is a system message.
pub open spec fn has_system(ms: Seq<MessageModel>) -> bool
    decreases ms.len(),
{
    if ms.len() == 0 {
        false
    } else {
        has_system(ms.drop_last()) || ms.last().role is System
    }
}

/// One message as a Gemma 4 turn; `first_system` holds when no system
/// message came before it.
pub open spec fn gemma_turn(thinking: bool, m: MessageModel, first_system: bool) -> Seq<char> {
    match m.role {
        RoleModel::System => "<|turn>system\n"@ + (if thinking && first_system { "<|think|>\n"@ } else { Seq::empty() })
            + text_of(m) + "<turn|>\n"@,
        RoleModel::User => "<|turn>user\n"@ + text_of(m) + "<turn|>\n"@,
        RoleModel::Assistant => "<|turn>model\n"@ + strip_gemma(text_of(m)) + "<turn|>\n"@,
        _ => "<|turn>user\n<tool_response>\n"@ + tool_results_text(m.content) + "\n</tool_response><turn|>\n"@,
    }
}

/// Every message as a Gemma 4 turn, in order.
pub open spec fn gemma_turns(thinking: bool, ms: Seq<MessageModel>) -> Seq<char>
    decreases ms.len(),
{
    if ms.len() == 0 {
        Seq::empty()
    } else {
        gemma_turns(thinking, ms.drop_last()) + gemma_turn(thinking, ms.last(), !has_system(ms.drop_last()))
    }
}

/// The full Gemma 4 prompt.
pub open spec fn gemma_prompt(thinking: bool, ms: Seq<MessageModel>) -> Seq<char> {
    "<bos>"@ + gemma_turns(thinking, ms) + "<|turn>model\n"@
}

/// The opening marker and the system turn alone.
pub open spec fn gemma_system_prefix(thinking: bool, system: Seq<char>) -> Seq<char> {
    "<bos><|turn>system\n"@ + (if thinking { "<|think|>\n"@ } else { Seq::empty() }) + system + "<turn|>\n"@
}

impl Gemma4Template {
    fn push_turn(&self, prompt: &mut String, msg: &Message, first_system: bool)
        ensures
            final(prompt)@ == old(prompt)@ + gemma_turn(self.thinking, msg@, first_system),
    {
        match &msg.role {
            Role::System => {
                prompt.append("<|turn>system\n");
                if self.thinking && first_system {
                    prompt.append("<|think|>\n");
                } else {
                    assert(prompt@ == prompt@ + Seq::<char>::empty());
                }
                push_text_content(prompt, msg);
                prompt.append("<turn|>\n");
            },
            Role::User => {
                prompt.append("<|turn>user\n");
                push_text_content(prompt, msg);
                prompt.append("<turn|>\n");
            },
            Role::Assistant => {
                prompt.append("<|turn>model\n");
                let text = collect_text_content(msg);
                let stripped = strip_gemma_think_channels(text.as_str());
                prompt.append(stripped.as_str());
                prompt.append("<turn|>\n");
            },
            _ => {
                // Small Gemma variants read a bare result as a fresh user
                // request without the `<tool_response>` envelope.
                prompt.append("<|turn>user\n<tool_response>\n");
                push_tool_result_content(prompt, msg);
                prompt.append("\n</tool_response><turn|>\n");
            },
        }
    }
}

impl ChatTemplate for Gemma4Template {
    fn format(&self, messages: &[Message]) -> (r: String)
        ensures
            r@ == gemma_prompt(self.thinking, message_models(messages@)),
    {
        let ghost ms = message_models(messages@);
        let mut prompt = String::from_str("<bos>");
        let mut first_system = true;
        let mut i: usize = 0;
        while i < messages.len()
            invariant
                i <= messages.len(),
                ms == message_models(messages@),
                prompt@ == "<bos>"@ + gemma_turns(self.thinking, ms.subrange(0, i as int)),
                first_system == !has_system(ms.subrange(0, i as int)),
            decreases messages.len() - i,
        {
            proof {
                let sub = ms.subrange(0, i + 1);
                assert(sub.drop_last() == ms.subrange(0, i as int));
                assert(sub.last() == messages@[i as int]@);
            }
            self.push_turn(&mut prompt, &messages[i], first_system);
            match &messages[i].role {
                Role::System => first_system = false,
                _ => {},
            }
            i = i + 1;
        }
        proof { assert(ms.subrange(0, messages.len() as int) == ms); }
        prompt.append("<|turn>model\n");
        prompt
    }

    fn stop_tokens(&self) -> (r: &'static [&'static str])
        ensures
            r@.len() == 1,
            r@[0]@ == "<turn|>"@,
    {
        &["<turn|>"]
    }

    fn clean_response(&self, text: &str) -> (r: String)
        ensures
            r@ == strip_gemma(text@),
    {
        strip_gemma_think_channels(text)
    }

    fn format_system_prefix(&self, system: &str) -> (r: Option<String>)
        ensures
            r matches Some(p) && p@ == gemma_system_prefix(self.thinking, system@),
    {
        let mut prompt = String::from_str("<bos><|turn>system\n");
        if self.thinking {
            prompt.append("<|think|>\n");
        } else {
            assert(prompt@ == prompt@ + Seq::<char>::empty());
        }
        prompt.append(system);
        prompt.append("<turn|>\n");
        Some(prompt)
    }
}

/// The turns of a non-empty conversation begin with its first turn, rendered
/// as the first system-or-not message.
pub proof fn lemma_gemma_first_turn(thinking: bool, ms: Seq<MessageModel>)
    requires
        ms.len() >= 1,
    ensures
        gemma_turn(thinking, ms[0], true).is_prefix_of(gemma_turns(thinking, ms)),
    decreases ms.len(),
{
    if ms.len() == 1 {
        assert(ms.drop_last() == Seq::<MessageModel>::empty());
        assert(gemma_turns(thinking, ms.drop_last()) == Seq::<char>::empty());
        assert(gemma_turns(thinking, ms) =~= gemma_turn(thinking, ms[0], true));
    } else {
        lemma_gemma_first_turn(thinking, ms.drop_last());
        let a = gemma_turn(thinking, ms[0], true);
        let b = gemma_turns(thinking, ms.drop_last());
        assert(b.subrange(0, a.len() as int) == a);
        let last = gemma_turn(thinking, ms.last(), !has_system(ms.drop_last()));
        assert((b + last).subrange(0, a.len() as int) == a);
    }
}

/// The system prefix leads the whole prompt of every conversation whose
/// first message is that system text, whatever follows it.
pub proof fn law_gemma_system_prefix_leads_format(thinking: bool, system: Seq<char>, ms: Seq<MessageModel>)
    requires
        ms.len() >= 1,
        ms[0] == text_message(RoleModel::System, system),
    ensures
        gemma_system_prefix(thinking, system).is_prefix_of(gemma_prompt(thinking, ms)),
{
    reveal_strlit("<bos><|turn>system\n");
    reveal_strlit("<bos>");
    reveal_strlit("<|turn>system\n");
    lemma_gemma_first_turn(thinking, ms);
    let m = ms[0];
    assert(text_of(m) == system);
    let p = gemma_system_prefix(thinking, system);
    let t = gemma_turns(thinking, ms);
    assert(p =~= "<bos>"@ + gemma_turn(thinking, m, true));
    let full = gemma_prompt(thinking, ms);
    let head = gemma_turn(thinking, m, true);
    assert(t.subrange(0, head.len() as int) == head);
    assert(full == "<bos>"@ + t + "<|turn>model\n"@);
    assert(full.subrange(0, p.len() as int) =~= p);
}


proof fn lemma_one_response_text(parts: Seq<PartModel>, resp: ToolResponseModel)
    requires
        parts == seq![PartModel::ToolResponse(resp)],
    ensures
        tool_results_text(parts) == result_text(resp.result),
{
    assert(parts.drop_last() =~= Seq::<PartModel>::empty());
    assert(parts.last() == PartModel::ToolResponse(resp));
    assert(tool_results_text(parts.drop_last()) == Seq::<char>::empty());
    assert(tool_results_text(parts) =~= result_text(resp.result));
}

proof fn lemma_gemma_turns_prefix(thinking: bool, ms: Seq<MessageModel>, j: int)
    requires
        0 <= j <= ms.len(),
    ensures
        gemma_turns(thinking, ms.subrange(0, j)).is_prefix_of(gemma_turns(thinking, ms)),
    decreases ms.len(),
{
    if j == ms.len() {
        assert(ms.subrange(0, j) =~= ms);
    } else {
        lemma_gemma_turns_prefix(thinking, ms.drop_last(), j);
        assert(ms.drop_last().subrange(0, j) =~= ms.subrange(0, j));
        let a = gemma_turns(thinking, ms.subrange(0, j));
        let b = gemma_turns(thinking, ms.drop_last());
        let l = gemma_turn(thinking, ms.last(), !has_system(ms.drop_last()));
        assert((b + l).subrange(0, a.len() as int) =~= b.subrange(0, a.len() as int));
    }
}

/// A tool message's result reaches the Gemma 4 prompt: wherever a message
/// answers a call with result `r`, the prompt holds `result_text(r)` between
/// the `<tool_response>` tags.
pub proof fn law_gemma_prompt_shows_tool_result(thinking: bool, ms: Seq<MessageModel>, k: int, resp: ToolResponseModel)
    requires
        0 <= k < ms.len(),
        ms[k].role == RoleModel::Tool,
        ms[k].content == seq![PartModel::ToolResponse(resp)],
    ensures
        exists|i: int| #[trigger] occurs_at(gemma_prompt(thinking, ms),
            "<tool_response>\n"@ + result_text(resp.result) + "\n</tool_response>"@, i),
{
    reveal_strlit("<|turn>user\n<tool_response>\n");
    reveal_strlit("\n</tool_response><turn|>\n");
    reveal_strlit("<tool_response>\n");
    reveal_strlit("\n</tool_response>");
    reveal_strlit("<|turn>user\n");
    reveal_strlit("<turn|>\n");
    lemma_one_response_text(ms[k].content, resp);
    lemma_gemma_turns_prefix(thinking, ms, k + 1);
    let sub = ms.subrange(0, k + 1);
    assert(sub.drop_last() =~= ms.subrange(0, k));
    assert(sub.last() == ms[k]);
    let x = "<tool_response>\n"@ + result_text(resp.result) + "\n</tool_response>"@;
    let head = "<|turn>user\n"@;
    let tail = "<turn|>\n"@;
    let turn = gemma_turn(thinking, ms[k], !has_system(ms.subrange(0, k)));
    assert(turn =~= head + x + tail);
    let before = gemma_turns(thinking, ms.subrange(0, k));
    let head_turns = gemma_turns(thinking, sub);
    assert(head_turns == before + turn);
    let full_turns = gemma_turns(thinking, ms);
    assert(full_turns.subrange(0, head_turns.len() as int) == head_turns);
    let t = gemma_prompt(thinking, ms);
    let off: int = ("<bos>"@.len() + before.len() + head.len()) as int;
    assert(head_turns.subrange((before.len() + head.len()) as int, (before.len() + head.len() + x.len()) as int) =~= x);
    assert(t.subrange(off, off + x.len()) =~= x);
    assert(occurs_at(t, x, off));
}

} // verus!
