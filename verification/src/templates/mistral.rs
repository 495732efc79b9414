//! Mistral Instruct template (v3 and later).
use vstd::prelude::*;

use crate::message::{message_models, Message, MessageModel, Role, RoleModel};
use crate::templates::helpers::{
    collect_text_content, push_text_content, push_tool_result_content, text_of, tool_results_text,
};
use crate::templates::template::ChatTemplate;
use crate::templates::helpers::result_text;
use crate::tool_response::ToolResponseModel;
use crate::message::PartModel;
use crate::text::occurs_at;

verus! {

broadcast use vstd::std_specs::vec::group_vec_axioms;

/// Mistral Instruct template. The system text has no turn of its own: it
/// opens the first user turn.
#[derive(Clone, Copy, Debug, Default, PartialEq, Eq, Structural)]
pub struct MistralTemplate;

/// Formatting state: the prompt so far, the system text waiting for the
/// first user turn, and whether that turn is still to come.
pub struct MistralState {
    pub prompt: Seq<char>,
    pub system: Option<Seq<char>>,
    pub first_user: bool,
}

/// The state after one more message.
pub open spec fn mistral_step(st: MistralState, m: MessageModel) -> MistralState {
    match m.role {
        RoleModel::System => MistralState { system: Some(text_of(m)), ..st },
        RoleModel::User => {
            let head = st.prompt + "[INST] "@;
            if st.first_user {
                let opened = match st.system {
                    Some(s) => head + s + "\n\n"@,
                    None => head,
                };
                MistralState { prompt: opened + text_of(m) + " [/INST]"@, system: None, first_user: false }
            } else {
                MistralState { prompt: head + text_of(m) + " [/INST]"@, ..st }
            }
        },
        RoleModel::Assistant => MistralState { prompt: st.prompt + text_of(m) + "</s>"@, ..st },
        _ => MistralState { prompt: st.prompt + "[INST] "@ + tool_results_text(m.content) + " [/INST]"@, ..st },
    }
}

/// The state after every message.
pub open spec fn mistral_fold(ms: Seq<MessageModel>) -> MistralState
    decreases ms.len(),
{
    if ms.len() == 0 {
        MistralState { prompt: "<s>"@, system: None, first_user: true }
    } else {
        mistral_step(mistral_fold(ms.drop_last()), ms.last())
    }
}

/// The full Mistral prompt.
pub open spec fn mistral_prompt(ms: Seq<MessageModel>) -> Seq<char> {
    mistral_fold(ms).prompt
}

impl ChatTemplate for MistralTemplate {
    fn format(&self, messages: &[Message]) -> (r: String)
        ensures
            r@ == mistral_prompt(message_models(messages@)),
    {
        let ghost ms = message_models(messages@);
        let mut prompt = String::from_str("<s>");
        let mut system_text: Option<String> = None;
        let mut first_user = true;
        let mut i: usize = 0;
        while i < messages.len()
            invariant
                i <= messages.len(),
                ms == message_models(messages@),
                prompt@ == mistral_fold(ms.subrange(0, i as int)).prompt,
                first_user == mistral_fold(ms.subrange(0, i as int)).first_user,
                match system_text {
                    Some(s) => mistral_fold(ms.subrange(0, i as int)).system == Some(s@),
                    None => mistral_fold(ms.subrange(0, i as int)).system is None,
                },
            decreases messages.len() - i,
        {
            proof {
                let sub = ms.subrange(0, i + 1);
                assert(sub.drop_last() == ms.subrange(0, i as int));
                assert(sub.last() == messages@[i as int]@);
            }
            let msg = &messages[i];
            match &msg.role {
                Role::System => {
                    system_text = Some(collect_text_content(msg));
                },
                Role::User => {
                    prompt.append("[INST] ");
                    if first_user {
                        match system_text {
                            Some(sys) => {
                                prompt.append(sys.as_str());
                                prompt.append("\n\n");
                            },
                            None => {},
                        }
                        system_text = None;
                        first_user = false;
                    }
                    push_text_content(&mut prompt, msg);
                    prompt.append(" [/INST]");
                },
                Role::Assistant => {
                    push_text_content(&mut prompt, msg);
                    prompt.append("</s>");
                },
                _ => {
                    prompt.append("[INST] ");
                    push_tool_result_content(&mut prompt, msg);
                    prompt.append(" [/INST]");
                },
            }
            i = i + 1;
        }
        proof { assert(ms.subrange(0, messages.len() as int) == ms); }
        prompt
    }

    fn stop_tokens(&self) -> (r: &'static [&'static str])
        ensures
            r@.len() == 1,
            r@[0]@ == "</s>"@,
    {
        &["</s>"]
    }

    fn clean_response(&self, text: &str) -> (r: String)
        ensures
            r@ == text@,
    {
        text.to_owned()
    }

    /// Always `None`: the system text lives inside the first user turn.
    fn format_system_prefix(&self, system: &str) -> (r: Option<String>)
        ensures
            r is None,
    {
        None
    }
}


proof fn lemma_one_response_text(parts: Seq<PartModel>, resp: ToolResponseModel)
    requires
        parts == seq![PartModel::ToolResponse(resp)],
    ensures
        tool_results_text(parts) == result_text(resp.result),
{
    assert(parts.drop_last() =~= Seq::<PartModel>::empty());
    assert(parts.last() == PartModel::ToolResponse(resp));
    assert(tool_results_text(parts.drop_last()) == Seq::<char>::empty());
    assert(tool_results_text(parts) =~= result_text(resp.result));
}

proof fn lemma_mistral_prefix(ms: Seq<MessageModel>, j: int)
    requires
        0 <= j <= ms.len(),
    ensures
        mistral_fold(ms.subrange(0, j)).prompt.is_prefix_of(mistral_fold(ms).prompt),
    decreases ms.len(),
{
    if j == ms.len() {
        assert(ms.subrange(0, j) =~= ms);
    } else {
        lemma_mistral_prefix(ms.drop_last(), j);
        assert(ms.drop_last().subrange(0, j) =~= ms.subrange(0, j));
        let a = mistral_fold(ms.subrange(0, j)).prompt;
        let st = mistral_fold(ms.drop_last());
        let b = st.prompt;
        let n = mistral_fold(ms).prompt;
        assert(b.is_prefix_of(n)) by {
            let m = ms.last();
            match m.role {
                RoleModel::System => {},
                RoleModel::User => {
                    let head = b + "[INST] "@;
                    if st.first_user {
                        let opened = match st.system {
                            Some(s) => head + s + "\n\n"@,
                            None => head,
                        };
                        assert((opened + text_of(m) + " [/INST]"@).subrange(0, b.len() as int) =~= b);
                    } else {
                        assert((head + text_of(m) + " [/INST]"@).subrange(0, b.len() as int) =~= b);
                    }
                },
                RoleModel::Assistant => {
                    assert((b + text_of(m) + "</s>"@).subrange(0, b.len() as int) =~= b);
                },
                _ => {
                    assert((b + "[INST] "@ + tool_results_text(m.content) + " [/INST]"@).subrange(0, b.len() as int) =~= b);
                },
            }
        }
        assert(n.subrange(0, a.len() as int) =~= b.subrange(0, a.len() as int));
    }
}

/// A tool message's result reaches the Mistral prompt: wherever a message
/// answers a call with result `r`, the prompt holds `result_text(r)` as the
/// body of an `[INST]` block.
pub proof fn law_mistral_prompt_shows_tool_result(ms: Seq<MessageModel>, k: int, resp: ToolResponseModel)
    requires
        0 <= k < ms.len(),
        ms[k].role == RoleModel::Tool,
        ms[k].content == seq![PartModel::ToolResponse(resp)],
    ensures
        exists|i: int| #[trigger] occurs_at(mistral_prompt(ms), "[INST] "@ + result_text(resp.result) + " [/INST]"@, i),
{
    lemma_one_response_text(ms[k].content, resp);
    lemma_mistral_prefix(ms, k + 1);
    let sub = ms.subrange(0, k + 1);
    assert(sub.drop_last() =~= ms.subrange(0, k));
    assert(sub.last() == ms[k]);
    let x = "[INST] "@ + result_text(resp.result) + " [/INST]"@;
    let before = mistral_fold(ms.subrange(0, k)).prompt;
    let head = mistral_fold(sub).prompt;
    assert(head =~= before + x);
    let t = mistral_prompt(ms);
    assert(t.subrange(0, head.len() as int) == head);
    assert(head.subrange(before.len() as int, head.len() as int) =~= x);
    assert(t.subrange(before.len() as int, (before.len() + x.len()) as int) =~= x);
    assert(occurs_at(t, x, before.len() as int));
}

} // verus!
