//! [`ChatTemplateKind`]: one value naming a template family and its options.
use vstd::prelude::*;

use crate::message::{message_models, text_message, Message, MessageModel, RoleModel};
use crate::templates::chatml::{chatml_prompt, chatml_system_prefix, law_chatml_system_prefix_leads_format, ChatMLTemplate, ThinkingMode};
use crate::templates::gemma4::{gemma_prompt, gemma_system_prefix, law_gemma_system_prefix_leads_format, strip_gemma, Gemma4Template};
use crate::templates::llama3::{has_tool, is_clock_date, law_llama3_system_prefix_leads_format, llama_prompt, llama_system_prefix, Llama3Template};
use crate::templates::mistral::{mistral_prompt, MistralTemplate};
use crate::templates::template::ChatTemplate;
use crate::text::str_eq;

verus! {

/// Strongly-typed chat template identifier. Its text forms are `llama3`,
/// `gemma4`, `gemma4-thinking`, `chatml`, `chatml-suppressed`,
/// `chatml-thinking` and `mistral`.
#[derive(Clone, Copy, Debug, PartialEq, Eq, Structural)]
pub enum ChatTemplateKind {
    Llama3(Llama3Template),
    Gemma4(Gemma4Template),
    ChatML(ChatMLTemplate),
    Mistral(MistralTemplate),
}

/// The text form of a kind.
pub open spec fn kind_name(k: ChatTemplateKind) -> Seq<char> {
    match k {
        ChatTemplateKind::Llama3(_) => "llama3"@,
        ChatTemplateKind::Gemma4(t) => if t.thinking { "gemma4-thinking"@ } else { "gemma4"@ },
        ChatTemplateKind::ChatML(t) => match t.thinking {
            ThinkingMode::Off => "chatml"@,
            ThinkingMode::Suppressed => "chatml-suppressed"@,
            ThinkingMode::Enabled => "chatml-thinking"@,
        },
        ChatTemplateKind::Mistral(_) => "mistral"@,
    }
}

/// The kind a text names, if any.
pub open spec fn parse_kind(s: Seq<char>) -> Option<ChatTemplateKind> {
    if s == "llama3"@ {
        Some(ChatTemplateKind::Llama3(Llama3Template))
    } else if s == "gemma4"@ {
        Some(ChatTemplateKind::Gemma4(Gemma4Template { thinking: false }))
    } else if s == "gemma4-thinking"@ {
        Some(ChatTemplateKind::Gemma4(Gemma4Template { thinking: true }))
    } else if s == "chatml"@ {
        Some(ChatTemplateKind::ChatML(ChatMLTemplate { thinking: ThinkingMode::Off }))
    } else if s == "chatml-suppressed"@ {
        Some(ChatTemplateKind::ChatML(ChatMLTemplate { thinking: ThinkingMode::Suppressed }))
    } else if s == "chatml-thinking"@ {
        Some(ChatTemplateKind::ChatML(ChatMLTemplate { thinking: ThinkingMode::Enabled }))
    } else if s == "mistral"@ {
        Some(ChatTemplateKind::Mistral(MistralTemplate))
    } else {
        None
    }
}

/// The error text for a name that is no kind.
pub open spec fn unknown_kind_message(s: Seq<char>) -> Seq<char> {
    "unknown chat template: '"@ + s
        + "' (expected: llama3, gemma4, gemma4-thinking, chatml, chatml-suppressed, chatml-thinking, mistral)"@
}

/// The prompt a kind formats, `today` dating Llama 3 system turns.
pub open spec fn kind_prompt(k: ChatTemplateKind, ms: Seq<MessageModel>, today: Seq<char>) -> Seq<char> {
    match k {
        ChatTemplateKind::Llama3(_) => llama_prompt(ms, today),
        ChatTemplateKind::Gemma4(t) => gemma_prompt(t.thinking, ms),
        ChatTemplateKind::ChatML(t) => chatml_prompt(t.thinking, ms),
        ChatTemplateKind::Mistral(_) => mistral_prompt(ms),
    }
}

/// The system prefix a kind formats, `today` dating the Llama 3 one.
pub open spec fn kind_system_prefix(k: ChatTemplateKind, system: Seq<char>, today: Seq<char>) -> Option<Seq<char>> {
    match k {
        ChatTemplateKind::Llama3(_) => Some(llama_system_prefix(system, today)),
        ChatTemplateKind::Gemma4(t) => Some(gemma_system_prefix(t.thinking, system)),
        ChatTemplateKind::ChatML(_) => Some(chatml_system_prefix(system)),
        ChatTemplateKind::Mistral(_) => None,
    }
}

/// The string that ends a kind's assistant turn.
pub open spec fn kind_stop(k: ChatTemplateKind) -> Seq<char> {
    match k {
        ChatTemplateKind::Llama3(_) => "<|eot_id|>"@,
        ChatTemplateKind::Gemma4(_) => "<turn|>"@,
        ChatTemplateKind::ChatML(_) => "<|im_end|>"@,
        ChatTemplateKind::Mistral(_) => "</s>"@,
    }
}

impl Default for ChatTemplateKind {
    /// ChatML without prefill.
    fn default() -> (r: Self)
        ensures
            r == ChatTemplateKind::ChatML(ChatMLTemplate { thinking: ThinkingMode::Off }),
    {
        ChatTemplateKind::ChatML(ChatMLTemplate { thinking: ThinkingMode::Off })
    }
}

impl ChatTemplateKind {
    /// Reads a kind from its text form.
    pub fn parse(s: &str) -> (r: Result<Self, String>)
        ensures
            match parse_kind(s@) {
                Some(k) => r == Ok::<ChatTemplateKind, String>(k),
                None => r matches Err(e) && e@ == unknown_kind_message(s@),
            },
    {
        if str_eq(s, "llama3") {
            Ok(ChatTemplateKind::Llama3(Llama3Template))
        } else if str_eq(s, "gemma4") {
            Ok(ChatTemplateKind::Gemma4(Gemma4Template { thinking: false }))
        } else if str_eq(s, "gemma4-thinking") {
            Ok(ChatTemplateKind::Gemma4(Gemma4Template { thinking: true }))
        } else if str_eq(s, "chatml") {
            Ok(ChatTemplateKind::ChatML(ChatMLTemplate { thinking: ThinkingMode::Off }))
        } else if str_eq(s, "chatml-suppressed") {
            Ok(ChatTemplateKind::ChatML(ChatMLTemplate { thinking: ThinkingMode::Suppressed }))
        } else if str_eq(s, "chatml-thinking") {
            Ok(ChatTemplateKind::ChatML(ChatMLTemplate { thinking: ThinkingMode::Enabled }))
        } else if str_eq(s, "mistral") {
            Ok(ChatTemplateKind::Mistral(MistralTemplate))
        } else {
            let mut e = String::from_str("unknown chat template: '");
            e.append(s);
            e.append("' (expected: llama3, gemma4, gemma4-thinking, chatml, chatml-suppressed, chatml-thinking, mistral)");
            Err(e)
        }
    }

    /// The text form of the kind.
    pub fn to_string(&self) -> (r: String)
        ensures
            r@ == kind_name(*self),
    {
        let s = match self {
            ChatTemplateKind::Llama3(_) => "llama3",
            ChatTemplateKind::Gemma4(t) => if t.thinking { "gemma4-thinking" } else { "gemma4" },
            ChatTemplateKind::ChatML(t) => match t.thinking {
                ThinkingMode::Off => "chatml",
                ThinkingMode::Suppressed => "chatml-suppressed",
                ThinkingMode::Enabled => "chatml-thinking",
            },
            ChatTemplateKind::Mistral(_) => "mistral",
        };
        s.to_owned()
    }
}

impl std::str::FromStr for ChatTemplateKind {
    type Err = String;

    /// Reads a kind from its text form, as [`ChatTemplateKind::parse`].
    fn from_str(s: &str) -> (r: Result<Self, String>)
        ensures
            match parse_kind(s@) {
                Some(k) => r == Ok::<ChatTemplateKind, String>(k),
                None => r matches Err(e) && e@ == unknown_kind_message(s@),
            },
    {
        ChatTemplateKind::parse(s)
    }
}

impl ChatTemplate for ChatTemplateKind {
    fn format(&self, messages: &[Message]) -> (r: String)
        ensures
            match self {
                ChatTemplateKind::Llama3(_) => exists|today: Seq<char>| #[trigger] is_clock_date(today)
                    && r@ == kind_prompt(*self, message_models(messages@), today),
                _ => r@ == kind_prompt(*self, message_models(messages@), Seq::empty()),
            },
    {
        match self {
            ChatTemplateKind::Llama3(t) => t.format(messages),
            ChatTemplateKind::Gemma4(t) => t.format(messages),
            ChatTemplateKind::ChatML(t) => t.format(messages),
            ChatTemplateKind::Mistral(t) => t.format(messages),
        }
    }

    fn stop_tokens(&self) -> (r: &'static [&'static str])
        ensures
            r@.len() == 1,
            r@[0]@ == kind_stop(*self),
    {
        match self {
            ChatTemplateKind::Llama3(t) => t.stop_tokens(),
            ChatTemplateKind::Gemma4(t) => t.stop_tokens(),
            ChatTemplateKind::ChatML(t) => t.stop_tokens(),
            ChatTemplateKind::Mistral(t) => t.stop_tokens(),
        }
    }

    fn clean_response(&self, text: &str) -> (r: String)
        ensures
            r@ == match self {
                ChatTemplateKind::Gemma4(_) => strip_gemma(text@),
                _ => text@,
            },
    {
        match self {
            ChatTemplateKind::Gemma4(t) => t.clean_response(text),
            _ => text.to_owned(),
        }
    }

    fn format_system_prefix(&self, system: &str) -> (r: Option<String>)
        ensures
            match self {
                ChatTemplateKind::Llama3(_) => exists|today: Seq<char>| #[trigger] is_clock_date(today)
                    && (r matches Some(q) && q@ == llama_system_prefix(system@, today)),
                _ => match kind_system_prefix(*self, system@, Seq::empty()) {
                    Some(p) => r matches Some(q) && q@ == p,
                    None => r is None,
                },
            },
    {
        match self {
            ChatTemplateKind::Llama3(t) => t.format_system_prefix(system),
            ChatTemplateKind::Gemma4(t) => t.format_system_prefix(system),
            ChatTemplateKind::ChatML(t) => t.format_system_prefix(system),
            ChatTemplateKind::Mistral(t) => t.format_system_prefix(system),
        }
    }
}

} // verus!

verus! {

/// Reading a kind's text form gives that kind back.
pub proof fn law_kind_name_parses_back(k: ChatTemplateKind)
    ensures
        parse_kind(kind_name(k)) == Some(k),
{
    reveal_strlit("llama3");
    reveal_strlit("gemma4");
    reveal_strlit("gemma4-thinking");
    reveal_strlit("chatml");
    reveal_strlit("chatml-suppressed");
    reveal_strlit("chatml-thinking");
    reveal_strlit("mistral");
    assert("gemma4"@[0] != "llama3"@[0]);
    assert("chatml"@[0] != "llama3"@[0] && "chatml"@[0] != "gemma4"@[0]);
    assert("mistral"@[0] != "llama3"@[0] && "mistral"@[0] != "gemma4"@[0] && "mistral"@[0] != "chatml"@[0]);
    assert("chatml-suppressed"@[7] != "chatml-thinking"@[7]);
    assert("gemma4-thinking"@.len() != "gemma4"@.len());
    assert("chatml-thinking"@.len() != "chatml"@.len());
    assert("chatml-suppressed"@.len() != "chatml"@.len());
    assert("gemma4-thinking"@[0] != "llama3"@[0]);
    assert("chatml-thinking"@[0] != "llama3"@[0] && "chatml-thinking"@[0] != "gemma4"@[0] && "chatml-thinking"@[0] != "gemma4-thinking"@[0]);
    assert("chatml-suppressed"@[0] != "llama3"@[0] && "chatml-suppressed"@[0] != "gemma4"@[0] && "chatml-suppressed"@[0] != "gemma4-thinking"@[0]);
    assert("mistral"@[0] != "gemma4-thinking"@[0] && "mistral"@[0] != "chatml-suppressed"@[0] && "mistral"@[0] != "chatml-thinking"@[0]);
}

/// A text that names a kind is that kind's text form.
pub proof fn law_parsed_kind_is_named_by_its_text(s: Seq<char>)
    ensures
        parse_kind(s) matches Some(k) ==> kind_name(k) == s,
{
}

/// Whatever kind formats it, the system prefix (where the kind has one) is
/// how the prompt of a conversation that opens with that system message and
/// has no tool results begins, both dated by the same day.
pub proof fn law_kind_system_prefix_leads_format(k: ChatTemplateKind, system: Seq<char>, ms: Seq<MessageModel>, today: Seq<char>)
    requires
        ms.len() >= 1,
        ms[0] == text_message(RoleModel::System, system),
        !has_tool(ms),
    ensures
        kind_system_prefix(k, system, today) matches Some(p) ==> p.is_prefix_of(kind_prompt(k, ms, today)),
        kind_system_prefix(k, system, today) is None <==> k is Mistral,
{
    match k {
        ChatTemplateKind::Llama3(_) => law_llama3_system_prefix_leads_format(system, ms, today),
        ChatTemplateKind::Gemma4(t) => law_gemma_system_prefix_leads_format(t.thinking, system, ms),
        ChatTemplateKind::ChatML(t) => law_chatml_system_prefix_leads_format(t.thinking, system, ms),
        ChatTemplateKind::Mistral(_) => {},
    }
}

} // verus!
