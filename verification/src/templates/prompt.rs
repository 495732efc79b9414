//! Tool summaries and the system-note injection done before formatting.
use vstd::prelude::*;

use crate::message::{message_models, sole_text, text_message, Message, MessageModel, Role, RoleModel};
use crate::templates::gemma4::has_system;
use crate::templates::kind::{kind_prompt, ChatTemplateKind};
use crate::templates::llama3::is_clock_date;
use crate::templates::template::ChatTemplate;
use crate::tool::{entry_defs, DefModel, ToolRegistry};
use crate::text::{append_joined, join};

verus! {

broadcast use vstd::std_specs::vec::group_vec_axioms;

/// One line of the tools summary.
pub open spec fn summary_line(d: DefModel) -> Seq<char> {
    if d.description.len() == 0 {
        "- "@ + d.name
    } else {
        "- "@ + d.name + ": "@ + d.description
    }
}

/// The compact tool list (names and descriptions); `None` without tools.
pub open spec fn tools_summary(defs: Seq<DefModel>) -> Option<Seq<char>> {
    if defs.len() == 0 {
        None
    } else {
        Some("Tools (call with JSON {\"tool\": \"name\", \"args\": {...}}):\n"@
            + join(defs.map_values(|d: DefModel| summary_line(d)), "\n"@))
    }
}

/// Builds the compact tool list (names and descriptions only).
pub fn build_tools_summary<H>(registry: &ToolRegistry<H>) -> (r: Option<String>)
    ensures
        match tools_summary(entry_defs(registry@)) {
            Some(t) => r matches Some(s) && s@ == t,
            None => r is None,
        },
{
    let defs = registry.definitions();
    let ghost ds = entry_defs(registry@);
    let ghost lines = ds.map_values(|d: DefModel| summary_line(d));
    let mut tools: Vec<String> = Vec::new();
    let mut i: usize = 0;
    while i < defs.len()
        invariant
            i <= defs.len(),
            defs@.map_values(|d: crate::tool::ToolDefinition| d@) == ds,
            lines == ds.map_values(|d: DefModel| summary_line(d)),
            tools@.len() == i,
            forall|k: int| 0 <= k < i ==> #[trigger] tools@[k]@ == lines[k],
        decreases defs.len() - i,
    {
        let def = &defs[i];
        assert(def@ == ds[i as int]);
        let mut line = String::from_str("- ");
        line.append(def.name.as_str());
        if !def.description.as_str().is_empty() {
            line.append(": ");
            line.append(def.description.as_str());
        }
        tools.push(line);
        i = i + 1;
    }
    if tools.len() == 0 {
        None
    } else {
        let mut out = String::from_str("Tools (call with JSON {\"tool\": \"name\", \"args\": {...}}):\n");
        append_joined(&mut out, &tools, "\n");
        assert(tools@.map_values(|p: String| p@) =~= lines);
        Some(out)
    }
}

/// The text a system message contributes before a note: its sole text part,
/// or nothing.
pub open spec fn system_text(m: MessageModel) -> Seq<char> {
    match sole_text(m.content) {
        Some(t) => t,
        None => Seq::empty(),
    }
}

/// The messages with `note` appended to every system message (after a blank
/// line), or, without one, a leading system message holding `note`.
pub open spec fn with_system_note(ms: Seq<MessageModel>, note: Seq<char>) -> Seq<MessageModel> {
    let mapped = ms.map_values(|m: MessageModel|
        if m.role is System { text_message(RoleModel::System, system_text(m) + "\n\n"@ + note) } else { m }
    );
    if has_system(ms) { mapped } else { seq![text_message(RoleModel::System, note)] + mapped }
}

/// The messages a prompt is formatted from, given an optional tools summary.
pub open spec fn prepared_messages(ms: Seq<MessageModel>, summary: Option<Seq<char>>) -> Seq<MessageModel> {
    match summary {
        Some(s) => with_system_note(ms, s),
        None => ms,
    }
}

pub proof fn lemma_has_system_index(ms: Seq<MessageModel>)
    ensures
        has_system(ms) <==> exists|k: int| 0 <= k < ms.len() && (#[trigger] ms[k]).role is System,
    decreases ms.len(),
{
    if ms.len() > 0 {
        lemma_has_system_index(ms.drop_last());
        assert(forall|k: int| 0 <= k < ms.len() - 1 ==> ms.drop_last()[k] == ms[k]);
    }
}

/// Copies the messages with `note` added as [`with_system_note`] says.
pub fn add_system_note(messages: &[Message], note: &str) -> (r: Vec<Message>)
    ensures
        message_models(r@) == with_system_note(message_models(messages@), note@),
{
    let ghost ms = message_models(messages@);
    let ghost mapped = ms.map_values(|m: MessageModel|
        if m.role is System { text_message(RoleModel::System, system_text(m) + "\n\n"@ + note@) } else { m }
    );
    let mut out: Vec<Message> = Vec::new();
    let mut found = false;
    let mut i: usize = 0;
    while i < messages.len()
        invariant
            i <= messages.len(),
            ms == message_models(messages@),
            mapped.len() == ms.len(),
            forall|k: int| 0 <= k < ms.len() ==> #[trigger] mapped[k] == (
                if ms[k].role is System { text_message(RoleModel::System, system_text(ms[k]) + "\n\n"@ + note@) } else { ms[k] }),
            out@.len() == i,
            forall|k: int| 0 <= k < i ==> #[trigger] out@[k]@ == mapped[k],
            found == exists|k: int| 0 <= k < i && (#[trigger] ms[k]).role is System,
        decreases messages.len() - i,
    {
        let m = &messages[i];
        assert(m@ == ms[i as int]);
        match &m.role {
            Role::System => {
                let mut text = match m.as_text() {
                    Some(t) => t.to_owned(),
                    None => String::new(),
                };
                text.append("\n\n");
                text.append(note);
                out.push(Message::system(text.as_str()));
                found = true;
            },
            _ => {
                out.push(m.clone());
            },
        }
        i = i + 1;
    }
    proof { lemma_has_system_index(ms); }
    if !found {
        out.insert(0, Message::system(note));
        assert(message_models(out@) =~= seq![text_message(RoleModel::System, note@)] + mapped);
    } else {
        assert(message_models(out@) =~= mapped);
    }
    out
}

/// The messages with the tools summary injected into the system message
/// (or in a leading one); unchanged without a summary.
pub fn prepare_messages_with_tools(messages: &[Message], tools_summary: Option<&str>) -> (r: Vec<Message>)
    ensures
        message_models(r@) == prepared_messages(message_models(messages@), match tools_summary {
            Some(s) => Some(s@),
            None => None,
        }),
{
    match tools_summary {
        None => {
            let mut out: Vec<Message> = Vec::new();
            let mut i: usize = 0;
            while i < messages.len()
                invariant
                    i <= messages.len(),
                    out@.len() == i,
                    forall|k: int| 0 <= k < i ==> #[trigger] out@[k]@ == messages@[k]@,
                decreases messages.len() - i,
            {
                out.push(messages[i].clone());
                i = i + 1;
            }
            assert(message_models(out@) =~= message_models(messages@));
            out
        },
        Some(summary) => add_system_note(messages, summary),
    }
}

/// Formats a prompt, injecting a tools summary into the system message
/// when a registry with tools is supplied.
pub fn format_prompt<H>(messages: &[Message], tools: Option<&ToolRegistry<H>>, template: &ChatTemplateKind) -> (r: String)
    ensures
        ({
            let summary = match tools {
                Some(reg) => tools_summary(entry_defs(reg@)),
                None => None,
            };
            let ms = prepared_messages(message_models(messages@), summary);
            match template {
                ChatTemplateKind::Llama3(_) => exists|today: Seq<char>| #[trigger] is_clock_date(today)
                    && r@ == kind_prompt(*template, ms, today),
                _ => r@ == kind_prompt(*template, ms, Seq::empty()),
            }
        }),
{
    let summary = match tools {
        Some(reg) => build_tools_summary(reg),
        None => None,
    };
    let prepared = match &summary {
        Some(s) => prepare_messages_with_tools(messages, Some(s.as_str())),
        None => prepare_messages_with_tools(messages, None),
    };
    template.format(prepared.as_slice())
}

} // verus!
