//! The decisions of the local-model backend: stop sequences, prompt-cache
//! reuse, grammar routing, prompt preparation, and the OpenAI-style JSON it
//! exchanges with llama.cpp. Loading models, tokenizing and sampling are its
//! owner's part.
use vstd::prelude::*;

use crate::error::{AgentError, ErrModel};
use crate::json::{json_render, render_json, Json, JsonValue};
use crate::message::{message_models, Message, MessageModel};
use crate::schema::json_schema::json_schema;
use crate::structured::output_schema::{GrammarModel, OutputSchemaRequest, RequestModel};
use crate::schema::kind::GrammarSource;
use crate::templates::prompt::{add_system_note, with_system_note};
use crate::text::push_decimal;
use crate::stream::chunk::{Chunk, ChunkModel, EventModel, ToolEvent};
use vstd::string::StringSliceAdditionalSpecFns;

verus! {

broadcast use {vstd::std_specs::vec::group_vec_axioms, vstd::std_specs::hash::group_hash_axioms};

/// `t` ends with `s`.
pub open spec fn bytes_end_with(t: Seq<u8>, s: Seq<u8>) -> bool {
    s.len() <= t.len() && t.subrange(t.len() - s.len(), t.len() as int) == s
}

/// The byte offset where the first non-empty stop sequence that ends the
/// output begins, if any.
pub open spec fn stop_cut(out: Seq<u8>, stops: Seq<Seq<u8>>) -> Option<int>
    decreases stops.len(),
{
    if stops.len() == 0 {
        None
    } else if stops[0].len() > 0 && bytes_end_with(out, stops[0]) {
        Some(out.len() - stops[0].len())
    } else {
        stop_cut(out, stops.drop_first())
    }
}

fn ends_with_bytes(t: &[u8], s: &[u8]) -> (r: bool)
    ensures
        r == bytes_end_with(t@, s@),
{
    if s.len() > t.len() {
        return false;
    }
    let off = t.len() - s.len();
    let mut k: usize = 0;
    while k < s.len()
        invariant
            k <= s.len(),
            off + s.len() == t.len(),
            forall|j: int| 0 <= j < k ==> t@[off + j] == s@[j],
        decreases s.len() - k,
    {
        if t[off + k] != s[k] {
            assert(t@.subrange(off as int, t@.len() as int)[k as int] != s@[k as int]);
            return false;
        }
        k = k + 1;
    }
    assert(t@.subrange(off as int, t@.len() as int) =~= s@);
    true
}

/// Where the first non-empty stop sequence that ends `output` begins (a
/// byte offset), if any.
pub fn ends_with_any_stop(output: &str, stops: &[String]) -> (r: Option<usize>)
    ensures
        match stop_cut(vstd::utf8::encode_utf8(output@), stops@.map_values(|s: String| vstd::utf8::encode_utf8(s@))) {
            Some(c) => r == Some(c as usize),
            None => r is None,
        },
{
    let out = output.as_bytes();
    let ghost ss = stops@.map_values(|s: String| vstd::utf8::encode_utf8(s@));
    assert(ss.subrange(0, ss.len() as int) == ss);
    let mut i: usize = 0;
    while i < stops.len()
        invariant
            i <= stops.len(),
            out@ == vstd::utf8::encode_utf8(output@),
            ss == stops@.map_values(|s: String| vstd::utf8::encode_utf8(s@)),
            stop_cut(out@, ss) == stop_cut(out@, ss.subrange(i as int, ss.len() as int)),
        decreases stops.len() - i,
    {
        let ghost rest = ss.subrange(i as int, ss.len() as int);
        assert(rest[0] == vstd::utf8::encode_utf8(stops@[i as int]@));
        assert(rest.drop_first() == ss.subrange(i + 1, ss.len() as int));
        let stop = stops[i].as_str().as_bytes();
        if stop.len() > 0 && ends_with_bytes(out, stop) {
            return Some(out.len() - stop.len());
        }
        i = i + 1;
    }
    None
}

/// The length of the longest common prefix of two token lists.
pub open spec fn common_prefix(a: Seq<i32>, b: Seq<i32>) -> nat
    decreases a.len(),
{
    if a.len() == 0 || b.len() == 0 || a[0] != b[0] {
        0
    } else {
        1 + common_prefix(a.drop_first(), b.drop_first())
    }
}

/// The length of the longest common prefix of two token lists.
pub fn lcp(a: &[i32], b: &[i32]) -> (r: usize)
    ensures
        r == common_prefix(a@, b@),
{
    let mut i: usize = 0;
    assert(a@.subrange(0, a@.len() as int) == a@);
    assert(b@.subrange(0, b@.len() as int) == b@);
    while i < a.len() && i < b.len() && a[i] == b[i]
        invariant
            i <= a.len(),
            i <= b.len(),
            common_prefix(a@, b@) == i + common_prefix(a@.subrange(i as int, a@.len() as int), b@.subrange(i as int, b@.len() as int)),
        decreases a.len() - i,
    {
        let ghost sa = a@.subrange(i as int, a@.len() as int);
        let ghost sb = b@.subrange(i as int, b@.len() as int);
        assert(sa.drop_first() == a@.subrange(i + 1, a@.len() as int));
        assert(sb.drop_first() == b@.subrange(i + 1, b@.len() as int));
        i = i + 1;
    }
    proof {
        assert(a@.subrange(0, a@.len() as int) == a@);
        assert(b@.subrange(0, b@.len() as int) == b@);
    }
    i
}

/// The prompt-length error text.
pub open spec fn too_long_message(len: nat, n_ctx: u32) -> Seq<char> {
    "prompt tokens ("@ + crate::text::decimal(len) + ") >= n_ctx ("@ + crate::text::decimal(n_ctx as nat) + seq![')']
}

/// From which token a new prompt is decoded: past the cached prompt when the
/// new one strictly extends it, else from the start. An empty prompt, or one
/// whose length reaches the context size, is an error.
pub open spec fn prefill_from(cached: Seq<i32>, new: Seq<i32>, n_ctx: u32) -> Result<nat, ErrModel> {
    if new.len() == 0 {
        Err(ErrModel::Other("empty prompt"@))
    } else if new.len() >= n_ctx {
        Err(ErrModel::Other(too_long_message(new.len(), n_ctx)))
    } else {
        let common = common_prefix(cached, new);
        if cached.len() > 0 && common == cached.len() && common < new.len() { Ok(common) } else { Ok(0) }
    }
}

/// Plans the prefill of `new_tokens` given the prompt cached from the last
/// call: the position to decode from.
pub fn prefill_start(cached: &[i32], new_tokens: &[i32], n_ctx: u32) -> (r: Result<usize, AgentError>)
    ensures
        match (r, prefill_from(cached@, new_tokens@, n_ctx)) {
            (Ok(a), Ok(b)) => a == b,
            (Err(e), Err(f)) => e@ == f,
            _ => false,
        },
{
    if new_tokens.len() == 0 {
        return Err(AgentError::Other("empty prompt".to_owned()));
    }
    if new_tokens.len() as u64 >= n_ctx as u64 {
        let mut e = String::from_str("prompt tokens (");
        push_decimal(&mut e, new_tokens.len() as u64);
        e.append(") >= n_ctx (");
        push_decimal(&mut e, n_ctx as u64);
        crate::text::push_char(&mut e, ')');
        assert(e@ =~= too_long_message(new_tokens@.len(), n_ctx));
        return Err(AgentError::Other(e));
    }
    let common = lcp(cached, new_tokens);
    if cached.len() > 0 && common == cached.len() && common < new_tokens.len() {
        Ok(common)
    } else {
        Ok(0)
    }
}

/// The request's constraint as llama.cpp takes it: a schema as JSON Schema
/// text, or a GBNF grammar verbatim; at most one of the two.
pub open spec fn grammar_parts(req: Option<RequestModel>) -> (Option<Seq<char>>, Option<Seq<char>>) {
    match req {
        Some(q) => match q.grammar {
            GrammarModel::Schema(s) => (Some(json_render(json_schema(s))), None),
            GrammarModel::Gbnf(g) => (None, Some(g)),
        },
        None => (None, None),
    }
}

/// Splits a structured-output request into `(json_schema, raw_grammar)`.
pub fn grammar_split(req: Option<&OutputSchemaRequest>) -> (r: (Option<String>, Option<String>))
    ensures
        ({
            let (a, b) = grammar_parts(match req {
                Some(q) => Some(q@),
                None => None,
            });
            &&& (match (r.0, a) {
                (Some(x), Some(y)) => x@ == y,
                (None, None) => true,
                _ => false,
            })
            &&& (match (r.1, b) {
                (Some(x), Some(y)) => x@ == y,
                (None, None) => true,
                _ => false,
            })
        }),
{
    match req {
        Some(q) => match &q.grammar {
            GrammarSource::Schema(s) => {
                let js = s.to_json_schema();
                (Some(render_json(&js)), None)
            },
            GrammarSource::Gbnf(g) => (None, Some(g.clone())),
        },
        None => (None, None),
    }
}

/// The instruction that asks for one JSON object of a schema.
pub open spec fn schema_instruction(schema_json: Seq<char>) -> Seq<char> {
    "Reply with a single JSON object matching this schema:\n"@ + schema_json
        + "\nOutput only the JSON object — no preamble, no markdown."@
}

/// The messages with the schema instruction added to the system message (or
/// in a leading one).
pub fn inject_schema_instruction(messages: &[Message], schema_json: &str) -> (r: Vec<Message>)
    ensures
        message_models(r@) == with_system_note(message_models(messages@), schema_instruction(schema_json@)),
{
    let mut instruction = String::from_str("Reply with a single JSON object matching this schema:\n");
    instruction.append(schema_json);
    instruction.append("\nOutput only the JSON object — no preamble, no markdown.");
    add_system_note(messages, instruction.as_str())
}

/// Whether a streamed turn goes through the library's own template, and then
/// whether it is a tool turn: only with a template set, and only for a tool
/// turn (tools and no schema or grammar) or a schema turn.
pub open spec fn template_route(has_template: bool, tools: bool, schema: bool, grammar: bool) -> Option<bool> {
    let tool_turn = tools && !schema && !grammar;
    let schema_turn = schema || grammar;
    if has_template && (tool_turn || schema_turn) { Some(tool_turn) } else { None }
}

/// Routes a streamed turn, as [`template_route`] says.
pub fn stream_route(has_template: bool, tools: bool, schema: bool, grammar: bool) -> (r: Option<bool>)
    ensures
        r == template_route(has_template, tools, schema, grammar),
{
    if has_template {
        let is_tool_turn = tools && !schema && !grammar;
        let is_schema_turn = schema || grammar;
        if is_tool_turn || is_schema_turn {
            return Some(is_tool_turn);
        }
    }
    None
}

} // verus!

verus! {

/// A JSON string.
pub open spec fn jstr(s: Seq<char>) -> Json {
    Json::Str(s)
}

/// The OpenAI role name of a role.
pub open spec fn role_text(r: crate::message::RoleModel) -> Seq<char> {
    match r {
        crate::message::RoleModel::System => "system"@,
        crate::message::RoleModel::User => "user"@,
        crate::message::RoleModel::Assistant => "assistant"@,
        crate::message::RoleModel::Tool => "tool"@,
        crate::message::RoleModel::Custom(s) => s,
    }
}

/// The first tool response among a message's parts.
pub open spec fn first_response(parts: Seq<crate::message::PartModel>) -> Option<crate::tool_response::ToolResponseModel>
    decreases parts.len(),
{
    if parts.len() == 0 {
        None
    } else {
        match parts[0] {
            crate::message::PartModel::ToolResponse(r) => Some(r),
            _ => first_response(parts.drop_first()),
        }
    }
}

/// A message as an OpenAI chat message: a tool message with a tool response
/// carries its call id and rendered result, any other its text parts.
pub open spec fn oai_message(m: MessageModel) -> Json {
    let role = ("role"@, jstr(role_text(m.role)));
    match (m.role, first_response(m.content)) {
        (crate::message::RoleModel::Tool, Some(r)) => Json::Object(seq![
            role,
            ("tool_call_id"@, jstr(r.call_id)),
            ("content"@, jstr(crate::templates::helpers::result_text(r.result))),
        ]),
        _ => Json::Object(seq![role, ("content"@, jstr(crate::message::all_text(m.content)))]),
    }
}

fn role_name(m: &Message) -> (r: String)
    ensures
        r@ == role_text(m@.role),
{
    match &m.role {
        crate::message::Role::System => "system".to_owned(),
        crate::message::Role::User => "user".to_owned(),
        crate::message::Role::Assistant => "assistant".to_owned(),
        crate::message::Role::Tool => "tool".to_owned(),
        crate::message::Role::Custom(s) => s.clone(),
    }
}

fn result_content(r: &crate::tool_response::ToolResult) -> (s: String)
    ensures
        s@ == crate::templates::helpers::result_text(r@),
{
    match r {
        crate::tool_response::ToolResult::Json(v) => render_json(v),
        crate::tool_response::ToolResult::Text(t) => t.clone(),
        crate::tool_response::ToolResult::Error(e) => {
            let mut s = String::from_str("Error: ");
            s.append(e.as_str());
            s
        },
        crate::tool_response::ToolResult::Binary { content_type, .. } => {
            let mut s = String::from_str("[binary: ");
            s.append(content_type.as_str());
            crate::text::push_char(&mut s, ']');
            s
        },
    }
}

fn oai_message_value(m: &Message) -> (r: JsonValue)
    ensures
        r@ == oai_message(m@),
{
    let mut es: Vec<(String, JsonValue)> = Vec::new();
    crate::json::push_entry(&mut es, "role", JsonValue::String(role_name(m)));
    let ghost ps = m@.content;
    proof { assert(ps.subrange(0, ps.len() as int) == ps); }
    if let crate::message::Role::Tool = &m.role {
        assert(m@.role == crate::message::RoleModel::Tool);
        let parts = m.content.iter();
        let mut i: usize = 0;
        while i < parts.len()
            invariant
                i <= parts.len(),
                parts@.map_values(|p: crate::message::ContentPart| p@) == ps,
                ps == m@.content,
                m@.role == crate::message::RoleModel::Tool,
                JsonValue::entry_models(es@) == seq![("role"@, jstr(role_text(m@.role)))],
                first_response(ps) == first_response(ps.subrange(i as int, ps.len() as int)),
            decreases parts.len() - i,
        {
            let ghost rest = ps.subrange(i as int, ps.len() as int);
            assert(rest[0] == parts@[i as int]@);
            assert(rest.drop_first() == ps.subrange(i + 1, ps.len() as int));
            if let crate::message::ContentPart::ToolResponse { response } = &parts[i] {
                crate::json::push_entry(&mut es, "tool_call_id", JsonValue::String(response.call_id.clone()));
                crate::json::push_entry(&mut es, "content", JsonValue::String(result_content(&response.result)));
                assert(first_response(ps) == Some(response@));
                assert(JsonValue::entry_models(es@) =~= seq![
                    ("role"@, jstr(role_text(m@.role))),
                    ("tool_call_id"@, jstr(response@.call_id)),
                    ("content"@, jstr(crate::templates::helpers::result_text(response@.result))),
                ]);
                return JsonValue::Object(es);
            }
            i = i + 1;
        }
        assert(ps.subrange(ps.len() as int, ps.len() as int) == Seq::<crate::message::PartModel>::empty());
    }
    crate::json::push_entry(&mut es, "content", JsonValue::String(m.content.to_text()));
    assert(JsonValue::entry_models(es@) =~= seq![("role"@, jstr(role_text(m@.role))), ("content"@, jstr(crate::message::all_text(m@.content)))]);
    JsonValue::Object(es)
}

/// The messages as an OpenAI `messages` array, rendered.
pub fn messages_to_openai_json(messages: &[Message]) -> (r: Result<String, AgentError>)
    ensures
        r matches Ok(s) && s@ == json_render(Json::Array(message_models(messages@).map_values(|m: MessageModel| oai_message(m)))),
{
    let ghost ms = message_models(messages@);
    let mut out: Vec<JsonValue> = Vec::new();
    let mut i: usize = 0;
    while i < messages.len()
        invariant
            i <= messages.len(),
            ms == message_models(messages@),
            JsonValue::models(out@) == ms.map_values(|m: MessageModel| oai_message(m)).subrange(0, i as int),
        decreases messages.len() - i,
    {
        let v = oai_message_value(&messages[i]);
        crate::json::push_item(&mut out, v);
        assert(JsonValue::models(out@) =~= ms.map_values(|m: MessageModel| oai_message(m)).subrange(0, i + 1));
        i = i + 1;
    }
    assert(ms.map_values(|m: MessageModel| oai_message(m)).subrange(0, i as int) =~= ms.map_values(|m: MessageModel| oai_message(m)));
    Ok(render_json(&JsonValue::Array(out)))
}

/// A tool definition as an OpenAI `tools` array entry.
pub open spec fn oai_tool(d: crate::tool::DefModel) -> Json {
    Json::Object(seq![
        ("type"@, jstr("function"@)),
        ("function"@, Json::Object(seq![
            ("name"@, jstr(d.name)),
            ("description"@, jstr(d.description)),
            ("parameters"@, json_schema(d.input)),
        ])),
    ])
}

/// The registered tools as an OpenAI `tools` array, rendered.
pub fn tools_to_openai_json<H>(registry: &crate::tool::ToolRegistry<H>) -> (r: String)
    ensures
        r@ == json_render(Json::Array(crate::tool::entry_defs(registry@).map_values(|d: crate::tool::DefModel| oai_tool(d)))),
{
    let defs = registry.definitions();
    let ghost ds = crate::tool::entry_defs(registry@);
    let mut out: Vec<JsonValue> = Vec::new();
    let mut i: usize = 0;
    while i < defs.len()
        invariant
            i <= defs.len(),
            defs@.map_values(|d: crate::tool::ToolDefinition| d@) == ds,
            JsonValue::models(out@) == ds.map_values(|d: crate::tool::DefModel| oai_tool(d)).subrange(0, i as int),
        decreases defs.len() - i,
    {
        let def = &defs[i];
        assert(def@ == ds[i as int]);
        let mut f: Vec<(String, JsonValue)> = Vec::new();
        crate::json::push_entry(&mut f, "name", JsonValue::String(def.name.clone()));
        crate::json::push_entry(&mut f, "description", JsonValue::String(def.description.clone()));
        crate::json::push_entry(&mut f, "parameters", def.input.to_json_schema());
        assert(JsonValue::entry_models(f@) =~= seq![
            ("name"@, jstr(def@.name)),
            ("description"@, jstr(def@.description)),
            ("parameters"@, json_schema(def@.input)),
        ]);
        let fv = JsonValue::Object(f);
        let ghost fm = fv@;
        let mut t: Vec<(String, JsonValue)> = Vec::new();
        crate::json::push_entry(&mut t, "type", JsonValue::String("function".to_owned()));
        crate::json::push_entry(&mut t, "function", fv);
        assert(JsonValue::entry_models(t@) =~= seq![("type"@, jstr("function"@)), ("function"@, fm)]);
        let tv = JsonValue::Object(t);
        assert(tv@ == oai_tool(def@));
        crate::json::push_item(&mut out, tv);
        assert(JsonValue::models(out@) =~= ds.map_values(|d: crate::tool::DefModel| oai_tool(d)).subrange(0, i + 1));
        i = i + 1;
    }
    assert(ds.map_values(|d: crate::tool::DefModel| oai_tool(d)).subrange(0, i as int) =~= ds.map_values(|d: crate::tool::DefModel| oai_tool(d)));
    render_json(&JsonValue::Array(out))
}

} // verus!

verus! {

/// The member `a`, then its member `b` (a JSON pointer `/a/b`).
pub open spec fn member2(v: Json, a: Seq<char>, b: Seq<char>) -> Option<Json> {
    match crate::json::member(v, a) {
        Some(x) => crate::json::member(x, b),
        None => None,
    }
}

/// The text of a JSON string, if the value is one.
pub open spec fn str_of(v: Option<Json>) -> Option<Seq<char>> {
    match v {
        Some(Json::Str(s)) => Some(s),
        _ => None,
    }
}

/// A reply's tool call number `i`: missing names read as empty, arguments
/// given as a JSON text are parsed (`{}` when they are not JSON), and a
/// missing id is the call's position.
pub open spec fn decoded_call(tc: Json, i: nat) -> crate::agent::CallModel {
    crate::agent::CallModel {
        id: match str_of(crate::json::member(tc, "id"@)) {
            Some(s) => s,
            None => crate::text::decimal(i),
        },
        name: match str_of(member2(tc, "function"@, "name"@)) {
            Some(s) => s,
            None => Seq::empty(),
        },
        arguments: match member2(tc, "function"@, "arguments"@) {
            Some(Json::Str(s)) => match crate::json::json_parse(s) {
                Some(v) => v,
                None => Json::Object(Seq::empty()),
            },
            Some(other) => other,
            None => Json::Object(Seq::empty()),
        },
    }
}

/// An OpenAI assistant message as a response: its tool calls when it has a
/// non-empty `tool_calls` array, else its `content` text (empty when absent).
pub open spec fn decoded_reply(v: Json) -> crate::agent::ResponseModel {
    match crate::json::member(v, "tool_calls"@) {
        Some(Json::Array(items)) => if items.len() > 0 {
            crate::agent::ResponseModel::ToolCalls(Seq::new(items.len(), |i: int| decoded_call(items[i], i as nat)))
        } else {
            crate::agent::ResponseModel::Message(match str_of(crate::json::member(v, "content"@)) {
                Some(s) => s,
                None => Seq::empty(),
            })
        },
        _ => crate::agent::ResponseModel::Message(match str_of(crate::json::member(v, "content"@)) {
            Some(s) => s,
            None => Seq::empty(),
        }),
    }
}

fn get2<'a>(v: &'a JsonValue, a: &str, b: &str) -> (r: Option<&'a JsonValue>)
    ensures
        match member2(v@, a@, b@) {
            Some(x) => r matches Some(y) && y@ == x,
            None => r is None,
        },
{
    match v.get(a) {
        Some(x) => x.get(b),
        None => None,
    }
}

fn decode_call(tc: &JsonValue, i: usize) -> (r: crate::agent::ToolCall)
    ensures
        r@ == decoded_call(tc@, i as nat),
{
    let name = match get2(tc, "function", "name") {
        Some(JsonValue::String(s)) => s.clone(),
        _ => String::new(),
    };
    let arguments = match get2(tc, "function", "arguments") {
        Some(JsonValue::String(s)) => match crate::json::parse_json(s.as_str()) {
            Ok(v) => v,
            Err(_) => JsonValue::empty_object(),
        },
        Some(other) => other.deep_clone(),
        None => JsonValue::empty_object(),
    };
    let id = match tc.get("id") {
        Some(JsonValue::String(s)) => s.clone(),
        _ => {
            let mut s = String::new();
            push_decimal(&mut s, i as u64);
            s
        },
    };
    crate::agent::ToolCall { id, name, arguments }
}

/// Reads llama.cpp's OpenAI-style reply message into a response.
pub fn decode_openai_response(oai_msg_json: &str) -> (r: Result<crate::agent::Response, AgentError>)
    ensures
        match crate::json::json_parse(oai_msg_json@) {
            Some(v) => r matches Ok(x) && x@ == decoded_reply(v),
            None => r matches Err(e) && exists|x: Seq<char>| e@ == ErrModel::Other(
                "parse_response_oaicompat returned non-JSON: "@ + x + "\nraw: "@ + oai_msg_json@),
        },
{
    let v = match crate::json::parse_json(oai_msg_json) {
        Ok(v) => v,
        Err(e) => {
            let mut text = String::from_str("parse_response_oaicompat returned non-JSON: ");
            let et = AgentError::Json(e).to_string();
            text.append(et.as_str());
            text.append("\nraw: ");
            text.append(oai_msg_json);
            assert(text@ =~= "parse_response_oaicompat returned non-JSON: "@ + et@ + "\nraw: "@ + oai_msg_json@);
            return Err(AgentError::Other(text));
        },
    };
    Ok(decode_openai_value(&v))
}

/// The response an OpenAI-style reply message holds: its non-empty
/// `tool_calls` as calls, else its `content` text (empty when absent).
pub fn decode_openai_value(v: &JsonValue) -> (r: crate::agent::Response)
    ensures
        r@ == decoded_reply(v@),
{
    if let Some(JsonValue::Array(calls)) = v.get("tool_calls") {
        if calls.len() > 0 {
            let ghost items = JsonValue::models(calls@);
            proof { crate::json::lemma_models_index(calls@); }
            let mut out: Vec<crate::agent::ToolCall> = Vec::new();
            let mut i: usize = 0;
            while i < calls.len()
                invariant
                    i <= calls.len(),
                    items == JsonValue::models(calls@),
                    items.len() == calls@.len(),
                    forall|k: int| 0 <= k < calls@.len() ==> #[trigger] items[k] == calls@[k]@,
                    out@.len() == i,
                    forall|k: int| 0 <= k < i ==> #[trigger] out@[k]@ == decoded_call(items[k], k as nat),
                decreases calls.len() - i,
            {
                out.push(decode_call(&calls[i], i));
                i = i + 1;
            }
            let r = crate::agent::Response::ToolCalls(out);
            assert(crate::agent::call_models(out@) =~= Seq::new(items.len(), |i: int| decoded_call(items[i], i as nat)));
            return r;
        }
    }
    let content = match v.get("content") {
        Some(JsonValue::String(s)) => s.clone(),
        _ => String::new(),
    };
    crate::agent::Response::Message(content)
}

} // verus!

verus! {


/// What the delta reader remembers between deltas: the call id seen for each
/// call index, and the highest index seen.
pub struct DeltaModel {
    pub ids: Map<u64, Seq<char>>,
    pub max_index: Option<u64>,
}

/// The call index of a tool-call delta, number `i` in its list: its
/// `index`, else `i`.
pub open spec fn delta_index(tc: Json, i: nat) -> u64 {
    match crate::json::member(tc, "index"@) {
        Some(Json::Number(crate::json::NumModel::PosInt(u))) => u,
        _ => i as u64,
    }
}

/// The close the end of the stream owes: that of the highest-index call.
pub open spec fn delta_close(st: DeltaModel) -> Option<ChunkModel> {
    match st.max_index {
        Some(last) => Some(ChunkModel::Tool(EventModel::Finished { id: delta_id(st.ids, last) })),
        None => None,
    }
}

/// The id that names the call at `index`: the non-empty id its deltas gave,
/// else `call_<index>`.
pub open spec fn delta_id(ids: Map<u64, Seq<char>>, index: u64) -> Seq<char> {
    if ids.contains_key(index) { ids[index] } else { "call_"@ + crate::text::decimal(index as nat) }
}

/// The state and chunks after one tool-call delta, number `i` in its list.
/// A call whose index passes the highest seen closes the call at that
/// index, under the id it was started with; the first non-empty id of an
/// index names it (`call_<index>` until then).
pub open spec fn delta_call_step(st: DeltaModel, tc: Json, i: nat) -> (DeltaModel, Seq<ChunkModel>) {
    let index = delta_index(tc, i);
    let fin = match st.max_index {
        Some(prev) => if index > prev {
            seq![ChunkModel::Tool(EventModel::Finished { id: delta_id(st.ids, prev) })]
        } else {
            Seq::empty()
        },
        None => Seq::empty(),
    };
    let max2 = Some(match st.max_index {
        Some(p) => if p >= index { p } else { index },
        None => index,
    });
    let ids2 = match str_of(crate::json::member(tc, "id"@)) {
        Some(rid) => if rid.len() > 0 { st.ids.insert(index, rid) } else { st.ids },
        None => st.ids,
    };
    let id = delta_id(ids2, index);
    let started = match str_of(member2(tc, "function"@, "name"@)) {
        Some(n) => if n.len() > 0 { seq![ChunkModel::Tool(EventModel::Started { id, name: n })] } else { Seq::empty() },
        None => Seq::empty(),
    };
    let args = match str_of(member2(tc, "function"@, "arguments"@)) {
        Some(a) => if a.len() > 0 { seq![ChunkModel::Tool(EventModel::Arguments { id, fragment: a })] } else { Seq::empty() },
        None => Seq::empty(),
    };
    (DeltaModel { ids: ids2, max_index: max2 }, fin + started + args)
}

/// The state and chunks after a list of tool-call deltas.
pub open spec fn delta_calls(st: DeltaModel, items: Seq<Json>) -> (DeltaModel, Seq<ChunkModel>)
    decreases items.len(),
{
    if items.len() == 0 {
        (st, Seq::empty())
    } else {
        let (s1, c1) = delta_calls(st, items.drop_last());
        let (s2, c2) = delta_call_step(s1, items.last(), (items.len() - 1) as nat);
        (s2, c1 + c2)
    }
}

/// The state and chunks after one streamed delta: its non-empty `content`
/// as text, then its tool-call deltas. A delta that is not JSON gives nothing.
pub open spec fn delta_chunks(st: DeltaModel, text: Seq<char>) -> (DeltaModel, Seq<ChunkModel>) {
    match crate::json::json_parse(text) {
        None => (st, Seq::empty()),
        Some(v) => {
            let content = match str_of(crate::json::member(v, "content"@)) {
                Some(c) => if c.len() > 0 { seq![ChunkModel::Text(c)] } else { Seq::empty() },
                None => Seq::empty(),
            };
            match crate::json::member(v, "tool_calls"@) {
                Some(Json::Array(items)) => {
                    let (s2, cs) = delta_calls(st, items);
                    (s2, content + cs)
                },
                _ => (st, content),
            }
        },
    }
}

/// The reader of llama.cpp's streamed OpenAI deltas.
pub struct DeltaState {
    ids: std::collections::HashMap<u64, String>,
    max_index: Option<u64>,
}

impl View for DeltaState {
    type V = DeltaModel;

    closed spec fn view(&self) -> DeltaModel {
        DeltaModel { ids: self.ids@.map_values(|s: String| s@), max_index: self.max_index }
    }
}

impl DeltaState {
    pub fn new() -> (r: Self)
        ensures
            r@ == (DeltaModel { ids: Map::empty(), max_index: None }),
    {
        let r = DeltaState { ids: std::collections::HashMap::new(), max_index: None };
        assert(r@.ids =~= Map::<u64, Seq<char>>::empty());
        r
    }

    fn id_of(&self, index: u64) -> (r: Option<String>)
        ensures
            match r {
                Some(s) => self@.ids.contains_key(index) && s@ == self@.ids[index],
                None => !self@.ids.contains_key(index),
            },
    {
        match self.ids.get(&index) {
            Some(s) => Some(s.clone()),
            None => None,
        }
    }

    fn id_for(&self, index: u64) -> (r: String)
        ensures
            r@ == delta_id(self@.ids, index),
    {
        match self.id_of(index) {
            Some(s) => s,
            None => {
                let mut s = String::from_str("call_");
                push_decimal(&mut s, index);
                s
            },
        }
    }

    /// Takes in one parsed tool-call delta, number `i` in its list, and
    /// appends the chunks it gives to `out`.
    pub fn call_step(&mut self, tc: &JsonValue, i: usize, out: &mut Vec<Chunk>)
        ensures
            ({
                let (s2, cs) = delta_call_step(old(self)@, tc@, i as nat);
                &&& final(self)@ == s2
                &&& crate::stream::chunk::chunk_models(final(out)@) == crate::stream::chunk::chunk_models(old(out)@) + cs
            }),
    {
        let ghost st = self@;
        let ghost start = crate::stream::chunk::chunk_models(out@);
        let index: u64 = match tc.get("index") {
            Some(JsonValue::Number(crate::json::JsonNumber::PosInt(u))) => *u,
            _ => i as u64,
        };
        let ghost mut emitted: Seq<ChunkModel> = Seq::empty();
        match self.max_index {
            Some(prev) => {
                if index > prev {
                    out.push(Chunk::Tool(ToolEvent::Finished { id: self.id_for(prev) }));
                }
            },
            None => {},
        }
        self.max_index = Some(match self.max_index {
            Some(p) => if p >= index { p } else { index },
            None => index,
        });
        match tc.get("id") {
            Some(JsonValue::String(rid)) => {
                if !rid.as_str().is_empty() {
                    self.ids.insert(index, rid.clone());
                    assert(self@.ids =~= st.ids.insert(index, rid@));
                }
            },
            _ => {},
        }
        let id = self.id_for(index);
        match get2(tc, "function", "name") {
            Some(JsonValue::String(name)) => {
                if !name.as_str().is_empty() {
                    out.push(Chunk::Tool(ToolEvent::Started { id: id.clone(), name: name.clone() }));
                }
            },
            _ => {},
        }
        match get2(tc, "function", "arguments") {
            Some(JsonValue::String(args)) => {
                if !args.as_str().is_empty() {
                    out.push(Chunk::Tool(ToolEvent::Arguments { id, fragment: args.clone() }));
                }
            },
            _ => {},
        }
        let ghost (s2, cs) = delta_call_step(st, tc@, i as nat);
        assert(crate::stream::chunk::chunk_models(out@) =~= start + cs);
    }

    /// The chunks of one streamed delta.
    pub fn parse_delta(&mut self, delta_json: &str) -> (r: Vec<Chunk>)
        ensures
            ({
                let (s2, cs) = delta_chunks(old(self)@, delta_json@);
                &&& final(self)@ == s2
                &&& crate::stream::chunk::chunk_models(r@) == cs
            }),
    {
        let mut out: Vec<Chunk> = Vec::new();
        let v = match crate::json::parse_json(delta_json) {
            Ok(v) => v,
            Err(_) => {
                assert(crate::stream::chunk::chunk_models(out@) =~= Seq::<ChunkModel>::empty());
                return out;
            },
        };
        match v.get("content") {
            Some(JsonValue::String(c)) => {
                if !c.as_str().is_empty() {
                    out.push(Chunk::Text(c.clone()));
                }
            },
            _ => {},
        }
        let ghost content = crate::stream::chunk::chunk_models(out@);
        assert(content == match str_of(crate::json::member(v@, "content"@)) {
            Some(c) => if c.len() > 0 { seq![ChunkModel::Text(c)] } else { Seq::empty() },
            None => Seq::<ChunkModel>::empty(),
        });
        let ghost st0 = self@;
        match v.get("tool_calls") {
            Some(JsonValue::Array(items)) => {
                let ghost ms = JsonValue::models(items@);
                proof { crate::json::lemma_models_index(items@); }
                let mut i: usize = 0;
                while i < items.len()
                    invariant
                        i <= items.len(),
                        ms == JsonValue::models(items@),
                        ms.len() == items@.len(),
                        forall|k: int| 0 <= k < items@.len() ==> #[trigger] ms[k] == items@[k]@,
                        ({
                            let (s, cs) = delta_calls(st0, ms.subrange(0, i as int));
                            &&& self@ == s
                            &&& crate::stream::chunk::chunk_models(out@) == content + cs
                        }),
                    decreases items.len() - i,
                {
                    proof {
                        let sub = ms.subrange(0, i + 1);
                        assert(sub.drop_last() == ms.subrange(0, i as int));
                    }
                    self.call_step(&items[i], i, &mut out);
                    i = i + 1;
                }
                proof { assert(ms.subrange(0, items@.len() as int) == ms); }
            },
            _ => {
                assert(content + Seq::<ChunkModel>::empty() == content);
            },
        }
        out
    }

    /// At the end of the stream: the close of the highest-index call, which
    /// no later index closed, under the id it was started with.
    pub fn final_close(&self) -> (r: Option<Chunk>)
        ensures
            match delta_close(self@) {
                Some(c) => r matches Some(x) && x@ == c,
                None => r is None,
            },
    {
        match self.max_index {
            Some(last) => Some(Chunk::Tool(ToolEvent::Finished { id: self.id_for(last) })),
            None => None,
        }
    }
}

} // verus!

verus! {

/// The chunks that announce calls read from a turn's text: for each, its
/// start, its whole arguments as one fragment, and its close.
pub open spec fn call_chunks(calls: Seq<crate::agent::CallModel>) -> Seq<ChunkModel>
    decreases calls.len(),
{
    if calls.len() == 0 {
        Seq::empty()
    } else {
        let c = calls.last();
        call_chunks(calls.drop_last()) + seq![
            ChunkModel::Tool(EventModel::Started { id: c.id, name: c.name }),
            ChunkModel::Tool(EventModel::Arguments { id: c.id, fragment: json_render(c.arguments) }),
            ChunkModel::Tool(EventModel::Finished { id: c.id }),
        ]
    }
}

/// The chunks that announce the given calls.
pub fn template_call_chunks(calls: &[crate::agent::ToolCall]) -> (r: Vec<Chunk>)
    ensures
        crate::stream::chunk::chunk_models(r@) == call_chunks(crate::agent::call_models(calls@)),
{
    let ghost cs = crate::agent::call_models(calls@);
    let mut out: Vec<Chunk> = Vec::new();
    let mut i: usize = 0;
    while i < calls.len()
        invariant
            i <= calls.len(),
            cs == crate::agent::call_models(calls@),
            crate::stream::chunk::chunk_models(out@) == call_chunks(cs.subrange(0, i as int)),
        decreases calls.len() - i,
    {
        proof {
            let sub = cs.subrange(0, i + 1);
            assert(sub.drop_last() == cs.subrange(0, i as int));
        }
        let c = &calls[i];
        let ghost before = crate::stream::chunk::chunk_models(out@);
        out.push(Chunk::Tool(ToolEvent::Started { id: c.id.clone(), name: c.name.clone() }));
        out.push(Chunk::Tool(ToolEvent::Arguments { id: c.id.clone(), fragment: render_json(&c.arguments) }));
        out.push(Chunk::Tool(ToolEvent::Finished { id: c.id.clone() }));
        assert(crate::stream::chunk::chunk_models(out@) =~= call_chunks(cs.subrange(0, i + 1)));
        i = i + 1;
    }
    proof { assert(cs.subrange(0, calls.len() as int) == cs); }
    out
}

/// An assistant reply holding `content`.
pub open spec fn assistant_reply(content: Seq<char>) -> Json {
    Json::Object(seq![("role"@, jstr("assistant"@)), ("content"@, jstr(content))])
}

/// A call as an OpenAI `tool_calls` entry, its arguments as JSON text.
pub open spec fn oai_call(c: crate::agent::CallModel) -> Json {
    Json::Object(seq![
        ("id"@, jstr(c.id)),
        ("type"@, jstr("function"@)),
        ("function"@, Json::Object(seq![("name"@, jstr(c.name)), ("arguments"@, jstr(json_render(c.arguments)))])),
    ])
}

/// The reply of a turn rendered by the library's template: its calls when
/// calls are read and some were found, else its cleaned text.
pub open spec fn template_reply(cleaned: Seq<char>, calls: Seq<crate::agent::CallModel>, read_calls: bool) -> Seq<char> {
    if read_calls && calls.len() > 0 {
        json_render(Json::Object(seq![
            ("role"@, jstr("assistant"@)),
            ("content"@, jstr(Seq::empty())),
            ("tool_calls"@, Json::Array(calls.map_values(|c: crate::agent::CallModel| oai_call(c)))),
        ]))
    } else {
        json_render(assistant_reply(cleaned))
    }
}

/// An assistant reply holding `content`, rendered.
pub fn assistant_reply_json(content: &str) -> (r: String)
    ensures
        r@ == json_render(assistant_reply(content@)),
{
    let mut es: Vec<(String, JsonValue)> = Vec::new();
    crate::json::push_entry(&mut es, "role", JsonValue::String("assistant".to_owned()));
    crate::json::push_entry(&mut es, "content", JsonValue::String(content.to_owned()));
    assert(JsonValue::entry_models(es@) =~= seq![("role"@, jstr("assistant"@)), ("content"@, jstr(content@))]);
    render_json(&JsonValue::Object(es))
}

/// The reply of a turn rendered by the library's template, as the OpenAI
/// message the backend hands on.
pub fn template_reply_json(cleaned: &str, calls: &[crate::agent::ToolCall], read_calls: bool) -> (r: String)
    ensures
        r@ == template_reply(cleaned@, crate::agent::call_models(calls@), read_calls),
{
    if read_calls && calls.len() > 0 {
        let ghost cs = crate::agent::call_models(calls@);
        let mut items: Vec<JsonValue> = Vec::new();
        let mut i: usize = 0;
        while i < calls.len()
            invariant
                i <= calls.len(),
                cs == crate::agent::call_models(calls@),
                JsonValue::models(items@) == cs.map_values(|c: crate::agent::CallModel| oai_call(c)).subrange(0, i as int),
            decreases calls.len() - i,
        {
            let c = &calls[i];
            let mut f: Vec<(String, JsonValue)> = Vec::new();
            crate::json::push_entry(&mut f, "name", JsonValue::String(c.name.clone()));
            crate::json::push_entry(&mut f, "arguments", JsonValue::String(render_json(&c.arguments)));
            assert(JsonValue::entry_models(f@) =~= seq![("name"@, jstr(c@.name)), ("arguments"@, jstr(json_render(c@.arguments)))]);
            let fv = JsonValue::Object(f);
            let ghost fm = fv@;
            let mut t: Vec<(String, JsonValue)> = Vec::new();
            crate::json::push_entry(&mut t, "id", JsonValue::String(c.id.clone()));
            crate::json::push_entry(&mut t, "type", JsonValue::String("function".to_owned()));
            crate::json::push_entry(&mut t, "function", fv);
            assert(JsonValue::entry_models(t@) =~= seq![("id"@, jstr(c@.id)), ("type"@, jstr("function"@)), ("function"@, fm)]);
            let tv = JsonValue::Object(t);
            assert(tv@ == oai_call(c@));
            crate::json::push_item(&mut items, tv);
            assert(JsonValue::models(items@) =~= cs.map_values(|c: crate::agent::CallModel| oai_call(c)).subrange(0, i + 1));
            i = i + 1;
        }
        assert(cs.map_values(|c: crate::agent::CallModel| oai_call(c)).subrange(0, i as int) =~= cs.map_values(|c: crate::agent::CallModel| oai_call(c)));
        let arr = JsonValue::Array(items);
        let ghost am = arr@;
        let mut es: Vec<(String, JsonValue)> = Vec::new();
        crate::json::push_entry(&mut es, "role", JsonValue::String("assistant".to_owned()));
        crate::json::push_entry(&mut es, "content", JsonValue::String(String::new()));
        crate::json::push_entry(&mut es, "tool_calls", arr);
        assert(JsonValue::entry_models(es@) =~= seq![("role"@, jstr("assistant"@)), ("content"@, jstr(Seq::empty())), ("tool_calls"@, am)]);
        render_json(&JsonValue::Object(es))
    } else {
        assistant_reply_json(cleaned)
    }
}

/// The tools a local backend is given: their OpenAI JSON and their summary;
/// nothing for an empty registry.
pub fn local_tools<H>(registry: &crate::tool::ToolRegistry<H>) -> (r: Option<(String, Option<String>)>)
    ensures
        registry@.len() == 0 ==> r is None,
        registry@.len() > 0 ==> (r matches Some(p)
            && p.0@ == json_render(Json::Array(crate::tool::entry_defs(registry@).map_values(|d: crate::tool::DefModel| oai_tool(d))))
            && match crate::templates::prompt::tools_summary(crate::tool::entry_defs(registry@)) {
                Some(t) => p.1 matches Some(u) && u@ == t,
                None => p.1 is None,
            }),
{
    if registry.is_empty() {
        return None;
    }
    let json = tools_to_openai_json(registry);
    let summary = crate::templates::prompt::build_tools_summary(registry);
    Some((json, summary))
}

/// A call started by a tool-call delta is closed under the id it was
/// started with: by the end of the stream if it is the highest index, and
/// by the first later delta of a higher index that gives it no new id.
pub proof fn law_started_call_closes_with_its_id(st: DeltaModel, tc: Json, i: nat, id: Seq<char>, name: Seq<char>, tc2: Json, j: nat)
    requires
        delta_call_step(st, tc, i).1.contains(ChunkModel::Tool(EventModel::Started { id, name })),
        delta_call_step(st, tc, i).0.max_index == Some(delta_index(tc, i)),
    ensures
        delta_close(delta_call_step(st, tc, i).0) == Some(ChunkModel::Tool(EventModel::Finished { id })),
        delta_index(tc2, j) > delta_index(tc, i) ==> delta_call_step(delta_call_step(st, tc, i).0, tc2, j).1[0]
            == ChunkModel::Tool(EventModel::Finished { id }),
{
    let (s2, cs) = delta_call_step(st, tc, i);
    let k = delta_index(tc, i);
    let fin = match st.max_index {
        Some(prev) => if k > prev {
            seq![ChunkModel::Tool(EventModel::Finished { id: delta_id(st.ids, prev) })]
        } else {
            Seq::<ChunkModel>::empty()
        },
        None => Seq::<ChunkModel>::empty(),
    };
    let sid = delta_id(s2.ids, k);
    let started = match str_of(member2(tc, "function"@, "name"@)) {
        Some(n) => if n.len() > 0 { seq![ChunkModel::Tool(EventModel::Started { id: sid, name: n })] } else { Seq::<ChunkModel>::empty() },
        None => Seq::<ChunkModel>::empty(),
    };
    let args = match str_of(member2(tc, "function"@, "arguments"@)) {
        Some(a) => if a.len() > 0 { seq![ChunkModel::Tool(EventModel::Arguments { id: sid, fragment: a })] } else { Seq::<ChunkModel>::empty() },
        None => Seq::<ChunkModel>::empty(),
    };
    assert(cs == fin + started + args);
    let w = choose|x: int| 0 <= x < cs.len() && cs[x] == ChunkModel::Tool(EventModel::Started { id, name });
    assert(id == sid);
}

} // verus!
