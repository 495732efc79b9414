//! One streamed turn of a tool loop: text and tool calls gathered from the
//! chunks, and the messages the turn leaves in the context.
use vstd::prelude::*;

use crate::error::AgentError;
use crate::json::{json_parse, json_render, json_str, parse_json, push_entry, push_item, render_json, Json, JsonValue};
use crate::message::{text_message, Context, ContextModel, Message, MessageModel, PartModel, RoleModel};
use crate::stream::chunk::{Chunk, ChunkModel, EventModel, ToolEvent};
use crate::text::str_eq;
use crate::tool_loop::ctx_push;
use crate::tool_response::{ResultModel, ToolResponseModel, ToolResult};

verus! {

broadcast use vstd::std_specs::vec::group_vec_axioms;

/// A tool call being streamed: its arguments so far, and its result once run.
#[derive(Debug)]
pub struct PendingTool {
    pub id: String,
    pub name: String,
    pub args: String,
    pub result: Option<JsonValue>,
}

/// Model of a [`PendingTool`].
pub struct PendingModel {
    pub id: Seq<char>,
    pub name: Seq<char>,
    pub args: Seq<char>,
    pub result: Option<Json>,
}

impl View for PendingTool {
    type V = PendingModel;

    open spec fn view(&self) -> PendingModel {
        PendingModel {
            id: self.id@,
            name: self.name@,
            args: self.args@,
            result: match self.result {
                Some(r) => Some(r@),
                None => None,
            },
        }
    }
}

/// Model of a turn: the text so far and the calls in the order they started.
pub struct TurnModel {
    pub text: Seq<char>,
    pub tools: Seq<PendingModel>,
}

/// What a chunk asks of the turn's owner.
#[derive(Debug)]
pub enum Reaction {
    /// Report that text arrived.
    Text(String),
    /// Report that a call started.
    Started { id: String, name: String },
    /// Report that arguments arrived for a call.
    Fragment { id: String, fragment: String },
    /// Run the tool of call `index` (id `id`) on these arguments, then hand
    /// back the result.
    Dispatch { index: usize, id: String, name: String, args: JsonValue },
    /// Nothing to do.
    Quiet,
    /// The stream ended.
    End,
}

/// Model of a [`Reaction`].
pub enum ReactionModel {
    Text(Seq<char>),
    Started { id: Seq<char>, name: Seq<char> },
    Fragment { id: Seq<char>, fragment: Seq<char> },
    Dispatch { index: nat, id: Seq<char>, name: Seq<char>, args: Json },
    Quiet,
    End,
}

impl View for Reaction {
    type V = ReactionModel;

    open spec fn view(&self) -> ReactionModel {
        match self {
            Reaction::Text(s) => ReactionModel::Text(s@),
            Reaction::Started { id, name } => ReactionModel::Started { id: id@, name: name@ },
            Reaction::Fragment { id, fragment } => ReactionModel::Fragment { id: id@, fragment: fragment@ },
            Reaction::Dispatch { index, id, name, args } => ReactionModel::Dispatch { index: *index as nat, id: id@, name: name@, args: args@ },
            Reaction::Quiet => ReactionModel::Quiet,
            Reaction::End => ReactionModel::End,
        }
    }
}

/// The position of the call with `id`, or `-1`.
pub open spec fn tool_position(tools: Seq<PendingModel>, id: Seq<char>) -> int
    decreases tools.len(),
{
    if tools.len() == 0 {
        -1
    } else if tools.last().id == id {
        tools.len() - 1
    } else {
        tool_position(tools.drop_last(), id)
    }
}

/// Arguments text read as JSON, `{}` when it is not JSON.
pub open spec fn args_value(args: Seq<char>) -> Json {
    match json_parse(args) {
        Some(v) => v,
        None => Json::Object(Seq::empty()),
    }
}

/// The turn after one chunk, and what the chunk asks for.
pub open spec fn turn_step(t: TurnModel, c: ChunkModel) -> (TurnModel, ReactionModel) {
    match c {
        ChunkModel::Text(s) => (TurnModel { text: t.text + s, ..t }, ReactionModel::Text(s)),
        ChunkModel::Tool(EventModel::Started { id, name }) => if tool_position(t.tools, id) >= 0 {
            (t, ReactionModel::Quiet)
        } else {
            (TurnModel { tools: t.tools.push(PendingModel { id, name, args: Seq::empty(), result: None }), ..t },
                ReactionModel::Started { id, name })
        },
        ChunkModel::Tool(EventModel::Arguments { id, fragment }) => {
            let i = tool_position(t.tools, id);
            let tools = if i >= 0 {
                t.tools.update(i, PendingModel { args: t.tools[i].args + fragment, ..t.tools[i] })
            } else {
                t.tools
            };
            (TurnModel { tools, ..t }, ReactionModel::Fragment { id, fragment })
        },
        ChunkModel::Tool(EventModel::Finished { id }) => {
            let i = tool_position(t.tools, id);
            if i >= 0 && t.tools[i].result is None {
                (t, ReactionModel::Dispatch { index: i as nat, id: t.tools[i].id, name: t.tools[i].name, args: args_value(t.tools[i].args) })
            } else {
                (t, ReactionModel::Quiet)
            }
        },
        ChunkModel::Usage => (t, ReactionModel::Quiet),
        ChunkModel::End => (t, ReactionModel::End),
    }
}

/// The envelope of the calls whose arguments are JSON: one such call as an
/// object, otherwise an array.
pub open spec fn parsed_calls(tools: Seq<PendingModel>) -> Seq<Json>
    decreases tools.len(),
{
    if tools.len() == 0 {
        Seq::empty()
    } else {
        let rest = parsed_calls(tools.drop_last());
        let b = tools.last();
        match json_parse(b.args) {
            Some(a) => rest.push(Json::Object(seq![("tool"@, Json::Str(b.name)), ("args"@, a)])),
            None => rest,
        }
    }
}

pub open spec fn turn_envelope(tools: Seq<PendingModel>) -> Seq<char> {
    let calls = parsed_calls(tools);
    if calls.len() == 1 { json_render(calls[0]) } else { json_render(Json::Array(calls)) }
}

/// The tool messages of a turn, in call order; a call without a result
/// reports `{}`.
pub open spec fn turn_results(tools: Seq<PendingModel>) -> Seq<MessageModel> {
    tools.map_values(|b: PendingModel| MessageModel {
        role: RoleModel::Tool,
        content: seq![PartModel::ToolResponse(ToolResponseModel {
            call_id: b.id,
            name: b.name,
            result: ResultModel::Json(match b.result {
                Some(r) => r,
                None => Json::Object(Seq::empty()),
            }),
        })],
    })
}

/// The messages a turn with calls leaves: the assistant's envelope, then
/// one result per call.
pub open spec fn turn_messages(tools: Seq<PendingModel>) -> Seq<MessageModel> {
    seq![text_message(RoleModel::Assistant, turn_envelope(tools))] + turn_results(tools)
}

/// The chunks of one streamed turn, gathered.
pub struct Turn {
    text: String,
    tools: Vec<PendingTool>,
}

impl View for Turn {
    type V = TurnModel;

    closed spec fn view(&self) -> TurnModel {
        TurnModel { text: self.text@, tools: self.tools@.map_values(|b: PendingTool| b@) }
    }
}

impl Turn {
    pub fn new() -> (r: Self)
        ensures
            r@ == (TurnModel { text: Seq::empty(), tools: Seq::empty() }),
    {
        let r = Turn { text: String::new(), tools: Vec::new() };
        assert(r@.tools =~= Seq::<PendingModel>::empty());
        r
    }

    /// The text so far.
    pub fn text(&self) -> (r: &str)
        ensures
            r@ == self@.text,
    {
        self.text.as_str()
    }

    /// Whether the turn called no tool.
    pub fn has_no_tools(&self) -> (r: bool)
        ensures
            r == (self@.tools.len() == 0),
    {
        self.tools.len() == 0
    }

    fn position(&self, id: &str) -> (r: Option<usize>)
        ensures
            self@.tools.len() == self.tools@.len(),
            forall|k: int| 0 <= k < self@.tools.len() ==> #[trigger] self@.tools[k] == self.tools@[k]@,
            match r {
                Some(i) => tool_position(self@.tools, id@) == i && i < self@.tools.len(),
                None => tool_position(self@.tools, id@) == -1,
            },
    {
        let ghost ts = self@.tools;
        let mut i = self.tools.len();
        assert(ts.subrange(0, ts.len() as int) == ts);
        while i > 0
            invariant
                i <= self.tools.len(),
                ts == self@.tools,
                ts.len() == self.tools@.len(),
                forall|k: int| 0 <= k < ts.len() ==> #[trigger] ts[k] == self.tools@[k]@,
                tool_position(ts, id@) == tool_position(ts.subrange(0, i as int), id@),
            decreases i,
        {
            let ghost sub = ts.subrange(0, i as int);
            assert(sub.last() == ts[i - 1]);
            assert(sub.drop_last() == ts.subrange(0, i - 1));
            if str_eq(self.tools[i - 1].id.as_str(), id) {
                return Some(i - 1);
            }
            i = i - 1;
        }
        None
    }

    /// Takes in one chunk.
    pub fn on_chunk(&mut self, chunk: Chunk) -> (r: Reaction)
        ensures
            (final(self)@, r@) == turn_step(old(self)@, chunk@),
    {
        let ghost old_tools = self@.tools;
        match chunk {
            Chunk::Text(s) => {
                self.text.append(s.as_str());
                Reaction::Text(s)
            },
            Chunk::Tool(ToolEvent::Started { id, name }) => {
                match self.position(id.as_str()) {
                    Some(_) => Reaction::Quiet,
                    None => {
                        let b = PendingTool { id: id.clone(), name: name.clone(), args: String::new(), result: None };
                        self.tools.push(b);
                        assert(self@.tools =~= old_tools.push(PendingModel { id: id@, name: name@, args: Seq::empty(), result: None }));
                        Reaction::Started { id, name }
                    },
                }
            },
            Chunk::Tool(ToolEvent::Arguments { id, fragment }) => {
                match self.position(id.as_str()) {
                    Some(i) => {
                        let mut tools = Vec::new();
                        std::mem::swap(&mut tools, &mut self.tools);
                        let mut b = tools.remove(i);
                        b.args.append(fragment.as_str());
                        tools.insert(i, b);
                        std::mem::swap(&mut tools, &mut self.tools);
                        assert(self@.tools =~= old_tools.update(i as int, PendingModel { args: old_tools[i as int].args + fragment@, ..old_tools[i as int] }));
                    },
                    None => {},
                }
                Reaction::Fragment { id, fragment }
            },
            Chunk::Tool(ToolEvent::Finished { id }) => {
                match self.position(id.as_str()) {
                    Some(i) => {
                        let b = &self.tools[i];
                        if b.result.is_none() {
                            let args = match parse_json(b.args.as_str()) {
                                Ok(v) => v,
                                Err(_) => JsonValue::empty_object(),
                            };
                            Reaction::Dispatch { index: i, id: b.id.clone(), name: b.name.clone(), args }
                        } else {
                            Reaction::Quiet
                        }
                    },
                    None => Reaction::Quiet,
                }
            },
            Chunk::Usage(_) => Reaction::Quiet,
            Chunk::End => Reaction::End,
        }
    }

    /// Records the result of call `index`.
    pub fn on_dispatched(&mut self, index: usize, result: JsonValue)
        requires
            index < old(self)@.tools.len(),
        ensures
            final(self)@ == (TurnModel {
                tools: old(self)@.tools.update(index as int, PendingModel { result: Some(result@), ..old(self)@.tools[index as int] }),
                ..old(self)@
            }),
    {
        let ghost old_tools = self@.tools;
        assert(self.tools@.len() == old_tools.len());
        let mut tools = Vec::new();
        std::mem::swap(&mut tools, &mut self.tools);
        let mut b = tools.remove(index);
        b.result = Some(result);
        tools.insert(index, b);
        std::mem::swap(&mut tools, &mut self.tools);
        assert(self@.tools =~= old_tools.update(index as int, PendingModel { result: Some(result@), ..old_tools[index as int] }));
    }
}

} // verus!

verus! {

impl Turn {
    /// The envelope of the calls whose arguments are JSON.
    fn envelope(&self) -> (r: String)
        ensures
            r@ == turn_envelope(self@.tools),
    {
        let ghost ts = self@.tools;
        assert(ts.len() == self.tools@.len());
        let mut calls: Vec<JsonValue> = Vec::new();
        let mut i: usize = 0;
        while i < self.tools.len()
            invariant
                i <= self.tools.len(),
                ts == self@.tools,
                ts.len() == self.tools@.len(),
                JsonValue::models(calls@) == parsed_calls(ts.subrange(0, i as int)),
            decreases self.tools.len() - i,
        {
            proof {
                let sub = ts.subrange(0, i + 1);
                assert(sub.drop_last() == ts.subrange(0, i as int));
                assert(sub.last() == self.tools@[i as int]@);
            }
            let b = &self.tools[i];
            match parse_json(b.args.as_str()) {
                Ok(a) => {
                    let mut es: Vec<(String, JsonValue)> = Vec::new();
                    push_entry(&mut es, "tool", json_str(b.name.as_str()));
                    push_entry(&mut es, "args", a);
                    let v = JsonValue::Object(es);
                    assert(JsonValue::entry_models(es@) =~= seq![("tool"@, Json::Str(b.name@)), ("args"@, v@->Object_0[1].1)]);
                    push_item(&mut calls, v);
                },
                Err(_) => {},
            }
            i = i + 1;
        }
        proof { assert(ts.subrange(0, ts.len() as int) == ts); }
        proof { crate::json::lemma_models_index(calls@); }
        if calls.len() == 1 {
            render_json(&calls[0])
        } else {
            render_json(&JsonValue::Array(calls))
        }
    }

    /// Leaves the turn's messages in the context: the envelope of its calls
    /// as the assistant's message, then one result message per call.
    pub fn finish_into(&self, ctx: &mut Context)
        ensures
            final(ctx)@ == (ContextModel { messages: old(ctx)@.messages + turn_messages(self@.tools), request: old(ctx)@.request }),
    {
        let ghost ts = self@.tools;
        let ghost start = ctx@;
        let env = self.envelope();
        ctx.push(Message::assistant(env.as_str()));
        assert(turn_results(ts.subrange(0, 0)) =~= Seq::<MessageModel>::empty());
        assert(start.messages.push(text_message(RoleModel::Assistant, turn_envelope(ts)))
            =~= start.messages + seq![text_message(RoleModel::Assistant, turn_envelope(ts))] + turn_results(ts.subrange(0, 0)));
        let mut i: usize = 0;
        while i < self.tools.len()
            invariant
                i <= self.tools.len(),
                ts == self@.tools,
                ts.len() == self.tools@.len(),
                forall|k: int| 0 <= k < ts.len() ==> #[trigger] ts[k] == self.tools@[k]@,
                ctx@ == (ContextModel {
                    messages: start.messages + seq![text_message(RoleModel::Assistant, turn_envelope(ts))] + turn_results(ts.subrange(0, i as int)),
                    request: start.request,
                }),
            decreases self.tools.len() - i,
        {
            let b = &self.tools[i];
            let result = match &b.result {
                Some(r) => r.deep_clone(),
                None => JsonValue::empty_object(),
            };
            ctx.push(Message::tool(b.id.as_str(), b.name.as_str(), ToolResult::Json(result)));
            assert(turn_results(ts.subrange(0, i + 1)) =~= turn_results(ts.subrange(0, i as int)).push(turn_results(ts)[i as int]));
            i = i + 1;
        }
        proof { assert(ts.subrange(0, ts.len() as int) == ts); }
        assert(start.messages + seq![text_message(RoleModel::Assistant, turn_envelope(ts))] + turn_results(ts) =~= start.messages + turn_messages(ts));
    }
}

} // verus!

verus! {

/// The turn after a run of chunks, from an empty one.
pub open spec fn turn_after(cs: Seq<ChunkModel>) -> TurnModel
    decreases cs.len(),
{
    if cs.len() == 0 {
        TurnModel { text: Seq::empty(), tools: Seq::empty() }
    } else {
        turn_step(turn_after(cs.drop_last()), cs.last()).0
    }
}

/// Whether call `id` has started in a run of chunks.
pub open spec fn call_started(cs: Seq<ChunkModel>, id: Seq<char>) -> bool
    decreases cs.len(),
{
    cs.len() > 0 && (call_started(cs.drop_last(), id)
        || (cs.last() matches ChunkModel::Tool(EventModel::Started { id: i, .. }) && i == id))
}

/// The argument fragments streamed for call `id` after it started, joined.
pub open spec fn call_fragments(cs: Seq<ChunkModel>, id: Seq<char>) -> Seq<char>
    decreases cs.len(),
{
    if cs.len() == 0 {
        Seq::empty()
    } else {
        let prev = call_fragments(cs.drop_last(), id);
        match cs.last() {
            ChunkModel::Tool(EventModel::Arguments { id: i, fragment }) =>
                if i == id && call_started(cs.drop_last(), id) { prev + fragment } else { prev },
            _ => prev,
        }
    }
}

proof fn lemma_tool_position(ts: Seq<PendingModel>, id: Seq<char>)
    ensures
        -1 <= tool_position(ts, id) < ts.len(),
        tool_position(ts, id) >= 0 ==> ts[tool_position(ts, id)].id == id,
        tool_position(ts, id) < 0 ==> forall|k: int| 0 <= k < ts.len() ==> #[trigger] ts[k].id != id,
    decreases ts.len(),
{
    if ts.len() > 0 {
        lemma_tool_position(ts.drop_last(), id);
        if tool_position(ts, id) < 0 {
            assert forall|k: int| 0 <= k < ts.len() implies #[trigger] ts[k].id != id by {
                if k < ts.len() - 1 {
                    assert(ts.drop_last()[k] == ts[k]);
                }
            }
        }
    }
}

proof fn lemma_tool_position_update(ts: Seq<PendingModel>, i: int, q: PendingModel, id: Seq<char>)
    requires
        0 <= i < ts.len(),
        q.id == ts[i].id,
    ensures
        tool_position(ts.update(i, q), id) == tool_position(ts, id),
    decreases ts.len(),
{
    let us = ts.update(i, q);
    if i < ts.len() - 1 {
        assert(us.drop_last() =~= ts.drop_last().update(i, q));
        lemma_tool_position_update(ts.drop_last(), i, q, id);
    } else {
        assert(us.drop_last() =~= ts.drop_last());
    }
}

proof fn lemma_no_fragments_before_start(cs: Seq<ChunkModel>, id: Seq<char>)
    requires
        !call_started(cs, id),
    ensures
        call_fragments(cs, id) == Seq::<char>::empty(),
    decreases cs.len(),
{
    if cs.len() > 0 {
        lemma_no_fragments_before_start(cs.drop_last(), id);
    }
}

/// A streamed call is known to the turn once it has started, and its
/// arguments are then the fragments streamed for it, joined in order.
pub proof fn law_arguments_are_joined_fragments(cs: Seq<ChunkModel>, id: Seq<char>)
    ensures
        (tool_position(turn_after(cs).tools, id) >= 0) == call_started(cs, id),
        call_started(cs, id) ==> turn_after(cs).tools[tool_position(turn_after(cs).tools, id)].args == call_fragments(cs, id),
    decreases cs.len(),
{
    if cs.len() > 0 {
        let prev = cs.drop_last();
        let t = turn_after(prev);
        law_arguments_are_joined_fragments(prev, id);
        lemma_tool_position(t.tools, id);
        match cs.last() {
            ChunkModel::Tool(EventModel::Started { id: x, name }) => {
                law_arguments_are_joined_fragments(prev, x);
                if tool_position(t.tools, x) < 0 {
                    let nt = t.tools.push(PendingModel { id: x, name, args: Seq::empty(), result: None });
                    assert(nt.drop_last() =~= t.tools);
                    if x == id {
                        lemma_no_fragments_before_start(prev, id);
                    }
                }
            },
            ChunkModel::Tool(EventModel::Arguments { id: x, fragment }) => {
                law_arguments_are_joined_fragments(prev, x);
                lemma_tool_position(t.tools, x);
                let i = tool_position(t.tools, x);
                if i >= 0 {
                    let q = PendingModel { args: t.tools[i].args + fragment, ..t.tools[i] };
                    lemma_tool_position_update(t.tools, i, q, id);
                } else if x == id {
                    lemma_no_fragments_before_start(prev, id);
                }
            },
            _ => {},
        }
    }
}

} // verus!
