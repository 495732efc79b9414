//! The tool-call loop: asks an agent, runs the tools it calls, and asks again
//! until it answers with a plain message.
//!
//! [`ToolLoop`] holds the loop's decisions. Its owner performs each
//! [`LoopStep`] (asking the agent, running one tool) and hands the outcome
//! back.
use vstd::prelude::*;

use crate::agent::{call_models, CallModel, Response, ResponseModel, ToolCall};
use crate::error::{AgentError, ErrModel};
use crate::json::{json_equal, json_eq, json_parse, json_render, json_str, parse_json, push_entry, push_item, render_json, Json, JsonValue};
use crate::message::{text_message, Context, ContextModel, Message, MessageModel, RoleModel, PartModel};
use crate::schema::kind::GrammarSource;
use crate::schema::validation::{outcome, validate};
use crate::structured::output_schema::{GrammarModel, OutputSchemaRequest, RequestModel};
use crate::tool::{name_index, DefModel, ToolRegistry};
use crate::tool_response::{ResultModel, ToolResponseModel, ToolResult};
use crate::text::str_eq;

verus! {

broadcast use vstd::std_specs::vec::group_vec_axioms;

/// Whether a text is JSON satisfying the request's schema; a pre-built GBNF
/// grammar is satisfied by any JSON.
pub open spec fn text_conforms(text: Seq<char>, req: RequestModel) -> bool {
    match json_parse(text) {
        None => false,
        Some(v) => match req.grammar {
            GrammarModel::Schema(s) => validate(s, v) is Ok,
            GrammarModel::Gbnf(_) => true,
        },
    }
}

/// True iff `text` is JSON satisfying the request's schema; pre-built GBNF
/// grammars pass on parsing alone.
pub fn validates_against_schema(text: &str, req: &OutputSchemaRequest) -> (r: bool)
    ensures
        r == text_conforms(text@, req@),
{
    let value = match parse_json(text) {
        Ok(v) => v,
        Err(_) => return false,
    };
    match &req.grammar {
        GrammarSource::Schema(s) => s.validate(&value).is_ok(),
        GrammarSource::Gbnf(_) => true,
    }
}

/// The `{"tool": ..., "args": ...}` envelope of one call.
pub open spec fn call_envelope(c: CallModel) -> Json {
    Json::Object(seq![("tool"@, Json::Str(c.name)), ("args"@, c.arguments)])
}

/// The envelope the agent was told to emit: one call as an object, several
/// as an array.
pub open spec fn calls_envelope(cs: Seq<CallModel>) -> Json {
    if cs.len() == 1 {
        call_envelope(cs[0])
    } else {
        Json::Array(cs.map_values(|c: CallModel| call_envelope(c)))
    }
}

fn envelope_of(c: &ToolCall) -> (r: JsonValue)
    ensures
        r@ == call_envelope(c@),
{
    let mut es: Vec<(String, JsonValue)> = Vec::new();
    push_entry(&mut es, "tool", json_str(c.name.as_str()));
    push_entry(&mut es, "args", c.arguments.deep_clone());
    let r = JsonValue::Object(es);
    assert(JsonValue::entry_models(es@) =~= seq![("tool"@, Json::Str(c.name@)), ("args"@, c.arguments@)]);
    r
}

/// Renders the JSON envelope the agent was instructed to emit (one call as
/// an object, several as an array).
pub fn render_tool_envelope(calls: &[ToolCall]) -> (r: String)
    ensures
        r@ == json_render(calls_envelope(call_models(calls@))),
{
    if calls.len() == 1 {
        let v = envelope_of(&calls[0]);
        render_json(&v)
    } else {
        let ghost cs = call_models(calls@);
        let mut items: Vec<JsonValue> = Vec::new();
        let mut i: usize = 0;
        while i < calls.len()
            invariant
                i <= calls.len(),
                cs == call_models(calls@),
                JsonValue::models(items@) == cs.map_values(|c: CallModel| call_envelope(c)).subrange(0, i as int),
            decreases calls.len() - i,
        {
            let v = envelope_of(&calls[i]);
            push_item(&mut items, v);
            assert(JsonValue::models(items@) =~= cs.map_values(|c: CallModel| call_envelope(c)).subrange(0, i + 1));
            i = i + 1;
        }
        assert(cs.map_values(|c: CallModel| call_envelope(c)).subrange(0, i as int) =~= cs.map_values(|c: CallModel| call_envelope(c)));
        render_json(&JsonValue::Array(items))
    }
}

/// What the loop's owner does next.
#[derive(Debug)]
pub enum LoopStep {
    /// Run the agent on this context and hand back its response.
    Ask(Context),
    /// Run this registered tool and hand back its result.
    Run(ToolCall),
    /// The loop ended with the agent's final text.
    Done(String),
    /// The loop ended with an error.
    Fail(AgentError),
}

/// Model of a [`LoopStep`].
pub enum StepModel {
    Ask(ContextModel),
    Run(CallModel),
    Done(Seq<char>),
    Fail(ErrModel),
}

impl View for LoopStep {
    type V = StepModel;

    open spec fn view(&self) -> StepModel {
        match self {
            LoopStep::Ask(c) => StepModel::Ask(c@),
            LoopStep::Run(c) => StepModel::Run(c@),
            LoopStep::Done(s) => StepModel::Done(s@),
            LoopStep::Fail(e) => StepModel::Fail(e@),
        }
    }
}

/// Where the loop stands.
#[derive(PartialEq, Eq, Structural)]
pub enum Stage {
    /// The tool phase: waiting for the agent or for a tool.
    Tools,
    /// The schema turn: waiting for the agent's structured answer.
    SchemaTurn,
    /// Finished.
    Over,
}

/// Model of a [`ToolLoop`].
pub struct LoopModel {
    pub ctx: ContextModel,
    pub max_iters: nat,
    /// Tool-phase replies received so far.
    pub iter: nat,
    /// The calls of the current reply, and the one whose result is awaited.
    pub calls: Seq<CallModel>,
    pub next: nat,
    pub running: bool,
    /// The last single call, for spotting a repeat.
    pub last_call: Option<(Seq<char>, Json)>,
    pub schema: Option<RequestModel>,
    pub stage: Stage,
}

/// The context after one more message.
pub open spec fn ctx_push(c: ContextModel, m: MessageModel) -> ContextModel {
    ContextModel { messages: c.messages.push(m), request: c.request }
}

/// The tool message that reports a call's result.
pub open spec fn result_message(c: CallModel, v: Json) -> MessageModel {
    MessageModel {
        role: RoleModel::Tool,
        content: seq![PartModel::ToolResponse(ToolResponseModel { call_id: c.id, name: c.name, result: ResultModel::Json(v) })],
    }
}

/// The schema turn: the context carries the request from now on.
pub open spec fn enter_schema_turn(m: LoopModel, q: RequestModel) -> (LoopModel, StepModel) {
    let ctx = ContextModel { messages: m.ctx.messages, request: Some(q) };
    (LoopModel { stage: Stage::SchemaTurn, running: false, ..m }, StepModel::Ask(ctx))
}

/// After the last call of a reply: ask again, or end the tool phase.
pub open spec fn end_iteration(m: LoopModel) -> (LoopModel, StepModel) {
    let m2 = LoopModel { iter: m.iter + 1, calls: Seq::empty(), next: 0, running: false, ..m };
    if m2.iter < m.max_iters {
        (m2, StepModel::Ask(m2.ctx))
    } else {
        match m.schema {
            Some(q) => enter_schema_turn(m2, q),
            None => (LoopModel { stage: Stage::Over, ..m2 }, StepModel::Fail(ErrModel::MaxIterations(m.max_iters))),
        }
    }
}

/// Run the next call if its tool is registered, else fail; end the
/// iteration when no call is left.
pub open spec fn advance<H>(m: LoopModel, reg: Seq<(DefModel, H)>) -> (LoopModel, StepModel) {
    if m.next < m.calls.len() {
        let c = m.calls[m.next as int];
        if name_index(reg, c.name) >= 0 {
            (LoopModel { running: true, ..m }, StepModel::Run(c))
        } else {
            (LoopModel { stage: Stage::Over, running: false, ..m }, StepModel::Fail(ErrModel::UnknownTool(c.name)))
        }
    } else {
        end_iteration(m)
    }
}

/// The error text of a schema turn whose answer does not conform.
pub open spec fn nonconforming_message(type_label: Seq<char>, text: Seq<char>) -> Seq<char> {
    "schema turn produced non-conforming output for "@ + type_label + ":\n"@ + text
}

/// Whether a reply of calls repeats the last single call exactly.
pub open spec fn repeats_last(m: LoopModel, cs: Seq<CallModel>) -> bool {
    &&& cs.len() == 1
    &&& m.last_call matches Some(lc)
    &&& lc.0 == cs[0].name
    &&& json_equal(lc.1, cs[0].arguments)
}

/// The loop after the agent's reply.
pub open spec fn after_reply<H>(m: LoopModel, r: ResponseModel, reg: Seq<(DefModel, H)>) -> (LoopModel, StepModel) {
    let over = LoopModel { stage: Stage::Over, ..m };
    if m.stage == Stage::SchemaTurn {
        match r {
            ResponseModel::Message(s) => if text_conforms(s, m.schema->0) {
                (over, StepModel::Done(s))
            } else {
                (over, StepModel::Fail(ErrModel::Other(nonconforming_message(m.schema->0.type_label, s))))
            },
            ResponseModel::ToolCalls(_) => (over, StepModel::Fail(ErrModel::Other("schema turn unexpectedly returned tool calls"@))),
        }
    } else {
        match r {
            ResponseModel::Message(s) => match m.schema {
                None => (over, StepModel::Done(s)),
                Some(q) => if text_conforms(s, q) {
                    (over, StepModel::Done(s))
                } else {
                    enter_schema_turn(LoopModel { ctx: ctx_push(m.ctx, text_message(RoleModel::Assistant, s)), ..m }, q)
                },
            },
            ResponseModel::ToolCalls(cs) => if m.schema is Some && repeats_last(m, cs) {
                enter_schema_turn(m, m.schema->0)
            } else {
                let m2 = LoopModel {
                    ctx: ctx_push(m.ctx, text_message(RoleModel::Assistant, json_render(calls_envelope(cs)))),
                    calls: cs,
                    next: 0,
                    last_call: if cs.len() == 1 { Some((cs[0].name, cs[0].arguments)) } else { m.last_call },
                    ..m
                };
                advance(m2, reg)
            },
        }
    }
}

/// The loop after the awaited tool's result.
pub open spec fn after_result<H>(m: LoopModel, v: Json, reg: Seq<(DefModel, H)>) -> (LoopModel, StepModel) {
    let c = m.calls[m.next as int];
    advance(LoopModel { ctx: ctx_push(m.ctx, result_message(c, v)), next: m.next + 1, running: false, ..m }, reg)
}

/// The decisions of a tool-call loop.
pub struct ToolLoop {
    ctx: Context,
    max_iters: usize,
    iter: usize,
    calls: Vec<ToolCall>,
    next: usize,
    running: bool,
    last_call: Option<(String, JsonValue)>,
    final_schema: Option<OutputSchemaRequest>,
    stage: Stage,
}

impl View for ToolLoop {
    type V = LoopModel;

    closed spec fn view(&self) -> LoopModel {
        LoopModel {
            ctx: self.ctx@,
            max_iters: self.max_iters as nat,
            iter: self.iter as nat,
            calls: call_models(self.calls@),
            next: self.next as nat,
            running: self.running,
            last_call: match self.last_call {
                Some(lc) => Some((lc.0@, lc.1@)),
                None => None,
            },
            schema: match self.final_schema {
                Some(q) => Some(q@),
                None => None,
            },
            stage: self.stage,
        }
    }
}

impl ToolLoop {
    /// The loop is waiting for the agent.
    pub open spec fn awaits_reply(&self) -> bool {
        &&& self@.stage != Stage::Over
        &&& !self@.running
        &&& self@.stage == Stage::SchemaTurn ==> self@.schema is Some
        &&& self@.iter < self@.max_iters || self@.stage == Stage::SchemaTurn
    }

    /// The loop is waiting for a tool's result.
    pub open spec fn awaits_result(&self) -> bool {
        &&& self@.stage == Stage::Tools
        &&& self@.running
        &&& self@.next < self@.calls.len()
        &&& self@.iter < self@.max_iters
    }

    fn start(ctx: Context, max_iters: usize, final_schema: Option<OutputSchemaRequest>) -> (r: (ToolLoop, LoopStep))
        ensures
            ({
                let m = LoopModel {
                    ctx: ctx@,
                    max_iters: max_iters as nat,
                    iter: 0,
                    calls: Seq::empty(),
                    next: 0,
                    running: false,
                    last_call: None,
                    schema: match final_schema {
                        Some(q) => Some(q@),
                        None => None,
                    },
                    stage: Stage::Tools,
                };
                if max_iters > 0 {
                    r.0@ == m && r.1@ == StepModel::Ask(ctx@)
                } else {
                    match final_schema {
                        Some(q) => (r.0@, r.1@) == enter_schema_turn(m, q@),
                        None => (r.0@, r.1@) == (LoopModel { stage: Stage::Over, ..m }, StepModel::Fail(ErrModel::MaxIterations(0))),
                    }
                }
            }),
            r.1 is Ask ==> r.0.awaits_reply(),
    {
        let mut lp = ToolLoop {
            ctx,
            max_iters,
            iter: 0,
            calls: Vec::new(),
            next: 0,
            running: false,
            last_call: None,
            final_schema,
            stage: Stage::Tools,
        };
        assert(call_models(lp.calls@) =~= Seq::<CallModel>::empty());
        if max_iters > 0 {
            let step = LoopStep::Ask(lp.ctx.clone());
            (lp, step)
        } else {
            let step = lp.schema_turn_or_fail();
            (lp, step)
        }
    }

    /// A loop that ends when the agent answers with a message, failing after
    /// `max_iters` replies of tool calls.
    pub fn new(ctx: Context, max_iters: usize) -> (r: (ToolLoop, LoopStep))
        ensures
            max_iters > 0 ==> r.1@ == StepModel::Ask(ctx@) && r.0@ == (LoopModel {
                ctx: ctx@, max_iters: max_iters as nat, iter: 0, calls: Seq::empty(), next: 0, running: false,
                last_call: None, schema: None, stage: Stage::Tools,
            }),
            max_iters == 0 ==> r.1@ == StepModel::Fail(ErrModel::MaxIterations(0)) && r.0@.stage == Stage::Over,
            r.1 is Ask ==> r.0.awaits_reply(),
    {
        Self::start(ctx, max_iters, None)
    }

    /// A loop whose tool phase also ends on a repeated identical call or
    /// after `max_iters` replies, and whose answer must satisfy
    /// `final_schema`: an answer that does not gets one more schema turn.
    pub fn structured(ctx: Context, max_iters: usize, final_schema: OutputSchemaRequest) -> (r: (ToolLoop, LoopStep))
        ensures
            max_iters > 0 ==> r.1@ == StepModel::Ask(ctx@) && r.0@ == (LoopModel {
                ctx: ctx@, max_iters: max_iters as nat, iter: 0, calls: Seq::empty(), next: 0, running: false,
                last_call: None, schema: Some(final_schema@), stage: Stage::Tools,
            }),
            max_iters == 0 ==> r.1@ == StepModel::Ask(ContextModel { messages: ctx@.messages, request: Some(final_schema@) })
                && r.0@.stage == Stage::SchemaTurn,
            r.1 is Ask ==> r.0.awaits_reply(),
    {
        Self::start(ctx, max_iters, Some(final_schema))
    }

    /// Enters the schema turn when there is a schema; otherwise fails with
    /// the iteration limit.
    fn schema_turn_or_fail(&mut self) -> (step: LoopStep)
        requires
            old(self)@.stage == Stage::Tools,
        ensures
            match old(self)@.schema {
                Some(q) => (final(self)@, step@) == enter_schema_turn(old(self)@, q),
                None => (final(self)@, step@) == (LoopModel { stage: Stage::Over, ..old(self)@ },
                    StepModel::Fail(ErrModel::MaxIterations(old(self)@.max_iters))),
            },
            step is Ask ==> final(self).awaits_reply(),
    {
        match &self.final_schema {
            Some(q) => {
                let ctx = self.ctx.clone().with_output_schema_request(q.clone());
                self.stage = Stage::SchemaTurn;
                self.running = false;
                LoopStep::Ask(ctx)
            },
            None => {
                self.stage = Stage::Over;
                LoopStep::Fail(AgentError::MaxIterations(self.max_iters))
            },
        }
    }
}

} // verus!

verus! {

impl ToolLoop {
    /// Ask again, or end the tool phase after the last reply allowed.
    fn end_iteration(&mut self) -> (step: LoopStep)
        requires
            old(self)@.stage == Stage::Tools,
            old(self)@.iter < old(self)@.max_iters,
        ensures
            (final(self)@, step@) == end_iteration(old(self)@),
            step is Ask ==> final(self).awaits_reply(),
    {
        self.iter = self.iter + 1;
        self.calls = Vec::new();
        self.next = 0;
        self.running = false;
        assert(call_models(self.calls@) =~= Seq::<CallModel>::empty());
        if self.iter < self.max_iters {
            LoopStep::Ask(self.ctx.clone())
        } else {
            self.schema_turn_or_fail()
        }
    }

    /// Run the next call if its tool is registered, else fail.
    fn advance<H>(&mut self, registry: &ToolRegistry<H>) -> (step: LoopStep)
        requires
            old(self)@.stage == Stage::Tools,
            old(self)@.iter < old(self)@.max_iters,
            old(self)@.next <= old(self)@.calls.len(),
        ensures
            (final(self)@, step@) == advance(old(self)@, registry@),
            step is Ask ==> final(self).awaits_reply(),
            step is Run ==> final(self).awaits_result(),
    {
        if self.next < self.calls.len() {
            let c = self.calls[self.next].clone();
            assert(c@ == self@.calls[self.next as int]);
            if registry.contains(c.name.as_str()) {
                self.running = true;
                LoopStep::Run(c)
            } else {
                self.stage = Stage::Over;
                self.running = false;
                LoopStep::Fail(AgentError::UnknownTool(c.name))
            }
        } else {
            self.end_iteration()
        }
    }

    /// Hands the agent's reply to the loop.
    pub fn on_reply<H>(&mut self, reply: Response, registry: &ToolRegistry<H>) -> (step: LoopStep)
        requires
            old(self).awaits_reply(),
        ensures
            (final(self)@, step@) == after_reply(old(self)@, reply@, registry@),
            step is Ask ==> final(self).awaits_reply(),
            step is Run ==> final(self).awaits_result(),
    {
        if self.stage == Stage::SchemaTurn {
            self.stage = Stage::Over;
            match reply {
                Response::Message(s) => {
                    let q = match &self.final_schema {
                        Some(q) => q,
                        None => {
                            proof { assert(false); }
                            return LoopStep::Fail(AgentError::MaxIterations(0));
                        },
                    };
                    if validates_against_schema(s.as_str(), q) {
                        LoopStep::Done(s)
                    } else {
                        let mut e = String::from_str("schema turn produced non-conforming output for ");
                        e.append(q.type_label.as_str());
                        e.append(":\n");
                        e.append(s.as_str());
                        LoopStep::Fail(AgentError::Other(e))
                    }
                },
                Response::ToolCalls(_) => LoopStep::Fail(AgentError::Other("schema turn unexpectedly returned tool calls".to_owned())),
            }
        } else {
            match reply {
                Response::Message(s) => {
                    let conforms = match &self.final_schema {
                        None => true,
                        Some(q) => validates_against_schema(s.as_str(), q),
                    };
                    if conforms {
                        self.stage = Stage::Over;
                        LoopStep::Done(s)
                    } else {
                        self.ctx.push(Message::assistant(s.as_str()));
                        self.schema_turn_or_fail()
                    }
                },
                Response::ToolCalls(calls) => {
                    let repeat = match (&self.final_schema, &self.last_call) {
                        (Some(_), Some(lc)) => calls.len() == 1 && str_eq(lc.0.as_str(), calls[0].name.as_str())
                            && json_eq(&lc.1, &calls[0].arguments),
                        _ => false,
                    };
                    if repeat {
                        return self.schema_turn_or_fail();
                    }
                    if calls.len() == 1 {
                        self.last_call = Some((calls[0].name.clone(), calls[0].arguments.deep_clone()));
                    }
                    let envelope = render_tool_envelope(calls.as_slice());
                    self.ctx.push(Message::assistant(envelope.as_str()));
                    self.calls = calls;
                    self.next = 0;
                    self.advance(registry)
                },
            }
        }
    }

    /// Hands the awaited tool's result to the loop.
    pub fn on_result<H>(&mut self, result: JsonValue, registry: &ToolRegistry<H>) -> (step: LoopStep)
        requires
            old(self).awaits_result(),
        ensures
            (final(self)@, step@) == after_result(old(self)@, result@, registry@),
            step is Ask ==> final(self).awaits_reply(),
            step is Run ==> final(self).awaits_result(),
    {
        assert(call_models(self.calls@).len() == self.calls@.len());
        let n = self.next;
        assert(n < self.calls.len());
        let c = &self.calls[self.next];
        assert(c@ == self@.calls[self.next as int]);
        let m = Message::tool(c.id.as_str(), c.name.as_str(), ToolResult::Json(result));
        self.ctx.push(m);
        self.next = n + 1;
        self.running = false;
        self.advance(registry)
    }
}

} // verus!

verus! {

/// Without a schema, a plain message ends the loop with that message.
pub proof fn law_plain_message_ends_loop<H>(m: LoopModel, s: Seq<char>, reg: Seq<(DefModel, H)>)
    requires
        m.stage == Stage::Tools,
        m.schema is None,
    ensures
        after_reply(m, ResponseModel::Message(s), reg).1 == StepModel::Done(s),
        after_reply(m, ResponseModel::Message(s), reg).0.stage == Stage::Over,
{
}

/// Without a schema, the reply that uses up `max_iters` without a plain
/// message ends the loop with the iteration-limit error once its calls ran.
pub proof fn law_iteration_limit_fails(m: LoopModel)
    requires
        m.stage == Stage::Tools,
        m.schema is None,
        m.iter + 1 == m.max_iters,
    ensures
        end_iteration(m).1 == StepModel::Fail(ErrModel::MaxIterations(m.max_iters)),
{
}

/// A call of an unregistered tool ends the loop with the unknown-tool error,
/// before any later call runs.
pub proof fn law_unknown_tool_fails<H>(m: LoopModel, cs: Seq<CallModel>, reg: Seq<(DefModel, H)>)
    requires
        m.stage == Stage::Tools,
        m.schema is None,
        cs.len() > 0,
        name_index(reg, cs[0].name) < 0,
    ensures
        after_reply(m, ResponseModel::ToolCalls(cs), reg).1 == StepModel::Fail(ErrModel::UnknownTool(cs[0].name)),
{
}

/// With a schema, repeating the last single call exactly switches to the
/// schema turn, whose context carries the request.
pub proof fn law_repeated_call_switches_to_schema_turn<H>(m: LoopModel, cs: Seq<CallModel>, reg: Seq<(DefModel, H)>)
    requires
        m.stage == Stage::Tools,
        m.schema is Some,
        repeats_last(m, cs),
    ensures
        after_reply(m, ResponseModel::ToolCalls(cs), reg).1 == StepModel::Ask(ContextModel { messages: m.ctx.messages, request: m.schema }),
        after_reply(m, ResponseModel::ToolCalls(cs), reg).0.stage == Stage::SchemaTurn,
{
}

/// The loop never ends with an answer that fails its schema: every final
/// text of a loop with a schema satisfies it.
pub proof fn law_structured_answer_conforms<H>(m: LoopModel, r: ResponseModel, reg: Seq<(DefModel, H)>)
    requires
        m.schema is Some,
        m.stage == Stage::SchemaTurn || m.stage == Stage::Tools,
    ensures
        after_reply(m, r, reg).1 matches StepModel::Done(s) ==> text_conforms(s, m.schema->0),
{
}

/// In the tool phase the agent is asked at most `max_iters` times: each
/// reply counts one, and the phase asks again only below the limit.
pub proof fn law_tool_phase_asks_bounded<H>(m: LoopModel, v: Json, reg: Seq<(DefModel, H)>)
    requires
        m.stage == Stage::Tools,
        m.iter < m.max_iters,
        m.next < m.calls.len(),
    ensures
        ({
            let (m2, step) = after_result(m, v, reg);
            &&& m2.iter >= m.iter
            &&& (step is Ask && m2.stage == Stage::Tools) ==> m2.iter < m2.max_iters && m2.iter == m.iter + 1
        }),
{
}

/// Every call of a reply is run, in order, before the agent is asked again:
/// after the result of call `k`, call `k + 1` runs when there is one and its
/// tool is registered, with the result of call `k` added to the context;
/// the agent is asked again only once no call of the reply is left.
pub proof fn law_reply_calls_run_in_order<H>(m: LoopModel, v: Json, reg: Seq<(DefModel, H)>)
    requires
        m.stage == Stage::Tools,
        m.next < m.calls.len(),
    ensures
        ({
            let (m2, step) = after_result(m, v, reg);
            &&& m2.ctx.messages == m.ctx.messages.push(result_message(m.calls[m.next as int], v))
            &&& (m.next + 1 < m.calls.len() && name_index(reg, m.calls[m.next + 1int].name) >= 0) ==>
                step == StepModel::Run(m.calls[m.next + 1int]) && m2.next == m.next + 1 && m2.calls == m.calls
            &&& step is Ask ==> m.next + 1 == m.calls.len()
        }),
{
}

/// A reply of calls (no repeat that ends the tool phase) runs its first call
/// first, when its tool is registered.
pub proof fn law_reply_first_call_runs_first<H>(m: LoopModel, cs: Seq<CallModel>, reg: Seq<(DefModel, H)>)
    requires
        m.stage == Stage::Tools,
        !(m.schema is Some && repeats_last(m, cs)),
        cs.len() > 0,
        name_index(reg, cs[0].name) >= 0,
    ensures
        after_reply(m, ResponseModel::ToolCalls(cs), reg).1 == StepModel::Run(cs[0]),
        after_reply(m, ResponseModel::ToolCalls(cs), reg).0.calls == cs,
        after_reply(m, ResponseModel::ToolCalls(cs), reg).0.next == 0,
{
}

} // verus!
