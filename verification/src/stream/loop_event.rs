//! The streaming tool loop: turn after turn of a streaming agent, tools run
//! as their calls close, until a turn ends without calls.
use vstd::prelude::*;

use crate::error::{AgentError, ErrModel};
use crate::json::{Json, JsonValue};
use crate::message::{text_message, Context, ContextModel, Message, RoleModel};
use crate::stream::chunk::{Chunk, ChunkModel};
use crate::stream::turn::{turn_messages, turn_step, PendingModel, Reaction, ReactionModel, Turn, TurnModel};
use crate::structured::output_schema::{OutputSchemaRequest, RequestModel};
use crate::tool_loop::{ctx_push, text_conforms, validates_against_schema};

verus! {

/// One emission of the streaming tool loop. A call shows as `ToolStarted`,
/// then `ToolArgumentsFragment`s (their concatenation is the arguments JSON),
/// then `ToolDispatched` once it ran; assistant text interleaves.
#[derive(Debug)]
pub enum LoopEvent {
    Text(String),
    ToolStarted { id: String, name: String },
    ToolArgumentsFragment { id: String, fragment: String },
    ToolDispatched { id: String, name: String, args: JsonValue, result: JsonValue },
    /// The loop finished; the assistant's final text.
    Done(String),
}

/// What the loop's owner does next.
#[derive(Debug)]
pub enum DriveStep {
    /// Stream one turn of the agent on this context, handing each chunk to
    /// [`StreamLoop::on_chunk`], then call [`StreamLoop::end_turn`].
    Stream(Context),
    /// Finished with this final text.
    Done(String),
    /// Finished with an error.
    Fail(AgentError),
}

/// Model of a [`DriveStep`].
pub enum DriveModel {
    Stream(ContextModel),
    Done(Seq<char>),
    Fail(ErrModel),
}

impl View for DriveStep {
    type V = DriveModel;

    open spec fn view(&self) -> DriveModel {
        match self {
            DriveStep::Stream(c) => DriveModel::Stream(c@),
            DriveStep::Done(s) => DriveModel::Done(s@),
            DriveStep::Fail(e) => DriveModel::Fail(e@),
        }
    }
}

/// Where the streaming loop stands.
#[derive(PartialEq, Eq, Structural)]
pub enum DriveStage {
    Tools,
    SchemaTurn,
    Over,
}

/// Model of a [`StreamLoop`].
pub struct StreamModel {
    pub ctx: ContextModel,
    pub max_iters: nat,
    pub iter: nat,
    pub schema: Option<RequestModel>,
    pub stage: DriveStage,
    pub turn: TurnModel,
    /// The text of the schema turn so far.
    pub schema_text: Seq<char>,
}

pub open spec fn empty_turn() -> TurnModel {
    TurnModel { text: Seq::empty(), tools: Seq::empty() }
}

/// The schema turn: the context carries the request from now on.
pub open spec fn stream_schema_turn(m: StreamModel, q: RequestModel) -> (StreamModel, DriveModel) {
    (StreamModel { stage: DriveStage::SchemaTurn, schema_text: Seq::empty(), ..m },
        DriveModel::Stream(ContextModel { messages: m.ctx.messages, request: Some(q) }))
}

/// The loop when a turn's stream has ended.
pub open spec fn after_turn(m: StreamModel) -> (StreamModel, DriveModel) {
    let over = StreamModel { stage: DriveStage::Over, ..m };
    if m.stage == DriveStage::SchemaTurn {
        (over, DriveModel::Done(m.schema_text))
    } else if m.turn.tools.len() == 0 {
        let text = m.turn.text;
        match m.schema {
            Some(q) => if text_conforms(text, q) {
                (over, DriveModel::Done(text))
            } else {
                stream_schema_turn(StreamModel { ctx: ctx_push(m.ctx, text_message(RoleModel::Assistant, text)), ..m }, q)
            },
            None => (over, DriveModel::Done(text)),
        }
    } else {
        let m2 = StreamModel {
            ctx: ContextModel { messages: m.ctx.messages + turn_messages(m.turn.tools), request: m.ctx.request },
            iter: m.iter + 1,
            turn: empty_turn(),
            ..m
        };
        if m2.iter < m.max_iters {
            (m2, DriveModel::Stream(m2.ctx))
        } else {
            match m.schema {
                Some(q) => stream_schema_turn(m2, q),
                None => (StreamModel { stage: DriveStage::Over, ..m2 }, DriveModel::Fail(ErrModel::MaxIterations(m.max_iters))),
            }
        }
    }
}

/// The decisions of the streaming tool loop.
pub struct StreamLoop {
    ctx: Context,
    max_iters: usize,
    iter: usize,
    final_schema: Option<OutputSchemaRequest>,
    stage: DriveStage,
    turn: Turn,
    schema_text: String,
}

impl View for StreamLoop {
    type V = StreamModel;

    closed spec fn view(&self) -> StreamModel {
        StreamModel {
            ctx: self.ctx@,
            max_iters: self.max_iters as nat,
            iter: self.iter as nat,
            schema: match self.final_schema {
                Some(q) => Some(q@),
                None => None,
            },
            stage: self.stage,
            turn: self.turn@,
            schema_text: self.schema_text@,
        }
    }
}

impl StreamLoop {
    /// The loop is streaming a turn.
    pub open spec fn streaming(&self) -> bool {
        &&& self@.stage != DriveStage::Over
        &&& self@.stage == DriveStage::SchemaTurn ==> self@.schema is Some
        &&& self@.iter < self@.max_iters || self@.stage == DriveStage::SchemaTurn
    }

    /// Starts a loop of at most `max_iters` tool turns; with `final_schema`,
    /// an answer that does not satisfy it gets one more schema turn.
    pub fn start(ctx: Context, max_iters: usize, final_schema: Option<OutputSchemaRequest>) -> (r: (StreamLoop, DriveStep))
        ensures
            ({
                let m = StreamModel {
                    ctx: ctx@,
                    max_iters: max_iters as nat,
                    iter: 0,
                    schema: match final_schema {
                        Some(q) => Some(q@),
                        None => None,
                    },
                    stage: DriveStage::Tools,
                    turn: empty_turn(),
                    schema_text: Seq::empty(),
                };
                if max_iters > 0 {
                    r.0@ == m && r.1@ == DriveModel::Stream(ctx@)
                } else {
                    match final_schema {
                        Some(q) => (r.0@, r.1@) == stream_schema_turn(m, q@),
                        None => (r.0@, r.1@) == (StreamModel { stage: DriveStage::Over, ..m }, DriveModel::Fail(ErrModel::MaxIterations(0))),
                    }
                }
            }),
            r.1 is Stream ==> r.0.streaming(),
    {
        let mut lp = StreamLoop {
            ctx,
            max_iters,
            iter: 0,
            final_schema,
            stage: DriveStage::Tools,
            turn: Turn::new(),
            schema_text: String::new(),
        };
        if max_iters > 0 {
            let step = DriveStep::Stream(lp.ctx.clone());
            (lp, step)
        } else {
            let step = lp.schema_turn_or_fail();
            (lp, step)
        }
    }

    fn schema_turn_or_fail(&mut self) -> (step: DriveStep)
        requires
            old(self)@.stage == DriveStage::Tools,
        ensures
            match old(self)@.schema {
                Some(q) => (final(self)@, step@) == stream_schema_turn(old(self)@, q),
                None => (final(self)@, step@) == (StreamModel { stage: DriveStage::Over, ..old(self)@ },
                    DriveModel::Fail(ErrModel::MaxIterations(old(self)@.max_iters))),
            },
            step is Stream ==> final(self).streaming(),
    {
        match &self.final_schema {
            Some(q) => {
                let ctx = self.ctx.clone().with_output_schema_request(q.clone());
                self.stage = DriveStage::SchemaTurn;
                self.schema_text = String::new();
                DriveStep::Stream(ctx)
            },
            None => {
                self.stage = DriveStage::Over;
                DriveStep::Fail(AgentError::MaxIterations(self.max_iters))
            },
        }
    }

    /// Takes in one chunk of the turn being streamed. In the schema turn only
    /// text counts.
    pub fn on_chunk(&mut self, chunk: Chunk) -> (r: Reaction)
        requires
            old(self).streaming(),
        ensures
            final(self).streaming(),
            old(self)@.stage == DriveStage::Tools ==> (final(self)@.turn, r@) == turn_step(old(self)@.turn, chunk@)
                && final(self)@ == (StreamModel { turn: final(self)@.turn, ..old(self)@ }),
            old(self)@.stage == DriveStage::SchemaTurn ==> match chunk@ {
                ChunkModel::Text(t) => r@ == ReactionModel::Text(t)
                    && final(self)@ == (StreamModel { schema_text: old(self)@.schema_text + t, ..old(self)@ }),
                ChunkModel::End => r@ == ReactionModel::End && final(self)@ == old(self)@,
                _ => r@ == ReactionModel::Quiet && final(self)@ == old(self)@,
            },
    {
        if self.stage == DriveStage::SchemaTurn {
            match chunk {
                Chunk::Text(t) => {
                    self.schema_text.append(t.as_str());
                    Reaction::Text(t)
                },
                Chunk::End => Reaction::End,
                _ => Reaction::Quiet,
            }
        } else {
            self.turn.on_chunk(chunk)
        }
    }

    /// Whether the loop is in its schema turn.
    pub fn in_schema_turn(&self) -> (r: bool)
        ensures
            r == (self@.stage == DriveStage::SchemaTurn),
    {
        self.stage == DriveStage::SchemaTurn
    }

    /// Whether a consumer of a tool-dispatching agent is shown the text of
    /// the turn being streamed as it comes: only in the schema turn; the
    /// text of a tool turn is held back.
    pub fn forwards_text(&self) -> (r: bool)
        ensures
            r == (self@.stage == DriveStage::SchemaTurn),
    {
        self.stage == DriveStage::SchemaTurn
    }

    /// Ends the turn as [`StreamLoop::end_turn`] does, and gives the text a
    /// consumer of a tool-dispatching agent is shown now: the final answer
    /// when its turn's text was held back and it is not empty, else nothing
    /// (a schema turn's text was shown as it streamed).
    pub fn end_turn_shown(&mut self) -> (r: (DriveStep, Option<String>))
        requires
            old(self).streaming(),
        ensures
            (final(self)@, r.0@) == after_turn(old(self)@),
            r.0 is Stream ==> final(self).streaming(),
            match after_turn(old(self)@).1 {
                DriveModel::Done(t) => if old(self)@.stage != DriveStage::SchemaTurn && t.len() > 0 {
                    r.1 matches Some(x) && x@ == t
                } else {
                    r.1 is None
                },
                _ => r.1 is None,
            },
    {
        let held_back = !self.forwards_text();
        let step = self.end_turn();
        let shown = match &step {
            DriveStep::Done(t) => if held_back && !t.as_str().is_empty() { Some(t.clone()) } else { None },
            _ => None,
        };
        (step, shown)
    }

    /// Records the result of call `index` of the turn being streamed.
    pub fn on_dispatched(&mut self, index: usize, result: JsonValue)
        requires
            old(self).streaming(),
            old(self)@.stage == DriveStage::Tools,
            index < old(self)@.turn.tools.len(),
        ensures
            final(self).streaming(),
            final(self)@ == (StreamModel {
                turn: TurnModel {
                    tools: old(self)@.turn.tools.update(index as int, PendingModel { result: Some(result@), ..old(self)@.turn.tools[index as int] }),
                    ..old(self)@.turn
                },
                ..old(self)@
            }),
    {
        self.turn.on_dispatched(index, result);
    }

    /// The turn's stream has ended: continue, finish, or fail.
    pub fn end_turn(&mut self) -> (step: DriveStep)
        requires
            old(self).streaming(),
        ensures
            (final(self)@, step@) == after_turn(old(self)@),
            step is Stream ==> final(self).streaming(),
    {
        if self.stage == DriveStage::SchemaTurn {
            self.stage = DriveStage::Over;
            let t = self.schema_text.clone();
            return DriveStep::Done(t);
        }
        if self.turn.has_no_tools() {
            let text = self.turn.text().to_owned();
            let conforms = match &self.final_schema {
                Some(q) => validates_against_schema(text.as_str(), q),
                None => true,
            };
            if conforms {
                self.stage = DriveStage::Over;
                DriveStep::Done(text)
            } else {
                self.ctx.push(Message::assistant(text.as_str()));
                self.schema_turn_or_fail()
            }
        } else {
            self.turn.finish_into(&mut self.ctx);
            self.iter = self.iter + 1;
            self.turn = Turn::new();
            if self.iter < self.max_iters {
                DriveStep::Stream(self.ctx.clone())
            } else {
                self.schema_turn_or_fail()
            }
        }
    }
}

} // verus!

verus! {

/// Without a schema, a turn that calls no tool ends the streaming loop with
/// the turn's text.
pub proof fn law_tool_free_turn_ends_loop(m: StreamModel)
    requires
        m.stage == DriveStage::Tools,
        m.schema is None,
        m.turn.tools.len() == 0,
    ensures
        after_turn(m) == (StreamModel { stage: DriveStage::Over, ..m }, DriveModel::Done(m.turn.text)),
{
}

/// A turn that called tools leaves its envelope and results in the context
/// and counts one iteration; the loop streams again only below the limit.
pub proof fn law_tool_turn_continues_below_limit(m: StreamModel)
    requires
        m.stage == DriveStage::Tools,
        m.turn.tools.len() > 0,
    ensures
        after_turn(m).0.ctx.messages == m.ctx.messages + turn_messages(m.turn.tools),
        after_turn(m).0.iter == m.iter + 1,
        (after_turn(m).1 is Stream && after_turn(m).0.stage == DriveStage::Tools) ==> m.iter + 1 < m.max_iters,
        (m.iter + 1 >= m.max_iters && m.schema is None) ==> after_turn(m).1 == DriveModel::Fail(ErrModel::MaxIterations(m.max_iters)),
{
}

/// With a schema, a final text from the tool phase satisfies it.
pub proof fn law_streamed_answer_conforms(m: StreamModel)
    requires
        m.stage == DriveStage::Tools,
        m.schema is Some,
    ensures
        after_turn(m).1 matches DriveModel::Done(s) ==> text_conforms(s, m.schema->0),
{
}

} // verus!
