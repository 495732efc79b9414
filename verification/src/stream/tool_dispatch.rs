//! [`ToolDispatchingAgent`]: a streaming agent whose tool calls are run as
//! they close, turn after turn, so that its consumer sees only the final
//! answer's text and the end marker.
use vstd::prelude::*;

use crate::structured::output_schema::{OutputSchemaRequest, RequestModel};
use crate::tool::{entry_defs, DefModel, ToolRegistry};

verus! {

/// Wraps a streaming agent and runs its tool calls as they stream in, until
/// it answers without calls. Its decisions are those of
/// [`crate::stream::loop_event::StreamLoop`]; only the final text is passed on.
pub struct ToolDispatchingAgent<S, H> {
    inner: std::sync::Arc<S>,
    registry: ToolRegistry<H>,
    max_iters: usize,
    final_schema: Option<OutputSchemaRequest>,
}

impl<S, H> ToolDispatchingAgent<S, H> {
    pub closed spec fn inner_spec(&self) -> std::sync::Arc<S> {
        self.inner
    }

    pub closed spec fn tools_spec(&self) -> Seq<DefModel> {
        entry_defs(self.registry@)
    }

    pub closed spec fn max_iters_spec(&self) -> usize {
        self.max_iters
    }

    pub closed spec fn final_schema_spec(&self) -> Option<RequestModel> {
        match self.final_schema {
            Some(q) => Some(q@),
            None => None,
        }
    }

    /// At most ten turns, and no schema, by default.
    pub fn new(inner: S, registry: ToolRegistry<H>) -> (r: Self)
        ensures
            *r.inner_spec() == inner,
            r.tools_spec() == entry_defs(registry@),
            r.max_iters_spec() == 10,
            r.final_schema_spec() is None,
    {
        ToolDispatchingAgent { inner: std::sync::Arc::new(inner), registry, max_iters: 10, final_schema: None }
    }

    pub fn with_max_iters(self, n: usize) -> (r: Self)
        ensures
            r.inner_spec() == self.inner_spec(),
            r.tools_spec() == self.tools_spec(),
            r.max_iters_spec() == n,
            r.final_schema_spec() == self.final_schema_spec(),
    {
        ToolDispatchingAgent { max_iters: n, ..self }
    }

    /// A schema that canonicalizes the final answer; the schema turn is
    /// skipped when the answer already satisfies it.
    pub fn with_final_schema(self, schema: OutputSchemaRequest) -> (r: Self)
        ensures
            r.inner_spec() == self.inner_spec(),
            r.tools_spec() == self.tools_spec(),
            r.max_iters_spec() == self.max_iters_spec(),
            r.final_schema_spec() == Some(schema@),
    {
        ToolDispatchingAgent { final_schema: Some(schema), ..self }
    }

    pub fn inner(&self) -> (r: &std::sync::Arc<S>)
        ensures
            *r == self.inner_spec(),
    {
        &self.inner
    }

    pub fn registry(&self) -> (r: &ToolRegistry<H>)
        ensures
            entry_defs(r@) == self.tools_spec(),
    {
        &self.registry
    }

    pub fn max_iters(&self) -> (r: usize)
        ensures
            r == self.max_iters_spec(),
    {
        self.max_iters
    }

    pub fn final_schema(&self) -> (r: Option<&OutputSchemaRequest>)
        ensures
            match self.final_schema_spec() {
                Some(q) => r matches Some(x) && x@ == q,
                None => r is None,
            },
    {
        match &self.final_schema {
            Some(q) => Some(q),
            None => None,
        }
    }
}

} // verus!
