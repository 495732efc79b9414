//! One emission of a streaming agent.
use vstd::prelude::*;

use crate::usage::UsageMetrics;

verus! {

/// Streaming tool-call events: `Started` when the model opens a call, one or
/// more `Arguments` as its arguments JSON streams in, and `Finished` when the
/// envelope closes; `Finished` is what triggers dispatch.
#[derive(Debug, PartialEq, Eq)]
pub enum ToolEvent {
    Started { id: String, name: String },
    Arguments { id: String, fragment: String },
    Finished { id: String },
}

/// Model of a [`ToolEvent`].
pub enum EventModel {
    Started { id: Seq<char>, name: Seq<char> },
    Arguments { id: Seq<char>, fragment: Seq<char> },
    Finished { id: Seq<char> },
}

impl View for ToolEvent {
    type V = EventModel;

    open spec fn view(&self) -> EventModel {
        match self {
            ToolEvent::Started { id, name } => EventModel::Started { id: id@, name: name@ },
            ToolEvent::Arguments { id, fragment } => EventModel::Arguments { id: id@, fragment: fragment@ },
            ToolEvent::Finished { id } => EventModel::Finished { id: id@ },
        }
    }
}

impl Clone for ToolEvent {
    fn clone(&self) -> (r: Self)
        ensures
            r@ == self@,
    {
        match self {
            ToolEvent::Started { id, name } => ToolEvent::Started { id: id.clone(), name: name.clone() },
            ToolEvent::Arguments { id, fragment } => ToolEvent::Arguments { id: id.clone(), fragment: fragment.clone() },
            ToolEvent::Finished { id } => ToolEvent::Finished { id: id.clone() },
        }
    }
}

/// One piece of a streaming response.
#[derive(Debug, PartialEq)]
pub enum Chunk {
    Text(String),
    Tool(ToolEvent),
    /// Usage or timing update; may come several times in a run.
    Usage(UsageMetrics),
    /// Terminal marker: nothing follows.
    End,
}

/// Model of a [`Chunk`]; usage updates keep no payload.
pub enum ChunkModel {
    Text(Seq<char>),
    Tool(EventModel),
    Usage,
    End,
}

impl View for Chunk {
    type V = ChunkModel;

    open spec fn view(&self) -> ChunkModel {
        match self {
            Chunk::Text(s) => ChunkModel::Text(s@),
            Chunk::Tool(e) => ChunkModel::Tool(e@),
            Chunk::Usage(_) => ChunkModel::Usage,
            Chunk::End => ChunkModel::End,
        }
    }
}

impl Clone for Chunk {
    fn clone(&self) -> (r: Self)
        ensures
            r@ == self@,
    {
        match self {
            Chunk::Text(s) => Chunk::Text(s.clone()),
            Chunk::Tool(e) => Chunk::Tool(e.clone()),
            Chunk::Usage(u) => Chunk::Usage(u.clone()),
            Chunk::End => Chunk::End,
        }
    }
}

impl Chunk {
    pub fn text(s: &str) -> (r: Self)
        ensures
            r@ == ChunkModel::Text(s@),
    {
        Chunk::Text(s.to_owned())
    }

    pub fn end() -> (r: Self)
        ensures
            r@ == ChunkModel::End,
    {
        Chunk::End
    }

    pub fn is_text(&self) -> (r: bool)
        ensures
            r == (self@ is Text),
    {
        match self {
            Chunk::Text(_) => true,
            _ => false,
        }
    }

    pub fn is_end(&self) -> (r: bool)
        ensures
            r == (self@ is End),
    {
        match self {
            Chunk::End => true,
            _ => false,
        }
    }

    pub fn as_text(&self) -> (r: Option<&str>)
        ensures
            match self@ {
                ChunkModel::Text(s) => r matches Some(t) && t@ == s,
                _ => r is None,
            },
    {
        match self {
            Chunk::Text(s) => Some(s.as_str()),
            _ => None,
        }
    }
}

/// The models of a list of chunks.
pub open spec fn chunk_models(cs: Seq<Chunk>) -> Seq<ChunkModel> {
    cs.map_values(|c: Chunk| c@)
}

} // verus!
