//! Lifecycle logging around an agent: the wrapper types and the tallies their
//! log lines report.
use vstd::prelude::*;

use crate::stream::chunk::{Chunk, ChunkModel, EventModel, ToolEvent};
use crate::text::chars_of;

verus! {

#[verifier::external_type_specification]
#[verifier::external_body]
pub struct ExInstant(std::time::Instant);

/// Wraps an agent and reports its lifecycle events under `label`.
pub struct LoggingAgent<A> {
    inner: A,
    label: String,
}

impl<A> LoggingAgent<A> {
    pub closed spec fn inner_spec(&self) -> A {
        self.inner
    }

    pub closed spec fn label_spec(&self) -> Seq<char> {
        self.label@
    }

    pub fn new(label: &str, inner: A) -> (r: Self)
        ensures
            r.inner_spec() == inner,
            r.label_spec() == label@,
    {
        LoggingAgent { inner, label: label.to_owned() }
    }

    pub fn inner(&self) -> (r: &A)
        ensures
            *r == self.inner_spec(),
    {
        &self.inner
    }

    pub fn label(&self) -> (r: &str)
        ensures
            r@ == self.label_spec(),
    {
        self.label.as_str()
    }
}

/// The stream of a logging agent: forwards its inner stream's chunks
/// unchanged and tallies what the final log line reports.
pub struct LoggingStream<S> {
    inner: S,
    label: String,
    start: std::time::Instant,
    text_chars: usize,
    tools_started: usize,
    done_logged: bool,
}

/// What a logging stream has counted.
pub struct Tally {
    pub text_chars: nat,
    pub tools_started: nat,
    pub done_logged: bool,
}

/// The tally after one more chunk: text adds its characters, a started tool
/// counts one.
pub open spec fn tally_chunk(t: Tally, c: ChunkModel) -> Tally {
    match c {
        ChunkModel::Text(s) => Tally { text_chars: t.text_chars + s.len(), ..t },
        ChunkModel::Tool(EventModel::Started { .. }) => Tally { tools_started: t.tools_started + 1, ..t },
        _ => t,
    }
}

impl<S> LoggingStream<S> {
    pub closed spec fn tally(&self) -> Tally {
        Tally { text_chars: self.text_chars as nat, tools_started: self.tools_started as nat, done_logged: self.done_logged }
    }

    pub closed spec fn inner_spec(&self) -> S {
        self.inner
    }

    pub closed spec fn label_spec(&self) -> Seq<char> {
        self.label@
    }

    pub closed spec fn start_spec(&self) -> std::time::Instant {
        self.start
    }

    /// Starts tallying `inner`, which began at `start`.
    pub fn new(inner: S, label: &str, start: std::time::Instant) -> (r: Self)
        ensures
            r.inner_spec() == inner,
            r.label_spec() == label@,
            r.start_spec() == start,
            r.tally() == (Tally { text_chars: 0, tools_started: 0, done_logged: false }),
    {
        LoggingStream { inner, label: label.to_owned(), start, text_chars: 0, tools_started: 0, done_logged: false }
    }

    /// The stream being forwarded.
    pub fn inner_mut(&mut self) -> (r: &mut S)
        ensures
            *r == old(self).inner_spec(),
            final(self).inner_spec() == *final(r),
            final(self).tally() == old(self).tally(),
            final(self).label_spec() == old(self).label_spec(),
            final(self).start_spec() == old(self).start_spec(),
    {
        &mut self.inner
    }

    pub fn label(&self) -> (r: &str)
        ensures
            r@ == self.label_spec(),
    {
        self.label.as_str()
    }

    /// When the stream started.
    pub fn start(&self) -> (r: std::time::Instant)
        ensures
            r == self.start_spec(),
    {
        self.start
    }

    pub fn text_chars(&self) -> (r: usize)
        ensures
            r == self.tally().text_chars,
    {
        self.text_chars
    }

    pub fn tools_started(&self) -> (r: usize)
        ensures
            r == self.tally().tools_started,
    {
        self.tools_started
    }

    /// Counts a chunk passing through; counts saturate at `usize::MAX`.
    pub fn observe(&mut self, chunk: &Chunk)
        ensures
            final(self).inner_spec() == old(self).inner_spec(),
            final(self).label_spec() == old(self).label_spec(),
            final(self).start_spec() == old(self).start_spec(),
            ({
                let t = tally_chunk(old(self).tally(), chunk@);
                &&& t.text_chars <= usize::MAX ==> final(self).tally().text_chars == t.text_chars
                &&& t.tools_started <= usize::MAX ==> final(self).tally().tools_started == t.tools_started
                &&& final(self).tally().done_logged == old(self).tally().done_logged
            }),
    {
        match chunk {
            Chunk::Text(t) => {
                let n = chars_of(t.as_str()).len();
                self.text_chars = self.text_chars.saturating_add(n);
            },
            Chunk::Tool(ToolEvent::Started { .. }) => {
                self.tools_started = self.tools_started.saturating_add(1);
            },
            _ => {},
        }
    }

    /// Whether the end of the stream is to be logged now: true the first
    /// time only.
    pub fn finish(&mut self) -> (r: bool)
        ensures
            r == !old(self).tally().done_logged,
            final(self).tally() == (Tally { done_logged: true, ..old(self).tally() }),
            final(self).inner_spec() == old(self).inner_spec(),
            final(self).label_spec() == old(self).label_spec(),
            final(self).start_spec() == old(self).start_spec(),
    {
        if self.done_logged {
            false
        } else {
            self.done_logged = true;
            true
        }
    }
}

} // verus!
