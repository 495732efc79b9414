//! [`StreamCollector`]: a streaming agent read as a plain one, its text
//! chunks concatenated into one message.
use vstd::prelude::*;

use crate::agent::{Response, ResponseModel};
use crate::stream::chunk::{Chunk, ChunkModel};

verus! {

/// Adapts a streaming agent into a plain agent: `Text` chunks are
/// concatenated into a message; `Tool`, `Usage` and `End` chunks are dropped.
#[derive(Clone)]
pub struct StreamCollector<S> {
    inner: S,
}

/// The text a chunk adds to the collected message.
pub open spec fn chunk_text(c: ChunkModel) -> Seq<char> {
    match c {
        ChunkModel::Text(t) => t,
        _ => Seq::empty(),
    }
}

/// The message collected from a whole stream of chunks.
pub open spec fn collected_text(cs: Seq<ChunkModel>) -> Seq<char>
    decreases cs.len(),
{
    if cs.len() == 0 {
        Seq::empty()
    } else {
        collected_text(cs.drop_last()) + chunk_text(cs.last())
    }
}

impl<S> StreamCollector<S> {
    pub closed spec fn inner_spec(&self) -> S {
        self.inner
    }

    pub fn new(inner: S) -> (r: Self)
        ensures
            r.inner_spec() == inner,
    {
        StreamCollector { inner }
    }

    pub fn inner(&self) -> (r: &S)
        ensures
            *r == self.inner_spec(),
    {
        &self.inner
    }

    pub fn into_inner(self) -> (r: S)
        ensures
            r == self.inner_spec(),
    {
        self.inner
    }

    /// Adds one chunk to the text collected so far.
    pub fn absorb(text: &mut String, chunk: &Chunk)
        ensures
            final(text)@ == old(text)@ + chunk_text(chunk@),
    {
        match chunk {
            Chunk::Text(t) => text.append(t.as_str()),
            _ => {
                assert(text@ == text@ + Seq::<char>::empty());
            },
        }
    }

    /// The collected message of a whole stream.
    pub fn collect_chunks(chunks: &[Chunk]) -> (r: Response)
        ensures
            r@ == ResponseModel::Message(collected_text(chunks@.map_values(|c: Chunk| c@))),
    {
        let ghost cs = chunks@.map_values(|c: Chunk| c@);
        let mut text = String::new();
        let mut i: usize = 0;
        while i < chunks.len()
            invariant
                i <= chunks.len(),
                cs == chunks@.map_values(|c: Chunk| c@),
                text@ == collected_text(cs.subrange(0, i as int)),
            decreases chunks.len() - i,
        {
            proof {
                let sub = cs.subrange(0, i + 1);
                assert(sub.drop_last() == cs.subrange(0, i as int));
            }
            Self::absorb(&mut text, &chunks[i]);
            i = i + 1;
        }
        proof { assert(cs.subrange(0, chunks.len() as int) == cs); }
        Response::Message(text)
    }
}

} // verus!
