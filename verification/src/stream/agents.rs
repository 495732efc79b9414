//! Streaming agents with fixed output, for tests and demos. Each gives the
//! items of its stream as a list; its owner turns the list into a stream.
use vstd::prelude::*;

use crate::error::{AgentError, ErrModel};
use crate::message::{last_user_text, Context};
use crate::stream::chunk::{Chunk, ChunkModel};
use crate::text::{chars_of, push_char, split_words, words};

verus! {

broadcast use vstd::std_specs::vec::group_vec_axioms;

/// The model of a stream's items.
pub open spec fn item_models(items: Seq<Result<Chunk, AgentError>>) -> Seq<Result<ChunkModel, ErrModel>> {
    items.map_values(|i: Result<Chunk, AgentError>| match i {
        Ok(c) => Ok(c@),
        Err(e) => Err(e@),
    })
}

/// One text chunk per character, then the end marker.
pub open spec fn char_items(t: Seq<char>) -> Seq<Result<ChunkModel, ErrModel>> {
    t.map_values(|c: char| Ok(ChunkModel::Text(seq![c]))).push(Ok(ChunkModel::End))
}

/// One text chunk per word, later words led by a space, then the end marker.
pub open spec fn word_items(ws: Seq<Seq<char>>) -> Seq<Result<ChunkModel, ErrModel>> {
    Seq::new(ws.len(), |i: int| Ok(ChunkModel::Text(if i == 0 { ws[i] } else { seq![' '] + ws[i] })))
        .push(Ok(ChunkModel::End))
}

fn char_chunks(text: &str) -> (r: Vec<Result<Chunk, AgentError>>)
    ensures
        item_models(r@) == char_items(text@),
{
    let t = chars_of(text);
    let mut out: Vec<Result<Chunk, AgentError>> = Vec::new();
    let mut i: usize = 0;
    while i < t.len()
        invariant
            i <= t@.len(),
            t@ == text@,
            out@.len() == i,
            forall|k: int| 0 <= k < i ==> (#[trigger] out@[k] matches Ok(c) && c@ == ChunkModel::Text(seq![t@[k]])),
        decreases t.len() - i,
    {
        let mut s = String::new();
        push_char(&mut s, t[i]);
        assert(s@ =~= seq![t@[i as int]]);
        out.push(Ok(Chunk::Text(s)));
        i = i + 1;
    }
    out.push(Ok(Chunk::End));
    assert(t@.subrange(0, t@.len() as int) == t@);
    assert(item_models(out@) =~= char_items(text@));
    out
}

/// Streams a fixed text one character at a time, then [`Chunk::End`].
#[derive(Clone, Debug)]
pub struct CharStreamAgent {
    pub text: String,
}

impl CharStreamAgent {
    pub fn new(text: &str) -> (r: Self)
        ensures
            r.text@ == text@,
    {
        CharStreamAgent { text: text.to_owned() }
    }

    /// The items of its stream; the context is not read.
    pub fn stream_items(&self, ctx: &Context) -> (r: Vec<Result<Chunk, AgentError>>)
        ensures
            item_models(r@) == char_items(self.text@),
    {
        char_chunks(self.text.as_str())
    }
}

/// Echoes the last user message one character at a time.
#[derive(Clone, Copy, Debug)]
pub struct StreamingEchoAgent;

impl StreamingEchoAgent {
    /// The items of its stream: the last user text (or nothing), character
    /// by character, then the end marker.
    pub fn stream_items(&self, ctx: &Context) -> (r: Vec<Result<Chunk, AgentError>>)
        ensures
            item_models(r@) == char_items(match last_user_text(ctx@.messages) {
                Some(t) => t,
                None => Seq::empty(),
            }),
    {
        let text = match ctx.last_user_message() {
            Some(t) => t,
            None => {
                proof { reveal_strlit(""); }
                ""
            },
        };
        char_chunks(text)
    }
}

/// Streams a fixed text word by word, then [`Chunk::End`].
#[derive(Clone, Debug)]
pub struct WordStreamAgent {
    text: String,
}

impl WordStreamAgent {
    pub closed spec fn text_spec(&self) -> Seq<char> {
        self.text@
    }

    pub fn new(text: &str) -> (r: Self)
        ensures
            r.text_spec() == text@,
    {
        WordStreamAgent { text: text.to_owned() }
    }

    /// The items of its stream; the context is not read.
    pub fn stream_items(&self, ctx: &Context) -> (r: Vec<Result<Chunk, AgentError>>)
        ensures
            item_models(r@) == word_items(words(self.text_spec())),
    {
        let ws = split_words(self.text.as_str());
        let ghost wm = ws@.map_values(|w: String| w@);
        let mut out: Vec<Result<Chunk, AgentError>> = Vec::new();
        let mut i: usize = 0;
        while i < ws.len()
            invariant
                i <= ws.len(),
                wm == ws@.map_values(|w: String| w@),
                out@.len() == i,
                forall|k: int| 0 <= k < i ==> (#[trigger] out@[k] matches Ok(c)
                    && c@ == ChunkModel::Text(if k == 0 { wm[k] } else { seq![' '] + wm[k] })),
            decreases ws.len() - i,
        {
            let s = if i == 0 {
                ws[i].clone()
            } else {
                let mut s = String::new();
                push_char(&mut s, ' ');
                s.append(ws[i].as_str());
                assert(s@ =~= seq![' '] + wm[i as int]);
                s
            };
            assert(s@ == (if i == 0 { wm[i as int] } else { seq![' '] + wm[i as int] }));
            out.push(Ok(Chunk::Text(s)));
            i = i + 1;
        }
        out.push(Ok(Chunk::End));
        assert(item_models(out@) =~= word_items(wm));
        out
    }
}

/// Always yields a single error, then closes.
#[derive(Clone, Debug)]
pub struct FailingStreamAgent {
    error: String,
}

impl FailingStreamAgent {
    pub closed spec fn error_spec(&self) -> Seq<char> {
        self.error@
    }

    pub fn new(error: &str) -> (r: Self)
        ensures
            r.error_spec() == error@,
    {
        FailingStreamAgent { error: error.to_owned() }
    }

    /// The items of its stream: the one error.
    pub fn stream_items(&self, ctx: &Context) -> (r: Vec<Result<Chunk, AgentError>>)
        ensures
            item_models(r@) == seq![Err::<ChunkModel, ErrModel>(ErrModel::Other(self.error_spec()))],
    {
        let mut out: Vec<Result<Chunk, AgentError>> = Vec::new();
        out.push(Err(AgentError::Other(self.error.clone())));
        assert(item_models(out@) =~= seq![Err::<ChunkModel, ErrModel>(ErrModel::Other(self.error_spec()))]);
        out
    }
}

} // verus!
