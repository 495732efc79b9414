//! The memo of a caching agent: responses keyed by a text that identifies
//! the request.
use vstd::prelude::*;

use crate::agent::{Response, ResponseModel};
use crate::error::{AgentError, ErrModel};
use crate::text::str_eq;

verus! {

broadcast use vstd::std_specs::vec::group_vec_axioms;

/// The position of `key` among the entries, or `-1`.
pub open spec fn key_position(es: Seq<(Seq<char>, ResponseModel)>, key: Seq<char>) -> int
    decreases es.len(),
{
    if es.len() == 0 {
        -1
    } else if es.last().0 == key {
        es.len() - 1
    } else {
        key_position(es.drop_last(), key)
    }
}

/// The response cached under `key`, if any.
pub open spec fn cached(es: Seq<(Seq<char>, ResponseModel)>, key: Seq<char>) -> Option<ResponseModel> {
    if key_position(es, key) >= 0 { Some(es[key_position(es, key)].1) } else { None }
}

/// The entries after caching `r` under `key`: an existing entry is replaced.
pub open spec fn cache_insert(es: Seq<(Seq<char>, ResponseModel)>, key: Seq<char>, r: ResponseModel) -> Seq<(Seq<char>, ResponseModel)> {
    let i = key_position(es, key);
    if i >= 0 { es.update(i, (key, r)) } else { es.push((key, r)) }
}

/// The entries after the inner agent answered the request under `key`: a
/// success is cached, an error leaves the entries as they were.
pub open spec fn cache_record(es: Seq<(Seq<char>, ResponseModel)>, key: Seq<char>, outcome: Result<ResponseModel, ErrModel>) -> Seq<(Seq<char>, ResponseModel)> {
    match outcome {
        Ok(r) => cache_insert(es, key, r),
        Err(_) => es,
    }
}

/// One run of a caching agent on the request under `key`, the inner agent
/// answering `inner` if it is asked: a cached response is the answer and the
/// inner agent is not asked; otherwise its answer is recorded and returned.
/// The entries after the run, and the answer.
pub open spec fn cache_serve(es: Seq<(Seq<char>, ResponseModel)>, key: Seq<char>, inner: Result<ResponseModel, ErrModel>) -> (Seq<(Seq<char>, ResponseModel)>, Result<ResponseModel, ErrModel>) {
    match cached(es, key) {
        Some(m) => (es, Ok(m)),
        None => (cache_record(es, key, inner), inner),
    }
}

/// What a caching agent does with a request.
#[derive(Debug)]
pub enum CacheStep {
    /// Answer with this cached response; the inner agent is not run.
    Hit(Response),
    /// Run the inner agent, then hand its answer to [`ResponseCache::record`].
    Run,
}

/// No key occurs twice.
pub open spec fn keys_unique(es: Seq<(Seq<char>, ResponseModel)>) -> bool {
    forall|i: int, j: int| 0 <= i < j < es.len() ==> es[i].0 != es[j].0
}

proof fn lemma_key_position(es: Seq<(Seq<char>, ResponseModel)>, key: Seq<char>)
    ensures
        -1 <= key_position(es, key) < es.len(),
        key_position(es, key) >= 0 ==> es[key_position(es, key)].0 == key,
        key_position(es, key) < 0 ==> forall|k: int| 0 <= k < es.len() ==> es[k].0 != key,
    decreases es.len(),
{
    if es.len() > 0 {
        lemma_key_position(es.drop_last(), key);
        assert(forall|k: int| 0 <= k < es.len() - 1 ==> es.drop_last()[k] == es[k]);
    }
}

proof fn lemma_key_position_unique(es: Seq<(Seq<char>, ResponseModel)>, key: Seq<char>, k: int)
    requires
        keys_unique(es),
        0 <= k < es.len(),
        es[k].0 == key,
    ensures
        key_position(es, key) == k,
    decreases es.len(),
{
    if k < es.len() - 1 {
        lemma_key_position_unique(es.drop_last(), key, k);
    }
}

/// Memoized responses, keyed by request.
pub struct ResponseCache {
    entries: Vec<(String, Response)>,
}

impl View for ResponseCache {
    type V = Seq<(Seq<char>, ResponseModel)>;

    closed spec fn view(&self) -> Seq<(Seq<char>, ResponseModel)> {
        self.entries@.map_values(|e: (String, Response)| (e.0@, e.1@))
    }
}

impl ResponseCache {
    #[verifier::type_invariant]
    closed spec fn unique(&self) -> bool {
        keys_unique(self@)
    }

    pub fn new() -> (r: Self)
        ensures
            r@ == Seq::<(Seq<char>, ResponseModel)>::empty(),
    {
        let r = ResponseCache { entries: Vec::new() };
        assert(r@ =~= Seq::<(Seq<char>, ResponseModel)>::empty());
        r
    }

    fn position(&self, key: &str) -> (r: Option<usize>)
        ensures
            self@.len() == self.entries@.len(),
            forall|k: int| 0 <= k < self@.len() ==> #[trigger] self@[k] == (self.entries@[k].0@, self.entries@[k].1@),
            match r {
                Some(i) => key_position(self@, key@) == i && i < self@.len(),
                None => key_position(self@, key@) == -1,
            },
    {
        proof { use_type_invariant(self); }
        let mut i: usize = 0;
        while i < self.entries.len()
            invariant
                i <= self.entries.len(),
                self@.len() == self.entries.len(),
                keys_unique(self@),
                forall|k: int| 0 <= k < i ==> self@[k].0 != key@,
            decreases self.entries.len() - i,
        {
            assert(self@[i as int].0 == self.entries@[i as int].0@);
            if str_eq(self.entries[i].0.as_str(), key) {
                proof { lemma_key_position_unique(self@, key@, i as int); }
                return Some(i);
            }
            i = i + 1;
        }
        proof { lemma_key_position(self@, key@); }
        None
    }

    /// The response cached under `key`.
    pub fn get(&self, key: &str) -> (r: Option<Response>)
        ensures
            match cached(self@, key@) {
                Some(m) => r matches Some(x) && x@ == m,
                None => r is None,
            },
    {
        match self.position(key) {
            Some(i) => Some(self.entries[i].1.clone()),
            None => None,
        }
    }

    /// Caches `response` under `key`, replacing what was there.
    pub fn insert(&mut self, key: String, response: Response)
        ensures
            final(self)@ == cache_insert(old(self)@, key@, response@),
    {
        proof { use_type_invariant(&*self); }
        let ghost old_view = self@;
        let ghost k = key@;
        let ghost v = response@;
        proof { lemma_key_position(old_view, k); }
        let pos = self.position(key.as_str());
        let mut entries: Vec<(String, Response)> = Vec::new();
        std::mem::swap(&mut entries, &mut self.entries);
        match pos {
            Some(i) => {
                entries.set(i, (key, response));
            },
            None => {
                entries.push((key, response));
            },
        }
        assert(entries@.map_values(|e: (String, Response)| (e.0@, e.1@)) =~= cache_insert(old_view, k, v));
        proof {
            let r = cache_insert(old_view, k, v);
            assert forall|a: int, b: int| 0 <= a < b < r.len() implies r[a].0 != r[b].0 by {
                if key_position(old_view, k) < 0 {
                    if b == old_view.len() {
                        assert(old_view[a].0 != k);
                    }
                }
            }
        }
        self.entries = entries;
    }

    /// How a caching agent serves the request under `key`.
    pub fn begin(&self, key: &str) -> (r: CacheStep)
        ensures
            match cached(self@, key@) {
                Some(m) => r matches CacheStep::Hit(x) && x@ == m,
                None => r is Run,
            },
    {
        match self.get(key) {
            Some(x) => CacheStep::Hit(x),
            None => CacheStep::Run,
        }
    }

    /// Records what the inner agent answered for the request under `key`
    /// (a success is cached, an error is not) and gives the answer back.
    pub fn record(&mut self, key: String, outcome: Result<Response, AgentError>) -> (r: Result<Response, AgentError>)
        ensures
            final(self)@ == cache_record(old(self)@, key@, match outcome {
                Ok(x) => Ok(x@),
                Err(e) => Err(e@),
            }),
            r == outcome,
    {
        match outcome {
            Ok(x) => {
                self.insert(key, x.clone());
                Ok(x)
            },
            Err(e) => Err(e),
        }
    }

    /// Drops every entry.
    pub fn clear(&mut self)
        ensures
            final(self)@ == Seq::<(Seq<char>, ResponseModel)>::empty(),
    {
        self.entries = Vec::new();
        assert(self@ =~= Seq::<(Seq<char>, ResponseModel)>::empty());
    }

    /// Number of entries.
    pub fn len(&self) -> (r: usize)
        ensures
            r == self@.len(),
    {
        self.entries.len()
    }
}

/// A response cached under a key is what a lookup of that key gives back,
/// and caching it leaves every other key's response as it was.
pub proof fn law_cache_get_after_insert(es: Seq<(Seq<char>, ResponseModel)>, key: Seq<char>, r: ResponseModel, other: Seq<char>)
    requires
        keys_unique(es),
    ensures
        cached(cache_insert(es, key, r), key) == Some(r),
        other != key ==> cached(cache_insert(es, key, r), other) == cached(es, other),
{
    lemma_key_position(es, key);
    lemma_key_position(es, other);
    let n = cache_insert(es, key, r);
    let k = if key_position(es, key) >= 0 { key_position(es, key) } else { es.len() as int };
    assert(keys_unique(n)) by {
        assert forall|a: int, b: int| 0 <= a < b < n.len() implies n[a].0 != n[b].0 by {
            if key_position(es, key) < 0 && b == es.len() {
                assert(es[a].0 != key);
            }
        }
    }
    lemma_key_position_unique(n, key, k);
    if other != key {
        lemma_key_position(n, other);
        if key_position(es, other) >= 0 {
            lemma_key_position_unique(n, other, key_position(es, other));
        } else if key_position(n, other) >= 0 {
            let j = key_position(n, other);
            assert(j != k);
        }
    }
}

/// A caching agent answers a repeated request with the success it cached
/// the first time, without asking the inner agent again (whatever it would
/// answer); a failed run caches nothing, so the request is run again.
pub proof fn law_cached_success_is_replayed(
    es: Seq<(Seq<char>, ResponseModel)>,
    key: Seq<char>,
    first: Result<ResponseModel, ErrModel>,
    second: Result<ResponseModel, ErrModel>,
)
    requires
        keys_unique(es),
    ensures
        ({
            let (es1, r1) = cache_serve(es, key, first);
            let (es2, r2) = cache_serve(es1, key, second);
            &&& r1 matches Ok(r) ==> r2 == Ok::<ResponseModel, ErrModel>(r) && es2 == es1
            &&& (cached(es, key) is None && first is Err) ==> es1 == es && r1 == first
        }),
{
    lemma_key_position(es, key);
    law_cache_get_after_insert(es, key, first->Ok_0, key);
}

} // verus!
