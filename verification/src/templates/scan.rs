//! Finding the top-level balanced `{...}` blocks of a model's output.
use vstd::prelude::*;

use crate::text::{chars_of, push_range};

verus! {

broadcast use vstd::std_specs::vec::group_vec_axioms;

/// Where the block whose scan reached `j` ends: just past the `}` that brings
/// `depth` to zero, braces inside strings not counting. `None` when the text
/// ends first.
pub open spec fn block_end(t: Seq<char>, j: int, depth: int, in_string: bool, escape: bool) -> Option<int>
    decreases t.len() - j,
{
    if j < 0 || j >= t.len() {
        None
    } else {
        let c = t[j];
        if escape {
            block_end(t, j + 1, depth, in_string, false)
        } else if in_string {
            if c == '\\' {
                block_end(t, j + 1, depth, true, true)
            } else if c == '"' {
                block_end(t, j + 1, depth, false, false)
            } else {
                block_end(t, j + 1, depth, true, false)
            }
        } else if c == '"' {
            block_end(t, j + 1, depth, true, false)
        } else if c == '{' {
            block_end(t, j + 1, depth + 1, false, false)
        } else if c == '}' {
            if depth - 1 == 0 {
                Some(j + 1)
            } else {
                block_end(t, j + 1, depth - 1, false, false)
            }
        } else {
            block_end(t, j + 1, depth, false, false)
        }
    }
}

pub proof fn lemma_block_end_bounds(t: Seq<char>, j: int, depth: int, in_string: bool, escape: bool)
    ensures
        block_end(t, j, depth, in_string, escape) matches Some(e) ==> j < e <= t.len(),
    decreases t.len() - j,
{
    if j < 0 || j >= t.len() {
    } else {
        lemma_block_end_bounds(t, j + 1, depth, in_string, false);
        lemma_block_end_bounds(t, j + 1, depth, true, true);
        lemma_block_end_bounds(t, j + 1, depth, false, false);
        lemma_block_end_bounds(t, j + 1, depth, true, false);
        lemma_block_end_bounds(t, j + 1, depth + 1, false, false);
        lemma_block_end_bounds(t, j + 1, depth - 1, false, false);
    }
}

/// Every top-level balanced `{...}` block from position `i` on, in order.
/// The search stops at the first block that never closes.
pub open spec fn blocks_from(t: Seq<char>, i: int) -> Seq<Seq<char>>
    decreases t.len() - i,
{
    if i < 0 || i >= t.len() {
        Seq::empty()
    } else if t[i] != '{' {
        blocks_from(t, i + 1)
    } else {
        match block_end(t, i, 0, false, false) {
            Some(e) => {
                proof { lemma_block_end_bounds(t, i, 0, false, false); }
                seq![t.subrange(i, e)] + blocks_from(t, e)
            },
            None => Seq::empty(),
        }
    }
}

/// Every top-level balanced `{...}` block of `input`, in order; braces inside
/// JSON strings do not count. The search stops at the first block that never
/// closes.
pub fn extract_balanced_objects(input: &str) -> (r: Vec<String>)
    ensures
        r@.map_values(|s: String| s@) == blocks_from(input@, 0),
{
    let t = chars_of(input);
    let mut objects: Vec<String> = Vec::new();
    let mut i: usize = 0;
    while i < t.len()
        invariant_except_break
            i <= t@.len(),
            t@ == input@,
            objects@.map_values(|s: String| s@) + blocks_from(t@, i as int) == blocks_from(t@, 0),
        ensures
            objects@.map_values(|s: String| s@) == blocks_from(input@, 0),
        decreases t.len() - i,
    {
        if t[i] != '{' {
            i = i + 1;
            continue;
        }
        let start = i;
        let mut depth: usize = 0;
        let mut in_string = false;
        let mut escape = false;
        let mut closed = false;
        while i < t.len()
            invariant_except_break
                start <= i <= t@.len(),
                start < t@.len(),
                t@[start as int] == '{',
                t@ == input@,
                depth <= i - start,
                i == start ==> depth == 0 && !in_string && !escape,
                i > start ==> depth >= 1,
                block_end(t@, start as int, 0, false, false) == block_end(t@, i as int, depth as int, in_string, escape),
                !closed,
            ensures
                start < i <= t@.len(),
                closed ==> block_end(t@, start as int, 0, false, false) == Some(i as int),
                !closed ==> block_end(t@, start as int, 0, false, false) is None,
            decreases t.len() - i,
        {
            let c = t[i];
            if escape {
                escape = false;
            } else if in_string {
                if c == '\\' {
                    escape = true;
                } else if c == '"' {
                    in_string = false;
                }
            } else if c == '"' {
                in_string = true;
            } else if c == '{' {
                depth = depth + 1;
            } else if c == '}' {
                depth = depth - 1;
                if depth == 0 {
                    i = i + 1;
                    closed = true;
                    break;
                }
            }
            i = i + 1;
        }
        if closed {
            let mut s = String::new();
            push_range(&mut s, &t, start, i);
            proof {
                lemma_block_end_bounds(t@, start as int, 0, false, false);
                assert(seq![s@] + blocks_from(t@, i as int) == blocks_from(t@, start as int));
                assert(objects@.push(s).map_values(|x: String| x@) == objects@.map_values(|x: String| x@).push(s@));
            }
            objects.push(s);
        } else {
            proof {
                assert(blocks_from(t@, start as int) == Seq::<Seq<char>>::empty());
                assert(objects@.map_values(|x: String| x@) + Seq::<Seq<char>>::empty() == objects@.map_values(|x: String| x@));
            }
            break;
        }
    }
    objects
}

} // verus!
