//! Tool calls from free-form model output.
//!
//! Backends that drive a model through plain text instruct it to emit JSON
//! envelopes and read them back here. Only the first top-level balanced JSON
//! value counts: one envelope object is one call, an array of envelopes is
//! many. What follows the first value is dropped, which removes the JSON that
//! small instruct models tend to repeat before ending their turn.
use vstd::prelude::*;

use crate::agent::{call_models, CallModel, ToolCall};
use crate::json::{find_either, first_of, json_parse, member, parse_json, Json, JsonValue};
use crate::text::{chars_of, decimal, push_decimal, push_range};

verus! {

broadcast use vstd::std_specs::vec::group_vec_axioms;

/// Where the JSON value whose scan reached `j` ends: just past the closing
/// bracket that brings `depth` back to zero, brackets inside strings not
/// counting. `None` when the text ends first. `depth` wraps as an `i32`.
pub open spec fn value_end(t: Seq<char>, j: int, depth: i32, in_string: bool, escaped: bool) -> Option<int>
    decreases t.len() - j,
{
    if j < 0 || j >= t.len() {
        None
    } else {
        let b = t[j];
        if in_string {
            if escaped {
                value_end(t, j + 1, depth, true, false)
            } else if b == '\\' {
                value_end(t, j + 1, depth, true, true)
            } else if b == '"' {
                value_end(t, j + 1, depth, false, false)
            } else {
                value_end(t, j + 1, depth, true, false)
            }
        } else if b == '"' {
            value_end(t, j + 1, depth, true, false)
        } else if b == '{' || b == '[' {
            value_end(t, j + 1, vstd::wrapping::i32_specs::wrapping_add(depth, 1), false, false)
        } else if b == '}' || b == ']' {
            let d = vstd::wrapping::i32_specs::wrapping_sub(depth, 1);
            if d == 0 {
                Some(j + 1)
            } else {
                value_end(t, j + 1, d, false, false)
            }
        } else {
            value_end(t, j + 1, depth, false, false)
        }
    }
}

pub proof fn lemma_value_end_bounds(t: Seq<char>, j: int, depth: i32, in_string: bool, escaped: bool)
    ensures
        value_end(t, j, depth, in_string, escaped) matches Some(e) ==> j < e <= t.len(),
    decreases t.len() - j,
{
    if 0 <= j < t.len() {
        lemma_value_end_bounds(t, j + 1, depth, true, false);
        lemma_value_end_bounds(t, j + 1, depth, true, true);
        lemma_value_end_bounds(t, j + 1, depth, false, false);
        lemma_value_end_bounds(t, j + 1, vstd::wrapping::i32_specs::wrapping_add(depth, 1), false, false);
        lemma_value_end_bounds(t, j + 1, vstd::wrapping::i32_specs::wrapping_sub(depth, 1), false, false);
    }
}

/// The end (exclusive) of the balanced JSON value that starts at `start`,
/// brackets inside strings not counting; `None` when it never closes.
pub fn balanced_end(chars: &[char], start: usize) -> (r: Option<usize>)
    ensures
        match value_end(chars@, start as int, 0, false, false) {
            Some(e) => r == Some(e as usize),
            None => r is None,
        },
{
    proof { lemma_value_end_bounds(chars@, start as int, 0, false, false); }
    let mut depth: i32 = 0;
    let mut in_string = false;
    let mut escaped = false;
    let mut i = start;
    while i < chars.len()
        invariant
            start <= i,
            !in_string ==> !escaped,
            value_end(chars@, start as int, 0, false, false) == value_end(chars@, i as int, depth, in_string, escaped),
        decreases chars.len() - i,
    {
        let b = chars[i];
        if in_string {
            if escaped {
                escaped = false;
            } else if b == '\\' {
                escaped = true;
            } else if b == '"' {
                in_string = false;
            }
        } else if b == '"' {
            in_string = true;
        } else if b == '{' || b == '[' {
            depth = depth.wrapping_add(1);
        } else if b == '}' || b == ']' {
            depth = depth.wrapping_sub(1);
            if depth == 0 {
                return Some(i + 1);
            }
        }
        i = i + 1;
    }
    None
}

/// The call an envelope value describes, numbered `index`: it needs a string
/// `tool`; missing `args` read as `{}`.
pub open spec fn envelope_call(v: Json, index: nat) -> Option<CallModel> {
    match member(v, "tool"@) {
        Some(Json::Str(name)) => Some(CallModel {
            id: decimal(index),
            name,
            arguments: match member(v, "args"@) {
                Some(a) => a,
                None => Json::Object(Seq::empty()),
            },
        }),
        _ => None,
    }
}

/// The calls of an array of envelopes, each numbered by its place among the
/// calls found.
pub open spec fn envelope_array_calls(items: Seq<Json>) -> Seq<CallModel>
    decreases items.len(),
{
    if items.len() == 0 {
        Seq::empty()
    } else {
        let rest = envelope_array_calls(items.drop_last());
        match envelope_call(items.last(), rest.len()) {
            Some(c) => rest.push(c),
            None => rest,
        }
    }
}

/// The calls in the first top-level JSON value of a text.
pub open spec fn text_calls(t: Seq<char>) -> Seq<CallModel> {
    let s = first_of(t, '{', '[');
    if s >= t.len() {
        Seq::empty()
    } else {
        match value_end(t, s, 0, false, false) {
            None => Seq::empty(),
            Some(e) => match json_parse(t.subrange(s, e)) {
                Some(Json::Array(items)) => envelope_array_calls(items),
                Some(v) => if v is Object {
                    match envelope_call(v, 0) {
                        Some(c) => seq![c],
                        None => Seq::empty(),
                    }
                } else {
                    Seq::empty()
                },
                None => Seq::empty(),
            },
        }
    }
}

/// The call an envelope value describes, numbered `index`.
pub fn call_from_value(v: &JsonValue, index: usize) -> (r: Option<ToolCall>)
    ensures
        match envelope_call(v@, index as nat) {
            Some(c) => r matches Some(x) && x@ == c,
            None => r is None,
        },
{
    let name = match v.get("tool") {
        Some(t) => match t.as_str() {
            Some(n) => n.clone(),
            None => return None,
        },
        None => return None,
    };
    let arguments = match v.get("args") {
        Some(a) => a.deep_clone(),
        None => JsonValue::empty_object(),
    };
    let mut id = String::new();
    push_decimal(&mut id, index as u64);
    Some(ToolCall { id, name, arguments })
}

/// The tool calls in the first top-level JSON value of `text`: one envelope
/// object `{"tool": ..., "args": ...}` gives one call, an array of envelopes
/// gives one per envelope. Prose before the value is allowed; anything after
/// it is dropped. Each call's id is its position in the result.
pub fn extract_tool_calls(text: &str) -> (r: Vec<ToolCall>)
    ensures
        call_models(r@) == text_calls(text@),
{
    let t = chars_of(text);
    let start = find_either(&t, 0, t.len(), '{', '[');
    proof { assert(t@.subrange(0, t@.len() as int) == t@); }
    if start == t.len() {
        let none: Vec<ToolCall> = Vec::new();
        assert(call_models(none@) =~= Seq::<CallModel>::empty());
        return none;
    }
    let end = match balanced_end(t.as_slice(), start) {
        Some(e) => e,
        None => {
            let none: Vec<ToolCall> = Vec::new();
            assert(call_models(none@) =~= Seq::<CallModel>::empty());
            return none;
        },
    };
    proof { lemma_value_end_bounds(t@, start as int, 0, false, false); }
    let mut candidate = String::new();
    push_range(&mut candidate, &t, start, end);
    let value = match parse_json(candidate.as_str()) {
        Ok(v) => v,
        Err(_) => {
            let none: Vec<ToolCall> = Vec::new();
            assert(call_models(none@) =~= Seq::<CallModel>::empty());
            return none;
        },
    };
    let mut calls: Vec<ToolCall> = Vec::new();
    match &value {
        JsonValue::Array(items) => {
            let ghost ms = JsonValue::models(items@);
            proof { crate::json::lemma_models_index(items@); }
            let mut i: usize = 0;
            while i < items.len()
                invariant
                    i <= items.len(),
                    ms == JsonValue::models(items@),
                    ms.len() == items@.len(),
                    forall|k: int| 0 <= k < items@.len() ==> #[trigger] ms[k] == items@[k]@,
                    call_models(calls@) == envelope_array_calls(ms.subrange(0, i as int)),
                decreases items.len() - i,
            {
                proof {
                    let sub = ms.subrange(0, i + 1);
                    assert(sub.drop_last() == ms.subrange(0, i as int));
                }
                let n = calls.len();
                match call_from_value(&items[i], n) {
                    Some(c) => {
                        calls.push(c);
                        assert(call_models(calls@) =~= envelope_array_calls(ms.subrange(0, i + 1)));
                    },
                    None => {},
                }
                i = i + 1;
            }
            proof { assert(ms.subrange(0, items@.len() as int) == ms); }
        },
        JsonValue::Object(_) => {
            match call_from_value(&value, 0) {
                Some(c) => {
                    calls.push(c);
                },
                None => {},
            }
            assert(call_models(calls@) =~= text_calls(text@));
        },
        _ => {
            assert(call_models(calls@) =~= Seq::<CallModel>::empty());
        },
    }
    calls
}

/// Whether the first top-level JSON value of a text closes within it.
pub open spec fn first_value_closes(t: Seq<char>) -> bool {
    let s = first_of(t, '{', '[');
    s < t.len() && value_end(t, s, 0, false, false) is Some
}

proof fn lemma_envelope_ids(items: Seq<Json>)
    ensures
        forall|i: int| 0 <= i < envelope_array_calls(items).len() ==> #[trigger] envelope_array_calls(items)[i].id == decimal(i as nat),
    decreases items.len(),
{
    if items.len() > 0 {
        lemma_envelope_ids(items.drop_last());
    }
}

proof fn lemma_first_of_extend(t: Seq<char>, u: Seq<char>, a: char, b: char)
    requires
        first_of(t, a, b) < t.len(),
    ensures
        first_of(t + u, a, b) == first_of(t, a, b),
    decreases t.len(),
{
    if t[0] != a && t[0] != b {
        lemma_first_of_extend(t.drop_first(), u, a, b);
        assert((t + u).drop_first() =~= t.drop_first() + u);
    }
}

proof fn lemma_value_end_extend(t: Seq<char>, u: Seq<char>, j: int, depth: i32, in_string: bool, escaped: bool)
    requires
        value_end(t, j, depth, in_string, escaped) is Some,
    ensures
        value_end(t + u, j, depth, in_string, escaped) == value_end(t, j, depth, in_string, escaped),
    decreases t.len() - j,
{
    let tu = t + u;
    assert(tu[j] == t[j]);
    let b = t[j];
    if in_string {
        if escaped {
            lemma_value_end_extend(t, u, j + 1, depth, true, false);
        } else if b == '\\' {
            lemma_value_end_extend(t, u, j + 1, depth, true, true);
        } else if b == '"' {
            lemma_value_end_extend(t, u, j + 1, depth, false, false);
        } else {
            lemma_value_end_extend(t, u, j + 1, depth, true, false);
        }
    } else if b == '"' {
        lemma_value_end_extend(t, u, j + 1, depth, true, false);
    } else if b == '{' || b == '[' {
        lemma_value_end_extend(t, u, j + 1, vstd::wrapping::i32_specs::wrapping_add(depth, 1), false, false);
    } else if b == '}' || b == ']' {
        let d = vstd::wrapping::i32_specs::wrapping_sub(depth, 1);
        if d != 0 {
            lemma_value_end_extend(t, u, j + 1, d, false, false);
        }
    } else {
        lemma_value_end_extend(t, u, j + 1, depth, false, false);
    }
}

/// Each call read from a text is numbered by its position among the calls.
pub proof fn law_call_ids_are_positions(t: Seq<char>)
    ensures
        forall|i: int| 0 <= i < text_calls(t).len() ==> #[trigger] text_calls(t)[i].id == decimal(i as nat),
{
    let s = first_of(t, '{', '[');
    if s < t.len() {
        if let Some(e) = value_end(t, s, 0, false, false) {
            if let Some(Json::Array(items)) = json_parse(t.subrange(s, e)) {
                lemma_envelope_ids(items);
            }
        }
    }
}

/// Once the first JSON value of a text has closed, whatever follows it does
/// not change the calls read.
pub proof fn law_text_after_first_value_is_dropped(t: Seq<char>, u: Seq<char>)
    requires
        first_value_closes(t),
    ensures
        text_calls(t + u) == text_calls(t),
{
    let s = first_of(t, '{', '[');
    lemma_first_of_extend(t, u, '{', '[');
    lemma_value_end_extend(t, u, s, 0, false, false);
    lemma_value_end_bounds(t, s, 0, false, false);
    let e = value_end(t, s, 0, false, false).unwrap();
    assert((t + u).subrange(s, e) =~= t.subrange(s, e));
}

} // verus!
