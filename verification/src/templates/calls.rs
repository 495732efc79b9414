//! Reading `{"tool": "<name>", "args": {...}}` calls out of raw model output.
use vstd::prelude::*;

use crate::agent::{CallModel, ToolCall};
use crate::json::{json_parse, lookup, parse_json, Json, JsonValue};
use crate::templates::scan::{blocks_from, extract_balanced_objects};
use crate::text::{chars_of, decimal, push_decimal, push_range, str_eq};

verus! {

broadcast use vstd::std_specs::vec::group_vec_axioms;

/// The source of call ids: `call_0`, `call_1`, ... Its owner keeps one for
/// the whole process so that ids stay distinct across outputs.
pub struct CallIds {
    pub next: u64,
}

/// The id numbered `n`.
pub open spec fn call_id_text(n: u64) -> Seq<char> {
    "call_"@ + decimal(n as nat)
}

impl CallIds {
    pub fn new() -> (r: Self)
        ensures
            r.next == 0,
    {
        CallIds { next: 0 }
    }
}

/// The next call id; the counter wraps after `u64::MAX`.
pub fn next_call_id(ids: &mut CallIds) -> (r: String)
    ensures
        r@ == call_id_text(old(ids).next),
        final(ids).next == old(ids).next.wrapping_add(1),
{
    let n = ids.next;
    ids.next = n.wrapping_add(1);
    let mut s = String::from_str("call_");
    push_decimal(&mut s, n);
    s
}

/// The name and arguments of a JSON value in the tool-call shape: an object
/// whose `tool` is a string and which has `args`.
pub open spec fn call_shape(v: Json) -> Option<(Seq<char>, Json)> {
    match v {
        Json::Object(es) => match (lookup(es, "tool"@), lookup(es, "args"@)) {
            (Some(Json::Str(name)), Some(args)) => Some((name, args)),
            _ => None,
        },
        _ => None,
    }
}

/// The raw key strings (quotes included) of the top-level members of an
/// object text, scanned from `j`: `depth` counts open brackets, `in_str` and
/// `esc` track strings and escapes, `key_start` is where the string being
/// read began when it is a top-level key (`-1` otherwise), and `expect`
/// says a key may come next (after the opening brace or a top-level comma,
/// white space aside).
pub open spec fn keys_from(t: Seq<char>, j: int, depth: nat, in_str: bool, esc: bool, key_start: int, expect: bool) -> Seq<Seq<char>>
    decreases t.len() - j,
{
    if j < 0 || j >= t.len() {
        Seq::empty()
    } else {
        let c = t[j];
        if in_str {
            if esc {
                keys_from(t, j + 1, depth, true, false, key_start, expect)
            } else if c == '\\' {
                keys_from(t, j + 1, depth, true, true, key_start, expect)
            } else if c == '"' {
                if key_start >= 0 {
                    seq![t.subrange(key_start, j + 1)] + keys_from(t, j + 1, depth, false, false, -1, false)
                } else {
                    keys_from(t, j + 1, depth, false, false, -1, false)
                }
            } else {
                keys_from(t, j + 1, depth, true, false, key_start, expect)
            }
        } else if c == '"' {
            keys_from(t, j + 1, depth, true, false, if depth == 1 && expect { j } else { -1 }, false)
        } else if c == '{' || c == '[' {
            keys_from(t, j + 1, depth + 1, false, false, -1, depth == 0 && c == '{')
        } else if c == '}' || c == ']' {
            keys_from(t, j + 1, if depth > 0 { (depth - 1) as nat } else { 0 }, false, false, -1, false)
        } else if c == ',' {
            keys_from(t, j + 1, depth, false, false, -1, depth == 1)
        } else if c == ' ' || c == '\t' || c == '\n' || c == '\r' {
            keys_from(t, j + 1, depth, false, false, -1, expect)
        } else {
            keys_from(t, j + 1, depth, false, false, -1, false)
        }
    }
}

/// The raw key strings of the top-level members of an object text.
pub open spec fn top_keys(t: Seq<char>) -> Seq<Seq<char>> {
    keys_from(t, 0, 0, false, false, -1, false)
}

/// How many of the raw key strings read as the string `name`.
pub open spec fn named_count(keys: Seq<Seq<char>>, name: Seq<char>) -> nat
    decreases keys.len(),
{
    if keys.len() == 0 {
        0
    } else {
        named_count(keys.drop_last(), name) + if json_parse(keys.last()) == Some(Json::Str(name)) { 1nat } else { 0nat }
    }
}

/// Whether an object text names `tool` or `args` more than once; such a
/// text is no call, as a struct with those two fields refuses it.
pub open spec fn repeats_call_field(t: Seq<char>) -> bool {
    named_count(top_keys(t), "tool"@) > 1 || named_count(top_keys(t), "args"@) > 1
}

fn top_level_keys(cs: &Vec<char>) -> (r: Vec<String>)
    ensures
        r@.map_values(|s: String| s@) == top_keys(cs@),
{
    let mut r: Vec<String> = Vec::new();
    let mut depth: usize = 0;
    let mut in_str = false;
    let mut esc = false;
    let mut key_start: usize = 0;
    let mut is_key = false;
    let mut expect = false;
    let mut i: usize = 0;
    while i < cs.len()
        invariant
            i <= cs.len(),
            depth <= i,
            is_key ==> key_start < i,
            !in_str ==> !is_key && !esc,
            r@.map_values(|s: String| s@) + keys_from(cs@, i as int, depth as nat, in_str, esc, if is_key { key_start as int } else { -1 }, expect)
                == top_keys(cs@),
        decreases cs.len() - i,
    {
        let ghost before = r@.map_values(|s: String| s@);
        let ghost ks = if is_key { key_start as int } else { -1 };
        let c = cs[i];
        if in_str {
            if esc {
                esc = false;
            } else if c == '\\' {
                esc = true;
            } else if c == '"' {
                in_str = false;
                if is_key {
                    let mut k = String::new();
                    push_range(&mut k, cs, key_start, i + 1);
                    r.push(k);
                    proof {
                        assert(r@.map_values(|s: String| s@) =~= before.push(cs@.subrange(ks, i + 1)));
                        let rest = keys_from(cs@, i + 1, depth as nat, false, false, -1, false);
                        assert(before.push(cs@.subrange(ks, i + 1)) + rest =~= before + (seq![cs@.subrange(ks, i + 1)] + rest));
                    }
                }
                is_key = false;
                expect = false;
            }
        } else if c == '"' {
            in_str = true;
            is_key = depth == 1 && expect;
            key_start = i;
            expect = false;
        } else if c == '{' || c == '[' {
            expect = depth == 0 && c == '{';
            depth = depth + 1;
        } else if c == '}' || c == ']' {
            if depth > 0 {
                depth = depth - 1;
            }
            expect = false;
        } else if c == ',' {
            expect = depth == 1;
        } else if c == ' ' || c == '\t' || c == '\n' || c == '\r' {
        } else {
            expect = false;
        }
        i = i + 1;
    }
    r
}

/// Whether the object text `text` names `tool` or `args` more than once.
fn repeats_field(text: &str) -> (r: bool)
    ensures
        r == repeats_call_field(text@),
{
    let cs = chars_of(text);
    let keys = top_level_keys(&cs);
    let ghost ks = keys@.map_values(|s: String| s@);
    let mut tools: usize = 0;
    let mut argss: usize = 0;
    let mut i: usize = 0;
    while i < keys.len()
        invariant
            i <= keys.len(),
            ks == keys@.map_values(|s: String| s@),
            tools == named_count(ks.subrange(0, i as int), "tool"@),
            argss == named_count(ks.subrange(0, i as int), "args"@),
            tools <= i,
            argss <= i,
        decreases keys.len() - i,
    {
        proof {
            let sub = ks.subrange(0, i + 1);
            assert(sub.drop_last() == ks.subrange(0, i as int));
            assert(sub.last() == keys@[i as int]@);
            reveal_strlit("tool");
            reveal_strlit("args");
            assert("tool"@[0] != "args"@[0]);
        }
        match parse_json(keys[i].as_str()) {
            Ok(JsonValue::String(name)) => {
                if str_eq(name.as_str(), "tool") {
                    tools = tools + 1;
                } else if str_eq(name.as_str(), "args") {
                    argss = argss + 1;
                }
            },
            _ => {},
        }
        i = i + 1;
    }
    proof { assert(ks.subrange(0, keys@.len() as int) == ks); }
    tools > 1 || argss > 1
}

/// The tool calls among candidate texts, in order: each that parses as JSON
/// in the tool-call shape, naming `tool` and `args` once each.
pub open spec fn shaped_calls(cands: Seq<Seq<char>>) -> Seq<(Seq<char>, Json)>
    decreases cands.len(),
{
    if cands.len() == 0 {
        Seq::empty()
    } else {
        let rest = shaped_calls(cands.drop_last());
        match json_parse(cands.last()) {
            Some(v) => match call_shape(v) {
                Some(c) => if repeats_call_field(cands.last()) { rest } else { rest.push(c) },
                None => rest,
            },
            None => rest,
        }
    }
}

/// The `k`-th of the calls found, numbered from `first`.
pub open spec fn numbered_call(c: (Seq<char>, Json), first: u64, k: int) -> CallModel {
    CallModel { id: call_id_text(((first + k) % 0x1_0000_0000_0000_0000) as u64), name: c.0, arguments: c.1 }
}

/// The name and arguments of a parsed value in the tool-call shape.
pub fn shape_of(v: &JsonValue) -> (r: Option<(String, JsonValue)>)
    ensures
        match call_shape(v@) {
            Some(c) => r matches Some(x) && x.0@ == c.0 && x.1@ == c.1,
            None => r is None,
        },
{
    match v {
        JsonValue::Object(_) => {
            let tool = v.get("tool");
            let args = v.get("args");
            match (tool, args) {
                (Some(JsonValue::String(name)), Some(a)) => Some((name.clone(), a.deep_clone())),
                _ => None,
            }
        },
        _ => None,
    }
}

/// Every `{"tool": "<name>", "args": ...}` block of a model's output, as a
/// call; other blocks and text are skipped. Ids come from `ids`, in order.
pub fn parse_tool_calls(model_output: &str, ids: &mut CallIds) -> (r: Vec<ToolCall>)
    ensures
        ({
            let calls = shaped_calls(blocks_from(model_output@, 0));
            &&& r@.len() == calls.len()
            &&& forall|k: int| 0 <= k < calls.len() ==> #[trigger] r@[k]@ == numbered_call(calls[k], old(ids).next, k)
            &&& final(ids).next == ((old(ids).next + calls.len()) % 0x1_0000_0000_0000_0000) as u64
        }),
{
    let cands = extract_balanced_objects(model_output);
    let ghost cs = cands@.map_values(|s: String| s@);
    let ghost first = ids.next;
    let mut calls: Vec<ToolCall> = Vec::new();
    let mut i: usize = 0;
    while i < cands.len()
        invariant
            i <= cands.len(),
            cs == cands@.map_values(|s: String| s@),
            ({
                let found = shaped_calls(cs.subrange(0, i as int));
                &&& calls@.len() == found.len()
                &&& forall|k: int| 0 <= k < found.len() ==> #[trigger] calls@[k]@ == numbered_call(found[k], first, k)
                &&& ids.next == ((first + found.len()) % 0x1_0000_0000_0000_0000) as u64
            }),
        decreases cands.len() - i,
    {
        proof {
            let sub = cs.subrange(0, i + 1);
            assert(sub.drop_last() == cs.subrange(0, i as int));
            assert(sub.last() == cands@[i as int]@);
        }
        match parse_json(cands[i].as_str()) {
            Ok(v) => {
                match shape_of(&v) {
                    Some((name, arguments)) if !repeats_field(cands[i].as_str()) => {
                        let ghost before = calls@;
                        let id = next_call_id(ids);
                        calls.push(ToolCall { id, name, arguments });
                        proof {
                            let found = shaped_calls(cs.subrange(0, i + 1));
                            assert forall|k: int| 0 <= k < found.len() implies #[trigger] calls@[k]@ == numbered_call(found[k], first, k) by {
                                if k < found.len() - 1 {
                                    assert(calls@[k] == before[k]);
                                }
                            }
                        }
                    },
                    _ => {},
                }
            },
            Err(_) => {},
        }
        i = i + 1;
    }
    proof { assert(cs.subrange(0, cands@.len() as int) == cs); }
    calls
}

} // verus!
