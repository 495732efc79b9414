//! Regex patterns matching a schema's JSON encoding (vLLM, Outlines).
use vstd::prelude::*;

use crate::json::{json_render, render_json};
use crate::schema::gbnf::{all_unit, all_unit_exec};
use crate::schema::kind::{
    lemma_field_models, lemma_field_models_push, lemma_variant_models, lemma_variant_models_push, Field,
    Schema, SchemaField, SchemaKind, SchemaVariant, Variant,
};
use crate::text::{append_joined, join};

verus! {

broadcast use vstd::std_specs::vec::group_vec_axioms;

/// The characters that `regex::escape` prefixes with a backslash.
pub open spec fn is_meta(c: char) -> bool {
    c == '\\' || c == '.' || c == '+' || c == '*' || c == '?' || c == '(' || c == ')' || c == '|'
        || c == '[' || c == ']' || c == '{' || c == '}' || c == '^' || c == '$' || c == '#' || c == '&'
        || c == '-' || c == '~'
}

/// `text` with every meta character preceded by a backslash.
pub open spec fn regex_escape(text: Seq<char>) -> Seq<char>
    decreases text.len(),
{
    if text.len() == 0 {
        Seq::empty()
    } else {
        regex_escape(text.drop_last()) + if is_meta(text.last()) {
            seq!['\\', text.last()]
        } else {
            seq![text.last()]
        }
    }
}

/// `regex::escape`: the text with each regex meta character
/// (`\ . + * ? ( ) | [ ] { } ^ $ # & - ~`) preceded by a backslash, as
/// `regex_syntax::escape_into` does character by character.
#[verifier::external_body]
fn escape(text: &str) -> (r: String)
    ensures
        r@ == regex_escape(text@),
{
    regex::escape(text)
}

pub open spec fn number_regex() -> Seq<char> {
    r#"-?(?:0|[1-9]\d*)(?:\.\d+)?(?:[eE][+-]?\d+)?"#@
}

/// The regex of a schema.
pub open spec fn regex(s: Schema) -> Seq<char>
    decreases s,
{
    match s {
        Schema::String => r#""[^"]*""#@,
        Schema::Number => number_regex(),
        Schema::Integer => r#"-?(?:0|[1-9]\d*)"#@,
        Schema::Boolean => r#"(?:true|false)"#@,
        Schema::Any => r#"(?:null|true|false|-?(?:0|[1-9]\d*)(?:\.\d+)?(?:[eE][+-]?\d+)?|"[^"]*"|\[[^\]]*\]|\{[^}]*\})"#@,
        Schema::Literal(v) => regex_escape(json_render(v)),
        Schema::Array(items) => {
            let item = regex(*items);
            r#"\[\s*(?:"#@ + item + r#"(?:\s*,\s*"#@ + item + r#")*)?\s*\]"#@
        },
        Schema::Optional(inner) => r#"(?:null|"#@ + regex(*inner) + ")"@,
        Schema::MapOf(values) => {
            let v = regex(*values);
            r#"\{\s*(?:"[^"]*"\s*:\s*"#@ + v + r#"(?:\s*,\s*"[^"]*"\s*:\s*"#@ + v + r#")*)?\s*\}"#@
        },
        Schema::Object(fields) => if fields.len() == 0 {
            r#"\{\s*\}"#@
        } else {
            r#"\{\s*"#@ + regex_pairs(fields) + r#"\s*\}"#@
        },
        Schema::Enum(variants) => if all_unit(variants) {
            "(?:"@ + join(variants.map_values(|v: Variant| "\""@ + regex_escape(v.name) + "\""@), "|"@) + ")"@
        } else {
            "(?:"@ + regex_options(variants) + ")"@
        },
    }
}

/// `"name"\s*:\s*value` for one field.
pub open spec fn regex_pair(name: Seq<char>, value: Seq<char>) -> Seq<char> {
    "\""@ + regex_escape(name) + r#""\s*:\s*"#@ + value
}

/// The field pairs of an object joined by `\s*,\s*`.
pub open spec fn regex_pairs(fields: Seq<Field>) -> Seq<char>
    decreases fields,
{
    if fields.len() == 0 {
        Seq::empty()
    } else if fields.len() == 1 {
        regex_pair(fields[0].name, regex(fields[0].schema))
    } else {
        regex_pairs(fields.subrange(0, fields.len() - 1)) + r#"\s*,\s*"#@ + regex_pair(
            fields[fields.len() - 1].name,
            regex(fields[fields.len() - 1].schema),
        )
    }
}

/// The tagged-union alternative of one variant.
pub open spec fn regex_variant(v: Variant) -> Seq<char>
    decreases v,
{
    let head = r#"\{\s*"type"\s*:\s*""#@ + regex_escape(v.name) + "\""@;
    match v.data {
        None => head + r#"\s*\}"#@,
        Some(Schema::Object(fields)) => if fields.len() == 0 {
            head + r#"\s*\}"#@
        } else {
            head + r#"\s*,\s*"#@ + regex_pairs(fields) + r#"\s*\}"#@
        },
        Some(data) => head + r#"\s*,\s*"data"\s*:\s*"#@ + regex(data) + r#"\s*\}"#@,
    }
}

/// The alternatives of a tagged union, joined by `|`.
pub open spec fn regex_options(variants: Seq<Variant>) -> Seq<char>
    decreases variants,
{
    if variants.len() == 0 {
        Seq::empty()
    } else if variants.len() == 1 {
        regex_variant(variants[0])
    } else {
        regex_options(variants.subrange(0, variants.len() - 1)) + "|"@ + regex_variant(
            variants[variants.len() - 1],
        )
    }
}

impl SchemaKind {
    /// Regex pattern matching this schema's JSON encoding.
    pub fn to_regex(&self) -> (r: String)
        ensures
            r@ == regex(self@),
        decreases self,
    {
        match self {
            SchemaKind::String => r#""[^"]*""#.to_owned(),
            SchemaKind::Number => r#"-?(?:0|[1-9]\d*)(?:\.\d+)?(?:[eE][+-]?\d+)?"#.to_owned(),
            SchemaKind::Integer => r#"-?(?:0|[1-9]\d*)"#.to_owned(),
            SchemaKind::Boolean => r#"(?:true|false)"#.to_owned(),
            SchemaKind::Any => r#"(?:null|true|false|-?(?:0|[1-9]\d*)(?:\.\d+)?(?:[eE][+-]?\d+)?|"[^"]*"|\[[^\]]*\]|\{[^}]*\})"#.to_owned(),
            SchemaKind::Literal { value } => escape(render_json(value).as_str()),
            SchemaKind::Array { items } => {
                let item = items.to_regex();
                let mut out = r#"\[\s*(?:"#.to_owned();
                out.append(item.as_str());
                out.append(r#"(?:\s*,\s*"#);
                out.append(item.as_str());
                out.append(r#")*)?\s*\]"#);
                out
            },
            SchemaKind::Optional { inner } => {
                let mut out = r#"(?:null|"#.to_owned();
                out.append(inner.to_regex().as_str());
                out.append(")");
                out
            },
            SchemaKind::MapOf { values } => {
                let v = values.to_regex();
                let mut out = r#"\{\s*(?:"[^"]*"\s*:\s*"#.to_owned();
                out.append(v.as_str());
                out.append(r#"(?:\s*,\s*"[^"]*"\s*:\s*"#);
                out.append(v.as_str());
                out.append(r#")*)?\s*\}"#);
                out
            },
            SchemaKind::Object { fields } => {
                proof { lemma_field_models(fields@); }
                if fields.len() == 0 {
                    r#"\{\s*\}"#.to_owned()
                } else {
                    let mut out = r#"\{\s*"#.to_owned();
                    out.append(pairs_regex(fields).as_str());
                    out.append(r#"\s*\}"#);
                    out
                }
            },
            SchemaKind::Enum { variants } => {
                let mut out = "(?:".to_owned();
                if all_unit_exec(variants) {
                    out.append(unit_options_regex(variants).as_str());
                } else {
                    out.append(variants_regex(variants).as_str());
                }
                out.append(")");
                out
            },
        }
    }
}

/// The field pairs of an object joined by `\s*,\s*`.
fn pairs_regex(fields: &Vec<SchemaField>) -> (r: String)
    ensures
        r@ == regex_pairs(SchemaKind::field_models(fields@)),
    decreases fields,
{
    let mut out = String::new();
    let mut i: usize = 0;
    while i < fields.len()
        invariant
            i <= fields.len(),
            out@ == regex_pairs(SchemaKind::field_models(fields@.subrange(0, i as int))),
        decreases fields.len() - i,
    {
        proof {
            assert(decreases_to!(fields => fields@));
            assert(decreases_to!(fields@ => fields@[i as int]));
        }
        let f = &fields[i];
        let g = f.schema.to_regex();
        if i > 0 {
            out.append(r#"\s*,\s*"#);
        }
        out.append("\"");
        out.append(escape(f.name.as_str()).as_str());
        out.append(r#""\s*:\s*"#);
        out.append(g.as_str());
        proof {
            let ms = SchemaKind::field_models(fields@.subrange(0, i as int));
            lemma_field_models_push(fields@.subrange(0, i as int), fields@[i as int]);
            assert(fields@.subrange(0, i as int).push(fields@[i as int]) == fields@.subrange(0, i + 1));
            assert(ms.push(fields@[i as int]@).subrange(0, ms.len() as int) == ms);
            lemma_field_models(fields@.subrange(0, i as int));
        }
        i = i + 1;
    }
    proof { assert(fields@.subrange(0, fields@.len() as int) == fields@); }
    out
}

/// The quoted, escaped names of unit variants, joined by `|`.
fn unit_options_regex(variants: &Vec<SchemaVariant>) -> (r: String)
    ensures
        r@ == join(
            SchemaKind::variant_models(variants@).map_values(|v: Variant| "\""@ + regex_escape(v.name) + "\""@),
            "|"@,
        ),
{
    proof { lemma_variant_models(variants@); }
    let ghost vm = SchemaKind::variant_models(variants@);
    let mut parts: Vec<String> = Vec::new();
    let mut i: usize = 0;
    while i < variants.len()
        invariant
            i <= variants.len(),
            vm == SchemaKind::variant_models(variants@),
            vm.len() == variants.len(),
            forall|k: int| 0 <= k < variants.len() ==> #[trigger] vm[k] == variants@[k]@,
            parts@.len() == i,
            forall|k: int| 0 <= k < i ==> #[trigger] parts@[k]@ == "\""@ + regex_escape(vm[k].name) + "\""@,
        decreases variants.len() - i,
    {
        let mut p = "\"".to_owned();
        p.append(escape(variants[i].name.as_str()).as_str());
        p.append("\"");
        parts.push(p);
        i = i + 1;
    }
    let mut out = String::new();
    append_joined(&mut out, &parts, "|");
    proof {
        assert(parts@.map_values(|p: String| p@) == vm.map_values(|v: Variant| "\""@ + regex_escape(v.name) + "\""@));
    }
    out
}

/// The tagged-union alternative of one variant.
fn variant_regex(v: &SchemaVariant) -> (r: String)
    ensures
        r@ == regex_variant(v@),
    decreases v,
{
    let mut out = r#"\{\s*"type"\s*:\s*""#.to_owned();
    out.append(escape(v.name.as_str()).as_str());
    out.append("\"");
    match &v.data {
        None => {
            out.append(r#"\s*\}"#);
        },
        Some(data) => {
            match data {
                SchemaKind::Object { fields } => {
                    proof { lemma_field_models(fields@); }
                    if fields.len() == 0 {
                        out.append(r#"\s*\}"#);
                    } else {
                        out.append(r#"\s*,\s*"#);
                        out.append(pairs_regex(fields).as_str());
                        out.append(r#"\s*\}"#);
                    }
                },
                _ => {
                    out.append(r#"\s*,\s*"data"\s*:\s*"#);
                    out.append(data.to_regex().as_str());
                    out.append(r#"\s*\}"#);
                },
            }
        },
    }
    out
}

/// The alternatives of a tagged union, joined by `|`.
fn variants_regex(variants: &Vec<SchemaVariant>) -> (r: String)
    ensures
        r@ == regex_options(SchemaKind::variant_models(variants@)),
    decreases variants,
{
    let mut out = String::new();
    let mut i: usize = 0;
    while i < variants.len()
        invariant
            i <= variants.len(),
            out@ == regex_options(SchemaKind::variant_models(variants@.subrange(0, i as int))),
        decreases variants.len() - i,
    {
        proof {
            assert(decreases_to!(variants => variants@));
            assert(decreases_to!(variants@ => variants@[i as int]));
        }
        let g = variant_regex(&variants[i]);
        if i > 0 {
            out.append("|");
        }
        out.append(g.as_str());
        proof {
            let ms = SchemaKind::variant_models(variants@.subrange(0, i as int));
            lemma_variant_models_push(variants@.subrange(0, i as int), variants@[i as int]);
            assert(variants@.subrange(0, i as int).push(variants@[i as int]) == variants@.subrange(0, i + 1));
            assert(ms.push(variants@[i as int]@).subrange(0, ms.len() as int) == ms);
            lemma_variant_models(variants@.subrange(0, i as int));
        }
        i = i + 1;
    }
    proof { assert(variants@.subrange(0, variants@.len() as int) == variants@); }
    out
}

} // verus!
