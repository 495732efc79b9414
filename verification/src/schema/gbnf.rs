//! GBNF grammar fragments for llama.cpp constrained decoding.
//!
//! Primitives reference the standard rule names (`string`, `number`,
//! `integer`, `value`, `ws`); a full grammar that defines them wraps the
//! result.
use vstd::prelude::*;

use crate::json::{json_render, render_json};
use crate::schema::kind::{
    lemma_field_models, lemma_field_models_push, lemma_variant_models, lemma_variant_models_push, Field,
    Schema, SchemaField, SchemaKind, SchemaVariant, Variant,
};
use crate::text::{append_joined, join, push_char};

verus! {

broadcast use vstd::std_specs::vec::group_vec_axioms;

/// `text` with each `"` preceded by a backslash.
pub open spec fn escape_quotes(text: Seq<char>) -> Seq<char>
    decreases text.len(),
{
    if text.len() == 0 {
        Seq::empty()
    } else {
        escape_quotes(text.drop_last()) + if text.last() == '"' {
            seq!['\\', '"']
        } else {
            seq![text.last()]
        }
    }
}

/// The GBNF fragment of a schema.
pub open spec fn gbnf(s: Schema) -> Seq<char>
    decreases s,
{
    match s {
        Schema::String => "string"@,
        Schema::Number => "number"@,
        Schema::Integer => "integer"@,
        Schema::Boolean => "(\"true\" | \"false\")"@,
        Schema::Any => "value"@,
        Schema::Literal(v) => "\""@ + escape_quotes(json_render(v)) + "\""@,
        Schema::Array(items) => {
            let item = gbnf(*items);
            "\"[\" ws ("@ + item + " (\",\" ws "@ + item + ")*)? ws \"]\""@
        },
        Schema::Optional(inner) => "("@ + gbnf(*inner) + " | \"null\")"@,
        Schema::MapOf(values) => {
            let v = gbnf(*values);
            "\"{\" ws (string \":\" ws "@ + v + " (\",\" ws string \":\" ws "@ + v + ")*)? ws \"}\""@
        },
        Schema::Object(fields) => if fields.len() == 0 {
            "\"{}\""@
        } else {
            "\"{\" ws "@ + gbnf_fields(fields) + " ws \"}\""@
        },
        Schema::Enum(variants) => if all_unit(variants) {
            "("@ + gbnf_unit_options(variants) + ")"@
        } else {
            "("@ + gbnf_variant_options(variants) + ")"@
        },
    }
}

/// The rule of one field: its quoted key, `ws`, and its value's fragment.
pub open spec fn gbnf_field(name: Seq<char>, value: Seq<char>) -> Seq<char> {
    "\"\\\""@ + name + "\\\":\" ws "@ + value
}

/// The field rules of an object joined by `"," ws`.
pub open spec fn gbnf_fields(fields: Seq<Field>) -> Seq<char>
    decreases fields,
{
    if fields.len() == 0 {
        Seq::empty()
    } else if fields.len() == 1 {
        gbnf_field(fields[0].name, gbnf(fields[0].schema))
    } else {
        gbnf_fields(fields.subrange(0, fields.len() - 1)) + " \",\" ws "@ + gbnf_field(
            fields[fields.len() - 1].name,
            gbnf(fields[fields.len() - 1].schema),
        )
    }
}

/// `true` when no variant carries data.
pub open spec fn all_unit(variants: Seq<Variant>) -> bool {
    forall|i: int| 0 <= i < variants.len() ==> #[trigger] variants[i].data is None
}

/// The quoted names of unit variants, joined by ` | `.
pub open spec fn gbnf_unit_options(variants: Seq<Variant>) -> Seq<char> {
    join(variants.map_values(|v: Variant| "\"\\\""@ + v.name + "\\\"\""@), " | "@)
}

/// The tagged-union alternative of one variant.
pub open spec fn gbnf_variant(v: Variant) -> Seq<char>
    decreases v,
{
    match v.data {
        None => "\"{\\\"type\\\":\\\""@ + v.name + "\\\"}\""@,
        Some(Schema::Object(fields)) => if fields.len() == 0 {
            "\"{\\\"type\\\":\\\""@ + v.name + "\\\"}\""@
        } else {
            "\"{\\\"type\\\":\\\""@ + v.name + "\\\"\" \",\" ws "@ + gbnf_fields(fields) + " ws \"}\""@
        },
        Some(data) => "\"{\\\"type\\\":\\\""@ + v.name + "\\\"\" \",\" ws \"\\\"data\\\":\" ws "@ + gbnf(data)
            + " ws \"}\""@,
    }
}

/// The alternatives of a tagged union, joined by ` | `.
pub open spec fn gbnf_variant_options(variants: Seq<Variant>) -> Seq<char>
    decreases variants,
{
    if variants.len() == 0 {
        Seq::empty()
    } else if variants.len() == 1 {
        gbnf_variant(variants[0])
    } else {
        gbnf_variant_options(variants.subrange(0, variants.len() - 1)) + " | "@ + gbnf_variant(
            variants[variants.len() - 1],
        )
    }
}

/// Appends `text` to `out`, each `"` preceded by a backslash.
fn append_escaped_quotes(out: &mut String, text: &str)
    ensures
        final(out)@ == old(out)@ + escape_quotes(text@),
{
    let ghost start = out@;
    let mut i: usize = 0;
    let cs = crate::text::chars_of(text);
    while i < cs.len()
        invariant
            i <= cs.len(),
            cs@ == text@,
            out@ == start + escape_quotes(cs@.subrange(0, i as int)),
        decreases cs.len() - i,
    {
        assert(cs@.subrange(0, i + 1).drop_last() == cs@.subrange(0, i as int));
        if cs[i] == '"' {
            push_char(out, '\\');
        }
        push_char(out, cs[i]);
        proof {
            let t = cs@.subrange(0, i + 1);
            assert(t.last() == cs@[i as int]);
            if cs@[i as int] == '"' {
                assert(out@ == start + escape_quotes(cs@.subrange(0, i as int)) + seq!['\\', '"']);
            } else {
                assert(out@ == start + escape_quotes(cs@.subrange(0, i as int)) + seq![cs@[i as int]]);
            }
        }
        i = i + 1;
    }
    proof { assert(cs@.subrange(0, cs@.len() as int) == cs@); }
}

/// `true` when no variant carries data.
pub fn all_unit_exec(variants: &Vec<SchemaVariant>) -> (r: bool)
    ensures
        r == all_unit(SchemaKind::variant_models(variants@)),
{
    proof { lemma_variant_models(variants@); }
    let mut i: usize = 0;
    while i < variants.len()
        invariant
            i <= variants.len(),
            SchemaKind::variant_models(variants@).len() == variants.len(),
            forall|k: int| 0 <= k < variants.len() ==> #[trigger] SchemaKind::variant_models(variants@)[k] == variants@[k]@,
            forall|j: int| 0 <= j < i ==> #[trigger] variants@[j].data is None,
        decreases variants.len() - i,
    {
        if variants[i].data.is_some() {
            assert(SchemaKind::variant_models(variants@)[i as int].data is Some);
            return false;
        }
        i = i + 1;
    }
    proof {
        let vm = SchemaKind::variant_models(variants@);
        assert forall|k: int| 0 <= k < vm.len() implies #[trigger] vm[k].data is None by {
            assert(vm[k] == variants@[k]@);
        }
    }
    true
}

impl SchemaKind {
    /// GBNF grammar fragment for llama.cpp constrained decoding.
    pub fn to_gbnf(&self) -> (r: String)
        ensures
            r@ == gbnf(self@),
        decreases self,
    {
        match self {
            SchemaKind::String => "string".to_owned(),
            SchemaKind::Number => "number".to_owned(),
            SchemaKind::Integer => "integer".to_owned(),
            SchemaKind::Boolean => "(\"true\" | \"false\")".to_owned(),
            SchemaKind::Any => "value".to_owned(),
            SchemaKind::Literal { value } => {
                let text = render_json(value);
                let mut out = "\"".to_owned();
                append_escaped_quotes(&mut out, text.as_str());
                out.append("\"");
                out
            },
            SchemaKind::Array { items } => {
                let item = items.to_gbnf();
                let mut out = "\"[\" ws (".to_owned();
                out.append(item.as_str());
                out.append(" (\",\" ws ");
                out.append(item.as_str());
                out.append(")*)? ws \"]\"");
                out
            },
            SchemaKind::Optional { inner } => {
                let mut out = "(".to_owned();
                out.append(inner.to_gbnf().as_str());
                out.append(" | \"null\")");
                out
            },
            SchemaKind::MapOf { values } => {
                let v = values.to_gbnf();
                let mut out = "\"{\" ws (string \":\" ws ".to_owned();
                out.append(v.as_str());
                out.append(" (\",\" ws string \":\" ws ");
                out.append(v.as_str());
                out.append(")*)? ws \"}\"");
                out
            },
            SchemaKind::Object { fields } => {
                proof { lemma_field_models(fields@); }
                if fields.len() == 0 {
                    "\"{}\"".to_owned()
                } else {
                    let mut out = "\"{\" ws ".to_owned();
                    out.append(fields_gbnf(fields).as_str());
                    out.append(" ws \"}\"");
                    out
                }
            },
            SchemaKind::Enum { variants } => {
                if all_unit_exec(variants) {
                    let mut out = "(".to_owned();
                    out.append(unit_options_gbnf(variants).as_str());
                    out.append(")");
                    out
                } else {
                    let mut out = "(".to_owned();
                    out.append(variants_gbnf(variants).as_str());
                    out.append(")");
                    out
                }
            },
        }
    }
}

/// The field rules of an object joined by `"," ws`.
fn fields_gbnf(fields: &Vec<SchemaField>) -> (r: String)
    ensures
        r@ == gbnf_fields(SchemaKind::field_models(fields@)),
    decreases fields,
{
    let mut out = String::new();
    let mut i: usize = 0;
    while i < fields.len()
        invariant
            i <= fields.len(),
            out@ == gbnf_fields(SchemaKind::field_models(fields@.subrange(0, i as int))),
        decreases fields.len() - i,
    {
        proof {
            assert(decreases_to!(fields => fields@));
            assert(decreases_to!(fields@ => fields@[i as int]));
        }
        let f = &fields[i];
        let g = f.schema.to_gbnf();
        if i > 0 {
            out.append(" \",\" ws ");
        }
        out.append("\"\\\"");
        out.append(f.name.as_str());
        out.append("\\\":\" ws ");
        out.append(g.as_str());
        proof {
            let ms = SchemaKind::field_models(fields@.subrange(0, i as int));
            lemma_field_models_push(fields@.subrange(0, i as int), fields@[i as int]);
            assert(fields@.subrange(0, i as int).push(fields@[i as int]) == fields@.subrange(0, i + 1));
            assert(ms.push(fields@[i as int]@).subrange(0, ms.len() as int) == ms);
            lemma_field_models(fields@.subrange(0, i as int));
        }
        i = i + 1;
    }
    proof { assert(fields@.subrange(0, fields@.len() as int) == fields@); }
    out
}

/// The quoted names of unit variants, joined by ` | `.
fn unit_options_gbnf(variants: &Vec<SchemaVariant>) -> (r: String)
    ensures
        r@ == gbnf_unit_options(SchemaKind::variant_models(variants@)),
{
    proof { lemma_variant_models(variants@); }
    let ghost vm = SchemaKind::variant_models(variants@);
    let mut parts: Vec<String> = Vec::new();
    let mut i: usize = 0;
    while i < variants.len()
        invariant
            i <= variants.len(),
            vm == SchemaKind::variant_models(variants@),
            vm.len() == variants.len(),
            forall|k: int| 0 <= k < variants.len() ==> #[trigger] vm[k] == variants@[k]@,
            parts@.len() == i,
            forall|k: int| 0 <= k < i ==> #[trigger] parts@[k]@ == "\"\\\""@ + vm[k].name + "\\\"\""@,
        decreases variants.len() - i,
    {
        let mut p = "\"\\\"".to_owned();
        p.append(variants[i].name.as_str());
        p.append("\\\"\"");
        parts.push(p);
        i = i + 1;
    }
    let mut out = String::new();
    append_joined(&mut out, &parts, " | ");
    proof {
        assert(parts@.map_values(|p: String| p@) == vm.map_values(|v: Variant| "\"\\\""@ + v.name + "\\\"\""@));
    }
    out
}

/// The tagged-union alternative of one variant.
fn variant_gbnf(v: &SchemaVariant) -> (r: String)
    ensures
        r@ == gbnf_variant(v@),
    decreases v,
{
    let mut out = "\"{\\\"type\\\":\\\"".to_owned();
    out.append(v.name.as_str());
    match &v.data {
        None => {
            out.append("\\\"}\"");
        },
        Some(data) => {
            match data {
                SchemaKind::Object { fields } => {
                    proof { lemma_field_models(fields@); }
                    if fields.len() == 0 {
                        out.append("\\\"}\"");
                    } else {
                        out.append("\\\"\" \",\" ws ");
                        out.append(fields_gbnf(fields).as_str());
                        out.append(" ws \"}\"");
                    }
                },
                _ => {
                    out.append("\\\"\" \",\" ws \"\\\"data\\\":\" ws ");
                    out.append(data.to_gbnf().as_str());
                    out.append(" ws \"}\"");
                },
            }
        },
    }
    out
}

/// The alternatives of a tagged union, joined by ` | `.
fn variants_gbnf(variants: &Vec<SchemaVariant>) -> (r: String)
    ensures
        r@ == gbnf_variant_options(SchemaKind::variant_models(variants@)),
    decreases variants,
{
    let mut out = String::new();
    let mut i: usize = 0;
    while i < variants.len()
        invariant
            i <= variants.len(),
            out@ == gbnf_variant_options(SchemaKind::variant_models(variants@.subrange(0, i as int))),
        decreases variants.len() - i,
    {
        proof {
            assert(decreases_to!(variants => variants@));
            assert(decreases_to!(variants@ => variants@[i as int]));
        }
        let g = variant_gbnf(&variants[i]);
        if i > 0 {
            out.append(" | ");
        }
        out.append(g.as_str());
        proof {
            let ms = SchemaKind::variant_models(variants@.subrange(0, i as int));
            lemma_variant_models_push(variants@.subrange(0, i as int), variants@[i as int]);
            assert(variants@.subrange(0, i as int).push(variants@[i as int]) == variants@.subrange(0, i + 1));
            assert(ms.push(variants@[i as int]@).subrange(0, ms.len() as int) == ms);
            lemma_variant_models(variants@.subrange(0, i as int));
        }
        i = i + 1;
    }
    proof { assert(variants@.subrange(0, variants@.len() as int) == variants@); }
    out
}

} // verus!

verus! {

/// A GBNF expression: a quoted terminal, a rule reference (or any fragment
/// taken as a whole), a sequence, an optional part, or a repetition.
pub enum GExpr {
    Lit(Seq<char>),
    Rule(Seq<char>),
    Cat(Box<GExpr>, Box<GExpr>),
    Opt(Box<GExpr>),
    Star(Box<GExpr>),
}

/// The GBNF text of an expression.
pub open spec fn render(e: GExpr) -> Seq<char>
    decreases e,
{
    match e {
        GExpr::Lit(s) => "\""@ + s + "\""@,
        GExpr::Rule(n) => n,
        GExpr::Cat(a, b) => render(*a) + " "@ + render(*b),
        GExpr::Opt(a) => "("@ + render(*a) + ")?"@,
        GExpr::Star(a) => "("@ + render(*a) + ")*"@,
    }
}

/// A derivation: how a text is split among the parts of an expression.
pub enum Deriv {
    Lit,
    Rule,
    /// The first part derives the text up to the split, the second the rest.
    Cat(nat, Box<Deriv>, Box<Deriv>),
    OptNone,
    OptSome(Box<Deriv>),
    StarEnd,
    /// One more repetition: the text up to the split, then the rest.
    StarMore(nat, Box<Deriv>, Box<Deriv>),
}

/// Whether `d` derives the text `t` from `e`, each rule reference `n`
/// deriving the texts `lang(n, _)` holds of.
pub open spec fn valid(e: GExpr, t: Seq<char>, d: Deriv, lang: spec_fn(Seq<char>, Seq<char>) -> bool) -> bool
    decreases d,
{
    match d {
        Deriv::Lit => e matches GExpr::Lit(s) && t == s,
        Deriv::Rule => e matches GExpr::Rule(n) && lang(n, t),
        Deriv::Cat(i, da, db) => match e {
            GExpr::Cat(a, b) => i <= t.len() && valid(*a, t.subrange(0, i as int), *da, lang)
                && valid(*b, t.subrange(i as int, t.len() as int), *db, lang),
            _ => false,
        },
        Deriv::OptNone => e is Opt && t.len() == 0,
        Deriv::OptSome(da) => match e {
            GExpr::Opt(a) => valid(*a, t, *da, lang),
            _ => false,
        },
        Deriv::StarEnd => e is Star && t.len() == 0,
        Deriv::StarMore(i, da, dr) => match e {
            GExpr::Star(a) => 0 < i <= t.len() && valid(*a, t.subrange(0, i as int), *da, lang)
                && valid(e, t.subrange(i as int, t.len() as int), *dr, lang),
            _ => false,
        },
    }
}

/// Whether `e` derives the text `t`.
pub open spec fn derives(e: GExpr, t: Seq<char>, lang: spec_fn(Seq<char>, Seq<char>) -> bool) -> bool {
    exists|d: Deriv| #[trigger] valid(e, t, d, lang)
}

/// The grammar of a JSON array whose elements follow the fragment `item`:
/// `"[" ws (item ("," ws item)*)? ws "]"`.
pub open spec fn array_expr(item: Seq<char>) -> GExpr {
    let ws = GExpr::Rule("ws"@);
    let more = GExpr::Star(Box::new(GExpr::Cat(Box::new(GExpr::Lit(","@)), Box::new(GExpr::Cat(Box::new(ws), Box::new(GExpr::Rule(item)))))));
    let body = GExpr::Opt(Box::new(GExpr::Cat(Box::new(GExpr::Rule(item)), Box::new(more))));
    GExpr::Cat(
        Box::new(GExpr::Lit("["@)),
        Box::new(GExpr::Cat(Box::new(ws), Box::new(GExpr::Cat(Box::new(body), Box::new(GExpr::Cat(Box::new(ws), Box::new(GExpr::Lit("]"@)))))))),
    )
}

/// Each element preceded by a comma.
pub open spec fn comma_items(xs: Seq<Seq<char>>) -> Seq<char>
    decreases xs.len(),
{
    if xs.len() == 0 { Seq::empty() } else { ","@ + xs[0] + comma_items(xs.drop_first()) }
}

/// The compact JSON text of an array of element texts: `[x0,x1,...]`.
pub open spec fn array_text(xs: Seq<Seq<char>>) -> Seq<char> {
    "["@ + (if xs.len() == 0 { Seq::empty() } else { xs[0] + comma_items(xs.drop_first()) }) + "]"@
}

/// The GBNF fragment of an array schema is the array grammar over the item's
/// fragment.
pub proof fn law_array_gbnf_is_array_grammar(items: Schema)
    ensures
        gbnf(Schema::Array(Box::new(items))) == render(array_expr(gbnf(items))),
{
    reveal_strlit("\"[\" ws (");
    reveal_strlit(" (\",\" ws ");
    reveal_strlit(")*)? ws \"]\"");
    reveal_strlit("\"");
    reveal_strlit(" ");
    reveal_strlit("(");
    reveal_strlit(")?");
    reveal_strlit(")*");
    reveal_strlit("ws");
    reveal_strlit("[");
    reveal_strlit("]");
    reveal_strlit(",");
    reveal_strlit("\",\"");
    reveal_strlit("\"[\"");
    reveal_strlit("\"]\"");
    let item = gbnf(items);
    let e = array_expr(item);
    reveal_with_fuel(render, 8);
    assert(render(GExpr::Rule("ws"@)) == "ws"@);
    assert(render(GExpr::Lit(","@)) =~= "\",\""@);
    assert(render(GExpr::Lit("["@)) =~= "\"[\""@);
    assert(render(GExpr::Lit("]"@)) =~= "\"]\""@);
    assert(gbnf(Schema::Array(Box::new(items))) =~= render(e));
}

proof fn lemma_cat(a: GExpr, b: GExpr, t1: Seq<char>, t2: Seq<char>, da: Deriv, db: Deriv, lang: spec_fn(Seq<char>, Seq<char>) -> bool) -> (d: Deriv)
    requires
        valid(a, t1, da, lang),
        valid(b, t2, db, lang),
    ensures
        valid(GExpr::Cat(Box::new(a), Box::new(b)), t1 + t2, d, lang),
{
    let t = t1 + t2;
    assert(t.subrange(0, t1.len() as int) =~= t1);
    assert(t.subrange(t1.len() as int, t.len() as int) =~= t2);
    Deriv::Cat(t1.len(), Box::new(da), Box::new(db))
}

proof fn lemma_star_derives_commas(item: Seq<char>, xs: Seq<Seq<char>>, lang: spec_fn(Seq<char>, Seq<char>) -> bool) -> (d: Deriv)
    requires
        lang("ws"@, Seq::empty()),
        forall|k: int| 0 <= k < xs.len() ==> lang(item, #[trigger] xs[k]),
    ensures
        valid(
            GExpr::Star(Box::new(GExpr::Cat(Box::new(GExpr::Lit(","@)), Box::new(GExpr::Cat(Box::new(GExpr::Rule("ws"@)), Box::new(GExpr::Rule(item))))))),
            comma_items(xs),
            d,
            lang,
        ),
    decreases xs.len(),
{
    let inner = GExpr::Cat(Box::new(GExpr::Rule("ws"@)), Box::new(GExpr::Rule(item)));
    let piece = GExpr::Cat(Box::new(GExpr::Lit(","@)), Box::new(inner));
    let star = GExpr::Star(Box::new(piece));
    if xs.len() == 0 {
        Deriv::StarEnd
    } else {
        reveal_strlit(",");
        let rest = xs.drop_first();
        let dr = lemma_star_derives_commas(item, rest, lang);
        let x = xs[0];
        let e = Seq::<char>::empty();
        let di = lemma_cat(GExpr::Rule("ws"@), GExpr::Rule(item), e, x, Deriv::Rule, Deriv::Rule, lang);
        assert(e + x =~= x);
        let dp = lemma_cat(GExpr::Lit(","@), inner, ","@, x, Deriv::Lit, di, lang);
        let p = ","@ + x;
        let t = comma_items(xs);
        assert(t =~= p + comma_items(rest));
        assert(t.subrange(0, p.len() as int) =~= p);
        assert(t.subrange(p.len() as int, t.len() as int) =~= comma_items(rest));
        Deriv::StarMore(p.len(), Box::new(dp), Box::new(dr))
    }
}

/// The grammar of an array schema accepts every JSON array whose elements
/// each follow the item's grammar, whatever their number (`ws` may be
/// empty).
pub proof fn law_array_grammar_accepts_any_length(item: Seq<char>, xs: Seq<Seq<char>>, lang: spec_fn(Seq<char>, Seq<char>) -> bool)
    requires
        lang("ws"@, Seq::empty()),
        forall|k: int| 0 <= k < xs.len() ==> lang(item, #[trigger] xs[k]),
    ensures
        derives(array_expr(item), array_text(xs), lang),
{
    reveal_strlit("[");
    reveal_strlit("]");
    let ws = GExpr::Rule("ws"@);
    let more = GExpr::Star(Box::new(GExpr::Cat(Box::new(GExpr::Lit(","@)), Box::new(GExpr::Cat(Box::new(ws), Box::new(GExpr::Rule(item)))))));
    let pair = GExpr::Cat(Box::new(GExpr::Rule(item)), Box::new(more));
    let body = GExpr::Opt(Box::new(pair));
    let close = GExpr::Cat(Box::new(ws), Box::new(GExpr::Lit("]"@)));
    let after_ws = GExpr::Cat(Box::new(body), Box::new(close));
    let after_open = GExpr::Cat(Box::new(ws), Box::new(after_ws));
    let mid = if xs.len() == 0 { Seq::<char>::empty() } else { xs[0] + comma_items(xs.drop_first()) };
    let e = Seq::<char>::empty();
    let dbody = if xs.len() > 0 {
        let dm = lemma_star_derives_commas(item, xs.drop_first(), lang);
        assert(lang(item, xs[0]));
        let dpair = lemma_cat(GExpr::Rule(item), more, xs[0], comma_items(xs.drop_first()), Deriv::Rule, dm, lang);
        Deriv::OptSome(Box::new(dpair))
    } else {
        Deriv::OptNone
    };
    assert(valid(body, mid, dbody, lang));
    let dclose = lemma_cat(ws, GExpr::Lit("]"@), e, "]"@, Deriv::Rule, Deriv::Lit, lang);
    assert(e + "]"@ =~= "]"@);
    let dafter = lemma_cat(body, close, mid, "]"@, dbody, dclose, lang);
    let dopen = lemma_cat(ws, after_ws, e, mid + "]"@, Deriv::Rule, dafter, lang);
    assert(e + (mid + "]"@) =~= mid + "]"@);
    let d = lemma_cat(GExpr::Lit("["@), after_open, "["@, mid + "]"@, Deriv::Lit, dopen, lang);
    assert(array_text(xs) =~= "["@ + (mid + "]"@));
    assert(valid(array_expr(item), array_text(xs), d, lang));
}

} // verus!
