//! Tool definitions and the [`ToolRegistry`] that keeps them by name.
//!
//! The registry holds, beside each definition, a handle `H` through which its
//! owner runs the tool; the library never calls a handle, it only keeps,
//! replaces and hands it out.
use vstd::prelude::*;

use crate::error::{AgentError, ErrModel};
use crate::json::{push_entry, json_str, Json, JsonValue};
use crate::schema::gbnf::gbnf;
use crate::schema::json_schema::json_schema;
use crate::schema::kind::{Schema, SchemaKind, Variant};
use crate::schema::kind::{EnumBuilder, Field};
use crate::text::{append_joined, join, str_eq};

verus! {

broadcast use vstd::std_specs::vec::group_vec_axioms;

/// Static metadata of a tool: name, description, input and output schemas.
#[derive(Debug, PartialEq)]
pub struct ToolDefinition {
    pub name: String,
    pub description: String,
    pub input: SchemaKind,
    pub output: Option<SchemaKind>,
}

/// Model of a [`ToolDefinition`].
pub struct DefModel {
    pub name: Seq<char>,
    pub description: Seq<char>,
    pub input: Schema,
    pub output: Option<Schema>,
}

impl View for ToolDefinition {
    type V = DefModel;

    open spec fn view(&self) -> DefModel {
        DefModel {
            name: self.name@,
            description: self.description@,
            input: self.input@,
            output: match self.output {
                Some(o) => Some(o@),
                None => None,
            },
        }
    }
}

impl Clone for ToolDefinition {
    fn clone(&self) -> (r: Self)
        ensures
            r@ == self@,
    {
        ToolDefinition {
            name: self.name.clone(),
            description: self.description.clone(),
            input: self.input.deep_clone(),
            output: match &self.output {
                Some(o) => Some(o.deep_clone()),
                None => None,
            },
        }
    }
}

/// The Anthropic `tools` array entry of a definition.
pub open spec fn anthropic_tool(d: DefModel) -> Json {
    Json::Object(seq![
        ("name"@, Json::Str(d.name)),
        ("description"@, Json::Str(d.description)),
        ("input_schema"@, json_schema(d.input)),
    ])
}

impl ToolDefinition {
    pub fn builder(name: &str, description: &str) -> (r: ToolDefinitionBuilder)
        ensures
            r@ == (BuilderModel { name: name@, description: description@, input: None, output: None }),
    {
        ToolDefinitionBuilder { name: name.to_owned(), description: description.to_owned(), input: None, output: None }
    }

    /// Anthropic `tools` array entry.
    pub fn to_anthropic_tool(&self) -> (r: JsonValue)
        ensures
            r@ == anthropic_tool(self@),
    {
        let mut es: Vec<(String, JsonValue)> = Vec::new();
        push_entry(&mut es, "name", json_str(self.name.as_str()));
        push_entry(&mut es, "description", json_str(self.description.as_str()));
        push_entry(&mut es, "input_schema", self.input.to_json_schema());
        let r = JsonValue::Object(es);
        proof {
            assert(JsonValue::entry_models(es@) =~= seq![
                ("name"@, Json::Str(self.name@)),
                ("description"@, Json::Str(self.description@)),
                ("input_schema"@, json_schema(self.input@)),
            ]);
        }
        r
    }
}

/// Builder for a [`ToolDefinition`]; the input schema defaults to an object
/// without fields.
pub struct ToolDefinitionBuilder {
    name: String,
    description: String,
    input: Option<SchemaKind>,
    output: Option<SchemaKind>,
}

/// Model of a [`ToolDefinitionBuilder`].
pub struct BuilderModel {
    pub name: Seq<char>,
    pub description: Seq<char>,
    pub input: Option<Schema>,
    pub output: Option<Schema>,
}

impl View for ToolDefinitionBuilder {
    type V = BuilderModel;

    closed spec fn view(&self) -> BuilderModel {
        BuilderModel {
            name: self.name@,
            description: self.description@,
            input: match self.input {
                Some(s) => Some(s@),
                None => None,
            },
            output: match self.output {
                Some(s) => Some(s@),
                None => None,
            },
        }
    }
}

impl ToolDefinitionBuilder {
    pub fn input(self, schema: SchemaKind) -> (r: Self)
        ensures
            r@ == (BuilderModel { input: Some(schema@), ..self@ }),
    {
        ToolDefinitionBuilder { input: Some(schema), ..self }
    }

    pub fn output(self, schema: SchemaKind) -> (r: Self)
        ensures
            r@ == (BuilderModel { output: Some(schema@), ..self@ }),
    {
        ToolDefinitionBuilder { output: Some(schema), ..self }
    }

    pub fn build(self) -> (r: ToolDefinition)
        ensures
            r@ == (DefModel {
                name: self@.name,
                description: self@.description,
                input: match self@.input {
                    Some(s) => s,
                    None => Schema::Object(Seq::empty()),
                },
                output: self@.output,
            }),
    {
        let input = match self.input {
            Some(s) => s,
            None => {
                let s = SchemaKind::Object { fields: Vec::new() };
                assert(s@ == Schema::Object(Seq::empty())) by {
                    assert(SchemaKind::field_models(Seq::empty()) =~= Seq::<crate::schema::kind::Field>::empty());
                }
                s
            },
        };
        ToolDefinition { name: self.name, description: self.description, input, output: self.output }
    }
}

/// The position of the entry named `name`, or `-1`.
pub open spec fn name_index<H>(es: Seq<(DefModel, H)>, name: Seq<char>) -> int
    decreases es.len(),
{
    if es.len() == 0 {
        -1
    } else if es.last().0.name == name {
        es.len() - 1
    } else {
        name_index(es.drop_last(), name)
    }
}

/// No two entries share a name.
pub open spec fn names_unique<H>(es: Seq<(DefModel, H)>) -> bool {
    forall|i: int, j: int| 0 <= i < j < es.len() ==> es[i].0.name != es[j].0.name
}

/// The entries after registering `d` with handle `h`: an entry of the same
/// name is replaced in place, else the new one goes last.
pub open spec fn registry_insert<H>(es: Seq<(DefModel, H)>, d: DefModel, h: H) -> Seq<(DefModel, H)> {
    let i = name_index(es, d.name);
    if i >= 0 { es.update(i, (d, h)) } else { es.push((d, h)) }
}

/// The definitions of the entries, in order.
pub open spec fn entry_defs<H>(es: Seq<(DefModel, H)>) -> Seq<DefModel> {
    es.map_values(|e: (DefModel, H)| e.0)
}

pub proof fn lemma_name_index<H>(es: Seq<(DefModel, H)>, name: Seq<char>)
    ensures
        -1 <= name_index(es, name) < es.len(),
        name_index(es, name) >= 0 ==> es[name_index(es, name)].0.name == name,
        name_index(es, name) < 0 ==> forall|k: int| 0 <= k < es.len() ==> es[k].0.name != name,
    decreases es.len(),
{
    if es.len() > 0 {
        lemma_name_index(es.drop_last(), name);
        assert(forall|k: int| 0 <= k < es.len() - 1 ==> es.drop_last()[k] == es[k]);
    }
}

pub proof fn lemma_name_index_unique<H>(es: Seq<(DefModel, H)>, name: Seq<char>, k: int)
    requires
        names_unique(es),
        0 <= k < es.len(),
        es[k].0.name == name,
    ensures
        name_index(es, name) == k,
    decreases es.len(),
{
    if k < es.len() - 1 {
        lemma_name_index_unique(es.drop_last(), name, k);
    }
}

pub proof fn lemma_insert_unique<H>(es: Seq<(DefModel, H)>, d: DefModel, h: H)
    requires
        names_unique(es),
    ensures
        names_unique(registry_insert(es, d, h)),
        name_index(registry_insert(es, d, h), d.name) >= 0,
        registry_insert(es, d, h)[name_index(registry_insert(es, d, h), d.name)] == (d, h),
{
    lemma_name_index(es, d.name);
    let r = registry_insert(es, d, h);
    let k = if name_index(es, d.name) >= 0 { name_index(es, d.name) } else { es.len() as int };
    assert(r[k] == (d, h));
    lemma_name_index_unique(r, d.name, k);
}

/// Name-keyed registry of tools.
pub struct ToolRegistry<H> {
    tools: Vec<(ToolDefinition, H)>,
}

impl<H> View for ToolRegistry<H> {
    type V = Seq<(DefModel, H)>;

    closed spec fn view(&self) -> Seq<(DefModel, H)> {
        self.tools@.map_values(|e: (ToolDefinition, H)| (e.0@, e.1))
    }
}

impl<H> ToolRegistry<H> {
    #[verifier::type_invariant]
    closed spec fn unique_names(&self) -> bool {
        names_unique(self@)
    }

    pub fn new() -> (r: Self)
        ensures
            r@ == Seq::<(DefModel, H)>::empty(),
            names_unique(r@),
    {
        let r = ToolRegistry { tools: Vec::new() };
        assert(r@ =~= Seq::<(DefModel, H)>::empty());
        r
    }

    fn position(&self, name: &str) -> (r: Option<usize>)
        ensures
            self@.len() == self.tools@.len(),
            forall|k: int| 0 <= k < self@.len() ==> #[trigger] self@[k] == (self.tools@[k].0@, self.tools@[k].1),
            match r {
                Some(i) => name_index(self@, name@) == i && i < self@.len(),
                None => name_index(self@, name@) == -1,
            },
    {
        proof { use_type_invariant(self); }
        let mut i: usize = 0;
        while i < self.tools.len()
            invariant
                i <= self.tools.len(),
                self@.len() == self.tools.len(),
                names_unique(self@),
                forall|k: int| 0 <= k < i ==> self@[k].0.name != name@,
            decreases self.tools.len() - i,
        {
            assert(self@[i as int].0.name == self.tools@[i as int].0.name@);
            if str_eq(self.tools[i].0.name.as_str(), name) {
                proof { lemma_name_index_unique(self@, name@, i as int); }
                return Some(i);
            }
            i = i + 1;
        }
        proof { lemma_name_index(self@, name@); }
        None
    }

    /// Registers a tool under its definition's name, replacing any tool of
    /// that name.
    pub fn register(self, definition: ToolDefinition, handle: H) -> (r: Self)
        ensures
            r@ == registry_insert(self@, definition@, handle),
            names_unique(r@),
    {
        proof { use_type_invariant(&self); }
        let ghost old_view = self@;
        let ghost d = definition@;
        proof { lemma_insert_unique(old_view, d, handle); }
        let pos = self.position(definition.name.as_str());
        let mut tools = self.tools;
        match pos {
            Some(i) => {
                tools.set(i, (definition, handle));
            },
            None => {
                tools.push((definition, handle));
            },
        }
        assert(tools@.map_values(|e: (ToolDefinition, H)| (e.0@, e.1)) =~= registry_insert(old_view, d, handle));
        let r = ToolRegistry { tools };
        r
    }

    /// The handle of the tool named `name`.
    pub fn get(&self, name: &str) -> (r: Option<&H>)
        ensures
            match r {
                Some(h) => name_index(self@, name@) >= 0 && *h == self@[name_index(self@, name@)].1,
                None => name_index(self@, name@) < 0,
            },
    {
        match self.position(name) {
            Some(i) => Some(&self.tools[i].1),
            None => None,
        }
    }

    pub fn contains(&self, name: &str) -> (r: bool)
        ensures
            r == (name_index(self@, name@) >= 0),
    {
        self.position(name).is_some()
    }

    pub fn len(&self) -> (r: usize)
        ensures
            r == self@.len(),
    {
        self.tools.len()
    }

    pub fn is_empty(&self) -> (r: bool)
        ensures
            r == (self@.len() == 0),
    {
        self.tools.len() == 0
    }

    /// The handle of the tool named `name`, or the unknown-tool error that
    /// running it reports.
    pub fn resolve(&self, name: &str) -> (r: Result<&H, AgentError>)
        ensures
            match r {
                Ok(h) => name_index(self@, name@) >= 0 && *h == self@[name_index(self@, name@)].1,
                Err(e) => name_index(self@, name@) < 0 && e@ == ErrModel::UnknownTool(name@),
            },
    {
        match self.get(name) {
            Some(h) => Ok(h),
            None => Err(AgentError::UnknownTool(name.to_owned())),
        }
    }

    /// The registered names.
    pub fn names(&self) -> (r: Vec<String>)
        ensures
            r@.map_values(|s: String| s@) == entry_defs(self@).map_values(|d: DefModel| d.name),
    {
        let mut out: Vec<String> = Vec::new();
        let mut i: usize = 0;
        while i < self.tools.len()
            invariant
                i <= self.tools.len(),
                self@.len() == self.tools.len(),
                out@.len() == i,
                forall|k: int| 0 <= k < i ==> #[trigger] out@[k]@ == self@[k].0.name,
            decreases self.tools.len() - i,
        {
            out.push(self.tools[i].0.name.clone());
            i = i + 1;
        }
        assert(out@.map_values(|s: String| s@) =~= entry_defs(self@).map_values(|d: DefModel| d.name));
        out
    }

    /// The registered definitions.
    pub fn definitions(&self) -> (r: Vec<ToolDefinition>)
        ensures
            r@.map_values(|d: ToolDefinition| d@) == entry_defs(self@),
    {
        let mut out: Vec<ToolDefinition> = Vec::new();
        let mut i: usize = 0;
        while i < self.tools.len()
            invariant
                i <= self.tools.len(),
                self@.len() == self.tools.len(),
                out@.len() == i,
                forall|k: int| 0 <= k < i ==> #[trigger] out@[k]@ == self@[k].0,
            decreases self.tools.len() - i,
        {
            out.push(self.tools[i].0.clone());
            i = i + 1;
        }
        assert(out@.map_values(|d: ToolDefinition| d@) =~= entry_defs(self@));
        out
    }

    /// The handles, in the order of [`ToolRegistry::definitions`].
    pub fn tools(&self) -> (r: Vec<&H>)
        ensures
            r@.len() == self@.len(),
            forall|k: int| 0 <= k < r@.len() ==> *r@[k] == #[trigger] self@[k].1,
    {
        let mut out: Vec<&H> = Vec::new();
        let mut i: usize = 0;
        while i < self.tools.len()
            invariant
                i <= self.tools.len(),
                self@.len() == self.tools.len(),
                out@.len() == i,
                forall|k: int| 0 <= k < i ==> *out@[k] == #[trigger] self@[k].1,
            decreases self.tools.len() - i,
        {
            out.push(&self.tools[i].1);
            i = i + 1;
        }
        out
    }

    /// Every tool of `other` registered into `self`, in `other`'s order; a
    /// name in both keeps `other`'s tool.
    pub fn merge(self, other: ToolRegistry<H>) -> (r: Self)
        ensures
            r@ == merged(self@, other@),
            names_unique(r@),
    {
        let ghost o = other@;
        let ghost start = self@;
        proof { use_type_invariant(&self); }
        let mut acc = self;
        let mut rest = other.tools;
        let ghost all = rest@;
        let mut i: usize = 0;
        let n = rest.len();
        while i < n
            invariant
                i <= n,
                n == all.len(),
                rest@ == all.subrange(i as int, n as int),
                o == all.map_values(|e: (ToolDefinition, H)| (e.0@, e.1)),
                acc@ == merged(start, o.subrange(0, i as int)),
                names_unique(acc@),
            decreases n - i,
        {
            let e = rest.remove(0);
            proof {
                let sub = o.subrange(0, i + 1);
                assert(sub.drop_last() == o.subrange(0, i as int));
                assert(sub.last() == (e.0@, e.1));
                assert(rest@ =~= all.subrange(i + 1, n as int));
            }
            acc = acc.register(e.0, e.1);
            i = i + 1;
        }
        proof { assert(o.subrange(0, n as int) == o); }
        acc
    }
}

/// The combined schema's variant for a tool: its name, carrying its input.
pub open spec fn tool_variant(d: DefModel) -> Variant {
    Variant { name: d.name, description: Seq::empty(), data: Some(d.input) }
}

/// One alternative of the tool-call grammar.
pub open spec fn tool_call_alternative(d: DefModel) -> Seq<char> {
    "(\"{\\\"name\\\":\\\""@ + d.name + "\\\"\" \",\\\"arguments\\\":\" "@ + gbnf(d.input) + " \"}\")"@
}

/// GBNF grammar matching any tool-call envelope `{"name":"<tool>","arguments":<input>}`.
pub open spec fn tool_call_grammar(defs: Seq<DefModel>) -> Seq<char> {
    if defs.len() == 0 {
        "root ::= \"{}\""@
    } else {
        "root ::= "@ + join(defs.map_values(|d: DefModel| tool_call_alternative(d)), " | "@)
    }
}

impl<H> ToolRegistry<H> {
    /// Anthropic-style `tools` array, one entry per tool.
    pub fn to_anthropic_tools(&self) -> (r: Vec<JsonValue>)
        ensures
            r@.map_values(|v: JsonValue| v@) == entry_defs(self@).map_values(|d: DefModel| anthropic_tool(d)),
    {
        let mut out: Vec<JsonValue> = Vec::new();
        let mut i: usize = 0;
        while i < self.tools.len()
            invariant
                i <= self.tools.len(),
                self@.len() == self.tools.len(),
                forall|k: int| 0 <= k < self@.len() ==> #[trigger] self@[k] == (self.tools@[k].0@, self.tools@[k].1),
                out@.len() == i,
                forall|k: int| 0 <= k < i ==> #[trigger] out@[k]@ == anthropic_tool(self@[k].0),
            decreases self.tools.len() - i,
        {
            out.push(self.tools[i].0.to_anthropic_tool());
            i = i + 1;
        }
        assert(out@.map_values(|v: JsonValue| v@) =~= entry_defs(self@).map_values(|d: DefModel| anthropic_tool(d)));
        out
    }

    /// Enum schema with one variant per tool, carrying the tool's input schema.
    pub fn to_combined_schema(&self) -> (r: SchemaKind)
        ensures
            r@ == Schema::Enum(entry_defs(self@).map_values(|d: DefModel| tool_variant(d))),
    {
        let mut builder = SchemaKind::enumeration();
        let mut i: usize = 0;
        while i < self.tools.len()
            invariant
                i <= self.tools.len(),
                self@.len() == self.tools.len(),
                forall|k: int| 0 <= k < self@.len() ==> #[trigger] self@[k] == (self.tools@[k].0@, self.tools@[k].1),
                builder@ == entry_defs(self@).map_values(|d: DefModel| tool_variant(d)).subrange(0, i as int),
            decreases self.tools.len() - i,
        {
            let def = self.tools[i].0.clone();
            builder = builder.variant(def.name.as_str(), def.input);
            assert(builder@ =~= entry_defs(self@).map_values(|d: DefModel| tool_variant(d)).subrange(0, i + 1));
            i = i + 1;
        }
        assert(entry_defs(self@).map_values(|d: DefModel| tool_variant(d)).subrange(0, i as int)
            =~= entry_defs(self@).map_values(|d: DefModel| tool_variant(d)));
        builder.build()
    }

    /// GBNF grammar matching any tool-call envelope.
    pub fn to_tool_call_grammar(&self) -> (r: String)
        ensures
            r@ == tool_call_grammar(entry_defs(self@)),
    {
        if self.tools.len() == 0 {
            return String::from_str("root ::= \"{}\"");
        }
        let ghost alts_spec = entry_defs(self@).map_values(|d: DefModel| tool_call_alternative(d));
        let mut alts: Vec<String> = Vec::new();
        let mut i: usize = 0;
        while i < self.tools.len()
            invariant
                i <= self.tools.len(),
                self@.len() == self.tools.len(),
                forall|k: int| 0 <= k < self@.len() ==> #[trigger] self@[k] == (self.tools@[k].0@, self.tools@[k].1),
                alts_spec == entry_defs(self@).map_values(|d: DefModel| tool_call_alternative(d)),
                alts@.len() == i,
                forall|k: int| 0 <= k < i ==> #[trigger] alts@[k]@ == alts_spec[k],
            decreases self.tools.len() - i,
        {
            let def = &self.tools[i].0;
            let mut alt = String::from_str("(\"{\\\"name\\\":\\\"");
            alt.append(def.name.as_str());
            alt.append("\\\"\" \",\\\"arguments\\\":\" ");
            let g = def.input.to_gbnf();
            alt.append(g.as_str());
            alt.append(" \"}\")");
            alts.push(alt);
            i = i + 1;
        }
        let mut out = String::from_str("root ::= ");
        append_joined(&mut out, &alts, " | ");
        assert(alts@.map_values(|p: String| p@) =~= alts_spec);
        out
    }
}

impl<H: Clone> Clone for ToolRegistry<H> {
    /// A registry of the same definitions, each with a clone of its handle.
    fn clone(&self) -> (r: Self)
        ensures
            entry_defs(r@) == entry_defs(self@),
    {
        proof { use_type_invariant(self); }
        let mut tools: Vec<(ToolDefinition, H)> = Vec::new();
        let mut i: usize = 0;
        while i < self.tools.len()
            invariant
                i <= self.tools.len(),
                self@.len() == self.tools.len(),
                names_unique(self@),
                forall|k: int| 0 <= k < self@.len() ==> #[trigger] self@[k] == (self.tools@[k].0@, self.tools@[k].1),
                tools@.len() == i,
                forall|k: int| 0 <= k < i ==> #[trigger] tools@[k].0@ == self@[k].0,
            decreases self.tools.len() - i,
        {
            let d = self.tools[i].0.clone();
            let h = self.tools[i].1.clone();
            tools.push((d, h));
            i = i + 1;
        }
        let ghost v = tools@.map_values(|e: (ToolDefinition, H)| (e.0@, e.1));
        assert(entry_defs(v) =~= entry_defs(self@));
        assert(names_unique(v)) by {
            assert forall|a: int, b: int| 0 <= a < b < v.len() implies v[a].0.name != v[b].0.name by {
                assert(v[a].0 == self@[a].0);
                assert(v[b].0 == self@[b].0);
            }
        }
        ToolRegistry { tools }
    }
}

/// The entries after registering each of `more`'s entries in order.
pub open spec fn merged<H>(es: Seq<(DefModel, H)>, more: Seq<(DefModel, H)>) -> Seq<(DefModel, H)>
    decreases more.len(),
{
    if more.len() == 0 {
        es
    } else {
        registry_insert(merged(es, more.drop_last()), more.last().0, more.last().1)
    }
}

} // verus!

verus! {

/// The entry registered under `name`, if any.
pub open spec fn entry_named<H>(es: Seq<(DefModel, H)>, name: Seq<char>) -> Option<(DefModel, H)> {
    if name_index(es, name) >= 0 { Some(es[name_index(es, name)]) } else { None }
}

/// After registering a tool, its name finds exactly that tool.
pub proof fn law_register_then_lookup<H>(es: Seq<(DefModel, H)>, d: DefModel, h: H)
    requires
        names_unique(es),
    ensures
        entry_named(registry_insert(es, d, h), d.name) == Some((d, h)),
{
    lemma_insert_unique(es, d, h);
}

/// Registering a tool leaves every other name's tool as it was.
pub proof fn law_register_keeps_other_names<H>(es: Seq<(DefModel, H)>, d: DefModel, h: H, name: Seq<char>)
    requires
        names_unique(es),
        name != d.name,
    ensures
        entry_named(registry_insert(es, d, h), name) == entry_named(es, name),
{
    lemma_insert_unique(es, d, h);
    lemma_name_index(es, name);
    lemma_name_index(es, d.name);
    let r = registry_insert(es, d, h);
    lemma_name_index(r, name);
    if name_index(es, name) >= 0 {
        let k = name_index(es, name);
        assert(r[k] == es[k]);
        lemma_name_index_unique(r, name, k);
    } else {
        if name_index(r, name) >= 0 {
            let k = name_index(r, name);
            if k < es.len() {
                assert(r[k] == es[k] || r[k].0.name == d.name);
            }
        }
    }
}

/// Registering grows the registry by one exactly when the name is new.
pub proof fn law_register_len<H>(es: Seq<(DefModel, H)>, d: DefModel, h: H)
    ensures
        registry_insert(es, d, h).len() == es.len() + if entry_named(es, d.name) is None { 1int } else { 0int },
{
    lemma_name_index(es, d.name);
}

/// After a merge, a name finds the second registry's tool when it has one,
/// else the first registry's.
pub proof fn law_merge_prefers_second<H>(a: Seq<(DefModel, H)>, b: Seq<(DefModel, H)>, name: Seq<char>)
    requires
        names_unique(a),
        names_unique(b),
    ensures
        names_unique(merged(a, b)),
        entry_named(merged(a, b), name) == if entry_named(b, name) is Some { entry_named(b, name) } else { entry_named(a, name) },
    decreases b.len(),
{
    if b.len() > 0 {
        let bl = b.drop_last();
        assert(names_unique(bl));
        law_merge_prefers_second(a, bl, name);
        let m = merged(a, bl);
        let (d, h) = b.last();
        lemma_insert_unique(m, d, h);
        lemma_name_index(b, name);
        lemma_name_index(bl, name);
        if name == d.name {
            law_register_then_lookup(m, d, h);
            lemma_name_index_unique(b, name, b.len() - 1);
        } else {
            law_register_keeps_other_names(m, d, h, name);
            if name_index(bl, name) >= 0 {
                lemma_name_index_unique(b, name, name_index(bl, name));
            } else {
                assert(forall|k: int| 0 <= k < b.len() ==> b[k].0.name != name) by {
                    assert(forall|k: int| 0 <= k < bl.len() ==> bl[k] == b[k]);
                }
            }
        }
    }
}

} // verus!
