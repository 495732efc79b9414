//! [`SchemaKind`]: the shape of a schema value, its builders, and
//! [`GrammarSource`].
use vstd::prelude::*;

use crate::json::{Json, JsonValue};
use crate::schema::gbnf::gbnf;
use crate::schema::json_schema::json_schema;
use crate::schema::regex::regex;

verus! {

broadcast use vstd::std_specs::vec::group_vec_axioms;

/// The shape of a schema value, recursive to support nested types.
#[derive(Debug, PartialEq)]
pub enum SchemaKind {
    String,
    Number,
    Integer,
    Boolean,
    /// Any JSON value; no validation.
    Any,
    Object { fields: Vec<SchemaField> },
    Array { items: Box<SchemaKind> },
    Optional { inner: Box<SchemaKind> },
    /// Tagged union. Unit variants are plain strings; data variants are
    /// `{"type": "<name>", ...fields}` (or `"data"` when the data is no object).
    Enum { variants: Vec<SchemaVariant> },
    Literal { value: JsonValue },
    /// Object with string keys and uniformly typed values.
    MapOf { values: Box<SchemaKind> },
}

/// A field within a [`SchemaKind::Object`].
#[derive(Debug, PartialEq)]
pub struct SchemaField {
    pub name: String,
    pub description: String,
    pub schema: SchemaKind,
    pub required: bool,
}

/// A variant within a [`SchemaKind::Enum`]; `data` is `None` for unit variants.
#[derive(Debug, PartialEq)]
pub struct SchemaVariant {
    pub name: String,
    pub description: String,
    pub data: Option<SchemaKind>,
}

/// Mathematical model of a [`SchemaKind`].
pub enum Schema {
    String,
    Number,
    Integer,
    Boolean,
    Any,
    Object(Seq<Field>),
    Array(Box<Schema>),
    Optional(Box<Schema>),
    Enum(Seq<Variant>),
    Literal(Json),
    MapOf(Box<Schema>),
}

/// Model of a [`SchemaField`].
pub struct Field {
    pub name: Seq<char>,
    pub description: Seq<char>,
    pub schema: Schema,
    pub required: bool,
}

/// Model of a [`SchemaVariant`].
pub struct Variant {
    pub name: Seq<char>,
    pub description: Seq<char>,
    pub data: Option<Schema>,
}

impl SchemaKind {
    pub open spec fn model(self) -> Schema
        decreases self,
    {
        match self {
            SchemaKind::String => Schema::String,
            SchemaKind::Number => Schema::Number,
            SchemaKind::Integer => Schema::Integer,
            SchemaKind::Boolean => Schema::Boolean,
            SchemaKind::Any => Schema::Any,
            SchemaKind::Object { fields } => Schema::Object(Self::field_models(fields@)),
            SchemaKind::Array { items } => Schema::Array(Box::new((*items).model())),
            SchemaKind::Optional { inner } => Schema::Optional(Box::new((*inner).model())),
            SchemaKind::Enum { variants } => Schema::Enum(Self::variant_models(variants@)),
            SchemaKind::Literal { value } => Schema::Literal(value@),
            SchemaKind::MapOf { values } => Schema::MapOf(Box::new((*values).model())),
        }
    }

    pub open spec fn field_models(s: Seq<SchemaField>) -> Seq<Field>
        decreases s,
    {
        if s.len() == 0 {
            Seq::empty()
        } else {
            Self::field_models(s.subrange(0, s.len() - 1)).push(
                Field {
                    name: s[s.len() - 1].name@,
                    description: s[s.len() - 1].description@,
                    schema: s[s.len() - 1].schema.model(),
                    required: s[s.len() - 1].required,
                },
            )
        }
    }

    pub open spec fn variant_models(s: Seq<SchemaVariant>) -> Seq<Variant>
        decreases s,
    {
        if s.len() == 0 {
            Seq::empty()
        } else {
            Self::variant_models(s.subrange(0, s.len() - 1)).push(
                Variant {
                    name: s[s.len() - 1].name@,
                    description: s[s.len() - 1].description@,
                    data: match s[s.len() - 1].data {
                        Some(d) => Some(d.model()),
                        None => None,
                    },
                },
            )
        }
    }
}

impl View for SchemaKind {
    type V = Schema;

    open spec fn view(&self) -> Schema {
        self.model()
    }
}

impl View for SchemaField {
    type V = Field;

    open spec fn view(&self) -> Field {
        Field {
            name: self.name@,
            description: self.description@,
            schema: self.schema@,
            required: self.required,
        }
    }
}

impl View for SchemaVariant {
    type V = Variant;

    open spec fn view(&self) -> Variant {
        Variant {
            name: self.name@,
            description: self.description@,
            data: match self.data {
                Some(d) => Some(d@),
                None => None,
            },
        }
    }
}

pub proof fn lemma_field_models(s: Seq<SchemaField>)
    ensures
        SchemaKind::field_models(s).len() == s.len(),
        forall|i: int| 0 <= i < s.len() ==> #[trigger] SchemaKind::field_models(s)[i] == s[i]@,
    decreases s.len(),
{
    if s.len() > 0 {
        lemma_field_models(s.subrange(0, s.len() - 1));
    }
}

pub proof fn lemma_variant_models(s: Seq<SchemaVariant>)
    ensures
        SchemaKind::variant_models(s).len() == s.len(),
        forall|i: int| 0 <= i < s.len() ==> #[trigger] SchemaKind::variant_models(s)[i] == s[i]@,
    decreases s.len(),
{
    if s.len() > 0 {
        lemma_variant_models(s.subrange(0, s.len() - 1));
    }
}

pub proof fn lemma_field_models_push(s: Seq<SchemaField>, f: SchemaField)
    ensures
        SchemaKind::field_models(s.push(f)) == SchemaKind::field_models(s).push(f@),
{
    assert(s.push(f).subrange(0, s.len() as int) == s);
}

pub proof fn lemma_variant_models_push(s: Seq<SchemaVariant>, v: SchemaVariant)
    ensures
        SchemaKind::variant_models(s.push(v)) == SchemaKind::variant_models(s).push(v@),
{
    assert(s.push(v).subrange(0, s.len() as int) == s);
}

impl SchemaKind {
    /// A copy of the schema, node by node.
    #[verifier::loop_isolation(false)]
    pub fn deep_clone(&self) -> (r: SchemaKind)
        ensures
            r@ == self@,
        decreases self,
    {
        match self {
            SchemaKind::String => SchemaKind::String,
            SchemaKind::Number => SchemaKind::Number,
            SchemaKind::Integer => SchemaKind::Integer,
            SchemaKind::Boolean => SchemaKind::Boolean,
            SchemaKind::Any => SchemaKind::Any,
            SchemaKind::Object { fields } => {
                let mut out: Vec<SchemaField> = Vec::new();
                let mut i: usize = 0;
                while i < fields.len()
                    invariant
                        i <= fields.len(),
                        SchemaKind::field_models(out@) == SchemaKind::field_models(fields@.subrange(0, i as int)),
                    decreases fields.len() - i,
                {
                    proof {
                        assert(decreases_to!(fields => fields@));
                        assert(decreases_to!(fields@ => fields@[i as int]));
                    }
                    let f = &fields[i];
                    let c = SchemaField {
                        name: f.name.clone(),
                        description: f.description.clone(),
                        schema: f.schema.deep_clone(),
                        required: f.required,
                    };
                    proof {
                        lemma_field_models_push(out@, c);
                        lemma_field_models_push(fields@.subrange(0, i as int), fields@[i as int]);
                        assert(fields@.subrange(0, i as int).push(fields@[i as int]) == fields@.subrange(0, i + 1));
                    }
                    out.push(c);
                    i = i + 1;
                }
                proof { assert(fields@.subrange(0, fields@.len() as int) == fields@); }
                SchemaKind::Object { fields: out }
            },
            SchemaKind::Array { items } => SchemaKind::Array { items: Box::new((**items).deep_clone()) },
            SchemaKind::Optional { inner } => SchemaKind::Optional { inner: Box::new((**inner).deep_clone()) },
            SchemaKind::MapOf { values } => SchemaKind::MapOf { values: Box::new((**values).deep_clone()) },
            SchemaKind::Literal { value } => SchemaKind::Literal { value: value.deep_clone() },
            SchemaKind::Enum { variants } => {
                let mut out: Vec<SchemaVariant> = Vec::new();
                let mut i: usize = 0;
                while i < variants.len()
                    invariant
                        i <= variants.len(),
                        SchemaKind::variant_models(out@) == SchemaKind::variant_models(variants@.subrange(0, i as int)),
                    decreases variants.len() - i,
                {
                    proof {
                        assert(decreases_to!(variants => variants@));
                        assert(decreases_to!(variants@ => variants@[i as int]));
                    }
                    let v = &variants[i];
                    let data = match &v.data {
                        Some(d) => Some(d.deep_clone()),
                        None => None,
                    };
                    let c = SchemaVariant { name: v.name.clone(), description: v.description.clone(), data };
                    proof {
                        lemma_variant_models_push(out@, c);
                        lemma_variant_models_push(variants@.subrange(0, i as int), variants@[i as int]);
                        assert(variants@.subrange(0, i as int).push(variants@[i as int]) == variants@.subrange(0, i + 1));
                    }
                    out.push(c);
                    i = i + 1;
                }
                proof { assert(variants@.subrange(0, variants@.len() as int) == variants@); }
                SchemaKind::Enum { variants: out }
            },
        }
    }
}

impl Clone for SchemaKind {
    fn clone(&self) -> (r: Self)
        ensures
            r@ == self@,
    {
        self.deep_clone()
    }
}

impl Clone for SchemaField {
    fn clone(&self) -> (r: Self)
        ensures
            r@ == self@,
    {
        SchemaField {
            name: self.name.clone(),
            description: self.description.clone(),
            schema: self.schema.deep_clone(),
            required: self.required,
        }
    }
}

impl Clone for SchemaVariant {
    fn clone(&self) -> (r: Self)
        ensures
            r@ == self@,
    {
        let data = match &self.data {
            Some(d) => Some(d.deep_clone()),
            None => None,
        };
        SchemaVariant { name: self.name.clone(), description: self.description.clone(), data }
    }
}

impl SchemaKind {
    pub fn string() -> (r: Self)
        ensures
            r@ == Schema::String,
    {
        SchemaKind::String
    }

    pub fn number() -> (r: Self)
        ensures
            r@ == Schema::Number,
    {
        SchemaKind::Number
    }

    pub fn integer() -> (r: Self)
        ensures
            r@ == Schema::Integer,
    {
        SchemaKind::Integer
    }

    pub fn boolean() -> (r: Self)
        ensures
            r@ == Schema::Boolean,
    {
        SchemaKind::Boolean
    }

    pub fn any() -> (r: Self)
        ensures
            r@ == Schema::Any,
    {
        SchemaKind::Any
    }

    pub fn array(items: SchemaKind) -> (r: Self)
        ensures
            r@ == Schema::Array(Box::new(items@)),
    {
        SchemaKind::Array { items: Box::new(items) }
    }

    pub fn optional(inner: SchemaKind) -> (r: Self)
        ensures
            r@ == Schema::Optional(Box::new(inner@)),
    {
        SchemaKind::Optional { inner: Box::new(inner) }
    }

    pub fn map(values: SchemaKind) -> (r: Self)
        ensures
            r@ == Schema::MapOf(Box::new(values@)),
    {
        SchemaKind::MapOf { values: Box::new(values) }
    }

    pub fn literal(value: JsonValue) -> (r: Self)
        ensures
            r@ == Schema::Literal(value@),
    {
        SchemaKind::Literal { value }
    }

    pub fn object() -> (r: ObjectBuilder)
        ensures
            r@ == Seq::<Field>::empty(),
    {
        ObjectBuilder::new()
    }

    pub fn enumeration() -> (r: EnumBuilder)
        ensures
            r@ == Seq::<Variant>::empty(),
    {
        EnumBuilder::new()
    }
}

/// Fluent builder for [`SchemaKind::Object`]. Fields default to required;
/// use `optional_field*` for nullable ones.
pub struct ObjectBuilder {
    fields: Vec<SchemaField>,
}

impl View for ObjectBuilder {
    type V = Seq<Field>;

    closed spec fn view(&self) -> Seq<Field> {
        SchemaKind::field_models(self.fields@)
    }
}

impl ObjectBuilder {
    pub fn new() -> (r: Self)
        ensures
            r@ == Seq::<Field>::empty(),
    {
        ObjectBuilder { fields: Vec::new() }
    }

    fn push_field(self, name: &str, schema: SchemaKind, description: &str, required: bool) -> (r: Self)
        ensures
            r@ == self@.push(Field { name: name@, description: description@, schema: schema@, required }),
    {
        let mut b = self;
        let f = SchemaField { name: name.to_owned(), description: description.to_owned(), schema, required };
        proof { lemma_field_models_push(b.fields@, f); }
        b.fields.push(f);
        b
    }

    pub fn field(self, name: &str, schema: SchemaKind) -> (r: Self)
        ensures
            r@ == self@.push(Field { name: name@, description: Seq::empty(), schema: schema@, required: true }),
    {
        proof { reveal_strlit(""); assert(""@ =~= Seq::<char>::empty()); }
        self.push_field(name, schema, "", true)
    }

    pub fn field_with_desc(self, name: &str, schema: SchemaKind, description: &str) -> (r: Self)
        ensures
            r@ == self@.push(Field { name: name@, description: description@, schema: schema@, required: true }),
    {
        self.push_field(name, schema, description, true)
    }

    pub fn optional_field(self, name: &str, schema: SchemaKind) -> (r: Self)
        ensures
            r@ == self@.push(Field { name: name@, description: Seq::empty(), schema: schema@, required: false }),
    {
        proof { reveal_strlit(""); assert(""@ =~= Seq::<char>::empty()); }
        self.push_field(name, schema, "", false)
    }

    pub fn optional_field_with_desc(self, name: &str, schema: SchemaKind, description: &str) -> (r: Self)
        ensures
            r@ == self@.push(Field { name: name@, description: description@, schema: schema@, required: false }),
    {
        self.push_field(name, schema, description, false)
    }

    pub fn build(self) -> (r: SchemaKind)
        ensures
            r@ == Schema::Object(self@),
    {
        SchemaKind::Object { fields: self.fields }
    }
}

/// Fluent builder for [`SchemaKind::Enum`]. Unit and data variants mix freely;
/// a tagged union is emitted only when at least one variant carries data.
pub struct EnumBuilder {
    variants: Vec<SchemaVariant>,
}

impl View for EnumBuilder {
    type V = Seq<Variant>;

    closed spec fn view(&self) -> Seq<Variant> {
        SchemaKind::variant_models(self.variants@)
    }
}

impl EnumBuilder {
    pub fn new() -> (r: Self)
        ensures
            r@ == Seq::<Variant>::empty(),
    {
        EnumBuilder { variants: Vec::new() }
    }

    fn push_variant(self, name: &str, data: Option<SchemaKind>, description: &str) -> (r: Self)
        ensures
            r@ == self@.push(Variant {
                name: name@,
                description: description@,
                data: match data { Some(d) => Some(d@), None => None },
            }),
    {
        let mut b = self;
        let v = SchemaVariant { name: name.to_owned(), description: description.to_owned(), data };
        proof { lemma_variant_models_push(b.variants@, v); }
        b.variants.push(v);
        b
    }

    pub fn unit(self, name: &str) -> (r: Self)
        ensures
            r@ == self@.push(Variant { name: name@, description: Seq::empty(), data: None }),
    {
        proof { reveal_strlit(""); assert(""@ =~= Seq::<char>::empty()); }
        self.push_variant(name, None, "")
    }

    pub fn unit_with_desc(self, name: &str, description: &str) -> (r: Self)
        ensures
            r@ == self@.push(Variant { name: name@, description: description@, data: None }),
    {
        self.push_variant(name, None, description)
    }

    pub fn variant(self, name: &str, data: SchemaKind) -> (r: Self)
        ensures
            r@ == self@.push(Variant { name: name@, description: Seq::empty(), data: Some(data@) }),
    {
        proof { reveal_strlit(""); assert(""@ =~= Seq::<char>::empty()); }
        self.push_variant(name, Some(data), "")
    }

    pub fn variant_with_desc(self, name: &str, data: SchemaKind, description: &str) -> (r: Self)
        ensures
            r@ == self@.push(Variant { name: name@, description: description@, data: Some(data@) }),
    {
        self.push_variant(name, Some(data), description)
    }

    pub fn build(self) -> (r: SchemaKind)
        ensures
            r@ == Schema::Enum(self@),
    {
        SchemaKind::Enum { variants: self.variants }
    }
}

/// Source of the grammar that constrains structured output: a schema,
/// convertible to every backend's format, or a pre-built GBNF grammar that
/// only llama.cpp-style backends understand.
#[derive(Debug, PartialEq)]
pub enum GrammarSource {
    Schema(SchemaKind),
    Gbnf(String),
}

impl GrammarSource {
    /// GBNF grammar text; always available.
    pub fn to_gbnf(&self) -> (r: String)
        ensures
            r@ == match self {
                GrammarSource::Schema(s) => gbnf(s@),
                GrammarSource::Gbnf(g) => g@,
            },
    {
        match self {
            GrammarSource::Schema(s) => s.to_gbnf(),
            GrammarSource::Gbnf(g) => g.clone(),
        }
    }

    /// JSON Schema, or `None` for a pre-built grammar.
    pub fn to_json_schema(&self) -> (r: Option<JsonValue>)
        ensures
            match self {
                GrammarSource::Schema(s) => r matches Some(j) && j@ == json_schema(s@),
                GrammarSource::Gbnf(_) => r is None,
            },
    {
        match self {
            GrammarSource::Schema(s) => Some(s.to_json_schema()),
            GrammarSource::Gbnf(_) => None,
        }
    }

    /// Regex pattern, or `None` for a pre-built grammar.
    pub fn to_regex(&self) -> (r: Option<String>)
        ensures
            match self {
                GrammarSource::Schema(s) => r matches Some(p) && p@ == regex(s@),
                GrammarSource::Gbnf(_) => r is None,
            },
    {
        match self {
            GrammarSource::Schema(s) => Some(s.to_regex()),
            GrammarSource::Gbnf(_) => None,
        }
    }
}

impl Clone for GrammarSource {
    fn clone(&self) -> (r: Self)
        ensures
            match (r, *self) {
                (GrammarSource::Schema(a), GrammarSource::Schema(b)) => a@ == b@,
                (GrammarSource::Gbnf(a), GrammarSource::Gbnf(b)) => a@ == b@,
                _ => false,
            },
    {
        match self {
            GrammarSource::Schema(s) => GrammarSource::Schema(s.deep_clone()),
            GrammarSource::Gbnf(g) => GrammarSource::Gbnf(g.clone()),
        }
    }
}

} // verus!
