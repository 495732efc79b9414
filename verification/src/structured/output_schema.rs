//! [`OutputSchemaRequest`]: a structured-output schema request carried by a
//! [`crate::message::Context`] for agents to interpret.
use vstd::prelude::*;

use crate::json::{Json, JsonValue};
use crate::schema::kind::{GrammarSource, Schema, SchemaKind};

verus! {

/// Model of a [`GrammarSource`].
pub enum GrammarModel {
    Schema(Schema),
    Gbnf(Seq<char>),
}

impl View for GrammarSource {
    type V = GrammarModel;

    open spec fn view(&self) -> GrammarModel {
        match self {
            GrammarSource::Schema(s) => GrammarModel::Schema(s@),
            GrammarSource::Gbnf(g) => GrammarModel::Gbnf(g@),
        }
    }
}

/// Schema request attached to a context for agents to interpret.
#[derive(Debug, PartialEq)]
pub struct OutputSchemaRequest {
    pub grammar: GrammarSource,
    /// Name of the requested output type.
    pub type_label: String,
    pub description: Option<String>,
    pub example: Option<JsonValue>,
    /// Hint: enforce strict adherence (no extra fields, etc.)
    pub strict: bool,
}

/// Model of an [`OutputSchemaRequest`].
pub struct RequestModel {
    pub grammar: GrammarModel,
    pub type_label: Seq<char>,
    pub description: Option<Seq<char>>,
    pub example: Option<Json>,
    pub strict: bool,
}

impl View for OutputSchemaRequest {
    type V = RequestModel;

    open spec fn view(&self) -> RequestModel {
        RequestModel {
            grammar: self.grammar@,
            type_label: self.type_label@,
            description: match self.description {
                Some(d) => Some(d@),
                None => None,
            },
            example: match self.example {
                Some(e) => Some(e@),
                None => None,
            },
            strict: self.strict,
        }
    }
}

impl Clone for OutputSchemaRequest {
    fn clone(&self) -> (r: Self)
        ensures
            r@ == self@,
    {
        let grammar = match &self.grammar {
            GrammarSource::Schema(s) => GrammarSource::Schema(s.deep_clone()),
            GrammarSource::Gbnf(g) => GrammarSource::Gbnf(g.clone()),
        };
        let description = match &self.description {
            Some(d) => Some(d.clone()),
            None => None,
        };
        let example = match &self.example {
            Some(e) => Some(e.deep_clone()),
            None => None,
        };
        OutputSchemaRequest { grammar, type_label: self.type_label.clone(), description, example, strict: self.strict }
    }
}

impl OutputSchemaRequest {
    /// A strict request for `schema`, named `type_label`.
    pub fn new(schema: SchemaKind, type_label: &str) -> (r: Self)
        ensures
            r@ == (RequestModel {
                grammar: GrammarModel::Schema(schema@),
                type_label: type_label@,
                description: None,
                example: None,
                strict: true,
            }),
    {
        OutputSchemaRequest {
            grammar: GrammarSource::Schema(schema),
            type_label: type_label.to_owned(),
            description: None,
            example: None,
            strict: true,
        }
    }

    /// A strict request from a raw grammar, such as a pre-built GBNF for a custom DSL.
    pub fn from_grammar(grammar: GrammarSource, type_label: &str) -> (r: Self)
        ensures
            r@ == (RequestModel {
                grammar: grammar@,
                type_label: type_label@,
                description: None,
                example: None,
                strict: true,
            }),
    {
        OutputSchemaRequest { grammar, type_label: type_label.to_owned(), description: None, example: None, strict: true }
    }

    pub fn with_description(self, desc: &str) -> (r: Self)
        ensures
            r@ == (RequestModel { description: Some(desc@), ..self@ }),
    {
        OutputSchemaRequest { description: Some(desc.to_owned()), ..self }
    }

    pub fn with_example(self, example: JsonValue) -> (r: Self)
        ensures
            r@ == (RequestModel { example: Some(example@), ..self@ }),
    {
        OutputSchemaRequest { example: Some(example), ..self }
    }

    pub fn strict(self, strict: bool) -> (r: Self)
        ensures
            r@ == (RequestModel { strict, ..self@ }),
    {
        OutputSchemaRequest { strict, ..self }
    }
}

} // verus!
