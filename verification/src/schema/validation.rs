//! Validation of a JSON value against a [`SchemaKind`], reporting the first
//! mismatch with its context (field path, array index, variant data).
use vstd::prelude::*;

use crate::json::{
    json_eq, json_equal, json_render, lemma_entry_models_index, lemma_models_index, lookup, numeral_integral,
    numeral_is_integral, render_json, Json, JsonNumber, JsonValue, NumModel,
};
use crate::schema::gbnf::{all_unit, all_unit_exec};
use crate::schema::kind::{
    lemma_field_models, lemma_variant_models, Field, Schema, SchemaField, SchemaKind, SchemaVariant, Variant,
};
use crate::text::str_eq;

verus! {

broadcast use vstd::std_specs::vec::group_vec_axioms;

/// Why a value does not match a schema.
#[derive(Debug)]
pub enum SchemaValidationError {
    TypeMismatch { expected: String, actual: String },
    MissingField { field: String },
    UnknownField { field: String },
    InvalidVariant { variant: String },
    InvalidLiteral { expected: String, actual: String },
    InvalidArrayElement { index: usize, error: Box<SchemaValidationError> },
    InvalidField { field: String, error: Box<SchemaValidationError> },
    InvalidMapValue { key: String, error: Box<SchemaValidationError> },
    InvalidVariantData { variant: String, error: Box<SchemaValidationError> },
}

/// Model of a [`SchemaValidationError`].
pub enum VErr {
    TypeMismatch { expected: Seq<char>, actual: Seq<char> },
    MissingField { field: Seq<char> },
    UnknownField { field: Seq<char> },
    InvalidVariant { variant: Seq<char> },
    InvalidLiteral { expected: Seq<char>, actual: Seq<char> },
    InvalidArrayElement { index: int, error: Box<VErr> },
    InvalidField { field: Seq<char>, error: Box<VErr> },
    InvalidMapValue { key: Seq<char>, error: Box<VErr> },
    InvalidVariantData { variant: Seq<char>, error: Box<VErr> },
}

impl SchemaValidationError {
    pub open spec fn model(self) -> VErr
        decreases self,
    {
        match self {
            SchemaValidationError::TypeMismatch { expected, actual } => VErr::TypeMismatch {
                expected: expected@,
                actual: actual@,
            },
            SchemaValidationError::MissingField { field } => VErr::MissingField { field: field@ },
            SchemaValidationError::UnknownField { field } => VErr::UnknownField { field: field@ },
            SchemaValidationError::InvalidVariant { variant } => VErr::InvalidVariant { variant: variant@ },
            SchemaValidationError::InvalidLiteral { expected, actual } => VErr::InvalidLiteral {
                expected: expected@,
                actual: actual@,
            },
            SchemaValidationError::InvalidArrayElement { index, error } => VErr::InvalidArrayElement {
                index: index as int,
                error: Box::new((*error).model()),
            },
            SchemaValidationError::InvalidField { field, error } => VErr::InvalidField {
                field: field@,
                error: Box::new((*error).model()),
            },
            SchemaValidationError::InvalidMapValue { key, error } => VErr::InvalidMapValue {
                key: key@,
                error: Box::new((*error).model()),
            },
            SchemaValidationError::InvalidVariantData { variant, error } => VErr::InvalidVariantData {
                variant: variant@,
                error: Box::new((*error).model()),
            },
        }
    }
}

impl View for SchemaValidationError {
    type V = VErr;

    open spec fn view(&self) -> VErr {
        self.model()
    }
}

/// The JSON type name used in mismatch reports.
pub open spec fn json_kind_name(v: Json) -> Seq<char> {
    match v {
        Json::Null => "null"@,
        Json::Bool(_) => "boolean"@,
        Json::Number(NumModel::Float(_)) => "number"@,
        Json::Number(_) => "integer"@,
        Json::Str(_) => "string"@,
        Json::Array(_) => "array"@,
        Json::Object(_) => "object"@,
    }
}

pub open spec fn mismatch(expected: Seq<char>, v: Json) -> Result<(), VErr> {
    Err(VErr::TypeMismatch { expected, actual: json_kind_name(v) })
}

/// The outcome of validating `v` against `s`: the first mismatch, in schema
/// order (fields in declaration order, array elements and map entries in
/// order).
pub open spec fn validate(s: Schema, v: Json) -> Result<(), VErr>
    decreases s, 0int,
{
    match s {
        Schema::String => if v is Str { Ok(()) } else { mismatch("string"@, v) },
        Schema::Number => if v is Number { Ok(()) } else { mismatch("number"@, v) },
        Schema::Integer => match v {
            Json::Number(NumModel::Float(t)) => if numeral_is_integral(t) {
                Ok(())
            } else {
                Err(VErr::TypeMismatch { expected: "integer"@, actual: "float"@ })
            },
            Json::Number(_) => Ok(()),
            _ => mismatch("integer"@, v),
        },
        Schema::Boolean => if v is Bool { Ok(()) } else { mismatch("boolean"@, v) },
        Schema::Any => Ok(()),
        Schema::Literal(e) => if json_equal(v, e) {
            Ok(())
        } else {
            Err(VErr::InvalidLiteral { expected: json_render(e), actual: json_render(v) })
        },
        Schema::Array(items) => match v {
            Json::Array(xs) => validate_items(*items, xs, 0),
            _ => mismatch("array"@, v),
        },
        Schema::Optional(inner) => if v is Null { Ok(()) } else { validate(*inner, v) },
        Schema::MapOf(values) => match v {
            Json::Object(es) => validate_entries(*values, es),
            _ => mismatch("object"@, v),
        },
        Schema::Object(fields) => match v {
            Json::Object(es) => validate_fields(fields, es),
            _ => mismatch("object"@, v),
        },
        Schema::Enum(variants) => validate_enum(variants, v),
    }
}

/// Elements `xs`, the first at index `offset`, against the item schema.
pub open spec fn validate_items(item: Schema, xs: Seq<Json>, offset: int) -> Result<(), VErr>
    decreases item, xs.len() + 1,
{
    if xs.len() == 0 {
        Ok(())
    } else {
        match validate(item, xs[0]) {
            Err(e) => Err(VErr::InvalidArrayElement { index: offset, error: Box::new(e) }),
            Ok(_) => validate_items(item, xs.drop_first(), offset + 1),
        }
    }
}

/// Map entries in order against the value schema.
pub open spec fn validate_entries(values: Schema, es: Seq<(Seq<char>, Json)>) -> Result<(), VErr>
    decreases values, es.len() + 1,
{
    if es.len() == 0 {
        Ok(())
    } else {
        match validate(values, es[0].1) {
            Err(e) => Err(VErr::InvalidMapValue { key: es[0].0, error: Box::new(e) }),
            Ok(_) => validate_entries(values, es.drop_first()),
        }
    }
}

/// Declared fields in order against an object's entries.
pub open spec fn validate_fields(fields: Seq<Field>, es: Seq<(Seq<char>, Json)>) -> Result<(), VErr>
    decreases fields, 0int,
{
    if fields.len() == 0 {
        Ok(())
    } else {
        let f = fields[0];
        let rest = validate_fields(fields.drop_first(), es);
        match lookup(es, f.name) {
            Some(x) => match validate(f.schema, x) {
                Err(e) => Err(VErr::InvalidField { field: f.name, error: Box::new(e) }),
                Ok(_) => rest,
            },
            None => if f.required { Err(VErr::MissingField { field: f.name }) } else { rest },
        }
    }
}

/// The variant data's declared fields against the tagged object's entries;
/// failures are reported inside `InvalidVariantData` for `variant`.
pub open spec fn validate_variant_fields(variant: Seq<char>, fields: Seq<Field>, es: Seq<(Seq<char>, Json)>) -> Result<(), VErr>
    decreases fields, 0int,
{
    if fields.len() == 0 {
        Ok(())
    } else {
        let f = fields[0];
        let rest = validate_variant_fields(variant, fields.drop_first(), es);
        match lookup(es, f.name) {
            Some(x) => match validate(f.schema, x) {
                Err(e) => Err(VErr::InvalidVariantData { variant, error: Box::new(e) }),
                Ok(_) => rest,
            },
            None => if f.required {
                Err(VErr::InvalidVariantData { variant, error: Box::new(VErr::MissingField { field: f.name }) })
            } else {
                rest
            },
        }
    }
}

/// Index of the first variant named `name`, or `variants.len()`.
pub open spec fn find_variant(variants: Seq<Variant>, name: Seq<char>) -> int
    decreases variants.len(),
{
    if variants.len() == 0 {
        0
    } else if variants[0].name == name {
        0
    } else {
        1 + find_variant(variants.drop_first(), name)
    }
}

pub proof fn lemma_find_variant_bound(variants: Seq<Variant>, name: Seq<char>)
    ensures
        0 <= find_variant(variants, name) <= variants.len(),
        find_variant(variants, name) < variants.len() ==> variants[find_variant(variants, name)].name == name,
        forall|j: int| 0 <= j < find_variant(variants, name) ==> variants[j].name != name,
    decreases variants.len(),
{
    if variants.len() > 0 && variants[0].name != name {
        lemma_find_variant_bound(variants.drop_first(), name);
        assert forall|j: int| 0 <= j < find_variant(variants, name) implies variants[j].name != name by {
            if j > 0 {
                assert(variants[j] == variants.drop_first()[j - 1]);
            }
        }
    }
}

/// A value against an enum: a plain string naming a variant when no variant
/// carries data; otherwise an object tagged by `"type"`.
pub open spec fn validate_enum(variants: Seq<Variant>, v: Json) -> Result<(), VErr>
    decreases variants, 0int,
{
    if all_unit(variants) {
        match v {
            Json::Str(s) => if exists|i: int| 0 <= i < variants.len() && variants[i].name == s {
                Ok(())
            } else {
                Err(VErr::InvalidVariant { variant: s })
            },
            _ => mismatch("string (enum)"@, v),
        }
    } else {
        match v {
            Json::Object(es) => match lookup(es, "type"@) {
                None => Err(VErr::MissingField { field: "type"@ }),
                Some(Json::Str(name)) => {
                    let i = find_variant(variants, name);
                    if 0 <= i < variants.len() {
                        match variants[i].data {
                            None => Ok(()),
                            Some(Schema::Object(fields)) => validate_variant_fields(name, fields, es),
                            Some(data) => match lookup(es, "data"@) {
                                None => Err(VErr::InvalidVariantData {
                                    variant: name,
                                    error: Box::new(VErr::MissingField { field: "data"@ }),
                                }),
                                Some(x) => match validate(data, x) {
                                    Ok(_) => Ok(()),
                                    Err(e) => Err(VErr::InvalidVariantData { variant: name, error: Box::new(e) }),
                                },
                            },
                        }
                    } else {
                        Err(VErr::InvalidVariant { variant: name })
                    }
                },
                Some(t) => mismatch("string"@, t),
            },
            _ => mismatch("object (tagged union)"@, v),
        }
    }
}

} // verus!

verus! {

/// The model of a validation outcome.
pub open spec fn outcome(r: Result<(), SchemaValidationError>) -> Result<(), VErr> {
    match r {
        Ok(_) => Ok(()),
        Err(e) => Err(e@),
    }
}

fn kind_name(v: &JsonValue) -> (r: String)
    ensures
        r@ == json_kind_name(v@),
{
    match v {
        JsonValue::Null => "null".to_owned(),
        JsonValue::Bool(_) => "boolean".to_owned(),
        JsonValue::Number(JsonNumber::Float(_)) => "number".to_owned(),
        JsonValue::Number(_) => "integer".to_owned(),
        JsonValue::String(_) => "string".to_owned(),
        JsonValue::Array(_) => "array".to_owned(),
        JsonValue::Object(_) => "object".to_owned(),
    }
}

fn type_mismatch(expected: &str, v: &JsonValue) -> (r: Result<(), SchemaValidationError>)
    ensures
        outcome(r) == mismatch(expected@, v@),
{
    Err(SchemaValidationError::TypeMismatch { expected: expected.to_owned(), actual: kind_name(v) })
}

impl SchemaKind {
    /// Validate a JSON value against this schema; the first mismatch is
    /// returned with its context.
    pub fn validate(&self, value: &JsonValue) -> (r: Result<(), SchemaValidationError>)
        ensures
            outcome(r) == validate(self@, value@),
        decreases self, 0int,
    {
        match self {
            SchemaKind::String => match value {
                JsonValue::String(_) => Ok(()),
                _ => type_mismatch("string", value),
            },
            SchemaKind::Number => match value {
                JsonValue::Number(_) => Ok(()),
                _ => type_mismatch("number", value),
            },
            SchemaKind::Integer => match value {
                JsonValue::Number(JsonNumber::Float(t)) => if numeral_integral(t.as_str()) {
                    Ok(())
                } else {
                    Err(SchemaValidationError::TypeMismatch { expected: "integer".to_owned(), actual: "float".to_owned() })
                },
                JsonValue::Number(_) => Ok(()),
                _ => type_mismatch("integer", value),
            },
            SchemaKind::Boolean => match value {
                JsonValue::Bool(_) => Ok(()),
                _ => type_mismatch("boolean", value),
            },
            SchemaKind::Any => Ok(()),
            SchemaKind::Literal { value: expected } => if json_eq(value, expected) {
                Ok(())
            } else {
                Err(SchemaValidationError::InvalidLiteral { expected: render_json(expected), actual: render_json(value) })
            },
            SchemaKind::Array { items } => match value {
                JsonValue::Array(xs) => validate_items_exec(items, xs),
                _ => type_mismatch("array", value),
            },
            SchemaKind::Optional { inner } => match value {
                JsonValue::Null => Ok(()),
                _ => inner.validate(value),
            },
            SchemaKind::MapOf { values } => match value {
                JsonValue::Object(es) => validate_entries_exec(values, es),
                _ => type_mismatch("object", value),
            },
            SchemaKind::Object { fields } => match value {
                JsonValue::Object(_) => validate_fields_exec(fields, value),
                _ => type_mismatch("object", value),
            },
            SchemaKind::Enum { variants } => validate_enum_exec(variants, value),
        }
    }
}

fn validate_items_exec(item: &SchemaKind, xs: &Vec<JsonValue>) -> (r: Result<(), SchemaValidationError>)
    ensures
        outcome(r) == validate_items(item@, JsonValue::models(xs@), 0),
    decreases item, 1int,
{
    proof { lemma_models_index(xs@); }
    let ghost ms = JsonValue::models(xs@);
    assert(ms.subrange(0, ms.len() as int) == ms);
    let mut i: usize = 0;
    while i < xs.len()
        invariant
            i <= xs.len(),
            ms == JsonValue::models(xs@),
            ms.len() == xs.len(),
            forall|k: int| 0 <= k < xs.len() ==> #[trigger] ms[k] == xs@[k]@,
            validate_items(item@, ms, 0) == validate_items(item@, ms.subrange(i as int, ms.len() as int), i as int),
        decreases xs.len() - i,
    {
        let ghost rest = ms.subrange(i as int, ms.len() as int);
        assert(rest[0] == ms[i as int]);
        assert(rest.drop_first() == ms.subrange(i + 1, ms.len() as int));
        match item.validate(&xs[i]) {
            Err(e) => {
                return Err(SchemaValidationError::InvalidArrayElement { index: i, error: Box::new(e) });
            },
            Ok(_) => {},
        }
        i = i + 1;
    }
    Ok(())
}

fn validate_entries_exec(values: &SchemaKind, es: &Vec<(String, JsonValue)>) -> (r: Result<(), SchemaValidationError>)
    ensures
        outcome(r) == validate_entries(values@, JsonValue::entry_models(es@)),
    decreases values, 1int,
{
    proof { lemma_entry_models_index(es@); }
    let ghost ms = JsonValue::entry_models(es@);
    assert(ms.subrange(0, ms.len() as int) == ms);
    let mut i: usize = 0;
    while i < es.len()
        invariant
            i <= es.len(),
            ms == JsonValue::entry_models(es@),
            ms.len() == es.len(),
            forall|k: int| 0 <= k < es.len() ==> #[trigger] ms[k] == (es@[k].0@, es@[k].1@),
            validate_entries(values@, ms) == validate_entries(values@, ms.subrange(i as int, ms.len() as int)),
        decreases es.len() - i,
    {
        let ghost rest = ms.subrange(i as int, ms.len() as int);
        assert(rest[0] == ms[i as int]);
        assert(rest.drop_first() == ms.subrange(i + 1, ms.len() as int));
        match values.validate(&es[i].1) {
            Err(e) => {
                return Err(SchemaValidationError::InvalidMapValue { key: es[i].0.clone(), error: Box::new(e) });
            },
            Ok(_) => {},
        }
        i = i + 1;
    }
    Ok(())
}

fn validate_fields_exec(fields: &Vec<SchemaField>, value: &JsonValue) -> (r: Result<(), SchemaValidationError>)
    requires
        value@ is Object,
    ensures
        outcome(r) == validate_fields(SchemaKind::field_models(fields@), value@->Object_0),
    decreases fields, 0int,
{
    proof { lemma_field_models(fields@); }
    let ghost fm = SchemaKind::field_models(fields@);
    let ghost es = value@->Object_0;
    assert(fm.subrange(0, fm.len() as int) == fm);
    let mut i: usize = 0;
    while i < fields.len()
        invariant
            i <= fields.len(),
            fm == SchemaKind::field_models(fields@),
            fm.len() == fields.len(),
            value@ == Json::Object(es),
            forall|k: int| 0 <= k < fields.len() ==> #[trigger] fm[k] == fields@[k]@,
            validate_fields(fm, es) == validate_fields(fm.subrange(i as int, fm.len() as int), es),
        decreases fields.len() - i,
    {
        let ghost rest = fm.subrange(i as int, fm.len() as int);
        assert(rest[0] == fm[i as int]);
        assert(rest.drop_first() == fm.subrange(i + 1, fm.len() as int));
        proof {
            assert(decreases_to!(fields => fields@));
            assert(decreases_to!(fields@ => fields@[i as int]));
        }
        let f = &fields[i];
        match value.get(f.name.as_str()) {
            Some(x) => {
                match f.schema.validate(x) {
                    Err(e) => {
                        return Err(SchemaValidationError::InvalidField { field: f.name.clone(), error: Box::new(e) });
                    },
                    Ok(_) => {},
                }
            },
            None => {
                if f.required {
                    return Err(SchemaValidationError::MissingField { field: f.name.clone() });
                }
            },
        }
        i = i + 1;
    }
    Ok(())
}

fn validate_variant_fields_exec(variant: &String, fields: &Vec<SchemaField>, value: &JsonValue) -> (r: Result<(), SchemaValidationError>)
    requires
        value@ is Object,
    ensures
        outcome(r) == validate_variant_fields(variant@, SchemaKind::field_models(fields@), value@->Object_0),
    decreases fields, 0int,
{
    proof { lemma_field_models(fields@); }
    let ghost fm = SchemaKind::field_models(fields@);
    let ghost es = value@->Object_0;
    assert(fm.subrange(0, fm.len() as int) == fm);
    let mut i: usize = 0;
    while i < fields.len()
        invariant
            i <= fields.len(),
            fm == SchemaKind::field_models(fields@),
            fm.len() == fields.len(),
            value@ == Json::Object(es),
            forall|k: int| 0 <= k < fields.len() ==> #[trigger] fm[k] == fields@[k]@,
            validate_variant_fields(variant@, fm, es) == validate_variant_fields(
                variant@,
                fm.subrange(i as int, fm.len() as int),
                es,
            ),
        decreases fields.len() - i,
    {
        let ghost rest = fm.subrange(i as int, fm.len() as int);
        assert(rest[0] == fm[i as int]);
        assert(rest.drop_first() == fm.subrange(i + 1, fm.len() as int));
        proof {
            assert(decreases_to!(fields => fields@));
            assert(decreases_to!(fields@ => fields@[i as int]));
        }
        let f = &fields[i];
        match value.get(f.name.as_str()) {
            Some(x) => {
                match f.schema.validate(x) {
                    Err(e) => {
                        return Err(SchemaValidationError::InvalidVariantData { variant: variant.clone(), error: Box::new(e) });
                    },
                    Ok(_) => {},
                }
            },
            None => {
                if f.required {
                    let inner = SchemaValidationError::MissingField { field: f.name.clone() };
                    assert(inner@ == VErr::MissingField { field: f.name@ });
                    let e = SchemaValidationError::InvalidVariantData { variant: variant.clone(), error: Box::new(inner) };
                    assert(e@ == VErr::InvalidVariantData { variant: variant@, error: Box::new(inner@) });
                    return Err(e);
                }
            },
        }
        i = i + 1;
    }
    Ok(())
}

/// Index of the first variant named `name`, or `variants.len()`.
fn find_variant_exec(variants: &Vec<SchemaVariant>, name: &str) -> (r: usize)
    ensures
        r == find_variant(SchemaKind::variant_models(variants@), name@),
        r <= variants.len(),
{
    proof { lemma_variant_models(variants@); }
    let ghost vm = SchemaKind::variant_models(variants@);
    let mut i: usize = 0;
    while i < variants.len()
        invariant
            i <= variants.len(),
            vm == SchemaKind::variant_models(variants@),
            vm.len() == variants.len(),
            forall|k: int| 0 <= k < variants.len() ==> #[trigger] vm[k] == variants@[k]@,
            forall|k: int| 0 <= k < i ==> vm[k].name != name@,
        decreases variants.len() - i,
    {
        if str_eq(variants[i].name.as_str(), name) {
            proof {
                lemma_find_variant_bound(vm, name@);
                let f = find_variant(vm, name@);
                if f < i {
                    assert(vm[f].name == name@);
                }
                if i < f {
                    assert(vm[i as int].name == name@);
                }
            }
            return i;
        }
        i = i + 1;
    }
    proof {
        lemma_find_variant_bound(vm, name@);
        let f = find_variant(vm, name@);
        if f < i {
            assert(vm[f].name == name@);
        }
    }
    i
}

fn validate_enum_exec(variants: &Vec<SchemaVariant>, value: &JsonValue) -> (r: Result<(), SchemaValidationError>)
    ensures
        outcome(r) == validate_enum(SchemaKind::variant_models(variants@), value@),
    decreases variants, 0int,
{
    proof { lemma_variant_models(variants@); }
    let ghost vm = SchemaKind::variant_models(variants@);
    if all_unit_exec(variants) {
        match value {
            JsonValue::String(s) => {
                let i = find_variant_exec(variants, s.as_str());
                proof { lemma_find_variant_bound(vm, s@); }
                if i < variants.len() {
                    assert(vm[i as int].name == s@);
                    Ok(())
                } else {
                    Err(SchemaValidationError::InvalidVariant { variant: s.clone() })
                }
            },
            _ => type_mismatch("string (enum)", value),
        }
    } else {
        match value {
            JsonValue::Object(_) => {
                proof { reveal_strlit("type"); }
                match value.get("type") {
                    None => Err(SchemaValidationError::MissingField { field: "type".to_owned() }),
                    Some(t) => match t {
                        JsonValue::String(name) => {
                            let i = find_variant_exec(variants, name.as_str());
                            proof { lemma_find_variant_bound(vm, name@); }
                            if i < variants.len() {
                                proof {
                                    assert(decreases_to!(variants => variants@));
                                    assert(decreases_to!(variants@ => variants@[i as int]));
                                    assert(vm[i as int] == variants@[i as int]@);
                                }
                                match &variants[i].data {
                                    None => Ok(()),
                                    Some(data) => match data {
                                        SchemaKind::Object { fields } => validate_variant_fields_exec(name, fields, value),
                                        _ => {
                                            match value.get("data") {
                                                None => {
                                                    let inner = SchemaValidationError::MissingField { field: "data".to_owned() };
                                                    assert(inner@ == VErr::MissingField { field: "data"@ });
                                                    let e = SchemaValidationError::InvalidVariantData { variant: name.clone(), error: Box::new(inner) };
                                                    assert(e@ == VErr::InvalidVariantData { variant: name@, error: Box::new(inner@) });
                                                    Err(e)
                                                },
                                                Some(x) => match data.validate(x) {
                                                    Ok(_) => Ok(()),
                                                    Err(e) => Err(SchemaValidationError::InvalidVariantData { variant: name.clone(), error: Box::new(e) }),
                                                },
                                            }
                                        },
                                    },
                                }
                            } else {
                                Err(SchemaValidationError::InvalidVariant { variant: name.clone() })
                            }
                        },
                        _ => type_mismatch("string", t),
                    },
                }
            },
            _ => type_mismatch("object (tagged union)", value),
        }
    }
}

} // verus!

verus! {

/// The human-readable text of a validation error.
pub open spec fn verr_text(e: VErr) -> Seq<char>
    decreases e,
{
    match e {
        VErr::TypeMismatch { expected, actual } => "Type mismatch: expected "@ + expected + ", got "@ + actual,
        VErr::MissingField { field } => "Missing required field: "@ + field,
        VErr::UnknownField { field } => "Unknown field: "@ + field,
        VErr::InvalidVariant { variant } => "Invalid enum variant: "@ + variant,
        VErr::InvalidLiteral { expected, actual } => "Invalid literal: expected "@ + expected + ", got "@ + actual,
        VErr::InvalidArrayElement { index, error } => "Invalid array element at index "@ + crate::text::decimal(index as nat)
            + ": "@ + verr_text(*error),
        VErr::InvalidField { field, error } => "Invalid field '"@ + field + "': "@ + verr_text(*error),
        VErr::InvalidMapValue { key, error } => "Invalid map value for key '"@ + key + "': "@ + verr_text(*error),
        VErr::InvalidVariantData { variant, error } => "Invalid variant data for '"@ + variant + "': "@ + verr_text(*error),
    }
}

impl SchemaValidationError {
    /// Appends the error's text.
    pub fn write_message(&self, out: &mut String)
        ensures
            final(out)@ == old(out)@ + verr_text(self@),
        decreases self,
    {
        match self {
            SchemaValidationError::TypeMismatch { expected, actual } => {
                out.append("Type mismatch: expected ");
                out.append(expected.as_str());
                out.append(", got ");
                out.append(actual.as_str());
            },
            SchemaValidationError::MissingField { field } => {
                out.append("Missing required field: ");
                out.append(field.as_str());
            },
            SchemaValidationError::UnknownField { field } => {
                out.append("Unknown field: ");
                out.append(field.as_str());
            },
            SchemaValidationError::InvalidVariant { variant } => {
                out.append("Invalid enum variant: ");
                out.append(variant.as_str());
            },
            SchemaValidationError::InvalidLiteral { expected, actual } => {
                out.append("Invalid literal: expected ");
                out.append(expected.as_str());
                out.append(", got ");
                out.append(actual.as_str());
            },
            SchemaValidationError::InvalidArrayElement { index, error } => {
                out.append("Invalid array element at index ");
                crate::text::push_decimal(out, *index as u64);
                out.append(": ");
                error.write_message(out);
            },
            SchemaValidationError::InvalidField { field, error } => {
                out.append("Invalid field '");
                out.append(field.as_str());
                out.append("': ");
                error.write_message(out);
            },
            SchemaValidationError::InvalidMapValue { key, error } => {
                out.append("Invalid map value for key '");
                out.append(key.as_str());
                out.append("': ");
                error.write_message(out);
            },
            SchemaValidationError::InvalidVariantData { variant, error } => {
                out.append("Invalid variant data for '");
                out.append(variant.as_str());
                out.append("': ");
                error.write_message(out);
            },
        }
    }

    /// The error's text.
    pub fn to_string(&self) -> (r: String)
        ensures
            r@ == verr_text(self@),
    {
        let mut out = String::new();
        self.write_message(&mut out);
        out
    }
}

} // verus!

verus! {

/// Index of the first element of `xs` that `item` refuses, or `xs.len()`.
pub open spec fn first_invalid(item: Schema, xs: Seq<Json>) -> int
    decreases xs.len(),
{
    if xs.len() == 0 {
        0
    } else if validate(item, xs[0]) is Err {
        0
    } else {
        1 + first_invalid(item, xs.drop_first())
    }
}

proof fn lemma_validate_items(item: Schema, xs: Seq<Json>, offset: int)
    ensures
        ({
            let k = first_invalid(item, xs);
            &&& 0 <= k <= xs.len()
            &&& forall|i: int| 0 <= i < k ==> #[trigger] validate(item, xs[i]) is Ok
            &&& k < xs.len() ==> validate(item, xs[k]) is Err
            &&& k == xs.len() ==> validate_items(item, xs, offset) == Ok::<(), VErr>(())
            &&& k < xs.len() ==> validate_items(item, xs, offset) == Err::<(), VErr>(VErr::InvalidArrayElement {
                index: offset + k,
                error: Box::new(validate(item, xs[k])->Err_0),
            })
        }),
    decreases xs.len(),
{
    if xs.len() > 0 && validate(item, xs[0]) is Ok {
        let rest = xs.drop_first();
        lemma_validate_items(item, rest, offset + 1);
        assert forall|i: int| 0 <= i < first_invalid(item, xs) implies #[trigger] validate(item, xs[i]) is Ok by {
            if i > 0 {
                assert(xs[i] == rest[i - 1]);
            }
        }
        if first_invalid(item, xs) < xs.len() {
            assert(xs[first_invalid(item, xs)] == rest[first_invalid(item, rest)]);
        }
    }
}

/// An array is valid exactly when every element is; otherwise the error is
/// that of the first element refused, reported at its index.
pub proof fn law_array_valid_iff_every_element(item: Schema, xs: Seq<Json>)
    ensures
        validate(Schema::Array(Box::new(item)), Json::Array(xs)) is Ok
            <==> forall|i: int| 0 <= i < xs.len() ==> #[trigger] validate(item, xs[i]) is Ok,
        ({
            let k = first_invalid(item, xs);
            &&& 0 <= k <= xs.len()
            &&& forall|i: int| 0 <= i < k ==> #[trigger] validate(item, xs[i]) is Ok
            &&& k < xs.len() ==> validate(item, xs[k]) is Err
                && validate(Schema::Array(Box::new(item)), Json::Array(xs)) == Err::<(), VErr>(VErr::InvalidArrayElement {
                    index: k,
                    error: Box::new(validate(item, xs[k])->Err_0),
                })
        }),
{
    lemma_validate_items(item, xs, 0);
}

/// Index of the first entry whose value `values` refuses, or `es.len()`.
pub open spec fn first_invalid_entry(values: Schema, es: Seq<(Seq<char>, Json)>) -> int
    decreases es.len(),
{
    if es.len() == 0 {
        0
    } else if validate(values, es[0].1) is Err {
        0
    } else {
        1 + first_invalid_entry(values, es.drop_first())
    }
}

proof fn lemma_validate_entries(values: Schema, es: Seq<(Seq<char>, Json)>)
    ensures
        ({
            let k = first_invalid_entry(values, es);
            &&& 0 <= k <= es.len()
            &&& forall|i: int| 0 <= i < k ==> #[trigger] validate(values, es[i].1) is Ok
            &&& k < es.len() ==> validate(values, es[k].1) is Err
            &&& k == es.len() ==> validate_entries(values, es) == Ok::<(), VErr>(())
            &&& k < es.len() ==> validate_entries(values, es) == Err::<(), VErr>(VErr::InvalidMapValue {
                key: es[k].0,
                error: Box::new(validate(values, es[k].1)->Err_0),
            })
        }),
    decreases es.len(),
{
    if es.len() > 0 && validate(values, es[0].1) is Ok {
        let rest = es.drop_first();
        lemma_validate_entries(values, rest);
        assert forall|i: int| 0 <= i < first_invalid_entry(values, es) implies #[trigger] validate(values, es[i].1) is Ok by {
            if i > 0 {
                assert(es[i] == rest[i - 1]);
            }
        }
        if first_invalid_entry(values, es) < es.len() {
            assert(es[first_invalid_entry(values, es)] == rest[first_invalid_entry(values, rest)]);
        }
    }
}

/// An object is a valid map exactly when every entry's value is valid;
/// otherwise the error names the first entry refused, with its value's error.
pub proof fn law_map_valid_iff_every_value(values: Schema, es: Seq<(Seq<char>, Json)>)
    ensures
        validate(Schema::MapOf(Box::new(values)), Json::Object(es)) is Ok
            <==> forall|i: int| 0 <= i < es.len() ==> #[trigger] validate(values, es[i].1) is Ok,
        ({
            let k = first_invalid_entry(values, es);
            &&& 0 <= k <= es.len()
            &&& forall|i: int| 0 <= i < k ==> #[trigger] validate(values, es[i].1) is Ok
            &&& k < es.len() ==> validate(values, es[k].1) is Err
                && validate(Schema::MapOf(Box::new(values)), Json::Object(es)) == Err::<(), VErr>(VErr::InvalidMapValue {
                    key: es[k].0,
                    error: Box::new(validate(values, es[k].1)->Err_0),
                })
        }),
{
    lemma_validate_entries(values, es);
}

} // verus!
