//! JSON Schema rendering of a [`SchemaKind`].
use vstd::prelude::*;

use crate::json::{
    entries_get, entries_insert, json_str, lemma_entry_models_index, lemma_models_index, lookup, obj_insert,
    push_entry, push_item, Json, JsonValue,
};
use crate::schema::gbnf::{all_unit, all_unit_exec};
use crate::schema::kind::{
    lemma_field_models, lemma_variant_models, lemma_field_models_push, lemma_variant_models_push, Field, Schema,
    SchemaField, SchemaKind, SchemaVariant, Variant,
};

verus! {

broadcast use vstd::std_specs::vec::group_vec_axioms;

/// `{"type": t}`.
pub open spec fn type_object(t: Seq<char>) -> Json {
    Json::Object(seq![("type"@, Json::Str(t))])
}

/// `{"const": v}`.
pub open spec fn const_object(v: Json) -> Json {
    Json::Object(seq![("const"@, v)])
}

/// A schema that also admits `null`: its `"type"` becomes `[type, "null"]`.
pub open spec fn nullable(j: Json) -> Json {
    match j {
        Json::Object(es) => match lookup(es, "type"@) {
            Some(t) => Json::Object(obj_insert(es, "type"@, Json::Array(seq![t, Json::Str("null"@)]))),
            None => j,
        },
        _ => j,
    }
}

/// Names of the required fields, as JSON strings.
pub open spec fn required_names(fields: Seq<Field>) -> Seq<Json> {
    fields.filter(|f: Field| f.required).map_values(|f: Field| Json::Str(f.name))
}

/// The JSON Schema of a schema.
pub open spec fn json_schema(s: Schema) -> Json
    decreases s,
{
    match s {
        Schema::String => type_object("string"@),
        Schema::Number => type_object("number"@),
        Schema::Integer => type_object("integer"@),
        Schema::Boolean => type_object("boolean"@),
        Schema::Any => Json::Object(Seq::empty()),
        Schema::Literal(v) => const_object(v),
        Schema::Array(items) => Json::Object(
            seq![("type"@, Json::Str("array"@)), ("items"@, json_schema(*items))],
        ),
        Schema::Optional(inner) => nullable(json_schema(*inner)),
        Schema::MapOf(values) => Json::Object(
            seq![("type"@, Json::Str("object"@)), ("additionalProperties"@, json_schema(*values))],
        ),
        Schema::Object(fields) => Json::Object(
            seq![
                ("type"@, Json::Str("object"@)),
                ("properties"@, Json::Object(properties(Seq::empty(), fields))),
                ("required"@, Json::Array(required_names(fields))),
            ],
        ),
        Schema::Enum(variants) => if all_unit(variants) {
            Json::Object(
                seq![
                    ("type"@, Json::Str("string"@)),
                    ("enum"@, Json::Array(variants.map_values(|v: Variant| Json::Str(v.name)))),
                ],
            )
        } else {
            Json::Object(seq![("oneOf"@, Json::Array(variant_schemas(variants)))])
        },
    }
}

/// A field's schema, with its description added when it has one.
pub open spec fn field_schema(f: Field) -> Json
    decreases f,
{
    let j = json_schema(f.schema);
    if f.description.len() > 0 && j is Object {
        Json::Object(obj_insert(j->Object_0, "description"@, Json::Str(f.description)))
    } else {
        j
    }
}

/// `base` with each field's schema inserted under its name, in order.
pub open spec fn properties(base: Seq<(Seq<char>, Json)>, fields: Seq<Field>) -> Seq<(Seq<char>, Json)>
    decreases fields,
{
    if fields.len() == 0 {
        base
    } else {
        obj_insert(
            properties(base, fields.subrange(0, fields.len() - 1)),
            fields[fields.len() - 1].name,
            field_schema(fields[fields.len() - 1]),
        )
    }
}

/// The `oneOf` alternative of one variant.
pub open spec fn variant_schema(v: Variant) -> Json
    decreases v,
{
    let tag = ("type"@, const_object(Json::Str(v.name)));
    match v.data {
        None => Json::Object(
            seq![
                ("type"@, Json::Str("object"@)),
                ("properties"@, Json::Object(seq![tag])),
                ("required"@, Json::Array(seq![Json::Str("type"@)])),
            ],
        ),
        Some(Schema::Object(fields)) => Json::Object(
            seq![
                ("type"@, Json::Str("object"@)),
                ("properties"@, Json::Object(properties(seq![tag], fields))),
                ("required"@, Json::Array(seq![Json::Str("type"@)] + required_names(fields))),
            ],
        ),
        Some(data) => Json::Object(
            seq![
                ("type"@, Json::Str("object"@)),
                ("properties"@, Json::Object(seq![tag, ("data"@, json_schema(data))])),
                ("required"@, Json::Array(seq![Json::Str("type"@), Json::Str("data"@)])),
            ],
        ),
    }
}

/// The `oneOf` alternatives of a tagged union, in order.
pub open spec fn variant_schemas(variants: Seq<Variant>) -> Seq<Json>
    decreases variants,
{
    if variants.len() == 0 {
        Seq::empty()
    } else {
        variant_schemas(variants.subrange(0, variants.len() - 1)).push(
            variant_schema(variants[variants.len() - 1]),
        )
    }
}

} // verus!

verus! {

fn type_object_exec(t: &str) -> (r: JsonValue)
    ensures
        r@ == type_object(t@),
{
    let mut es: Vec<(String, JsonValue)> = Vec::new();
    push_entry(&mut es, "type", json_str(t));
    assert(JsonValue::entry_models(es@) =~= seq![("type"@, Json::Str(t@))]);
    JsonValue::Object(es)
}

fn const_object_exec(v: JsonValue) -> (r: JsonValue)
    ensures
        r@ == const_object(v@),
{
    let mut es: Vec<(String, JsonValue)> = Vec::new();
    let ghost vm = v@;
    push_entry(&mut es, "const", v);
    assert(JsonValue::entry_models(es@) =~= seq![("const"@, vm)]);
    JsonValue::Object(es)
}

fn nullable_exec(j: JsonValue) -> (r: JsonValue)
    ensures
        r@ == nullable(j@),
{
    match j {
        JsonValue::Object(es) => {
            proof { reveal_strlit("type"); }
            let t = match entries_get(&es, "type") {
                Some(t) => Some(t.deep_clone()),
                None => None,
            };
            match t {
                Some(t) => {
                    let mut es = es;
                    let mut pair: Vec<JsonValue> = Vec::new();
                    let ghost tm = t@;
                    push_item(&mut pair, t);
                    push_item(&mut pair, json_str("null"));
                    assert(JsonValue::models(pair@) =~= seq![tm, Json::Str("null"@)]);
                    entries_insert(&mut es, "type".to_owned(), JsonValue::Array(pair));
                    JsonValue::Object(es)
                },
                None => JsonValue::Object(es),
            }
        },
        _ => j,
    }
}

fn required_names_exec(fields: &Vec<SchemaField>) -> (r: Vec<JsonValue>)
    ensures
        JsonValue::models(r@) == required_names(SchemaKind::field_models(fields@)),
{
    proof { lemma_field_models(fields@); }
    let ghost fm = SchemaKind::field_models(fields@);
    let mut out: Vec<JsonValue> = Vec::new();
    let mut i: usize = 0;
    while i < fields.len()
        invariant
            i <= fields.len(),
            fm == SchemaKind::field_models(fields@),
            fm.len() == fields.len(),
            forall|k: int| 0 <= k < fields.len() ==> #[trigger] fm[k] == fields@[k]@,
            JsonValue::models(out@) == required_names(fm.subrange(0, i as int)),
        decreases fields.len() - i,
    {
        proof {
            reveal_with_fuel(Seq::filter, 1);
            let sub = fm.subrange(0, i + 1);
            assert(sub.drop_last() == fm.subrange(0, i as int));
            assert(sub.last() == fm[i as int]);
        }
        if fields[i].required {
            push_item(&mut out, JsonValue::String(fields[i].name.clone()));
        }
        i = i + 1;
    }
    proof { assert(fm.subrange(0, fm.len() as int) == fm); }
    out
}

impl SchemaKind {
    /// JSON Schema representation.
    pub fn to_json_schema(&self) -> (r: JsonValue)
        ensures
            r@ == json_schema(self@),
        decreases self,
    {
        match self {
            SchemaKind::String => type_object_exec("string"),
            SchemaKind::Number => type_object_exec("number"),
            SchemaKind::Integer => type_object_exec("integer"),
            SchemaKind::Boolean => type_object_exec("boolean"),
            SchemaKind::Any => JsonValue::empty_object(),
            SchemaKind::Literal { value } => const_object_exec(value.deep_clone()),
            SchemaKind::Array { items } => {
                let mut es: Vec<(String, JsonValue)> = Vec::new();
                push_entry(&mut es, "type", json_str("array"));
                let it = items.to_json_schema();
                let ghost itm = it@;
                push_entry(&mut es, "items", it);
                assert(JsonValue::entry_models(es@) =~= seq![("type"@, Json::Str("array"@)), ("items"@, itm)]);
                JsonValue::Object(es)
            },
            SchemaKind::Optional { inner } => nullable_exec(inner.to_json_schema()),
            SchemaKind::MapOf { values } => {
                let mut es: Vec<(String, JsonValue)> = Vec::new();
                push_entry(&mut es, "type", json_str("object"));
                let vs = values.to_json_schema();
                let ghost vsm = vs@;
                push_entry(&mut es, "additionalProperties", vs);
                assert(JsonValue::entry_models(es@) =~= seq![("type"@, Json::Str("object"@)), ("additionalProperties"@, vsm)]);
                JsonValue::Object(es)
            },
            SchemaKind::Object { fields } => {
                let props = JsonValue::Object(properties_exec(Vec::new(), fields));
                let req = JsonValue::Array(required_names_exec(fields));
                let ghost (pm, rm) = (props@, req@);
                let mut es: Vec<(String, JsonValue)> = Vec::new();
                push_entry(&mut es, "type", json_str("object"));
                push_entry(&mut es, "properties", props);
                push_entry(&mut es, "required", req);
                assert(JsonValue::entry_models(es@) =~= seq![("type"@, Json::Str("object"@)), ("properties"@, pm), ("required"@, rm)]);
                JsonValue::Object(es)
            },
            SchemaKind::Enum { variants } => {
                let mut es: Vec<(String, JsonValue)> = Vec::new();
                if all_unit_exec(variants) {
                    let names = JsonValue::Array(variant_names_exec(variants));
                    let ghost nm = names@;
                    push_entry(&mut es, "type", json_str("string"));
                    push_entry(&mut es, "enum", names);
                    assert(JsonValue::entry_models(es@) =~= seq![("type"@, Json::Str("string"@)), ("enum"@, nm)]);
                } else {
                    let alts = JsonValue::Array(variant_schemas_exec(variants));
                    let ghost am = alts@;
                    push_entry(&mut es, "oneOf", alts);
                    assert(JsonValue::entry_models(es@) =~= seq![("oneOf"@, am)]);
                }
                JsonValue::Object(es)
            },
        }
    }
}

fn variant_names_exec(variants: &Vec<SchemaVariant>) -> (r: Vec<JsonValue>)
    ensures
        JsonValue::models(r@) == SchemaKind::variant_models(variants@).map_values(|v: Variant| Json::Str(v.name)),
{
    proof { lemma_variant_models(variants@); }
    let ghost vm = SchemaKind::variant_models(variants@);
    let mut out: Vec<JsonValue> = Vec::new();
    let mut i: usize = 0;
    while i < variants.len()
        invariant
            i <= variants.len(),
            vm == SchemaKind::variant_models(variants@),
            vm.len() == variants.len(),
            forall|k: int| 0 <= k < variants.len() ==> #[trigger] vm[k] == variants@[k]@,
            JsonValue::models(out@) == vm.subrange(0, i as int).map_values(|v: Variant| Json::Str(v.name)),
        decreases variants.len() - i,
    {
        push_item(&mut out, JsonValue::String(variants[i].name.clone()));
        proof {
            assert(vm.subrange(0, i + 1).map_values(|v: Variant| Json::Str(v.name))
                == vm.subrange(0, i as int).map_values(|v: Variant| Json::Str(v.name)).push(Json::Str(vm[i as int].name)));
        }
        i = i + 1;
    }
    proof { assert(vm.subrange(0, vm.len() as int) == vm); }
    out
}

fn field_schema_exec(f: &SchemaField) -> (r: JsonValue)
    ensures
        r@ == field_schema(f@),
    decreases f,
{
    let j = f.schema.to_json_schema();
    if !f.description.as_str().is_empty() {
        match j {
            JsonValue::Object(es) => {
                let mut es = es;
                entries_insert(&mut es, "description".to_owned(), JsonValue::String(f.description.clone()));
                JsonValue::Object(es)
            },
            _ => j,
        }
    } else {
        j
    }
}

fn properties_exec(base: Vec<(String, JsonValue)>, fields: &Vec<SchemaField>) -> (r: Vec<(String, JsonValue)>)
    ensures
        JsonValue::entry_models(r@) == properties(JsonValue::entry_models(base@), SchemaKind::field_models(fields@)),
    decreases fields,
{
    let ghost b = JsonValue::entry_models(base@);
    let mut out = base;
    let mut i: usize = 0;
    while i < fields.len()
        invariant
            i <= fields.len(),
            JsonValue::entry_models(out@) == properties(b, SchemaKind::field_models(fields@.subrange(0, i as int))),
        decreases fields.len() - i,
    {
        proof {
            assert(decreases_to!(fields => fields@));
            assert(decreases_to!(fields@ => fields@[i as int]));
            lemma_field_models_push(fields@.subrange(0, i as int), fields@[i as int]);
            assert(fields@.subrange(0, i as int).push(fields@[i as int]) == fields@.subrange(0, i + 1));
            let ms = SchemaKind::field_models(fields@.subrange(0, i as int));
            assert(ms.push(fields@[i as int]@).subrange(0, ms.len() as int) == ms);
            lemma_field_models(fields@.subrange(0, i as int));
        }
        let f = &fields[i];
        let fs = field_schema_exec(f);
        entries_insert(&mut out, f.name.clone(), fs);
        i = i + 1;
    }
    proof { assert(fields@.subrange(0, fields@.len() as int) == fields@); }
    out
}

fn variant_schema_exec(v: &SchemaVariant) -> (r: JsonValue)
    ensures
        r@ == variant_schema(v@),
    decreases v,
{
    let tagv = const_object_exec(JsonValue::String(v.name.clone()));
    let ghost tag = ("type"@, tagv@);
    let mut props: Vec<(String, JsonValue)> = Vec::new();
    push_entry(&mut props, "type", tagv);
    assert(JsonValue::entry_models(props@) =~= seq![tag]);
    let mut required: Vec<JsonValue> = Vec::new();
    push_item(&mut required, json_str("type"));
    assert(JsonValue::models(required@) =~= seq![Json::Str("type"@)]);
    let (pv, rv) = match &v.data {
        None => (JsonValue::Object(props), JsonValue::Array(required)),
        Some(data) => match data {
            SchemaKind::Object { fields } => {
                let props = properties_exec(props, fields);
                let names = required_names_exec(fields);
                let mut k: usize = 0;
                let ghost head = JsonValue::models(required@);
                proof { lemma_models_index(names@); }
                while k < names.len()
                    invariant
                        k <= names.len(),
                        JsonValue::models(required@) == head + JsonValue::models(names@).subrange(0, k as int),
                        JsonValue::models(names@).len() == names.len(),
                        forall|q: int| 0 <= q < names.len() ==> #[trigger] JsonValue::models(names@)[q] == names@[q]@,
                    decreases names.len() - k,
                {
                    push_item(&mut required, names[k].deep_clone());
                    proof {
                        assert(JsonValue::models(names@).subrange(0, k + 1)
                            == JsonValue::models(names@).subrange(0, k as int).push(names@[k as int]@));
                    }
                    k = k + 1;
                }
                proof {
                    assert(JsonValue::models(names@).subrange(0, names.len() as int) == JsonValue::models(names@));
                }
                (JsonValue::Object(props), JsonValue::Array(required))
            },
            _ => {
                let ds = data.to_json_schema();
                let ghost dm = ds@;
                push_entry(&mut props, "data", ds);
                assert(JsonValue::entry_models(props@) =~= seq![tag, ("data"@, dm)]);
                push_item(&mut required, json_str("data"));
                assert(JsonValue::models(required@) =~= seq![Json::Str("type"@), Json::Str("data"@)]);
                (JsonValue::Object(props), JsonValue::Array(required))
            },
        },
    };
    let ghost (pm, rm) = (pv@, rv@);
    let mut es: Vec<(String, JsonValue)> = Vec::new();
    push_entry(&mut es, "type", json_str("object"));
    push_entry(&mut es, "properties", pv);
    push_entry(&mut es, "required", rv);
    assert(JsonValue::entry_models(es@) =~= seq![("type"@, Json::Str("object"@)), ("properties"@, pm), ("required"@, rm)]);
    JsonValue::Object(es)
}

fn variant_schemas_exec(variants: &Vec<SchemaVariant>) -> (r: Vec<JsonValue>)
    ensures
        JsonValue::models(r@) == variant_schemas(SchemaKind::variant_models(variants@)),
    decreases variants,
{
    let mut out: Vec<JsonValue> = Vec::new();
    let mut i: usize = 0;
    while i < variants.len()
        invariant
            i <= variants.len(),
            JsonValue::models(out@) == variant_schemas(SchemaKind::variant_models(variants@.subrange(0, i as int))),
        decreases variants.len() - i,
    {
        proof {
            assert(decreases_to!(variants => variants@));
            assert(decreases_to!(variants@ => variants@[i as int]));
            lemma_variant_models_push(variants@.subrange(0, i as int), variants@[i as int]);
            assert(variants@.subrange(0, i as int).push(variants@[i as int]) == variants@.subrange(0, i + 1));
            let ms = SchemaKind::variant_models(variants@.subrange(0, i as int));
            assert(ms.push(variants@[i as int]@).subrange(0, ms.len() as int) == ms);
        }
        push_item(&mut out, variant_schema_exec(&variants[i]));
        i = i + 1;
    }
    proof { assert(variants@.subrange(0, variants@.len() as int) == variants@); }
    out
}

/// The JSON Schema of an object lists in `"required"` exactly the names of
/// the fields declared required: a name is there when, and only when, some
/// field of that name is required.
pub proof fn law_object_schema_requires_exactly_required_fields(fields: Seq<Field>)
    ensures
        ({
            let j = json_schema(Schema::Object(fields));
            &&& j is Object
            &&& lookup(j->Object_0, "required"@) matches Some(Json::Array(xs))
                && (forall|n: Seq<char>| #[trigger] xs.contains(Json::Str(n))
                    <==> exists|i: int| 0 <= i < fields.len() && (#[trigger] fields[i]).name == n && fields[i].required)
                && (forall|x: Json| #[trigger] xs.contains(x) ==> x is Str)
        }),
{
    reveal_strlit("type");
    reveal_strlit("properties");
    reveal_strlit("required");
    let p = |f: Field| f.required;
    let fl = fields.filter(p);
    let xs = required_names(fields);
    assert(xs == fl.map_values(|f: Field| Json::Str(f.name)));
    let es = seq![
        ("type"@, Json::Str("object"@)),
        ("properties"@, Json::Object(properties(Seq::empty(), fields))),
        ("required"@, Json::Array(xs)),
    ];
    assert("type"@[0] != "required"@[0]);
    assert("properties"@[0] != "required"@[0]);
    assert(es.drop_first().drop_first()[0].0 == "required"@);
    assert(lookup(es.drop_first(), "required"@) == lookup(es.drop_first().drop_first(), "required"@));
    assert(lookup(es, "required"@) == Some(Json::Array(xs)));
    assert forall|n: Seq<char>| #[trigger] xs.contains(Json::Str(n))
        implies exists|i: int| 0 <= i < fields.len() && (#[trigger] fields[i]).name == n && fields[i].required by {
        let j = choose|j: int| 0 <= j < xs.len() && xs[j] == Json::Str(n);
        fields.lemma_filter_pred(p, j);
        fields.lemma_filter_contains_rev(p, fl[j]);
        assert(fl.contains(fl[j]));
        let i = choose|i: int| 0 <= i < fields.len() && fields[i] == fl[j];
        assert(fields[i].name == n && fields[i].required);
    }
    assert forall|n: Seq<char>| (exists|i: int| 0 <= i < fields.len() && (#[trigger] fields[i]).name == n && fields[i].required)
        implies #[trigger] xs.contains(Json::Str(n)) by {
        let i = choose|i: int| 0 <= i < fields.len() && (#[trigger] fields[i]).name == n && fields[i].required;
        fields.lemma_filter_contains(p, i);
        let j = choose|j: int| 0 <= j < fl.len() && fl[j] == fields[i];
        assert(xs[j] == Json::Str(n));
    }
    assert forall|x: Json| #[trigger] xs.contains(x) implies x is Str by {
        let j = choose|j: int| 0 <= j < xs.len() && xs[j] == x;
    }
}

} // verus!
