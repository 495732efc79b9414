//! JSON values as plain data, and the `serde_json` boundary that parses and
//! renders them.
use vstd::prelude::*;

use crate::text::str_eq;

verus! {

broadcast use vstd::std_specs::vec::group_vec_axioms;

/// A JSON number, kept in the three shapes `serde_json` keeps it in:
/// a non-negative integer, a negative integer, or a finite float carried
/// by the decimal text that `serde_json` renders for it.
#[derive(Debug, PartialEq)]
pub enum JsonNumber {
    PosInt(u64),
    NegInt(i64),
    Float(String),
}

/// A JSON value. Object entries keep their keys unique.
#[derive(Debug, PartialEq)]
pub enum JsonValue {
    Null,
    Bool(bool),
    Number(JsonNumber),
    String(String),
    Array(Vec<JsonValue>),
    Object(Vec<(String, JsonValue)>),
}

/// Mathematical model of a [`JsonNumber`].
pub enum NumModel {
    PosInt(u64),
    NegInt(i64),
    Float(Seq<char>),
}

/// Mathematical model of a [`JsonValue`].
pub enum Json {
    Null,
    Bool(bool),
    Number(NumModel),
    Str(Seq<char>),
    Array(Seq<Json>),
    Object(Seq<(Seq<char>, Json)>),
}

impl View for JsonNumber {
    type V = NumModel;

    open spec fn view(&self) -> NumModel {
        match self {
            JsonNumber::PosInt(u) => NumModel::PosInt(*u),
            JsonNumber::NegInt(i) => NumModel::NegInt(*i),
            JsonNumber::Float(s) => NumModel::Float(s@),
        }
    }
}

impl JsonValue {
    pub open spec fn model(self) -> Json
        decreases self,
    {
        match self {
            JsonValue::Null => Json::Null,
            JsonValue::Bool(b) => Json::Bool(b),
            JsonValue::Number(n) => Json::Number(n@),
            JsonValue::String(s) => Json::Str(s@),
            JsonValue::Array(v) => Json::Array(Self::models(v@)),
            JsonValue::Object(v) => Json::Object(Self::entry_models(v@)),
        }
    }

    pub open spec fn models(s: Seq<JsonValue>) -> Seq<Json>
        decreases s,
    {
        if s.len() == 0 {
            Seq::empty()
        } else {
            Self::models(s.subrange(0, s.len() - 1)).push(s[s.len() - 1].model())
        }
    }

    pub open spec fn entry_models(s: Seq<(String, JsonValue)>) -> Seq<(Seq<char>, Json)>
        decreases s,
    {
        if s.len() == 0 {
            Seq::empty()
        } else {
            Self::entry_models(s.subrange(0, s.len() - 1)).push(
                (s[s.len() - 1].0@, s[s.len() - 1].1.model()),
            )
        }
    }
}

/// Value stored under `key` in an object's entries: the first entry with that key.
pub open spec fn lookup(es: Seq<(Seq<char>, Json)>, key: Seq<char>) -> Option<Json>
    decreases es.len(),
{
    if es.len() == 0 {
        None
    } else if es[0].0 == key {
        Some(es[0].1)
    } else {
        lookup(es.drop_first(), key)
    }
}

/// Member `key` of a JSON value, `None` when it is no object or lacks the key.
pub open spec fn member(v: Json, key: Seq<char>) -> Option<Json> {
    match v {
        Json::Object(es) => lookup(es, key),
        _ => None,
    }
}

pub proof fn lemma_models_index(s: Seq<JsonValue>)
    ensures
        JsonValue::models(s).len() == s.len(),
        forall|i: int| 0 <= i < s.len() ==> #[trigger] JsonValue::models(s)[i] == s[i]@,
    decreases s.len(),
{
    if s.len() > 0 {
        lemma_models_index(s.subrange(0, s.len() - 1));
    }
}

pub proof fn lemma_entry_models_index(s: Seq<(String, JsonValue)>)
    ensures
        JsonValue::entry_models(s).len() == s.len(),
        forall|i: int|
            0 <= i < s.len() ==> #[trigger] JsonValue::entry_models(s)[i] == (s[i].0@, s[i].1@),
    decreases s.len(),
{
    if s.len() > 0 {
        lemma_entry_models_index(s.subrange(0, s.len() - 1));
    }
}

pub proof fn lemma_models_push(s: Seq<JsonValue>, x: JsonValue)
    ensures
        JsonValue::models(s.push(x)) == JsonValue::models(s).push(x@),
{
    assert(s.push(x).subrange(0, s.len() as int) == s);
}

pub proof fn lemma_entry_models_push(s: Seq<(String, JsonValue)>, x: (String, JsonValue))
    ensures
        JsonValue::entry_models(s.push(x)) == JsonValue::entry_models(s).push((x.0@, x.1@)),
{
    assert(s.push(x).subrange(0, s.len() as int) == s);
}

impl View for JsonValue {
    type V = Json;

    open spec fn view(&self) -> Json {
        self.model()
    }
}

impl JsonValue {
    /// A copy of the value, element by element.
    #[verifier::loop_isolation(false)]
    pub fn deep_clone(&self) -> (r: JsonValue)
        ensures
            r@ == self@,
        decreases self,
    {
        match self {
            JsonValue::Null => JsonValue::Null,
            JsonValue::Bool(b) => JsonValue::Bool(*b),
            JsonValue::Number(n) => JsonValue::Number(n.clone()),
            JsonValue::String(s) => JsonValue::String(s.clone()),
            JsonValue::Array(v) => {
                let mut out: Vec<JsonValue> = Vec::new();
                let mut i: usize = 0;
                while i < v.len()
                    invariant
                        i <= v.len(),
                        JsonValue::models(out@) == JsonValue::models(v@.subrange(0, i as int)),
                    decreases v.len() - i,
                {
                    proof {
                        assert(decreases_to!(v => v@));
                        assert(decreases_to!(v@ => v@[i as int]));
                    }
                    let c = v[i].deep_clone();
                    proof {
                        assert(v@.subrange(0, i + 1).subrange(0, i as int) == v@.subrange(0, i as int));
                        assert(out@.push(c).subrange(0, out@.len() as int) == out@);
                    }
                    out.push(c);
                    i = i + 1;
                }
                proof { assert(v@.subrange(0, v@.len() as int) == v@); }
                JsonValue::Array(out)
            },
            JsonValue::Object(v) => {
                let mut out: Vec<(String, JsonValue)> = Vec::new();
                let mut i: usize = 0;
                while i < v.len()
                    invariant
                        i <= v.len(),
                        JsonValue::entry_models(out@) == JsonValue::entry_models(v@.subrange(0, i as int)),
                    decreases v.len() - i,
                {
                    let k = v[i].0.clone();
                    proof {
                        assert(decreases_to!(v => v@));
                        assert(decreases_to!(v@ => v@[i as int]));
                    }
                    let c = v[i].1.deep_clone();
                    proof {
                        assert(v@.subrange(0, i + 1).subrange(0, i as int) == v@.subrange(0, i as int));
                        assert(out@.push((k, c)).subrange(0, out@.len() as int) == out@);
                    }
                    out.push((k, c));
                    i = i + 1;
                }
                proof { assert(v@.subrange(0, v@.len() as int) == v@); }
                JsonValue::Object(out)
            },
        }
    }
}

impl JsonValue {
    /// Member `key` of an object, as `serde_json::Value::get` gives it.
    pub fn get(&self, key: &str) -> (r: Option<&JsonValue>)
        ensures
            r.is_some() == member(self@, key@).is_some(),
            r matches Some(v) ==> member(self@, key@) == Some(v@),
    {
        match self {
            JsonValue::Object(es) => entries_get(es, key),
            _ => None,
        }
    }

    /// The text of a JSON string.
    pub fn as_str(&self) -> (r: Option<&String>)
        ensures
            match self@ {
                Json::Str(s) => r matches Some(t) && t@ == s,
                _ => r is None,
            },
    {
        match self {
            JsonValue::String(s) => Some(s),
            _ => None,
        }
    }

    /// The elements of a JSON array.
    pub fn as_array(&self) -> (r: Option<&Vec<JsonValue>>)
        ensures
            match self@ {
                Json::Array(items) => r matches Some(v) && JsonValue::models(v@) == items,
                _ => r is None,
            },
    {
        match self {
            JsonValue::Array(v) => Some(v),
            _ => None,
        }
    }

    /// `true` for a JSON object.
    pub fn is_object(&self) -> (r: bool)
        ensures
            r == (self@ is Object),
    {
        match self {
            JsonValue::Object(_) => true,
            _ => false,
        }
    }

    /// The empty JSON object `{}`.
    pub fn empty_object() -> (r: JsonValue)
        ensures
            r@ == Json::Object(Seq::empty()),
    {
        JsonValue::Object(Vec::new())
    }
}

#[verifier::external_type_specification]
#[verifier::external_body]
pub struct ExSerdeJsonValue(serde_json::Value);

#[verifier::external_type_specification]
#[verifier::external_body]
pub struct ExSerdeJsonNumber(serde_json::Number);

/// Moves a `serde_json::Number` into a [`JsonNumber`], by the shape
/// serde_json keeps it in.
#[verifier::external_body]
fn number_from_serde(n: serde_json::Number) -> JsonNumber {
    match (n.as_u64(), n.as_i64()) {
        (Some(u), _) => JsonNumber::PosInt(u),
        (None, Some(i)) => JsonNumber::NegInt(i),
        (None, None) => JsonNumber::Float(n.to_string()),
    }
}

/// Moves a `serde_json::Value` into a [`JsonValue`], variant by variant.
#[verifier::external_body]
fn from_serde(v: serde_json::Value) -> JsonValue {
    match v {
        serde_json::Value::Null => JsonValue::Null,
        serde_json::Value::Bool(b) => JsonValue::Bool(b),
        serde_json::Value::Number(n) => JsonValue::Number(number_from_serde(n)),
        serde_json::Value::String(s) => JsonValue::String(s),
        serde_json::Value::Array(a) => JsonValue::Array(a.into_iter().map(from_serde).collect()),
        serde_json::Value::Object(m) => JsonValue::Object(m.into_iter().map(|(k, x)| (k, from_serde(x))).collect()),
    }
}

/// Moves a [`JsonNumber`] into a `serde_json::Value`; a float's text is read
/// back by `serde_json::Number`'s parser (`null` if it is no number).
#[verifier::external_body]
fn number_to_serde(n: &JsonNumber) -> serde_json::Value {
    match n {
        JsonNumber::PosInt(u) => serde_json::Value::from(*u),
        JsonNumber::NegInt(i) => serde_json::Value::from(*i),
        JsonNumber::Float(t) => t.parse::<serde_json::Number>().map_or(serde_json::Value::Null, serde_json::Value::Number),
    }
}

/// Moves a [`JsonValue`] into a `serde_json::Value`, variant by variant.
#[verifier::external_body]
fn to_serde(v: &JsonValue) -> serde_json::Value {
    match v {
        JsonValue::Null => serde_json::Value::Null,
        JsonValue::Bool(b) => serde_json::Value::Bool(*b),
        JsonValue::Number(n) => number_to_serde(n),
        JsonValue::String(s) => serde_json::Value::String(s.clone()),
        JsonValue::Array(a) => serde_json::Value::Array(a.iter().map(to_serde).collect()),
        JsonValue::Object(es) => serde_json::Value::Object(es.iter().map(|(k, x)| (k.clone(), to_serde(x))).collect()),
    }
}

/// Name for the value that `serde_json::from_str::<serde_json::Value>` reads
/// from a text; `None` where it reports an error.
pub uninterp spec fn json_parse(text: Seq<char>) -> Option<Json>;

/// Name for the text that `serde_json::Value`'s `to_string` renders.
pub uninterp spec fn json_render(v: Json) -> Seq<char>;

/// Name for `serde_json::Value`'s `==`.
pub uninterp spec fn json_equal(a: Json, b: Json) -> bool;

/// `serde_json::from_str::<serde_json::Value>`: the value a text holds, or
/// serde_json's error where the text is not JSON. What it reads is named, not
/// stated: `json_parse`.
#[verifier::external_body]
pub(crate) fn parse_json(text: &str) -> (r: Result<JsonValue, serde_json::Error>)
    ensures
        r is Ok == json_parse(text@) is Some,
        r matches Ok(v) ==> json_parse(text@) == Some(v@),
{
    serde_json::from_str::<serde_json::Value>(text).map(from_serde)
}

impl JsonValue {
    /// The value a JSON text holds; `None` when it is not JSON.
    pub fn from_json_text(text: &str) -> (r: Option<JsonValue>)
        ensures
            match json_parse(text@) {
                Some(v) => r matches Some(x) && x@ == v,
                None => r is None,
            },
    {
        match parse_json(text) {
            Ok(v) => Some(v),
            Err(_) => None,
        }
    }

    /// The compact JSON text of the value.
    pub fn to_json_text(&self) -> (r: String)
        ensures
            r@ == json_render(self@),
    {
        render_json(self)
    }
}

/// `serde_json::Value::to_string`: the compact JSON text of a value, named
/// `json_render`.
#[verifier::external_body]
pub(crate) fn render_json(v: &JsonValue) -> (r: String)
    ensures
        r@ == json_render(v@),
{
    to_serde(v).to_string()
}

/// `serde_json::Value`'s `==`, named `json_equal`; equal models compare equal
/// (the derived equality is reflexive on finite numbers).
#[verifier::external_body]
pub(crate) fn json_eq(a: &JsonValue, b: &JsonValue) -> (r: bool)
    ensures
        r == json_equal(a@, b@),
        a@ == b@ ==> r,
{
    to_serde(a) == to_serde(b)
}

/// The value under `key` in an object's entries (the first entry with that key).
pub fn entries_get<'a>(es: &'a Vec<(String, JsonValue)>, key: &str) -> (r: Option<&'a JsonValue>)
    ensures
        r.is_some() == lookup(JsonValue::entry_models(es@), key@).is_some(),
        r matches Some(v) ==> lookup(JsonValue::entry_models(es@), key@) == Some(v@),
{
    proof { lemma_entry_models_index(es@); }
    let ghost m = JsonValue::entry_models(es@);
    assert(m.subrange(0, m.len() as int) == m);
    let mut i: usize = 0;
    while i < es.len()
        invariant
            i <= es.len(),
            m == JsonValue::entry_models(es@),
            m.len() == es.len(),
            forall|j: int| 0 <= j < es.len() ==> #[trigger] m[j] == (es@[j].0@, es@[j].1@),
            lookup(m, key@) == lookup(m.subrange(i as int, m.len() as int), key@),
        decreases es.len() - i,
    {
        let ghost rest = m.subrange(i as int, m.len() as int);
        assert(rest[0] == m[i as int]);
        if str_eq(es[i].0.as_str(), key) {
            return Some(&es[i].1);
        }
        assert(rest.drop_first() == m.subrange(i + 1, m.len() as int));
        i = i + 1;
    }
    None
}

impl Clone for JsonNumber {
    fn clone(&self) -> (r: Self)
        ensures
            r@ == self@,
    {
        match self {
            JsonNumber::PosInt(u) => JsonNumber::PosInt(*u),
            JsonNumber::NegInt(i) => JsonNumber::NegInt(*i),
            JsonNumber::Float(s) => JsonNumber::Float(s.clone()),
        }
    }
}

impl Clone for JsonValue {
    fn clone(&self) -> (r: Self)
        ensures
            r@ == self@,
    {
        self.deep_clone()
    }
}

} // verus!

verus! {

/// Index of the first `a` or `b` in `t`, or `t.len()` when there is none.
pub open spec fn first_of(t: Seq<char>, a: char, b: char) -> int
    decreases t.len(),
{
    if t.len() == 0 {
        0
    } else if t[0] == a || t[0] == b {
        0
    } else {
        1 + first_of(t.drop_first(), a, b)
    }
}

pub open spec fn is_digit(c: char) -> bool {
    '0' <= c && c <= '9'
}

pub open spec fn all_digits(t: Seq<char>) -> bool {
    forall|i: int| 0 <= i < t.len() ==> is_digit(#[trigger] t[i])
}

/// The natural number that a run of decimal digits denotes.
pub open spec fn digits_value(t: Seq<char>) -> int
    decreases t.len(),
{
    if t.len() == 0 {
        0
    } else {
        digits_value(t.drop_last()) * 10 + (t.last() as int - '0' as int)
    }
}

/// The parts of a decimal numeral `[-]ints[.frac][(e|E)[+|-]exp]`:
/// its digits (integer part then fraction), the number of integer digits,
/// the exponent's sign and digits, and whether every part is well formed.
pub open spec fn numeral_parts(t: Seq<char>) -> (Seq<char>, int, bool, Seq<char>, bool) {
    let u = if t.len() > 0 && t[0] == '-' { t.drop_first() } else { t };
    let ep = first_of(u, 'e', 'E');
    let m = u.subrange(0, ep);
    let x = if ep < u.len() { u.subrange(ep + 1, u.len() as int) } else { Seq::empty() };
    let pp = first_of(m, '.', '.');
    let ints = m.subrange(0, pp);
    let frac = if pp < m.len() { m.subrange(pp + 1, m.len() as int) } else { Seq::empty() };
    let neg = x.len() > 0 && x[0] == '-';
    let xd = if x.len() > 0 && (x[0] == '-' || x[0] == '+') { x.drop_first() } else { x };
    let ok = all_digits(ints) && all_digits(frac) && all_digits(xd) && (ep < u.len() ==> xd.len() > 0);
    (ints + frac, ints.len() as int, neg, xd, ok)
}

/// `true` when the decimal numeral `t` denotes a whole number: it is well
/// formed and every digit weighing less than one is `0`.
pub open spec fn numeral_is_integral(t: Seq<char>) -> bool {
    let (ds, n_int, neg, xd, ok) = numeral_parts(t);
    let e = if neg { -digits_value(xd) } else { digits_value(xd) };
    &&& ok
    &&& forall|i: int| 0 <= i < ds.len() && i >= n_int + e ==> ds[i] == '0'
}

} // verus!

verus! {

pub proof fn lemma_first_of(t: Seq<char>, a: char, b: char, i: int)
    requires
        0 <= i <= t.len(),
        forall|j: int| 0 <= j < i ==> t[j] != a && t[j] != b,
        i == t.len() || t[i] == a || t[i] == b,
    ensures
        first_of(t, a, b) == i,
    decreases i,
{
    if i > 0 {
        assert(t[0] != a && t[0] != b);
        let d = t.drop_first();
        assert forall|j: int| 0 <= j < i - 1 implies d[j] != a && d[j] != b by {
            assert(d[j] == t[j + 1]);
        }
        if i < t.len() {
            assert(d[i - 1] == t[i]);
        }
        lemma_first_of(d, a, b, i - 1);
    }
}

/// Index of the first `a` or `b` in `cs[from..to]`, counted from `from`; `to - from` when absent.
pub(crate) fn find_either(cs: &Vec<char>, from: usize, to: usize, a: char, b: char) -> (r: usize)
    requires
        from <= to <= cs.len(),
    ensures
        from <= r <= to,
        r - from == first_of(cs@.subrange(from as int, to as int), a, b),
{
    let mut i = from;
    while i < to && cs[i] != a && cs[i] != b
        invariant
            from <= i <= to <= cs.len(),
            forall|j: int| from <= j < i ==> cs@[j] != a && cs@[j] != b,
        decreases to - i,
    {
        i = i + 1;
    }
    proof {
        let s = cs@.subrange(from as int, to as int);
        assert forall|j: int| 0 <= j < i - from implies s[j] != a && s[j] != b by {
            assert(s[j] == cs@[from + j]);
        }
        if i < to {
            assert(s[i - from] == cs@[i as int]);
        }
        lemma_first_of(s, a, b, i - from);
    }
    i
}

/// `true` when every character of `cs[from..to]` is a decimal digit.
fn digits_only(cs: &Vec<char>, from: usize, to: usize) -> (r: bool)
    requires
        from <= to <= cs.len(),
    ensures
        r == all_digits(cs@.subrange(from as int, to as int)),
{
    let mut i = from;
    while i < to
        invariant
            from <= i <= to <= cs.len(),
            forall|j: int| from <= j < i ==> is_digit(cs@[j]),
        decreases to - i,
    {
        if !('0' <= cs[i] && cs[i] <= '9') {
            assert(cs@.subrange(from as int, to as int)[i - from] == cs@[i as int]);
            return false;
        }
        i = i + 1;
    }
    assert forall|j: int| 0 <= j < to - from implies is_digit(#[trigger] cs@.subrange(from as int, to as int)[j]) by {
        assert(cs@.subrange(from as int, to as int)[j] == cs@[from + j]);
    }
    true
}

pub proof fn lemma_digits_value_nonneg(t: Seq<char>)
    requires
        all_digits(t),
    ensures
        digits_value(t) >= 0,
    decreases t.len(),
{
    if t.len() > 0 {
        assert(is_digit(t[t.len() - 1]));
        assert forall|i: int| 0 <= i < t.len() - 1 implies is_digit(#[trigger] t.drop_last()[i]) by {
            assert(t.drop_last()[i] == t[i]);
        }
        lemma_digits_value_nonneg(t.drop_last());
    }
}

/// `min(digits_value(cs[from..to]), limit)`.
fn digits_value_capped(cs: &Vec<char>, from: usize, to: usize, limit: usize) -> (r: usize)
    requires
        from <= to <= cs.len(),
        all_digits(cs@.subrange(from as int, to as int)),
    ensures
        r as int == if digits_value(cs@.subrange(from as int, to as int)) < limit {
            digits_value(cs@.subrange(from as int, to as int))
        } else {
            limit as int
        },
{
    let mut v: usize = 0;
    let mut i = from;
    assert(cs@.subrange(from as int, from as int).len() == 0);
    while i < to
        invariant
            from <= i <= to <= cs.len(),
            all_digits(cs@.subrange(from as int, to as int)),
            v <= limit,
            v as int == if digits_value(cs@.subrange(from as int, i as int)) < limit {
                digits_value(cs@.subrange(from as int, i as int))
            } else {
                limit as int
            },
        decreases to - i,
    {
        let ghost p = cs@.subrange(from as int, i as int);
        let ghost q = cs@.subrange(from as int, i + 1);
        assert(q.drop_last() == p);
        assert(q.last() == cs@[i as int]);
        assert(cs@.subrange(from as int, to as int)[i - from] == cs@[i as int]);
        assert forall|j: int| 0 <= j < p.len() implies is_digit(#[trigger] p[j]) by {
            assert(p[j] == cs@.subrange(from as int, to as int)[j]);
        }
        proof { lemma_digits_value_nonneg(p); }
        let d = (cs[i] as u32 - '0' as u32) as usize;
        assert(d as int == cs@[i as int] as int - '0' as int);
        assert(d <= 9);
        if v >= limit {
            assert(digits_value(p) >= limit);
            assert(digits_value(q) == digits_value(p) * 10 + d) by (nonlinear_arith)
                requires digits_value(q) == digits_value(p) * 10 + (cs@[i as int] as int - '0' as int),
                    d as int == cs@[i as int] as int - '0' as int;
            assert(digits_value(q) >= limit) by (nonlinear_arith)
                requires digits_value(q) == digits_value(p) * 10 + d, digits_value(p) >= limit, d >= 0;
            v = limit;
        } else if d > limit || v > (limit - d) / 10 {
            assert(v * 10 + d > limit) by (nonlinear_arith)
                requires d > limit || v > (limit - d) / 10, v >= 0, d >= 0;
            assert(digits_value(q) == v * 10 + d);
            v = limit;
        } else {
            assert(v * 10 + d <= limit) by (nonlinear_arith)
                requires v <= (limit - d) / 10, d <= limit, v >= 0, d >= 0;
            assert(digits_value(q) == v * 10 + d);
            v = v * 10 + d;
        }
        i = i + 1;
    }
    v
}

} // verus!

verus! {

proof fn lemma_numeral_parts(t: Seq<char>, start: int, ep: int, pp: int, frac_from: int, x_from: int, xd_from: int)
    requires
        start == if t.len() > 0 && t[0] == '-' { 1int } else { 0int },
        start <= ep <= t.len(),
        ep - start == first_of(t.subrange(start, t.len() as int), 'e', 'E'),
        start <= pp <= ep,
        pp - start == first_of(t.subrange(start, ep), '.', '.'),
        frac_from == if pp < ep { pp + 1 } else { ep },
        x_from == if ep < t.len() { ep + 1 } else { t.len() as int },
        xd_from == if x_from < t.len() && (t[x_from] == '-' || t[x_from] == '+') { x_from + 1 } else { x_from },
    ensures
        ({
            let (ds, n_int, neg, xd, ok) = numeral_parts(t);
            &&& ds == t.subrange(start, pp) + t.subrange(frac_from, ep)
            &&& n_int == pp - start
            &&& neg == (x_from < t.len() && t[x_from] == '-')
            &&& xd == t.subrange(xd_from, t.len() as int)
            &&& ok == (all_digits(t.subrange(start, pp)) && all_digits(t.subrange(frac_from, ep))
                && all_digits(t.subrange(xd_from, t.len() as int)) && (ep >= t.len() || xd_from < t.len()))
        }),
{
    let u = if t.len() > 0 && t[0] == '-' { t.drop_first() } else { t };
    assert(u == t.subrange(start, t.len() as int));
    let epu = first_of(u, 'e', 'E');
    let m = u.subrange(0, epu);
    assert(m == t.subrange(start, ep));
    let ppm = first_of(m, '.', '.');
    assert(m.subrange(0, ppm) == t.subrange(start, pp));
    if ppm < m.len() {
        assert(m.subrange(ppm + 1, m.len() as int) == t.subrange(frac_from, ep));
    } else {
        assert(t.subrange(frac_from, ep) == Seq::<char>::empty());
    }
    let x = if epu < u.len() { u.subrange(epu + 1, u.len() as int) } else { Seq::<char>::empty() };
    assert(x == t.subrange(x_from, t.len() as int));
    if x.len() > 0 {
        assert(x[0] == t[x_from]);
        assert(x.drop_first() == t.subrange(x_from + 1, t.len() as int));
    }
}

/// `true` when the decimal numeral `t` denotes a whole number.
#[verifier::rlimit(30)]
pub fn numeral_integral(t: &str) -> (r: bool)
    ensures
        r == numeral_is_integral(t@),
{
    let cs = crate::text::chars_of(t);
    let n = cs.len();
    let start: usize = if n > 0 && cs[0] == '-' { 1 } else { 0 };
    let ep = find_either(&cs, start, n, 'e', 'E');
    let pp = find_either(&cs, start, ep, '.', '.');
    let frac_from: usize = if pp < ep { pp + 1 } else { ep };
    let x_from: usize = if ep < n { ep + 1 } else { n };
    let neg = x_from < n && cs[x_from] == '-';
    let xd_from: usize = if x_from < n && (cs[x_from] == '-' || cs[x_from] == '+') { x_from + 1 } else { x_from };
    proof {
        lemma_numeral_parts(t@, start as int, ep as int, pp as int, frac_from as int, x_from as int, xd_from as int);
    }
    let ok = digits_only(&cs, start, pp) && digits_only(&cs, frac_from, ep) && digits_only(&cs, xd_from, n)
        && (ep >= n || xd_from < n);
    if !ok {
        return false;
    }
    let n_int = pp - start;
    let ds_len = n_int + (ep - frac_from);
    let v = digits_value_capped(&cs, xd_from, n, ds_len);
    let ghost xd = cs@.subrange(xd_from as int, n as int);
    let ghost e = if neg { -digits_value(xd) } else { digits_value(xd) };
    proof { lemma_digits_value_nonneg(xd); }
    tail_zero(&cs, start, pp, frac_from, ep, neg, v, Ghost(e))
}

/// Whether every digit of `cs[start..pp] + cs[frac_from..ep]` at an index at
/// or past `n_int + e` is `0`; `v` is `|e|` capped at the digit count.
fn tail_zero(
    cs: &Vec<char>,
    start: usize,
    pp: usize,
    frac_from: usize,
    ep: usize,
    neg: bool,
    v: usize,
    Ghost(e): Ghost<int>,
) -> (r: bool)
    requires
        start <= pp <= frac_from <= ep <= cs.len(),
        v as int == if (if neg { -e } else { e }) < (pp - start) + (ep - frac_from) {
            if neg { -e } else { e }
        } else {
            ((pp - start) + (ep - frac_from)) as int
        },
        neg ==> e <= 0,
        !neg ==> e >= 0,
    ensures
        r == forall|j: int|
            0 <= j < (cs@.subrange(start as int, pp as int) + cs@.subrange(frac_from as int, ep as int)).len()
                && j >= (pp - start) + e
                ==> (cs@.subrange(start as int, pp as int) + cs@.subrange(frac_from as int, ep as int))[j] == '0',
{
    let ghost ds = cs@.subrange(start as int, pp as int) + cs@.subrange(frac_from as int, ep as int);
    let n_int = pp - start;
    let ds_len = n_int + (ep - frac_from);
    let mut i: usize = 0;
    while i < ds_len
        invariant
            i <= ds_len,
            ds == cs@.subrange(start as int, pp as int) + cs@.subrange(frac_from as int, ep as int),
            ds.len() == ds_len,
            n_int == pp - start,
            start <= pp <= ep <= cs.len(),
            frac_from <= ep,
            v as int == if (if neg { -e } else { e }) < ds_len { if neg { -e } else { e } } else { ds_len as int },
            neg ==> e <= 0,
            !neg ==> e >= 0,
            forall|j: int| 0 <= j < i && j >= n_int + e ==> ds[j] == '0',
        decreases ds_len - i,
    {
        let c = if i < n_int { cs[start + i] } else { cs[frac_from + (i - n_int)] };
        assert(c == ds[i as int]);
        let cond = if neg { v >= n_int || i >= n_int - v } else { i >= n_int && i - n_int >= v };
        assert(cond == (i >= n_int + e));
        if cond && c != '0' {
            assert(ds[i as int] != '0' && i >= n_int + e);
            return false;
        }
        i = i + 1;
    }
    true
}

} // verus!

verus! {

/// Index of the first entry with key `key`, or `es.len()`.
pub open spec fn key_index(es: Seq<(Seq<char>, Json)>, key: Seq<char>) -> int
    decreases es.len(),
{
    if es.len() == 0 {
        0
    } else if es[0].0 == key {
        0
    } else {
        1 + key_index(es.drop_first(), key)
    }
}

pub proof fn lemma_key_index(es: Seq<(Seq<char>, Json)>, key: Seq<char>)
    ensures
        0 <= key_index(es, key) <= es.len(),
        key_index(es, key) < es.len() ==> es[key_index(es, key)].0 == key,
        forall|j: int| 0 <= j < key_index(es, key) ==> es[j].0 != key,
        lookup(es, key) == if key_index(es, key) < es.len() { Some(es[key_index(es, key)].1) } else { None },
    decreases es.len(),
{
    if es.len() > 0 && es[0].0 != key {
        lemma_key_index(es.drop_first(), key);
        assert forall|j: int| 0 <= j < key_index(es, key) implies es[j].0 != key by {
            if j > 0 {
                assert(es[j] == es.drop_first()[j - 1]);
            }
        }
    }
}

/// `serde_json::Map::insert`: the entry with key `key` takes value `v`, or a
/// new entry is appended.
pub open spec fn obj_insert(es: Seq<(Seq<char>, Json)>, key: Seq<char>, v: Json) -> Seq<(Seq<char>, Json)> {
    let i = key_index(es, key);
    if i < es.len() {
        es.update(i, (key, v))
    } else {
        es.push((key, v))
    }
}

/// Sets `key` to `v` in an object's entries, as `serde_json::Map::insert` does.
pub fn entries_insert(es: &mut Vec<(String, JsonValue)>, key: String, v: JsonValue)
    ensures
        JsonValue::entry_models(final(es)@) == obj_insert(JsonValue::entry_models(old(es)@), key@, v@),
{
    proof { lemma_entry_models_index(es@); }
    let ghost m = JsonValue::entry_models(es@);
    proof { lemma_key_index(m, key@); }
    let mut i: usize = 0;
    while i < es.len()
        invariant
            i <= es.len(),
            m == JsonValue::entry_models(es@),
            m.len() == es.len(),
            forall|k: int| 0 <= k < es.len() ==> #[trigger] m[k] == (es@[k].0@, es@[k].1@),
            forall|k: int| 0 <= k < i ==> m[k].0 != key@,
            es@ == old(es)@,
        decreases es.len() - i,
    {
        if str_eq(es[i].0.as_str(), key.as_str()) {
            proof {
                lemma_key_index(m, key@);
                let f = key_index(m, key@);
                if f < i {
                    assert(m[f].0 == key@);
                }
                if i < f {
                    assert(m[i as int].0 == key@);
                }
            }
            let ghost old_es = es@;
            es.set(i, (key, v));
            proof {
                lemma_entry_models_index(es@);
                assert(JsonValue::entry_models(es@) =~= m.update(i as int, (es@[i as int].0@, es@[i as int].1@)));
            }
            return;
        }
        i = i + 1;
    }
    proof {
        lemma_key_index(m, key@);
        let f = key_index(m, key@);
        if f < i {
            assert(m[f].0 == key@);
        }
        lemma_entry_models_push(es@, (key, v));
    }
    es.push((key, v));
}

} // verus!

verus! {

/// Appends an entry to an object under construction.
pub fn push_entry(es: &mut Vec<(String, JsonValue)>, key: &str, v: JsonValue)
    ensures
        JsonValue::entry_models(final(es)@) == JsonValue::entry_models(old(es)@).push((key@, v@)),
{
    let k = key.to_owned();
    proof { lemma_entry_models_push(es@, (k, v)); }
    es.push((k, v));
}

/// Appends an element to an array under construction.
pub fn push_item(xs: &mut Vec<JsonValue>, v: JsonValue)
    ensures
        JsonValue::models(final(xs)@) == JsonValue::models(old(xs)@).push(v@),
{
    proof { lemma_models_push(xs@, v); }
    xs.push(v);
}

/// A JSON string holding `s`.
pub fn json_str(s: &str) -> (r: JsonValue)
    ensures
        r@ == Json::Str(s@),
{
    JsonValue::String(s.to_owned())
}

} // verus!
