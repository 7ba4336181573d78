//! A plain model of JSON values, filled from `serde_json`'s decoder, with the
//! lookups that the tool parsers use.
use vstd::prelude::*;

verus! {

/// A decoded JSON value. Numbers keep only their value as a `u64`, when they
/// are non-negative integers that fit; object keys are unique.
pub enum JsonValue {
    Null,
    Bool(bool),
    Number(Option<u64>),
    Str(String),
    Array(Vec<JsonValue>),
    Object(Vec<(String, JsonValue)>),
}

/// Index of the first entry whose key has the given characters.
pub open spec fn entry_index(es: Seq<(String, JsonValue)>, key: Seq<char>) -> Option<int>
    decreases es.len(),
{
    if es.len() == 0 {
        None
    } else if es[0].0@ == key {
        Some(0)
    } else {
        match entry_index(es.drop_first(), key) {
            Some(i) => Some(i + 1),
            None => None,
        }
    }
}

pub proof fn lemma_entry_index(es: Seq<(String, JsonValue)>, key: Seq<char>)
    ensures
        entry_index(es, key) matches Some(i) ==> 0 <= i < es.len() && es[i].0@ == key,
    decreases es.len(),
{
    if es.len() > 0 {
        lemma_entry_index(es.drop_first(), key);
    }
}

/// The member `key` of an object, as `value[key]` reads it; `None` where
/// `serde_json` gives `Null` for a missing member or a value of another kind.
pub open spec fn member(v: JsonValue, key: Seq<char>) -> Option<JsonValue> {
    match v {
        JsonValue::Object(es) => match entry_index(es@, key) {
            Some(i) => Some(es@[i].1),
            None => None,
        },
        _ => None,
    }
}

pub open spec fn str_of(v: Option<JsonValue>) -> Option<Seq<char>> {
    match v {
        Some(JsonValue::Str(s)) => Some(s@),
        _ => None,
    }
}

pub open spec fn u64_of(v: Option<JsonValue>) -> Option<u64> {
    match v {
        Some(JsonValue::Number(n)) => n,
        _ => None,
    }
}

pub open spec fn is_object(v: Option<JsonValue>) -> bool {
    v matches Some(JsonValue::Object(_))
}

pub open spec fn array_of(v: Option<JsonValue>) -> Option<Seq<JsonValue>> {
    match v {
        Some(JsonValue::Array(a)) => Some(a@),
        _ => None,
    }
}

pub open spec fn shifted(o: Option<int>, d: int) -> Option<int> {
    match o {
        Some(k) => Some(k + d),
        None => None,
    }
}

pub open spec fn deref(v: Option<&JsonValue>) -> Option<JsonValue> {
    match v {
        Some(x) => Some(*x),
        None => None,
    }
}

/// The member `key` of `v`.
pub fn member_exec<'a>(v: &'a JsonValue, key: &str) -> (r: Option<&'a JsonValue>)
    ensures
        match r {
            Some(x) => member(*v, key@) == Some(*x),
            None => member(*v, key@) is None,
        },
{
    match v {
        JsonValue::Object(es) => {
            let mut i: usize = 0;
            assert(es@.subrange(0, es@.len() as int) =~= es@);
            while i < es.len()
                invariant
                    i <= es@.len(),
                    *v == JsonValue::Object(*es),
                    entry_index(es@, key@) == shifted(entry_index(es@.subrange(i as int, es@.len() as int), key@), i as int),
                decreases es@.len() - i,
            {
                let ghost rest = es@.subrange(i as int, es@.len() as int);
                assert(rest.drop_first() =~= es@.subrange(i + 1, es@.len() as int));
                assert(rest[0] == es@[i as int]);
                if str_eq(es[i].0.as_str(), key) {
                    assert(entry_index(rest, key@) == Some(0int));
                    return Some(&es[i].1);
                }
                i = i + 1;
            }
            None
        },
        _ => None,
    }
}

/// Equality of two strings' characters.
pub fn str_eq(a: &str, b: &str) -> (r: bool)
    ensures
        r == (a@ == b@),
{
    let x = crate::text::chars_of(a);
    let y = crate::text::chars_of(b);
    if x.len() != y.len() {
        return false;
    }
    let mut i: usize = 0;
    while i < x.len()
        invariant
            i <= x@.len() == y@.len(),
            x@ == a@,
            y@ == b@,
            forall|k: int| 0 <= k < i ==> x@[k] == y@[k],
        decreases x@.len() - i,
    {
        if x[i] != y[i] {
            return false;
        }
        i = i + 1;
    }
    assert(x@ =~= y@);
    true
}

pub fn as_str_exec(v: Option<&JsonValue>) -> (r: Option<&str>)
    ensures
        match r {
            Some(s) => str_of(deref(v)) == Some(s@),
            None => str_of(deref(v)) is None,
        },
{
    match v {
        Some(JsonValue::Str(s)) => Some(s.as_str()),
        _ => None,
    }
}

pub fn as_u64_exec(v: Option<&JsonValue>) -> (r: Option<u64>)
    ensures
        r == u64_of(deref(v)),
{
    match v {
        Some(JsonValue::Number(n)) => *n,
        _ => None,
    }
}

pub fn as_array_exec<'a>(v: Option<&'a JsonValue>) -> (r: Option<&'a Vec<JsonValue>>)
    ensures
        match r {
            Some(a) => array_of(deref(v)) == Some(a@),
            None => array_of(deref(v)) is None,
        },
{
    match v {
        Some(JsonValue::Array(a)) => Some(a),
        _ => None,
    }
}

pub fn is_object_exec(v: Option<&JsonValue>) -> (r: bool)
    ensures
        r == is_object(deref(v)),
{
    match v {
        Some(JsonValue::Object(_)) => true,
        _ => false,
    }
}


/// `serde_json::Value`, a decoded JSON value.
#[verifier::external_type_specification]
#[verifier::external_body]
pub struct ExSerdeValue(serde_json::Value);

/// Relies on the variants of `serde_json::Value`: each is moved into the
/// matching variant of the model, a number kept as its `Number::as_u64`.
#[verifier::external_body]
fn model_of(v: serde_json::Value) -> JsonValue {
    match v {
        serde_json::Value::Null => JsonValue::Null,
        serde_json::Value::Bool(b) => JsonValue::Bool(b),
        serde_json::Value::Number(n) => JsonValue::Number(n.as_u64()),
        serde_json::Value::String(s) => JsonValue::Str(s),
        serde_json::Value::Array(a) => JsonValue::Array(a.into_iter().map(model_of).collect()),
        serde_json::Value::Object(m) => JsonValue::Object(
            m.into_iter().map(|(k, x)| (k, model_of(x))).collect(),
        ),
    }
}

/// What `serde_json::from_str` decodes a text into, in the model; `None`
/// where the text is not JSON.
pub uninterp spec fn json_decoded(text: Seq<char>) -> Option<JsonValue>;

/// Relies on `serde_json::from_str`: the value a text decodes into depends on
/// the text alone.
#[verifier::external_body]
fn decode_json(text: &str) -> (r: Option<JsonValue>)
    ensures
        r == json_decoded(text@),
{
    serde_json::from_str::<serde_json::Value>(text).ok().map(model_of)
}

/// Decodes JSON text into the model; `None` where the text is not JSON.
pub fn parse_json(text: &str) -> (r: Option<JsonValue>)
    ensures
        r == json_decoded(text@),
{
    decode_json(text)
}

/// The member `key` of an optional value.
pub open spec fn member_of(v: Option<JsonValue>, key: Seq<char>) -> Option<JsonValue> {
    match v {
        Some(x) => member(x, key),
        None => None,
    }
}

pub fn member_of_exec<'a>(v: Option<&'a JsonValue>, key: &str) -> (r: Option<&'a JsonValue>)
    ensures
        deref(r) == member_of(deref(v), key@),
{
    match v {
        Some(x) => member_exec(x, key),
        None => None,
    }
}

} // verus!
