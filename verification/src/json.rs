//! A parsed JSON document as a plain tree the library owns: verified code
//! can match on it directly, so everything read out of a response body is
//! pinned by contracts. Only the parse itself is trusted.
use vstd::prelude::*;

use crate::text::view_opt;

verus! {

/// One JSON value. Numbers carry the integer they denote when an i64 can
/// hold it, plus their serialized text; object fields keep their order.
#[derive(Debug)]
pub enum JsonValue {
    Null,
    Bool(bool),
    Num(Option<i64>, String),
    Str(String),
    Arr(Vec<JsonValue>),
    Obj(Vec<(String, JsonValue)>),
}

/// The value of the first entry named `key`, if the entry list has one.
pub open spec fn entries_field(es: Seq<(String, JsonValue)>, key: Seq<char>) -> Option<JsonValue>
    decreases es.len(),
{
    if es.len() == 0 {
        Option::None
    } else if es[0].0@ == key {
        Option::Some(es[0].1)
    } else {
        entries_field(es.drop_first(), key)
    }
}

/// The value of an object's field `key`; nothing for a non-object or a
/// missing field.
pub open spec fn json_field(v: JsonValue, key: Seq<char>) -> Option<JsonValue> {
    match v {
        JsonValue::Obj(es) => entries_field(es@, key),
        _ => Option::None,
    }
}

/// An array's element `i`; nothing for a non-array or an index out of
/// range.
pub open spec fn json_at(v: JsonValue, i: int) -> Option<JsonValue> {
    match v {
        JsonValue::Arr(a) => if 0 <= i < a@.len() {
            Option::Some(a@[i])
        } else {
            Option::None
        },
        _ => Option::None,
    }
}

/// The characters of a JSON string; nothing for any other kind of value.
pub open spec fn json_str(v: JsonValue) -> Option<Seq<char>> {
    match v {
        JsonValue::Str(s) => Option::Some(s@),
        _ => Option::None,
    }
}

/// The integer a JSON number denotes; nothing for non-numbers and for
/// numbers no i64 holds.
pub open spec fn json_int(v: JsonValue) -> Option<i64> {
    match v {
        JsonValue::Num(n, _) => n,
        _ => Option::None,
    }
}

/// `json_field` carried over an optional value.
pub open spec fn opt_field(o: Option<JsonValue>, key: Seq<char>) -> Option<JsonValue> {
    match o {
        Option::Some(v) => json_field(v, key),
        Option::None => Option::None,
    }
}

/// `json_at` carried over an optional value.
pub open spec fn opt_at(o: Option<JsonValue>, i: int) -> Option<JsonValue> {
    match o {
        Option::Some(v) => json_at(v, i),
        Option::None => Option::None,
    }
}

/// `json_str` carried over an optional value.
pub open spec fn opt_str(o: Option<JsonValue>) -> Option<Seq<char>> {
    match o {
        Option::Some(v) => json_str(v),
        Option::None => Option::None,
    }
}

/// `json_int` carried over an optional value.
pub open spec fn opt_int(o: Option<JsonValue>) -> Option<i64> {
    match o {
        Option::Some(v) => json_int(v),
        Option::None => Option::None,
    }
}

/// The value of the object field named `key`.
pub fn get_field<'a>(v: &'a JsonValue, key: &String) -> (r: Option<&'a JsonValue>)
    ensures
        match r {
            Option::Some(x) => json_field(*v, key@) == Option::Some(*x),
            Option::None => json_field(*v, key@) is None,
        },
{
    match v {
        JsonValue::Obj(es) => {
            let n: usize = es.len();
            let mut j: usize = 0;
            proof {
                assert(es@.skip(0) =~= es@);
                assert(json_field(*v, key@) == entries_field(es@, key@));
            }
            while j < n
                invariant
                    j <= n,
                    n == es@.len(),
                    json_field(*v, key@) == entries_field(es@.skip(j as int), key@),
                decreases n - j,
            {
                proof {
                    assert(es@.skip(j as int).drop_first() =~= es@.skip(j + 1 as int));
                    assert(es@.skip(j as int)[0] == es@[j as int]);
                }
                if es[j].0 == *key {
                    proof {
                        assert(entries_field(es@.skip(j as int), key@) == Option::Some(
                            es@[j as int].1,
                        ));
                    }
                    let x = &es[j].1;
                    assert(*x == es@[j as int].1);
                    return Some(x);
                }
                j = j + 1;
            }
            None
        },
        _ => None,
    }
}

/// An array's element `i`.
pub fn at_index<'a>(v: &'a JsonValue, i: usize) -> (r: Option<&'a JsonValue>)
    ensures
        match r {
            Option::Some(x) => json_at(*v, i as int) == Option::Some(*x),
            Option::None => json_at(*v, i as int) is None,
        },
{
    match v {
        JsonValue::Arr(a) => {
            if i < a.len() {
                Some(&a[i])
            } else {
                None
            }
        },
        _ => None,
    }
}

/// The content of a JSON string, as a fresh owned string.
pub fn str_of(v: &JsonValue) -> (r: Option<String>)
    ensures
        view_opt(r) == json_str(*v),
{
    match v {
        JsonValue::Str(s) => Some(s.clone()),
        _ => None,
    }
}

/// The integer a JSON number denotes.
pub fn int_of(v: &JsonValue) -> (r: Option<i64>)
    ensures
        r == json_int(*v),
{
    match v {
        JsonValue::Num(n, _) => *n,
        _ => None,
    }
}

/// The string content of the field named `key`, when the field is there
/// and holds a string.
pub fn field_str<'a>(v: &'a JsonValue, key: &String) -> (r: Option<String>)
    ensures
        view_opt(r) == opt_str(json_field(*v, key@)),
{
    match get_field(v, key) {
        Option::Some(x) => str_of(x),
        Option::None => None,
    }
}

#[verifier::external_type_specification]
#[verifier::external_body]
pub struct ExValue(serde_json::Value);

/// Relies on serde_json's `Value`: hands a parsed value over as the
/// library's own tree, variant by variant; `Number::as_i64` supplies the
/// integer reading and the number's display form its text.
#[verifier::external_body]
fn json_tree(v: &serde_json::Value) -> (r: JsonValue)
{
    match v {
        serde_json::Value::Null => JsonValue::Null,
        serde_json::Value::Bool(b) => JsonValue::Bool(*b),
        serde_json::Value::Number(n) => JsonValue::Num(n.as_i64(), n.to_string()),
        serde_json::Value::String(s) => JsonValue::Str(s.clone()),
        serde_json::Value::Array(a) => JsonValue::Arr(a.iter().map(json_tree).collect()),
        serde_json::Value::Object(m) => JsonValue::Obj(
            m.iter().map(|(k, x)| (k.clone(), json_tree(x))).collect(),
        ),
    }
}

/// Relies on serde_json's `from_str`: parses text as one JSON value, or
/// nothing when the text is not valid JSON; the parsed value comes back
/// as the library's own tree.
#[verifier::external_body]
pub fn parse_json(s: &str) -> (r: Option<JsonValue>)
{
    serde_json::from_str(s).ok().map(|v: serde_json::Value| json_tree(&v))
}

} // verus!
