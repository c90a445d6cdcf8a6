//! A JSON document modeled with plain values, and the path walk that picks a
//! value out of one.
//!
//! A path descriptor is an ordered list of string keys. At each step, if the
//! current node is an array, the walk first descends into element `0`; the
//! node must then be an object holding the key. An absent key, an empty
//! array, or a non-object node is a resolution failure.

use vstd::prelude::*;

verus! {

/// A JSON value. Numbers are kept as their decimal rendering; the walk never
/// reads them.
#[derive(Debug)]
pub enum JsonValue {
    Null,
    Bool(bool),
    Number(String),
    Text(String),
    Array(Vec<JsonValue>),
    Object(Vec<(String, JsonValue)>),
}

/// The value under `key` in an object's fields, first occurrence.
pub open spec fn obj_lookup(fields: Seq<(String, JsonValue)>, key: Seq<char>) -> Option<
    JsonValue,
>
    decreases fields.len(),
{
    if fields.len() == 0 {
        None
    } else if fields[0].0@ == key {
        Some(fields[0].1)
    } else {
        obj_lookup(fields.skip(1), key)
    }
}

/// Implicit array descent: an array stands for its first element; an empty
/// array resolves to nothing; any other value stands for itself.
pub open spec fn spec_descend(v: JsonValue) -> Option<JsonValue> {
    match v {
        JsonValue::Array(elems) => if elems@.len() == 0 {
            None
        } else {
            Some(elems@[0])
        },
        _ => Some(v),
    }
}

/// One step of the walk: descend through an array, then look the key up.
pub open spec fn spec_step(v: JsonValue, key: Seq<char>) -> Option<JsonValue> {
    match spec_descend(v) {
        None => None,
        Some(w) => match w {
            JsonValue::Object(fields) => obj_lookup(fields@, key),
            _ => None,
        },
    }
}

/// The full walk along a path descriptor.
pub open spec fn spec_resolve(v: JsonValue, path: Seq<Seq<char>>) -> Option<JsonValue>
    decreases path.len(),
{
    if path.len() == 0 {
        Some(v)
    } else {
        match spec_step(v, path[0]) {
            None => None,
            Some(w) => spec_resolve(w, path.skip(1)),
        }
    }
}

/// The characters of a JSON string value; nothing for any other value.
pub open spec fn spec_as_text(v: JsonValue) -> Option<Seq<char>> {
    match v {
        JsonValue::Text(s) => Some(s@),
        _ => None,
    }
}

/// The views of a path descriptor's keys.
pub open spec fn path_views(path: Seq<String>) -> Seq<Seq<char>> {
    path.map_values(|k: String| k@)
}

fn obj_get<'a>(fields: &'a Vec<(String, JsonValue)>, key: &String) -> (r: Option<
    &'a JsonValue,
>)
    ensures
        match r {
            Some(j) => obj_lookup(fields@, key@) == Some(*j),
            None => obj_lookup(fields@, key@) is None,
        },
{
    let mut i: usize = 0;
    proof {
        assert(fields@.skip(0) =~= fields@);
    }
    while i < fields.len()
        invariant
            0 <= i <= fields@.len(),
            obj_lookup(fields@, key@) == obj_lookup(fields@.skip(i as int), key@),
        decreases fields@.len() - i,
    {
        proof {
            assert(fields@.skip(i as int)[0] == fields@[i as int]);
            assert(fields@.skip(i as int).skip(1) =~= fields@.skip(i + 1));
        }
        let entry = &fields[i];
        if entry.0 == *key {
            return Some(&entry.1);
        }
        i = i + 1;
    }
    proof {
        assert(fields@.skip(i as int) =~= Seq::<(String, JsonValue)>::empty());
    }
    None
}

fn descend<'a>(v: &'a JsonValue) -> (r: Option<&'a JsonValue>)
    ensures
        match r {
            Some(w) => spec_descend(*v) == Some(*w),
            None => spec_descend(*v) is None,
        },
{
    match v {
        JsonValue::Array(elems) => {
            if elems.len() == 0 {
                None
            } else {
                Some(&elems[0])
            }
        },
        _ => Some(v),
    }
}

fn step<'a>(v: &'a JsonValue, key: &String) -> (r: Option<&'a JsonValue>)
    ensures
        match r {
            Some(w) => spec_step(*v, key@) == Some(*w),
            None => spec_step(*v, key@) is None,
        },
{
    match descend(v) {
        None => None,
        Some(w) => match w {
            JsonValue::Object(fields) => obj_get(fields, key),
            _ => None,
        },
    }
}

/// Walks `path` through `doc` with implicit array descent.
pub fn resolve_path<'a>(doc: &'a JsonValue, path: &Vec<String>) -> (r: Option<&'a JsonValue>)
    ensures
        match r {
            Some(j) => spec_resolve(*doc, path_views(path@)) == Some(*j),
            None => spec_resolve(*doc, path_views(path@)) is None,
        },
{
    let ghost keys = path_views(path@);
    let mut cur: &JsonValue = doc;
    let mut i: usize = 0;
    proof {
        assert(keys.skip(0) =~= keys);
    }
    while i < path.len()
        invariant
            0 <= i <= path@.len(),
            keys == path_views(path@),
            keys.len() == path@.len(),
            spec_resolve(*doc, keys) == spec_resolve(*cur, keys.skip(i as int)),
        decreases path@.len() - i,
    {
        proof {
            assert(keys.skip(i as int)[0] == keys[i as int]);
            assert(keys.skip(i as int).skip(1) =~= keys.skip(i + 1));
        }
        match step(cur, &path[i]) {
            None => {
                return None;
            },
            Some(w) => {
                cur = w;
            },
        }
        i = i + 1;
    }
    proof {
        assert(keys.skip(i as int) =~= Seq::<Seq<char>>::empty());
    }
    Some(cur)
}

/// The string under a JSON string value, if the value is one.
pub fn json_as_text<'a>(v: &'a JsonValue) -> (r: Option<&'a String>)
    ensures
        match r {
            Some(s) => spec_as_text(*v) == Some(s@),
            None => spec_as_text(*v) is None,
        },
{
    match v {
        JsonValue::Text(s) => Some(s),
        _ => None,
    }
}

#[verifier::external_type_specification]
#[verifier::external_body]
pub struct ExSerdeValue(serde_json::Value);

/// What serde_json makes of a byte sequence: the document, or nothing when
/// the bytes are not JSON.
pub uninterp spec fn json_doc_of(bytes: Seq<u8>) -> Option<JsonValue>;

/// Relies on serde_json::from_slice: whether bytes parse, and to what, is a
/// function of the bytes alone.
#[verifier::external_body]
pub fn parse_json_bytes(body: &Vec<u8>) -> (r: Option<JsonValue>)
    ensures
        r == json_doc_of(body@),
{
    match serde_json::from_slice::<serde_json::Value>(body.as_slice()) {
        Ok(v) => Some(json_of_value(v)),
        Err(_) => None,
    }
}

/// Relies on serde_json::Value: carries each variant over one for one, a
/// number as the text serde_json renders for it.
#[verifier::external_body]
fn json_of_value(v: serde_json::Value) -> JsonValue {
    match v {
        serde_json::Value::Null => JsonValue::Null,
        serde_json::Value::Bool(b) => JsonValue::Bool(b),
        serde_json::Value::Number(n) => JsonValue::Number(n.to_string()),
        serde_json::Value::String(s) => JsonValue::Text(s),
        serde_json::Value::Array(a) => JsonValue::Array(
            a.into_iter().map(json_of_value).collect(),
        ),
        serde_json::Value::Object(o) => JsonValue::Object(
            o.into_iter().map(|(k, w)| (k, json_of_value(w))).collect(),
        ),
    }
}

} // verus!
