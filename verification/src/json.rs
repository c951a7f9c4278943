//! The JSON documents the pipeline reads, seen through `serde_json`.
//!
//! A `serde_json::Value` is opaque to the verifier, so this module gives it
//! a ghost model: `json_model` names the JSON tree a value holds, and
//! `json_of` names what `serde_json::from_str` yields for a given text.
//! Every accessor the pipeline uses is wrapped once, with a contract stated
//! over that model and checked against `serde_json`'s documented behaviour.

use vstd::prelude::*;

verus! {

/// The ghost model of a JSON value. An object is modelled as its entries in
/// the order its map hands them out (`serde_json`'s map keeps unique keys,
/// ordered by key); a number is modelled by the `u64` it represents, if
/// any, which is all the pipeline ever reads of one.
pub ghost enum JsonVal {
    Null,
    Bool(bool),
    Num(Option<u64>),
    Str(Seq<char>),
    Arr(Seq<JsonVal>),
    Obj(Seq<(Seq<char>, JsonVal)>),
}

/// Looks `key` up among object entries: the first entry with that key, as
/// `serde_json`'s map lookup finds it (keys of a parsed object are unique).
pub open spec fn obj_lookup(entries: Seq<(Seq<char>, JsonVal)>, key: Seq<char>) -> Option<JsonVal>
    decreases entries.len(),
{
    if entries.len() == 0 {
        None
    } else if entries[0].0 == key {
        Some(entries[0].1)
    } else {
        obj_lookup(entries.drop_first(), key)
    }
}

/// What `serde_json::Value` a given value holds.
pub uninterp spec fn json_model(v: serde_json::Value) -> JsonVal;

/// What parsing a given text yields: `None` where the text is not valid
/// JSON.
pub uninterp spec fn json_of(s: Seq<char>) -> Option<JsonVal>;

#[verifier::external_type_specification]
#[verifier::external_body]
pub struct ExValue(serde_json::Value);

/// Relies on `serde_json::from_str::<Value>`: parses the text as a JSON
/// document, or fails exactly when the text is not valid JSON.
#[verifier::external_body]
pub fn json_parse(s: &str) -> (r: Option<serde_json::Value>)
    ensures
        r is Some <==> json_of(s@) is Some,
        r matches Some(v) ==> json_model(v) == json_of(s@)->Some_0,
{
    serde_json::from_str(s).ok()
}

/// Relies on `serde_json::Value::get` with a string index: on an object, the
/// entry under the key, if any; on anything else, nothing.
#[verifier::external_body]
pub fn json_get<'a>(v: &'a serde_json::Value, key: &str) -> (r: Option<&'a serde_json::Value>)
    ensures
        json_model(*v) matches JsonVal::Obj(es) ==> {
            match obj_lookup(es, key@) {
                Some(j) => r matches Some(w) && json_model(*w) == j,
                None => r is None,
            }
        },
        !(json_model(*v) is Obj) ==> r is None,
{
    v.get(key)
}

/// Relies on `serde_json::Value::as_str`: the string a string value holds;
/// nothing for any other kind of value.
#[verifier::external_body]
pub fn json_as_str(v: &serde_json::Value) -> (r: Option<String>)
    ensures
        match json_model(*v) {
            JsonVal::Str(s) => r matches Some(x) && x@ == s,
            _ => r is None,
        },
{
    v.as_str().map(|s| s.to_owned())
}

/// Relies on `serde_json::Value::as_u64`: the `u64` a number represents, if
/// it represents one; nothing for any other kind of value.
#[verifier::external_body]
pub fn json_as_u64(v: &serde_json::Value) -> (r: Option<u64>)
    ensures
        json_model(*v) matches JsonVal::Num(n) ==> r == n,
        !(json_model(*v) is Num) ==> r is None,
{
    v.as_u64()
}

/// Relies on `serde_json::Value::as_array`: the elements of an array value,
/// in order; nothing for any other kind of value.
#[verifier::external_body]
pub fn json_as_array(v: &serde_json::Value) -> (r: Option<Vec<serde_json::Value>>)
    ensures
        match json_model(*v) {
            JsonVal::Arr(xs) => r matches Some(a) && a@.len() == xs.len() && (forall|i: int|
                0 <= i < xs.len() ==> json_model(#[trigger] a@[i]) == xs[i]),
            _ => r is None,
        },
{
    v.as_array().map(|a| a.clone())
}

/// Relies on `serde_json::Value::as_object` and the map's iterator: the
/// entries of an object value, in the map's own order; nothing for any
/// other kind of value.
#[verifier::external_body]
pub fn json_object_entries(v: &serde_json::Value) -> (r: Option<Vec<(String, serde_json::Value)>>)
    ensures
        match json_model(*v) {
            JsonVal::Obj(es) => r matches Some(a) && a@.len() == es.len() && (forall|i: int|
                0 <= i < es.len() ==> (#[trigger] a@[i]).0@ == es[i].0 && json_model(a@[i].1)
                    == es[i].1),
            _ => r is None,
        },
{
    v.as_object().map(|m| m.iter().map(|(k, x)| (k.clone(), x.clone())).collect())
}

} // verus!
