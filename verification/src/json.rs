//! JSON values (`serde_json::Value`), carried through the pipeline model.

use vstd::prelude::*;

verus! {

#[verifier::external_type_specification]
#[verifier::external_body]
pub struct ExJsonValue(serde_json::Value);

/// The compact JSON text of a value, as `serde_json::to_string` writes it.
pub uninterp spec fn json_text(v: serde_json::Value) -> Seq<char>;

/// `serde_json::to_string`: the compact text of `v`. Serialising a `Value`
/// cannot fail (its map keys are strings), so the error arm is never taken.
#[verifier::external_body]
pub(crate) fn to_json_text(v: &serde_json::Value) -> (r: String)
    ensures
        r@ == json_text(*v),
{
    match serde_json::to_string(v) {
        Ok(s) => s,
        Err(_) => String::new(),
    }
}

/// `Value::clone`: a structurally identical copy.
#[verifier::external_body]
pub(crate) fn clone_json(v: &serde_json::Value) -> (r: serde_json::Value)
    ensures
        r == *v,
{
    v.clone()
}

/// The value `serde_json::from_str` reads from a text (`Value::Null` where
/// the text is not JSON).
pub uninterp spec fn json_of_text(text: Seq<char>) -> serde_json::Value;

/// `serde_json::from_str` for a text that is known to hold JSON; a text that
/// does not parse gives `Value::Null`. The result depends on the text alone.
#[verifier::external_body]
pub(crate) fn json_from_text(text: &str) -> (r: serde_json::Value)
    ensures
        r == json_of_text(text@),
{
    match serde_json::from_str(text) {
        Ok(v) => v,
        Err(_) => serde_json::Value::Null,
    }
}

/// The member `key` of an object value (`Value::get` with a text index):
/// none for a missing key and for values that are not objects.
pub uninterp spec fn json_member(v: serde_json::Value, key: Seq<char>) -> Option<serde_json::Value>;

/// `Value::get(key)`, cloned; a value that is not an object has no members.
#[verifier::external_body]
pub(crate) fn json_get(v: &serde_json::Value, key: &str) -> (r: Option<serde_json::Value>)
    ensures
        r == json_member(*v, key@),
        json_entries(*v) is None ==> r is None,
{
    v.get(key).cloned()
}

/// The elements of an array value (`Value::as_array`); none for other values.
pub uninterp spec fn json_elements(v: serde_json::Value) -> Option<Seq<serde_json::Value>>;

/// `Value::as_array`, cloned.
#[verifier::external_body]
pub(crate) fn json_as_array(v: &serde_json::Value) -> (r: Option<Vec<serde_json::Value>>)
    ensures
        r is None <==> json_elements(*v) is None,
        r matches Some(items) ==> json_elements(*v) == Some(items@),
{
    v.as_array().cloned()
}

/// The text of a string value (`Value::as_str`); none for other values.
pub uninterp spec fn json_text_of(v: serde_json::Value) -> Option<Seq<char>>;

/// `Value::as_str`, owned.
#[verifier::external_body]
pub(crate) fn json_as_str(v: &serde_json::Value) -> (r: Option<String>)
    ensures
        r is None <==> json_text_of(*v) is None,
        r matches Some(t) ==> json_text_of(*v) == Some(t@),
{
    v.as_str().map(|t| t.to_string())
}

/// The entries of an object value in the map's iteration order
/// (`Value::as_object`); none for other values.
pub uninterp spec fn json_entries(v: serde_json::Value) -> Option<Seq<(Seq<char>, serde_json::Value)>>;

/// Entries with their keys taken as texts.
pub open spec fn entry_views(es: Seq<(String, serde_json::Value)>) -> Seq<(Seq<char>, serde_json::Value)> {
    es.map_values(|e: (String, serde_json::Value)| (e.0@, e.1))
}

/// `Value::as_object`, its entries cloned in iteration order.
#[verifier::external_body]
pub(crate) fn json_as_object(v: &serde_json::Value) -> (r: Option<Vec<(String, serde_json::Value)>>)
    ensures
        r is None <==> json_entries(*v) is None,
        r matches Some(es) ==> json_entries(*v) == Some(entry_views(es@)),
{
    v.as_object().map(|m| m.iter().map(|(k, x)| (k.clone(), x.clone())).collect())
}

/// Whether two values are equal by `Value`'s `==`.
pub uninterp spec fn json_equal(a: serde_json::Value, b: serde_json::Value) -> bool;

/// `Value`'s `==`.
#[verifier::external_body]
pub(crate) fn json_eq(a: &serde_json::Value, b: &serde_json::Value) -> (r: bool)
    ensures
        r == json_equal(*a, *b),
{
    a == b
}

/// The value after `Map::insert(key, x)` on an object value; other values
/// are left as they are.
pub uninterp spec fn json_with_member(v: serde_json::Value, key: Seq<char>, x: serde_json::Value) -> serde_json::Value;

/// `Value::as_object_mut` followed by `Map::insert`: an object then has `x`
/// as its member `key`; a value that is not an object is left unchanged.
#[verifier::external_body]
pub(crate) fn json_insert(v: &mut serde_json::Value, key: &str, x: serde_json::Value)
    ensures
        *final(v) == json_with_member(*old(v), key@, x),
        json_entries(*old(v)) is Some ==> json_member(*final(v), key@) == Some(x),
{
    if let Some(m) = v.as_object_mut() {
        m.insert(key.to_string(), x);
    }
}

/// The string value holding a text (`Value::String`).
pub uninterp spec fn json_string_value(text: Seq<char>) -> serde_json::Value;

/// `Value::String`, whose text (`as_str`) is `text`.
#[verifier::external_body]
pub(crate) fn json_string(text: &str) -> (r: serde_json::Value)
    ensures
        r == json_string_value(text@),
        json_text_of(r) == Some(text@),
{
    serde_json::Value::String(text.to_string())
}

/// The boolean value (`Value::Bool`).
pub uninterp spec fn json_bool_value(b: bool) -> serde_json::Value;

/// `Value::Bool`.
#[verifier::external_body]
pub(crate) fn json_bool(b: bool) -> (r: serde_json::Value)
    ensures
        r == json_bool_value(b),
{
    serde_json::Value::Bool(b)
}

/// The number value of an unsigned integer (`Value::from(u64)`).
pub uninterp spec fn json_u64_value(n: u64) -> serde_json::Value;

/// `Value::from(u64)`.
#[verifier::external_body]
pub(crate) fn json_u64(n: u64) -> (r: serde_json::Value)
    ensures
        r == json_u64_value(n),
{
    serde_json::Value::from(n)
}

/// The array value of the elements (`Value::Array`).
pub uninterp spec fn json_array_value(items: Seq<serde_json::Value>) -> serde_json::Value;

/// `Value::Array`, whose elements (`as_array`) are `items`.
#[verifier::external_body]
pub(crate) fn json_array(items: Vec<serde_json::Value>) -> (r: serde_json::Value)
    ensures
        r == json_array_value(items@),
        json_elements(r) == Some(items@),
{
    serde_json::Value::Array(items)
}

/// The object value made by inserting the entries in order into an empty
/// `Map` (a later entry replaces an earlier one with the same key).
pub uninterp spec fn json_object_value(entries: Seq<(Seq<char>, serde_json::Value)>) -> serde_json::Value;

/// `Value::Object` of a `Map` collected from the entries.
#[verifier::external_body]
pub(crate) fn json_object(entries: Vec<(String, serde_json::Value)>) -> (r: serde_json::Value)
    ensures
        r == json_object_value(entry_views(entries@)),
{
    serde_json::Value::Object(entries.into_iter().collect())
}

} // verus!
