//! JSON documents: the mathematical model of a `serde_json::Value`, and the
//! operations on such values that the metadata generator builds on.

use vstd::prelude::*;

verus! {

/// A JSON document as a mathematical value.
pub enum Json {
    Null,
    Bool(bool),
    /// A number, by its canonical text.
    Number(Seq<char>),
    Text(Seq<char>),
    List(Seq<Json>),
    Object(Map<Seq<char>, Json>),
}

/// A JSON value of `serde_json`, opaque to the verifier: what it holds is
/// `json_of`.
#[verifier::external_type_specification]
#[verifier::external_body]
pub struct ExValue(serde_json::Value);

/// The document that a `serde_json::Value` holds.
pub uninterp spec fn json_of(v: serde_json::Value) -> Json;

/// The compact text of a document, as `serde_json` prints a value that holds
/// it: the members of an object stand in the order of their keys, which is how
/// `serde_json` keeps them unless it is built to preserve the order of
/// insertion.
pub uninterp spec fn json_text(doc: Json) -> Seq<char>;

/// `Value::from` on a string slice: the JSON string of the same characters.
#[verifier::external_body]
pub(crate) fn json_string(s: &str) -> (v: serde_json::Value)
    ensures
        json_of(v) == Json::Text(s@),
{
    serde_json::Value::from(s)
}

/// `Value::Object` on `Map::new`: the object without members.
#[verifier::external_body]
pub(crate) fn json_empty_object() -> (v: serde_json::Value)
    ensures
        json_of(v) == Json::Object(Map::empty()),
{
    serde_json::Value::Object(serde_json::Map::new())
}

/// `Value::Array` on an empty vector: the array without items.
#[verifier::external_body]
pub(crate) fn json_empty_array() -> (v: serde_json::Value)
    ensures
        json_of(v) == Json::List(Seq::empty()),
{
    serde_json::Value::Array(Vec::new())
}

/// Assignment through `IndexMut<String>` of a `Value`: on an object, the
/// member `key` is set to `item`, whether or not the object had such a member,
/// and the other members stay. The call panics on a value that is neither an
/// object nor null, which `requires` leaves out.
#[verifier::external_body]
pub(crate) fn json_set(obj: &mut serde_json::Value, key: String, item: serde_json::Value)
    requires
        json_of(*old(obj)) is Object,
    ensures
        json_of(*final(obj)) == Json::Object(
            json_of(*old(obj))->Object_0.insert(key@, json_of(item)),
        ),
{
    obj[key] = item;
}

/// `Vec::push` on the items of an array, reached by `Value::as_array_mut`:
/// `item` becomes the last item and the others stay in place. On a value that
/// is no array `as_array_mut` returns `None`, which `requires` leaves out.
#[verifier::external_body]
pub(crate) fn json_push(arr: &mut serde_json::Value, item: serde_json::Value)
    requires
        json_of(*old(arr)) is List,
    ensures
        json_of(*final(arr)) == Json::List(json_of(*old(arr))->List_0.push(json_of(item))),
{
    arr.as_array_mut().unwrap().push(item);
}

/// `to_string` of a `Value`: its compact text, which depends on the document
/// alone.
#[verifier::external_body]
pub(crate) fn json_to_string(v: &serde_json::Value) -> (text: String)
    ensures
        text@ == json_text(json_of(*v)),
{
    v.to_string()
}

} // verus!
