//! JSON: building objects, and writing them out.
use serde_json::{Map as JsonMap, Value};
use vstd::prelude::*;

verus! {

/// A JSON value, as `serde_json` holds it.
#[verifier::external_type_specification]
#[verifier::external_body]
pub struct ExJsonValue(serde_json::Value);

/// The entries of a JSON object, as `serde_json` holds them.
#[verifier::external_type_specification]
#[verifier::external_body]
#[verifier::reject_recursive_types(K)]
#[verifier::reject_recursive_types(V)]
pub struct ExJsonMap<K, V>(serde_json::Map<K, V>);

/// What a JSON value holds.
pub enum JsonContents {
    Null,
    Text(Seq<char>),
    Integer(int),
    Object(Map<Seq<char>, JsonContents>),
    /// A boolean, an array or a number that is no integer.
    Other,
}

/// What a JSON value holds.
pub uninterp spec fn json_contents(value: Value) -> JsonContents;

/// What the entries of a JSON object hold, by key.
pub uninterp spec fn object_entries(entries: JsonMap<String, Value>) -> Map<
    Seq<char>,
    JsonContents,
>;

/// Whether this is an object whose entries are nulls, texts and integers.
pub open spec fn is_flat_object(contents: JsonContents) -> bool {
    contents matches JsonContents::Object(entries) && forall|key: Seq<char>| #[trigger]
        entries.dom().contains(key) ==> (entries[key] is Null || entries[key] is Text
            || entries[key] is Integer)
}

/// A flat object written out over several lines, with its entries in the order of their keys.
pub uninterp spec fn pretty_json(contents: JsonContents) -> Seq<char>;

/// `serde_json::Map::new` makes an object without entries.
#[verifier::external_body]
pub(crate) fn new_object() -> (entries: JsonMap<String, Value>)
    ensures
        object_entries(entries) == (Map::<Seq<char>, JsonContents>::empty()),
{
    JsonMap::new()
}

/// `serde_json::Map::insert` puts a value under a key, in place of any value that was there, and
/// leaves the other entries alone. The value that was there is dropped.
#[verifier::external_body]
pub(crate) fn insert_member(entries: &mut JsonMap<String, Value>, key: &str, value: Value)
    ensures
        object_entries(*final(entries)) == object_entries(*old(entries)).insert(
            key@,
            json_contents(value),
        ),
{
    entries.insert(key.to_string(), value);
}

/// `Value::Null` is the JSON null.
#[verifier::external_body]
pub(crate) fn null_json() -> (value: Value)
    ensures
        json_contents(value) == JsonContents::Null,
{
    Value::Null
}

/// `Value::String` is a JSON text.
#[verifier::external_body]
pub(crate) fn text_json(text: String) -> (value: Value)
    ensures
        json_contents(value) == JsonContents::Text(text@),
{
    Value::String(text)
}

/// `Value::from` makes a JSON number of an integer.
#[verifier::external_body]
pub(crate) fn integer_json(number: i64) -> (value: Value)
    ensures
        json_contents(value) == JsonContents::Integer(number as int),
{
    Value::from(number)
}

/// `Value::Object` is a JSON object with these entries.
#[verifier::external_body]
pub(crate) fn object_json(entries: JsonMap<String, Value>) -> (value: Value)
    ensures
        json_contents(value) == JsonContents::Object(object_entries(entries)),
{
    Value::Object(entries)
}

/// `serde_json::to_string_pretty` writes a JSON value out over several lines. A flat object can
/// always be written. What becomes of a value that is no flat object is left unsaid.
#[verifier::external_body]
pub(crate) fn pretty_text(value: &Value) -> (text: Result<String, String>)
    ensures
        is_flat_object(json_contents(*value)) ==> text is Ok,
        is_flat_object(json_contents(*value)) ==> text->Ok_0@ == pretty_json(json_contents(*value)),
{
    serde_json::to_string_pretty(value).map_err(|error| error.to_string())
}

} // verus!
