//! JSON values, which `serde_json` holds and writes out.

use vstd::prelude::*;

use serde_json::Value;

verus! {

/// A JSON value. A number is an integer, or the bits of a floating-point number.
pub enum JsonView {
    Null,
    Bool(bool),
    Integer(int),
    Float(u64),
    Text(Seq<char>),
    Array(Seq<JsonView>),
    Object(Map<Seq<char>, JsonView>),
}

/// `serde_json::Value`.
#[verifier::external_type_specification]
#[verifier::external_body]
pub struct ExValue(Value);

/// What a `serde_json::Value` holds.
pub uninterp spec fn json_view(value: Value) -> JsonView;

/// What a list of `serde_json::Value` holds.
pub open spec fn json_views(values: Seq<Value>) -> Seq<JsonView> {
    values.map_values(|value: Value| json_view(value))
}

/// The compact text that `serde_json` writes for a value.
pub uninterp spec fn json_text(value: JsonView) -> Seq<char>;

/// `serde_json::Value::from` of a `u64`: the JSON number.
#[verifier::external_body]
pub(crate) fn json_number(number: u64) -> (value: Value)
    ensures
        json_view(value) == JsonView::Integer(number as int),
{
    Value::from(number)
}

/// `serde_json::Value::from` of a `&str`: the JSON string with that text.
#[verifier::external_body]
pub(crate) fn json_string(text: &str) -> (value: Value)
    ensures
        json_view(value) == JsonView::Text(text@),
{
    Value::from(text)
}

/// `serde_json::Value::from` of a `Vec`: the JSON array with these items in their order.
#[verifier::external_body]
pub(crate) fn json_array(items: Vec<Value>) -> (value: Value)
    ensures
        json_view(value) == JsonView::Array(json_views(items@)),
{
    Value::from(items)
}

/// `serde_json::Map::new`, as a value: the JSON object without entries.
#[verifier::external_body]
pub(crate) fn json_object() -> (value: Value)
    ensures
        json_view(value) == JsonView::Object(Map::empty()),
{
    Value::Object(serde_json::Map::new())
}

/// Assignment through `IndexMut` of `serde_json::Value`: gives the object an entry under `key`,
/// in place of one that it may have there already. On a value that is no object it can panic.
#[verifier::external_body]
pub(crate) fn json_set(object: &mut Value, key: &str, item: Value)
    requires
        json_view(*old(object)) is Object,
    ensures
        json_view(*final(object)) == JsonView::Object(
            json_view(*old(object))->Object_0.insert(key@, json_view(item)),
        ),
{
    object[key] = item;
}

/// `Display` of `serde_json::Value`, by its name: the compact text of the value, which is a
/// function of what the value holds. (The `preserve_order` feature is off, so that the entries of
/// an object come in the order of their keys.)
#[verifier::external_body]
pub(crate) fn json_write(value: &Value) -> (text: String)
    ensures
        text@ == json_text(json_view(*value)),
{
    value.to_string()
}

} // verus!
