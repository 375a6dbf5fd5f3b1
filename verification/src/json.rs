//! JSON values, as `serde_json` holds them.
//!
//! A `serde_json::Value` is opaque here; `value_tree` names what it holds, and
//! each function below says what one call of that crate does to it.

use vstd::prelude::*;

verus! {

/// What a JSON value holds. A whole number that is not negative is `Number`; any
/// other number is `OtherNumber`, by its text.
pub enum JsonTree {
    Null,
    Bool(bool),
    Number(nat),
    OtherNumber(Seq<char>),
    Text(Seq<char>),
    Array(Seq<JsonTree>),
    Object(Map<Seq<char>, JsonTree>),
}

/// `tree` is an object with a field called `name`.
pub open spec fn has_field(tree: JsonTree, name: Seq<char>) -> bool {
    tree matches JsonTree::Object(fields) && fields.dom().contains(name)
}

/// An object without fields.
pub open spec fn no_fields() -> Map<Seq<char>, JsonTree> {
    Map::empty()
}

/// What each of the values holds.
pub open spec fn value_trees(values: Seq<serde_json::Value>) -> Seq<JsonTree> {
    values.map_values(|value: serde_json::Value| value_tree(value))
}

/// A list of strings or an error's text, over sequences of characters.
pub open spec fn list_view(list: Result<Vec<String>, String>) -> Result<
    Seq<Seq<char>>,
    Seq<char>,
> {
    match list {
        Ok(items) => Ok(items.deep_view()),
        Err(message) => Err(message@),
    }
}

/// `serde_json::Value`, opaque.
#[verifier::external_type_specification]
#[verifier::external_body]
pub struct ExValue(serde_json::Value);

/// What a `serde_json::Value` holds.
pub uninterp spec fn value_tree(value: serde_json::Value) -> JsonTree;

/// The compact JSON text that `serde_json` writes for what a value holds, the fields of an
/// object in the order of their names.
pub uninterp spec fn json_text(tree: JsonTree) -> Seq<char>;

/// What `serde_json` reads from a text as one JSON value, if it reads one.
pub uninterp spec fn json_read(text: Seq<char>) -> Option<JsonTree>;

/// What `serde_json` reads from a text as a list of strings, or the text of its
/// error.
pub uninterp spec fn string_list_read(text: Seq<char>) -> Result<Seq<Seq<char>>, Seq<char>>;

/// `serde_json::Value::String`: the value holds the text.
#[verifier::external_body]
pub(crate) fn text_value(text: &str) -> (value: serde_json::Value)
    ensures
        value_tree(value) == JsonTree::Text(text@),
{
    serde_json::Value::String(text.to_string())
}

/// `serde_json::Value::from` on a `u16`: the value holds the number.
#[verifier::external_body]
pub(crate) fn number_value(number: u16) -> (value: serde_json::Value)
    ensures
        value_tree(value) == JsonTree::Number(number as nat),
{
    serde_json::Value::from(number)
}

/// `serde_json::Value::Array`: the value holds the items in their order.
#[verifier::external_body]
pub(crate) fn array_value(items: Vec<serde_json::Value>) -> (value: serde_json::Value)
    ensures
        value_tree(value) == JsonTree::Array(value_trees(items@)),
{
    serde_json::Value::Array(items)
}

/// `serde_json::Value::Object` on a new `serde_json::Map`: an object without
/// fields.
#[verifier::external_body]
pub(crate) fn empty_object() -> (value: serde_json::Value)
    ensures
        value_tree(value) == JsonTree::Object(no_fields()),
{
    serde_json::Value::Object(serde_json::Map::new())
}

/// `serde_json::Map::insert` on the map of an object: the object gets the field,
/// or a new value for it.
#[verifier::external_body]
pub(crate) fn set_field(object: &mut serde_json::Value, name: &str, value: serde_json::Value)
    requires
        value_tree(*old(object)) is Object,
    ensures
        value_tree(*final(object)) == JsonTree::Object(
            value_tree(*old(object))->Object_0.insert(name@, value_tree(value)),
        ),
{
    object.as_object_mut().unwrap().insert(name.to_string(), value);
}

/// `serde_json::Value::to_string`: the compact text, which depends on what the
/// value holds and on nothing else.
#[verifier::external_body]
pub(crate) fn value_text(value: &serde_json::Value) -> (text: String)
    ensures
        text@ == json_text(value_tree(*value)),
{
    value.to_string()
}

/// `serde_json::from_str` into a `serde_json::Value`: `None` where the text is not
/// JSON.
#[verifier::external_body]
pub(crate) fn read_value(text: &str) -> (value: Option<serde_json::Value>)
    ensures
        value is Some <==> json_read(text@) is Some,
        value matches Some(v) ==> Some(value_tree(v)) == json_read(text@),
{
    serde_json::from_str::<serde_json::Value>(text).ok()
}

/// `serde_json::Value::get` with a field's name: whether it finds the field.
#[verifier::external_body]
pub(crate) fn value_has(value: &serde_json::Value, name: &str) -> (found: bool)
    ensures
        found == has_field(value_tree(*value), name@),
{
    value.get(name).is_some()
}

/// `serde_json::from_str` into a `Vec<String>`: the list, or the error's text.
#[verifier::external_body]
pub(crate) fn read_string_list(text: &str) -> (list: Result<Vec<String>, String>)
    ensures
        list_view(list) == string_list_read(text@),
{
    serde_json::from_str::<Vec<String>>(text).map_err(|error| error.to_string())
}

/// An object with one field.
pub(crate) fn object1(name: &str, value: serde_json::Value) -> (object: serde_json::Value)
    ensures
        value_tree(object) == JsonTree::Object(no_fields().insert(name@, value_tree(value))),
{
    let mut object = empty_object();
    set_field(&mut object, name, value);
    object
}

/// An object with two fields; where they have one name, the second one counts.
pub(crate) fn object2(
    name: &str,
    value: serde_json::Value,
    other: &str,
    other_value: serde_json::Value,
) -> (object: serde_json::Value)
    ensures
        value_tree(object) == JsonTree::Object(
            no_fields().insert(name@, value_tree(value)).insert(other@, value_tree(other_value)),
        ),
{
    let mut object = object1(name, value);
    set_field(&mut object, other, other_value);
    object
}

/// The value is an object with this one field and no other.
pub open spec fn has_one_field(tree: JsonTree, name: Seq<char>, value: JsonTree) -> bool {
    tree matches JsonTree::Object(fields) && fields.dom() == set![name] && fields[name] == value
}

/// The value is an object with these two fields and no other.
pub open spec fn has_two_fields(
    tree: JsonTree,
    name: Seq<char>,
    value: JsonTree,
    other: Seq<char>,
    other_value: JsonTree,
) -> bool {
    tree matches JsonTree::Object(fields) && fields.dom() == set![name, other] && fields[name]
        == value && fields[other] == other_value
}

/// Only an object has a field, and it has those of its map, whatever they hold.
pub proof fn law_fields_are_those_of_the_map(fields: Map<Seq<char>, JsonTree>, name: Seq<char>)
    ensures
        has_field(JsonTree::Object(fields), name) <==> fields.contains_key(name),
        forall|tree: JsonTree| #[trigger] has_field(tree, name) ==> tree is Object,
        forall|other: Seq<char>| !(#[trigger] no_fields().contains_key(other)),
{
}

/// Lists are looked at item by item, none left out.
pub proof fn law_every_item_is_looked_at(
    values: Seq<serde_json::Value>,
    list: Vec<String>,
    why: String,
)
    ensures
        value_trees(values).len() == values.len(),
        forall|i: int|
            0 <= i < values.len() ==> #[trigger] value_trees(values)[i] == value_tree(values[i]),
        list_view(Err(why)) == Err::<Seq<Seq<char>>, Seq<char>>(why@),
        list_view(Ok(list)) matches Ok(items) && items.len() == list@.len() && forall|i: int|
            0 <= i < items.len() ==> #[trigger] items[i] == list@[i]@,
{
}

} // verus!
