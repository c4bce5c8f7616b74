//! JSON values: what they hold, how they are read and how they are put together.
use serde_json::Value;
use vstd::prelude::*;

verus! {

/// The mathematical content of a JSON value. A number is given by the text it prints as.
pub enum Json {
    Null,
    Bool(bool),
    Number(Seq<char>),
    Text(Seq<char>),
    Array(Seq<Json>),
    Object(Map<Seq<char>, Json>),
}

/// The member of an object under a key; nothing else than an object has members.
pub open spec fn member(json: Json, key: Seq<char>) -> Option<Json> {
    match json {
        Json::Object(members) => if members.contains_key(key) {
            Some(members[key])
        } else {
            None
        },
        _ => None,
    }
}

/// An object with the member under one key set.
pub open spec fn with_member(json: Json, key: Seq<char>, item: Json) -> Json {
    match json {
        Json::Object(members) => Json::Object(members.insert(key, item)),
        other => other,
    }
}

/// An object with no members.
pub open spec fn empty_json() -> Json {
    Json::Object(Map::empty())
}

/// An object that says in `type` what it is.
pub open spec fn typed_json(kind: Seq<char>) -> Json {
    with_member(empty_json(), "type"@, Json::Text(kind))
}

/// How deep arrays and objects can be nested in a text that `serde_json` reads.
pub const MAX_DEPTH: u64 = 127;

/// A number without a fraction or an exponent: its text is made of digits and a sign.
pub open spec fn is_whole(number: Seq<char>) -> bool {
    forall|i: int|
        0 <= i < number.len() ==> (#[trigger] number[i] == '-' || '0' <= number[i] <= '9')
}

/// A value in which all numbers are whole, and arrays and objects are nested no deeper than
/// `depth`.
pub open spec fn is_plain(json: Json, depth: nat) -> bool
    decreases depth,
{
    match json {
        Json::Number(number) => is_whole(number),
        Json::Array(items) => depth > 0 && forall|i: int|
            0 <= i < items.len() ==> is_plain(#[trigger] items[i], (depth - 1) as nat),
        Json::Object(members) => depth > 0 && forall|key: Seq<char>| #[trigger]
            members.contains_key(key) ==> is_plain(members[key], (depth - 1) as nat),
        _ => true,
    }
}

/// A plain value is what its text stands for.
pub open spec fn reads_back(json: Json) -> bool {
    is_plain(json, MAX_DEPTH as nat) ==> parsed_json(json_text(json)) == Some(json)
}

/// The contents of several values.
pub open spec fn contents(values: Seq<Value>) -> Seq<Json> {
    values.map_values(|value: Value| json_of(value))
}

/// A `serde_json::Value`.
#[verifier::external_type_specification]
#[verifier::external_body]
pub struct ExValue(serde_json::Value);

/// The error with which `serde_json` refuses a text.
#[verifier::external_type_specification]
#[verifier::external_body]
pub struct ExError(serde_json::Error);

/// What a `serde_json::Value` holds.
pub uninterp spec fn json_of(value: Value) -> Json;

/// What `serde_json::from_str` makes of a text: nothing where it refuses the text.
pub uninterp spec fn parsed_json(text: Seq<char>) -> Option<Json>;

/// The compact text that `serde_json` prints for a value.
pub uninterp spec fn json_text(json: Json) -> Seq<char>;

/// `serde_json::from_str::<Value>`: whether a text is JSON, and which value it stands for,
/// depends on the text alone.
#[verifier::external_body]
pub(crate) fn parse_value(text: &str) -> (parsed: Result<Value, serde_json::Error>)
    ensures
        match parsed {
            Ok(value) => parsed_json(text@) == Some(json_of(value)),
            Err(_) => parsed_json(text@) is None,
        },
{
    serde_json::from_str::<Value>(text)
}

/// `Value::to_string`: the printed text depends on what the value holds alone. It is compact,
/// with control characters escaped, so no line feed occurs in it. `serde_json::from_str` makes the
/// same value of it again if all numbers in it are whole and it is not nested deeper than the
/// reader goes. Nothing is claimed of the way back for other values: a fraction can come back as a
/// neighbouring one, and a text that is nested too deep is refused.
#[verifier::external_body]
pub(crate) fn value_text(value: &Value) -> (text: String)
    ensures
        text@ == json_text(json_of(*value)),
        !text@.contains('\n'),
        is_plain(json_of(*value), MAX_DEPTH as nat) ==> parsed_json(text@) == Some(json_of(*value)),
{
    value.to_string()
}

/// `Value::get` with a key: the member of an object under that key.
#[verifier::external_body]
pub(crate) fn field<'a>(value: &'a Value, key: &str) -> (found: Option<&'a Value>)
    ensures
        match found {
            Some(item) => member(json_of(*value), key@) == Some(json_of(*item)),
            None => member(json_of(*value), key@) is None,
        },
{
    value.get(key)
}

/// `Value::as_str`: the characters of a text, and nothing for any other value.
#[verifier::external_body]
pub(crate) fn as_str(value: &Value) -> (text: Option<&str>)
    ensures
        match text {
            Some(characters) => json_of(*value) == Json::Text(characters@),
            None => json_of(*value) !is Text,
        },
{
    value.as_str()
}

/// `Value::as_bool`: a boolean, and nothing for any other value.
#[verifier::external_body]
pub(crate) fn as_bool(value: &Value) -> (boolean: Option<bool>)
    ensures
        match boolean {
            Some(b) => json_of(*value) == Json::Bool(b),
            None => json_of(*value) !is Bool,
        },
{
    value.as_bool()
}

/// `Value::as_array`: the items of an array in their order, and nothing for any other value.
#[verifier::external_body]
pub(crate) fn as_array(value: &Value) -> (items: Option<&Vec<Value>>)
    ensures
        match items {
            Some(list) => json_of(*value) == Json::Array(contents(list@)),
            None => json_of(*value) !is Array,
        },
{
    value.as_array()
}

/// `Value::as_object` and `serde_json::Map::keys`: the keys of an object, each once, in an order
/// that is not stated; nothing for any other value.
#[verifier::external_body]
pub(crate) fn object_keys(value: &Value) -> (keys: Option<Vec<String>>)
    ensures
        match keys {
            Some(list) => {
                &&& json_of(*value) is Object
                &&& list.deep_view().no_duplicates()
                &&& list.deep_view().to_set() == json_of(*value)->Object_0.dom()
            },
            None => json_of(*value) !is Object,
        },
{
    value.as_object().map(|members| members.keys().cloned().collect())
}

/// `serde_json::Map::new` as a value: an object with no members.
#[verifier::external_body]
pub(crate) fn empty_object() -> (value: Value)
    ensures
        json_of(value) == empty_json(),
{
    Value::Object(serde_json::Map::new())
}

/// `Value::from` a text.
#[verifier::external_body]
pub(crate) fn text_value(text: &str) -> (value: Value)
    ensures
        json_of(value) == Json::Text(text@),
{
    Value::from(text)
}

/// `Value::from` a list of values.
#[verifier::external_body]
pub(crate) fn array_value(items: Vec<Value>) -> (value: Value)
    ensures
        json_of(value) == Json::Array(contents(items@)),
{
    Value::from(items)
}

/// Assignment to a `Value` indexed by a key: sets that member of an object. On anything but an
/// object or null it panics, so objects alone are admitted.
#[verifier::external_body]
pub(crate) fn set_field(value: &mut Value, key: &str, item: Value)
    requires
        json_of(*old(value)) is Object,
    ensures
        json_of(*final(value)) == with_member(json_of(*old(value)), key@, json_of(item)),
{
    value[key] = item;
}

/// Sets a member of an object to a text.
pub(crate) fn set_text(value: &mut Value, key: &str, text: &str)
    requires
        json_of(*old(value)) is Object,
    ensures
        json_of(*final(value)) == with_member(json_of(*old(value)), key@, Json::Text(text@)),
{
    set_field(value, key, text_value(text));
}

/// An object that says in `type` what it is.
pub(crate) fn typed_object(kind: &str) -> (value: Value)
    ensures
        json_of(value) == typed_json(kind@),
{
    let mut value = empty_object();
    set_text(&mut value, "type", kind);
    value
}

/// A list of texts.
pub open spec fn text_list(texts: Seq<Seq<char>>) -> Json {
    Json::Array(texts.map_values(|text: Seq<char>| Json::Text(text)))
}

/// A list of texts as a value.
pub(crate) fn text_list_value(texts: &Vec<String>) -> (value: Value)
    ensures
        json_of(value) == text_list(texts.deep_view()),
{
    let mut items: Vec<Value> = Vec::new();
    let mut i: usize = 0;
    while i < texts.len()
        invariant
            i <= texts@.len(),
            items@.len() == i,
            forall|k: int| 0 <= k < i ==> json_of(#[trigger] items@[k]) == Json::Text(texts@[k]@),
        decreases texts@.len() - i,
    {
        items.push(text_value(texts[i].as_str()));
        i += 1;
    }
    assert(contents(items@) =~= texts.deep_view().map_values(|text: Seq<char>| Json::Text(text)));
    array_value(items)
}

} // verus!
