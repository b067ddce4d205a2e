//! JSON documents: a mathematical model of `serde_json::Value`, and the
//! calls into `serde_json` that the record model is built on.
//!
//! Nothing in this file is proved about `serde_json` itself. Each function
//! marked `external_body` states what the named `serde_json` function is
//! documented to do; the rest of the crate is verified against these
//! statements.

use vstd::prelude::*;

verus! {

/// What a JSON value holds.
pub enum JsonModel {
    Null,
    Bool(bool),
    /// A number that the value keeps as an integer.
    Integer(int),
    /// A number that the value keeps as a double, by the double's bits.
    Fraction(u64),
    Text(Seq<char>),
    Array(Seq<JsonModel>),
    /// The members of an object, in the order in which the value keeps them.
    Object(Seq<(Seq<char>, JsonModel)>),
}

#[verifier::external_type_specification]
#[verifier::external_body]
pub struct ExValue(serde_json::Value);

#[verifier::external_type_specification]
#[verifier::external_body]
pub struct ExError(serde_json::Error);

/// What a `serde_json::Value` holds.
pub uninterp spec fn value_model(v: serde_json::Value) -> JsonModel;

/// The message that a `serde_json::Error` displays.
pub uninterp spec fn error_message(e: serde_json::Error) -> Seq<char>;

/// What `serde_json::from_str` makes of a text: the value that it holds, or
/// the message of the error.
pub uninterp spec fn parsed_json(text: Seq<char>) -> Result<JsonModel, Seq<char>>;

/// What `serde_json::to_string_pretty` makes of a value: the text that it
/// writes, or `None` where it reports an error.
pub uninterp spec fn pretty_text(j: JsonModel) -> Option<Seq<char>>;

/// The value of the first member from position `start` on whose key is `key`.
pub open spec fn member_from(
    members: Seq<(Seq<char>, JsonModel)>,
    key: Seq<char>,
    start: int,
) -> Option<JsonModel>
    decreases members.len() - start,
{
    if start < 0 || start >= members.len() {
        None
    } else if members[start].0 == key {
        Some(members[start].1)
    } else {
        member_from(members, key, start + 1)
    }
}

/// The member of an object under `key`; `None` for a missing key and for a
/// value that is no object.
pub open spec fn object_field(j: JsonModel, key: Seq<char>) -> Option<JsonModel> {
    match j {
        JsonModel::Object(members) => member_from(members, key, 0),
        _ => None,
    }
}

/// The models of a sequence of values, one for one.
pub open spec fn models_of(values: Seq<serde_json::Value>) -> Seq<JsonModel> {
    Seq::new(values.len(), |i: int| value_model(values[i]))
}

/// The members that parallel sequences of keys and values stand for.
pub open spec fn members_of(keys: Seq<String>, values: Seq<serde_json::Value>) -> Seq<
    (Seq<char>, JsonModel),
> {
    Seq::new(keys.len(), |i: int| (keys[i]@, value_model(values[i])))
}

/// No key occurs twice.
pub open spec fn distinct_keys(keys: Seq<String>) -> bool {
    forall|i: int, j: int| 0 <= i < j < keys.len() ==> keys[i]@ != keys[j]@
}

/// The text without the byte-order marks that it starts with.
pub open spec fn without_bom(text: Seq<char>) -> Seq<char>
    decreases text.len(),
{
    if text.len() > 0 && text[0] == '\u{feff}' {
        without_bom(text.drop_first())
    } else {
        text
    }
}

/// `str::trim_start_matches` with the byte-order mark as pattern: every
/// leading occurrence of the mark is removed, and nothing else.
#[verifier::external_body]
pub(crate) fn strip_bom(text: &str) -> (r: &str)
    ensures
        r@ == without_bom(text@),
{
    text.trim_start_matches('\u{feff}')
}

/// `serde_json::from_str` at type `Value`. The outcome depends on the text
/// alone: it is the value, or the error, that `parsed_json` names.
#[verifier::external_body]
pub(crate) fn parse_value(text: &str) -> (r: Result<serde_json::Value, serde_json::Error>)
    ensures
        match r {
            Ok(v) => parsed_json(text@) == Ok::<JsonModel, Seq<char>>(value_model(v)),
            Err(e) => parsed_json(text@) == Err::<JsonModel, Seq<char>>(error_message(e)),
        },
{
    serde_json::from_str::<serde_json::Value>(text)
}

/// `ToString::to_string` on a `serde_json::Error`: the message it displays.
#[verifier::external_body]
pub(crate) fn error_text(e: &serde_json::Error) -> (r: String)
    ensures
        r@ == error_message(*e),
{
    e.to_string()
}

/// `serde_json::to_string_pretty` on a `Value`. The outcome depends on what
/// the value holds alone: it is the text, or the failure, that `pretty_text`
/// names. Nothing is claimed on when it succeeds.
#[verifier::external_body]
pub(crate) fn pretty(v: &serde_json::Value) -> (r: Result<String, serde_json::Error>)
    ensures
        match r {
            Ok(s) => pretty_text(value_model(*v)) == Some(s@),
            Err(_) => pretty_text(value_model(*v)) is None,
        },
{
    serde_json::to_string_pretty(v)
}

/// `Value::get` with a string index: the member under that key if the value
/// is an object that has one, `None` otherwise.
#[verifier::external_body]
pub(crate) fn field<'a>(v: &'a serde_json::Value, key: &str) -> (r: Option<&'a serde_json::Value>)
    ensures
        match r {
            Some(f) => object_field(value_model(*v), key@) == Some(value_model(*f)),
            None => object_field(value_model(*v), key@) is None,
        },
{
    v.get(key)
}

/// `Value::as_str`: the text of a string value, `None` for any other value.
#[verifier::external_body]
pub(crate) fn text_of<'a>(v: &'a serde_json::Value) -> (r: Option<&'a str>)
    ensures
        match r {
            Some(s) => value_model(*v) == JsonModel::Text(s@),
            None => !(value_model(*v) is Text),
        },
{
    v.as_str()
}

/// `Value::as_u64`: the number if the value is an integer that is not
/// negative, `None` for any other value.
#[verifier::external_body]
pub(crate) fn unsigned_of(v: &serde_json::Value) -> (r: Option<u64>)
    ensures
        match r {
            Some(n) => value_model(*v) == JsonModel::Integer(n as int),
            None => forall|i: int| i >= 0 ==> value_model(*v) != JsonModel::Integer(i),
        },
{
    v.as_u64()
}

/// `Value::as_bool`: the flag of a boolean value, `None` for any other value.
#[verifier::external_body]
pub(crate) fn flag_of(v: &serde_json::Value) -> (r: Option<bool>)
    ensures
        match r {
            Some(b) => value_model(*v) == JsonModel::Bool(b),
            None => !(value_model(*v) is Bool),
        },
{
    v.as_bool()
}

/// `Value::as_array`: the items of an array value, `None` for any other value.
#[verifier::external_body]
pub(crate) fn items_of<'a>(v: &'a serde_json::Value) -> (r: Option<&'a Vec<serde_json::Value>>)
    ensures
        match r {
            Some(items) => value_model(*v) == JsonModel::Array(models_of(items@)),
            None => !(value_model(*v) is Array),
        },
{
    v.as_array()
}

/// `Value::from` on a `&str`: the string value with that text.
#[verifier::external_body]
pub(crate) fn text_value(s: &str) -> (v: serde_json::Value)
    ensures
        value_model(v) == JsonModel::Text(s@),
{
    serde_json::Value::from(s)
}

/// `Value::from` on a `u64`: the integer value with that number.
#[verifier::external_body]
pub(crate) fn unsigned_value(n: u64) -> (v: serde_json::Value)
    ensures
        value_model(v) == JsonModel::Integer(n as int),
{
    serde_json::Value::from(n)
}

/// `Value::from` on a `bool`: the boolean value with that flag.
#[verifier::external_body]
pub(crate) fn flag_value(b: bool) -> (v: serde_json::Value)
    ensures
        value_model(v) == JsonModel::Bool(b),
{
    serde_json::Value::from(b)
}

/// `Value::from` on a `Vec<Value>`: the array value with those items.
#[verifier::external_body]
pub(crate) fn array_value(items: Vec<serde_json::Value>) -> (v: serde_json::Value)
    ensures
        value_model(v) == JsonModel::Array(models_of(items@)),
{
    serde_json::Value::from(items)
}

/// `Map::from_iter` on pairs of key and value, wrapped in `Value::Object`.
/// The map inserts the pairs in turn; with keys that all differ and a map
/// that preserves insertion order, the members are the pairs as given.
#[verifier::external_body]
pub(crate) fn object_value(keys: Vec<String>, values: Vec<serde_json::Value>) -> (v:
    serde_json::Value)
    requires
        keys@.len() == values@.len(),
        distinct_keys(keys@),
    ensures
        value_model(v) == JsonModel::Object(members_of(keys@, values@)),
{
    serde_json::Value::Object(keys.into_iter().zip(values).collect())
}

} // verus!
