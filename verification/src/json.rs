//! JSON values, as `serde_json` holds them, and what they stand for.
//!
//! The functions of this module that are marked `external_body` call `serde_json`; what they
//! ensure is taken from its source and not proved here. Everything else in the crate that
//! reads or builds a JSON value does so through them.

use crate::text::{decimal, integer};
use serde_json::Value;
use vstd::prelude::*;

verus! {

/// What a JSON value stands for.
pub enum Json {
    Null,
    Bool(bool),
    /// A whole number that is not negative, held as one.
    Unsigned(nat),
    /// A whole number below zero, held as one.
    Negative(int),
    /// Any other number, by the text that it is written as.
    Float(Seq<char>),
    Text(Seq<char>),
    Array(Seq<Json>),
    Object(Map<Seq<char>, Json>),
}

/// A JSON value of `serde_json`.
#[verifier::external_type_specification]
#[verifier::external_body]
pub struct ExValue(serde_json::Value);

/// What a value of `serde_json` holds.
pub uninterp spec fn json_of(value: serde_json::Value) -> Json;

/// What `serde_json::from_str` makes of a text: the value that it writes, or the message that
/// says why it writes none.
pub uninterp spec fn json_parsed(text: Seq<char>) -> Result<Json, Seq<char>>;

/// The text, on one line, that `serde_json` writes for a string, an array or an object. An
/// object is written with its members sorted by name, so that the text goes by the members
/// alone.
pub uninterp spec fn json_text(json: Json) -> Seq<char>;

/// The text, over several lines, that `serde_json` writes for a value.
pub uninterp spec fn json_pretty(json: Json) -> Seq<char>;

/// The text of a null, of a truth value and of a number.
pub open spec fn scalar_text(json: Json) -> Option<Seq<char>> {
    match json {
        Json::Null => Some("null"@),
        Json::Bool(b) => Some(if b { "true"@ } else { "false"@ }),
        Json::Unsigned(n) => Some(decimal(n)),
        Json::Negative(n) => Some(integer(n)),
        Json::Float(text) => Some(text),
        _ => None,
    }
}

/// The text, on one line, that a value is written as.
pub open spec fn display(json: Json) -> Seq<char> {
    match scalar_text(json) {
        Some(text) => text,
        None => json_text(json),
    }
}

/// The number `n`, as a JSON value holds it.
pub open spec fn number(n: int) -> Json {
    if n < 0 {
        Json::Negative(n)
    } else {
        Json::Unsigned(n as nat)
    }
}

/// The member `key` of an object. What is no object has no members.
pub open spec fn member(json: Json, key: Seq<char>) -> Option<Json> {
    match json {
        Json::Object(members) => if members.contains_key(key) {
            Some(members[key])
        } else {
            None
        },
        _ => None,
    }
}

/// The member `key` of an object, where it is a text.
pub open spec fn text_member(json: Json, key: Seq<char>) -> Option<Seq<char>> {
    match member(json, key) {
        Some(Json::Text(text)) => Some(text),
        _ => None,
    }
}

/// The member `key` of an object, where it is a whole number that is not negative.
pub open spec fn unsigned_member(json: Json, key: Seq<char>) -> Option<nat> {
    match member(json, key) {
        Some(Json::Unsigned(n)) => Some(n),
        _ => None,
    }
}

/// The object without members.
pub open spec fn empty_object() -> Json {
    Json::Object(Map::empty())
}

impl Json {
    /// The object with the member `name`, in place of one of that name where it has one.
    pub open spec fn with(self, name: Seq<char>, value: Json) -> Json {
        match self {
            Json::Object(members) => Json::Object(members.insert(name, value)),
            _ => self,
        }
    }
}

/// What the values of a sequence hold.
pub open spec fn jsons_of(values: Seq<Value>) -> Seq<Json> {
    values.map_values(|value: Value| json_of(value))
}

/// The text, or null where there is none.
pub open spec fn text_or_null(text: Option<Seq<char>>) -> Json {
    match text {
        Some(text) => Json::Text(text),
        None => Json::Null,
    }
}

/// The texts, as an array.
pub open spec fn text_array(texts: Seq<Seq<char>>) -> Json {
    Json::Array(texts.map_values(|text: Seq<char>| Json::Text(text)))
}

// ---------------------------------------------------------------------------
// Calls of serde_json
// ---------------------------------------------------------------------------

/// `serde_json::from_str` reads a text as a JSON value. Which texts are JSON, which value each
/// of them writes and what is said of the others go by the name [`json_parsed`].
#[verifier::external_body]
pub(crate) fn parse_value(text: &str) -> (value: Result<Value, String>)
    ensures
        json_parsed(text@) == (match value {
            Ok(value) => Ok::<Json, Seq<char>>(json_of(value)),
            Err(message) => Err::<Json, Seq<char>>(message@),
        }),
{
    serde_json::from_str::<Value>(text).map_err(|error| error.to_string())
}

/// `Value::get` with a string gives the member of that name of an object, and nothing of any
/// other value.
#[verifier::external_body]
pub(crate) fn get<'a>(value: &'a Value, key: &str) -> (found: Option<&'a Value>)
    ensures
        member(json_of(*value), key@) == (match found {
            Some(found) => Some(json_of(*found)),
            None => None,
        }),
{
    value.get(key)
}

/// `Value::as_str` gives the text of a string, and nothing of any other value.
#[verifier::external_body]
pub(crate) fn as_str<'a>(value: &'a Value) -> (text: Option<&'a str>)
    ensures
        text matches Some(text) ==> json_of(*value) == Json::Text(text@),
        text is None ==> !(json_of(*value) is Text),
{
    value.as_str()
}

/// `Value::as_u64` gives the number that is held as a whole number and is not negative, and
/// nothing of any other value.
#[verifier::external_body]
pub(crate) fn as_u64(value: &Value) -> (n: Option<u64>)
    ensures
        n matches Some(n) ==> json_of(*value) == Json::Unsigned(n as nat),
        n is None ==> !(json_of(*value) is Unsigned),
{
    value.as_u64()
}

/// `Value::is_null` tells null from the other values.
#[verifier::external_body]
pub(crate) fn is_null(value: &Value) -> (null: bool)
    ensures
        null == (json_of(*value) is Null),
{
    value.is_null()
}

/// The `Display` of a value is its JSON on one line: of null, of a truth value and of a number
/// as [`scalar_text`] spells out, of the others as [`json_text`] names it.
#[verifier::external_body]
pub(crate) fn display_text(value: &Value) -> (text: String)
    ensures
        text@ == (match scalar_text(json_of(*value)) {
            Some(text) => text,
            None => json_text(json_of(*value)),
        }),
{
    value.to_string()
}

/// `serde_json::to_string` writes what `Display` writes: its compact formatter puts no line
/// break between tokens, and a line break in a string is escaped. A value has no key that is
/// not a string and a vector takes whatever is written to it, so that it does not fail.
#[verifier::external_body]
pub(crate) fn compact_text(value: &Value) -> (text: Option<String>)
    ensures
        text is Some,
        text->0@ == display(json_of(*value)),
        !text->0@.contains('\n'),
{
    serde_json::to_string(value).ok()
}

/// `serde_json::to_string_pretty` writes a value over several lines, as [`json_pretty`] names
/// it. It does not fail, as `serde_json::to_string` does not.
#[verifier::external_body]
pub(crate) fn pretty_text(value: &Value) -> (text: Option<String>)
    ensures
        text is Some,
        text->0@ == json_pretty(json_of(*value)),
{
    serde_json::to_string_pretty(value).ok()
}

/// The clone of a value holds what the value holds.
pub assume_specification [<Value as Clone>::clone] (value: &Value) -> (clone: Value)
    ensures
        json_of(clone) == json_of(*value),
;

/// `Value::Null` is null.
#[verifier::external_body]
pub(crate) fn null() -> (value: Value)
    ensures
        json_of(value) == Json::Null,
{
    Value::Null
}

/// `Value::Bool` holds a truth value.
#[verifier::external_body]
pub(crate) fn truth(b: bool) -> (value: Value)
    ensures
        json_of(value) == Json::Bool(b),
{
    Value::Bool(b)
}

/// `Value::from` of a whole number holds that number, as unsigned unless it is negative.
#[verifier::external_body]
pub(crate) fn whole(n: i64) -> (value: Value)
    ensures
        json_of(value) == number(n as int),
{
    Value::from(n)
}

/// `Value::String` holds a text.
#[verifier::external_body]
pub(crate) fn string_value(text: String) -> (value: Value)
    ensures
        json_of(value) == Json::Text(text@),
{
    Value::String(text)
}

/// `Value::Array` holds values in their order.
#[verifier::external_body]
pub(crate) fn array(values: Vec<Value>) -> (value: Value)
    ensures
        json_of(value) == Json::Array(jsons_of(values@)),
{
    Value::Array(values)
}

/// `serde_json::Map::new` makes an object without members.
#[verifier::external_body]
pub(crate) fn empty_value() -> (value: Value)
    ensures
        json_of(value) == empty_object(),
{
    Value::Object(serde_json::Map::new())
}

/// Assigning to an object indexed by a name, through its `IndexMut`, inserts the member or
/// replaces the one of that name. Null it would make an object, and on any other value that is
/// no object it would panic.
#[verifier::external_body]
pub(crate) fn with_member(object: Value, name: &str, value: Value) -> (result: Value)
    requires
        json_of(object) is Object,
    ensures
        json_of(result) == json_of(object).with(name@, json_of(value)),
{
    let mut result = object;
    result[name] = value;
    result
}

// ---------------------------------------------------------------------------
// Reading and building values
// ---------------------------------------------------------------------------

/// The text of a string literal, as a value.
pub(crate) fn str_value(s: &str) -> (value: Value)
    ensures
        json_of(value) == Json::Text(s@),
{
    string_value(s.to_string())
}

/// The text, or null where there is none.
pub(crate) fn option_value(s: &Option<String>) -> (value: Value)
    ensures
        json_of(value) == text_or_null(s.deep_view()),
{
    match s {
        Some(s) => string_value(s.clone()),
        None => null(),
    }
}

/// The texts, as an array.
pub(crate) fn texts_value(texts: &Vec<String>) -> (value: Value)
    ensures
        json_of(value) == text_array(texts.deep_view()),
{
    let mut values: Vec<Value> = Vec::new();
    let mut i: usize = 0;
    while i < texts.len()
        invariant
            i <= texts@.len(),
            values@.len() == i,
            forall|j: int| 0 <= j < i ==> json_of(#[trigger] values@[j]) == Json::Text(texts@[j]@),
        decreases texts@.len() - i,
    {
        values.push(string_value(texts[i].clone()));
        i += 1;
    }
    assert(jsons_of(values@) =~= texts.deep_view().map_values(
        |text: Seq<char>| Json::Text(text),
    ));
    array(values)
}

/// The member `key` of `value`, where it is a text.
pub(crate) fn get_text<'a>(value: &'a Value, key: &str) -> (found: Option<&'a str>)
    ensures
        text_member(json_of(*value), key@) == (match found {
            Some(found) => Some(found@),
            None => None,
        }),
{
    match get(value, key) {
        Some(found) => as_str(found),
        None => None,
    }
}

/// The member `key` of `value`, where it is a whole number that is not negative.
pub(crate) fn get_unsigned(value: &Value, key: &str) -> (found: Option<u64>)
    ensures
        unsigned_member(json_of(*value), key@) == (match found {
            Some(found) => Some(found as nat),
            None => None,
        }),
{
    match get(value, key) {
        Some(found) => as_u64(found),
        None => None,
    }
}

// ---------------------------------------------------------------------------
// Laws
// ---------------------------------------------------------------------------

/// An object has the member that it was given last under a name, and the members that it was
/// given under other names.
pub proof fn law_member_is_kept(object: Json, name: Seq<char>, value: Json, other: Seq<char>)
    requires
        object is Object,
        other != name,
    ensures
        object.with(name, value) is Object,
        member(object.with(name, value), name) == Some(value),
        member(object.with(name, value), other) == member(object, other),
        member(empty_object(), name) is None,
        value matches Json::Text(text) ==> text_member(object.with(name, value), name) == Some(text),
        value matches Json::Unsigned(n) ==> unsigned_member(object.with(name, value), name)
            == Some(n),
{
}

/// Texts are held one by one, in their order.
pub proof fn law_texts_are_held_in_order(texts: Seq<Seq<char>>, text: Seq<char>, i: int)
    requires
        0 <= i < texts.len(),
    ensures
        text_array(texts) matches Json::Array(values) && values.len() == texts.len() && values[i]
            == Json::Text(texts[i]),
        text_or_null(Some(text)) == Json::Text(text),
        text_or_null(None) == Json::Null,
{
}

/// A number, a truth value and null are written as they are read.
pub proof fn law_scalars_are_written(n: nat)
    ensures
        display(number(n as int)) == decimal(n),
        n > 0 ==> display(number(-n)) == seq!['-'] + decimal(n),
        display(Json::Bool(true)) == "true"@,
        display(Json::Bool(false)) == "false"@,
        display(Json::Null) == "null"@,
{
}

} // verus!
