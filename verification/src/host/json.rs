//! JSON objects: the arguments of a tool and the document it answers with.

use crate::text::chars::{chars_of, string_of, trim, trimmed};
use crate::text::lines::texts;
use vstd::prelude::*;

verus! {

/// A value of [`serde_json`].
#[verifier::external_type_specification]
#[verifier::external_body]
pub struct ExJsonValue(serde_json::Value);

/// A map of [`serde_json`].
#[verifier::external_type_specification]
#[verifier::external_body]
#[verifier::reject_recursive_types(K)]
#[verifier::reject_recursive_types(V)]
pub struct ExJsonMap<K, V>(serde_json::Map<K, V>);

/// A JSON object: fields by name.
pub type JsonObject = serde_json::Map<String, serde_json::Value>;

/// What a JSON value says.
pub enum JsonModel {
    Null,
    Bool(bool),
    Integer(int),
    /// A number that is no integer, by its bits.
    Float(u64),
    Text(Seq<char>),
    List(Seq<JsonModel>),
    Object(Map<Seq<char>, JsonModel>),
}

/// The fields of a JSON object.
pub type Fields = Map<Seq<char>, JsonModel>;

/// The fields that a [`serde_json::Map`] holds.
pub uninterp spec fn fields_of(object: serde_json::Map<String, serde_json::Value>) -> Map<Seq<char>, JsonModel>;

/// What [`serde_json::to_string_pretty`] makes of an object with these fields;
/// it writes them in the order of their names.
pub uninterp spec fn pretty_json(fields: Map<Seq<char>, JsonModel>) -> Seq<char>;

/// No field.
pub open spec fn no_fields() -> Fields {
    Map::empty()
}

/// A list of strings.
pub open spec fn text_list(list: Seq<Seq<char>>) -> JsonModel {
    JsonModel::List(Seq::new(list.len(), |i: int| JsonModel::Text(list[i])))
}

/// A string or nothing.
pub open spec fn text_or_null(text: Option<Seq<char>>) -> JsonModel {
    match text {
        Some(text) => JsonModel::Text(text),
        None => JsonModel::Null,
    }
}

/// [`serde_json::Map::new`]: an object without fields.
#[verifier::external_body]
pub(crate) fn empty_object() -> (r: JsonObject)
    ensures
        fields_of(r) == no_fields(),
{
    serde_json::Map::new()
}

/// [`serde_json::Map::insert`] of nothing: the field is there afterwards, and
/// takes the place of one with the same name.
#[verifier::external_body]
pub(crate) fn put_null(object: &mut JsonObject, key: &str)
    ensures
        fields_of(*final(object)) == fields_of(*old(object)).insert(key@, JsonModel::Null),
{
    object.insert(key.to_string(), serde_json::Value::from(()));
}

/// [`serde_json::Map::insert`] of a boolean: the field is there afterwards, and
/// takes the place of one with the same name.
#[verifier::external_body]
pub(crate) fn put_bool(object: &mut JsonObject, key: &str, value: bool)
    ensures
        fields_of(*final(object)) == fields_of(*old(object)).insert(key@, JsonModel::Bool(value)),
{
    object.insert(key.to_string(), serde_json::Value::from(value));
}

/// [`serde_json::Map::insert`] of a count: the field is there afterwards, and
/// takes the place of one with the same name.
#[verifier::external_body]
pub(crate) fn put_count(object: &mut JsonObject, key: &str, value: u64)
    ensures
        fields_of(*final(object)) == fields_of(*old(object)).insert(
            key@,
            JsonModel::Integer(value as int),
        ),
{
    object.insert(key.to_string(), serde_json::Value::from(value));
}

/// [`serde_json::Map::insert`] of an integer: the field is there afterwards,
/// and takes the place of one with the same name.
#[verifier::external_body]
pub(crate) fn put_integer(object: &mut JsonObject, key: &str, value: i32)
    ensures
        fields_of(*final(object)) == fields_of(*old(object)).insert(
            key@,
            JsonModel::Integer(value as int),
        ),
{
    object.insert(key.to_string(), serde_json::Value::from(value));
}

/// [`serde_json::Map::insert`] of a string: the field is there afterwards, and
/// takes the place of one with the same name.
#[verifier::external_body]
pub(crate) fn put_text(object: &mut JsonObject, key: &str, text: &str)
    ensures
        fields_of(*final(object)) == fields_of(*old(object)).insert(key@, JsonModel::Text(text@)),
{
    object.insert(key.to_string(), serde_json::Value::from(text));
}

/// [`serde_json::Map::insert`] of a list of strings: the field is there
/// afterwards, and takes the place of one with the same name.
#[verifier::external_body]
pub(crate) fn put_texts(object: &mut JsonObject, key: &str, list: &[String])
    ensures
        fields_of(*final(object)) == fields_of(*old(object)).insert(key@, text_list(texts(list@))),
{
    object.insert(key.to_string(), serde_json::Value::from(list.to_vec()));
}

/// [`serde_json::Map::insert`] of an object: the field is there afterwards, and
/// takes the place of one with the same name.
#[verifier::external_body]
pub(crate) fn put_object(object: &mut JsonObject, key: &str, value: JsonObject)
    ensures
        fields_of(*final(object)) == fields_of(*old(object)).insert(
            key@,
            JsonModel::Object(fields_of(value)),
        ),
{
    object.insert(key.to_string(), serde_json::Value::from(value));
}

/// Adds a field that holds a string or nothing.
pub(crate) fn put_optional_text(object: &mut JsonObject, key: &str, text: &Option<String>)
    ensures
        fields_of(*final(object)) == fields_of(*old(object)).insert(
            key@,
            text_or_null(match text {
                Some(text) => Some(text@),
                None => None,
            }),
        ),
{
    match text {
        Some(text) => put_text(object, key, text.as_str()),
        None => put_null(object, key),
    }
}

/// [`serde_json::to_string_pretty`]: the text of an object. It fails for maps
/// with other keys than strings and for values that refuse to be written, and
/// an object has neither. Nothing more is claimed of the text than that the
/// fields decide it.
#[verifier::external_body]
pub(crate) fn pretty_text(object: &JsonObject) -> (r: Result<String, String>)
    ensures
        is_text(r, pretty_json(fields_of(*object))),
{
    serde_json::to_string_pretty(object).map_err(|error| error.to_string())
}

/// Whether a text was made, and reads so.
pub open spec fn is_text(r: Result<String, String>, text: Seq<char>) -> bool {
    r matches Ok(made) && made@ == text
}

/// What such a result says.
pub open spec fn text_outcome(r: Result<String, String>) -> Result<Seq<char>, Seq<char>> {
    match r {
        Ok(text) => Ok(text@),
        Err(reason) => Err(reason@),
    }
}

/// A field of an object, as far as the arguments of a tool go.
#[derive(Debug, Clone, PartialEq, Eq)]
pub enum Argument {
    Missing,
    Text(String),
    Flag(bool),
    Count(u64),
    /// Anything else.
    Other,
}

/// What an argument says.
#[verifier::ext_equal]
pub enum ArgumentModel {
    Missing,
    Text(Seq<char>),
    Flag(bool),
    Count(u64),
    Other,
}

impl View for Argument {
    type V = ArgumentModel;

    open spec fn view(&self) -> ArgumentModel {
        match self {
            Argument::Missing => ArgumentModel::Missing,
            Argument::Text(text) => ArgumentModel::Text(text@),
            Argument::Flag(flag) => ArgumentModel::Flag(*flag),
            Argument::Count(count) => ArgumentModel::Count(*count),
            Argument::Other => ArgumentModel::Other,
        }
    }
}

/// The argument that a field is.
pub open spec fn argument_in(fields: Fields, key: Seq<char>) -> ArgumentModel {
    if fields.contains_key(key) {
        match fields[key] {
            JsonModel::Text(text) => ArgumentModel::Text(text),
            JsonModel::Bool(flag) => ArgumentModel::Flag(flag),
            JsonModel::Integer(value) => if 0 <= value <= u64::MAX {
                ArgumentModel::Count(value as u64)
            } else {
                ArgumentModel::Other
            },
            _ => ArgumentModel::Other,
        }
    } else {
        ArgumentModel::Missing
    }
}

/// [`serde_json::Map::get`]: the field of that name, if there is one, told
/// apart by its variant; of a number, [`serde_json::Number::as_u64`].
#[verifier::external_body]
pub(crate) fn argument(args: &JsonObject, key: &str) -> (r: Argument)
    ensures
        r@ == argument_in(fields_of(*args), key@),
{
    match args.get(key) {
        None => Argument::Missing,
        Some(serde_json::Value::String(text)) => Argument::Text(text.clone()),
        Some(serde_json::Value::Bool(flag)) => Argument::Flag(*flag),
        Some(serde_json::Value::Number(number)) => match number.as_u64() {
            Some(count) => Argument::Count(count),
            None => Argument::Other,
        },
        Some(_) => Argument::Other,
    }
}

/// The string that a field holds.
pub open spec fn text_in(fields: Fields, key: Seq<char>) -> Option<Seq<char>> {
    match argument_in(fields, key) {
        ArgumentModel::Text(text) => Some(text),
        _ => None,
    }
}

/// The string that a field holds, without the white space around it; none if
/// nothing is left.
pub open spec fn word_in(fields: Fields, key: Seq<char>) -> Option<Seq<char>> {
    match text_in(fields, key) {
        Some(text) => if trimmed(text).len() == 0 {
            None
        } else {
            Some(trimmed(text))
        },
        None => None,
    }
}

/// Whether a field holds `true`.
pub open spec fn flag_in(fields: Fields, key: Seq<char>) -> bool {
    argument_in(fields, key) == ArgumentModel::Flag(true)
}

/// The string that the argument `key` holds.
pub fn text_argument(args: &JsonObject, key: &str) -> (r: Option<String>)
    ensures
        match r {
            Some(text) => text_in(fields_of(*args), key@) == Some(text@),
            None => text_in(fields_of(*args), key@) is None,
        },
{
    match argument(args, key) {
        Argument::Text(text) => Some(text),
        _ => None,
    }
}

/// The string that the argument `key` holds, without the white space around it;
/// none if nothing is left.
pub fn word_argument(args: &JsonObject, key: &str) -> (r: Option<String>)
    ensures
        match r {
            Some(word) => word_in(fields_of(*args), key@) == Some(word@),
            None => word_in(fields_of(*args), key@) is None,
        },
{
    match text_argument(args, key) {
        Some(text) => {
            let chars = chars_of(text.as_str());
            let word = trim(chars.as_slice());
            if word.len() == 0 {
                None
            } else {
                Some(string_of(word))
            }
        },
        None => None,
    }
}

/// Whether the argument `key` is `true`.
pub fn flag_argument(args: &JsonObject, key: &str) -> (r: bool)
    ensures
        r == flag_in(fields_of(*args), key@),
{
    match argument(args, key) {
        Argument::Flag(flag) => flag,
        _ => false,
    }
}

/// The string that an argument holds, without the white space around it.
pub open spec fn word_or_empty(fields: Fields, key: Seq<char>) -> Seq<char> {
    match word_in(fields, key) {
        Some(word) => word,
        None => seq![],
    }
}

/// The string that an argument holds.
pub open spec fn text_or_empty(fields: Fields, key: Seq<char>) -> Seq<char> {
    match text_in(fields, key) {
        Some(text) => text,
        None => seq![],
    }
}

/// The string that the argument `key` holds, without the white space around it;
/// nothing, where there is none.
pub fn word_or_empty_argument(args: &JsonObject, key: &str) -> (r: String)
    ensures
        r@ == word_or_empty(fields_of(*args), key@),
{
    match word_argument(args, key) {
        Some(word) => word,
        None => {
            let empty = String::new();
            assert(empty@ == Seq::<char>::empty());
            empty
        },
    }
}

/// The string that the argument `key` holds; nothing, where there is none.
pub fn text_or_empty_argument(args: &JsonObject, key: &str) -> (r: String)
    ensures
        r@ == text_or_empty(fields_of(*args), key@),
{
    match text_argument(args, key) {
        Some(text) => text,
        None => {
            let empty = String::new();
            assert(empty@ == Seq::<char>::empty());
            empty
        },
    }
}

} // verus!
