//! Descriptions of the arguments that tools take, in the manner of JSON Schema.

use crate::host::json::{
    empty_object, fields_of, no_fields, put_bool, put_count, put_object, put_text, put_texts,
    text_list, Fields, JsonModel, JsonObject,
};
use crate::text::lines::texts;
use vstd::prelude::*;

verus! {

/// An argument of some type, and what it is for.
pub open spec fn property(kind: Seq<char>, description: Seq<char>) -> Fields {
    no_fields().insert("type"@, JsonModel::Text(kind)).insert(
        "description"@,
        JsonModel::Text(description),
    )
}

/// A string that is one of a few.
pub open spec fn choice(options: Seq<Seq<char>>, description: Seq<char>) -> Fields {
    property("string"@, description).insert("enum"@, text_list(options))
}

/// A flag that is off unless it is set.
pub open spec fn flag(description: Seq<char>) -> Fields {
    property("boolean"@, description).insert("default"@, JsonModel::Bool(false))
}

/// A number that is no smaller than `minimum`.
pub open spec fn number_from(minimum: u64, description: Seq<char>) -> Fields {
    property("integer"@, description).insert("minimum"@, JsonModel::Integer(minimum as int))
}

/// An argument by its name, beside others.
pub open spec fn with_property(properties: Fields, name: Seq<char>, property: Fields) -> Fields {
    properties.insert(name, JsonModel::Object(property))
}

/// The arguments of a tool, of which one is required.
pub open spec fn open_schema(properties: Fields, required: Seq<char>) -> Fields {
    no_fields().insert("type"@, JsonModel::Text("object"@)).insert(
        "properties"@,
        JsonModel::Object(properties),
    ).insert("required"@, text_list(seq![required]))
}

/// The arguments of a tool that takes no others, of which one is required.
pub open spec fn closed_schema(properties: Fields, required: Seq<char>) -> Fields {
    open_schema(properties, required).insert("additionalProperties"@, JsonModel::Bool(false))
}

fn property_json(kind: &str, description: &str) -> (r: JsonObject)
    ensures
        fields_of(r) == property(kind@, description@),
{
    let mut object = empty_object();
    put_text(&mut object, "type", kind);
    put_text(&mut object, "description", description);
    object
}

/// Adds a string.
pub fn add_text(properties: &mut JsonObject, name: &str, description: &str)
    ensures
        fields_of(*final(properties)) == with_property(
            fields_of(*old(properties)),
            name@,
            property("string"@, description@),
        ),
{
    put_object(properties, name, property_json("string", description));
}

/// Adds a string that is one of a few.
pub fn add_choice(properties: &mut JsonObject, name: &str, options: &[String], description: &str)
    ensures
        fields_of(*final(properties)) == with_property(
            fields_of(*old(properties)),
            name@,
            choice(texts(options@), description@),
        ),
{
    let mut object = property_json("string", description);
    put_texts(&mut object, "enum", options);
    put_object(properties, name, object);
}

/// Adds a flag that is off unless it is set.
pub fn add_flag(properties: &mut JsonObject, name: &str, description: &str)
    ensures
        fields_of(*final(properties)) == with_property(
            fields_of(*old(properties)),
            name@,
            flag(description@),
        ),
{
    let mut object = property_json("boolean", description);
    put_bool(&mut object, "default", false);
    put_object(properties, name, object);
}

/// Adds a number that is no smaller than `minimum`.
pub fn add_number(properties: &mut JsonObject, name: &str, minimum: u64, description: &str)
    ensures
        fields_of(*final(properties)) == with_property(
            fields_of(*old(properties)),
            name@,
            number_from(minimum, description@),
        ),
{
    let mut object = property_json("integer", description);
    put_count(&mut object, "minimum", minimum);
    put_object(properties, name, object);
}

/// The arguments of a tool, of which one is required.
pub fn open_schema_json(properties: JsonObject, required: &str) -> (r: JsonObject)
    ensures
        fields_of(r) == open_schema(fields_of(properties), required@),
{
    let mut list: Vec<String> = Vec::new();
    list.push(required.to_string());
    assert(texts(list@) == seq![required@]);
    let mut object = empty_object();
    put_text(&mut object, "type", "object");
    put_object(&mut object, "properties", properties);
    put_texts(&mut object, "required", list.as_slice());
    object
}

/// The arguments of a tool that takes no others, of which one is required.
pub fn closed_schema_json(properties: JsonObject, required: &str) -> (r: JsonObject)
    ensures
        fields_of(r) == closed_schema(fields_of(properties), required@),
{
    let mut object = open_schema_json(properties, required);
    put_bool(&mut object, "additionalProperties", false);
    object
}

} // verus!
