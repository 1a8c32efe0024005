//! Parts of the JSON documents that tools answer with.

use crate::host::json::{
    empty_object, fields_of, no_fields, put_null, put_object, put_text, Fields, JsonModel,
    JsonObject,
};
use crate::host::time::{optional_moment, rfc3339_text, Timestamp};
use vstd::prelude::*;

verus! {

/// A moment or nothing.
pub open spec fn moment_or_null(at: Option<int>) -> JsonModel {
    match at {
        Some(at) => JsonModel::Text(rfc3339_text(at)),
        None => JsonModel::Null,
    }
}

/// Adds a field that holds a moment or nothing.
pub(crate) fn put_optional_moment(object: &mut JsonObject, key: &str, at: Option<Timestamp>)
    ensures
        fields_of(*final(object)) == fields_of(*old(object)).insert(
            key@,
            moment_or_null(optional_moment(at)),
        ),
{
    match at {
        Some(at) => put_text(object, key, at.to_text().as_str()),
        None => put_null(object, key),
    }
}

/// A document on a session, under the action it answers.
pub open spec fn session_document(action: Seq<char>, session: Fields) -> Fields {
    no_fields().insert("action"@, JsonModel::Text(action)).insert(
        "session"@,
        JsonModel::Object(session),
    )
}

/// A document on a session, under the action it answers.
pub fn session_answer(action: &str, session: JsonObject) -> (r: JsonObject)
    ensures
        fields_of(r) == session_document(action@, fields_of(session)),
{
    let mut object = empty_object();
    put_text(&mut object, "action", action);
    put_object(&mut object, "session", session);
    object
}

} // verus!
