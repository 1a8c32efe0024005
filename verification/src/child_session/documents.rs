//! The JSON documents that tell of child sessions.

use crate::child_session::session::{
    ChildSessionCompletion, ChildSessionSnapshot, ChildSessionState, ChildSnapshotModel,
    CompletionModel,
};
use crate::host::documents::{moment_or_null, put_optional_moment};
use crate::host::json::{
    empty_object, fields_of, no_fields, put_bool, put_count, put_null, put_object,
    put_optional_text, put_text, put_texts, text_list, text_or_null, Fields, JsonModel, JsonObject,
};
use crate::host::time::rfc3339_text;
use vstd::prelude::*;

verus! {

/// The name of a state.
pub open spec fn state_name(state: ChildSessionState) -> Seq<char> {
    match state {
        ChildSessionState::Running => "running"@,
        ChildSessionState::Completed => "completed"@,
        ChildSessionState::Failed => "failed"@,
        ChildSessionState::TimedOut => "timed_out"@,
        ChildSessionState::Cancelled => "cancelled"@,
    }
}

/// The name of a state.
pub fn child_state_name(state: ChildSessionState) -> (r: &'static str)
    ensures
        r@ == state_name(state),
{
    match state {
        ChildSessionState::Running => "running",
        ChildSessionState::Completed => "completed",
        ChildSessionState::Failed => "failed",
        ChildSessionState::TimedOut => "timed_out",
        ChildSessionState::Cancelled => "cancelled",
    }
}

/// What is told of a completion.
pub open spec fn completion_fields(completion: CompletionModel) -> Fields {
    no_fields().insert("success"@, JsonModel::Bool(completion.success)).insert(
        "summary"@,
        JsonModel::Text(completion.summary),
    ).insert("error"@, text_or_null(completion.error)).insert(
        "artifacts"@,
        text_list(completion.artifacts),
    )
}

fn completion_json(completion: &ChildSessionCompletion) -> (r: JsonObject)
    ensures
        fields_of(r) == completion_fields(completion@),
{
    let mut object = empty_object();
    put_bool(&mut object, "success", completion.success);
    put_text(&mut object, "summary", completion.summary.as_str());
    put_optional_text(&mut object, "error", &completion.error);
    put_texts(&mut object, "artifacts", completion.artifacts.as_slice());
    object
}

/// What is told of a child session.
pub open spec fn child_fields(snapshot: ChildSnapshotModel) -> Fields {
    no_fields().insert("session_id"@, JsonModel::Text(snapshot.session_id)).insert(
        "owner_key"@,
        JsonModel::Text(snapshot.owner_key),
    ).insert("agent_name"@, JsonModel::Text(snapshot.agent_name)).insert(
        "provider"@,
        JsonModel::Text(snapshot.provider),
    ).insert("model"@, JsonModel::Text(snapshot.model)).insert(
        "allowed_tools"@,
        text_list(snapshot.allowed_tools),
    ).insert("max_depth"@, JsonModel::Integer(snapshot.max_depth as int)).insert(
        "max_iterations"@,
        JsonModel::Integer(snapshot.max_iterations as int),
    ).insert("timeout_secs"@, JsonModel::Integer(snapshot.timeout_secs as int)).insert(
        "prompt_summary"@,
        JsonModel::Text(snapshot.prompt_summary),
    ).insert("channel_name"@, text_or_null(snapshot.channel_name)).insert(
        "reply_target"@,
        text_or_null(snapshot.reply_target),
    ).insert("started_at"@, JsonModel::Text(rfc3339_text(snapshot.started_at))).insert(
        "last_update_at"@,
        JsonModel::Text(rfc3339_text(snapshot.last_update_at)),
    ).insert("completed_at"@, moment_or_null(snapshot.completed_at)).insert(
        "state"@,
        JsonModel::Text(state_name(snapshot.state)),
    ).insert(
        "completion"@,
        match snapshot.completion {
            Some(completion) => JsonModel::Object(completion_fields(completion)),
            None => JsonModel::Null,
        },
    )
}

/// What is told of a child session.
pub fn session_json(snapshot: &ChildSessionSnapshot) -> (r: JsonObject)
    ensures
        fields_of(r) == child_fields(snapshot@),
{
    let mut object = empty_object();
    put_text(&mut object, "session_id", snapshot.session_id.as_str());
    put_text(&mut object, "owner_key", snapshot.owner_key.as_str());
    put_text(&mut object, "agent_name", snapshot.agent_name.as_str());
    put_text(&mut object, "provider", snapshot.provider.as_str());
    put_text(&mut object, "model", snapshot.model.as_str());
    put_texts(&mut object, "allowed_tools", snapshot.allowed_tools.as_slice());
    put_count(&mut object, "max_depth", snapshot.max_depth as u64);
    put_count(&mut object, "max_iterations", snapshot.max_iterations as u64);
    put_count(&mut object, "timeout_secs", snapshot.timeout_secs);
    put_text(&mut object, "prompt_summary", snapshot.prompt_summary.as_str());
    put_optional_text(&mut object, "channel_name", &snapshot.channel_name);
    put_optional_text(&mut object, "reply_target", &snapshot.reply_target);
    put_text(&mut object, "started_at", snapshot.started_at.to_text().as_str());
    put_text(&mut object, "last_update_at", snapshot.last_update_at.to_text().as_str());
    put_optional_moment(&mut object, "completed_at", snapshot.completed_at);
    put_text(&mut object, "state", child_state_name(snapshot.state));
    match &snapshot.completion {
        Some(completion) => put_object(&mut object, "completion", completion_json(completion)),
        None => put_null(&mut object, "completion"),
    }
    object
}

/// The arguments that a delegate is called with.
pub open spec fn delegate_fields(agent: Seq<char>, prompt: Seq<char>, context: Seq<char>) -> Fields {
    no_fields().insert("agent"@, JsonModel::Text(agent)).insert(
        "prompt"@,
        JsonModel::Text(prompt),
    ).insert("context"@, JsonModel::Text(context))
}

/// The arguments that a delegate is called with.
pub fn delegate_json(agent: &str, prompt: &str, context: &str) -> (r: JsonObject)
    ensures
        fields_of(r) == delegate_fields(agent@, prompt@, context@),
{
    let mut object = empty_object();
    put_text(&mut object, "agent", agent);
    put_text(&mut object, "prompt", prompt);
    put_text(&mut object, "context", context);
    object
}

} // verus!
