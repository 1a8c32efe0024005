//! The JSON documents that tell of process sessions.

use crate::host::documents::{moment_or_null, put_optional_moment};
use crate::host::json::{
    empty_object, fields_of, no_fields, put_bool, put_count, put_integer, put_null, put_object,
    put_text, Fields, JsonModel, JsonObject,
};
use crate::host::time::{optional_moment, rfc3339_text, Timestamp};
use crate::process_sessions::output::{
    OutputDeltaModel, OutputSnapshotModel, ProcessOutputDelta, ProcessOutputSnapshot,
};
use crate::process_sessions::session::{
    ExitModel, PollModel, ProcessExitState, ProcessPollSnapshot, ProcessSessionSnapshot,
    SessionSnapshotModel,
};
use vstd::prelude::*;

verus! {

/// What is told of the end of a process.
pub open spec fn exit_state_fields(state: ExitModel) -> Fields {
    match state {
        ExitModel::Running => no_fields().insert("state"@, JsonModel::Text("running"@)),
        ExitModel::Exited { success, code } => no_fields().insert(
            "state"@,
            JsonModel::Text("exited"@),
        ).insert("success"@, JsonModel::Bool(success)).insert(
            "code"@,
            match code {
                Some(code) => JsonModel::Integer(code as int),
                None => JsonModel::Null,
            },
        ),
        ExitModel::Failed { reason } => no_fields().insert(
            "state"@,
            JsonModel::Text("failed"@),
        ).insert("reason"@, JsonModel::Text(reason)),
    }
}

/// What is told of the end of a process.
pub fn exit_state_json(state: &ProcessExitState) -> (r: JsonObject)
    ensures
        fields_of(r) == exit_state_fields(state@),
{
    let mut object = empty_object();
    match state {
        ProcessExitState::Running => put_text(&mut object, "state", "running"),
        ProcessExitState::Exited { success, code } => {
            put_text(&mut object, "state", "exited");
            put_bool(&mut object, "success", *success);
            match code {
                Some(code) => put_integer(&mut object, "code", *code),
                None => put_null(&mut object, "code"),
            }
        },
        ProcessExitState::Failed { reason } => {
            put_text(&mut object, "state", "failed");
            put_text(&mut object, "reason", reason.as_str());
        },
    }
    object
}

/// What is told of the output that is kept.
pub open spec fn output_fields(output: OutputSnapshotModel) -> Fields {
    no_fields().insert("content"@, JsonModel::Text(output.content)).insert(
        "truncated"@,
        JsonModel::Bool(output.truncated),
    ).insert("total_bytes"@, JsonModel::Integer(output.total_bytes))
}

fn output_json(output: &ProcessOutputSnapshot) -> (r: JsonObject)
    ensures
        fields_of(r) == output_fields(output@),
{
    let mut object = empty_object();
    put_text(&mut object, "content", output.content.as_str());
    put_bool(&mut object, "truncated", output.truncated);
    put_count(&mut object, "total_bytes", output.total_bytes as u64);
    object
}

/// What is told of the output since a cursor.
pub open spec fn delta_fields(output: OutputDeltaModel) -> Fields {
    no_fields().insert("content"@, JsonModel::Text(output.content)).insert(
        "next_offset"@,
        JsonModel::Integer(output.next_offset),
    ).insert("total_bytes"@, JsonModel::Integer(output.total_bytes)).insert(
        "missed_output"@,
        JsonModel::Bool(output.missed_output),
    ).insert("truncated"@, JsonModel::Bool(output.truncated))
}

fn delta_json(output: &ProcessOutputDelta) -> (r: JsonObject)
    ensures
        fields_of(r) == delta_fields(output@),
{
    let mut object = empty_object();
    put_text(&mut object, "content", output.content.as_str());
    put_count(&mut object, "next_offset", output.next_offset as u64);
    put_count(&mut object, "total_bytes", output.total_bytes as u64);
    put_bool(&mut object, "missed_output", output.missed_output);
    put_bool(&mut object, "truncated", output.truncated);
    object
}

/// What every document on a session tells of it.
pub open spec fn common_fields(snapshot: SessionSnapshotModel) -> Fields {
    no_fields().insert("session_id"@, JsonModel::Text(snapshot.session_id)).insert(
        "owner_key"@,
        JsonModel::Text(snapshot.owner_key),
    ).insert("command_summary"@, JsonModel::Text(snapshot.command_summary)).insert(
        "started_at"@,
        JsonModel::Text(rfc3339_text(snapshot.started_at)),
    ).insert(
        "last_activity_at"@,
        JsonModel::Text(rfc3339_text(snapshot.last_activity_at)),
    ).insert("completed_at"@, moment_or_null(snapshot.completed_at)).insert(
        "exit_state"@,
        JsonModel::Object(exit_state_fields(snapshot.exit_state)),
    ).insert("has_stdin"@, JsonModel::Bool(snapshot.has_stdin))
}

fn common_json(snapshot: &ProcessSessionSnapshot) -> (r: JsonObject)
    ensures
        fields_of(r) == common_fields(snapshot@),
{
    let mut object = empty_object();
    put_text(&mut object, "session_id", snapshot.session_id.as_str());
    put_text(&mut object, "owner_key", snapshot.owner_key.as_str());
    put_text(&mut object, "command_summary", snapshot.command_summary.as_str());
    put_text(&mut object, "started_at", snapshot.started_at.to_text().as_str());
    put_text(&mut object, "last_activity_at", snapshot.last_activity_at.to_text().as_str());
    put_optional_moment(&mut object, "completed_at", snapshot.completed_at);
    put_object(&mut object, "exit_state", exit_state_json(&snapshot.exit_state));
    put_bool(&mut object, "has_stdin", snapshot.has_stdin);
    object
}

/// All that is told of a session, with its output.
pub open spec fn snapshot_fields(snapshot: SessionSnapshotModel) -> Fields {
    common_fields(snapshot).insert("stdout"@, JsonModel::Object(output_fields(snapshot.stdout))).insert(
        "stderr"@,
        JsonModel::Object(output_fields(snapshot.stderr)),
    )
}

/// All that is told of a session, with its output.
pub fn snapshot_json(snapshot: &ProcessSessionSnapshot) -> (r: JsonObject)
    ensures
        fields_of(r) == snapshot_fields(snapshot@),
{
    let mut object = common_json(snapshot);
    put_object(&mut object, "stdout", output_json(&snapshot.stdout));
    put_object(&mut object, "stderr", output_json(&snapshot.stderr));
    object
}

/// What is told of a session, with the sizes of its output.
pub open spec fn status_fields(snapshot: SessionSnapshotModel) -> Fields {
    common_fields(snapshot).insert(
        "stdout_total_bytes"@,
        JsonModel::Integer(snapshot.stdout.total_bytes),
    ).insert("stderr_total_bytes"@, JsonModel::Integer(snapshot.stderr.total_bytes))
}

/// What is told of a session, with the sizes of its output.
pub fn status_json(snapshot: &ProcessSessionSnapshot) -> (r: JsonObject)
    ensures
        fields_of(r) == status_fields(snapshot@),
{
    let mut object = common_json(snapshot);
    put_count(&mut object, "stdout_total_bytes", snapshot.stdout.total_bytes as u64);
    put_count(&mut object, "stderr_total_bytes", snapshot.stderr.total_bytes as u64);
    object
}

/// What a reader with two cursors is told.
pub open spec fn poll_fields(poll: PollModel) -> Fields {
    no_fields().insert("session_id"@, JsonModel::Text(poll.session_id)).insert(
        "exit_state"@,
        JsonModel::Object(exit_state_fields(poll.exit_state)),
    ).insert("stdout"@, JsonModel::Object(delta_fields(poll.stdout))).insert(
        "stderr"@,
        JsonModel::Object(delta_fields(poll.stderr)),
    )
}

/// What a reader with two cursors is told.
pub fn poll_json(poll: &ProcessPollSnapshot) -> (r: JsonObject)
    ensures
        fields_of(r) == poll_fields(poll@),
{
    let mut object = empty_object();
    put_text(&mut object, "session_id", poll.session_id.as_str());
    put_object(&mut object, "exit_state", exit_state_json(&poll.exit_state));
    put_object(&mut object, "stdout", delta_json(&poll.stdout));
    put_object(&mut object, "stderr", delta_json(&poll.stderr));
    object
}

/// What is told after a write.
pub open spec fn write_fields(snapshot: SessionSnapshotModel) -> Fields {
    no_fields().insert("action"@, JsonModel::Text("write"@)).insert(
        "session_id"@,
        JsonModel::Text(snapshot.session_id),
    ).insert("has_stdin"@, JsonModel::Bool(snapshot.has_stdin)).insert(
        "stdout_total_bytes"@,
        JsonModel::Integer(snapshot.stdout.total_bytes),
    ).insert("stderr_total_bytes"@, JsonModel::Integer(snapshot.stderr.total_bytes))
}

/// What is told after a write.
pub fn write_json(snapshot: &ProcessSessionSnapshot) -> (r: JsonObject)
    ensures
        fields_of(r) == write_fields(snapshot@),
{
    let mut object = empty_object();
    put_text(&mut object, "action", "write");
    put_text(&mut object, "session_id", snapshot.session_id.as_str());
    put_bool(&mut object, "has_stdin", snapshot.has_stdin);
    put_count(&mut object, "stdout_total_bytes", snapshot.stdout.total_bytes as u64);
    put_count(&mut object, "stderr_total_bytes", snapshot.stderr.total_bytes as u64);
    object
}

/// What is told after a process was killed.
pub open spec fn kill_fields(session_id: Seq<char>, state: ExitModel, completed_at: Option<int>) -> Fields {
    no_fields().insert("action"@, JsonModel::Text("kill"@)).insert(
        "session_id"@,
        JsonModel::Text(session_id),
    ).insert("exit_state"@, JsonModel::Object(exit_state_fields(state))).insert(
        "completed_at"@,
        moment_or_null(completed_at),
    )
}

/// What is told after a process was killed.
pub fn kill_json(
    session_id: &str,
    state: &ProcessExitState,
    completed_at: Option<Timestamp>,
) -> (r: JsonObject)
    ensures
        fields_of(r) == kill_fields(session_id@, state@, optional_moment(completed_at)),
{
    let mut object = empty_object();
    put_text(&mut object, "action", "kill");
    put_text(&mut object, "session_id", session_id);
    put_object(&mut object, "exit_state", exit_state_json(state));
    put_optional_moment(&mut object, "completed_at", completed_at);
    object
}

} // verus!
