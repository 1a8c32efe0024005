//! What the calls of the process tool do, and what they tell.

use crate::host::answers::{holds, is_error, lemma_field_names, object_in};
use crate::host::documents::session_document;
use crate::host::json::{
    argument_in, flag_in, pretty_json, text_or_empty, word_in, word_or_empty, ArgumentModel, Fields,
    JsonModel,
};
use crate::host::time::rfc3339_text;
use crate::host::tool::{ContextModel, ToolOperation, ToolResultModel};
use crate::process::documents::{
    common_fields, delta_fields, exit_state_fields, kill_fields, output_fields, poll_fields,
    snapshot_fields, status_fields, write_fields,
};
use crate::process::laws::{call_after, CallAnswer};
use crate::process::protocol::{ProcessReplyModel, ProcessRequestModel};
use crate::process::tool::{
    acting, action_named, after_cleanup, call_kills, call_next, call_request, call_started, killing,
    written, COMMAND_SUMMARY_LIMIT_CHARS, CallModel, CallStep, ProcessAction, ProcessStartModel,
    ProcessToolModel,
};
use crate::process_sessions::cleanup::{
    cleanup_kills, cleanup_next, cleanup_request, cleanup_started, CleanupModel,
    SessionRequestModel,
};
use crate::process_sessions::output::{
    appended, output_delta, output_snapshot, utf8_lossy, OutputModel,
};
use crate::process_sessions::registry::{
    has_session, lemma_session_index, lemma_stored_session, listed, lists, process_id,
    registered_session, session_named, with_written, RegistryModel,
};
use crate::process_sessions::session::{
    after_write, kill_begun, kill_next, refreshed, session_snapshot, with_stdin_closed, ExitModel,
    KillReplyModel, KillStep, PollModel, ProbeModel, ProcessCare, SessionModel, StdinWriteModel,
};
use crate::process_sessions::shutdown::{shutdown_kills, shutdown_request, ShutdownModel};
use crate::text::summary::summarized;
use vstd::prelude::*;

verus! {

/// Whether fields tell how far a process has come.
pub open spec fn tells_exit(fields: Fields, state: ExitModel) -> bool {
    match state {
        ExitModel::Running => holds(fields, "state"@, JsonModel::Text("running"@)),
        ExitModel::Exited { success, code } => {
            &&& holds(fields, "state"@, JsonModel::Text("exited"@))
            &&& holds(fields, "success"@, JsonModel::Bool(success))
            &&& match code {
                Some(code) => holds(fields, "code"@, JsonModel::Integer(code as int)),
                None => holds(fields, "code"@, JsonModel::Null),
            }
        },
        ExitModel::Failed { reason } => {
            &&& holds(fields, "state"@, JsonModel::Text("failed"@))
            &&& holds(fields, "reason"@, JsonModel::Text(reason))
        },
    }
}

/// Whether a field holds a moment, or nothing where there is none.
pub open spec fn holds_moment(fields: Fields, key: Seq<char>, at: Option<int>) -> bool {
    match at {
        Some(at) => holds(fields, key, JsonModel::Text(rfc3339_text(at))),
        None => holds(fields, key, JsonModel::Null),
    }
}

/// The first byte of a stream that is still there: no more than so many are kept.
pub open spec fn oldest(output: OutputModel) -> int {
    if output.written.len() <= output.max_bytes {
        0
    } else {
        output.written.len() - output.max_bytes
    }
}

/// Whether fields tell all that is kept of a stream.
pub open spec fn tells_output(fields: Fields, output: OutputModel) -> bool {
    let count = output.written.len();
    &&& holds(
        fields,
        "content"@,
        JsonModel::Text(utf8_lossy(output.written.subrange(oldest(output), count as int))),
    )
    &&& holds(fields, "truncated"@, JsonModel::Bool(count > output.max_bytes))
    &&& holds(fields, "total_bytes"@, JsonModel::Integer(count as int))
}

/// Whether fields tell what has come on a stream since a cursor, as far as it is
/// kept; whether something of it is kept no longer; and the cursor for the next
/// time.
pub open spec fn tells_since(fields: Fields, output: OutputModel, cursor: int) -> bool {
    let count = output.written.len() as int;
    let from = if cursor < oldest(output) {
        oldest(output)
    } else if cursor > count {
        count
    } else {
        cursor
    };
    &&& holds(
        fields,
        "content"@,
        JsonModel::Text(utf8_lossy(output.written.subrange(from, count))),
    )
    &&& holds(fields, "next_offset"@, JsonModel::Integer(count))
    &&& holds(fields, "total_bytes"@, JsonModel::Integer(count))
    &&& holds(fields, "missed_output"@, JsonModel::Bool(cursor < oldest(output)))
    &&& holds(fields, "truncated"@, JsonModel::Bool(count > output.max_bytes))
}

/// Whether fields tell of a session what every document on it tells.
pub open spec fn tells_session(fields: Fields, session: SessionModel) -> bool {
    &&& holds(fields, "session_id"@, JsonModel::Text(session.session_id))
    &&& holds(fields, "owner_key"@, JsonModel::Text(session.owner_key))
    &&& holds(fields, "command_summary"@, JsonModel::Text(session.command_summary))
    &&& holds(fields, "started_at"@, JsonModel::Text(rfc3339_text(session.started_at)))
    &&& holds(
        fields,
        "last_activity_at"@,
        JsonModel::Text(rfc3339_text(session.last_activity_at)),
    )
    &&& holds_moment(fields, "completed_at"@, session.completed_at)
    &&& object_in(fields, "exit_state"@) matches Some(state) && tells_exit(
        state,
        session.exit_state,
    )
    &&& holds(fields, "has_stdin"@, JsonModel::Bool(session.has_stdin))
}

/// Whether fields tell of a session with all the output that is kept.
pub open spec fn tells_log(fields: Fields, session: SessionModel) -> bool {
    &&& tells_session(fields, session)
    &&& object_in(fields, "stdout"@) matches Some(output) && tells_output(output, session.stdout)
    &&& object_in(fields, "stderr"@) matches Some(output) && tells_output(output, session.stderr)
}

/// Whether fields tell how much a session has written.
pub open spec fn tells_sizes(fields: Fields, session: SessionModel) -> bool {
    &&& holds(
        fields,
        "stdout_total_bytes"@,
        JsonModel::Integer(session.stdout.written.len() as int),
    )
    &&& holds(
        fields,
        "stderr_total_bytes"@,
        JsonModel::Integer(session.stderr.written.len() as int),
    )
}

/// Whether fields tell what has come on either stream since its own cursor.
pub open spec fn tells_poll(
    fields: Fields,
    session: SessionModel,
    state: ExitModel,
    stdout_cursor: int,
    stderr_cursor: int,
) -> bool {
    &&& holds(fields, "session_id"@, JsonModel::Text(session.session_id))
    &&& object_in(fields, "exit_state"@) matches Some(inner) && tells_exit(inner, state)
    &&& object_in(fields, "stdout"@) matches Some(output) && tells_since(
        output,
        session.stdout,
        stdout_cursor,
    )
    &&& object_in(fields, "stderr"@) matches Some(output) && tells_since(
        output,
        session.stderr,
        stderr_cursor,
    )
}

/// Whether an answer is a document, and which.
pub open spec fn is_document(result: ToolResultModel, document: Fields) -> bool {
    result.success && result.error is None && result.output == pretty_json(document)
}

/// Whether a document on a session is under that action.
pub open spec fn is_under(document: Fields, action: Seq<char>) -> bool {
    holds(document, "action"@, JsonModel::Text(action))
}

/// What a document says of the end of a process.
proof fn lemma_exit_told(state: ExitModel)
    ensures
        tells_exit(exit_state_fields(state), state),
{
    lemma_field_names();
}

/// What a document says of the output that is kept.
proof fn lemma_output_told(output: OutputModel)
    ensures
        tells_output(output_fields(output_snapshot(output)), output),
{
    lemma_field_names();
    assert(output.written.subrange(oldest(output), output.written.len() as int)
        == output.written.skip(oldest(output)));
}

/// What a document says of the output since a cursor.
proof fn lemma_since_told(output: OutputModel, cursor: int)
    requires
        0 <= cursor,
    ensures
        tells_since(delta_fields(output_delta(output, cursor)), output, cursor),
{
    lemma_field_names();
    let count = output.written.len() as int;
    assert(output.written.subrange(oldest(output), count) == output.written.skip(oldest(output)));
    if cursor > count {
        assert(output.written.subrange(count, count) == Seq::<u8>::empty());
    } else {
        assert(output.written.subrange(cursor, count) == output.written.skip(cursor));
    }
}

/// What every document says of a session.
proof fn lemma_session_told(session: SessionModel)
    ensures
        tells_session(common_fields(session_snapshot(session)), session),
        tells_log(snapshot_fields(session_snapshot(session)), session),
        tells_session(status_fields(session_snapshot(session)), session),
        tells_sizes(status_fields(session_snapshot(session)), session),
        tells_sizes(write_fields(session_snapshot(session)), session),
{
    lemma_field_names();
    lemma_exit_told(session.exit_state);
    lemma_output_told(session.stdout);
    lemma_output_told(session.stderr);
}

/// What a document says to a reader with two cursors.
proof fn lemma_poll_told(
    session: SessionModel,
    state: ExitModel,
    stdout_cursor: int,
    stderr_cursor: int,
)
    requires
        0 <= stdout_cursor,
        0 <= stderr_cursor,
    ensures
        tells_poll(
            poll_fields(
                PollModel {
                    session_id: session.session_id,
                    exit_state: state,
                    stdout: output_delta(session.stdout, stdout_cursor),
                    stderr: output_delta(session.stderr, stderr_cursor),
                },
            ),
            session,
            state,
            stdout_cursor,
            stderr_cursor,
        ),
{
    lemma_field_names();
    lemma_exit_told(state);
    lemma_since_told(session.stdout, stdout_cursor);
    lemma_since_told(session.stderr, stderr_cursor);
}

/// A document on a session holds it under its action.
proof fn lemma_document(action: Seq<char>, session: Fields)
    ensures
        is_under(session_document(action, session), action),
        object_in(session_document(action, session), "session"@) == Some(session),
{
    lemma_field_names();
}

/// Whether a call that was begun with these arguments has come so far, whatever
/// else went on meanwhile.
pub open spec fn is_underway(
    tool: ProcessToolModel,
    began: RegistryModel,
    name: Seq<char>,
    fields: Fields,
    context: Option<ContextModel>,
    then: int,
    answers: Seq<CallAnswer>,
    call: CallModel,
) -> bool {
    call_started(tool, began, name, fields, context, then) matches ProcessStartModel::Running(begun)
        && call == call_after(begun, tool, answers)
}

/// The cursor that an argument gives; the beginning, where there is none.
pub open spec fn cursor_given(fields: Fields, key: Seq<char>) -> Option<int> {
    match argument_in(fields, key) {
        ArgumentModel::Missing => Some(0),
        ArgumentModel::Count(count) => if count <= usize::MAX {
            Some(count as int)
        } else {
            None
        },
        _ => None,
    }
}

/// Whether the question that is open is one of the action.
spec fn is_of_action(call: CallModel) -> bool {
    &&& call.step is RateLimited || call.step is Validate || call.step is Forbidden
        || call.step is Record || call.step is Build || call.step is Spawn ==> call.action
        == ProcessAction::Start
    &&& call.step is Refresh ==> call.action == ProcessAction::Status || call.action
        == ProcessAction::Log
    &&& call.step is Poll ==> call.action == ProcessAction::Poll && cursor_given(
        call.fields,
        "stdout_offset"@,
    ) is Some && cursor_given(call.fields, "stderr_offset"@) is Some
    &&& call.step is Enforce ==> call.action == ProcessAction::Write || call.action
        == ProcessAction::Kill
    &&& call.step is Write ==> call.action == ProcessAction::Write
    &&& call.step is Kill ==> call.action == ProcessAction::Kill
    &&& call.step is Finished <==> call.result is Some
}

/// Whether two states are of one call.
spec fn is_one_call(call: CallModel, next: CallModel) -> bool {
    next.fields == call.fields && next.action == call.action && next.owner_key == call.owner_key
}

/// Behind the clean-up a call asks what belongs to its action.
proof fn lemma_first_question(call: CallModel, tool: ProcessToolModel, registry: RegistryModel)
    requires
        call.result is None,
    ensures
        is_of_action(after_cleanup(call, tool, registry)),
        is_one_call(call, after_cleanup(call, tool, registry)),
{
}

/// Having been let act, a call goes on with its action.
proof fn lemma_acting_question(call: CallModel, registry: RegistryModel, now: int)
    requires
        call.step is Enforce,
        is_of_action(call),
    ensures
        is_of_action(acting(call, registry, now).0),
        is_one_call(call, acting(call, registry, now).0),
{
}

/// Killing goes on, or the call ends.
proof fn lemma_killing_question(
    call: CallModel,
    registry: RegistryModel,
    step: KillStep,
    reply: KillReplyModel,
    now: int,
)
    requires
        call.step is Kill,
        is_of_action(call),
    ensures
        is_of_action(killing(call, registry, step, reply, now).0),
        is_one_call(call, killing(call, registry, step, reply, now).0),
{
}

/// A call stays what it is, and asks what belongs to its action.
#[verifier::rlimit(40)]
proof fn lemma_next_question(
    call: CallModel,
    tool: ProcessToolModel,
    registry: RegistryModel,
    reply: ProcessReplyModel,
    now: int,
)
    requires
        is_of_action(call),
    ensures
        is_of_action(call_next(call, tool, registry, reply, now).0),
        is_one_call(call, call_next(call, tool, registry, reply, now).0),
{
    match (call.step, reply) {
        (CallStep::Cleanup, ProcessReplyModel::Session(reply)) => {
            let (cleanup, after) = cleanup_next(call.cleanup, registry, reply, now);
            lemma_first_question(CallModel { cleanup, ..call }, tool, after);
        },
        (CallStep::Enforce, ProcessReplyModel::Done(None)) => lemma_acting_question(
            call,
            registry,
            now,
        ),
        (CallStep::Kill { step }, ProcessReplyModel::Session(reply)) => lemma_killing_question(
            call,
            registry,
            step,
            reply,
            now,
        ),
        _ => {},
    }
}

/// What holds of a call as long as it is under way.
proof fn lemma_underway(
    tool: ProcessToolModel,
    began: RegistryModel,
    name: Seq<char>,
    fields: Fields,
    context: Option<ContextModel>,
    then: int,
    begun: CallModel,
    answers: Seq<CallAnswer>,
)
    requires
        call_started(tool, began, name, fields, context, then) == ProcessStartModel::Running(begun),
    ensures
        ({
            let call = call_after(begun, tool, answers);
            &&& is_of_action(call)
            &&& action_named(name) == Some(call.action)
            &&& call.fields == fields
            &&& context matches Some(given) && given.owner_key == Some(call.owner_key)
        }),
    decreases answers.len(),
{
    reveal(call_after);
    if answers.len() == 0 {
        let call = CallModel {
            action: begun.action,
            fields,
            owner_key: begun.owner_key,
            step: CallStep::Cleanup,
            cleanup: cleanup_started(began, then),
            started: None,
            result: None,
        };
        lemma_first_question(call, tool, began);
    } else {
        lemma_underway(tool, began, name, fields, context, then, begun, answers.drop_last());
        let last = answers.last();
        lemma_next_question(
            call_after(begun, tool, answers.drop_last()),
            tool,
            last.registry,
            last.reply,
            last.now,
        );
    }
}

/// The names of actions are told apart.
proof fn lemma_actions()
    ensures
        action_named("start"@) == Some(ProcessAction::Start),
        action_named("status"@) == Some(ProcessAction::Status),
        action_named("poll"@) == Some(ProcessAction::Poll),
        action_named("log"@) == Some(ProcessAction::Log),
        action_named("write"@) == Some(ProcessAction::Write),
        action_named("kill"@) == Some(ProcessAction::Kill),
{
    reveal_strlit("start");
    reveal_strlit("status");
    reveal_strlit("poll");
    reveal_strlit("log");
    reveal_strlit("write");
    reveal_strlit("kill");
    assert("start"@.len() == 5 && "status"@.len() == 6 && "poll"@.len() == 4 && "log"@.len() == 3
        && "write"@.len() == 5 && "kill"@.len() == 4);
    assert("start"@[0] == 's' && "write"@[0] == 'w' && "poll"@[0] == 'p' && "kill"@[0] == 'k');
}

/// The state that a look at a process shows: what was known before, where nobody
/// looks after the process any more; otherwise what the look shows.
pub open spec fn state_seen(session: SessionModel, probe: ProbeModel) -> ExitModel {
    if session.care != ProcessCare::Anyone {
        session.exit_state
    } else {
        match probe {
            ProbeModel::Running => session.exit_state,
            ProbeModel::Exited(status) => ExitModel::Exited {
                success: status.success,
                code: status.code,
            },
            ProbeModel::Unknown { reason } => ExitModel::Failed { reason },
        }
    }
}

/// The session after a look at its process: an end that shows is noted with the
/// moment, and nobody looks any more; all else stays as it is.
pub open spec fn session_seen(session: SessionModel, probe: ProbeModel, now: int) -> SessionModel {
    if session.care != ProcessCare::Anyone || probe is Running {
        session
    } else {
        SessionModel {
            exit_state: state_seen(session, probe),
            completed_at: Some(now),
            last_activity_at: now,
            care: ProcessCare::Nobody,
            ..session
        }
    }
}

/// A call to poll that looks at a process which nobody is killing answers with
/// what has come on each stream since the cursor for that stream, and with how
/// far the process has come; if the process cannot be looked at, it says so.
/// Either way the session keeps all its output.
pub proof fn law_poll_tells_each_stream(
    tool: ProcessToolModel,
    began: RegistryModel,
    fields: Fields,
    context: Option<ContextModel>,
    then: int,
    answers: Seq<CallAnswer>,
    call: CallModel,
    registry: RegistryModel,
    probe: ProbeModel,
    now: int,
)
    requires
        is_underway(tool, began, "poll"@, fields, context, then, answers, call),
        call.step is Poll,
        has_session(registry.sessions, word_or_empty(fields, "session_id"@)),
        session_named(
            registry.sessions,
            word_or_empty(fields, "session_id"@),
        ).care != ProcessCare::Killer,
    ensures
        ({
            let id = word_or_empty(fields, "session_id"@);
            let session = session_named(registry.sessions, id);
            let (next, after) = call_next(
                call,
                tool,
                registry,
                ProcessReplyModel::Session(KillReplyModel::Probed(probe)),
                now,
            );
            &&& cursor_given(fields, "stdout_offset"@) is Some
            &&& cursor_given(fields, "stderr_offset"@) is Some
            &&& has_session(after.sessions, id)
            &&& session_named(after.sessions, id) == session_seen(session, probe, now)
            &&& next.result matches Some(result) && if session.care == ProcessCare::Anyone
                && probe is Unknown {
                !result.success
            } else {
                exists|document: Fields| #[trigger]
                    is_document(result, document) && is_under(document, "poll"@) && (object_in(
                        document,
                        "session"@,
                    ) matches Some(told) && tells_poll(
                        told,
                        session,
                        state_seen(session, probe),
                        cursor_given(fields, "stdout_offset"@)->0,
                        cursor_given(fields, "stderr_offset"@)->0,
                    ))
            }
        }),
{
    lemma_actions();
    let begun = call_started(tool, began, "poll"@, fields, context, then)->Running_0;
    lemma_underway(tool, began, "poll"@, fields, context, then, begun, answers);
    let id = word_or_empty(fields, "session_id"@);
    let session = session_named(registry.sessions, id);
    lemma_session_index(registry.sessions, id);
    lemma_stored_session(registry.sessions, refreshed(session, probe, now));
    let stdout_cursor = cursor_given(fields, "stdout_offset"@)->0;
    let stderr_cursor = cursor_given(fields, "stderr_offset"@)->0;
    let state = state_seen(session, probe);
    lemma_poll_told(session, state, stdout_cursor, stderr_cursor);
    let told = poll_fields(
        PollModel {
            session_id: session.session_id,
            exit_state: state,
            stdout: output_delta(session.stdout, stdout_cursor),
            stderr: output_delta(session.stderr, stderr_cursor),
        },
    );
    lemma_document("poll"@, told);
    let (next, after) = call_next(
        call,
        tool,
        registry,
        ProcessReplyModel::Session(KillReplyModel::Probed(probe)),
        now,
    );
    if !(session.care == ProcessCare::Anyone && probe is Unknown) {
        assert(is_document(next.result->0, session_document("poll"@, told)));
    }
}

/// Whoever hands the cursor of one poll back at the next one is told of exactly
/// what came on that stream in between, unless it is told that something was
/// missed.
pub proof fn law_cursor_is_handed_back(
    first: Fields,
    second: Fields,
    output: OutputModel,
    chunk: Seq<u8>,
    cursor: int,
    next: int,
)
    requires
        tells_since(first, output, cursor),
        holds(first, "next_offset"@, JsonModel::Integer(next)),
        tells_since(second, appended(output, chunk), next),
    ensures
        holds(second, "missed_output"@, JsonModel::Bool(false)) ==> holds(
            second,
            "content"@,
            JsonModel::Text(utf8_lossy(chunk)),
        ),
        chunk.len() <= output.max_bytes ==> holds(
            second,
            "missed_output"@,
            JsonModel::Bool(false),
        ),
{
    let all = output.written + chunk;
    assert(all.subrange(output.written.len() as int, all.len() as int) == chunk);
}

/// A call for the status or the log of a session that looks at a process which
/// nobody is killing notes what it sees, and answers with the session as it is
/// then: its status with the sizes of its output, its log with all the output
/// that is kept.
pub proof fn law_look_tells_the_session(
    tool: ProcessToolModel,
    began: RegistryModel,
    name: Seq<char>,
    fields: Fields,
    context: Option<ContextModel>,
    then: int,
    answers: Seq<CallAnswer>,
    call: CallModel,
    registry: RegistryModel,
    probe: ProbeModel,
    now: int,
)
    requires
        is_underway(tool, began, name, fields, context, then, answers, call),
        name == "status"@ || name == "log"@,
        call.step is Refresh,
        has_session(registry.sessions, word_or_empty(fields, "session_id"@)),
        session_named(
            registry.sessions,
            word_or_empty(fields, "session_id"@),
        ).care != ProcessCare::Killer,
    ensures
        ({
            let id = word_or_empty(fields, "session_id"@);
            let session = session_named(registry.sessions, id);
            let seen = session_seen(session, probe, now);
            let (next, after) = call_next(
                call,
                tool,
                registry,
                ProcessReplyModel::Session(KillReplyModel::Probed(probe)),
                now,
            );
            &&& has_session(after.sessions, id)
            &&& session_named(after.sessions, id) == seen
            &&& next.result matches Some(result) && exists|document: Fields| #[trigger]
                is_document(result, document) && is_under(document, name) && (object_in(
                    document,
                    "session"@,
                ) matches Some(told) && if name == "status"@ {
                    tells_session(told, seen) && tells_sizes(told, seen)
                } else {
                    tells_log(told, seen)
                })
        }),
{
    lemma_actions();
    let begun = call_started(tool, began, name, fields, context, then)->Running_0;
    lemma_underway(tool, began, name, fields, context, then, begun, answers);
    let id = word_or_empty(fields, "session_id"@);
    let session = session_named(registry.sessions, id);
    lemma_session_index(registry.sessions, id);
    let seen = refreshed(session, probe, now);
    lemma_stored_session(registry.sessions, seen);
    lemma_session_told(seen);
    let told = if name == "status"@ {
        status_fields(session_snapshot(seen))
    } else {
        snapshot_fields(session_snapshot(seen))
    };
    lemma_document(name, told);
    let next = call_next(
        call,
        tool,
        registry,
        ProcessReplyModel::Session(KillReplyModel::Probed(probe)),
        now,
    ).0;
    assert(is_document(next.result->0, session_document(name, told)));
}

/// Whether the registry lists a session of that name, and the conversation owns it.
pub open spec fn is_own_session(
    registry: RegistryModel,
    owner_key: Seq<char>,
    session_id: Seq<char>,
) -> bool {
    lists(registry.sessions, session_id) && session_named(
        registry.sessions,
        session_id,
    ).owner_key == owner_key
}

/// Whether an answer is that there is no such session.
pub open spec fn is_not_found(result: ToolResultModel, session_id: Seq<char>) -> bool {
    is_error(result, "process session '"@ + session_id + "' not found"@)
}

/// Whether a call is, or ends, as it has to once nothing is left to clean up:
/// one that looks asks for a look at the session that it names, if that is one
/// of the conversation's own; one that acts asks whether it may; one that starts
/// a process asks whether the agent acts too often, if there is room, a command
/// and a runtime for it. Otherwise the call fails.
pub open spec fn is_past_cleanup(
    call: CallModel,
    tool: ProcessToolModel,
    registry: RegistryModel,
    name: Seq<char>,
    fields: Fields,
    owner_key: Seq<char>,
    running: int,
) -> bool {
    let id = word_or_empty(fields, "session_id"@);
    let looks = name == "status"@ || name == "log"@ || (name == "poll"@ && cursor_given(
        fields,
        "stdout_offset"@,
    ) is Some && cursor_given(fields, "stderr_offset"@) is Some);
    let acts = name == "kill"@ || (name == "write"@ && (text_or_empty(fields, "input"@).len() > 0
        || flag_in(fields, "close_stdin"@)));
    let starts = name == "start"@ && running < registry.limits.max_running_sessions && word_in(
        fields,
        "command"@,
    ) is Some && tool.supports_long_running;
    let named = word_in(fields, "session_id"@) is Some;
    if starts {
        call.result is None && call_request(call, tool) == Some(ProcessRequestModel::RateLimited)
    } else if looks && named && is_own_session(registry, owner_key, id) {
        call.result is None && call_request(call, tool) == Some(
            ProcessRequestModel::Session(SessionRequestModel::Probe { session_id: id }),
        )
    } else if looks && named {
        call.result matches Some(result) && is_not_found(result, id)
    } else if acts && named {
        call.result is None && call_request(call, tool) == Some(
            ProcessRequestModel::Enforce {
                operation: ToolOperation::Act,
                name: "process."@ + name,
            },
        )
    } else {
        call.result matches Some(result) && !result.success && result.output.len() == 0
            && result.error is Some
    }
}

/// What comes behind the clean-up.
proof fn lemma_past_cleanup(
    call: CallModel,
    tool: ProcessToolModel,
    registry: RegistryModel,
    name: Seq<char>,
)
    requires
        action_named(name) == Some(call.action),
        call.result is None,
        call.cleanup.step is Finished,
    ensures
        is_past_cleanup(
            after_cleanup(call, tool, registry),
            tool,
            registry,
            name,
            call.fields,
            call.owner_key,
            (call.cleanup.remaining_running_sessions as usize) as int,
        ),
{
    lemma_actions();
    reveal_strlit("process.");
    reveal_strlit("write");
    reveal_strlit("kill");
    reveal_strlit("process.write");
    reveal_strlit("process.kill");
    assert("process."@ + "write"@ =~= "process.write"@);
    assert("process."@ + "kill"@ =~= "process.kill"@);
}

/// Every call begins with a clean-up, and goes on as it has to once that is over.
pub proof fn law_call_goes_on_behind_the_cleanup(
    tool: ProcessToolModel,
    began: RegistryModel,
    name: Seq<char>,
    fields: Fields,
    context: Option<ContextModel>,
    then: int,
    answers: Seq<CallAnswer>,
    call: CallModel,
    registry: RegistryModel,
    reply: ProcessReplyModel,
    now: int,
)
    requires
        is_underway(tool, began, name, fields, context, then, answers, call),
        call.step is Cleanup,
        !(call_next(call, tool, registry, reply, now).0.step is Cleanup),
    ensures
        ({
            let (next, after) = call_next(call, tool, registry, reply, now);
            is_past_cleanup(
                next,
                tool,
                after,
                name,
                fields,
                (context->0).owner_key->0,
                (next.cleanup.remaining_running_sessions as usize) as int,
            )
        }),
{
    let begun = call_started(tool, began, name, fields, context, then)->Running_0;
    lemma_underway(tool, began, name, fields, context, then, begun, answers);
    if let ProcessReplyModel::Session(reply) = reply {
        let (cleanup, after) = cleanup_next(call.cleanup, registry, reply, now);
        lemma_past_cleanup(CallModel { cleanup, ..call }, tool, after, name);
    }
}

/// A call begins if and only if it names an action that there is and comes from
/// a conversation; and where no session is listed there is nothing to clean up.
pub proof fn law_call_begins_if_it_can(
    tool: ProcessToolModel,
    began: RegistryModel,
    name: Seq<char>,
    fields: Fields,
    context: Option<ContextModel>,
    then: int,
)
    ensures
        call_started(tool, began, name, fields, context, then) is Running <==> {
            &&& name == "start"@ || name == "status"@ || name == "poll"@ || name == "log"@ || name
                == "write"@ || name == "kill"@
            &&& context matches Some(given) && given.owner_key is Some
        },
        call_started(tool, began, name, fields, context, then) matches ProcessStartModel::Finished(
            result,
        ) ==> !result.success && result.output.len() == 0 && result.error is Some,
        call_started(tool, began, name, fields, context, then) matches ProcessStartModel::Running(
            call,
        ) ==> if listed(began.sessions).len() == 0 {
            is_past_cleanup(
                call,
                tool,
                began,
                name,
                fields,
                (context->0).owner_key->0,
                0,
            )
        } else {
            call.step is Cleanup && call.result is None && call_request(call, tool) == Some(
                ProcessRequestModel::Session(
                    SessionRequestModel::Probe { session_id: listed(began.sessions)[0].session_id },
                ),
            )
        },
{
    lemma_actions();
    if let ProcessStartModel::Running(begun) = call_started(
        tool,
        began,
        name,
        fields,
        context,
        then,
    ) {
        let call = CallModel {
            action: begun.action,
            fields,
            owner_key: begun.owner_key,
            step: CallStep::Cleanup,
            cleanup: cleanup_started(began, then),
            started: None,
            result: None,
        };
        if listed(began.sessions).len() == 0 {
            lemma_past_cleanup(call, tool, began, name);
        }
    }
}

/// Whether a document tells what is told after a write.
pub open spec fn tells_write(document: Fields, session: SessionModel) -> bool {
    &&& is_under(document, "write"@)
    &&& holds(document, "session_id"@, JsonModel::Text(session.session_id))
    &&& holds(document, "has_stdin"@, JsonModel::Bool(session.has_stdin))
    &&& tells_sizes(document, session)
}

/// The session after a write, with what it reads from closed where that was
/// asked for.
pub open spec fn session_written(session: SessionModel, fields: Fields, now: int) -> SessionModel {
    SessionModel {
        has_stdin: session.has_stdin && !flag_in(fields, "close_stdin"@),
        last_activity_at: now,
        ..session
    }
}

/// A call to write that may act asks to write the text that it was given, as it
/// is, to the session that it names, if that is one of the conversation's own
/// and can be written to; nothing changes meanwhile. Without a text it closes
/// what the process reads from, and tells of the session.
pub proof fn law_write_is_asked_for(
    tool: ProcessToolModel,
    began: RegistryModel,
    fields: Fields,
    context: Option<ContextModel>,
    then: int,
    answers: Seq<CallAnswer>,
    call: CallModel,
    registry: RegistryModel,
    now: int,
)
    requires
        is_underway(tool, began, "write"@, fields, context, then, answers, call),
        call.step is Enforce,
    ensures
        ({
            let id = word_or_empty(fields, "session_id"@);
            let input = text_or_empty(fields, "input"@);
            let session = session_named(registry.sessions, id);
            let own = is_own_session(registry, (context->0).owner_key->0, id);
            let (next, after) = call_next(
                call,
                tool,
                registry,
                ProcessReplyModel::Done(None),
                now,
            );
            &&& !own ==> after == registry && (next.result matches Some(result) && is_not_found(
                result,
                id,
            ))
            &&& own && input.len() > 0 && session.has_stdin ==> after == registry
                && next.result is None && call_request(next, tool) == Some(
                ProcessRequestModel::Write { session_id: id, input },
            )
            &&& own && input.len() > 0 && !session.has_stdin ==> after == registry && (
            next.result matches Some(result) && is_error(
                result,
                "process session '"@ + id + "' does not expose stdin"@,
            ))
            &&& own && input.len() == 0 && flag_in(fields, "close_stdin"@) ==> {
                &&& has_session(after.sessions, id)
                &&& session_named(after.sessions, id) == session_written(session, fields, now)
                &&& next.result matches Some(result) && exists|document: Fields| #[trigger]
                    is_document(result, document) && tells_write(
                        document,
                        session_written(session, fields, now),
                    )
            }
        }),
{
    lemma_actions();
    let begun = call_started(tool, began, "write"@, fields, context, then)->Running_0;
    lemma_underway(tool, began, "write"@, fields, context, then, begun, answers);
    let id = word_or_empty(fields, "session_id"@);
    let session = session_named(registry.sessions, id);
    lemma_session_index(registry.sessions, id);
    if is_own_session(registry, (context->0).owner_key->0, id) {
        let closed = with_stdin_closed(session, now);
        lemma_stored_session(registry.sessions, closed);
        lemma_write_told(closed);
        let next = call_next(call, tool, registry, ProcessReplyModel::Done(None), now).0;
        if text_or_empty(fields, "input"@).len() == 0 && flag_in(fields, "close_stdin"@) {
            assert(closed == session_written(session, fields, now));
            assert(is_document(next.result->0, write_fields(session_snapshot(closed))));
        }
    }
}

/// What is told after a write.
proof fn lemma_write_told(session: SessionModel)
    ensures
        tells_write(write_fields(session_snapshot(session)), session),
{
    lemma_field_names();
    lemma_session_told(session);
}

/// Once a text was written, that is noted, what the process reads from is closed
/// where that was asked for, and the call tells of the session. If it could not
/// be written, the session stays as it is, and the call says why.
pub proof fn law_write_is_noted(
    tool: ProcessToolModel,
    began: RegistryModel,
    fields: Fields,
    context: Option<ContextModel>,
    then: int,
    answers: Seq<CallAnswer>,
    call: CallModel,
    registry: RegistryModel,
    write: StdinWriteModel,
    now: int,
)
    requires
        is_underway(tool, began, "write"@, fields, context, then, answers, call),
        call.step is Write,
        has_session(registry.sessions, word_or_empty(fields, "session_id"@)),
    ensures
        ({
            let id = word_or_empty(fields, "session_id"@);
            let session = session_named(registry.sessions, id);
            let (next, after) = call_next(
                call,
                tool,
                registry,
                ProcessReplyModel::Written(write),
                now,
            );
            &&& has_session(after.sessions, id)
            &&& next.result matches Some(result) && match write {
                StdinWriteModel::Written => {
                    &&& session_named(after.sessions, id) == session_written(session, fields, now)
                    &&& exists|document: Fields| #[trigger]
                        is_document(result, document) && tells_write(
                            document,
                            session_written(session, fields, now),
                        )
                },
                StdinWriteModel::Closed => session_named(after.sessions, id) == session
                    && is_error(result, "process session '"@ + id + "' does not expose stdin"@),
                StdinWriteModel::Failed { reason } => session_named(after.sessions, id) == session
                    && is_error(
                    result,
                    "failed to write to process session '"@ + id + "': "@ + reason,
                ),
            }
        }),
{
    lemma_actions();
    let begun = call_started(tool, began, "write"@, fields, context, then)->Running_0;
    lemma_underway(tool, began, "write"@, fields, context, then, begun, answers);
    let id = word_or_empty(fields, "session_id"@);
    let session = session_named(registry.sessions, id);
    lemma_session_index(registry.sessions, id);
    let once = after_write(session, write, now);
    lemma_stored_session(registry.sessions, once);
    let middle = with_written(registry, id, write, now);
    lemma_session_index(middle.sessions, id);
    let closed = with_stdin_closed(once, now);
    lemma_stored_session(middle.sessions, closed);
    let end = session_written(session, fields, now);
    lemma_write_told(end);
    let (next, after) = call_next(call, tool, registry, ProcessReplyModel::Written(write), now);
    if write is Written {
        if flag_in(fields, "close_stdin"@) {
            assert(end == closed);
        } else {
            assert(end == once);
        }
        assert(is_document(next.result->0, write_fields(session_snapshot(end))));
    }
}

/// Whether a document tells what is told after a process was killed.
pub open spec fn tells_kill(
    document: Fields,
    session_id: Seq<char>,
    state: ExitModel,
    completed_at: Option<int>,
) -> bool {
    &&& is_under(document, "kill"@)
    &&& holds(document, "session_id"@, JsonModel::Text(session_id))
    &&& object_in(document, "exit_state"@) matches Some(inner) && tells_exit(inner, state)
    &&& holds_moment(document, "completed_at"@, completed_at)
}

/// Whether an answer tells that the process of a session was killed, or had
/// ended, and how.
pub open spec fn is_kill_told(result: ToolResultModel, session: SessionModel) -> bool {
    exists|document: Fields| #[trigger]
        is_document(result, document) && tells_kill(
            document,
            session.session_id,
            session.exit_state,
            session.completed_at,
        )
}

/// What is told after a process was killed.
proof fn lemma_kill_told(result: ToolResultModel, session: SessionModel)
    requires
        is_document(
            result,
            kill_fields(session.session_id, session.exit_state, session.completed_at),
        ),
    ensures
        is_kill_told(result, session),
{
    lemma_field_names();
    lemma_exit_told(session.exit_state);
}

/// Whether an answer is that a process could not be killed.
pub open spec fn is_kill_error(
    result: ToolResultModel,
    session_id: Seq<char>,
    reason: Seq<char>,
) -> bool {
    is_error(result, "failed to kill process session '"@ + session_id + "': "@ + reason)
}

/// A call to kill that may act takes the process of the session that it names,
/// if that is one of the conversation's own: nothing more is written to it, and
/// nobody else looks after it. It first looks whether the process has ended by
/// itself. If nobody looks after the process any more, the call tells of its end.
pub proof fn law_kill_takes_the_process(
    tool: ProcessToolModel,
    began: RegistryModel,
    fields: Fields,
    context: Option<ContextModel>,
    then: int,
    answers: Seq<CallAnswer>,
    call: CallModel,
    registry: RegistryModel,
    now: int,
)
    requires
        is_underway(tool, began, "kill"@, fields, context, then, answers, call),
        call.step is Enforce,
    ensures
        ({
            let id = word_or_empty(fields, "session_id"@);
            let session = session_named(registry.sessions, id);
            let (next, after) = call_next(
                call,
                tool,
                registry,
                ProcessReplyModel::Done(None),
                now,
            );
            let taken = session_named(after.sessions, id);
            if !is_own_session(registry, (context->0).owner_key->0, id) {
                after == registry && (next.result matches Some(result) && is_not_found(result, id))
            } else {
                &&& has_session(after.sessions, id)
                &&& taken == (SessionModel {
                    has_stdin: false,
                    last_activity_at: now,
                    care: if session.care == ProcessCare::Nobody {
                        ProcessCare::Nobody
                    } else {
                        ProcessCare::Killer
                    },
                    ..session
                })
                &&& if session.care == ProcessCare::Nobody {
                    next.result matches Some(result) && is_kill_told(result, taken)
                } else {
                    next.result is None && call_request(next, tool) == Some(
                        ProcessRequestModel::Session(
                            SessionRequestModel::Probe { session_id: id },
                        ),
                    ) && (next.step == (CallStep::Kill { step: KillStep::Queue })
                        <==> session.care == ProcessCare::Killer) && call_kills(next)
                        == if session.care == ProcessCare::Killer {
                        None
                    } else {
                        Some(id)
                    }
                }
            }
        }),
{
    lemma_actions();
    let begun = call_started(tool, began, "kill"@, fields, context, then)->Running_0;
    lemma_underway(tool, began, "kill"@, fields, context, then, begun, answers);
    let id = word_or_empty(fields, "session_id"@);
    let session = session_named(registry.sessions, id);
    lemma_session_index(registry.sessions, id);
    if is_own_session(registry, (context->0).owner_key->0, id) {
        let taken = kill_begun(session, now);
        lemma_stored_session(registry.sessions, taken);
        let next = call_next(call, tool, registry, ProcessReplyModel::Done(None), now).0;
        if session.care == ProcessCare::Nobody {
            lemma_kill_told(next.result->0, taken);
        }
    }
}

/// The session of a process that has ended so: that is noted with the moment,
/// and nobody looks after the process any more.
pub open spec fn session_ended(session: SessionModel, state: ExitModel, now: int) -> SessionModel {
    SessionModel {
        exit_state: state,
        completed_at: Some(now),
        last_activity_at: now,
        care: ProcessCare::Nobody,
        ..session
    }
}

/// A process that has ended by itself is not killed; one that runs is killed, and
/// waited for. The call tells how the process ended, which is noted; where
/// something fails it says why. However it goes, nobody looks after the process
/// once it is over.
pub proof fn law_kill_goes_through(
    tool: ProcessToolModel,
    began: RegistryModel,
    fields: Fields,
    context: Option<ContextModel>,
    then: int,
    answers: Seq<CallAnswer>,
    call: CallModel,
    registry: RegistryModel,
    step: KillStep,
    reply: KillReplyModel,
    now: int,
)
    requires
        is_underway(tool, began, "kill"@, fields, context, then, answers, call),
        call.step == (CallStep::Kill { step }),
        has_session(registry.sessions, word_or_empty(fields, "session_id"@)),
    ensures
        ({
            let id = word_or_empty(fields, "session_id"@);
            let session = session_named(registry.sessions, id);
            let (next, after) = call_next(
                call,
                tool,
                registry,
                ProcessReplyModel::Session(reply),
                now,
            );
            let left = session_named(after.sessions, id);
            let asked = call_request(call, tool)->Some_0->Session_0;
            &&& has_session(after.sessions, id)
            &&& call_request(call, tool) matches Some(ProcessRequestModel::Session(_))
            &&& match (asked, reply) {
                (
                    SessionRequestModel::Probe { session_id },
                    KillReplyModel::Probed(probe),
                ) => session_id == id && if step == KillStep::Queue {
                    &&& left == session
                    &&& session.care == ProcessCare::Killer ==> next == call
                    &&& session.care != ProcessCare::Killer ==> (next.result matches Some(result)
                        && is_kill_told(result, session))
                } else {
                    match probe {
                        ProbeModel::Running => left == session && next.result is None
                            && call_request(next, tool) == Some(
                            ProcessRequestModel::Session(SessionRequestModel::Kill { session_id }),
                        ),
                        ProbeModel::Exited(status) => {
                            &&& left == session_ended(
                                session,
                                ExitModel::Exited { success: status.success, code: status.code },
                                now,
                            )
                            &&& next.result matches Some(result) && is_kill_told(result, left)
                        },
                        ProbeModel::Unknown { reason } => {
                            &&& left == session_ended(session, ExitModel::Failed { reason }, now)
                            &&& next.result matches Some(result) && is_kill_error(
                                result,
                                id,
                                reason,
                            )
                        },
                    }
                },
                (
                    SessionRequestModel::Kill { session_id },
                    KillReplyModel::Killed(failure),
                ) => session_id == id && match failure {
                    None => left == session && next.result is None && call_request(next, tool)
                        == Some(
                        ProcessRequestModel::Session(SessionRequestModel::Wait { session_id }),
                    ),
                    Some(reason) => {
                        &&& left == (SessionModel { care: ProcessCare::Nobody, ..session })
                        &&& next.result matches Some(result) && is_kill_error(result, id, reason)
                    },
                },
                (
                    SessionRequestModel::Wait { session_id },
                    KillReplyModel::Waited(outcome),
                ) => session_id == id && match outcome {
                    Ok(status) => {
                        &&& left == session_ended(
                            session,
                            ExitModel::Exited { success: status.success, code: status.code },
                            now,
                        )
                        &&& next.result matches Some(result) && is_kill_told(result, left)
                    },
                    Err(reason) => {
                        &&& left == (SessionModel { care: ProcessCare::Nobody, ..session })
                        &&& next.result matches Some(result) && is_kill_error(result, id, reason)
                    },
                },
                _ => next == call && left == session,
            }
        }),
{
    lemma_actions();
    let begun = call_started(tool, began, "kill"@, fields, context, then)->Running_0;
    lemma_underway(tool, began, "kill"@, fields, context, then, begun, answers);
    let id = word_or_empty(fields, "session_id"@);
    let session = session_named(registry.sessions, id);
    lemma_session_index(registry.sessions, id);
    let left = kill_next(session, step, reply, now).0;
    lemma_stored_session(registry.sessions, left);
    let next = call_next(call, tool, registry, ProcessReplyModel::Session(reply), now).0;
    if let Some(result) = next.result {
        if result.success {
            lemma_kill_told(result, left);
        }
    }
}

/// A call that starts a process asks one thing after the other: whether the agent
/// acts too often, whether the command may run, whether it names a forbidden
/// path, and whether there is room for one action more; then it has the command
/// made ready, and the process started. It fails where an answer is against it,
/// and says why; otherwise it goes on.
pub proof fn law_start_goes_through(
    tool: ProcessToolModel,
    began: RegistryModel,
    fields: Fields,
    context: Option<ContextModel>,
    then: int,
    answers: Seq<CallAnswer>,
    call: CallModel,
    registry: RegistryModel,
    reply: ProcessReplyModel,
    now: int,
)
    requires
        is_underway(tool, began, "start"@, fields, context, then, answers, call),
        !(call.step is Cleanup),
    ensures
        ({
            let command = word_or_empty(fields, "command"@);
            let (next, after) = call_next(call, tool, registry, reply, now);
            match (call_request(call, tool), reply) {
                (
                    Some(ProcessRequestModel::RateLimited),
                    ProcessReplyModel::Flag(limited),
                ) => after == registry && if limited {
                    next.result matches Some(result) && is_error(
                        result,
                        "Rate limit exceeded: too many actions in the last hour"@,
                    )
                } else {
                    call_request(next, tool) == Some(
                        ProcessRequestModel::ValidateCommand {
                            command,
                            approved: argument_in(fields, "approved"@) == ArgumentModel::Flag(true),
                        },
                    )
                },
                (
                    Some(ProcessRequestModel::ValidateCommand { .. }),
                    ProcessReplyModel::Done(failure),
                ) => after == registry && match failure {
                    Some(reason) => next.result matches Some(result) && is_error(result, reason),
                    None => call_request(next, tool) == Some(
                        ProcessRequestModel::ForbiddenPath { command },
                    ),
                },
                (
                    Some(ProcessRequestModel::ForbiddenPath { .. }),
                    ProcessReplyModel::Path(found),
                ) => after == registry && match found {
                    Some(path) => next.result matches Some(result) && is_error(
                        result,
                        "Path blocked by security policy: "@ + path,
                    ),
                    None => call_request(next, tool) == Some(ProcessRequestModel::RecordAction),
                },
                (
                    Some(ProcessRequestModel::RecordAction),
                    ProcessReplyModel::Flag(recorded),
                ) => after == registry && if recorded {
                    call_request(next, tool) == Some(
                        ProcessRequestModel::BuildCommand {
                            command,
                            workspace_dir: tool.security.workspace_dir,
                        },
                    )
                } else {
                    next.result matches Some(result) && is_error(
                        result,
                        "Rate limit exceeded: action budget exhausted"@,
                    )
                },
                (
                    Some(ProcessRequestModel::BuildCommand { .. }),
                    ProcessReplyModel::Done(failure),
                ) => after == registry && match failure {
                    Some(reason) => next.result matches Some(result) && is_error(
                        result,
                        "Failed to build runtime command: "@ + reason,
                    ),
                    None => call_request(next, tool) matches Some(ProcessRequestModel::Spawn { .. }),
                },
                (
                    Some(ProcessRequestModel::Spawn { .. }),
                    ProcessReplyModel::Spawned(started),
                ) => started is Err ==> after == registry && (next.result matches Some(result)
                    && is_error(
                    result,
                    "Failed to spawn background process: "@ + started->Err_0,
                )),
                _ => next == call && after == registry,
            }
        }),
{
    lemma_actions();
    let begun = call_started(tool, began, "start"@, fields, context, then)->Running_0;
    lemma_underway(tool, began, "start"@, fields, context, then, begun, answers);
}

/// A process that was started gets a session under a name of its own, which
/// belongs to the conversation that asked; it runs, has written nothing yet, and
/// is known by the beginning of its command. The call tells of it.
pub proof fn law_started_process_has_a_session(
    tool: ProcessToolModel,
    began: RegistryModel,
    fields: Fields,
    context: Option<ContextModel>,
    then: int,
    answers: Seq<CallAnswer>,
    call: CallModel,
    registry: RegistryModel,
    has_stdin: bool,
    now: int,
)
    requires
        is_underway(tool, began, "start"@, fields, context, then, answers, call),
        call_request(call, tool) matches Some(ProcessRequestModel::Spawn { .. }),
    ensures
        ({
            let id = process_id(registry.next_id);
            let (next, after) = call_next(
                call,
                tool,
                registry,
                ProcessReplyModel::Spawned(Ok(has_stdin)),
                now,
            );
            let session = session_named(after.sessions, id);
            &&& has_session(after.sessions, id)
            &&& session == (SessionModel {
                session_id: id,
                owner_key: (context->0).owner_key->0,
                command_summary: summarized(word_or_empty(fields, "command"@), 120),
                started_at: now,
                last_activity_at: now,
                completed_at: None,
                exit_state: ExitModel::Running,
                stdout: OutputModel {
                    max_bytes: registry.stdout_capacity_bytes,
                    written: seq![],
                },
                stderr: OutputModel {
                    max_bytes: registry.stderr_capacity_bytes,
                    written: seq![],
                },
                has_stdin,
                care: ProcessCare::Anyone,
                listed: true,
            })
            &&& next.started == Some(id)
            &&& registry.next_id < u64::MAX ==> after.next_id == registry.next_id + 1
            &&& after.limits == registry.limits
            &&& next.result matches Some(result) && exists|document: Fields| #[trigger]
                is_document(result, document) && is_under(document, "start"@) && (object_in(
                    document,
                    "session"@,
                ) matches Some(told) && tells_log(told, session))
        }),
{
    lemma_actions();
    let begun = call_started(tool, began, "start"@, fields, context, then)->Running_0;
    lemma_underway(tool, began, "start"@, fields, context, then, begun, answers);
    let session = registered_session(
        registry,
        call.owner_key,
        summarized(
            word_or_empty(call.fields, "command"@),
            COMMAND_SUMMARY_LIMIT_CHARS as nat,
        ),
        has_stdin,
        now,
    );
    lemma_stored_session(registry.sessions, session);
    lemma_session_told(session);
    let told = snapshot_fields(session_snapshot(session));
    lemma_document("start"@, told);
    let next = call_next(
        call,
        tool,
        registry,
        ProcessReplyModel::Spawned(Ok(has_stdin)),
        now,
    ).0;
    assert(is_document(next.result->0, session_document("start"@, told)));
}

/// A call that may not act fails with the reason, and changes nothing.
pub proof fn law_refusal_is_told(
    tool: ProcessToolModel,
    began: RegistryModel,
    name: Seq<char>,
    fields: Fields,
    context: Option<ContextModel>,
    then: int,
    answers: Seq<CallAnswer>,
    call: CallModel,
    registry: RegistryModel,
    reason: Seq<char>,
    now: int,
)
    requires
        is_underway(tool, began, name, fields, context, then, answers, call),
        call_request(call, tool) matches Some(ProcessRequestModel::Enforce { .. }),
    ensures
        ({
            let (next, after) = call_next(
                call,
                tool,
                registry,
                ProcessReplyModel::Done(Some(reason)),
                now,
            );
            &&& after == registry
            &&& next.result matches Some(result) && is_error(result, reason)
        }),
{
    let begun = call_started(tool, began, name, fields, context, then)->Running_0;
    lemma_underway(tool, began, name, fields, context, then, begun, answers);
}

/// The names of those whose process is being killed are known as long as it is
/// being killed: whoever asks to kill a process, or waits for the end of one,
/// names that process, be it a call, a clean-up or a shutdown; whoever names a
/// process asks about that one; and whoever is done names none.
pub proof fn law_killers_name_the_process(
    call: CallModel,
    tool: ProcessToolModel,
    run: CleanupModel,
    shutdown: ShutdownModel,
    id: Seq<char>,
)
    ensures
        call_request(call, tool) == Some(
            ProcessRequestModel::Session(SessionRequestModel::Kill { session_id: id }),
        ) || call_request(call, tool) == Some(
            ProcessRequestModel::Session(SessionRequestModel::Wait { session_id: id }),
        ) ==> call_kills(call) == Some(id),
        call_kills(call) == Some(id) ==> (call_request(call, tool) matches Some(
            ProcessRequestModel::Session(request),
        ) && is_about(request, id)),
        cleanup_request(run) == Some(SessionRequestModel::Kill { session_id: id })
            || cleanup_request(run) == Some(SessionRequestModel::Wait { session_id: id })
            ==> cleanup_kills(run) == Some(id),
        cleanup_kills(run) == Some(id) ==> (cleanup_request(run) matches Some(request) && is_about(
            request,
            id,
        )),
        shutdown_request(shutdown) == Some(SessionRequestModel::Kill { session_id: id })
            || shutdown_request(shutdown) == Some(SessionRequestModel::Wait { session_id: id })
            ==> shutdown_kills(shutdown) == Some(id),
        shutdown_kills(shutdown) == Some(id) ==> (shutdown_request(shutdown) matches Some(request)
            && is_about(request, id)),
{
}

/// Whether a request is about the process of that session.
pub open spec fn is_about(request: SessionRequestModel, id: Seq<char>) -> bool {
    match request {
        SessionRequestModel::Probe { session_id } => session_id == id,
        SessionRequestModel::Kill { session_id } => session_id == id,
        SessionRequestModel::Wait { session_id } => session_id == id,
    }
}

} // verus!
