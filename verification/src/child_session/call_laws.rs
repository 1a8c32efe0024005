//! What the calls of the child session tool do, and what they tell.

use crate::child_session::agents::agent_named;
use crate::child_session::artifacts::workspace_paths;
use crate::child_session::documents::{child_fields, completion_fields, delegate_fields};
use crate::child_session::registry::{
    after_delegate, child_id, child_index, child_named, has_child, lemma_stored_child, task_from,
    with_child, with_delegate_ended, ChildRegistryModel, DelegateModel,
};
use crate::child_session::session::{
    cancelled, new_child, AgentModel, ChildModel, ChildSessionState, ChildSnapshotModel,
    CompletionModel,
};
use crate::child_session::tool::{
    action_named, call_next, call_request, call_session, call_started, cancel_reason, child_timeout,
    seconds_or_zero, ChildAction, ChildCallModel, ChildReplyModel, ChildRequestModel,
    ChildStartModel, PROMPT_SUMMARY_LIMIT_CHARS,
};
use crate::host::answers::{
    holds, holds_optional, holds_texts, is_error, lemma_field_names, object_in,
};
use crate::host::documents::session_document;
use crate::host::json::{
    argument_in, pretty_json, word_in, word_or_empty, ArgumentModel, Fields, JsonModel,
};
use crate::host::time::rfc3339_text;
use crate::host::tool::{ContextModel, ToolOperation, ToolResultModel};
use crate::text::decimal::decimal;
use crate::text::summary::summarized;
use crate::text::words::words;
use vstd::prelude::*;

verus! {

/// An answer to a call: what the registry was like when it came, what it says,
/// and when it came.
pub struct ChildAnswer {
    pub registry: ChildRegistryModel,
    pub reply: ChildReplyModel,
    pub now: int,
}

/// A call after so many answers, whatever else went on in the registry meanwhile.
pub open spec fn call_after(
    call: ChildCallModel,
    agents: Seq<(Seq<char>, AgentModel)>,
    answers: Seq<ChildAnswer>,
) -> ChildCallModel
    decreases answers.len(),
{
    if answers.len() == 0 {
        call
    } else {
        let last = answers.last();
        call_next(
            call_after(call, agents, answers.drop_last()),
            agents,
            last.registry,
            last.reply,
            last.now,
        ).0
    }
}

/// Whether a call that was begun with these arguments has come so far.
pub open spec fn is_underway(
    agents: Seq<(Seq<char>, AgentModel)>,
    name: Seq<char>,
    fields: Fields,
    context: Option<ContextModel>,
    answers: Seq<ChildAnswer>,
    call: ChildCallModel,
) -> bool {
    call_started(agents, name, fields, context) matches ChildStartModel::Running(begun) && call
        == call_after(begun, agents, answers)
}

/// Whether fields tell how a child ended.
pub open spec fn tells_completion(fields: Fields, completion: CompletionModel) -> bool {
    &&& holds(fields, "success"@, JsonModel::Bool(completion.success))
    &&& holds(fields, "summary"@, JsonModel::Text(completion.summary))
    &&& holds_optional(fields, "error"@, completion.error)
    &&& holds_texts(fields, "artifacts"@, completion.artifacts)
}

/// Whether fields tell of a child what its snapshot says.
pub open spec fn tells_child(fields: Fields, child: ChildSnapshotModel) -> bool {
    &&& holds(fields, "session_id"@, JsonModel::Text(child.session_id))
    &&& holds(fields, "owner_key"@, JsonModel::Text(child.owner_key))
    &&& holds(fields, "agent_name"@, JsonModel::Text(child.agent_name))
    &&& holds(fields, "provider"@, JsonModel::Text(child.provider))
    &&& holds(fields, "model"@, JsonModel::Text(child.model))
    &&& holds_texts(fields, "allowed_tools"@, child.allowed_tools)
    &&& holds(fields, "max_depth"@, JsonModel::Integer(child.max_depth as int))
    &&& holds(fields, "max_iterations"@, JsonModel::Integer(child.max_iterations as int))
    &&& holds(fields, "timeout_secs"@, JsonModel::Integer(child.timeout_secs as int))
    &&& holds(fields, "prompt_summary"@, JsonModel::Text(child.prompt_summary))
    &&& holds_optional(fields, "channel_name"@, child.channel_name)
    &&& holds_optional(fields, "reply_target"@, child.reply_target)
    &&& holds(fields, "started_at"@, JsonModel::Text(rfc3339_text(child.started_at)))
    &&& holds(fields, "last_update_at"@, JsonModel::Text(rfc3339_text(child.last_update_at)))
    &&& match child.completed_at {
        Some(at) => holds(fields, "completed_at"@, JsonModel::Text(rfc3339_text(at))),
        None => holds(fields, "completed_at"@, JsonModel::Null),
    }
    &&& holds(
        fields,
        "state"@,
        JsonModel::Text(
            match child.state {
                ChildSessionState::Running => "running"@,
                ChildSessionState::Completed => "completed"@,
                ChildSessionState::Failed => "failed"@,
                ChildSessionState::TimedOut => "timed_out"@,
                ChildSessionState::Cancelled => "cancelled"@,
            },
        ),
    )
    &&& match child.completion {
        Some(completion) => object_in(fields, "completion"@) matches Some(inner)
            && tells_completion(inner, completion),
        None => holds(fields, "completion"@, JsonModel::Null),
    }
}

/// Whether an answer is a document on a child, under the action it answers.
pub open spec fn is_told(result: ToolResultModel, action: Seq<char>, child: ChildSnapshotModel) -> bool {
    &&& result.success
    &&& result.error is None
    &&& exists|document: Fields|
        result.output == #[trigger] pretty_json(document) && holds(
            document,
            "action"@,
            JsonModel::Text(action),
        ) && (object_in(document, "session"@) matches Some(session) && tells_child(session, child))
}

/// Whether an answer is that there is no such child.
pub open spec fn is_not_found(result: ToolResultModel, session_id: Seq<char>) -> bool {
    is_error(result, "child session '"@ + session_id + "' not found"@)
}

/// The place of the child of that name that comes first.
proof fn lemma_place(sessions: Seq<ChildModel>, session_id: Seq<char>)
    ensures
        0 <= child_index(sessions, session_id) <= sessions.len(),
        has_child(sessions, session_id) ==> child_named(sessions, session_id).snapshot.session_id
            == session_id,
    decreases sessions.len(),
{
    if sessions.len() > 0 && sessions.first().snapshot.session_id != session_id {
        lemma_place(sessions.drop_first(), session_id);
    }
}

/// A document on the end of a child tells of it.
proof fn lemma_completion_told(completion: CompletionModel)
    ensures
        tells_completion(completion_fields(completion), completion),
{
    lemma_field_names();
}

/// A document on a child tells of it.
proof fn lemma_child_told(child: ChildSnapshotModel)
    ensures
        tells_child(child_fields(child), child),
{
    lemma_field_names();
    if let Some(completion) = child.completion {
        lemma_completion_told(completion);
    }
}

/// The action that a call was begun with stays, and so does what it is about;
/// and it is at a question that belongs to the action.
proof fn lemma_underway(
    agents: Seq<(Seq<char>, AgentModel)>,
    name: Seq<char>,
    fields: Fields,
    context: Option<ContextModel>,
    begun: ChildCallModel,
    answers: Seq<ChildAnswer>,
)
    requires
        call_started(agents, name, fields, context) == ChildStartModel::Running(begun),
    ensures
        ({
            let call = call_after(begun, agents, answers);
            &&& action_named(name) == Some(call.action)
            &&& call.fields == fields
            &&& call.context == context
            &&& context matches Some(given) && given.owner_key == Some(call.owner_key)
            &&& call.step is Spawn ==> call.action == ChildAction::Spawn
            &&& call.step is Wait ==> call.action == ChildAction::Wait
            &&& call.step is Abort ==> call.action == ChildAction::Cancel
            &&& call.step is Finished <==> call.result is Some
        }),
    decreases answers.len(),
{
    if answers.len() > 0 {
        lemma_underway(agents, name, fields, context, begun, answers.drop_last());
    }
}

/// The names of actions are told apart.
proof fn lemma_actions()
    ensures
        action_named("spawn"@) == Some(ChildAction::Spawn),
        action_named("status"@) == Some(ChildAction::Status),
        action_named("wait"@) == Some(ChildAction::Wait),
        action_named("cancel"@) == Some(ChildAction::Cancel),
{
    reveal_strlit("spawn");
    reveal_strlit("status");
    reveal_strlit("wait");
    reveal_strlit("cancel");
    assert("spawn"@.len() == 5 && "status"@.len() == 6 && "wait"@.len() == 4 && "cancel"@.len()
        == 6);
    assert("status"@[0] == 's' && "cancel"@[0] == 'c');
}

/// Whoever asks how a child is, or waits for it, only looks: whatever is
/// answered, no child is changed, none is added, and none goes.
pub proof fn law_looking_changes_nothing(
    agents: Seq<(Seq<char>, AgentModel)>,
    name: Seq<char>,
    fields: Fields,
    context: Option<ContextModel>,
    answers: Seq<ChildAnswer>,
    call: ChildCallModel,
    registry: ChildRegistryModel,
    reply: ChildReplyModel,
    now: int,
)
    requires
        is_underway(agents, name, fields, context, answers, call),
        name == "status"@ || name == "wait"@,
    ensures
        call_next(call, agents, registry, reply, now).1 == registry,
{
    let begun = call_started(agents, name, fields, context)->Running_0;
    lemma_underway(agents, name, fields, context, begun, answers);
    lemma_actions();
}

/// The child that a call tells of: the one that it names, or the one that it
/// set to work.
pub open spec fn child_of(call: ChildCallModel) -> Seq<char> {
    if call.action == ChildAction::Spawn {
        call.spawned
    } else {
        word_or_empty(call.fields, "session_id"@)
    }
}

/// A call that succeeds tells of its child what the registry holds of it at that
/// moment, under the name of its action. If there is no such child, it fails.
pub proof fn law_success_tells_of_the_child(
    agents: Seq<(Seq<char>, AgentModel)>,
    name: Seq<char>,
    fields: Fields,
    context: Option<ContextModel>,
    answers: Seq<ChildAnswer>,
    call: ChildCallModel,
    registry: ChildRegistryModel,
    reply: ChildReplyModel,
    now: int,
    result: ToolResultModel,
)
    requires
        is_underway(agents, name, fields, context, answers, call),
        call.result is None,
        call_next(call, agents, registry, reply, now).0.result == Some(result),
    ensures
        ({
            let (next, after) = call_next(call, agents, registry, reply, now);
            if result.success {
                has_child(after.sessions, child_of(next)) && is_told(
                    result,
                    name,
                    child_named(after.sessions, child_of(next)).snapshot,
                )
            } else {
                result.output.len() == 0 && result.error is Some
            }
        }),
{
    let begun = call_started(agents, name, fields, context)->Running_0;
    lemma_underway(agents, name, fields, context, begun, answers);
    lemma_actions();
    lemma_field_names();
    let (next, after) = call_next(call, agents, registry, reply, now);
    if result.success {
        let child = child_named(after.sessions, child_of(next)).snapshot;
        lemma_child_told(child);
        let document = session_document(name, child_fields(child));
        assert(object_in(document, "session"@) == Some(child_fields(child)));
        assert(result.output == pretty_json(document));
    }
}

/// The number of seconds that an argument gives, within bounds; where there is
/// none, what holds otherwise.
pub open spec fn seconds_given(fields: Fields, key: Seq<char>, otherwise: u64, most: u64) -> Option<u64> {
    match argument_in(fields, key) {
        ArgumentModel::Missing => Some(otherwise),
        ArgumentModel::Count(count) => if 1 <= count <= most {
            Some(count)
        } else {
            None
        },
        _ => None,
    }
}

/// Whether there is a child of that name, and the conversation owns it.
pub open spec fn is_own_child(
    registry: ChildRegistryModel,
    owner_key: Seq<char>,
    session_id: Seq<char>,
) -> bool {
    has_child(registry.sessions, session_id) && child_named(
        registry.sessions,
        session_id,
    ).snapshot.owner_key == owner_key
}

/// Whoever waits for a child that works waits for that child, for as many seconds
/// as it said, or for thirty, and for no more than three hundred; once the wait
/// is over it is told how the child is then, be it at work still. Whoever waits
/// for a child that has ended, or asks how one is, is told at once.
pub proof fn law_wait_is_for_the_child(
    agents: Seq<(Seq<char>, AgentModel)>,
    name: Seq<char>,
    fields: Fields,
    context: Option<ContextModel>,
    call: ChildCallModel,
    registry: ChildRegistryModel,
    now: int,
)
    requires
        is_underway(agents, name, fields, context, seq![], call),
        word_in(fields, "session_id"@) is Some,
        is_own_child(registry, call.owner_key, word_or_empty(fields, "session_id"@)),
    ensures
        ({
            let id = word_or_empty(fields, "session_id"@);
            let child = child_named(registry.sessions, id).snapshot;
            let next = call_next(call, agents, registry, ChildReplyModel::Allowed(None), now).0;
            let seconds = seconds_given(fields, "wait_timeout_secs"@, 30, 300);
            &&& name == "wait"@ && seconds is Some && child.state == ChildSessionState::Running
                ==> next.result is None && call_request(next) == Some(
                ChildRequestModel::Wait { session_id: id, timeout_secs: seconds->0 },
            ) && forall|later: ChildRegistryModel, then: int|
                has_child(later.sessions, id) ==> {
                    let done = (#[trigger] call_next(
                        next,
                        agents,
                        later,
                        ChildReplyModel::Done,
                        then,
                    )).0;
                    done.result matches Some(result) && is_told(
                        result,
                        "wait"@,
                        child_named(later.sessions, id).snapshot,
                    )
                }
            &&& name == "wait"@ && seconds is Some && child.state != ChildSessionState::Running
                ==> (next.result matches Some(result) && is_told(result, "wait"@, child))
            &&& name == "wait"@ && seconds is None ==> (next.result matches Some(result)
                && !result.success)
            &&& name == "status"@ ==> (next.result matches Some(result) && is_told(
                result,
                "status"@,
                child,
            ))
        }),
{
    lemma_actions();
    let id = word_or_empty(fields, "session_id"@);
    let begun = call_started(agents, name, fields, context)->Running_0;
    assert(call == begun);
    let next = call_next(call, agents, registry, ChildReplyModel::Allowed(None), now).0;
    lemma_field_names();
    let child = child_named(registry.sessions, id).snapshot;
    lemma_child_told(child);
    lemma_document(name, child);
    if name == "wait"@ && call_request(next) is Some {
        assert forall|later: ChildRegistryModel, then: int| has_child(later.sessions, id) implies {
            let done = (#[trigger] call_next(
                next,
                agents,
                later,
                ChildReplyModel::Done,
                then,
            )).0;
            done.result matches Some(result) && is_told(
                result,
                "wait"@,
                child_named(later.sessions, id).snapshot,
            )
        } by {
            lemma_document("wait"@, child_named(later.sessions, id).snapshot);
        }
    }
}

/// A document on a child, once it is written down, tells of it.
proof fn lemma_document(action: Seq<char>, child: ChildSnapshotModel)
    ensures
        is_told(
            ToolResultModel {
                success: true,
                output: pretty_json(session_document(action, child_fields(child))),
                error: None,
            },
            action,
            child,
        ),
{
    lemma_field_names();
    lemma_child_told(child);
    let document = session_document(action, child_fields(child));
    assert(object_in(document, "session"@) == Some(child_fields(child)));
}

/// Whoever cancels a child that works ends it then and there: it is cancelled,
/// with the reason that says so, and without a result; where its work can be
/// broken off, that is asked for, and once it is done the call tells of the child.
pub proof fn law_cancel_ends_the_child(
    agents: Seq<(Seq<char>, AgentModel)>,
    fields: Fields,
    context: Option<ContextModel>,
    call: ChildCallModel,
    registry: ChildRegistryModel,
    now: int,
)
    requires
        is_underway(agents, "cancel"@, fields, context, seq![], call),
        word_in(fields, "session_id"@) is Some,
        is_own_child(registry, call.owner_key, word_or_empty(fields, "session_id"@)),
        child_named(
            registry.sessions,
            word_or_empty(fields, "session_id"@),
        ).snapshot.state == ChildSessionState::Running,
    ensures
        ({
            let id = word_or_empty(fields, "session_id"@);
            let before = child_named(registry.sessions, id);
            let (next, after) = call_next(
                call,
                agents,
                registry,
                ChildReplyModel::Allowed(None),
                now,
            );
            let child = child_named(after.sessions, id);
            &&& has_child(after.sessions, id)
            &&& child.snapshot == (ChildSnapshotModel {
                state: ChildSessionState::Cancelled,
                completed_at: Some(now),
                last_update_at: now,
                completion: child.snapshot.completion,
                ..before.snapshot
            })
            &&& !child.has_abort_handle
            &&& child.snapshot.completion matches Some(completion) && !completion.success
                && completion.error == Some("Child session cancelled by parent request"@)
                && completion.artifacts.len() == 0
            &&& before.has_abort_handle ==> next.result is None && call_request(next) == Some(
                ChildRequestModel::Abort { session_id: id },
            )
            &&& !before.has_abort_handle ==> (next.result matches Some(result) && is_told(
                result,
                "cancel"@,
                child.snapshot,
            ))
        }),
{
    lemma_actions();
    let id = word_or_empty(fields, "session_id"@);
    let before = child_named(registry.sessions, id);
    lemma_place(registry.sessions, id);
    lemma_stored_child(registry.sessions, cancelled(before, cancel_reason(), now));
    let after = call_next(call, agents, registry, ChildReplyModel::Allowed(None), now).1;
    lemma_document("cancel"@, child_named(after.sessions, id).snapshot);
}

/// A step of a call touches no child but the one that it tells of: all others
/// are what they were, and none goes.
pub proof fn law_call_touches_one_child(
    agents: Seq<(Seq<char>, AgentModel)>,
    name: Seq<char>,
    fields: Fields,
    context: Option<ContextModel>,
    answers: Seq<ChildAnswer>,
    call: ChildCallModel,
    registry: ChildRegistryModel,
    reply: ChildReplyModel,
    now: int,
    other: Seq<char>,
)
    requires
        is_underway(agents, name, fields, context, answers, call),
        other != child_of(call_next(call, agents, registry, reply, now).0),
    ensures
        ({
            let after = call_next(call, agents, registry, reply, now).1;
            &&& has_child(after.sessions, other) <==> has_child(registry.sessions, other)
            &&& has_child(registry.sessions, other) ==> child_named(after.sessions, other)
                == child_named(registry.sessions, other)
        }),
{
    let begun = call_started(agents, name, fields, context)->Running_0;
    lemma_underway(agents, name, fields, context, begun, answers);
    let (next, after) = call_next(call, agents, registry, reply, now);
    lemma_place(registry.sessions, call_session(call));
    lemma_place(registry.sessions, call.spawned);
    assert forall|child: ChildModel| child.snapshot.session_id != other implies {
        &&& has_child(#[trigger] with_child(registry.sessions, child), other) <==> has_child(
            registry.sessions,
            other,
        )
        &&& has_child(registry.sessions, other) ==> child_named(
            with_child(registry.sessions, child),
            other,
        ) == child_named(registry.sessions, other)
    } by {
        lemma_others(registry.sessions, child, other);
    }
}

/// Storing a child leaves those of other names alone.
proof fn lemma_others(sessions: Seq<ChildModel>, child: ChildModel, other: Seq<char>)
    requires
        child.snapshot.session_id != other,
    ensures
        has_child(with_child(sessions, child), other) <==> has_child(sessions, other),
        has_child(sessions, other) ==> child_named(with_child(sessions, child), other)
            == child_named(sessions, other),
    decreases sessions.len(),
{
    let id = child.snapshot.session_id;
    let after = with_child(sessions, child);
    if sessions.len() == 0 {
        assert(after == seq![child]);
        assert(after.drop_first() == Seq::<ChildModel>::empty());
        assert(child_index(after.drop_first(), other) == 0);
    } else {
        let rest = sessions.drop_first();
        lemma_place(rest, id);
        lemma_place(rest, other);
        if sessions.first().snapshot.session_id == id {
            assert(after == sessions.update(0, child));
            assert(after.drop_first() == rest);
            lemma_place(after.drop_first(), other);
        } else {
            lemma_others(rest, child, other);
            assert(after.drop_first() == with_child(rest, child));
            assert(after.first() == sessions.first());
            lemma_place(with_child(rest, child), other);
            if sessions.first().snapshot.session_id != other && has_child(sessions, other) {
                assert(child_named(sessions, other) == child_named(rest, other));
                assert(child_named(after, other) == child_named(with_child(rest, child), other));
            }
        }
    }
}

/// Only a call to cancel cancels, and only the child that it names: whatever
/// call goes on, a child that is cancelled after a step of it and was not before
/// is the one that a call to cancel is about.
pub proof fn law_only_cancel_cancels(
    agents: Seq<(Seq<char>, AgentModel)>,
    name: Seq<char>,
    fields: Fields,
    context: Option<ContextModel>,
    answers: Seq<ChildAnswer>,
    call: ChildCallModel,
    registry: ChildRegistryModel,
    reply: ChildReplyModel,
    now: int,
    session_id: Seq<char>,
)
    requires
        is_underway(agents, name, fields, context, answers, call),
        has_child(registry.sessions, session_id),
        child_named(registry.sessions, session_id).snapshot.state != ChildSessionState::Cancelled,
        child_named(
            call_next(call, agents, registry, reply, now).1.sessions,
            session_id,
        ).snapshot.state == ChildSessionState::Cancelled,
    ensures
        name == "cancel"@,
        session_id == word_or_empty(fields, "session_id"@),
        is_own_child(registry, call.owner_key, session_id),
        reply == ChildReplyModel::Allowed(None),
{
    let begun = call_started(agents, name, fields, context)->Running_0;
    lemma_underway(agents, name, fields, context, begun, answers);
    let (next, after) = call_next(call, agents, registry, reply, now);
    if session_id != child_of(next) {
        law_call_touches_one_child(
            agents,
            name,
            fields,
            context,
            answers,
            call,
            registry,
            reply,
            now,
            session_id,
        );
    } else if call.action == ChildAction::Spawn {
        lemma_place(registry.sessions, session_id);
        if call.step is Spawn {
            lemma_stored_child(
                registry.sessions,
                ChildModel {
                    has_abort_handle: true,
                    ..child_named(registry.sessions, session_id)
                },
            );
        } else if call.step is Enforce && after != registry {
            let task = task_from(
                call.owner_key,
                call.context,
                word_or_empty(call.fields, "agent"@),
                agent_named(agents, word_or_empty(call.fields, "agent"@))->0,
                seconds_or_zero(child_timeout(call.fields)),
                summarized(
                    word_or_empty(call.fields, "prompt"@),
                    PROMPT_SUMMARY_LIMIT_CHARS as nat,
                ),
            );
            lemma_stored_child(
                registry.sessions,
                new_child(child_id(registry.next_id + 1), task, now),
            );
        }
    }
}

/// Whoever sets a child to work gets one of its own: it belongs to the
/// conversation that asked, it is what its agent is set up as, it may take as
/// many seconds as were given, or three hundred, and no more than nine hundred,
/// and it works from now on. Once its work has begun it can be broken off, and
/// the call tells of it.
pub proof fn law_spawn_sets_a_child_to_work(
    agents: Seq<(Seq<char>, AgentModel)>,
    fields: Fields,
    context: Option<ContextModel>,
    call: ChildCallModel,
    registry: ChildRegistryModel,
    now: int,
    agent: AgentModel,
)
    requires
        is_underway(agents, "spawn"@, fields, context, seq![], call),
        agent_named(agents, word_or_empty(fields, "agent"@)) == Some(agent),
    ensures
        ({
            let (next, after) = call_next(
                call,
                agents,
                registry,
                ChildReplyModel::Allowed(None),
                now,
            );
            let id = next.spawned;
            let child = child_named(after.sessions, id);
            &&& next.result is None
            &&& id == child_id(registry.next_id + 1)
            &&& registry.next_id < u64::MAX ==> after.next_id == registry.next_id + 1
            &&& has_child(after.sessions, id)
            &&& !child.has_abort_handle
            &&& child.snapshot == (ChildSnapshotModel {
                session_id: id,
                owner_key: (context->0).owner_key->0,
                agent_name: word_or_empty(fields, "agent"@),
                provider: agent.provider,
                model: agent.model,
                allowed_tools: agent.allowed_tools,
                max_depth: agent.max_depth,
                max_iterations: agent.max_iterations,
                timeout_secs: seconds_given(fields, "timeout_secs"@, 300, 900)->0,
                prompt_summary: summarized(word_or_empty(fields, "prompt"@), 160),
                channel_name: (context->0).channel_name,
                reply_target: (context->0).reply_target,
                started_at: now,
                last_update_at: now,
                completed_at: None,
                state: ChildSessionState::Running,
                completion: None,
            })
            &&& forall|later: ChildRegistryModel, then: int|
                has_child(later.sessions, id) ==> {
                    let (done, end) = #[trigger] call_next(
                        next,
                        agents,
                        later,
                        ChildReplyModel::Done,
                        then,
                    );
                    &&& has_child(end.sessions, id)
                    &&& child_named(end.sessions, id) == (ChildModel {
                        has_abort_handle: true,
                        ..child_named(later.sessions, id)
                    })
                    &&& done.result matches Some(result) && is_told(
                        result,
                        "spawn"@,
                        child_named(end.sessions, id).snapshot,
                    )
                }
        }),
{
    lemma_actions();
    let begun = call_started(agents, "spawn"@, fields, context)->Running_0;
    assert(call == begun);
    let task = task_from(
        call.owner_key,
        call.context,
        word_or_empty(call.fields, "agent"@),
        agent,
        seconds_or_zero(child_timeout(call.fields)),
        summarized(
            word_or_empty(call.fields, "prompt"@),
            PROMPT_SUMMARY_LIMIT_CHARS as nat,
        ),
    );
    lemma_stored_child(
        registry.sessions,
        new_child(child_id(registry.next_id + 1), task, now),
    );
    let (next, after) = call_next(call, agents, registry, ChildReplyModel::Allowed(None), now);
    let id = next.spawned;
    assert forall|later: ChildRegistryModel, then: int| has_child(later.sessions, id) implies {
        let (done, end) = #[trigger] call_next(
            next,
            agents,
            later,
            ChildReplyModel::Done,
            then,
        );
        &&& has_child(end.sessions, id)
        &&& child_named(end.sessions, id) == (ChildModel {
            has_abort_handle: true,
            ..child_named(later.sessions, id)
        })
        &&& done.result matches Some(result) && is_told(
            result,
            "spawn"@,
            child_named(end.sessions, id).snapshot,
        )
    } by {
        lemma_place(later.sessions, id);
        lemma_stored_child(
            later.sessions,
            ChildModel { has_abort_handle: true, ..child_named(later.sessions, id) },
        );
        lemma_document("spawn"@, child_named(later.sessions, id).snapshot);
    }
}

/// A call begins if and only if it names an action that there is and comes from
/// a conversation, and, where it sets a child to work, says which agent is to do
/// what in how many seconds, and the agent is one that may. Otherwise it fails
/// at once.
pub proof fn law_call_begins_if_it_can(
    agents: Seq<(Seq<char>, AgentModel)>,
    name: Seq<char>,
    fields: Fields,
    context: Option<ContextModel>,
)
    ensures
        call_started(agents, name, fields, context) is Running <==> {
            &&& name == "spawn"@ || name == "status"@ || name == "wait"@ || name == "cancel"@
            &&& context matches Some(given) && given.owner_key is Some
            &&& name == "spawn"@ ==> {
                &&& word_in(fields, "agent"@) is Some
                &&& word_in(fields, "prompt"@) is Some
                &&& seconds_given(fields, "timeout_secs"@, 300, 900) is Some
                &&& agent_named(agents, word_or_empty(fields, "agent"@)) matches Some(agent)
                    && agent.max_depth > 0 && agent.max_iterations > 0 && (agent.agentic
                    ==> agent.allowed_tools.len() > 0)
            }
        },
        call_started(agents, name, fields, context) matches ChildStartModel::Finished(result)
            ==> !result.success && result.output.len() == 0 && result.error is Some,
{
    lemma_actions();
}

/// Whether a completion keeps of a text its beginning, and the paths of the
/// workspace that it mentions.
pub open spec fn is_kept_of(
    completion: CompletionModel,
    text: Seq<char>,
    workspace: Seq<char>,
) -> bool {
    &&& completion.summary == summarized(text, 1200)
    &&& completion.artifacts == workspace_paths(words(text), workspace)
}

/// What becomes of a child when its work ends, if it was at work: it has
/// completed or failed as its result says, and what went wrong is kept; where it
/// took too long, that is said. What had ended before stays as it was, and no
/// other child is touched.
pub proof fn law_end_of_work_is_kept(
    registry: ChildRegistryModel,
    session_id: Seq<char>,
    outcome: DelegateModel,
    workspace: Seq<char>,
    now: int,
    other: Seq<char>,
)
    requires
        has_child(registry.sessions, session_id),
        other != session_id,
    ensures
        ({
            let before = child_named(registry.sessions, session_id).snapshot;
            let after = with_delegate_ended(registry, session_id, outcome, workspace, now);
            let child = child_named(after.sessions, session_id).snapshot;
            &&& has_child(after.sessions, session_id)
            &&& after.next_id == registry.next_id
            &&& has_child(after.sessions, other) <==> has_child(registry.sessions, other)
            &&& has_child(registry.sessions, other) ==> child_named(after.sessions, other)
                == child_named(registry.sessions, other)
            &&& before.state != ChildSessionState::Running ==> child == before
            &&& before.state == ChildSessionState::Running ==> {
                &&& child == (ChildSnapshotModel {
                    state: child.state,
                    completion: child.completion,
                    completed_at: Some(now),
                    last_update_at: now,
                    ..before
                })
                &&& child.completion matches Some(completion) && match outcome {
                    DelegateModel::Finished(result) => {
                        &&& child.state == (if result.success {
                            ChildSessionState::Completed
                        } else {
                            ChildSessionState::Failed
                        })
                        &&& completion.success == result.success
                        &&& completion.error == result.error
                        &&& is_kept_of(
                            completion,
                            if result.success {
                                result.output
                            } else if result.error is Some {
                                result.error->0
                            } else {
                                "child session failed"@
                            },
                            workspace,
                        )
                    },
                    DelegateModel::Failed { reason } => {
                        &&& child.state == ChildSessionState::Failed
                        &&& !completion.success
                        &&& completion.error == Some(reason)
                        &&& is_kept_of(completion, reason, workspace)
                    },
                    DelegateModel::TimedOut => {
                        &&& child.state == ChildSessionState::TimedOut
                        &&& !completion.success
                        &&& completion.error == Some(
                            "timed out after "@ + decimal(before.timeout_secs as nat) + "s"@,
                        )
                        &&& completion.artifacts.len() == 0
                    },
                }
            }
        }),
{
    lemma_place(registry.sessions, session_id);
    let before = child_named(registry.sessions, session_id);
    let ended = after_delegate(before, outcome, workspace, now);
    lemma_stored_child(registry.sessions, ended);
    lemma_others(registry.sessions, ended, other);
}

/// A child that there is not, or that another conversation owns, is answered as
/// one that there is not, whatever is to be done with it; and nothing is changed.
pub proof fn law_unknown_child_is_not_found(
    agents: Seq<(Seq<char>, AgentModel)>,
    name: Seq<char>,
    fields: Fields,
    context: Option<ContextModel>,
    call: ChildCallModel,
    registry: ChildRegistryModel,
    now: int,
)
    requires
        is_underway(agents, name, fields, context, seq![], call),
        name != "spawn"@,
        name == "wait"@ ==> seconds_given(fields, "wait_timeout_secs"@, 30, 300) is Some,
        word_in(fields, "session_id"@) is Some,
        !is_own_child(registry, call.owner_key, word_or_empty(fields, "session_id"@)),
    ensures
        ({
            let (next, after) = call_next(
                call,
                agents,
                registry,
                ChildReplyModel::Allowed(None),
                now,
            );
            &&& after == registry
            &&& next.result matches Some(result) && is_not_found(
                result,
                word_or_empty(fields, "session_id"@),
            )
        }),
{
    lemma_actions();
}

/// Whoever looks after a child has to name it, and whoever waits for one has to
/// say a number of seconds that is allowed; otherwise the call fails and says
/// why, and nothing is changed.
pub proof fn law_child_has_to_be_named(
    agents: Seq<(Seq<char>, AgentModel)>,
    name: Seq<char>,
    fields: Fields,
    context: Option<ContextModel>,
    call: ChildCallModel,
    registry: ChildRegistryModel,
    now: int,
)
    requires
        is_underway(agents, name, fields, context, seq![], call),
        name != "spawn"@,
    ensures
        ({
            let (next, after) = call_next(
                call,
                agents,
                registry,
                ChildReplyModel::Allowed(None),
                now,
            );
            let seconds = seconds_given(fields, "wait_timeout_secs"@, 30, 300);
            &&& name == "wait"@ && seconds is None ==> after == registry && (
            next.result matches Some(result) && is_error(
                result,
                if argument_in(fields, "wait_timeout_secs"@) is Count {
                    "'"@ + "wait_timeout_secs"@ + "' must be between 1 and "@ + decimal(300)
                } else {
                    "'"@ + "wait_timeout_secs"@ + "' must be an integer >= 1"@
                },
            ))
            &&& !(name == "wait"@ && seconds is None) && word_in(fields, "session_id"@) is None
                ==> after == registry && (next.result matches Some(result) && is_error(
                result,
                "Missing 'session_id' parameter"@,
            ))
        }),
{
    lemma_actions();
}

/// The first thing that a call asks is whether the policy lets it do what it is
/// about to do: to look, or to act. If not, it fails with the reason, and
/// nothing is changed.
pub proof fn law_policy_is_asked_first(
    agents: Seq<(Seq<char>, AgentModel)>,
    name: Seq<char>,
    fields: Fields,
    context: Option<ContextModel>,
    call: ChildCallModel,
    registry: ChildRegistryModel,
    reason: Seq<char>,
    now: int,
)
    requires
        is_underway(agents, name, fields, context, seq![], call),
    ensures
        call_request(call) == Some(
            ChildRequestModel::Enforce {
                operation: if name == "spawn"@ || name == "cancel"@ {
                    ToolOperation::Act
                } else {
                    ToolOperation::Read
                },
                name: "child_session."@ + name,
            },
        ),
        ({
            let (next, after) = call_next(
                call,
                agents,
                registry,
                ChildReplyModel::Allowed(Some(reason)),
                now,
            );
            &&& after == registry
            &&& next.result matches Some(result) && is_error(result, reason)
        }),
{
    lemma_actions();
    reveal_strlit("child_session.");
    reveal_strlit("spawn");
    reveal_strlit("status");
    reveal_strlit("wait");
    reveal_strlit("cancel");
    reveal_strlit("child_session.spawn");
    reveal_strlit("child_session.status");
    reveal_strlit("child_session.wait");
    reveal_strlit("child_session.cancel");
    assert("child_session."@ + "spawn"@ =~= "child_session.spawn"@);
    assert("child_session."@ + "status"@ =~= "child_session.status"@);
    assert("child_session."@ + "wait"@ =~= "child_session.wait"@);
    assert("child_session."@ + "cancel"@ =~= "child_session.cancel"@);
}

/// A child is found if there is one of that name.
pub proof fn law_lookup_finds_the_child(sessions: Seq<ChildModel>, session_id: Seq<char>)
    ensures
        has_child(sessions, session_id) <==> exists|i: int|
            0 <= i < sessions.len() && (#[trigger] sessions[i]).snapshot.session_id == session_id,
        has_child(sessions, session_id) ==> sessions.contains(child_named(sessions, session_id))
            && child_named(sessions, session_id).snapshot.session_id == session_id,
    decreases sessions.len(),
{
    lemma_place(sessions, session_id);
    if sessions.len() > 0 && sessions.first().snapshot.session_id != session_id {
        let rest = sessions.drop_first();
        law_lookup_finds_the_child(rest, session_id);
        assert(forall|i: int| 0 <= i < rest.len() ==> #[trigger] rest[i] == sessions[i + 1]);
        if has_child(rest, session_id) {
            let i = choose|i: int|
                0 <= i < rest.len() && (#[trigger] rest[i]).snapshot.session_id == session_id;
            assert(sessions[i + 1].snapshot.session_id == session_id);
        }
        if exists|i: int|
            0 <= i < sessions.len() && (#[trigger] sessions[i]).snapshot.session_id
                == session_id {
            let i = choose|i: int|
                0 <= i < sessions.len() && (#[trigger] sessions[i]).snapshot.session_id
                    == session_id;
            assert(sessions[0] == sessions.first());
            assert(rest[i - 1].snapshot.session_id == session_id);
        }
    } else if sessions.len() > 0 {
        assert(sessions[0].snapshot.session_id == session_id);
    }
    if has_child(sessions, session_id) {
        assert(sessions[child_index(sessions, session_id)] == child_named(sessions, session_id));
    }
}

/// A delegate is called with the agent, the prompt and the context that it is
/// given, each under its name.
pub proof fn law_delegate_is_told_its_task(
    agent: Seq<char>,
    prompt: Seq<char>,
    context: Seq<char>,
)
    ensures
        holds(delegate_fields(agent, prompt, context), "agent"@, JsonModel::Text(agent)),
        holds(delegate_fields(agent, prompt, context), "prompt"@, JsonModel::Text(prompt)),
        holds(delegate_fields(agent, prompt, context), "context"@, JsonModel::Text(context)),
{
    reveal_strlit("agent");
    reveal_strlit("prompt");
    reveal_strlit("context");
    assert("agent"@.len() == 5 && "prompt"@.len() == 6 && "context"@.len() == 7);
}

} // verus!
