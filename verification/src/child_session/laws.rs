//! What holds of calls of the child session tool.

use crate::child_session::agents::{agent_error, agent_named, law_delegates_are_bounded};
use crate::child_session::registry::{
    child_id, lemma_stored_child, not_found_text, owned_child, task_from, ChildRegistryModel,
};
use crate::child_session::session::{new_child, AgentModel, ChildSessionState};
use crate::child_session::tool::{
    acting, call_next, call_request, call_session, call_started, child_timeout, failed, is_settled,
    seconds_or_zero, wait_timeout, ChildAction, ChildCallModel, ChildReplyModel, ChildRequestModel,
    ChildStartModel, ChildStep, MAX_CHILD_TIMEOUT_SECS, MAX_WAIT_TIMEOUT_SECS,
    PROMPT_SUMMARY_LIMIT_CHARS,
};
use crate::host::json::{text_or_empty, word_in, word_or_empty, Fields};
use crate::host::tool::ContextModel;
use crate::text::chars::trimmed;
use crate::text::summary::summarized;
use vstd::prelude::*;

verus! {

/// A child is set to work only for a bounded time, and only if its agent is
/// bounded.
pub proof fn law_children_are_bounded(
    agents: Seq<(Seq<char>, AgentModel)>,
    name: Seq<char>,
    fields: Fields,
    context: Option<ContextModel>,
    call: ChildCallModel,
)
    requires
        call_started(agents, name, fields, context) == ChildStartModel::Running(call),
        call.action == ChildAction::Spawn,
    ensures
        child_timeout(fields) matches Ok(secs) && 1 <= secs <= MAX_CHILD_TIMEOUT_SECS,
        agent_named(agents, word_or_empty(fields, "agent"@)) matches Some(agent) && {
            &&& agent.max_depth > 0
            &&& agent.max_iterations > 0
            &&& agent.agentic ==> agent.allowed_tools.len() > 0
        },
{
    law_delegates_are_bounded(agents, word_or_empty(fields, "agent"@));
}

/// Whoever waits for a child waits for a bounded time.
pub proof fn law_waits_are_bounded(fields: Fields, secs: u64)
    requires
        wait_timeout(fields) == Ok::<u64, Seq<char>>(secs),
    ensures
        1 <= secs <= MAX_WAIT_TIMEOUT_SECS,
{
}

/// Nothing is changed and nothing is told before the policy let the call go on.
pub proof fn law_policy_comes_first(
    call: ChildCallModel,
    agents: Seq<(Seq<char>, AgentModel)>,
    registry: ChildRegistryModel,
    reply: ChildReplyModel,
    now: int,
)
    requires
        call.step == ChildStep::Enforce,
        reply != ChildReplyModel::Allowed(None),
    ensures
        call_next(call, agents, registry, reply, now).1 == registry,
        reply matches ChildReplyModel::Allowed(Some(reason)) ==> call_next(
            call,
            agents,
            registry,
            reply,
            now,
        ).0 == failed(call, reason),
        reply == ChildReplyModel::Done ==> call_next(call, agents, registry, reply, now).0 == call,
{
}

/// A child of another conversation is answered as one that does not exist, and
/// stays as it is.
pub proof fn law_foreign_child_is_not_found(
    call: ChildCallModel,
    agents: Seq<(Seq<char>, AgentModel)>,
    registry: ChildRegistryModel,
    now: int,
)
    requires
        owned_child(registry, call.owner_key, call_session(call)) is None,
        call.action != ChildAction::Spawn,
        word_in(call.fields, "session_id"@) is Some,
        call.action == ChildAction::Wait ==> wait_timeout(call.fields) is Ok,
    ensures
        acting(call, agents, registry, now) == (
            failed(call, not_found_text(call_session(call))),
            registry,
        ),
{
}

/// A call asks something until it has its outcome: from the beginning, and
/// whatever it is answered.
pub proof fn law_call_ends_with_an_outcome(
    agents: Seq<(Seq<char>, AgentModel)>,
    name: Seq<char>,
    fields: Fields,
    context: Option<ContextModel>,
    call: ChildCallModel,
    registry: ChildRegistryModel,
    reply: ChildReplyModel,
    now: int,
)
    ensures
        call_started(agents, name, fields, context) == ChildStartModel::Running(call) ==> is_settled(
            call,
        ),
        is_settled(call) ==> is_settled(call_next(call, agents, registry, reply, now).0),
        is_settled(call) && call_request(call) is None ==> call.result is Some,
{
}

/// A child works in the conversation that asked for it, on what was asked for,
/// and for no longer than was asked for.
pub proof fn law_child_works_for_its_caller(
    agents: Seq<(Seq<char>, AgentModel)>,
    name: Seq<char>,
    fields: Fields,
    context: Option<ContextModel>,
    call: ChildCallModel,
    registry: ChildRegistryModel,
    now: int,
)
    requires
        call_started(agents, name, fields, context) == ChildStartModel::Running(call),
        call.action == ChildAction::Spawn,
    ensures
        call_request(
            call_next(call, agents, registry, ChildReplyModel::Allowed(None), now).0,
        ) == Some(
            ChildRequestModel::Spawn {
                session_id: child_id(registry.next_id + 1),
                agent: word_or_empty(fields, "agent"@),
                prompt: word_or_empty(fields, "prompt"@),
                context: trimmed(text_or_empty(fields, "context"@)),
                timeout_secs: seconds_or_zero(child_timeout(fields)),
                caller: context,
            },
        ),
{
}

/// A child that is set to work belongs to the conversation that asked for it,
/// and runs.
pub proof fn law_spawned_child_is_owned(
    call: ChildCallModel,
    agents: Seq<(Seq<char>, AgentModel)>,
    registry: ChildRegistryModel,
    now: int,
)
    requires
        call.action == ChildAction::Spawn,
        agent_error(agents, word_or_empty(call.fields, "agent"@)) is None,
    ensures
        acting(call, agents, registry, now).0.step == ChildStep::Spawn,
        owned_child(
            acting(call, agents, registry, now).1,
            call.owner_key,
            acting(call, agents, registry, now).0.spawned,
        ) matches Some(child) && child.snapshot.state == ChildSessionState::Running
            && child.snapshot.started_at == now,
{
    let (next, after) = acting(call, agents, registry, now);
    let agent = agent_named(agents, word_or_empty(call.fields, "agent"@))->0;
    let task = task_from(
        call.owner_key,
        call.context,
        word_or_empty(call.fields, "agent"@),
        agent,
        seconds_or_zero(child_timeout(call.fields)),
        summarized(
            word_or_empty(call.fields, "prompt"@),
            PROMPT_SUMMARY_LIMIT_CHARS as nat,
        ),
    );
    lemma_stored_child(
        registry.sessions,
        new_child(child_id(registry.next_id + 1), task, now),
    );
}

} // verus!
