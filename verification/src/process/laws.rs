//! What holds of calls of the process tool.

use crate::host::json::{flag_in, word_in, word_or_empty, Fields};
use crate::host::tool::{ContextModel, ToolOperation};
use crate::process::protocol::{ProcessReplyModel, ProcessRequestModel};
use crate::process::tool::{
    acting, after_cleanup, call_next, call_request, call_session, call_started, failed_session,
    is_settled, killing, lemma_settled_step, operation_name, telling_poll, written, CallModel,
    CallStep, ProcessAction, ProcessStartModel, ProcessToolModel,
};
use crate::process_sessions::cleanup::cleanup_next;
use crate::process_sessions::errors::SessionErrorModel;
use crate::process_sessions::laws::law_change_is_local;
use crate::process_sessions::registry::{
    forgetting, has_session, is_busy, lemma_session_index, lemma_stored_session, owned_session,
    process_id, session_index, session_named, storing, with_written, RegistryModel,
};
use crate::process_sessions::session::{
    after_write, kill_next, refreshed, unlisted, with_stdin_closed, KillReplyModel, KillStep,
    ProbeModel, SessionModel, StdinWriteModel,
};
use vstd::prelude::*;

verus! {

/// An answer to a call: what the registry was like when it came, what it says,
/// and when it came.
pub struct CallAnswer {
    pub registry: RegistryModel,
    pub reply: ProcessReplyModel,
    pub now: int,
}

/// A call after so many answers, whatever else went on in the registry meanwhile.
#[verifier::opaque]
pub open spec fn call_after(call: CallModel, tool: ProcessToolModel, answers: Seq<CallAnswer>) -> CallModel
    decreases answers.len(),
{
    if answers.len() == 0 {
        call
    } else {
        let last = answers.last();
        call_next(
            call_after(call, tool, answers.drop_last()),
            tool,
            last.registry,
            last.reply,
            last.now,
        ).0
    }
}

/// Whether the call asked this on the way, and got that answer.
pub open spec fn was_answered(
    call: CallModel,
    tool: ProcessToolModel,
    answers: Seq<CallAnswer>,
    request: ProcessRequestModel,
    reply: ProcessReplyModel,
) -> bool {
    exists|i: int|
        0 <= i < answers.len() && (#[trigger] answers[i]).reply == reply && call_request(
            call_after(call, tool, answers.take(i)),
            tool,
        ) == Some(request)
}

/// What has been answered stays answered.
proof fn lemma_still_answered(
    call: CallModel,
    tool: ProcessToolModel,
    answers: Seq<CallAnswer>,
    request: ProcessRequestModel,
    reply: ProcessReplyModel,
)
    requires
        answers.len() > 0,
        was_answered(call, tool, answers.drop_last(), request, reply),
    ensures
        was_answered(call, tool, answers, request, reply),
{
    let shorter = answers.drop_last();
    let i = choose|i: int|
        0 <= i < shorter.len() && (#[trigger] shorter[i]).reply == reply && call_request(
            call_after(call, tool, shorter.take(i)),
            tool,
        ) == Some(request);
    assert(answers[i] == shorter[i]);
    assert(answers.take(i) == shorter.take(i));
}

/// The last answer was given to the question that was open.
proof fn lemma_last_answered(call: CallModel, tool: ProcessToolModel, answers: Seq<CallAnswer>)
    requires
        answers.len() > 0,
    ensures
        call_request(call_after(call, tool, answers.drop_last()), tool) matches Some(request)
            ==> was_answered(call, tool, answers, request, answers.last().reply),
{
    let i = answers.len() - 1;
    assert(answers.take(i) == answers.drop_last());
    assert(answers[i] == answers.last());
}

/// How far a start has come.
spec fn start_rank(step: CallStep) -> int {
    match step {
        CallStep::RateLimited => 1,
        CallStep::Validate => 2,
        CallStep::Forbidden => 3,
        CallStep::Record => 4,
        CallStep::Build => 5,
        CallStep::Spawn => 6,
        _ => 0,
    }
}

/// What a start that has come so far was told.
spec fn is_start_sound(
    call: CallModel,
    tool: ProcessToolModel,
    answers: Seq<CallAnswer>,
    rank: int,
) -> bool {
    let command = word_or_empty(call.fields, "command"@);
    &&& rank >= 2 ==> was_answered(
        call,
        tool,
        answers,
        ProcessRequestModel::RateLimited,
        ProcessReplyModel::Flag(false),
    )
    &&& rank >= 3 ==> was_answered(
        call,
        tool,
        answers,
        ProcessRequestModel::ValidateCommand {
            command,
            approved: flag_in(call.fields, "approved"@),
        },
        ProcessReplyModel::Done(None),
    )
    &&& rank >= 4 ==> was_answered(
        call,
        tool,
        answers,
        ProcessRequestModel::ForbiddenPath { command },
        ProcessReplyModel::Path(None),
    )
    &&& rank >= 5 ==> was_answered(
        call,
        tool,
        answers,
        ProcessRequestModel::RecordAction,
        ProcessReplyModel::Flag(true),
    )
    &&& rank >= 6 ==> was_answered(
        call,
        tool,
        answers,
        ProcessRequestModel::BuildCommand { command, workspace_dir: tool.security.workspace_dir },
        ProcessReplyModel::Done(None),
    )
}

/// What an action that has come so far was told.
spec fn is_act_sound(
    call: CallModel,
    tool: ProcessToolModel,
    answers: Seq<CallAnswer>,
    step: CallStep,
) -> bool {
    step is Write || step is Kill ==> was_answered(
        call,
        tool,
        answers,
        ProcessRequestModel::Enforce {
            operation: ToolOperation::Act,
            name: operation_name(call.action),
        },
        ProcessReplyModel::Done(None),
    )
}

/// Whether two states are of the same call.
spec fn is_same_call(call: CallModel, next: CallModel) -> bool {
    next.fields == call.fields && next.action == call.action && next.owner_key == call.owner_key
}

/// Behind the clean-up a call ends, or asks a first question.
proof fn lemma_after_cleanup(call: CallModel, tool: ProcessToolModel, registry: RegistryModel)
    ensures
        is_same_call(call, after_cleanup(call, tool, registry)),
        start_rank(after_cleanup(call, tool, registry).step) <= 1,
        !(after_cleanup(call, tool, registry).step is Write),
        !(after_cleanup(call, tool, registry).step is Kill),
{
}

/// The policy let the call act: it ends, writes or kills.
proof fn lemma_acting(call: CallModel, registry: RegistryModel, now: int)
    ensures
        is_same_call(call, acting(call, registry, now).0),
        start_rank(acting(call, registry, now).0.step) == 0,
{
}

/// Killing goes on, or the call ends.
proof fn lemma_killing(
    call: CallModel,
    registry: RegistryModel,
    step: KillStep,
    reply: KillReplyModel,
    now: int,
)
    ensures
        is_same_call(call, killing(call, registry, step, reply, now).0),
        start_rank(killing(call, registry, step, reply, now).0.step) == 0,
{
}

/// What was written, the call tells of.
proof fn lemma_written(call: CallModel, registry: RegistryModel, write: StdinWriteModel, now: int)
    ensures
        is_same_call(call, written(call, registry, write, now).0),
        written(call, registry, write, now).0.step is Finished,
{
}

/// What has come since its cursors, the call tells of.
proof fn lemma_polling(call: CallModel, registry: RegistryModel, probe: ProbeModel, now: int)
    requires
        call.step is Poll,
    ensures
        is_same_call(call, telling_poll(call, registry, probe, now)),
        telling_poll(call, registry, probe, now).step is Finished || telling_poll(
            call,
            registry,
            probe,
            now,
        ).step is Poll,
{
}

/// What one answer can bring about.
#[verifier::rlimit(40)]
proof fn lemma_step(call: CallModel, tool: ProcessToolModel, answer: CallAnswer, next: CallModel)
    requires
        next == call_next(call, tool, answer.registry, answer.reply, answer.now).0,
    ensures
        is_same_call(call, next),
        is_caused(call.step, answer.reply, next.step),
{
    let registry = answer.registry;
    let now = answer.now;
    match (call.step, answer.reply) {
        (CallStep::Cleanup, ProcessReplyModel::Session(reply)) => {
            let (cleanup, after) = cleanup_next(call.cleanup, registry, reply, now);
            lemma_after_cleanup(CallModel { cleanup, ..call }, tool, after);
        },
        (CallStep::Enforce, _) => lemma_acting(call, registry, now),
        (CallStep::Kill { step }, ProcessReplyModel::Session(reply)) => lemma_killing(
            call,
            registry,
            step,
            reply,
            now,
        ),
        (CallStep::Write, ProcessReplyModel::Written(write)) => lemma_written(
            call,
            registry,
            write,
            now,
        ),
        (CallStep::Poll, ProcessReplyModel::Session(KillReplyModel::Probed(probe))) => {
            lemma_polling(call, registry, probe, now);
        },
        _ => {},
    }
}

/// Whether one answer can lead from one step to another: a start goes through
/// its checks in order, and what acts was let act.
spec fn is_caused(step: CallStep, reply: ProcessReplyModel, next: CallStep) -> bool {
    &&& start_rank(next) <= 1 || start_rank(next) == start_rank(step) || match step {
        CallStep::RateLimited => next is Validate && reply == ProcessReplyModel::Flag(false),
        CallStep::Validate => next is Forbidden && reply == ProcessReplyModel::Done(None),
        CallStep::Forbidden => next is Record && reply == ProcessReplyModel::Path(None),
        CallStep::Record => next is Build && reply == ProcessReplyModel::Flag(true),
        CallStep::Build => next is Spawn && reply == ProcessReplyModel::Done(None),
        _ => false,
    }
    &&& next is Write || next is Kill ==> step is Write || step is Kill || (step is Enforce
        && reply == ProcessReplyModel::Done(None))
}

/// What the last answer brought about.
#[verifier::rlimit(40)]
proof fn lemma_last_step(call: CallModel, tool: ProcessToolModel, answers: Seq<CallAnswer>)
    requires
        answers.len() > 0,
    ensures
        is_same_call(
            call_after(call, tool, answers.drop_last()),
            call_after(call, tool, answers),
        ),
        is_caused(
            call_after(call, tool, answers.drop_last()).step,
            answers.last().reply,
            call_after(call, tool, answers).step,
        ),
{
    reveal(call_after);
    lemma_step(
        call_after(call, tool, answers.drop_last()),
        tool,
        answers.last(),
        call_after(call, tool, answers),
    );
}

/// The call without any answer.
proof fn lemma_call_before(call: CallModel, tool: ProcessToolModel, answers: Seq<CallAnswer>)
    requires
        answers.len() == 0,
    ensures
        call_after(call, tool, answers) == call,
{
    reveal(call_after);
}

/// What was told on the way to a step was told on the way to a later one.
proof fn lemma_start_sound_longer(
    call: CallModel,
    tool: ProcessToolModel,
    answers: Seq<CallAnswer>,
    rank: int,
)
    requires
        answers.len() > 0,
        is_start_sound(call, tool, answers.drop_last(), rank),
    ensures
        is_start_sound(call, tool, answers, rank),
{
    let command = word_or_empty(call.fields, "command"@);
    let approved = flag_in(call.fields, "approved"@);
    let workspace_dir = tool.security.workspace_dir;
    if rank >= 2 {
        lemma_still_answered(
            call,
            tool,
            answers,
            ProcessRequestModel::RateLimited,
            ProcessReplyModel::Flag(false),
        );
    }
    if rank >= 3 {
        lemma_still_answered(
            call,
            tool,
            answers,
            ProcessRequestModel::ValidateCommand { command, approved },
            ProcessReplyModel::Done(None),
        );
    }
    if rank >= 4 {
        lemma_still_answered(
            call,
            tool,
            answers,
            ProcessRequestModel::ForbiddenPath { command },
            ProcessReplyModel::Path(None),
        );
    }
    if rank >= 5 {
        lemma_still_answered(
            call,
            tool,
            answers,
            ProcessRequestModel::RecordAction,
            ProcessReplyModel::Flag(true),
        );
    }
    if rank >= 6 {
        lemma_still_answered(
            call,
            tool,
            answers,
            ProcessRequestModel::BuildCommand { command, workspace_dir },
            ProcessReplyModel::Done(None),
        );
    }
}

/// What a call asks at the steps that matter.
proof fn lemma_requests(call: CallModel, tool: ProcessToolModel)
    ensures
        start_rank(call.step) == 1 ==> call_request(call, tool) == Some(
            ProcessRequestModel::RateLimited,
        ),
        start_rank(call.step) == 2 ==> call_request(call, tool) == Some(
            ProcessRequestModel::ValidateCommand {
                command: word_or_empty(call.fields, "command"@),
                approved: flag_in(call.fields, "approved"@),
            },
        ),
        start_rank(call.step) == 3 ==> call_request(call, tool) == Some(
            ProcessRequestModel::ForbiddenPath {
                command: word_or_empty(call.fields, "command"@),
            },
        ),
        start_rank(call.step) == 4 ==> call_request(call, tool) == Some(
            ProcessRequestModel::RecordAction,
        ),
        start_rank(call.step) == 5 ==> call_request(call, tool) == Some(
            ProcessRequestModel::BuildCommand {
                command: word_or_empty(call.fields, "command"@),
                workspace_dir: tool.security.workspace_dir,
            },
        ),
        call.step is Enforce ==> call_request(call, tool) == Some(
            ProcessRequestModel::Enforce {
                operation: ToolOperation::Act,
                name: operation_name(call.action),
            },
        ),
{
}

/// What holds of a call after one answer more.
proof fn lemma_sound_step(
    call: CallModel,
    tool: ProcessToolModel,
    answers: Seq<CallAnswer>,
    before: CallModel,
    after: CallModel,
)
    requires
        answers.len() > 0,
        before == call_after(call, tool, answers.drop_last()),
        after.action == before.action,
        before.fields == call.fields,
        before.action == call.action,
        is_start_sound(call, tool, answers.drop_last(), start_rank(before.step)),
        is_act_sound(call, tool, answers.drop_last(), before.step),
        is_caused(before.step, answers.last().reply, after.step),
    ensures
        is_start_sound(call, tool, answers, start_rank(after.step)),
        is_act_sound(call, tool, answers, after.step),
{
    lemma_start_sound_longer(call, tool, answers, start_rank(before.step));
    lemma_last_answered(call, tool, answers);
    lemma_requests(before, tool);
    if before.step is Write || before.step is Kill {
        lemma_still_answered(
            call,
            tool,
            answers,
            ProcessRequestModel::Enforce {
                operation: ToolOperation::Act,
                name: operation_name(call.action),
            },
            ProcessReplyModel::Done(None),
        );
    }
}

/// What holds of a call at any time.
proof fn lemma_sound(call: CallModel, tool: ProcessToolModel, answers: Seq<CallAnswer>)
    requires
        start_rank(call.step) <= 1,
        !(call.step is Write),
        !(call.step is Kill),
    ensures
        call_after(call, tool, answers).fields == call.fields,
        call_after(call, tool, answers).action == call.action,
        is_start_sound(call, tool, answers, start_rank(call_after(call, tool, answers).step)),
        is_act_sound(call, tool, answers, call_after(call, tool, answers).step),
    decreases answers.len(),
{
    if answers.len() == 0 {
        lemma_call_before(call, tool, answers);
    } else {
        let before = call_after(call, tool, answers.drop_last());
        let after = call_after(call, tool, answers);
        lemma_sound(call, tool, answers.drop_last());
        lemma_last_step(call, tool, answers);
        lemma_sound_step(call, tool, answers, before, after);
    }
}

/// A process is started only after the agent was found not to act too often,
/// the policy let the command run and found no forbidden path in it, the action
/// was counted, and the command was made ready.
pub proof fn law_start_is_checked(
    call: CallModel,
    tool: ProcessToolModel,
    answers: Seq<CallAnswer>,
)
    requires
        call.step is Cleanup || call.step is RateLimited,
        call_after(call, tool, answers).step is Spawn,
    ensures
        was_answered(
            call,
            tool,
            answers,
            ProcessRequestModel::RateLimited,
            ProcessReplyModel::Flag(false),
        ),
        was_answered(
            call,
            tool,
            answers,
            ProcessRequestModel::ValidateCommand {
                command: word_or_empty(call.fields, "command"@),
                approved: flag_in(call.fields, "approved"@),
            },
            ProcessReplyModel::Done(None),
        ),
        was_answered(
            call,
            tool,
            answers,
            ProcessRequestModel::ForbiddenPath {
                command: word_or_empty(call.fields, "command"@),
            },
            ProcessReplyModel::Path(None),
        ),
        was_answered(
            call,
            tool,
            answers,
            ProcessRequestModel::RecordAction,
            ProcessReplyModel::Flag(true),
        ),
        was_answered(
            call,
            tool,
            answers,
            ProcessRequestModel::BuildCommand {
                command: word_or_empty(call.fields, "command"@),
                workspace_dir: tool.security.workspace_dir,
            },
            ProcessReplyModel::Done(None),
        ),
{
    lemma_sound(call, tool, answers);
}

/// A call writes to a process or kills it only after the policy let it act.
pub proof fn law_action_is_checked(
    call: CallModel,
    tool: ProcessToolModel,
    answers: Seq<CallAnswer>,
)
    requires
        call.step is Cleanup || call.step is Enforce,
        call_after(call, tool, answers).step is Write || call_after(call, tool, answers).step is Kill,
    ensures
        was_answered(
            call,
            tool,
            answers,
            ProcessRequestModel::Enforce {
                operation: ToolOperation::Act,
                name: operation_name(call.action),
            },
            ProcessReplyModel::Done(None),
        ),
{
    lemma_sound(call, tool, answers);
}

/// A session of another conversation is answered as one that does not exist:
/// the call fails before it looks at the session or changes anything.
pub proof fn law_foreign_session_is_not_found(
    call: CallModel,
    tool: ProcessToolModel,
    registry: RegistryModel,
    now: int,
)
    requires
        owned_session(registry, call.owner_key, call_session(call)) is None,
        call.action != ProcessAction::Start,
    ensures
        !(after_cleanup(call, tool, registry).step is Refresh),
        !(after_cleanup(call, tool, registry).step is Poll),
        acting(call, registry, now) == (
            failed_session(
                call,
                SessionErrorModel::SessionNotFound { session_id: call_session(call) },
            ),
            registry,
        ),
        call.action == ProcessAction::Status || call.action == ProcessAction::Log
            ==> word_in(call.fields, "session_id"@) is Some ==> after_cleanup(
            call,
            tool,
            registry,
        ) == failed_session(
            call,
            SessionErrorModel::SessionNotFound { session_id: call_session(call) },
        ),
{
}

/// A call asks something until it has its outcome.
proof fn lemma_settled(call: CallModel, tool: ProcessToolModel, answers: Seq<CallAnswer>)
    requires
        is_settled(call),
    ensures
        is_settled(call_after(call, tool, answers)),
    decreases answers.len(),
{
    if answers.len() == 0 {
        lemma_call_before(call, tool, answers);
    } else {
        lemma_settled(call, tool, answers.drop_last());
        reveal(call_after);
        let last = answers.last();
        lemma_settled_step(
            call_after(call, tool, answers.drop_last()),
            tool,
            last.registry,
            last.reply,
            last.now,
        );
    }
}

/// A call that does not ask for anything has its outcome, whatever it was
/// answered and whatever else went on meanwhile.
pub proof fn law_call_ends_with_an_outcome(
    tool: ProcessToolModel,
    registry: RegistryModel,
    name: Seq<char>,
    fields: Fields,
    context: Option<ContextModel>,
    now: int,
    call: CallModel,
    answers: Seq<CallAnswer>,
)
    requires
        call_started(tool, registry, name, fields, context, now) == ProcessStartModel::Running(
            call,
        ),
    ensures
        call_request(call_after(call, tool, answers), tool) is None ==> call_after(
            call,
            tool,
            answers,
        ).result is Some,
{
    lemma_settled(call, tool, answers);
}

/// A call that is at work on a session goes on and answers the same way if the
/// session is forgotten meanwhile.
pub proof fn law_call_outlives_its_listing(
    call: CallModel,
    tool: ProcessToolModel,
    registry: RegistryModel,
    reply: ProcessReplyModel,
    now: int,
)
    requires
        call.step is Refresh || call.step is Poll || call.step is Write || call.step is Kill,
    ensures
        call_next(call, tool, forgetting(registry, call_session(call)), reply, now).0 == call_next(
            call,
            tool,
            registry,
            reply,
            now,
        ).0,
{
    let id = call_session(call);
    if has_session(registry.sessions, id) {
        let session = session_named(registry.sessions, id);
        lemma_session_index(registry.sessions, id);
        let away = forgetting(registry, id);
        lemma_stored_session(registry.sessions, unlisted(session));
        match (call.step, reply) {
            (CallStep::Refresh, ProcessReplyModel::Session(KillReplyModel::Probed(probe))) => {
                lemma_stored_session(registry.sessions, refreshed(session, probe, now));
                lemma_stored_session(away.sessions, refreshed(unlisted(session), probe, now));
            },
            (CallStep::Write, ProcessReplyModel::Written(write)) => {
                let written = after_write(session, write, now);
                let written_away = after_write(unlisted(session), write, now);
                lemma_stored_session(registry.sessions, written);
                lemma_stored_session(away.sessions, written_away);
                lemma_stored_session(
                    with_written(registry, id, write, now).sessions,
                    with_stdin_closed(written, now),
                );
                lemma_stored_session(
                    with_written(away, id, write, now).sessions,
                    with_stdin_closed(written_away, now),
                );
            },
            (CallStep::Kill { step }, ProcessReplyModel::Session(reply)) => {
                lemma_stored_session(registry.sessions, kill_next(session, step, reply, now).0);
                lemma_stored_session(away.sessions, kill_next(unlisted(session), step, reply, now).0);
            },
            _ => {},
        }
    }
}

/// While somebody else is killing the process of its session, a call that looks
/// at the process or wants to kill it too stays where it is, and changes nothing.
pub proof fn law_others_wait_for_the_killer(
    call: CallModel,
    tool: ProcessToolModel,
    registry: RegistryModel,
    reply: KillReplyModel,
    now: int,
)
    requires
        is_busy(registry, call_session(call)),
        call.step is Refresh || call.step is Poll || call.step == (CallStep::Kill {
            step: KillStep::Queue,
        }),
    ensures
        call_next(call, tool, registry, ProcessReplyModel::Session(reply), now) == (call, registry),
{
    let id = call_session(call);
    let at = session_index(registry.sessions, id);
    lemma_session_index(registry.sessions, id);
    assert(registry.sessions.update(at, registry.sessions[at]) == registry.sessions);
    assert(storing(registry, session_named(registry.sessions, id)) == registry);
}

/// Storing a session leaves the sessions of other names alone.
proof fn lemma_others_stay(registry: RegistryModel, session: SessionModel, other: Seq<char>)
    requires
        other != session.session_id,
    ensures
        has_session(storing(registry, session).sessions, other) <==> has_session(
            registry.sessions,
            other,
        ),
        has_session(registry.sessions, other) ==> session_named(
            storing(registry, session).sessions,
            other,
        ) == session_named(registry.sessions, other),
{
    let before = registry.sessions;
    let after = storing(registry, session).sessions;
    if has_session(before, session.session_id) {
        law_change_is_local(registry, session, other);
    } else {
        assert(after == before.push(session));
        lemma_session_index(before, other);
        lemma_session_index(after, other);
        let was = session_index(before, other);
        let is = session_index(after, other);
        assert(forall|i: int| 0 <= i < before.len() ==> #[trigger] after[i] == before[i]);
        assert(after[before.len() as int] == session);
        if has_session(before, other) {
            if is < was {
                assert(after[is].session_id == other);
                assert(before[is].session_id != other);
            }
            if is > was {
                assert(after[was].session_id != other);
                assert(before[was].session_id == other);
            }
        } else if has_session(after, other) {
            assert(after[is].session_id == other);
            assert(is < before.len());
            assert(before[is].session_id != other);
        }
    }
}

/// Once the clean-up is over, a call touches no session but its own, and the
/// one that it starts.
pub proof fn law_call_touches_one_session(
    call: CallModel,
    tool: ProcessToolModel,
    registry: RegistryModel,
    reply: ProcessReplyModel,
    now: int,
    other: Seq<char>,
)
    requires
        !(call.step is Cleanup),
        other != call_session(call),
        other != process_id(registry.next_id),
    ensures
        has_session(call_next(call, tool, registry, reply, now).1.sessions, other) <==> has_session(
            registry.sessions,
            other,
        ),
        has_session(registry.sessions, other) ==> session_named(
            call_next(call, tool, registry, reply, now).1.sessions,
            other,
        ) == session_named(registry.sessions, other),
{
    let after = call_next(call, tool, registry, reply, now).1;
    let id = call_session(call);
    lemma_session_index(registry.sessions, id);
    assert forall|session: SessionModel| session.session_id != other implies {
        &&& has_session(#[trigger] storing(registry, session).sessions, other) <==> has_session(
            registry.sessions,
            other,
        )
        &&& has_session(registry.sessions, other) ==> session_named(
            storing(registry, session).sessions,
            other,
        ) == session_named(registry.sessions, other)
    } by {
        lemma_others_stay(registry, session, other);
    }
    if let (CallStep::Write, ProcessReplyModel::Written(write)) = (call.step, reply) {
        let once = with_written(registry, id, write, now);
        lemma_session_index(once.sessions, id);
        assert forall|session: SessionModel| session.session_id != other implies {
            &&& has_session(#[trigger] storing(once, session).sessions, other) <==> has_session(
                once.sessions,
                other,
            )
            &&& has_session(once.sessions, other) ==> session_named(
                storing(once, session).sessions,
                other,
            ) == session_named(once.sessions, other)
        } by {
            lemma_others_stay(once, session, other);
        }
    }
}

} // verus!
