//! What holds of process sessions as a whole.

use crate::process_sessions::errors::SessionErrorModel;
use crate::process_sessions::registry::{
    forgetting, has_session, lemma_session_index, new_registry, owned_session, process_id,
    registered_session, session_index, session_named, storing, with_registered,
    ProcessSessionRegistryLimits, RegistryModel,
};
use crate::process_sessions::session::{
    after_read, after_write, is_being_killed, kill_begun, kill_given_up, kill_next, kill_start,
    new_session, poll_outcome, refresh_outcome, refreshed, unlisted, with_stdin_closed, ExitModel,
    KillProgressModel, KillReplyModel, KillStep, ProbeModel, ProcessCare, SessionModel,
    StdinWriteModel, StreamKind, StreamRead,
};
use crate::text::decimal::{law_padded_is_unique, padded};
use vstd::prelude::*;

verus! {

/// Two numbers give two names.
pub proof fn law_names_are_unique(a: u64, b: u64)
    requires
        process_id(a) == process_id(b),
    ensures
        a == b,
{
    let start = "proc-"@;
    let left = padded(a as nat, 6);
    let right = padded(b as nat, 6);
    assert((start + left).skip(start.len() as int) == left);
    assert((start + right).skip(start.len() as int) == right);
    law_padded_is_unique(a as nat, b as nat, 6);
}

/// Whether the name was given to a session of this registry, or could have been.
pub open spec fn was_issued(registry: RegistryModel, session_id: Seq<char>) -> bool {
    exists|number: u64|
        1 <= number < registry.next_id && #[trigger] process_id(number) == session_id
}

/// Whether the names of all sessions were given by this registry.
pub open spec fn all_were_issued(registry: RegistryModel) -> bool {
    forall|i: int|
        0 <= i < registry.sessions.len() ==> was_issued(
            registry,
            (#[trigger] registry.sessions[i]).session_id,
        )
}

/// A new registry has issued the names of all its sessions, of which there are none.
pub proof fn law_new_registry_is_empty(
    stdout_capacity_bytes: nat,
    stderr_capacity_bytes: nat,
    limits: ProcessSessionRegistryLimits,
    session_id: Seq<char>,
)
    ensures
        all_were_issued(new_registry(stdout_capacity_bytes, stderr_capacity_bytes, limits)),
        !has_session(
            new_registry(stdout_capacity_bytes, stderr_capacity_bytes, limits).sessions,
            session_id,
        ),
{
}

/// A process that is registered gets a session that was not there before, and
/// all other sessions stay as they are. This holds until the numbers run out.
pub proof fn law_registration_adds_a_session(
    registry: RegistryModel,
    owner_key: Seq<char>,
    command_summary: Seq<char>,
    has_stdin: bool,
    now: int,
)
    requires
        all_were_issued(registry),
        1 <= registry.next_id < u64::MAX,
    ensures
        !has_session(registry.sessions, process_id(registry.next_id)),
        with_registered(registry, owner_key, command_summary, has_stdin, now).sessions
            == registry.sessions.push(
            registered_session(registry, owner_key, command_summary, has_stdin, now),
        ),
        all_were_issued(
            with_registered(registry, owner_key, command_summary, has_stdin, now),
        ),
        1 <= with_registered(registry, owner_key, command_summary, has_stdin, now).next_id,
{
    let id = process_id(registry.next_id);
    lemma_session_index(registry.sessions, id);
    if has_session(registry.sessions, id) {
        let at = session_index(registry.sessions, id);
        assert(was_issued(registry, registry.sessions[at].session_id));
        let number = choose|number: u64|
            1 <= number < registry.next_id && #[trigger] process_id(number) == id;
        law_names_are_unique(number, registry.next_id);
    }
    let after = with_registered(registry, owner_key, command_summary, has_stdin, now);
    assert forall|i: int| 0 <= i < after.sessions.len() implies was_issued(
        after,
        (#[trigger] after.sessions[i]).session_id,
    ) by {
        if i < registry.sessions.len() {
            assert(after.sessions[i] == registry.sessions[i]);
            assert(was_issued(registry, registry.sessions[i].session_id));
            let number = choose|number: u64|
                1 <= number < registry.next_id && #[trigger] process_id(number)
                    == registry.sessions[i].session_id;
            assert(process_id(number) == after.sessions[i].session_id);
        } else {
            assert(process_id(registry.next_id) == after.sessions[i].session_id);
        }
    }
}

/// A session that changes keeps its name; no other session changes.
pub proof fn law_change_is_local(registry: RegistryModel, session: SessionModel, other: Seq<char>)
    requires
        has_session(registry.sessions, session.session_id),
        other != session.session_id,
    ensures
        has_session(storing(registry, session).sessions, session.session_id),
        session_named(storing(registry, session).sessions, session.session_id) == session,
        has_session(storing(registry, session).sessions, other) <==> has_session(
            registry.sessions,
            other,
        ),
        has_session(registry.sessions, other) ==> session_named(
            storing(registry, session).sessions,
            other,
        ) == session_named(registry.sessions, other),
        all_were_issued(registry) ==> all_were_issued(storing(registry, session)),
{
    let before = registry.sessions;
    let after = storing(registry, session).sessions;
    let at = session_index(before, session.session_id);
    lemma_session_index(before, session.session_id);
    lemma_session_index(after, session.session_id);
    lemma_session_index(before, other);
    lemma_session_index(after, other);
    assert(after == before.update(at, session));
    assert(forall|i: int|
        0 <= i < before.len() ==> (#[trigger] after[i]).session_id == before[i].session_id);
    lemma_same_names(before, after, other);
    lemma_same_names(before, after, session.session_id);
    if all_were_issued(registry) {
        assert forall|i: int| 0 <= i < after.len() implies was_issued(
            storing(registry, session),
            (#[trigger] after[i]).session_id,
        ) by {
            assert(was_issued(registry, before[i].session_id));
            let number = choose|number: u64|
                1 <= number < registry.next_id && #[trigger] process_id(number)
                    == before[i].session_id;
            assert(process_id(number) == after[i].session_id);
        }
    }
}

/// Sessions with the same names are found at the same places.
pub proof fn lemma_same_names(a: Seq<SessionModel>, b: Seq<SessionModel>, session_id: Seq<char>)
    requires
        a.len() == b.len(),
        forall|i: int| 0 <= i < a.len() ==> (#[trigger] a[i]).session_id == b[i].session_id,
    ensures
        session_index(a, session_id) == session_index(b, session_id),
    decreases a.len(),
{
    if a.len() > 0 {
        assert(a[0].session_id == b[0].session_id);
        assert forall|i: int| 0 <= i < a.drop_first().len() implies (
        #[trigger] a.drop_first()[i]).session_id == b.drop_first()[i].session_id by {
            assert(a[i + 1].session_id == b[i + 1].session_id);
        }
        lemma_same_names(a.drop_first(), b.drop_first(), session_id);
    }
}

/// A conversation sees the sessions that it owns, and no others.
pub proof fn law_sessions_are_private(
    registry: RegistryModel,
    owner_key: Seq<char>,
    other: Seq<char>,
    session_id: Seq<char>,
)
    ensures
        owned_session(registry, owner_key, session_id) matches Some(session) ==> {
            &&& session.owner_key == owner_key
            &&& session.session_id == session_id
            &&& other != owner_key ==> owned_session(registry, other, session_id) is None
        },
{
    lemma_session_index(registry.sessions, session_id);
}

/// What is known of a process fits together: it runs until it has an end, and
/// what has ended is not looked after any more.
pub open spec fn is_consistent(session: SessionModel) -> bool {
    &&& session.exit_state is Running <==> session.completed_at is None
    &&& session.care != ProcessCare::Nobody ==> session.exit_state is Running
}

/// What is known of a process fits together from the beginning, and whatever happens.
pub proof fn law_sessions_stay_consistent(
    session: SessionModel,
    probe: ProbeModel,
    kind: StreamKind,
    read: StreamRead,
    write: StdinWriteModel,
    now: int,
)
    requires
        is_consistent(session),
    ensures
        is_consistent(
            new_session(
                session.session_id,
                session.owner_key,
                session.command_summary,
                session.has_stdin,
                session.stdout.max_bytes,
                session.stderr.max_bytes,
                now,
            ),
        ),
        is_consistent(refreshed(session, probe, now)),
        is_consistent(after_write(session, write, now)),
        is_consistent(with_stdin_closed(session, now)),
        is_consistent(after_read(session, kind, read, now)),
        is_consistent(kill_begun(session, now)),
        is_consistent(kill_given_up(session)),
        is_consistent(unlisted(session)),
{
}

/// Killing a process keeps what is known of it fitting together. Whoever kills
/// it keeps all others off until the end, and tells the end, unless it fails.
pub proof fn law_kill_stays_consistent(
    session: SessionModel,
    step: KillStep,
    reply: KillReplyModel,
    now: int,
)
    requires
        is_consistent(session),
        is_being_killed(session),
    ensures
        is_consistent(kill_next(session, step, reply, now).0),
        kill_next(session, step, reply, now).1 is Ask ==> kill_next(session, step, reply, now).0
            == session,
        kill_next(session, step, reply, now).1 is Done ==> kill_next(
            session,
            step,
            reply,
            now,
        ).0.care == ProcessCare::Nobody,
        kill_next(session, step, reply, now).1 matches KillProgressModel::Done(Ok(state)) ==> {
            &&& kill_next(session, step, reply, now).0.exit_state == state
            &&& kill_next(session, step, reply, now).0.completed_at == Some(now)
            &&& !(state is Running)
        },
{
}

/// While a process is being killed, nobody else changes what is known of it or
/// is told anything of it: a look gives nothing yet, and who wants to kill it
/// too waits, and is told what is known once that is over.
pub proof fn law_kill_is_exclusive(
    session: SessionModel,
    probe: ProbeModel,
    stdout_offset: int,
    stderr_offset: int,
    now: int,
)
    ensures
        is_being_killed(session) ==> {
            &&& refreshed(session, probe, now) == session
            &&& refresh_outcome(session, probe, now) is None
            &&& poll_outcome(session, stdout_offset, stderr_offset, probe, now) is None
            &&& kill_start(session) == KillProgressModel::Ask(KillStep::Queue)
            &&& kill_begun(session, now).care == session.care
            &&& kill_next(session, KillStep::Queue, KillReplyModel::Probed(probe), now) == (
                session,
                KillProgressModel::Ask(KillStep::Queue),
            )
        },
        session.care == ProcessCare::Nobody ==> kill_next(
            session,
            KillStep::Queue,
            KillReplyModel::Probed(probe),
            now,
        ) == (session, KillProgressModel::Done(Ok(session.exit_state))),
{
}

/// The end of a process is final: a look at it changes nothing, and killing it
/// tells what is known.
pub proof fn law_end_is_final(session: SessionModel, probe: ProbeModel, now: int)
    requires
        is_consistent(session),
        !(session.exit_state is Running),
    ensures
        refreshed(session, probe, now) == session,
        refresh_outcome(session, probe, now) == Some(
            Ok::<ExitModel, SessionErrorModel>(session.exit_state),
        ),
        kill_start(session) == KillProgressModel::Done(Ok(session.exit_state)),
        kill_begun(session, now).exit_state == session.exit_state,
        kill_begun(session, now).completed_at == session.completed_at,
{
}

/// A session that was forgotten does not exist for anybody who asks for it, and
/// lives on for those who are at work on it; the others stay as they are.
pub proof fn law_forgotten_session_lives_on(
    registry: RegistryModel,
    session_id: Seq<char>,
    owner_key: Seq<char>,
)
    requires
        has_session(registry.sessions, session_id),
    ensures
        owned_session(forgetting(registry, session_id), owner_key, session_id) is None,
        has_session(forgetting(registry, session_id).sessions, session_id),
        session_named(forgetting(registry, session_id).sessions, session_id) == unlisted(
            session_named(registry.sessions, session_id),
        ),
        forall|other: Seq<char>|
            other != session_id ==> #[trigger] owned_session(
                forgetting(registry, session_id),
                owner_key,
                other,
            ) == owned_session(registry, owner_key, other),
{
    lemma_session_index(registry.sessions, session_id);
    let session = unlisted(session_named(registry.sessions, session_id));
    assert(session_id.push('.').len() != session_id.len());
    law_change_is_local(registry, session, session_id.push('.'));
    assert forall|other: Seq<char>| other != session_id implies #[trigger] owned_session(
        forgetting(registry, session_id),
        owner_key,
        other,
    ) == owned_session(registry, owner_key, other) by {
        law_change_is_local(registry, session, other);
    }
}

} // verus!
