//! What the registry finds, lists and keeps.

use crate::process_sessions::output::OutputModel;
use crate::process_sessions::registry::{
    forgetting_everything, has_session, lemma_session_index, lemma_stored_session, listed, lists,
    owned_session, owned_sessions, session_index, session_named, swept, with_kill_given_up,
    with_read, with_registered, RegistryModel,
};
use crate::process_sessions::session::{
    after_read, kill_given_up, reads_on, ProcessCare, SessionModel, StreamKind, StreamRead,
};
use vstd::prelude::*;
use vstd::utf8::encode_utf8;

verus! {

/// A session is found if there is one of that name, and it is the first one.
pub proof fn law_lookup_finds_the_session(sessions: Seq<SessionModel>, session_id: Seq<char>)
    ensures
        has_session(sessions, session_id) <==> exists|i: int|
            0 <= i < sessions.len() && (#[trigger] sessions[i]).session_id == session_id,
        has_session(sessions, session_id) ==> exists|i: int|
            0 <= i < sessions.len() && session_named(sessions, session_id) == #[trigger] sessions[i]
                && sessions[i].session_id == session_id && forall|j: int|
                0 <= j < i ==> (#[trigger] sessions[j]).session_id != session_id,
        lists(sessions, session_id) <==> has_session(sessions, session_id) && session_named(
            sessions,
            session_id,
        ).listed,
{
    lemma_session_index(sessions, session_id);
    let at = session_index(sessions, session_id);
    if has_session(sessions, session_id) {
        assert(sessions[at].session_id == session_id);
    }
}

/// What is listed are the sessions that were not forgotten, all of them and in
/// their order; what a conversation sees are those of them that it owns.
pub proof fn law_listing_is_complete(sessions: Seq<SessionModel>, owner_key: Seq<char>)
    ensures
        listed(sessions) == sessions.filter(|session: SessionModel| session.listed),
        owned_sessions(sessions, owner_key) == sessions.filter(
            |session: SessionModel| session.listed && session.owner_key == owner_key,
        ),
    decreases sessions.len(),
{
    reveal(Seq::filter);
    if sessions.len() > 0 {
        law_listing_is_complete(sessions.drop_last(), owner_key);
    }
}

/// A conversation is given a session if and only if it is listed and is its own.
pub proof fn law_session_is_given_to_its_owner(
    registry: RegistryModel,
    owner_key: Seq<char>,
    session_id: Seq<char>,
)
    ensures
        owned_session(registry, owner_key, session_id) is Some <==> has_session(
            registry.sessions,
            session_id,
        ) && session_named(registry.sessions, session_id).listed && session_named(
            registry.sessions,
            session_id,
        ).owner_key == owner_key,
        owned_session(registry, owner_key, session_id) matches Some(session) ==> session
            == session_named(registry.sessions, session_id),
{
}

/// What a read from a stream adds to the output: what was read; what went wrong,
/// where it failed; and nothing at its end.
pub open spec fn added_by(read: StreamRead) -> Seq<u8> {
    match read {
        StreamRead::Data(bytes) => bytes@,
        StreamRead::End => seq![],
        StreamRead::Failed { reason } => encode_utf8(
            "\n[process stream read error: "@ + reason@ + "]\n"@,
        ),
    }
}

/// What is read from a stream of a process is kept behind what that stream had
/// before, and nowhere else: the other stream, and all else that is known of the
/// process, stay as they are. There may be more to read as long as something was.
pub proof fn law_output_goes_to_its_stream(
    registry: RegistryModel,
    session_id: Seq<char>,
    kind: StreamKind,
    read: StreamRead,
    now: int,
)
    requires
        has_session(registry.sessions, session_id),
    ensures
        ({
            let before = session_named(registry.sessions, session_id);
            let after = session_named(
                with_read(registry, session_id, kind, read, now).sessions,
                session_id,
            );
            &&& has_session(with_read(registry, session_id, kind, read, now).sessions, session_id)
            &&& kind == StreamKind::Stdout ==> after.stdout.written == before.stdout.written
                + added_by(read) && after.stderr == before.stderr
            &&& kind == StreamKind::Stderr ==> after.stderr.written == before.stderr.written
                + added_by(read) && after.stdout == before.stdout
            &&& after == (SessionModel {
                stdout: OutputModel {
                    max_bytes: before.stdout.max_bytes,
                    ..after.stdout
                },
                stderr: OutputModel {
                    max_bytes: before.stderr.max_bytes,
                    ..after.stderr
                },
                last_activity_at: if read is Failed || added_by(read).len() > 0 {
                    now
                } else {
                    before.last_activity_at
                },
                ..before
            })
            &&& reads_on(read) <==> read is Data && added_by(read).len() > 0
        }),
{
    let before = session_named(registry.sessions, session_id);
    lemma_session_index(registry.sessions, session_id);
    lemma_stored_session(registry.sessions, after_read(before, kind, read, now));
    assert(before.stdout.written + Seq::<u8>::empty() == before.stdout.written);
    assert(before.stderr.written + Seq::<u8>::empty() == before.stderr.written);
    if added_by(read).len() == 0 {
        assert(added_by(read) == Seq::<u8>::empty());
    }
}

/// Sweeping takes out the sessions that are not listed, and leaves all others
/// in their order; nothing else of the registry changes.
pub proof fn law_sweeping_takes_out_what_is_forgotten(registry: RegistryModel)
    ensures
        swept(registry) == (RegistryModel {
            sessions: registry.sessions.filter(|session: SessionModel| session.listed),
            ..registry
        }),
{
    law_listing_is_complete(registry.sessions, seq![]);
}

/// Forgetting all sessions leaves each of them as it is, but lists none.
pub proof fn law_forgetting_everything_lists_nothing(registry: RegistryModel)
    ensures
        forgetting_everything(registry) == (RegistryModel {
            sessions: forgetting_everything(registry).sessions,
            ..registry
        }),
        forgetting_everything(registry).sessions.len() == registry.sessions.len(),
        forall|i: int|
            0 <= i < registry.sessions.len() ==> #[trigger] forgetting_everything(
                registry,
            ).sessions[i] == (SessionModel { listed: false, ..registry.sessions[i] }),
{
}

/// The numbers of processes follow one another, and begin again behind the last
/// one that there is.
pub proof fn law_numbers_go_round(
    registry: RegistryModel,
    owner_key: Seq<char>,
    command_summary: Seq<char>,
    has_stdin: bool,
    now: int,
)
    ensures
        with_registered(registry, owner_key, command_summary, has_stdin, now).next_id == (
        registry.next_id + 1) % 0x1_0000_0000_0000_0000,
{
}

/// Whoever gives up killing a process leaves it to nobody; a process that nobody
/// is killing is left as it is.
pub proof fn law_given_up_process_is_left(registry: RegistryModel, session_id: Seq<char>)
    requires
        has_session(registry.sessions, session_id),
    ensures
        ({
            let before = session_named(registry.sessions, session_id);
            let after = with_kill_given_up(registry, session_id);
            &&& has_session(after.sessions, session_id)
            &&& session_named(after.sessions, session_id) == (SessionModel {
                care: if before.care == ProcessCare::Killer {
                    ProcessCare::Nobody
                } else {
                    before.care
                },
                ..before
            })
        }),
{
    lemma_session_index(registry.sessions, session_id);
    lemma_stored_session(
        registry.sessions,
        kill_given_up(session_named(registry.sessions, session_id)),
    );
}

} // verus!
