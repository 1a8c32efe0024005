//! What ending all processes comes to.

use crate::process_sessions::cleanup::SessionRequestModel;
use crate::process_sessions::cleanup_laws::lemma_listed_is_found;
use crate::process_sessions::laws::{law_change_is_local, lemma_same_names};
use crate::process_sessions::registry::{
    forgetting_everything, has_distinct_ids, has_session, ids_of, lemma_listed_is_distinct,
    lemma_session_index, lemma_stored_session, listed, session_named, storing, with_kill_begun,
    with_kill_continued, RegistryModel,
};
use crate::process_sessions::session::{
    is_being_killed, kill_begun, kill_next, kill_start, KillProgressModel, KillReplyModel, KillStep,
    ProcessCare, SessionModel,
};
use crate::process_sessions::shutdown::{
    next_shutdown, shutdown_kill, shutdown_next, shutdown_request, shutdown_started, ShutdownModel,
    ShutdownStep,
};
use vstd::prelude::*;

verus! {

/// A shutdown of `registry` after so many answers, each with the moment at which
/// it came.
pub open spec fn shut_down(registry: RegistryModel, answers: Seq<(KillReplyModel, int)>) -> (
    ShutdownModel,
    RegistryModel,
)
    decreases answers.len(),
{
    if answers.len() == 0 {
        (shutdown_started(registry), registry)
    } else {
        let (run, current) = shut_down(registry, answers.drop_last());
        shutdown_next(run, current, answers.last().0, answers.last().1)
    }
}

/// Whether answer `at` was to the demand to kill the process of that name, or to
/// a look at it which showed that there is nothing to kill: nobody looks after
/// it any more, it has ended by itself, or it cannot be looked at.
pub open spec fn is_dealt_with(
    registry: RegistryModel,
    answers: Seq<(KillReplyModel, int)>,
    at: int,
    name: Seq<char>,
) -> bool {
    let (run, current) = shut_down(registry, answers.take(at));
    let care = session_named(current.sessions, name).care;
    ||| shutdown_request(run) == Some(SessionRequestModel::Kill { session_id: name })
    ||| {
        &&& run.step is Begin
        &&& run.ids[run.index] == name
        &&& answers[at].0 matches KillReplyModel::Probed(probe) && (care == ProcessCare::Nobody || (
        care == ProcessCare::Anyone && !(probe is Running)))
    }
}

/// Whether one of the answers was of that kind.
pub open spec fn was_dealt_with(
    registry: RegistryModel,
    answers: Seq<(KillReplyModel, int)>,
    name: Seq<char>,
) -> bool {
    exists|at: int| 0 <= at < answers.len() && #[trigger] is_dealt_with(registry, answers, at, name)
}

/// What was dealt with is dealt with after one answer more.
proof fn lemma_still_dealt_with(
    registry: RegistryModel,
    answers: Seq<(KillReplyModel, int)>,
    name: Seq<char>,
)
    requires
        answers.len() > 0,
        was_dealt_with(registry, answers.drop_last(), name),
    ensures
        was_dealt_with(registry, answers, name),
{
    let shorter = answers.drop_last();
    let at = choose|at: int|
        0 <= at < shorter.len() && #[trigger] is_dealt_with(registry, shorter, at, name);
    assert(answers.take(at) == shorter.take(at));
    assert(answers[at] == shorter[at]);
    assert(is_dealt_with(registry, answers, at, name));
}

/// Whether there is a session of each name.
spec fn has_all(registry: RegistryModel, ids: Seq<Seq<char>>) -> bool {
    forall|i: int| 0 <= i < ids.len() ==> has_session(registry.sessions, #[trigger] ids[i])
}

/// Whether nobody looks after the process of that name any more, and nothing
/// more is written to it.
pub open spec fn is_let_go(registry: RegistryModel, name: Seq<char>) -> bool {
    let session = session_named(registry.sessions, name);
    has_session(registry.sessions, name) && session.care == ProcessCare::Nobody
        && !session.has_stdin
}

/// Whether the first `count` processes were let go.
spec fn are_let_go(registry: RegistryModel, ids: Seq<Seq<char>>, count: int) -> bool {
    forall|i: int| 0 <= i < count ==> is_let_go(registry, #[trigger] ids[i])
}

/// Storing the current session leaves the others as they are.
proof fn lemma_current_stored(
    registry: RegistryModel,
    session: SessionModel,
    ids: Seq<Seq<char>>,
    index: int,
)
    requires
        has_all(registry, ids),
        ids.no_duplicates(),
        0 <= index < ids.len(),
        session.session_id == ids[index],
        are_let_go(registry, ids, index),
    ensures
        has_all(storing(registry, session), ids),
        are_let_go(storing(registry, session), ids, index),
        session_named(storing(registry, session).sessions, ids[index]) == session,
{
    lemma_stored_session(registry.sessions, session);
    let after = storing(registry, session);
    assert forall|i: int| 0 <= i < ids.len() implies has_session(after.sessions, #[trigger] ids[i])
        && (i < index ==> is_let_go(after, ids[i])) by {
        assert(has_session(registry.sessions, ids[i]));
        if i != index {
            law_change_is_local(registry, session, ids[i]);
            if i < index {
                assert(is_let_go(registry, ids[i]));
            }
        }
    }
}

/// Forgetting all sessions leaves none listed, and changes nothing else.
proof fn lemma_everything_forgotten(registry: RegistryModel, ids: Seq<Seq<char>>)
    requires
        has_all(registry, ids),
        are_let_go(registry, ids, ids.len() as int),
    ensures
        has_all(forgetting_everything(registry), ids),
        are_let_go(forgetting_everything(registry), ids, ids.len() as int),
        listed(forgetting_everything(registry).sessions).len() == 0,
{
    let before = registry.sessions;
    let after = forgetting_everything(registry).sessions;
    lemma_none_listed(after);
    assert forall|i: int| 0 <= i < ids.len() implies is_let_go(
        forgetting_everything(registry),
        #[trigger] ids[i],
    ) by {
        assert(is_let_go(registry, ids[i]));
        lemma_session_index(before, ids[i]);
        lemma_same_names(before, after, ids[i]);
    }
}

/// Where no session is listed, none is among those listed.
proof fn lemma_none_listed(sessions: Seq<SessionModel>)
    requires
        forall|i: int| 0 <= i < sessions.len() ==> !(#[trigger] sessions[i]).listed,
    ensures
        listed(sessions).len() == 0,
    decreases sessions.len(),
{
    if sessions.len() > 0 {
        assert(!sessions[sessions.len() - 1].listed);
        assert forall|i: int| 0 <= i < sessions.drop_last().len() implies !(
        #[trigger] sessions.drop_last()[i]).listed by {
            assert(!sessions[i].listed);
        }
        lemma_none_listed(sessions.drop_last());
    }
}

/// How the process of the current session fares while it is being killed.
spec fn is_kill_sound(session: SessionModel, step: KillStep) -> bool {
    &&& is_being_killed(session)
    &&& !session.has_stdin
    &&& step != KillStep::Probe
}

/// What holds of a shutdown at any time.
spec fn is_sound(run: ShutdownModel, registry: RegistryModel, ids: Seq<Seq<char>>) -> bool {
    &&& run.ids == ids
    &&& 0 <= run.index <= ids.len()
    &&& has_all(registry, ids)
    &&& are_let_go(registry, ids, run.index)
    &&& match run.step {
        ShutdownStep::Begin => run.index < ids.len(),
        ShutdownStep::Kill { step } => run.index < ids.len() && is_kill_sound(
            session_named(registry.sessions, ids[run.index]),
            step,
        ),
        ShutdownStep::Finished => run.index == ids.len() && listed(registry.sessions).len() == 0,
    }
}

/// Going on behind a process that was let go is sound.
proof fn lemma_next_shutdown(run: ShutdownModel, registry: RegistryModel, ids: Seq<Seq<char>>)
    requires
        run.ids == ids,
        0 <= run.index < ids.len(),
        has_all(registry, ids),
        are_let_go(registry, ids, run.index),
        is_let_go(registry, ids[run.index]),
    ensures
        is_sound(next_shutdown(run, registry).0, next_shutdown(run, registry).1, ids),
{
    if run.index + 1 >= ids.len() {
        lemma_everything_forgotten(registry, ids);
    }
}

/// One more step of a kill that is under way is sound.
proof fn lemma_shutdown_kill(
    run: ShutdownModel,
    registry: RegistryModel,
    ids: Seq<Seq<char>>,
    step: KillStep,
    reply: KillReplyModel,
    now: int,
)
    requires
        run.ids == ids,
        ids.no_duplicates(),
        0 <= run.index < ids.len(),
        has_all(registry, ids),
        are_let_go(registry, ids, run.index),
        is_being_killed(session_named(registry.sessions, ids[run.index])),
        !session_named(registry.sessions, ids[run.index]).has_stdin,
        step == KillStep::Probe ==> reply is Probed,
    ensures
        is_sound(
            shutdown_kill(run, registry, step, reply, now).0,
            shutdown_kill(run, registry, step, reply, now).1,
            ids,
        ),
{
    let id = ids[run.index];
    assert(has_session(registry.sessions, id));
    let session = session_named(registry.sessions, id);
    lemma_session_index(registry.sessions, id);
    let (next, progress) = kill_next(session, step, reply, now);
    lemma_current_stored(registry, next, ids, run.index);
    if progress is Done {
        lemma_next_shutdown(run, storing(registry, next), ids);
    }
}

/// A shutdown stays sound with every answer.
proof fn lemma_sound_step(
    run: ShutdownModel,
    registry: RegistryModel,
    ids: Seq<Seq<char>>,
    reply: KillReplyModel,
    now: int,
)
    requires
        ids.no_duplicates(),
        is_sound(run, registry, ids),
    ensures
        is_sound(
            shutdown_next(run, registry, reply, now).0,
            shutdown_next(run, registry, reply, now).1,
            ids,
        ),
{
    match run.step {
        ShutdownStep::Begin => {
            let id = ids[run.index];
            assert(has_session(registry.sessions, id));
            let session = session_named(registry.sessions, id);
            lemma_session_index(registry.sessions, id);
            let begun = with_kill_begun(registry, id, now);
            lemma_current_stored(registry, kill_begun(session, now), ids, run.index);
            if reply is Probed {
                match kill_start(session) {
                    KillProgressModel::Done(_) => lemma_next_shutdown(run, begun, ids),
                    KillProgressModel::Ask(step) => lemma_shutdown_kill(
                        run,
                        begun,
                        ids,
                        step,
                        reply,
                        now,
                    ),
                }
            }
        },
        ShutdownStep::Kill { step } => lemma_shutdown_kill(run, registry, ids, step, reply, now),
        ShutdownStep::Finished => {},
    }
}

/// The names of the sessions that a shutdown begins with are distinct, and each
/// is that of a session.
proof fn lemma_start(registry: RegistryModel)
    requires
        has_distinct_ids(registry.sessions),
    ensures
        ids_of(listed(registry.sessions)).no_duplicates(),
        has_all(registry, ids_of(listed(registry.sessions))),
{
    let all = listed(registry.sessions);
    let ids = ids_of(all);
    lemma_listed_is_distinct(registry.sessions);
    assert forall|i: int, j: int|
        0 <= i < ids.len() && 0 <= j < ids.len() && i != j implies ids[i] != ids[j] by {
        assert(ids[i] == all[i].session_id && ids[j] == all[j].session_id);
    }
    assert forall|i: int| 0 <= i < ids.len() implies has_session(
        registry.sessions,
        #[trigger] ids[i],
    ) by {
        lemma_listed_is_found(registry.sessions, i);
    }
}

/// A shutdown is sound after any answers.
proof fn lemma_sound(registry: RegistryModel, answers: Seq<(KillReplyModel, int)>)
    requires
        has_distinct_ids(registry.sessions),
    ensures
        is_sound(
            shut_down(registry, answers).0,
            shut_down(registry, answers).1,
            ids_of(listed(registry.sessions)),
        ),
    decreases answers.len(),
{
    lemma_start(registry);
    if answers.len() > 0 {
        lemma_sound(registry, answers.drop_last());
        let (run, current) = shut_down(registry, answers.drop_last());
        lemma_sound_step(
            run,
            current,
            ids_of(listed(registry.sessions)),
            answers.last().0,
            answers.last().1,
        );
    }
}

/// What one answer leads to: the next process only once the current one was
/// dealt with, and to waiting only once it was to be killed.
proof fn lemma_dealt_step(
    run: ShutdownModel,
    registry: RegistryModel,
    ids: Seq<Seq<char>>,
    reply: KillReplyModel,
    now: int,
)
    requires
        ids.no_duplicates(),
        is_sound(run, registry, ids),
    ensures
        ({
            let next = shutdown_next(run, registry, reply, now).0;
            let care = session_named(registry.sessions, ids[run.index]).care;
            let seen = run.step is Begin && (reply matches KillReplyModel::Probed(probe) && (care
                == ProcessCare::Nobody || (care == ProcessCare::Anyone && !(probe is Running))));
            let asked = run.step == (ShutdownStep::Kill { step: KillStep::Kill });
            let waiting = run.step == (ShutdownStep::Kill { step: KillStep::Wait });
            &&& next.index == run.index || next.index == run.index + 1
            &&& next.index == run.index + 1 ==> seen || asked || waiting
            &&& next.step == (ShutdownStep::Kill { step: KillStep::Wait }) ==> asked || waiting
            &&& next.index == run.index + 1 ==> next.step is Begin || next.step is Finished
        }),
{
    if !(run.step is Finished) {
        let id = ids[run.index];
        assert(has_session(registry.sessions, id));
        let session = session_named(registry.sessions, id);
        lemma_session_index(registry.sessions, id);
        lemma_current_stored(registry, kill_begun(session, now), ids, run.index);
    }
}

/// Every process that a shutdown is done with, and the one it waits for, was
/// dealt with.
proof fn lemma_dealt_with(registry: RegistryModel, answers: Seq<(KillReplyModel, int)>)
    requires
        has_distinct_ids(registry.sessions),
    ensures
        ({
            let run = shut_down(registry, answers).0;
            let ids = ids_of(listed(registry.sessions));
            &&& forall|i: int|
                0 <= i < run.index ==> was_dealt_with(registry, answers, #[trigger] ids[i])
            &&& run.step == (ShutdownStep::Kill { step: KillStep::Wait }) ==> was_dealt_with(
                registry,
                answers,
                ids[run.index],
            )
        }),
    decreases answers.len(),
{
    if answers.len() > 0 {
        let shorter = answers.drop_last();
        let (run, current) = shut_down(registry, shorter);
        let next = shut_down(registry, answers).0;
        let ids = ids_of(listed(registry.sessions));
        let last = answers.len() - 1;
        assert(answers.take(last) == shorter);
        assert(answers[last] == answers.last());
        lemma_start(registry);
        lemma_sound(registry, shorter);
        lemma_dealt_with(registry, shorter);
        lemma_dealt_step(run, current, ids, answers.last().0, answers.last().1);
        assert forall|i: int| 0 <= i < run.index implies was_dealt_with(
            registry,
            answers,
            #[trigger] ids[i],
        ) by {
            lemma_still_dealt_with(registry, answers, ids[i]);
        }
        if run.step == (ShutdownStep::Kill { step: KillStep::Wait }) {
            lemma_still_dealt_with(registry, answers, ids[run.index]);
        } else if next.index == run.index + 1 || next.step == (ShutdownStep::Kill {
            step: KillStep::Wait,
        }) {
            assert(is_dealt_with(registry, answers, last, ids[run.index]));
        }
    }
}

/// A shutdown that has ended, with nothing else going on meanwhile, leaves no
/// session listed. Each process that it began with was demanded to be killed, or
/// there was nothing to kill; nobody looks after it any more, and nothing more
/// is written to it.
pub proof fn law_shutdown_is_complete(
    registry: RegistryModel,
    answers: Seq<(KillReplyModel, int)>,
)
    requires
        has_distinct_ids(registry.sessions),
        shut_down(registry, answers).0.step is Finished,
    ensures
        listed(shut_down(registry, answers).1.sessions).len() == 0,
        shut_down(registry, answers).0.ids == ids_of(listed(registry.sessions)),
        forall|i: int|
            0 <= i < ids_of(listed(registry.sessions)).len() ==> was_dealt_with(
                registry,
                answers,
                #[trigger] ids_of(listed(registry.sessions))[i],
            ) && is_let_go(
                shut_down(registry, answers).1,
                ids_of(listed(registry.sessions))[i],
            ),
{
    lemma_sound(registry, answers);
    lemma_dealt_with(registry, answers);
}

/// A shutdown ends only behind the last process, and whether a kill succeeds or
/// fails makes no difference: it goes on with the next one.
pub proof fn law_failed_kill_ends_no_shutdown(
    run: ShutdownModel,
    registry: RegistryModel,
    step: KillStep,
    reply: KillReplyModel,
    now: int,
)
    requires
        run.step == (ShutdownStep::Kill { step }),
        has_session(registry.sessions, run.ids[run.index]),
        kill_next(session_named(registry.sessions, run.ids[run.index]), step, reply, now).1 is Done,
    ensures
        shutdown_next(run, registry, reply, now) == next_shutdown(
            run,
            with_kill_continued(registry, run.ids[run.index], step, reply, now),
        ),
        run.index + 1 < run.ids.len() ==> shutdown_request(
            shutdown_next(run, registry, reply, now).0,
        ) == Some(SessionRequestModel::Probe { session_id: run.ids[run.index + 1] }),
        shutdown_next(run, registry, reply, now).0.step is Finished <==> run.index + 1
            >= run.ids.len(),
{
}

} // verus!
