//! What a clean-up does with one session.

use crate::process_sessions::cleanup::{
    cleanup_next, cleanup_request, forgetting_all, CleanupModel, CleanupStep, SessionRequestModel,
};
use crate::process_sessions::laws::law_change_is_local;
use crate::process_sessions::registry::{
    has_session, lemma_session_index, lemma_stored_session, session_named, with_kill_begun,
    with_kill_continued, with_refreshed, RegistryModel,
};
use crate::process_sessions::session::{
    kill_begun, kill_next, refreshed, unlisted, ExitModel, KillReplyModel, KillStep, ProbeModel,
    ProcessCare, SessionModel,
};
use vstd::prelude::*;

verus! {

/// The session that a clean-up is at.
pub open spec fn current_name(run: CleanupModel) -> Seq<char> {
    run.ids[run.index]
}

/// Whether a clean-up is at a session that there is.
pub open spec fn is_at_session(run: CleanupModel, registry: RegistryModel) -> bool {
    0 <= run.index < run.ids.len() && has_session(registry.sessions, current_name(run))
}

/// Whether the clean-up has gone on to the next session, or has ended behind the
/// last one.
pub open spec fn has_gone_on(run: CleanupModel, next: CleanupModel) -> bool {
    &&& next.ids == run.ids
    &&& next.now == run.now
    &&& next.index == run.index + 1
    &&& next.step == if run.index + 1 < run.ids.len() {
        CleanupStep::Probe
    } else {
        CleanupStep::Finished
    }
}

/// The session as it is once the clean-up has ended, if that is at once: not
/// listed any more, where its name is one of those to go.
pub open spec fn session_left(next: CleanupModel, session: SessionModel) -> SessionModel {
    if next.step is Finished && next.remove_ids.contains(session.session_id) {
        SessionModel { listed: false, ..session }
    } else {
        session
    }
}

/// Forgetting sessions leaves each as it is, but lists those no more.
proof fn lemma_forgotten(registry: RegistryModel, ids: Seq<Seq<char>>, name: Seq<char>)
    requires
        has_session(registry.sessions, name),
    ensures
        has_session(forgetting_all(registry, ids).sessions, name),
        session_named(forgetting_all(registry, ids).sessions, name) == if ids.contains(name) {
            unlisted(session_named(registry.sessions, name))
        } else {
            session_named(registry.sessions, name)
        },
    decreases ids.len(),
{
    if ids.len() > 0 {
        let fewer = ids.drop_last();
        let before = forgetting_all(registry, fewer);
        let last = ids.last();
        lemma_forgotten(registry, fewer, name);
        lemma_session_index(before.sessions, last);
        lemma_session_index(before.sessions, name);
        if has_session(before.sessions, last) {
            let session = unlisted(session_named(before.sessions, last));
            lemma_stored_session(before.sessions, session);
            if last != name {
                law_change_is_local(before, session, name);
            }
        }
        if fewer.contains(name) {
            let i = choose|i: int| 0 <= i < fewer.len() && fewer[i] == name;
            assert(ids[i] == name);
        }
        if last == name {
            assert(ids[ids.len() - 1] == name);
        }
        if ids.contains(name) && last != name {
            let i = choose|i: int| 0 <= i < ids.len() && ids[i] == name;
            assert(fewer[i] == name);
        }
    }
}

/// A look at the process of a session decides what becomes of the session. Where
/// the process has ended, the session goes once that was so long ago as it is to
/// be kept, and is counted. Where it runs and nothing has happened for as long as
/// it may be idle, it is killed. Where it runs on, it is counted as running. All
/// other sessions stay as they are.
pub proof fn law_look_decides(
    run: CleanupModel,
    registry: RegistryModel,
    probe: ProbeModel,
    now: int,
)
    requires
        is_at_session(run, registry),
        run.step is Probe,
        session_named(registry.sessions, current_name(run)).care == ProcessCare::Anyone,
        session_named(registry.sessions, current_name(run)).completed_at is None,
        session_named(registry.sessions, current_name(run)).exit_state is Running,
    ensures
        ({
            let name = current_name(run);
            let session = session_named(registry.sessions, name);
            let limits = registry.limits;
            let (next, after) = cleanup_next(
                run,
                registry,
                KillReplyModel::Probed(probe),
                now,
            );
            let left = session_named(after.sessions, name);
            let state = match probe {
                ProbeModel::Running => ExitModel::Running,
                ProbeModel::Exited(status) => ExitModel::Exited {
                    success: status.success,
                    code: status.code,
                },
                ProbeModel::Unknown { reason } => ExitModel::Failed { reason },
            };
            let idle = limits.idle_retention == 0 || run.now - session.last_activity_at
                >= limits.idle_retention;
            let over = limits.completed_retention == 0 || run.now - now
                >= limits.completed_retention;
            &&& has_session(after.sessions, name)
            &&& next.killed_idle_sessions == run.killed_idle_sessions
            &&& if probe is Running && idle {
                &&& left == (SessionModel {
                    has_stdin: false,
                    last_activity_at: now,
                    care: ProcessCare::Killer,
                    ..session
                })
                &&& next == (CleanupModel { step: next.step, ..run })
                &&& next.step == (CleanupStep::Kill { step: KillStep::Probe })
                &&& cleanup_request(next) == Some(SessionRequestModel::Probe { session_id: name })
            } else if probe is Running {
                &&& left == session_left(next, session)
                &&& has_gone_on(run, next)
                &&& next.remove_ids == run.remove_ids
                &&& next.removed_completed_sessions == run.removed_completed_sessions
                &&& next.remaining_running_sessions == run.remaining_running_sessions + 1
            } else {
                &&& left == session_left(
                    next,
                    SessionModel {
                        exit_state: state,
                        completed_at: Some(now),
                        last_activity_at: now,
                        care: ProcessCare::Nobody,
                        ..session
                    },
                )
                &&& has_gone_on(run, next)
                &&& next.remaining_running_sessions == run.remaining_running_sessions
                &&& next.remove_ids == if over {
                    run.remove_ids.push(name)
                } else {
                    run.remove_ids
                }
                &&& next.removed_completed_sessions == run.removed_completed_sessions + if over {
                    1int
                } else {
                    0
                }
            }
        }),
{
    let name = current_name(run);
    let session = session_named(registry.sessions, name);
    lemma_session_index(registry.sessions, name);
    let seen = refreshed(session, probe, now);
    lemma_stored_session(registry.sessions, seen);
    let looked = with_refreshed(registry, name, probe, now);
    lemma_session_index(looked.sessions, name);
    lemma_stored_session(looked.sessions, kill_begun(seen, now));
    lemma_forgotten(looked, run.remove_ids, name);
    lemma_forgotten(looked, run.remove_ids.push(name), name);
}

/// An idle process is looked at once more, killed if it runs still, and waited
/// for; then the session is to go, and is counted, however that went.
pub proof fn law_idle_process_is_killed(
    run: CleanupModel,
    registry: RegistryModel,
    step: KillStep,
    reply: KillReplyModel,
    now: int,
)
    requires
        is_at_session(run, registry),
        run.step == (CleanupStep::Kill { step }),
        step != KillStep::Queue,
    ensures
        ({
            let name = current_name(run);
            let session = session_named(registry.sessions, name);
            let (next, after) = cleanup_next(run, registry, reply, now);
            let left = session_named(after.sessions, name);
            let gone = has_gone_on(run, next) && next.remove_ids == run.remove_ids.push(name)
                && next.killed_idle_sessions == run.killed_idle_sessions + 1
                && next.removed_completed_sessions == run.removed_completed_sessions
                && next.remaining_running_sessions == run.remaining_running_sessions;
            let ended = |state: ExitModel| -> SessionModel
                {
                    SessionModel {
                        exit_state: state,
                        completed_at: Some(now),
                        last_activity_at: now,
                        care: ProcessCare::Nobody,
                        ..session
                    }
                };
            let given_up = SessionModel { care: ProcessCare::Nobody, ..session };
            &&& has_session(after.sessions, name)
            &&& match (cleanup_request(run)->0, reply) {
                (SessionRequestModel::Probe { session_id }, KillReplyModel::Probed(probe)) => {
                    session_id == name && match probe {
                        ProbeModel::Running => left == session && cleanup_request(next) == Some(
                            SessionRequestModel::Kill { session_id: name },
                        ) && next == (CleanupModel { step: next.step, ..run }),
                        ProbeModel::Exited(status) => gone && left == session_left(
                            next,
                            ended(
                                ExitModel::Exited { success: status.success, code: status.code },
                            ),
                        ),
                        ProbeModel::Unknown { reason } => gone && left == session_left(
                            next,
                            ended(ExitModel::Failed { reason }),
                        ),
                    }
                },
                (SessionRequestModel::Kill { session_id }, KillReplyModel::Killed(failure)) => {
                    session_id == name && match failure {
                        None => left == session && cleanup_request(next) == Some(
                            SessionRequestModel::Wait { session_id: name },
                        ) && next == (CleanupModel { step: next.step, ..run }),
                        Some(_) => gone && left == session_left(next, given_up),
                    }
                },
                (SessionRequestModel::Wait { session_id }, KillReplyModel::Waited(outcome)) => {
                    session_id == name && match outcome {
                        Ok(status) => gone && left == session_left(
                            next,
                            ended(
                                ExitModel::Exited { success: status.success, code: status.code },
                            ),
                        ),
                        Err(_) => gone && left == session_left(next, given_up),
                    }
                },
                _ => next == run && left == session,
            }
        }),
{
    let name = current_name(run);
    let session = session_named(registry.sessions, name);
    lemma_session_index(registry.sessions, name);
    let left = kill_next(session, step, reply, now).0;
    lemma_stored_session(registry.sessions, left);
    let after = with_kill_continued(
        registry,
        name,
        step,
        reply,
        now,
    );
    lemma_session_index(after.sessions, name);
    lemma_forgotten(after, run.remove_ids.push(name), name);
}

/// A step of a clean-up changes no session but the one that it is at; and at its
/// end those that are to go are not listed any more.
pub proof fn law_cleanup_leaves_the_others(
    run: CleanupModel,
    registry: RegistryModel,
    reply: KillReplyModel,
    now: int,
    other: Seq<char>,
)
    requires
        is_at_session(run, registry),
        other != current_name(run),
        has_session(registry.sessions, other),
    ensures
        ({
            let (next, after) = cleanup_next(run, registry, reply, now);
            &&& has_session(after.sessions, other)
            &&& session_named(after.sessions, other) == if run.step is Finished {
                session_named(registry.sessions, other)
            } else {
                session_left(next, session_named(registry.sessions, other))
            }
        }),
{
    let name = current_name(run);
    let session = session_named(registry.sessions, name);
    lemma_session_index(registry.sessions, name);
    lemma_session_index(registry.sessions, other);
    match run.step {
        CleanupStep::Probe => {
            if let KillReplyModel::Probed(probe) = reply {
                let seen = refreshed(session, probe, now);
                law_change_is_local(registry, seen, other);
                let looked = with_refreshed(
                    registry,
                    name,
                    probe,
                    now,
                );
                lemma_session_index(looked.sessions, name);
                lemma_session_index(looked.sessions, other);
                let begun = kill_begun(seen, now);
                law_change_is_local(looked, begun, other);
                let taken = with_kill_begun(looked, name, now);
                lemma_forgotten(looked, run.remove_ids, other);
                lemma_forgotten(looked, run.remove_ids.push(name), other);
                lemma_forgotten(taken, run.remove_ids.push(name), other);
            }
        },
        CleanupStep::Kill { step } => {
            let left = kill_next(session, step, reply, now).0;
            law_change_is_local(registry, left, other);
            let after = with_kill_continued(
                registry,
                name,
                step,
                reply,
                now,
            );
            lemma_session_index(after.sessions, other);
            lemma_forgotten(after, run.remove_ids.push(name), other);
        },
        CleanupStep::Finished => {},
    }
}

} // verus!
