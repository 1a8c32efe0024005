//! What a clean-up comes to.

use crate::process_sessions::cleanup::{
    cleanup_next, cleanup_started, forgetting_all, next_session, noting_completed, noting_killed,
    noting_running, session_judged, CleanupModel, CleanupStep,
};
use crate::process_sessions::registry::{
    forgetting, has_distinct_ids, has_session, ids_of, is_busy, lemma_listed_is_distinct,
    lemma_session_index, listed, lists, session_index, session_named, storing, with_kill_begun,
    with_kill_continued, with_refreshed, ProcessSessionRegistryLimits, RegistryModel,
};
use crate::process_sessions::session::{
    kill_begun, kill_next, kill_start, refreshed, unlisted, KillReplyModel, SessionModel,
};
use vstd::prelude::*;

verus! {

/// A clean-up of `registry` that began at `now`, after so many answers, each
/// with the moment at which it came.
pub open spec fn cleaned_up(
    registry: RegistryModel,
    now: int,
    answers: Seq<(KillReplyModel, int)>,
) -> (CleanupModel, RegistryModel)
    decreases answers.len(),
{
    if answers.len() == 0 {
        (cleanup_started(registry, now), registry)
    } else {
        let (run, current) = cleaned_up(registry, now, answers.drop_last());
        cleanup_next(run, current, answers.last().0, answers.last().1)
    }
}

/// Whether a session is over: its process ended some time ago, or nothing has
/// happened for some time.
pub open spec fn is_expired(
    session: SessionModel,
    now: int,
    limits: ProcessSessionRegistryLimits,
) -> bool {
    match session.completed_at {
        Some(at) => limits.completed_retention == 0 || now - at >= limits.completed_retention,
        None => limits.idle_retention == 0 || now - session.last_activity_at
            >= limits.idle_retention,
    }
}

/// Whether the process of a session runs.
pub open spec fn is_live(session: SessionModel) -> bool {
    session.completed_at is None && session.exit_state is Running
}

/// How many processes run.
pub open spec fn live_count(sessions: Seq<SessionModel>) -> int
    decreases sessions.len(),
{
    if sessions.len() == 0 {
        0
    } else {
        live_count(sessions.drop_last()) + if is_live(sessions.last()) {
            1int
        } else {
            0
        }
    }
}

/// The sessions whose names are not among `names`.
pub open spec fn survivors(sessions: Seq<SessionModel>, names: Seq<Seq<char>>) -> Seq<SessionModel>
    decreases sessions.len(),
{
    if sessions.len() == 0 {
        seq![]
    } else if names.contains(sessions.last().session_id) {
        survivors(sessions.drop_last(), names)
    } else {
        survivors(sessions.drop_last(), names).push(sessions.last())
    }
}

/// A name that no session has changes nothing.
proof fn lemma_survivors_of_other(
    sessions: Seq<SessionModel>,
    names: Seq<Seq<char>>,
    name: Seq<char>,
)
    requires
        forall|i: int| 0 <= i < sessions.len() ==> (#[trigger] sessions[i]).session_id != name,
    ensures
        survivors(sessions, names.push(name)) == survivors(sessions, names),
    decreases sessions.len(),
{
    if sessions.len() > 0 {
        let last = sessions.last().session_id;
        assert(sessions[sessions.len() - 1].session_id != name);
        lemma_survivors_of_other(sessions.drop_last(), names, name);
        lemma_contains_pushed(names, name, last);
    }
}

/// What a longer list of names contains.
proof fn lemma_contains_pushed(names: Seq<Seq<char>>, name: Seq<char>, wanted: Seq<char>)
    ensures
        names.push(name).contains(wanted) <==> names.contains(wanted) || wanted == name,
{
    if names.contains(wanted) {
        let i = choose|i: int| 0 <= i < names.len() && names[i] == wanted;
        assert(names.push(name)[i] == wanted);
    }
    if wanted == name {
        assert(names.push(name)[names.len() as int] == wanted);
    }
}

/// What is left was there before; names that differed still do.
proof fn lemma_survivors_are_distinct(sessions: Seq<SessionModel>, names: Seq<Seq<char>>)
    requires
        has_distinct_ids(sessions),
    ensures
        has_distinct_ids(survivors(sessions, names)),
        forall|i: int|
            0 <= i < survivors(sessions, names).len() ==> sessions.contains(
                #[trigger] survivors(sessions, names)[i],
            ),
    decreases sessions.len(),
{
    if sessions.len() > 0 {
        let shorter = sessions.drop_last();
        let left = survivors(shorter, names);
        lemma_survivors_are_distinct(shorter, names);
        assert forall|i: int| 0 <= i < left.len() implies sessions.contains(#[trigger] left[i])
            && left[i].session_id != sessions.last().session_id by {
            let j = choose|j: int| 0 <= j < shorter.len() && shorter[j] == left[i];
            assert(sessions[j] == left[i]);
            assert(sessions[sessions.len() - 1] == sessions.last());
        }
        assert(sessions[sessions.len() - 1] == sessions.last());
    }
}

/// The sessions, with those whose names are among `names` not listed any more.
pub open spec fn crossed_out(sessions: Seq<SessionModel>, names: Seq<Seq<char>>) -> Seq<SessionModel> {
    Seq::new(
        sessions.len(),
        |i: int|
            if names.contains(sessions[i].session_id) {
                unlisted(sessions[i])
            } else {
                sessions[i]
            },
    )
}

/// Forgetting sessions crosses them out.
proof fn lemma_forgetting_all(registry: RegistryModel, names: Seq<Seq<char>>)
    requires
        has_distinct_ids(registry.sessions),
    ensures
        forgetting_all(registry, names) == (RegistryModel {
            sessions: crossed_out(registry.sessions, names),
            ..registry
        }),
    decreases names.len(),
{
    let sessions = registry.sessions;
    if names.len() == 0 {
        assert(crossed_out(sessions, names) == sessions);
    } else {
        let name = names.last();
        let before = crossed_out(sessions, names.drop_last());
        lemma_forgetting_all(registry, names.drop_last());
        lemma_session_index(before, name);
        assert(names == names.drop_last().push(name));
        assert(forall|i: int|
            0 <= i < sessions.len() ==> (#[trigger] before[i]).session_id
                == sessions[i].session_id);
        assert forall|i: int| 0 <= i < sessions.len() implies #[trigger] crossed_out(
            sessions,
            names,
        )[i] == if sessions[i].session_id == name {
            unlisted(before[i])
        } else {
            before[i]
        } by {
            lemma_contains_pushed(names.drop_last(), name, sessions[i].session_id);
        }
        let after = forgetting(RegistryModel { sessions: before, ..registry }, name).sessions;
        let at = session_index(before, name);
        assert forall|i: int| 0 <= i < sessions.len() implies #[trigger] after[i] == crossed_out(
            sessions,
            names,
        )[i] by {
            if has_session(before, name) {
                assert(sessions[at].session_id == name);
                if i != at {
                    assert(sessions[i].session_id != sessions[at].session_id);
                }
            } else {
                assert(before[i].session_id != name);
            }
        }
        assert(after == crossed_out(sessions, names));
    }
}

/// What is still listed then was listed before, and was not among the names.
proof fn lemma_listed_crossed_out(sessions: Seq<SessionModel>, names: Seq<Seq<char>>)
    ensures
        listed(crossed_out(sessions, names)) == survivors(listed(sessions), names),
    decreases sessions.len(),
{
    if sessions.len() > 0 {
        let shorter = sessions.drop_last();
        lemma_listed_crossed_out(shorter, names);
        assert(crossed_out(sessions, names).drop_last() == crossed_out(shorter, names));
        if sessions.last().listed {
            assert(listed(sessions).drop_last() == listed(shorter));
        }
    }
}

/// A listed session is found by its name.
pub proof fn lemma_listed_is_found(sessions: Seq<SessionModel>, at: int)
    requires
        has_distinct_ids(sessions),
        0 <= at < listed(sessions).len(),
    ensures
        lists(sessions, listed(sessions)[at].session_id),
        session_named(sessions, listed(sessions)[at].session_id) == listed(sessions)[at],
{
    lemma_listed_is_distinct(sessions);
    let session = listed(sessions)[at];
    let name = session.session_id;
    assert(sessions.contains(session));
    let k = choose|k: int| 0 <= k < sessions.len() && sessions[k] == session;
    lemma_session_index(sessions, name);
    let found = session_index(sessions, name);
    if found < k {
        assert(sessions[found].session_id != sessions[k].session_id);
    }
    if found > k {
        assert(sessions[k].session_id != name);
    }
}

/// A session that is found by its name and listed is among those listed.
proof fn lemma_found_is_listed(sessions: Seq<SessionModel>, name: Seq<char>)
    requires
        lists(sessions, name),
    ensures
        ids_of(listed(sessions)).contains(name),
{
    lemma_session_index(sessions, name);
    let at = session_index(sessions, name);
    lemma_listed_holds(sessions, at);
    let i = choose|i: int| 0 <= i < listed(sessions).len() && listed(sessions)[i] == sessions[at];
    assert(ids_of(listed(sessions))[i] == name);
}

/// A session that is listed is among those listed.
proof fn lemma_listed_holds(sessions: Seq<SessionModel>, at: int)
    requires
        0 <= at < sessions.len(),
        sessions[at].listed,
    ensures
        listed(sessions).contains(sessions[at]),
    decreases sessions.len(),
{
    let shorter = sessions.drop_last();
    if at < shorter.len() {
        lemma_listed_holds(shorter, at);
        let i = choose|i: int| 0 <= i < listed(shorter).len() && listed(shorter)[i] == shorter[at];
        assert(listed(sessions)[i] == sessions[at]);
    } else {
        assert(listed(sessions)[listed(shorter).len() as int] == sessions[at]);
    }
}

/// A listed session that changes does so at its place.
proof fn lemma_listed_changed(
    sessions: Seq<SessionModel>,
    at: int,
    place: int,
    session: SessionModel,
)
    requires
        has_distinct_ids(sessions),
        0 <= at < sessions.len(),
        sessions[at].listed,
        session.listed,
        0 <= place < listed(sessions).len(),
        listed(sessions)[place].session_id == sessions[at].session_id,
    ensures
        listed(sessions.update(at, session)) == listed(sessions).update(place, session),
    decreases sessions.len(),
{
    let shorter = sessions.drop_last();
    let left = listed(shorter);
    let after = sessions.update(at, session);
    lemma_listed_is_distinct(sessions);
    lemma_listed_is_distinct(shorter);
    assert(has_distinct_ids(shorter)) by {
        assert forall|i: int, j: int| 0 <= i < j < shorter.len() implies (
        #[trigger] shorter[i]).session_id != (#[trigger] shorter[j]).session_id by {
            assert(sessions[i] == shorter[i] && sessions[j] == shorter[j]);
        }
    }
    if at == sessions.len() - 1 {
        assert(after.drop_last() == shorter);
        if place < left.len() {
            assert(listed(sessions)[place] == left[place]);
            assert(listed(sessions)[left.len() as int] == sessions[at]);
            assert(listed(sessions)[place].session_id != listed(
                sessions,
            )[left.len() as int].session_id);
        }
        assert(listed(after) == left.push(session));
    } else {
        assert(after.drop_last() == shorter.update(at, session));
        assert(after.last() == sessions.last());
        if sessions.last().listed && place == left.len() {
            assert(listed(sessions)[place] == sessions[sessions.len() - 1]);
            assert(sessions[at].session_id != sessions[sessions.len() - 1].session_id);
        }
        assert(listed(sessions)[place] == left[place]);
        lemma_listed_changed(shorter, at, place, session);
        if sessions.last().listed {
            assert(left.push(sessions.last()).update(place, session) == left.update(
                place,
                session,
            ).push(sessions.last()));
        }
    }
}

/// What holds of a clean-up once the first `count` sessions were looked at.
spec fn is_sound_at(run: CleanupModel, registry: RegistryModel, count: int) -> bool {
    let sessions = listed(registry.sessions);
    let looked_at = sessions.take(count);
    &&& 0 <= count <= run.ids.len()
    &&& ids_of(sessions) == run.ids
    &&& has_distinct_ids(registry.sessions)
    &&& forall|i: int|
        0 <= i < count && !run.remove_ids.contains(run.ids[i]) ==> !is_expired(
            #[trigger] sessions[i],
            run.now,
            registry.limits,
        )
    &&& forall|i: int|
        count <= i < run.ids.len() ==> !run.remove_ids.contains(#[trigger] run.ids[i])
    &&& run.remove_ids.len() == run.removed_completed_sessions + run.killed_idle_sessions
    &&& run.remaining_running_sessions == live_count(survivors(looked_at, run.remove_ids))
    &&& survivors(looked_at, run.remove_ids).len() + run.remove_ids.len() == count
}

/// What holds of a clean-up at any time.
spec fn is_sound(
    run: CleanupModel,
    registry: RegistryModel,
    ids: Seq<Seq<char>>,
    now: int,
    limits: ProcessSessionRegistryLimits,
) -> bool {
    &&& run.ids == ids
    &&& run.now == now
    &&& registry.limits == limits
    &&& if run.step is Finished {
        &&& forall|i: int|
            0 <= i < listed(registry.sessions).len() ==> !is_expired(
                #[trigger] listed(registry.sessions)[i],
                now,
                limits,
            )
        &&& run.remaining_running_sessions == live_count(listed(registry.sessions))
        &&& run.removed_completed_sessions + run.killed_idle_sessions + listed(
            registry.sessions,
        ).len() == ids.len()
        &&& has_distinct_ids(registry.sessions)
        &&& forall|i: int|
            0 <= i < listed(registry.sessions).len() ==> ids.contains(
                (#[trigger] listed(registry.sessions)[i]).session_id,
            )
        &&& forall|i: int|
            0 <= i < ids.len() && !run.remove_ids.contains(#[trigger] ids[i]) ==> lists(
                registry.sessions,
                ids[i],
            )
    } else {
        is_sound_at(run, registry, run.index) && run.index < ids.len()
    }
}

/// The current session may change as long as it keeps its name and is listed.
proof fn lemma_current_changed(run: CleanupModel, registry: RegistryModel, session: SessionModel)
    requires
        is_sound_at(run, registry, run.index),
        0 <= run.index < run.ids.len(),
        session.session_id == run.ids[run.index],
        session.listed,
    ensures
        is_sound_at(run, storing(registry, session), run.index),
        has_session(registry.sessions, run.ids[run.index]),
        session_named(registry.sessions, run.ids[run.index]) == listed(
            registry.sessions,
        )[run.index],
        session_named(registry.sessions, run.ids[run.index]).listed,
        session_named(registry.sessions, run.ids[run.index]).session_id == run.ids[run.index],
        session_named(storing(registry, session).sessions, run.ids[run.index]) == session,
        has_session(storing(registry, session).sessions, run.ids[run.index]),
        listed(storing(registry, session).sessions) == listed(registry.sessions).update(
            run.index,
            session,
        ),
{
    let whole = registry.sessions;
    let before = listed(whole);
    let id = run.ids[run.index];
    assert(ids_of(before)[run.index] == before[run.index].session_id);
    lemma_listed_is_found(whole, run.index);
    lemma_session_index(whole, id);
    let at = session_index(whole, id);
    let changed = whole.update(at, session);
    lemma_listed_changed(whole, at, run.index, session);
    let after = before.update(run.index, session);
    assert(has_distinct_ids(changed)) by {
        assert forall|i: int, j: int| 0 <= i < j < changed.len() implies (
        #[trigger] changed[i]).session_id != (#[trigger] changed[j]).session_id by {
            assert(whole[i].session_id != whole[j].session_id);
        }
    }
    assert(ids_of(after) == ids_of(before));
    assert(after.take(run.index) == before.take(run.index));
    assert forall|i: int|
        0 <= i < run.index && !run.remove_ids.contains(run.ids[i]) implies !is_expired(
        #[trigger] after[i],
        run.now,
        registry.limits,
    ) by {
        assert(after[i] == before[i]);
    }
    lemma_listed_is_found(changed, run.index);
}

/// The current session is to go.
proof fn lemma_current_removed(run: CleanupModel, registry: RegistryModel, next: CleanupModel)
    requires
        is_sound_at(run, registry, run.index),
        0 <= run.index < run.ids.len(),
        next == noting_completed(run) || next == noting_killed(run),
    ensures
        is_sound_at(next, registry, run.index + 1),
{
    let sessions = listed(registry.sessions);
    lemma_listed_is_distinct(registry.sessions);
    let id = run.ids[run.index];
    assert(ids_of(sessions)[run.index] == sessions[run.index].session_id);
    let before = sessions.take(run.index);
    let after = sessions.take(run.index + 1);
    assert(after.drop_last() == before);
    assert(after.last() == sessions[run.index]);
    lemma_contains_pushed(run.remove_ids, id, id);
    assert forall|i: int| 0 <= i < before.len() implies (#[trigger] before[i]).session_id
        != id by {
        assert(before[i] == sessions[i]);
        assert(sessions[run.index].session_id == id);
    }
    lemma_survivors_of_other(before, run.remove_ids, id);
    assert forall|i: int|
        0 <= i < run.index + 1 && !next.remove_ids.contains(next.ids[i]) implies !is_expired(
        #[trigger] sessions[i],
        run.now,
        registry.limits,
    ) by {
        lemma_contains_pushed(run.remove_ids, id, run.ids[i]);
        assert(!run.remove_ids.contains(run.ids[i]));
    }
    assert forall|i: int| run.index + 1 <= i < run.ids.len() implies !next.remove_ids.contains(
        #[trigger] next.ids[i],
    ) by {
        lemma_contains_pushed(run.remove_ids, id, run.ids[i]);
        assert(ids_of(sessions)[i] == sessions[i].session_id);
        assert(sessions[i].session_id != sessions[run.index].session_id);
    }
}

/// The current session stays.
proof fn lemma_current_kept(run: CleanupModel, registry: RegistryModel, next: CleanupModel)
    requires
        is_sound_at(run, registry, run.index),
        0 <= run.index < run.ids.len(),
        !is_expired(listed(registry.sessions)[run.index], run.now, registry.limits),
        next == if is_live(listed(registry.sessions)[run.index]) {
            noting_running(run)
        } else {
            run
        },
    ensures
        is_sound_at(next, registry, run.index + 1),
{
    let sessions = listed(registry.sessions);
    let after = sessions.take(run.index + 1);
    assert(ids_of(sessions)[run.index] == sessions[run.index].session_id);
    assert(after.drop_last() == sessions.take(run.index));
    assert(after.last() == sessions[run.index]);
    assert(!run.remove_ids.contains(run.ids[run.index]));
    let left = survivors(sessions.take(run.index), run.remove_ids);
    assert(left.push(after.last()).drop_last() == left);
}

/// Going on with the next session is sound.
proof fn lemma_next_session(
    run: CleanupModel,
    registry: RegistryModel,
    ids: Seq<Seq<char>>,
    now: int,
    limits: ProcessSessionRegistryLimits,
)
    requires
        is_sound_at(run, registry, run.index + 1),
        run.ids == ids,
        run.now == now,
        registry.limits == limits,
    ensures
        is_sound(
            next_session(run, registry).0,
            next_session(run, registry).1,
            ids,
            now,
            limits,
        ),
{
    if run.index + 1 >= run.ids.len() {
        let whole = registry.sessions;
        let sessions = listed(whole);
        assert(ids_of(sessions).len() == sessions.len());
        assert(sessions.take(run.index + 1) == sessions);
        lemma_forgetting_all(registry, run.remove_ids);
        lemma_listed_crossed_out(whole, run.remove_ids);
        lemma_listed_is_distinct(whole);
        lemma_survivors_are_distinct(sessions, run.remove_ids);
        let left = survivors(sessions, run.remove_ids);
        let after = crossed_out(whole, run.remove_ids);
        lemma_survivors_have_other_names(sessions, run.remove_ids);
        assert forall|i: int| 0 <= i < left.len() implies !is_expired(
            #[trigger] left[i],
            now,
            limits,
        ) && ids.contains(left[i].session_id) by {
            let j = choose|j: int| 0 <= j < sessions.len() && sessions[j] == left[i];
            assert(sessions[j] == left[i]);
            assert(ids_of(sessions)[j] == sessions[j].session_id);
            assert(!run.remove_ids.contains(run.ids[j]));
        }
        assert(has_distinct_ids(after)) by {
            assert forall|i: int, j: int| 0 <= i < j < after.len() implies (
            #[trigger] after[i]).session_id != (#[trigger] after[j]).session_id by {
                assert(whole[i].session_id != whole[j].session_id);
            }
        }
        assert forall|i: int|
            0 <= i < ids.len() && !run.remove_ids.contains(#[trigger] ids[i]) implies lists(
            after,
            ids[i],
        ) by {
            assert(ids_of(sessions)[i] == sessions[i].session_id);
            let name = ids[i];
            lemma_listed_is_found(whole, i);
            lemma_session_index(whole, name);
            lemma_session_index(after, name);
            let at = session_index(whole, name);
            let found = session_index(after, name);
            assert(after[at] == whole[at]);
            if found < at {
                assert(after[found].session_id != after[at].session_id);
            }
            if found > at {
                assert(after[at].session_id != name);
            }
        }
    }
}

/// What is left does not have a name that was left out.
proof fn lemma_survivors_have_other_names(sessions: Seq<SessionModel>, names: Seq<Seq<char>>)
    ensures
        forall|i: int|
            0 <= i < survivors(sessions, names).len() ==> !names.contains(
                (#[trigger] survivors(sessions, names)[i]).session_id,
            ),
    decreases sessions.len(),
{
    if sessions.len() > 0 {
        lemma_survivors_have_other_names(sessions.drop_last(), names);
    }
}

/// Deciding on the current session is sound.
proof fn lemma_judged(
    run: CleanupModel,
    registry: RegistryModel,
    at: int,
    ids: Seq<Seq<char>>,
    now: int,
    limits: ProcessSessionRegistryLimits,
)
    requires
        is_sound_at(run, registry, run.index),
        0 <= run.index < run.ids.len(),
        run.step is Probe,
        run.ids == ids,
        run.now == now,
        registry.limits == limits,
        has_session(registry.sessions, run.ids[run.index]),
        session_named(registry.sessions, run.ids[run.index]) == listed(
            registry.sessions,
        )[run.index],
        session_named(registry.sessions, run.ids[run.index]).listed,
    ensures
        is_sound(
            session_judged(run, registry, at).0,
            session_judged(run, registry, at).1,
            ids,
            now,
            limits,
        ),
{
    let id = run.ids[run.index];
    let session = session_named(registry.sessions, id);
    lemma_session_index(registry.sessions, id);
    if is_expired(session, now, limits) {
        if session.completed_at is Some {
            lemma_current_removed(run, registry, noting_completed(run));
            lemma_next_session(noting_completed(run), registry, ids, now, limits);
        } else {
            let begun = with_kill_begun(registry, id, at);
            lemma_current_changed(run, registry, kill_begun(session, at));
            if kill_start(session) is Done {
                lemma_current_removed(run, begun, noting_killed(run));
                lemma_next_session(noting_killed(run), begun, ids, now, limits);
            }
        }
    } else if is_live(session) {
        lemma_current_kept(run, registry, noting_running(run));
        lemma_next_session(noting_running(run), registry, ids, now, limits);
    } else {
        lemma_current_kept(run, registry, run);
        lemma_next_session(run, registry, ids, now, limits);
    }
}

/// A clean-up stays sound with every answer.
proof fn lemma_sound_step(
    run: CleanupModel,
    registry: RegistryModel,
    reply: KillReplyModel,
    at: int,
    ids: Seq<Seq<char>>,
    now: int,
    limits: ProcessSessionRegistryLimits,
)
    requires
        is_sound(run, registry, ids, now, limits),
    ensures
        is_sound(
            cleanup_next(run, registry, reply, at).0,
            cleanup_next(run, registry, reply, at).1,
            ids,
            now,
            limits,
        ),
{
    if !(run.step is Finished) {
        let id = run.ids[run.index];
        let current = listed(registry.sessions)[run.index];
        assert(ids_of(listed(registry.sessions))[run.index] == current.session_id);
        lemma_listed_is_distinct(registry.sessions);
        assert(current.listed);
        lemma_current_changed(run, registry, current);
        let session = session_named(registry.sessions, id);
        match run.step {
            CleanupStep::Probe => {
                if reply is Probed && !is_busy(registry, id) {
                    let probe = reply->Probed_0;
                    let looked = refreshed(session, probe, at);
                    lemma_current_changed(run, registry, looked);
                    let after = with_refreshed(registry, id, probe, at);
                    lemma_current_changed(run, after, looked);
                    lemma_judged(run, after, at, ids, now, limits);
                }
            },
            CleanupStep::Kill { step } => {
                let next = kill_next(session, step, reply, at).0;
                lemma_current_changed(run, registry, next);
                let after = with_kill_continued(registry, id, step, reply, at);
                if kill_next(session, step, reply, at).1 is Done {
                    lemma_current_removed(run, after, noting_killed(run));
                    lemma_next_session(noting_killed(run), after, ids, now, limits);
                }
            },
            CleanupStep::Finished => {},
        }
    }
}

/// A clean-up is sound after any answers.
proof fn lemma_sound(registry: RegistryModel, now: int, answers: Seq<(KillReplyModel, int)>)
    requires
        has_distinct_ids(registry.sessions),
    ensures
        is_sound(
            cleaned_up(registry, now, answers).0,
            cleaned_up(registry, now, answers).1,
            ids_of(listed(registry.sessions)),
            now,
            registry.limits,
        ),
    decreases answers.len(),
{
    if answers.len() == 0 {
        assert(listed(registry.sessions).take(0) == Seq::<SessionModel>::empty());
        assert forall|i: int| 0 <= i < ids_of(listed(registry.sessions)).len() implies lists(
            registry.sessions,
            #[trigger] ids_of(listed(registry.sessions))[i],
        ) by {
            lemma_listed_is_found(registry.sessions, i);
        }
    } else {
        lemma_sound(registry, now, answers.drop_last());
        let (run, current) = cleaned_up(registry, now, answers.drop_last());
        lemma_sound_step(
            run,
            current,
            answers.last().0,
            answers.last().1,
            ids_of(listed(registry.sessions)),
            now,
            registry.limits,
        );
    }
}

/// A clean-up that has ended, with nothing else going on meanwhile, leaves no
/// session that is over, adds none, counts what it removed, and counts the
/// processes that still run.
pub proof fn law_clean_up_is_thorough(
    registry: RegistryModel,
    now: int,
    answers: Seq<(KillReplyModel, int)>,
)
    requires
        has_distinct_ids(registry.sessions),
        cleaned_up(registry, now, answers).0.step is Finished,
    ensures
        forall|i: int|
            0 <= i < listed(cleaned_up(registry, now, answers).1.sessions).len() ==> !is_expired(
                #[trigger] listed(cleaned_up(registry, now, answers).1.sessions)[i],
                now,
                registry.limits,
            ),
        forall|i: int|
            0 <= i < listed(cleaned_up(registry, now, answers).1.sessions).len() ==> ids_of(
                listed(registry.sessions),
            ).contains(
                (#[trigger] listed(cleaned_up(registry, now, answers).1.sessions)[i]).session_id,
            ),
        cleaned_up(registry, now, answers).0.remaining_running_sessions == live_count(
            listed(cleaned_up(registry, now, answers).1.sessions),
        ),
        cleaned_up(registry, now, answers).0.removed_completed_sessions + cleaned_up(
            registry,
            now,
            answers,
        ).0.killed_idle_sessions + listed(cleaned_up(registry, now, answers).1.sessions).len()
            == listed(registry.sessions).len(),
{
    lemma_sound(registry, now, answers);
}

/// Whether answer `at` was a look at the session of that name, which showed
/// that it is over: for having been idle, or with an end of its process.
pub open spec fn is_seen_over(
    registry: RegistryModel,
    now: int,
    answers: Seq<(KillReplyModel, int)>,
    at: int,
    name: Seq<char>,
    idle: bool,
) -> bool {
    let (run, current) = cleaned_up(registry, now, answers.take(at));
    &&& run.step is Probe
    &&& run.ids[run.index] == name
    &&& !is_busy(current, name)
    &&& answers[at].0 matches KillReplyModel::Probed(probe) && {
        let session = refreshed(session_named(current.sessions, name), probe, answers[at].1);
        is_expired(session, now, registry.limits) && (idle <==> session.completed_at is None)
    }
}

/// Whether one of the answers was such a look.
pub open spec fn was_seen_over(
    registry: RegistryModel,
    now: int,
    answers: Seq<(KillReplyModel, int)>,
    name: Seq<char>,
    idle: bool,
) -> bool {
    exists|at: int|
        0 <= at < answers.len() && #[trigger] is_seen_over(registry, now, answers, at, name, idle)
}

/// Whether the session of that name was seen to be over, for whichever reason.
pub open spec fn was_over(
    registry: RegistryModel,
    now: int,
    answers: Seq<(KillReplyModel, int)>,
    name: Seq<char>,
) -> bool {
    was_seen_over(registry, now, answers, name, true) || was_seen_over(
        registry,
        now,
        answers,
        name,
        false,
    )
}

/// How many of the names were seen to be over for that reason.
pub open spec fn seen_count(
    registry: RegistryModel,
    now: int,
    answers: Seq<(KillReplyModel, int)>,
    names: Seq<Seq<char>>,
    idle: bool,
) -> int
    decreases names.len(),
{
    if names.len() == 0 {
        0
    } else {
        seen_count(registry, now, answers, names.drop_last(), idle) + if was_seen_over(
            registry,
            now,
            answers,
            names.last(),
            idle,
        ) {
            1int
        } else {
            0
        }
    }
}

/// One answer more shows what was seen before, and what it shows itself.
proof fn lemma_seen_after(
    registry: RegistryModel,
    now: int,
    answers: Seq<(KillReplyModel, int)>,
    name: Seq<char>,
    idle: bool,
)
    requires
        answers.len() > 0,
    ensures
        was_seen_over(registry, now, answers, name, idle) <==> was_seen_over(
            registry,
            now,
            answers.drop_last(),
            name,
            idle,
        ) || is_seen_over(registry, now, answers, answers.len() - 1, name, idle),
{
    let shorter = answers.drop_last();
    if was_seen_over(registry, now, shorter, name, idle) {
        let at = choose|at: int|
            0 <= at < shorter.len() && #[trigger] is_seen_over(
                registry,
                now,
                shorter,
                at,
                name,
                idle,
            );
        assert(answers.take(at) == shorter.take(at));
        assert(answers[at] == shorter[at]);
        assert(is_seen_over(registry, now, answers, at, name, idle));
    }
    if was_seen_over(registry, now, answers, name, idle) {
        let at = choose|at: int|
            0 <= at < answers.len() && #[trigger] is_seen_over(
                registry,
                now,
                answers,
                at,
                name,
                idle,
            );
        if at < shorter.len() {
            assert(answers.take(at) == shorter.take(at));
            assert(answers[at] == shorter[at]);
            assert(is_seen_over(registry, now, shorter, at, name, idle));
        }
    }
}

/// What one answer more shows of one of the names changes the count by that.
proof fn lemma_count_after(
    registry: RegistryModel,
    now: int,
    answers: Seq<(KillReplyModel, int)>,
    names: Seq<Seq<char>>,
    idle: bool,
    place: int,
)
    requires
        answers.len() > 0,
        forall|i: int|
            0 <= i < names.len() && i != place ==> !is_seen_over(
                registry,
                now,
                answers,
                answers.len() - 1,
                #[trigger] names[i],
                idle,
            ),
        0 <= place < names.len() ==> !was_seen_over(
            registry,
            now,
            answers.drop_last(),
            names[place],
            idle,
        ) || !is_seen_over(registry, now, answers, answers.len() - 1, names[place], idle),
    ensures
        seen_count(registry, now, answers, names, idle) == seen_count(
            registry,
            now,
            answers.drop_last(),
            names,
            idle,
        ) + if 0 <= place < names.len() && is_seen_over(
            registry,
            now,
            answers,
            answers.len() - 1,
            names[place],
            idle,
        ) {
            1int
        } else {
            0
        },
    decreases names.len(),
{
    if names.len() > 0 {
        let fewer = names.drop_last();
        let last = names.len() - 1;
        assert(names[last] == names.last());
        lemma_seen_after(registry, now, answers, names.last(), idle);
        assert forall|i: int| 0 <= i < fewer.len() && i != place implies !is_seen_over(
            registry,
            now,
            answers,
            answers.len() - 1,
            #[trigger] fewer[i],
            idle,
        ) by {
            assert(fewer[i] == names[i]);
        }
        if 0 <= place < fewer.len() {
            assert(fewer[place] == names[place]);
        }
        lemma_count_after(registry, now, answers, fewer, idle, place);
    }
}

/// What the last answer brings about, by what it shows.
proof fn lemma_last_answer(registry: RegistryModel, now: int, answers: Seq<(KillReplyModel, int)>)
    requires
        has_distinct_ids(registry.sessions),
        answers.len() > 0,
    ensures
        ({
            let run = cleaned_up(registry, now, answers.drop_last()).0;
            let next = cleaned_up(registry, now, answers).0;
            let name = run.ids[run.index];
            let last = answers.len() - 1;
            let ended = is_seen_over(registry, now, answers, last, name, false);
            let idle = is_seen_over(registry, now, answers, last, name, true);
            let removed = next.remove_ids == run.remove_ids.push(name);
            let goes_on = next.index == run.index + 1 && !(next.step is Kill);
            &&& forall|other: Seq<char>, reason: bool|
                other != name ==> !#[trigger] is_seen_over(
                    registry,
                    now,
                    answers,
                    last,
                    other,
                    reason,
                )
            &&& ended || idle ==> run.step is Probe && !(ended && idle)
            &&& next.removed_completed_sessions == run.removed_completed_sessions + if ended {
                1int
            } else {
                0
            }
            &&& next.killed_idle_sessions == run.killed_idle_sessions || (next.killed_idle_sessions
                == run.killed_idle_sessions + 1 && removed && goes_on && (idle || run.step is Kill))
            &&& ended ==> removed && goes_on && next.killed_idle_sessions
                == run.killed_idle_sessions
            &&& !removed ==> next.remove_ids == run.remove_ids
            &&& removed ==> ended || idle || run.step is Kill
            &&& idle && next.killed_idle_sessions == run.killed_idle_sessions ==> next.step is Kill
                && next.index == run.index
            &&& run.step is Kill && next.killed_idle_sessions == run.killed_idle_sessions
                ==> next.step is Kill && next.index == run.index
            &&& next.step is Kill ==> next.index == run.index && (run.step is Kill || idle)
            &&& next.step is Probe ==> goes_on || (next.index == run.index && run.step is Probe
                && !ended && !idle)
            &&& next.index == run.index || next.index == run.index + 1
            &&& next.ids == run.ids
        }),
{
    let (run, current) = cleaned_up(registry, now, answers.drop_last());
    let (reply, at) = answers.last();
    lemma_sound(registry, now, answers.drop_last());
    let name = run.ids[run.index];
    let last = answers.len() - 1;
    assert(answers.take(last) == answers.drop_last());
    assert(answers[last] == answers.last());
    if run.step is Probe && reply is Probed && !is_busy(current, name) {
        let probe = reply->Probed_0;
        let first = listed(current.sessions)[run.index];
        assert(ids_of(listed(current.sessions))[run.index] == first.session_id);
        lemma_listed_is_distinct(current.sessions);
        assert(first.listed);
        lemma_current_changed(run, current, first);
        let session = refreshed(session_named(current.sessions, name), probe, at);
        let after = with_refreshed(current, name, probe, at);
        lemma_current_changed(run, current, session);
        lemma_current_changed(run, after, session);
        assert(session_named(after.sessions, name) == session);
    }
    if run.step is Kill {
        let first = listed(current.sessions)[run.index];
        assert(ids_of(listed(current.sessions))[run.index] == first.session_id);
        lemma_listed_is_distinct(current.sessions);
        assert(first.listed);
        lemma_current_changed(run, current, first);
    }
}

/// What a clean-up counted, by what it saw.
spec fn is_counted(
    registry: RegistryModel,
    now: int,
    answers: Seq<(KillReplyModel, int)>,
    ids: Seq<Seq<char>>,
) -> bool {
    let run = cleaned_up(registry, now, answers).0;
    &&& run.ids == ids
    &&& run.removed_completed_sessions == seen_count(registry, now, answers, ids, false)
    &&& run.killed_idle_sessions + if run.step is Kill {
        1int
    } else {
        0
    } == seen_count(registry, now, answers, ids, true)
    &&& forall|i: int|
        0 <= i < ids.len() && (i > run.index || (i == run.index && run.step is Probe))
            ==> !was_over(registry, now, answers, #[trigger] ids[i])
    &&& run.step is Kill ==> was_seen_over(registry, now, answers, ids[run.index], true)
    &&& forall|i: int|
        0 <= i < ids.len() ==> !(was_seen_over(registry, now, answers, #[trigger] ids[i], true)
            && was_seen_over(registry, now, answers, ids[i], false))
    &&& forall|name: Seq<char>| #[trigger]
        run.remove_ids.contains(name) ==> was_over(registry, now, answers, name)
}

/// A clean-up counts by what it saw, after any answers.
proof fn lemma_counted(registry: RegistryModel, now: int, answers: Seq<(KillReplyModel, int)>)
    requires
        has_distinct_ids(registry.sessions),
    ensures
        is_counted(registry, now, answers, ids_of(listed(registry.sessions))),
    decreases answers.len(),
{
    let ids = ids_of(listed(registry.sessions));
    if answers.len() == 0 {
        lemma_none_seen(registry, now, answers, ids, true);
        lemma_none_seen(registry, now, answers, ids, false);
    } else {
        let shorter = answers.drop_last();
        let run = cleaned_up(registry, now, shorter).0;
        let next = cleaned_up(registry, now, answers).0;
        let last = answers.len() - 1;
        let name = run.ids[run.index];
        lemma_counted(registry, now, shorter);
        lemma_sound(registry, now, shorter);
        lemma_last_answer(registry, now, answers);
        lemma_listed_is_distinct(registry.sessions);
        assert forall|other: Seq<char>, reason: bool| #[trigger]
            was_seen_over(registry, now, answers, other, reason) <==> was_seen_over(
                registry,
                now,
                shorter,
                other,
                reason,
            ) || is_seen_over(registry, now, answers, last, other, reason) by {
            lemma_seen_after(registry, now, answers, other, reason);
        }
        if !(run.step is Finished) {
            assert forall|i: int| 0 <= i < ids.len() && i != run.index implies #[trigger] ids[i]
                != name by {
                let all = listed(registry.sessions);
                assert(ids[i] == all[i].session_id);
                assert(ids[run.index] == all[run.index].session_id);
            }
        }
        assert forall|reason: bool, i: int|
            0 <= i < ids.len() && i != run.index implies !#[trigger] is_seen_over(
            registry,
            now,
            answers,
            last,
            ids[i],
            reason,
        ) by {
            if run.step is Finished {
                assert(answers.take(last) == shorter);
            }
        }
        if run.step is Finished && 0 <= run.index < ids.len() {
            assert(answers.take(last) == shorter);
        }
        if is_seen_over(registry, now, answers, last, name, true) || is_seen_over(
            registry,
            now,
            answers,
            last,
            name,
            false,
        ) {
            assert(!was_over(registry, now, shorter, ids[run.index]));
        }
        lemma_count_after(registry, now, answers, ids, true, run.index);
        lemma_count_after(registry, now, answers, ids, false, run.index);
        assert forall|other: Seq<char>| #[trigger]
            next.remove_ids.contains(other) implies was_over(registry, now, answers, other) by {
            lemma_contains_pushed(run.remove_ids, name, other);
            if run.remove_ids.contains(other) {
                assert(was_over(registry, now, shorter, other));
            }
        }
    }
}

/// Without any answer nothing was seen.
proof fn lemma_none_seen(
    registry: RegistryModel,
    now: int,
    answers: Seq<(KillReplyModel, int)>,
    names: Seq<Seq<char>>,
    idle: bool,
)
    requires
        answers.len() == 0,
    ensures
        seen_count(registry, now, answers, names, idle) == 0,
    decreases names.len(),
{
    if names.len() > 0 {
        lemma_none_seen(registry, now, answers, names.drop_last(), idle);
    }
}

/// A clean-up that has ended, with nothing else going on meanwhile, counts as
/// removed the sessions that it saw to be over with an end of their process,
/// and as killed those that it saw to be over for having been idle; no session
/// is both.
pub proof fn law_clean_up_counts_by_reason(
    registry: RegistryModel,
    now: int,
    answers: Seq<(KillReplyModel, int)>,
)
    requires
        has_distinct_ids(registry.sessions),
        cleaned_up(registry, now, answers).0.step is Finished,
    ensures
        cleaned_up(registry, now, answers).0.removed_completed_sessions == seen_count(
            registry,
            now,
            answers,
            ids_of(listed(registry.sessions)),
            false,
        ),
        cleaned_up(registry, now, answers).0.killed_idle_sessions == seen_count(
            registry,
            now,
            answers,
            ids_of(listed(registry.sessions)),
            true,
        ),
        forall|i: int|
            0 <= i < ids_of(listed(registry.sessions)).len() ==> !(was_seen_over(
                registry,
                now,
                answers,
                #[trigger] ids_of(listed(registry.sessions))[i],
                true,
            ) && was_seen_over(
                registry,
                now,
                answers,
                ids_of(listed(registry.sessions))[i],
                false,
            )),
{
    lemma_counted(registry, now, answers);
}

/// A clean-up, with nothing else going on meanwhile, kills a process only after
/// it saw that nothing has happened for some time, and removes a session only
/// after it saw that the session is over.
pub proof fn law_clean_up_spares_the_rest(
    registry: RegistryModel,
    now: int,
    answers: Seq<(KillReplyModel, int)>,
)
    requires
        has_distinct_ids(registry.sessions),
    ensures
        cleaned_up(registry, now, answers).0.step is Kill ==> was_seen_over(
            registry,
            now,
            answers,
            cleaned_up(registry, now, answers).0.ids[cleaned_up(registry, now, answers).0.index],
            true,
        ),
        forall|name: Seq<char>|
            lists(registry.sessions, name) && !#[trigger] lists(
                cleaned_up(registry, now, answers).1.sessions,
                name,
            ) ==> was_over(registry, now, answers, name),
{
    lemma_counted(registry, now, answers);
    lemma_sound(registry, now, answers);
    let (run, after) = cleaned_up(registry, now, answers);
    let ids = ids_of(listed(registry.sessions));
    assert forall|name: Seq<char>|
        lists(registry.sessions, name) && !#[trigger] lists(after.sessions, name) implies was_over(
        registry,
        now,
        answers,
        name,
    ) by {
        lemma_found_is_listed(registry.sessions, name);
        let i = choose|i: int| 0 <= i < ids.len() && ids[i] == name;
        if !(run.step is Finished) {
            lemma_listed_is_found(after.sessions, i);
            assert(ids_of(listed(after.sessions))[i] == listed(after.sessions)[i].session_id);
        }
        assert(run.remove_ids.contains(ids[i]));
    }
}

} // verus!
