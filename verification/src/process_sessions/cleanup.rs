//! Sorting out sessions that are over, and ending all of them.

use crate::host::time::{exceeded_retention, retention_is_over, Timestamp};
use crate::process_sessions::errors::{ProcessSessionError, SessionErrorModel};
use crate::process_sessions::registry::{
    forgetting, has_session, ids_of, is_busy, listed, session_named, with_kill_begun,
    with_kill_continued, with_refreshed, ProcessSessionCleanupReport, ProcessSessionRegistry,
    RegistryModel,
};
use crate::process_sessions::session::{
    kill_next, kill_start, KillProgress, KillProgressModel, KillReply, KillReplyModel, KillStep,
};
use crate::text::lines::texts;
use vstd::prelude::*;

verus! {

/// What is to be done with the process of a session.
#[derive(Debug, Clone, PartialEq, Eq)]
pub enum SessionRequest {
    /// Look whether it has ended; while somebody else is killing it, look once
    /// that is over. Answered by what was seen.
    Probe { session_id: String },
    /// Kill it. Answered by its success.
    Kill { session_id: String },
    /// Wait for its end. Answered by how it ended.
    Wait { session_id: String },
}

/// What such a request says.
#[verifier::ext_equal]
pub enum SessionRequestModel {
    Probe { session_id: Seq<char> },
    Kill { session_id: Seq<char> },
    Wait { session_id: Seq<char> },
}

impl View for SessionRequest {
    type V = SessionRequestModel;

    open spec fn view(&self) -> SessionRequestModel {
        match self {
            SessionRequest::Probe { session_id } => SessionRequestModel::Probe {
                session_id: session_id@,
            },
            SessionRequest::Kill { session_id } => SessionRequestModel::Kill {
                session_id: session_id@,
            },
            SessionRequest::Wait { session_id } => SessionRequestModel::Wait {
                session_id: session_id@,
            },
        }
    }
}

/// What `step` of killing a process asks for.
pub open spec fn kill_request(step: KillStep, session_id: Seq<char>) -> SessionRequestModel {
    match step {
        KillStep::Queue => SessionRequestModel::Probe { session_id },
        KillStep::Probe => SessionRequestModel::Probe { session_id },
        KillStep::Kill => SessionRequestModel::Kill { session_id },
        KillStep::Wait => SessionRequestModel::Wait { session_id },
    }
}

/// What `step` of killing a process asks for.
pub fn ask_kill(step: KillStep, session_id: &str) -> (r: SessionRequest)
    ensures
        r@ == kill_request(step, session_id@),
{
    match step {
        KillStep::Queue => SessionRequest::Probe { session_id: session_id.to_string() },
        KillStep::Probe => SessionRequest::Probe { session_id: session_id.to_string() },
        KillStep::Kill => SessionRequest::Kill { session_id: session_id.to_string() },
        KillStep::Wait => SessionRequest::Wait { session_id: session_id.to_string() },
    }
}

/// The question that is open.
#[derive(Debug, Clone, Copy, PartialEq, Eq, Structural)]
pub enum CleanupStep {
    Probe,
    Kill { step: KillStep },
    Finished,
}

/// A clean-up that is under way: the sessions that were listed when it began
/// are looked at one by one.
pub struct CleanupRun {
    ids: Vec<String>,
    index: usize,
    now: Timestamp,
    step: CleanupStep,
    remove_ids: Vec<String>,
    removed_completed_sessions: usize,
    killed_idle_sessions: usize,
    remaining_running_sessions: usize,
}

/// What the state of a clean-up says.
#[verifier::ext_equal]
pub struct CleanupModel {
    pub ids: Seq<Seq<char>>,
    pub index: int,
    pub now: int,
    pub step: CleanupStep,
    pub remove_ids: Seq<Seq<char>>,
    pub removed_completed_sessions: int,
    pub killed_idle_sessions: int,
    pub remaining_running_sessions: int,
}

impl View for CleanupRun {
    type V = CleanupModel;

    closed spec fn view(&self) -> CleanupModel {
        CleanupModel {
            ids: texts(self.ids@),
            index: self.index as int,
            now: self.now@,
            step: self.step,
            remove_ids: texts(self.remove_ids@),
            removed_completed_sessions: self.removed_completed_sessions as int,
            killed_idle_sessions: self.killed_idle_sessions as int,
            remaining_running_sessions: self.remaining_running_sessions as int,
        }
    }
}

/// The beginning of a clean-up.
pub open spec fn cleanup_started(registry: RegistryModel, now: int) -> CleanupModel {
    CleanupModel {
        ids: ids_of(listed(registry.sessions)),
        index: 0,
        now,
        step: if listed(registry.sessions).len() == 0 {
            CleanupStep::Finished
        } else {
            CleanupStep::Probe
        },
        remove_ids: seq![],
        removed_completed_sessions: 0,
        killed_idle_sessions: 0,
        remaining_running_sessions: 0,
    }
}

/// What the clean-up asks for.
pub open spec fn cleanup_request(run: CleanupModel) -> Option<SessionRequestModel> {
    match run.step {
        CleanupStep::Probe => Some(SessionRequestModel::Probe { session_id: run.ids[run.index] }),
        CleanupStep::Kill { step } => Some(kill_request(step, run.ids[run.index])),
        CleanupStep::Finished => None,
    }
}

/// The session whose process the clean-up is killing. One that somebody else is
/// killing does not count.
pub open spec fn cleanup_kills(run: CleanupModel) -> Option<Seq<char>> {
    match run.step {
        CleanupStep::Kill { step } => if step == KillStep::Queue {
            None
        } else {
            Some(run.ids[run.index])
        },
        _ => None,
    }
}

/// The registry, with the sessions of those names not listed any more.
pub open spec fn forgetting_all(registry: RegistryModel, ids: Seq<Seq<char>>) -> RegistryModel
    decreases ids.len(),
{
    if ids.len() == 0 {
        registry
    } else {
        forgetting(forgetting_all(registry, ids.drop_last()), ids.last())
    }
}

/// The clean-up goes on with the next session. Behind the last one, what has to
/// go is removed.
pub open spec fn next_session(run: CleanupModel, registry: RegistryModel) -> (
    CleanupModel,
    RegistryModel,
) {
    if run.index + 1 < run.ids.len() {
        (CleanupModel { index: run.index + 1, step: CleanupStep::Probe, ..run }, registry)
    } else {
        (
            CleanupModel { index: run.index + 1, step: CleanupStep::Finished, ..run },
            forgetting_all(registry, run.remove_ids),
        )
    }
}

/// The current session has ended, and is to go.
pub open spec fn noting_completed(run: CleanupModel) -> CleanupModel {
    CleanupModel {
        remove_ids: run.remove_ids.push(run.ids[run.index]),
        removed_completed_sessions: run.removed_completed_sessions + 1,
        ..run
    }
}

/// The process of the current session was killed, and the session is to go.
pub open spec fn noting_killed(run: CleanupModel) -> CleanupModel {
    CleanupModel {
        remove_ids: run.remove_ids.push(run.ids[run.index]),
        killed_idle_sessions: run.killed_idle_sessions + 1,
        ..run
    }
}

/// The process of the current session runs on.
pub open spec fn noting_running(run: CleanupModel) -> CleanupModel {
    CleanupModel { remaining_running_sessions: run.remaining_running_sessions + 1, ..run }
}

/// What becomes of the current session once its process was looked at: what has
/// ended goes after a while, and so does what has been idle for a while, after
/// its process was killed.
pub open spec fn session_judged(run: CleanupModel, registry: RegistryModel, now: int) -> (
    CleanupModel,
    RegistryModel,
) {
    let id = run.ids[run.index];
    if !has_session(registry.sessions, id) {
        next_session(run, registry)
    } else {
        let session = session_named(registry.sessions, id);
        match session.completed_at {
            Some(at) => if retention_is_over(
                run.now,
                at,
                registry.limits.completed_retention as int,
            ) {
                next_session(noting_completed(run), registry)
            } else {
                next_session(run, registry)
            },
            None => if retention_is_over(
                run.now,
                session.last_activity_at,
                registry.limits.idle_retention as int,
            ) {
                match kill_start(session) {
                    KillProgressModel::Ask(step) => (
                        CleanupModel { step: CleanupStep::Kill { step }, ..run },
                        with_kill_begun(registry, id, now),
                    ),
                    KillProgressModel::Done(_) => next_session(
                        noting_killed(run),
                        with_kill_begun(registry, id, now),
                    ),
                }
            } else if session.exit_state is Running {
                next_session(noting_running(run), registry)
            } else {
                next_session(run, registry)
            },
        }
    }
}

/// The clean-up and the registry after an answer. An answer to another question
/// changes nothing, and neither does a look at a process that somebody else is
/// killing.
pub open spec fn cleanup_next(
    run: CleanupModel,
    registry: RegistryModel,
    reply: KillReplyModel,
    now: int,
) -> (CleanupModel, RegistryModel) {
    let id = run.ids[run.index];
    match run.step {
        CleanupStep::Probe => match reply {
            KillReplyModel::Probed(probe) => if is_busy(registry, id) {
                (run, registry)
            } else {
                session_judged(run, with_refreshed(registry, id, probe, now), now)
            },
            _ => (run, registry),
        },
        CleanupStep::Kill { step } => {
            let after = with_kill_continued(registry, id, step, reply, now);
            if !has_session(registry.sessions, id) {
                next_session(noting_killed(run), registry)
            } else {
                match kill_next(session_named(registry.sessions, id), step, reply, now).1 {
                    KillProgressModel::Ask(next) => (
                        CleanupModel { step: CleanupStep::Kill { step: next }, ..run },
                        after,
                    ),
                    KillProgressModel::Done(_) => next_session(noting_killed(run), after),
                }
            }
        },
        CleanupStep::Finished => (run, registry),
    }
}

/// What a clean-up came to, once it has ended.
pub open spec fn cleanup_report(run: CleanupModel) -> Option<ProcessSessionCleanupReport> {
    match run.step {
        CleanupStep::Finished => Some(
            ProcessSessionCleanupReport {
                removed_completed_sessions: run.removed_completed_sessions as usize,
                killed_idle_sessions: run.killed_idle_sessions as usize,
                remaining_running_sessions: run.remaining_running_sessions as usize,
            },
        ),
        _ => None,
    }
}

impl CleanupRun {
    /// The counts are of sessions that were looked at.
    pub closed spec fn well_formed(&self) -> bool {
        &&& self.removed_completed_sessions + self.killed_idle_sessions
            + self.remaining_running_sessions <= self.index <= self.ids@.len() <= usize::MAX
        &&& !(self.step is Finished) ==> self.index < self.ids@.len()
    }

    /// Begins a clean-up.
    pub fn begin(registry: &ProcessSessionRegistry, now: Timestamp) -> (r: CleanupRun)
        ensures
            r.well_formed(),
            r@ == cleanup_started(registry@, now@),
    {
        let ids = registry.session_ids();
        let step = if ids.len() == 0 {
            CleanupStep::Finished
        } else {
            CleanupStep::Probe
        };
        assert(ids@.len() == texts(ids@).len());
        let r = CleanupRun {
            ids,
            index: 0,
            now,
            step,
            remove_ids: Vec::new(),
            removed_completed_sessions: 0,
            killed_idle_sessions: 0,
            remaining_running_sessions: 0,
        };
        assert(texts(r.remove_ids@) == Seq::<Seq<char>>::empty());
        r
    }

    /// What is to be done next; nothing, once the clean-up has ended.
    pub fn request(&self) -> (r: Option<SessionRequest>)
        requires
            self.well_formed(),
        ensures
            match r {
                Some(request) => cleanup_request(self@) == Some(request@),
                None => cleanup_request(self@) is None,
            },
    {
        match self.step {
            CleanupStep::Probe => Some(
                SessionRequest::Probe { session_id: self.ids[self.index].clone() },
            ),
            CleanupStep::Kill { step } => Some(ask_kill(step, self.ids[self.index].as_str())),
            CleanupStep::Finished => None,
        }
    }

    /// The session whose process this clean-up is killing.
    pub fn killing(&self) -> (r: Option<String>)
        requires
            self.well_formed(),
        ensures
            match r {
                Some(session_id) => cleanup_kills(self@) == Some(session_id@),
                None => cleanup_kills(self@) is None,
            },
    {
        match self.step {
            CleanupStep::Kill { step } => match step {
                KillStep::Queue => None,
                _ => Some(self.ids[self.index].clone()),
            },
            _ => None,
        }
    }

    /// What the clean-up came to, once it has ended.
    pub fn report(&self) -> (r: Option<ProcessSessionCleanupReport>)
        requires
            self.well_formed(),
        ensures
            r == cleanup_report(self@),
    {
        match self.step {
            CleanupStep::Finished => Some(
                ProcessSessionCleanupReport {
                    removed_completed_sessions: self.removed_completed_sessions,
                    killed_idle_sessions: self.killed_idle_sessions,
                    remaining_running_sessions: self.remaining_running_sessions,
                },
            ),
            _ => None,
        }
    }

    /// Goes on with the next session.
    fn step_on(&mut self, registry: &mut ProcessSessionRegistry)
        requires
            old(registry).well_formed(),
            old(self).index < old(self).ids@.len(),
            old(self).removed_completed_sessions + old(self).killed_idle_sessions + old(
                self,
            ).remaining_running_sessions <= old(self).index + 1,
        ensures
            final(self).well_formed(),
            final(registry).well_formed(),
            (final(self)@, final(registry)@) == next_session(old(self)@, old(registry)@),
    {
        let count: usize = self.ids.len();
        self.index = self.index + 1;
        if self.index < count {
            self.step = CleanupStep::Probe;
            return;
        }
        self.step = CleanupStep::Finished;
        let ghost before = registry@;
        let mut i: usize = 0;
        assert(texts(self.remove_ids@).take(0) == Seq::<Seq<char>>::empty());
        while i < self.remove_ids.len()
            invariant
                i <= self.remove_ids@.len(),
                registry.well_formed(),
                registry@ == forgetting_all(before, texts(self.remove_ids@).take(i as int)),
            decreases self.remove_ids@.len() - i,
        {
            registry.remove(self.remove_ids[i].as_str());
            proof {
                let done = texts(self.remove_ids@).take(i + 1);
                assert(done.drop_last() == texts(self.remove_ids@).take(i as int));
                assert(done.last() == self.remove_ids@[i as int]@);
            }
            i += 1;
        }
        assert(texts(self.remove_ids@).take(i as int) == texts(self.remove_ids@));
    }

    fn note_removal(&mut self)
        requires
            old(self).index < old(self).ids@.len(),
        ensures
            final(self)@ == (CleanupModel {
                remove_ids: old(self)@.remove_ids.push(old(self)@.ids[old(self)@.index]),
                ..old(self)@
            }),
            final(self).ids@ == old(self).ids@,
            final(self).index == old(self).index,
            final(self).step == old(self).step,
            final(self).removed_completed_sessions == old(self).removed_completed_sessions,
            final(self).killed_idle_sessions == old(self).killed_idle_sessions,
            final(self).remaining_running_sessions == old(self).remaining_running_sessions,
    {
        let ghost before = texts(self.remove_ids@);
        let id = self.ids[self.index].clone();
        self.remove_ids.push(id);
        assert(texts(self.remove_ids@) == before.push(id@));
    }

    /// Decides what becomes of the current session.
    fn judge(&mut self, registry: &mut ProcessSessionRegistry, now: Timestamp)
        requires
            old(self).well_formed(),
            old(registry).well_formed(),
            old(self).step is Probe,
        ensures
            final(self).well_formed(),
            final(registry).well_formed(),
            (final(self)@, final(registry)@) == session_judged(
                old(self)@,
                old(registry)@,
                now@,
            ),
    {
        let id = self.ids[self.index].clone();
        let limits = registry.limits();
        let (completed_at, last_activity_at, running) = match registry.held(id.as_str()) {
            Some(session) => (
                session.completed_at(),
                session.last_activity_at(),
                session.is_running(),
            ),
            None => {
                self.step_on(registry);
                return;
            },
        };
        match completed_at {
            Some(at) => {
                if exceeded_retention(self.now, at, limits.completed_retention) {
                    self.note_removal();
                    self.removed_completed_sessions = self.removed_completed_sessions + 1;
                }
                self.step_on(registry);
            },
            None => {
                if exceeded_retention(self.now, last_activity_at, limits.idle_retention) {
                    match registry.begin_kill(id.as_str(), now) {
                        Some(KillProgress::Ask(step)) => {
                            self.step = CleanupStep::Kill { step };
                        },
                        _ => {
                            self.note_removal();
                            self.killed_idle_sessions = self.killed_idle_sessions + 1;
                            self.step_on(registry);
                        },
                    }
                } else {
                    if running {
                        self.remaining_running_sessions = self.remaining_running_sessions + 1;
                    }
                    self.step_on(registry);
                }
            },
        }
    }

    /// Goes on after an answer.
    pub fn advance(
        &mut self,
        registry: &mut ProcessSessionRegistry,
        reply: &KillReply,
        now: Timestamp,
    )
        requires
            old(self).well_formed(),
            old(registry).well_formed(),
        ensures
            final(self).well_formed(),
            final(registry).well_formed(),
            (final(self)@, final(registry)@) == cleanup_next(
                old(self)@,
                old(registry)@,
                reply@,
                now@,
            ),
    {
        match self.step {
            CleanupStep::Probe => {
                if let KillReply::Probed(probe) = reply {
                    if !registry.is_busy(self.ids[self.index].as_str()) {
                        registry.refresh(self.ids[self.index].as_str(), probe, now);
                        self.judge(registry, now);
                    }
                }
            },
            CleanupStep::Kill { step } => {
                let id = self.ids[self.index].clone();
                match registry.continue_kill(id.as_str(), step, reply, now) {
                    Some(KillProgress::Ask(next)) => {
                        self.step = CleanupStep::Kill { step: next };
                    },
                    _ => {
                        self.note_removal();
                        self.killed_idle_sessions = self.killed_idle_sessions + 1;
                        self.step_on(registry);
                    },
                }
            },
            CleanupStep::Finished => {},
        }
    }
}

impl ProcessSessionRegistry {
    /// Begins to sort out sessions that are over.
    pub fn cleanup_expired(&self, now: Timestamp) -> (r: CleanupRun)
        ensures
            r.well_formed(),
            r@ == cleanup_started(self@, now@),
    {
        CleanupRun::begin(self, now)
    }

    /// Whether one more process may run, after a clean-up.
    pub fn prepare_for_new_session(&self, report: ProcessSessionCleanupReport) -> (r: Result<
        ProcessSessionCleanupReport,
        ProcessSessionError,
    >)
        ensures
            match r {
                Ok(same) => same == report && report.remaining_running_sessions
                    < self@.limits.max_running_sessions,
                Err(error) => admission_error(self@, report) == Some(error@),
            },
            r is Ok <==> admission_error(self@, report) is None,
    {
        let limits = self.limits();
        if report.remaining_running_sessions >= limits.max_running_sessions {
            return Err(
                ProcessSessionError::SessionLimitExceeded {
                    running_sessions: report.remaining_running_sessions,
                    max_running_sessions: limits.max_running_sessions,
                },
            );
        }
        Ok(report)
    }
}

/// Why no more process may run, if so.
pub open spec fn admission_error(
    registry: RegistryModel,
    report: ProcessSessionCleanupReport,
) -> Option<SessionErrorModel> {
    if report.remaining_running_sessions >= registry.limits.max_running_sessions {
        Some(
            SessionErrorModel::SessionLimitExceeded {
                running_sessions: report.remaining_running_sessions as nat,
                max_running_sessions: registry.limits.max_running_sessions as nat,
            },
        )
    } else {
        None
    }
}

} // verus!
