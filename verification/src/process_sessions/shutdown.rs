//! Ending all processes.

use crate::host::time::Timestamp;
use crate::process_sessions::cleanup::{ask_kill, kill_request, SessionRequest, SessionRequestModel};
use crate::process_sessions::registry::{
    forgetting_everything, has_session, ids_of, listed, session_named, with_kill_begun,
    with_kill_continued, ProcessSessionRegistry, RegistryModel,
};
use crate::process_sessions::session::{
    kill_next, kill_start, KillProgress, KillProgressModel, KillReply, KillReplyModel, KillStep,
};
use crate::text::lines::texts;
use vstd::prelude::*;

verus! {

/// The question that is open.
#[derive(Debug, Clone, Copy, PartialEq, Eq, Structural)]
pub enum ShutdownStep {
    /// The first look at the process of the current session.
    Begin,
    Kill { step: KillStep },
    Finished,
}

/// Ending all processes, one by one.
pub struct ShutdownRun {
    ids: Vec<String>,
    index: usize,
    step: ShutdownStep,
}

/// What the state of that says.
#[verifier::ext_equal]
pub struct ShutdownModel {
    pub ids: Seq<Seq<char>>,
    pub index: int,
    pub step: ShutdownStep,
}

impl View for ShutdownRun {
    type V = ShutdownModel;

    closed spec fn view(&self) -> ShutdownModel {
        ShutdownModel { ids: texts(self.ids@), index: self.index as int, step: self.step }
    }
}

/// The beginning.
pub open spec fn shutdown_started(registry: RegistryModel) -> ShutdownModel {
    ShutdownModel {
        ids: ids_of(listed(registry.sessions)),
        index: 0,
        step: if listed(registry.sessions).len() == 0 {
            ShutdownStep::Finished
        } else {
            ShutdownStep::Begin
        },
    }
}

/// What is asked for.
pub open spec fn shutdown_request(run: ShutdownModel) -> Option<SessionRequestModel> {
    match run.step {
        ShutdownStep::Begin => Some(kill_request(KillStep::Probe, run.ids[run.index])),
        ShutdownStep::Kill { step } => Some(kill_request(step, run.ids[run.index])),
        ShutdownStep::Finished => None,
    }
}

/// The session whose process is being killed. One that somebody else is killing
/// does not count.
pub open spec fn shutdown_kills(run: ShutdownModel) -> Option<Seq<char>> {
    match run.step {
        ShutdownStep::Kill { step } => if step == KillStep::Queue {
            None
        } else {
            Some(run.ids[run.index])
        },
        _ => None,
    }
}

/// On to the next session; behind the last one, all are forgotten.
pub open spec fn next_shutdown(run: ShutdownModel, registry: RegistryModel) -> (
    ShutdownModel,
    RegistryModel,
) {
    if run.index + 1 < run.ids.len() {
        (ShutdownModel { index: run.index + 1, step: ShutdownStep::Begin, ..run }, registry)
    } else {
        (
            ShutdownModel { index: run.index + 1, step: ShutdownStep::Finished, ..run },
            forgetting_everything(registry),
        )
    }
}

/// One more step of killing the process of the current session. Whether it
/// succeeds makes no difference.
pub open spec fn shutdown_kill(
    run: ShutdownModel,
    registry: RegistryModel,
    step: KillStep,
    reply: KillReplyModel,
    now: int,
) -> (ShutdownModel, RegistryModel) {
    let id = run.ids[run.index];
    let after = with_kill_continued(registry, id, step, reply, now);
    if !has_session(registry.sessions, id) {
        next_shutdown(run, registry)
    } else {
        match kill_next(session_named(registry.sessions, id), step, reply, now).1 {
            KillProgressModel::Ask(next) => (
                ShutdownModel { step: ShutdownStep::Kill { step: next }, ..run },
                after,
            ),
            KillProgressModel::Done(_) => next_shutdown(run, after),
        }
    }
}

/// The state and the registry after an answer. An answer to another question
/// changes nothing.
pub open spec fn shutdown_next(
    run: ShutdownModel,
    registry: RegistryModel,
    reply: KillReplyModel,
    now: int,
) -> (ShutdownModel, RegistryModel) {
    let id = run.ids[run.index];
    match run.step {
        ShutdownStep::Begin => if !(reply is Probed) {
            (run, registry)
        } else if !has_session(registry.sessions, id) {
            next_shutdown(run, registry)
        } else {
            match kill_start(session_named(registry.sessions, id)) {
                KillProgressModel::Done(_) => next_shutdown(
                    run,
                    with_kill_begun(registry, id, now),
                ),
                KillProgressModel::Ask(step) => shutdown_kill(
                    run,
                    with_kill_begun(registry, id, now),
                    step,
                    reply,
                    now,
                ),
            }
        },
        ShutdownStep::Kill { step } => shutdown_kill(run, registry, step, reply, now),
        ShutdownStep::Finished => (run, registry),
    }
}

impl ShutdownRun {
    /// A session is being looked at until the end.
    pub closed spec fn well_formed(&self) -> bool {
        !(self.step is Finished) ==> self.index < self.ids@.len()
    }

    /// What is to be done next; nothing, once all is done.
    pub fn request(&self) -> (r: Option<SessionRequest>)
        requires
            self.well_formed(),
        ensures
            match r {
                Some(request) => shutdown_request(self@) == Some(request@),
                None => shutdown_request(self@) is None,
            },
    {
        match self.step {
            ShutdownStep::Begin => Some(ask_kill(KillStep::Probe, self.ids[self.index].as_str())),
            ShutdownStep::Kill { step } => Some(ask_kill(step, self.ids[self.index].as_str())),
            ShutdownStep::Finished => None,
        }
    }

    /// The session whose process is being killed.
    pub fn killing(&self) -> (r: Option<String>)
        requires
            self.well_formed(),
        ensures
            match r {
                Some(session_id) => shutdown_kills(self@) == Some(session_id@),
                None => shutdown_kills(self@) is None,
            },
    {
        match self.step {
            ShutdownStep::Kill { step } => match step {
                KillStep::Queue => None,
                _ => Some(self.ids[self.index].clone()),
            },
            _ => None,
        }
    }

    /// How many sessions there were.
    pub fn count(&self) -> (r: usize)
        ensures
            r == self@.ids.len(),
    {
        self.ids.len()
    }

    fn step_on(&mut self, registry: &mut ProcessSessionRegistry)
        requires
            old(registry).well_formed(),
            old(self).index < old(self).ids@.len(),
        ensures
            final(self).well_formed(),
            final(registry).well_formed(),
            (final(self)@, final(registry)@) == next_shutdown(old(self)@, old(registry)@),
    {
        let count: usize = self.ids.len();
        self.index = self.index + 1;
        if self.index < count {
            self.step = ShutdownStep::Begin;
        } else {
            self.step = ShutdownStep::Finished;
            registry.clear();
        }
    }

    fn kill_on(
        &mut self,
        registry: &mut ProcessSessionRegistry,
        step: KillStep,
        reply: &KillReply,
        now: Timestamp,
    )
        requires
            old(registry).well_formed(),
            old(self).index < old(self).ids@.len(),
        ensures
            final(self).well_formed(),
            final(registry).well_formed(),
            (final(self)@, final(registry)@) == shutdown_kill(
                old(self)@,
                old(registry)@,
                step,
                reply@,
                now@,
            ),
    {
        let id = self.ids[self.index].clone();
        match registry.continue_kill(id.as_str(), step, reply, now) {
            Some(KillProgress::Ask(next)) => {
                self.step = ShutdownStep::Kill { step: next };
            },
            _ => self.step_on(registry),
        }
    }

    /// Goes on after an answer.
    pub fn advance(
        &mut self,
        registry: &mut ProcessSessionRegistry,
        reply: &KillReply,
        now: Timestamp,
    )
        requires
            old(self).well_formed(),
            old(registry).well_formed(),
        ensures
            final(self).well_formed(),
            final(registry).well_formed(),
            (final(self)@, final(registry)@) == shutdown_next(
                old(self)@,
                old(registry)@,
                reply@,
                now@,
            ),
    {
        match self.step {
            ShutdownStep::Begin => {
                if let KillReply::Probed(_) = reply {
                    let id = self.ids[self.index].clone();
                    match registry.begin_kill(id.as_str(), now) {
                        Some(KillProgress::Ask(step)) => self.kill_on(registry, step, reply, now),
                        _ => self.step_on(registry),
                    }
                }
            },
            ShutdownStep::Kill { step } => self.kill_on(registry, step, reply, now),
            ShutdownStep::Finished => {},
        }
    }
}

impl ProcessSessionRegistry {
    /// Begins to end all processes.
    pub fn shutdown_all(&self) -> (r: ShutdownRun)
        ensures
            r.well_formed(),
            r@ == shutdown_started(self@),
    {
        let ids = self.session_ids();
        let step = if ids.len() == 0 {
            ShutdownStep::Finished
        } else {
            ShutdownStep::Begin
        };
        assert(ids@.len() == texts(ids@).len());
        ShutdownRun { ids, index: 0, step }
    }
}

} // verus!
