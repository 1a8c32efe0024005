//! The processes that run in the background, by their identifiers.

use crate::host::time::Timestamp;
use crate::process_sessions::errors::{ProcessSessionError, SessionErrorModel};
use crate::process_sessions::session::{
    after_read, after_write, has_room, is_being_killed, kill_begun, kill_given_up, kill_next,
    kill_start, new_session, poll_outcome, poll_result, reads_on, refreshed, unlisted,
    with_stdin_closed, write_error, KillProgress, KillReply, KillReplyModel, KillStep, ProbeModel,
    ProcessPollSnapshot, ProcessProbe, ProcessSession, SessionModel, StdinWrite, StdinWriteModel,
    StreamKind, StreamRead,
};
use crate::text::chars::same_text;
use crate::text::decimal::{append_padded, padded};
use crate::text::lines::texts;
use vstd::prelude::*;

verus! {

pub const DEFAULT_STDOUT_CAPACITY_BYTES: usize = 65_536;

pub const DEFAULT_STDERR_CAPACITY_BYTES: usize = 32_768;

pub const DEFAULT_MAX_RUNNING_SESSIONS: usize = 8;

/// Fifteen minutes, in nanoseconds.
pub const DEFAULT_COMPLETED_RETENTION: u128 = 900_000_000_000;

/// Thirty minutes, in nanoseconds.
pub const DEFAULT_IDLE_RETENTION: u128 = 1_800_000_000_000;

/// How many processes may run, and for how many nanoseconds a session is kept
/// after its process ended, or without anything happening.
#[derive(Debug, Clone, Copy, PartialEq, Eq)]
pub struct ProcessSessionRegistryLimits {
    pub max_running_sessions: usize,
    pub completed_retention: u128,
    pub idle_retention: u128,
}

/// The limits where nothing else is said.
pub open spec fn default_limits() -> ProcessSessionRegistryLimits {
    ProcessSessionRegistryLimits {
        max_running_sessions: DEFAULT_MAX_RUNNING_SESSIONS,
        completed_retention: DEFAULT_COMPLETED_RETENTION,
        idle_retention: DEFAULT_IDLE_RETENTION,
    }
}

impl Default for ProcessSessionRegistryLimits {
    fn default() -> (r: Self)
        ensures
            r == default_limits(),
    {
        ProcessSessionRegistryLimits {
            max_running_sessions: DEFAULT_MAX_RUNNING_SESSIONS,
            completed_retention: DEFAULT_COMPLETED_RETENTION,
            idle_retention: DEFAULT_IDLE_RETENTION,
        }
    }
}

/// What a clean-up came to.
#[derive(Debug, Clone, Copy, PartialEq, Eq)]
pub struct ProcessSessionCleanupReport {
    pub removed_completed_sessions: usize,
    pub killed_idle_sessions: usize,
    pub remaining_running_sessions: usize,
}

/// The sessions, with what they were made with. A session that is forgotten is
/// not listed any more, and is kept until it is swept out: whoever is at work
/// on it goes on.
pub struct ProcessSessionRegistry {
    next_id: u64,
    stdout_capacity_bytes: usize,
    stderr_capacity_bytes: usize,
    limits: ProcessSessionRegistryLimits,
    sessions: Vec<ProcessSession>,
}

/// What a registry holds.
#[verifier::ext_equal]
pub struct RegistryModel {
    pub next_id: u64,
    pub stdout_capacity_bytes: nat,
    pub stderr_capacity_bytes: nat,
    pub limits: ProcessSessionRegistryLimits,
    pub sessions: Seq<SessionModel>,
}

/// What sessions hold.
pub open spec fn session_models(list: Seq<ProcessSession>) -> Seq<SessionModel> {
    Seq::new(list.len(), |i: int| list[i]@)
}

impl View for ProcessSessionRegistry {
    type V = RegistryModel;

    closed spec fn view(&self) -> RegistryModel {
        RegistryModel {
            next_id: self.next_id,
            stdout_capacity_bytes: self.stdout_capacity_bytes as nat,
            stderr_capacity_bytes: self.stderr_capacity_bytes as nat,
            limits: self.limits,
            sessions: session_models(self.sessions@),
        }
    }
}

/// The identifiers of sessions, in order.
pub open spec fn ids_of(sessions: Seq<SessionModel>) -> Seq<Seq<char>> {
    Seq::new(sessions.len(), |i: int| sessions[i].session_id)
}

/// The place of a session, or the number of sessions where there is none.
pub open spec fn session_index(sessions: Seq<SessionModel>, session_id: Seq<char>) -> int
    decreases sessions.len(),
{
    if sessions.len() == 0 || sessions.first().session_id == session_id {
        0
    } else {
        1 + session_index(sessions.drop_first(), session_id)
    }
}

/// Whether there is a session of that name.
pub open spec fn has_session(sessions: Seq<SessionModel>, session_id: Seq<char>) -> bool {
    session_index(sessions, session_id) < sessions.len()
}

/// The session of that name.
pub open spec fn session_named(sessions: Seq<SessionModel>, session_id: Seq<char>) -> SessionModel {
    sessions[session_index(sessions, session_id)]
}

/// The sessions, with `session` in the place of the one of that name, or behind
/// the others.
pub open spec fn with_session(sessions: Seq<SessionModel>, session: SessionModel) -> Seq<SessionModel> {
    if has_session(sessions, session.session_id) {
        sessions.update(session_index(sessions, session.session_id), session)
    } else {
        sessions.push(session)
    }
}

/// The sessions that are listed, in order.
pub open spec fn listed(sessions: Seq<SessionModel>) -> Seq<SessionModel>
    decreases sessions.len(),
{
    if sessions.len() == 0 {
        seq![]
    } else if sessions.last().listed {
        listed(sessions.drop_last()).push(sessions.last())
    } else {
        listed(sessions.drop_last())
    }
}

/// Whether a session of that name is listed.
pub open spec fn lists(sessions: Seq<SessionModel>, session_id: Seq<char>) -> bool {
    has_session(sessions, session_id) && session_named(sessions, session_id).listed
}

/// Whether there is a session of that name, and its process is being killed.
pub open spec fn is_busy(registry: RegistryModel, session_id: Seq<char>) -> bool {
    has_session(registry.sessions, session_id) && is_being_killed(
        session_named(registry.sessions, session_id),
    )
}

/// The registry, with `session` in the place of the one of that name.
pub open spec fn storing(registry: RegistryModel, session: SessionModel) -> RegistryModel {
    RegistryModel { sessions: with_session(registry.sessions, session), ..registry }
}

/// No two sessions have the same name.
pub open spec fn has_distinct_ids(sessions: Seq<SessionModel>) -> bool {
    forall|i: int, j: int|
        0 <= i < j < sessions.len() ==> (#[trigger] sessions[i]).session_id != (
        #[trigger] sessions[j]).session_id
}

/// The place of a session holds one of that name, with none before it.
pub proof fn lemma_session_index(sessions: Seq<SessionModel>, session_id: Seq<char>)
    ensures
        0 <= session_index(sessions, session_id) <= sessions.len(),
        has_session(sessions, session_id) ==> session_named(sessions, session_id).session_id
            == session_id,
        forall|i: int|
            0 <= i < session_index(sessions, session_id) ==> (#[trigger] sessions[i]).session_id
                != session_id,
    decreases sessions.len(),
{
    if sessions.len() > 0 && sessions.first().session_id != session_id {
        lemma_session_index(sessions.drop_first(), session_id);
        assert forall|i: int| 0 <= i < session_index(sessions, session_id) implies (
        #[trigger] sessions[i]).session_id != session_id by {
            if i > 0 {
                assert(sessions.drop_first()[i - 1] == sessions[i]);
            }
        }
    }
}

/// A session that was stored is found under its name.
pub proof fn lemma_stored_session(sessions: Seq<SessionModel>, session: SessionModel)
    ensures
        has_session(with_session(sessions, session), session.session_id),
        session_named(with_session(sessions, session), session.session_id) == session,
{
    let after = with_session(sessions, session);
    let id = session.session_id;
    lemma_session_index(sessions, id);
    lemma_session_index(after, id);
    let at = session_index(sessions, id);
    assert(after[at] == session);
    assert(forall|i: int| 0 <= i < at ==> #[trigger] after[i] == sessions[i]);
    if session_index(after, id) > at {
        assert(after[at].session_id != id);
    }
    if session_index(after, id) < at {
        let other = session_index(after, id);
        assert(after[other].session_id == id);
        assert(sessions[other].session_id != id);
    }
}

/// A place that holds a session of that name, with none before it, is the place.
proof fn lemma_session_index_is(sessions: Seq<SessionModel>, session_id: Seq<char>, at: int)
    requires
        0 <= at <= sessions.len(),
        at < sessions.len() ==> sessions[at].session_id == session_id,
        forall|i: int| 0 <= i < at ==> (#[trigger] sessions[i]).session_id != session_id,
    ensures
        session_index(sessions, session_id) == at,
{
    lemma_session_index(sessions, session_id);
}

/// The name that is given to session number `number`.
pub open spec fn process_id(number: u64) -> Seq<char> {
    "proc-"@ + padded(number as nat, 6)
}

/// The number behind `number`; behind the largest one it starts again.
pub open spec fn next_number(number: u64) -> u64 {
    if number == u64::MAX {
        0
    } else {
        (number + 1) as u64
    }
}

/// The session that a process started at `now` gets.
pub open spec fn registered_session(
    registry: RegistryModel,
    owner_key: Seq<char>,
    command_summary: Seq<char>,
    has_stdin: bool,
    now: int,
) -> SessionModel {
    new_session(
        process_id(registry.next_id),
        owner_key,
        command_summary,
        has_stdin,
        registry.stdout_capacity_bytes,
        registry.stderr_capacity_bytes,
        now,
    )
}

/// The registry once the process has its session.
pub open spec fn with_registered(
    registry: RegistryModel,
    owner_key: Seq<char>,
    command_summary: Seq<char>,
    has_stdin: bool,
    now: int,
) -> RegistryModel {
    RegistryModel {
        next_id: next_number(registry.next_id),
        ..storing(
            registry,
            registered_session(registry, owner_key, command_summary, has_stdin, now),
        )
    }
}

/// The session of that name, for the conversation that owns it. To any other
/// it does not exist.
pub open spec fn owned_session(
    registry: RegistryModel,
    owner_key: Seq<char>,
    session_id: Seq<char>,
) -> Option<SessionModel> {
    if lists(registry.sessions, session_id) && session_named(
        registry.sessions,
        session_id,
    ).owner_key == owner_key {
        Some(session_named(registry.sessions, session_id))
    } else {
        None
    }
}

/// The sessions that a conversation owns, in order.
pub open spec fn owned_sessions(sessions: Seq<SessionModel>, owner_key: Seq<char>) -> Seq<SessionModel>
    decreases sessions.len(),
{
    if sessions.len() == 0 {
        seq![]
    } else if sessions.last().listed && sessions.last().owner_key == owner_key {
        owned_sessions(sessions.drop_last(), owner_key).push(sessions.last())
    } else {
        owned_sessions(sessions.drop_last(), owner_key)
    }
}

/// An empty registry.
pub open spec fn new_registry(
    stdout_capacity_bytes: nat,
    stderr_capacity_bytes: nat,
    limits: ProcessSessionRegistryLimits,
) -> RegistryModel {
    RegistryModel {
        next_id: 1,
        stdout_capacity_bytes,
        stderr_capacity_bytes,
        limits,
        sessions: seq![],
    }
}

impl Default for ProcessSessionRegistry {
    fn default() -> (r: Self)
        ensures
            r.well_formed(),
            r@ == new_registry(
                DEFAULT_STDOUT_CAPACITY_BYTES as nat,
                DEFAULT_STDERR_CAPACITY_BYTES as nat,
                default_limits(),
            ),
    {
        ProcessSessionRegistry::new(DEFAULT_STDOUT_CAPACITY_BYTES, DEFAULT_STDERR_CAPACITY_BYTES)
    }
}

impl ProcessSessionRegistry {
    /// Every session is as it should be, and no two have the same name.
    pub closed spec fn well_formed(&self) -> bool {
        &&& forall|i: int| 0 <= i < self.sessions@.len() ==> (#[trigger] self.sessions@[i]).well_formed()
        &&& has_distinct_ids(self@.sessions)
    }

    pub fn new(stdout_capacity_bytes: usize, stderr_capacity_bytes: usize) -> (r: Self)
        ensures
            r.well_formed(),
            r@ == new_registry(
                stdout_capacity_bytes as nat,
                stderr_capacity_bytes as nat,
                default_limits(),
            ),
    {
        Self::with_limits(
            stdout_capacity_bytes,
            stderr_capacity_bytes,
            ProcessSessionRegistryLimits::default(),
        )
    }

    pub fn with_limits(
        stdout_capacity_bytes: usize,
        stderr_capacity_bytes: usize,
        limits: ProcessSessionRegistryLimits,
    ) -> (r: Self)
        ensures
            r.well_formed(),
            r@ == new_registry(
                stdout_capacity_bytes as nat,
                stderr_capacity_bytes as nat,
                limits,
            ),
    {
        let r = ProcessSessionRegistry {
            next_id: 1,
            stdout_capacity_bytes,
            stderr_capacity_bytes,
            limits,
            sessions: Vec::new(),
        };
        assert(r@.sessions == Seq::<SessionModel>::empty());
        r
    }

    /// How many processes may run, and how long a session is kept.
    pub fn limits(&self) -> (r: ProcessSessionRegistryLimits)
        ensures
            r == self@.limits,
    {
        self.limits
    }

    /// The place of a session, or the number of sessions where there is none.
    fn index_of(&self, session_id: &str) -> (r: usize)
        ensures
            r == session_index(self@.sessions, session_id@),
            r <= self.sessions@.len(),
            r < self.sessions@.len() ==> self.sessions@[r as int]@ == session_named(
                self@.sessions,
                session_id@,
            ) && self.sessions@[r as int]@.session_id == session_id@,
    {
        proof {
            lemma_session_index(self@.sessions, session_id@);
        }
        let mut i: usize = 0;
        while i < self.sessions.len()
            invariant
                i <= self.sessions@.len(),
                self@.sessions == session_models(self.sessions@),
                forall|j: int|
                    0 <= j < i ==> (#[trigger] self@.sessions[j]).session_id != session_id@,
            decreases self.sessions@.len() - i,
        {
            assert(self@.sessions[i as int] == self.sessions@[i as int]@);
            if same_text(self.sessions[i].session_id(), session_id) {
                proof {
                    lemma_session_index_is(self@.sessions, session_id@, i as int);
                }
                return i;
            }
            i += 1;
        }
        proof {
            lemma_session_index_is(self@.sessions, session_id@, i as int);
        }
        i
    }

    /// Gives a process that was just started a session of its own, and returns
    /// the name of it.
    pub fn register_child(
        &mut self,
        owner_key: String,
        command_summary: String,
        has_stdin: bool,
        now: Timestamp,
    ) -> (r: String)
        requires
            old(self).well_formed(),
        ensures
            final(self).well_formed(),
            final(self)@ == with_registered(
                old(self)@,
                owner_key@,
                command_summary@,
                has_stdin,
                now@,
            ),
            r@ == process_id(old(self)@.next_id),
    {
        let mut session_id = "proc-".to_string();
        append_padded(&mut session_id, self.next_id, 6);
        self.next_id =
        if self.next_id == u64::MAX {
            0
        } else {
            self.next_id + 1
        };
        let session = ProcessSession::new(
            session_id.clone(),
            owner_key,
            command_summary,
            has_stdin,
            self.stdout_capacity_bytes,
            self.stderr_capacity_bytes,
            now,
        );
        let ghost before = *self;
        let index: usize = self.index_of(session_id.as_str());
        if index < self.sessions.len() {
            self.sessions.set(index, session);
            proof {
                lemma_one_changed(before, *self, index as int);
            }
        } else {
            self.sessions.push(session);
            proof {
                lemma_session_index(before@.sessions, session_id@);
            }
            assert(self@.sessions == before@.sessions.push(session@));
        }
        session_id
    }

    /// The session of that name.
    pub fn get(&self, session_id: &str) -> (r: Option<&ProcessSession>)
        requires
            self.well_formed(),
        ensures
            match r {
                Some(session) => lists(self@.sessions, session_id@) && session@ == session_named(
                    self@.sessions,
                    session_id@,
                ) && session.well_formed(),
                None => !lists(self@.sessions, session_id@),
            },
    {
        match self.held(session_id) {
            Some(session) => {
                if session.is_listed() {
                    Some(session)
                } else {
                    None
                }
            },
            None => None,
        }
    }

    /// The session of that name, listed or not.
    pub fn held(&self, session_id: &str) -> (r: Option<&ProcessSession>)
        requires
            self.well_formed(),
        ensures
            match r {
                Some(session) => has_session(self@.sessions, session_id@) && session@
                    == session_named(self@.sessions, session_id@) && session.well_formed(),
                None => !has_session(self@.sessions, session_id@),
            },
    {
        let index: usize = self.index_of(session_id);
        if index < self.sessions.len() {
            assert(self@.sessions[index as int] == self.sessions@[index as int]@);
            Some(&self.sessions[index])
        } else {
            None
        }
    }

    /// Whether the process of a session is being killed.
    pub fn is_busy(&self, session_id: &str) -> (r: bool)
        requires
            self.well_formed(),
        ensures
            r == is_busy(self@, session_id@),
    {
        match self.held(session_id) {
            Some(session) => session.is_being_killed(),
            None => false,
        }
    }

    /// The session of that name, for the conversation that owns it.
    pub fn get_owned(&self, owner_key: &str, session_id: &str) -> (r: Result<
        &ProcessSession,
        ProcessSessionError,
    >)
        requires
            self.well_formed(),
        ensures
            match r {
                Ok(session) => owned_session(self@, owner_key@, session_id@) == Some(session@)
                    && session.well_formed(),
                Err(error) => owned_session(self@, owner_key@, session_id@) is None && error@ == (
                SessionErrorModel::SessionNotFound { session_id: session_id@ }),
            },
    {
        match self.get(session_id) {
            Some(session) => {
                if same_text(session.owner_key(), owner_key) {
                    Ok(session)
                } else {
                    Err(ProcessSessionError::SessionNotFound { session_id: session_id.to_string() })
                }
            },
            None => Err(
                ProcessSessionError::SessionNotFound { session_id: session_id.to_string() },
            ),
        }
    }

    /// The sessions that a conversation owns.
    pub fn list_owned(&self, owner_key: &str) -> (r: Vec<&ProcessSession>)
        ensures
            Seq::new(r@.len(), |i: int| r@[i]@) == owned_sessions(self@.sessions, owner_key@),
    {
        let mut out: Vec<&ProcessSession> = Vec::new();
        let mut i: usize = 0;
        assert(self@.sessions.take(0) == Seq::<SessionModel>::empty());
        while i < self.sessions.len()
            invariant
                i <= self.sessions@.len(),
                self@.sessions == session_models(self.sessions@),
                Seq::new(out@.len(), |i: int| out@[i]@) == owned_sessions(
                    self@.sessions.take(i as int),
                    owner_key@,
                ),
            decreases self.sessions@.len() - i,
        {
            let session = &self.sessions[i];
            let ghost so_far = Seq::new(out@.len(), |i: int| out@[i]@);
            assert(self@.sessions.take(i + 1).drop_last() == self@.sessions.take(i as int));
            assert(self@.sessions.take(i + 1).last() == session@);
            if session.is_listed() && same_text(session.owner_key(), owner_key) {
                out.push(session);
                assert(Seq::new(out@.len(), |i: int| out@[i]@) == so_far.push(session@));
            }
            i += 1;
        }
        assert(self@.sessions.take(i as int) == self@.sessions);
        out
    }

    /// Notes what a look at a process showed, where there is such a session.
    pub fn refresh(&mut self, session_id: &str, probe: &ProcessProbe, now: Timestamp)
        requires
            old(self).well_formed(),
        ensures
            final(self).well_formed(),
            final(self)@ == with_refreshed(old(self)@, session_id@, probe@, now@),
    {
        let ghost before = *self;
        let index: usize = self.index_of(session_id);
        if index < self.sessions.len() {
            let _ = self.sessions[index].refresh_exit_state(probe, now);
            proof {
                lemma_one_changed(before, *self, index as int);
            }
        }
    }

    /// Notes what a look at a process showed, and what has come since two
    /// cursors; nothing where there is no such session, and nothing yet while
    /// its process is being killed.
    pub fn poll(
        &mut self,
        session_id: &str,
        stdout_offset: usize,
        stderr_offset: usize,
        probe: &ProcessProbe,
        now: Timestamp,
    ) -> (r: Option<Result<ProcessPollSnapshot, ProcessSessionError>>)
        requires
            old(self).well_formed(),
        ensures
            final(self).well_formed(),
            final(self)@ == with_refreshed(old(self)@, session_id@, probe@, now@),
            !has_session(old(self)@.sessions, session_id@) ==> r is None,
            has_session(old(self)@.sessions, session_id@) ==> poll_result(r) == poll_outcome(
                session_named(old(self)@.sessions, session_id@),
                stdout_offset as int,
                stderr_offset as int,
                probe@,
                now@,
            ),
    {
        let ghost before = *self;
        let index: usize = self.index_of(session_id);
        if index < self.sessions.len() {
            let polled = self.sessions[index].poll_output(stdout_offset, stderr_offset, probe, now);
            proof {
                lemma_one_changed(before, *self, index as int);
            }
            polled
        } else {
            None
        }
    }

    /// Begins to kill a process, where there is such a session.
    pub fn begin_kill(&mut self, session_id: &str, now: Timestamp) -> (r: Option<KillProgress>)
        requires
            old(self).well_formed(),
        ensures
            final(self).well_formed(),
            final(self)@ == with_kill_begun(old(self)@, session_id@, now@),
            r is Some <==> has_session(old(self)@.sessions, session_id@),
            r matches Some(progress) ==> progress@ == kill_start(
                session_named(old(self)@.sessions, session_id@),
            ),
    {
        let ghost before = *self;
        let index: usize = self.index_of(session_id);
        if index < self.sessions.len() {
            let progress = self.sessions[index].kill(now);
            proof {
                lemma_one_changed(before, *self, index as int);
            }
            Some(progress)
        } else {
            None
        }
    }

    /// Goes on with killing a process, where there is such a session.
    pub fn continue_kill(
        &mut self,
        session_id: &str,
        step: KillStep,
        reply: &KillReply,
        now: Timestamp,
    ) -> (r: Option<KillProgress>)
        requires
            old(self).well_formed(),
        ensures
            final(self).well_formed(),
            final(self)@ == with_kill_continued(old(self)@, session_id@, step, reply@, now@),
            r is Some <==> has_session(old(self)@.sessions, session_id@),
            r matches Some(progress) ==> progress@ == kill_next(
                session_named(old(self)@.sessions, session_id@),
                step,
                reply@,
                now@,
            ).1,
    {
        let ghost before = *self;
        let index: usize = self.index_of(session_id);
        if index < self.sessions.len() {
            let progress = self.sessions[index].continue_kill(step, reply, now);
            proof {
                lemma_one_changed(before, *self, index as int);
            }
            Some(progress)
        } else {
            None
        }
    }

    /// Notes what came of writing to a process, where there is such a session.
    pub fn write_stdin(
        &mut self,
        session_id: &str,
        write: &StdinWrite,
        now: Timestamp,
    ) -> (r: Option<Result<(), ProcessSessionError>>)
        requires
            old(self).well_formed(),
        ensures
            final(self).well_formed(),
            final(self)@ == with_written(old(self)@, session_id@, write@, now@),
            r is Some <==> has_session(old(self)@.sessions, session_id@),
            r matches Some(outcome) ==> write_failure(outcome) == write_error(
                session_named(old(self)@.sessions, session_id@),
                write@,
            ),
    {
        let ghost before = *self;
        let index: usize = self.index_of(session_id);
        if index < self.sessions.len() {
            let outcome = self.sessions[index].write_stdin(write, now);
            proof {
                lemma_one_changed(before, *self, index as int);
            }
            Some(outcome)
        } else {
            None
        }
    }

    /// Notes that nothing more is written to a process.
    pub fn close_stdin(&mut self, session_id: &str, now: Timestamp)
        requires
            old(self).well_formed(),
        ensures
            final(self).well_formed(),
            final(self)@ == with_stdin_closed_in(old(self)@, session_id@, now@),
    {
        let ghost before = *self;
        let index: usize = self.index_of(session_id);
        if index < self.sessions.len() {
            self.sessions[index].close_stdin(now);
            proof {
                lemma_one_changed(before, *self, index as int);
            }
        }
    }

    /// Whether what a read from a stream adds can be counted.
    pub fn has_room_for(&self, session_id: &str, kind: StreamKind, read: &StreamRead) -> (r: bool)
        requires
            self.well_formed(),
        ensures
            r == (has_session(self@.sessions, session_id@) ==> has_room(
                session_named(self@.sessions, session_id@),
                kind,
                *read,
            )),
    {
        match self.held(session_id) {
            Some(session) => session.has_room_for(kind, read),
            None => true,
        }
    }

    /// Notes what reading from a stream gave, where there is such a session.
    /// Returns whether there may be more.
    pub fn stream_read(
        &mut self,
        session_id: &str,
        kind: StreamKind,
        read: &StreamRead,
        now: Timestamp,
    ) -> (r: bool)
        requires
            old(self).well_formed(),
            has_session(old(self)@.sessions, session_id@) ==> has_room(
                session_named(old(self)@.sessions, session_id@),
                kind,
                *read,
            ),
        ensures
            final(self).well_formed(),
            final(self)@ == with_read(old(self)@, session_id@, kind, *read, now@),
            r == reads_on(*read),
    {
        let ghost before = *self;
        let index: usize = self.index_of(session_id);
        if index < self.sessions.len() {
            let more = self.sessions[index].stream_read(kind, read, now);
            proof {
                lemma_one_changed(before, *self, index as int);
            }
            more
        } else {
            match read {
                StreamRead::Data(bytes) => bytes.len() > 0,
                _ => false,
            }
        }
    }

    /// Notes that killing a process was given up before it was over.
    pub fn give_up_kill(&mut self, session_id: &str)
        requires
            old(self).well_formed(),
        ensures
            final(self).well_formed(),
            final(self)@ == with_kill_given_up(old(self)@, session_id@),
    {
        let ghost before = *self;
        let index: usize = self.index_of(session_id);
        if index < self.sessions.len() {
            self.sessions[index].give_up_kill();
            proof {
                lemma_one_changed(before, *self, index as int);
            }
        }
    }

    /// Forgets a session: it is not listed any more.
    pub fn remove(&mut self, session_id: &str)
        requires
            old(self).well_formed(),
        ensures
            final(self).well_formed(),
            final(self)@ == forgetting(old(self)@, session_id@),
    {
        let ghost before = *self;
        let index: usize = self.index_of(session_id);
        if index < self.sessions.len() {
            self.sessions[index].unlist();
            proof {
                lemma_one_changed(before, *self, index as int);
            }
        }
    }

    /// Forgets all sessions.
    pub fn clear(&mut self)
        requires
            old(self).well_formed(),
        ensures
            final(self).well_formed(),
            final(self)@ == forgetting_everything(old(self)@),
    {
        let ghost before = self@;
        let mut i: usize = 0;
        while i < self.sessions.len()
            invariant
                i <= self.sessions@.len(),
                self.well_formed(),
                self@ == (RegistryModel { sessions: self@.sessions, ..before }),
                self@.sessions.len() == before.sessions.len() == self.sessions@.len(),
                forall|j: int|
                    0 <= j < i ==> #[trigger] self@.sessions[j] == unlisted(before.sessions[j]),
                forall|j: int|
                    i <= j < before.sessions.len() ==> #[trigger] self@.sessions[j]
                        == before.sessions[j],
            decreases self.sessions@.len() - i,
        {
            let ghost middle = self@.sessions;
            assert(middle[i as int] == self.sessions@[i as int]@);
            self.sessions[i].unlist();
            assert(self@.sessions == middle.update(i as int, unlisted(middle[i as int])));
            i += 1;
        }
    }

    /// Gives up the sessions that are not listed any more. This is for when
    /// nobody is at work on one.
    pub fn sweep(&mut self)
        requires
            old(self).well_formed(),
        ensures
            final(self).well_formed(),
            final(self)@ == swept(old(self)@),
    {
        let ghost before = self@.sessions;
        let ghost list = self.sessions@;
        let mut i: usize = self.sessions.len();
        proof {
            lemma_listed_is_distinct(before);
        }
        assert(before.take(i as int) == before);
        assert(listed(before) + Seq::<SessionModel>::empty() == listed(before));
        while i > 0
            invariant
                i <= self.sessions@.len(),
                self@ == (RegistryModel { sessions: self@.sessions, ..old(self)@ }),
                i <= before.len(),
                before == old(self)@.sessions,
                self@.sessions.len() == self.sessions@.len(),
                forall|j: int|
                    0 <= j < self.sessions@.len() ==> (#[trigger] self.sessions@[j]).well_formed(),
                self@.sessions.take(i as int) == before.take(i as int),
                listed(before.take(i as int)) + self@.sessions.skip(i as int) == listed(before),
            decreases i,
        {
            i -= 1;
            let ghost middle = self@.sessions;
            let ghost middle_list = self.sessions@;
            assert(middle[i as int] == self.sessions@[i as int]@);
            assert(middle.take(i + 1)[i as int] == before.take(i + 1)[i as int]);
            assert(before.take(i + 1).drop_last() == before.take(i as int));
            assert(before.take(i + 1).last() == middle[i as int]);
            assert(middle.take(i as int) == middle.take(i + 1).take(i as int));
            assert(before.take(i as int) == before.take(i + 1).take(i as int));
            if !self.sessions[i].is_listed() {
                let _ = self.sessions.remove(i);
                assert(self@.sessions == middle.remove(i as int));
                assert(self@.sessions.take(i as int) == middle.take(i as int));
                assert(self@.sessions.skip(i as int) == middle.skip(i + 1));
                assert forall|j: int| 0 <= j < self.sessions@.len() implies (
                #[trigger] self.sessions@[j]).well_formed() by {
                    let from = if j < i {
                        j
                    } else {
                        j + 1
                    };
                    assert(self.sessions@[j] == middle_list[from]);
                }
            } else {
                let ghost left = listed(before.take(i as int));
                assert(left.push(middle[i as int]) + middle.skip(i + 1) == left + middle.skip(
                    i as int,
                ));
            }
        }
        assert(self@.sessions.skip(0) == self@.sessions);
        assert(listed(before.take(0)) + self@.sessions.skip(0) == self@.sessions);
    }

    /// The names of the sessions that are listed.
    pub fn session_ids(&self) -> (r: Vec<String>)
        ensures
            texts(r@) == ids_of(listed(self@.sessions)),
    {
        let mut out: Vec<String> = Vec::new();
        let mut i: usize = 0;
        assert(self@.sessions.take(0) == Seq::<SessionModel>::empty());
        while i < self.sessions.len()
            invariant
                i <= self.sessions@.len(),
                self@.sessions == session_models(self.sessions@),
                texts(out@) == ids_of(listed(self@.sessions.take(i as int))),
            decreases self.sessions@.len() - i,
        {
            let ghost so_far = texts(out@);
            let ghost before = listed(self@.sessions.take(i as int));
            let session = &self.sessions[i];
            assert(self@.sessions.take(i + 1).drop_last() == self@.sessions.take(i as int));
            assert(self@.sessions.take(i + 1).last() == session@);
            if session.is_listed() {
                let id = session.session_id().to_string();
                out.push(id);
                assert(texts(out@) == so_far.push(id@));
                assert(ids_of(before.push(session@)) == ids_of(before).push(id@));
            }
            i += 1;
        }
        assert(self@.sessions.take(i as int) == self@.sessions);
        out
    }
}

/// Where one session was changed and kept its name, the registry is as before,
/// with that session in its place.
proof fn lemma_one_changed(
    before: ProcessSessionRegistry,
    after: ProcessSessionRegistry,
    index: int,
)
    requires
        before.well_formed(),
        0 <= index < before.sessions@.len(),
        index == session_index(before@.sessions, before.sessions@[index]@.session_id),
        after.sessions@ == before.sessions@.update(index, after.sessions@[index]),
        after.sessions@[index].well_formed(),
        after.sessions@[index]@.session_id == before.sessions@[index]@.session_id,
        after@ == (RegistryModel { sessions: after@.sessions, ..before@ }),
    ensures
        after.well_formed(),
        after@ == storing(before@, after.sessions@[index]@),
{
    assert(after@.sessions == before@.sessions.update(index, after.sessions@[index]@));
    assert(forall|i: int|
        0 <= i < after@.sessions.len() ==> (#[trigger] after@.sessions[i]).session_id
            == before@.sessions[i].session_id);
    assert forall|i: int| 0 <= i < after.sessions@.len() implies (
    #[trigger] after.sessions@[i]).well_formed() by {
        if i != index {
            assert(after.sessions@[i] == before.sessions@[i]);
        }
    }
}

/// What is listed was there before; names that differed still do.
pub proof fn lemma_listed_is_distinct(sessions: Seq<SessionModel>)
    ensures
        forall|i: int|
            0 <= i < listed(sessions).len() ==> (#[trigger] listed(sessions)[i]).listed
                && sessions.contains(listed(sessions)[i]),
        has_distinct_ids(sessions) ==> has_distinct_ids(listed(sessions)),
    decreases sessions.len(),
{
    if sessions.len() > 0 {
        let shorter = sessions.drop_last();
        let left = listed(shorter);
        lemma_listed_is_distinct(shorter);
        assert(sessions[sessions.len() - 1] == sessions.last());
        assert forall|i: int| 0 <= i < left.len() implies sessions.contains(#[trigger] left[i]) && (
        has_distinct_ids(sessions) ==> left[i].session_id != sessions.last().session_id) by {
            let j = choose|j: int| 0 <= j < shorter.len() && shorter[j] == left[i];
            assert(sessions[j] == left[i]);
        }
        if has_distinct_ids(sessions) {
            assert forall|i: int, j: int| 0 <= i < j < shorter.len() implies (
            #[trigger] shorter[i]).session_id != (#[trigger] shorter[j]).session_id by {
                assert(sessions[i] == shorter[i] && sessions[j] == shorter[j]);
            }
        }
    }
}

/// Why writing failed, if it did.
pub open spec fn write_failure(r: Result<(), ProcessSessionError>) -> Option<SessionErrorModel> {
    match r {
        Ok(()) => None,
        Err(error) => Some(error@),
    }
}

/// The registry after a look at a process.
pub open spec fn with_refreshed(
    registry: RegistryModel,
    session_id: Seq<char>,
    probe: ProbeModel,
    now: int,
) -> RegistryModel {
    if has_session(registry.sessions, session_id) {
        storing(registry, refreshed(session_named(registry.sessions, session_id), probe, now))
    } else {
        registry
    }
}

/// The registry once killing a process has begun.
pub open spec fn with_kill_begun(registry: RegistryModel, session_id: Seq<char>, now: int) -> RegistryModel {
    if has_session(registry.sessions, session_id) {
        storing(registry, kill_begun(session_named(registry.sessions, session_id), now))
    } else {
        registry
    }
}

/// The registry after one more step of killing a process.
pub open spec fn with_kill_continued(
    registry: RegistryModel,
    session_id: Seq<char>,
    step: KillStep,
    reply: KillReplyModel,
    now: int,
) -> RegistryModel {
    if has_session(registry.sessions, session_id) {
        storing(
            registry,
            kill_next(session_named(registry.sessions, session_id), step, reply, now).0,
        )
    } else {
        registry
    }
}

/// The registry after a write to a process.
pub open spec fn with_written(
    registry: RegistryModel,
    session_id: Seq<char>,
    write: StdinWriteModel,
    now: int,
) -> RegistryModel {
    if has_session(registry.sessions, session_id) {
        storing(registry, after_write(session_named(registry.sessions, session_id), write, now))
    } else {
        registry
    }
}

/// The registry once nothing more is written to a process.
pub open spec fn with_stdin_closed_in(
    registry: RegistryModel,
    session_id: Seq<char>,
    now: int,
) -> RegistryModel {
    if has_session(registry.sessions, session_id) {
        storing(registry, with_stdin_closed(session_named(registry.sessions, session_id), now))
    } else {
        registry
    }
}

/// The registry after a read from a stream.
pub open spec fn with_read(
    registry: RegistryModel,
    session_id: Seq<char>,
    kind: StreamKind,
    read: StreamRead,
    now: int,
) -> RegistryModel {
    if has_session(registry.sessions, session_id) {
        storing(
            registry,
            after_read(session_named(registry.sessions, session_id), kind, read, now),
        )
    } else {
        registry
    }
}

/// The registry once killing a process was given up.
pub open spec fn with_kill_given_up(registry: RegistryModel, session_id: Seq<char>) -> RegistryModel {
    if has_session(registry.sessions, session_id) {
        storing(registry, kill_given_up(session_named(registry.sessions, session_id)))
    } else {
        registry
    }
}

/// The registry, with a session not listed any more.
pub open spec fn forgetting(registry: RegistryModel, session_id: Seq<char>) -> RegistryModel {
    if has_session(registry.sessions, session_id) {
        storing(registry, unlisted(session_named(registry.sessions, session_id)))
    } else {
        registry
    }
}

/// The registry, with no session listed any more.
pub open spec fn forgetting_everything(registry: RegistryModel) -> RegistryModel {
    RegistryModel {
        sessions: Seq::new(registry.sessions.len(), |i: int| unlisted(registry.sessions[i])),
        ..registry
    }
}

/// The registry, without the sessions that are not listed.
pub open spec fn swept(registry: RegistryModel) -> RegistryModel {
    RegistryModel { sessions: listed(registry.sessions), ..registry }
}

} // verus!
