//! One process that runs in the background.

use crate::host::time::{optional_moment, Timestamp};
use crate::process_sessions::errors::{ProcessSessionError, SessionErrorModel};
use crate::process_sessions::output::{
    appended, output_delta, output_snapshot, BoundedOutputBuffer, OutputDeltaModel, OutputModel,
    OutputSnapshotModel, ProcessOutputDelta, ProcessOutputSnapshot,
};
use vstd::prelude::*;
use vstd::utf8::encode_utf8;

verus! {

/// How far a process has come.
#[derive(Debug, Clone, PartialEq, Eq)]
pub enum ProcessExitState {
    Running,
    Exited { success: bool, code: Option<i32> },
    Failed { reason: String },
}

/// What such a state says.
#[verifier::ext_equal]
pub enum ExitModel {
    Running,
    Exited { success: bool, code: Option<i32> },
    Failed { reason: Seq<char> },
}

impl View for ProcessExitState {
    type V = ExitModel;

    open spec fn view(&self) -> ExitModel {
        match self {
            ProcessExitState::Running => ExitModel::Running,
            ProcessExitState::Exited { success, code } => ExitModel::Exited {
                success: *success,
                code: *code,
            },
            ProcessExitState::Failed { reason } => ExitModel::Failed { reason: reason@ },
        }
    }
}

impl ProcessExitState {
    /// The same state once more.
    pub fn copy(&self) -> (r: Self)
        ensures
            r@ == self@,
    {
        match self {
            ProcessExitState::Running => ProcessExitState::Running,
            ProcessExitState::Exited { success, code } => ProcessExitState::Exited {
                success: *success,
                code: *code,
            },
            ProcessExitState::Failed { reason } => ProcessExitState::Failed {
                reason: reason.clone(),
            },
        }
    }
}

/// How a process ended.
#[derive(Debug, Clone, Copy, PartialEq, Eq, Structural)]
pub struct ExitStatus {
    pub success: bool,
    pub code: Option<i32>,
}

/// What a look at a process shows.
#[derive(Debug, Clone, PartialEq, Eq)]
pub enum ProcessProbe {
    Running,
    Exited(ExitStatus),
    Unknown { reason: String },
}

/// What such a look says.
#[verifier::ext_equal]
pub enum ProbeModel {
    Running,
    Exited(ExitStatus),
    Unknown { reason: Seq<char> },
}

impl View for ProcessProbe {
    type V = ProbeModel;

    open spec fn view(&self) -> ProbeModel {
        match self {
            ProcessProbe::Running => ProbeModel::Running,
            ProcessProbe::Exited(status) => ProbeModel::Exited(*status),
            ProcessProbe::Unknown { reason } => ProbeModel::Unknown { reason: reason@ },
        }
    }
}

/// What came of a write to a process.
#[derive(Debug, Clone, PartialEq, Eq)]
pub enum StdinWrite {
    Written,
    /// There was nothing open to write to.
    Closed,
    Failed { reason: String },
}

/// What that says.
#[verifier::ext_equal]
pub enum StdinWriteModel {
    Written,
    Closed,
    Failed { reason: Seq<char> },
}

impl View for StdinWrite {
    type V = StdinWriteModel;

    open spec fn view(&self) -> StdinWriteModel {
        match self {
            StdinWrite::Written => StdinWriteModel::Written,
            StdinWrite::Closed => StdinWriteModel::Closed,
            StdinWrite::Failed { reason } => StdinWriteModel::Failed { reason: reason@ },
        }
    }
}

/// Who looks after a process.
#[derive(Debug, Clone, Copy, PartialEq, Eq, Structural)]
pub enum ProcessCare {
    /// Whoever looks at it.
    Anyone,
    /// Whoever is killing it; all others wait.
    Killer,
    /// Nobody, from now on.
    Nobody,
}

/// A stream that a process writes to.
#[derive(Debug, Clone, Copy, PartialEq, Eq, Structural)]
pub enum StreamKind {
    Stdout,
    Stderr,
}

/// What reading from a stream gives.
#[derive(Debug, Clone, PartialEq, Eq)]
pub enum StreamRead {
    Data(Vec<u8>),
    End,
    Failed { reason: String },
}

/// What one process session holds.
#[verifier::ext_equal]
pub struct SessionModel {
    pub session_id: Seq<char>,
    pub owner_key: Seq<char>,
    pub command_summary: Seq<char>,
    pub started_at: int,
    pub last_activity_at: int,
    pub completed_at: Option<int>,
    pub exit_state: ExitModel,
    pub stdout: OutputModel,
    pub stderr: OutputModel,
    /// Whether the process can still be written to.
    pub has_stdin: bool,
    /// Who looks after the process.
    pub care: ProcessCare,
    /// Whether the registry lists the session. One that it does not list any
    /// more lives on for those who are at work on it.
    pub listed: bool,
}

/// A process that runs in the background, or ran.
pub struct ProcessSession {
    session_id: String,
    owner_key: String,
    command_summary: String,
    started_at: Timestamp,
    last_activity_at: Timestamp,
    completed_at: Option<Timestamp>,
    exit_state: ProcessExitState,
    stdout: BoundedOutputBuffer,
    stderr: BoundedOutputBuffer,
    has_stdin: bool,
    care: ProcessCare,
    listed: bool,
}

impl View for ProcessSession {
    type V = SessionModel;

    closed spec fn view(&self) -> SessionModel {
        SessionModel {
            session_id: self.session_id@,
            owner_key: self.owner_key@,
            command_summary: self.command_summary@,
            started_at: self.started_at@,
            last_activity_at: self.last_activity_at@,
            completed_at: optional_moment(self.completed_at),
            exit_state: self.exit_state@,
            stdout: self.stdout@,
            stderr: self.stderr@,
            has_stdin: self.has_stdin,
            care: self.care,
            listed: self.listed,
        }
    }
}

/// A session as it begins.
pub open spec fn new_session(
    session_id: Seq<char>,
    owner_key: Seq<char>,
    command_summary: Seq<char>,
    has_stdin: bool,
    stdout_capacity_bytes: nat,
    stderr_capacity_bytes: nat,
    now: int,
) -> SessionModel {
    SessionModel {
        session_id,
        owner_key,
        command_summary,
        started_at: now,
        last_activity_at: now,
        completed_at: None,
        exit_state: ExitModel::Running,
        stdout: OutputModel { max_bytes: stdout_capacity_bytes, written: seq![] },
        stderr: OutputModel { max_bytes: stderr_capacity_bytes, written: seq![] },
        has_stdin,
        care: ProcessCare::Anyone,
        listed: true,
    }
}

/// What a session is like at a moment.
#[derive(Debug, Clone, PartialEq, Eq)]
pub struct ProcessSessionSnapshot {
    pub session_id: String,
    pub owner_key: String,
    pub command_summary: String,
    pub started_at: Timestamp,
    pub last_activity_at: Timestamp,
    pub completed_at: Option<Timestamp>,
    pub exit_state: ProcessExitState,
    pub stdout: ProcessOutputSnapshot,
    pub stderr: ProcessOutputSnapshot,
    pub has_stdin: bool,
}

/// What a snapshot says.
#[verifier::ext_equal]
pub struct SessionSnapshotModel {
    pub session_id: Seq<char>,
    pub owner_key: Seq<char>,
    pub command_summary: Seq<char>,
    pub started_at: int,
    pub last_activity_at: int,
    pub completed_at: Option<int>,
    pub exit_state: ExitModel,
    pub stdout: OutputSnapshotModel,
    pub stderr: OutputSnapshotModel,
    pub has_stdin: bool,
}

impl View for ProcessSessionSnapshot {
    type V = SessionSnapshotModel;

    open spec fn view(&self) -> SessionSnapshotModel {
        SessionSnapshotModel {
            session_id: self.session_id@,
            owner_key: self.owner_key@,
            command_summary: self.command_summary@,
            started_at: self.started_at@,
            last_activity_at: self.last_activity_at@,
            completed_at: optional_moment(self.completed_at),
            exit_state: self.exit_state@,
            stdout: self.stdout@,
            stderr: self.stderr@,
            has_stdin: self.has_stdin,
        }
    }
}

/// The snapshot of a session.
pub open spec fn session_snapshot(session: SessionModel) -> SessionSnapshotModel {
    SessionSnapshotModel {
        session_id: session.session_id,
        owner_key: session.owner_key,
        command_summary: session.command_summary,
        started_at: session.started_at,
        last_activity_at: session.last_activity_at,
        completed_at: session.completed_at,
        exit_state: session.exit_state,
        stdout: output_snapshot(session.stdout),
        stderr: output_snapshot(session.stderr),
        has_stdin: session.has_stdin,
    }
}

/// What a reader with two cursors is told.
#[derive(Debug, Clone, PartialEq, Eq)]
pub struct ProcessPollSnapshot {
    pub session_id: String,
    pub exit_state: ProcessExitState,
    pub stdout: ProcessOutputDelta,
    pub stderr: ProcessOutputDelta,
}

/// What such an answer says.
#[verifier::ext_equal]
pub struct PollModel {
    pub session_id: Seq<char>,
    pub exit_state: ExitModel,
    pub stdout: OutputDeltaModel,
    pub stderr: OutputDeltaModel,
}

impl View for ProcessPollSnapshot {
    type V = PollModel;

    open spec fn view(&self) -> PollModel {
        PollModel {
            session_id: self.session_id@,
            exit_state: self.exit_state@,
            stdout: self.stdout@,
            stderr: self.stderr@,
        }
    }
}

/// The session, with its process ended at `now`.
pub open spec fn with_exit_state(session: SessionModel, state: ExitModel, now: int) -> SessionModel {
    SessionModel {
        exit_state: state,
        completed_at: Some(now),
        last_activity_at: now,
        ..session
    }
}

/// The session, with nobody looking after its process any more.
pub open spec fn let_go(session: SessionModel) -> SessionModel {
    SessionModel { care: ProcessCare::Nobody, ..session }
}

/// Whether the process is being killed. Whoever else wants to look at it or to
/// kill it waits until that is over.
pub open spec fn is_being_killed(session: SessionModel) -> bool {
    session.care == ProcessCare::Killer
}

/// The session, not listed any more.
pub open spec fn unlisted(session: SessionModel) -> SessionModel {
    SessionModel { listed: false, ..session }
}

/// The session once killing its process was given up: nobody looks after it.
pub open spec fn kill_given_up(session: SessionModel) -> SessionModel {
    if is_being_killed(session) {
        let_go(session)
    } else {
        session
    }
}

/// The state that an exit leaves.
pub open spec fn exited(status: ExitStatus) -> ExitModel {
    ExitModel::Exited { success: status.success, code: status.code }
}

/// The session after a look at its process. While the process is being killed,
/// and once it is not looked after any more, nothing changes.
pub open spec fn refreshed(session: SessionModel, probe: ProbeModel, now: int) -> SessionModel {
    if session.care != ProcessCare::Anyone {
        session
    } else {
        match probe {
            ProbeModel::Running => session,
            ProbeModel::Exited(status) => with_exit_state(let_go(session), exited(status), now),
            ProbeModel::Unknown { reason } => with_exit_state(
                let_go(session),
                ExitModel::Failed { reason },
                now,
            ),
        }
    }
}

/// What is told of the look: the state, or why it failed; nothing yet, while
/// the process is being killed.
pub open spec fn refresh_outcome(session: SessionModel, probe: ProbeModel, now: int) -> Option<
    Result<ExitModel, SessionErrorModel>,
> {
    if is_being_killed(session) {
        None
    } else {
        match probe {
            ProbeModel::Unknown { reason } if session.care == ProcessCare::Anyone => Some(
                Err(SessionErrorModel::InspectFailed { session_id: session.session_id, reason }),
            ),
            _ => Some(Ok(refreshed(session, probe, now).exit_state)),
        }
    }
}

/// What an outcome says.
pub open spec fn state_outcome(r: Result<ProcessExitState, ProcessSessionError>) -> Result<
    ExitModel,
    SessionErrorModel,
> {
    match r {
        Ok(state) => Ok(state@),
        Err(error) => Err(error@),
    }
}

/// The answer to a reader with two cursors; none yet, while the process is being
/// killed.
pub open spec fn poll_outcome(
    session: SessionModel,
    stdout_offset: int,
    stderr_offset: int,
    probe: ProbeModel,
    now: int,
) -> Option<Result<PollModel, SessionErrorModel>> {
    match refresh_outcome(session, probe, now) {
        None => None,
        Some(Err(error)) => Some(Err(error)),
        Some(Ok(exit_state)) => Some(
            Ok(
                PollModel {
                    session_id: session.session_id,
                    exit_state,
                    stdout: output_delta(session.stdout, stdout_offset),
                    stderr: output_delta(session.stderr, stderr_offset),
                },
            ),
        ),
    }
}

/// What polling came to, if it came to anything.
pub open spec fn poll_result(r: Option<Result<ProcessPollSnapshot, ProcessSessionError>>) -> Option<
    Result<PollModel, SessionErrorModel>,
> {
    match r {
        None => None,
        Some(Ok(poll)) => Some(Ok(poll@)),
        Some(Err(error)) => Some(Err(error@)),
    }
}

/// The session, with nothing more to be written to its process.
pub open spec fn with_stdin_closed(session: SessionModel, now: int) -> SessionModel {
    SessionModel { has_stdin: false, last_activity_at: now, ..session }
}

/// Why a write to the process failed, if it did.
pub open spec fn write_error(session: SessionModel, write: StdinWriteModel) -> Option<
    SessionErrorModel,
> {
    match write {
        StdinWriteModel::Written => None,
        StdinWriteModel::Closed => Some(
            SessionErrorModel::StdinUnavailable { session_id: session.session_id },
        ),
        StdinWriteModel::Failed { reason } => Some(
            SessionErrorModel::StdinWriteFailed { session_id: session.session_id, reason },
        ),
    }
}

/// The session after a write to its process.
pub open spec fn after_write(session: SessionModel, write: StdinWriteModel, now: int) -> SessionModel {
    if write_error(session, write) is None {
        SessionModel { last_activity_at: now, ..session }
    } else {
        session
    }
}

/// The session with more output on a stream.
pub open spec fn with_output(session: SessionModel, kind: StreamKind, chunk: Seq<u8>, now: int) -> SessionModel {
    match kind {
        StreamKind::Stdout => SessionModel {
            stdout: appended(session.stdout, chunk),
            last_activity_at: now,
            ..session
        },
        StreamKind::Stderr => SessionModel {
            stderr: appended(session.stderr, chunk),
            last_activity_at: now,
            ..session
        },
    }
}

/// What has been written to a stream of the session.
pub open spec fn stream_of(session: SessionModel, kind: StreamKind) -> OutputModel {
    match kind {
        StreamKind::Stdout => session.stdout,
        StreamKind::Stderr => session.stderr,
    }
}

/// What a stream that cannot be read says of itself.
pub open spec fn stream_error_text(reason: Seq<char>) -> Seq<char> {
    "\n[process stream read error: "@ + reason + "]\n"@
}

/// What a read adds to the output.
pub open spec fn bytes_read(read: StreamRead) -> Option<Seq<u8>> {
    match read {
        StreamRead::Data(bytes) => if bytes@.len() == 0 {
            None
        } else {
            Some(bytes@)
        },
        StreamRead::End => None,
        StreamRead::Failed { reason } => Some(encode_utf8(stream_error_text(reason@))),
    }
}

/// Whether there may be more behind a read.
pub open spec fn reads_on(read: StreamRead) -> bool {
    read matches StreamRead::Data(bytes) && bytes@.len() > 0
}

/// Whether what a read adds can be counted.
pub open spec fn has_room(session: SessionModel, kind: StreamKind, read: StreamRead) -> bool {
    bytes_read(read) matches Some(bytes) ==> stream_of(session, kind).written.len()
        + bytes.len() <= usize::MAX
}

/// The session after a read.
pub open spec fn after_read(session: SessionModel, kind: StreamKind, read: StreamRead, now: int) -> SessionModel {
    match bytes_read(read) {
        Some(bytes) => with_output(session, kind, bytes, now),
        None => session,
    }
}

/// The question that is open while a process is killed.
#[derive(Debug, Clone, Copy, PartialEq, Eq, Structural)]
pub enum KillStep {
    /// The process is being killed already: what came of that?
    Queue,
    /// Has the process ended by itself?
    Probe,
    /// Kill it.
    Kill,
    /// Wait for its end.
    Wait,
}

/// The answer to such a question.
#[derive(Debug, PartialEq, Eq)]
pub enum KillReply {
    Probed(ProcessProbe),
    Killed(Result<(), String>),
    Waited(Result<ExitStatus, String>),
}

/// What such an answer says.
#[verifier::ext_equal]
pub enum KillReplyModel {
    Probed(ProbeModel),
    /// Why it failed, if it did.
    Killed(Option<Seq<char>>),
    Waited(Result<ExitStatus, Seq<char>>),
}

impl View for KillReply {
    type V = KillReplyModel;

    open spec fn view(&self) -> KillReplyModel {
        match self {
            KillReply::Probed(probe) => KillReplyModel::Probed(probe@),
            KillReply::Killed(Ok(())) => KillReplyModel::Killed(None),
            KillReply::Killed(Err(reason)) => KillReplyModel::Killed(Some(reason@)),
            KillReply::Waited(Ok(status)) => KillReplyModel::Waited(Ok(*status)),
            KillReply::Waited(Err(reason)) => KillReplyModel::Waited(Err(reason@)),
        }
    }
}

/// How far killing a process has come.
pub enum KillProgress {
    Ask(KillStep),
    Done(Result<ProcessExitState, ProcessSessionError>),
}

/// What that says.
#[verifier::ext_equal]
pub enum KillProgressModel {
    Ask(KillStep),
    Done(Result<ExitModel, SessionErrorModel>),
}

impl View for KillProgress {
    type V = KillProgressModel;

    open spec fn view(&self) -> KillProgressModel {
        match self {
            KillProgress::Ask(step) => KillProgressModel::Ask(*step),
            KillProgress::Done(outcome) => KillProgressModel::Done(state_outcome(*outcome)),
        }
    }
}

/// The session once killing its process has begun: nothing more is written to
/// it, and nobody else looks after it.
pub open spec fn kill_begun(session: SessionModel, now: int) -> SessionModel {
    SessionModel {
        care: if session.care == ProcessCare::Anyone {
            ProcessCare::Killer
        } else {
            session.care
        },
        ..with_stdin_closed(session, now)
    }
}

/// The first question; none if the process is not looked after any more.
pub open spec fn kill_start(session: SessionModel) -> KillProgressModel {
    match session.care {
        ProcessCare::Anyone => KillProgressModel::Ask(KillStep::Probe),
        ProcessCare::Killer => KillProgressModel::Ask(KillStep::Queue),
        ProcessCare::Nobody => KillProgressModel::Done(Ok(session.exit_state)),
    }
}

/// The error of a process that could not be killed.
pub open spec fn kill_error(session: SessionModel, reason: Seq<char>) -> KillProgressModel {
    KillProgressModel::Done(
        Err(SessionErrorModel::KillFailed { session_id: session.session_id, reason }),
    )
}

/// Killing a process: what has ended by itself is left alone, what runs is
/// killed and waited for, and what somebody else is killing is left to them.
/// However it ends, the process is not looked after any more. An answer to
/// another question changes nothing.
pub open spec fn kill_next(
    session: SessionModel,
    step: KillStep,
    reply: KillReplyModel,
    now: int,
) -> (SessionModel, KillProgressModel) {
    match (step, reply) {
        (KillStep::Queue, KillReplyModel::Probed(_)) => if is_being_killed(session) {
            (session, KillProgressModel::Ask(KillStep::Queue))
        } else {
            (session, KillProgressModel::Done(Ok(session.exit_state)))
        },
        (KillStep::Probe, KillReplyModel::Probed(ProbeModel::Running)) => (
            session,
            KillProgressModel::Ask(KillStep::Kill),
        ),
        (KillStep::Probe, KillReplyModel::Probed(ProbeModel::Exited(status))) => (
            with_exit_state(let_go(session), exited(status), now),
            KillProgressModel::Done(Ok(exited(status))),
        ),
        (KillStep::Probe, KillReplyModel::Probed(ProbeModel::Unknown { reason })) => (
            with_exit_state(let_go(session), ExitModel::Failed { reason }, now),
            kill_error(session, reason),
        ),
        (KillStep::Kill, KillReplyModel::Killed(None)) => (
            session,
            KillProgressModel::Ask(KillStep::Wait),
        ),
        (KillStep::Kill, KillReplyModel::Killed(Some(reason))) => (
            let_go(session),
            kill_error(session, reason),
        ),
        (KillStep::Wait, KillReplyModel::Waited(Ok(status))) => (
            with_exit_state(let_go(session), exited(status), now),
            KillProgressModel::Done(Ok(exited(status))),
        ),
        (KillStep::Wait, KillReplyModel::Waited(Err(reason))) => (
            let_go(session),
            kill_error(session, reason),
        ),
        _ => (session, KillProgressModel::Ask(step)),
    }
}

impl ProcessSession {
    /// Both buffers are as they should be.
    pub closed spec fn well_formed(&self) -> bool {
        self.stdout.well_formed() && self.stderr.well_formed()
    }

    /// A session for a process that was just started.
    pub fn new(
        session_id: String,
        owner_key: String,
        command_summary: String,
        has_stdin: bool,
        stdout_capacity_bytes: usize,
        stderr_capacity_bytes: usize,
        now: Timestamp,
    ) -> (r: Self)
        ensures
            r.well_formed(),
            r@ == new_session(
                session_id@,
                owner_key@,
                command_summary@,
                has_stdin,
                stdout_capacity_bytes as nat,
                stderr_capacity_bytes as nat,
                now@,
            ),
    {
        ProcessSession {
            session_id,
            owner_key,
            command_summary,
            started_at: now,
            last_activity_at: now,
            completed_at: None,
            exit_state: ProcessExitState::Running,
            stdout: BoundedOutputBuffer::new(stdout_capacity_bytes),
            stderr: BoundedOutputBuffer::new(stderr_capacity_bytes),
            has_stdin,
            care: ProcessCare::Anyone,
            listed: true,
        }
    }

    pub fn session_id(&self) -> (r: &str)
        ensures
            r@ == self@.session_id,
    {
        self.session_id.as_str()
    }

    pub fn owner_key(&self) -> (r: &str)
        ensures
            r@ == self@.owner_key,
    {
        self.owner_key.as_str()
    }

    pub fn command_summary(&self) -> (r: &str)
        ensures
            r@ == self@.command_summary,
    {
        self.command_summary.as_str()
    }

    /// Notes what a look at the process showed, and tells of it; nothing yet,
    /// while the process is being killed.
    pub fn refresh_exit_state(&mut self, probe: &ProcessProbe, now: Timestamp) -> (r: Option<
        Result<ProcessExitState, ProcessSessionError>,
    >)
        requires
            old(self).well_formed(),
        ensures
            final(self).well_formed(),
            final(self)@ == refreshed(old(self)@, probe@, now@),
            match r {
                Some(outcome) => refresh_outcome(old(self)@, probe@, now@) == Some(
                    state_outcome(outcome),
                ),
                None => refresh_outcome(old(self)@, probe@, now@) is None,
            },
    {
        match self.care {
            ProcessCare::Killer => {
                return None;
            },
            ProcessCare::Nobody => {
                return Some(Ok(self.exit_state.copy()));
            },
            ProcessCare::Anyone => {},
        }
        match probe {
            ProcessProbe::Running => Some(Ok(self.exit_state.copy())),
            ProcessProbe::Exited(status) => {
                self.care = ProcessCare::Nobody;
                let state = ProcessExitState::Exited {
                    success: status.success,
                    code: status.code,
                };
                self.mark_exit_state(state.copy(), now);
                Some(Ok(state))
            },
            ProcessProbe::Unknown { reason } => {
                self.care = ProcessCare::Nobody;
                self.mark_exit_state(ProcessExitState::Failed { reason: reason.clone() }, now);
                Some(
                    Err(
                        ProcessSessionError::InspectFailed {
                            session_id: self.session_id.clone(),
                            reason: reason.clone(),
                        },
                    ),
                )
            },
        }
    }

    /// Notes what came of a write to the process.
    pub fn write_stdin(&mut self, write: &StdinWrite, now: Timestamp) -> (r: Result<
        (),
        ProcessSessionError,
    >)
        requires
            old(self).well_formed(),
        ensures
            final(self).well_formed(),
            final(self)@ == after_write(old(self)@, write@, now@),
            match r {
                Ok(()) => write_error(old(self)@, write@) is None,
                Err(error) => write_error(old(self)@, write@) == Some(error@),
            },
    {
        match write {
            StdinWrite::Written => {
                self.last_activity_at = now;
                Ok(())
            },
            StdinWrite::Closed => Err(
                ProcessSessionError::StdinUnavailable { session_id: self.session_id.clone() },
            ),
            StdinWrite::Failed { reason } => Err(
                ProcessSessionError::StdinWriteFailed {
                    session_id: self.session_id.clone(),
                    reason: reason.clone(),
                },
            ),
        }
    }

    /// Notes that nothing more is written to the process.
    pub fn close_stdin(&mut self, now: Timestamp)
        requires
            old(self).well_formed(),
        ensures
            final(self).well_formed(),
            final(self)@ == with_stdin_closed(old(self)@, now@),
    {
        self.has_stdin = false;
        self.last_activity_at = now;
    }

    /// Whether the process can still be written to.
    pub fn has_stdin(&self) -> (r: bool)
        ensures
            r == self@.has_stdin,
    {
        self.has_stdin
    }

    /// Who looks after the process.
    pub fn care(&self) -> (r: ProcessCare)
        ensures
            r == self@.care,
    {
        self.care
    }

    /// Whether the process is being killed.
    pub fn is_being_killed(&self) -> (r: bool)
        ensures
            r == is_being_killed(self@),
    {
        matches!(self.care, ProcessCare::Killer)
    }

    /// Whether the registry lists the session.
    pub fn is_listed(&self) -> (r: bool)
        ensures
            r == self@.listed,
    {
        self.listed
    }

    /// Notes that the registry does not list the session any more.
    pub fn unlist(&mut self)
        requires
            old(self).well_formed(),
        ensures
            final(self).well_formed(),
            final(self)@ == unlisted(old(self)@),
    {
        self.listed = false;
    }

    /// Notes that killing the process was given up before it was over.
    pub fn give_up_kill(&mut self)
        requires
            old(self).well_formed(),
        ensures
            final(self).well_formed(),
            final(self)@ == kill_given_up(old(self)@),
    {
        if let ProcessCare::Killer = self.care {
            self.care = ProcessCare::Nobody;
        }
    }

    /// What the session is like now.
    pub fn snapshot(&self) -> (r: ProcessSessionSnapshot)
        requires
            self.well_formed(),
        ensures
            r@ == session_snapshot(self@),
    {
        ProcessSessionSnapshot {
            session_id: self.session_id.clone(),
            owner_key: self.owner_key.clone(),
            command_summary: self.command_summary.clone(),
            started_at: self.started_at,
            last_activity_at: self.last_activity_at,
            completed_at: self.completed_at,
            exit_state: self.exit_state.copy(),
            stdout: self.stdout.snapshot(),
            stderr: self.stderr.snapshot(),
            has_stdin: self.has_stdin,
        }
    }

    /// What has come since two cursors, after a look at the process; nothing
    /// yet, while the process is being killed.
    pub fn poll_output(
        &mut self,
        stdout_offset: usize,
        stderr_offset: usize,
        probe: &ProcessProbe,
        now: Timestamp,
    ) -> (r: Option<Result<ProcessPollSnapshot, ProcessSessionError>>)
        requires
            old(self).well_formed(),
        ensures
            final(self).well_formed(),
            final(self)@ == refreshed(old(self)@, probe@, now@),
            poll_result(r) == poll_outcome(
                old(self)@,
                stdout_offset as int,
                stderr_offset as int,
                probe@,
                now@,
            ),
    {
        match self.refresh_exit_state(probe, now) {
            None => None,
            Some(Err(error)) => Some(Err(error)),
            Some(Ok(exit_state)) => Some(
                Ok(
                    ProcessPollSnapshot {
                        session_id: self.session_id.clone(),
                        exit_state,
                        stdout: self.stdout.delta_since(stdout_offset),
                        stderr: self.stderr.delta_since(stderr_offset),
                    },
                ),
            ),
        }
    }

    /// Begins to kill the process.
    pub fn kill(&mut self, now: Timestamp) -> (r: KillProgress)
        requires
            old(self).well_formed(),
        ensures
            final(self).well_formed(),
            final(self)@ == kill_begun(old(self)@, now@),
            r@ == kill_start(old(self)@),
    {
        self.close_stdin(now);
        match self.care {
            ProcessCare::Anyone => {
                self.care = ProcessCare::Killer;
                KillProgress::Ask(KillStep::Probe)
            },
            ProcessCare::Killer => KillProgress::Ask(KillStep::Queue),
            ProcessCare::Nobody => KillProgress::Done(Ok(self.exit_state.copy())),
        }
    }

    /// Goes on with killing the process.
    pub fn continue_kill(&mut self, step: KillStep, reply: &KillReply, now: Timestamp) -> (r:
        KillProgress)
        requires
            old(self).well_formed(),
        ensures
            final(self).well_formed(),
            (final(self)@, r@) == kill_next(old(self)@, step, reply@, now@),
    {
        match (step, reply) {
            (KillStep::Queue, KillReply::Probed(_)) => {
                if self.is_being_killed() {
                    KillProgress::Ask(KillStep::Queue)
                } else {
                    KillProgress::Done(Ok(self.exit_state.copy()))
                }
            },
            (KillStep::Probe, KillReply::Probed(ProcessProbe::Running)) => KillProgress::Ask(
                KillStep::Kill,
            ),
            (KillStep::Probe, KillReply::Probed(ProcessProbe::Exited(status))) => {
                self.finish_kill(*status, now)
            },
            (KillStep::Probe, KillReply::Probed(ProcessProbe::Unknown { reason })) => {
                self.mark_exit_state(ProcessExitState::Failed { reason: reason.clone() }, now);
                self.fail_kill(reason)
            },
            (KillStep::Kill, KillReply::Killed(Ok(()))) => KillProgress::Ask(KillStep::Wait),
            (KillStep::Kill, KillReply::Killed(Err(reason))) => self.fail_kill(reason),
            (KillStep::Wait, KillReply::Waited(Ok(status))) => self.finish_kill(*status, now),
            (KillStep::Wait, KillReply::Waited(Err(reason))) => self.fail_kill(reason),
            _ => KillProgress::Ask(step),
        }
    }

    fn finish_kill(&mut self, status: ExitStatus, now: Timestamp) -> (r: KillProgress)
        requires
            old(self).well_formed(),
        ensures
            final(self).well_formed(),
            final(self)@ == with_exit_state(let_go(old(self)@), exited(status), now@),
            r@ == KillProgressModel::Done(Ok(exited(status))),
    {
        self.care = ProcessCare::Nobody;
        let state = ProcessExitState::Exited { success: status.success, code: status.code };
        self.mark_exit_state(state.copy(), now);
        KillProgress::Done(Ok(state))
    }

    fn fail_kill(&mut self, reason: &String) -> (r: KillProgress)
        requires
            old(self).well_formed(),
        ensures
            final(self).well_formed(),
            final(self)@ == let_go(old(self)@),
            r@ == kill_error(old(self)@, reason@),
    {
        self.care = ProcessCare::Nobody;
        KillProgress::Done(
            Err(
                ProcessSessionError::KillFailed {
                    session_id: self.session_id.clone(),
                    reason: reason.clone(),
                },
            ),
        )
    }

    /// Adds to the output of a stream.
    fn append(&mut self, kind: StreamKind, chunk: &[u8], now: Timestamp)
        requires
            old(self).well_formed(),
            stream_of(old(self)@, kind).written.len() + chunk@.len() <= usize::MAX,
        ensures
            final(self).well_formed(),
            final(self)@ == with_output(old(self)@, kind, chunk@, now@),
    {
        match kind {
            StreamKind::Stdout => self.append_stdout(chunk, now),
            StreamKind::Stderr => self.append_stderr(chunk, now),
        }
    }

    /// Adds to the standard output.
    pub fn append_stdout(&mut self, chunk: &[u8], now: Timestamp)
        requires
            old(self).well_formed(),
            old(self)@.stdout.written.len() + chunk@.len() <= usize::MAX,
        ensures
            final(self).well_formed(),
            final(self)@ == with_output(old(self)@, StreamKind::Stdout, chunk@, now@),
    {
        self.stdout.append(chunk);
        self.last_activity_at = now;
    }

    /// Adds to the standard error output.
    pub fn append_stderr(&mut self, chunk: &[u8], now: Timestamp)
        requires
            old(self).well_formed(),
            old(self)@.stderr.written.len() + chunk@.len() <= usize::MAX,
        ensures
            final(self).well_formed(),
            final(self)@ == with_output(old(self)@, StreamKind::Stderr, chunk@, now@),
    {
        self.stderr.append(chunk);
        self.last_activity_at = now;
    }

    /// Notes what reading from a stream gave. Returns whether there may be more.
    pub fn stream_read(&mut self, kind: StreamKind, read: &StreamRead, now: Timestamp) -> (r: bool)
        requires
            old(self).well_formed(),
            has_room(old(self)@, kind, *read),
        ensures
            final(self).well_formed(),
            final(self)@ == after_read(old(self)@, kind, *read, now@),
            r == reads_on(*read),
    {
        match read {
            StreamRead::End => false,
            StreamRead::Data(bytes) => {
                if bytes.len() == 0 {
                    return false;
                }
                self.append(kind, bytes.as_slice(), now);
                true
            },
            StreamRead::Failed { reason } => {
                let message = stream_error_message(reason.as_str());
                self.append(kind, message.as_str().as_bytes(), now);
                false
            },
        }
    }

    /// Whether what a read adds can be counted.
    pub fn has_room_for(&self, kind: StreamKind, read: &StreamRead) -> (r: bool)
        requires
            self.well_formed(),
        ensures
            r == has_room(self@, kind, *read),
    {
        let count: usize = match read {
            StreamRead::End => 0,
            StreamRead::Data(bytes) => bytes.len(),
            StreamRead::Failed { reason } => {
                let message = stream_error_message(reason.as_str());
                message.as_str().as_bytes().len()
            },
        };
        match kind {
            StreamKind::Stdout => self.stdout.has_room_for(count),
            StreamKind::Stderr => self.stderr.has_room_for(count),
        }
    }

    fn mark_exit_state(&mut self, state: ProcessExitState, now: Timestamp)
        requires
            old(self).well_formed(),
        ensures
            final(self).well_formed(),
            final(self)@ == with_exit_state(old(self)@, state@, now@),
    {
        self.exit_state = state;
        self.completed_at = Some(now);
        self.last_activity_at = now;
    }

    /// Whether the process runs, as far as is known.
    pub fn is_running(&self) -> (r: bool)
        ensures
            r == (self@.exit_state is Running),
    {
        matches!(self.exit_state, ProcessExitState::Running)
    }

    /// When the process ended.
    pub fn completed_at(&self) -> (r: Option<Timestamp>)
        ensures
            optional_moment(r) == self@.completed_at,
    {
        self.completed_at
    }

    /// When something last happened.
    pub fn last_activity_at(&self) -> (r: Timestamp)
        ensures
            r@ == self@.last_activity_at,
    {
        self.last_activity_at
    }
}

/// What a stream that cannot be read says of itself.
fn stream_error_message(reason: &str) -> (r: String)
    ensures
        r@ == stream_error_text(reason@),
{
    let mut message = "\n[process stream read error: ".to_string();
    message.append(reason);
    message.append("]\n");
    message
}

/// Why something failed, if it did.
pub open spec fn failure_of(done: Result<(), String>) -> Option<Seq<char>> {
    match done {
        Ok(()) => None,
        Err(reason) => Some(reason@),
    }
}

} // verus!
