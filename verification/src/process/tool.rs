//! The tool that runs processes in the background.

use crate::host::documents::{session_answer, session_document};
use crate::host::json::{
    argument, argument_in, fields_of, flag_argument, flag_in, pretty_json, pretty_text,
    text_argument, text_in, text_or_empty, text_or_empty_argument, word_argument, word_in,
    word_or_empty, word_or_empty_argument, Argument, ArgumentModel, Fields, JsonObject,
};
use crate::host::time::Timestamp;
use crate::host::tool::{
    error_result, optional_context, optional_view, owner_in, owner_of, text_result, tool_answer,
    tool_error, ContextModel, PolicyModel, SecurityPolicy, ToolExecutionContext, ToolOperation,
    ToolResult, ToolResultModel,
};
use crate::process::documents::{
    kill_fields, kill_json, poll_fields, poll_json, snapshot_fields, snapshot_json, status_fields,
    status_json, write_fields, write_json,
};
use crate::process::environment::{allowed_names, collect_allowed_shell_env_vars, safe_names};
use crate::process::protocol::{
    ProcessReply, ProcessReplyModel, ProcessRequest, ProcessRequestModel,
};
use crate::process_sessions::cleanup::{
    admission_error, ask_kill, cleanup_kills, cleanup_next, cleanup_report, cleanup_request,
    cleanup_started, kill_request, CleanupModel, CleanupRun, SessionRequest, SessionRequestModel,
};
use crate::process_sessions::errors::{session_error_text, ProcessSessionError, SessionErrorModel};
use crate::process_sessions::registry::{
    has_session, is_busy, lemma_stored_session, owned_session, process_id, registered_session,
    session_named, with_kill_begun, with_kill_continued, with_refreshed, with_registered,
    with_stdin_closed_in, with_written, ProcessSessionRegistry, RegistryModel,
};
use crate::process_sessions::session::{
    kill_next, kill_start, poll_outcome, session_snapshot, state_outcome, write_error, ExitModel,
    KillProgress, KillProgressModel, KillReply, KillReplyModel, KillStep, ProbeModel,
    ProcessExitState, ProcessProbe, StdinWrite, StdinWriteModel,
};
use crate::text::chars::same_text;
use crate::text::summary::{summarize_text, summarized};
use std::sync::Arc;
use vstd::prelude::*;

verus! {

/// How many characters of a command its summary keeps.
pub const COMMAND_SUMMARY_LIMIT_CHARS: usize = 120;

/// What the tool reads of the runtime that its processes run in.
#[derive(Debug, Clone, PartialEq, Eq)]
pub struct RuntimeProfile {
    pub name: String,
    pub supports_long_running: bool,
}

/// The tool that runs processes in the background.
pub struct ProcessTool {
    security: Arc<SecurityPolicy>,
    runtime: RuntimeProfile,
}

/// What the tool goes by.
#[verifier::ext_equal]
pub struct ProcessToolModel {
    pub security: PolicyModel,
    pub runtime_name: Seq<char>,
    pub supports_long_running: bool,
}

impl View for ProcessTool {
    type V = ProcessToolModel;

    closed spec fn view(&self) -> ProcessToolModel {
        ProcessToolModel {
            security: self.security@,
            runtime_name: self.runtime.name@,
            supports_long_running: self.runtime.supports_long_running,
        }
    }
}

/// What a call is to do.
#[derive(Debug, Clone, Copy, PartialEq, Eq, Structural)]
pub enum ProcessAction {
    Start,
    Status,
    Poll,
    Log,
    Write,
    Kill,
}

/// The action of that name.
pub open spec fn action_named(name: Seq<char>) -> Option<ProcessAction> {
    if name == "start"@ {
        Some(ProcessAction::Start)
    } else if name == "status"@ {
        Some(ProcessAction::Status)
    } else if name == "poll"@ {
        Some(ProcessAction::Poll)
    } else if name == "log"@ {
        Some(ProcessAction::Log)
    } else if name == "write"@ {
        Some(ProcessAction::Write)
    } else if name == "kill"@ {
        Some(ProcessAction::Kill)
    } else {
        None
    }
}

fn parse_action(name: &str) -> (r: Option<ProcessAction>)
    ensures
        r == action_named(name@),
{
    if same_text(name, "start") {
        Some(ProcessAction::Start)
    } else if same_text(name, "status") {
        Some(ProcessAction::Status)
    } else if same_text(name, "poll") {
        Some(ProcessAction::Poll)
    } else if same_text(name, "log") {
        Some(ProcessAction::Log)
    } else if same_text(name, "write") {
        Some(ProcessAction::Write)
    } else if same_text(name, "kill") {
        Some(ProcessAction::Kill)
    } else {
        None
    }
}

/// The question that is open.
#[derive(Debug, Clone, Copy, PartialEq, Eq, Structural)]
pub enum CallStep {
    Cleanup,
    RateLimited,
    Validate,
    Forbidden,
    Record,
    Build,
    Spawn,
    Refresh,
    Poll,
    Enforce,
    Write,
    Kill { step: KillStep },
    Finished,
}

/// A call of the tool that is under way.
pub struct ProcessCall {
    action: ProcessAction,
    args: JsonObject,
    owner_key: String,
    step: CallStep,
    cleanup: CleanupRun,
    /// The session of the process that the call started.
    started: Option<String>,
    result: Option<ToolResult>,
}

/// What the state of a call says.
#[verifier::ext_equal]
pub struct CallModel {
    pub action: ProcessAction,
    pub fields: Fields,
    pub owner_key: Seq<char>,
    pub step: CallStep,
    pub cleanup: CleanupModel,
    pub started: Option<Seq<char>>,
    pub result: Option<ToolResultModel>,
}

impl View for ProcessCall {
    type V = CallModel;

    closed spec fn view(&self) -> CallModel {
        CallModel {
            action: self.action,
            fields: fields_of(self.args),
            owner_key: self.owner_key@,
            step: self.step,
            cleanup: self.cleanup@,
            started: optional_view(self.started),
            result: match self.result {
                Some(result) => Some(result@),
                None => None,
            },
        }
    }
}

/// A call as it begins: under way, or at its end.
pub enum ProcessStart {
    Running(ProcessCall),
    Finished(ToolResult),
}

/// What that says.
#[verifier::ext_equal]
pub enum ProcessStartModel {
    Running(CallModel),
    Finished(ToolResultModel),
}

impl View for ProcessStart {
    type V = ProcessStartModel;

    open spec fn view(&self) -> ProcessStartModel {
        match self {
            ProcessStart::Running(call) => ProcessStartModel::Running(call@),
            ProcessStart::Finished(result) => ProcessStartModel::Finished(result@),
        }
    }
}

/// The cursor that an argument holds; the beginning, where there is none.
pub open spec fn offset_in(fields: Fields, key: Seq<char>) -> Result<int, Seq<char>> {
    match argument_in(fields, key) {
        ArgumentModel::Missing => Ok(0),
        ArgumentModel::Count(count) => if count <= usize::MAX {
            Ok(count as int)
        } else {
            Err("'"@ + key + "' is too large"@)
        },
        _ => Err("'"@ + key + "' must be an integer >= 0"@),
    }
}

/// The call at its end.
pub open spec fn finished(call: CallModel, result: ToolResultModel) -> CallModel {
    CallModel { step: CallStep::Finished, result: Some(result), ..call }
}

/// The call, ended by an error.
pub open spec fn failed(call: CallModel, message: Seq<char>) -> CallModel {
    finished(call, error_result(message))
}

/// The call, ended by an error of a session.
pub open spec fn failed_session(call: CallModel, error: SessionErrorModel) -> CallModel {
    failed(call, session_error_text(error))
}

/// The call, ended with a document.
pub open spec fn told(call: CallModel, document: Fields) -> CallModel {
    finished(call, text_result(Ok(pretty_json(document))))
}

/// The call with another question.
pub open spec fn asking(call: CallModel, step: CallStep) -> CallModel {
    CallModel { step, ..call }
}

/// The session that a call is about.
pub open spec fn call_session(call: CallModel) -> Seq<char> {
    word_or_empty(call.fields, "session_id"@)
}

/// The call once `step` may be asked, if the session is one of the
/// conversation's own.
pub open spec fn with_owned(call: CallModel, registry: RegistryModel, step: CallStep) -> CallModel {
    match owned_session(registry, call.owner_key, call_session(call)) {
        Some(_) => asking(call, step),
        None => failed_session(
            call,
            SessionErrorModel::SessionNotFound { session_id: call_session(call) },
        ),
    }
}

/// What comes behind the clean-up that every call begins with.
pub open spec fn after_cleanup(
    call: CallModel,
    tool: ProcessToolModel,
    registry: RegistryModel,
) -> CallModel {
    if call.action == ProcessAction::Start {
        match admission_error(registry, cleanup_report(call.cleanup)->0) {
            Some(error) => failed_session(call, error),
            None => if word_in(call.fields, "command"@) is None {
                failed(call, "Missing 'command' parameter"@)
            } else if !tool.supports_long_running {
                failed(
                    call,
                    "Runtime '"@ + tool.runtime_name
                        + "' does not support long-running process sessions"@,
                )
            } else {
                asking(call, CallStep::RateLimited)
            },
        }
    } else if word_in(call.fields, "session_id"@) is None {
        failed(call, "Missing 'session_id' parameter"@)
    } else {
        match call.action {
            ProcessAction::Poll => match (
                offset_in(call.fields, "stdout_offset"@),
                offset_in(call.fields, "stderr_offset"@),
            ) {
                (Err(message), _) => failed(call, message),
                (Ok(_), Err(message)) => failed(call, message),
                (Ok(_), Ok(_)) => with_owned(call, registry, CallStep::Poll),
            },
            ProcessAction::Write => if text_or_empty(call.fields, "input"@).len() == 0 && !flag_in(
                call.fields,
                "close_stdin"@,
            ) {
                failed(call, "write action requires non-empty 'input' or close_stdin=true"@)
            } else {
                asking(call, CallStep::Enforce)
            },
            ProcessAction::Kill => asking(call, CallStep::Enforce),
            _ => with_owned(call, registry, CallStep::Refresh),
        }
    }
}

/// A call as it begins.
pub open spec fn call_started(
    tool: ProcessToolModel,
    registry: RegistryModel,
    name: Seq<char>,
    fields: Fields,
    context: Option<ContextModel>,
    now: int,
) -> ProcessStartModel {
    match action_named(name) {
        None => ProcessStartModel::Finished(
            error_result(
                "Unknown action '"@ + name + "'. Use start/status/poll/log/write/kill."@,
            ),
        ),
        Some(action) => match owner_in(context) {
            None => ProcessStartModel::Finished(
                error_result("process tool requires a conversation context"@),
            ),
            Some(owner_key) => {
                let call = CallModel {
                    action,
                    fields,
                    owner_key,
                    step: CallStep::Cleanup,
                    cleanup: cleanup_started(registry, now),
                    started: None,
                    result: None,
                };
                ProcessStartModel::Running(
                    if call.cleanup.step is Finished {
                        after_cleanup(call, tool, registry)
                    } else {
                        call
                    },
                )
            },
        },
    }
}

/// What the policy calls the action.
pub open spec fn operation_name(action: ProcessAction) -> Seq<char> {
    if action == ProcessAction::Kill {
        "process.kill"@
    } else {
        "process.write"@
    }
}

/// Whether the call asks something, or has its outcome.
pub open spec fn is_settled(call: CallModel) -> bool {
    &&& call.step is Finished ==> call.result is Some
    &&& call.step is Cleanup ==> !(call.cleanup.step is Finished)
}

/// A call that asks something until it has its outcome does so after an answer.
pub proof fn lemma_settled_step(
    call: CallModel,
    tool: ProcessToolModel,
    registry: RegistryModel,
    reply: ProcessReplyModel,
    now: int,
)
    requires
        is_settled(call),
    ensures
        is_settled(call_next(call, tool, registry, reply, now).0),
{
}

/// The session whose process a call is killing. One that somebody else is
/// killing does not count.
pub open spec fn call_kills(call: CallModel) -> Option<Seq<char>> {
    match call.step {
        CallStep::Cleanup => cleanup_kills(call.cleanup),
        CallStep::Kill { step } => if step == KillStep::Queue {
            None
        } else {
            Some(call_session(call))
        },
        _ => None,
    }
}

/// What a call asks for.
pub open spec fn call_request(call: CallModel, tool: ProcessToolModel) -> Option<
    ProcessRequestModel,
> {
    let command = word_or_empty(call.fields, "command"@);
    let session_id = call_session(call);
    match call.step {
        CallStep::Cleanup => match cleanup_request(call.cleanup) {
            Some(request) => Some(ProcessRequestModel::Session(request)),
            None => None,
        },
        CallStep::RateLimited => Some(ProcessRequestModel::RateLimited),
        CallStep::Validate => Some(
            ProcessRequestModel::ValidateCommand {
                command,
                approved: flag_in(call.fields, "approved"@),
            },
        ),
        CallStep::Forbidden => Some(ProcessRequestModel::ForbiddenPath { command }),
        CallStep::Record => Some(ProcessRequestModel::RecordAction),
        CallStep::Build => Some(
            ProcessRequestModel::BuildCommand {
                command,
                workspace_dir: tool.security.workspace_dir,
            },
        ),
        CallStep::Spawn => Some(
            ProcessRequestModel::Spawn {
                environment: allowed_names(safe_names() + tool.security.shell_env_passthrough),
            },
        ),
        CallStep::Refresh => Some(
            ProcessRequestModel::Session(SessionRequestModel::Probe { session_id }),
        ),
        CallStep::Poll => Some(
            ProcessRequestModel::Session(SessionRequestModel::Probe { session_id }),
        ),
        CallStep::Enforce => Some(
            ProcessRequestModel::Enforce {
                operation: ToolOperation::Act,
                name: operation_name(call.action),
            },
        ),
        CallStep::Write => Some(
            ProcessRequestModel::Write { session_id, input: text_or_empty(call.fields, "input"@) },
        ),
        CallStep::Kill { step } => Some(
            ProcessRequestModel::Session(kill_request(step, session_id)),
        ),
        CallStep::Finished => None,
    }
}

/// A process was started: it gets a session, and the call tells of it.
pub open spec fn process_started(
    call: CallModel,
    registry: RegistryModel,
    has_stdin: bool,
    now: int,
) -> (CallModel, RegistryModel) {
    let summary = summarized(
        word_or_empty(call.fields, "command"@),
        COMMAND_SUMMARY_LIMIT_CHARS as nat,
    );
    let session = registered_session(registry, call.owner_key, summary, has_stdin, now);
    (
        told(
            CallModel { started: Some(process_id(registry.next_id)), ..call },
            session_document("start"@, snapshot_fields(session_snapshot(session))),
        ),
        with_registered(registry, call.owner_key, summary, has_stdin, now),
    )
}

/// The call tells of its session, as it stands in the registry.
pub open spec fn telling_session(call: CallModel, registry: RegistryModel) -> CallModel {
    let id = call_session(call);
    if !has_session(registry.sessions, id) {
        failed_session(call, SessionErrorModel::SessionNotFound { session_id: id })
    } else {
        let snapshot = session_snapshot(session_named(registry.sessions, id));
        match call.action {
            ProcessAction::Status => told(
                call,
                session_document("status"@, status_fields(snapshot)),
            ),
            ProcessAction::Write => told(call, write_fields(snapshot)),
            _ => told(call, session_document("log"@, snapshot_fields(snapshot))),
        }
    }
}

/// The call tells what has come since its cursors; not yet, while the process is
/// being killed.
pub open spec fn telling_poll(
    call: CallModel,
    registry: RegistryModel,
    probe: ProbeModel,
    now: int,
) -> CallModel {
    let id = call_session(call);
    if !has_session(registry.sessions, id) {
        failed_session(call, SessionErrorModel::SessionNotFound { session_id: id })
    } else {
        match (
            offset_in(call.fields, "stdout_offset"@),
            offset_in(call.fields, "stderr_offset"@),
        ) {
            (Ok(stdout_offset), Ok(stderr_offset)) => match poll_outcome(
                session_named(registry.sessions, id),
                stdout_offset,
                stderr_offset,
                probe,
                now,
            ) {
                None => call,
                Some(Err(error)) => failed_session(call, error),
                Some(Ok(poll)) => told(call, session_document("poll"@, poll_fields(poll))),
            },
            _ => call,
        }
    }
}

/// The call closes what its process reads from, where that was asked for, and
/// tells of the session.
pub open spec fn write_finished(call: CallModel, registry: RegistryModel, now: int) -> (
    CallModel,
    RegistryModel,
) {
    let after = if flag_in(call.fields, "close_stdin"@) {
        with_stdin_closed_in(registry, call_session(call), now)
    } else {
        registry
    };
    (telling_session(call, after), after)
}

/// Killing the process has ended, and the call tells how.
pub open spec fn kill_finished(
    call: CallModel,
    registry: RegistryModel,
    outcome: Result<ExitModel, SessionErrorModel>,
) -> CallModel {
    let id = call_session(call);
    match outcome {
        Err(error) => failed_session(call, error),
        Ok(state) => if !has_session(registry.sessions, id) {
            failed_session(call, SessionErrorModel::SessionNotFound { session_id: id })
        } else {
            told(
                call,
                kill_fields(id, state, session_named(registry.sessions, id).completed_at),
            )
        },
    }
}

/// The policy let the call act: it writes, or begins to kill.
pub open spec fn acting(call: CallModel, registry: RegistryModel, now: int) -> (
    CallModel,
    RegistryModel,
) {
    let id = call_session(call);
    match owned_session(registry, call.owner_key, id) {
        None => (
            failed_session(call, SessionErrorModel::SessionNotFound { session_id: id }),
            registry,
        ),
        Some(session) => if call.action == ProcessAction::Kill {
            let after = with_kill_begun(registry, id, now);
            match kill_start(session) {
                KillProgressModel::Ask(step) => (asking(call, CallStep::Kill { step }), after),
                KillProgressModel::Done(outcome) => (kill_finished(call, after, outcome), after),
            }
        } else if text_or_empty(call.fields, "input"@).len() == 0 {
            write_finished(call, registry, now)
        } else if !session.has_stdin {
            (
                failed_session(call, SessionErrorModel::StdinUnavailable { session_id: id }),
                registry,
            )
        } else {
            (asking(call, CallStep::Write), registry)
        },
    }
}

/// One more step of killing the process.
pub open spec fn killing(
    call: CallModel,
    registry: RegistryModel,
    step: KillStep,
    reply: KillReplyModel,
    now: int,
) -> (CallModel, RegistryModel) {
    let id = call_session(call);
    let after = with_kill_continued(registry, id, step, reply, now);
    if !has_session(registry.sessions, id) {
        (failed_session(call, SessionErrorModel::SessionNotFound { session_id: id }), registry)
    } else {
        match kill_next(session_named(registry.sessions, id), step, reply, now).1 {
            KillProgressModel::Ask(next) => (
                asking(call, CallStep::Kill { step: next }),
                after,
            ),
            KillProgressModel::Done(outcome) => (kill_finished(call, after, outcome), after),
        }
    }
}

/// Writing to the process has ended.
pub open spec fn written(
    call: CallModel,
    registry: RegistryModel,
    write: StdinWriteModel,
    now: int,
) -> (CallModel, RegistryModel) {
    let id = call_session(call);
    if !has_session(registry.sessions, id) {
        (failed_session(call, SessionErrorModel::SessionNotFound { session_id: id }), registry)
    } else {
        match write_error(session_named(registry.sessions, id), write) {
            Some(error) => (failed_session(call, error), with_written(registry, id, write, now)),
            None => write_finished(call, with_written(registry, id, write, now), now),
        }
    }
}

/// The call after one more answer to the clean-up.
pub open spec fn cleaning(
    call: CallModel,
    tool: ProcessToolModel,
    registry: RegistryModel,
    reply: KillReplyModel,
    now: int,
) -> (CallModel, RegistryModel) {
    let (cleanup, after) = cleanup_next(call.cleanup, registry, reply, now);
    let next = CallModel { cleanup, ..call };
    (
        if cleanup.step is Finished {
            after_cleanup(next, tool, after)
        } else {
            next
        },
        after,
    )
}

/// The call and the registry after an answer. An answer to another question
/// changes nothing, and neither does a look at a process that somebody else is
/// killing.
pub open spec fn call_next(
    call: CallModel,
    tool: ProcessToolModel,
    registry: RegistryModel,
    reply: ProcessReplyModel,
    now: int,
) -> (CallModel, RegistryModel) {
    match (call.step, reply) {
        (CallStep::Cleanup, ProcessReplyModel::Session(reply)) => cleaning(
            call,
            tool,
            registry,
            reply,
            now,
        ),
        (CallStep::RateLimited, ProcessReplyModel::Flag(limited)) => (
            if limited {
                failed(call, "Rate limit exceeded: too many actions in the last hour"@)
            } else {
                asking(call, CallStep::Validate)
            },
            registry,
        ),
        (CallStep::Validate, ProcessReplyModel::Done(failure)) => (
            match failure {
                Some(reason) => failed(call, reason),
                None => asking(call, CallStep::Forbidden),
            },
            registry,
        ),
        (CallStep::Forbidden, ProcessReplyModel::Path(path)) => (
            match path {
                Some(path) => failed(call, "Path blocked by security policy: "@ + path),
                None => asking(call, CallStep::Record),
            },
            registry,
        ),
        (CallStep::Record, ProcessReplyModel::Flag(recorded)) => (
            if recorded {
                asking(call, CallStep::Build)
            } else {
                failed(call, "Rate limit exceeded: action budget exhausted"@)
            },
            registry,
        ),
        (CallStep::Build, ProcessReplyModel::Done(failure)) => (
            match failure {
                Some(reason) => failed(call, "Failed to build runtime command: "@ + reason),
                None => asking(call, CallStep::Spawn),
            },
            registry,
        ),
        (CallStep::Spawn, ProcessReplyModel::Spawned(started)) => match started {
            Err(reason) => (
                failed(call, "Failed to spawn background process: "@ + reason),
                registry,
            ),
            Ok(has_stdin) => process_started(call, registry, has_stdin, now),
        },
        (CallStep::Refresh, ProcessReplyModel::Session(KillReplyModel::Probed(probe))) => if is_busy(
            registry,
            call_session(call),
        ) {
            (call, registry)
        } else {
            let after = with_refreshed(registry, call_session(call), probe, now);
            (telling_session(call, after), after)
        },
        (CallStep::Poll, ProcessReplyModel::Session(KillReplyModel::Probed(probe))) => (
            telling_poll(call, registry, probe, now),
            with_refreshed(registry, call_session(call), probe, now),
        ),
        (CallStep::Enforce, ProcessReplyModel::Done(failure)) => match failure {
            Some(reason) => (failed(call, reason), registry),
            None => acting(call, registry, now),
        },
        (CallStep::Write, ProcessReplyModel::Written(write)) => written(
            call,
            registry,
            write,
            now,
        ),
        (CallStep::Kill { step }, ProcessReplyModel::Session(reply)) => killing(
            call,
            registry,
            step,
            reply,
            now,
        ),
        _ => (call, registry),
    }
}

/// The cursor that the argument `key` holds.
pub fn parse_offset(args: &JsonObject, key: &str) -> (r: Result<usize, String>)
    ensures
        match r {
            Ok(offset) => offset_in(fields_of(*args), key@) == Ok::<int, Seq<char>>(
                offset as int,
            ),
            Err(message) => offset_in(fields_of(*args), key@) == Err::<int, Seq<char>>(message@),
        },
{
    match argument(args, key) {
        Argument::Missing => Ok(0),
        Argument::Count(count) => {
            if count <= usize::MAX as u64 {
                Ok(count as usize)
            } else {
                Err(about(key, "' is too large"))
            }
        },
        _ => Err(about(key, "' must be an integer >= 0")),
    }
}

/// A sentence on an argument.
fn about(key: &str, rest: &str) -> (r: String)
    ensures
        r@ == "'"@ + key@ + rest@,
{
    let mut text = "'".to_string();
    text.append(key);
    text.append(rest);
    text
}

/// `text` with `more` behind it.
fn followed(text: &str, more: &str) -> (r: String)
    ensures
        r@ == text@ + more@,
{
    let mut out = text.to_string();
    out.append(more);
    out
}

/// The command that a session is named by.
pub fn summarize_command(command: &str) -> (r: String)
    ensures
        r@ == summarized(command@, COMMAND_SUMMARY_LIMIT_CHARS as nat),
{
    summarize_text(command, COMMAND_SUMMARY_LIMIT_CHARS)
}

impl ProcessTool {
    pub fn new(security: Arc<SecurityPolicy>, runtime: RuntimeProfile) -> (r: Self)
        ensures
            r@ == (ProcessToolModel {
                security: security@,
                runtime_name: runtime.name@,
                supports_long_running: runtime.supports_long_running,
            }),
    {
        ProcessTool { security, runtime }
    }

    pub fn name(&self) -> (r: &'static str)
        ensures
            r@ == "process"@,
    {
        "process"
    }

    pub fn description(&self) -> (r: &'static str)
        ensures
            r@
                == "Manage background shell processes. Actions: start, status, poll, log, write, kill."@,
    {
        "Manage background shell processes. Actions: start, status, poll, log, write, kill."
    }

    /// Begins a call from a conversation.
    pub fn execute_with_context(
        &self,
        registry: &ProcessSessionRegistry,
        args: JsonObject,
        context: Option<ToolExecutionContext>,
        now: Timestamp,
    ) -> (r: Result<ProcessStart, String>)
        requires
            registry.well_formed(),
        ensures
            match text_in(fields_of(args), "action"@) {
                None => r matches Err(message) && message@ == "Missing 'action' parameter"@,
                Some(name) => r matches Ok(start) && start@ == call_started(
                    self@,
                    registry@,
                    name,
                    fields_of(args),
                    optional_context(context),
                    now@,
                ) && (start matches ProcessStart::Running(call) ==> call.well_formed()),
            },
    {
        let name = match text_argument(&args, "action") {
            Some(name) => name,
            None => {
                return Err("Missing 'action' parameter".to_string());
            },
        };
        let action = match parse_action(name.as_str()) {
            Some(action) => action,
            None => {
                let mut message = followed("Unknown action '", name.as_str());
                message.append("'. Use start/status/poll/log/write/kill.");
                return Ok(ProcessStart::Finished(tool_error(message)));
            },
        };
        let owner_key = match owner_of(&context) {
            Some(owner_key) => owner_key,
            None => {
                return Ok(
                    ProcessStart::Finished(
                        tool_error("process tool requires a conversation context".to_string()),
                    ),
                );
            },
        };
        let mut call = ProcessCall {
            action,
            args,
            owner_key,
            step: CallStep::Cleanup,
            cleanup: registry.cleanup_expired(now),
            started: None,
            result: None,
        };
        if call.cleanup.report().is_some() {
            call.finish_cleanup(self, registry);
        }
        Ok(ProcessStart::Running(call))
    }
}

impl ProcessCall {
    /// The clean-up is as it should be.
    closed spec fn has_sound_cleanup(&self) -> bool {
        self.cleanup.well_formed()
    }

    /// The clean-up is as it should be, and the call asks something until it has
    /// its outcome.
    pub closed spec fn well_formed(&self) -> bool {
        self.has_sound_cleanup() && is_settled(self@)
    }

    /// The outcome of the call, once it has ended.
    pub fn result(&self) -> (r: Option<&ToolResult>)
        ensures
            match r {
                Some(result) => self@.result == Some(result@),
                None => self@.result is None,
            },
    {
        match &self.result {
            Some(result) => Some(result),
            None => None,
        }
    }

    /// The session of the process that the call started.
    pub fn started_session(&self) -> (r: Option<&String>)
        ensures
            match r {
                Some(session_id) => self@.started == Some(session_id@),
                None => self@.started is None,
            },
    {
        match &self.started {
            Some(session_id) => Some(session_id),
            None => None,
        }
    }

    /// The session that the call is about.
    pub fn session_id(&self) -> (r: String)
        ensures
            r@ == call_session(self@),
    {
        word_or_empty_argument(&self.args, "session_id")
    }

    /// The session whose process this call is killing.
    pub fn killing(&self) -> (r: Option<String>)
        requires
            self.well_formed(),
        ensures
            match r {
                Some(session_id) => call_kills(self@) == Some(session_id@),
                None => call_kills(self@) is None,
            },
    {
        match self.step {
            CallStep::Cleanup => self.cleanup.killing(),
            CallStep::Kill { step } => match step {
                KillStep::Queue => None,
                _ => Some(self.session_id()),
            },
            _ => None,
        }
    }

    /// What is to be done next; nothing, once the call has its outcome.
    pub fn request(&self, tool: &ProcessTool) -> (r: Option<ProcessRequest>)
        requires
            self.well_formed(),
        ensures
            match r {
                Some(request) => call_request(self@, tool@) == Some(request@),
                None => call_request(self@, tool@) is None && self@.result is Some,
            },
    {
        match self.step {
            CallStep::Cleanup => match self.cleanup.request() {
                Some(request) => Some(ProcessRequest::Session(request)),
                None => None,
            },
            CallStep::RateLimited => Some(ProcessRequest::RateLimited),
            CallStep::Validate => Some(
                ProcessRequest::ValidateCommand {
                    command: word_or_empty_argument(&self.args, "command"),
                    approved: flag_argument(&self.args, "approved"),
                },
            ),
            CallStep::Forbidden => Some(
                ProcessRequest::ForbiddenPath { command: word_or_empty_argument(&self.args, "command") },
            ),
            CallStep::Record => Some(ProcessRequest::RecordAction),
            CallStep::Build => Some(
                ProcessRequest::BuildCommand {
                    command: word_or_empty_argument(&self.args, "command"),
                    workspace_dir: tool.security.workspace_dir.clone(),
                },
            ),
            CallStep::Spawn => Some(
                ProcessRequest::Spawn {
                    environment: collect_allowed_shell_env_vars(
                        &tool.security.shell_env_passthrough,
                    ),
                },
            ),
            CallStep::Refresh => Some(
                ProcessRequest::Session(SessionRequest::Probe { session_id: self.session_id() }),
            ),
            CallStep::Poll => Some(
                ProcessRequest::Session(SessionRequest::Probe { session_id: self.session_id() }),
            ),
            CallStep::Enforce => Some(
                ProcessRequest::Enforce {
                    operation: ToolOperation::Act,
                    name: match self.action {
                        ProcessAction::Kill => "process.kill".to_string(),
                        _ => "process.write".to_string(),
                    },
                },
            ),
            CallStep::Write => Some(
                ProcessRequest::Write { session_id: self.session_id(), input: text_or_empty_argument(&self.args, "input") },
            ),
            CallStep::Kill { step } => Some(
                ProcessRequest::Session(ask_kill(step, self.session_id().as_str())),
            ),
            CallStep::Finished => None,
        }
    }

    fn finish(&mut self, result: ToolResult)
        requires
            old(self).has_sound_cleanup(),
        ensures
            final(self).has_sound_cleanup(),
            final(self)@ == finished(old(self)@, result@),
    {
        self.step = CallStep::Finished;
        self.result = Some(result);
    }

    fn fail(&mut self, message: String)
        requires
            old(self).has_sound_cleanup(),
        ensures
            final(self).has_sound_cleanup(),
            final(self)@ == failed(old(self)@, message@),
    {
        self.finish(tool_error(message));
    }

    fn fail_session(&mut self, error: ProcessSessionError)
        requires
            old(self).has_sound_cleanup(),
        ensures
            final(self).has_sound_cleanup(),
            final(self)@ == failed_session(old(self)@, error@),
    {
        self.fail(error.to_text());
    }

    fn fail_missing(&mut self)
        requires
            old(self).has_sound_cleanup(),
        ensures
            final(self).has_sound_cleanup(),
            final(self)@ == failed_session(
                old(self)@,
                SessionErrorModel::SessionNotFound { session_id: call_session(old(self)@) },
            ),
    {
        let session_id = self.session_id();
        self.fail_session(ProcessSessionError::SessionNotFound { session_id });
    }

    fn tell(&mut self, document: JsonObject)
        requires
            old(self).has_sound_cleanup(),
        ensures
            final(self).has_sound_cleanup(),
            final(self)@ == told(old(self)@, fields_of(document)),
    {
        let text = pretty_text(&document);
        self.finish(tool_answer(text));
    }

    fn ask(&mut self, step: CallStep)
        requires
            old(self).has_sound_cleanup(),
        ensures
            final(self).has_sound_cleanup(),
            final(self)@ == asking(old(self)@, step),
    {
        self.step = step;
    }

    fn ask_about_owned(&mut self, registry: &ProcessSessionRegistry, step: CallStep)
        requires
            old(self).has_sound_cleanup(),
            registry.well_formed(),
        ensures
            final(self).has_sound_cleanup(),
            final(self)@ == with_owned(old(self)@, registry@, step),
    {
        let session_id = self.session_id();
        let found = match registry.get_owned(self.owner_key.as_str(), session_id.as_str()) {
            Ok(_) => true,
            Err(_) => false,
        };
        if found {
            self.ask(step);
        } else {
            self.fail_missing();
        }
    }

    /// Goes on behind the clean-up.
    fn finish_cleanup(&mut self, tool: &ProcessTool, registry: &ProcessSessionRegistry)
        requires
            old(self).has_sound_cleanup(),
            registry.well_formed(),
            old(self)@.cleanup.step is Finished,
        ensures
            final(self).has_sound_cleanup(),
            final(self)@ == after_cleanup(old(self)@, tool@, registry@),
    {
        if let ProcessAction::Start = self.action {
            self.decide_start(tool, registry);
            return;
        }
        if word_argument(&self.args, "session_id").is_none() {
            self.fail("Missing 'session_id' parameter".to_string());
            return;
        }
        match self.action {
            ProcessAction::Poll => {
                if let Err(message) = parse_offset(&self.args, "stdout_offset") {
                    self.fail(message);
                    return;
                }
                if let Err(message) = parse_offset(&self.args, "stderr_offset") {
                    self.fail(message);
                    return;
                }
                self.ask_about_owned(registry, CallStep::Poll);
            },
            ProcessAction::Write => {
                let input = text_or_empty_argument(&self.args, "input");
                if input.as_str().unicode_len() == 0 && !flag_argument(&self.args, "close_stdin") {
                    self.fail(
                        "write action requires non-empty 'input' or close_stdin=true".to_string(),
                    );
                } else {
                    self.ask(CallStep::Enforce);
                }
            },
            ProcessAction::Kill => self.ask(CallStep::Enforce),
            _ => self.ask_about_owned(registry, CallStep::Refresh),
        }
    }

    /// Decides whether a process may be started.
    fn decide_start(&mut self, tool: &ProcessTool, registry: &ProcessSessionRegistry)
        requires
            old(self).has_sound_cleanup(),
            registry.well_formed(),
            old(self)@.action == ProcessAction::Start,
            old(self)@.cleanup.step is Finished,
        ensures
            final(self).has_sound_cleanup(),
            final(self)@ == after_cleanup(old(self)@, tool@, registry@),
    {
        if let Some(report) = self.cleanup.report() {
            if let Err(error) = registry.prepare_for_new_session(report) {
                self.fail_session(error);
                return;
            }
        }
        if word_argument(&self.args, "command").is_none() {
            self.fail("Missing 'command' parameter".to_string());
            return;
        }
        if !tool.runtime.supports_long_running {
            let mut message = followed("Runtime '", tool.runtime.name.as_str());
            message.append("' does not support long-running process sessions");
            self.fail(message);
            return;
        }
        self.ask(CallStep::RateLimited);
    }

    /// Goes on after an answer.
    pub fn advance(
        &mut self,
        tool: &ProcessTool,
        registry: &mut ProcessSessionRegistry,
        reply: &ProcessReply,
        now: Timestamp,
    )
        requires
            old(self).well_formed(),
            old(registry).well_formed(),
        ensures
            final(self).well_formed(),
            final(registry).well_formed(),
            (final(self)@, final(registry)@) == call_next(
                old(self)@,
                tool@,
                old(registry)@,
                reply@,
                now@,
            ),
    {
        proof {
            lemma_settled_step(self@, tool@, registry@, reply@, now@);
        }
        match (self.step, reply) {
            (CallStep::Cleanup, ProcessReply::Session(reply)) => {
                self.cleanup.advance(registry, reply, now);
                if self.cleanup.report().is_some() {
                    self.finish_cleanup(tool, &*registry);
                }
            },
            (CallStep::RateLimited, ProcessReply::Flag(limited)) => {
                if *limited {
                    self.fail(
                        "Rate limit exceeded: too many actions in the last hour".to_string(),
                    );
                } else {
                    self.ask(CallStep::Validate);
                }
            },
            (CallStep::Validate, ProcessReply::Done(done)) => match done {
                Err(reason) => self.fail(reason.clone()),
                Ok(()) => self.ask(CallStep::Forbidden),
            },
            (CallStep::Forbidden, ProcessReply::Path(path)) => match path {
                Some(path) => self.fail(
                    followed("Path blocked by security policy: ", path.as_str()),
                ),
                None => self.ask(CallStep::Record),
            },
            (CallStep::Record, ProcessReply::Flag(recorded)) => {
                if *recorded {
                    self.ask(CallStep::Build);
                } else {
                    self.fail("Rate limit exceeded: action budget exhausted".to_string());
                }
            },
            (CallStep::Build, ProcessReply::Done(done)) => match done {
                Err(reason) => self.fail(
                    followed("Failed to build runtime command: ", reason.as_str()),
                ),
                Ok(()) => self.ask(CallStep::Spawn),
            },
            (CallStep::Spawn, ProcessReply::Spawned(started)) => match started {
                Err(reason) => self.fail(
                    followed("Failed to spawn background process: ", reason.as_str()),
                ),
                Ok(has_stdin) => self.handle_start(registry, *has_stdin, now),
            },
            (CallStep::Refresh, ProcessReply::Session(KillReply::Probed(probe))) => {
                if !registry.is_busy(self.session_id().as_str()) {
                    registry.refresh(self.session_id().as_str(), probe, now);
                    self.tell_session(&*registry);
                }
            },
            (CallStep::Poll, ProcessReply::Session(KillReply::Probed(probe))) => {
                self.handle_poll(registry, probe, now);
            },
            (CallStep::Enforce, ProcessReply::Done(done)) => match done {
                Err(reason) => self.fail(reason.clone()),
                Ok(()) => self.act(registry, now),
            },
            (CallStep::Write, ProcessReply::Written(write)) => {
                self.handle_write(registry, write, now);
            },
            (CallStep::Kill { step }, ProcessReply::Session(reply)) => {
                self.handle_kill(registry, step, reply, now);
            },
            _ => {},
        }
    }

    /// Gives a process that was started its session, and tells of it.
    fn handle_start(&mut self, registry: &mut ProcessSessionRegistry, has_stdin: bool, now: Timestamp)
        requires
            old(self).has_sound_cleanup(),
            old(registry).well_formed(),
        ensures
            final(self).has_sound_cleanup(),
            final(registry).well_formed(),
            (final(self)@, final(registry)@) == process_started(
                old(self)@,
                old(registry)@,
                has_stdin,
                now@,
            ),
    {
        let summary = summarize_command(word_or_empty_argument(&self.args, "command").as_str());
        let ghost session = registered_session(
            registry@,
            self@.owner_key,
            summary@,
            has_stdin,
            now@,
        );
        let ghost before = registry@.sessions;
        let session_id = registry.register_child(self.owner_key.clone(), summary, has_stdin, now);
        proof {
            lemma_stored_session(before, session);
        }
        if let Some(found) = registry.held(session_id.as_str()) {
            let snapshot = found.snapshot();
            self.started = Some(session_id.clone());
            self.tell(session_answer("start", snapshot_json(&snapshot)));
        }
    }

    /// Tells of the session, as it stands in the registry.
    fn tell_session(&mut self, registry: &ProcessSessionRegistry)
        requires
            old(self).has_sound_cleanup(),
            registry.well_formed(),
        ensures
            final(self).has_sound_cleanup(),
            final(self)@ == telling_session(old(self)@, registry@),
    {
        let session_id = self.session_id();
        let snapshot = match registry.held(session_id.as_str()) {
            Some(session) => session.snapshot(),
            None => {
                self.fail_missing();
                return;
            },
        };
        match self.action {
            ProcessAction::Status => self.tell(session_answer("status", status_json(&snapshot))),
            ProcessAction::Write => self.tell(write_json(&snapshot)),
            _ => self.tell(session_answer("log", snapshot_json(&snapshot))),
        }
    }

    /// Tells what has come since the cursors of the call.
    fn handle_poll(
        &mut self,
        registry: &mut ProcessSessionRegistry,
        probe: &ProcessProbe,
        now: Timestamp,
    )
        requires
            old(self).has_sound_cleanup(),
            old(registry).well_formed(),
        ensures
            final(self).has_sound_cleanup(),
            final(registry).well_formed(),
            final(self)@ == telling_poll(old(self)@, old(registry)@, probe@, now@),
            final(registry)@ == with_refreshed(
                old(registry)@,
                call_session(old(self)@),
                probe@,
                now@,
            ),
    {
        let session_id = self.session_id();
        let stdout_offset = parse_offset(&self.args, "stdout_offset");
        let stderr_offset = parse_offset(&self.args, "stderr_offset");
        match (stdout_offset, stderr_offset) {
            (Ok(stdout_offset), Ok(stderr_offset)) => {
                let known = registry.held(session_id.as_str()).is_some();
                match registry.poll(session_id.as_str(), stdout_offset, stderr_offset, probe, now) {
                    None => {
                        if !known {
                            self.fail_missing();
                        }
                    },
                    Some(Err(error)) => self.fail_session(error),
                    Some(Ok(poll)) => self.tell(session_answer("poll", poll_json(&poll))),
                }
            },
            _ => {
                let known = registry.held(session_id.as_str()).is_some();
                registry.refresh(session_id.as_str(), probe, now);
                if !known {
                    self.fail_missing();
                }
            },
        }
    }

    /// Closes what the process reads from, where that was asked for, and tells
    /// of the session.
    fn finish_write(&mut self, registry: &mut ProcessSessionRegistry, now: Timestamp)
        requires
            old(self).has_sound_cleanup(),
            old(registry).well_formed(),
        ensures
            final(self).has_sound_cleanup(),
            final(registry).well_formed(),
            (final(self)@, final(registry)@) == write_finished(
                old(self)@,
                old(registry)@,
                now@,
            ),
    {
        if flag_argument(&self.args, "close_stdin") {
            registry.close_stdin(self.session_id().as_str(), now);
        }
        self.tell_session(&*registry);
    }

    /// Notes what came of writing to the process.
    fn handle_write(
        &mut self,
        registry: &mut ProcessSessionRegistry,
        write: &StdinWrite,
        now: Timestamp,
    )
        requires
            old(self).has_sound_cleanup(),
            old(registry).well_formed(),
        ensures
            final(self).has_sound_cleanup(),
            final(registry).well_formed(),
            (final(self)@, final(registry)@) == written(
                old(self)@,
                old(registry)@,
                write@,
                now@,
            ),
    {
        match registry.write_stdin(self.session_id().as_str(), write, now) {
            None => self.fail_missing(),
            Some(Err(error)) => self.fail_session(error),
            Some(Ok(())) => self.finish_write(registry, now),
        }
    }

    /// Tells how killing the process ended.
    fn finish_kill(
        &mut self,
        registry: &ProcessSessionRegistry,
        outcome: Result<ProcessExitState, ProcessSessionError>,
    )
        requires
            old(self).has_sound_cleanup(),
            registry.well_formed(),
        ensures
            final(self).has_sound_cleanup(),
            final(self)@ == kill_finished(old(self)@, registry@, state_outcome(outcome)),
    {
        let session_id = self.session_id();
        match outcome {
            Err(error) => self.fail_session(error),
            Ok(state) => {
                let completed_at = match registry.held(session_id.as_str()) {
                    Some(session) => session.completed_at(),
                    None => {
                        self.fail_missing();
                        return;
                    },
                };
                self.tell(kill_json(session_id.as_str(), &state, completed_at));
            },
        }
    }

    /// Goes on with killing the process.
    fn handle_kill(
        &mut self,
        registry: &mut ProcessSessionRegistry,
        step: KillStep,
        reply: &KillReply,
        now: Timestamp,
    )
        requires
            old(self).has_sound_cleanup(),
            old(registry).well_formed(),
        ensures
            final(self).has_sound_cleanup(),
            final(registry).well_formed(),
            (final(self)@, final(registry)@) == killing(
                old(self)@,
                old(registry)@,
                step,
                reply@,
                now@,
            ),
    {
        match registry.continue_kill(self.session_id().as_str(), step, reply, now) {
            None => self.fail_missing(),
            Some(KillProgress::Ask(next)) => self.ask(CallStep::Kill { step: next }),
            Some(KillProgress::Done(outcome)) => self.finish_kill(&*registry, outcome),
        }
    }

    /// Writes to the process, or begins to kill it.
    fn act(&mut self, registry: &mut ProcessSessionRegistry, now: Timestamp)
        requires
            old(self).has_sound_cleanup(),
            old(registry).well_formed(),
        ensures
            final(self).has_sound_cleanup(),
            final(registry).well_formed(),
            (final(self)@, final(registry)@) == acting(old(self)@, old(registry)@, now@),
    {
        let session_id = self.session_id();
        let has_stdin = match registry.get_owned(self.owner_key.as_str(), session_id.as_str()) {
            Ok(session) => session.has_stdin(),
            Err(_) => {
                self.fail_missing();
                return;
            },
        };
        if let ProcessAction::Kill = self.action {
            match registry.begin_kill(session_id.as_str(), now) {
                None => self.fail_missing(),
                Some(KillProgress::Ask(step)) => self.ask(CallStep::Kill { step }),
                Some(KillProgress::Done(outcome)) => self.finish_kill(&*registry, outcome),
            }
            return;
        }
        let input = text_or_empty_argument(&self.args, "input");
        if input.as_str().unicode_len() == 0 {
            self.finish_write(registry, now);
        } else if !has_stdin {
            self.fail_session(ProcessSessionError::StdinUnavailable { session_id });
        } else {
            self.ask(CallStep::Write);
        }
    }
}

} // verus!
