//! The tool that sets child agents to work.

use crate::child_session::agents::{
    agent_error, agent_models, agent_named, has_distinct_names, validate_agent, NamedAgent,
};
use crate::child_session::documents::{child_fields, session_json};
use crate::child_session::registry::{
    child_id, child_named, has_child, not_found_text, owned_child, task_from, with_abort_handle,
    with_cancelled, with_registered_child, ChildRegistryModel, ChildSessionRegistry,
};
use crate::child_session::session::{AgentModel, ChildSessionState};
use crate::host::documents::{session_answer, session_document};
use crate::host::json::{
    argument, argument_in, fields_of, pretty_json, pretty_text, text_argument, text_in,
    text_or_empty, text_or_empty_argument, word_argument, word_in, word_or_empty,
    word_or_empty_argument, Argument, ArgumentModel, Fields, JsonObject,
};
use crate::host::time::Timestamp;
use crate::host::tool::{
    copy_context, error_result, optional_context, owner_in, owner_of, text_result, tool_answer,
    tool_error, ContextModel, ToolExecutionContext, ToolOperation, ToolResult, ToolResultModel,
};
use crate::process_sessions::session::failure_of;
use crate::text::chars::{chars_of, same_text, string_of, trim, trimmed};
use crate::text::decimal::{append_decimal, decimal};
use crate::text::summary::{summarize_text, summarized};
use vstd::prelude::*;

verus! {

pub const DEFAULT_CHILD_TIMEOUT_SECS: u64 = 300;

pub const DEFAULT_WAIT_TIMEOUT_SECS: u64 = 30;

pub const MAX_CHILD_TIMEOUT_SECS: u64 = 900;

pub const MAX_WAIT_TIMEOUT_SECS: u64 = 300;

/// How many characters of a prompt its summary keeps.
pub const PROMPT_SUMMARY_LIMIT_CHARS: usize = 160;

/// The tool that sets child agents to work. No two of its agents have the same
/// name.
pub struct ChildSessionTool {
    agents: Vec<NamedAgent>,
}

impl View for ChildSessionTool {
    type V = Seq<(Seq<char>, AgentModel)>;

    /// The agents that can be delegated to.
    closed spec fn view(&self) -> Seq<(Seq<char>, AgentModel)> {
        agent_models(self.agents@)
    }
}

/// What a call is to do.
#[derive(Debug, Clone, Copy, PartialEq, Eq, Structural)]
pub enum ChildAction {
    Spawn,
    Status,
    Wait,
    Cancel,
}

/// The action of that name.
pub open spec fn action_named(name: Seq<char>) -> Option<ChildAction> {
    if name == "spawn"@ {
        Some(ChildAction::Spawn)
    } else if name == "status"@ {
        Some(ChildAction::Status)
    } else if name == "wait"@ {
        Some(ChildAction::Wait)
    } else if name == "cancel"@ {
        Some(ChildAction::Cancel)
    } else {
        None
    }
}

fn parse_action(name: &str) -> (r: Option<ChildAction>)
    ensures
        r == action_named(name@),
{
    if same_text(name, "spawn") {
        Some(ChildAction::Spawn)
    } else if same_text(name, "status") {
        Some(ChildAction::Status)
    } else if same_text(name, "wait") {
        Some(ChildAction::Wait)
    } else if same_text(name, "cancel") {
        Some(ChildAction::Cancel)
    } else {
        None
    }
}

/// What is to be done or looked up next.
#[derive(Debug, Clone, PartialEq, Eq)]
pub enum ChildRequest {
    /// Does the policy let the tool do this? Answered by whether it does.
    Enforce { operation: ToolOperation, name: String },
    /// Set the agent to work in the conversation of the caller, for no longer
    /// than so many seconds, and note how the work ends. Answered once it has
    /// begun.
    Spawn {
        session_id: String,
        agent: String,
        prompt: String,
        context: String,
        timeout_secs: u64,
        caller: Option<ToolExecutionContext>,
    },
    /// Wait for the end of the child, for no longer than so many seconds.
    /// Answered after the wait.
    Wait { session_id: String, timeout_secs: u64 },
    /// Break off the work of the child. Answered once that is done.
    Abort { session_id: String },
}

/// What a request says.
#[verifier::ext_equal]
pub enum ChildRequestModel {
    Enforce { operation: ToolOperation, name: Seq<char> },
    Spawn {
        session_id: Seq<char>,
        agent: Seq<char>,
        prompt: Seq<char>,
        context: Seq<char>,
        timeout_secs: u64,
        caller: Option<ContextModel>,
    },
    Wait { session_id: Seq<char>, timeout_secs: u64 },
    Abort { session_id: Seq<char> },
}

impl View for ChildRequest {
    type V = ChildRequestModel;

    open spec fn view(&self) -> ChildRequestModel {
        match self {
            ChildRequest::Enforce { operation, name } => ChildRequestModel::Enforce {
                operation: *operation,
                name: name@,
            },
            ChildRequest::Spawn {
                session_id,
                agent,
                prompt,
                context,
                timeout_secs,
                caller,
            } => ChildRequestModel::Spawn {
                session_id: session_id@,
                agent: agent@,
                prompt: prompt@,
                context: context@,
                timeout_secs: *timeout_secs,
                caller: optional_context(*caller),
            },
            ChildRequest::Wait { session_id, timeout_secs } => ChildRequestModel::Wait {
                session_id: session_id@,
                timeout_secs: *timeout_secs,
            },
            ChildRequest::Abort { session_id } => ChildRequestModel::Abort {
                session_id: session_id@,
            },
        }
    }
}

/// The answer to a request.
#[derive(Debug, PartialEq, Eq)]
pub enum ChildReply {
    /// Whether the policy allows it, and if not, why not.
    Allowed(Result<(), String>),
    Done,
}

/// What a reply says.
#[verifier::ext_equal]
pub enum ChildReplyModel {
    /// Why it is not allowed, if so.
    Allowed(Option<Seq<char>>),
    Done,
}

impl View for ChildReply {
    type V = ChildReplyModel;

    open spec fn view(&self) -> ChildReplyModel {
        match self {
            ChildReply::Allowed(allowed) => ChildReplyModel::Allowed(failure_of(*allowed)),
            ChildReply::Done => ChildReplyModel::Done,
        }
    }
}

/// The question that is open.
#[derive(Debug, Clone, Copy, PartialEq, Eq, Structural)]
pub enum ChildStep {
    Enforce,
    Spawn,
    Wait,
    Abort,
    Finished,
}

/// A call of the tool that is under way.
pub struct ChildCall {
    action: ChildAction,
    args: JsonObject,
    owner_key: String,
    context: Option<ToolExecutionContext>,
    step: ChildStep,
    /// The session of the child that the call set to work.
    spawned: String,
    result: Option<ToolResult>,
}

/// What the state of a call says.
#[verifier::ext_equal]
pub struct ChildCallModel {
    pub action: ChildAction,
    pub fields: Fields,
    pub owner_key: Seq<char>,
    pub context: Option<ContextModel>,
    pub step: ChildStep,
    pub spawned: Seq<char>,
    pub result: Option<ToolResultModel>,
}

impl View for ChildCall {
    type V = ChildCallModel;

    closed spec fn view(&self) -> ChildCallModel {
        ChildCallModel {
            action: self.action,
            fields: fields_of(self.args),
            owner_key: self.owner_key@,
            context: optional_context(self.context),
            step: self.step,
            spawned: self.spawned@,
            result: match self.result {
                Some(result) => Some(result@),
                None => None,
            },
        }
    }
}

/// A call as it begins: under way, or at its end.
pub enum ChildStart {
    Running(ChildCall),
    Finished(ToolResult),
}

/// What that says.
#[verifier::ext_equal]
pub enum ChildStartModel {
    Running(ChildCallModel),
    Finished(ToolResultModel),
}

impl View for ChildStart {
    type V = ChildStartModel;

    open spec fn view(&self) -> ChildStartModel {
        match self {
            ChildStart::Running(call) => ChildStartModel::Running(call@),
            ChildStart::Finished(result) => ChildStartModel::Finished(result@),
        }
    }
}

/// The number of seconds that an argument holds, between one and `max`; `default`,
/// where there is none.
pub open spec fn seconds_in(fields: Fields, key: Seq<char>, default: u64, max: u64) -> Result<
    u64,
    Seq<char>,
> {
    match argument_in(fields, key) {
        ArgumentModel::Missing => Ok(default),
        ArgumentModel::Count(count) => if count == 0 || count > max {
            Err("'"@ + key + "' must be between 1 and "@ + decimal(max as nat))
        } else {
            Ok(count)
        },
        _ => Err("'"@ + key + "' must be an integer >= 1"@),
    }
}

/// After how many seconds a child has taken too long.
pub open spec fn child_timeout(fields: Fields) -> Result<u64, Seq<char>> {
    seconds_in(fields, "timeout_secs"@, DEFAULT_CHILD_TIMEOUT_SECS, MAX_CHILD_TIMEOUT_SECS)
}

/// For how many seconds to wait.
pub open spec fn wait_timeout(fields: Fields) -> Result<u64, Seq<char>> {
    seconds_in(fields, "wait_timeout_secs"@, DEFAULT_WAIT_TIMEOUT_SECS, MAX_WAIT_TIMEOUT_SECS)
}

/// Why a child cannot be set to work with these arguments, if so.
pub open spec fn spawn_error(agents: Seq<(Seq<char>, AgentModel)>, fields: Fields) -> Option<
    Seq<char>,
> {
    if word_in(fields, "agent"@) is None {
        Some("Missing 'agent' parameter"@)
    } else if word_in(fields, "prompt"@) is None {
        Some("Missing 'prompt' parameter"@)
    } else {
        match child_timeout(fields) {
            Err(message) => Some(message),
            Ok(_) => agent_error(agents, word_or_empty(fields, "agent"@)),
        }
    }
}

/// A call as it begins.
pub open spec fn call_started(
    agents: Seq<(Seq<char>, AgentModel)>,
    name: Seq<char>,
    fields: Fields,
    context: Option<ContextModel>,
) -> ChildStartModel {
    match action_named(name) {
        None => ChildStartModel::Finished(
            error_result("Unknown action '"@ + name + "'. Use spawn/status/wait/cancel."@),
        ),
        Some(action) => match owner_in(context) {
            None => ChildStartModel::Finished(
                error_result("child_session requires a conversation context"@),
            ),
            Some(owner_key) => if action == ChildAction::Spawn && spawn_error(
                agents,
                fields,
            ) is Some {
                ChildStartModel::Finished(error_result(spawn_error(agents, fields)->0))
            } else {
                ChildStartModel::Running(
                    ChildCallModel {
                        action,
                        fields,
                        owner_key,
                        context,
                        step: ChildStep::Enforce,
                        spawned: seq![],
                        result: None,
                    },
                )
            },
        },
    }
}

/// What the policy calls the action.
pub open spec fn operation_name(action: ChildAction) -> Seq<char> {
    match action {
        ChildAction::Spawn => "child_session.spawn"@,
        ChildAction::Status => "child_session.status"@,
        ChildAction::Wait => "child_session.wait"@,
        ChildAction::Cancel => "child_session.cancel"@,
    }
}

/// Whether the action changes anything.
pub open spec fn operation_of(action: ChildAction) -> ToolOperation {
    match action {
        ChildAction::Spawn => ToolOperation::Act,
        ChildAction::Status => ToolOperation::Read,
        ChildAction::Wait => ToolOperation::Read,
        ChildAction::Cancel => ToolOperation::Act,
    }
}

/// The seconds, where they could be read.
pub open spec fn seconds_or_zero(seconds: Result<u64, Seq<char>>) -> u64 {
    match seconds {
        Ok(seconds) => seconds,
        Err(_) => 0,
    }
}

/// The session that a call is about.
pub open spec fn call_session(call: ChildCallModel) -> Seq<char> {
    word_or_empty(call.fields, "session_id"@)
}

/// Whether the call asks something, or has its outcome.
pub open spec fn is_settled(call: ChildCallModel) -> bool {
    call.step is Finished ==> call.result is Some
}

/// What a call asks for.
pub open spec fn call_request(call: ChildCallModel) -> Option<ChildRequestModel> {
    match call.step {
        ChildStep::Enforce => Some(
            ChildRequestModel::Enforce {
                operation: operation_of(call.action),
                name: operation_name(call.action),
            },
        ),
        ChildStep::Spawn => Some(
            ChildRequestModel::Spawn {
                session_id: call.spawned,
                agent: word_or_empty(call.fields, "agent"@),
                prompt: word_or_empty(call.fields, "prompt"@),
                context: trimmed(text_or_empty(call.fields, "context"@)),
                timeout_secs: seconds_or_zero(child_timeout(call.fields)),
                caller: call.context,
            },
        ),
        ChildStep::Wait => Some(
            ChildRequestModel::Wait {
                session_id: call_session(call),
                timeout_secs: seconds_or_zero(wait_timeout(call.fields)),
            },
        ),
        ChildStep::Abort => Some(ChildRequestModel::Abort { session_id: call_session(call) }),
        ChildStep::Finished => None,
    }
}

/// The call at its end.
pub open spec fn finished(call: ChildCallModel, result: ToolResultModel) -> ChildCallModel {
    ChildCallModel { step: ChildStep::Finished, result: Some(result), ..call }
}

/// The call, ended by an error.
pub open spec fn failed(call: ChildCallModel, message: Seq<char>) -> ChildCallModel {
    finished(call, error_result(message))
}

/// The call with another question.
pub open spec fn asking(call: ChildCallModel, step: ChildStep) -> ChildCallModel {
    ChildCallModel { step, ..call }
}

/// The call tells of a session, as it stands in the registry.
pub open spec fn telling(
    call: ChildCallModel,
    registry: ChildRegistryModel,
    action: Seq<char>,
    session_id: Seq<char>,
) -> ChildCallModel {
    if has_child(registry.sessions, session_id) {
        finished(
            call,
            text_result(
                Ok(
                    pretty_json(
                        session_document(
                            action,
                            child_fields(child_named(registry.sessions, session_id).snapshot),
                        ),
                    ),
                ),
            ),
        )
    } else {
        failed(call, not_found_text(session_id))
    }
}

/// The reason that is kept of a child that was cancelled.
pub open spec fn cancel_reason() -> Seq<char> {
    "Child session cancelled by parent request"@
}

/// The policy let the call go on.
pub open spec fn acting(
    call: ChildCallModel,
    agents: Seq<(Seq<char>, AgentModel)>,
    registry: ChildRegistryModel,
    now: int,
) -> (ChildCallModel, ChildRegistryModel) {
    let id = call_session(call);
    if call.action == ChildAction::Spawn {
        match agent_error(agents, word_or_empty(call.fields, "agent"@)) {
            Some(message) => (failed(call, message), registry),
            None => (
                ChildCallModel {
                    step: ChildStep::Spawn,
                    spawned: child_id(registry.next_id + 1),
                    ..call
                },
                with_registered_child(
                    registry,
                    task_from(
                        call.owner_key,
                        call.context,
                        word_or_empty(call.fields, "agent"@),
                        agent_named(agents, word_or_empty(call.fields, "agent"@))->0,
                        seconds_or_zero(child_timeout(call.fields)),
                        summarized(
                            word_or_empty(call.fields, "prompt"@),
                            PROMPT_SUMMARY_LIMIT_CHARS as nat,
                        ),
                    ),
                    now,
                ),
            ),
        }
    } else if call.action == ChildAction::Wait && wait_timeout(call.fields) is Err {
        (failed(call, wait_timeout(call.fields)->Err_0), registry)
    } else if word_in(call.fields, "session_id"@) is None {
        (failed(call, "Missing 'session_id' parameter"@), registry)
    } else {
        match owned_child(registry, call.owner_key, id) {
            None => (failed(call, not_found_text(id)), registry),
            Some(child) => match call.action {
                ChildAction::Wait => if child.snapshot.state == ChildSessionState::Running {
                    (asking(call, ChildStep::Wait), registry)
                } else {
                    (telling(call, registry, "wait"@, id), registry)
                },
                ChildAction::Cancel => {
                    let after = with_cancelled(registry, id, cancel_reason(), now);
                    if child.has_abort_handle {
                        (asking(call, ChildStep::Abort), after)
                    } else {
                        (telling(call, after, "cancel"@, id), after)
                    }
                },
                _ => (telling(call, registry, "status"@, id), registry),
            },
        }
    }
}

/// The call and the registry after an answer. An answer to another question
/// changes nothing.
pub open spec fn call_next(
    call: ChildCallModel,
    agents: Seq<(Seq<char>, AgentModel)>,
    registry: ChildRegistryModel,
    reply: ChildReplyModel,
    now: int,
) -> (ChildCallModel, ChildRegistryModel) {
    match (call.step, reply) {
        (ChildStep::Enforce, ChildReplyModel::Allowed(failure)) => match failure {
            Some(reason) => (failed(call, reason), registry),
            None => acting(call, agents, registry, now),
        },
        (ChildStep::Spawn, ChildReplyModel::Done) => {
            let after = with_abort_handle(registry, call.spawned);
            (telling(call, after, "spawn"@, call.spawned), after)
        },
        (ChildStep::Wait, ChildReplyModel::Done) => (
            telling(call, registry, "wait"@, call_session(call)),
            registry,
        ),
        (ChildStep::Abort, ChildReplyModel::Done) => (
            telling(call, registry, "cancel"@, call_session(call)),
            registry,
        ),
        _ => (call, registry),
    }
}

/// The number of seconds that the argument `key` holds, between one and `max`;
/// `default`, where there is none.
pub fn parse_bounded_secs(args: &JsonObject, key: &str, default: u64, max: u64) -> (r: Result<
    u64,
    String,
>)
    ensures
        match r {
            Ok(secs) => seconds_in(fields_of(*args), key@, default, max) == Ok::<u64, Seq<char>>(
                secs,
            ),
            Err(message) => seconds_in(fields_of(*args), key@, default, max) == Err::<
                u64,
                Seq<char>,
            >(message@),
        },
{
    match argument(args, key) {
        Argument::Missing => Ok(default),
        Argument::Count(count) => {
            if count == 0 || count > max {
                let mut message = "'".to_string();
                message.append(key);
                message.append("' must be between 1 and ");
                append_decimal(&mut message, max);
                Err(message)
            } else {
                Ok(count)
            }
        },
        _ => {
            let mut message = "'".to_string();
            message.append(key);
            message.append("' must be an integer >= 1");
            Err(message)
        },
    }
}

fn timeout_of(args: &JsonObject) -> (r: u64)
    ensures
        r == seconds_or_zero(child_timeout(fields_of(*args))),
{
    match parse_bounded_secs(
        args,
        "timeout_secs",
        DEFAULT_CHILD_TIMEOUT_SECS,
        MAX_CHILD_TIMEOUT_SECS,
    ) {
        Ok(secs) => secs,
        Err(_) => 0,
    }
}

impl ChildSessionTool {
    #[verifier::type_invariant]
    spec fn well_formed(self) -> bool {
        has_distinct_names(self@)
    }

    pub fn new(agents: Vec<NamedAgent>) -> (r: Self)
        requires
            has_distinct_names(agent_models(agents@)),
        ensures
            r@ == agent_models(agents@),
            has_distinct_names(r@),
    {
        ChildSessionTool { agents }
    }

    pub fn name(&self) -> (r: &'static str)
        ensures
            r@ == "child_session"@,
    {
        "child_session"
    }

    pub fn description(&self) -> (r: &'static str)
        ensures
            r@
                == "Spawn and manage bounded delegated child sessions for asynchronous work. Actions: spawn, status, wait, cancel."@,
    {
        "Spawn and manage bounded delegated child sessions for asynchronous work. Actions: spawn, status, wait, cancel."
    }

    /// Why a child cannot be set to work with these arguments, if so.
    fn refuse_spawn(&self, args: &JsonObject) -> (r: Option<String>)
        ensures
            match r {
                Some(message) => spawn_error(self@, fields_of(*args)) == Some(message@),
                None => spawn_error(self@, fields_of(*args)) is None,
            },
    {
        if word_argument(args, "agent").is_none() {
            return Some("Missing 'agent' parameter".to_string());
        }
        if word_argument(args, "prompt").is_none() {
            return Some("Missing 'prompt' parameter".to_string());
        }
        if let Err(message) = parse_bounded_secs(
            args,
            "timeout_secs",
            DEFAULT_CHILD_TIMEOUT_SECS,
            MAX_CHILD_TIMEOUT_SECS,
        ) {
            return Some(message);
        }
        let agent = word_or_empty_argument(args, "agent");
        match validate_agent(&self.agents, agent.as_str()) {
            Ok(_) => None,
            Err(message) => Some(message),
        }
    }

    /// Begins a call from a conversation.
    pub fn execute_with_context(&self, args: JsonObject, context: Option<ToolExecutionContext>) -> (r:
        Result<ChildStart, String>)
        ensures
            match text_in(fields_of(args), "action"@) {
                None => r matches Err(message) && message@ == "Missing 'action' parameter"@,
                Some(name) => r matches Ok(start) && start@ == call_started(
                    self@,
                    name,
                    fields_of(args),
                    optional_context(context),
                ),
            },
    {
        let name = match text_argument(&args, "action") {
            Some(name) => name,
            None => {
                return Err("Missing 'action' parameter".to_string());
            },
        };
        let action = match parse_action(name.as_str()) {
            Some(action) => action,
            None => {
                let mut message = "Unknown action '".to_string();
                message.append(name.as_str());
                message.append("'. Use spawn/status/wait/cancel.");
                return Ok(ChildStart::Finished(tool_error(message)));
            },
        };
        let owner_key = match owner_of(&context) {
            Some(owner_key) => owner_key,
            None => {
                return Ok(
                    ChildStart::Finished(
                        tool_error("child_session requires a conversation context".to_string()),
                    ),
                );
            },
        };
        if let ChildAction::Spawn = action {
            if let Some(message) = self.refuse_spawn(&args) {
                return Ok(ChildStart::Finished(tool_error(message)));
            }
        }
        let call = ChildCall {
            action,
            args,
            owner_key,
            context,
            step: ChildStep::Enforce,
            spawned: String::new(),
            result: None,
        };
        assert(call@.spawned == Seq::<char>::empty());
        Ok(ChildStart::Running(call))
    }
}

impl ChildCall {
    #[verifier::type_invariant]
    spec fn well_formed(self) -> bool {
        is_settled(self@)
    }

    /// The outcome of the call, once it has ended.
    pub fn result(&self) -> (r: Option<&ToolResult>)
        ensures
            match r {
                Some(result) => self@.result == Some(result@),
                None => self@.result is None,
            },
    {
        match &self.result {
            Some(result) => Some(result),
            None => None,
        }
    }

    /// Whether the call sets a child to work.
    pub fn spawns(&self) -> (r: bool)
        ensures
            r == (self@.action == ChildAction::Spawn),
    {
        matches!(self.action, ChildAction::Spawn)
    }

    /// The session that the call is about.
    fn session_id(&self) -> (r: String)
        ensures
            r@ == call_session(self@),
    {
        word_or_empty_argument(&self.args, "session_id")
    }

    /// What is to be done next; nothing, once the call has its outcome.
    pub fn request(&self) -> (r: Option<ChildRequest>)
        ensures
            match r {
                Some(request) => call_request(self@) == Some(request@),
                None => call_request(self@) is None && self@.result is Some,
            },
    {
        proof {
            use_type_invariant(self);
        }
        match self.step {
            ChildStep::Enforce => {
                let (operation, name) = match self.action {
                    ChildAction::Spawn => (ToolOperation::Act, "child_session.spawn"),
                    ChildAction::Status => (ToolOperation::Read, "child_session.status"),
                    ChildAction::Wait => (ToolOperation::Read, "child_session.wait"),
                    ChildAction::Cancel => (ToolOperation::Act, "child_session.cancel"),
                };
                Some(ChildRequest::Enforce { operation, name: name.to_string() })
            },
            ChildStep::Spawn => {
                let chars = chars_of(text_or_empty_argument(&self.args, "context").as_str());
                Some(
                    ChildRequest::Spawn {
                        session_id: self.spawned.clone(),
                        agent: word_or_empty_argument(&self.args, "agent"),
                        prompt: word_or_empty_argument(&self.args, "prompt"),
                        context: string_of(trim(chars.as_slice())),
                        timeout_secs: timeout_of(&self.args),
                        caller: copy_context(&self.context),
                    },
                )
            },
            ChildStep::Wait => {
                let timeout_secs: u64 = match parse_bounded_secs(
                    &self.args,
                    "wait_timeout_secs",
                    DEFAULT_WAIT_TIMEOUT_SECS,
                    MAX_WAIT_TIMEOUT_SECS,
                ) {
                    Ok(secs) => secs,
                    Err(_) => 0,
                };
                Some(ChildRequest::Wait { session_id: self.session_id(), timeout_secs })
            },
            ChildStep::Abort => Some(ChildRequest::Abort { session_id: self.session_id() }),
            ChildStep::Finished => None,
        }
    }

    fn fail(&mut self, message: String)
        ensures
            final(self)@ == failed(old(self)@, message@),
    {
        self.result = Some(tool_error(message));
        self.step = ChildStep::Finished;
    }

    /// Tells of a session, as it stands in the registry.
    fn tell(&mut self, registry: &ChildSessionRegistry, action: &str, session_id: &str)
        ensures
            final(self)@ == telling(old(self)@, registry@, action@, session_id@),
    {
        match registry.get(session_id) {
            Some(session) => {
                let document = session_answer(action, session_json(&session.snapshot()));
                let text = pretty_text(&document);
                self.result = Some(tool_answer(text));
                self.step = ChildStep::Finished;
            },
            None => {
                let mut message = "child session '".to_string();
                message.append(session_id);
                message.append("' not found");
                self.fail(message);
            },
        }
    }

    /// Goes on after an answer.
    pub fn advance(
        &mut self,
        tool: &ChildSessionTool,
        registry: &mut ChildSessionRegistry,
        reply: &ChildReply,
        now: Timestamp,
    )
        requires
            old(self)@.action == ChildAction::Spawn ==> old(registry)@.next_id < u64::MAX,
        ensures
            (final(self)@, final(registry)@) == call_next(
                old(self)@,
                tool@,
                old(registry)@,
                reply@,
                now@,
            ),
    {
        match (self.step, reply) {
            (ChildStep::Enforce, ChildReply::Allowed(allowed)) => match allowed {
                Err(reason) => self.fail(reason.clone()),
                Ok(()) => self.act(tool, registry, now),
            },
            (ChildStep::Spawn, ChildReply::Done) => {
                let session_id = self.spawned.clone();
                registry.set_abort_handle(session_id.as_str());
                self.tell(&*registry, "spawn", session_id.as_str());
            },
            (ChildStep::Wait, ChildReply::Done) => {
                let session_id = self.session_id();
                self.tell(&*registry, "wait", session_id.as_str());
            },
            (ChildStep::Abort, ChildReply::Done) => {
                let session_id = self.session_id();
                self.tell(&*registry, "cancel", session_id.as_str());
            },
            _ => {},
        }
    }

    /// Sets a child to work.
    fn handle_spawn(
        &mut self,
        tool: &ChildSessionTool,
        registry: &mut ChildSessionRegistry,
        now: Timestamp,
    )
        requires
            old(self)@.action == ChildAction::Spawn,
            old(registry)@.next_id < u64::MAX,
        ensures
            (final(self)@, final(registry)@) == acting(
                old(self)@,
                tool@,
                old(registry)@,
                now@,
            ),
    {
        let agent = word_or_empty_argument(&self.args, "agent");
        let prompt = word_or_empty_argument(&self.args, "prompt");
        match validate_agent(&tool.agents, agent.as_str()) {
            Err(message) => self.fail(message),
            Ok(config) => {
                let timeout_secs: u64 = timeout_of(&self.args);
                let session_id = registry.register(
                    self.owner_key.clone(),
                    &self.context,
                    agent.as_str(),
                    config,
                    timeout_secs,
                    summarize_text(prompt.as_str(), PROMPT_SUMMARY_LIMIT_CHARS),
                    now,
                );
                self.step = ChildStep::Spawn;
                self.spawned = session_id;
            },
        }
    }

    /// Goes on once the policy allowed it.
    fn act(
        &mut self,
        tool: &ChildSessionTool,
        registry: &mut ChildSessionRegistry,
        now: Timestamp,
    )
        requires
            old(self)@.action == ChildAction::Spawn ==> old(registry)@.next_id < u64::MAX,
        ensures
            (final(self)@, final(registry)@) == acting(
                old(self)@,
                tool@,
                old(registry)@,
                now@,
            ),
    {
        if let ChildAction::Spawn = self.action {
            self.handle_spawn(tool, registry, now);
            return;
        }
        if let ChildAction::Wait = self.action {
            if let Err(message) = parse_bounded_secs(
                &self.args,
                "wait_timeout_secs",
                DEFAULT_WAIT_TIMEOUT_SECS,
                MAX_WAIT_TIMEOUT_SECS,
            ) {
                self.fail(message);
                return;
            }
        }
        if word_argument(&self.args, "session_id").is_none() {
            self.fail("Missing 'session_id' parameter".to_string());
            return;
        }
        let session_id = self.session_id();
        let running = match registry.get_owned(self.owner_key.as_str(), session_id.as_str()) {
            Ok(session) => session.wait_for_completion().is_none(),
            Err(error) => {
                self.fail(error.to_text());
                return;
            },
        };
        match self.action {
            ChildAction::Wait => {
                if running {
                    self.step = ChildStep::Wait;
                } else {
                    self.tell(&*registry, "wait", session_id.as_str());
                }
            },
            ChildAction::Cancel => {
                let abort = registry.cancel(
                    session_id.as_str(),
                    "Child session cancelled by parent request",
                    now,
                );
                match abort {
                    Some(true) => {
                        self.step = ChildStep::Abort;
                    },
                    _ => self.tell(&*registry, "cancel", session_id.as_str()),
                }
            },
            _ => self.tell(&*registry, "status", session_id.as_str()),
        }
    }
}

} // verus!
