//! One child agent that works on its own.

use crate::child_session::artifacts::{extract_workspace_paths, workspace_paths};
use crate::host::time::{optional_moment, Timestamp};
use crate::host::tool::{copy_optional, optional_view, ToolResult, ToolResultModel};
use crate::text::decimal::{append_decimal, decimal};
use crate::text::lines::{clone_texts, texts};
use crate::text::summary::{summarize_text, summarized};
use crate::text::words::words;
use vstd::prelude::*;

verus! {

/// How many characters of what a child reports are kept.
pub const COMPLETION_SUMMARY_LIMIT_CHARS: usize = 1200;

/// How far a child has come.
#[derive(Debug, Clone, Copy, PartialEq, Eq, Structural)]
pub enum ChildSessionState {
    Running,
    Completed,
    Failed,
    TimedOut,
    Cancelled,
}

/// What a child came to.
#[derive(Debug, Clone, PartialEq, Eq)]
pub struct ChildSessionCompletion {
    pub success: bool,
    pub summary: String,
    pub error: Option<String>,
    pub artifacts: Vec<String>,
}

/// What a completion says.
#[verifier::ext_equal]
pub struct CompletionModel {
    pub success: bool,
    pub summary: Seq<char>,
    pub error: Option<Seq<char>>,
    pub artifacts: Seq<Seq<char>>,
}

impl View for ChildSessionCompletion {
    type V = CompletionModel;

    open spec fn view(&self) -> CompletionModel {
        CompletionModel {
            success: self.success,
            summary: self.summary@,
            error: optional_view(self.error),
            artifacts: texts(self.artifacts@),
        }
    }
}

/// What an optional completion says.
pub open spec fn optional_completion(completion: Option<ChildSessionCompletion>) -> Option<
    CompletionModel,
> {
    match completion {
        Some(completion) => Some(completion@),
        None => None,
    }
}

impl ChildSessionCompletion {
    /// The same completion once more.
    pub fn copy(&self) -> (r: Self)
        ensures
            r@ == self@,
    {
        ChildSessionCompletion {
            success: self.success,
            summary: self.summary.clone(),
            error: copy_optional(&self.error),
            artifacts: clone_texts(&self.artifacts),
        }
    }
}

/// What an agent that can be delegated to is set up with.
#[derive(Debug, Clone, PartialEq, Eq)]
pub struct DelegateAgentConfig {
    pub provider: String,
    pub model: String,
    pub max_depth: u32,
    pub agentic: bool,
    pub allowed_tools: Vec<String>,
    pub max_iterations: usize,
}

/// What such a set-up says.
#[verifier::ext_equal]
pub struct AgentModel {
    pub provider: Seq<char>,
    pub model: Seq<char>,
    pub max_depth: u32,
    pub agentic: bool,
    pub allowed_tools: Seq<Seq<char>>,
    pub max_iterations: usize,
}

impl View for DelegateAgentConfig {
    type V = AgentModel;

    open spec fn view(&self) -> AgentModel {
        AgentModel {
            provider: self.provider@,
            model: self.model@,
            max_depth: self.max_depth,
            agentic: self.agentic,
            allowed_tools: texts(self.allowed_tools@),
            max_iterations: self.max_iterations,
        }
    }
}

/// A child agent that works on its own, or did.
pub struct ChildSession {
    session_id: String,
    owner_key: String,
    agent_name: String,
    provider: String,
    model: String,
    allowed_tools: Vec<String>,
    max_depth: u32,
    max_iterations: usize,
    timeout_secs: u64,
    prompt_summary: String,
    channel_name: Option<String>,
    reply_target: Option<String>,
    started_at: Timestamp,
    last_update_at: Timestamp,
    completed_at: Option<Timestamp>,
    state: ChildSessionState,
    completion: Option<ChildSessionCompletion>,
    has_abort_handle: bool,
}

/// What a child session is like at a moment.
#[derive(Debug, Clone, PartialEq, Eq)]
pub struct ChildSessionSnapshot {
    pub session_id: String,
    pub owner_key: String,
    pub agent_name: String,
    pub provider: String,
    pub model: String,
    pub allowed_tools: Vec<String>,
    pub max_depth: u32,
    pub max_iterations: usize,
    pub timeout_secs: u64,
    pub prompt_summary: String,
    pub channel_name: Option<String>,
    pub reply_target: Option<String>,
    pub started_at: Timestamp,
    pub last_update_at: Timestamp,
    pub completed_at: Option<Timestamp>,
    pub state: ChildSessionState,
    pub completion: Option<ChildSessionCompletion>,
}

/// What a snapshot says.
#[verifier::ext_equal]
pub struct ChildSnapshotModel {
    pub session_id: Seq<char>,
    pub owner_key: Seq<char>,
    pub agent_name: Seq<char>,
    pub provider: Seq<char>,
    pub model: Seq<char>,
    pub allowed_tools: Seq<Seq<char>>,
    pub max_depth: u32,
    pub max_iterations: usize,
    pub timeout_secs: u64,
    pub prompt_summary: Seq<char>,
    pub channel_name: Option<Seq<char>>,
    pub reply_target: Option<Seq<char>>,
    pub started_at: int,
    pub last_update_at: int,
    pub completed_at: Option<int>,
    pub state: ChildSessionState,
    pub completion: Option<CompletionModel>,
}

impl View for ChildSessionSnapshot {
    type V = ChildSnapshotModel;

    open spec fn view(&self) -> ChildSnapshotModel {
        ChildSnapshotModel {
            session_id: self.session_id@,
            owner_key: self.owner_key@,
            agent_name: self.agent_name@,
            provider: self.provider@,
            model: self.model@,
            allowed_tools: texts(self.allowed_tools@),
            max_depth: self.max_depth,
            max_iterations: self.max_iterations,
            timeout_secs: self.timeout_secs,
            prompt_summary: self.prompt_summary@,
            channel_name: optional_view(self.channel_name),
            reply_target: optional_view(self.reply_target),
            started_at: self.started_at@,
            last_update_at: self.last_update_at@,
            completed_at: optional_moment(self.completed_at),
            state: self.state,
            completion: optional_completion(self.completion),
        }
    }
}

/// What a child session holds: all that a snapshot tells, and whether its work
/// can be broken off.
#[verifier::ext_equal]
pub struct ChildModel {
    pub snapshot: ChildSnapshotModel,
    pub has_abort_handle: bool,
}

impl View for ChildSession {
    type V = ChildModel;

    closed spec fn view(&self) -> ChildModel {
        ChildModel {
            snapshot: ChildSnapshotModel {
                session_id: self.session_id@,
                owner_key: self.owner_key@,
                agent_name: self.agent_name@,
                provider: self.provider@,
                model: self.model@,
                allowed_tools: texts(self.allowed_tools@),
                max_depth: self.max_depth,
                max_iterations: self.max_iterations,
                timeout_secs: self.timeout_secs,
                prompt_summary: self.prompt_summary@,
                channel_name: optional_view(self.channel_name),
                reply_target: optional_view(self.reply_target),
                started_at: self.started_at@,
                last_update_at: self.last_update_at@,
                completed_at: optional_moment(self.completed_at),
                state: self.state,
                completion: optional_completion(self.completion),
            },
            has_abort_handle: self.has_abort_handle,
        }
    }
}

/// What a child is asked to do, and for whom.
#[verifier::ext_equal]
pub struct ChildTask {
    pub owner_key: Seq<char>,
    pub channel_name: Option<Seq<char>>,
    pub reply_target: Option<Seq<char>>,
    pub agent_name: Seq<char>,
    pub agent: AgentModel,
    pub timeout_secs: u64,
    pub prompt_summary: Seq<char>,
}

/// A child session as it begins.
pub open spec fn new_child(session_id: Seq<char>, task: ChildTask, now: int) -> ChildModel {
    ChildModel {
        snapshot: ChildSnapshotModel {
            session_id,
            owner_key: task.owner_key,
            agent_name: task.agent_name,
            provider: task.agent.provider,
            model: task.agent.model,
            allowed_tools: task.agent.allowed_tools,
            max_depth: task.agent.max_depth,
            max_iterations: task.agent.max_iterations,
            timeout_secs: task.timeout_secs,
            prompt_summary: task.prompt_summary,
            channel_name: task.channel_name,
            reply_target: task.reply_target,
            started_at: now,
            last_update_at: now,
            completed_at: None,
            state: ChildSessionState::Running,
            completion: None,
        },
        has_abort_handle: false,
    }
}

/// The session once its child has ended. What has ended already stays as it is.
pub open spec fn ended(
    child: ChildModel,
    state: ChildSessionState,
    completion: CompletionModel,
    now: int,
) -> ChildModel {
    if child.snapshot.state != ChildSessionState::Running {
        child
    } else {
        ChildModel {
            snapshot: ChildSnapshotModel {
                state,
                completion: Some(completion),
                completed_at: Some(now),
                last_update_at: now,
                ..child.snapshot
            },
            has_abort_handle: false,
        }
    }
}

/// What is kept of a child that was cancelled.
pub open spec fn cancelled_completion(reason: Seq<char>) -> CompletionModel {
    CompletionModel {
        success: false,
        summary: summarized(reason, COMPLETION_SUMMARY_LIMIT_CHARS as nat),
        error: Some(reason),
        artifacts: seq![],
    }
}

/// The session once its child was cancelled.
pub open spec fn cancelled(child: ChildModel, reason: Seq<char>, now: int) -> ChildModel {
    ended(
        ChildModel { has_abort_handle: false, ..child },
        ChildSessionState::Cancelled,
        cancelled_completion(reason),
        now,
    )
}

/// The text that a result is judged by: its output, or what went wrong.
pub open spec fn result_source(result: ToolResultModel) -> Seq<char> {
    if result.success {
        result.output
    } else {
        match result.error {
            Some(error) => error,
            None => "child session failed"@,
        }
    }
}

/// What is kept of the result of a child.
pub open spec fn result_completion(result: ToolResultModel, workspace: Seq<char>) -> CompletionModel {
    CompletionModel {
        success: result.success,
        summary: summarized(result_source(result), COMPLETION_SUMMARY_LIMIT_CHARS as nat),
        error: result.error,
        artifacts: workspace_paths(words(result_source(result)), workspace),
    }
}

/// The session once its child has a result.
pub open spec fn completed(
    child: ChildModel,
    result: ToolResultModel,
    workspace: Seq<char>,
    now: int,
) -> ChildModel {
    ended(
        child,
        if result.success {
            ChildSessionState::Completed
        } else {
            ChildSessionState::Failed
        },
        result_completion(result, workspace),
        now,
    )
}

/// What is kept of a child that took too long.
pub open spec fn timeout_completion(timeout_secs: u64) -> CompletionModel {
    CompletionModel {
        success: false,
        summary: "Child session timed out after "@ + decimal(timeout_secs as nat) + "s"@,
        error: Some("timed out after "@ + decimal(timeout_secs as nat) + "s"@),
        artifacts: seq![],
    }
}

/// The session once its child took too long.
pub open spec fn timed_out(child: ChildModel, timeout_secs: u64, now: int) -> ChildModel {
    ended(child, ChildSessionState::TimedOut, timeout_completion(timeout_secs), now)
}

/// `text`, a number of seconds.
fn with_seconds(text: &str, secs: u64) -> (r: String)
    ensures
        r@ == text@ + decimal(secs as nat) + "s"@,
{
    let mut out = text.to_string();
    append_decimal(&mut out, secs);
    out.append("s");
    out
}

impl ChildSession {
    /// A session for a child that is about to begin.
    pub fn new(
        session_id: String,
        owner_key: String,
        channel_name: Option<String>,
        reply_target: Option<String>,
        agent_name: String,
        agent_config: &DelegateAgentConfig,
        timeout_secs: u64,
        prompt_summary: String,
        now: Timestamp,
    ) -> (r: Self)
        ensures
            r@ == new_child(
                session_id@,
                ChildTask {
                    owner_key: owner_key@,
                    channel_name: optional_view(channel_name),
                    reply_target: optional_view(reply_target),
                    agent_name: agent_name@,
                    agent: agent_config@,
                    timeout_secs,
                    prompt_summary: prompt_summary@,
                },
                now@,
            ),
    {
        ChildSession {
            session_id,
            owner_key,
            agent_name,
            provider: agent_config.provider.clone(),
            model: agent_config.model.clone(),
            allowed_tools: clone_texts(&agent_config.allowed_tools),
            max_depth: agent_config.max_depth,
            max_iterations: agent_config.max_iterations,
            timeout_secs,
            prompt_summary,
            channel_name,
            reply_target,
            started_at: now,
            last_update_at: now,
            completed_at: None,
            state: ChildSessionState::Running,
            completion: None,
            has_abort_handle: false,
        }
    }

    pub fn session_id(&self) -> (r: &str)
        ensures
            r@ == self@.snapshot.session_id,
    {
        self.session_id.as_str()
    }

    pub fn owner_key(&self) -> (r: &str)
        ensures
            r@ == self@.snapshot.owner_key,
    {
        self.owner_key.as_str()
    }

    /// After how many seconds the child has taken too long.
    pub fn timeout_secs(&self) -> (r: u64)
        ensures
            r == self@.snapshot.timeout_secs,
    {
        self.timeout_secs
    }

    /// Whether the child has not ended yet.
    pub fn is_running(&self) -> (r: bool)
        ensures
            r == (self@.snapshot.state == ChildSessionState::Running),
    {
        self.state == ChildSessionState::Running
    }

    /// What the session is like now.
    pub fn snapshot(&self) -> (r: ChildSessionSnapshot)
        ensures
            r@ == self@.snapshot,
    {
        ChildSessionSnapshot {
            session_id: self.session_id.clone(),
            owner_key: self.owner_key.clone(),
            agent_name: self.agent_name.clone(),
            provider: self.provider.clone(),
            model: self.model.clone(),
            allowed_tools: clone_texts(&self.allowed_tools),
            max_depth: self.max_depth,
            max_iterations: self.max_iterations,
            timeout_secs: self.timeout_secs,
            prompt_summary: self.prompt_summary.clone(),
            channel_name: copy_optional(&self.channel_name),
            reply_target: copy_optional(&self.reply_target),
            started_at: self.started_at,
            last_update_at: self.last_update_at,
            completed_at: self.completed_at,
            state: self.state,
            completion: match &self.completion {
                Some(completion) => Some(completion.copy()),
                None => None,
            },
        }
    }

    /// What the session is like, if its child has ended; otherwise whoever waits
    /// for the end has to wait, and looks again.
    pub fn wait_for_completion(&self) -> (r: Option<ChildSessionSnapshot>)
        ensures
            match r {
                Some(snapshot) => self@.snapshot.state != ChildSessionState::Running && snapshot@
                    == self@.snapshot,
                None => self@.snapshot.state == ChildSessionState::Running,
            },
    {
        if self.is_running() {
            None
        } else {
            Some(self.snapshot())
        }
    }

    /// Notes that the work of the child can be broken off from now on.
    pub fn set_abort_handle(&mut self)
        ensures
            final(self)@ == (ChildModel { has_abort_handle: true, ..old(self)@ }),
    {
        self.has_abort_handle = true;
    }

    /// Notes that the child was cancelled. Returns whether there is work to be
    /// broken off.
    pub fn cancel(&mut self, reason: &str, now: Timestamp) -> (r: bool)
        ensures
            final(self)@ == cancelled(old(self)@, reason@, now@),
            r == old(self)@.has_abort_handle,
    {
        let abort = self.has_abort_handle;
        self.has_abort_handle = false;
        let completion = ChildSessionCompletion {
            success: false,
            summary: summarize_text(reason, COMPLETION_SUMMARY_LIMIT_CHARS),
            error: Some(reason.to_string()),
            artifacts: Vec::new(),
        };
        assert(completion@ == cancelled_completion(reason@));
        self.mark_terminal(ChildSessionState::Cancelled, completion, now);
        abort
    }

    /// Notes the result of the child.
    pub fn mark_completed(&mut self, result: &ToolResult, workspace_dir: &str, now: Timestamp)
        ensures
            final(self)@ == completed(old(self)@, result@, workspace_dir@, now@),
    {
        let source = if result.success {
            result.output.clone()
        } else {
            match &result.error {
                Some(error) => error.clone(),
                None => "child session failed".to_string(),
            }
        };
        let completion = ChildSessionCompletion {
            success: result.success,
            summary: summarize_text(source.as_str(), COMPLETION_SUMMARY_LIMIT_CHARS),
            error: copy_optional(&result.error),
            artifacts: extract_workspace_paths(source.as_str(), workspace_dir),
        };
        let state = if completion.success {
            ChildSessionState::Completed
        } else {
            ChildSessionState::Failed
        };
        self.mark_terminal(state, completion, now);
    }

    /// Notes that the child took too long.
    pub fn mark_timeout(&mut self, timeout_secs: u64, now: Timestamp)
        ensures
            final(self)@ == timed_out(old(self)@, timeout_secs, now@),
    {
        let completion = ChildSessionCompletion {
            success: false,
            summary: with_seconds("Child session timed out after ", timeout_secs),
            error: Some(with_seconds("timed out after ", timeout_secs)),
            artifacts: Vec::new(),
        };
        assert(completion@ == timeout_completion(timeout_secs));
        self.mark_terminal(ChildSessionState::TimedOut, completion, now);
    }

    /// Notes the end of the child, unless it has ended before.
    pub fn mark_terminal(
        &mut self,
        state: ChildSessionState,
        completion: ChildSessionCompletion,
        now: Timestamp,
    )
        ensures
            final(self)@ == ended(old(self)@, state, completion@, now@),
    {
        if self.state != ChildSessionState::Running {
            return;
        }
        self.state = state;
        self.completion = Some(completion);
        self.completed_at = Some(now);
        self.last_update_at = now;
        self.has_abort_handle = false;
    }
}

/// The end of a child is final: whatever comes later, what was kept of it stays.
pub proof fn law_end_is_final(
    child: ChildModel,
    result: ToolResultModel,
    workspace: Seq<char>,
    timeout_secs: u64,
    reason: Seq<char>,
    state: ChildSessionState,
    completion: CompletionModel,
    now: int,
)
    requires
        child.snapshot.state != ChildSessionState::Running,
    ensures
        ended(child, state, completion, now) == child,
        completed(child, result, workspace, now) == child,
        timed_out(child, timeout_secs, now) == child,
        cancelled(child, reason, now).snapshot == child.snapshot,
{
}

/// What is kept of a child fits together: as long as it runs there is no
/// completion and no end, and afterwards both.
pub open spec fn is_consistent(child: ChildModel) -> bool {
    &&& child.snapshot.state == ChildSessionState::Running <==> child.snapshot.completion is None
    &&& child.snapshot.state == ChildSessionState::Running <==> child.snapshot.completed_at is None
    &&& child.snapshot.completion matches Some(completion) ==> (completion.success
        <==> child.snapshot.state == ChildSessionState::Completed)
}

/// What is kept of a child fits together from the beginning, and however it ends.
pub proof fn law_children_stay_consistent(
    child: ChildModel,
    session_id: Seq<char>,
    task: ChildTask,
    result: ToolResultModel,
    workspace: Seq<char>,
    timeout_secs: u64,
    reason: Seq<char>,
    state: ChildSessionState,
    completion: CompletionModel,
    now: int,
)
    requires
        is_consistent(child),
    ensures
        state != ChildSessionState::Running && (completion.success <==> state
            == ChildSessionState::Completed) ==> is_consistent(ended(child, state, completion, now)),
        is_consistent(new_child(session_id, task, now)),
        is_consistent(completed(child, result, workspace, now)),
        is_consistent(timed_out(child, timeout_secs, now)),
        is_consistent(cancelled(child, reason, now)),
{
}

} // verus!
