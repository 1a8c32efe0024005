//! What a call of the process tool asks of the program around it, and what
//! that program answers.

use crate::host::tool::{optional_view, ToolOperation};
use crate::process_sessions::cleanup::{SessionRequest, SessionRequestModel};
use crate::process_sessions::session::{
    failure_of, KillReply, KillReplyModel, StdinWrite, StdinWriteModel,
};
use crate::text::lines::texts;
use vstd::prelude::*;

verus! {

/// What is to be done or looked up next.
#[derive(Debug, Clone, PartialEq, Eq)]
pub enum ProcessRequest {
    /// Something with the process of a session. Answered by a session reply.
    Session(SessionRequest),
    /// Has the agent acted too often of late? Answered by a flag.
    RateLimited,
    /// Does the policy let this command run? Answered by success, or the reason why not.
    ValidateCommand { command: String, approved: bool },
    /// Which path in the command does the policy forbid? Answered by a path.
    ForbiddenPath { command: String },
    /// Count one action. Answered by a flag: whether the budget had room for it.
    RecordAction,
    /// Make the command ready to run in the workspace. Answered by success.
    BuildCommand { command: String, workspace_dir: String },
    /// Run the command, with the variables of those names and no others, and
    /// with its three streams connected. Answered by the start.
    Spawn { environment: Vec<String> },
    /// Does the policy let the tool do this? Answered by success, or the reason why not.
    Enforce { operation: ToolOperation, name: String },
    /// Write to the process. Answered by what came of it.
    Write { session_id: String, input: String },
}

/// The answer to a request.
#[derive(Debug, PartialEq, Eq)]
pub enum ProcessReply {
    Session(KillReply),
    Flag(bool),
    Done(Result<(), String>),
    Path(Option<String>),
    /// Whether the process that was started can be written to.
    Spawned(Result<bool, String>),
    Written(StdinWrite),
}

/// What a request says.
#[verifier::ext_equal]
pub enum ProcessRequestModel {
    Session(SessionRequestModel),
    RateLimited,
    ValidateCommand { command: Seq<char>, approved: bool },
    ForbiddenPath { command: Seq<char> },
    RecordAction,
    BuildCommand { command: Seq<char>, workspace_dir: Seq<char> },
    Spawn { environment: Seq<Seq<char>> },
    Enforce { operation: ToolOperation, name: Seq<char> },
    Write { session_id: Seq<char>, input: Seq<char> },
}

/// What a reply says.
#[verifier::ext_equal]
pub enum ProcessReplyModel {
    Session(KillReplyModel),
    Flag(bool),
    /// Why it failed, if it did.
    Done(Option<Seq<char>>),
    Path(Option<Seq<char>>),
    Spawned(Result<bool, Seq<char>>),
    Written(StdinWriteModel),
}

impl View for ProcessRequest {
    type V = ProcessRequestModel;

    open spec fn view(&self) -> ProcessRequestModel {
        match self {
            ProcessRequest::Session(request) => ProcessRequestModel::Session(request@),
            ProcessRequest::RateLimited => ProcessRequestModel::RateLimited,
            ProcessRequest::ValidateCommand { command, approved } => {
                ProcessRequestModel::ValidateCommand { command: command@, approved: *approved }
            },
            ProcessRequest::ForbiddenPath { command } => ProcessRequestModel::ForbiddenPath {
                command: command@,
            },
            ProcessRequest::RecordAction => ProcessRequestModel::RecordAction,
            ProcessRequest::BuildCommand { command, workspace_dir } => {
                ProcessRequestModel::BuildCommand {
                    command: command@,
                    workspace_dir: workspace_dir@,
                }
            },
            ProcessRequest::Spawn { environment } => ProcessRequestModel::Spawn {
                environment: texts(environment@),
            },
            ProcessRequest::Enforce { operation, name } => ProcessRequestModel::Enforce {
                operation: *operation,
                name: name@,
            },
            ProcessRequest::Write { session_id, input } => ProcessRequestModel::Write {
                session_id: session_id@,
                input: input@,
            },
        }
    }
}

impl View for ProcessReply {
    type V = ProcessReplyModel;

    open spec fn view(&self) -> ProcessReplyModel {
        match self {
            ProcessReply::Session(reply) => ProcessReplyModel::Session(reply@),
            ProcessReply::Flag(flag) => ProcessReplyModel::Flag(*flag),
            ProcessReply::Done(done) => ProcessReplyModel::Done(failure_of(*done)),
            ProcessReply::Path(path) => ProcessReplyModel::Path(optional_view(*path)),
            ProcessReply::Spawned(Ok(has_stdin)) => ProcessReplyModel::Spawned(Ok(*has_stdin)),
            ProcessReply::Spawned(Err(reason)) => ProcessReplyModel::Spawned(Err(reason@)),
            ProcessReply::Written(write) => ProcessReplyModel::Written(write@),
        }
    }
}

} // verus!
