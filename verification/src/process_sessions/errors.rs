//! What can go wrong with a process session.

use crate::text::decimal::{append_decimal, decimal};
use vstd::prelude::*;

verus! {

#[derive(Debug, Clone, PartialEq, Eq)]
pub enum ProcessSessionError {
    SessionNotFound { session_id: String },
    SessionLimitExceeded { running_sessions: usize, max_running_sessions: usize },
    InspectFailed { session_id: String, reason: String },
    StdinUnavailable { session_id: String },
    StdinWriteFailed { session_id: String, reason: String },
    KillFailed { session_id: String, reason: String },
}

/// What an error says.
#[verifier::ext_equal]
pub enum SessionErrorModel {
    SessionNotFound { session_id: Seq<char> },
    SessionLimitExceeded { running_sessions: nat, max_running_sessions: nat },
    InspectFailed { session_id: Seq<char>, reason: Seq<char> },
    StdinUnavailable { session_id: Seq<char> },
    StdinWriteFailed { session_id: Seq<char>, reason: Seq<char> },
    KillFailed { session_id: Seq<char>, reason: Seq<char> },
}

impl View for ProcessSessionError {
    type V = SessionErrorModel;

    open spec fn view(&self) -> SessionErrorModel {
        match self {
            ProcessSessionError::SessionNotFound { session_id } => {
                SessionErrorModel::SessionNotFound { session_id: session_id@ }
            },
            ProcessSessionError::SessionLimitExceeded { running_sessions, max_running_sessions } => {
                SessionErrorModel::SessionLimitExceeded {
                    running_sessions: *running_sessions as nat,
                    max_running_sessions: *max_running_sessions as nat,
                }
            },
            ProcessSessionError::InspectFailed { session_id, reason } => {
                SessionErrorModel::InspectFailed { session_id: session_id@, reason: reason@ }
            },
            ProcessSessionError::StdinUnavailable { session_id } => {
                SessionErrorModel::StdinUnavailable { session_id: session_id@ }
            },
            ProcessSessionError::StdinWriteFailed { session_id, reason } => {
                SessionErrorModel::StdinWriteFailed { session_id: session_id@, reason: reason@ }
            },
            ProcessSessionError::KillFailed { session_id, reason } => {
                SessionErrorModel::KillFailed { session_id: session_id@, reason: reason@ }
            },
        }
    }
}

/// The message of an error.
pub open spec fn session_error_text(error: SessionErrorModel) -> Seq<char> {
    match error {
        SessionErrorModel::SessionNotFound { session_id } => "process session '"@ + session_id
            + "' not found"@,
        SessionErrorModel::SessionLimitExceeded { running_sessions, max_running_sessions } => {
            "process session capacity exceeded: "@ + decimal(running_sessions)
                + " running sessions already active (limit "@ + decimal(max_running_sessions) + ")"@
        },
        SessionErrorModel::InspectFailed { session_id, reason } => {
            "failed to inspect process session '"@ + session_id + "': "@ + reason
        },
        SessionErrorModel::StdinUnavailable { session_id } => "process session '"@ + session_id
            + "' does not expose stdin"@,
        SessionErrorModel::StdinWriteFailed { session_id, reason } => {
            "failed to write to process session '"@ + session_id + "': "@ + reason
        },
        SessionErrorModel::KillFailed { session_id, reason } => {
            "failed to kill process session '"@ + session_id + "': "@ + reason
        },
    }
}

/// `start`, a session, `middle`, and `end`.
fn sentence(start: &str, session_id: &str, middle: &str, end: &str) -> (r: String)
    ensures
        r@ == start@ + session_id@ + middle@ + end@,
{
    let mut text = start.to_string();
    text.append(session_id);
    text.append(middle);
    text.append(end);
    text
}

impl ProcessSessionError {
    /// The message of the error.
    pub fn to_text(&self) -> (r: String)
        ensures
            r@ == session_error_text(self@),
    {
        match self {
            ProcessSessionError::SessionNotFound { session_id } => {
                let mut text = "process session '".to_string();
                text.append(session_id.as_str());
                text.append("' not found");
                text
            },
            ProcessSessionError::SessionLimitExceeded { running_sessions, max_running_sessions } => {
                let mut text = "process session capacity exceeded: ".to_string();
                append_decimal(&mut text, *running_sessions as u64);
                text.append(" running sessions already active (limit ");
                append_decimal(&mut text, *max_running_sessions as u64);
                text.append(")");
                text
            },
            ProcessSessionError::InspectFailed { session_id, reason } => sentence(
                "failed to inspect process session '",
                session_id.as_str(),
                "': ",
                reason.as_str(),
            ),
            ProcessSessionError::StdinUnavailable { session_id } => {
                let mut text = "process session '".to_string();
                text.append(session_id.as_str());
                text.append("' does not expose stdin");
                text
            },
            ProcessSessionError::StdinWriteFailed { session_id, reason } => sentence(
                "failed to write to process session '",
                session_id.as_str(),
                "': ",
                reason.as_str(),
            ),
            ProcessSessionError::KillFailed { session_id, reason } => sentence(
                "failed to kill process session '",
                session_id.as_str(),
                "': ",
                reason.as_str(),
            ),
        }
    }
}

} // verus!
