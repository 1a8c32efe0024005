//! Why a patch was not carried out.

use vstd::prelude::*;

verus! {

/// Why a patch was not carried out.
#[derive(Debug, Clone, PartialEq, Eq)]
pub enum PatchExecutionError {
    ReadOnly,
    RateLimited,
    ActionBudgetExhausted,
    DisallowedPath { path: String },
    ResolvedPathDenied { path: String },
    InvalidPath { path: String, reason: String },
    SymlinkDenied { path: String },
    NotAFile { path: String },
    MissingTarget { path: String },
    TargetExists { path: String },
    MoveDestinationExists { path: String },
    ReadFailed { path: String, reason: String },
    ResolveFailed { path: String, reason: String },
    CreateParentFailed { path: String, reason: String },
    WriteFailed { path: String, reason: String },
    DeleteFailed { path: String, reason: String },
    HunkApplyFailed { path: String, reason: String },
    HunkAmbiguous { path: String, reason: String },
}

/// What such an error says.
#[verifier::ext_equal]
pub enum ExecutionErrorModel {
    ReadOnly,
    RateLimited,
    ActionBudgetExhausted,
    DisallowedPath { path: Seq<char> },
    ResolvedPathDenied { path: Seq<char> },
    InvalidPath { path: Seq<char>, reason: Seq<char> },
    SymlinkDenied { path: Seq<char> },
    NotAFile { path: Seq<char> },
    MissingTarget { path: Seq<char> },
    TargetExists { path: Seq<char> },
    MoveDestinationExists { path: Seq<char> },
    ReadFailed { path: Seq<char>, reason: Seq<char> },
    ResolveFailed { path: Seq<char>, reason: Seq<char> },
    CreateParentFailed { path: Seq<char>, reason: Seq<char> },
    WriteFailed { path: Seq<char>, reason: Seq<char> },
    DeleteFailed { path: Seq<char>, reason: Seq<char> },
    HunkApplyFailed { path: Seq<char>, reason: Seq<char> },
    HunkAmbiguous { path: Seq<char>, reason: Seq<char> },
}

impl View for PatchExecutionError {
    type V = ExecutionErrorModel;

    open spec fn view(&self) -> ExecutionErrorModel {
        match self {
            PatchExecutionError::ReadOnly => ExecutionErrorModel::ReadOnly,
            PatchExecutionError::RateLimited => ExecutionErrorModel::RateLimited,
            PatchExecutionError::ActionBudgetExhausted =>
                ExecutionErrorModel::ActionBudgetExhausted,
            PatchExecutionError::DisallowedPath { path } => ExecutionErrorModel::DisallowedPath {
                path: path@,
            },
            PatchExecutionError::ResolvedPathDenied { path } =>
                ExecutionErrorModel::ResolvedPathDenied { path: path@ },
            PatchExecutionError::InvalidPath { path, reason } => ExecutionErrorModel::InvalidPath {
                path: path@,
                reason: reason@,
            },
            PatchExecutionError::SymlinkDenied { path } => ExecutionErrorModel::SymlinkDenied {
                path: path@,
            },
            PatchExecutionError::NotAFile { path } => ExecutionErrorModel::NotAFile {
                path: path@,
            },
            PatchExecutionError::MissingTarget { path } => ExecutionErrorModel::MissingTarget {
                path: path@,
            },
            PatchExecutionError::TargetExists { path } => ExecutionErrorModel::TargetExists {
                path: path@,
            },
            PatchExecutionError::MoveDestinationExists { path } =>
                ExecutionErrorModel::MoveDestinationExists { path: path@ },
            PatchExecutionError::ReadFailed { path, reason } => ExecutionErrorModel::ReadFailed {
                path: path@,
                reason: reason@,
            },
            PatchExecutionError::ResolveFailed { path, reason } =>
                ExecutionErrorModel::ResolveFailed { path: path@, reason: reason@ },
            PatchExecutionError::CreateParentFailed { path, reason } =>
                ExecutionErrorModel::CreateParentFailed { path: path@, reason: reason@ },
            PatchExecutionError::WriteFailed { path, reason } => ExecutionErrorModel::WriteFailed {
                path: path@,
                reason: reason@,
            },
            PatchExecutionError::DeleteFailed { path, reason } =>
                ExecutionErrorModel::DeleteFailed { path: path@, reason: reason@ },
            PatchExecutionError::HunkApplyFailed { path, reason } =>
                ExecutionErrorModel::HunkApplyFailed { path: path@, reason: reason@ },
            PatchExecutionError::HunkAmbiguous { path, reason } =>
                ExecutionErrorModel::HunkAmbiguous { path: path@, reason: reason@ },
        }
    }
}

/// The sentence that tells a reader why a patch was not carried out.
pub open spec fn execution_error_text(error: ExecutionErrorModel) -> Seq<char> {
    match error {
        ExecutionErrorModel::ReadOnly => "action blocked: autonomy is read-only"@,
        ExecutionErrorModel::RateLimited =>
            "rate limit exceeded: too many actions in the last hour"@,
        ExecutionErrorModel::ActionBudgetExhausted =>
            "rate limit exceeded: action budget exhausted"@,
        ExecutionErrorModel::DisallowedPath { path } => "path not allowed by security policy: "@
            + path,
        ExecutionErrorModel::ResolvedPathDenied { path } =>
            "resolved path escapes workspace or allowed_roots: "@ + path,
        ExecutionErrorModel::InvalidPath { path, reason } => "invalid patch target '"@ + path
            + "': "@ + reason,
        ExecutionErrorModel::SymlinkDenied { path } => "refusing to modify through symlink: "@
            + path,
        ExecutionErrorModel::NotAFile { path } => "patch target must be a file: "@ + path,
        ExecutionErrorModel::MissingTarget { path } => "patch target does not exist: "@ + path,
        ExecutionErrorModel::TargetExists { path } => "add-file target already exists: "@ + path,
        ExecutionErrorModel::MoveDestinationExists { path } => "move destination already exists: "@
            + path,
        ExecutionErrorModel::ReadFailed { path, reason } => "failed to read "@ + path + ": "@
            + reason,
        ExecutionErrorModel::ResolveFailed { path, reason } => "failed to resolve path "@ + path
            + ": "@ + reason,
        ExecutionErrorModel::CreateParentFailed { path, reason } =>
            "failed to create parent directories for "@ + path + ": "@ + reason,
        ExecutionErrorModel::WriteFailed { path, reason } => "failed to write "@ + path + ": "@
            + reason,
        ExecutionErrorModel::DeleteFailed { path, reason } => "failed to delete "@ + path + ": "@
            + reason,
        ExecutionErrorModel::HunkApplyFailed { path, reason } =>
            "patch hunk could not be applied to "@ + path + ": "@ + reason,
        ExecutionErrorModel::HunkAmbiguous { path, reason } => "patch hunk is ambiguous in "@ + path
            + ": "@ + reason,
    }
}

/// `head` with `tail` behind it.
fn text2(head: &str, tail: &str) -> (r: String)
    ensures
        r@ == head@ + tail@,
{
    let mut out = head.to_string();
    out.append(tail);
    out
}

/// Four texts, one behind the other.
fn text4(first: &str, second: &str, third: &str, fourth: &str) -> (r: String)
    ensures
        r@ == first@ + second@ + third@ + fourth@,
{
    let mut out = first.to_string();
    out.append(second);
    out.append(third);
    out.append(fourth);
    out
}

impl PatchExecutionError {
    /// The error as a sentence.
    pub fn to_text(&self) -> (r: String)
        ensures
            r@ == execution_error_text(self@),
    {
        match self {
            PatchExecutionError::ReadOnly => "action blocked: autonomy is read-only".to_string(),
            PatchExecutionError::RateLimited =>
                "rate limit exceeded: too many actions in the last hour".to_string(),
            PatchExecutionError::ActionBudgetExhausted =>
                "rate limit exceeded: action budget exhausted".to_string(),
            PatchExecutionError::DisallowedPath { path } => text2(
                "path not allowed by security policy: ",
                path.as_str(),
            ),
            PatchExecutionError::ResolvedPathDenied { path } => text2(
                "resolved path escapes workspace or allowed_roots: ",
                path.as_str(),
            ),
            PatchExecutionError::InvalidPath { path, reason } => text4(
                "invalid patch target '",
                path.as_str(),
                "': ",
                reason.as_str(),
            ),
            PatchExecutionError::SymlinkDenied { path } => text2(
                "refusing to modify through symlink: ",
                path.as_str(),
            ),
            PatchExecutionError::NotAFile { path } => text2(
                "patch target must be a file: ",
                path.as_str(),
            ),
            PatchExecutionError::MissingTarget { path } => text2(
                "patch target does not exist: ",
                path.as_str(),
            ),
            PatchExecutionError::TargetExists { path } => text2(
                "add-file target already exists: ",
                path.as_str(),
            ),
            PatchExecutionError::MoveDestinationExists { path } => text2(
                "move destination already exists: ",
                path.as_str(),
            ),
            PatchExecutionError::ReadFailed { path, reason } => text4(
                "failed to read ",
                path.as_str(),
                ": ",
                reason.as_str(),
            ),
            PatchExecutionError::ResolveFailed { path, reason } => text4(
                "failed to resolve path ",
                path.as_str(),
                ": ",
                reason.as_str(),
            ),
            PatchExecutionError::CreateParentFailed { path, reason } => text4(
                "failed to create parent directories for ",
                path.as_str(),
                ": ",
                reason.as_str(),
            ),
            PatchExecutionError::WriteFailed { path, reason } => text4(
                "failed to write ",
                path.as_str(),
                ": ",
                reason.as_str(),
            ),
            PatchExecutionError::DeleteFailed { path, reason } => text4(
                "failed to delete ",
                path.as_str(),
                ": ",
                reason.as_str(),
            ),
            PatchExecutionError::HunkApplyFailed { path, reason } => text4(
                "patch hunk could not be applied to ",
                path.as_str(),
                ": ",
                reason.as_str(),
            ),
            PatchExecutionError::HunkAmbiguous { path, reason } => text4(
                "patch hunk is ambiguous in ",
                path.as_str(),
                ": ",
                reason.as_str(),
            ),
        }
    }
}

} // verus!
