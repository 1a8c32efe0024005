//! The checks that a path goes through before a patch touches it.

use crate::apply_patch::errors::{ExecutionErrorModel, PatchExecutionError};
use crate::apply_patch::protocol::{
    EntryModel, FileEntry, HostReply, HostRequest, PathId, ReplyModel, RequestModel, Resolution,
    ResolutionModel,
};
use vstd::prelude::*;

verus! {

/// How a check goes on after a reply: another question, the end, or an error.
#[verifier::ext_equal]
pub enum Next<S, T, E> {
    Ask(S),
    Done(T),
    Fail(E),
}

/// The same, with what the error says.
pub open spec fn next_model<S, T>(next: Next<S, T, PatchExecutionError>) -> Next<
    S,
    T,
    ExecutionErrorModel,
> {
    match next {
        Next::Ask(step) => Next::Ask(step),
        Next::Done(value) => Next::Done(value),
        Next::Fail(error) => Next::Fail(error@),
    }
}

/// The question that is open in the check of a file that has to exist.
#[derive(Debug, Clone, Copy, PartialEq, Eq, Structural)]
pub enum ExistingStep {
    Allowed,
    Locate,
    Link { full: PathId },
    Resolve { full: PathId },
    ResolveAgain { full: PathId },
}

/// The question that is open in the check of a file that must not exist yet.
#[derive(Debug, Clone, Copy, PartialEq, Eq, Structural)]
pub enum FutureStep {
    Allowed,
    Locate,
    Ancestor { full: PathId, parent: PathId, candidate: PathId },
    AncestorParent { full: PathId, parent: PathId, candidate: PathId },
    ResolveAncestor { full: PathId, parent: PathId, candidate: PathId },
    ParentLink { full: PathId, parent: PathId },
    ResolveParent { full: PathId, parent: PathId },
    TargetLink { full: PathId, parent: PathId },
    Exists { full: PathId, parent: PathId },
}

/// The question that is open while a new file is made ready to be written.
#[derive(Debug, Clone, Copy, PartialEq, Eq, Structural)]
pub enum ReadyStep {
    CreateDirectories,
    Resolve,
    Join { directory: PathId },
    Link { target: PathId },
}

/// The error of a path that does not resolve to one the policy allows.
pub open spec fn resolution_error(path: Seq<char>, resolution: ResolutionModel) -> Option<
    ExecutionErrorModel,
> {
    match resolution {
        ResolutionModel::Allowed { .. } => None,
        ResolutionModel::Denied { display } => Some(
            ExecutionErrorModel::ResolvedPathDenied { path: display },
        ),
        ResolutionModel::Failed { reason } => Some(
            ExecutionErrorModel::ResolveFailed { path, reason },
        ),
    }
}

/// What `step` of the check of an existing file asks.
pub open spec fn existing_request(step: ExistingStep, workspace: Seq<char>, path: Seq<char>) -> RequestModel {
    match step {
        ExistingStep::Allowed => RequestModel::PathAllowed { path },
        ExistingStep::Locate => RequestModel::Locate { workspace, path },
        ExistingStep::Link { full } => RequestModel::ProbeLink { at: full },
        ExistingStep::Resolve { full } => RequestModel::Resolve { at: full },
        ExistingStep::ResolveAgain { full } => RequestModel::Resolve { at: full },
    }
}

/// The check of an existing file: the path is allowed, it is that of a file and
/// not of a link, and what it resolves to is allowed too. A reply that answers
/// another question leaves the question open.
pub open spec fn existing_next(step: ExistingStep, path: Seq<char>, reply: ReplyModel) -> Next<
    ExistingStep,
    PathId,
    ExecutionErrorModel,
> {
    match (step, reply) {
        (ExistingStep::Allowed, ReplyModel::Flag(allowed)) => if allowed {
            Next::Ask(ExistingStep::Locate)
        } else {
            Next::Fail(ExecutionErrorModel::DisallowedPath { path })
        },
        (ExistingStep::Locate, ReplyModel::Place { at, .. }) => Next::Ask(
            ExistingStep::Link { full: at },
        ),
        (ExistingStep::Link { full }, ReplyModel::Entry(entry)) => match entry {
            EntryModel::File => Next::Ask(ExistingStep::Resolve { full }),
            EntryModel::Missing => Next::Fail(ExecutionErrorModel::MissingTarget { path }),
            EntryModel::Unreadable { reason, .. } => Next::Fail(
                ExecutionErrorModel::ResolveFailed { path, reason },
            ),
            EntryModel::Symlink => Next::Fail(ExecutionErrorModel::SymlinkDenied { path }),
            _ => Next::Fail(ExecutionErrorModel::NotAFile { path }),
        },
        (ExistingStep::Resolve { full }, ReplyModel::Resolved(resolution)) => match resolution_error(
            path,
            resolution,
        ) {
            Some(error) => Next::Fail(error),
            None => Next::Ask(ExistingStep::ResolveAgain { full }),
        },
        (
            ExistingStep::ResolveAgain { .. },
            ReplyModel::Resolved(ResolutionModel::Allowed { at }),
        ) => Next::Done(at),
        (ExistingStep::ResolveAgain { .. }, ReplyModel::Resolved(resolution)) => Next::Fail(
            resolution_error(path, resolution)->0,
        ),
        _ => Next::Ask(step),
    }
}

/// What `step` of the check of a new file asks.
pub open spec fn future_request(step: FutureStep, workspace: Seq<char>, path: Seq<char>) -> RequestModel {
    match step {
        FutureStep::Allowed => RequestModel::PathAllowed { path },
        FutureStep::Locate => RequestModel::Locate { workspace, path },
        FutureStep::Ancestor { candidate, .. } => RequestModel::Probe { at: candidate },
        FutureStep::AncestorParent { candidate, .. } => RequestModel::ParentOf { at: candidate },
        FutureStep::ResolveAncestor { candidate, .. } => RequestModel::Resolve { at: candidate },
        FutureStep::ParentLink { parent, .. } => RequestModel::ProbeLink { at: parent },
        FutureStep::ResolveParent { parent, .. } => RequestModel::Resolve { at: parent },
        FutureStep::TargetLink { full, .. } => RequestModel::ProbeLink { at: full },
        FutureStep::Exists { full, .. } => RequestModel::Probe { at: full },
    }
}

/// The error of a new file that exists already.
pub open spec fn exists_error(path: Seq<char>, moving: bool) -> ExecutionErrorModel {
    if moving {
        ExecutionErrorModel::MoveDestinationExists { path }
    } else {
        ExecutionErrorModel::TargetExists { path }
    }
}

/// The check of a new file: the path is allowed, the nearest directory above it
/// that exists resolves to an allowed one, its own directory is no link and
/// resolves to an allowed one where it exists, and nothing is there yet.
pub open spec fn future_next(step: FutureStep, path: Seq<char>, moving: bool, reply: ReplyModel) -> Next<
    FutureStep,
    (PathId, PathId),
    ExecutionErrorModel,
> {
    match (step, reply) {
        (FutureStep::Allowed, ReplyModel::Flag(allowed)) => if allowed {
            Next::Ask(FutureStep::Locate)
        } else {
            Next::Fail(ExecutionErrorModel::DisallowedPath { path })
        },
        (FutureStep::Locate, ReplyModel::Place { at, parent }) => match parent {
            None => Next::Fail(
                ExecutionErrorModel::InvalidPath { path, reason: "missing parent directory"@ },
            ),
            Some(parent) => Next::Ask(FutureStep::Ancestor { full: at, parent, candidate: parent }),
        },
        (FutureStep::Ancestor { full, parent, candidate }, ReplyModel::Entry(entry)) => if entry
            == EntryModel::Missing {
            Next::Ask(FutureStep::AncestorParent { full, parent, candidate })
        } else {
            Next::Ask(FutureStep::ResolveAncestor { full, parent, candidate })
        },
        (FutureStep::AncestorParent { full, parent, .. }, ReplyModel::Path(above)) => match above {
            None => Next::Fail(
                ExecutionErrorModel::InvalidPath {
                    path,
                    reason: "unable to find an existing ancestor for the target path"@,
                },
            ),
            Some(candidate) => Next::Ask(FutureStep::Ancestor { full, parent, candidate }),
        },
        (
            FutureStep::ResolveAncestor { full, parent, .. },
            ReplyModel::Resolved(resolution),
        ) => match resolution_error(path, resolution) {
            Some(error) => Next::Fail(error),
            None => Next::Ask(FutureStep::ParentLink { full, parent }),
        },
        (FutureStep::ParentLink { full, parent }, ReplyModel::Entry(entry)) => match entry {
            EntryModel::Symlink => Next::Fail(ExecutionErrorModel::SymlinkDenied { path }),
            EntryModel::Missing => Next::Ask(FutureStep::TargetLink { full, parent }),
            EntryModel::Unreadable { .. } => Next::Ask(FutureStep::TargetLink { full, parent }),
            _ => Next::Ask(FutureStep::ResolveParent { full, parent }),
        },
        (
            FutureStep::ResolveParent { full, parent },
            ReplyModel::Resolved(resolution),
        ) => match resolution_error(path, resolution) {
            Some(error) => Next::Fail(error),
            None => Next::Ask(FutureStep::TargetLink { full, parent }),
        },
        (FutureStep::TargetLink { full, parent }, ReplyModel::Entry(entry)) => match entry {
            EntryModel::Symlink => Next::Fail(ExecutionErrorModel::SymlinkDenied { path }),
            EntryModel::Directory => Next::Fail(ExecutionErrorModel::NotAFile { path }),
            _ => Next::Ask(FutureStep::Exists { full, parent }),
        },
        (FutureStep::Exists { full, parent }, ReplyModel::Entry(entry)) => match entry {
            EntryModel::Missing => Next::Done((full, parent)),
            EntryModel::Unreadable { display, reason } => Next::Fail(
                ExecutionErrorModel::ResolveFailed { path: display, reason },
            ),
            _ => Next::Fail(exists_error(path, moving)),
        },
        _ => Next::Ask(step),
    }
}

/// What `step` asks while the new file `full` in `parent` is made ready.
pub open spec fn ready_request(step: ReadyStep, full: PathId, parent: PathId) -> RequestModel {
    match step {
        ReadyStep::CreateDirectories => RequestModel::CreateDirectories { at: parent },
        ReadyStep::Resolve => RequestModel::Resolve { at: parent },
        ReadyStep::Join { directory } => RequestModel::JoinFileName { directory, of: full },
        ReadyStep::Link { target } => RequestModel::ProbeLink { at: target },
    }
}

/// Making a new file ready: its directory is there and resolves to an allowed
/// one, and the name in that directory is no link.
pub open spec fn ready_next(step: ReadyStep, path: Seq<char>, reply: ReplyModel) -> Next<
    ReadyStep,
    PathId,
    ExecutionErrorModel,
> {
    match (step, reply) {
        (ReadyStep::CreateDirectories, ReplyModel::Done(done)) => match done {
            None => Next::Ask(ReadyStep::Resolve),
            Some(reason) => Next::Fail(ExecutionErrorModel::CreateParentFailed { path, reason }),
        },
        (ReadyStep::Resolve, ReplyModel::Resolved(ResolutionModel::Allowed { at })) => Next::Ask(
            ReadyStep::Join { directory: at },
        ),
        (ReadyStep::Resolve, ReplyModel::Resolved(resolution)) => Next::Fail(
            resolution_error(path, resolution)->0,
        ),
        (ReadyStep::Join { .. }, ReplyModel::Path(joined)) => match joined {
            None => Next::Fail(
                ExecutionErrorModel::InvalidPath { path, reason: "missing file name"@ },
            ),
            Some(target) => Next::Ask(ReadyStep::Link { target }),
        },
        (ReadyStep::Link { target }, ReplyModel::Entry(entry)) => if entry == EntryModel::Symlink {
            Next::Fail(ExecutionErrorModel::SymlinkDenied { path })
        } else {
            Next::Done(target)
        },
        _ => Next::Ask(step),
    }
}

/// Refuses a path that the policy does not allow as it is written.
pub fn validate_requested_patch_path(allowed: bool, path: &str) -> (r: Result<
    (),
    PatchExecutionError,
>)
    ensures
        match r {
            Ok(()) => allowed,
            Err(error) => !allowed && error@ == (ExecutionErrorModel::DisallowedPath {
                path: path@,
            }),
        },
{
    if allowed {
        Ok(())
    } else {
        Err(PatchExecutionError::DisallowedPath { path: path.to_string() })
    }
}

/// The path that `resolution` found, or the error it stands for.
fn resolved(resolution: &Resolution, path: &str) -> (r: Result<PathId, PatchExecutionError>)
    ensures
        match r {
            Ok(at) => resolution@ == (ResolutionModel::Allowed { at }),
            Err(error) => resolution_error(path@, resolution@) == Some(error@),
        },
{
    match resolution {
        Resolution::Allowed { at } => Ok(*at),
        Resolution::Denied { display } => Err(
            PatchExecutionError::ResolvedPathDenied { path: display.clone() },
        ),
        Resolution::Failed { reason } => Err(
            PatchExecutionError::ResolveFailed { path: path.to_string(), reason: reason.clone() },
        ),
    }
}

/// What `step` of the check of an existing file asks.
pub fn ask_existing(step: ExistingStep, workspace: &str, path: &str) -> (r: HostRequest)
    ensures
        r@ == existing_request(step, workspace@, path@),
{
    match step {
        ExistingStep::Allowed => HostRequest::PathAllowed { path: path.to_string() },
        ExistingStep::Locate => HostRequest::Locate {
            workspace: workspace.to_string(),
            path: path.to_string(),
        },
        ExistingStep::Link { full } => HostRequest::ProbeLink { at: full },
        ExistingStep::Resolve { full } => HostRequest::Resolve { at: full },
        ExistingStep::ResolveAgain { full } => HostRequest::Resolve { at: full },
    }
}

/// The check of a file that has to exist, after one more reply.
pub fn validate_existing_patch_target(step: ExistingStep, path: &str, reply: &HostReply) -> (r: Next<
    ExistingStep,
    PathId,
    PatchExecutionError,
>)
    ensures
        next_model(r) == existing_next(step, path@, reply@),
{
    match (step, reply) {
        (
            ExistingStep::Allowed,
            HostReply::Flag(allowed),
        ) => match validate_requested_patch_path(*allowed, path) {
            Ok(()) => Next::Ask(ExistingStep::Locate),
            Err(error) => Next::Fail(error),
        },
        (ExistingStep::Locate, HostReply::Place { at, .. }) => Next::Ask(
            ExistingStep::Link { full: *at },
        ),
        (ExistingStep::Link { full }, HostReply::Entry(entry)) => match entry {
            FileEntry::File => Next::Ask(ExistingStep::Resolve { full }),
            FileEntry::Missing => Next::Fail(
                PatchExecutionError::MissingTarget { path: path.to_string() },
            ),
            FileEntry::Unreadable { reason, .. } => Next::Fail(
                PatchExecutionError::ResolveFailed {
                    path: path.to_string(),
                    reason: reason.clone(),
                },
            ),
            FileEntry::Symlink => Next::Fail(
                PatchExecutionError::SymlinkDenied { path: path.to_string() },
            ),
            _ => Next::Fail(PatchExecutionError::NotAFile { path: path.to_string() }),
        },
        (ExistingStep::Resolve { full }, HostReply::Resolved(resolution)) => match resolved(
            resolution,
            path,
        ) {
            Ok(_) => Next::Ask(ExistingStep::ResolveAgain { full }),
            Err(error) => Next::Fail(error),
        },
        (ExistingStep::ResolveAgain { .. }, HostReply::Resolved(resolution)) => match resolved(
            resolution,
            path,
        ) {
            Ok(at) => Next::Done(at),
            Err(error) => Next::Fail(error),
        },
        _ => Next::Ask(step),
    }
}

/// What `step` of the check of a new file asks.
pub fn ask_future(step: FutureStep, workspace: &str, path: &str) -> (r: HostRequest)
    ensures
        r@ == future_request(step, workspace@, path@),
{
    match step {
        FutureStep::Allowed => HostRequest::PathAllowed { path: path.to_string() },
        FutureStep::Locate => HostRequest::Locate {
            workspace: workspace.to_string(),
            path: path.to_string(),
        },
        FutureStep::Ancestor { candidate, .. } => HostRequest::Probe { at: candidate },
        FutureStep::AncestorParent { candidate, .. } => HostRequest::ParentOf { at: candidate },
        FutureStep::ResolveAncestor { candidate, .. } => HostRequest::Resolve { at: candidate },
        FutureStep::ParentLink { parent, .. } => HostRequest::ProbeLink { at: parent },
        FutureStep::ResolveParent { parent, .. } => HostRequest::Resolve { at: parent },
        FutureStep::TargetLink { full, .. } => HostRequest::ProbeLink { at: full },
        FutureStep::Exists { full, .. } => HostRequest::Probe { at: full },
    }
}

/// The check of a file that must not exist yet, after one more reply.
pub fn validate_future_patch_target(
    step: FutureStep,
    path: &str,
    moving: bool,
    reply: &HostReply,
) -> (r: Next<FutureStep, (PathId, PathId), PatchExecutionError>)
    ensures
        next_model(r) == future_next(step, path@, moving, reply@),
{
    match (step, reply) {
        (FutureStep::Allowed, HostReply::Flag(allowed)) => match validate_requested_patch_path(
            *allowed,
            path,
        ) {
            Ok(()) => Next::Ask(FutureStep::Locate),
            Err(error) => Next::Fail(error),
        },
        (FutureStep::Locate, HostReply::Place { at, parent }) => match parent {
            None => Next::Fail(
                PatchExecutionError::InvalidPath {
                    path: path.to_string(),
                    reason: "missing parent directory".to_string(),
                },
            ),
            Some(parent) => Next::Ask(
                FutureStep::Ancestor { full: *at, parent: *parent, candidate: *parent },
            ),
        },
        (FutureStep::Ancestor { full, parent, candidate }, HostReply::Entry(entry)) => match entry {
            FileEntry::Missing => Next::Ask(FutureStep::AncestorParent { full, parent, candidate }),
            _ => Next::Ask(FutureStep::ResolveAncestor { full, parent, candidate }),
        },
        (FutureStep::AncestorParent { full, parent, .. }, HostReply::Path(above)) => match above {
            None => Next::Fail(
                PatchExecutionError::InvalidPath {
                    path: path.to_string(),
                    reason: "unable to find an existing ancestor for the target path".to_string(),
                },
            ),
            Some(candidate) => Next::Ask(
                FutureStep::Ancestor { full, parent, candidate: *candidate },
            ),
        },
        (
            FutureStep::ResolveAncestor { full, parent, .. },
            HostReply::Resolved(resolution),
        ) => match resolved(resolution, path) {
            Ok(_) => Next::Ask(FutureStep::ParentLink { full, parent }),
            Err(error) => Next::Fail(error),
        },
        (FutureStep::ParentLink { full, parent }, HostReply::Entry(entry)) => match entry {
            FileEntry::Symlink => Next::Fail(
                PatchExecutionError::SymlinkDenied { path: path.to_string() },
            ),
            FileEntry::Missing => Next::Ask(FutureStep::TargetLink { full, parent }),
            FileEntry::Unreadable { .. } => Next::Ask(FutureStep::TargetLink { full, parent }),
            _ => Next::Ask(FutureStep::ResolveParent { full, parent }),
        },
        (FutureStep::ResolveParent { full, parent }, HostReply::Resolved(resolution)) => match resolved(
            resolution,
            path,
        ) {
            Ok(_) => Next::Ask(FutureStep::TargetLink { full, parent }),
            Err(error) => Next::Fail(error),
        },
        (FutureStep::TargetLink { full, parent }, HostReply::Entry(entry)) => match entry {
            FileEntry::Symlink => Next::Fail(
                PatchExecutionError::SymlinkDenied { path: path.to_string() },
            ),
            FileEntry::Directory => Next::Fail(
                PatchExecutionError::NotAFile { path: path.to_string() },
            ),
            _ => Next::Ask(FutureStep::Exists { full, parent }),
        },
        (FutureStep::Exists { full, parent }, HostReply::Entry(entry)) => match entry {
            FileEntry::Missing => Next::Done((full, parent)),
            FileEntry::Unreadable { display, reason } => Next::Fail(
                PatchExecutionError::ResolveFailed {
                    path: display.clone(),
                    reason: reason.clone(),
                },
            ),
            _ => Next::Fail(
                if moving {
                    PatchExecutionError::MoveDestinationExists { path: path.to_string() }
                } else {
                    PatchExecutionError::TargetExists { path: path.to_string() }
                },
            ),
        },
        _ => Next::Ask(step),
    }
}

/// What `step` asks while the new file `full` in `parent` is made ready.
pub fn ask_ready(step: ReadyStep, full: PathId, parent: PathId) -> (r: HostRequest)
    ensures
        r@ == ready_request(step, full, parent),
{
    match step {
        ReadyStep::CreateDirectories => HostRequest::CreateDirectories { at: parent },
        ReadyStep::Resolve => HostRequest::Resolve { at: parent },
        ReadyStep::Join { directory } => HostRequest::JoinFileName { directory, of: full },
        ReadyStep::Link { target } => HostRequest::ProbeLink { at: target },
    }
}

/// Making a new file ready to be written, after one more reply.
pub fn materialize_writable_target(step: ReadyStep, path: &str, reply: &HostReply) -> (r: Next<
    ReadyStep,
    PathId,
    PatchExecutionError,
>)
    ensures
        next_model(r) == ready_next(step, path@, reply@),
{
    match (step, reply) {
        (ReadyStep::CreateDirectories, HostReply::Done(done)) => match done {
            Ok(()) => Next::Ask(ReadyStep::Resolve),
            Err(reason) => Next::Fail(
                PatchExecutionError::CreateParentFailed {
                    path: path.to_string(),
                    reason: reason.clone(),
                },
            ),
        },
        (ReadyStep::Resolve, HostReply::Resolved(resolution)) => match resolved(resolution, path) {
            Ok(at) => Next::Ask(ReadyStep::Join { directory: at }),
            Err(error) => Next::Fail(error),
        },
        (ReadyStep::Join { .. }, HostReply::Path(joined)) => match joined {
            None => Next::Fail(
                PatchExecutionError::InvalidPath {
                    path: path.to_string(),
                    reason: "missing file name".to_string(),
                },
            ),
            Some(target) => Next::Ask(ReadyStep::Link { target: *target }),
        },
        (ReadyStep::Link { target }, HostReply::Entry(entry)) => match entry {
            FileEntry::Symlink => Next::Fail(
                PatchExecutionError::SymlinkDenied { path: path.to_string() },
            ),
            _ => Next::Done(target),
        },
        _ => Next::Ask(step),
    }
}

} // verus!
