//! What carrying out a patch asks of the program around it, and what that
//! program answers.

use vstd::prelude::*;

verus! {

/// A path that the program around holds; the number is one it gave out itself.
pub type PathId = usize;

/// What is to be done or looked up next.
#[derive(Debug, Clone, PartialEq, Eq)]
pub enum HostRequest {
    /// Does the policy let the agent act at all? Answered by a flag.
    CanAct,
    /// Has the agent acted too often of late? Answered by a flag.
    RateLimited,
    /// Count one action. Answered by a flag: whether the budget had room for it.
    RecordAction,
    /// Does the policy allow this path, as it is written? Answered by a flag.
    PathAllowed { path: String },
    /// Join `path` to the workspace. Answered by a place.
    Locate { workspace: String, path: String },
    /// The parent directory, by name. Answered by a path.
    ParentOf { at: PathId },
    /// What is there, through symbolic links? Answered by an entry.
    Probe { at: PathId },
    /// What is there, without following a symbolic link? Answered by an entry.
    ProbeLink { at: PathId },
    /// Resolve all symbolic links, and hold the result against the policy.
    /// Answered by a resolution.
    Resolve { at: PathId },
    /// Read the file. Answered by a text.
    Read { at: PathId },
    /// Create the directory with all its parents. Answered by its success.
    CreateDirectories { at: PathId },
    /// Join the file name of `of` to `directory`. Answered by a path.
    JoinFileName { directory: PathId, of: PathId },
    /// Write the file. Answered by its success.
    Write { at: PathId, content: String },
    /// Remove the file. Answered by its success.
    Remove { at: PathId },
}

/// What is found at a path.
#[derive(Debug, Clone, PartialEq, Eq)]
pub enum FileEntry {
    File,
    Directory,
    Symlink,
    Other,
    Missing,
    /// The lookup failed in another way.
    Unreadable { display: String, reason: String },
}

/// What resolving a path came to.
#[derive(Debug, Clone, PartialEq, Eq)]
pub enum Resolution {
    /// The resolved path is one that the policy allows.
    Allowed { at: PathId },
    /// The policy forbids the resolved path.
    Denied { display: String },
    /// The path could not be resolved.
    Failed { reason: String },
}

/// The answer to a request.
#[derive(Debug, PartialEq, Eq)]
pub enum HostReply {
    Flag(bool),
    Place { at: PathId, parent: Option<PathId> },
    Path(Option<PathId>),
    Entry(FileEntry),
    Resolved(Resolution),
    Text(Result<String, String>),
    Done(Result<(), String>),
}

/// What a request says.
#[verifier::ext_equal]
pub enum RequestModel {
    CanAct,
    RateLimited,
    RecordAction,
    PathAllowed { path: Seq<char> },
    Locate { workspace: Seq<char>, path: Seq<char> },
    ParentOf { at: PathId },
    Probe { at: PathId },
    ProbeLink { at: PathId },
    Resolve { at: PathId },
    Read { at: PathId },
    CreateDirectories { at: PathId },
    JoinFileName { directory: PathId, of: PathId },
    Write { at: PathId, content: Seq<char> },
    Remove { at: PathId },
}

/// What an entry says.
#[verifier::ext_equal]
pub enum EntryModel {
    File,
    Directory,
    Symlink,
    Other,
    Missing,
    Unreadable { display: Seq<char>, reason: Seq<char> },
}

/// What a resolution says.
#[verifier::ext_equal]
pub enum ResolutionModel {
    Allowed { at: PathId },
    Denied { display: Seq<char> },
    Failed { reason: Seq<char> },
}

/// What a reply says.
#[verifier::ext_equal]
pub enum ReplyModel {
    Flag(bool),
    Place { at: PathId, parent: Option<PathId> },
    Path(Option<PathId>),
    Entry(EntryModel),
    Resolved(ResolutionModel),
    Text(Result<Seq<char>, Seq<char>>),
    /// Why it failed, if it did.
    Done(Option<Seq<char>>),
}

impl View for HostRequest {
    type V = RequestModel;

    open spec fn view(&self) -> RequestModel {
        match self {
            HostRequest::CanAct => RequestModel::CanAct,
            HostRequest::RateLimited => RequestModel::RateLimited,
            HostRequest::RecordAction => RequestModel::RecordAction,
            HostRequest::PathAllowed { path } => RequestModel::PathAllowed { path: path@ },
            HostRequest::Locate { workspace, path } => RequestModel::Locate {
                workspace: workspace@,
                path: path@,
            },
            HostRequest::ParentOf { at } => RequestModel::ParentOf { at: *at },
            HostRequest::Probe { at } => RequestModel::Probe { at: *at },
            HostRequest::ProbeLink { at } => RequestModel::ProbeLink { at: *at },
            HostRequest::Resolve { at } => RequestModel::Resolve { at: *at },
            HostRequest::Read { at } => RequestModel::Read { at: *at },
            HostRequest::CreateDirectories { at } => RequestModel::CreateDirectories { at: *at },
            HostRequest::JoinFileName { directory, of } => RequestModel::JoinFileName {
                directory: *directory,
                of: *of,
            },
            HostRequest::Write { at, content } => RequestModel::Write {
                at: *at,
                content: content@,
            },
            HostRequest::Remove { at } => RequestModel::Remove { at: *at },
        }
    }
}

impl View for FileEntry {
    type V = EntryModel;

    open spec fn view(&self) -> EntryModel {
        match self {
            FileEntry::File => EntryModel::File,
            FileEntry::Directory => EntryModel::Directory,
            FileEntry::Symlink => EntryModel::Symlink,
            FileEntry::Other => EntryModel::Other,
            FileEntry::Missing => EntryModel::Missing,
            FileEntry::Unreadable { display, reason } => EntryModel::Unreadable {
                display: display@,
                reason: reason@,
            },
        }
    }
}

impl View for Resolution {
    type V = ResolutionModel;

    open spec fn view(&self) -> ResolutionModel {
        match self {
            Resolution::Allowed { at } => ResolutionModel::Allowed { at: *at },
            Resolution::Denied { display } => ResolutionModel::Denied { display: display@ },
            Resolution::Failed { reason } => ResolutionModel::Failed { reason: reason@ },
        }
    }
}

impl View for HostReply {
    type V = ReplyModel;

    open spec fn view(&self) -> ReplyModel {
        match self {
            HostReply::Flag(flag) => ReplyModel::Flag(*flag),
            HostReply::Place { at, parent } => ReplyModel::Place { at: *at, parent: *parent },
            HostReply::Path(path) => ReplyModel::Path(*path),
            HostReply::Entry(entry) => ReplyModel::Entry(entry@),
            HostReply::Resolved(resolution) => ReplyModel::Resolved(resolution@),
            HostReply::Text(Ok(text)) => ReplyModel::Text(Ok(text@)),
            HostReply::Text(Err(reason)) => ReplyModel::Text(Err(reason@)),
            HostReply::Done(Ok(())) => ReplyModel::Done(None),
            HostReply::Done(Err(reason)) => ReplyModel::Done(Some(reason@)),
        }
    }
}

/// Whether a request changes a file or a directory.
pub open spec fn changes_files(request: RequestModel) -> bool {
    match request {
        RequestModel::CreateDirectories { .. } => true,
        RequestModel::Write { .. } => true,
        RequestModel::Remove { .. } => true,
        _ => false,
    }
}

} // verus!
