//! Patch documents and the errors of reading one.

use crate::text::decimal::{append_decimal, decimal};
use crate::text::lines::texts;
use vstd::prelude::*;

verus! {

/// A patch: file operations, in the order in which they are carried out.
#[derive(Debug, Clone, PartialEq, Eq)]
pub struct PatchDocument {
    pub operations: Vec<PatchOperation>,
}

/// One file operation of a patch.
#[derive(Debug, Clone, PartialEq, Eq)]
pub enum PatchOperation {
    Add(AddFileOperation),
    Delete(DeleteFileOperation),
    Update(UpdateFileOperation),
}

/// Creates the file `path` out of `lines`.
#[derive(Debug, Clone, PartialEq, Eq)]
pub struct AddFileOperation {
    pub path: String,
    pub lines: Vec<String>,
}

/// Deletes the file `path`.
#[derive(Debug, Clone, PartialEq, Eq)]
pub struct DeleteFileOperation {
    pub path: String,
}

/// Changes the file `path` by `hunks`, and moves it to `move_to` where that is given.
#[derive(Debug, Clone, PartialEq, Eq)]
pub struct UpdateFileOperation {
    pub path: String,
    pub move_to: Option<String>,
    pub hunks: Vec<PatchHunk>,
}

/// A run of lines to be found in a file, and the run that takes its place.
#[derive(Debug, Clone, PartialEq, Eq)]
pub struct PatchHunk {
    pub header: Option<String>,
    pub lines: Vec<PatchHunkLine>,
    pub has_end_of_file_marker: bool,
}

/// One line of a hunk.
#[derive(Debug, Clone, PartialEq, Eq)]
pub struct PatchHunkLine {
    pub kind: PatchLineKind,
    pub text: String,
}

/// Whether a line of a hunk is kept, added or removed.
#[derive(Debug, Clone, Copy, PartialEq, Eq, Structural)]
pub enum PatchLineKind {
    Context,
    Add,
    Remove,
}

/// Why a text is no patch.
#[derive(Debug, Clone, PartialEq, Eq)]
pub enum PatchParseError {
    MissingBegin,
    MissingEnd,
    UnsupportedOperation { line_no: usize, operation: String },
    InvalidLine { line_no: usize, message: String },
    ConflictingPath { line_no: usize, path: String },
}

/// What a line of a hunk says.
#[verifier::ext_equal]
pub struct HunkLineModel {
    pub kind: PatchLineKind,
    pub text: Seq<char>,
}

/// What a hunk says.
#[verifier::ext_equal]
pub struct HunkModel {
    pub header: Option<Seq<char>>,
    pub lines: Seq<HunkLineModel>,
    pub has_end_of_file_marker: bool,
}

/// What a file operation says.
#[verifier::ext_equal]
pub enum OperationModel {
    Add { path: Seq<char>, lines: Seq<Seq<char>> },
    Delete { path: Seq<char> },
    Update { path: Seq<char>, move_to: Option<Seq<char>>, hunks: Seq<HunkModel> },
}

/// What an error of reading a patch says.
#[verifier::ext_equal]
pub enum ParseErrorModel {
    MissingBegin,
    MissingEnd,
    UnsupportedOperation { line_no: int, operation: Seq<char> },
    InvalidLine { line_no: int, message: Seq<char> },
    ConflictingPath { line_no: int, path: Seq<char> },
}

/// The text in `value`, if there is one.
pub open spec fn optional_text(value: Option<String>) -> Option<Seq<char>> {
    match value {
        Some(text) => Some(text@),
        None => None,
    }
}

impl View for PatchHunkLine {
    type V = HunkLineModel;

    open spec fn view(&self) -> HunkLineModel {
        HunkLineModel { kind: self.kind, text: self.text@ }
    }
}

/// What the lines of a hunk say.
pub open spec fn hunk_lines(list: Seq<PatchHunkLine>) -> Seq<HunkLineModel> {
    Seq::new(list.len(), |i: int| list[i]@)
}

impl View for PatchHunk {
    type V = HunkModel;

    open spec fn view(&self) -> HunkModel {
        HunkModel {
            header: optional_text(self.header),
            lines: hunk_lines(self.lines@),
            has_end_of_file_marker: self.has_end_of_file_marker,
        }
    }
}

/// What a list of hunks says.
pub open spec fn hunk_models(list: Seq<PatchHunk>) -> Seq<HunkModel> {
    Seq::new(list.len(), |i: int| list[i]@)
}

impl View for PatchOperation {
    type V = OperationModel;

    open spec fn view(&self) -> OperationModel {
        match self {
            PatchOperation::Add(op) => OperationModel::Add {
                path: op.path@,
                lines: texts(op.lines@),
            },
            PatchOperation::Delete(op) => OperationModel::Delete { path: op.path@ },
            PatchOperation::Update(op) => OperationModel::Update {
                path: op.path@,
                move_to: optional_text(op.move_to),
                hunks: hunk_models(op.hunks@),
            },
        }
    }
}

/// What a list of operations says.
pub open spec fn operation_models(list: Seq<PatchOperation>) -> Seq<OperationModel> {
    Seq::new(list.len(), |i: int| list[i]@)
}

impl View for PatchDocument {
    type V = Seq<OperationModel>;

    open spec fn view(&self) -> Seq<OperationModel> {
        operation_models(self.operations@)
    }
}

impl View for PatchParseError {
    type V = ParseErrorModel;

    open spec fn view(&self) -> ParseErrorModel {
        match self {
            PatchParseError::MissingBegin => ParseErrorModel::MissingBegin,
            PatchParseError::MissingEnd => ParseErrorModel::MissingEnd,
            PatchParseError::UnsupportedOperation { line_no, operation } =>
                ParseErrorModel::UnsupportedOperation {
                line_no: *line_no as int,
                operation: operation@,
            },
            PatchParseError::InvalidLine { line_no, message } => ParseErrorModel::InvalidLine {
                line_no: *line_no as int,
                message: message@,
            },
            PatchParseError::ConflictingPath { line_no, path } => ParseErrorModel::ConflictingPath {
                line_no: *line_no as int,
                path: path@,
            },
        }
    }
}

/// The sentence that tells a reader what is wrong with a patch.
pub open spec fn parse_error_text(error: ParseErrorModel) -> Seq<char> {
    match error {
        ParseErrorModel::MissingBegin => "patch must start with '*** Begin Patch'"@,
        ParseErrorModel::MissingEnd => "patch must end with '*** End Patch'"@,
        ParseErrorModel::UnsupportedOperation { line_no, operation } => "line "@ + decimal(
            line_no as nat,
        ) + ": unsupported patch operation '"@ + operation + "'"@,
        ParseErrorModel::InvalidLine { line_no, message } => "line "@ + decimal(line_no as nat)
            + ": "@ + message,
        ParseErrorModel::ConflictingPath { line_no, path } => "line "@ + decimal(line_no as nat)
            + ": duplicate or conflicting patch target '"@ + path + "'"@,
    }
}

impl PatchParseError {
    /// The error as a sentence.
    pub fn to_text(&self) -> (r: String)
        ensures
            r@ == parse_error_text(self@),
    {
        match self {
            PatchParseError::MissingBegin => "patch must start with '*** Begin Patch'".to_string(),
            PatchParseError::MissingEnd => "patch must end with '*** End Patch'".to_string(),
            PatchParseError::UnsupportedOperation { line_no, operation } => {
                let mut out = "line ".to_string();
                append_decimal(&mut out, *line_no as u64);
                out.append(": unsupported patch operation '");
                out.append(operation.as_str());
                out.append("'");
                out
            },
            PatchParseError::InvalidLine { line_no, message } => {
                let mut out = "line ".to_string();
                append_decimal(&mut out, *line_no as u64);
                out.append(": ");
                out.append(message.as_str());
                out
            },
            PatchParseError::ConflictingPath { line_no, path } => {
                let mut out = "line ".to_string();
                append_decimal(&mut out, *line_no as u64);
                out.append(": duplicate or conflicting patch target '");
                out.append(path.as_str());
                out.append("'");
                out
            },
        }
    }
}

} // verus!
