//! The grammar of patches, over the lines of a text.

use crate::apply_patch::document::{
    HunkLineModel, HunkModel, OperationModel, ParseErrorModel, PatchLineKind,
};
use crate::text::chars::{after_prefix, trimmed};
use crate::text::lines::{first_of, lines_of};
use vstd::prelude::*;

verus! {

/// An error at a line.
pub open spec fn invalid_line(line_no: int, message: Seq<char>) -> ParseErrorModel {
    ParseErrorModel::InvalidLine { line_no, message }
}

/// Whether a line ends the operation before it.
pub open spec fn is_boundary(line: Seq<char>) -> bool {
    ||| line == "*** End Patch"@
    ||| "*** Add File: "@.is_prefix_of(line)
    ||| "*** Delete File: "@.is_prefix_of(line)
    ||| "*** Update File: "@.is_prefix_of(line)
}

/// The first boundary at or after `index`, or the end of the text.
pub open spec fn next_boundary(lines: Seq<Seq<char>>, index: int) -> int
    decreases lines.len() - index,
{
    if index >= lines.len() || is_boundary(lines[index]) {
        index
    } else {
        next_boundary(lines, index + 1)
    }
}

/// The path named in a header: trimmed, and not empty.
pub open spec fn normalized_path(path: Seq<char>, line_no: int) -> Result<
    Seq<char>,
    ParseErrorModel,
> {
    if trimmed(path).len() == 0 {
        Err(invalid_line(line_no, "patch path must not be empty"@))
    } else {
        Ok(trimmed(path))
    }
}

/// The name of the operation that a line starting with `*** ` asks for: what
/// stands before the colon.
pub open spec fn requested_operation(line: Seq<char>) -> Option<Seq<char>> {
    match after_prefix(line, "*** "@) {
        Some(value) => Some(value.take(first_of(value, ':'))),
        None => None,
    }
}

/// The error for a line that has no place where it stands.
pub open spec fn misplaced_line(line: Seq<char>, line_no: int, message: Seq<char>) -> ParseErrorModel {
    match requested_operation(line) {
        Some(operation) => ParseErrorModel::UnsupportedOperation { line_no, operation },
        None => invalid_line(line_no, message),
    }
}

/// A line of a hunk: its first character says what becomes of the rest.
pub open spec fn hunk_line(line: Seq<char>) -> Option<HunkLineModel> {
    if line.len() == 0 {
        None
    } else if line[0] == ' ' {
        Some(HunkLineModel { kind: PatchLineKind::Context, text: line.skip(1) })
    } else if line[0] == '+' {
        Some(HunkLineModel { kind: PatchLineKind::Add, text: line.skip(1) })
    } else if line[0] == '-' {
        Some(HunkLineModel { kind: PatchLineKind::Remove, text: line.skip(1) })
    } else {
        None
    }
}

/// The header of a hunk, from what follows `@@`.
pub open spec fn hunk_header(rest: Seq<char>) -> Option<Seq<char>> {
    if trimmed(rest).len() == 0 {
        None
    } else {
        Some(trimmed(rest))
    }
}

/// Whether a line of an add-file operation is one of the file.
pub open spec fn is_added_line(line: Seq<char>) -> bool {
    line.len() > 0 && line[0] == '+'
}

/// The first line from `index` on, before `end`, that is no line of the file; else `end`.
pub open spec fn first_not_added(lines: Seq<Seq<char>>, index: int, end: int) -> int
    decreases end - index,
{
    if index >= end || !is_added_line(lines[index]) {
        index
    } else {
        first_not_added(lines, index + 1, end)
    }
}

/// The add-file operation whose header is line `start`, and the index of the
/// line behind it.
pub open spec fn add_file_at(lines: Seq<Seq<char>>, start: int, path: Seq<char>) -> Result<
    (OperationModel, int),
    ParseErrorModel,
> {
    let end = next_boundary(lines, start + 1);
    let stop = first_not_added(lines, start + 1, end);
    if stop < end {
        Err(invalid_line(stop + 1, "add-file hunks must contain only '+' lines"@))
    } else if end <= start + 1 {
        Err(invalid_line(start + 1, "add-file operation must contain at least one '+' line"@))
    } else {
        Ok(
            (
                OperationModel::Add {
                    path,
                    lines: Seq::new(
                        (end - start - 1) as nat,
                        |i: int| lines[start + 1 + i].skip(1),
                    ),
                },
                end,
            ),
        )
    }
}

/// What has been read of an update-file operation: the hunks that are done, and
/// the one that is open with the number of the line that opened it.
#[verifier::ext_equal]
pub struct DraftModel {
    pub move_to: Option<Seq<char>>,
    pub hunks: Seq<HunkModel>,
    pub open: Option<(int, HunkModel)>,
}

/// Nothing read yet.
pub open spec fn empty_draft() -> DraftModel {
    DraftModel { move_to: None, hunks: seq![], open: None }
}

/// The draft once the hunk that is open is done. A hunk holds at least one line.
pub open spec fn closed(draft: DraftModel) -> Result<DraftModel, ParseErrorModel> {
    match draft.open {
        None => Ok(draft),
        Some((line_no, hunk)) => if hunk.lines.len() == 0 {
            Err(
                invalid_line(
                    line_no,
                    "patch hunks must contain at least one context/add/remove line"@,
                ),
            )
        } else {
            Ok(DraftModel { move_to: draft.move_to, hunks: draft.hunks.push(hunk), open: None })
        },
    }
}

/// The draft after a line `*** Move to: target`. There is one at most, before
/// any hunk, and it names another path than the operation's own.
pub open spec fn with_move(path: Seq<char>, draft: DraftModel, target: Seq<char>, line_no: int) -> Result<
    DraftModel,
    ParseErrorModel,
> {
    if draft.move_to is Some {
        Err(
            invalid_line(
                line_no,
                "update-file operation may contain only one '*** Move to:' header"@,
            ),
        )
    } else if draft.open is Some || draft.hunks.len() > 0 {
        Err(invalid_line(line_no, "'*** Move to:' must appear before any hunks"@))
    } else {
        match normalized_path(target, line_no) {
            Err(error) => Err(error),
            Ok(normalized) => if normalized == path {
                Err(invalid_line(line_no, "move target must differ from source path"@))
            } else {
                Ok(DraftModel { move_to: Some(normalized), hunks: draft.hunks, open: draft.open })
            },
        }
    }
}

/// The draft after a line that starts with `@@`: the open hunk is done, and a
/// new one is open.
pub open spec fn with_hunk(draft: DraftModel, rest: Seq<char>, line_no: int) -> Result<
    DraftModel,
    ParseErrorModel,
> {
    match closed(draft) {
        Err(error) => Err(error),
        Ok(done) => Ok(
            DraftModel {
                move_to: done.move_to,
                hunks: done.hunks,
                open: Some(
                    (
                        line_no,
                        HunkModel {
                            header: hunk_header(rest),
                            lines: seq![],
                            has_end_of_file_marker: false,
                        },
                    ),
                ),
            },
        ),
    }
}

/// The draft after a line `*** End of File`, of which a hunk has one at most.
pub open spec fn with_end_of_file(draft: DraftModel, line_no: int) -> Result<
    DraftModel,
    ParseErrorModel,
> {
    match draft.open {
        None => Err(invalid_line(line_no, "'*** End of File' requires an active hunk"@)),
        Some((opened, hunk)) => if hunk.has_end_of_file_marker {
            Err(invalid_line(line_no, "duplicate '*** End of File' marker in the same hunk"@))
        } else {
            Ok(
                DraftModel {
                    move_to: draft.move_to,
                    hunks: draft.hunks,
                    open: Some(
                        (
                            opened,
                            HunkModel {
                                header: hunk.header,
                                lines: hunk.lines,
                                has_end_of_file_marker: true,
                            },
                        ),
                    ),
                },
            )
        },
    }
}

/// The draft after a line of a hunk, or after any line that is nothing else.
pub open spec fn with_line(draft: DraftModel, line: Seq<char>, line_no: int) -> Result<
    DraftModel,
    ParseErrorModel,
> {
    match (hunk_line(line), draft.open) {
        (None, _) => Err(
            misplaced_line(
                line,
                line_no,
                "update-file hunks must use '@@', ' ', '+', '-', or '*** End of File'"@,
            ),
        ),
        (Some(_), None) => Err(
            invalid_line(
                line_no,
                "update-file operation requires a hunk header before patch lines"@,
            ),
        ),
        (Some(read), Some((opened, hunk))) => Ok(
            DraftModel {
                move_to: draft.move_to,
                hunks: draft.hunks,
                open: Some(
                    (
                        opened,
                        HunkModel {
                            header: hunk.header,
                            lines: hunk.lines.push(read),
                            has_end_of_file_marker: hunk.has_end_of_file_marker,
                        },
                    ),
                ),
            },
        ),
    }
}

/// The draft of an update of `path` after one more line.
pub open spec fn draft_line(path: Seq<char>, draft: DraftModel, line: Seq<char>, line_no: int) -> Result<
    DraftModel,
    ParseErrorModel,
> {
    match after_prefix(line, "*** Move to: "@) {
        Some(target) => with_move(path, draft, target, line_no),
        None => match after_prefix(line, "@@"@) {
            Some(rest) => with_hunk(draft, rest, line_no),
            None => if line == "*** End of File"@ {
                with_end_of_file(draft, line_no)
            } else {
                with_line(draft, line, line_no)
            },
        },
    }
}

/// The draft after the lines from `index` up to `end`.
pub open spec fn draft_lines(
    path: Seq<char>,
    draft: DraftModel,
    lines: Seq<Seq<char>>,
    index: int,
    end: int,
) -> Result<DraftModel, ParseErrorModel>
    decreases end - index,
{
    if index >= end {
        Ok(draft)
    } else {
        match draft_line(path, draft, lines[index], index + 1) {
            Err(error) => Err(error),
            Ok(next) => draft_lines(path, next, lines, index + 1, end),
        }
    }
}

/// The update-file operation whose header is line `start`, and the index of the
/// line behind it.
pub open spec fn update_file_at(lines: Seq<Seq<char>>, start: int, path: Seq<char>) -> Result<
    (OperationModel, int),
    ParseErrorModel,
> {
    let end = next_boundary(lines, start + 1);
    match draft_lines(path, empty_draft(), lines, start + 1, end) {
        Err(error) => Err(error),
        Ok(draft) => match closed(draft) {
            Err(error) => Err(error),
            Ok(done) => if done.hunks.len() == 0 {
                Err(invalid_line(start + 1, "update-file operation must contain at least one hunk"@))
            } else {
                Ok((OperationModel::Update { path, move_to: done.move_to, hunks: done.hunks }, end))
            },
        },
    }
}

/// The operation whose header is line `start`, and the index of the line behind it.
pub open spec fn operation_at(lines: Seq<Seq<char>>, start: int) -> Result<
    (OperationModel, int),
    ParseErrorModel,
> {
    let line = lines[start];
    match after_prefix(line, "*** Add File: "@) {
        Some(path) => match normalized_path(path, start + 1) {
            Err(error) => Err(error),
            Ok(path) => add_file_at(lines, start, path),
        },
        None => match after_prefix(line, "*** Delete File: "@) {
            Some(path) => match normalized_path(path, start + 1) {
                Err(error) => Err(error),
                Ok(path) => Ok((OperationModel::Delete { path }, start + 1)),
            },
            None => match after_prefix(line, "*** Update File: "@) {
                Some(path) => match normalized_path(path, start + 1) {
                    Err(error) => Err(error),
                    Ok(path) => update_file_at(lines, start, path),
                },
                None => Err(misplaced_line(line, start + 1, "expected patch operation header"@)),
            },
        },
    }
}

/// The paths that an operation lays claim to.
pub open spec fn claims(operation: OperationModel) -> Seq<Seq<char>> {
    match operation {
        OperationModel::Add { path, .. } => seq![path],
        OperationModel::Delete { path } => seq![path],
        OperationModel::Update { path, move_to: None, .. } => seq![path],
        OperationModel::Update { path, move_to: Some(target), .. } => seq![path, target],
    }
}

/// The paths that are taken once those of `wanted` are added one by one. No path
/// is taken twice.
pub open spec fn claimed(wanted: Seq<Seq<char>>, line_no: int, taken: Seq<Seq<char>>) -> Result<
    Seq<Seq<char>>,
    ParseErrorModel,
>
    decreases wanted.len(),
{
    if wanted.len() == 0 {
        Ok(taken)
    } else if taken.contains(wanted.first()) {
        Err(ParseErrorModel::ConflictingPath { line_no, path: wanted.first() })
    } else {
        claimed(wanted.drop_first(), line_no, taken.push(wanted.first()))
    }
}

/// Whether every line from `index` on is blank.
pub open spec fn blank_from(lines: Seq<Seq<char>>, index: int) -> bool {
    forall|i: int| index <= i < lines.len() ==> trimmed(#[trigger] lines[i]).len() == 0
}

/// The operations of a patch whose lines from `index` on are still to be read,
/// where `done` have been read and `taken` are their paths.
pub open spec fn operations_from(
    lines: Seq<Seq<char>>,
    index: int,
    taken: Seq<Seq<char>>,
    done: Seq<OperationModel>,
) -> Result<Seq<OperationModel>, ParseErrorModel>
    decreases lines.len() - index,
{
    if index >= lines.len() {
        Err(ParseErrorModel::MissingEnd)
    } else if lines[index] == "*** End Patch"@ {
        if blank_from(lines, index + 1) {
            Ok(done)
        } else {
            Err(invalid_line(index + 2, "unexpected trailing content after '*** End Patch'"@))
        }
    } else {
        match operation_at(lines, index) {
            Err(error) => Err(error),
            Ok((operation, next)) => match claimed(claims(operation), index + 1, taken) {
                Err(error) => Err(error),
                Ok(now_taken) => {
                    proof {
                        lemma_operation_advances(lines, index);
                    }
                    operations_from(lines, next, now_taken, done.push(operation))
                },
            },
        }
    }
}

/// The patch that `lines` are.
pub open spec fn patch_of_lines(lines: Seq<Seq<char>>) -> Result<
    Seq<OperationModel>,
    ParseErrorModel,
> {
    if lines.len() == 0 || lines[0] != "*** Begin Patch"@ {
        Err(ParseErrorModel::MissingBegin)
    } else {
        operations_from(lines, 1, seq![], seq![])
    }
}

/// The patch that `text` is.
pub open spec fn patch_of(text: Seq<char>) -> Result<Seq<OperationModel>, ParseErrorModel> {
    patch_of_lines(lines_of(text))
}

/// A boundary is found at or after `index`, with none between.
pub proof fn lemma_next_boundary(lines: Seq<Seq<char>>, index: int)
    ensures
        index <= next_boundary(lines, index),
        index <= lines.len() ==> next_boundary(lines, index) <= lines.len(),
        next_boundary(lines, index) < lines.len() ==> is_boundary(
            lines[next_boundary(lines, index)],
        ),
        forall|i: int|
            index <= i < next_boundary(lines, index) ==> !is_boundary(#[trigger] lines[i]),
    decreases lines.len() - index,
{
    if index < lines.len() && !is_boundary(lines[index]) {
        lemma_next_boundary(lines, index + 1);
    }
}

/// An operation is at least one line long.
pub proof fn lemma_operation_advances(lines: Seq<Seq<char>>, start: int)
    requires
        start < lines.len(),
    ensures
        operation_at(lines, start) matches Ok((_, next)) ==> start < next <= lines.len(),
{
    lemma_next_boundary(lines, start + 1);
}

} // verus!
