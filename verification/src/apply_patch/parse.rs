//! Reading a patch.

use crate::apply_patch::document::{
    hunk_lines, hunk_models, operation_models, optional_text, AddFileOperation, DeleteFileOperation,
    HunkLineModel, HunkModel, OperationModel, ParseErrorModel, PatchDocument, PatchHunk,
    PatchHunkLine, PatchLineKind, PatchOperation, PatchParseError, UpdateFileOperation,
};
use crate::apply_patch::grammar::{
    add_file_at, blank_from, claimed, claims, closed, draft_line, draft_lines, empty_draft,
    first_not_added, hunk_line, is_boundary, lemma_next_boundary, lemma_operation_advances,
    misplaced_line, next_boundary, normalized_path, operation_at, operations_from, patch_of,
    requested_operation, update_file_at, with_end_of_file, with_hunk, with_line, with_move,
    DraftModel,
};
use crate::text::chars::{reads, same_text, string_of, strip_prefix, trim, trimmed};
use crate::text::lines::{holds, lemma_first_of_is, lines, lines_of, rows, texts};
use vstd::prelude::*;
use vstd::slice::slice_subrange;

verus! {

/// What came of reading a patch.
pub open spec fn document_outcome(r: Result<PatchDocument, PatchParseError>) -> Result<
    Seq<OperationModel>,
    ParseErrorModel,
> {
    match r {
        Ok(document) => Ok(document@),
        Err(error) => Err(error@),
    }
}

/// What came of reading an operation.
pub open spec fn operation_outcome(r: Result<(PatchOperation, usize), PatchParseError>) -> Result<
    (OperationModel, int),
    ParseErrorModel,
> {
    match r {
        Ok((operation, next)) => Ok((operation@, next as int)),
        Err(error) => Err(error@),
    }
}

/// What came of reading a path.
pub open spec fn path_outcome(r: Result<String, PatchParseError>) -> Result<
    Seq<char>,
    ParseErrorModel,
> {
    match r {
        Ok(path) => Ok(path@),
        Err(error) => Err(error@),
    }
}

/// An update-file operation that is being read.
pub struct UpdateDraft {
    pub move_to: Option<String>,
    pub hunks: Vec<PatchHunk>,
    pub open: Option<(usize, PatchHunk)>,
}

/// The hunk that is open.
pub open spec fn open_hunk(open: Option<(usize, PatchHunk)>) -> Option<(int, HunkModel)> {
    match open {
        Some((line_no, hunk)) => Some((line_no as int, hunk@)),
        None => None,
    }
}

impl View for UpdateDraft {
    type V = DraftModel;

    open spec fn view(&self) -> DraftModel {
        DraftModel {
            move_to: optional_text(self.move_to),
            hunks: hunk_models(self.hunks@),
            open: open_hunk(self.open),
        }
    }
}

/// What came of reading one more line of `draft`.
pub open spec fn draft_outcome(r: Result<(), PatchParseError>, draft: UpdateDraft) -> Result<
    DraftModel,
    ParseErrorModel,
> {
    match r {
        Ok(()) => Ok(draft@),
        Err(error) => Err(error@),
    }
}

fn invalid(line_no: usize, message: &str) -> (r: PatchParseError)
    ensures
        r@ == (ParseErrorModel::InvalidLine { line_no: line_no as int, message: message@ }),
{
    PatchParseError::InvalidLine { line_no, message: message.to_string() }
}

/// Reads a patch.
pub fn parse_patch_document(input: &str) -> (r: Result<PatchDocument, PatchParseError>)
    ensures
        document_outcome(r) == patch_of(input@),
{
    let lines = lines(input);
    if lines.len() == 0 || !reads(lines[0].as_slice(), "*** Begin Patch") {
        return Err(PatchParseError::MissingBegin);
    }
    let ghost all = rows(lines@);
    let mut operations: Vec<PatchOperation> = Vec::new();
    let mut seen_paths: Vec<String> = Vec::new();
    let mut index: usize = 1;
    assert(operation_models(operations@) == Seq::<OperationModel>::empty());
    assert(texts(seen_paths@) == Seq::<Seq<char>>::empty());

    while index < lines.len()
        invariant
            all == rows(lines@),
            all == lines_of(input@),
            all.len() > 0,
            1 <= index <= lines@.len(),
            patch_of(input@) == operations_from(
                all,
                index as int,
                texts(seen_paths@),
                operation_models(operations@),
            ),
        decreases lines@.len() - index,
    {
        assert(all[index as int] == lines@[index as int]@);
        if reads(lines[index].as_slice(), "*** End Patch") {
            if !rest_is_blank(&lines, index + 1) {
                return Err(
                    invalid(index + 2, "unexpected trailing content after '*** End Patch'"),
                );
            }
            return Ok(PatchDocument { operations });
        }
        proof {
            lemma_operation_advances(all, index as int);
        }
        let (operation, next_index) = match parse_operation(&lines, index) {
            Ok(parsed) => parsed,
            Err(error) => {
                return Err(error);
            },
        };
        match register_operation_paths(&operation, index + 1, &mut seen_paths) {
            Ok(()) => {},
            Err(error) => {
                return Err(error);
            },
        }
        let ghost before = operation_models(operations@);
        operations.push(operation);
        assert(operation_models(operations@) == before.push(operation@));
        index = next_index;
    }
    Err(PatchParseError::MissingEnd)
}

/// Whether every line from `index` on is blank.
fn rest_is_blank(lines: &Vec<Vec<char>>, index: usize) -> (r: bool)
    requires
        index <= lines@.len(),
    ensures
        r == blank_from(rows(lines@), index as int),
        !r ==> index < lines@.len(),
{
    let mut i: usize = index;
    while i < lines.len()
        invariant
            index <= i <= lines@.len(),
            forall|j: int| index <= j < i ==> trimmed(#[trigger] rows(lines@)[j]).len() == 0,
        decreases lines@.len() - i,
    {
        assert(rows(lines@)[i as int] == lines@[i as int]@);
        if trim(lines[i].as_slice()).len() != 0 {
            return false;
        }
        i += 1;
    }
    true
}

/// The name of the operation that a line asks for.
fn operation_name(line: &[char]) -> (r: Option<String>)
    ensures
        optional_text(r) == requested_operation(line@),
{
    match strip_prefix(line, "*** ") {
        Some(value) => {
            let mut end: usize = 0;
            while end < value.len() && value[end] != ':'
                invariant
                    end <= value@.len(),
                    forall|j: int| 0 <= j < end ==> value@[j] != ':',
                decreases value@.len() - end,
            {
                end += 1;
            }
            proof {
                lemma_first_of_is(value@, ':', end as int);
            }
            assert(value@.subrange(0, end as int) == value@.take(end as int));
            Some(string_of(slice_subrange(value, 0, end)))
        },
        None => None,
    }
}

/// The error for a line that has no place where it stands.
fn misplaced(line: &[char], line_no: usize, message: &str) -> (r: PatchParseError)
    ensures
        r@ == misplaced_line(line@, line_no as int, message@),
{
    match operation_name(line) {
        Some(operation) => PatchParseError::UnsupportedOperation { line_no, operation },
        None => invalid(line_no, message),
    }
}

/// Reads the operation whose header is line `start`.
pub fn parse_operation(lines: &Vec<Vec<char>>, start: usize) -> (r: Result<
    (PatchOperation, usize),
    PatchParseError,
>)
    requires
        start < lines.len(),
    ensures
        operation_outcome(r) == operation_at(rows(lines@), start as int),
{
    let line = lines[start].as_slice();
    assert(rows(lines@)[start as int] == line@);
    if let Some(path) = strip_prefix(line, "*** Add File: ") {
        match normalize_patch_path(path, start + 1) {
            Ok(path) => parse_add_file(lines, start, path),
            Err(error) => Err(error),
        }
    } else if let Some(path) = strip_prefix(line, "*** Delete File: ") {
        match normalize_patch_path(path, start + 1) {
            Ok(path) => Ok((PatchOperation::Delete(DeleteFileOperation { path }), start + 1)),
            Err(error) => Err(error),
        }
    } else if let Some(path) = strip_prefix(line, "*** Update File: ") {
        match normalize_patch_path(path, start + 1) {
            Ok(path) => parse_update_file(lines, start, path),
            Err(error) => Err(error),
        }
    } else {
        Err(misplaced(line, start + 1, "expected patch operation header"))
    }
}

/// Reads the add-file operation for `path` whose header is line `start`.
pub fn parse_add_file(lines: &Vec<Vec<char>>, start: usize, path: String) -> (r: Result<
    (PatchOperation, usize),
    PatchParseError,
>)
    requires
        start < lines.len(),
    ensures
        operation_outcome(r) == add_file_at(rows(lines@), start as int, path@),
{
    let ghost all = rows(lines@);
    let ghost end = next_boundary(all, start + 1);
    let ghost stop = first_not_added(all, start + 1, end);
    let mut index: usize = start + 1;
    let mut added_lines: Vec<String> = Vec::new();
    proof {
        lemma_next_boundary(all, start + 1);
    }
    while index < lines.len()
        invariant_except_break
            index <= end,
            first_not_added(all, index as int, end) == stop,
            next_boundary(all, index as int) == end,
        invariant
            all == rows(lines@),
            start < index <= lines@.len(),
            end == next_boundary(all, start + 1),
            end <= lines@.len(),
            stop == first_not_added(all, start + 1, end),
            texts(added_lines@) == Seq::new(
                (index - start - 1) as nat,
                |i: int| all[start + 1 + i].skip(1),
            ),
        ensures
            index == end,
            stop == end,
        decreases lines@.len() - index,
    {
        let line = lines[index].as_slice();
        assert(all[index as int] == line@);
        if is_operation_boundary(line) {
            break;
        }
        proof {
            lemma_next_boundary(all, index + 1);
        }
        if line.len() == 0 || line[0] != '+' {
            return Err(invalid(index + 1, "add-file hunks must contain only '+' lines"));
        }
        assert(line@.subrange(1, line@.len() as int) == line@.skip(1));
        let ghost before = texts(added_lines@);
        added_lines.push(string_of(slice_subrange(line, 1, line.len())));
        assert(texts(added_lines@) == before.push(line@.skip(1)));
        index += 1;
    }
    if added_lines.len() == 0 {
        assert(texts(added_lines@).len() == 0);
        return Err(invalid(start + 1, "add-file operation must contain at least one '+' line"));
    }
    Ok((PatchOperation::Add(AddFileOperation { path, lines: added_lines }), index))
}

/// Reads the update-file operation for `path` whose header is line `start`.
pub fn parse_update_file(lines: &Vec<Vec<char>>, start: usize, path: String) -> (r: Result<
    (PatchOperation, usize),
    PatchParseError,
>)
    requires
        start < lines.len(),
    ensures
        operation_outcome(r) == update_file_at(rows(lines@), start as int, path@),
{
    let ghost all = rows(lines@);
    let ghost end = next_boundary(all, start + 1);
    let mut index: usize = start + 1;
    let mut draft = UpdateDraft { move_to: None, hunks: Vec::new(), open: None };
    assert(draft@ == empty_draft());
    proof {
        lemma_next_boundary(all, start + 1);
    }
    while index < lines.len()
        invariant_except_break
            index <= end,
            next_boundary(all, index as int) == end,
        invariant
            all == rows(lines@),
            start < index <= lines@.len(),
            end == next_boundary(all, start + 1),
            end <= lines@.len(),
            draft_lines(path@, empty_draft(), all, start + 1, end) == draft_lines(
                path@,
                draft@,
                all,
                index as int,
                end,
            ),
        ensures
            index == end,
        decreases lines@.len() - index,
    {
        let line = lines[index].as_slice();
        assert(all[index as int] == line@);
        if is_operation_boundary(line) {
            break;
        }
        proof {
            lemma_next_boundary(all, index + 1);
        }
        match parse_update_line(path.as_str(), &mut draft, line, index + 1) {
            Ok(()) => {},
            Err(error) => {
                return Err(error);
            },
        }
        index += 1;
    }
    match finalize_hunk(&mut draft) {
        Ok(()) => {},
        Err(error) => {
            return Err(error);
        },
    }
    if draft.hunks.len() == 0 {
        return Err(invalid(start + 1, "update-file operation must contain at least one hunk"));
    }
    Ok(
        (
            PatchOperation::Update(
                UpdateFileOperation { path, move_to: draft.move_to, hunks: draft.hunks },
            ),
            index,
        ),
    )
}

/// Reads one line of the update of `path`.
fn parse_update_line(path: &str, draft: &mut UpdateDraft, line: &[char], line_no: usize) -> (r: Result<
    (),
    PatchParseError,
>)
    ensures
        draft_outcome(r, *final(draft)) == draft_line(path@, old(draft)@, line@, line_no as int),
{
    if let Some(target) = strip_prefix(line, "*** Move to: ") {
        return read_move(path, draft, target, line_no);
    }
    if let Some(header) = strip_prefix(line, "@@") {
        return open_new_hunk(draft, header, line_no);
    }
    if reads(line, "*** End of File") {
        return mark_end_of_file(draft, line_no);
    }
    read_hunk_line(draft, line, line_no)
}

fn read_move(path: &str, draft: &mut UpdateDraft, target: &[char], line_no: usize) -> (r: Result<
    (),
    PatchParseError,
>)
    ensures
        draft_outcome(r, *final(draft)) == with_move(path@, old(draft)@, target@, line_no as int),
{
    if draft.move_to.is_some() {
        return Err(
            invalid(line_no, "update-file operation may contain only one '*** Move to:' header"),
        );
    }
    if draft.open.is_some() || draft.hunks.len() > 0 {
        return Err(invalid(line_no, "'*** Move to:' must appear before any hunks"));
    }
    let target = match normalize_patch_path(target, line_no) {
        Ok(target) => target,
        Err(error) => {
            return Err(error);
        },
    };
    if same_text(target.as_str(), path) {
        return Err(invalid(line_no, "move target must differ from source path"));
    }
    draft.move_to = Some(target);
    Ok(())
}

fn open_new_hunk(draft: &mut UpdateDraft, header: &[char], line_no: usize) -> (r: Result<
    (),
    PatchParseError,
>)
    ensures
        draft_outcome(r, *final(draft)) == with_hunk(old(draft)@, header@, line_no as int),
{
    match finalize_hunk(draft) {
        Ok(()) => {},
        Err(error) => {
            return Err(error);
        },
    }
    let header = trim(header);
    let header = if header.len() == 0 {
        None
    } else {
        Some(string_of(header))
    };
    let hunk = PatchHunk { header, lines: Vec::new(), has_end_of_file_marker: false };
    assert(hunk_lines(hunk.lines@) == Seq::<HunkLineModel>::empty());
    draft.open = Some((line_no, hunk));
    Ok(())
}

fn mark_end_of_file(draft: &mut UpdateDraft, line_no: usize) -> (r: Result<(), PatchParseError>)
    ensures
        draft_outcome(r, *final(draft)) == with_end_of_file(old(draft)@, line_no as int),
{
    match draft.open.take() {
        None => Err(invalid(line_no, "'*** End of File' requires an active hunk")),
        Some((opened, mut hunk)) => {
            if hunk.has_end_of_file_marker {
                return Err(
                    invalid(line_no, "duplicate '*** End of File' marker in the same hunk"),
                );
            }
            hunk.has_end_of_file_marker = true;
            draft.open = Some((opened, hunk));
            Ok(())
        },
    }
}

fn read_hunk_line(draft: &mut UpdateDraft, line: &[char], line_no: usize) -> (r: Result<
    (),
    PatchParseError,
>)
    ensures
        draft_outcome(r, *final(draft)) == with_line(old(draft)@, line@, line_no as int),
{
    let read = match parse_hunk_line(line) {
        Some(read) => read,
        None => {
            return Err(
                misplaced(
                    line,
                    line_no,
                    "update-file hunks must use '@@', ' ', '+', '-', or '*** End of File'",
                ),
            );
        },
    };
    match draft.open.take() {
        None => Err(
            invalid(line_no, "update-file operation requires a hunk header before patch lines"),
        ),
        Some((opened, mut hunk)) => {
            let ghost before = hunk_lines(hunk.lines@);
            hunk.lines.push(read);
            assert(hunk_lines(hunk.lines@) == before.push(read@));
            draft.open = Some((opened, hunk));
            Ok(())
        },
    }
}

/// Closes the hunk that is open.
pub fn finalize_hunk(draft: &mut UpdateDraft) -> (r: Result<(), PatchParseError>)
    ensures
        draft_outcome(r, *final(draft)) == closed(old(draft)@),
{
    match draft.open.take() {
        None => Ok(()),
        Some((hunk_line_no, hunk)) => {
            if hunk.lines.len() == 0 {
                return Err(
                    invalid(
                        hunk_line_no,
                        "patch hunks must contain at least one context/add/remove line",
                    ),
                );
            }
            let ghost before = hunk_models(draft.hunks@);
            draft.hunks.push(hunk);
            assert(hunk_models(draft.hunks@) == before.push(hunk@));
            Ok(())
        },
    }
}

/// Reads a line of a hunk.
pub fn parse_hunk_line(line: &[char]) -> (r: Option<PatchHunkLine>)
    ensures
        match r {
            Some(read) => hunk_line(line@) == Some(read@),
            None => hunk_line(line@) is None,
        },
{
    if line.len() == 0 {
        return None;
    }
    let kind = if line[0] == ' ' {
        PatchLineKind::Context
    } else if line[0] == '+' {
        PatchLineKind::Add
    } else if line[0] == '-' {
        PatchLineKind::Remove
    } else {
        return None;
    };
    assert(line@.subrange(1, line@.len() as int) == line@.skip(1));
    Some(PatchHunkLine { kind, text: string_of(slice_subrange(line, 1, line.len())) })
}

/// The path named in a header.
pub fn normalize_patch_path(path: &[char], line_no: usize) -> (r: Result<String, PatchParseError>)
    ensures
        path_outcome(r) == normalized_path(path@, line_no as int),
{
    let trimmed_path = trim(path);
    if trimmed_path.len() == 0 {
        return Err(invalid(line_no, "patch path must not be empty"));
    }
    Ok(string_of(trimmed_path))
}

/// Adds the paths of an operation to those that are taken.
pub fn register_operation_paths(
    operation: &PatchOperation,
    line_no: usize,
    seen_paths: &mut Vec<String>,
) -> (r: Result<(), PatchParseError>)
    ensures
        match r {
            Ok(()) => claimed(claims(operation@), line_no as int, texts(old(seen_paths)@)) == Ok::<
                _,
                ParseErrorModel,
            >(texts(final(seen_paths)@)),
            Err(error) => claimed(claims(operation@), line_no as int, texts(old(seen_paths)@))
                == Err::<Seq<Seq<char>>, _>(error@),
        },
{
    reveal_with_fuel(claimed, 3);
    let (path, second) = match operation {
        PatchOperation::Add(op) => (&op.path, None),
        PatchOperation::Delete(op) => (&op.path, None),
        PatchOperation::Update(op) => (&op.path, op.move_to.as_ref()),
    };
    let ghost wanted = claims(operation@);
    if holds(seen_paths, path.as_str()) {
        return Err(PatchParseError::ConflictingPath { line_no, path: path.clone() });
    }
    let ghost taken = texts(seen_paths@);
    seen_paths.push(path.clone());
    assert(texts(seen_paths@) == taken.push(path@));
    if let Some(target) = second {
        assert(wanted.drop_first() == seq![target@]);
        assert(wanted.drop_first().drop_first() == Seq::<Seq<char>>::empty());
        if holds(seen_paths, target.as_str()) {
            return Err(PatchParseError::ConflictingPath { line_no, path: target.clone() });
        }
        seen_paths.push(target.clone());
        assert(texts(seen_paths@) == taken.push(path@).push(target@));
    } else {
        assert(wanted.drop_first() == Seq::<Seq<char>>::empty());
    }
    Ok(())
}

/// Whether a line ends the operation before it.
pub fn is_operation_boundary(line: &[char]) -> (r: bool)
    ensures
        r == is_boundary(line@),
{
    reads(line, "*** End Patch") || strip_prefix(line, "*** Add File: ").is_some()
        || strip_prefix(line, "*** Delete File: ").is_some() || strip_prefix(
        line,
        "*** Update File: ",
    ).is_some()
}

} // verus!
