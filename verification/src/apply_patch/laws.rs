//! What holds of patches as a whole.

use crate::apply_patch::document::{
    HunkLineModel, HunkModel, OperationModel, ParseErrorModel, PatchLineKind,
};
use crate::apply_patch::errors::ExecutionErrorModel;
use crate::apply_patch::grammar::{
    claimed, claims, draft_line, draft_lines, empty_draft, first_not_added, is_added_line,
    lemma_next_boundary, lemma_operation_advances, next_boundary, normalized_path, operation_at,
    operations_from, patch_of, DraftModel,
};
use crate::apply_patch::hunks::{
    all_matches, ends_with_line_feed, file_lines, file_text, hunk_applied, hunks_applied,
    lemma_match_starts, lines_after, lines_before, matches_at, text_after_hunks,
};
use crate::text::chars::{
    after_prefix, lemma_trimmed_start, trimmed, trimmed_end, trimmed_start, white_space,
};
use crate::text::lines::{first_of, joined, lemma_first_of, lines_of, pieces};
use vstd::prelude::*;

verus! {

/// Joining puts the first part in front of the rest.
pub proof fn lemma_joined_first(first: Seq<char>, rest: Seq<Seq<char>>, between: Seq<char>)
    requires
        rest.len() > 0,
    ensures
        joined(seq![first] + rest, between) == first + between + joined(rest, between),
    decreases rest.len(),
{
    let list = seq![first] + rest;
    assert(list.last() == rest.last());
    if rest.len() == 1 {
        assert(list.drop_last() == seq![first]);
        assert(joined(seq![first], between) == first);
        assert(joined(rest, between) == rest.last());
    } else {
        lemma_joined_first(first, rest.drop_last(), between);
        assert(list.drop_last() == seq![first] + rest.drop_last());
        assert(first + between + joined(rest, between) == first + between + joined(
            rest.drop_last(),
            between,
        ) + between + rest.last());
    }
}

/// What was cut at every `c` is whole again once it is joined with `c`.
pub proof fn law_cut_and_joined(s: Seq<char>, c: char)
    ensures
        joined(pieces(s, c), seq![c]) == s,
    decreases s.len(),
{
    lemma_first_of(s, c);
    let cut = first_of(s, c);
    if cut < s.len() {
        law_cut_and_joined(s.skip(cut + 1), c);
        lemma_joined_first(s.take(cut), pieces(s.skip(cut + 1), c), seq![c]);
        assert(s.take(cut) + seq![c] + s.skip(cut + 1) == s);
    }
}

/// Behind a `c` at the very end there is one more piece, without anything in it.
pub proof fn lemma_last_piece(s: Seq<char>, c: char)
    requires
        s.len() > 0,
        s.last() == c,
    ensures
        pieces(s, c).len() >= 2,
        pieces(s, c).last() == Seq::<char>::empty(),
    decreases s.len(),
{
    lemma_first_of(s, c);
    let cut = first_of(s, c);
    if cut == s.len() {
        assert(s[s.len() - 1] != c);
    }
    let rest = s.skip(cut + 1);
    if rest.len() > 0 {
        lemma_last_piece(rest, c);
    } else {
        assert(rest == Seq::<char>::empty());
        assert(first_of(rest, c) == 0);
        assert(pieces(rest, c) == seq![rest]);
    }
}

/// The lines of a file make up its text again: nothing is lost or added by
/// taking a file apart.
pub proof fn law_file_is_its_lines(text: Seq<char>)
    ensures
        file_text(file_lines(text), ends_with_line_feed(text)) == text,
{
    law_cut_and_joined(text, '\n');
    if ends_with_line_feed(text) {
        let all = pieces(text, '\n');
        lemma_last_piece(text, '\n');
        assert(joined(all, seq!['\n']) == joined(all.drop_last(), seq!['\n']) + seq!['\n']
            + all.last());
        assert(joined(all.drop_last(), seq!['\n']).push('\n') == joined(
            all.drop_last(),
            seq!['\n'],
        ) + seq!['\n'] + all.last());
    }
}

/// A file to which no hunk is applied stays as it is.
pub proof fn law_no_hunk_no_change(text: Seq<char>, path: Seq<char>)
    ensures
        text_after_hunks(text, seq![], path) == Ok::<
            Seq<char>,
            ExecutionErrorModel,
        >(text),
{
    law_file_is_its_lines(text);
    assert(hunks_applied(file_lines(text), seq![], 0, path) is Ok);
}

/// A hunk of context lines looks for the lines that it leaves.
proof fn lemma_context_lines(lines: Seq<HunkLineModel>)
    requires
        forall|i: int|
            0 <= i < lines.len() ==> (#[trigger] lines[i]).kind == PatchLineKind::Context,
    ensures
        lines_before(lines) == lines_after(lines),
        lines_before(lines).len() == lines.len(),
    decreases lines.len(),
{
    if lines.len() > 0 {
        assert(lines.last() == lines[lines.len() - 1]);
        assert forall|i: int| 0 <= i < lines.drop_last().len() implies (
        #[trigger] lines.drop_last()[i]).kind == PatchLineKind::Context by {
            assert(lines.drop_last()[i] == lines[i]);
        }
        lemma_context_lines(lines.drop_last());
    }
}

/// A hunk of context lines alone changes nothing where it can be applied.
proof fn lemma_context_changes_nothing(
    lines: Seq<Seq<char>>,
    search_start: int,
    hunk: HunkModel,
    path: Seq<char>,
)
    requires
        0 <= search_start,
        is_context(hunk),
    ensures
        hunk_applied(lines, search_start, hunk, path) matches Ok((after, next)) ==> after == lines
            && 0 <= next,
{
    lemma_context_lines(hunk.lines);
    let before = lines_before(hunk.lines);
    if before.len() == 0 {
        assert(lines + lines_after(hunk.lines) == lines);
    } else {
        let places = all_matches(lines, before, search_start, hunk.has_end_of_file_marker);
        lemma_match_starts(
            lines,
            before,
            if search_start < lines.len() {
                search_start
            } else {
                lines.len() as int
            },
            lines.len() - before.len() + 1,
            hunk.has_end_of_file_marker,
        );
        if places.len() == 1 {
            let start = places[0];
            assert(places.contains(start));
            assert(matches_at(lines, before, start, hunk.has_end_of_file_marker));
            assert(lines == lines.take(start) + lines.subrange(start, start + before.len())
                + lines.skip(start + before.len()));
        }
    }
}

/// Whether a hunk holds context lines alone.
pub open spec fn is_context(hunk: HunkModel) -> bool {
    forall|i: int|
        0 <= i < hunk.lines.len() ==> (#[trigger] hunk.lines[i]).kind == PatchLineKind::Context
}

/// Hunks of context lines alone change nothing where they can be applied.
proof fn lemma_contexts_change_nothing(
    lines: Seq<Seq<char>>,
    hunks: Seq<HunkModel>,
    count: int,
    path: Seq<char>,
)
    requires
        0 <= count <= hunks.len(),
        forall|i: int| 0 <= i < hunks.len() ==> is_context(#[trigger] hunks[i]),
    ensures
        hunks_applied(lines, hunks, count, path) matches Ok((after, next)) ==> after == lines && 0
            <= next,
    decreases count,
{
    if count > 0 {
        lemma_contexts_change_nothing(lines, hunks, count - 1, path);
        if let Ok((now, search_start)) = hunks_applied(lines, hunks, count - 1, path) {
            assert(is_context(hunks[count - 1]));
            lemma_context_changes_nothing(now, search_start, hunks[count - 1], path);
        }
    }
}

/// Hunks of context lines alone leave the text of a file as it is, where they
/// can be applied.
pub proof fn law_context_changes_nothing(text: Seq<char>, hunks: Seq<HunkModel>, path: Seq<char>)
    requires
        forall|i: int| 0 <= i < hunks.len() ==> is_context(#[trigger] hunks[i]),
    ensures
        text_after_hunks(text, hunks, path) matches Ok(after) ==> after == text,
{
    lemma_contexts_change_nothing(file_lines(text), hunks, hunks.len() as int, path);
    law_file_is_its_lines(text);
}

/// A path as a patch may name it: some text with no white space around it.
pub open spec fn is_proper_path(path: Seq<char>) -> bool {
    path.len() > 0 && trimmed(path) == path
}

/// Whether every hunk has a line.
pub open spec fn hunks_have_lines(hunks: Seq<HunkModel>) -> bool {
    forall|i: int| 0 <= i < hunks.len() ==> (#[trigger] hunks[i]).lines.len() > 0
}

/// An operation that a patch may hold: it names proper paths, it moves a file to
/// another path only, and none of its parts is empty.
pub open spec fn is_proper_operation(operation: OperationModel) -> bool {
    match operation {
        OperationModel::Add { path, lines } => is_proper_path(path) && lines.len() > 0,
        OperationModel::Delete { path } => is_proper_path(path),
        OperationModel::Update { path, move_to, hunks } => {
            &&& is_proper_path(path)
            &&& move_to matches Some(target) ==> is_proper_path(target) && target != path
            &&& hunks.len() > 0
            &&& hunks_have_lines(hunks)
        },
    }
}

/// All paths that operations lay claim to, in order.
pub open spec fn all_claims(operations: Seq<OperationModel>) -> Seq<Seq<char>>
    decreases operations.len(),
{
    if operations.len() == 0 {
        seq![]
    } else {
        all_claims(operations.drop_last()) + claims(operations.last())
    }
}

/// What `trimmed_end` leaves does not end with white space, and starts as before.
proof fn lemma_trimmed_end(s: Seq<char>)
    ensures
        trimmed_end(s).len() > 0 ==> !white_space(trimmed_end(s).last()) && trimmed_end(s).first()
            == s.first(),
    decreases s.len(),
{
    if s.len() > 0 && white_space(s.last()) {
        lemma_trimmed_end(s.drop_last());
    }
}

/// Text that was trimmed has nothing left to trim.
pub proof fn law_trimmed_once(s: Seq<char>)
    ensures
        trimmed(trimmed(s)) == trimmed(s),
{
    lemma_trimmed_start(s);
    lemma_trimmed_end(trimmed_start(s));
    let t = trimmed(s);
    assert(trimmed_start(t) == t);
    assert(trimmed_end(t) == t);
}

/// A path that was read is proper.
proof fn lemma_normalized_path(path: Seq<char>, line_no: int)
    ensures
        normalized_path(path, line_no) matches Ok(normalized) ==> is_proper_path(normalized),
{
    law_trimmed_once(path);
}

/// What holds of a draft while it is read.
spec fn is_proper_draft(path: Seq<char>, draft: DraftModel) -> bool {
    &&& draft.move_to matches Some(target) ==> is_proper_path(target) && target != path
    &&& hunks_have_lines(draft.hunks)
}

/// A draft stays proper while lines are read.
proof fn lemma_proper_draft(
    path: Seq<char>,
    draft: DraftModel,
    lines: Seq<Seq<char>>,
    index: int,
    end: int,
)
    requires
        is_proper_draft(path, draft),
    ensures
        draft_lines(path, draft, lines, index, end) matches Ok(done) ==> is_proper_draft(
            path,
            done,
        ),
    decreases end - index,
{
    if index < end {
        let line_no = index + 1;
        let line = lines[index];
        match after_prefix(line, "*** Move to: "@) {
            Some(target) => lemma_normalized_path(target, line_no),
            None => {},
        }
        if let Ok(next) = draft_line(path, draft, line, line_no) {
            assert(is_proper_draft(path, next));
            lemma_proper_draft(path, next, lines, index + 1, end);
        }
    }
}

/// An operation that was read is proper.
proof fn lemma_proper_operation(lines: Seq<Seq<char>>, start: int)
    ensures
        operation_at(lines, start) matches Ok((operation, _)) ==> is_proper_operation(operation),
{
    let line = lines[start];
    let line_no = start + 1;
    lemma_next_boundary(lines, start + 1);
    match after_prefix(line, "*** Add File: "@) {
        Some(path) => lemma_normalized_path(path, line_no),
        None => match after_prefix(line, "*** Delete File: "@) {
            Some(path) => lemma_normalized_path(path, line_no),
            None => match after_prefix(line, "*** Update File: "@) {
                Some(rest) => {
                    lemma_normalized_path(rest, line_no);
                    if let Ok(path) = normalized_path(rest, line_no) {
                        lemma_proper_draft(
                            path,
                            empty_draft(),
                            lines,
                            start + 1,
                            next_boundary(lines, start + 1),
                        );
                    }
                },
                None => {},
            },
        },
    }
}

/// Paths are taken once, in the order in which they are wanted.
proof fn lemma_claimed(wanted: Seq<Seq<char>>, line_no: int, taken: Seq<Seq<char>>)
    requires
        taken.no_duplicates(),
    ensures
        claimed(wanted, line_no, taken) matches Ok(now) ==> now == taken + wanted
            && now.no_duplicates(),
    decreases wanted.len(),
{
    if wanted.len() == 0 {
        assert(taken + wanted == taken);
    } else if !taken.contains(wanted.first()) {
        let more = taken.push(wanted.first());
        assert(more.no_duplicates());
        lemma_claimed(wanted.drop_first(), line_no, more);
        assert(more + wanted.drop_first() == taken + wanted);
    }
}

/// Operations stay proper, and their paths distinct, while a patch is read.
proof fn lemma_proper_operations(
    lines: Seq<Seq<char>>,
    index: int,
    taken: Seq<Seq<char>>,
    done: Seq<OperationModel>,
)
    requires
        taken == all_claims(done),
        taken.no_duplicates(),
        forall|i: int| 0 <= i < done.len() ==> is_proper_operation(#[trigger] done[i]),
    ensures
        operations_from(lines, index, taken, done) matches Ok(operations) ==> {
            &&& all_claims(operations).no_duplicates()
            &&& forall|i: int|
                0 <= i < operations.len() ==> is_proper_operation(#[trigger] operations[i])
        },
    decreases lines.len() - index,
{
    if index < lines.len() && lines[index] != "*** End Patch"@ {
        if let Ok((operation, next)) = operation_at(lines, index) {
            lemma_proper_operation(lines, index);
            lemma_operation_advances(lines, index);
            lemma_claimed(claims(operation), index + 1, taken);
            if let Ok(now_taken) = claimed(claims(operation), index + 1, taken) {
                let more = done.push(operation);
                assert(more.drop_last() == done);
                lemma_proper_operations(lines, next, now_taken, more);
            }
        }
    }
}

/// A patch that can be read is well formed: every operation names proper paths
/// and has something to do, and no path is claimed twice, be it as the target
/// of an operation or as the place that a file is moved to.
pub proof fn law_patch_is_well_formed(text: Seq<char>)
    ensures
        patch_of(text) matches Ok(operations) ==> {
            &&& all_claims(operations).no_duplicates()
            &&& forall|i: int|
                0 <= i < operations.len() ==> is_proper_operation(#[trigger] operations[i])
        },
{
    lemma_proper_operations(lines_of(text), 1, seq![], seq![]);
}

/// The line that an error names.
pub open spec fn error_line(error: ParseErrorModel) -> Option<int> {
    match error {
        ParseErrorModel::MissingBegin => None,
        ParseErrorModel::MissingEnd => None,
        ParseErrorModel::UnsupportedOperation { line_no, .. } => Some(line_no),
        ParseErrorModel::InvalidLine { line_no, .. } => Some(line_no),
        ParseErrorModel::ConflictingPath { line_no, .. } => Some(line_no),
    }
}

/// Whether an error names one of the first `count` lines, or none at all.
pub open spec fn is_within(error: ParseErrorModel, count: int) -> bool {
    error_line(error) matches Some(line_no) ==> 1 <= line_no <= count
}

/// Reading lines of an update stops at one of them, or at the line that opened
/// the hunk before it.
proof fn lemma_draft_error_line(
    path: Seq<char>,
    draft: DraftModel,
    lines: Seq<Seq<char>>,
    index: int,
    end: int,
)
    requires
        0 <= index <= end <= lines.len(),
        draft.open matches Some((opened, _)) ==> 1 <= opened <= lines.len(),
    ensures
        match draft_lines(path, draft, lines, index, end) {
            Ok(done) => done.open matches Some((opened, _)) ==> 1 <= opened <= lines.len(),
            Err(error) => is_within(error, lines.len() as int),
        },
    decreases end - index,
{
    if index < end {
        if let Ok(next) = draft_line(path, draft, lines[index], index + 1) {
            lemma_draft_error_line(path, next, lines, index + 1, end);
        }
    }
}

/// Reading an operation stops at one of the lines.
proof fn lemma_operation_error_line(lines: Seq<Seq<char>>, start: int)
    requires
        0 <= start < lines.len(),
    ensures
        operation_at(lines, start) matches Err(error) ==> is_within(error, lines.len() as int),
{
    let line = lines[start];
    let end = next_boundary(lines, start + 1);
    lemma_next_boundary(lines, start + 1);
    lemma_first_not_added(lines, start + 1, end);
    if let Some(rest) = after_prefix(line, "*** Update File: "@) {
        if let Ok(path) = normalized_path(rest, start + 1) {
            lemma_draft_error_line(path, empty_draft(), lines, start + 1, end);
        }
    }
}

/// The first line that is not added is at or behind the first one looked at.
proof fn lemma_first_not_added(lines: Seq<Seq<char>>, index: int, end: int)
    ensures
        index <= first_not_added(lines, index, end),
    decreases end - index,
{
    if index < end && is_added_line(lines[index]) {
        lemma_first_not_added(lines, index + 1, end);
    }
}

/// A conflict is reported at the line of the operation.
proof fn lemma_claim_error_line(wanted: Seq<Seq<char>>, line_no: int, taken: Seq<Seq<char>>)
    ensures
        claimed(wanted, line_no, taken) matches Err(error) ==> error_line(error) == Some(line_no),
    decreases wanted.len(),
{
    if wanted.len() > 0 && !taken.contains(wanted.first()) {
        lemma_claim_error_line(wanted.drop_first(), line_no, taken.push(wanted.first()));
    }
}

/// Reading operations stops at one of the lines.
proof fn lemma_operations_error_line(
    lines: Seq<Seq<char>>,
    index: int,
    taken: Seq<Seq<char>>,
    done: Seq<OperationModel>,
)
    requires
        0 <= index,
    ensures
        operations_from(lines, index, taken, done) matches Err(error) ==> is_within(
            error,
            lines.len() as int,
        ),
    decreases lines.len() - index,
{
    if index < lines.len() && lines[index] != "*** End Patch"@ {
        lemma_operation_error_line(lines, index);
        lemma_operation_advances(lines, index);
        if let Ok((operation, next)) = operation_at(lines, index) {
            lemma_claim_error_line(claims(operation), index + 1, taken);
            if let Ok(now_taken) = claimed(claims(operation), index + 1, taken) {
                lemma_operations_error_line(lines, next, now_taken, done.push(operation));
            }
        }
    }
}

/// An error in a patch names a line that the patch has, counted from one.
pub proof fn law_error_names_a_line(text: Seq<char>)
    ensures
        patch_of(text) matches Err(error) ==> is_within(error, lines_of(text).len() as int),
{
    lemma_operations_error_line(lines_of(text), 1, seq![], seq![]);
}

} // verus!
