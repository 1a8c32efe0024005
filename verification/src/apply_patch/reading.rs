//! What a patch that was read says, line by line.

use crate::apply_patch::document::{HunkLineModel, HunkModel, OperationModel, ParseErrorModel};
use crate::apply_patch::grammar::{
    claimed, claims, closed, draft_line, draft_lines, empty_draft, first_not_added, hunk_line,
    is_added_line, lemma_next_boundary, lemma_operation_advances, operation_at, operations_from,
    patch_of, DraftModel,
};
use crate::apply_patch::round_trip::rendered_line;
use crate::text::chars::{after_prefix, trimmed};
use crate::text::lines::lines_of;
use vstd::prelude::*;

verus! {

/// Whether a line is the word with a text behind it, which says `said` once the
/// white space around it is gone.
pub open spec fn is_headed(line: Seq<char>, word: Seq<char>, said: Seq<char>) -> bool {
    word.is_prefix_of(line) && trimmed(line.skip(word.len() as int)) == said
}

/// Whether a line of a hunk is the marker of the end of the file.
pub open spec fn is_end_marker(line: Seq<char>) -> bool {
    line == "*** End of File"@
}

/// Lines without the markers of the end of the file.
pub open spec fn without_markers(lines: Seq<Seq<char>>) -> Seq<Seq<char>> {
    lines.filter(|line: Seq<char>| !is_end_marker(line))
}

/// Whether lines are those of a hunk: one that opens it, and names it or not;
/// one for each of its lines, which begins with what becomes of it; and the
/// marker of the end of the file, once or not at all.
pub open spec fn is_hunk_written(lines: Seq<Seq<char>>, hunk: HunkModel) -> bool {
    &&& lines.len() > 0
    &&& match hunk.header {
        Some(header) => header.len() > 0 && is_headed(lines[0], "@@"@, header),
        None => is_headed(lines[0], "@@"@, seq![]),
    }
    &&& without_markers(lines.skip(1)) == hunk.lines.map_values(
        |line: HunkLineModel| rendered_line(line),
    )
    &&& lines.len() == 1 + hunk.lines.len() + if hunk.has_end_of_file_marker {
        1int
    } else {
        0
    }
}

/// Parts in a row.
pub open spec fn in_a_row(parts: Seq<Seq<Seq<char>>>) -> Seq<Seq<char>>
    decreases parts.len(),
{
    if parts.len() == 0 {
        seq![]
    } else {
        in_a_row(parts.drop_last()) + parts.last()
    }
}

/// Whether lines name the place that a file is moved to, or are none where it is
/// not moved.
pub open spec fn is_move_written(lines: Seq<Seq<char>>, move_to: Option<Seq<char>>) -> bool {
    match move_to {
        Some(target) => lines.len() == 1 && is_headed(lines[0], "*** Move to: "@, target),
        None => lines.len() == 0,
    }
}

/// Whether each part is written for its hunk.
pub open spec fn are_hunks_written(parts: Seq<Seq<Seq<char>>>, hunks: Seq<HunkModel>) -> bool {
    parts.len() == hunks.len() && forall|i: int|
        0 <= i < hunks.len() ==> is_hunk_written(#[trigger] parts[i], hunks[i])
}

/// Whether lines are the move and the hunks of an update, one after the other.
pub open spec fn is_update_written(
    lines: Seq<Seq<char>>,
    move_to: Option<Seq<char>>,
    hunks: Seq<HunkModel>,
    moving: Seq<Seq<char>>,
    parts: Seq<Seq<Seq<char>>>,
) -> bool {
    &&& lines == moving + in_a_row(parts)
    &&& is_move_written(moving, move_to)
    &&& are_hunks_written(parts, hunks)
}

/// Whether lines are those of an operation.
pub open spec fn is_operation_written(lines: Seq<Seq<char>>, operation: OperationModel) -> bool {
    &&& lines.len() > 0
    &&& match operation {
        OperationModel::Add { path, lines: added } => {
            &&& is_headed(lines[0], "*** Add File: "@, path)
            &&& lines.len() == added.len() + 1
            &&& forall|i: int| 0 <= i < added.len() ==> lines[i + 1] == seq!['+'] + #[trigger] added[i]
        },
        OperationModel::Delete { path } => is_headed(lines[0], "*** Delete File: "@, path)
            && lines.len() == 1,
        OperationModel::Update { path, move_to, hunks } => {
            &&& is_headed(lines[0], "*** Update File: "@, path)
            &&& exists|moving: Seq<Seq<char>>, parts: Seq<Seq<Seq<char>>>| #[trigger]
                is_update_written(lines.skip(1), move_to, hunks, moving, parts)
        },
    }
}

/// Whether each part is written for its operation.
pub open spec fn are_operations_written(
    parts: Seq<Seq<Seq<char>>>,
    operations: Seq<OperationModel>,
) -> bool {
    parts.len() == operations.len() && forall|i: int|
        0 <= i < operations.len() ==> is_operation_written(#[trigger] parts[i], operations[i])
}

/// Whether lines are those of a patch with these operations: one that begins it,
/// those of each operation in their order, one that ends it, and behind that
/// nothing but white space.
pub open spec fn is_patch_written(
    lines: Seq<Seq<char>>,
    operations: Seq<OperationModel>,
    parts: Seq<Seq<Seq<char>>>,
    blank: Seq<Seq<char>>,
) -> bool {
    &&& lines == seq!["*** Begin Patch"@] + in_a_row(parts) + seq!["*** End Patch"@] + blank
    &&& are_operations_written(parts, operations)
    &&& forall|i: int| 0 <= i < blank.len() ==> trimmed(#[trigger] blank[i]).len() == 0
}

/// Whether lines are what has been read of an update.
spec fn is_draft_written(
    read: Seq<Seq<char>>,
    draft: DraftModel,
    moving: Seq<Seq<char>>,
    parts: Seq<Seq<Seq<char>>>,
    last: Seq<Seq<char>>,
) -> bool {
    &&& read == moving + in_a_row(parts) + last
    &&& is_move_written(moving, draft.move_to)
    &&& are_hunks_written(parts, draft.hunks)
    &&& match draft.open {
        Some((_, hunk)) => is_hunk_written(last, hunk),
        None => last.len() == 0,
    }
}

/// Whether there is such a reading.
spec fn is_draft_of(read: Seq<Seq<char>>, draft: DraftModel) -> bool {
    exists|moving: Seq<Seq<char>>, parts: Seq<Seq<Seq<char>>>, last: Seq<Seq<char>>| #[trigger]
        is_draft_written(read, draft, moving, parts, last)
}

/// A line of a hunk is no marker.
proof fn lemma_no_marker(line: HunkLineModel)
    ensures
        !is_end_marker(rendered_line(line)),
{
    reveal_strlit("*** End of File");
    assert("*** End of File"@[0] == '*');
    assert(rendered_line(line)[0] != '*');
}

/// A hunk with one line more.
proof fn lemma_hunk_longer(last: Seq<Seq<char>>, hunk: HunkModel, line: HunkLineModel)
    requires
        is_hunk_written(last, hunk),
    ensures
        is_hunk_written(
            last.push(rendered_line(line)),
            HunkModel { lines: hunk.lines.push(line), ..hunk },
        ),
{
    let longer = last.push(rendered_line(line));
    lemma_no_marker(line);
    assert(longer.skip(1).drop_last() == last.skip(1));
    assert(longer.skip(1).last() == rendered_line(line));
    reveal(Seq::filter);
    assert(without_markers(longer.skip(1)) == without_markers(last.skip(1)).push(
        rendered_line(line),
    ));
    assert(hunk.lines.push(line).map_values(|line: HunkLineModel| rendered_line(line))
        == hunk.lines.map_values(|line: HunkLineModel| rendered_line(line)).push(
        rendered_line(line),
    ));
}

/// A hunk that is marked.
proof fn lemma_hunk_marked(last: Seq<Seq<char>>, hunk: HunkModel)
    requires
        is_hunk_written(last, hunk),
        !hunk.has_end_of_file_marker,
    ensures
        is_hunk_written(
            last.push("*** End of File"@),
            HunkModel { has_end_of_file_marker: true, ..hunk },
        ),
{
    let longer = last.push("*** End of File"@);
    assert(longer.skip(1).drop_last() == last.skip(1));
    assert(longer.skip(1).last() == "*** End of File"@);
    reveal(Seq::filter);
    assert(without_markers(longer.skip(1)) == without_markers(last.skip(1)));
}

/// One part more in a row.
proof fn lemma_row(parts: Seq<Seq<Seq<char>>>, part: Seq<Seq<char>>)
    ensures
        in_a_row(parts.push(part)) == in_a_row(parts) + part,
{
    assert(parts.push(part).drop_last() == parts);
}

/// What was read of an update with the hunk closed that was open.
proof fn lemma_closed(read: Seq<Seq<char>>, draft: DraftModel, done: DraftModel)
    requires
        is_draft_of(read, draft),
        closed(draft) == Ok::<DraftModel, ParseErrorModel>(done),
    ensures
        is_draft_of(read, done),
        done.open is None,
        done.move_to == draft.move_to,
{
    let (moving, parts, last) = choose|
        moving: Seq<Seq<char>>,
        parts: Seq<Seq<Seq<char>>>,
        last: Seq<Seq<char>>,
    | #[trigger]
        is_draft_written(read, draft, moving, parts, last);
    if let Some((_, hunk)) = draft.open {
        let more = parts.push(last);
        lemma_row(parts, last);
        assert(moving + in_a_row(more) + Seq::<Seq<char>>::empty() == moving + in_a_row(parts)
            + last);
        assert(is_draft_written(read, done, moving, more, seq![]));
    }
}

/// One line more of an update.
proof fn lemma_draft_line(
    path: Seq<char>,
    read: Seq<Seq<char>>,
    draft: DraftModel,
    line: Seq<char>,
    line_no: int,
    next: DraftModel,
)
    requires
        is_draft_of(read, draft),
        draft_line(path, draft, line, line_no) == Ok::<DraftModel, ParseErrorModel>(next),
    ensures
        is_draft_of(read.push(line), next),
{
    let (moving, parts, last) = choose|
        moving: Seq<Seq<char>>,
        parts: Seq<Seq<Seq<char>>>,
        last: Seq<Seq<char>>,
    | #[trigger]
        is_draft_written(read, draft, moving, parts, last);
    let longer = read.push(line);
    match after_prefix(line, "*** Move to: "@) {
        Some(target) => {
            assert(in_a_row(parts).len() == 0);
            assert(longer == seq![line] + in_a_row(parts) + last);
            assert(is_draft_written(longer, next, seq![line], parts, last));
        },
        None => match after_prefix(line, "@@"@) {
            Some(rest) => {
                let done = closed(draft)->Ok_0;
                lemma_closed(read, draft, done);
                let (moving, parts, last) = choose|
                    moving: Seq<Seq<char>>,
                    parts: Seq<Seq<Seq<char>>>,
                    last: Seq<Seq<char>>,
                | #[trigger]
                    is_draft_written(read, done, moving, parts, last);
                assert(longer == moving + in_a_row(parts) + seq![line]);
                let hunk = (next.open->0).1;
                assert(seq![line].skip(1) == Seq::<Seq<char>>::empty());
                reveal(Seq::filter);
                assert(without_markers(seq![line].skip(1)) == Seq::<Seq<char>>::empty());
                assert(hunk.lines.map_values(|line: HunkLineModel| rendered_line(line))
                    == Seq::<Seq<char>>::empty());
                if hunk.header is None {
                    assert(trimmed(line.skip("@@"@.len() as int)) == Seq::<char>::empty());
                }
                assert(is_hunk_written(seq![line], hunk));
                assert(is_draft_written(longer, next, moving, parts, seq![line]));
            },
            None => {
                let (opened, hunk) = draft.open->0;
                if line == "*** End of File"@ {
                    lemma_hunk_marked(last, hunk);
                } else {
                    let said = hunk_line(line)->0;
                    assert(line == rendered_line(said)) by {
                        assert(line == seq![line[0]] + line.skip(1));
                    }
                    lemma_hunk_longer(last, hunk, said);
                }
                assert(longer == moving + in_a_row(parts) + last.push(line));
                assert(is_draft_written(longer, next, moving, parts, last.push(line)));
            },
        },
    }
}

/// All lines of an update.
proof fn lemma_draft_lines(
    path: Seq<char>,
    draft: DraftModel,
    lines: Seq<Seq<char>>,
    start: int,
    index: int,
    end: int,
    done: DraftModel,
)
    requires
        0 <= start <= index <= end <= lines.len(),
        is_draft_of(lines.subrange(start, index), draft),
        draft_lines(path, draft, lines, index, end) == Ok::<DraftModel, ParseErrorModel>(done),
    ensures
        is_draft_of(lines.subrange(start, end), done),
    decreases end - index,
{
    if index < end {
        let next = draft_line(path, draft, lines[index], index + 1)->Ok_0;
        lemma_draft_line(
            path,
            lines.subrange(start, index),
            draft,
            lines[index],
            index + 1,
            next,
        );
        assert(lines.subrange(start, index).push(lines[index]) == lines.subrange(start, index + 1));
        lemma_draft_lines(path, next, lines, start, index + 1, end, done);
    }
}

/// Lines that are added up to the first that is not.
proof fn lemma_added(lines: Seq<Seq<char>>, index: int, end: int)
    requires
        first_not_added(lines, index, end) >= end,
    ensures
        forall|i: int| index <= i < end ==> is_added_line(#[trigger] lines[i]),
    decreases end - index,
{
    if index < end {
        lemma_added(lines, index + 1, end);
    }
}

/// The lines of one operation.
pub proof fn lemma_operation_read(
    lines: Seq<Seq<char>>,
    start: int,
    operation: OperationModel,
    next: int,
)
    requires
        0 <= start < lines.len(),
        operation_at(lines, start) == Ok::<(OperationModel, int), ParseErrorModel>(
            (operation, next),
        ),
    ensures
        start < next <= lines.len(),
        is_operation_written(lines.subrange(start, next), operation),
{
    lemma_operation_advances(lines, start);
    lemma_next_boundary(lines, start + 1);
    let part = lines.subrange(start, next);
    assert(part[0] == lines[start]);
    match operation {
        OperationModel::Add { path, lines: added } => {
            lemma_added(lines, start + 1, next);
            assert forall|i: int| 0 <= i < added.len() implies part[i + 1] == seq!['+']
                + #[trigger] added[i] by {
                let line = lines[start + 1 + i];
                assert(is_added_line(line));
                assert(line == seq![line[0]] + line.skip(1));
                assert(part[i + 1] == line);
            }
        },
        OperationModel::Delete { .. } => {},
        OperationModel::Update { path, move_to, hunks } => {
            let draft = draft_lines(path, empty_draft(), lines, start + 1, next)->Ok_0;
            let empty = lines.subrange(start + 1, start + 1);
            assert(empty == Seq::<Seq<char>>::empty());
            assert(is_draft_written(empty, empty_draft(), seq![], seq![], seq![])) by {
                assert(in_a_row(seq![]) == Seq::<Seq<char>>::empty());
                assert(empty == Seq::<Seq<char>>::empty() + in_a_row(seq![]) + Seq::<
                    Seq<char>,
                >::empty());
            }
            lemma_draft_lines(path, empty_draft(), lines, start + 1, start + 1, next, draft);
            let done = closed(draft)->Ok_0;
            let read = lines.subrange(start + 1, next);
            lemma_closed(read, draft, done);
            let (moving, parts, last) = choose|
                moving: Seq<Seq<char>>,
                parts: Seq<Seq<Seq<char>>>,
                last: Seq<Seq<char>>,
            | #[trigger]
                is_draft_written(read, done, moving, parts, last);
            assert(read == moving + in_a_row(parts));
            assert(part.skip(1) == read);
            assert(is_update_written(part.skip(1), move_to, hunks, moving, parts));
        },
    }
}

/// The lines of all operations.
proof fn lemma_operations_read(
    lines: Seq<Seq<char>>,
    index: int,
    taken: Seq<Seq<char>>,
    done: Seq<OperationModel>,
    before: Seq<Seq<Seq<char>>>,
    operations: Seq<OperationModel>,
) -> (r: (Seq<Seq<Seq<char>>>, Seq<Seq<char>>))
    requires
        1 <= index <= lines.len(),
        lines[0] == "*** Begin Patch"@,
        lines.subrange(1, index) == in_a_row(before),
        are_operations_written(before, done),
        operations_from(lines, index, taken, done) == Ok::<Seq<OperationModel>, ParseErrorModel>(
            operations,
        ),
    ensures
        is_patch_written(lines, operations, r.0, r.1),
    decreases lines.len() - index,
{
    if lines[index] == "*** End Patch"@ {
        let blank = lines.skip(index + 1);
        assert(lines == seq!["*** Begin Patch"@] + lines.subrange(1, index) + seq![
            "*** End Patch"@,
        ] + blank);
        assert forall|i: int| 0 <= i < blank.len() implies trimmed(#[trigger] blank[i]).len() == 0 by {
            assert(blank[i] == lines[index + 1 + i]);
        }
        (before, blank)
    } else {
        let (operation, next) = operation_at(lines, index)->Ok_0;
        lemma_operation_read(lines, index, operation, next);
        let part = lines.subrange(index, next);
        let more = before.push(part);
        lemma_row(before, part);
        assert(lines.subrange(1, index) + part == lines.subrange(1, next));
        let now_taken = claimed(claims(operation), index + 1, taken)->Ok_0;
        assert forall|i: int| 0 <= i < done.push(operation).len() implies is_operation_written(
            #[trigger] more[i],
            done.push(operation)[i],
        ) by {
            if i < done.len() {
                assert(more[i] == before[i]);
            }
        }
        lemma_operations_read(lines, next, now_taken, done.push(operation), more, operations)
    }
}

/// A patch that was read says what its operations say, line by line: there is no
/// line that does not belong to one of them, and each belongs where it stands.
pub proof fn law_every_line_is_accounted_for(text: Seq<char>, operations: Seq<OperationModel>) -> (r: (
    Seq<Seq<Seq<char>>>,
    Seq<Seq<char>>,
))
    requires
        patch_of(text) == Ok::<Seq<OperationModel>, ParseErrorModel>(operations),
    ensures
        is_patch_written(lines_of(text), operations, r.0, r.1),
{
    let lines = lines_of(text);
    assert(lines.subrange(1, 1) == Seq::<Seq<char>>::empty());
    assert(in_a_row(seq![]) == Seq::<Seq<char>>::empty());
    lemma_operations_read(lines, 1, seq![], seq![], seq![], operations)
}

} // verus!
