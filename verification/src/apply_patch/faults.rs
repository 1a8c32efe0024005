//! What is wrong with a patch that cannot be read.

use crate::apply_patch::document::{OperationModel, ParseErrorModel};
use crate::apply_patch::grammar::{
    claimed, claims, draft_line, draft_lines, empty_draft, first_not_added, is_added_line,
    is_boundary, lemma_next_boundary, lemma_operation_advances, misplaced_line, next_boundary,
    normalized_path, operation_at, operations_from, patch_of, DraftModel,
};
use crate::apply_patch::laws::{all_claims, law_patch_is_well_formed};
use crate::apply_patch::reading::{is_headed, is_update_written, lemma_operation_read};
use crate::text::chars::{after_prefix, trimmed};
use crate::text::lines::{first_of, lemma_first_of, lines_of};
use vstd::prelude::*;

verus! {

/// Whether an operation is on the file at `path`, or moves a file there.
pub open spec fn is_on(operation: OperationModel, path: Seq<char>) -> bool {
    match operation {
        OperationModel::Add { path: own, .. } => own == path,
        OperationModel::Delete { path: own } => own == path,
        OperationModel::Update { path: own, move_to, .. } => own == path || move_to == Some(path),
    }
}

/// What an operation is on is among what the operations claim.
proof fn lemma_claim(operations: Seq<OperationModel>, at: int, path: Seq<char>)
    requires
        0 <= at < operations.len(),
        is_on(operations[at], path),
    ensures
        all_claims(operations).contains(path),
    decreases operations.len(),
{
    let shorter = all_claims(operations.drop_last());
    let own = claims(operations.last());
    let all = shorter + own;
    if at == operations.len() - 1 {
        if own[0] == path {
            assert(all[shorter.len() as int] == path);
        } else {
            assert(own[1] == path);
            assert(all[shorter.len() as int + 1] == path);
        }
    } else {
        lemma_claim(operations.drop_last(), at, path);
        let i = choose|i: int| 0 <= i < shorter.len() && shorter[i] == path;
        assert(all[i] == path);
    }
}

/// Where nothing is claimed twice, no two operations are on one path.
proof fn lemma_one_claim(operations: Seq<OperationModel>, first: int, second: int, path: Seq<char>)
    requires
        0 <= first < second < operations.len(),
        all_claims(operations).no_duplicates(),
        is_on(operations[first], path),
    ensures
        !is_on(operations[second], path),
    decreases operations.len(),
{
    let fewer = operations.drop_last();
    let shorter = all_claims(fewer);
    let own = claims(operations.last());
    let all = shorter + own;
    assert(all == all_claims(operations));
    if second < operations.len() - 1 {
        assert forall|i: int, j: int| 0 <= i < shorter.len() && 0 <= j < shorter.len() && i
            != j implies shorter[i] != shorter[j] by {
            assert(all[i] == shorter[i] && all[j] == shorter[j]);
        }
        lemma_one_claim(fewer, first, second, path);
    } else if is_on(operations[second], path) {
        assert(fewer[first] == operations[first]);
        lemma_claim(fewer, first, path);
        let i = choose|i: int| 0 <= i < shorter.len() && shorter[i] == path;
        assert(all[i] == path);
        if own[0] == path {
            assert(all[shorter.len() as int] == path);
        } else {
            assert(own[1] == path);
            assert(all[shorter.len() as int + 1] == path);
        }
        assert(false);
    }
}

/// No two operations of a patch are on one path, be it that of a file or the one
/// that a file is moved to; and none moves a file to where it is.
pub proof fn law_paths_are_named_once(
    text: Seq<char>,
    operations: Seq<OperationModel>,
    first: int,
    second: int,
    path: Seq<char>,
)
    requires
        patch_of(text) == Ok::<Seq<OperationModel>, ParseErrorModel>(operations),
        0 <= first < operations.len(),
        0 <= second < operations.len(),
        is_on(operations[first], path),
        is_on(operations[second], path),
    ensures
        first == second,
        operations[first] matches OperationModel::Update { path: own, move_to, .. } ==> move_to
            != Some(own),
{
    law_patch_is_well_formed(text);
    if first < second {
        lemma_one_claim(operations, first, second, path);
    } else if second < first {
        lemma_one_claim(operations, second, first, path);
    }
}

/// Whether a line begins with a word that a path follows.
pub open spec fn is_header(line: Seq<char>) -> bool {
    ||| "*** Add File: "@.is_prefix_of(line)
    ||| "*** Delete File: "@.is_prefix_of(line)
    ||| "*** Update File: "@.is_prefix_of(line)
}

/// Whether a line names `path`.
pub open spec fn is_naming(line: Seq<char>, path: Seq<char>) -> bool {
    ||| is_headed(line, "*** Add File: "@, path)
    ||| is_headed(line, "*** Delete File: "@, path)
    ||| is_headed(line, "*** Update File: "@, path)
    ||| is_headed(line, "*** Move to: "@, path)
}

/// Whether a line begins as the line of a hunk does.
pub open spec fn is_hunk_like(line: Seq<char>) -> bool {
    line.len() > 0 && (line[0] == ' ' || line[0] == '+' || line[0] == '-')
}

/// Whether the line of that number has the fault that the message tells of.
pub open spec fn is_invalid(lines: Seq<Seq<char>>, line_no: int, message: Seq<char>) -> bool {
    let line = lines[line_no - 1];
    &&& 1 <= line_no <= lines.len()
    &&& {
        ||| message == "patch path must not be empty"@ && is_naming(line, seq![])
        ||| message == "add-file hunks must contain only '+' lines"@ && !(line.len() > 0 && line[0]
            == '+')
        ||| message == "add-file operation must contain at least one '+' line"@
            && "*** Add File: "@.is_prefix_of(line) && (line_no == lines.len() || is_boundary(
            lines[line_no],
        ))
        ||| message == "patch hunks must contain at least one context/add/remove line"@
            && "@@"@.is_prefix_of(line)
        ||| message == "update-file operation may contain only one '*** Move to:' header"@
            && "*** Move to: "@.is_prefix_of(line)
        ||| message == "'*** Move to:' must appear before any hunks"@
            && "*** Move to: "@.is_prefix_of(line)
        ||| message == "move target must differ from source path"@
            && "*** Move to: "@.is_prefix_of(line)
        ||| message == "'*** End of File' requires an active hunk"@ && line == "*** End of File"@
        ||| message == "duplicate '*** End of File' marker in the same hunk"@ && line
            == "*** End of File"@
        ||| message == "update-file hunks must use '@@', ' ', '+', '-', or '*** End of File'"@
            && !is_hunk_like(line) && !"@@"@.is_prefix_of(line) && !"*** "@.is_prefix_of(line)
        ||| message == "update-file operation requires a hunk header before patch lines"@
            && is_hunk_like(line)
        ||| message == "update-file operation must contain at least one hunk"@
            && "*** Update File: "@.is_prefix_of(line)
        ||| message == "expected patch operation header"@ && !"*** "@.is_prefix_of(line)
        ||| message == "unexpected trailing content after '*** End Patch'"@ && line_no >= 2
            && lines[line_no - 2] == "*** End Patch"@ && exists|i: int|
            line_no - 1 <= i < lines.len() && trimmed(#[trigger] lines[i]).len() > 0
    }
}

/// Whether `path` is named in two lines, the later of which belongs to the
/// operation that begins at the line of that number.
pub open spec fn is_named_twice(lines: Seq<Seq<char>>, line_no: int, path: Seq<char>) -> bool {
    exists|i: int, j: int|
        0 <= i < j < lines.len() && i < line_no <= j + 1 && is_naming(#[trigger] lines[i], path)
            && is_naming(#[trigger] lines[j], path)
}

/// Whether a line asks for an operation of that name, which has no colon in it.
pub open spec fn is_asking_for(line: Seq<char>, operation: Seq<char>) -> bool {
    let marked = "*** "@ + operation;
    &&& marked.is_prefix_of(line)
    &&& !operation.contains(':')
    &&& line == marked || line[marked.len() as int] == ':'
}

/// Whether the lines have the fault that an error tells of.
pub open spec fn is_faulty(lines: Seq<Seq<char>>, error: ParseErrorModel) -> bool {
    match error {
        ParseErrorModel::MissingBegin => lines.len() == 0 || lines[0] != "*** Begin Patch"@,
        ParseErrorModel::MissingEnd => forall|i: int|
            1 <= i < lines.len() ==> #[trigger] lines[i] != "*** End Patch"@,
        ParseErrorModel::UnsupportedOperation { line_no, operation } => 1 <= line_no <= lines.len()
            && is_asking_for(lines[line_no - 1], operation),
        ParseErrorModel::InvalidLine { line_no, message } => is_invalid(lines, line_no, message),
        ParseErrorModel::ConflictingPath { line_no, path } => 1 <= line_no <= lines.len()
            && is_header(lines[line_no - 1]) && is_named_twice(lines, line_no, path),
    }
}

/// A line that is out of place is one that asks for an operation that there is
/// not, or asks for none.
proof fn lemma_misplaced(line: Seq<char>, line_no: int, message: Seq<char>)
    ensures
        match misplaced_line(line, line_no, message) {
            ParseErrorModel::UnsupportedOperation { line_no: at, operation } => at == line_no
                && is_asking_for(line, operation),
            ParseErrorModel::InvalidLine { line_no: at, message: said } => at == line_no && said
                == message && !"*** "@.is_prefix_of(line),
            _ => false,
        },
{
    if let Some(value) = after_prefix(line, "*** "@) {
        lemma_first_of(value, ':');
        let cut = first_of(value, ':');
        let operation = value.take(cut);
        let marked = "*** "@ + operation;
        assert(line == "*** "@ + value);
        assert(marked == line.take(marked.len() as int));
        assert forall|i: int| 0 <= i < operation.len() implies operation[i] != ':' by {
            assert(operation[i] == value[i]);
        }
        if cut < value.len() {
            assert(line[marked.len() as int] == value[cut]);
        } else {
            assert(line == marked);
        }
    }
}

/// A path that is refused is an empty one.
proof fn lemma_empty_path(lines: Seq<Seq<char>>, line_no: int, word: Seq<char>)
    requires
        1 <= line_no <= lines.len(),
        after_prefix(lines[line_no - 1], word) is Some,
        word == "*** Add File: "@ || word == "*** Delete File: "@ || word == "*** Update File: "@
            || word == "*** Move to: "@,
    ensures
        normalized_path(after_prefix(lines[line_no - 1], word)->0, line_no) matches Err(error)
            ==> is_faulty(lines, error),
{
    let rest = after_prefix(lines[line_no - 1], word)->0;
    if trimmed(rest).len() == 0 {
        assert(trimmed(rest) == Seq::<char>::empty());
    }
}

/// What is wrong with a line of an update.
proof fn lemma_draft_fault(
    path: Seq<char>,
    draft: DraftModel,
    lines: Seq<Seq<char>>,
    index: int,
    end: int,
)
    requires
        0 <= index <= end <= lines.len(),
        draft.open matches Some((opened, _)) ==> 1 <= opened <= lines.len()
            && "@@"@.is_prefix_of(lines[opened - 1]),
    ensures
        match draft_lines(path, draft, lines, index, end) {
            Ok(done) => done.open matches Some((opened, _)) ==> 1 <= opened <= lines.len()
                && "@@"@.is_prefix_of(lines[opened - 1]),
            Err(error) => is_faulty(lines, error),
        },
    decreases end - index,
{
    if index < end {
        let line = lines[index];
        if after_prefix(line, "*** Move to: "@) is Some {
            lemma_empty_path(lines, index + 1, "*** Move to: "@);
        }
        lemma_misplaced(
            line,
            index + 1,
            "update-file hunks must use '@@', ' ', '+', '-', or '*** End of File'"@,
        );
        if let Ok(next) = draft_line(path, draft, line, index + 1) {
            lemma_draft_fault(path, next, lines, index + 1, end);
        }
    }
}

/// The first line that is not added is no added line.
proof fn lemma_not_added(lines: Seq<Seq<char>>, index: int, end: int)
    ensures
        index <= first_not_added(lines, index, end),
        first_not_added(lines, index, end) < end ==> !is_added_line(
            lines[first_not_added(lines, index, end)],
        ),
    decreases end - index,
{
    if index < end && is_added_line(lines[index]) {
        lemma_not_added(lines, index + 1, end);
    }
}

/// What is wrong with an operation.
proof fn lemma_operation_fault(lines: Seq<Seq<char>>, start: int)
    requires
        0 <= start < lines.len(),
    ensures
        operation_at(lines, start) matches Err(error) ==> is_faulty(lines, error),
{
    let line = lines[start];
    let end = next_boundary(lines, start + 1);
    lemma_next_boundary(lines, start + 1);
    lemma_not_added(lines, start + 1, end);
    if after_prefix(line, "*** Add File: "@) is Some {
        lemma_empty_path(lines, start + 1, "*** Add File: "@);
    } else if after_prefix(line, "*** Delete File: "@) is Some {
        lemma_empty_path(lines, start + 1, "*** Delete File: "@);
    } else if let Some(rest) = after_prefix(line, "*** Update File: "@) {
        lemma_empty_path(lines, start + 1, "*** Update File: "@);
        if let Ok(path) = normalized_path(rest, start + 1) {
            lemma_draft_fault(path, empty_draft(), lines, start + 1, end);
        }
    } else {
        lemma_misplaced(line, start + 1, "expected patch operation header"@);
    }
}

/// Whether every one of `paths` is named in a line from `from` on, but before `to`.
spec fn are_named(lines: Seq<Seq<char>>, from: int, to: int, paths: Seq<Seq<char>>) -> bool {
    forall|k: int|
        0 <= k < paths.len() ==> exists|i: int|
            from <= i < to && is_naming(#[trigger] lines[i], #[trigger] paths[k])
}

/// An operation that was read names what it claims.
proof fn lemma_claims_named(lines: Seq<Seq<char>>, start: int, operation: OperationModel, next: int)
    requires
        0 <= start < lines.len(),
        operation_at(lines, start) == Ok::<(OperationModel, int), ParseErrorModel>(
            (operation, next),
        ),
    ensures
        start < next <= lines.len(),
        are_named(lines, start, next, claims(operation)),
        1 <= claims(operation).len() <= 2,
        is_naming(lines[start], claims(operation)[0]),
        claims(operation).len() == 2 ==> next > start + 1 && is_naming(
            lines[start + 1],
            claims(operation)[1],
        ),
        is_header(lines[start]),
        forall|i: int| start <= i < next ==> #[trigger] lines[i] != "*** End Patch"@,
{
    lemma_operation_advances(lines, start);
    lemma_operation_read(lines, start, operation, next);
    lemma_next_boundary(lines, start + 1);
    let part = lines.subrange(start, next);
    let own = claims(operation);
    assert(part[0] == lines[start]);
    assert(is_naming(lines[start], own[0]));
    if own.len() == 2 {
        if let OperationModel::Update { move_to, hunks, .. } = operation {
            let (moving, parts) = choose|moving: Seq<Seq<char>>, parts: Seq<Seq<Seq<char>>>|
                #[trigger] is_update_written(part.skip(1), move_to, hunks, moving, parts);
            assert(part.skip(1).len() >= 1);
            assert(part.skip(1)[0] == moving[0]);
            assert(lines[start + 1] == moving[0]);
            assert(is_naming(lines[start + 1], own[1]));
        }
    }
    reveal_strlit("*** End Patch");
    reveal_strlit("*** Add File: ");
    reveal_strlit("*** Delete File: ");
    reveal_strlit("*** Update File: ");
    assert(lines[start] != "*** End Patch"@) by {
        assert("*** End Patch"@[4] == 'E');
        assert("*** Add File: "@[4] == 'A');
        assert("*** Delete File: "@[4] == 'D');
        assert("*** Update File: "@[4] == 'U');
    }
}

/// What is wrong with a path that is claimed twice.
proof fn lemma_claim_fault(
    lines: Seq<Seq<char>>,
    start: int,
    next: int,
    wanted: Seq<Seq<char>>,
    taken: Seq<Seq<char>>,
    fresh: Seq<Seq<char>>,
)
    requires
        1 <= start < next <= lines.len(),
        wanted.len() <= 2,
        are_named(lines, start, next, wanted),
        are_named(lines, 1, start, taken),
        is_header(lines[start]),
        fresh.len() > 0 ==> fresh.len() == 1 && is_naming(lines[start], fresh[0]) && wanted.len()
            <= 1 && (wanted.len() == 1 ==> next > start + 1 && is_naming(
            lines[start + 1],
            wanted[0],
        )),
        fresh.len() == 0 && wanted.len() == 2 ==> next > start + 1 && is_naming(
            lines[start],
            wanted[0],
        ) && is_naming(lines[start + 1], wanted[1]),
        fresh.len() == 0 && wanted.len() == 1 ==> is_naming(lines[start], wanted[0]),
    ensures
        claimed(wanted, start + 1, taken + fresh) matches Err(error) ==> is_faulty(lines, error),
    decreases wanted.len(),
{
    if wanted.len() > 0 {
        let path = wanted.first();
        let all = taken + fresh;
        if all.contains(path) {
            let k = choose|k: int| 0 <= k < all.len() && all[k] == path;
            let j: int = if fresh.len() == 0 {
                start
            } else {
                start + 1
            };
            assert(is_naming(lines[j], path));
            if k < taken.len() {
                assert(taken[k] == path);
                let i = choose|i: int| 1 <= i < start && is_naming(
                    #[trigger] lines[i],
                    taken[k],
                );
                assert(0 <= i < j < lines.len() && i < start + 1 <= j + 1);
            } else {
                assert(fresh[0] == path);
                assert(0 <= start < j < lines.len());
            }
            assert(is_named_twice(lines, start + 1, path));
        } else if wanted.len() == 2 {
            let rest = wanted.drop_first();
            assert(rest[0] == wanted[1]);
            assert(are_named(lines, start, next, rest)) by {
                assert forall|k: int| 0 <= k < rest.len() implies exists|i: int|
                    start <= i < next && is_naming(#[trigger] lines[i], #[trigger] rest[k]) by {
                    assert(is_naming(lines[start + 1], rest[k]));
                }
            }
            lemma_claim_fault(lines, start, next, rest, taken, seq![path]);
            assert(taken + seq![path] == all.push(path));
        } else {
            assert(claimed(wanted.drop_first(), start + 1, all.push(path)) is Ok);
        }
    }
}

/// Paths that are taken are those taken before and those wanted.
proof fn lemma_taken(wanted: Seq<Seq<char>>, line_no: int, taken: Seq<Seq<char>>)
    ensures
        claimed(wanted, line_no, taken) matches Ok(now) ==> now == taken + wanted,
    decreases wanted.len(),
{
    if wanted.len() == 0 {
        assert(taken + wanted == taken);
    } else if !taken.contains(wanted.first()) {
        lemma_taken(wanted.drop_first(), line_no, taken.push(wanted.first()));
        assert(taken.push(wanted.first()) + wanted.drop_first() == taken + wanted);
    }
}

/// What is wrong with the operations from a line on.
proof fn lemma_operations_fault(
    lines: Seq<Seq<char>>,
    index: int,
    taken: Seq<Seq<char>>,
    done: Seq<OperationModel>,
)
    requires
        1 <= index <= lines.len(),
        are_named(lines, 1, index, taken),
        forall|i: int| 1 <= i < index ==> #[trigger] lines[i] != "*** End Patch"@,
    ensures
        operations_from(lines, index, taken, done) matches Err(error) ==> is_faulty(lines, error),
    decreases lines.len() - index,
{
    if index < lines.len() {
        if lines[index] == "*** End Patch"@ {
            if operations_from(lines, index, taken, done) is Err {
                let i = choose|i: int|
                    index + 1 <= i < lines.len() && !(trimmed(#[trigger] lines[i]).len() == 0);
                assert(trimmed(lines[i]).len() > 0);
                assert(lines[index + 2 - 2] == "*** End Patch"@);
                assert(is_invalid(
                    lines,
                    index + 2,
                    "unexpected trailing content after '*** End Patch'"@,
                ));
            }
        } else {
            lemma_operation_fault(lines, index);
            if let Ok((operation, next)) = operation_at(lines, index) {
                let own = claims(operation);
                lemma_claims_named(lines, index, operation, next);
                lemma_claim_fault(lines, index, next, own, taken, seq![]);
                assert(taken + Seq::<Seq<char>>::empty() == taken);
                lemma_taken(own, index + 1, taken);
                if let Ok(now) = claimed(own, index + 1, taken) {
                    assert forall|k: int| 0 <= k < now.len() implies exists|i: int|
                        1 <= i < next && is_naming(#[trigger] lines[i], #[trigger] now[k]) by {
                        if k < taken.len() {
                            assert(now[k] == taken[k]);
                            let i = choose|i: int|
                                1 <= i < index && is_naming(#[trigger] lines[i], taken[k]);
                            assert(is_naming(lines[i], now[k]));
                        } else {
                            assert(now[k] == own[k - taken.len()]);
                            let i = choose|i: int|
                                index <= i < next && is_naming(
                                    #[trigger] lines[i],
                                    own[k - taken.len()],
                                );
                            assert(is_naming(lines[i], now[k]));
                        }
                    }
                    lemma_operations_fault(lines, next, now, done.push(operation));
                }
            }
        }
    }
}

/// A patch that cannot be read has the fault that the error tells of, in the line
/// that the error names.
pub proof fn law_error_tells_the_fault(text: Seq<char>, error: ParseErrorModel)
    requires
        patch_of(text) == Err::<Seq<OperationModel>, ParseErrorModel>(error),
    ensures
        is_faulty(lines_of(text), error),
{
    let lines = lines_of(text);
    if lines.len() > 0 {
        lemma_operations_fault(lines, 1, seq![], seq![]);
    }
}

/// A text that does not begin as a patch is told so, whatever else it holds.
pub proof fn law_patch_has_to_begin(text: Seq<char>)
    requires
        lines_of(text).len() == 0 || lines_of(text)[0] != "*** Begin Patch"@,
    ensures
        patch_of(text) == Err::<Seq<OperationModel>, ParseErrorModel>(
            ParseErrorModel::MissingBegin,
        ),
{
}

} // verus!
