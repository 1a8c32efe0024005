//! Every patch that says something proper is read.

use crate::apply_patch::document::{HunkLineModel, HunkModel, OperationModel, ParseErrorModel};
use crate::apply_patch::grammar::{
    add_file_at, claims, draft_line, draft_lines, empty_draft, hunk_header, is_added_line,
    is_boundary, operation_at, operations_from, patch_of, update_file_at, DraftModel,
};
use crate::apply_patch::laws::{all_claims, is_proper_operation};
use crate::apply_patch::reading::{
    are_hunks_written, in_a_row, is_end_marker, is_headed, is_hunk_written, is_operation_written,
    is_patch_written, is_update_written, without_markers,
};
use crate::apply_patch::round_trip::{
    closes_to, lemma_all_added, lemma_claims_taken, lemma_fewer_claims, lemma_next_boundary_is,
    lemma_no_word, lemma_operation_words, lemma_rendered_line, lemma_words, rendered_line,
};
use crate::text::chars::{after_prefix, trimmed};
use crate::text::lines::lines_of;
use vstd::prelude::*;

verus! {

/// Whether `part` stands in `lines` from `index` on.
spec fn is_at(lines: Seq<Seq<char>>, index: int, part: Seq<Seq<char>>) -> bool {
    &&& 0 <= index
    &&& index + part.len() <= lines.len()
    &&& forall|i: int| 0 <= i < part.len() ==> #[trigger] part[i] == lines[index + i]
}

/// The lines of a hunk, as a patch writes them.
spec fn written(lines: Seq<HunkLineModel>) -> Seq<Seq<char>> {
    lines.map_values(|line: HunkLineModel| rendered_line(line))
}

/// Each line of a hunk is a marker, or one of its own.
proof fn lemma_body_lines(body: Seq<Seq<char>>, lines: Seq<HunkLineModel>)
    requires
        without_markers(body) == written(lines),
    ensures
        forall|i: int|
            0 <= i < body.len() ==> is_end_marker(#[trigger] body[i]) || (body[i].len() > 0
                && body[i][0] != '*'),
    decreases body.len(),
{
    if body.len() > 0 {
        reveal(Seq::filter);
        let shorter = body.drop_last();
        if is_end_marker(body.last()) {
            assert(without_markers(shorter) == written(lines));
            lemma_body_lines(shorter, lines);
        } else {
            assert(without_markers(body) == without_markers(shorter).push(body.last()));
            assert(lines.len() > 0);
            assert(written(lines).last() == rendered_line(lines.last()));
            lemma_rendered_line(lines.last());
            assert(written(lines.drop_last()) == written(lines).drop_last());
            assert(without_markers(shorter) == written(lines.drop_last()));
            lemma_body_lines(shorter, lines.drop_last());
        }
        assert forall|i: int| 0 <= i < body.len() implies is_end_marker(#[trigger] body[i]) || (
        body[i].len() > 0 && body[i][0] != '*') by {
            if i < shorter.len() {
                assert(shorter[i] == body[i]);
            }
        }
    }
}

/// The first line of a body and the rest of it.
proof fn lemma_first_of_body(body: Seq<Seq<char>>)
    requires
        body.len() > 0,
    ensures
        is_end_marker(body[0]) ==> without_markers(body) == without_markers(body.drop_first()),
        !is_end_marker(body[0]) ==> without_markers(body) == seq![body[0]] + without_markers(
            body.drop_first(),
        ),
{
    let keeps = |line: Seq<char>| !is_end_marker(line);
    let first = seq![body[0]];
    assert(body == first + body.drop_first());
    Seq::filter_distributes_over_add(first, body.drop_first(), keeps);
    reveal(Seq::filter);
    assert(first.drop_last() == Seq::<Seq<char>>::empty());
    assert(first.drop_last().filter(keeps) == Seq::<Seq<char>>::empty());
    if is_end_marker(body[0]) {
        assert(first.filter(keeps) == Seq::<Seq<char>>::empty());
        assert(Seq::<Seq<char>>::empty() + body.drop_first().filter(keeps)
            == body.drop_first().filter(keeps));
    } else {
        assert(first.filter(keeps) == first);
    }
}

/// The lines of an open hunk are read, wherever the marker stands.
proof fn lemma_body(
    path: Seq<char>,
    draft: DraftModel,
    opened: int,
    hunk: HunkModel,
    body: Seq<Seq<char>>,
    more: Seq<HunkLineModel>,
    lines: Seq<Seq<char>>,
    index: int,
    end: int,
)
    requires
        draft.open == Some((opened, hunk)),
        is_at(lines, index, body),
        index + body.len() <= end,
        without_markers(body) == written(more),
        body.len() == more.len() || (body.len() == more.len() + 1 && !hunk.has_end_of_file_marker),
    ensures
        draft_lines(path, draft, lines, index, end) == draft_lines(
            path,
            DraftModel {
                open: Some(
                    (
                        opened,
                        HunkModel {
                            header: hunk.header,
                            lines: hunk.lines + more,
                            has_end_of_file_marker: hunk.has_end_of_file_marker || body.len()
                                > more.len(),
                        },
                    ),
                ),
                ..draft
            },
            lines,
            index + body.len(),
            end,
        ),
    decreases body.len(),
{
    if body.len() == 0 {
        assert(hunk.lines + more == hunk.lines);
    } else {
        let line = body[0];
        let rest = body.drop_first();
        assert(line == lines[index]);
        lemma_first_of_body(body);
        assert forall|i: int| 0 <= i < rest.len() implies #[trigger] rest[i] == lines[index + 1 + i] by {
            assert(rest[i] == body[i + 1]);
        }
        lemma_words();
        if is_end_marker(line) {
            lemma_operation_words(path);
            let marked = HunkModel { has_end_of_file_marker: true, ..hunk };
            lemma_filter_len(rest);
            assert(body.len() == more.len() + 1);
            assert(after_prefix(line, "@@"@) is None) by {
                if "@@"@.is_prefix_of(line) {
                    assert(line.subrange(0, 2)[0] == line[0]);
                }
            }
            let next = DraftModel { open: Some((opened, marked)), ..draft };
            assert(draft_line(path, draft, line, index + 1) == Ok::<DraftModel, ParseErrorModel>(
                next,
            ));
            lemma_body(path, next, opened, marked, rest, more, lines, index + 1, end);
        } else {
            assert(more.len() > 0);
            assert(written(more)[0] == rendered_line(more[0]));
            assert(line == rendered_line(more[0]));
            lemma_rendered_line(more[0]);
            lemma_no_word(line);
            assert(after_prefix(line, "@@"@) is None) by {
                if "@@"@.is_prefix_of(line) {
                    assert(line.subrange(0, 2)[0] == line[0]);
                }
            }
            let longer = HunkModel { lines: hunk.lines.push(more[0]), ..hunk };
            let next = DraftModel { open: Some((opened, longer)), ..draft };
            assert(draft_line(path, draft, line, index + 1) == Ok::<DraftModel, ParseErrorModel>(
                next,
            ));
            let fewer = more.drop_first();
            assert(without_markers(rest) == written(fewer)) by {
                assert(without_markers(rest) == written(more).drop_first());
                assert(written(fewer) == written(more).drop_first());
            }
            lemma_body(path, next, opened, longer, rest, fewer, lines, index + 1, end);
            assert(longer.lines + fewer == hunk.lines + more);
        }
    }
}

/// Taking markers away makes nothing longer.
proof fn lemma_filter_len(body: Seq<Seq<char>>)
    ensures
        without_markers(body).len() <= body.len(),
{
    body.lemma_filter_len(|line: Seq<char>| !is_end_marker(line));
}

/// One hunk is read, and added to those that are done.
proof fn lemma_hunk(
    path: Seq<char>,
    draft: DraftModel,
    move_to: Option<Seq<char>>,
    done: Seq<HunkModel>,
    hunk: HunkModel,
    part: Seq<Seq<char>>,
    lines: Seq<Seq<char>>,
    index: int,
    end: int,
) -> (after: DraftModel)
    requires
        closes_to(draft, move_to, done),
        is_hunk_written(part, hunk),
        hunk.lines.len() > 0,
        is_at(lines, index, part),
        index + part.len() <= end,
    ensures
        closes_to(after, move_to, done.push(hunk)),
        draft_lines(path, draft, lines, index, end) == draft_lines(
            path,
            after,
            lines,
            index + part.len(),
            end,
        ),
{
    let line = part[0];
    let body = part.skip(1);
    assert(line == lines[index]);
    lemma_words();
    assert(line[0] == '@') by {
        assert(line.subrange(0, 2)[0] == line[0]);
    }
    lemma_no_word(line);
    let rest = line.skip(2);
    assert(after_prefix(line, "@@"@) == Some(rest));
    assert(hunk_header(rest) == hunk.header);
    let fresh = HunkModel { header: hunk.header, lines: seq![], has_end_of_file_marker: false };
    let next = DraftModel { move_to, hunks: done, open: Some((index + 1, fresh)) };
    assert(draft_line(path, draft, line, index + 1) == Ok::<DraftModel, ParseErrorModel>(next));
    assert forall|i: int| 0 <= i < body.len() implies #[trigger] body[i] == lines[index + 1 + i] by {
        assert(body[i] == part[i + 1]);
    }
    lemma_body(path, next, index + 1, fresh, body, hunk.lines, lines, index + 1, end);
    assert(fresh.lines + hunk.lines == hunk.lines);
    let after = DraftModel { move_to, hunks: done, open: Some((index + 1, hunk)) };
    after
}

/// The first parts in a row stand in front of the others.
proof fn lemma_row_begins(parts: Seq<Seq<Seq<char>>>, count: int)
    requires
        0 <= count < parts.len(),
    ensures
        in_a_row(parts.take(count + 1)) == in_a_row(parts.take(count)) + parts[count],
        in_a_row(parts.take(count + 1)).len() <= in_a_row(parts).len(),
        forall|i: int|
            0 <= i < in_a_row(parts.take(count + 1)).len() ==> #[trigger] in_a_row(
                parts.take(count + 1),
            )[i] == in_a_row(parts)[i],
    decreases parts.len(),
{
    assert(parts.take(count + 1).drop_last() == parts.take(count));
    assert(parts.take(count + 1).last() == parts[count]);
    if count + 1 == parts.len() {
        assert(parts.take(count + 1) == parts);
    } else {
        let fewer = parts.drop_last();
        lemma_row_begins(fewer, count);
        assert(fewer.take(count + 1) == parts.take(count + 1));
        assert(fewer.take(count) == parts.take(count));
        assert forall|i: int| 0 <= i < in_a_row(parts.take(count + 1)).len() implies #[trigger] in_a_row(
            parts.take(count + 1),
        )[i] == in_a_row(parts)[i] by {
            assert(in_a_row(fewer)[i] == in_a_row(parts)[i]);
        }
    }
}

/// A part of a row stands where those before it end.
proof fn lemma_part_is_at(
    lines: Seq<Seq<char>>,
    index: int,
    parts: Seq<Seq<Seq<char>>>,
    count: int,
)
    requires
        0 <= count < parts.len(),
        is_at(lines, index, in_a_row(parts)),
    ensures
        is_at(lines, index + in_a_row(parts.take(count)).len(), parts[count]),
        in_a_row(parts.take(count + 1)).len() == in_a_row(parts.take(count)).len()
            + parts[count].len(),
{
    lemma_row_begins(parts, count);
    let before = in_a_row(parts.take(count));
    let part = parts[count];
    assert forall|i: int| 0 <= i < part.len() implies #[trigger] part[i] == lines[index
        + before.len() + i] by {
        let k = before.len() + i;
        assert(in_a_row(parts.take(count + 1))[k] == part[i]);
        assert(in_a_row(parts)[k] == lines[index + k]);
    }
}

/// Hunks are read one after the other.
proof fn lemma_hunks(
    path: Seq<char>,
    move_to: Option<Seq<char>>,
    hunks: Seq<HunkModel>,
    parts: Seq<Seq<Seq<char>>>,
    lines: Seq<Seq<char>>,
    index: int,
    end: int,
    count: int,
) -> (after: DraftModel)
    requires
        0 <= count <= hunks.len(),
        are_hunks_written(parts, hunks),
        forall|i: int| 0 <= i < hunks.len() ==> (#[trigger] hunks[i]).lines.len() > 0,
        is_at(lines, index, in_a_row(parts)),
        index + in_a_row(parts).len() == end,
    ensures
        closes_to(after, move_to, hunks.take(count)),
        draft_lines(
            path,
            DraftModel { move_to, hunks: seq![], open: None },
            lines,
            index,
            end,
        ) == draft_lines(
            path,
            after,
            lines,
            index + in_a_row(parts.take(count)).len(),
            end,
        ),
    decreases count,
{
    let begun = DraftModel { move_to, hunks: seq![], open: None };
    if count == 0 {
        assert(hunks.take(0) == Seq::<HunkModel>::empty());
        assert(in_a_row(parts.take(0)).len() == 0);
        begun
    } else {
        let before = lemma_hunks(path, move_to, hunks, parts, lines, index, end, count - 1);
        lemma_part_is_at(lines, index, parts, count - 1);
        lemma_row_begins(parts, count - 1);
        assert(is_hunk_written(parts[count - 1], hunks[count - 1]));
        let after = lemma_hunk(
            path,
            before,
            move_to,
            hunks.take(count - 1),
            hunks[count - 1],
            parts[count - 1],
            lines,
            index + in_a_row(parts.take(count - 1)).len(),
            end,
        );
        assert(hunks.take(count - 1).push(hunks[count - 1]) == hunks.take(count));
        after
    }
}

/// No line of a hunk ends an operation.
proof fn lemma_hunk_has_no_boundary(part: Seq<Seq<char>>, hunk: HunkModel)
    requires
        is_hunk_written(part, hunk),
    ensures
        forall|i: int| 0 <= i < part.len() ==> !is_boundary(#[trigger] part[i]),
{
    let body = part.skip(1);
    lemma_words();
    lemma_body_lines(body, hunk.lines);
    lemma_operation_words(seq![]);
    assert forall|i: int| 0 <= i < part.len() implies !is_boundary(#[trigger] part[i]) by {
        if i == 0 {
            assert(part[0].subrange(0, 2)[0] == part[0][0]);
            lemma_no_word(part[0]);
        } else {
            assert(part[i] == body[i - 1]);
            if !is_end_marker(body[i - 1]) {
                lemma_no_word(body[i - 1]);
            }
        }
    }
}

/// No line of hunks in a row ends an operation.
proof fn lemma_hunks_have_no_boundary(parts: Seq<Seq<Seq<char>>>, hunks: Seq<HunkModel>)
    requires
        are_hunks_written(parts, hunks),
    ensures
        forall|i: int| 0 <= i < in_a_row(parts).len() ==> !is_boundary(#[trigger] in_a_row(parts)[i]),
    decreases parts.len(),
{
    if parts.len() > 0 {
        let fewer = parts.drop_last();
        let last = parts.len() - 1;
        assert forall|i: int| 0 <= i < hunks.drop_last().len() implies is_hunk_written(
            #[trigger] fewer[i],
            hunks.drop_last()[i],
        ) by {
            assert(fewer[i] == parts[i]);
        }
        lemma_hunks_have_no_boundary(fewer, hunks.drop_last());
        assert(is_hunk_written(parts[last], hunks[last]));
        lemma_hunk_has_no_boundary(parts[last], hunks[last]);
        assert forall|i: int| 0 <= i < in_a_row(parts).len() implies !is_boundary(
            #[trigger] in_a_row(parts)[i],
        ) by {
            let before = in_a_row(fewer).len();
            if i < before {
                assert(in_a_row(parts)[i] == in_a_row(fewer)[i]);
            } else {
                assert(in_a_row(parts)[i] == parts[last][i - before]);
            }
        }
    }
}

/// A line with a word in front is the word and what is behind it.
proof fn lemma_headed(line: Seq<char>, word: Seq<char>, said: Seq<char>)
    requires
        is_headed(line, word, said),
    ensures
        line == word + line.skip(word.len() as int),
        after_prefix(line, word) == Some(line.skip(word.len() as int)),
{
    assert(line.subrange(0, word.len() as int) == word);
    assert(line == line.subrange(0, word.len() as int) + line.skip(word.len() as int));
}

/// An update is read.
proof fn lemma_update(
    lines: Seq<Seq<char>>,
    start: int,
    part: Seq<Seq<char>>,
    path: Seq<char>,
    move_to: Option<Seq<char>>,
    hunks: Seq<HunkModel>,
    moving: Seq<Seq<char>>,
    parts: Seq<Seq<Seq<char>>>,
)
    requires
        is_at(lines, start, part),
        part.len() > 0,
        start + part.len() < lines.len(),
        is_boundary(lines[start + part.len()]),
        is_update_written(part.skip(1), move_to, hunks, moving, parts),
        is_proper_operation(OperationModel::Update { path, move_to, hunks }),
    ensures
        update_file_at(lines, start, path) == Ok::<(OperationModel, int), ParseErrorModel>(
            (OperationModel::Update { path, move_to, hunks }, start + part.len()),
        ),
{
    let end = start + part.len();
    let rest = part.skip(1);
    let row = in_a_row(parts);
    let from = start + 1 + moving.len();
    lemma_hunks_have_no_boundary(parts, hunks);
    assert forall|i: int| 0 <= i < rest.len() implies #[trigger] rest[i] == lines[start + 1 + i] by {
        assert(rest[i] == part[i + 1]);
    }
    assert forall|i: int| 0 <= i < row.len() implies #[trigger] row[i] == lines[from + i] by {
        assert(rest[moving.len() + i] == row[i]);
    }
    assert(is_at(lines, from, row));
    if let Some(target) = move_to {
        lemma_headed(moving[0], "*** Move to: "@, target);
        assert(rest[0] == moving[0]);
        lemma_operation_words(moving[0].skip("*** Move to: "@.len() as int));
    }
    assert forall|i: int| start + 1 <= i < end implies !is_boundary(#[trigger] lines[i]) by {
        if i < from {
            assert(rest[0] == lines[start + 1]);
        } else {
            assert(row[i - from] == lines[i]);
        }
    }
    lemma_next_boundary_is(lines, start + 1, end);
    let begun = DraftModel { move_to, hunks: seq![], open: None };
    if let Some(target) = move_to {
        assert(lines[start + 1] == moving[0]);
        assert(draft_line(path, empty_draft(), lines[start + 1], start + 2) == Ok::<
            DraftModel,
            ParseErrorModel,
        >(begun));
        assert(draft_lines(path, empty_draft(), lines, start + 1, end) == draft_lines(
            path,
            begun,
            lines,
            from,
            end,
        ));
    } else {
        assert(begun == empty_draft());
    }
    let after = lemma_hunks(path, move_to, hunks, parts, lines, from, end, hunks.len() as int);
    assert(hunks.take(hunks.len() as int) == hunks);
    assert(parts.take(hunks.len() as int) == parts);
    assert(draft_lines(path, after, lines, end, end) == Ok::<DraftModel, ParseErrorModel>(after));
}

/// One operation is read.
proof fn lemma_operation(
    lines: Seq<Seq<char>>,
    start: int,
    part: Seq<Seq<char>>,
    operation: OperationModel,
)
    requires
        is_at(lines, start, part),
        start + part.len() < lines.len(),
        is_boundary(lines[start + part.len()]),
        is_operation_written(part, operation),
        is_proper_operation(operation),
    ensures
        operation_at(lines, start) == Ok::<(OperationModel, int), ParseErrorModel>(
            (operation, start + part.len()),
        ),
        lines[start] != "*** End Patch"@,
        is_boundary(lines[start]),
{
    let line = part[0];
    let end = start + part.len();
    assert(line == lines[start]);
    match operation {
        OperationModel::Add { path, lines: added } => {
            lemma_headed(line, "*** Add File: "@, path);
            lemma_operation_words(line.skip("*** Add File: "@.len() as int));
            assert forall|i: int| start + 1 <= i < end implies is_added_line(#[trigger] lines[i])
                && !is_boundary(lines[i]) && lines[i].skip(1) == added[i - start - 1] by {
                assert(part[i - start] == lines[start + (i - start)]);
                assert(part[(i - start - 1) + 1] == seq!['+'] + added[i - start - 1]);
                lemma_no_word(lines[i]);
                assert((seq!['+'] + added[i - start - 1]).skip(1) == added[i - start - 1]);
            }
            lemma_next_boundary_is(lines, start + 1, end);
            lemma_all_added(lines, start + 1, end);
            let read = Seq::new((end - start - 1) as nat, |i: int| lines[start + 1 + i].skip(1));
            assert forall|i: int| 0 <= i < added.len() implies #[trigger] read[i] == added[i] by {
                assert(lines[start + 1 + i].skip(1) == added[i]);
            }
            assert(read == added);
            assert(add_file_at(lines, start, path) == Ok::<(OperationModel, int), ParseErrorModel>(
                (operation, end),
            ));
        },
        OperationModel::Delete { path } => {
            lemma_headed(line, "*** Delete File: "@, path);
            lemma_operation_words(line.skip("*** Delete File: "@.len() as int));
        },
        OperationModel::Update { path, move_to, hunks } => {
            lemma_headed(line, "*** Update File: "@, path);
            lemma_operation_words(line.skip("*** Update File: "@.len() as int));
            let (moving, parts) = choose|moving: Seq<Seq<char>>, parts: Seq<Seq<Seq<char>>>|
             #[trigger]
                is_update_written(part.skip(1), move_to, hunks, moving, parts);
            lemma_update(lines, start, part, path, move_to, hunks, moving, parts);
        },
    }
}

/// The operations from `count` on are read.
proof fn lemma_operations(
    lines: Seq<Seq<char>>,
    operations: Seq<OperationModel>,
    parts: Seq<Seq<Seq<char>>>,
    blank: Seq<Seq<char>>,
    count: int,
)
    requires
        0 <= count <= operations.len(),
        is_patch_written(lines, operations, parts, blank),
        all_claims(operations).no_duplicates(),
        forall|i: int| 0 <= i < operations.len() ==> is_proper_operation(#[trigger] operations[i]),
    ensures
        ({
            let index = 1 + in_a_row(parts.take(count)).len();
            &&& index < lines.len()
            &&& is_boundary(lines[index as int])
            &&& operations_from(
                lines,
                index as int,
                all_claims(operations.take(count)),
                operations.take(count),
            ) == Ok::<Seq<OperationModel>, ParseErrorModel>(operations)
        }),
    decreases operations.len() - count,
{
    let row = in_a_row(parts);
    assert forall|i: int| 0 <= i < row.len() implies #[trigger] row[i] == lines[1 + i] by {}
    assert(is_at(lines, 1, row));
    let index = 1 + in_a_row(parts.take(count)).len() as int;
    if count == operations.len() {
        assert(parts.take(count) == parts);
        assert(operations.take(count) == operations);
        assert(lines[index] == "*** End Patch"@);
        assert forall|i: int| index + 1 <= i < lines.len() implies trimmed(
            #[trigger] lines[i],
        ).len() == 0 by {
            assert(lines[i] == blank[i - index - 1]);
        }
    } else {
        let operation = operations[count];
        let part = parts[count];
        lemma_operations(lines, operations, parts, blank, count + 1);
        lemma_part_is_at(lines, 1, parts, count);
        assert(is_operation_written(part, operation));
        lemma_operation(lines, index, part, operation);
        let done = operations.take(count);
        assert(operations.take(count + 1) == done.push(operation));
        assert(done.push(operation).drop_last() == done);
        assert(all_claims(done.push(operation)) == all_claims(done) + claims(operation));
        lemma_fewer_claims(operations, count + 1);
        lemma_claims_taken(claims(operation), index + 1, all_claims(done));
    }
}

/// A text whose lines are those of a patch is read as that patch, if its
/// operations are proper and claim no path twice: white space around a path or
/// the name of a hunk, a marker between the lines of a hunk, lines that end with
/// a carriage return, and blank lines behind the end make no difference.
pub proof fn law_proper_patch_is_read(
    text: Seq<char>,
    operations: Seq<OperationModel>,
    parts: Seq<Seq<Seq<char>>>,
    blank: Seq<Seq<char>>,
)
    requires
        is_patch_written(lines_of(text), operations, parts, blank),
        all_claims(operations).no_duplicates(),
        forall|i: int| 0 <= i < operations.len() ==> is_proper_operation(#[trigger] operations[i]),
    ensures
        patch_of(text) == Ok::<Seq<OperationModel>, ParseErrorModel>(operations),
{
    let lines = lines_of(text);
    lemma_operations(lines, operations, parts, blank, 0);
    assert(in_a_row(parts.take(0)).len() == 0);
    assert(operations.take(0) == Seq::<OperationModel>::empty());
    assert(all_claims(operations.take(0)) == Seq::<Seq<char>>::empty());
    assert(lines[0] == "*** Begin Patch"@);
}

} // verus!
