//! Writing a patch out, and reading it back.

use crate::apply_patch::document::{
    HunkLineModel, HunkModel, OperationModel, ParseErrorModel, PatchLineKind,
};
use crate::apply_patch::grammar::{
    add_file_at, claimed, claims, closed, draft_line, draft_lines, empty_draft, first_not_added,
    hunk_header, hunk_line, is_added_line, is_boundary, next_boundary, operation_at,
    operations_from, patch_of, update_file_at, DraftModel,
};
use crate::apply_patch::laws::{all_claims, is_proper_operation, is_proper_path, lemma_joined_first};
use crate::text::chars::{after_prefix, trimmed, trimmed_start, white_space};
use crate::text::lines::{joined, lemma_first_of_is, lines_of, without_carriage_return};
use vstd::prelude::*;

verus! {

/// The line of a patch for a line of a hunk.
pub open spec fn rendered_line(line: HunkLineModel) -> Seq<char> {
    match line.kind {
        PatchLineKind::Context => seq![' '] + line.text,
        PatchLineKind::Add => seq!['+'] + line.text,
        PatchLineKind::Remove => seq!['-'] + line.text,
    }
}

/// The line that opens a hunk.
pub open spec fn rendered_header(header: Option<Seq<char>>) -> Seq<char> {
    match header {
        Some(text) => "@@ "@ + text,
        None => "@@"@,
    }
}

/// The lines of a hunk, without the one that opens it.
pub open spec fn rendered_body(hunk: HunkModel) -> Seq<Seq<char>> {
    let lines = Seq::new(hunk.lines.len(), |i: int| rendered_line(hunk.lines[i]));
    if hunk.has_end_of_file_marker {
        lines.push("*** End of File"@)
    } else {
        lines
    }
}

/// The lines of a hunk.
pub open spec fn rendered_hunk(hunk: HunkModel) -> Seq<Seq<char>> {
    seq![rendered_header(hunk.header)] + rendered_body(hunk)
}

/// The lines of hunks, one after the other.
pub open spec fn rendered_hunks(hunks: Seq<HunkModel>) -> Seq<Seq<char>>
    decreases hunks.len(),
{
    if hunks.len() == 0 {
        seq![]
    } else {
        rendered_hunk(hunks.first()) + rendered_hunks(hunks.drop_first())
    }
}

/// The line that names the place a file is moved to, if it is moved.
pub open spec fn rendered_move(move_to: Option<Seq<char>>) -> Seq<Seq<char>> {
    match move_to {
        Some(target) => seq!["*** Move to: "@ + target],
        None => seq![],
    }
}

/// The lines of an operation.
pub open spec fn rendered_operation(operation: OperationModel) -> Seq<Seq<char>> {
    match operation {
        OperationModel::Add { path, lines } => seq!["*** Add File: "@ + path] + Seq::new(
            lines.len(),
            |i: int| seq!['+'] + lines[i],
        ),
        OperationModel::Delete { path } => seq!["*** Delete File: "@ + path],
        OperationModel::Update { path, move_to, hunks } => seq!["*** Update File: "@ + path]
            + rendered_move(move_to) + rendered_hunks(hunks),
    }
}

/// The lines of operations, one after the other, and of the end of a patch.
pub open spec fn rendered_operations(operations: Seq<OperationModel>) -> Seq<Seq<char>>
    decreases operations.len(),
{
    if operations.len() == 0 {
        seq!["*** End Patch"@]
    } else {
        rendered_operation(operations.first()) + rendered_operations(operations.drop_first())
    }
}

/// The text of a patch with these operations.
pub open spec fn rendered_patch(operations: Seq<OperationModel>) -> Seq<char> {
    joined(seq!["*** Begin Patch"@] + rendered_operations(operations), seq!['\n'])
}

/// A text that can stand in a line of its own: it holds no line feed, and no
/// carriage return at its end, which would go with the end of the line.
pub open spec fn is_one_line(text: Seq<char>) -> bool {
    !text.contains('\n') && (text.len() > 0 ==> text.last() != '\r')
}

/// A hunk that can be written out: each text is one line, and the header is
/// nothing but its text.
pub open spec fn is_printable_hunk(hunk: HunkModel) -> bool {
    &&& hunk.header matches Some(header) ==> is_proper_path(header) && is_one_line(header)
    &&& forall|i: int| 0 <= i < hunk.lines.len() ==> is_one_line((#[trigger] hunk.lines[i]).text)
}

/// An operation that can be written out: each text is one line.
pub open spec fn is_printable_operation(operation: OperationModel) -> bool {
    match operation {
        OperationModel::Add { path, lines } => {
            &&& is_one_line(path)
            &&& forall|i: int| 0 <= i < lines.len() ==> is_one_line(#[trigger] lines[i])
        },
        OperationModel::Delete { path } => is_one_line(path),
        OperationModel::Update { path, move_to, hunks } => {
            &&& is_one_line(path)
            &&& move_to matches Some(target) ==> is_one_line(target)
            &&& forall|i: int| 0 <= i < hunks.len() ==> is_printable_hunk(#[trigger] hunks[i])
        },
    }
}

/// Whether `part` stands in `lines` from `index` on.
spec fn stands_at(lines: Seq<Seq<char>>, index: int, part: Seq<Seq<char>>) -> bool {
    &&& 0 <= index
    &&& index + part.len() <= lines.len()
    &&& forall|i: int| 0 <= i < part.len() ==> #[trigger] lines[index + i] == part[i]
}

/// Of two parts that stand there, each stands where it should.
proof fn lemma_stands_at(
    lines: Seq<Seq<char>>,
    index: int,
    first: Seq<Seq<char>>,
    second: Seq<Seq<char>>,
)
    requires
        stands_at(lines, index, first + second),
    ensures
        stands_at(lines, index, first),
        stands_at(lines, index + first.len(), second),
{
    let both = first + second;
    assert forall|i: int| 0 <= i < first.len() implies #[trigger] lines[index + i] == first[i] by {
        assert(both[i] == first[i]);
    }
    assert forall|i: int| 0 <= i < second.len() implies #[trigger] lines[index + first.len() + i]
        == second[i] by {
        assert(lines[index + (first.len() + i)] == both[first.len() + i]);
    }
}

/// What follows a prefix is found behind it.
pub proof fn lemma_after_prefix(prefix: Seq<char>, rest: Seq<char>)
    ensures
        after_prefix(prefix + rest, prefix) == Some(rest),
{
    assert((prefix + rest).subrange(0, prefix.len() as int) == prefix);
    assert((prefix + rest).skip(prefix.len() as int) == rest);
}

/// A text whose first character differs does not start with a prefix.
proof fn lemma_other_prefix(text: Seq<char>, prefix: Seq<char>, at: int)
    requires
        0 <= at < prefix.len(),
        at < text.len() ==> text[at] != prefix[at],
    ensures
        after_prefix(text, prefix) is None,
        !prefix.is_prefix_of(text),
{
    if prefix.is_prefix_of(text) {
        assert(text.subrange(0, prefix.len() as int)[at] == text[at]);
    }
}

/// What the words of a patch are made of.
pub proof fn lemma_words()
    ensures
        "*** Begin Patch"@ == seq![
            '*', '*', '*', ' ', 'B', 'e', 'g', 'i', 'n', ' ', 'P', 'a', 't', 'c', 'h',
        ],
        "*** End Patch"@ == seq![
            '*', '*', '*', ' ', 'E', 'n', 'd', ' ', 'P', 'a', 't', 'c', 'h',
        ],
        "*** Add File: "@ == seq![
            '*', '*', '*', ' ', 'A', 'd', 'd', ' ', 'F', 'i', 'l', 'e', ':', ' ',
        ],
        "*** Delete File: "@ == seq![
            '*', '*', '*', ' ', 'D', 'e', 'l', 'e', 't', 'e', ' ', 'F', 'i', 'l', 'e', ':', ' ',
        ],
        "*** Update File: "@ == seq![
            '*', '*', '*', ' ', 'U', 'p', 'd', 'a', 't', 'e', ' ', 'F', 'i', 'l', 'e', ':', ' ',
        ],
        "*** Move to: "@ == seq![
            '*', '*', '*', ' ', 'M', 'o', 'v', 'e', ' ', 't', 'o', ':', ' ',
        ],
        "*** End of File"@ == seq![
            '*', '*', '*', ' ', 'E', 'n', 'd', ' ', 'o', 'f', ' ', 'F', 'i', 'l', 'e',
        ],
        "@@"@ == seq!['@', '@'],
        "@@ "@ == seq!['@', '@', ' '],
{
    reveal_strlit("*** Begin Patch");
    reveal_strlit("*** End Patch");
    reveal_strlit("*** Add File: ");
    reveal_strlit("*** Delete File: ");
    reveal_strlit("*** Update File: ");
    reveal_strlit("*** Move to: ");
    reveal_strlit("*** End of File");
    reveal_strlit("@@");
    reveal_strlit("@@ ");
}

/// A line that starts with another character than the words of a patch is no
/// boundary.
pub proof fn lemma_no_word(line: Seq<char>)
    requires
        line.len() > 0,
        line[0] != '*',
    ensures
        !is_boundary(line),
        after_prefix(line, "*** Move to: "@) is None,
        line != "*** End of File"@,
{
    lemma_words();
    lemma_other_prefix(line, "*** Add File: "@, 0);
    lemma_other_prefix(line, "*** Delete File: "@, 0);
    lemma_other_prefix(line, "*** Update File: "@, 0);
    lemma_other_prefix(line, "*** Move to: "@, 0);
    assert("*** End Patch"@[0] == '*');
    assert("*** End of File"@[0] == '*');
}

/// The words in front of a path tell operations apart.
pub proof fn lemma_operation_words(path: Seq<char>)
    ensures
        after_prefix("*** Add File: "@ + path, "*** Add File: "@) == Some(path),
        after_prefix("*** Delete File: "@ + path, "*** Add File: "@) is None,
        after_prefix("*** Delete File: "@ + path, "*** Delete File: "@) == Some(path),
        after_prefix("*** Update File: "@ + path, "*** Add File: "@) is None,
        after_prefix("*** Update File: "@ + path, "*** Delete File: "@) is None,
        after_prefix("*** Update File: "@ + path, "*** Update File: "@) == Some(path),
        is_boundary("*** Add File: "@ + path),
        is_boundary("*** Delete File: "@ + path),
        is_boundary("*** Update File: "@ + path),
        "*** Add File: "@ + path != "*** End Patch"@,
        "*** Delete File: "@ + path != "*** End Patch"@,
        "*** Update File: "@ + path != "*** End Patch"@,
        !is_boundary("*** Move to: "@ + path),
        !is_boundary("*** End of File"@),
        after_prefix("*** End of File"@, "*** Move to: "@) is None,
        after_prefix("*** End of File"@, "@@"@) is None,
{
    lemma_words();
    lemma_after_prefix("*** Add File: "@, path);
    lemma_after_prefix("*** Delete File: "@, path);
    lemma_after_prefix("*** Update File: "@, path);
    lemma_other_prefix("*** Delete File: "@ + path, "*** Add File: "@, 4);
    lemma_other_prefix("*** Update File: "@ + path, "*** Add File: "@, 4);
    lemma_other_prefix("*** Update File: "@ + path, "*** Delete File: "@, 4);
    assert(("*** Add File: "@ + path)[4] == 'A');
    assert(("*** Delete File: "@ + path)[4] == 'D');
    assert(("*** Update File: "@ + path)[4] == 'U');
    assert("*** End Patch"@[4] == 'E');
    let moved = "*** Move to: "@ + path;
    assert(moved[4] == 'M');
    lemma_other_prefix(moved, "*** Add File: "@, 4);
    lemma_other_prefix(moved, "*** Delete File: "@, 4);
    lemma_other_prefix(moved, "*** Update File: "@, 4);
    let end = "*** End of File"@;
    lemma_other_prefix(end, "*** Add File: "@, 4);
    lemma_other_prefix(end, "*** Delete File: "@, 4);
    lemma_other_prefix(end, "*** Update File: "@, 4);
    lemma_other_prefix(end, "*** Move to: "@, 4);
    lemma_other_prefix(end, "@@"@, 0);
    assert(end[8] == 'o' && "*** End Patch"@[8] == 'P');
}

/// The next boundary is where the first one stands.
pub proof fn lemma_next_boundary_is(lines: Seq<Seq<char>>, index: int, at: int)
    requires
        index <= at < lines.len(),
        is_boundary(lines[at]),
        forall|i: int| index <= i < at ==> !is_boundary(#[trigger] lines[i]),
    ensures
        next_boundary(lines, index) == at,
    decreases at - index,
{
    if index < at {
        lemma_next_boundary_is(lines, index + 1, at);
    }
}

/// Where all lines are added, none is found that is not.
pub proof fn lemma_all_added(lines: Seq<Seq<char>>, index: int, end: int)
    requires
        index <= end,
        forall|i: int| index <= i < end ==> is_added_line(#[trigger] lines[i]),
    ensures
        first_not_added(lines, index, end) == end,
    decreases end - index,
{
    if index < end {
        lemma_all_added(lines, index + 1, end);
    }
}

/// The lines of a hunk are read as they are.
pub proof fn lemma_rendered_line(line: HunkLineModel)
    ensures
        rendered_line(line).len() > 0,
        rendered_line(line)[0] != '*',
        rendered_line(line)[0] != '@',
        hunk_line(rendered_line(line)) == Some(line),
{
    assert(rendered_line(line).skip(1) == line.text);
}

/// The header of a hunk is read as it is.
proof fn lemma_rendered_header(header: Option<Seq<char>>)
    requires
        header matches Some(text) ==> is_proper_path(text),
    ensures
        after_prefix(rendered_header(header), "@@"@) matches Some(rest) && hunk_header(rest)
            == header,
        rendered_header(header).len() > 0,
        rendered_header(header)[0] == '@',
{
    lemma_words();
    match header {
        None => {
            let empty = Seq::<char>::empty();
            lemma_after_prefix("@@"@, empty);
            assert("@@"@ + empty == "@@"@);
            assert(trimmed_start(empty) == empty);
            assert(trimmed(empty) == empty);
        },
        Some(text) => {
            let rest = seq![' '] + text;
            lemma_after_prefix("@@"@, rest);
            assert("@@"@ + rest == "@@ "@ + text);
            assert(white_space(' '));
            assert(rest.drop_first() == text);
            assert(trimmed_start(rest) == trimmed_start(text));
        },
    }
}

/// Reading lines of a hunk adds them to the hunk that is open.
proof fn lemma_body_read(
    path: Seq<char>,
    draft: DraftModel,
    body: Seq<HunkLineModel>,
    lines: Seq<Seq<char>>,
    index: int,
    end: int,
)
    requires
        draft.open is Some,
        index + body.len() <= end,
        forall|i: int|
            0 <= i < body.len() ==> #[trigger] lines[index + i] == rendered_line(body[i]),
    ensures
        ({
            let (opened, hunk) = draft.open->0;
            let more = HunkModel { lines: hunk.lines + body, ..hunk };
            draft_lines(path, draft, lines, index, end) == draft_lines(
                path,
                DraftModel { open: Some((opened, more)), ..draft },
                lines,
                index + body.len(),
                end,
            )
        }),
    decreases body.len(),
{
    let (opened, hunk) = draft.open->0;
    if body.len() == 0 {
        assert(hunk.lines + body == hunk.lines);
    } else {
        let line = body[0];
        lemma_rendered_line(line);
        lemma_no_word(rendered_line(line));
        lemma_words();
        lemma_other_prefix(rendered_line(line), "@@"@, 0);
        assert(lines[index + 0] == rendered_line(line));
        let next = DraftModel {
            open: Some((opened, HunkModel { lines: hunk.lines.push(line), ..hunk })),
            ..draft
        };
        assert(draft_line(path, draft, lines[index], index + 1) == Ok::<
            DraftModel,
            ParseErrorModel,
        >(next));
        let rest = body.drop_first();
        assert forall|i: int| 0 <= i < rest.len() implies #[trigger] lines[index + 1 + i]
            == rendered_line(rest[i]) by {
            assert(lines[index + (i + 1)] == rendered_line(body[i + 1]));
        }
        lemma_body_read(path, next, rest, lines, index + 1, end);
        assert(hunk.lines.push(line) + rest == hunk.lines + body);
    }
}

/// What a draft comes to once its open hunk is done.
pub open spec fn closes_to(draft: DraftModel, move_to: Option<Seq<char>>, hunks: Seq<HunkModel>) -> bool {
    closed(draft) == Ok::<DraftModel, ParseErrorModel>(DraftModel { move_to, hunks, open: None })
}

/// Reading one hunk adds it to those that are done.
proof fn lemma_hunk_read(
    path: Seq<char>,
    draft: DraftModel,
    move_to: Option<Seq<char>>,
    done: Seq<HunkModel>,
    hunk: HunkModel,
    lines: Seq<Seq<char>>,
    index: int,
    end: int,
) -> (after: DraftModel)
    requires
        closes_to(draft, move_to, done),
        is_printable_hunk(hunk),
        hunk.lines.len() > 0,
        stands_at(lines, index, rendered_hunk(hunk)),
        index + rendered_hunk(hunk).len() <= end,
    ensures
        closes_to(after, move_to, done.push(hunk)),
        draft_lines(path, draft, lines, index, end) == draft_lines(
            path,
            after,
            lines,
            index + rendered_hunk(hunk).len(),
            end,
        ),
{
    let opening = seq![rendered_header(hunk.header)];
    let body = rendered_body(hunk);
    let count = hunk.lines.len();
    lemma_stands_at(lines, index, opening, body);
    lemma_rendered_header(hunk.header);
    lemma_no_word(rendered_header(hunk.header));
    assert(lines[index + 0] == opening[0]);
    let bare = HunkModel { header: hunk.header, lines: seq![], has_end_of_file_marker: false };
    let opened = DraftModel { move_to, hunks: done, open: Some((index + 1, bare)) };
    assert(draft_line(path, draft, lines[index], index + 1) == Ok::<DraftModel, ParseErrorModel>(
        opened,
    ));
    assert forall|i: int| 0 <= i < count implies #[trigger] lines[index + 1 + i] == rendered_line(
        hunk.lines[i],
    ) by {
        assert(lines[index + opening.len() + i] == body[i]);
    }
    lemma_body_read(path, opened, hunk.lines, lines, index + 1, end);
    assert(bare.lines + hunk.lines == hunk.lines);
    let full = DraftModel {
        open: Some((index + 1, HunkModel { lines: hunk.lines, ..bare })),
        ..opened
    };
    if hunk.has_end_of_file_marker {
        let at = index + 1 + count;
        lemma_operation_words(path);
        assert(lines[index + opening.len() + count] == body[count as int]);
        let marked = DraftModel { open: Some((index + 1, hunk)), ..opened };
        assert(draft_line(path, full, lines[at], at + 1) == Ok::<DraftModel, ParseErrorModel>(
            marked,
        ));
        marked
    } else {
        full
    }
}

/// Reading hunks adds them to those that are done.
proof fn lemma_hunks_read(
    path: Seq<char>,
    draft: DraftModel,
    move_to: Option<Seq<char>>,
    done: Seq<HunkModel>,
    hunks: Seq<HunkModel>,
    lines: Seq<Seq<char>>,
    index: int,
    end: int,
)
    requires
        closes_to(draft, move_to, done),
        forall|i: int|
            0 <= i < hunks.len() ==> is_printable_hunk(#[trigger] hunks[i]) && hunks[i].lines.len()
                > 0,
        stands_at(lines, index, rendered_hunks(hunks)),
        index + rendered_hunks(hunks).len() == end,
    ensures
        draft_lines(path, draft, lines, index, end) matches Ok(after) && closes_to(
            after,
            move_to,
            done + hunks,
        ),
    decreases hunks.len(),
{
    if hunks.len() == 0 {
        assert(done + hunks == done);
    } else {
        let first = hunks[0];
        let rest = hunks.drop_first();
        lemma_stands_at(lines, index, rendered_hunk(first), rendered_hunks(rest));
        let after = lemma_hunk_read(path, draft, move_to, done, first, lines, index, end);
        assert forall|i: int| 0 <= i < rest.len() implies is_printable_hunk(#[trigger] rest[i])
            && rest[i].lines.len() > 0 by {
            assert(rest[i] == hunks[i + 1]);
        }
        lemma_hunks_read(
            path,
            after,
            move_to,
            done.push(first),
            rest,
            lines,
            index + rendered_hunk(first).len(),
            end,
        );
        assert(done.push(first) + rest == done + hunks);
    }
}

/// No line of a hunk is a boundary.
proof fn lemma_hunks_have_no_boundary(hunks: Seq<HunkModel>)
    requires
        forall|i: int| 0 <= i < hunks.len() ==> is_printable_hunk(#[trigger] hunks[i]),
    ensures
        forall|i: int|
            0 <= i < rendered_hunks(hunks).len() ==> !is_boundary(
                #[trigger] rendered_hunks(hunks)[i],
            ),
    decreases hunks.len(),
{
    if hunks.len() > 0 {
        let first = hunks[0];
        let rest = hunks.drop_first();
        assert forall|i: int| 0 <= i < rest.len() implies is_printable_hunk(#[trigger] rest[i]) by {
            assert(rest[i] == hunks[i + 1]);
        }
        lemma_hunks_have_no_boundary(rest);
        let block = rendered_hunk(first);
        let all = rendered_hunks(hunks);
        assert forall|i: int| 0 <= i < all.len() implies !is_boundary(#[trigger] all[i]) by {
            if i >= block.len() {
                assert(all[i] == rendered_hunks(rest)[i - block.len()]);
            } else if i == 0 {
                lemma_rendered_header(first.header);
                lemma_no_word(rendered_header(first.header));
                assert(all[i] == rendered_header(first.header));
            } else if i - 1 < first.lines.len() {
                lemma_rendered_line(first.lines[i - 1]);
                lemma_no_word(rendered_line(first.lines[i - 1]));
                assert(all[i] == rendered_body(first)[i - 1]);
                assert(all[i] == rendered_line(first.lines[i - 1]));
            } else {
                lemma_operation_words(Seq::empty());
                assert(all[i] == rendered_body(first)[i - 1]);
                assert(all[i] == "*** End of File"@);
            }
        }
    }
}

/// An operation that was written out is read back, if another one or the end of
/// the patch follows.
proof fn lemma_operation_read(operation: OperationModel, lines: Seq<Seq<char>>, start: int)
    requires
        is_proper_operation(operation),
        is_printable_operation(operation),
        stands_at(lines, start, rendered_operation(operation)),
        start + rendered_operation(operation).len() < lines.len(),
        is_boundary(lines[start + rendered_operation(operation).len()]),
    ensures
        operation_at(lines, start) == Ok::<(OperationModel, int), ParseErrorModel>(
            (operation, start + rendered_operation(operation).len()),
        ),
        lines[start] != "*** End Patch"@,
{
    let block = rendered_operation(operation);
    let end = start + block.len();
    match operation {
        OperationModel::Add { path, lines: added } => {
            lemma_operation_words(path);
            assert(lines[start + 0] == block[0]);
            assert forall|i: int| start + 1 <= i < end implies is_added_line(#[trigger] lines[i])
                && !is_boundary(lines[i]) && lines[i].skip(1) == added[i - start - 1] by {
                assert(lines[start + (i - start)] == block[i - start]);
                assert(block[i - start] == seq!['+'] + added[i - start - 1]);
                lemma_no_word(lines[i]);
                assert((seq!['+'] + added[i - start - 1]).skip(1) == added[i - start - 1]);
            }
            lemma_next_boundary_is(lines, start + 1, end);
            lemma_all_added(lines, start + 1, end);
            let read = Seq::new((end - start - 1) as nat, |i: int| lines[start + 1 + i].skip(1));
            assert forall|i: int| 0 <= i < added.len() implies #[trigger] read[i] == added[i] by {
                assert(lines[start + 1 + i].skip(1) == added[i]);
            }
            assert(read == added);
            assert(add_file_at(lines, start, path) == Ok::<(OperationModel, int), ParseErrorModel>(
                (operation, end),
            ));
        },
        OperationModel::Delete { path } => {
            lemma_operation_words(path);
            assert(lines[start + 0] == block[0]);
        },
        OperationModel::Update { path, move_to, hunks } => {
            lemma_operation_words(path);
            let opening = seq!["*** Update File: "@ + path];
            let moving = rendered_move(move_to);
            let rest = rendered_hunks(hunks);
            assert(block == opening + (moving + rest));
            lemma_stands_at(lines, start, opening, moving + rest);
            lemma_stands_at(lines, start + 1, moving, rest);
            assert(lines[start + 0] == opening[0]);
            lemma_hunks_have_no_boundary(hunks);
            assert forall|i: int| start + 1 <= i < end implies !is_boundary(#[trigger] lines[i]) by {
                if i < start + 1 + moving.len() {
                    assert(lines[start + 1 + (i - start - 1)] == moving[i - start - 1]);
                    lemma_operation_words(move_to->0);
                } else {
                    let k = i - start - 1 - moving.len();
                    assert(lines[start + 1 + moving.len() + k] == rest[k]);
                }
            }
            lemma_next_boundary_is(lines, start + 1, end);
            let begun = DraftModel { move_to, hunks: seq![], open: None };
            match move_to {
                None => {
                    assert(begun == empty_draft());
                },
                Some(target) => {
                    lemma_after_prefix("*** Move to: "@, target);
                    assert(lines[start + 1 + 0] == moving[0]);
                    assert(draft_line(path, empty_draft(), lines[start + 1], start + 2) == Ok::<
                        DraftModel,
                        ParseErrorModel,
                    >(begun));
                },
            }
            lemma_hunks_read(
                path,
                begun,
                move_to,
                seq![],
                hunks,
                lines,
                start + 1 + moving.len(),
                end,
            );
            assert(Seq::<HunkModel>::empty() + hunks == hunks);
            assert(update_file_at(lines, start, path) == Ok::<
                (OperationModel, int),
                ParseErrorModel,
            >((operation, end)));
        },
    }
}

/// Paths that are not taken yet, each wanted once, can be taken.
pub proof fn lemma_claims_taken(wanted: Seq<Seq<char>>, line_no: int, taken: Seq<Seq<char>>)
    requires
        (taken + wanted).no_duplicates(),
    ensures
        claimed(wanted, line_no, taken) == Ok::<Seq<Seq<char>>, ParseErrorModel>(taken + wanted),
    decreases wanted.len(),
{
    if wanted.len() == 0 {
        assert(taken + wanted == taken);
    } else {
        let all = taken + wanted;
        let first = wanted.first();
        if taken.contains(first) {
            let i = choose|i: int| 0 <= i < taken.len() && taken[i] == first;
            assert(all[i] == all[taken.len() as int]);
        }
        assert(taken.push(first) + wanted.drop_first() == all);
        lemma_claims_taken(wanted.drop_first(), line_no, taken.push(first));
    }
}

/// The claims of operations are those of the first and those of the rest.
proof fn lemma_claims_of_rest(done: Seq<OperationModel>, operations: Seq<OperationModel>)
    requires
        operations.len() > 0,
    ensures
        all_claims(done.push(operations.first())) == all_claims(done) + claims(operations.first()),
        done + operations == done.push(operations.first()) + operations.drop_first(),
{
    assert(done.push(operations.first()).drop_last() == done);
    assert(done + operations == done.push(operations.first()) + operations.drop_first());
}

/// The claims of fewer operations are claimed once as well.
pub proof fn lemma_fewer_claims(operations: Seq<OperationModel>, count: int)
    requires
        0 <= count <= operations.len(),
        all_claims(operations).no_duplicates(),
    ensures
        all_claims(operations.take(count)).no_duplicates(),
    decreases operations.len(),
{
    if count == operations.len() {
        assert(operations.take(count) == operations);
    } else {
        let shorter = all_claims(operations.drop_last());
        let all = all_claims(operations);
        assert(all == shorter + claims(operations.last()));
        assert forall|i: int, j: int|
            0 <= i < shorter.len() && 0 <= j < shorter.len() && i != j implies shorter[i]
            != shorter[j] by {
            assert(all[i] == shorter[i] && all[j] == shorter[j]);
        }
        lemma_fewer_claims(operations.drop_last(), count);
        assert(operations.drop_last().take(count) == operations.take(count));
    }
}

/// Operations that were written out are read back.
proof fn lemma_operations_read(
    all: Seq<OperationModel>,
    done: Seq<OperationModel>,
    operations: Seq<OperationModel>,
    lines: Seq<Seq<char>>,
    index: int,
)
    requires
        all == done + operations,
        all_claims(all).no_duplicates(),
        forall|i: int|
            0 <= i < all.len() ==> is_proper_operation(#[trigger] all[i])
                && is_printable_operation(all[i]),
        stands_at(lines, index, rendered_operations(operations)),
        index + rendered_operations(operations).len() == lines.len(),
    ensures
        operations_from(lines, index, all_claims(done), done) == Ok::<
            Seq<OperationModel>,
            ParseErrorModel,
        >(all),
        rendered_operations(operations).len() > 0,
        is_boundary(rendered_operations(operations)[0]),
    decreases operations.len(),
{
    if operations.len() == 0 {
        assert(lines[index + 0] == rendered_operations(operations)[0]);
        assert(done == all);
    } else {
        let first = operations.first();
        let rest = operations.drop_first();
        let block = rendered_operation(first);
        let next = index + block.len();
        assert(all[done.len() as int] == first);
        lemma_stands_at(lines, index, block, rendered_operations(rest));
        lemma_claims_of_rest(done, operations);
        lemma_operations_read(all, done.push(first), rest, lines, next);
        assert(lines[next + 0] == rendered_operations(rest)[0]);
        lemma_operation_read(first, lines, index);
        lemma_fewer_claims(all, done.len() as int + 1);
        assert(all.take(done.len() as int + 1) == done.push(first));
        lemma_claims_taken(claims(first), index + 1, all_claims(done));
        let path = match first {
            OperationModel::Add { path, .. } => path,
            OperationModel::Delete { path } => path,
            OperationModel::Update { path, .. } => path,
        };
        lemma_operation_words(path);
        assert(rendered_operations(operations)[0] == block[0]);
    }
}

/// Lines that were joined fall into the same lines, if each can stand in a line
/// of its own and the last one is not empty.
proof fn lemma_lines_of_joined(list: Seq<Seq<char>>)
    requires
        list.len() > 0,
        forall|i: int| 0 <= i < list.len() ==> is_one_line(#[trigger] list[i]),
        list.last().len() > 0,
    ensures
        lines_of(joined(list, seq!['\n'])) == list,
    decreases list.len(),
{
    let first = list[0];
    let whole = joined(list, seq!['\n']);
    assert(is_one_line(first));
    assert(forall|i: int| 0 <= i < first.len() ==> first.contains(#[trigger] first[i]));
    if list.len() == 1 {
        lemma_first_of_is(whole, '\n', first.len() as int);
        assert(list == seq![first]);
    } else {
        let rest = list.drop_first();
        assert(list == seq![first] + rest);
        lemma_joined_first(first, rest, seq!['\n']);
        assert forall|i: int| 0 <= i < rest.len() implies is_one_line(#[trigger] rest[i]) by {
            assert(rest[i] == list[i + 1]);
        }
        lemma_lines_of_joined(rest);
        let cut = first.len() as int;
        assert(whole[cut] == '\n');
        assert(forall|i: int| 0 <= i < cut ==> whole[i] == first[i]);
        lemma_first_of_is(whole, '\n', cut);
        assert(whole.take(cut) == first);
        assert(without_carriage_return(first) == first);
        assert(whole.skip(cut + 1) == joined(rest, seq!['\n']));
    }
}

/// One line put behind another text makes one line.
proof fn lemma_one_line(start: Seq<char>, text: Seq<char>)
    requires
        is_one_line(start),
        is_one_line(text),
    ensures
        is_one_line(start + text),
{
    let both = start + text;
    if both.contains('\n') {
        let i = choose|i: int| 0 <= i < both.len() && both[i] == '\n';
        if i < start.len() {
            assert(start.contains(start[i]));
        } else {
            assert(text.contains(text[i - start.len()]));
        }
    }
}

/// Whether each text is one line.
spec fn are_one_line(lines: Seq<Seq<char>>) -> bool {
    forall|i: int| 0 <= i < lines.len() ==> is_one_line(#[trigger] lines[i])
}

/// Two lists of lines make one.
proof fn lemma_more_lines(first: Seq<Seq<char>>, second: Seq<Seq<char>>)
    requires
        are_one_line(first),
        are_one_line(second),
    ensures
        are_one_line(first + second),
{
    let both = first + second;
    assert forall|i: int| 0 <= i < both.len() implies is_one_line(#[trigger] both[i]) by {
        if i < first.len() {
            assert(both[i] == first[i]);
        } else {
            assert(both[i] == second[i - first.len()]);
        }
    }
}

/// Each word of a patch is one line.
proof fn lemma_words_are_one_line()
    ensures
        is_one_line("*** Begin Patch"@),
        is_one_line("*** End Patch"@),
        is_one_line("*** Add File: "@),
        is_one_line("*** Delete File: "@),
        is_one_line("*** Update File: "@),
        is_one_line("*** Move to: "@),
        is_one_line("*** End of File"@),
        is_one_line("@@"@),
        is_one_line("@@ "@),
        is_one_line(seq![' ']),
        is_one_line(seq!['+']),
        is_one_line(seq!['-']),
{
    lemma_words();
}

/// Each line of a hunk is one line.
proof fn lemma_hunks_are_lines(hunks: Seq<HunkModel>)
    requires
        forall|i: int| 0 <= i < hunks.len() ==> is_printable_hunk(#[trigger] hunks[i]),
    ensures
        are_one_line(rendered_hunks(hunks)),
    decreases hunks.len(),
{
    if hunks.len() > 0 {
        let first = hunks[0];
        let rest = hunks.drop_first();
        assert forall|i: int| 0 <= i < rest.len() implies is_printable_hunk(#[trigger] rest[i]) by {
            assert(rest[i] == hunks[i + 1]);
        }
        lemma_hunks_are_lines(rest);
        lemma_words_are_one_line();
        assert(is_one_line(rendered_header(first.header))) by {
            if let Some(header) = first.header {
                lemma_one_line("@@ "@, header);
            }
        }
        let body = rendered_body(first);
        assert forall|i: int| 0 <= i < body.len() implies is_one_line(#[trigger] body[i]) by {
            if i < first.lines.len() {
                let line = first.lines[i];
                assert(is_one_line(line.text));
                lemma_one_line(seq![' '], line.text);
                lemma_one_line(seq!['+'], line.text);
                lemma_one_line(seq!['-'], line.text);
                assert(body[i] == rendered_line(line));
            } else {
                assert(body[i] == "*** End of File"@);
            }
        }
        let opening = seq![rendered_header(first.header)];
        assert(are_one_line(opening));
        lemma_more_lines(opening, body);
        lemma_more_lines(rendered_hunk(first), rendered_hunks(rest));
    }
}

/// Each line of an operation is one line.
proof fn lemma_operation_is_lines(operation: OperationModel)
    requires
        is_printable_operation(operation),
    ensures
        are_one_line(rendered_operation(operation)),
{
    lemma_words_are_one_line();
    match operation {
        OperationModel::Add { path, lines } => {
            lemma_one_line("*** Add File: "@, path);
            let opening = seq!["*** Add File: "@ + path];
            let added = Seq::new(lines.len(), |i: int| seq!['+'] + lines[i]);
            assert(are_one_line(opening));
            assert forall|i: int| 0 <= i < added.len() implies is_one_line(#[trigger] added[i]) by {
                assert(is_one_line(lines[i]));
                lemma_one_line(seq!['+'], lines[i]);
            }
            lemma_more_lines(opening, added);
        },
        OperationModel::Delete { path } => lemma_one_line("*** Delete File: "@, path),
        OperationModel::Update { path, move_to, hunks } => {
            lemma_one_line("*** Update File: "@, path);
            let opening = seq!["*** Update File: "@ + path];
            assert(are_one_line(opening));
            if let Some(target) = move_to {
                lemma_one_line("*** Move to: "@, target);
            }
            assert(are_one_line(rendered_move(move_to)));
            lemma_hunks_are_lines(hunks);
            lemma_more_lines(opening, rendered_move(move_to));
            lemma_more_lines(opening + rendered_move(move_to), rendered_hunks(hunks));
        },
    }
}

/// Each line of a patch is one line, and the last one is not empty.
proof fn lemma_operations_are_lines(operations: Seq<OperationModel>)
    requires
        forall|i: int|
            0 <= i < operations.len() ==> is_printable_operation(#[trigger] operations[i]),
    ensures
        are_one_line(rendered_operations(operations)),
        rendered_operations(operations).len() > 0,
        rendered_operations(operations).last() == "*** End Patch"@,
    decreases operations.len(),
{
    if operations.len() == 0 {
        lemma_words_are_one_line();
    } else {
        let rest = operations.drop_first();
        assert forall|i: int| 0 <= i < rest.len() implies is_printable_operation(
            #[trigger] rest[i],
        ) by {
            assert(rest[i] == operations[i + 1]);
        }
        assert(operations[0] == operations.first());
        lemma_operations_are_lines(rest);
        lemma_operation_is_lines(operations.first());
        lemma_more_lines(rendered_operation(operations.first()), rendered_operations(rest));
    }
}

/// A patch that is written out is read back as it was: if its operations are
/// proper, claim no path twice, and have texts that can each stand in a line.
pub proof fn law_patch_is_read_back(operations: Seq<OperationModel>)
    requires
        all_claims(operations).no_duplicates(),
        forall|i: int|
            0 <= i < operations.len() ==> is_proper_operation(#[trigger] operations[i])
                && is_printable_operation(operations[i]),
    ensures
        patch_of(rendered_patch(operations)) == Ok::<Seq<OperationModel>, ParseErrorModel>(
            operations,
        ),
{
    let opening = seq!["*** Begin Patch"@];
    let rest = rendered_operations(operations);
    let lines = opening + rest;
    lemma_operations_are_lines(operations);
    lemma_words_are_one_line();
    lemma_words();
    assert(are_one_line(opening));
    lemma_more_lines(opening, rest);
    assert(lines.last() == rest.last());
    assert("*** End Patch"@.len() > 0);
    lemma_lines_of_joined(lines);
    assert(stands_at(lines, 0, lines));
    lemma_stands_at(lines, 0, opening, rest);
    assert(Seq::<OperationModel>::empty() + operations == operations);
    lemma_operations_read(operations, seq![], operations, lines, 1);
    assert(lines[0] == "*** Begin Patch"@);
}

} // verus!
