//! The effect of hunks on a text.

use crate::apply_patch::document::{
    hunk_lines, hunk_models, HunkLineModel, HunkModel, PatchHunk, PatchHunkLine, PatchLineKind,
};
use crate::apply_patch::errors::{ExecutionErrorModel, PatchExecutionError};
use crate::text::decimal::{append_decimal, decimal};
use crate::text::lines::{join, joined, pieces, split, texts};
use vstd::prelude::*;

verus! {

/// Whether `text` ends with a line feed.
pub open spec fn ends_with_line_feed(text: Seq<char>) -> bool {
    text.len() > 0 && text.last() == '\n'
}

/// The lines of a file. A line feed at the end of the text ends its last line.
pub open spec fn file_lines(text: Seq<char>) -> Seq<Seq<char>> {
    if ends_with_line_feed(text) {
        pieces(text, '\n').drop_last()
    } else {
        pieces(text, '\n')
    }
}

/// The text of a file made of `lines`.
pub open spec fn file_text(lines: Seq<Seq<char>>, line_feed_at_end: bool) -> Seq<char> {
    if line_feed_at_end {
        joined(lines, seq!['\n']).push('\n')
    } else {
        joined(lines, seq!['\n'])
    }
}

/// The lines that a hunk looks for: all but those it adds.
pub open spec fn lines_before(lines: Seq<HunkLineModel>) -> Seq<Seq<char>>
    decreases lines.len(),
{
    if lines.len() == 0 {
        seq![]
    } else if lines.last().kind == PatchLineKind::Add {
        lines_before(lines.drop_last())
    } else {
        lines_before(lines.drop_last()).push(lines.last().text)
    }
}

/// The lines that a hunk leaves: all but those it removes.
pub open spec fn lines_after(lines: Seq<HunkLineModel>) -> Seq<Seq<char>>
    decreases lines.len(),
{
    if lines.len() == 0 {
        seq![]
    } else if lines.last().kind == PatchLineKind::Remove {
        lines_after(lines.drop_last())
    } else {
        lines_after(lines.drop_last()).push(lines.last().text)
    }
}

/// Whether `wanted` stands in `lines` from line `start` on; at the very end of
/// them, where that is asked for.
pub open spec fn matches_at(
    lines: Seq<Seq<char>>,
    wanted: Seq<Seq<char>>,
    start: int,
    must_end_at_eof: bool,
) -> bool {
    &&& 0 <= start
    &&& start + wanted.len() <= lines.len()
    &&& must_end_at_eof ==> start + wanted.len() == lines.len()
    &&& lines.subrange(start, start + wanted.len()) == wanted
}

/// The places from `from` on and before `to` at which `wanted` stands, in order.
pub open spec fn match_starts(
    lines: Seq<Seq<char>>,
    wanted: Seq<Seq<char>>,
    from: int,
    to: int,
    must_end_at_eof: bool,
) -> Seq<int>
    decreases to - from,
{
    if to <= from {
        seq![]
    } else if matches_at(lines, wanted, to - 1, must_end_at_eof) {
        match_starts(lines, wanted, from, to - 1, must_end_at_eof).push(to - 1)
    } else {
        match_starts(lines, wanted, from, to - 1, must_end_at_eof)
    }
}

/// All places at which `wanted` stands from line `search_start` on, in order. A
/// search that starts behind the last line starts at the end.
pub open spec fn all_matches(
    lines: Seq<Seq<char>>,
    wanted: Seq<Seq<char>>,
    search_start: int,
    must_end_at_eof: bool,
) -> Seq<int> {
    match_starts(
        lines,
        wanted,
        if search_start < lines.len() {
            search_start
        } else {
            lines.len() as int
        },
        lines.len() - wanted.len() + 1,
        must_end_at_eof,
    )
}

/// `lines` with those from `start` up to `end` replaced by `new`.
pub open spec fn replaced(
    lines: Seq<Seq<char>>,
    start: int,
    end: int,
    new: Seq<Seq<char>>,
) -> Seq<Seq<char>> {
    lines.take(start) + new + lines.skip(end)
}

/// The lines after a hunk, and the line from which the next hunk is looked for.
/// A hunk is applied at the one place where what it looks for stands; without
/// anything to look for it can only be put at the end of the file.
pub open spec fn hunk_applied(
    lines: Seq<Seq<char>>,
    search_start: int,
    hunk: HunkModel,
    path: Seq<char>,
) -> Result<(Seq<Seq<char>>, int), ExecutionErrorModel> {
    let before = lines_before(hunk.lines);
    let after = lines_after(hunk.lines);
    if before.len() == 0 {
        if hunk.has_end_of_file_marker {
            Ok((lines + after, (lines + after).len() as int))
        } else {
            Err(
                ExecutionErrorModel::HunkApplyFailed {
                    path,
                    reason:
                        "add-only hunks require either context/removal lines or '*** End of File'"@,
                },
            )
        }
    } else {
        let places = all_matches(lines, before, search_start, hunk.has_end_of_file_marker);
        if places.len() == 0 {
            Err(
                ExecutionErrorModel::HunkApplyFailed {
                    path,
                    reason: "could not match hunk anchored by '"@ + before[0] + "'"@,
                },
            )
        } else if places.len() > 1 {
            Err(
                ExecutionErrorModel::HunkAmbiguous {
                    path,
                    reason: "matched "@ + decimal(places.len()) + " locations"@,
                },
            )
        } else {
            Ok((replaced(lines, places[0], places[0] + before.len(), after), places[0] + 1))
        }
    }
}

/// The lines after the first `count` of `hunks`, applied one after the other.
pub open spec fn hunks_applied(
    lines: Seq<Seq<char>>,
    hunks: Seq<HunkModel>,
    count: int,
    path: Seq<char>,
) -> Result<(Seq<Seq<char>>, int), ExecutionErrorModel>
    decreases count,
{
    if count <= 0 {
        Ok((lines, 0))
    } else {
        match hunks_applied(lines, hunks, count - 1, path) {
            Err(error) => Err(error),
            Ok((now, search_start)) => hunk_applied(now, search_start, hunks[count - 1], path),
        }
    }
}

/// The text of the file `path` after `hunks`.
pub open spec fn text_after_hunks(text: Seq<char>, hunks: Seq<HunkModel>, path: Seq<char>) -> Result<
    Seq<char>,
    ExecutionErrorModel,
> {
    match hunks_applied(file_lines(text), hunks, hunks.len() as int, path) {
        Err(error) => Err(error),
        Ok((lines, _)) => Ok(file_text(lines, ends_with_line_feed(text))),
    }
}

/// What came of applying hunks.
pub open spec fn text_outcome(r: Result<String, PatchExecutionError>) -> Result<
    Seq<char>,
    ExecutionErrorModel,
> {
    match r {
        Ok(text) => Ok(text@),
        Err(error) => Err(error@),
    }
}

/// Applying an error once it came up gives the same error.
proof fn lemma_hunk_error_stays(
    lines: Seq<Seq<char>>,
    hunks: Seq<HunkModel>,
    at: int,
    count: int,
    path: Seq<char>,
)
    requires
        0 <= at <= count,
        hunks_applied(lines, hunks, at, path) is Err,
    ensures
        hunks_applied(lines, hunks, count, path) == hunks_applied(lines, hunks, at, path),
    decreases count,
{
    if at < count {
        lemma_hunk_error_stays(lines, hunks, at, count - 1, path);
    }
}

/// The text of the file `path` after `hunks`.
pub fn apply_hunks_to_text(content: &str, hunks: &[PatchHunk], path: &str) -> (r: Result<
    String,
    PatchExecutionError,
>)
    ensures
        text_outcome(r) == text_after_hunks(content@, hunk_models(hunks@), path@),
{
    let (mut lines, had_trailing_newline) = split_text_lines(content);
    let ghost first = texts(lines@);
    let ghost models = hunk_models(hunks@);
    let mut search_start: usize = 0;
    let mut i: usize = 0;
    while i < hunks.len()
        invariant
            i <= hunks@.len(),
            models == hunk_models(hunks@),
            first == file_lines(content@),
            hunks_applied(first, models, i as int, path@) == Ok::<_, ExecutionErrorModel>(
                (texts(lines@), search_start as int),
            ),
        decreases hunks@.len() - i,
    {
        assert(models[i as int] == hunks@[i as int]@);
        match apply_hunk(&mut lines, search_start, &hunks[i], path) {
            Ok(next) => {
                search_start = next;
            },
            Err(error) => {
                proof {
                    lemma_hunk_error_stays(first, models, i + 1, models.len() as int, path@);
                }
                return Err(error);
            },
        }
        i += 1;
    }
    Ok(join_text_lines(lines.as_slice(), had_trailing_newline))
}

/// Applies one hunk to `lines`, and tells from which line the next is looked for.
fn apply_hunk(lines: &mut Vec<String>, search_start: usize, hunk: &PatchHunk, path: &str) -> (r: Result<
    usize,
    PatchExecutionError,
>)
    ensures
        match r {
            Ok(next) => hunk_applied(texts(old(lines)@), search_start as int, hunk@, path@) == Ok::<
                _,
                ExecutionErrorModel,
            >((texts(final(lines)@), next as int)),
            Err(error) => hunk_applied(texts(old(lines)@), search_start as int, hunk@, path@)
                == Err::<(Seq<Seq<char>>, int), _>(error@),
        },
{
    let before_lines = texts_before(&hunk.lines);
    let after_lines = texts_after(&hunk.lines);
    if before_lines.len() == 0 {
        assert(texts(before_lines@).len() == 0);
        if hunk.has_end_of_file_marker {
            let end = lines.len();
            splice(lines, end, end, after_lines);
            assert(texts(lines@) == texts(old(lines)@) + texts(after_lines@));
            return Ok(lines.len());
        }
        return Err(
            PatchExecutionError::HunkApplyFailed {
                path: path.to_string(),
                reason:
                    "add-only hunks require either context/removal lines or '*** End of File'".to_string(),
            },
        );
    }
    assert(texts(before_lines@).len() > 0);
    let matches = find_hunk_matches(
        lines.as_slice(),
        before_lines.as_slice(),
        search_start,
        hunk.has_end_of_file_marker,
    );
    if matches.len() == 0 {
        let mut reason = "could not match hunk anchored by '".to_string();
        reason.append(before_lines[0].as_str());
        reason.append("'");
        return Err(PatchExecutionError::HunkApplyFailed { path: path.to_string(), reason });
    }
    if matches.len() > 1 {
        let mut reason = "matched ".to_string();
        append_decimal(&mut reason, matches.len() as u64);
        reason.append(" locations");
        return Err(PatchExecutionError::HunkAmbiguous { path: path.to_string(), reason });
    }
    let start = matches[0];
    let line_count = lines.len();
    proof {
        let places = all_matches(
            texts(lines@),
            texts(before_lines@),
            search_start as int,
            hunk.has_end_of_file_marker,
        );
        assert(places[0] == places_of(matches@)[0]);
        lemma_match_starts(
            texts(lines@),
            texts(before_lines@),
            if search_start < line_count {
                search_start as int
            } else {
                line_count as int
            },
            lines@.len() - before_lines@.len() + 1,
            hunk.has_end_of_file_marker,
        );
        assert(places.contains(start as int));
    }
    let end = start + before_lines.len();
    splice(lines, start, end, after_lines);
    Ok(start + 1)
}

/// Places as numbers.
pub open spec fn places_of(list: Seq<usize>) -> Seq<int> {
    Seq::new(list.len(), |i: int| list[i] as int)
}

/// `match_starts` lists the places that match, each once and in order.
pub proof fn lemma_match_starts(
    lines: Seq<Seq<char>>,
    wanted: Seq<Seq<char>>,
    from: int,
    to: int,
    must_end_at_eof: bool,
)
    ensures
        forall|p: int| #[trigger]
            match_starts(lines, wanted, from, to, must_end_at_eof).contains(p) <==> from <= p < to
                && matches_at(lines, wanted, p, must_end_at_eof),
        forall|i: int, j: int|
            0 <= i < j < match_starts(lines, wanted, from, to, must_end_at_eof).len()
                ==> match_starts(lines, wanted, from, to, must_end_at_eof)[i] < match_starts(
                lines,
                wanted,
                from,
                to,
                must_end_at_eof,
            )[j],
    decreases to - from,
{
    if from < to {
        lemma_match_starts(lines, wanted, from, to - 1, must_end_at_eof);
        let shorter = match_starts(lines, wanted, from, to - 1, must_end_at_eof);
        let list = match_starts(lines, wanted, from, to, must_end_at_eof);
        assert forall|p: int| #[trigger] list.contains(p) implies from <= p < to && matches_at(
            lines,
            wanted,
            p,
            must_end_at_eof,
        ) by {
            let k = choose|k: int| 0 <= k < list.len() && list[k] == p;
            if k < shorter.len() {
                assert(shorter[k] == p);
                assert(shorter.contains(p));
            }
        }
        assert forall|p: int|
            from <= p < to && matches_at(lines, wanted, p, must_end_at_eof) implies #[trigger] list.contains(
            p,
        ) by {
            if p < to - 1 {
                assert(shorter.contains(p));
                let k = choose|k: int| 0 <= k < shorter.len() && shorter[k] == p;
                assert(list[k] == p);
            } else {
                assert(list[list.len() - 1] == p);
            }
        }
        assert forall|i: int, j: int| 0 <= i < j < list.len() implies list[i] < list[j] by {
            assert(shorter.contains(shorter[i]));
        }
    }
}

/// The lines that a hunk looks for.
fn texts_before(lines: &Vec<PatchHunkLine>) -> (r: Vec<String>)
    ensures
        texts(r@) == lines_before(hunk_lines(lines@)),
{
    let ghost models = hunk_lines(lines@);
    let mut out: Vec<String> = Vec::new();
    let mut i: usize = 0;
    assert(texts(out@) == Seq::<Seq<char>>::empty());
    while i < lines.len()
        invariant
            i <= lines@.len(),
            models == hunk_lines(lines@),
            texts(out@) == lines_before(models.take(i as int)),
        decreases lines@.len() - i,
    {
        let ghost so_far = texts(out@);
        assert(models.take(i + 1).drop_last() == models.take(i as int));
        assert(models.take(i + 1).last() == lines@[i as int]@);
        if lines[i].kind != PatchLineKind::Add {
            out.push(lines[i].text.clone());
            assert(texts(out@) == so_far.push(lines@[i as int].text@));
        }
        i += 1;
    }
    assert(models.take(i as int) == models);
    out
}

/// The lines that a hunk leaves.
fn texts_after(lines: &Vec<PatchHunkLine>) -> (r: Vec<String>)
    ensures
        texts(r@) == lines_after(hunk_lines(lines@)),
{
    let ghost models = hunk_lines(lines@);
    let mut out: Vec<String> = Vec::new();
    let mut i: usize = 0;
    assert(texts(out@) == Seq::<Seq<char>>::empty());
    while i < lines.len()
        invariant
            i <= lines@.len(),
            models == hunk_lines(lines@),
            texts(out@) == lines_after(models.take(i as int)),
        decreases lines@.len() - i,
    {
        let ghost so_far = texts(out@);
        assert(models.take(i + 1).drop_last() == models.take(i as int));
        assert(models.take(i + 1).last() == lines@[i as int]@);
        if lines[i].kind != PatchLineKind::Remove {
            out.push(lines[i].text.clone());
            assert(texts(out@) == so_far.push(lines@[i as int].text@));
        }
        i += 1;
    }
    assert(models.take(i as int) == models);
    out
}

/// Puts `new` in the place of the lines from `start` up to `end`.
fn splice(lines: &mut Vec<String>, start: usize, end: usize, new: Vec<String>)
    requires
        start <= end <= old(lines)@.len(),
    ensures
        texts(final(lines)@) == replaced(
            texts(old(lines)@),
            start as int,
            end as int,
            texts(new@),
        ),
{
    let ghost whole = lines@;
    let mut tail = lines.split_off(end);
    lines.truncate(start);
    let mut new = new;
    let ghost added = new@;
    lines.append(&mut new);
    lines.append(&mut tail);
    assert(lines@ == whole.take(start as int) + added + whole.skip(end as int));
    assert(texts(lines@) == replaced(
        texts(whole),
        start as int,
        end as int,
        texts(added),
    ));
}

/// The lines of a file, and whether its text ends with a line feed.
pub fn split_text_lines(content: &str) -> (r: (Vec<String>, bool))
    ensures
        texts(r.0@) == file_lines(content@),
        r.1 == ends_with_line_feed(content@),
{
    let had_trailing_newline = ends_in_line_feed(content);
    let mut lines = split(content, '\n');
    if had_trailing_newline {
        let ghost all = texts(lines@);
        let ghost whole = lines@;
        let _ = lines.pop();
        proof {
            lemma_pieces_not_empty(content@, '\n');
        }
        assert(lines@ == whole.drop_last());
        assert(texts(lines@) == all.drop_last());
    }
    (lines, had_trailing_newline)
}

/// Text cut at separators has at least one piece.
proof fn lemma_pieces_not_empty(s: Seq<char>, c: char)
    ensures
        pieces(s, c).len() > 0,
{
}

fn ends_in_line_feed(text: &str) -> (r: bool)
    ensures
        r == ends_with_line_feed(text@),
{
    let count = text.unicode_len();
    count > 0 && text.get_char(count - 1) == '\n'
}

/// The text of a file made of `lines`.
pub fn join_text_lines(lines: &[String], had_trailing_newline: bool) -> (r: String)
    ensures
        r@ == file_text(texts(lines@), had_trailing_newline),
{
    proof {
        reveal_strlit("\n");
    }
    assert("\n"@ == seq!['\n']);
    let mut output = join(lines, "\n");
    if had_trailing_newline {
        output.push('\n');
    }
    output
}

/// Whether `wanted` stands in `lines` from line `start` on.
fn stands_at(lines: &[String], wanted: &[String], start: usize) -> (r: bool)
    requires
        start + wanted.len() <= lines.len(),
    ensures
        r == (texts(lines@).subrange(start as int, start + wanted@.len()) == texts(wanted@)),
{
    let ghost part = texts(lines@).subrange(start as int, start + wanted@.len());
    let mut i: usize = 0;
    while i < wanted.len()
        invariant
            i <= wanted@.len(),
            start + wanted.len() <= lines.len(),
            part == texts(lines@).subrange(start as int, start + wanted@.len()),
            forall|j: int| 0 <= j < i ==> part[j] == texts(wanted@)[j],
        decreases wanted@.len() - i,
    {
        if lines[start + i] != wanted[i] {
            assert(part[i as int] != texts(wanted@)[i as int]);
            return false;
        }
        assert(part[i as int] == texts(wanted@)[i as int]);
        i += 1;
    }
    assert(part == texts(wanted@));
    true
}

/// The places at or after `search_start` at which `before_lines` stand, in order.
pub fn find_hunk_matches(
    lines: &[String],
    before_lines: &[String],
    search_start: usize,
    must_end_at_eof: bool,
) -> (r: Vec<usize>)
    ensures
        places_of(r@) == all_matches(
            texts(lines@),
            texts(before_lines@),
            search_start as int,
            must_end_at_eof,
        ),
{
    let mut matches: Vec<usize> = Vec::new();
    assert(places_of(matches@) == Seq::<int>::empty());
    if before_lines.len() > lines.len() {
        return matches;
    }
    let max_start = lines.len() - before_lines.len();
    let first_start = if search_start < lines.len() {
        search_start
    } else {
        lines.len()
    };
    let mut start: usize = first_start;
    while start <= max_start
        invariant_except_break
            first_start <= max_start ==> start <= max_start,
            first_start > max_start ==> start == first_start,
            places_of(matches@) == match_starts(
                texts(lines@),
                texts(before_lines@),
                first_start as int,
                start as int,
                must_end_at_eof,
            ),
        invariant
            max_start + before_lines@.len() == lines@.len(),
            lines@.len() <= usize::MAX,
            first_start <= start,
        ensures
            places_of(matches@) == match_starts(
                texts(lines@),
                texts(before_lines@),
                first_start as int,
                max_start + 1,
                must_end_at_eof,
            ),
        decreases max_start + 1 - start,
    {
        let ghost so_far = places_of(matches@);
        let end = start + before_lines.len();
        if (!must_end_at_eof || end == lines.len()) && stands_at(lines, before_lines, start) {
            matches.push(start);
            assert(places_of(matches@) == so_far.push(start as int));
        }
        if start == max_start {
            break;
        }
        start += 1;
    }
    matches
}

} // verus!
