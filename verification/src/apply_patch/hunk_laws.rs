//! What hunks do to the lines of a file.

use crate::apply_patch::document::{HunkLineModel, HunkModel, PatchLineKind};
use crate::apply_patch::errors::ExecutionErrorModel;
use crate::apply_patch::hunks::{
    all_matches, ends_with_line_feed, file_lines, file_text, hunk_applied, hunks_applied,
    lemma_match_starts, lines_after, lines_before, match_starts, matches_at, text_after_hunks,
};
use crate::apply_patch::laws::{law_file_is_its_lines, lemma_last_piece};
use crate::text::decimal::decimal;
use crate::text::lines::{joined, pieces};
use vstd::prelude::*;

verus! {

/// The texts of the lines that are not of that kind, in their order.
pub open spec fn texts_but(lines: Seq<HunkLineModel>, kind: PatchLineKind) -> Seq<Seq<char>> {
    lines.filter(|line: HunkLineModel| line.kind != kind).map_values(
        |line: HunkLineModel| line.text,
    )
}

/// The texts of all lines, in their order.
pub open spec fn all_texts(lines: Seq<HunkLineModel>) -> Seq<Seq<char>> {
    lines.map_values(|line: HunkLineModel| line.text)
}

/// Whether `wanted` is found in `lines` line by line from `at` on, and up to the
/// last line where that is asked for.
pub open spec fn is_found_at(
    lines: Seq<Seq<char>>,
    wanted: Seq<Seq<char>>,
    at: int,
    at_end: bool,
) -> bool {
    &&& 0 <= at
    &&& at + wanted.len() <= lines.len()
    &&& at_end ==> at + wanted.len() == lines.len()
    &&& forall|i: int| 0 <= i < wanted.len() ==> lines[at + i] == #[trigger] wanted[i]
}

/// Whether a hunk, looked for from line `from` on, turns the lines `old` into
/// the lines `new` at the place `at`: what it keeps or removes stood there and
/// at no other place, and what it keeps or adds stands there now. Where it
/// keeps and removes nothing it is put behind the last line, and has to say so.
pub open spec fn is_put_at(
    hunk: HunkModel,
    old: Seq<Seq<char>>,
    new: Seq<Seq<char>>,
    from: int,
    at: int,
) -> bool {
    let wanted = texts_but(hunk.lines, PatchLineKind::Add);
    let left = texts_but(hunk.lines, PatchLineKind::Remove);
    let at_end = hunk.has_end_of_file_marker;
    &&& is_found_at(old, wanted, at, at_end)
    &&& new == old.take(at) + left + old.skip(at + wanted.len())
    &&& wanted.len() == 0 ==> at_end
    &&& wanted.len() > 0 ==> from <= at && forall|other: int|
        from <= other && #[trigger] is_found_at(old, wanted, other, at_end) ==> other == at
}

/// The way that hunks take through a file: its lines before the first one and
/// after each, and the place of each.
#[verifier::ext_equal]
pub struct HunkWay {
    pub stages: Seq<Seq<Seq<char>>>,
    pub places: Seq<int>,
}

/// The line from which hunk `i` is looked for: the first one; later the one
/// behind the place of the hunk before it, or the end where that was put there.
pub open spec fn looked_from(way: HunkWay, hunks: Seq<HunkModel>, i: int) -> int {
    if i == 0 {
        0
    } else if texts_but(hunks[i - 1].lines, PatchLineKind::Add).len() > 0 {
        way.places[i - 1] + 1
    } else {
        way.stages[i].len() as int
    }
}

/// Whether hunks take this way through a file of these lines.
pub open spec fn is_way(way: HunkWay, lines: Seq<Seq<char>>, hunks: Seq<HunkModel>) -> bool {
    &&& way.stages.len() == hunks.len() + 1
    &&& way.places.len() == hunks.len()
    &&& way.stages[0] == lines
    &&& forall|i: int|
        0 <= i < hunks.len() ==> is_put_at(
            #[trigger] hunks[i],
            way.stages[i],
            way.stages[i + 1],
            looked_from(way, hunks, i),
            way.places[i],
        )
}

/// The lines that a hunk looks for are those it does not add, and the lines that
/// it leaves those it does not remove.
proof fn lemma_texts_but(lines: Seq<HunkLineModel>)
    ensures
        lines_before(lines) == texts_but(lines, PatchLineKind::Add),
        lines_after(lines) == texts_but(lines, PatchLineKind::Remove),
    decreases lines.len(),
{
    reveal(Seq::filter);
    if lines.len() > 0 {
        lemma_texts_but(lines.drop_last());
    }
    assert(lines_before(lines) =~= texts_but(lines, PatchLineKind::Add));
    assert(lines_after(lines) =~= texts_but(lines, PatchLineKind::Remove));
}

/// A place is found line by line where the lines stand as a whole.
proof fn lemma_found_at(lines: Seq<Seq<char>>, wanted: Seq<Seq<char>>, at: int, at_end: bool)
    ensures
        is_found_at(lines, wanted, at, at_end) <==> matches_at(lines, wanted, at, at_end),
{
    if 0 <= at && at + wanted.len() <= lines.len() {
        let part = lines.subrange(at, at + wanted.len());
        if is_found_at(lines, wanted, at, at_end) {
            assert forall|i: int| 0 <= i < wanted.len() implies part[i] == wanted[i] by {
                assert(lines[at + i] == wanted[i]);
            }
            assert(part == wanted);
        }
        if part == wanted {
            assert forall|i: int| 0 <= i < wanted.len() implies lines[at + i] == #[trigger] wanted[i] by {
                assert(part[i] == lines[at + i]);
            }
        }
    }
}

/// The places that are listed are those that are found from `from` on.
proof fn lemma_all_found(
    lines: Seq<Seq<char>>,
    wanted: Seq<Seq<char>>,
    from: int,
    at_end: bool,
)
    requires
        0 <= from,
        wanted.len() > 0,
    ensures
        forall|p: int| #[trigger]
            all_matches(lines, wanted, from, at_end).contains(p) <==> from <= p && is_found_at(
                lines,
                wanted,
                p,
                at_end,
            ),
        forall|i: int, j: int|
            0 <= i < j < all_matches(lines, wanted, from, at_end).len() ==> all_matches(
                lines,
                wanted,
                from,
                at_end,
            )[i] < all_matches(lines, wanted, from, at_end)[j],
{
    let start = if from < lines.len() {
        from
    } else {
        lines.len() as int
    };
    let to = lines.len() - wanted.len() + 1;
    lemma_match_starts(lines, wanted, start, to, at_end);
    assert(all_matches(lines, wanted, from, at_end) == match_starts(
        lines,
        wanted,
        start,
        to,
        at_end,
    ));
    assert forall|p: int| #[trigger]
        all_matches(lines, wanted, from, at_end).contains(p) <==> from <= p && is_found_at(
            lines,
            wanted,
            p,
            at_end,
        ) by {
        lemma_found_at(lines, wanted, p, at_end);
        assert(match_starts(lines, wanted, start, to, at_end).contains(p) <==> start <= p < to
            && matches_at(lines, wanted, p, at_end));
    }
}

/// One hunk is applied exactly where it can be put.
proof fn lemma_put_at(
    hunk: HunkModel,
    old: Seq<Seq<char>>,
    from: int,
    path: Seq<char>,
    new: Seq<Seq<char>>,
    at: int,
)
    requires
        0 <= from,
        is_put_at(hunk, old, new, from, at),
    ensures
        hunk_applied(old, from, hunk, path) == Ok::<_, ExecutionErrorModel>(
            (
                new,
                if texts_but(hunk.lines, PatchLineKind::Add).len() > 0 {
                    at + 1
                } else {
                    new.len() as int
                },
            ),
        ),
{
    lemma_texts_but(hunk.lines);
    let wanted = lines_before(hunk.lines);
    let left = lines_after(hunk.lines);
    if wanted.len() == 0 {
        assert(old.take(at) + left + old.skip(at) == old + left);
    } else {
        let places = all_matches(old, wanted, from, hunk.has_end_of_file_marker);
        lemma_all_found(old, wanted, from, hunk.has_end_of_file_marker);
        assert(places.contains(at));
        if places.len() > 1 {
            assert(places.contains(places[0]) && places.contains(places[1]));
            assert(places[0] == at && places[1] == at);
        }
        assert(places.contains(places[0]));
    }
}

/// Where one hunk was applied it can be put.
proof fn lemma_was_put(
    hunk: HunkModel,
    old: Seq<Seq<char>>,
    from: int,
    path: Seq<char>,
    new: Seq<Seq<char>>,
    next: int,
) -> (at: int)
    requires
        0 <= from,
        hunk_applied(old, from, hunk, path) == Ok::<_, ExecutionErrorModel>((new, next)),
    ensures
        is_put_at(hunk, old, new, from, at),
        next == if texts_but(hunk.lines, PatchLineKind::Add).len() > 0 {
            at + 1
        } else {
            new.len() as int
        },
{
    lemma_texts_but(hunk.lines);
    let wanted = lines_before(hunk.lines);
    let left = lines_after(hunk.lines);
    if wanted.len() == 0 {
        let at = old.len() as int;
        assert(old.take(at) + left + old.skip(at) == old + left);
        at
    } else {
        let places = all_matches(old, wanted, from, hunk.has_end_of_file_marker);
        lemma_all_found(old, wanted, from, hunk.has_end_of_file_marker);
        let at = places[0];
        assert(places.contains(at));
        assert forall|other: int|
            from <= other && #[trigger] is_found_at(
                old,
                wanted,
                other,
                hunk.has_end_of_file_marker,
            ) implies other == at by {
            assert(places.contains(other));
        }
        at
    }
}

/// A way leads on as far as hunks were applied.
proof fn lemma_way_there(
    lines: Seq<Seq<char>>,
    hunks: Seq<HunkModel>,
    count: int,
    path: Seq<char>,
) -> (way: HunkWay)
    requires
        0 <= count <= hunks.len(),
        hunks_applied(lines, hunks, count, path) is Ok,
    ensures
        is_way(way, lines, hunks.take(count)),
        hunks_applied(lines, hunks, count, path) == Ok::<_, ExecutionErrorModel>(
            (way.stages.last(), looked_from(way, hunks.take(count), count)),
        ),
        looked_from(way, hunks.take(count), count) >= 0,
    decreases count,
{
    if count == 0 {
        HunkWay { stages: seq![lines], places: seq![] }
    } else {
        let before = lemma_way_there(lines, hunks, count - 1, path);
        let from = looked_from(before, hunks.take(count - 1), count - 1);
        let hunk = hunks[count - 1];
        let (new, next) = hunks_applied(lines, hunks, count, path)->Ok_0;
        let at = lemma_was_put(hunk, before.stages.last(), from, path, new, next);
        let way = HunkWay { stages: before.stages.push(new), places: before.places.push(at) };
        let some = hunks.take(count);
        let fewer = hunks.take(count - 1);
        assert forall|i: int| 0 <= i < some.len() implies is_put_at(
            #[trigger] some[i],
            way.stages[i],
            way.stages[i + 1],
            looked_from(way, some, i),
            way.places[i],
        ) by {
            if i < fewer.len() {
                assert(fewer[i] == some[i]);
                assert(looked_from(way, some, i) == looked_from(before, fewer, i)) by {
                    if i > 0 {
                        assert(fewer[i - 1] == some[i - 1]);
                    }
                }
            } else {
                if i > 0 {
                    assert(fewer[i - 1] == some[i - 1]);
                }
                assert(looked_from(way, some, i) == from);
            }
        }
        way
    }
}

/// Hunks are applied as far as a way leads.
proof fn lemma_way_back(
    way: HunkWay,
    lines: Seq<Seq<char>>,
    hunks: Seq<HunkModel>,
    count: int,
    path: Seq<char>,
)
    requires
        is_way(way, lines, hunks),
        0 <= count <= hunks.len(),
    ensures
        hunks_applied(lines, hunks, count, path) == Ok::<_, ExecutionErrorModel>(
            (way.stages[count], looked_from(way, hunks, count)),
        ),
        looked_from(way, hunks, count) >= 0,
    decreases count,
{
    if count > 0 {
        lemma_way_back(way, lines, hunks, count - 1, path);
        assert(is_put_at(
            hunks[count - 1],
            way.stages[count - 1],
            way.stages[count],
            looked_from(way, hunks, count - 1),
            way.places[count - 1],
        ));
        lemma_put_at(
            hunks[count - 1],
            way.stages[count - 1],
            looked_from(way, hunks, count - 1),
            path,
            way.stages[count],
            way.places[count - 1],
        );
    }
}

/// Hunks that are applied to a file are put one after the other, each at the one
/// place where it stands behind the one before; nothing else of the file changes.
pub proof fn law_hunks_are_put_in_order(
    text: Seq<char>,
    hunks: Seq<HunkModel>,
    path: Seq<char>,
    out: Seq<char>,
) -> (way: HunkWay)
    requires
        text_after_hunks(text, hunks, path) == Ok::<Seq<char>, ExecutionErrorModel>(out),
    ensures
        is_way(way, file_lines(text), hunks),
        out == file_text(way.stages.last(), ends_with_line_feed(text)),
{
    let way = lemma_way_there(file_lines(text), hunks, hunks.len() as int, path);
    assert(hunks.take(hunks.len() as int) == hunks);
    way
}

/// Hunks that can be put one after the other, each at one place alone, are
/// applied there.
pub proof fn law_hunks_that_stand_are_applied(
    text: Seq<char>,
    hunks: Seq<HunkModel>,
    path: Seq<char>,
    way: HunkWay,
)
    requires
        is_way(way, file_lines(text), hunks),
    ensures
        text_after_hunks(text, hunks, path) == Ok::<Seq<char>, ExecutionErrorModel>(
            file_text(way.stages.last(), ends_with_line_feed(text)),
        ),
{
    lemma_way_back(way, file_lines(text), hunks, hunks.len() as int, path);
}

/// An error stays.
proof fn lemma_error_stays(
    lines: Seq<Seq<char>>,
    hunks: Seq<HunkModel>,
    at: int,
    count: int,
    path: Seq<char>,
)
    requires
        0 <= at <= count,
        hunks_applied(lines, hunks, at, path) is Err,
    ensures
        hunks_applied(lines, hunks, count, path) == hunks_applied(lines, hunks, at, path),
    decreases count,
{
    if at < count {
        lemma_error_stays(lines, hunks, at, count - 1, path);
    }
}

/// The first hunks are applied alike, whatever comes behind them.
proof fn lemma_first_hunks(
    lines: Seq<Seq<char>>,
    hunks: Seq<HunkModel>,
    more: Seq<HunkModel>,
    count: int,
    path: Seq<char>,
)
    requires
        0 <= count <= hunks.len(),
    ensures
        hunks_applied(lines, hunks + more, count, path) == hunks_applied(lines, hunks, count, path),
    decreases count,
{
    if count > 0 {
        lemma_first_hunks(lines, hunks, more, count - 1, path);
        assert((hunks + more)[count - 1] == hunks[count - 1]);
    }
}

/// Behind hunks that can be put, one that looks for lines is refused where they
/// are not found, and where they are found at several places; the error says
/// which, and of the places how many. One that looks for nothing is refused
/// unless it is marked to go to the end.
pub proof fn law_hunk_that_does_not_stand_is_refused(
    text: Seq<char>,
    hunks: Seq<HunkModel>,
    way: HunkWay,
    hunk: HunkModel,
    more: Seq<HunkModel>,
    path: Seq<char>,
    places: Seq<int>,
)
    requires
        is_way(way, file_lines(text), hunks),
        forall|i: int, j: int| 0 <= i < j < places.len() ==> places[i] < places[j],
        forall|p: int| #[trigger]
            places.contains(p) <==> looked_from(way, hunks, hunks.len() as int) <= p && is_found_at(
                way.stages.last(),
                texts_but(hunk.lines, PatchLineKind::Add),
                p,
                hunk.has_end_of_file_marker,
            ),
    ensures
        ({
            let wanted = texts_but(hunk.lines, PatchLineKind::Add);
            let got = text_after_hunks(text, hunks.push(hunk) + more, path);
            &&& wanted.len() > 0 && places.len() == 0 ==> got == Err::<Seq<char>, _>(
                ExecutionErrorModel::HunkApplyFailed {
                    path,
                    reason: "could not match hunk anchored by '"@ + wanted[0] + "'"@,
                },
            )
            &&& wanted.len() > 0 && places.len() > 1 ==> got == Err::<Seq<char>, _>(
                ExecutionErrorModel::HunkAmbiguous {
                    path,
                    reason: "matched "@ + decimal(places.len()) + " locations"@,
                },
            )
            &&& wanted.len() == 0 && !hunk.has_end_of_file_marker ==> got == Err::<Seq<char>, _>(
                ExecutionErrorModel::HunkApplyFailed {
                    path,
                    reason:
                        "add-only hunks require either context/removal lines or '*** End of File'"@,
                },
            )
        }),
{
    let lines = file_lines(text);
    let count = hunks.len() as int;
    let all = hunks.push(hunk) + more;
    let from = looked_from(way, hunks, count);
    lemma_way_back(way, lines, hunks, count, path);
    assert(all == hunks + (seq![hunk] + more));
    lemma_first_hunks(lines, hunks, seq![hunk] + more, count, path);
    assert(all[count] == hunk);
    lemma_texts_but(hunk.lines);
    let wanted = lines_before(hunk.lines);
    let refused = hunk_applied(way.stages.last(), from, hunk, path);
    assert(hunks_applied(lines, all, count + 1, path) == refused);
    if wanted.len() > 0 {
        let at_end = hunk.has_end_of_file_marker;
        let found = all_matches(way.stages.last(), wanted, from, at_end);
        lemma_all_found(way.stages.last(), wanted, from, at_end);
        lemma_same_places(found, places);
    }
    if refused is Err {
        lemma_error_stays(lines, all, count + 1, all.len() as int, path);
    }
}

/// Two lists of the same places in their order are the same.
proof fn lemma_same_places(one: Seq<int>, other: Seq<int>)
    requires
        forall|i: int, j: int| 0 <= i < j < one.len() ==> one[i] < one[j],
        forall|i: int, j: int| 0 <= i < j < other.len() ==> other[i] < other[j],
        forall|p: int| #[trigger] one.contains(p) <==> other.contains(p),
    ensures
        one.len() == other.len(),
{
    assert(one.no_duplicates());
    assert(other.no_duplicates());
    one.unique_seq_to_set();
    other.unique_seq_to_set();
    assert(one.to_set() == other.to_set()) by {
        assert forall|p: int| #[trigger] one.to_set().contains(p) <==> other.to_set().contains(p) by {
            assert(one.contains(p) <==> other.contains(p));
        }
    }
}

/// Lines in a row, each with a line feed in front of it.
pub open spec fn each_on_a_new_line(lines: Seq<Seq<char>>) -> Seq<char>
    decreases lines.len(),
{
    if lines.len() == 0 {
        seq![]
    } else {
        each_on_a_new_line(lines.drop_last()) + seq!['\n'] + lines.last()
    }
}

/// Lines in a row, each with a line feed behind it.
pub open spec fn each_ended(lines: Seq<Seq<char>>) -> Seq<char>
    decreases lines.len(),
{
    if lines.len() == 0 {
        seq![]
    } else {
        each_ended(lines.drop_last()) + lines.last() + seq!['\n']
    }
}

/// Lines that are joined behind others follow them, each on a new line.
proof fn lemma_joined_behind(lines: Seq<Seq<char>>, more: Seq<Seq<char>>)
    requires
        lines.len() > 0,
    ensures
        joined(lines + more, seq!['\n']) == joined(lines, seq!['\n']) + each_on_a_new_line(more),
    decreases more.len(),
{
    if more.len() == 0 {
        assert(lines + more == lines);
    } else {
        lemma_joined_behind(lines, more.drop_last());
        assert((lines + more).drop_last() == lines + more.drop_last());
        assert(joined(lines + more, seq!['\n']) == joined(lines, seq!['\n'])
            + each_on_a_new_line(more));
    }
}

/// A line feed may stand in front of each line, or behind each.
proof fn lemma_line_feeds(lines: Seq<Seq<char>>)
    ensures
        each_on_a_new_line(lines) + seq!['\n'] == seq!['\n'] + each_ended(lines),
    decreases lines.len(),
{
    if lines.len() > 0 {
        lemma_line_feeds(lines.drop_last());
        assert(each_on_a_new_line(lines) + seq!['\n'] == seq!['\n'] + each_ended(lines.drop_last())
            + lines.last() + seq!['\n']);
        assert(seq!['\n'] + each_ended(lines) == seq!['\n'] + each_ended(lines.drop_last())
            + lines.last() + seq!['\n']);
    } else {
        assert(each_on_a_new_line(lines) + seq!['\n'] == seq!['\n'] + each_ended(lines));
    }
}

/// A hunk of added lines alone looks for nothing and leaves all of them.
proof fn lemma_added_lines(lines: Seq<HunkLineModel>)
    requires
        forall|i: int| 0 <= i < lines.len() ==> (#[trigger] lines[i]).kind == PatchLineKind::Add,
    ensures
        lines_before(lines).len() == 0,
        lines_after(lines) == all_texts(lines),
    decreases lines.len(),
{
    if lines.len() > 0 {
        assert(lines.last() == lines[lines.len() - 1]);
        assert forall|i: int| 0 <= i < lines.drop_last().len() implies (
        #[trigger] lines.drop_last()[i]).kind == PatchLineKind::Add by {
            assert(lines.drop_last()[i] == lines[i]);
        }
        lemma_added_lines(lines.drop_last());
    }
    assert(lines_after(lines) =~= all_texts(lines));
}

/// A hunk of added lines alone that is marked to go to the end of the file puts
/// them behind all that the file holds: the text stays as it is, and each added
/// line follows it in its order, ended as the lines of the file are.
pub proof fn law_marked_lines_go_to_the_end(text: Seq<char>, hunk: HunkModel, path: Seq<char>)
    requires
        hunk.has_end_of_file_marker,
        forall|i: int|
            0 <= i < hunk.lines.len() ==> (#[trigger] hunk.lines[i]).kind == PatchLineKind::Add,
    ensures
        text.len() > 0 && text.last() == '\n' ==> text_after_hunks(text, seq![hunk], path) == Ok::<
            _,
            ExecutionErrorModel,
        >(text + each_ended(all_texts(hunk.lines))),
        !(text.len() > 0 && text.last() == '\n') ==> text_after_hunks(text, seq![hunk], path)
            == Ok::<_, ExecutionErrorModel>(text + each_on_a_new_line(all_texts(hunk.lines))),
{
    let lines = file_lines(text);
    let added = all_texts(hunk.lines);
    lemma_added_lines(hunk.lines);
    reveal_with_fuel(hunks_applied, 2);
    assert(hunk_applied(lines, 0, seq![hunk][0], path) == Ok::<_, ExecutionErrorModel>(
        (lines + added, (lines + added).len() as int),
    ));
    law_file_is_its_lines(text);
    lemma_lines_not_empty(text);
    lemma_joined_behind(lines, added);
    lemma_line_feeds(added);
    let old = joined(lines, seq!['\n']);
    if ends_with_line_feed(text) {
        assert(text == old + seq!['\n']);
        assert(file_text(lines + added, true) == old + each_on_a_new_line(added) + seq!['\n']);
        assert(old + each_on_a_new_line(added) + seq!['\n'] == old + (each_on_a_new_line(added)
            + seq!['\n']));
        assert(old + (seq!['\n'] + each_ended(added)) == text + each_ended(added));
    }
}

/// The same, told by lines: the lines of the file stay, all of them and in their
/// order, and the added ones are the rest.
pub proof fn law_marked_lines_follow_the_others(
    text: Seq<char>,
    hunks: Seq<HunkModel>,
    hunk: HunkModel,
    path: Seq<char>,
    way: HunkWay,
)
    requires
        is_way(way, file_lines(text), hunks),
        hunk.has_end_of_file_marker,
        forall|i: int|
            0 <= i < hunk.lines.len() ==> (#[trigger] hunk.lines[i]).kind == PatchLineKind::Add,
    ensures
        text_after_hunks(text, hunks.push(hunk), path) == Ok::<_, ExecutionErrorModel>(
            file_text(way.stages.last() + all_texts(hunk.lines), ends_with_line_feed(text)),
        ),
{
    let lines = file_lines(text);
    let count = hunks.len() as int;
    lemma_way_back(way, lines, hunks, count, path);
    lemma_first_hunks(lines, hunks, seq![hunk], count, path);
    assert(hunks + seq![hunk] == hunks.push(hunk));
    lemma_added_lines(hunk.lines);
}

/// A file has a line, even if there is nothing in it.
proof fn lemma_lines_not_empty(text: Seq<char>)
    ensures
        file_lines(text).len() > 0,
{
    if ends_with_line_feed(text) {
        lemma_last_piece(text, '\n');
    }
    assert(pieces(text, '\n').len() > 0);
}

} // verus!
