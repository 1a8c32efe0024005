//! Taking back what a hunk did.

use crate::apply_patch::document::{HunkLineModel, HunkModel, PatchLineKind};
use crate::apply_patch::errors::ExecutionErrorModel;
use crate::apply_patch::hunks::{
    all_matches, ends_with_line_feed, file_lines, file_text, hunk_applied, hunks_applied,
    lemma_match_starts, lines_after, lines_before, matches_at, replaced, text_after_hunks,
};
use crate::apply_patch::laws::{law_file_is_its_lines, lemma_joined_first};
use crate::text::lines::{first_of, joined, lemma_first_of, lemma_first_of_is, pieces};
use vstd::prelude::*;

verus! {

/// The line that takes back what `line` does.
pub open spec fn reversed_line(line: HunkLineModel) -> HunkLineModel {
    HunkLineModel {
        kind: match line.kind {
            PatchLineKind::Context => PatchLineKind::Context,
            PatchLineKind::Add => PatchLineKind::Remove,
            PatchLineKind::Remove => PatchLineKind::Add,
        },
        text: line.text,
    }
}

/// The hunk that takes back what `hunk` does: what it adds is removed, and what
/// it removes is added.
pub open spec fn reversed(hunk: HunkModel) -> HunkModel {
    HunkModel {
        lines: Seq::new(hunk.lines.len(), |i: int| reversed_line(hunk.lines[i])),
        ..hunk
    }
}

/// Whether no line of `lines` holds `c`.
pub open spec fn are_free_of(lines: Seq<Seq<char>>, c: char) -> bool {
    forall|i: int| 0 <= i < lines.len() ==> !(#[trigger] lines[i]).contains(c)
}

/// A reversed hunk looks for what the hunk leaves, and leaves what it looks for.
proof fn lemma_reversed_lines(lines: Seq<HunkLineModel>, back: Seq<HunkLineModel>)
    requires
        back == Seq::new(lines.len(), |i: int| reversed_line(lines[i])),
    ensures
        lines_before(back) == lines_after(lines),
        lines_after(back) == lines_before(lines),
    decreases lines.len(),
{
    if lines.len() > 0 {
        let shorter = lines.drop_last();
        assert(back.drop_last() == Seq::new(shorter.len(), |i: int| reversed_line(shorter[i])));
        lemma_reversed_lines(shorter, back.drop_last());
    }
}

/// Where the texts of a hunk do not hold `c`, what it looks for and what it
/// leaves do not either; and where it has a line that it does not add, or that
/// it does not remove, it looks for something, or leaves something.
proof fn lemma_hunk_texts(lines: Seq<HunkLineModel>, c: char)
    requires
        forall|i: int| 0 <= i < lines.len() ==> !(#[trigger] lines[i]).text.contains(c),
    ensures
        are_free_of(lines_before(lines), c),
        are_free_of(lines_after(lines), c),
        (exists|i: int| 0 <= i < lines.len() && (#[trigger] lines[i]).kind != PatchLineKind::Add)
            ==> lines_before(lines).len() > 0,
        (exists|i: int|
            0 <= i < lines.len() && (#[trigger] lines[i]).kind != PatchLineKind::Remove)
            ==> lines_after(lines).len() > 0,
    decreases lines.len(),
{
    if lines.len() > 0 {
        let shorter = lines.drop_last();
        let last = lines[lines.len() - 1];
        assert forall|i: int| 0 <= i < shorter.len() implies !(
        #[trigger] shorter[i]).text.contains(c) by {
            assert(shorter[i] == lines[i]);
        }
        lemma_hunk_texts(shorter, c);
        assert(!last.text.contains(c));
        if exists|i: int| 0 <= i < lines.len() && (#[trigger] lines[i]).kind != PatchLineKind::Add {
            let i = choose|i: int|
                0 <= i < lines.len() && (#[trigger] lines[i]).kind != PatchLineKind::Add;
            if i < shorter.len() {
                assert(shorter[i].kind != PatchLineKind::Add);
            }
        }
        if exists|i: int|
            0 <= i < lines.len() && (#[trigger] lines[i]).kind != PatchLineKind::Remove {
            let i = choose|i: int|
                0 <= i < lines.len() && (#[trigger] lines[i]).kind != PatchLineKind::Remove;
            if i < shorter.len() {
                assert(shorter[i].kind != PatchLineKind::Remove);
            }
        }
    }
}

/// The pieces of a text do not hold what it was cut at.
proof fn lemma_pieces_are_free(s: Seq<char>, c: char)
    ensures
        are_free_of(pieces(s, c), c),
    decreases s.len(),
{
    lemma_first_of(s, c);
    let cut = first_of(s, c);
    if cut < s.len() {
        let rest = pieces(s.skip(cut + 1), c);
        lemma_pieces_are_free(s.skip(cut + 1), c);
        assert(!s.take(cut).contains(c));
        assert forall|i: int| 0 <= i < pieces(s, c).len() implies !(
        #[trigger] pieces(s, c)[i]).contains(c) by {
            if i > 0 {
                assert(pieces(s, c)[i] == rest[i - 1]);
            }
        }
    } else {
        assert(!s.contains(c));
    }
}

/// What was joined with `c` falls into the same parts when it is cut at `c`.
pub proof fn law_joined_and_cut(list: Seq<Seq<char>>, c: char)
    requires
        list.len() > 0,
        are_free_of(list, c),
    ensures
        pieces(joined(list, seq![c]), c) == list,
    decreases list.len(),
{
    let first = list[0];
    let whole = joined(list, seq![c]);
    assert(forall|i: int| 0 <= i < first.len() ==> first.contains(#[trigger] first[i]));
    if list.len() == 1 {
        lemma_first_of_is(whole, c, first.len() as int);
        assert(list == seq![first]);
    } else {
        let rest = list.drop_first();
        assert(list == seq![first] + rest);
        lemma_joined_first(first, rest, seq![c]);
        assert forall|i: int| 0 <= i < rest.len() implies !(#[trigger] rest[i]).contains(c) by {
            assert(rest[i] == list[i + 1]);
        }
        law_joined_and_cut(rest, c);
        let cut = first.len() as int;
        assert(whole[cut] == c);
        assert(forall|i: int| 0 <= i < cut ==> whole[i] == first[i]);
        lemma_first_of_is(whole, c, cut);
        assert(whole.take(cut) == first);
        assert(whole.skip(cut + 1) == joined(rest, seq![c]));
    }
}

/// A file made of lines falls into the same lines.
pub proof fn law_lines_make_a_file(lines: Seq<Seq<char>>)
    requires
        lines.len() > 0,
        are_free_of(lines, '\n'),
    ensures
        ends_with_line_feed(file_text(lines, true)),
        file_lines(file_text(lines, true)) == lines,
{
    let empty = Seq::<char>::empty();
    let longer = lines.push(empty);
    assert forall|i: int| 0 <= i < longer.len() implies !(#[trigger] longer[i]).contains('\n') by {
        if i < lines.len() {
            assert(longer[i] == lines[i]);
        }
    }
    law_joined_and_cut(longer, '\n');
    assert(longer.drop_last() == lines);
    assert(joined(lines, seq!['\n']) + seq!['\n'] + empty == joined(lines, seq!['\n']).push('\n'));
}

/// What a hunk did to a file that ends with a line feed, the reversed hunk
/// takes back: it gives the old text again, unless what it looks for stands at
/// several places; and that cannot be if the hunk stands at the end of the file.
pub proof fn law_hunk_is_taken_back(
    text: Seq<char>,
    hunk: HunkModel,
    path: Seq<char>,
    out: Seq<char>,
)
    requires
        ends_with_line_feed(text),
        forall|i: int| 0 <= i < hunk.lines.len() ==> !(#[trigger] hunk.lines[i]).text.contains('\n'),
        exists|i: int|
            0 <= i < hunk.lines.len() && (#[trigger] hunk.lines[i]).kind != PatchLineKind::Add,
        exists|i: int|
            0 <= i < hunk.lines.len() && (#[trigger] hunk.lines[i]).kind != PatchLineKind::Remove,
        text_after_hunks(text, seq![hunk], path) == Ok::<Seq<char>, ExecutionErrorModel>(out),
    ensures
        ends_with_line_feed(out),
        match text_after_hunks(out, seq![reversed(hunk)], path) {
            Ok(back) => back == text,
            Err(error) => error is HunkAmbiguous && !hunk.has_end_of_file_marker,
        },
{
    let eof = hunk.has_end_of_file_marker;
    let back = reversed(hunk);
    let old_part = lines_before(hunk.lines);
    let new_part = lines_after(hunk.lines);
    let old_lines = file_lines(text);
    lemma_reversed_lines(hunk.lines, back.lines);
    lemma_hunk_texts(hunk.lines, '\n');
    reveal_with_fuel(hunks_applied, 2);
    let places = all_matches(old_lines, old_part, 0, eof);
    lemma_match_starts(old_lines, old_part, 0, old_lines.len() - old_part.len() + 1, eof);
    let at = places[0];
    assert(hunk_applied(old_lines, 0, seq![hunk][0], path) is Ok);
    assert(places.contains(at));
    assert(matches_at(old_lines, old_part, at, eof));
    let new_lines = replaced(old_lines, at, at + old_part.len(), new_part);
    assert(out == file_text(new_lines, true));

    lemma_pieces_are_free(text, '\n');
    assert forall|i: int| 0 <= i < new_lines.len() implies !(#[trigger] new_lines[i]).contains(
        '\n',
    ) by {
        if i < at {
            assert(new_lines[i] == pieces(text, '\n')[i]);
        } else if i < at + new_part.len() {
            assert(new_lines[i] == new_part[i - at]);
        } else {
            assert(new_lines[i] == pieces(text, '\n')[i - new_part.len() + old_part.len()]);
        }
    }
    law_lines_make_a_file(new_lines);

    let found = all_matches(new_lines, new_part, 0, eof);
    lemma_match_starts(new_lines, new_part, 0, new_lines.len() - new_part.len() + 1, eof);
    assert(new_lines.subrange(at, at + new_part.len()) == new_part);
    assert(matches_at(new_lines, new_part, at, eof));
    assert(found.contains(at));
    if found.len() > 1 && eof {
        assert(found.contains(found[0]) && found.contains(found[1]));
        assert(matches_at(new_lines, new_part, found[0], eof));
        assert(matches_at(new_lines, new_part, found[1], eof));
    }
    if found.len() == 1 {
        let k = choose|k: int| 0 <= k < found.len() && found[k] == at;
        assert(found[0] == at);
        assert(replaced(new_lines, at, at + new_part.len(), old_part) == old_lines) by {
            assert(old_lines == old_lines.take(at) + old_lines.subrange(at, at + old_part.len())
                + old_lines.skip(at + old_part.len()));
        }
        law_file_is_its_lines(text);
    }
    assert(hunk_applied(new_lines, 0, seq![back][0], path) == hunk_applied(
        new_lines,
        0,
        back,
        path,
    ));
}

} // verus!
