//! Paths of the workspace that a text mentions.

use crate::text::chars::{after_prefix, chars_of, string_of, strip_prefix};
use crate::text::lines::{holds, rows, texts};
use crate::text::words::{split_whitespace, words};
use vstd::prelude::*;
use vstd::slice::slice_subrange;

verus! {

/// How many paths are kept.
pub const MAX_ARTIFACT_PATHS: usize = 8;

/// Whether `c` may stand around a path without being part of it.
pub open spec fn is_wrapping(c: char) -> bool {
    ||| c == ' '
    ||| c == '\t'
    ||| c == '\n'
    ||| c == '\u{c}'
    ||| c == '\r'
    ||| c == '`'
    ||| c == '"'
    ||| c == '\''
    ||| c == ','
    ||| c == ':'
    ||| c == ';'
    ||| c == '('
    ||| c == ')'
    ||| c == '['
    ||| c == ']'
}

/// Whether `c` may end a sentence.
pub open spec fn is_full_stop(c: char) -> bool {
    c == '.' || c == '!' || c == '?'
}

/// `s` without what may stand in front of a path.
pub open spec fn unwrapped_start(s: Seq<char>) -> Seq<char>
    decreases s.len(),
{
    if s.len() > 0 && is_wrapping(s.first()) {
        unwrapped_start(s.drop_first())
    } else {
        s
    }
}

/// `s` without what may stand behind a path.
pub open spec fn unwrapped_end(s: Seq<char>) -> Seq<char>
    decreases s.len(),
{
    if s.len() > 0 && is_wrapping(s.last()) {
        unwrapped_end(s.drop_last())
    } else {
        s
    }
}

/// `s` without the end of a sentence.
pub open spec fn unfinished(s: Seq<char>) -> Seq<char>
    decreases s.len(),
{
    if s.len() > 0 && is_full_stop(s.last()) {
        unfinished(s.drop_last())
    } else {
        s
    }
}

/// A word without what stands around it in a sentence.
pub open spec fn bare_word(word: Seq<char>) -> Seq<char> {
    unfinished(unwrapped_end(unwrapped_start(word)))
}

/// The first paths among `words` that start with the workspace, each once.
pub open spec fn workspace_paths(words: Seq<Seq<char>>, workspace: Seq<char>) -> Seq<Seq<char>>
    decreases words.len(),
{
    if words.len() == 0 {
        seq![]
    } else {
        let before = workspace_paths(words.drop_last(), workspace);
        let path = bare_word(words.last());
        if before.len() < MAX_ARTIFACT_PATHS && after_prefix(path, workspace) is Some
            && !before.contains(path) {
            before.push(path)
        } else {
            before
        }
    }
}

fn wraps(c: char) -> (r: bool)
    ensures
        r == is_wrapping(c),
{
    c == ' ' || c == '\t' || c == '\n' || c == '\u{c}' || c == '\r' || c == '`' || c == '"' || c
        == '\'' || c == ',' || c == ':' || c == ';' || c == '(' || c == ')' || c == '[' || c == ']'
}

/// A word without what stands around it in a sentence.
fn bare(word: &[char]) -> (r: &[char])
    ensures
        r@ == bare_word(word@),
{
    let mut start: usize = 0;
    assert(word@.skip(0) == word@);
    while start < word.len() && wraps(word[start])
        invariant
            start <= word@.len(),
            unwrapped_start(word@.skip(start as int)) == unwrapped_start(word@),
        decreases word@.len() - start,
    {
        assert(word@.skip(start as int).drop_first() == word@.skip(start + 1));
        start += 1;
    }
    let ghost front = word@.skip(start as int);
    assert(start < word@.len() ==> front.first() == word@[start as int]);
    let mut end: usize = word.len();
    assert(front.take(end - start) == front);
    while start < end && wraps(word[end - 1])
        invariant
            start <= end <= word@.len(),
            front == word@.skip(start as int),
            unwrapped_end(front.take(end - start)) == unwrapped_end(front),
        decreases end,
    {
        assert(front.take(end - start).drop_last() == front.take(end - start - 1));
        assert(front.take(end - start).last() == word@[end - 1]);
        end -= 1;
    }
    let ghost middle = front.take(end - start);
    assert(start < end ==> middle.last() == word@[end - 1]);
    assert(middle == unwrapped_end(unwrapped_start(word@)));
    let ghost whole = end;
    assert(middle.take(end - start) == middle);
    while start < end && (word[end - 1] == '.' || word[end - 1] == '!' || word[end - 1] == '?')
        invariant
            start <= end <= whole <= word@.len(),
            middle == word@.skip(start as int).take(whole - start),
            unfinished(middle.take(end - start)) == unfinished(middle),
        decreases end,
    {
        assert(middle.take(end - start).drop_last() == middle.take(end - start - 1));
        assert(middle.take(end - start).last() == word@[end - 1]);
        end -= 1;
    }
    assert(start < end ==> middle.take(end - start).last() == word@[end - 1]);
    assert(word@.subrange(start as int, end as int) == middle.take(end - start));
    slice_subrange(word, start, end)
}

/// The first paths in `text` that start with `workspace`, each once.
pub fn extract_workspace_paths(text: &str, workspace: &str) -> (r: Vec<String>)
    ensures
        texts(r@) == workspace_paths(words(text@), workspace@),
{
    let chars = chars_of(text);
    let found = split_whitespace(chars.as_slice());
    let ghost all = rows(found@);
    let mut out: Vec<String> = Vec::new();
    let mut i: usize = 0;
    assert(all.take(0) == Seq::<Seq<char>>::empty());
    assert(texts(out@) == workspace_paths(all.take(0), workspace@));
    while i < found.len()
        invariant
            i <= found@.len(),
            all == rows(found@),
            texts(out@) == workspace_paths(all.take(i as int), workspace@),
        decreases found@.len() - i,
    {
        proof {
            assert(all.take(i + 1).drop_last() == all.take(i as int));
            assert(all.take(i + 1).last() == found@[i as int]@);
        }
        let word = bare(found[i].as_slice());
        let ghost so_far = texts(out@);
        assert(so_far.len() == out@.len());
        if out.len() < MAX_ARTIFACT_PATHS && strip_prefix(word, workspace).is_some() {
            let path = string_of(word);
            if !holds(&out, path.as_str()) {
                out.push(path);
                assert(texts(out@) == so_far.push(path@));
            }
        }
        i += 1;
    }
    assert(all.take(i as int) == all);
    out
}

/// The paths that are kept are few, distinct, and all in the workspace.
pub proof fn law_artifacts_are_workspace_paths(words: Seq<Seq<char>>, workspace: Seq<char>)
    ensures
        workspace_paths(words, workspace).len() <= MAX_ARTIFACT_PATHS,
        workspace_paths(words, workspace).no_duplicates(),
        forall|i: int|
            0 <= i < workspace_paths(words, workspace).len() ==> workspace.is_prefix_of(
                #[trigger] workspace_paths(words, workspace)[i],
            ),
    decreases words.len(),
{
    if words.len() > 0 {
        law_artifacts_are_workspace_paths(words.drop_last(), workspace);
        let before = workspace_paths(words.drop_last(), workspace);
        let path = bare_word(words.last());
        if !before.contains(path) {
            assert(before.push(path).no_duplicates());
        }
    }
}

/// Whether all characters may stand around a path.
pub open spec fn are_wrapping(s: Seq<char>) -> bool {
    forall|i: int| 0 <= i < s.len() ==> is_wrapping(#[trigger] s[i])
}

/// Whether all characters may end a sentence.
pub open spec fn are_full_stops(s: Seq<char>) -> bool {
    forall|i: int| 0 <= i < s.len() ==> is_full_stop(#[trigger] s[i])
}

/// What may stand in front goes.
proof fn lemma_front_goes(front: Seq<char>, rest: Seq<char>)
    requires
        are_wrapping(front),
        rest.len() > 0 ==> !is_wrapping(rest.first()),
    ensures
        unwrapped_start(front + rest) == rest,
    decreases front.len(),
{
    if front.len() > 0 {
        assert(is_wrapping(front[0]));
        assert((front + rest).first() == front[0]);
        assert((front + rest).drop_first() == front.drop_first() + rest);
        assert forall|i: int| 0 <= i < front.drop_first().len() implies is_wrapping(
            #[trigger] front.drop_first()[i],
        ) by {
            assert(front.drop_first()[i] == front[i + 1]);
        }
        lemma_front_goes(front.drop_first(), rest);
    } else {
        assert(front + rest == rest);
    }
}

/// What may stand behind goes.
proof fn lemma_back_goes(rest: Seq<char>, back: Seq<char>)
    requires
        are_wrapping(back),
        rest.len() > 0 ==> !is_wrapping(rest.last()),
    ensures
        unwrapped_end(rest + back) == rest,
    decreases back.len(),
{
    if back.len() > 0 {
        assert(is_wrapping(back[back.len() - 1]));
        assert((rest + back).last() == back[back.len() - 1]);
        assert((rest + back).drop_last() == rest + back.drop_last());
        assert forall|i: int| 0 <= i < back.drop_last().len() implies is_wrapping(
            #[trigger] back.drop_last()[i],
        ) by {
            assert(back.drop_last()[i] == back[i]);
        }
        lemma_back_goes(rest, back.drop_last());
    } else {
        assert(rest + back == rest);
    }
}

/// The end of a sentence goes.
proof fn lemma_stops_go(rest: Seq<char>, stops: Seq<char>)
    requires
        are_full_stops(stops),
        rest.len() > 0 ==> !is_full_stop(rest.last()),
    ensures
        unfinished(rest + stops) == rest,
    decreases stops.len(),
{
    if stops.len() > 0 {
        assert(is_full_stop(stops[stops.len() - 1]));
        assert((rest + stops).last() == stops[stops.len() - 1]);
        assert((rest + stops).drop_last() == rest + stops.drop_last());
        assert forall|i: int| 0 <= i < stops.drop_last().len() implies is_full_stop(
            #[trigger] stops.drop_last()[i],
        ) by {
            assert(stops.drop_last()[i] == stops[i]);
        }
        lemma_stops_go(rest, stops.drop_last());
    } else {
        assert(rest + stops == rest);
    }
}

/// A word is bared of what stands around it: quotes and brackets on either side,
/// and the end of a sentence inside of those behind it.
pub proof fn law_word_is_bared(
    front: Seq<char>,
    core: Seq<char>,
    stops: Seq<char>,
    back: Seq<char>,
)
    requires
        are_wrapping(front),
        are_full_stops(stops),
        are_wrapping(back),
        core.len() > 0,
        !is_wrapping(core.first()),
        !is_full_stop(core.last()),
        stops.len() == 0 ==> !is_wrapping(core.last()),
    ensures
        bare_word(front + core + stops + back) == core,
{
    let inner = core + stops;
    assert(front + core + stops + back == front + (inner + back));
    assert((inner + back).first() == core.first());
    lemma_front_goes(front, inner + back);
    if stops.len() > 0 {
        assert(is_full_stop(stops[stops.len() - 1]));
        assert(inner.last() == stops[stops.len() - 1]);
    } else {
        assert(inner == core);
    }
    lemma_back_goes(inner, back);
    lemma_stops_go(core, stops);
}

/// The paths that are kept are those that come up first, in the order in which
/// they do: each is a word of the text, and one that is missing comes up only
/// where there was no more room.
pub proof fn law_first_paths_are_kept(words: Seq<Seq<char>>, workspace: Seq<char>) -> (places: Seq<
    int,
>)
    ensures
        places.len() == workspace_paths(words, workspace).len(),
        forall|i: int, j: int| 0 <= i < j < places.len() ==> places[i] < places[j],
        forall|i: int|
            0 <= i < places.len() ==> 0 <= #[trigger] places[i] < words.len() && bare_word(
                words[places[i]],
            ) == workspace_paths(words, workspace)[i],
        forall|at: int|
            0 <= at < words.len() && workspace.is_prefix_of(bare_word(#[trigger] words[at]))
                ==> workspace_paths(words, workspace).contains(bare_word(words[at])) || (
            workspace_paths(words, workspace).len() == 8 && forall|i: int|
                0 <= i < places.len() ==> #[trigger] places[i] < at),
    decreases words.len(),
{
    if words.len() == 0 {
        seq![]
    } else {
        let fewer = words.drop_last();
        let last = words.len() - 1;
        let before = workspace_paths(fewer, workspace);
        let paths = workspace_paths(words, workspace);
        let found = law_first_paths_are_kept(fewer, workspace);
        let path = bare_word(words.last());
        let places = if paths == before {
            found
        } else {
            found.push(last)
        };
        law_artifacts_are_workspace_paths(fewer, workspace);
        assert(paths == before || paths == before.push(path));
        if paths == before.push(path) {
            assert(before.push(path).len() != before.len());
        }
        assert forall|i: int| 0 <= i < places.len() implies 0 <= #[trigger] places[i]
            < words.len() && bare_word(words[places[i]]) == paths[i] by {
            if i < found.len() {
                assert(fewer[found[i]] == words[found[i]]);
            }
        }
        assert forall|at: int|
            0 <= at < words.len() && workspace.is_prefix_of(
                bare_word(#[trigger] words[at]),
            ) implies paths.contains(bare_word(words[at])) || (paths.len() == 8 && forall|i: int|
            0 <= i < places.len() ==> #[trigger] places[i] < at) by {
            if at < last {
                assert(fewer[at] == words[at]);
                if before.contains(bare_word(words[at])) {
                    let k = choose|k: int| 0 <= k < before.len() && before[k] == bare_word(words[at]);
                    assert(paths[k] == bare_word(words[at]));
                }
            } else if paths == before.push(path) {
                assert(paths[before.len() as int] == path);
            } else if before.contains(path) {
                assert(paths.contains(path));
            } else {
                assert(paths.len() == 8);
                assert forall|i: int| 0 <= i < places.len() implies #[trigger] places[i] < at by {
                    assert(found[i] < fewer.len());
                }
            }
        }
        places
    }
}

/// The marks that a word is bared of: white space, quotes, brackets and what
/// parts a list on either side, and what ends a sentence behind.
pub proof fn law_marks_are_known(c: char)
    ensures
        is_wrapping(c) <==> " \t\n\u{c}\r`\"',:;()[]"@.contains(c),
        is_full_stop(c) <==> ".!?"@.contains(c),
{
    let marks = " \t\n\u{c}\r`\"',:;()[]"@;
    let stops = ".!?"@;
    reveal_strlit(" \t\n\u{c}\r`\"',:;()[]");
    reveal_strlit(".!?");
    assert(marks[0] == ' ' && marks[1] == '\t' && marks[2] == '\n' && marks[3] == '\u{c}' && marks[4]
        == '\r' && marks[5] == '`' && marks[6] == '"' && marks[7] == '\'' && marks[8] == ','
        && marks[9] == ':' && marks[10] == ';' && marks[11] == '(' && marks[12] == ')'
        && marks[13] == '[' && marks[14] == ']');
    assert(stops[0] == '.' && stops[1] == '!' && stops[2] == '?');
}

} // verus!
