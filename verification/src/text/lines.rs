//! Cutting text at separators and putting it together again.

use crate::text::chars::{chars_of, same_text, string_of};
use vstd::prelude::*;
use vstd::slice::{slice_subrange, slice_to_vec};

verus! {

/// The texts of a list of strings.
pub open spec fn texts(list: Seq<String>) -> Seq<Seq<char>> {
    Seq::new(list.len(), |i: int| list[i]@)
}

/// The contents of a list of character rows.
pub open spec fn rows(list: Seq<Vec<char>>) -> Seq<Seq<char>> {
    Seq::new(list.len(), |i: int| list[i]@)
}

/// The first place of `c` in `s`, or the length of `s` where there is none.
pub open spec fn first_of(s: Seq<char>, c: char) -> int
    decreases s.len(),
{
    if s.len() == 0 || s.first() == c {
        0
    } else {
        1 + first_of(s.drop_first(), c)
    }
}

/// `s` cut at every `c`: one piece more than there are cuts.
pub open spec fn pieces(s: Seq<char>, c: char) -> Seq<Seq<char>>
    decreases s.len(),
{
    let cut = first_of(s, c);
    if 0 <= cut < s.len() {
        seq![s.take(cut)] + pieces(s.skip(cut + 1), c)
    } else {
        seq![s]
    }
}

/// `line` without the carriage return it ends with.
pub open spec fn without_carriage_return(line: Seq<char>) -> Seq<char> {
    if line.len() > 0 && line.last() == '\r' {
        line.drop_last()
    } else {
        line
    }
}

/// The lines of `s`. A line ends at a line feed, or at a carriage return with a
/// line feed behind it; the end of the last line may be left out.
pub open spec fn lines_of(s: Seq<char>) -> Seq<Seq<char>>
    decreases s.len(),
{
    let cut = first_of(s, '\n');
    if s.len() == 0 {
        seq![]
    } else if 0 <= cut < s.len() {
        seq![without_carriage_return(s.take(cut))] + lines_of(s.skip(cut + 1))
    } else {
        seq![s]
    }
}

/// The parts of `list`, with `between` between each two of them.
pub open spec fn joined(list: Seq<Seq<char>>, between: Seq<char>) -> Seq<char>
    decreases list.len(),
{
    if list.len() == 0 {
        seq![]
    } else if list.len() == 1 {
        list[0]
    } else {
        joined(list.drop_last(), between) + between + list.last()
    }
}

/// `first_of` gives a place that holds `c`, with none before it.
pub proof fn lemma_first_of(s: Seq<char>, c: char)
    ensures
        0 <= first_of(s, c) <= s.len(),
        first_of(s, c) < s.len() ==> s[first_of(s, c)] == c,
        forall|i: int| 0 <= i < first_of(s, c) ==> s[i] != c,
    decreases s.len(),
{
    if s.len() > 0 && s.first() != c {
        lemma_first_of(s.drop_first(), c);
        assert forall|i: int| 0 <= i < first_of(s, c) implies s[i] != c by {
            if i > 0 {
                assert(s.drop_first()[i - 1] == s[i]);
            }
        }
    }
}

/// A place that holds `c`, with none before it, is the first one.
pub proof fn lemma_first_of_is(s: Seq<char>, c: char, at: int)
    requires
        0 <= at <= s.len(),
        at < s.len() ==> s[at] == c,
        forall|i: int| 0 <= i < at ==> s[i] != c,
    ensures
        first_of(s, c) == at,
{
    lemma_first_of(s, c);
}

/// The first place of `c` in `s` at or after `from`, or the length of `s`.
fn place_of(s: &[char], from: usize, c: char) -> (r: usize)
    requires
        from <= s@.len(),
    ensures
        from <= r <= s@.len(),
        r == from + first_of(s@.skip(from as int), c),
{
    let mut i: usize = from;
    while i < s.len() && s[i] != c
        invariant
            from <= i <= s@.len(),
            forall|j: int| from <= j < i ==> s@[j] != c,
        decreases s@.len() - i,
    {
        i += 1;
    }
    proof {
        let rest = s@.skip(from as int);
        assert forall|j: int| 0 <= j < i - from implies rest[j] != c by {
            assert(rest[j] == s@[from + j]);
        }
        lemma_first_of_is(rest, c, i - from);
    }
    i
}

/// `text` cut at every `c`.
pub fn split(text: &str, c: char) -> (r: Vec<String>)
    ensures
        texts(r@) == pieces(text@, c),
{
    let chars = chars_of(text);
    let s = chars.as_slice();
    let mut out: Vec<String> = Vec::new();
    let mut start: usize = 0;
    assert(s@.skip(0) == s@);
    loop
        invariant_except_break
            texts(out@) + pieces(s@.skip(start as int), c) == pieces(s@, c),
        invariant
            s@ == text@,
            start <= s@.len(),
        ensures
            texts(out@) == pieces(text@, c),
        decreases s@.len() - start,
    {
        let cut = place_of(s, start, c);
        let ghost rest = s@.skip(start as int);
        let ghost before = texts(out@);
        out.push(string_of(slice_subrange(s, start, cut)));
        assert(s@.subrange(start as int, cut as int) == rest.take(cut - start));
        assert(texts(out@) == before.push(rest.take(cut - start)));
        if cut == s.len() {
            assert(rest.take(cut - start) == rest);
            break;
        }
        assert(rest.skip(cut - start + 1) == s@.skip(cut + 1));
        start = cut + 1;
    }
    out
}

/// The lines of `text`.
pub fn lines(text: &str) -> (r: Vec<Vec<char>>)
    ensures
        rows(r@) == lines_of(text@),
{
    let chars = chars_of(text);
    let s = chars.as_slice();
    let mut out: Vec<Vec<char>> = Vec::new();
    let mut start: usize = 0;
    assert(s@.skip(0) == s@);
    while start < s.len()
        invariant
            s@ == text@,
            start <= s@.len(),
            rows(out@) + lines_of(s@.skip(start as int)) == lines_of(s@),
        decreases s@.len() - start,
    {
        let cut = place_of(s, start, '\n');
        let ghost rest = s@.skip(start as int);
        let ghost before = rows(out@);
        if cut == s.len() {
            assert(rest.take(cut - start) == rest);
            out.push(slice_to_vec(slice_subrange(s, start, cut)));
            assert(rows(out@) == before.push(rest));
            start = cut;
        } else {
            let mut end: usize = cut;
            if start < cut && s[cut - 1] == '\r' {
                end = cut - 1;
            }
            out.push(slice_to_vec(slice_subrange(s, start, end)));
            assert(s@.subrange(start as int, end as int) == without_carriage_return(
                rest.take(cut - start),
            ));
            assert(rows(out@) == before.push(without_carriage_return(rest.take(cut - start))));
            assert(rest.skip(cut - start + 1) == s@.skip(cut + 1));
            start = cut + 1;
        }
    }
    out
}

/// The strings of `list`, with `between` between each two of them.
pub fn join(list: &[String], between: &str) -> (r: String)
    ensures
        r@ == joined(texts(list@), between@),
{
    let mut out = String::new();
    let mut i: usize = 0;
    while i < list.len()
        invariant
            i <= list@.len(),
            out@ == joined(texts(list@).take(i as int), between@),
        decreases list@.len() - i,
    {
        if i > 0 {
            out.append(between);
        }
        out.append(list[i].as_str());
        assert(texts(list@).take(i + 1).drop_last() == texts(list@).take(i as int));
        i += 1;
    }
    assert(texts(list@).take(i as int) == texts(list@));
    out
}

/// Whether `list` holds `text`.
pub fn holds(list: &Vec<String>, text: &str) -> (r: bool)
    ensures
        r == texts(list@).contains(text@),
{
    let mut i: usize = 0;
    while i < list.len()
        invariant
            i <= list@.len(),
            forall|j: int| 0 <= j < i ==> texts(list@)[j] != text@,
        decreases list@.len() - i,
    {
        if same_text(list[i].as_str(), text) {
            assert(texts(list@)[i as int] == text@);
            return true;
        }
        i += 1;
    }
    false
}

/// A copy of a list of strings.
pub fn clone_texts(list: &Vec<String>) -> (r: Vec<String>)
    ensures
        texts(r@) == texts(list@),
{
    let mut out: Vec<String> = Vec::new();
    let mut i: usize = 0;
    while i < list.len()
        invariant
            i <= list@.len(),
            texts(out@) == texts(list@).take(i as int),
        decreases list@.len() - i,
    {
        let ghost so_far = texts(out@);
        out.push(list[i].clone());
        assert(texts(out@) == so_far.push(list@[i as int]@));
        assert(texts(list@).take(i + 1) == texts(list@).take(i as int).push(list@[i as int]@));
        i += 1;
    }
    assert(texts(list@).take(i as int) == texts(list@));
    out
}

} // verus!
