//! Words: text cut at white space.

use crate::text::chars::{is_white_space, lemma_trimmed_start, trimmed_start, white_space};
use crate::text::lines::rows;
use vstd::prelude::*;
use vstd::slice::{slice_subrange, slice_to_vec};

verus! {

/// The place of the first white space in `s`, or its length.
pub open spec fn word_end(s: Seq<char>) -> int
    decreases s.len(),
{
    if s.len() == 0 || white_space(s.first()) {
        0
    } else {
        1 + word_end(s.drop_first())
    }
}

/// The words of `s`: what stands between white space.
pub open spec fn words(s: Seq<char>) -> Seq<Seq<char>>
    decreases s.len(),
{
    let rest = trimmed_start(s);
    if rest.len() == 0 {
        seq![]
    } else {
        proof {
            lemma_trimmed_start(s);
            lemma_word_end(rest);
        }
        seq![rest.take(word_end(rest))] + words(rest.skip(word_end(rest)))
    }
}

/// A word ends within the text, at white space, with none before it.
pub proof fn lemma_word_end(s: Seq<char>)
    ensures
        0 <= word_end(s) <= s.len(),
        s.len() > 0 && !white_space(s.first()) ==> word_end(s) > 0,
        word_end(s) < s.len() ==> white_space(s[word_end(s)]),
        forall|i: int| 0 <= i < word_end(s) ==> !white_space(#[trigger] s[i]),
    decreases s.len(),
{
    if s.len() > 0 && !white_space(s.first()) {
        lemma_word_end(s.drop_first());
        assert forall|i: int| 0 <= i < word_end(s) implies !white_space(#[trigger] s[i]) by {
            if i > 0 {
                assert(s.drop_first()[i - 1] == s[i]);
            }
        }
    }
}

/// The first place from `from` on that is white space, or the end.
fn end_of_word(s: &[char], from: usize) -> (r: usize)
    requires
        from <= s@.len(),
    ensures
        from <= r <= s@.len(),
        r == from + word_end(s@.skip(from as int)),
{
    let mut i: usize = from;
    assert(s@.skip(from as int) == s@.skip(i as int));
    while i < s.len() && !is_white_space(s[i])
        invariant
            from <= i <= s@.len(),
            word_end(s@.skip(from as int)) == i - from + word_end(s@.skip(i as int)),
        decreases s@.len() - i,
    {
        assert(s@.skip(i as int).drop_first() == s@.skip(i + 1));
        assert(s@.skip(i as int).first() == s@[i as int]);
        i += 1;
    }
    if i < s.len() {
        assert(s@.skip(i as int).first() == s@[i as int]);
    }
    i
}

/// The words of `s`.
pub fn split_whitespace(s: &[char]) -> (r: Vec<Vec<char>>)
    ensures
        rows(r@) == words(s@),
{
    let mut out: Vec<Vec<char>> = Vec::new();
    let mut i: usize = 0;
    assert(s@.skip(0) == s@);
    assert(rows(out@) + words(s@) == words(s@));
    while i < s.len()
        invariant
            i <= s@.len(),
            rows(out@) + words(s@.skip(i as int)) == words(s@),
        decreases s@.len() - i,
    {
        let ghost rest = s@.skip(i as int);
        assert(rest.first() == s@[i as int]);
        if is_white_space(s[i]) {
            assert(rest.drop_first() == s@.skip(i + 1));
            assert(trimmed_start(rest) == trimmed_start(s@.skip(i + 1)));
            i += 1;
        } else {
            assert(trimmed_start(rest) == rest);
            let end: usize = end_of_word(s, i);
            proof {
                lemma_word_end(rest);
            }
            let word = slice_to_vec(slice_subrange(s, i, end));
            assert(word@ == rest.take(word_end(rest)));
            assert(rest.skip(word_end(rest)) == s@.skip(end as int));
            let ghost so_far = rows(out@);
            out.push(word);
            assert(rows(out@) == so_far.push(word@));
            assert(so_far + (seq![word@] + words(s@.skip(end as int))) == so_far.push(word@)
                + words(s@.skip(end as int)));
            i = end;
        }
    }
    assert(s@.skip(i as int) == Seq::<char>::empty());
    assert(words(Seq::<char>::empty()) == Seq::<Seq<char>>::empty());
    assert(rows(out@) + Seq::<Seq<char>>::empty()
        == rows(out@));
    out
}

} // verus!
