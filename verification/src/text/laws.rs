//! What holds of trimming, words, numerals, summaries and lines.

use crate::text::chars::{trimmed, trimmed_end, trimmed_start, white_space};
use crate::text::decimal::{
    decimal, lemma_number_of_decimal, lemma_number_of_zeros, number_of, padded, zeros,
};
use crate::text::lines::{lemma_first_of_is, lines_of};
use crate::text::summary::summarized;
use crate::text::words::{word_end, words};
use vstd::prelude::*;

verus! {

/// Whether there is nothing but white space.
pub open spec fn is_blank(s: Seq<char>) -> bool {
    forall|i: int| 0 <= i < s.len() ==> white_space(#[trigger] s[i])
}

/// Whether there is something, and no white space in it.
pub open spec fn is_word(s: Seq<char>) -> bool {
    s.len() > 0 && forall|i: int| 0 <= i < s.len() ==> !white_space(#[trigger] s[i])
}

/// White space in front goes.
proof fn lemma_start_goes(front: Seq<char>, rest: Seq<char>)
    requires
        is_blank(front),
    ensures
        trimmed_start(front + rest) == trimmed_start(rest),
    decreases front.len(),
{
    if front.len() > 0 {
        assert(white_space(front[0]));
        assert((front + rest).first() == front[0]);
        assert((front + rest).drop_first() == front.drop_first() + rest);
        assert forall|i: int| 0 <= i < front.drop_first().len() implies white_space(
            #[trigger] front.drop_first()[i],
        ) by {
            assert(front.drop_first()[i] == front[i + 1]);
        }
        lemma_start_goes(front.drop_first(), rest);
    } else {
        assert(front + rest == rest);
    }
}

/// White space behind goes.
proof fn lemma_end_goes(rest: Seq<char>, behind: Seq<char>)
    requires
        is_blank(behind),
    ensures
        trimmed_end(rest + behind) == trimmed_end(rest),
    decreases behind.len(),
{
    if behind.len() > 0 {
        let last = behind.len() - 1;
        assert(white_space(behind[last]));
        assert((rest + behind).last() == behind[last]);
        assert((rest + behind).drop_last() == rest + behind.drop_last());
        assert forall|i: int| 0 <= i < behind.drop_last().len() implies white_space(
            #[trigger] behind.drop_last()[i],
        ) by {
            assert(behind.drop_last()[i] == behind[i]);
        }
        lemma_end_goes(rest, behind.drop_last());
    } else {
        assert(rest + behind == rest);
    }
}

/// Trimming takes away the white space on either side of what is neither begun
/// nor ended by any, and nothing else; and where there is nothing but white
/// space it leaves nothing.
pub proof fn law_trimming_leaves_the_core(front: Seq<char>, core: Seq<char>, behind: Seq<char>)
    requires
        is_blank(front),
        is_blank(behind),
        core.len() > 0 ==> !white_space(core.first()) && !white_space(core.last()),
    ensures
        trimmed(front + core + behind) == core,
{
    assert(front + core + behind == front + (core + behind));
    lemma_start_goes(front, core + behind);
    if core.len() == 0 {
        assert(core + behind == behind + core);
        lemma_start_goes(behind, core);
    } else {
        assert((core + behind).first() == core.first());
        lemma_end_goes(core, behind);
    }
}

/// The words of a text are what white space parts: none where there is nothing
/// or only white space, and one more for every run of other characters.
pub proof fn law_words_are_what_white_space_parts(front: Seq<char>, word: Seq<char>, rest: Seq<char>)
    requires
        is_blank(front),
        is_word(word),
        rest.len() > 0 ==> white_space(rest.first()),
    ensures
        words(front).len() == 0,
        words(front + word + rest) == seq![word] + words(rest),
{
    let all = front + word + rest;
    assert(all == front + (word + rest));
    lemma_start_goes(front, word + rest);
    lemma_start_goes(front, seq![]);
    assert(front + Seq::<char>::empty() == front);
    assert((word + rest).first() == word[0]);
    assert(!white_space(word[0]));
    lemma_word_ends(word, rest);
    assert((word + rest).take(word.len() as int) == word);
    assert((word + rest).skip(word.len() as int) == rest);
}

/// A word ends where white space begins.
proof fn lemma_word_ends(word: Seq<char>, rest: Seq<char>)
    requires
        forall|i: int| 0 <= i < word.len() ==> !white_space(#[trigger] word[i]),
        rest.len() > 0 ==> white_space(rest.first()),
    ensures
        word_end(word + rest) == word.len(),
    decreases word.len(),
{
    if word.len() > 0 {
        assert(!white_space(word[0]));
        assert((word + rest).first() == word[0]);
        assert((word + rest).drop_first() == word.drop_first() + rest);
        assert forall|i: int| 0 <= i < word.drop_first().len() implies !white_space(
            #[trigger] word.drop_first()[i],
        ) by {
            assert(word.drop_first()[i] == word[i + 1]);
        }
        lemma_word_ends(word.drop_first(), rest);
    } else {
        assert(word + rest == rest);
    }
}

/// A numeral stands for its number, is made of digits, and has no zero in front
/// unless it is nothing else; with a width it is filled up with zeros in front.
pub proof fn law_numeral_stands_for_its_number(n: nat, width: nat)
    ensures
        number_of(decimal(n)) == n,
        decimal(n).len() > 0,
        forall|i: int| 0 <= i < decimal(n).len() ==> '0' <= #[trigger] decimal(n)[i] <= '9',
        decimal(n).len() > 1 ==> decimal(n)[0] != '0',
        number_of(padded(n, width)) == n,
        padded(n, width).len() == if width > decimal(n).len() {
            width
        } else {
            decimal(n).len()
        },
        decimal(n) == padded(n, width).skip(padded(n, width).len() - decimal(n).len()),
        forall|i: int|
            0 <= i < padded(n, width).len() - decimal(n).len() ==> #[trigger] padded(n, width)[i]
                == '0',
{
    lemma_number_of_decimal(n);
    lemma_digits(n);
    lemma_number_of_zeros(width - decimal(n).len(), decimal(n));
    assert(padded(n, width).skip(padded(n, width).len() - decimal(n).len()) == decimal(n));
}

/// A numeral is made of digits.
proof fn lemma_digits(n: nat)
    ensures
        decimal(n).len() > 0,
        forall|i: int| 0 <= i < decimal(n).len() ==> '0' <= #[trigger] decimal(n)[i] <= '9',
        n > 0 ==> decimal(n)[0] != '0',
        decimal(n).len() > 1 ==> n > 0,
    decreases n,
{
    if n >= 10 {
        lemma_digits(n / 10);
        let shorter = decimal(n / 10);
        assert forall|i: int| 0 <= i < decimal(n).len() implies '0' <= #[trigger] decimal(n)[i]
            <= '9' by {
            if i < shorter.len() {
                assert(decimal(n)[i] == shorter[i]);
            }
        }
    }
}

/// A summary is the whole text without the white space around it where there is
/// room for that; otherwise it is as long as it may be, and holds the beginning
/// with an ellipsis behind it.
pub proof fn law_summary_is_the_beginning(text: Seq<char>, max_chars: nat)
    ensures
        trimmed(text).len() <= max_chars ==> summarized(text, max_chars) == trimmed(text),
        trimmed(text).len() > max_chars > 0 ==> {
            &&& summarized(text, max_chars).len() == max_chars
            &&& summarized(text, max_chars).last() == '…'
            &&& summarized(text, max_chars).drop_last().is_prefix_of(trimmed(text))
        },
{
    if trimmed(text).len() > max_chars > 0 {
        let short = trimmed(text).take(max_chars - 1);
        assert(summarized(text, max_chars).drop_last() == short);
    }
}

/// A line ends at a line feed, or at a carriage return with a line feed behind
/// it, and neither belongs to it. What is left behind the last line feed is a
/// line too, if it is anything at all.
pub proof fn law_lines_end_at_line_feeds(line: Seq<char>, rest: Seq<char>)
    requires
        !line.contains('\n'),
    ensures
        lines_of(seq![]).len() == 0,
        line.len() > 0 ==> lines_of(line) == seq![line],
        !(line.len() > 0 && line.last() == '\r') ==> lines_of(line + seq!['\n'] + rest) == seq![
            line,
        ] + lines_of(rest),
        lines_of(line + seq!['\r', '\n'] + rest) == seq![line] + lines_of(rest),
{
    assert forall|i: int| 0 <= i < line.len() implies line[i] != '\n' by {
        assert(line.contains(line[i]));
    }
    lemma_first_of_is(line, '\n', line.len() as int);
    let once = line + seq!['\n'] + rest;
    lemma_first_of_is(once, '\n', line.len() as int);
    assert(once.take(line.len() as int) == line);
    assert(once.skip(line.len() as int + 1) == rest);
    let twice = line + seq!['\r', '\n'] + rest;
    lemma_first_of_is(twice, '\n', line.len() as int + 1);
    assert(twice.take(line.len() as int + 1) == line.push('\r'));
    assert(line.push('\r').drop_last() == line);
    assert(twice.skip(line.len() as int + 2) == rest);
}

/// What is white space: six characters of ASCII, and beyond it the spaces and
/// separators that there are, but no joiner and no mark of another kind.
pub proof fn law_white_space_is_known(c: char)
    ensures
        c < '\u{80}' ==> (white_space(c) <==> "\u{9}\u{a}\u{b}\u{c}\u{d} "@.contains(c)),
        c >= '\u{80}' ==> (white_space(c)
            <==> "\u{85}\u{a0}\u{1680}\u{2028}\u{2029}\u{202f}\u{205f}\u{3000}"@.contains(c)
            || '\u{2000}' <= c <= '\u{200a}'),
{
    let near = "\u{9}\u{a}\u{b}\u{c}\u{d} "@;
    let far = "\u{85}\u{a0}\u{1680}\u{2028}\u{2029}\u{202f}\u{205f}\u{3000}"@;
    reveal_strlit("\u{9}\u{a}\u{b}\u{c}\u{d} ");
    reveal_strlit("\u{85}\u{a0}\u{1680}\u{2028}\u{2029}\u{202f}\u{205f}\u{3000}");
    assert(near[0] == '\u{9}' && near[1] == '\u{a}' && near[2] == '\u{b}' && near[3] == '\u{c}'
        && near[4] == '\u{d}' && near[5] == ' ');
    assert(far[0] == '\u{85}' && far[1] == '\u{a0}' && far[2] == '\u{1680}' && far[3]
        == '\u{2028}' && far[4] == '\u{2029}' && far[5] == '\u{202f}' && far[6] == '\u{205f}'
        && far[7] == '\u{3000}');
}

} // verus!
