//! Short forms of texts.

use crate::text::chars::{chars_of, string_of, trim, trimmed};
use vstd::prelude::*;
use vstd::slice::slice_subrange;

verus! {

/// `text` without the white space around it, and no longer than `max_chars`
/// characters: where it is longer, an ellipsis stands for the rest.
pub open spec fn summarized(text: Seq<char>, max_chars: nat) -> Seq<char> {
    let whole = trimmed(text);
    if whole.len() <= max_chars {
        whole
    } else if max_chars == 0 {
        seq!['…']
    } else {
        whole.take(max_chars - 1).push('…')
    }
}

/// `text` without the white space around it, and no longer than `max_chars`
/// characters.
pub fn summarize_text(text: &str, max_chars: usize) -> (r: String)
    ensures
        r@ == summarized(text@, max_chars as nat),
{
    let chars = chars_of(text);
    let whole = trim(chars.as_slice());
    if whole.len() <= max_chars {
        return string_of(whole);
    }
    let count: usize = if max_chars == 0 {
        0
    } else {
        max_chars - 1
    };
    let mut out = string_of(slice_subrange(whole, 0, count));
    out.push('…');
    assert(whole@.subrange(0, count as int) == whole@.take(count as int));
    out
}

/// A summary is as long as it may be, or as long as an ellipsis.
pub proof fn law_summary_is_short(text: Seq<char>, max_chars: nat)
    ensures
        summarized(text, max_chars).len() <= if max_chars == 0 {
            1
        } else {
            max_chars
        },
{
}

} // verus!
