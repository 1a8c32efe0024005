//! How the arguments of a tool are read.

use crate::host::json::{flag_in, text_or_empty, word_in, word_or_empty, Fields, JsonModel};
use crate::text::chars::white_space;
use crate::text::laws::{is_blank, law_trimming_leaves_the_core};
use vstd::prelude::*;

verus! {

/// Where a field is a string, the white space on either side of what it says is
/// not read; a string of white space says nothing.
pub proof fn law_word_is_read(
    fields: Fields,
    key: Seq<char>,
    front: Seq<char>,
    word: Seq<char>,
    behind: Seq<char>,
)
    requires
        fields.contains_key(key),
        fields[key] == JsonModel::Text(front + word + behind),
        is_blank(front),
        is_blank(behind),
        word.len() > 0 ==> !white_space(word.first()) && !white_space(word.last()),
    ensures
        word_in(fields, key) is Some <==> word.len() > 0,
        word.len() > 0 ==> word_in(fields, key) == Some(word),
        word_or_empty(fields, key) == word,
        text_or_empty(fields, key) == front + word + behind,
        !flag_in(fields, key),
{
    law_trimming_leaves_the_core(front, word, behind);
}

/// A field that is not there, or that is no string, says nothing; and a field is
/// set if and only if it is `true`.
pub proof fn law_other_fields_say_nothing(fields: Fields, key: Seq<char>)
    requires
        !fields.contains_key(key) || !(fields[key] is Text),
    ensures
        word_in(fields, key) is None,
        word_or_empty(fields, key).len() == 0,
        text_or_empty(fields, key).len() == 0,
        flag_in(fields, key) <==> fields.contains_key(key) && fields[key] == JsonModel::Bool(true),
{
}

} // verus!
