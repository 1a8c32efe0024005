//! The environment variables that a background process sees.

use crate::text::chars::{chars_of, string_of, trim, trimmed};
use crate::text::lines::{holds, texts};
use vstd::prelude::*;

verus! {

/// The names that are always passed on.
pub open spec fn safe_names() -> Seq<Seq<char>> {
    seq![
        "PATH"@,
        "HOME"@,
        "TERM"@,
        "LANG"@,
        "LC_ALL"@,
        "LC_CTYPE"@,
        "USER"@,
        "SHELL"@,
        "TMPDIR"@,
    ]
}

/// Whether `c` is a letter of ASCII.
pub open spec fn is_letter(c: char) -> bool {
    ('a' <= c <= 'z') || ('A' <= c <= 'Z')
}

/// Whether `c` may stand in a name.
pub open spec fn is_name_char(c: char) -> bool {
    is_letter(c) || ('0' <= c <= '9') || c == '_'
}

/// Whether `name` can name an environment variable: letters, digits and
/// underscores, without a digit in front.
pub open spec fn is_valid_name(name: Seq<char>) -> bool {
    &&& name.len() > 0
    &&& is_letter(name[0]) || name[0] == '_'
    &&& forall|i: int| 0 <= i < name.len() ==> is_name_char(#[trigger] name[i])
}

/// The names among `candidates` that are valid, without the white space around
/// them, each at the place where it comes up first.
pub open spec fn allowed_names(candidates: Seq<Seq<char>>) -> Seq<Seq<char>>
    decreases candidates.len(),
{
    if candidates.len() == 0 {
        seq![]
    } else {
        let before = allowed_names(candidates.drop_last());
        let name = trimmed(candidates.last());
        if is_valid_name(name) && !before.contains(name) {
            before.push(name)
        } else {
            before
        }
    }
}

/// Whether `name` can name an environment variable.
pub fn is_valid_env_var_name(name: &str) -> (r: bool)
    ensures
        r == is_valid_name(name@),
{
    let chars = chars_of(name);
    if chars.len() == 0 {
        return false;
    }
    let first = chars[0];
    if !(('a' <= first && first <= 'z') || ('A' <= first && first <= 'Z') || first == '_') {
        return false;
    }
    let mut i: usize = 0;
    while i < chars.len()
        invariant
            i <= chars@.len(),
            chars@ == name@,
            forall|j: int| 0 <= j < i ==> is_name_char(#[trigger] chars@[j]),
        decreases chars@.len() - i,
    {
        let c = chars[i];
        if !(('a' <= c && c <= 'z') || ('A' <= c && c <= 'Z') || ('0' <= c && c <= '9') || c
            == '_') {
            assert(!is_name_char(chars@[i as int]));
            return false;
        }
        i += 1;
    }
    true
}

/// The names that are always passed on.
fn safe_env_vars() -> (r: Vec<String>)
    ensures
        texts(r@) == safe_names(),
{
    let mut out: Vec<String> = Vec::new();
    out.push("PATH".to_string());
    out.push("HOME".to_string());
    out.push("TERM".to_string());
    out.push("LANG".to_string());
    out.push("LC_ALL".to_string());
    out.push("LC_CTYPE".to_string());
    out.push("USER".to_string());
    out.push("SHELL".to_string());
    out.push("TMPDIR".to_string());
    assert(texts(out@) == safe_names());
    out
}

/// Adds the valid ones of `candidates` to `out`.
fn collect(candidates: &Vec<String>, out: &mut Vec<String>, Ghost(before): Ghost<Seq<Seq<char>>>)
    requires
        texts(old(out)@) == allowed_names(before),
    ensures
        texts(final(out)@) == allowed_names(before + texts(candidates@)),
{
    let ghost all = texts(candidates@);
    let mut i: usize = 0;
    assert(before + all.take(0) == before);
    while i < candidates.len()
        invariant
            i <= candidates@.len(),
            all == texts(candidates@),
            texts(out@) == allowed_names(before + all.take(i as int)),
        decreases candidates@.len() - i,
    {
        let chars = chars_of(candidates[i].as_str());
        let name = string_of(trim(chars.as_slice()));
        proof {
            let now = before + all.take(i + 1);
            assert(now.drop_last() == before + all.take(i as int));
            assert(now.last() == candidates@[i as int]@);
        }
        let ghost so_far = texts(out@);
        if is_valid_env_var_name(name.as_str()) && !holds(&*out, name.as_str()) {
            out.push(name);
            assert(texts(out@) == so_far.push(name@));
        }
        i += 1;
    }
    assert(all.take(i as int) == all);
}

/// The names of the variables that a shell may see: the usual ones, and those
/// that `passthrough` adds.
pub fn collect_allowed_shell_env_vars(passthrough: &Vec<String>) -> (r: Vec<String>)
    ensures
        texts(r@) == allowed_names(safe_names() + texts(passthrough@)),
{
    let safe = safe_env_vars();
    let mut out: Vec<String> = Vec::new();
    assert(texts(out@) == allowed_names(seq![]));
    collect(&safe, &mut out, Ghost(Seq::empty()));
    assert(Seq::<Seq<char>>::empty() + texts(safe@) == safe_names());
    collect(passthrough, &mut out, Ghost(safe_names()));
    out
}

/// Every name that is passed on is valid, and none is passed on twice.
pub proof fn law_names_are_valid_and_distinct(candidates: Seq<Seq<char>>)
    ensures
        allowed_names(candidates).no_duplicates(),
        forall|i: int|
            0 <= i < allowed_names(candidates).len() ==> is_valid_name(
                #[trigger] allowed_names(candidates)[i],
            ),
    decreases candidates.len(),
{
    if candidates.len() > 0 {
        law_names_are_valid_and_distinct(candidates.drop_last());
        let before = allowed_names(candidates.drop_last());
        let name = trimmed(candidates.last());
        if is_valid_name(name) && !before.contains(name) {
            assert(before.push(name).no_duplicates());
        }
    }
}

/// A valid name among the candidates is passed on.
pub proof fn law_valid_names_are_passed_on(candidates: Seq<Seq<char>>, at: int)
    requires
        0 <= at < candidates.len(),
        is_valid_name(trimmed(candidates[at])),
    ensures
        allowed_names(candidates).contains(trimmed(candidates[at])),
    decreases candidates.len(),
{
    let before = allowed_names(candidates.drop_last());
    let wanted = trimmed(candidates[at]);
    let name = trimmed(candidates.last());
    if at == candidates.len() - 1 {
        if !before.contains(wanted) {
            assert(before.push(wanted)[before.len() as int] == wanted);
        }
    } else {
        law_valid_names_are_passed_on(candidates.drop_last(), at);
        let i = choose|i: int| 0 <= i < before.len() && before[i] == wanted;
        assert(before.push(name)[i] == wanted);
    }
}

/// A name that is passed on is one of the candidates, without the white space
/// around it; and names come in the order of their candidates.
pub proof fn law_names_come_from_candidates(candidates: Seq<Seq<char>>) -> (places: Seq<int>)
    ensures
        places.len() == allowed_names(candidates).len(),
        forall|i: int, j: int| 0 <= i < j < places.len() ==> places[i] < places[j],
        forall|i: int|
            0 <= i < places.len() ==> 0 <= #[trigger] places[i] < candidates.len() && trimmed(
                candidates[places[i]],
            ) == allowed_names(candidates)[i],
    decreases candidates.len(),
{
    if candidates.len() == 0 {
        seq![]
    } else {
        let fewer = candidates.drop_last();
        let before = allowed_names(fewer);
        let found = law_names_come_from_candidates(fewer);
        let name = trimmed(candidates.last());
        let places = if is_valid_name(name) && !before.contains(name) {
            found.push(candidates.len() - 1)
        } else {
            found
        };
        assert forall|i: int| 0 <= i < places.len() implies 0 <= #[trigger] places[i]
            < candidates.len() && trimmed(candidates[places[i]]) == allowed_names(candidates)[i] by {
            if i < found.len() {
                assert(fewer[found[i]] == candidates[found[i]]);
            }
        }
        places
    }
}

} // verus!
