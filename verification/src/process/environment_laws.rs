//! What a background process sees of the environment.

use crate::process::environment::{
    allowed_names, law_names_are_valid_and_distinct, law_names_come_from_candidates,
    law_valid_names_are_passed_on, safe_names,
};
use crate::process::protocol::ProcessRequestModel;
use crate::process::tool::{call_request, CallModel, ProcessToolModel};
use crate::text::chars::trimmed;
use crate::text::laws::law_trimming_leaves_the_core;
use vstd::prelude::*;

verus! {

/// Whether `name` is one of those that every shell may see.
pub open spec fn is_usual(name: Seq<char>) -> bool {
    ||| name == "PATH"@
    ||| name == "HOME"@
    ||| name == "TERM"@
    ||| name == "LANG"@
    ||| name == "LC_ALL"@
    ||| name == "LC_CTYPE"@
    ||| name == "USER"@
    ||| name == "SHELL"@
    ||| name == "TMPDIR"@
}

/// Whether `name` is made of letters, digits and underscores, with no digit in
/// front.
pub open spec fn is_name(name: Seq<char>) -> bool {
    &&& name.len() > 0
    &&& !('0' <= name[0] <= '9')
    &&& forall|i: int|
        0 <= i < name.len() ==> {
            ||| 'a' <= #[trigger] name[i] <= 'z'
            ||| 'A' <= name[i] <= 'Z'
            ||| '0' <= name[i] <= '9'
            ||| name[i] == '_'
        }
}

/// Whether one of `extra` is `name`, but for white space around it.
pub open spec fn is_among(extra: Seq<Seq<char>>, name: Seq<char>) -> bool {
    exists|i: int| 0 <= i < extra.len() && trimmed(#[trigger] extra[i]) == name
}

/// The usual names stand as they are, and are names.
proof fn lemma_usual(name: Seq<char>)
    requires
        is_usual(name),
    ensures
        trimmed(name) == name,
        is_name(name),
{
    reveal_strlit("PATH");
    reveal_strlit("HOME");
    reveal_strlit("TERM");
    reveal_strlit("LANG");
    reveal_strlit("LC_ALL");
    reveal_strlit("LC_CTYPE");
    reveal_strlit("USER");
    reveal_strlit("SHELL");
    reveal_strlit("TMPDIR");
    law_trimming_leaves_the_core(seq![], name, seq![]);
    assert(Seq::<char>::empty() + name + Seq::<char>::empty() == name);
}

/// A process sees a variable of the environment if and only if it has a proper
/// name, and is a usual one or one that the policy adds; and it is told of none
/// twice.
pub proof fn law_process_sees_what_it_may(
    call: CallModel,
    tool: ProcessToolModel,
    environment: Seq<Seq<char>>,
    name: Seq<char>,
)
    requires
        call_request(call, tool) == Some(ProcessRequestModel::Spawn { environment }),
    ensures
        environment.no_duplicates(),
        environment.contains(name) <==> is_name(name) && (is_usual(name) || is_among(
            tool.security.shell_env_passthrough,
            name,
        )),
{
    let extra = tool.security.shell_env_passthrough;
    let usual = safe_names();
    let all = usual + extra;
    assert(environment == allowed_names(all));
    law_names_are_valid_and_distinct(all);
    let places = law_names_come_from_candidates(all);
    if environment.contains(name) {
        let i = choose|i: int| 0 <= i < environment.len() && environment[i] == name;
        let at = places[i];
        assert(trimmed(all[at]) == name);
        if at < usual.len() {
            assert(is_usual(all[at]));
            lemma_usual(all[at]);
        } else {
            assert(extra[at - usual.len()] == all[at]);
        }
    }
    if is_name(name) && is_usual(name) {
        lemma_usual(name);
        let at: int = if name == "PATH"@ {
            0
        } else if name == "HOME"@ {
            1
        } else if name == "TERM"@ {
            2
        } else if name == "LANG"@ {
            3
        } else if name == "LC_ALL"@ {
            4
        } else if name == "LC_CTYPE"@ {
            5
        } else if name == "USER"@ {
            6
        } else if name == "SHELL"@ {
            7
        } else {
            8
        };
        assert(all[at] == name);
        law_valid_names_are_passed_on(all, at);
    } else if is_name(name) && is_among(extra, name) {
        let i = choose|i: int| 0 <= i < extra.len() && trimmed(#[trigger] extra[i]) == name;
        assert(all[usual.len() + i] == extra[i]);
        law_valid_names_are_passed_on(all, usual.len() + i);
    }
}

} // verus!
