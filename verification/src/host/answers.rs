//! What the answers of tools hold.

use crate::host::json::{Fields, JsonModel};
use crate::host::tool::ToolResultModel;
use vstd::prelude::*;

verus! {

/// Whether a field holds that.
pub open spec fn holds(fields: Fields, key: Seq<char>, value: JsonModel) -> bool {
    fields.contains_key(key) && fields[key] == value
}

/// Whether a field holds a text, or nothing where there is none.
pub open spec fn holds_optional(fields: Fields, key: Seq<char>, text: Option<Seq<char>>) -> bool {
    match text {
        Some(text) => holds(fields, key, JsonModel::Text(text)),
        None => holds(fields, key, JsonModel::Null),
    }
}

/// Whether a field holds a list of these texts.
pub open spec fn holds_texts(fields: Fields, key: Seq<char>, texts: Seq<Seq<char>>) -> bool {
    &&& fields.contains_key(key)
    &&& fields[key] matches JsonModel::List(list) && list.len() == texts.len() && forall|i: int|
        0 <= i < texts.len() ==> #[trigger] list[i] == JsonModel::Text(texts[i])
}

/// The fields of the object that a field holds.
pub open spec fn object_in(fields: Fields, key: Seq<char>) -> Option<Fields> {
    if fields.contains_key(key) {
        match fields[key] {
            JsonModel::Object(inner) => Some(inner),
            _ => None,
        }
    } else {
        None
    }
}

/// Whether an answer says that something went wrong, and what.
pub open spec fn is_error(result: ToolResultModel, message: Seq<char>) -> bool {
    !result.success && result.output.len() == 0 && result.error == Some(message)
}

/// A number that tells the names of fields apart.
pub closed spec fn mark(name: Seq<char>) -> int {
    name.len() * 1000 + name[1] as int + name[2] as int + name[3] as int
}

/// The names of fields are told apart.
pub proof fn lemma_field_names()
    ensures
        mark("session_id"@) == 10331,
        mark("owner_key"@) == 9330,
        mark("agent_name"@) == 10314,
        mark("provider"@) == 8343,
        mark("model"@) == 5312,
        mark("allowed_tools"@) == 13327,
        mark("max_depth"@) == 9312,
        mark("max_iterations"@) == 14312,
        mark("timeout_secs"@) == 12315,
        mark("prompt_summary"@) == 14334,
        mark("channel_name"@) == 12311,
        mark("reply_target"@) == 12321,
        mark("started_at"@) == 10327,
        mark("last_update_at"@) == 14328,
        mark("completed_at"@) == 12332,
        mark("state"@) == 5329,
        mark("completion"@) == 10332,
        mark("success"@) == 7315,
        mark("summary"@) == 7335,
        mark("error"@) == 5339,
        mark("artifacts"@) == 9335,
        mark("action"@) == 6320,
        mark("session"@) == 7331,
        mark("command_summary"@) == 15329,
        mark("last_activity_at"@) == 16328,
        mark("exit_state"@) == 10341,
        mark("has_stdin"@) == 9307,
        mark("stdout"@) == 6327,
        mark("stderr"@) == 6317,
        mark("code"@) == 4312,
        mark("reason"@) == 6313,
        mark("content"@) == 7337,
        mark("truncated"@) == 9341,
        mark("total_bytes"@) == 11324,
        mark("next_offset"@) == 11337,
        mark("missed_output"@) == 13335,
        mark("stdout_total_bytes"@) == 18327,
        mark("stderr_total_bytes"@) == 18317,
{
    reveal_strlit("session_id");
    reveal_strlit("owner_key");
    reveal_strlit("agent_name");
    reveal_strlit("provider");
    reveal_strlit("model");
    reveal_strlit("allowed_tools");
    reveal_strlit("max_depth");
    reveal_strlit("max_iterations");
    reveal_strlit("timeout_secs");
    reveal_strlit("prompt_summary");
    reveal_strlit("channel_name");
    reveal_strlit("reply_target");
    reveal_strlit("started_at");
    reveal_strlit("last_update_at");
    reveal_strlit("completed_at");
    reveal_strlit("state");
    reveal_strlit("completion");
    reveal_strlit("success");
    reveal_strlit("summary");
    reveal_strlit("error");
    reveal_strlit("artifacts");
    reveal_strlit("action");
    reveal_strlit("session");
    reveal_strlit("command_summary");
    reveal_strlit("last_activity_at");
    reveal_strlit("exit_state");
    reveal_strlit("has_stdin");
    reveal_strlit("stdout");
    reveal_strlit("stderr");
    reveal_strlit("code");
    reveal_strlit("reason");
    reveal_strlit("content");
    reveal_strlit("truncated");
    reveal_strlit("total_bytes");
    reveal_strlit("next_offset");
    reveal_strlit("missed_output");
    reveal_strlit("stdout_total_bytes");
    reveal_strlit("stderr_total_bytes");
}

} // verus!
