//! The arguments of the child session tool.

use crate::child_session::tool::ChildSessionTool;
use crate::host::json::{empty_object, fields_of, no_fields, Fields, JsonObject};
use crate::host::schema::{
    add_choice, add_number, add_text, choice, closed_schema, closed_schema_json, number_from,
    property, with_property,
};
use crate::text::lines::texts;
use vstd::prelude::*;

verus! {

/// The arguments that the child session tool takes.
pub open spec fn child_properties() -> Fields {
    let p = with_property(
        no_fields(),
        "action"@,
        choice(seq!["spawn"@, "status"@, "wait"@, "cancel"@], "Action to perform"@),
    );
    let p = with_property(
        p,
        "agent"@,
        property("string"@, "Delegate agent name. Required for action=spawn."@),
    );
    let p = with_property(
        p,
        "prompt"@,
        property("string"@, "Task prompt for the child agent. Required for action=spawn."@),
    );
    let p = with_property(
        p,
        "context"@,
        property("string"@, "Optional context to prepend for action=spawn."@),
    );
    let p = with_property(
        p,
        "timeout_secs"@,
        number_from(1, "Per-child execution timeout in seconds for action=spawn."@),
    );
    let p = with_property(
        p,
        "session_id"@,
        property("string"@, "Existing child session id. Required for status/wait/cancel."@),
    );
    with_property(
        p,
        "wait_timeout_secs"@,
        number_from(1, "How long wait should block before returning the latest status."@),
    )
}

/// The names of the actions.
fn action_names() -> (r: Vec<String>)
    ensures
        texts(r@) == seq!["spawn"@, "status"@, "wait"@, "cancel"@],
{
    let mut out: Vec<String> = Vec::new();
    out.push("spawn".to_string());
    out.push("status".to_string());
    out.push("wait".to_string());
    out.push("cancel".to_string());
    assert(texts(out@) == seq!["spawn"@, "status"@, "wait"@, "cancel"@]);
    out
}

impl ChildSessionTool {
    /// The arguments that the tool takes.
    pub fn parameters_schema(&self) -> (r: JsonObject)
        ensures
            fields_of(r) == closed_schema(child_properties(), "action"@),
    {
        let mut p = empty_object();
        add_choice(&mut p, "action", action_names().as_slice(), "Action to perform");
        add_text(&mut p, "agent", "Delegate agent name. Required for action=spawn.");
        add_text(
            &mut p,
            "prompt",
            "Task prompt for the child agent. Required for action=spawn.",
        );
        add_text(&mut p, "context", "Optional context to prepend for action=spawn.");
        add_number(
            &mut p,
            "timeout_secs",
            1,
            "Per-child execution timeout in seconds for action=spawn.",
        );
        add_text(
            &mut p,
            "session_id",
            "Existing child session id. Required for status/wait/cancel.",
        );
        add_number(
            &mut p,
            "wait_timeout_secs",
            1,
            "How long wait should block before returning the latest status.",
        );
        closed_schema_json(p, "action")
    }
}

} // verus!
