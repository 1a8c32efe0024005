//! The arguments of the process tool.

use crate::host::json::{empty_object, fields_of, no_fields, Fields, JsonObject};
use crate::host::schema::{
    add_choice, add_flag, add_number, add_text, choice, closed_schema, closed_schema_json, flag,
    number_from, property, with_property,
};
use crate::process::tool::ProcessTool;
use crate::text::lines::texts;
use vstd::prelude::*;

verus! {

/// The arguments that the process tool takes.
pub open spec fn process_properties() -> Fields {
    let p = with_property(
        no_fields(),
        "action"@,
        choice(
            seq!["start"@, "status"@, "poll"@, "log"@, "write"@, "kill"@],
            "Action to perform"@,
        ),
    );
    let p = with_property(
        p,
        "command"@,
        property(
            "string"@,
            "Shell command to start in the workspace. Required for action=start."@,
        ),
    );
    let p = with_property(
        p,
        "approved"@,
        flag("Set true to explicitly approve medium/high-risk commands in supervised mode"@),
    );
    let p = with_property(
        p,
        "session_id"@,
        property(
            "string"@,
            "Existing process session id. Required for status/poll/log/write/kill."@,
        ),
    );
    let p = with_property(
        p,
        "stdout_offset"@,
        number_from(0, "Byte cursor from a prior poll for stdout."@),
    );
    let p = with_property(
        p,
        "stderr_offset"@,
        number_from(0, "Byte cursor from a prior poll for stderr."@),
    );
    let p = with_property(
        p,
        "input"@,
        property("string"@, "Data to write to stdin for action=write."@),
    );
    with_property(
        p,
        "close_stdin"@,
        flag("Close stdin after an optional write for action=write."@),
    )
}

/// The names of the actions.
fn action_names() -> (r: Vec<String>)
    ensures
        texts(r@) == seq!["start"@, "status"@, "poll"@, "log"@, "write"@, "kill"@],
{
    let mut out: Vec<String> = Vec::new();
    out.push("start".to_string());
    out.push("status".to_string());
    out.push("poll".to_string());
    out.push("log".to_string());
    out.push("write".to_string());
    out.push("kill".to_string());
    assert(texts(out@) == seq!["start"@, "status"@, "poll"@, "log"@, "write"@, "kill"@]);
    out
}

impl ProcessTool {
    /// The arguments that the tool takes.
    pub fn parameters_schema(&self) -> (r: JsonObject)
        ensures
            fields_of(r) == closed_schema(process_properties(), "action"@),
    {
        let mut p = empty_object();
        add_choice(&mut p, "action", action_names().as_slice(), "Action to perform");
        add_text(
            &mut p,
            "command",
            "Shell command to start in the workspace. Required for action=start.",
        );
        add_flag(
            &mut p,
            "approved",
            "Set true to explicitly approve medium/high-risk commands in supervised mode",
        );
        add_text(
            &mut p,
            "session_id",
            "Existing process session id. Required for status/poll/log/write/kill.",
        );
        add_number(&mut p, "stdout_offset", 0, "Byte cursor from a prior poll for stdout.");
        add_number(&mut p, "stderr_offset", 0, "Byte cursor from a prior poll for stderr.");
        add_text(&mut p, "input", "Data to write to stdin for action=write.");
        add_flag(
            &mut p,
            "close_stdin",
            "Close stdin after an optional write for action=write.",
        );
        closed_schema_json(p, "action")
    }
}

} // verus!
