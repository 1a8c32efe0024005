//! The tool that applies a patch.

use crate::apply_patch::document::parse_error_text;
use crate::apply_patch::errors::{execution_error_text, ExecutionErrorModel};
use crate::apply_patch::execution::{
    requested, started, OutcomeModel, PatchExecutionSummary, PatchRun, RunModel,
};
use crate::apply_patch::grammar::patch_of;
use crate::apply_patch::parse::parse_patch_document;
use crate::apply_patch::protocol::RequestModel;
use crate::host::json::{
    empty_object, fields_of, no_fields, text_argument, text_in, Fields, JsonObject,
};
use crate::host::schema::{add_text, open_schema, open_schema_json, property, with_property};
use crate::host::tool::{error_result, tool_error, SecurityPolicy, ToolResult, ToolResultModel};
use crate::text::decimal::{append_decimal, decimal};
use crate::text::lines::{join, joined, texts};
use std::sync::Arc;
use vstd::prelude::*;

verus! {

/// The tool that applies a patch to the files of the workspace.
pub struct ApplyPatchTool {
    security: Arc<SecurityPolicy>,
}

/// A call of the tool: a patch that is being carried out, or the outcome.
pub enum PatchCall {
    Running(PatchRun),
    Finished(ToolResult),
}

/// What a call says.
#[verifier::ext_equal]
pub enum PatchCallModel {
    Running(RunModel),
    Finished(ToolResultModel),
}

impl View for PatchCall {
    type V = PatchCallModel;

    open spec fn view(&self) -> PatchCallModel {
        match self {
            PatchCall::Running(run) => PatchCallModel::Running(run@),
            PatchCall::Finished(result) => PatchCallModel::Finished(result@),
        }
    }
}

/// What the summary of a patch says.
pub open spec fn summary_text(affected: Seq<Seq<char>>) -> Seq<char> {
    if affected.len() == 0 {
        "Applied patch with no file changes."@
    } else if affected.len() == 1 {
        "Applied patch touching: "@ + affected[0]
    } else {
        "Applied patch touching "@ + decimal(affected.len()) + " paths: "@ + joined(
            affected,
            ", "@,
        )
    }
}

/// The summary of a patch.
pub fn format_patch_summary(summary: &PatchExecutionSummary) -> (r: String)
    ensures
        r@ == summary_text(texts(summary.affected_paths@)),
{
    let count: usize = summary.affected_paths.len();
    if count == 0 {
        return "Applied patch with no file changes.".to_string();
    }
    if count == 1 {
        let mut text = "Applied patch touching: ".to_string();
        text.append(summary.affected_paths[0].as_str());
        return text;
    }
    let mut text = "Applied patch touching ".to_string();
    append_decimal(&mut text, count as u64);
    text.append(" paths: ");
    text.append(join(summary.affected_paths.as_slice(), ", ").as_str());
    text
}

/// The outcome of a call, once the patch has been carried out or given up.
pub open spec fn patch_result(outcome: OutcomeModel) -> Option<ToolResultModel> {
    match outcome {
        None => None,
        Some(Ok(affected)) => Some(
            ToolResultModel { success: true, output: summary_text(affected), error: None },
        ),
        Some(Err(error)) => Some(error_result(execution_error_text(error))),
    }
}

/// A call with the text of a patch.
pub open spec fn call_with_patch(workspace: Seq<char>, patch: Seq<char>) -> PatchCallModel {
    match patch_of(patch) {
        Ok(operations) => PatchCallModel::Running(started(workspace, operations)),
        Err(error) => PatchCallModel::Finished(error_result(parse_error_text(error))),
    }
}

/// The arguments that the tool takes.
pub open spec fn patch_properties() -> Fields {
    with_property(
        no_fields(),
        "patch"@,
        property(
            "string"@,
            "Structured patch document using *** Begin Patch / *** End Patch grammar"@,
        ),
    )
}

impl ApplyPatchTool {
    /// The directory that the paths of a patch start from.
    pub closed spec fn workspace(&self) -> Seq<char> {
        self.security.workspace_dir@
    }

    pub fn new(security: Arc<SecurityPolicy>) -> (r: Self)
        ensures
            r.workspace() == security.workspace_dir@,
    {
        Self { security }
    }

    pub fn name(&self) -> (r: &'static str)
        ensures
            r@ == "apply_patch"@,
    {
        "apply_patch"
    }

    pub fn description(&self) -> (r: &'static str)
        ensures
            r@
                == "Apply a structured multi-file patch with add, update, move, and delete operations"@,
    {
        "Apply a structured multi-file patch with add, update, move, and delete operations"
    }

    /// The arguments that the tool takes.
    pub fn parameters_schema(&self) -> (r: JsonObject)
        ensures
            fields_of(r) == open_schema(patch_properties(), "patch"@),
    {
        let mut p = empty_object();
        add_text(
            &mut p,
            "patch",
            "Structured patch document using *** Begin Patch / *** End Patch grammar",
        );
        open_schema_json(p, "patch")
    }

    /// Begins a call. The one argument is the patch.
    pub fn execute(&self, args: &JsonObject) -> (r: Result<PatchCall, String>)
        ensures
            match text_in(fields_of(*args), "patch"@) {
                Some(patch) => r matches Ok(call) && call@ == call_with_patch(
                    self.workspace(),
                    patch,
                ),
                None => r matches Err(message) && message@ == "Missing 'patch' parameter"@,
            },
    {
        match text_argument(args, "patch") {
            Some(patch) => Ok(self.execute_patch_text(patch.as_str())),
            None => Err("Missing 'patch' parameter".to_string()),
        }
    }

    /// Begins a call with the text of a patch.
    pub fn execute_patch_text(&self, patch: &str) -> (r: PatchCall)
        ensures
            r@ == call_with_patch(self.workspace(), patch@),
    {
        match parse_patch_document(patch) {
            Ok(document) => PatchCall::Running(
                PatchRun::start(self.security.workspace_dir.clone(), document),
            ),
            Err(error) => PatchCall::Finished(tool_error(error.to_text())),
        }
    }
}

impl PatchRun {
    /// The outcome of the call, once the patch has been carried out or given up.
    pub fn result(&self) -> (r: Option<ToolResult>)
        ensures
            match r {
                Some(result) => patch_result(self@.outcome) == Some(result@),
                None => patch_result(self@.outcome) is None,
            },
    {
        match &self.outcome {
            None => None,
            Some(Ok(summary)) => Some(
                ToolResult { success: true, output: format_patch_summary(summary), error: None },
            ),
            Some(Err(error)) => Some(tool_error(error.to_text())),
        }
    }
}

/// A call is answered once its patch has been carried out or given up, and not
/// before: with success, and every path that it touched in order, or with what
/// went wrong. A text that is no patch is answered at once, and nothing is asked
/// or changed.
pub proof fn law_outcome_is_told(
    workspace: Seq<char>,
    patch: Seq<char>,
    affected: Seq<Seq<char>>,
    error: ExecutionErrorModel,
)
    ensures
        patch_result(None) is None,
        patch_result(Some(Ok(affected))) matches Some(result) && result.success
            && result.error is None && (affected.len() == 0 || exists|start: Seq<char>|
            result.output == #[trigger] (start + joined(affected, ", "@))),
        affected.len() > 1 ==> (patch_result(Some(Ok(affected))) matches Some(result)
            && result.output == "Applied patch touching "@ + decimal(affected.len()) + " paths: "@
            + joined(affected, ", "@)),
        patch_result(Some(Err(error))) matches Some(result) && !result.success
            && result.output.len() == 0 && result.error == Some(execution_error_text(error)),
        match patch_of(patch) {
            Ok(operations) => call_with_patch(workspace, patch) == PatchCallModel::Running(
                started(workspace, operations),
            ) && requested(started(workspace, operations)) == Some(RequestModel::CanAct),
            Err(reason) => call_with_patch(workspace, patch) matches PatchCallModel::Finished(
                result,
            ) && !result.success && result.output.len() == 0 && result.error == Some(
                parse_error_text(reason),
            ),
        },
{
    if affected.len() == 1 {
        let start = "Applied patch touching: "@;
        assert(joined(affected, ", "@) == affected[0]);
        assert(patch_result(Some(Ok(affected)))->0.output == start + joined(affected, ", "@));
    } else if affected.len() > 1 {
        let start = "Applied patch touching "@ + decimal(affected.len()) + " paths: "@;
        assert(patch_result(Some(Ok(affected)))->0.output == start + joined(affected, ", "@));
    }
}

} // verus!
