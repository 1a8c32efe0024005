//! What a tool is given and what it answers.

use crate::host::json::text_outcome;
use crate::text::lines::texts;
use vstd::prelude::*;

verus! {

/// The outcome of a call of a tool.
#[derive(Debug, Clone, PartialEq, Eq)]
pub struct ToolResult {
    pub success: bool,
    pub output: String,
    pub error: Option<String>,
}

/// What an outcome says.
#[verifier::ext_equal]
pub struct ToolResultModel {
    pub success: bool,
    pub output: Seq<char>,
    pub error: Option<Seq<char>>,
}

/// What an optional string says.
pub open spec fn optional_view(text: Option<String>) -> Option<Seq<char>> {
    match text {
        Some(text) => Some(text@),
        None => None,
    }
}

impl View for ToolResult {
    type V = ToolResultModel;

    open spec fn view(&self) -> ToolResultModel {
        ToolResultModel {
            success: self.success,
            output: self.output@,
            error: optional_view(self.error),
        }
    }
}

/// The outcome of a call that went wrong.
pub open spec fn error_result(message: Seq<char>) -> ToolResultModel {
    ToolResultModel { success: false, output: seq![], error: Some(message) }
}

/// The outcome of a call that answers with a text, if the text could be made.
pub open spec fn text_result(text: Result<Seq<char>, Seq<char>>) -> ToolResultModel {
    match text {
        Ok(output) => ToolResultModel { success: true, output, error: None },
        Err(reason) => error_result(reason),
    }
}

/// The outcome of a call that went wrong.
pub fn tool_error(message: String) -> (r: ToolResult)
    ensures
        r@ == error_result(message@),
{
    ToolResult { success: false, output: String::new(), error: Some(message) }
}

/// The outcome of a call that answers with a text, if the text could be made.
pub fn tool_answer(text: Result<String, String>) -> (r: ToolResult)
    ensures
        r@ == text_result(text_outcome(text)),
{
    match text {
        Ok(output) => ToolResult { success: true, output, error: None },
        Err(reason) => tool_error(reason),
    }
}

/// The conversation that a tool is called from.
#[derive(Debug, Clone, PartialEq, Eq)]
pub struct ToolExecutionContext {
    /// The key under which the conversation owns its sessions.
    pub owner_key: Option<String>,
    pub channel_name: Option<String>,
    pub reply_target: Option<String>,
}

/// What a context says.
#[verifier::ext_equal]
pub struct ContextModel {
    pub owner_key: Option<Seq<char>>,
    pub channel_name: Option<Seq<char>>,
    pub reply_target: Option<Seq<char>>,
}

impl View for ToolExecutionContext {
    type V = ContextModel;

    open spec fn view(&self) -> ContextModel {
        ContextModel {
            owner_key: optional_view(self.owner_key),
            channel_name: optional_view(self.channel_name),
            reply_target: optional_view(self.reply_target),
        }
    }
}

/// What an optional context says.
pub open spec fn optional_context(context: Option<ToolExecutionContext>) -> Option<ContextModel> {
    match context {
        Some(context) => Some(context@),
        None => None,
    }
}

/// The key under which sessions of a context are owned.
pub open spec fn owner_in(context: Option<ContextModel>) -> Option<Seq<char>> {
    match context {
        Some(context) => context.owner_key,
        None => None,
    }
}

/// The key under which sessions of a context are owned.
pub fn owner_of(context: &Option<ToolExecutionContext>) -> (r: Option<String>)
    ensures
        optional_view(r) == owner_in(optional_context(*context)),
{
    match context {
        Some(context) => copy_optional(&context.owner_key),
        None => None,
    }
}

/// A copy of an optional string.
pub fn copy_optional(text: &Option<String>) -> (r: Option<String>)
    ensures
        optional_view(r) == optional_view(*text),
{
    match text {
        Some(text) => Some(text.clone()),
        None => None,
    }
}

/// A copy of an optional context.
pub fn copy_context(context: &Option<ToolExecutionContext>) -> (r: Option<ToolExecutionContext>)
    ensures
        optional_context(r) == optional_context(*context),
{
    match context {
        Some(context) => Some(
            ToolExecutionContext {
                owner_key: copy_optional(&context.owner_key),
                channel_name: copy_optional(&context.channel_name),
                reply_target: copy_optional(&context.reply_target),
            },
        ),
        None => None,
    }
}

/// What the tools read of the security policy. What it allows, it is asked for
/// when the question comes up.
#[derive(Debug, Clone, PartialEq, Eq)]
pub struct SecurityPolicy {
    pub workspace_dir: String,
    /// Names of environment variables that a shell may see, beside the usual.
    pub shell_env_passthrough: Vec<String>,
}

/// What a policy says.
#[verifier::ext_equal]
pub struct PolicyModel {
    pub workspace_dir: Seq<char>,
    pub shell_env_passthrough: Seq<Seq<char>>,
}

impl View for SecurityPolicy {
    type V = PolicyModel;

    open spec fn view(&self) -> PolicyModel {
        PolicyModel {
            workspace_dir: self.workspace_dir@,
            shell_env_passthrough: texts(self.shell_env_passthrough@),
        }
    }
}

/// What a tool may be about to do.
#[derive(Debug, Clone, Copy, PartialEq, Eq, Structural)]
pub enum ToolOperation {
    Read,
    Act,
}

} // verus!
