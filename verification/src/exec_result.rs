//! Which result a client's command execution hands back for a tool call, and how it fills the
//! tool that Cursor shows.
use vstd::prelude::*;

use crate::error::{is_protocol, Error};

verus! {

/// The Cursor form a tool call is shown in.
#[derive(Clone, Copy, Debug, PartialEq, Eq, Structural)]
pub enum RenderedTool {
    Shell,
    Delete,
    Grep,
    Glob,
    Read,
    ReadLints,
    Mcp,
    ReadMcpResource,
    Task,
    Edit,
    /// A form that no execution result fills.
    Other,
}

/// The kind of result the client sent back for an execution.
#[derive(Clone, Copy, Debug, PartialEq, Eq, Structural)]
pub enum ExecResultKind {
    Shell,
    MiniSweAgentBash,
    Delete,
    Grep,
    Read,
    RedactedRead,
    Diagnostics,
    Mcp,
    ReadMcpResource,
    Subagent,
    /// A file write, and whether it succeeded.
    Write { success: bool },
    McpState,
    ForceBackgroundSubagent,
    SubagentAwait,
    /// Any other result.
    Other,
}

/// How an execution result completes its tool call.
#[derive(Clone, Copy, Debug, PartialEq, Eq, Structural)]
pub enum ExecRoute {
    /// The MCP state result completes the call on its own.
    McpState,
    /// The answer to sending a subagent to the background completes the Task call.
    BackgroundSubagent,
    /// The answer to awaiting a subagent completes the Await call.
    SubagentAwait,
    /// The result becomes the tool's result as it is.
    Copy,
    /// The result is rendered for a glob.
    Glob,
    /// The file read is rendered for the read call.
    Read,
    /// The diagnostics are rendered for the lint read.
    Diagnostics,
    /// The MCP result is rendered for the MCP call.
    Mcp,
    /// The subagent's result is rendered for the Task call.
    Task,
    /// A successful write completes the staged edit.
    EditSuccess,
    /// The write result is rendered for the edit call.
    Write,
}

/// How an execution result completes its tool call, shown as `tool` (when it has a Cursor
/// form) and staged as an edit's write when `edit_write`: the orchestration results complete
/// the call on their own; otherwise the result must belong to the tool's form, else `None`.
pub open spec fn exec_route(tool: Option<RenderedTool>, result: ExecResultKind, edit_write: bool) -> Option<ExecRoute> {
    match result {
        ExecResultKind::McpState => Some(ExecRoute::McpState),
        ExecResultKind::ForceBackgroundSubagent => Some(ExecRoute::BackgroundSubagent),
        ExecResultKind::SubagentAwait => Some(ExecRoute::SubagentAwait),
        _ => match tool {
            None => None,
            Some(t) => match (t, result) {
                (RenderedTool::Shell, ExecResultKind::Shell) => Some(ExecRoute::Copy),
                (RenderedTool::Shell, ExecResultKind::MiniSweAgentBash) => Some(ExecRoute::Copy),
                (RenderedTool::Delete, ExecResultKind::Delete) => Some(ExecRoute::Copy),
                (RenderedTool::Grep, ExecResultKind::Grep) => Some(ExecRoute::Copy),
                (RenderedTool::Glob, ExecResultKind::Grep) => Some(ExecRoute::Glob),
                (RenderedTool::Read, ExecResultKind::Read) => Some(ExecRoute::Read),
                (RenderedTool::Read, ExecResultKind::RedactedRead) => Some(ExecRoute::Read),
                (RenderedTool::ReadLints, ExecResultKind::Diagnostics) => Some(ExecRoute::Diagnostics),
                (RenderedTool::Mcp, ExecResultKind::Mcp) => Some(ExecRoute::Mcp),
                (RenderedTool::ReadMcpResource, ExecResultKind::ReadMcpResource) => Some(ExecRoute::Copy),
                (RenderedTool::Task, ExecResultKind::Subagent) => Some(ExecRoute::Task),
                (RenderedTool::Edit, ExecResultKind::Write { success }) => if edit_write && success {
                    Some(ExecRoute::EditSuccess)
                } else {
                    Some(ExecRoute::Write)
                },
                _ => None,
            },
        },
    }
}

/// Every result of a tool's own kind fills that tool, whatever the edit staging: a shell run
/// fills a shell call, a grep a grep or glob call, a file read a read call, and so on; and the
/// orchestration results complete their call whatever form it is shown in.
pub proof fn lemma_own_results_are_accepted(tool: Option<RenderedTool>, edit_write: bool, success: bool)
    ensures
        exec_route(Some(RenderedTool::Shell), ExecResultKind::Shell, edit_write) == Some(ExecRoute::Copy),
        exec_route(Some(RenderedTool::Shell), ExecResultKind::MiniSweAgentBash, edit_write) == Some(
            ExecRoute::Copy,
        ),
        exec_route(Some(RenderedTool::Delete), ExecResultKind::Delete, edit_write) == Some(ExecRoute::Copy),
        exec_route(Some(RenderedTool::Grep), ExecResultKind::Grep, edit_write) == Some(ExecRoute::Copy),
        exec_route(Some(RenderedTool::Glob), ExecResultKind::Grep, edit_write) == Some(ExecRoute::Glob),
        exec_route(Some(RenderedTool::Read), ExecResultKind::Read, edit_write) == Some(ExecRoute::Read),
        exec_route(Some(RenderedTool::Read), ExecResultKind::RedactedRead, edit_write) == Some(
            ExecRoute::Read,
        ),
        exec_route(Some(RenderedTool::ReadLints), ExecResultKind::Diagnostics, edit_write) == Some(
            ExecRoute::Diagnostics,
        ),
        exec_route(Some(RenderedTool::Mcp), ExecResultKind::Mcp, edit_write) == Some(ExecRoute::Mcp),
        exec_route(Some(RenderedTool::ReadMcpResource), ExecResultKind::ReadMcpResource, edit_write)
            == Some(ExecRoute::Copy),
        exec_route(Some(RenderedTool::Task), ExecResultKind::Subagent, edit_write) == Some(ExecRoute::Task),
        exec_route(Some(RenderedTool::Edit), ExecResultKind::Write { success }, edit_write) == Some(
            if edit_write && success {
                ExecRoute::EditSuccess
            } else {
                ExecRoute::Write
            },
        ),
        exec_route(tool, ExecResultKind::McpState, edit_write) == Some(ExecRoute::McpState),
        exec_route(tool, ExecResultKind::ForceBackgroundSubagent, edit_write) == Some(
            ExecRoute::BackgroundSubagent,
        ),
        exec_route(tool, ExecResultKind::SubagentAwait, edit_write) == Some(ExecRoute::SubagentAwait),
{
}

/// A result of another tool's kind is refused: a shell call takes only shell runs, a read call
/// only file reads, and a call with no Cursor form takes only the orchestration results.
pub proof fn lemma_foreign_results_are_refused(result: ExecResultKind, edit_write: bool)
    ensures
        !(result is Shell || result is MiniSweAgentBash || result is McpState
            || result is ForceBackgroundSubagent || result is SubagentAwait) ==> exec_route(
            Some(RenderedTool::Shell),
            result,
            edit_write,
        ) is None,
        !(result is Read || result is RedactedRead || result is McpState
            || result is ForceBackgroundSubagent || result is SubagentAwait) ==> exec_route(
            Some(RenderedTool::Read),
            result,
            edit_write,
        ) is None,
        !(result is McpState || result is ForceBackgroundSubagent || result is SubagentAwait)
            ==> exec_route(None, result, edit_write) is None,
{
}

/// Pairs an execution result with the tool call `tool_name`, shown as `tool` and staged as an
/// edit's write when `edit_write` (see [`exec_route`]); a result that does not belong to the
/// call is a protocol error naming the tool.
pub fn exec_pairing(
    tool: Option<RenderedTool>,
    result: ExecResultKind,
    edit_write: bool,
    tool_name: &str,
) -> (r: Result<ExecRoute, Error>)
    ensures
        match exec_route(tool, result, edit_write) {
            Some(route) => r == Ok::<ExecRoute, Error>(route),
            None => r matches Err(e) && is_protocol(e, "unexpected Exec result for tool "@ + tool_name@),
        },
{
    match result {
        ExecResultKind::McpState => return Ok(ExecRoute::McpState),
        ExecResultKind::ForceBackgroundSubagent => return Ok(ExecRoute::BackgroundSubagent),
        ExecResultKind::SubagentAwait => return Ok(ExecRoute::SubagentAwait),
        _ => {},
    }
    let route = match tool {
        None => None,
        Some(t) => match (t, result) {
            (RenderedTool::Shell, ExecResultKind::Shell) => Some(ExecRoute::Copy),
            (RenderedTool::Shell, ExecResultKind::MiniSweAgentBash) => Some(ExecRoute::Copy),
            (RenderedTool::Delete, ExecResultKind::Delete) => Some(ExecRoute::Copy),
            (RenderedTool::Grep, ExecResultKind::Grep) => Some(ExecRoute::Copy),
            (RenderedTool::Glob, ExecResultKind::Grep) => Some(ExecRoute::Glob),
            (RenderedTool::Read, ExecResultKind::Read) => Some(ExecRoute::Read),
            (RenderedTool::Read, ExecResultKind::RedactedRead) => Some(ExecRoute::Read),
            (RenderedTool::ReadLints, ExecResultKind::Diagnostics) => Some(ExecRoute::Diagnostics),
            (RenderedTool::Mcp, ExecResultKind::Mcp) => Some(ExecRoute::Mcp),
            (RenderedTool::ReadMcpResource, ExecResultKind::ReadMcpResource) => Some(ExecRoute::Copy),
            (RenderedTool::Task, ExecResultKind::Subagent) => Some(ExecRoute::Task),
            (RenderedTool::Edit, ExecResultKind::Write { success }) => if edit_write && success {
                Some(ExecRoute::EditSuccess)
            } else {
                Some(ExecRoute::Write)
            },
            _ => None,
        },
    };
    match route {
        Some(r) => Ok(r),
        None => Err(crate::error::protocol_error("unexpected Exec result for tool ", tool_name)),
    }
}

} // verus!
