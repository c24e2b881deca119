//! How the client's results of orchestration tools (sending a subagent to the background,
//! awaiting one) become what the model reads and what Cursor shows.
use vstd::prelude::*;

use crate::error::{is_protocol, Error};

verus! {

/// The protocol number of an accepted background request.
pub const FORCE_BACKGROUND_ACCEPTED: i32 = 1;

/// What the client reports of an awaited background agent.
pub enum SubagentAwaitResult {
    Complete { agent_id: String, final_message: Option<String>, transcript_path: Option<String> },
    StillRunning { agent_id: String, transcript_path: Option<String> },
    NotFound { agent_id: String },
    Error { error: String },
}

/// The Await result that Cursor shows.
pub enum AwaitReport {
    Complete { task_id: String, output_file_path: String },
    StillRunning { task_id: String, output_file_path: String },
    Error { error: String },
}

/// The Task result that Cursor shows for a background request.
pub enum BackgroundReport {
    Success { is_background: bool, result_suffix: Option<String> },
    Error { error: String },
}

/// What the model reads of a tool result, whether it failed, and what Cursor shows.
pub struct Orchestrated<T> {
    pub content: String,
    pub is_error: bool,
    pub report: T,
}

/// An optional text, or nothing.
pub open spec fn or_empty(o: Option<String>) -> Seq<char> {
    match o {
        Some(s) => s@,
        None => Seq::empty(),
    }
}

/// What an awaited agent's result reads as: a completed agent's final message (or a plain
/// note) with its task and transcript; a still running agent with its task and transcript; a
/// missing agent or an error as a failure.
pub open spec fn await_reads(result: SubagentAwaitResult, o: Orchestrated<AwaitReport>) -> bool {
    match result {
        SubagentAwaitResult::Complete { agent_id, final_message, transcript_path } => {
            &&& o.content@ == (match final_message {
                Some(m) => m@,
                None => "background agent completed"@,
            })
            &&& !o.is_error
            &&& o.report matches AwaitReport::Complete { task_id, output_file_path } && task_id@
                == agent_id@ && output_file_path@ == or_empty(transcript_path)
        },
        SubagentAwaitResult::StillRunning { agent_id, transcript_path } => {
            &&& o.content@ == "background agent is still running"@
            &&& !o.is_error
            &&& o.report matches AwaitReport::StillRunning { task_id, output_file_path } && task_id@
                == agent_id@ && output_file_path@ == or_empty(transcript_path)
        },
        SubagentAwaitResult::NotFound { agent_id } => {
            &&& o.content@ == "background agent not found: "@ + agent_id@
            &&& o.is_error
            &&& o.report matches AwaitReport::Error { error } && error@ == o.content@
        },
        SubagentAwaitResult::Error { error } => {
            &&& o.content@ == error@
            &&& o.is_error
            &&& o.report matches AwaitReport::Error { error: shown } && shown@ == error@
        },
    }
}

/// The copy of an optional text, or an empty text.
fn text_or_empty(o: &Option<String>) -> (r: String)
    ensures
        r@ == or_empty(*o),
{
    match o {
        Some(s) => crate::text::copy(s.as_str()),
        None => String::new(),
    }
}

/// What the client's Await result reads as (see [`await_reads`]); a missing result is a
/// protocol error.
pub fn await_result(result: &Option<SubagentAwaitResult>) -> (r: Result<Orchestrated<AwaitReport>, Error>)
    ensures
        match *result {
            Some(value) => r matches Ok(o) && await_reads(value, o),
            None => r matches Err(e) && is_protocol(e, "AWAIT returned no result"@),
        },
{
    match result {
        Some(SubagentAwaitResult::Complete { agent_id, final_message, transcript_path }) => {
            let content = match final_message {
                Some(m) => crate::text::copy(m.as_str()),
                None => crate::text::copy("background agent completed"),
            };
            Ok(
                Orchestrated {
                    content,
                    is_error: false,
                    report: AwaitReport::Complete {
                        task_id: crate::text::copy(agent_id.as_str()),
                        output_file_path: text_or_empty(transcript_path),
                    },
                },
            )
        },
        Some(SubagentAwaitResult::StillRunning { agent_id, transcript_path }) => Ok(
            Orchestrated {
                content: crate::text::copy("background agent is still running"),
                is_error: false,
                report: AwaitReport::StillRunning {
                    task_id: crate::text::copy(agent_id.as_str()),
                    output_file_path: text_or_empty(transcript_path),
                },
            },
        ),
        Some(SubagentAwaitResult::NotFound { agent_id }) => {
            let mut content = crate::text::copy("background agent not found: ");
            crate::text::push_str(&mut content, agent_id.as_str());
            let error = crate::text::copy(content.as_str());
            Ok(Orchestrated { content, is_error: true, report: AwaitReport::Error { error } })
        },
        Some(SubagentAwaitResult::Error { error }) => Ok(
            Orchestrated {
                content: crate::text::copy(error.as_str()),
                is_error: true,
                report: AwaitReport::Error { error: crate::text::copy(error.as_str()) },
            },
        ),
        None => Err(crate::error::protocol_message("AWAIT returned no result")),
    }
}

/// What the client's answer to a background request reads as: an accepted request is a
/// background Task success, any other status a failure that the agent was not found.
pub fn background_result(status: i32) -> (r: Orchestrated<BackgroundReport>)
    ensures
        status == FORCE_BACKGROUND_ACCEPTED ==> {
            &&& r.content@ == "background agent accepted"@
            &&& !r.is_error
            &&& r.report matches BackgroundReport::Success { is_background, result_suffix }
                && is_background && (result_suffix matches Some(s) && s@ == r.content@)
        },
        status != FORCE_BACKGROUND_ACCEPTED ==> {
            &&& r.content@ == "background agent was not found"@
            &&& r.is_error
            &&& r.report matches BackgroundReport::Error { error } && error@ == r.content@
        },
{
    if status == FORCE_BACKGROUND_ACCEPTED {
        Orchestrated {
            content: crate::text::copy("background agent accepted"),
            is_error: false,
            report: BackgroundReport::Success {
                is_background: true,
                result_suffix: Some(crate::text::copy("background agent accepted")),
            },
        }
    } else {
        Orchestrated {
            content: crate::text::copy("background agent was not found"),
            is_error: true,
            report: BackgroundReport::Error { error: crate::text::copy("background agent was not found") },
        }
    }
}

} // verus!
