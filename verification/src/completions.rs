//! Compiles terminal background-task notifications into append-only runtime events.
//!
//! Each completion item projects to an independent runtime message. Identity fields are
//! client-generated free-form strings (they may contain ':'), so the event id encodes exactly
//! one identity (`background-completed:{kind}:{task}:{tool_call}`) and coverage checks match
//! whole event ids, never parsing them.
use vstd::prelude::*;

use crate::configuration::{has_prefix, opt_view};
use crate::error::{is_protocol, Error};
use crate::messages::{CanonicalMessage, Role};
use crate::protocol::{
    kind_name, BackgroundTaskCompletion, BackgroundTaskCompletionAction,
    BackgroundTaskCompletionReason, BackgroundTaskKind, BackgroundTaskStatus,
    ConversationStateStructure, ProtoEnum, SimulatedMessageMetadata, SimulatedMsgReason,
    SubagentRunStatus, UserMessage,
};
use crate::text::{int_text, join, text_less, views};

verus! {

/// The follow-up instruction after a subagent finished.
pub const FOLLOW_UP: &'static str = "Perform any necessary follow-up actions in response to the subagent completion above. If no follow-up work is needed, no further action is required. If you mention an agent or subagent in your response, link it with the `[Name](id)` Don't use generic label such as `[agent]`, `[worker]`, or `[subagent]`. For cloud subagents, when the agent has edited code, link to `[Review](bc-id#changes)`, or, if you know the exact added and deleted line counts, `[Review +A \u{2212}D](bc-id#changes)`, replacing A and D with those counts. Never write A or D literally. Use `[Try Live](bc-id#desktop)` only when the agent used computer use. Don't repeat the same confirmation every time.";

/// The follow-up instruction after a shell task finished.
pub const SHELL_FOLLOW_UP: &'static str = "Briefly inform the user about the task result and perform any follow-up actions (if needed). If there's no follow-ups needed, don't explicitly say that.";

/// The event id prefix of committed background completion notifications.
pub const BACKGROUND_COMPLETED_PREFIX: &'static str = "background-completed:";

/// A completion identity: the kind's protocol name, the task (or agent) identity and the tool
/// call id, separated by colons.
pub open spec fn identity_of(kind: BackgroundTaskKind, task: Seq<char>, tool_call: Seq<char>) -> Seq<
    char,
> {
    kind_name(kind) + ":"@ + task + ":"@ + tool_call
}

/// The event id of a completion identity.
pub open spec fn event_id_of(identity: Seq<char>) -> Seq<char> {
    "background-completed:"@ + identity
}

/// The completion identity (see [`identity_of`]).
pub fn format_identity(kind: BackgroundTaskKind, task_identity: &str, tool_call_id: &str) -> (r:
    String)
    ensures
        r@ == identity_of(kind, task_identity@, tool_call_id@),
{
    let mut r = crate::text::copy(kind.as_str_name());
    crate::text::push_str(&mut r, ":");
    crate::text::push_str(&mut r, task_identity);
    crate::text::push_str(&mut r, ":");
    crate::text::push_str(&mut r, tool_call_id);
    r
}

/// The event id of a completion identity.
pub fn background_event_id(identity: &str) -> (r: String)
    ensures
        r@ == event_id_of(identity@),
{
    let mut r = crate::text::copy(BACKGROUND_COMPLETED_PREFIX);
    crate::text::push_str(&mut r, identity);
    r
}

/// The identity an event id encodes: the event id without its prefix.
pub fn background_event_identity(event_id: &str) -> (r: Option<&str>)
    ensures
        match r {
            Some(identity) => has_prefix(event_id@, "background-completed:"@) && identity@
                == event_id@.skip(21),
            None => !has_prefix(event_id@, "background-completed:"@),
        },
{
    proof {
        reveal_strlit("background-completed:");
    }
    if crate::text::starts_with(event_id, BACKGROUND_COMPLETED_PREFIX) {
        let n = vstd::string::StrSliceExecFns::unicode_len(event_id);
        Some(vstd::string::StrSliceExecFns::substring_char(event_id, 21, n))
    } else {
        None
    }
}

/// A present, non-empty text.
pub open spec fn nonempty(o: Option<Seq<char>>) -> Option<Seq<char>> {
    match o {
        Some(s) => if s.len() > 0 {
            Some(s)
        } else {
            None
        },
        None => None,
    }
}

/// A present, non-empty text, borrowed.
fn nonempty_str(o: &Option<String>) -> (r: Option<&str>)
    ensures
        match r {
            Some(s) => nonempty(opt_view(*o)) == Some(s@),
            None => nonempty(opt_view(*o)) is None,
        },
{
    match o {
        Some(s) => if s.as_str().is_empty() {
            None
        } else {
            Some(s.as_str())
        },
        None => None,
    }
}

/// The identity of a completion of a decoded kind, when its fields allow one.
pub open spec fn identity_spec(c: BackgroundTaskCompletion, kind: BackgroundTaskKind) -> Option<
    Seq<char>,
> {
    let task = match kind {
        BackgroundTaskKind::Shell => nonempty(Some(c.task_id@)),
        BackgroundTaskKind::Subagent => nonempty(opt_view(c.subagent_id)),
        BackgroundTaskKind::Unspecified => None,
    };
    match (task, nonempty(opt_view(c.tool_call_id))) {
        (Some(t), Some(call)) => Some(identity_of(kind, t, call)),
        _ => None,
    }
}

/// The identity of a completion, when its fields allow one (see [`identity_spec`]).
pub fn completion_identity(c: &BackgroundTaskCompletion, kind: BackgroundTaskKind) -> (r: Option<
    String,
>)
    ensures
        opt_view(r) == identity_spec(*c, kind),
{
    let task = match kind {
        BackgroundTaskKind::Shell => if c.task_id.as_str().is_empty() {
            None
        } else {
            Some(c.task_id.as_str())
        },
        BackgroundTaskKind::Subagent => nonempty_str(&c.subagent_id),
        BackgroundTaskKind::Unspecified => None,
    };
    let task = match task {
        Some(t) => t,
        None => {
            return None;
        },
    };
    match nonempty_str(&c.tool_call_id) {
        Some(call) => Some(format_identity(kind, task, call)),
        None => None,
    }
}

/// A subagent completion the client already consumed: its run, recorded under its tool call,
/// belongs to the same agent, finished, and both the run and the notification ended in
/// success, error or abort.
pub open spec fn consumed(c: BackgroundTaskCompletion, state: Option<ConversationStateStructure>) -> bool {
    &&& c.kind == ProtoEnum::Known(BackgroundTaskKind::Subagent)
    &&& nonempty(opt_view(c.subagent_id)) is Some
    &&& nonempty(opt_view(c.tool_call_id)) is Some
    &&& state is Some
    &&& {
        let runs = state->Some_0.subagent_runs_by_parent_tool_call_id@;
        let call = nonempty(opt_view(c.tool_call_id))->Some_0;
        &&& runs.contains_key(call)
        &&& opt_view(runs[call].subagent_id) == nonempty(opt_view(c.subagent_id))
        &&& runs[call].completion_reason == Some(
            ProtoEnum::Known(BackgroundTaskCompletionReason::TaskFinished),
        )
        &&& (runs[call].status == ProtoEnum::Known(SubagentRunStatus::Success) || runs[call].status
            == ProtoEnum::Known(SubagentRunStatus::Error) || runs[call].status == ProtoEnum::Known(
            SubagentRunStatus::Aborted,
        ))
        &&& (c.status == ProtoEnum::Known(BackgroundTaskStatus::Success) || c.status
            == ProtoEnum::Known(BackgroundTaskStatus::Error) || c.status == ProtoEnum::Known(
            BackgroundTaskStatus::Aborted,
        ))
    }
}

/// Whether the client already consumed a completion (see [`consumed`]).
pub fn completion_consumed(c: &BackgroundTaskCompletion, state: Option<&ConversationStateStructure>) -> (r:
    bool)
    ensures
        r == consumed(
            *c,
            match state {
                Some(s) => Some(*s),
                None => None,
            },
        ),
{
    match c.kind {
        ProtoEnum::Known(BackgroundTaskKind::Subagent) => {},
        _ => {
            return false;
        },
    }
    let agent_id = match nonempty_str(&c.subagent_id) {
        Some(a) => a,
        None => {
            return false;
        },
    };
    let call = match nonempty_str(&c.tool_call_id) {
        Some(t) => t,
        None => {
            return false;
        },
    };
    let state = match state {
        Some(s) => s,
        None => {
            return false;
        },
    };
    let run = match state.subagent_runs_by_parent_tool_call_id.get(call) {
        Some(run) => run,
        None => {
            return false;
        },
    };
    let same_agent = match &run.subagent_id {
        Some(id) => crate::text::str_eq(id.as_str(), agent_id),
        None => false,
    };
    let finished = match run.completion_reason {
        Some(ProtoEnum::Known(BackgroundTaskCompletionReason::TaskFinished)) => true,
        _ => false,
    };
    if !same_agent || !finished {
        return false;
    }
    let run_ended = match run.status {
        ProtoEnum::Known(SubagentRunStatus::Success) => true,
        ProtoEnum::Known(SubagentRunStatus::Error) => true,
        ProtoEnum::Known(SubagentRunStatus::Aborted) => true,
        _ => false,
    };
    let task_ended = match c.status {
        ProtoEnum::Known(BackgroundTaskStatus::Success) => true,
        ProtoEnum::Known(BackgroundTaskStatus::Error) => true,
        ProtoEnum::Known(BackgroundTaskStatus::Aborted) => true,
        _ => false,
    };
    run_ended && task_ended
}

/// A completion announces a finished task.
pub open spec fn finished(c: BackgroundTaskCompletion) -> bool {
    c.reason == ProtoEnum::Known(BackgroundTaskCompletionReason::TaskFinished)
}

/// A batch is fully consumed when it announces some finished task and the client consumed
/// every finished task it announces.
pub open spec fn all_consumed(
    cs: Seq<BackgroundTaskCompletion>,
    state: Option<ConversationStateStructure>,
) -> bool {
    &&& exists|i: int| 0 <= i < cs.len() && finished(#[trigger] cs[i])
    &&& forall|i: int| 0 <= i < cs.len() && finished(#[trigger] cs[i]) ==> consumed(cs[i], state)
}

/// Whether the client already consumed every finished task of a batch (see
/// [`all_consumed`]).
pub fn fully_consumed(
    action: &BackgroundTaskCompletionAction,
    state: Option<&ConversationStateStructure>,
) -> (r: bool)
    ensures
        r == all_consumed(
            action.completions@,
            match state {
                Some(s) => Some(*s),
                None => None,
            },
        ),
{
    let ghost st = match state {
        Some(s) => Some(*s),
        None => None,
    };
    let cs = &action.completions;
    let mut count: usize = 0;
    let mut k: usize = 0;
    while k < cs.len()
        invariant
            k <= cs.len(),
            cs == &action.completions,
            st == match state {
                Some(s) => Some(*s),
                None => None,
            },
            count <= k,
            (count > 0) == exists|i: int| 0 <= i < k && finished(#[trigger] cs@[i]),
            forall|i: int| 0 <= i < k && finished(#[trigger] cs@[i]) ==> consumed(cs@[i], st),
        decreases cs.len() - k,
    {
        let is_finished = match cs[k].reason {
            ProtoEnum::Known(BackgroundTaskCompletionReason::TaskFinished) => true,
            _ => false,
        };
        if is_finished {
            count = count + 1;
            if !completion_consumed(&cs[k], state) {
                return false;
            }
        }
        k = k + 1;
    }
    count > 0
}

/// The decoded terminal status of a completion, or the error message.
pub open spec fn status_of(c: BackgroundTaskCompletion) -> Result<BackgroundTaskStatus, Seq<char>> {
    match c.status {
        ProtoEnum::Unknown(n) => Err("unknown background task status: "@ + int_text(n as int)),
        ProtoEnum::Known(s) => if s == BackgroundTaskStatus::Unspecified {
            Err("background task completion has unspecified status"@)
        } else {
            Ok(s)
        },
    }
}

/// The terminal status of a completion (see [`status_of`]).
pub fn status(c: &BackgroundTaskCompletion) -> (r: Result<BackgroundTaskStatus, Error>)
    ensures
        match (r, status_of(*c)) {
            (Ok(s), Ok(t)) => s == t,
            (Err(e), Err(m)) => is_protocol(e, m),
            _ => false,
        },
{
    match c.status {
        ProtoEnum::Unknown(n) => {
            let digits = crate::text::int_string(n);
            Err(crate::error::protocol_error("unknown background task status: ", digits.as_str()))
        },
        ProtoEnum::Known(BackgroundTaskStatus::Unspecified) => Err(
            crate::error::protocol_message("background task completion has unspecified status"),
        ),
        ProtoEnum::Known(s) => Ok(s),
    }
}

/// The lowercase name of a terminal status.
pub open spec fn status_text(s: BackgroundTaskStatus) -> Seq<char> {
    match s {
        BackgroundTaskStatus::Success => "success"@,
        BackgroundTaskStatus::Error => "error"@,
        BackgroundTaskStatus::Aborted => "aborted"@,
        BackgroundTaskStatus::Unspecified => "unspecified"@,
    }
}

/// The lowercase name of a terminal status; an unspecified status has none.
pub fn status_name(s: BackgroundTaskStatus) -> (r: &'static str)
    requires
        s != BackgroundTaskStatus::Unspecified,
    ensures
        r@ == status_text(s),
{
    match s {
        BackgroundTaskStatus::Success => "success",
        BackgroundTaskStatus::Error => "error",
        BackgroundTaskStatus::Aborted => "aborted",
        BackgroundTaskStatus::Unspecified => "unspecified",
    }
}

/// The line `name: value` when the value is present and not empty.
pub open spec fn optional_line(name: Seq<char>, value: Option<Seq<char>>) -> Seq<Seq<char>> {
    match nonempty(value) {
        Some(v) => seq![name + ": "@ + v],
        None => Seq::empty(),
    }
}

/// Appends `name: value` when the value is present and not empty.
pub fn optional_field(fields: &mut Vec<String>, name: &str, value: Option<&str>)
    ensures
        views(final(fields)@) == views(old(fields)@) + optional_line(
            name@,
            match value {
                Some(v) => Some(v@),
                None => None,
            },
        ),
{
    match value {
        Some(v) => if !v.is_empty() {
            let mut line = crate::text::copy(name);
            crate::text::push_str(&mut line, ": ");
            crate::text::push_str(&mut line, v);
            let ghost before = views(fields@);
            fields.push(line);
            assert(views(fields@) == before.push(line@));
        } else {
            assert(views(fields@) == views(fields@) + Seq::<Seq<char>>::empty());
        },
        None => {
            assert(views(fields@) == views(fields@) + Seq::<Seq<char>>::empty());
        },
    }
}

/// The lowercase name of a task kind.
pub open spec fn kind_text(kind: BackgroundTaskKind) -> Seq<char> {
    match kind {
        BackgroundTaskKind::Shell => "shell"@,
        BackgroundTaskKind::Subagent => "subagent"@,
        BackgroundTaskKind::Unspecified => "unspecified"@,
    }
}

/// The fields of a completion notification, one per line.
pub open spec fn context_fields(
    c: BackgroundTaskCompletion,
    kind: BackgroundTaskKind,
    agent_id: Option<Seq<char>>,
    s: BackgroundTaskStatus,
) -> Seq<Seq<char>> {
    seq![
        "kind: "@ + kind_text(kind),
        "status: "@ + status_text(s),
        "task_id: "@ + c.task_id@,
        "title: "@ + c.title@,
    ] + optional_line("tool_call_id"@, opt_view(c.tool_call_id)) + optional_line(
        "agent_id"@,
        agent_id,
    ) + optional_line("detail"@, opt_view(c.detail)) + optional_line(
        "output_path"@,
        opt_view(c.output_path),
    ) + optional_line("thread_id"@, opt_view(c.thread_id))
}

/// The status line of a completion's notification names the completion's own status:
/// `status: success`, `status: error` or `status: aborted`.
pub proof fn lemma_status_line_names_the_status(
    c: BackgroundTaskCompletion,
    kind: BackgroundTaskKind,
    agent_id: Option<Seq<char>>,
)
    ensures
        c.status == ProtoEnum::Known(BackgroundTaskStatus::Success) ==> status_of(c) == Ok::<
            BackgroundTaskStatus,
            Seq<char>,
        >(BackgroundTaskStatus::Success) && context_fields(c, kind, agent_id, BackgroundTaskStatus::Success)[1]
            == "status: success"@,
        c.status == ProtoEnum::Known(BackgroundTaskStatus::Error) ==> status_of(c) == Ok::<
            BackgroundTaskStatus,
            Seq<char>,
        >(BackgroundTaskStatus::Error) && context_fields(c, kind, agent_id, BackgroundTaskStatus::Error)[1]
            == "status: error"@,
        c.status == ProtoEnum::Known(BackgroundTaskStatus::Aborted) ==> status_of(c) == Ok::<
            BackgroundTaskStatus,
            Seq<char>,
        >(BackgroundTaskStatus::Aborted) && context_fields(c, kind, agent_id, BackgroundTaskStatus::Aborted)[1]
            == "status: aborted"@,
{
    reveal_strlit("status: ");
    reveal_strlit("success");
    reveal_strlit("error");
    reveal_strlit("aborted");
    reveal_strlit("status: success");
    reveal_strlit("status: error");
    reveal_strlit("status: aborted");
    assert("status: "@ + "success"@ =~= "status: success"@);
    assert("status: "@ + "error"@ =~= "status: error"@);
    assert("status: "@ + "aborted"@ =~= "status: aborted"@);
}

/// The system notification a completion projects to, or the status error.
pub open spec fn context_of(
    c: BackgroundTaskCompletion,
    kind: BackgroundTaskKind,
    agent_id: Option<Seq<char>>,
) -> Result<Seq<char>, Seq<char>> {
    match status_of(c) {
        Err(m) => Err(m),
        Ok(s) => Ok(
            "<system_notification>\nThe following task has finished. If you were already aware, ignore this notification and do not restate prior responses.\n\n<task>\n"@
                + join(context_fields(c, kind, agent_id, s), "\n"@) + "\n</task>\n</system_notification>"@,
        ),
    }
}

/// The system notification of a completion (see [`context_of`]).
pub fn completion_context(c: &BackgroundTaskCompletion, kind: BackgroundTaskKind, agent_id: Option<
    &str,
>) -> (r: Result<String, Error>)
    requires
        kind != BackgroundTaskKind::Unspecified,
    ensures
        match (
            r,
            context_of(
                *c,
                kind,
                match agent_id {
                    Some(a) => Some(a@),
                    None => None,
                },
            ),
        ) {
            (Ok(text), Ok(t)) => text@ == t,
            (Err(e), Err(m)) => is_protocol(e, m),
            _ => false,
        },
{
    let s = match status(c) {
        Ok(s) => s,
        Err(e) => {
            return Err(e);
        },
    };
    let mut fields: Vec<String> = Vec::new();
    let mut line = crate::text::copy("kind: ");
    crate::text::push_str(
        &mut line,
        match kind {
            BackgroundTaskKind::Shell => "shell",
            BackgroundTaskKind::Subagent => "subagent",
            BackgroundTaskKind::Unspecified => "unspecified",
        },
    );
    fields.push(line);
    let mut line = crate::text::copy("status: ");
    crate::text::push_str(&mut line, status_name(s));
    fields.push(line);
    let mut line = crate::text::copy("task_id: ");
    crate::text::push_str(&mut line, c.task_id.as_str());
    fields.push(line);
    let mut line = crate::text::copy("title: ");
    crate::text::push_str(&mut line, c.title.as_str());
    fields.push(line);
    optional_field(&mut fields, "tool_call_id", crate::model_config::opt_str(&c.tool_call_id));
    optional_field(&mut fields, "agent_id", agent_id);
    optional_field(&mut fields, "detail", crate::model_config::opt_str(&c.detail));
    optional_field(&mut fields, "output_path", crate::model_config::opt_str(&c.output_path));
    optional_field(&mut fields, "thread_id", crate::model_config::opt_str(&c.thread_id));
    let ghost agent = match agent_id {
        Some(a) => Some(a@),
        None => None,
    };
    assert(views(fields@) == context_fields(*c, kind, agent, s));
    let body = crate::text::join_strs(&fields, "\n");
    let mut text = crate::text::copy(
        "<system_notification>\nThe following task has finished. If you were already aware, ignore this notification and do not restate prior responses.\n\n<task>\n",
    );
    crate::text::push_str(&mut text, body.as_str());
    crate::text::push_str(&mut text, "\n</task>\n</system_notification>");
    Ok(text)
}

/// A completion projected to a runtime event.
pub struct ProjectedCompletion {
    pub event_id: String,
    pub context: String,
    pub turn_user: UserMessage,
}

/// The projected completions of a batch, ordered by event id.
pub struct Projection {
    pub completions: Vec<ProjectedCompletion>,
}

/// The text view of a projected completion.
pub struct ProjectedView {
    pub identity: Seq<char>,
    pub context: Seq<char>,
    pub follow_up: Seq<char>,
    pub mode: i32,
    pub title: Seq<char>,
    pub task_id: Seq<char>,
}

/// `p` is the projection `v`: its event id and the simulated user message's id are the
/// event id of the identity, and the message is the follow-up, marked as simulated for the
/// completion with its title and task id.
#[verifier::opaque]
pub open spec fn projected_is(p: ProjectedCompletion, v: ProjectedView) -> bool {
    &&& p.event_id@ == event_id_of(v.identity)
    &&& p.context@ == v.context
    &&& p.turn_user.text@ == v.follow_up
    &&& p.turn_user.message_id@ == event_id_of(v.identity)
    &&& p.turn_user.mode == v.mode
    &&& p.turn_user.subagent_system_reminder is None
    &&& p.turn_user.is_simulated_msg == Some(true)
    &&& p.turn_user.simulated_msg_reason == Some(SimulatedMsgReason::BackgroundTaskCompletion)
    &&& match p.turn_user.simulated_message_metadata {
        Some(m) => opt_view(m.title) == Some(v.title) && opt_view(m.task_id) == Some(v.task_id),
        None => false,
    }
}

/// What one completion contributes to a projection.
pub enum Step {
    /// Informational, consumed, or already covered.
    Skip,
    Item(ProjectedView),
    Fail(Seq<char>),
}

/// The follow-up instruction of a task kind.
pub open spec fn follow_up_of(kind: BackgroundTaskKind) -> Seq<char> {
    match kind {
        BackgroundTaskKind::Shell => SHELL_FOLLOW_UP@,
        _ => FOLLOW_UP@,
    }
}

/// What one completion contributes, checked in order: its kind, its reason (only finished
/// tasks count), whether the client consumed it, its task id and title, its subagent id (for
/// subagents), its tool call id, whether history already covers its identity, and its status.
pub open spec fn completion_step(
    c: BackgroundTaskCompletion,
    mode: i32,
    state: Option<ConversationStateStructure>,
    covered: Set<Seq<char>>,
) -> Step {
    match c.kind {
        ProtoEnum::Unknown(n) => Step::Fail("unknown background task kind: "@ + int_text(n as int)),
        ProtoEnum::Known(kind) => if kind == BackgroundTaskKind::Unspecified {
            Step::Fail("background task completion has invalid kind: "@ + kind_name(kind))
        } else {
            match c.reason {
                ProtoEnum::Unknown(n) => Step::Fail(
                    "unknown background task completion reason: "@ + int_text(n as int),
                ),
                ProtoEnum::Known(reason) => if reason != BackgroundTaskCompletionReason::TaskFinished {
                    Step::Skip
                } else if consumed(c, state) {
                    Step::Skip
                } else if c.task_id@.len() == 0 || c.title@.len() == 0 {
                    Step::Fail("background task completion requires task_id and title"@)
                } else if kind == BackgroundTaskKind::Subagent && nonempty(opt_view(c.subagent_id))
                    is None {
                    Step::Fail("background subagent completion has no subagent_id"@)
                } else if nonempty(opt_view(c.tool_call_id)) is None {
                    Step::Fail("background task completion has no tool_call_id"@)
                } else {
                    let agent = if kind == BackgroundTaskKind::Subagent {
                        nonempty(opt_view(c.subagent_id))
                    } else {
                        None
                    };
                    let identity = identity_of(
                        kind,
                        match agent {
                            Some(a) => a,
                            None => c.task_id@,
                        },
                        nonempty(opt_view(c.tool_call_id))->Some_0,
                    );
                    if covered.contains(identity) {
                        Step::Skip
                    } else {
                        match context_of(c, kind, agent) {
                            Err(m) => Step::Fail(m),
                            Ok(context) => Step::Item(
                                ProjectedView {
                                    identity,
                                    context,
                                    follow_up: follow_up_of(kind),
                                    mode,
                                    title: c.title@,
                                    task_id: c.task_id@,
                                },
                            ),
                        }
                    }
                }
            }
        }
    }
}

/// The projections of a sequence of completions in order; the first failure, or a second
/// projection of the same identity, is an error.
pub open spec fn project_items(
    cs: Seq<BackgroundTaskCompletion>,
    mode: i32,
    state: Option<ConversationStateStructure>,
    covered: Set<Seq<char>>,
) -> Result<Seq<ProjectedView>, Seq<char>>
    decreases cs.len(),
{
    if cs.len() == 0 {
        Ok(Seq::empty())
    } else {
        match project_items(cs.drop_last(), mode, state, covered) {
            Err(m) => Err(m),
            Ok(items) => match completion_step(cs.last(), mode, state, covered) {
                Step::Skip => Ok(items),
                Step::Fail(m) => Err(m),
                Step::Item(v) => if exists|i: int|
                    0 <= i < items.len() && (#[trigger] items[i]).identity == v.identity {
                    Err("duplicate background task completion: "@ + v.identity)
                } else {
                    Ok(items.push(v))
                },
            },
        }
    }
}

/// `out` holds exactly the projections `items`, ordered by event id without repetition: there
/// are positions pairing each entry of `out` with the projection it is and each projection
/// with its entry (see [`arranged_by`]).
pub open spec fn arranged(out: Seq<ProjectedCompletion>, items: Seq<ProjectedView>) -> bool {
    exists|idx: Seq<int>, at: Seq<int>| arranged_by(out, items, idx, at)
}

/// No two projections share an identity.
pub open spec fn unique_identities(items: Seq<ProjectedView>) -> bool {
    forall|i: int, j: int|
        0 <= i < j < items.len() ==> (#[trigger] items[i]).identity != (#[trigger] items[j]).identity
}

/// The projection of a batch: an error when it is empty or a completion fails; nothing when
/// every completion is skipped; otherwise its projections ordered by event id.
pub open spec fn projection_result(
    r: Result<Option<Projection>, Error>,
    cs: Seq<BackgroundTaskCompletion>,
    mode: i32,
    state: Option<ConversationStateStructure>,
    covered: Set<Seq<char>>,
) -> bool {
    if cs.len() == 0 {
        r matches Err(e) && is_protocol(e, "background task completion action contains no completion"@)
    } else {
        match (r, project_items(cs, mode, state, covered)) {
            (Err(e), Err(m)) => is_protocol(e, m),
            (Ok(None), Ok(items)) => items.len() == 0,
            (Ok(Some(p)), Ok(items)) => items.len() > 0 && arranged(p.completions@, items),
            _ => false,
        }
    }
}

/// The user message a projection is sent as.
fn simulated_user(follow_up: &str, event_id: &str, mode: i32, c: &BackgroundTaskCompletion) -> (r:
    UserMessage)
    ensures
        r.text@ == follow_up@,
        r.message_id@ == event_id@,
        r.mode == mode,
        r.subagent_system_reminder is None,
        r.is_simulated_msg == Some(true),
        r.simulated_msg_reason == Some(SimulatedMsgReason::BackgroundTaskCompletion),
        match r.simulated_message_metadata {
            Some(m) => opt_view(m.title) == Some(c.title@) && opt_view(m.task_id) == Some(
                c.task_id@,
            ),
            None => false,
        },
{
    UserMessage {
        text: crate::text::copy(follow_up),
        message_id: crate::text::copy(event_id),
        mode,
        subagent_system_reminder: None,
        is_simulated_msg: Some(true),
        simulated_msg_reason: Some(SimulatedMsgReason::BackgroundTaskCompletion),
        simulated_message_metadata: Some(
            SimulatedMessageMetadata {
                title: Some(crate::text::copy(c.title.as_str())),
                task_id: Some(crate::text::copy(c.task_id.as_str())),
            },
        ),
    }
}

/// Different identities have different event ids.
proof fn lemma_event_id_injective(a: Seq<char>, b: Seq<char>)
    ensures
        event_id_of(a) == event_id_of(b) ==> a == b,
{
    reveal_strlit("background-completed:");
    if event_id_of(a) == event_id_of(b) {
        assert(a == event_id_of(a).skip(21));
        assert(b == event_id_of(b).skip(21));
    }
}

/// The outcome of projecting one completion.
enum Outcome {
    Skip,
    Item(ProjectedCompletion),
}

/// Projects one completion (see [`completion_step`]).
fn project_one(
    c: &BackgroundTaskCompletion,
    mode: i32,
    state: Option<&ConversationStateStructure>,
    covered: &vstd::hash_set::StringHashSet,
) -> (r: Result<Outcome, Error>)
    ensures
        match (
            r,
            completion_step(
                *c,
                mode,
                match state {
                    Some(s) => Some(*s),
                    None => None,
                },
                covered@,
            ),
        ) {
            (Ok(Outcome::Skip), Step::Skip) => true,
            (Ok(Outcome::Item(p)), Step::Item(v)) => projected_is(p, v),
            (Err(e), Step::Fail(m)) => is_protocol(e, m),
            _ => false,
        },
{
    let kind = match c.kind {
        ProtoEnum::Unknown(n) => {
            let digits = crate::text::int_string(n);
            return Err(crate::error::protocol_error("unknown background task kind: ", digits.as_str()));
        },
        ProtoEnum::Known(BackgroundTaskKind::Unspecified) => {
            return Err(
                crate::error::protocol_error(
                    "background task completion has invalid kind: ",
                    BackgroundTaskKind::Unspecified.as_str_name(),
                ),
            );
        },
        ProtoEnum::Known(kind) => kind,
    };
    match c.reason {
        ProtoEnum::Unknown(n) => {
            let digits = crate::text::int_string(n);
            return Err(
                crate::error::protocol_error(
                    "unknown background task completion reason: ",
                    digits.as_str(),
                ),
            );
        },
        ProtoEnum::Known(BackgroundTaskCompletionReason::TaskFinished) => {},
        ProtoEnum::Known(_) => {
            return Ok(Outcome::Skip);
        },
    }
    if completion_consumed(c, state) {
        return Ok(Outcome::Skip);
    }
    if c.task_id.as_str().is_empty() || c.title.as_str().is_empty() {
        return Err(
            crate::error::protocol_message("background task completion requires task_id and title"),
        );
    }
    let agent_id = match kind {
        BackgroundTaskKind::Subagent => match nonempty_str(&c.subagent_id) {
            Some(a) => Some(a),
            None => {
                return Err(
                    crate::error::protocol_message(
                        "background subagent completion has no subagent_id",
                    ),
                );
            },
        },
        _ => None,
    };
    let tool_call_id = match nonempty_str(&c.tool_call_id) {
        Some(t) => t,
        None => {
            return Err(
                crate::error::protocol_message("background task completion has no tool_call_id"),
            );
        },
    };
    let task = match agent_id {
        Some(a) => a,
        None => c.task_id.as_str(),
    };
    let identity = format_identity(kind, task, tool_call_id);
    if covered.contains(identity.as_str()) {
        return Ok(Outcome::Skip);
    }
    let event_id = background_event_id(identity.as_str());
    let context = match completion_context(c, kind, agent_id) {
        Ok(text) => text,
        Err(e) => {
            return Err(e);
        },
    };
    let follow_up = match kind {
        BackgroundTaskKind::Shell => SHELL_FOLLOW_UP,
        _ => FOLLOW_UP,
    };
    let turn_user = simulated_user(follow_up, event_id.as_str(), mode, c);
    let r = ProjectedCompletion { event_id, context, turn_user };
    proof {
        reveal(projected_is);
    }
    Ok(Outcome::Item(r))
}

/// When `pos` is the first position not below `p` in a sorted list and does not hold `p`'s
/// event id, no position holds it.
proof fn lemma_no_equal_event(out: Seq<ProjectedCompletion>, p: ProjectedCompletion, pos: int)
    requires
        0 <= pos <= out.len(),
        forall|i: int, j: int|
            0 <= i < j < out.len() ==> text_less(#[trigger] out[i].event_id@, #[trigger] out[j].event_id@),
        forall|i: int| 0 <= i < pos ==> text_less(#[trigger] out[i].event_id@, p.event_id@),
        pos < out.len() ==> !text_less(out[pos].event_id@, p.event_id@) && out[pos].event_id@
            != p.event_id@,
    ensures
        pos < out.len() ==> text_less(p.event_id@, out[pos].event_id@),
        forall|j: int| 0 <= j < out.len() ==> (#[trigger] out[j]).event_id@ != p.event_id@,
{
    if pos < out.len() {
        crate::text::lemma_text_less_total(out[pos].event_id@, p.event_id@);
    }
    assert forall|j: int| 0 <= j < out.len() implies (#[trigger] out[j]).event_id@ != p.event_id@ by {
        if j < pos {
            crate::text::lemma_text_less_irreflexive(p.event_id@);
        } else if j > pos {
            crate::text::lemma_text_less_transitive(p.event_id@, out[pos].event_id@, out[j].event_id@);
            crate::text::lemma_text_less_irreflexive(p.event_id@);
        }
    }
}

/// Inserting at the first position not below keeps a sorted list sorted.
proof fn lemma_sorted_after_insert(out: Seq<ProjectedCompletion>, p: ProjectedCompletion, pos: int)
    requires
        0 <= pos <= out.len(),
        forall|i: int, j: int|
            0 <= i < j < out.len() ==> text_less(#[trigger] out[i].event_id@, #[trigger] out[j].event_id@),
        forall|i: int| 0 <= i < pos ==> text_less(#[trigger] out[i].event_id@, p.event_id@),
        pos < out.len() ==> text_less(p.event_id@, out[pos].event_id@),
    ensures
        forall|i: int, j: int|
            0 <= i < j < out.insert(pos, p).len() ==> text_less(
                #[trigger] out.insert(pos, p)[i].event_id@,
                #[trigger] out.insert(pos, p)[j].event_id@,
            ),
{
    let n = out.insert(pos, p);
    assert forall|i: int, j: int| 0 <= i < j < n.len() implies text_less(
        #[trigger] n[i].event_id@,
        #[trigger] n[j].event_id@,
    ) by {
        if j < pos {
            assert(n[i] == out[i] && n[j] == out[j]);
        } else if j == pos {
            assert(n[i] == out[i] && n[j] == p);
        } else if i < pos {
            assert(n[i] == out[i] && n[j] == out[j - 1]);
            if j - 1 > pos {
                crate::text::lemma_text_less_transitive(p.event_id@, out[pos].event_id@, out[j - 1].event_id@);
            }
            crate::text::lemma_text_less_transitive(out[i].event_id@, p.event_id@, out[j - 1].event_id@);
        } else if i == pos {
            assert(n[i] == p && n[j] == out[j - 1]);
            if j - 1 > pos {
                crate::text::lemma_text_less_transitive(p.event_id@, out[pos].event_id@, out[j - 1].event_id@);
            }
        } else {
            assert(n[i] == out[i - 1] && n[j] == out[j - 1]);
        }
    }
}

/// `out` holds the projections `items` by explicit positions: `out[j]` projects
/// `items[idx[j]]` and `items[i]` is projected at `out[at[i]]`.
pub open spec fn arranged_by(
    out: Seq<ProjectedCompletion>,
    items: Seq<ProjectedView>,
    idx: Seq<int>,
    at: Seq<int>,
) -> bool {
    &&& out.len() == items.len()
    &&& idx.len() == out.len()
    &&& at.len() == items.len()
    &&& forall|i: int, j: int|
        0 <= i < j < out.len() ==> text_less(#[trigger] out[i].event_id@, #[trigger] out[j].event_id@)
    &&& forall|j: int|
        0 <= j < out.len() ==> 0 <= #[trigger] idx[j] < items.len() && projected_is(
            out[j],
            items[idx[j]],
        )
    &&& forall|i: int|
        0 <= i < items.len() ==> 0 <= #[trigger] at[i] < out.len() && projected_is(
            out[at[i]],
            items[i],
        )
}

/// Positions at or after `pos` move one further.
pub open spec fn shifted(at: Seq<int>, pos: int) -> Seq<int> {
    at.map_values(|k: int| if k >= pos {
        k + 1
    } else {
        k
    })
}

/// Inserting a new projection at its sorted place keeps the explicit arrangement.
proof fn lemma_insert_keeps_arranged(
    out: Seq<ProjectedCompletion>,
    items: Seq<ProjectedView>,
    idx: Seq<int>,
    at: Seq<int>,
    p: ProjectedCompletion,
    v: ProjectedView,
    pos: int,
)
    requires
        0 <= pos <= out.len(),
        arranged_by(out, items, idx, at),
        projected_is(p, v),
        forall|i: int| 0 <= i < pos ==> text_less(#[trigger] out[i].event_id@, p.event_id@),
        pos < out.len() ==> text_less(p.event_id@, out[pos].event_id@),
    ensures
        arranged_by(
            out.insert(pos, p),
            items.push(v),
            idx.insert(pos, items.len() as int),
            shifted(at, pos).push(pos),
        ),
{
    lemma_sorted_after_insert(out, p, pos);
    let n = out.insert(pos, p);
    let m = items.push(v);
    let idx2 = idx.insert(pos, items.len() as int);
    let at2 = shifted(at, pos).push(pos);
    assert forall|j: int| 0 <= j < n.len() implies 0 <= #[trigger] idx2[j] < m.len()
        && projected_is(n[j], m[idx2[j]]) by {
        if j < pos {
            assert(n[j] == out[j] && idx2[j] == idx[j] && m[idx[j]] == items[idx[j]]);
        } else if j == pos {
            assert(n[j] == p && idx2[j] == items.len() && m[items.len() as int] == v);
        } else {
            assert(n[j] == out[j - 1] && idx2[j] == idx[j - 1] && m[idx[j - 1]] == items[idx[j - 1]]);
        }
    }
    assert forall|i: int| 0 <= i < m.len() implies 0 <= #[trigger] at2[i] < n.len()
        && projected_is(n[at2[i]], m[i]) by {
        if i < items.len() {
            assert(m[i] == items[i]);
            if at[i] >= pos {
                assert(at2[i] == at[i] + 1 && n[at[i] + 1] == out[at[i]]);
            } else {
                assert(at2[i] == at[i] && n[at[i]] == out[at[i]]);
            }
        } else {
            assert(at2[i] == pos && n[pos] == p && m[i] == v);
        }
    }
}

/// An error in a prefix of a batch is the batch's error.
proof fn lemma_error_persists(
    cs: Seq<BackgroundTaskCompletion>,
    mode: i32,
    state: Option<ConversationStateStructure>,
    covered: Set<Seq<char>>,
    m: int,
    n: int,
)
    requires
        0 <= m <= n <= cs.len(),
        project_items(cs.take(m), mode, state, covered) is Err,
    ensures
        project_items(cs.take(n), mode, state, covered) == project_items(
            cs.take(m),
            mode,
            state,
            covered,
        ),
    decreases n - m,
{
    if n > m {
        lemma_error_persists(cs, mode, state, covered, m, n - 1);
        assert(cs.take(n).drop_last() == cs.take(n - 1));
    }
}

/// Inserts a projection at its place by event id, returning the place, or reports a second
/// projection of the same identity.
fn insert_projection(
    out: &mut Vec<ProjectedCompletion>,
    p: ProjectedCompletion,
    Ghost(items): Ghost<Seq<ProjectedView>>,
    Ghost(v): Ghost<ProjectedView>,
    Ghost(idx): Ghost<Seq<int>>,
    Ghost(at): Ghost<Seq<int>>,
) -> (r: Result<usize, Error>)
    requires
        arranged_by(old(out)@, items, idx, at),
        projected_is(p, v),
    ensures
        match r {
            Ok(pos) => (forall|i: int| 0 <= i < items.len() ==> (#[trigger] items[i]).identity
                != v.identity) && pos <= old(out)@.len() && arranged_by(
                final(out)@,
                items.push(v),
                idx.insert(pos as int, items.len() as int),
                shifted(at, pos as int).push(pos as int),
            ),
            Err(e) => (exists|i: int|
                0 <= i < items.len() && (#[trigger] items[i]).identity == v.identity)
                && is_protocol(e, "duplicate background task completion: "@ + v.identity),
        },
{
    let mut pos: usize = 0;
    while pos < out.len() && crate::text::str_less(out[pos].event_id.as_str(), p.event_id.as_str())
        invariant
            pos <= out.len(),
            forall|i: int| 0 <= i < pos ==> text_less(#[trigger] out@[i].event_id@, p.event_id@),
        decreases out.len() - pos,
    {
        pos = pos + 1;
    }
    if pos < out.len() && crate::text::str_eq(out[pos].event_id.as_str(), p.event_id.as_str()) {
        proof {
            reveal(projected_is);
            let i = idx[pos as int];
            assert(projected_is(out@[pos as int], items[i]));
            lemma_event_id_injective(items[i].identity, v.identity);
            reveal_strlit("background-completed:");
            assert(p.event_id@.take(21) == "background-completed:"@);
            assert(event_id_of(v.identity).skip(21) == v.identity);
        }
        let identity = match background_event_identity(p.event_id.as_str()) {
            Some(identity) => identity,
            None => p.event_id.as_str(),
        };
        return Err(
            crate::error::protocol_error("duplicate background task completion: ", identity),
        );
    }
    proof {
        lemma_no_equal_event(out@, p, pos as int);
        assert forall|i: int| 0 <= i < items.len() implies (#[trigger] items[i]).identity
            != v.identity by {
            reveal(projected_is);
            let j = at[i];
            assert(projected_is(out@[j], items[i]));
            assert(out@[j].event_id@ != p.event_id@);
            lemma_event_id_injective(items[i].identity, v.identity);
        }
        lemma_insert_keeps_arranged(out@, items, idx, at, p, v, pos as int);
    }
    out.insert(pos, p);
    Ok(pos)
}

/// Projects the outstanding completions of a batch (see [`projection_result`]). Nothing is
/// projected when every completion is informational, consumed by the client, or covered by
/// committed history: a no-op redelivery.
pub fn project(
    action: &BackgroundTaskCompletionAction,
    mode: i32,
    state: Option<&ConversationStateStructure>,
    covered: &vstd::hash_set::StringHashSet,
) -> (r: Result<Option<Projection>, Error>)
    ensures
        projection_result(
            r,
            action.completions@,
            mode,
            match state {
                Some(s) => Some(*s),
                None => None,
            },
            covered@,
        ),
{
    if action.completions.len() == 0 {
        return Err(
            crate::error::protocol_message(
                "background task completion action contains no completion",
            ),
        );
    }
    let ghost st = match state {
        Some(s) => Some(*s),
        None => None,
    };
    let cs = &action.completions;
    let mut out: Vec<ProjectedCompletion> = Vec::new();
    let ghost mut items: Seq<ProjectedView> = Seq::empty();
    let ghost mut idx: Seq<int> = Seq::empty();
    let ghost mut at: Seq<int> = Seq::empty();
    let mut k: usize = 0;
    while k < cs.len()
        invariant
            k <= cs.len(),
            cs == &action.completions,
            st == match state {
                Some(s) => Some(*s),
                None => None,
            },
            project_items(cs@.take(k as int), mode, st, covered@) == Ok::<
                Seq<ProjectedView>,
                Seq<char>,
            >(items),
            arranged_by(out@, items, idx, at),
        decreases cs.len() - k,
    {
        assert(cs@.take(k + 1).drop_last() == cs@.take(k as int));
        assert(cs@.take(k + 1).last() == cs@[k as int]);
        match project_one(&cs[k], mode, state, covered) {
            Err(e) => {
                proof {
                    lemma_error_persists(cs@, mode, st, covered@, k + 1, cs@.len() as int);
                    assert(cs@.take(cs@.len() as int) == cs@);
                }
                return Err(e);
            },
            Ok(Outcome::Skip) => {},
            Ok(Outcome::Item(p)) => {
                let ghost v = match completion_step(cs@[k as int], mode, st, covered@) {
                    Step::Item(v) => v,
                    _ => arbitrary(),
                };
                match insert_projection(&mut out, p, Ghost(items), Ghost(v), Ghost(idx), Ghost(at)) {
                    Ok(pos) => {
                        proof {
                            idx = idx.insert(pos as int, items.len() as int);
                            at = shifted(at, pos as int).push(pos as int);
                            items = items.push(v);
                        }
                    },
                    Err(e) => {
                        proof {
                            lemma_error_persists(cs@, mode, st, covered@, k + 1, cs@.len() as int);
                            assert(cs@.take(cs@.len() as int) == cs@);
                        }
                        return Err(e);
                    },
                }
            },
        }
        k = k + 1;
    }
    assert(cs@.take(cs.len() as int) == cs@);
    assert(arranged_by(out@, items, idx, at));
    if out.len() == 0 {
        Ok(None)
    } else {
        Ok(Some(Projection { completions: out }))
    }
}

/// History answered the notification `event_id`: it holds the notification and, after it, an
/// assistant message.
pub open spec fn answered(messages: Seq<CanonicalMessage>, event_id: Seq<char>) -> bool {
    exists|p: int, q: int|
        0 <= p < q < messages.len() && opt_view(#[trigger] messages[p].runtime_event_id) == Some(
            event_id,
        ) && (#[trigger] messages[q]).role == Role::Assistant
}

/// Whether a message was compiled from the runtime event `event_id`.
fn is_event(message: &CanonicalMessage, event_id: &str) -> (r: bool)
    ensures
        r == (opt_view(message.runtime_event_id) == Some(event_id@)),
{
    match &message.runtime_event_id {
        Some(id) => crate::text::str_eq(id.as_str(), event_id),
        None => false,
    }
}

/// Whether history answered the notification `event_id` (see [`answered`]).
fn answered_in(messages: &[CanonicalMessage], event_id: &str) -> (r: bool)
    ensures
        r == answered(messages@, event_id@),
{
    let mut p: usize = 0;
    while p < messages.len() && !is_event(&messages[p], event_id)
        invariant
            p <= messages.len(),
            forall|i: int|
                0 <= i < p ==> opt_view(#[trigger] messages@[i].runtime_event_id) != Some(event_id@),
        decreases messages.len() - p,
    {
        p = p + 1;
    }
    if p == messages.len() {
        return false;
    }
    let mut q: usize = p + 1;
    while q < messages.len()
        invariant
            p < messages.len(),
            p + 1 <= q <= messages.len(),
            opt_view(messages@[p as int].runtime_event_id) == Some(event_id@),
            forall|i: int|
                0 <= i < p ==> opt_view(#[trigger] messages@[i].runtime_event_id) != Some(event_id@),
            forall|i: int| p < i < q ==> (#[trigger] messages@[i]).role != Role::Assistant,
        decreases messages.len() - q,
    {
        match messages[q].role {
            Role::Assistant => {
                assert(opt_view(messages@[p as int].runtime_event_id) == Some(event_id@)
                    && messages@[q as int].role == Role::Assistant);
                return true;
            },
            _ => {},
        }
        q = q + 1;
    }
    false
}

/// The identities history covers: a finished completion's identity whose notification is
/// committed with an assistant reply after it.
pub open spec fn covered_set(cs: Seq<BackgroundTaskCompletion>, messages: Seq<CanonicalMessage>) -> Set<
    Seq<char>,
> {
    Set::new(
        |identity: Seq<char>|
            exists|c: int|
                0 <= c < cs.len() && finished(#[trigger] cs[c]) && match cs[c].kind {
                    ProtoEnum::Known(kind) => identity_spec(cs[c], kind) == Some(identity),
                    ProtoEnum::Unknown(_) => false,
                } && answered(messages, event_id_of(identity)),
    )
}

/// The completion identities history already covers (see [`covered_set`]). A committed
/// notification without a reply (a crash window) is not covered, so its follow-up may run
/// again.
pub fn covered_identities(action: &BackgroundTaskCompletionAction, base_messages: &[CanonicalMessage]) -> (r:
    vstd::hash_set::StringHashSet)
    ensures
        r@ == covered_set(action.completions@, base_messages@),
{
    let cs = &action.completions;
    let mut covered = vstd::hash_set::StringHashSet::new();
    let mut k: usize = 0;
    while k < cs.len()
        invariant
            k <= cs.len(),
            cs == &action.completions,
            covered@ == covered_set(cs@.take(k as int), base_messages@),
        decreases cs.len() - k,
    {
        let ghost before = covered@;
        let c = &cs[k];
        let is_finished = match c.reason {
            ProtoEnum::Known(BackgroundTaskCompletionReason::TaskFinished) => true,
            _ => false,
        };
        let identity = if is_finished {
            match c.kind {
                ProtoEnum::Known(kind) => completion_identity(c, kind),
                ProtoEnum::Unknown(_) => None,
            }
        } else {
            None
        };
        match identity {
            Some(identity) => {
                let event_id = background_event_id(identity.as_str());
                if answered_in(base_messages, event_id.as_str()) {
                    covered.insert(identity);
                }
            },
            None => {},
        }
        proof {
            let prefix = cs@.take(k as int);
            let next = cs@.take(k + 1);
            assert(next[k as int] == cs@[k as int]);
            assert forall|x: Seq<char>| #[trigger] covered@.contains(x) == covered_set(
                next,
                base_messages@,
            ).contains(x) by {
                if covered_set(next, base_messages@).contains(x) {
                    let c2 = choose|c2: int|
                        0 <= c2 < next.len() && finished(#[trigger] next[c2]) && match next[c2].kind {
                            ProtoEnum::Known(kind) => identity_spec(next[c2], kind) == Some(x),
                            ProtoEnum::Unknown(_) => false,
                        } && answered(base_messages@, event_id_of(x));
                    if c2 < k {
                        assert(prefix[c2] == next[c2]);
                        assert(covered_set(prefix, base_messages@).contains(x));
                    } else {
                        assert(c2 == k);
                    }
                }
                if covered@.contains(x) && !before.contains(x) {
                    assert(finished(next[k as int]));
                }
                if before.contains(x) {
                    let c2 = choose|c2: int|
                        0 <= c2 < prefix.len() && finished(#[trigger] prefix[c2]) && match prefix[c2].kind {
                            ProtoEnum::Known(kind) => identity_spec(prefix[c2], kind) == Some(x),
                            ProtoEnum::Unknown(_) => false,
                        } && answered(base_messages@, event_id_of(x));
                    assert(next[c2] == prefix[c2]);
                }
            }
            assert(covered@ == covered_set(next, base_messages@));
        }
        k = k + 1;
    }
    assert(cs@.take(cs.len() as int) == cs@);
    covered
}

} // verus!
