//! The subagent runs a checkpoint records: runs that went to the background, terminal results
//! that a later tool call consumed, and runs that a resumed Task starts anew.
use vstd::prelude::*;

use crate::protocol::{
    lists_keys, BackgroundTaskCompletionReason, ConversationStateStructure, ProtoEnum,
    SubagentPersistedState, SubagentRunState, SubagentRunStatus,
};
use crate::text::views;

verus! {

/// What a successful Await reports.
pub enum AwaitSuccess {
    Complete,
    StillRunning,
}

/// The result of an Await tool call.
pub enum AwaitOutcome {
    Complete,
    Error,
    StillRunning,
    Success(Option<AwaitSuccess>),
}

/// An Await tool call: the task it waits for and its result, where present.
pub struct AwaitToolCall {
    pub task_id: Option<String>,
    pub result: Option<AwaitOutcome>,
}

/// The arguments of a Task tool call.
pub struct TaskArgs {
    pub resume: Option<String>,
    pub subagent_type: String,
    pub model: Option<String>,
    pub description: String,
    pub environment: i32,
    pub machine: Option<String>,
}

/// A successful Task result.
pub struct TaskSuccess {
    pub agent_id: Option<String>,
    pub is_background: bool,
    pub result_suffix: Option<String>,
    pub transcript_path: Option<String>,
}

/// The result of a Task tool call.
pub enum TaskOutcome {
    Success(TaskSuccess),
    Error,
}

/// A Task tool call: its arguments and result, where present.
pub struct TaskToolCall {
    pub args: Option<TaskArgs>,
    pub result: Option<TaskOutcome>,
}

/// The tool of a tool call step.
pub enum StepTool {
    Await(AwaitToolCall),
    Task(TaskToolCall),
    Other,
}

/// A tool call step of a conversation.
pub struct StepToolCall {
    pub tool_call_id: Option<String>,
    pub started_at_ms: Option<u64>,
    pub completed_at_ms: Option<u64>,
    pub tool: StepTool,
}

/// A step of a conversation.
pub enum ConversationStep {
    ToolCall(StepToolCall),
    Other,
}

/// An agent and a status, unless the agent id is empty.
pub open spec fn agent_status(id: Seq<char>, status: SubagentRunStatus) -> Option<
    (Seq<char>, SubagentRunStatus),
> {
    if id.len() > 0 {
        Some((id, status))
    } else {
        None
    }
}

/// The subagent whose terminal result a tool call consumed, and the status it ended in: an
/// Await that saw the task complete (success) or fail (error); a foreground Task that resumed
/// the agent and succeeded. A still running agent, a failed Task, and a Task sent to the
/// background consume nothing.
pub open spec fn consumed_by(call: StepToolCall) -> Option<(Seq<char>, SubagentRunStatus)> {
    match call.tool {
        StepTool::Await(t) => match (t.task_id, t.result) {
            (Some(id), Some(outcome)) => match outcome {
                AwaitOutcome::Complete => agent_status(id@, SubagentRunStatus::Success),
                AwaitOutcome::Error => agent_status(id@, SubagentRunStatus::Error),
                AwaitOutcome::Success(Some(AwaitSuccess::Complete)) => agent_status(
                    id@,
                    SubagentRunStatus::Success,
                ),
                _ => None,
            },
            _ => None,
        },
        StepTool::Task(t) => match (t.args, t.result) {
            (Some(args), Some(TaskOutcome::Success(s))) => if s.is_background {
                None
            } else {
                match s.agent_id {
                    Some(a) => agent_status(a@, SubagentRunStatus::Success),
                    None => match args.resume {
                        Some(r) => agent_status(r@, SubagentRunStatus::Success),
                        None => None,
                    },
                }
            },
            _ => None,
        },
        StepTool::Other => None,
    }
}

fn with_agent(id: &str, status: SubagentRunStatus) -> (r: Option<(&str, SubagentRunStatus)>)
    ensures
        match r {
            Some((a, s)) => agent_status(id@, status) == Some((a@, s)),
            None => agent_status(id@, status) is None,
        },
{
    if id.is_empty() {
        None
    } else {
        Some((id, status))
    }
}

/// The subagent whose terminal result a tool call consumed (see [`consumed_by`]).
pub fn consumed_subagent_completion(call: &StepToolCall) -> (r: Option<(&str, SubagentRunStatus)>)
    ensures
        match r {
            Some((a, s)) => consumed_by(*call) == Some((a@, s)),
            None => consumed_by(*call) is None,
        },
{
    match &call.tool {
        StepTool::Await(t) => {
            let id = match &t.task_id {
                Some(id) => id.as_str(),
                None => return None,
            };
            match &t.result {
                Some(AwaitOutcome::Complete) => with_agent(id, SubagentRunStatus::Success),
                Some(AwaitOutcome::Error) => with_agent(id, SubagentRunStatus::Error),
                Some(AwaitOutcome::Success(Some(AwaitSuccess::Complete))) => with_agent(
                    id,
                    SubagentRunStatus::Success,
                ),
                _ => None,
            }
        },
        StepTool::Task(t) => {
            let args = match &t.args {
                Some(args) => args,
                None => return None,
            };
            match &t.result {
                Some(TaskOutcome::Success(s)) => {
                    if s.is_background {
                        return None;
                    }
                    match &s.agent_id {
                        Some(a) => with_agent(a.as_str(), SubagentRunStatus::Success),
                        None => match &args.resume {
                            Some(r) => with_agent(r.as_str(), SubagentRunStatus::Success),
                            None => None,
                        },
                    }
                },
                _ => None,
            }
        },
        StepTool::Other => None,
    }
}

/// Whether the run under `key` belongs to `agent`.
pub open spec fn run_of(runs: Map<Seq<char>, SubagentRunState>, key: Seq<char>, agent: Seq<char>) -> bool {
    runs.contains_key(key) && match runs[key].subagent_id {
        Some(a) => a@ == agent,
        None => false,
    }
}

/// The position in `keys` of the first run of `agent`.
pub open spec fn first_run_of(
    keys: Seq<Seq<char>>,
    runs: Map<Seq<char>, SubagentRunState>,
    agent: Seq<char>,
) -> Option<int>
    decreases keys.len(),
{
    if keys.len() == 0 {
        None
    } else if run_of(runs, keys[0], agent) {
        Some(0)
    } else {
        match first_run_of(keys.drop_first(), runs, agent) {
            Some(i) => Some(i + 1),
            None => None,
        }
    }
}

proof fn lemma_first_run_of(
    keys: Seq<Seq<char>>,
    runs: Map<Seq<char>, SubagentRunState>,
    agent: Seq<char>,
    i: int,
)
    requires
        0 <= i <= keys.len(),
        forall|j: int|
            0 <= j < i ==> !run_of(runs, #[trigger] keys[j], agent),
    ensures
        i < keys.len() && run_of(runs, keys[i], agent) ==> first_run_of(keys, runs, agent) == Some(i),
        i == keys.len() ==> first_run_of(keys, runs, agent) is None,
    decreases i,
{
    if i > 0 {
        assert forall|j: int| 0 <= j < i - 1 implies !run_of(runs, #[trigger] keys.drop_first()[j], agent) by {
            assert(keys.drop_first()[j] == keys[j + 1]);
        }
        lemma_first_run_of(keys.drop_first(), runs, agent, i - 1);
    }
}

fn find_run_of(state: &ConversationStateStructure, agent: &str) -> (r: Option<usize>)
    requires
        state.keys_listed(),
    ensures
        match r {
            Some(i) => i < state.run_keys@.len() && first_run_of(
                views(state.run_keys@),
                state.subagent_runs_by_parent_tool_call_id@,
                agent@,
            ) == Some(i as int),
            None => first_run_of(
                views(state.run_keys@),
                state.subagent_runs_by_parent_tool_call_id@,
                agent@,
            ) is None,
        },
{
    let ghost keys = views(state.run_keys@);
    let ghost runs = state.subagent_runs_by_parent_tool_call_id@;
    let mut i: usize = 0;
    while i < state.run_keys.len()
        invariant
            i <= state.run_keys@.len(),
            keys == views(state.run_keys@),
            runs == state.subagent_runs_by_parent_tool_call_id@,
            forall|j: int|
                0 <= j < i ==> !run_of(runs, #[trigger] keys[j], agent@),
        decreases state.run_keys@.len() - i,
    {
        let key = state.run_keys[i].as_str();
        let hit = match state.subagent_runs_by_parent_tool_call_id.get(key) {
            Some(run) => match &run.subagent_id {
                Some(a) => crate::text::str_eq(a.as_str(), agent),
                None => false,
            },
            None => false,
        };
        if hit {
            proof {
                lemma_first_run_of(keys, runs, agent@, i as int);
            }
            return Some(i);
        }
        i = i + 1;
    }
    proof {
        lemma_first_run_of(keys, runs, agent@, i as int);
    }
    None
}

fn clone_opt(o: &Option<String>) -> (r: Option<String>)
    ensures
        r == *o,
{
    match o {
        Some(s) => Some(s.clone()),
        None => None,
    }
}

fn clone_run(run: &SubagentRunState) -> (r: SubagentRunState)
    ensures
        r == *run,
{
    SubagentRunState {
        parent_tool_call_id: run.parent_tool_call_id.clone(),
        subagent_id: clone_opt(&run.subagent_id),
        environment: run.environment,
        status: run.status,
        title: clone_opt(&run.title),
        detail: clone_opt(&run.detail),
        transcript_path: clone_opt(&run.transcript_path),
        output_path: clone_opt(&run.output_path),
        completed_timestamp_ms: run.completed_timestamp_ms,
        completion_reason: run.completion_reason,
    }
}

/// A run after its terminal result was consumed: it ends in `status`, at `at`, as finished.
pub open spec fn consumed_run(run: SubagentRunState, status: SubagentRunStatus, at: u64) -> SubagentRunState {
    SubagentRunState {
        status: ProtoEnum::Known(status),
        completed_timestamp_ms: Some(at),
        completion_reason: Some(ProtoEnum::Known(BackgroundTaskCompletionReason::TaskFinished)),
        ..run
    }
}

/// The runs and the consumed (agent, tool call) pairs after the steps, in order: each step
/// that consumed an agent's terminal result ends the first run of that agent (in key order)
/// at the step's completion time (`now` without one).
pub open spec fn consumed_fold(
    runs: Map<Seq<char>, SubagentRunState>,
    keys: Seq<Seq<char>>,
    steps: Seq<ConversationStep>,
    now: u64,
) -> (Map<Seq<char>, SubagentRunState>, Seq<(Seq<char>, Seq<char>)>)
    decreases steps.len(),
{
    if steps.len() == 0 {
        (runs, Seq::empty())
    } else {
        let (before, pairs) = consumed_fold(runs, keys, steps.drop_last(), now);
        match steps.last() {
            ConversationStep::ToolCall(call) => match consumed_by(call) {
                Some((agent, status)) => match first_run_of(keys, before, agent) {
                    Some(i) => {
                        let at = match call.completed_at_ms {
                            Some(t) => t,
                            None => now,
                        };
                        let run = consumed_run(before[keys[i]], status, at);
                        (before.insert(keys[i], run), pairs.push((agent, run.parent_tool_call_id@)))
                    },
                    None => (before, pairs),
                },
                None => (before, pairs),
            },
            ConversationStep::Other => (before, pairs),
        }
    }
}

/// Marks the runs whose terminal result a step consumed as ended (see [`consumed_fold`]) and
/// returns the consumed (agent, tool call) pairs.
pub fn mark_consumed_runs(
    state: &mut ConversationStateStructure,
    steps: &[ConversationStep],
    now_ms: u64,
) -> (r: Vec<(String, String)>)
    requires
        old(state).keys_listed(),
    ensures
        final(state).keys_listed(),
        final(state).run_keys == old(state).run_keys,
        final(state).subagent_states@ == old(state).subagent_states@,
        final(state).mode == old(state).mode,
        (final(state).subagent_runs_by_parent_tool_call_id@, r@.map_values(
            |p: (String, String)| (p.0@, p.1@),
        )) == consumed_fold(
            old(state).subagent_runs_by_parent_tool_call_id@,
            views(old(state).run_keys@),
            steps@,
            now_ms,
        ),
{
    let ghost keys = views(state.run_keys@);
    let ghost runs0 = state.subagent_runs_by_parent_tool_call_id@;
    let ghost keys0 = state.run_keys;
    let ghost states0 = state.subagent_states@;
    let ghost mode0 = state.mode;
    let mut consumed: Vec<(String, String)> = Vec::new();
    let mut i: usize = 0;
    while i < steps.len()
        invariant
            i <= steps.len(),
            state.keys_listed(),
            state.run_keys == keys0,
            keys == views(keys0@),
            state.subagent_states@ == states0,
            state.mode == mode0,
            (state.subagent_runs_by_parent_tool_call_id@, consumed@.map_values(
                |p: (String, String)| (p.0@, p.1@),
            )) == consumed_fold(runs0, keys, steps@.take(i as int), now_ms),
        decreases steps.len() - i,
    {
        assert(steps@.take(i as int + 1).drop_last() == steps@.take(i as int));
        if let ConversationStep::ToolCall(call) = &steps[i] {
            if let Some((agent, status)) = consumed_subagent_completion(call) {
                if let Some(k) = find_run_of(state, agent) {
                    let key = crate::text::copy(state.run_keys[k].as_str());
                    let found = state.subagent_runs_by_parent_tool_call_id.get(key.as_str());
                    if let Some(run) = found {
                        let at = match call.completed_at_ms {
                            Some(t) => t,
                            None => now_ms,
                        };
                        let old_run = clone_run(run);
                        let parent = old_run.parent_tool_call_id.clone();
                        let updated = SubagentRunState {
                            status: ProtoEnum::Known(status),
                            completed_timestamp_ms: Some(at),
                            completion_reason: Some(
                                ProtoEnum::Known(BackgroundTaskCompletionReason::TaskFinished),
                            ),
                            ..old_run
                        };
                        let ghost before_pairs = consumed@;
                        state.record_run(key, updated);
                        consumed.push((crate::text::copy(agent), parent));
                        proof {
                            assert(consumed@.map_values(|p: (String, String)| (p.0@, p.1@))
                                =~= before_pairs.map_values(|p: (String, String)| (p.0@, p.1@)).push(
                                (agent@, parent@),
                            ));
                        }
                    }
                }
            }
        }
        i = i + 1;
    }
    assert(steps@.take(steps.len() as int) == steps@);
    consumed
}

/// A Task step that sent an agent to the background: its tool call id, the agent, its
/// arguments and its success.
pub open spec fn backgrounded(call: StepToolCall) -> Option<(Seq<char>, Seq<char>)> {
    match call.tool {
        StepTool::Task(t) => match (t.args, t.result) {
            (Some(args), Some(TaskOutcome::Success(s))) => if s.is_background {
                match (s.agent_id, call.tool_call_id) {
                    (Some(a), Some(c)) => if a@.len() > 0 && c@.len() > 0 {
                        Some((c@, a@))
                    } else {
                        None
                    },
                    _ => None,
                }
            } else {
                None
            },
            _ => None,
        },
        _ => None,
    }
}

/// The arguments and success of a Task step (meaningful where [`backgrounded`] holds).
pub open spec fn task_parts(call: StepToolCall) -> (TaskArgs, TaskSuccess) {
    match call.tool {
        StepTool::Task(t) => match (t.args, t.result) {
            (Some(args), Some(TaskOutcome::Success(s))) => (args, s),
            _ => arbitrary(),
        },
        _ => arbitrary(),
    }
}

/// When a backgrounded Task started: its start time, or `now` without one.
pub open spec fn started_at(call: StepToolCall, now: u64) -> u64 {
    match call.started_at_ms {
        Some(t) => t,
        None => now,
    }
}

/// When a backgrounded agent was last used: the step's completion, or its start.
pub open spec fn last_used_at(call: StepToolCall, now: u64) -> u64 {
    match call.completed_at_ms {
        Some(t) => t,
        None => started_at(call, now),
    }
}

/// The run a backgrounded Task records under its tool call.
pub open spec fn background_run(call: StepToolCall) -> SubagentRunState {
    let (args, s) = task_parts(call);
    SubagentRunState {
        parent_tool_call_id: call.tool_call_id->Some_0,
        subagent_id: s.agent_id,
        environment: args.environment,
        status: ProtoEnum::Known(SubagentRunStatus::Backgrounded),
        title: Some(args.description),
        detail: s.result_suffix,
        transcript_path: s.transcript_path,
        output_path: None,
        completed_timestamp_ms: None,
        completion_reason: None,
    }
}

/// What is persisted of an agent a Task sent to the background: a known agent only moves its
/// last use; a new one records the Task's arguments.
pub open spec fn persisted_after(
    states: Map<Seq<char>, SubagentPersistedState>,
    agent: Seq<char>,
    call: StepToolCall,
    now: u64,
) -> SubagentPersistedState {
    let (args, s) = task_parts(call);
    if states.contains_key(agent) {
        SubagentPersistedState { last_used_timestamp_ms: last_used_at(call, now), ..states[agent] }
    } else {
        SubagentPersistedState {
            created_timestamp_ms: started_at(call, now),
            last_used_timestamp_ms: last_used_at(call, now),
            subagent_type: args.subagent_type,
            model_id: args.model,
            environment: args.environment,
            machine: args.machine,
        }
    }
}

/// The runs and persisted agents after the steps: each Task that sent an agent to the
/// background records the agent and a backgrounded run under its tool call.
pub open spec fn background_fold(
    runs: Map<Seq<char>, SubagentRunState>,
    states: Map<Seq<char>, SubagentPersistedState>,
    steps: Seq<ConversationStep>,
    now: u64,
) -> (Map<Seq<char>, SubagentRunState>, Map<Seq<char>, SubagentPersistedState>)
    decreases steps.len(),
{
    if steps.len() == 0 {
        (runs, states)
    } else {
        let (r, st) = background_fold(runs, states, steps.drop_last(), now);
        match steps.last() {
            ConversationStep::ToolCall(call) => match backgrounded(call) {
                Some((c, a)) => (
                    r.insert(c, background_run(call)),
                    st.insert(a, persisted_after(st, a, call, now)),
                ),
                None => (r, st),
            },
            ConversationStep::Other => (r, st),
        }
    }
}

fn clone_persisted(p: &SubagentPersistedState) -> (r: SubagentPersistedState)
    ensures
        r == *p,
{
    SubagentPersistedState {
        created_timestamp_ms: p.created_timestamp_ms,
        last_used_timestamp_ms: p.last_used_timestamp_ms,
        subagent_type: p.subagent_type.clone(),
        model_id: clone_opt(&p.model_id),
        environment: p.environment,
        machine: clone_opt(&p.machine),
    }
}

/// Records the agents that Task steps sent to the background (see [`background_fold`]);
/// `now_ms` stands in for a missing start time.
pub fn mark_backgrounded_runs(
    state: &mut ConversationStateStructure,
    steps: &[ConversationStep],
    now_ms: u64,
)
    requires
        old(state).keys_listed(),
    ensures
        final(state).keys_listed(),
        final(state).mode == old(state).mode,
        (final(state).subagent_runs_by_parent_tool_call_id@, final(state).subagent_states@)
            == background_fold(
            old(state).subagent_runs_by_parent_tool_call_id@,
            old(state).subagent_states@,
            steps@,
            now_ms,
        ),
{
    let ghost runs0 = state.subagent_runs_by_parent_tool_call_id@;
    let ghost states0 = state.subagent_states@;
    let ghost mode0 = state.mode;
    let mut i: usize = 0;
    while i < steps.len()
        invariant
            i <= steps.len(),
            state.keys_listed(),
            state.mode == mode0,
            (state.subagent_runs_by_parent_tool_call_id@, state.subagent_states@) == background_fold(
                runs0,
                states0,
                steps@.take(i as int),
                now_ms,
            ),
        decreases steps.len() - i,
    {
        assert(steps@.take(i as int + 1).drop_last() == steps@.take(i as int));
        if let ConversationStep::ToolCall(call) = &steps[i] {
            if let StepTool::Task(t) = &call.tool {
                if let (Some(args), Some(TaskOutcome::Success(success))) = (&t.args, &t.result) {
                    if success.is_background {
                        if let (Some(agent), Some(tool_call_id)) = (&success.agent_id, &call.tool_call_id) {
                            if !agent.as_str().is_empty() && !tool_call_id.as_str().is_empty() {
                                let started = match call.started_at_ms {
                                    Some(t) => t,
                                    None => now_ms,
                                };
                                let last_used = match call.completed_at_ms {
                                    Some(t) => t,
                                    None => started,
                                };
                                let persisted = match state.subagent_states.get(agent.as_str()) {
                                    Some(existing) => {
                                        let kept = clone_persisted(existing);
                                        SubagentPersistedState { last_used_timestamp_ms: last_used, ..kept }
                                    },
                                    None => SubagentPersistedState {
                                        created_timestamp_ms: started,
                                        last_used_timestamp_ms: last_used,
                                        subagent_type: args.subagent_type.clone(),
                                        model_id: clone_opt(&args.model),
                                        environment: args.environment,
                                        machine: clone_opt(&args.machine),
                                    },
                                };
                                state.record_subagent(agent.clone(), persisted);
                                let run = SubagentRunState {
                                    parent_tool_call_id: tool_call_id.clone(),
                                    subagent_id: Some(agent.clone()),
                                    environment: args.environment,
                                    status: ProtoEnum::Known(SubagentRunStatus::Backgrounded),
                                    title: Some(args.description.clone()),
                                    detail: clone_opt(&success.result_suffix),
                                    transcript_path: clone_opt(&success.transcript_path),
                                    output_path: None,
                                    completed_timestamp_ms: None,
                                    completion_reason: None,
                                };
                                state.record_run(tool_call_id.clone(), run);
                            }
                        }
                    }
                }
            }
        }
        i = i + 1;
    }
    assert(steps@.take(steps.len() as int) == steps@);
}

/// The tool name with everything but ASCII letters and digits dropped, lowered.
pub open spec fn normalized_name(name: Seq<char>) -> Seq<char>
    decreases name.len(),
{
    if name.len() == 0 {
        Seq::empty()
    } else {
        let c = name.last();
        let rest = normalized_name(name.drop_last());
        if ('a' <= c && c <= 'z') || ('A' <= c && c <= 'Z') || ('0' <= c && c <= '9') {
            rest.push(crate::text::lower_char(c))
        } else {
            rest
        }
    }
}

fn normalize_name(name: &str) -> (r: String)
    ensures
        r@ == normalized_name(name@),
{
    let chars = crate::text::chars_of(name);
    let mut out = String::new();
    let mut i: usize = 0;
    while i < chars.len()
        invariant
            i <= chars.len(),
            chars@ == name@,
            out@ == normalized_name(chars@.take(i as int)),
        decreases chars.len() - i,
    {
        assert(chars@.take(i as int + 1).drop_last() == chars@.take(i as int));
        let c = chars[i];
        if ('a' <= c && c <= 'z') || ('A' <= c && c <= 'Z') || ('0' <= c && c <= '9') {
            crate::text::push_char(&mut out, crate::text::ascii_lower_char(c));
        }
        i = i + 1;
    }
    assert(chars@.take(chars.len() as int) == chars@);
    out
}

/// The agent a Task (or SendMessageToAgent) call resumes: the first of `resume`, `agent_id`,
/// `agentId` its arguments hold, when that is a non-empty string other than `self`.
pub open spec fn resumed_agent(call: crate::runtime::ToolCall) -> Option<String> {
    let n = normalized_name(call.name@);
    if n != "task"@ && n != "sendmessagetoagent"@ {
        None
    } else {
        match call.arguments {
            crate::json::JsonValue::Object(m) => {
                let v = if crate::json::member_of(m@, "resume"@) is Some {
                    crate::json::member_of(m@, "resume"@)
                } else if crate::json::member_of(m@, "agent_id"@) is Some {
                    crate::json::member_of(m@, "agent_id"@)
                } else {
                    crate::json::member_of(m@, "agentId"@)
                };
                match v {
                    Some(crate::json::JsonValue::Text(t)) => if t@.len() > 0 && t@ != "self"@ {
                        Some(t)
                    } else {
                        None
                    },
                    _ => None,
                }
            },
            _ => None,
        }
    }
}

/// The title of a resumed run: the call's non-empty `description`, else the previous title.
pub open spec fn resumed_title(call: crate::runtime::ToolCall, previous: Option<String>) -> Option<String> {
    match call.arguments {
        crate::json::JsonValue::Object(m) => match crate::json::member_of(m@, "description"@) {
            Some(crate::json::JsonValue::Text(t)) => if t@.len() > 0 {
                Some(t)
            } else {
                previous
            },
            _ => previous,
        },
        _ => previous,
    }
}

/// The runs without those of `agent`.
pub open spec fn without_agent(runs: Map<Seq<char>, SubagentRunState>, agent: Seq<char>) -> Map<
    Seq<char>,
    SubagentRunState,
> {
    Map::new(|k: Seq<char>| runs.contains_key(k) && !run_of(runs, k, agent), |k: Seq<char>| runs[k])
}

/// The keys without those of runs of `agent`, in order.
pub open spec fn keys_without_agent(
    keys: Seq<Seq<char>>,
    runs: Map<Seq<char>, SubagentRunState>,
    agent: Seq<char>,
) -> Seq<Seq<char>>
    decreases keys.len(),
{
    if keys.len() == 0 {
        Seq::empty()
    } else if run_of(runs, keys.last(), agent) {
        keys_without_agent(keys.drop_last(), runs, agent)
    } else {
        keys_without_agent(keys.drop_last(), runs, agent).push(keys.last())
    }
}

proof fn lemma_keys_without_agent(
    keys: Seq<Seq<char>>,
    runs: Map<Seq<char>, SubagentRunState>,
    agent: Seq<char>,
)
    ensures
        forall|x: Seq<char>| #[trigger]
            keys_without_agent(keys, runs, agent).contains(x) <==> (keys.contains(x) && !run_of(
                runs,
                x,
                agent,
            )),
        keys.no_duplicates() ==> keys_without_agent(keys, runs, agent).no_duplicates(),
    decreases keys.len(),
{
    if keys.len() > 0 {
        let rest = keys.drop_last();
        let last = keys.last();
        lemma_keys_without_agent(rest, runs, agent);
        let w = keys_without_agent(rest, runs, agent);
        assert(keys == rest.push(last));
        assert forall|x: Seq<char>| keys.contains(x) <==> (rest.contains(x) || x == last) by {
            if keys.contains(x) {
                let j = choose|j: int| 0 <= j < keys.len() && keys[j] == x;
                if j < rest.len() {
                    assert(rest[j] == x);
                }
            }
            if rest.contains(x) {
                let j = choose|j: int| 0 <= j < rest.len() && rest[j] == x;
                assert(keys[j] == x);
            }
            if x == last {
                assert(keys[keys.len() - 1] == x);
            }
        }
        if !run_of(runs, last, agent) {
            let ws = w.push(last);
            assert forall|x: Seq<char>| ws.contains(x) <==> (w.contains(x) || x == last) by {
                if ws.contains(x) {
                    let j = choose|j: int| 0 <= j < ws.len() && ws[j] == x;
                    if j < w.len() {
                        assert(w[j] == x);
                    }
                }
                if w.contains(x) {
                    let j = choose|j: int| 0 <= j < w.len() && w[j] == x;
                    assert(ws[j] == x);
                }
                if x == last {
                    assert(ws[ws.len() - 1] == x);
                }
            }
            if keys.no_duplicates() {
                assert(rest.no_duplicates());
                assert(!rest.contains(last)) by {
                    if rest.contains(last) {
                        let j = choose|j: int| 0 <= j < rest.len() && rest[j] == last;
                        assert(keys[j] == keys[keys.len() - 1]);
                    }
                }
                assert forall|a: int, b: int| 0 <= a < ws.len() && 0 <= b < ws.len() && a != b implies ws[a]
                    != ws[b] by {
                    if a < w.len() && b < w.len() {
                    } else if a == w.len() {
                        assert(w.contains(ws[b]));
                    } else {
                        assert(w.contains(ws[a]));
                    }
                }
            }
        } else {
            if keys.no_duplicates() {
                assert(rest.no_duplicates());
            }
        }
    }
}

/// Removes every run of `agent`.
fn remove_agent_runs(state: &mut ConversationStateStructure, agent: &str)
    requires
        old(state).keys_listed(),
    ensures
        final(state).keys_listed(),
        final(state).mode == old(state).mode,
        final(state).subagent_states@ == old(state).subagent_states@,
        final(state).subagent_runs_by_parent_tool_call_id@ == without_agent(
            old(state).subagent_runs_by_parent_tool_call_id@,
            agent@,
        ),
        views(final(state).run_keys@) == keys_without_agent(
            views(old(state).run_keys@),
            old(state).subagent_runs_by_parent_tool_call_id@,
            agent@,
        ),
{
    let ghost runs0 = state.subagent_runs_by_parent_tool_call_id@;
    let ghost keys0 = views(state.run_keys@);
    let mut keys: Vec<String> = Vec::new();
    std::mem::swap(&mut keys, &mut state.run_keys);
    let mut kept: Vec<String> = Vec::new();
    let mut i: usize = 0;
    while i < keys.len()
        invariant
            i <= keys.len(),
            views(keys@) == keys0,
            views(kept@) == keys_without_agent(keys0.take(i as int), runs0, agent@),
            state.subagent_runs_by_parent_tool_call_id@ == Map::new(
                |k: Seq<char>| runs0.contains_key(k) && !(keys0.take(i as int).contains(k) && run_of(
                    runs0,
                    k,
                    agent@,
                )),
                |k: Seq<char>| runs0[k],
            ),
            state.mode == old(state).mode,
            state.subagent_states@ == old(state).subagent_states@,
            state.state_keys == old(state).state_keys,
            lists_keys(keys@, runs0),
        decreases keys.len() - i,
    {
        let key = keys[i].as_str();
        proof {
            assert(keys0.take(i as int + 1).drop_last() == keys0.take(i as int));
            assert(keys0.take(i as int + 1) == keys0.take(i as int).push(key@));
        }
        let ghost before = state.subagent_runs_by_parent_tool_call_id@;
        let hit = match state.subagent_runs_by_parent_tool_call_id.get(key) {
            Some(run) => match &run.subagent_id {
                Some(a) => crate::text::str_eq(a.as_str(), agent),
                None => false,
            },
            None => false,
        };
        proof {
            assert(keys0[i as int] == key@);
            assert(!keys0.take(i as int).contains(key@)) by {
                if keys0.take(i as int).contains(key@) {
                    let j = choose|j: int| 0 <= j < i && keys0.take(i as int)[j] == key@;
                    assert(keys0[j] == keys0[i as int]);
                }
            }
            assert(hit == run_of(runs0, key@, agent@));
        }
        if hit {
            state.subagent_runs_by_parent_tool_call_id.remove(key);
        } else {
            kept.push(crate::text::copy(key));
            proof {
                assert(views(kept@) =~= keys_without_agent(keys0.take(i as int), runs0, agent@).push(
                    key@,
                ));
            }
        }
        proof {
            let next = keys0.take(i as int + 1);
            assert forall|x: Seq<char>| next.contains(x) <==> (keys0.take(i as int).contains(x)
                || x == key@) by {
                if next.contains(x) {
                    let j = choose|j: int| 0 <= j < next.len() && next[j] == x;
                    if j < i {
                        assert(keys0.take(i as int)[j] == x);
                    }
                }
                if keys0.take(i as int).contains(x) {
                    let j = choose|j: int| 0 <= j < i && keys0.take(i as int)[j] == x;
                    assert(next[j] == x);
                }
                if x == key@ {
                    assert(next[i as int] == x);
                }
            }
            assert(state.subagent_runs_by_parent_tool_call_id@ =~= Map::new(
                |k: Seq<char>| runs0.contains_key(k) && !(next.contains(k) && run_of(runs0, k, agent@)),
                |k: Seq<char>| runs0[k],
            ));
        }
        i = i + 1;
    }
    proof {
        assert(keys0.take(keys.len() as int) == keys0);
        assert(state.subagent_runs_by_parent_tool_call_id@ =~= without_agent(runs0, agent@));
        lemma_keys_without_agent(keys0, runs0, agent@);
    }
    state.run_keys = kept;
}

/// The run a resumed agent starts: running again under the resuming call, in the previous run's
/// environment, with the call's description as its title (else the previous title).
pub open spec fn resumed_run(call: crate::runtime::ToolCall, agent: String, previous: SubagentRunState) -> SubagentRunState {
    SubagentRunState {
        parent_tool_call_id: call.call_id,
        subagent_id: Some(agent),
        environment: previous.environment,
        status: ProtoEnum::Known(SubagentRunStatus::Running),
        title: resumed_title(call, previous.title),
        detail: None,
        transcript_path: None,
        output_path: None,
        completed_timestamp_ms: None,
        completion_reason: None,
    }
}

/// The runs and their keys after the calls, in order: a call that resumes an agent with a
/// recorded run replaces every run of that agent by one new running run under the call (its
/// environment and fallback title from the agent's first run in key order).
pub open spec fn reset_fold(
    runs: Map<Seq<char>, SubagentRunState>,
    keys: Seq<Seq<char>>,
    calls: Seq<crate::runtime::ToolCall>,
) -> (Map<Seq<char>, SubagentRunState>, Seq<Seq<char>>)
    decreases calls.len(),
{
    if calls.len() == 0 {
        (runs, keys)
    } else {
        let (r, k) = reset_fold(runs, keys, calls.drop_last());
        let call = calls.last();
        match resumed_agent(call) {
            None => (r, k),
            Some(agent) => match first_run_of(k, r, agent@) {
                None => (r, k),
                Some(i) => {
                    let kept = without_agent(r, agent@);
                    let kept_keys = keys_without_agent(k, r, agent@);
                    (
                        kept.insert(call.call_id@, resumed_run(call, agent, r[k[i]])),
                        if kept.contains_key(call.call_id@) {
                            kept_keys
                        } else {
                            kept_keys.push(call.call_id@)
                        },
                    )
                },
            },
        }
    }
}

fn member_value<'a>(arguments: &'a crate::json::JsonValue, key: &str) -> (r: Option<
    &'a crate::json::JsonValue,
>)
    ensures
        match arguments {
            crate::json::JsonValue::Object(m) => match r {
                Some(v) => crate::json::member_of(m@, key@) == Some(*v),
                None => crate::json::member_of(m@, key@) is None,
            },
            _ => r is None,
        },
{
    match arguments {
        crate::json::JsonValue::Object(m) => match crate::json::find_member(m, key) {
            Some(i) => Some(&m[i].1),
            None => None,
        },
        _ => None,
    }
}

fn resumed_agent_of(call: &crate::runtime::ToolCall) -> (r: Option<&String>)
    ensures
        match r {
            Some(a) => resumed_agent(*call) == Some(*a),
            None => resumed_agent(*call) is None,
        },
{
    let name = normalize_name(call.name.as_str());
    if !crate::text::str_eq(name.as_str(), "task") && !crate::text::str_eq(
        name.as_str(),
        "sendmessagetoagent",
    ) {
        return None;
    }
    let value = match member_value(&call.arguments, "resume") {
        Some(v) => Some(v),
        None => match member_value(&call.arguments, "agent_id") {
            Some(v) => Some(v),
            None => member_value(&call.arguments, "agentId"),
        },
    };
    match value {
        Some(crate::json::JsonValue::Text(t)) => {
            if !t.as_str().is_empty() && !crate::text::str_eq(t.as_str(), "self") {
                Some(t)
            } else {
                None
            }
        },
        _ => None,
    }
}

fn resumed_title_of(call: &crate::runtime::ToolCall, previous: &Option<String>) -> (r: Option<String>)
    ensures
        r == resumed_title(*call, *previous),
{
    match member_value(&call.arguments, "description") {
        Some(crate::json::JsonValue::Text(t)) => if !t.as_str().is_empty() {
            Some(t.clone())
        } else {
            clone_opt(previous)
        },
        _ => clone_opt(previous),
    }
}

/// Starts a new running lifecycle for each agent a call resumes (see [`reset_fold`]).
pub fn reset_resumed_subagent_runs(
    state: &mut ConversationStateStructure,
    calls: &[crate::runtime::ToolCall],
)
    requires
        old(state).keys_listed(),
    ensures
        final(state).keys_listed(),
        final(state).mode == old(state).mode,
        final(state).subagent_states@ == old(state).subagent_states@,
        (final(state).subagent_runs_by_parent_tool_call_id@, views(final(state).run_keys@))
            == reset_fold(
            old(state).subagent_runs_by_parent_tool_call_id@,
            views(old(state).run_keys@),
            calls@,
        ),
{
    let ghost runs0 = state.subagent_runs_by_parent_tool_call_id@;
    let ghost keys0 = views(state.run_keys@);
    let mut i: usize = 0;
    while i < calls.len()
        invariant
            i <= calls.len(),
            state.keys_listed(),
            state.mode == old(state).mode,
            state.subagent_states@ == old(state).subagent_states@,
            (state.subagent_runs_by_parent_tool_call_id@, views(state.run_keys@)) == reset_fold(
                runs0,
                keys0,
                calls@.take(i as int),
            ),
        decreases calls.len() - i,
    {
        assert(calls@.take(i as int + 1).drop_last() == calls@.take(i as int));
        let call = &calls[i];
        if let Some(agent) = resumed_agent_of(call) {
            if let Some(k) = find_run_of(state, agent.as_str()) {
                let ghost r = state.subagent_runs_by_parent_tool_call_id@;
                let ghost ks = views(state.run_keys@);
                let key = crate::text::copy(state.run_keys[k].as_str());
                if let Some(previous) = state.subagent_runs_by_parent_tool_call_id.get(key.as_str()) {
                    let environment = previous.environment;
                    let title = resumed_title_of(call, &previous.title);
                    remove_agent_runs(state, agent.as_str());
                    let run = SubagentRunState {
                        parent_tool_call_id: call.call_id.clone(),
                        subagent_id: Some(agent.clone()),
                        environment,
                        status: ProtoEnum::Known(SubagentRunStatus::Running),
                        title,
                        detail: None,
                        transcript_path: None,
                        output_path: None,
                        completed_timestamp_ms: None,
                        completion_reason: None,
                    };
                    proof {
                        assert(run == resumed_run(*call, *agent, r[ks[k as int]]));
                    }
                    state.record_run(call.call_id.clone(), run);
                }
            }
        }
        i = i + 1;
    }
    assert(calls@.take(calls.len() as int) == calls@);
}

/// A resumed agent keeps exactly one run: the running one under the resuming call.
pub proof fn lemma_resume_leaves_one_run(
    runs: Map<Seq<char>, SubagentRunState>,
    keys: Seq<Seq<char>>,
    call: crate::runtime::ToolCall,
    agent: String,
)
    requires
        resumed_agent(call) == Some(agent),
        first_run_of(keys, runs, agent@) is Some,
    ensures
        ({
            let (after, _) = reset_fold(runs, keys, seq![call]);
            &&& after.contains_key(call.call_id@)
            &&& after[call.call_id@].status == ProtoEnum::Known(SubagentRunStatus::Running)
            &&& after[call.call_id@].subagent_id == Some(agent)
            &&& forall|k: Seq<char>| k != call.call_id@ ==> !run_of(after, k, agent@)
        }),
{
    let calls = seq![call];
    assert(calls.drop_last() =~= Seq::<crate::runtime::ToolCall>::empty());
    assert(calls.last() == call);
    assert(reset_fold(runs, keys, calls.drop_last()) == (runs, keys));
    let i = first_run_of(keys, runs, agent@)->Some_0;
    lemma_first_run_of_found(keys, runs, agent@);
    let kept = without_agent(runs, agent@);
    let after = kept.insert(call.call_id@, resumed_run(call, agent, runs[keys[i]]));
    assert(reset_fold(runs, keys, calls).0 == after);
    assert forall|k: Seq<char>| k != call.call_id@ implies !run_of(after, k, agent@) by {
        if after.contains_key(k) {
            assert(kept.contains_key(k));
            assert(after[k] == runs[k]);
        }
    }
}

/// A step that consumed an agent's result ends that agent's first run as finished.
pub proof fn lemma_consumed_run_is_finished(
    runs: Map<Seq<char>, SubagentRunState>,
    keys: Seq<Seq<char>>,
    call: StepToolCall,
    now: u64,
)
    requires
        consumed_by(call) is Some,
        first_run_of(keys, runs, consumed_by(call)->Some_0.0) is Some,
    ensures
        ({
            let (agent, status) = consumed_by(call)->Some_0;
            let i = first_run_of(keys, runs, agent)->Some_0;
            let (after, pairs) = consumed_fold(runs, keys, seq![ConversationStep::ToolCall(call)], now);
            &&& after[keys[i]].status == ProtoEnum::Known(status)
            &&& after[keys[i]].completion_reason == Some(
                ProtoEnum::Known(BackgroundTaskCompletionReason::TaskFinished),
            )
            &&& pairs == seq![(agent, runs[keys[i]].parent_tool_call_id@)]
        }),
{
    let steps = seq![ConversationStep::ToolCall(call)];
    assert(steps.drop_last() =~= Seq::<ConversationStep>::empty());
    assert(steps.last() == ConversationStep::ToolCall(call));
    assert(consumed_fold(runs, keys, steps.drop_last(), now) == (runs, Seq::<(Seq<char>, Seq<char>)>::empty()));
    lemma_first_run_of_found(keys, runs, consumed_by(call)->Some_0.0);
}

proof fn lemma_first_run_of_found(
    keys: Seq<Seq<char>>,
    runs: Map<Seq<char>, SubagentRunState>,
    agent: Seq<char>,
)
    ensures
        first_run_of(keys, runs, agent) matches Some(i) ==> 0 <= i < keys.len() && run_of(
            runs,
            keys[i],
            agent,
        ),
    decreases keys.len(),
{
    if keys.len() > 0 && !run_of(runs, keys[0], agent) {
        lemma_first_run_of_found(keys.drop_first(), runs, agent);
        match first_run_of(keys.drop_first(), runs, agent) {
            Some(j) => {
                assert(keys.drop_first()[j] == keys[j + 1]);
            },
            None => {},
        }
    }
}

} // verus!
