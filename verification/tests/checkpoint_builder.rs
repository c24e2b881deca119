use byok_server::checkpoint_builder::{BuiltCheckpoint, CheckpointBuilder};
use byok_server::json::JsonValue;
use byok_server::protocol::{
    BackgroundTaskCompletionReason, ConversationStateStructure, ProtoEnum, SubagentRunState,
    SubagentRunStatus, TokenDetails,
};
use byok_server::run::ToolDefinition;
use byok_server::runtime::ToolCall;
use byok_server::subagent_runs::{
    consumed_subagent_completion, reset_resumed_subagent_runs, AwaitOutcome, AwaitSuccess,
    AwaitToolCall, ConversationStep, StepTool, StepToolCall, TaskArgs, TaskOutcome, TaskSuccess,
    TaskToolCall,
};

fn text(value: &str) -> JsonValue {
    JsonValue::Text(value.into())
}

#[test]
fn resumed_subagent_starts_a_new_running_lifecycle() {
    let mut state = ConversationStateStructure::new(None);
    let mut old = SubagentRunState::started(
        "old-task-call".into(),
        Some("agent-1".into()),
        ProtoEnum::Known(SubagentRunStatus::Error),
    );
    old.title = Some("Old title".into());
    old.detail = Some("stopped".into());
    old.completed_timestamp_ms = Some(42);
    old.completion_reason = Some(ProtoEnum::Known(BackgroundTaskCompletionReason::TaskFinished));
    state.record_run("old-task-call".into(), old);
    let calls = vec![ToolCall {
        index: 0,
        call_id: "resume-task-call".into(),
        model_call_id: "model-call".into(),
        name: "Task".into(),
        arguments_text: "{}".into(),
        arguments: JsonValue::Object(vec![
            ("resume".into(), text("agent-1")),
            ("description".into(), text("Continue inspection")),
        ]),
        argument_error: None,
    }];

    reset_resumed_subagent_runs(&mut state, &calls);

    assert!(!state
        .subagent_runs_by_parent_tool_call_id
        .contains_key("old-task-call"));
    let resumed = state
        .subagent_runs_by_parent_tool_call_id
        .get("resume-task-call")
        .unwrap();
    assert_eq!(resumed.subagent_id.as_deref(), Some("agent-1"));
    assert_eq!(resumed.status, ProtoEnum::Known(SubagentRunStatus::Running));
    assert_eq!(resumed.title.as_deref(), Some("Continue inspection"));
    assert_eq!(resumed.detail, None);
    assert_eq!(resumed.completed_timestamp_ms, None);
    assert_eq!(resumed.completion_reason, None);
    assert_eq!(state.run_keys, vec!["resume-task-call".to_owned()]);
}

fn await_call(result: AwaitOutcome) -> StepToolCall {
    StepToolCall {
        tool_call_id: None,
        started_at_ms: None,
        completed_at_ms: None,
        tool: StepTool::Await(AwaitToolCall {
            task_id: Some("agent-1".into()),
            result: Some(result),
        }),
    }
}

fn task_args(resume: Option<&str>) -> TaskArgs {
    TaskArgs {
        resume: resume.map(Into::into),
        subagent_type: String::new(),
        model: None,
        description: String::new(),
        environment: 0,
        machine: None,
    }
}

fn task_call(args: TaskArgs, result: TaskOutcome) -> StepToolCall {
    StepToolCall {
        tool_call_id: None,
        started_at_ms: None,
        completed_at_ms: None,
        tool: StepTool::Task(TaskToolCall {
            args: Some(args),
            result: Some(result),
        }),
    }
}

#[test]
fn completed_await_consumes_the_subagent_terminal_result() {
    let call = await_call(AwaitOutcome::Complete);
    assert_eq!(
        consumed_subagent_completion(&call),
        Some(("agent-1", SubagentRunStatus::Success))
    );
}

#[test]
fn still_running_await_does_not_consume_the_terminal_result() {
    let call = await_call(AwaitOutcome::StillRunning);
    assert_eq!(consumed_subagent_completion(&call), None);
    let wrapped = await_call(AwaitOutcome::Success(Some(AwaitSuccess::StillRunning)));
    assert_eq!(consumed_subagent_completion(&wrapped), None);
}

#[test]
fn foreground_resume_consumes_the_existing_background_subagent_result() {
    let call = task_call(
        task_args(Some("agent-1")),
        TaskOutcome::Success(TaskSuccess {
            agent_id: Some("agent-1".into()),
            is_background: false,
            result_suffix: None,
            transcript_path: None,
        }),
    );
    assert_eq!(
        consumed_subagent_completion(&call),
        Some(("agent-1", SubagentRunStatus::Success))
    );
}

#[test]
fn failed_resume_call_does_not_consume_the_background_subagent_terminal_result() {
    let call = task_call(task_args(Some("agent-1")), TaskOutcome::Error);
    assert_eq!(consumed_subagent_completion(&call), None);
}

fn builder() -> CheckpointBuilder {
    let mut builder = CheckpointBuilder::new(None, None);
    builder.configure(
        "test-model".into(),
        None,
        String::new(),
        vec![ToolDefinition {
            name: "Shell".into(),
            description: String::new(),
            parameters: "{}".into(),
        }],
        Vec::new(),
        None,
    );
    builder
}

#[test]
fn configuring_allows_exactly_the_defined_tools() {
    let builder = builder();
    assert_eq!(builder.model, "test-model");
    assert_eq!(builder.allowed_tools, vec!["Shell".to_owned()]);
}

#[test]
fn context_tokens_record_the_window_and_usage() {
    let mut builder = builder();
    builder.record_context_tokens(Some(5_000_000_000));
    let details = builder.base.token_details.as_ref().unwrap();
    assert_eq!(details.max_tokens, 200_000);
    assert_eq!(details.used_tokens, u32::MAX);

    let mut base = ConversationStateStructure::new(None);
    base.token_details = Some(TokenDetails {
        used_tokens: 7,
        max_tokens: 100_000,
        prompt_context_usage_tree: Some(vec![1]),
        prompt_context_usage_snapshot_blob_id: Some(vec![2]),
    });
    let mut resumed = CheckpointBuilder::new(None, Some(base));
    resumed.record_context_tokens(None);
    let details = resumed.base.token_details.as_ref().unwrap();
    assert_eq!(details.max_tokens, 100_000);
    assert_eq!(details.used_tokens, 7);
    assert!(details.prompt_context_usage_tree.is_none());
    assert!(details.prompt_context_usage_snapshot_blob_id.is_none());
}

#[test]
fn background_task_records_the_agent_and_a_backgrounded_run() {
    let mut builder = builder();
    let mut args = task_args(None);
    args.description = "Inspect".into();
    args.subagent_type = "explore".into();
    let mut step = task_call(
        args,
        TaskOutcome::Success(TaskSuccess {
            agent_id: Some("agent-7".into()),
            is_background: true,
            result_suffix: Some("working".into()),
            transcript_path: None,
        }),
    );
    step.tool_call_id = Some("call-7".into());
    step.started_at_ms = Some(10);
    builder.record_background_subagents(&[ConversationStep::ToolCall(step)], 99);

    let run = builder
        .base
        .subagent_runs_by_parent_tool_call_id
        .get("call-7")
        .unwrap();
    assert_eq!(run.status, ProtoEnum::Known(SubagentRunStatus::Backgrounded));
    assert_eq!(run.title.as_deref(), Some("Inspect"));
    assert_eq!(run.detail.as_deref(), Some("working"));
    let agent = builder.base.subagent_states.get("agent-7").unwrap();
    assert_eq!(agent.created_timestamp_ms, 10);
    assert_eq!(agent.last_used_timestamp_ms, 10);
    assert_eq!(agent.subagent_type, "explore");

    let mut finished = await_call(AwaitOutcome::Error);
    if let StepTool::Await(call) = &mut finished.tool {
        call.task_id = Some("agent-7".into());
    }
    finished.completed_at_ms = Some(50);
    let consumed =
        builder.record_consumed_subagent_completions(&[ConversationStep::ToolCall(finished)], 99);
    assert_eq!(consumed, vec![("agent-7".to_owned(), "call-7".to_owned())]);
    let run = builder
        .base
        .subagent_runs_by_parent_tool_call_id
        .get("call-7")
        .unwrap();
    assert_eq!(run.status, ProtoEnum::Known(SubagentRunStatus::Error));
    assert_eq!(run.completed_timestamp_ms, Some(50));
    assert_eq!(
        run.completion_reason,
        Some(ProtoEnum::Known(BackgroundTaskCompletionReason::TaskFinished))
    );
}

#[test]
fn read_paths_are_added_once_in_order() {
    let mut builder = CheckpointBuilder::new(None, None);
    builder.record_read_paths(&vec!["/a".to_owned(), "/b".to_owned(), "/a".to_owned()]);
    assert_eq!(builder.base.read_paths, ["/a", "/b"]);
    builder.record_read_paths(&vec!["/c".to_owned(), "/b".to_owned()]);
    assert_eq!(builder.base.read_paths, ["/a", "/b", "/c"]);
    builder.record_read_paths(&vec!["/c".to_owned(), "/b".to_owned()]);
    assert_eq!(builder.base.read_paths, ["/a", "/b", "/c"]);
}

#[test]
fn a_checkpoint_without_consumptions_suppresses_nothing() {
    let built = BuiltCheckpoint::without_consumptions(ConversationStateStructure::new(Some(1)));
    assert!(built.consumed_background_completions.is_empty());
    assert_eq!(built.state.mode, Some(1));
}
