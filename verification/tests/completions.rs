use byok_server::completions::{
    background_event_id, background_event_identity, covered_identities, format_identity,
    fully_consumed, project,
};
use byok_server::messages::{CanonicalMessage, Origin, Role};
use byok_server::protocol::{
    BackgroundTaskCompletion, BackgroundTaskCompletionAction, BackgroundTaskCompletionReason,
    BackgroundTaskKind, BackgroundTaskStatus, ConversationStateStructure, ProtoEnum,
    SubagentRunState, SubagentRunStatus,
};
use byok_server::run::AGENT_MODE_AGENT;

fn completion(agent_id: &str, tool_call_id: &str) -> BackgroundTaskCompletion {
    BackgroundTaskCompletion {
        task_id: agent_id.into(),
        kind: ProtoEnum::Known(BackgroundTaskKind::Subagent),
        status: ProtoEnum::Known(BackgroundTaskStatus::Success),
        title: format!("Agent {agent_id}"),
        reason: ProtoEnum::Known(BackgroundTaskCompletionReason::TaskFinished),
        subagent_id: Some(agent_id.into()),
        tool_call_id: Some(tool_call_id.into()),
        detail: None,
        output_path: None,
        thread_id: None,
    }
}

fn action(completions: Vec<BackgroundTaskCompletion>) -> BackgroundTaskCompletionAction {
    BackgroundTaskCompletionAction { completions }
}

fn state(agent_id: &str, tool_call_id: &str) -> ConversationStateStructure {
    let mut state = ConversationStateStructure::new(None);
    let mut run = SubagentRunState::started(
        tool_call_id.into(),
        Some(agent_id.into()),
        ProtoEnum::Known(SubagentRunStatus::Success),
    );
    run.completion_reason = Some(ProtoEnum::Known(BackgroundTaskCompletionReason::TaskFinished));
    state.record_run(tool_call_id.into(), run);
    state
}

fn notification(agent_id: &str, tool_call_id: &str) -> CanonicalMessage {
    let identity = format_identity(BackgroundTaskKind::Subagent, agent_id, tool_call_id);
    let event_id = background_event_id(&identity);
    let mut message = CanonicalMessage::text(
        &format!("runtime:{event_id}"),
        Role::User,
        Origin::Runtime,
        "notification",
    );
    message.runtime_event_id = Some(event_id);
    message
}

fn assistant(id: &str) -> CanonicalMessage {
    CanonicalMessage::text(id, Role::Assistant, Origin::Assistant, "summary")
}

fn nothing_covered() -> vstd::hash_set::StringHashSet {
    covered_identities(&action(Vec::new()), &[])
}

#[test]
fn identity_survives_the_event_id_round_trip_even_with_colons() {
    let identity = format_identity(BackgroundTaskKind::Subagent, "agent:with:colons", "call:7");
    let event_id = background_event_id(&identity);
    assert_eq!(background_event_identity(&event_id), Some(identity.as_str()));
    assert_eq!(background_event_identity("other:event"), None);
}

#[test]
fn covered_requires_an_assistant_after_the_notification() {
    let action = action(vec![completion("agent-1", "task-call-1")]);
    let identity = format_identity(BackgroundTaskKind::Subagent, "agent-1", "task-call-1");

    assert!(!covered_identities(&action, &[]).contains(&identity));
    assert!(!covered_identities(&action, &[notification("agent-1", "task-call-1")])
        .contains(&identity));
    assert!(!covered_identities(
        &action,
        &[assistant("a"), notification("agent-1", "task-call-1")]
    )
    .contains(&identity));
    let covered = covered_identities(
        &action,
        &[notification("agent-1", "task-call-1"), assistant("a")],
    );
    assert!(covered.contains(&identity));
}

#[test]
fn terminal_result_consumed_by_await_suppresses_the_follow_up_action() {
    let action = action(vec![completion("agent-1", "task-call-1")]);
    let state = state("agent-1", "task-call-1");

    assert!(fully_consumed(&action, Some(&state)));
}

#[test]
fn mixed_batch_keeps_only_unconsumed_completions() {
    let action = action(vec![
        completion("agent-1", "task-call-1"),
        completion("agent-2", "task-call-2"),
    ]);
    let state = state("agent-1", "task-call-1");

    assert!(!fully_consumed(&action, Some(&state)));
    let projection = project(&action, AGENT_MODE_AGENT, Some(&state), &nothing_covered())
        .unwrap()
        .expect("agent-2 remains");
    assert_eq!(projection.completions.len(), 1);
    let projected = &projection.completions[0];
    assert!(!projected.context.contains("agent-1"));
    assert!(projected.context.contains("agent-2"));
    assert!(!projected.event_id.contains("agent-1"));
    assert!(projected.event_id.contains("agent-2"));
}

#[test]
fn consumed_terminal_result_suppresses_a_later_terminal_status() {
    let mut action = action(vec![completion("agent-1", "task-call-1")]);
    action.completions[0].status = ProtoEnum::Known(BackgroundTaskStatus::Error);
    let state = state("agent-1", "task-call-1");

    assert!(fully_consumed(&action, Some(&state)));
}

#[test]
fn fully_covered_batch_is_a_noop() {
    let action = action(vec![completion("agent-1", "task-call-1")]);
    let covered = covered_identities(
        &action,
        &[notification("agent-1", "task-call-1"), assistant("a")],
    );

    let projection = project(&action, AGENT_MODE_AGENT, None, &covered).unwrap();

    assert!(projection.is_none(), "a covered completion must not reproject");
}

#[test]
fn covered_completions_are_filtered_from_a_partial_batch() {
    let action = action(vec![
        completion("agent-1", "task-call-1"),
        completion("agent-2", "task-call-2"),
    ]);
    let covered = covered_identities(
        &action,
        &[notification("agent-1", "task-call-1"), assistant("a")],
    );

    let projection = project(&action, AGENT_MODE_AGENT, None, &covered)
        .unwrap()
        .expect("agent-2 remains");

    assert_eq!(projection.completions.len(), 1);
    assert!(projection.completions[0].event_id.contains("agent-2"));
}

#[test]
fn progress_notifications_alone_are_a_noop() {
    let mut progress = completion("agent-1", "task-call-1");
    progress.reason = ProtoEnum::Known(BackgroundTaskCompletionReason::TaskProgress);
    let action = action(vec![progress]);

    let projection = project(&action, AGENT_MODE_AGENT, None, &nothing_covered()).unwrap();

    assert!(projection.is_none());
}

#[test]
fn event_ids_carry_the_prefix_and_the_whole_identity() {
    let identity = format_identity(BackgroundTaskKind::Shell, "task", "call");
    assert_eq!(identity, "BACKGROUND_TASK_KIND_SHELL:task:call");
    assert_eq!(
        background_event_id(&identity),
        "background-completed:BACKGROUND_TASK_KIND_SHELL:task:call"
    );
}

#[test]
fn a_projected_completion_carries_the_task_fields() {
    let action = action(vec![completion("agent-9", "task-call-9")]);
    let projection = project(&action, AGENT_MODE_AGENT, None, &nothing_covered())
        .unwrap()
        .unwrap();
    let projected = &projection.completions[0];
    assert_eq!(
        projected.event_id,
        "background-completed:BACKGROUND_TASK_KIND_SUBAGENT:agent-9:task-call-9"
    );
    assert!(projected.context.contains("status: success"));
    assert!(projected.context.contains("task_id: agent-9"));
    assert!(projected.context.contains("title: Agent agent-9"));
    assert!(projected.context.contains("tool_call_id: task-call-9"));
    assert_eq!(projected.turn_user.mode, AGENT_MODE_AGENT);
}
