use byok_server::error::Error;
use byok_server::orchestration::{
    await_result, background_result, AwaitReport, BackgroundReport, SubagentAwaitResult,
    FORCE_BACKGROUND_ACCEPTED,
};

#[test]
fn an_accepted_background_request_is_a_background_task_success() {
    let accepted = background_result(FORCE_BACKGROUND_ACCEPTED);
    assert!(!accepted.is_error);
    assert_eq!(accepted.content, "background agent accepted");
    match accepted.report {
        BackgroundReport::Success { is_background, result_suffix } => {
            assert!(is_background);
            assert_eq!(result_suffix.as_deref(), Some("background agent accepted"));
        }
        _ => panic!("expected a success"),
    }
    let refused = background_result(2);
    assert!(refused.is_error);
    assert_eq!(refused.content, "background agent was not found");
    assert!(matches!(refused.report, BackgroundReport::Error { error } if error == "background agent was not found"));
}

#[test]
fn a_still_running_agent_is_no_error() {
    let result = await_result(&Some(SubagentAwaitResult::StillRunning {
        agent_id: "agent-1".into(),
        transcript_path: None,
    }))
    .unwrap();
    assert!(!result.is_error);
    assert_eq!(result.content, "background agent is still running");
    match result.report {
        AwaitReport::StillRunning { task_id, output_file_path } => {
            assert_eq!(task_id, "agent-1");
            assert_eq!(output_file_path, "");
        }
        _ => panic!("expected still running"),
    }
}

#[test]
fn a_completed_agent_reads_its_final_message() {
    let result = await_result(&Some(SubagentAwaitResult::Complete {
        agent_id: "agent-2".into(),
        final_message: Some("done it".into()),
        transcript_path: Some("/t/agent-2.jsonl".into()),
    }))
    .unwrap();
    assert!(!result.is_error);
    assert_eq!(result.content, "done it");
    assert!(matches!(result.report, AwaitReport::Complete { task_id, output_file_path }
        if task_id == "agent-2" && output_file_path == "/t/agent-2.jsonl"));
    let plain = await_result(&Some(SubagentAwaitResult::Complete {
        agent_id: "agent-3".into(),
        final_message: None,
        transcript_path: None,
    }))
    .unwrap();
    assert_eq!(plain.content, "background agent completed");
}

#[test]
fn missing_agents_and_errors_are_failures() {
    let missing = await_result(&Some(SubagentAwaitResult::NotFound { agent_id: "ghost".into() })).unwrap();
    assert!(missing.is_error);
    assert_eq!(missing.content, "background agent not found: ghost");
    assert!(matches!(missing.report, AwaitReport::Error { error } if error == "background agent not found: ghost"));
    let failed = await_result(&Some(SubagentAwaitResult::Error { error: "boom".into() })).unwrap();
    assert!(failed.is_error);
    assert_eq!(failed.content, "boom");
    match await_result(&None) {
        Err(Error::Protocol(message)) => assert_eq!(message, "AWAIT returned no result"),
        _ => panic!("expected a protocol error"),
    }
}
