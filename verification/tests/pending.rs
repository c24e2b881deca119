use byok_server::messages::{CanonicalMessage, Origin, Role, TerminalCompletion};
use byok_server::pending::{CompiledMessages, MessageDelivery, PendingMessages};

fn completion(execution: &str) -> TerminalCompletion {
    TerminalCompletion {
        task_id: "same-child".into(),
        tool_call_id: execution.into(),
        kind: "subagent".into(),
        status: "success".into(),
        payload_digest: Some("digest".into()),
        event_id: format!("completion:{execution}"),
    }
}

fn runtime_message(event_id: &str, text: &str) -> CanonicalMessage {
    let mut message = CanonicalMessage::text(
        &format!("runtime:{event_id}"),
        Role::User,
        Origin::Runtime,
        text,
    );
    message.runtime_event_id = Some(event_id.into());
    message
}

fn notification(execution: &str) -> CanonicalMessage {
    let completion = completion(execution);
    let mut message = runtime_message(&completion.event_id, "result");
    message.terminal_completion = Some(completion);
    message
}

fn batch(event_id: &str, messages: Vec<CanonicalMessage>) -> CompiledMessages {
    CompiledMessages {
        event_id: event_id.into(),
        target_run_id: None,
        messages,
        delivery: MessageDelivery::InsertMessages,
    }
}

fn ids(batch: &CompiledMessages) -> Vec<&str> {
    batch.messages.iter().map(|message| message.id.as_str()).collect()
}

#[test]
fn processed_cleanup_preserves_new_execution_and_unrelated_messages() {
    let old = completion("old-call");
    let new = completion("new-call");
    let mut pending = PendingMessages::new();
    assert!(pending.push(batch(
        &old.event_id,
        vec![notification("old-call"), notification("new-call")],
    )));
    assert!(pending.push(batch(
        "another-batch",
        vec![notification("old-call"), runtime_message("other-input", "keep this input")],
    )));
    assert!(pending.push(batch("old-only", vec![notification("old-call")])));
    pending.remove_completions(std::slice::from_ref(&old));
    assert_eq!(pending.queued().len(), 2);
    assert_eq!(ids(&pending.queued()[0]), ["runtime:completion:new-call"]);
    assert_eq!(ids(&pending.queued()[1]), ["runtime:other-input"]);
    assert!(!pending.push(batch(&old.event_id, vec![notification("new-call")])));
    pending.remove_completions(&[new]);
    assert_eq!(pending.queued().len(), 1);
    assert_eq!(pending.drain().len(), 1);
    assert!(pending.is_empty());
    // With everything drained, both removed event ids are free again.
    assert!(pending.push(batch("old-only", vec![notification("old-call")])));
    assert!(pending.push(batch(&old.event_id, vec![notification("old-call")])));
}

#[test]
fn a_second_batch_of_one_event_is_refused() {
    let mut pending = PendingMessages::new();
    assert!(pending.is_empty());
    assert!(pending.push(batch("event", vec![runtime_message("event", "first")])));
    assert!(!pending.push(batch("event", vec![runtime_message("event", "second")])));
    assert_eq!(pending.queued().len(), 1);
    assert_eq!(ids(&pending.queued()[0]), ["runtime:event"]);
    assert_eq!(pending.queued()[0].messages.len(), 1);
}
