use byok_server::pending::{CompiledMessages, MessageDelivery};
use byok_server::registry::{CommandResult, Delivery, DeliveryEnd, RegistryState};

fn injection(event_id: &str) -> CompiledMessages {
    CompiledMessages {
        event_id: event_id.into(),
        target_run_id: None,
        messages: Vec::new(),
        delivery: MessageDelivery::InsertMessages,
    }
}

fn finished(delivery: Delivery) -> CommandResult {
    match delivery {
        Delivery::Finished(result) => result,
        Delivery::ToRun { .. } => panic!("expected a finished delivery"),
    }
}

#[test]
fn concurrent_delivery_is_claimed_by_current_or_next_activation() {
    let mut registry = RegistryState::new();
    let conversation_id = "conversation";
    assert_eq!(
        finished(registry.begin_delivery(conversation_id, injection("before"))),
        CommandResult::RunEnded
    );

    let (cancelled, mut claimed) = registry.activate(conversation_id, "run-1");
    assert_eq!(cancelled, None);
    // The racing delivery reaches the first run, whose port is already gone.
    let (run_id, batch) = match registry.begin_delivery(conversation_id, injection("racing")) {
        Delivery::ToRun { run_id, batch } => (run_id, batch),
        Delivery::Finished(_) => panic!("expected the active run"),
    };
    assert_eq!(run_id, "run-1");
    match registry.finish_delivery(conversation_id, &run_id, batch, CommandResult::RunEnded) {
        DeliveryEnd::Done(result) => assert_eq!(result, CommandResult::RunEnded),
        DeliveryEnd::Retry(_) => panic!("the run still owns the conversation"),
    }

    let (cancelled, more) = registry.activate(conversation_id, "run-2");
    assert_eq!(cancelled.as_deref(), Some("run-1"));
    claimed.extend(more);
    let mut ids = claimed.into_iter().map(|message| message.event_id).collect::<Vec<_>>();
    ids.sort();
    assert_eq!(ids, ["before", "racing"]);
}

#[test]
fn a_targeted_delivery_to_another_run_is_stale() {
    let mut registry = RegistryState::new();
    registry.activate("c", "run-1");
    let targeted = CompiledMessages { target_run_id: Some("run-0".into()), ..injection("e") };
    assert_eq!(finished(registry.begin_delivery("c", targeted)), CommandResult::StaleTarget);
    let targeted = CompiledMessages { target_run_id: Some("run-1".into()), ..injection("e") };
    assert!(matches!(registry.begin_delivery("c", targeted), Delivery::ToRun { run_id, .. } if run_id == "run-1"));
}

#[test]
fn an_ignored_delivery_is_applied_at_once() {
    let mut registry = RegistryState::new();
    let ignored = CompiledMessages { delivery: MessageDelivery::Ignore, ..injection("e") };
    assert_eq!(finished(registry.begin_delivery("c", ignored)), CommandResult::Applied);
    let (_, claimed) = registry.activate("c", "run-1");
    assert!(claimed.is_empty());
}

#[test]
fn a_delivery_that_lost_its_run_to_a_replacement_is_retried() {
    let mut registry = RegistryState::new();
    registry.activate("c", "run-1");
    let batch = match registry.begin_delivery("c", injection("e")) {
        Delivery::ToRun { batch, .. } => batch,
        Delivery::Finished(_) => panic!("expected the active run"),
    };
    registry.activate("c", "run-2");
    let batch = match registry.finish_delivery("c", "run-1", batch, CommandResult::RunClosing) {
        DeliveryEnd::Retry(batch) => batch,
        DeliveryEnd::Done(_) => panic!("expected a retry"),
    };
    assert!(matches!(registry.begin_delivery("c", batch), Delivery::ToRun { run_id, .. } if run_id == "run-2"));
    // A run's own answer ends the delivery.
    match registry.finish_delivery("c", "run-2", injection("f"), CommandResult::Applied) {
        DeliveryEnd::Done(result) => assert_eq!(result, CommandResult::Applied),
        DeliveryEnd::Retry(_) => panic!("expected the run's answer"),
    }
}

#[test]
fn only_the_active_run_releases_its_conversation() {
    let mut registry = RegistryState::new();
    registry.activate("c", "run-1");
    assert!(!registry.release("c", "run-0"));
    assert!(registry.is_active("c"));
    assert!(registry.release("c", "run-1"));
    assert!(!registry.is_active("c"));
    assert!(!registry.release("c", "run-1"));
    assert!(!registry.is_active("other"));
}

#[test]
fn shutdown_cancels_every_active_run_and_keeps_waiting_batches() {
    let mut registry = RegistryState::new();
    registry.activate("a", "run-a");
    registry.activate("b", "run-b");
    finished(registry.begin_delivery("c", injection("waiting")));
    let mut runs = registry.shutdown();
    runs.sort();
    assert_eq!(runs, ["run-a", "run-b"]);
    assert!(!registry.is_active("a") && !registry.is_active("b"));
    let (_, claimed) = registry.activate("c", "run-c");
    assert_eq!(claimed.len(), 1);
    assert_eq!(claimed[0].event_id, "waiting");
}

#[test]
fn reactivating_the_same_run_cancels_nothing() {
    let mut registry = RegistryState::new();
    registry.activate("c", "run-1");
    let (cancelled, _) = registry.activate("c", "run-1");
    assert_eq!(cancelled, None);
}
