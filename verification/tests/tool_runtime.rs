use byok_server::error::Error;
use byok_server::json::JsonValue;
use byok_server::run::ToolDefinition;
use byok_server::runtime::{ExecContext, ToolCall};
use byok_server::tool_runtime::{CursorToolRuntime, EditWrite, ExecStage};

fn tool_call(call_id: &str, name: &str) -> ToolCall {
    ToolCall {
        index: 0,
        call_id: call_id.into(),
        model_call_id: "model-call".into(),
        name: name.into(),
        arguments_text: "{}".into(),
        arguments: JsonValue::Object(Vec::new()),
        argument_error: None,
    }
}

#[test]
fn a_message_interrupt_does_not_mute_the_tasks_it_keeps_running() {
    let mut runtime = CursorToolRuntime::new();
    let task = runtime.reserve_exec(tool_call("call-task", "Task"), ExecContext::default(), 1).unwrap();
    let shell = runtime.reserve_exec(tool_call("call-shell", "Shell"), ExecContext::default(), 1).unwrap();

    assert_eq!(runtime.interrupt_for_message(), vec![shell]);

    // The Task was deliberately left running, so its events must still land.
    assert!(!runtime.is_interrupted(task));
    assert!(runtime.append_stdout(task, "still running"));
    assert!(runtime.is_interrupted(shell));
}

#[test]
fn a_message_interrupt_still_mutes_and_aborts_everything_else() {
    let mut runtime = CursorToolRuntime::new();
    let read = runtime.reserve_exec(tool_call("call-read", "Read"), ExecContext::default(), 1).unwrap();
    let interaction = runtime.reserve_interaction(tool_call("call-ask", "AskQuestion"), 1).unwrap();

    assert_eq!(runtime.interrupt_for_message(), vec![read]);

    assert!(runtime.is_interrupted(read));
    assert!(runtime.is_interrupted(interaction));
}

#[test]
fn message_ids_count_up_from_one_and_end_at_the_largest() {
    let mut runtime = CursorToolRuntime::new();
    assert_eq!(runtime.next_id().unwrap(), 1);
    assert_eq!(runtime.next_id().unwrap(), 2);
    runtime.last_id = u32::MAX;
    match runtime.next_id() {
        Err(Error::Protocol(message)) => assert_eq!(message, "Cursor message id space exhausted"),
        _ => panic!("expected an exhausted id space"),
    }
    assert_eq!(runtime.next_id().unwrap(), 1);
}

#[test]
fn output_collects_per_call_and_a_taken_call_is_completed() {
    let mut runtime = CursorToolRuntime::new();
    let id = runtime.reserve_exec(tool_call("call-1", "Shell"), ExecContext::default(), 42).unwrap();
    assert!(runtime.append_stdout(id, "a"));
    assert!(runtime.append_stdout(id, "b"));
    assert!(runtime.append_stderr(id, "oops"));
    assert!(!runtime.append_stdout(id + 1, "lost"));
    assert_eq!(runtime.exec_call(id).unwrap().call_id, "call-1");
    let taken = runtime.take_exec(id).unwrap();
    assert_eq!(taken.stdout, "ab");
    assert_eq!(taken.stderr, "oops");
    assert_eq!(taken.started_at_ms, 42);
    assert!(matches!(taken.stage, ExecStage::Direct));
    assert!(runtime.exec_call(id).is_none());
    assert_eq!(runtime.completed_call(id).as_deref(), Some("call-1"));
    assert!(runtime.take_exec(id).is_none());
    runtime.clear_completed();
    assert_eq!(runtime.completed_call(id), None);
}

#[test]
fn staged_reservations_keep_their_stage() {
    let mut runtime = CursorToolRuntime::new();
    let mcp = ToolDefinition { name: "lookup".into(), description: "Look up".into(), parameters: "{}".into() };
    let id = runtime.reserve_dynamic_mcp(tool_call("m", "lookup"), ExecContext::default(), mcp, 1).unwrap();
    let read = runtime.reserve_edit_read(tool_call("e", "Edit"), ExecContext::default(), 2).unwrap();
    let write = runtime
        .reserve_edit_write(
            tool_call("e", "Edit"),
            ExecContext::default(),
            EditWrite { path: "/a".into(), contents: "x".into() },
            2,
        )
        .unwrap();
    assert!(matches!(runtime.take_exec(id).unwrap().stage, ExecStage::DynamicMcp(d) if d.name == "lookup"));
    assert!(matches!(runtime.take_exec(read).unwrap().stage, ExecStage::EditRead));
    assert!(matches!(runtime.take_exec(write).unwrap().stage, ExecStage::EditWrite(w) if w.path == "/a"));
    let interaction = runtime.reserve_interaction(tool_call("q", "AskQuestion"), 3).unwrap();
    assert_eq!(runtime.take_interaction(interaction).unwrap().call.call_id, "q");
    assert_eq!(runtime.completed_call(interaction).as_deref(), Some("q"));
}

#[test]
fn a_replacement_run_aborts_and_mutes_every_call() {
    let mut runtime = CursorToolRuntime::new();
    let a = runtime.reserve_exec(tool_call("a", "Task"), ExecContext::default(), 1).unwrap();
    let b = runtime.reserve_exec(tool_call("b", "Shell"), ExecContext::default(), 1).unwrap();
    let q = runtime.reserve_interaction(tool_call("q", "AskQuestion"), 1).unwrap();
    runtime.take_exec(a);
    let c = runtime.reserve_exec(tool_call("c", "Read"), ExecContext::default(), 1).unwrap();
    assert_eq!(runtime.interrupt_for_run_replacement(), vec![b, c]);
    assert!(runtime.is_interrupted(b) && runtime.is_interrupted(c) && runtime.is_interrupted(q));
    assert!(!runtime.is_interrupted(a));
    assert_eq!(runtime.completed_call(a), None);
    assert!(runtime.running_exec_ids().is_empty());
}

#[test]
fn draining_forgets_everything() {
    let mut runtime = CursorToolRuntime::new();
    let a = runtime.reserve_exec(tool_call("a", "Shell"), ExecContext::default(), 1).unwrap();
    let b = runtime.reserve_exec(tool_call("b", "Shell"), ExecContext::default(), 1).unwrap();
    runtime.interrupt_for_message();
    let c = runtime.reserve_exec(tool_call("c", "Shell"), ExecContext::default(), 1).unwrap();
    assert_eq!(runtime.running_exec_ids(), vec![c]);
    assert_eq!(runtime.drain_running(), vec![c]);
    assert!(!runtime.is_interrupted(a) && !runtime.is_interrupted(b));
}

#[test]
fn the_earliest_running_task_of_a_call_is_found() {
    let mut runtime = CursorToolRuntime::new();
    runtime.reserve_exec(tool_call("other", "Task"), ExecContext::default(), 1).unwrap();
    let first = runtime.reserve_exec(tool_call("call", "task"), ExecContext::default(), 1).unwrap();
    runtime.reserve_exec(tool_call("call", "TASK"), ExecContext::default(), 1).unwrap();
    runtime.reserve_exec(tool_call("call", "Shell"), ExecContext::default(), 1).unwrap();
    assert_eq!(runtime.running_task_exec_id("call"), Some(first));
    assert_eq!(runtime.running_task_exec_id("missing"), None);
    runtime.discard_exec(first);
    assert_eq!(runtime.running_task_exec_id("call"), Some(first + 1));
}

#[test]
fn the_next_run_keeps_the_ids_and_the_muted_calls() {
    let mut runtime = CursorToolRuntime::new();
    let a = runtime.reserve_exec(tool_call("a", "Shell"), ExecContext::default(), 1).unwrap();
    runtime.interrupt_for_message();
    let q = runtime.reserve_interaction(tool_call("q", "AskQuestion"), 1).unwrap();
    runtime.next_run();
    assert!(runtime.is_interrupted(a));
    assert!(runtime.take_interaction(q).is_none());
    let next = runtime.reserve_exec(tool_call("n", "Shell"), ExecContext::default(), 1).unwrap();
    assert_eq!(next, q + 1);
    runtime.discard_interaction(q);
}
