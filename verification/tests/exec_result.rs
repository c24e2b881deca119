use byok_server::error::Error;
use byok_server::exec_result::{exec_pairing, ExecResultKind, ExecRoute, RenderedTool};

#[test]
fn results_fill_the_tool_they_belong_to() {
    assert_eq!(
        exec_pairing(Some(RenderedTool::Shell), ExecResultKind::MiniSweAgentBash, false, "Shell").unwrap(),
        ExecRoute::Copy
    );
    assert_eq!(
        exec_pairing(Some(RenderedTool::Glob), ExecResultKind::Grep, false, "Glob").unwrap(),
        ExecRoute::Glob
    );
    assert_eq!(
        exec_pairing(Some(RenderedTool::Edit), ExecResultKind::Write { success: true }, true, "Edit").unwrap(),
        ExecRoute::EditSuccess
    );
    assert_eq!(
        exec_pairing(Some(RenderedTool::Edit), ExecResultKind::Write { success: true }, false, "Edit").unwrap(),
        ExecRoute::Write
    );
}

#[test]
fn orchestration_results_complete_the_call_on_their_own() {
    assert_eq!(
        exec_pairing(None, ExecResultKind::SubagentAwait, false, "Await").unwrap(),
        ExecRoute::SubagentAwait
    );
    assert_eq!(
        exec_pairing(Some(RenderedTool::Other), ExecResultKind::McpState, false, "x").unwrap(),
        ExecRoute::McpState
    );
}

#[test]
fn a_result_of_another_tool_is_refused() {
    match exec_pairing(Some(RenderedTool::Read), ExecResultKind::Shell, false, "Read") {
        Err(Error::Protocol(message)) => {
            assert_eq!(message, "unexpected Exec result for tool Read")
        }
        _ => panic!("expected a protocol error"),
    }
    assert!(exec_pairing(None, ExecResultKind::Read, false, "Read").is_err());
}
