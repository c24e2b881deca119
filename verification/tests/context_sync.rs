use byok_server::context_sync::{context_result, part_ids, ContextResult, RequestContextPartReferences};
use byok_server::error::Error;

fn message(result: Result<u32, Error>) -> String {
    match result {
        Err(Error::Protocol(message)) => message,
        _ => panic!("expected a protocol error"),
    }
}

#[test]
fn cursors_context_answer_reads_as_the_context_or_an_error() {
    assert_eq!(context_result(Some(ContextResult::Success(Some(7u32)))).unwrap(), 7);
    assert_eq!(
        message(context_result(Some(ContextResult::Success(None)))),
        "Cursor returned empty request context"
    );
    assert_eq!(
        message(context_result(Some(ContextResult::Error("disk full".into())))),
        "Cursor request context failed: disk full"
    );
    assert_eq!(
        message(context_result(Some(ContextResult::Rejected("busy".into())))),
        "Cursor rejected request context: busy"
    );
    assert_eq!(message(context_result(None)), "Cursor returned no request context result");
}

#[test]
fn only_referenced_parts_are_looked_up() {
    let parts = RequestContextPartReferences {
        rules_blob_id: vec![1; 32],
        skills_blob_id: Vec::new(),
        subagents_blob_id: vec![2; 5],
        mcps_blob_id: vec![3; 32],
    };
    let ids = part_ids(&parts);
    assert_eq!(ids.len(), 3);
    assert_eq!(ids[0].as_ref().unwrap().as_bytes(), &[1u8; 32][..]);
    assert!(ids[1].is_none());
    assert_eq!(ids[2].as_ref().unwrap().as_bytes(), &[3u8; 32][..]);
    let none = RequestContextPartReferences {
        rules_blob_id: Vec::new(),
        skills_blob_id: Vec::new(),
        subagents_blob_id: Vec::new(),
        mcps_blob_id: Vec::new(),
    };
    assert!(part_ids(&none).is_empty());
}
