use byok_server::blob::BlobId;
use byok_server::checkpoint::{
    classify_prefetched, classify_state_entry, context_limit, inline_json_lines, PreFetchedBlob,
    Prefetched, StateEntry,
};

#[test]
fn context_limit_defaults_to_legacy_window() {
    assert_eq!(context_limit(None, None), Some(200_000));
    assert_eq!(context_limit(None, Some(0)), Some(200_000));
}

#[test]
fn context_limit_prefers_selected_then_previous_window() {
    assert_eq!(context_limit(Some(64_000), Some(100_000)), Some(64_000));
    assert_eq!(context_limit(None, Some(100_000)), Some(100_000));
}

#[test]
fn single_json_value_returns_one_entry() {
    let data = br#"  {"role":"user","content":"hi"}  "#;
    let lines = inline_json_lines(data);
    assert_eq!(lines.len(), 1);
}

#[test]
fn newline_delimited_json_splits_per_line() {
    let data =
        b"{\"role\":\"user\",\"content\":\"one\"}\n{\"role\":\"assistant\",\"content\":\"two\"}\n\n";
    let lines = inline_json_lines(data);
    assert_eq!(lines.len(), 2);
    assert!(lines[0].starts_with(b"{"));
    assert!(lines[1].starts_with(b"{"));
}

#[test]
fn embedded_escaped_newlines_stay_inside_one_entry() {
    let data = b"{\"role\":\"user\",\"content\":\"line1\\nline2\"}";
    let lines = inline_json_lines(data);
    assert_eq!(lines.len(), 1);
}

#[test]
fn empty_entry_returns_no_lines() {
    assert!(inline_json_lines(b"   \n  ").is_empty());
}

#[test]
fn thirty_two_byte_entry_is_a_blob_reference() {
    let digest = BlobId::digest(b"payload").as_bytes().to_vec();
    match classify_state_entry(&digest).unwrap() {
        StateEntry::Reference(id) => assert_eq!(id.as_bytes(), digest.as_slice()),
        StateEntry::Inline => panic!("expected Reference"),
    }
}

#[test]
fn inline_json_entry_is_not_a_reference() {
    let inline = br#"{"role":"user","content":"review this diff"}"#;
    assert!(matches!(
        classify_state_entry(inline).unwrap(),
        StateEntry::Inline
    ));
    let large = vec![b'{'; 28_753];
    assert!(matches!(
        classify_state_entry(&large).unwrap(),
        StateEntry::Inline
    ));
}

fn blob(id: Vec<u8>, value: Vec<u8>) -> PreFetchedBlob {
    PreFetchedBlob { id, value }
}

#[test]
fn captured_field_order_verifies_against_the_digest() {
    let payload = b"review-diff-payload".to_vec();
    let digest = BlobId::digest(&payload).as_bytes().to_vec();
    let prefetched = blob(digest.clone(), payload.clone());
    match classify_prefetched(&prefetched).unwrap().unwrap() {
        Prefetched::Verified(expected, value) => {
            assert_eq!(expected, BlobId::digest(&payload));
            assert_eq!(value, payload.as_slice());
        }
        _ => panic!("expected Verified"),
    }
}

#[test]
fn swapped_field_order_still_verifies() {
    let payload = vec![7u8; 28_753];
    let digest = BlobId::digest(&payload).as_bytes().to_vec();
    let prefetched = blob(payload.clone(), digest.clone());
    match classify_prefetched(&prefetched).unwrap().unwrap() {
        Prefetched::Verified(expected, value) => {
            assert_eq!(expected, BlobId::from_bytes(&digest).unwrap());
            assert_eq!(value, payload.as_slice());
        }
        _ => panic!("expected Verified"),
    }
}

#[test]
fn payload_without_a_digest_side_is_stored_raw() {
    let payload = b"opaque-context".to_vec();
    let prefetched = blob(payload.clone(), Vec::new());
    match classify_prefetched(&prefetched).unwrap().unwrap() {
        Prefetched::Raw(value) => assert_eq!(value, payload.as_slice()),
        _ => panic!("expected Raw"),
    }
}

#[test]
fn empty_blob_is_skipped() {
    assert!(classify_prefetched(&blob(Vec::new(), Vec::new()))
        .unwrap()
        .is_none());
}

#[test]
fn raw_payload_prefers_the_value_field_when_both_are_set() {
    let prefetched = blob(b"first".to_vec(), b"second".to_vec());
    match classify_prefetched(&prefetched).unwrap().unwrap() {
        Prefetched::Raw(value) => assert_eq!(value, b"second"),
        _ => panic!("expected Raw"),
    }
}

#[test]
fn blob_digest_is_sha256_and_encodes_as_standard_base64() {
    let id = BlobId::digest(b"abc");
    assert_eq!(
        hex::encode(id.as_bytes()),
        "ba7816bf8f01cfea414140de5dae2223b00361a396177a9cb410ff61f20015ad"
    );
    assert_eq!(
        id.to_base64(),
        "ungWv48Bz+pBQUDeXa4iI7ADYaOWF3qctBD/YfIAFa0="
    );
    assert!(BlobId::from_bytes(b"short").is_none());
}

#[test]
fn prefetched_payloads_are_stored_and_checked_against_their_digest() {
    let digest = byok_server::blob::BlobId::digest(b"payload").as_bytes().to_vec();
    let blobs = vec![
        byok_server::checkpoint::PreFetchedBlob { id: digest.clone(), value: b"payload".to_vec() },
        byok_server::checkpoint::PreFetchedBlob { id: Vec::new(), value: Vec::new() },
        byok_server::checkpoint::PreFetchedBlob { id: b"raw".to_vec(), value: Vec::new() },
        byok_server::checkpoint::PreFetchedBlob { id: b"swapped".to_vec(), value: byok_server::blob::BlobId::digest(b"swapped").as_bytes().to_vec() },
    ];
    let (stored, error) = byok_server::checkpoint::prefetched_payloads(&blobs);
    assert!(error.is_none());
    assert_eq!(stored, vec![b"payload".to_vec(), b"raw".to_vec(), b"swapped".to_vec()]);

    let bad = vec![
        byok_server::checkpoint::PreFetchedBlob { id: vec![7u8; 32], value: b"tampered".to_vec() },
        byok_server::checkpoint::PreFetchedBlob { id: b"never".to_vec(), value: Vec::new() },
    ];
    let (stored, error) = byok_server::checkpoint::prefetched_payloads(&bad);
    assert_eq!(stored, vec![b"tampered".to_vec()]);
    match error {
        Some(byok_server::error::Error::Protocol(message)) => assert_eq!(
            message,
            "prefetched Blob hash mismatch: BwcHBwcHBwcHBwcHBwcHBwcHBwcHBwcHBwcHBwcHBwc="
        ),
        _ => panic!("expected a hash mismatch"),
    }
}

#[test]
fn client_state_entries_are_normalized_to_references() {
    let reference = vec![1u8; 32];
    let entries = vec![reference.clone(), Vec::new(), b"inline message".to_vec()];
    let (kept, blobs) = byok_server::checkpoint::normalize_entries(&entries);
    assert_eq!(kept[0], reference);
    assert!(kept[1].is_empty());
    assert_eq!(kept[2], byok_server::blob::BlobId::digest(b"inline message").as_bytes().to_vec());
    assert_eq!(blobs, vec![b"inline message".to_vec()]);
}

#[test]
fn inline_entries_become_digests_backed_by_the_store() {
    let inline = br#"{"role":"user","content":"review context"}"#.to_vec();
    let digest = BlobId::digest(&inline).as_bytes().to_vec();
    let (roots, stored_roots) = byok_server::checkpoint::normalize_entries(&vec![inline.clone()]);
    let (turns, _) = byok_server::checkpoint::normalize_entries(&vec![vec![9u8; 28_753]]);
    let (summary, _) = byok_server::checkpoint::normalize_entries(&vec![b"summary-json".to_vec()]);
    assert_eq!(roots, vec![digest.clone()]);
    assert_eq!(turns[0].len(), 32);
    assert_eq!(summary[0].len(), 32);
    // The store is given the original content behind every new reference.
    assert_eq!(stored_roots, vec![inline]);
}

#[test]
fn existing_references_and_empty_entries_are_untouched() {
    let reference = BlobId::digest(b"already-stored").as_bytes().to_vec();
    let entries = vec![reference.clone(), Vec::new()];
    let (kept, stored) = byok_server::checkpoint::normalize_entries(&entries);
    assert_eq!(kept, vec![reference, Vec::new()]);
    assert!(stored.is_empty());
}
