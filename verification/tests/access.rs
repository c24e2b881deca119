use byok_server::access::{admits, regenerate, resolve_token, token_from, AccessTokenSource};
use byok_server::error::Error;

#[test]
fn environment_token_wins_and_cannot_be_regenerated() {
    let (token, source, persist) = resolve_token(Some("  pinned-token \n"), Some("stored"));
    assert_eq!(token, "pinned-token");
    assert_eq!(source, AccessTokenSource::Environment);
    assert!(!persist);
    assert!(matches!(
        regenerate(source),
        Err(Error::Config(message))
            if message == "access token is set by CURSOR_ACCESS_TOKEN; unset it to regenerate"
    ));
}

#[test]
fn a_stored_token_is_kept_and_a_missing_one_is_generated() {
    let (token, source, persist) = resolve_token(Some("   "), Some("stored"));
    assert_eq!(token, "stored");
    assert_eq!(source, AccessTokenSource::Generated);
    assert!(!persist);

    let (token, source, persist) = resolve_token(None, Some(""));
    assert_eq!(token.len(), 64);
    assert!(token.bytes().all(|b| b.is_ascii_hexdigit()));
    assert_eq!(source, AccessTokenSource::Generated);
    assert!(persist);
}

#[test]
fn regeneration_rotates_the_accepted_token() {
    let first = regenerate(AccessTokenSource::Generated).unwrap();
    let second = regenerate(AccessTokenSource::Generated).unwrap();
    assert_ne!(first, second);
    let presented = format!("Bearer {second}");
    assert!(admits(false, Some(&presented), &second));
    assert!(!admits(false, Some(&presented), &first));
}

#[test]
fn loopback_peers_pass_without_a_token() {
    assert!(admits(true, None, "token"));
    assert!(admits(true, Some("Bearer wrong"), "token"));
}

#[test]
fn remote_peers_need_the_bearer_token() {
    assert!(!admits(false, None, "token"));
    assert!(!admits(false, Some("token"), "token"));
    assert!(!admits(false, Some("Bearer wrong"), "token"));
    assert!(!admits(false, Some("Bearer "), "token"));
    assert!(admits(false, Some("Bearer token"), "token"));
}

#[test]
fn a_token_joins_its_two_identifiers() {
    assert_eq!(token_from("ab12", "cd34"), "ab12cd34");
}
