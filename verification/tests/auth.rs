use jcowork::auth::{hash_password, token_claims, verify_password};
use jcowork::gateway::AuthConfig;

#[test]
fn test_password_hash_verify() {
    let password = "test_password_123";
    let hash = hash_password(password).unwrap();
    assert!(verify_password(password, &hash).unwrap());
    assert!(!verify_password("wrong_password", &hash).unwrap());
}

#[test]
fn verify_rejects_malformed_hash() {
    let err = verify_password("pw", "not-a-hash").unwrap_err();
    assert!(err.starts_with("Parse error: "));
}

#[test]
fn claims_expire_after_configured_hours() {
    let config = AuthConfig::default();
    let c = token_claims(&config, "user-123", "testuser", 1_700_000_000);
    assert_eq!(c.sub, "user-123");
    assert_eq!(c.username, "testuser");
    assert_eq!(c.iat, 1_700_000_000);
    assert_eq!(c.exp, 1_700_000_000 + 24 * 3600);
}

#[test]
fn token_from_header_or_query() {
    assert_eq!(jcowork::auth::request_token(Some("Bearer abc.def"), Some("token=zzz")).as_deref(), Some("abc.def"));
    assert_eq!(jcowork::auth::request_token(Some("Basic xyz"), Some("a=1&token=t=2&token=3")).as_deref(), Some("t=2"));
    assert_eq!(jcowork::auth::request_token(None, Some("a=1&b")).as_deref(), None);
    assert_eq!(jcowork::auth::request_token(None, Some("token=")).as_deref(), Some(""));
    assert_eq!(jcowork::auth::request_token(None, None), None);
    assert_eq!(jcowork::auth::request_token(Some("Bearer "), None).as_deref(), Some(""));
    assert_eq!(jcowork::auth::invalid_token_message("ExpiredSignature"), "Invalid token: ExpiredSignature");
}
