use jcowork::reset::{reset_code_of, ResetCodes};

#[test]
fn codes_are_six_digits() {
    assert_eq!(reset_code_of(0), "000000");
    assert_eq!(reset_code_of(42), "000042");
    assert_eq!(reset_code_of(1_234_567), "234567");
    assert_eq!(reset_code_of(u32::MAX), "967295");
}

#[test]
fn issued_code_resets_once_within_ten_minutes() {
    let mut codes = ResetCodes::new();
    let code = codes.issue_with("alice", "u1", 123, 1_000);
    assert_eq!(code, "000123");
    assert_eq!(codes.check("alice", "short", "000123", 1_000).unwrap_err(), "Password must be at least 6 characters");
    assert_eq!(codes.check("alice", "secret1", "999999", 1_000).unwrap_err(), "Invalid reset code");
    assert_eq!(
        codes.check("bob", "secret1", "000123", 1_000).unwrap_err(),
        "Invalid or expired reset code. Please request a new one."
    );
    assert_eq!(codes.check("alice", "secret1", "000123", 1_600).unwrap(), "u1");
    codes.remove("alice");
    assert_eq!(
        codes.check("alice", "secret1", "000123", 1_600).unwrap_err(),
        "Invalid or expired reset code. Please request a new one."
    );
}

#[test]
fn expired_code_is_dropped_and_new_code_replaces_old() {
    let mut codes = ResetCodes::new();
    codes.issue_with("alice", "u1", 1, 0);
    assert_eq!(codes.check("alice", "secret1", "000001", 601).unwrap_err(), "Reset code has expired. Please request a new one.");
    assert_eq!(
        codes.check("alice", "secret1", "000001", 0).unwrap_err(),
        "Invalid or expired reset code. Please request a new one."
    );
    codes.issue_with("alice", "u1", 2, 0);
    codes.issue_with("alice", "u1", 3, 0);
    assert_eq!(codes.check("alice", "secret1", "000002", 0).unwrap_err(), "Invalid reset code");
    let fresh = codes.issue("alice", "u1", 0);
    assert_eq!(fresh.len(), 6);
    assert!(fresh.chars().all(|c| c.is_ascii_digit()));
    assert_eq!(codes.check("alice", "secret1", &fresh, 10).unwrap(), "u1");
}
