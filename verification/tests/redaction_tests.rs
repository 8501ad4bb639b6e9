use stellar_insights::redaction::{
    redact_account, redact_email, redact_hash, redact_ip, redact_token, redact_user_id, Redacted,
};

#[test]
fn test_redact_account() {
    let account = "GXXXXXXXXXXXXXXXXXXXXXXXXXXXXXXXXXXXXXXXXXXXXXXXXXXXXXX";
    let redacted = redact_account(account);
    assert_eq!(redacted, "GXXX...XXXX");
}

#[test]
fn test_redact_account_short() {
    let account = "SHORT";
    let redacted = redact_account(account);
    assert_eq!(redacted, "[REDACTED]");
}

#[test]
fn test_redact_hash() {
    let hash = "abcdef1234567890abcdef1234567890";
    let redacted = redact_hash(hash);
    assert_eq!(redacted, "abcd...7890");
}

#[test]
fn test_redact_user_id() {
    assert_eq!(redact_user_id("user_12345678"), "user_****");
    assert_eq!(redact_user_id("12345678"), "1234****");
}

#[test]
fn test_redact_email() {
    assert_eq!(redact_email("user@example.com"), "****@example.com");
    assert_eq!(redact_email("invalid"), "[REDACTED]");
}

#[test]
fn test_redact_ip() {
    assert_eq!(redact_ip("192.168.1.100"), "192.168.*.*");
    assert_eq!(redact_ip("2001:db8::1"), "2001:****");
}

#[test]
fn test_redact_token() {
    assert_eq!(redact_token("abcdef1234567890"), "abcd****");
    assert_eq!(redact_token("abc"), "[REDACTED]");
}

#[test]
fn test_redacted_wrapper() {
    let secret = "my_secret_value";
    let redacted = Redacted(secret);
    assert_eq!(redacted.redacted_text(), "[REDACTED]");
}

#[test]
fn test_redact_user_id_short_without_underscore() {
    assert_eq!(redact_user_id("abcd"), "[REDACTED]");
}

#[test]
fn test_redact_ip_unrecognised() {
    assert_eq!(redact_ip("not an address"), "[REDACTED]");
    assert_eq!(redact_ip("10.0.1"), "[REDACTED]");
}
