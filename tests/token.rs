use realm_core::error::ServiceError;
use realm_core::token::{sign_token, verify_token, ACCESS_TTL_SECS, REFRESH_TTL_SECS};

const NOW: usize = 1_700_000_000;

#[test]
fn access_token_round_trips_subject() {
    let t = sign_token("00000000-0000-0000-0000-00000000000a", "s3cret", ACCESS_TTL_SECS, None, NOW).unwrap();
    let c = verify_token(&t, "s3cret", NOW).unwrap();
    assert_eq!(c.sub, "00000000-0000-0000-0000-00000000000a");
    assert_eq!(c.iat, NOW);
    assert_eq!(c.exp, NOW + 3600);
    assert_eq!(c.realm_id, None);
}

#[test]
fn token_carries_realm_scope() {
    let t = sign_token("user", "k", REFRESH_TTL_SECS, Some("realm-1"), NOW).unwrap();
    let c = verify_token(&t, "k", NOW + 10).unwrap();
    assert_eq!(c.realm_id, Some("realm-1".to_string()));
    assert_eq!(c.exp, NOW + 7 * 86400);
}

#[test]
fn token_rejected_from_expiry_on() {
    let t = sign_token("user", "k", ACCESS_TTL_SECS, None, NOW).unwrap();
    assert!(verify_token(&t, "k", NOW + 3599).is_ok());
    assert_eq!(verify_token(&t, "k", NOW + 3600).err(), Some(ServiceError::Forbidden));
    assert_eq!(verify_token(&t, "k", NOW + 100_000).err(), Some(ServiceError::Forbidden));
}

#[test]
fn token_rejected_under_other_secret() {
    let t = sign_token("user", "first-secret", ACCESS_TTL_SECS, None, NOW).unwrap();
    assert_eq!(verify_token(&t, "second-secret", NOW).err(), Some(ServiceError::Forbidden));
}

#[test]
fn malformed_token_rejected() {
    assert_eq!(verify_token("not.a.token", "k", NOW).err(), Some(ServiceError::Forbidden));
    assert_eq!(verify_token("", "k", NOW).err(), Some(ServiceError::Forbidden));
}

#[test]
fn tampered_token_rejected() {
    let t = sign_token("user", "k", ACCESS_TTL_SECS, None, NOW).unwrap();
    let mut bytes = t.into_bytes();
    let n = bytes.len();
    bytes[n - 2] = if bytes[n - 2] == b'A' { b'B' } else { b'A' };
    let t = String::from_utf8(bytes).unwrap();
    assert!(verify_token(&t, "k", NOW).is_err());
}

#[test]
fn expiry_overflow_is_invalid() {
    assert_eq!(sign_token("user", "k", u64::MAX, None, NOW).err(), Some(ServiceError::Invalid));
}
