use auth_service::data_stores::BannedTokenStore;
use auth_service::hashset_banned_token_store::HashsetBannedTokenStore;
use auth_service::token::{issue, verify, TokenError, TOKEN_TTL_SECONDS};
use auth_service::user::Email;

#[test]
fn test_issue_then_verify_returns_the_claims() {
    let email = Email::parse("claims@example.com").unwrap();
    let banned = HashsetBannedTokenStore::new();
    let now: u64 = 1_000_000;

    let token = issue(&email, now);
    let claims = verify(token.as_str(), &banned, now).unwrap();
    assert_eq!(claims.subject, "claims@example.com");
    assert_eq!(claims.expires_at, now + TOKEN_TTL_SECONDS);
}

#[test]
fn test_verify_rejects_expired_token() {
    let email = Email::parse("claims@example.com").unwrap();
    let banned = HashsetBannedTokenStore::new();
    let now: u64 = 1_000_000;

    let token = issue(&email, now);
    // still valid one second before expiry
    assert!(verify(token.as_str(), &banned, now + TOKEN_TTL_SECONDS - 1).is_ok());
    // expired at the expiry instant
    assert_eq!(
        verify(token.as_str(), &banned, now + TOKEN_TTL_SECONDS).unwrap_err(),
        TokenError::Expired
    );
}

#[test]
fn test_verify_rejects_tampered_token() {
    let email = Email::parse("claims@example.com").unwrap();
    let banned = HashsetBannedTokenStore::new();
    let now: u64 = 1_000_000;

    let token = issue(&email, now);
    // a changed subject no longer matches the signature
    let tampered = format!("{}x", token);
    assert_eq!(verify(tampered.as_str(), &banned, now).unwrap_err(), TokenError::BadSignature);
}

#[test]
fn test_verify_rejects_malformed_tokens() {
    let banned = HashsetBannedTokenStore::new();
    let now: u64 = 1_000_000;

    for raw in ["", "nodots", "12.34", "007.5.subject", "a.5.subject", "5.b.subject", ".."] {
        assert_eq!(
            verify(raw, &banned, now).unwrap_err(),
            TokenError::Malformed,
            "token {:?}",
            raw
        );
    }
}

#[test]
fn test_verify_rejects_banned_token_before_anything_else() {
    let email = Email::parse("claims@example.com").unwrap();
    let mut banned = HashsetBannedTokenStore::new();
    let now: u64 = 1_000_000;

    let token = issue(&email, now);
    banned.add_token(token.clone()).unwrap();

    // revoked, even though signature and expiry are otherwise valid
    assert_eq!(verify(token.as_str(), &banned, now).unwrap_err(), TokenError::Revoked);
    // a banned malformed string is also reported as revoked first
    banned.add_token("garbage".to_owned()).unwrap();
    assert_eq!(verify("garbage", &banned, now).unwrap_err(), TokenError::Revoked);
}

#[test]
fn test_issued_tokens_differ_per_subject_and_time() {
    let a = Email::parse("a@example.com").unwrap();
    let b = Email::parse("b@example.com").unwrap();
    let now: u64 = 1_000_000;

    assert_ne!(issue(&a, now), issue(&b, now));
    assert_ne!(issue(&a, now), issue(&a, now + 1));
    assert_eq!(issue(&a, now), issue(&a, now));
}
