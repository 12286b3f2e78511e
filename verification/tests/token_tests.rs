use book_manager::model::{AccessToken, AppError, UserId};
use book_manager::token::TokenStore;

#[test]
fn issue_then_resolve_returns_same_user() {
    let mut store = TokenStore::new(3_600_000);
    let token = store.issue(UserId(7), 1_000).unwrap();
    assert_eq!(store.resolve(&token, 1_000), Ok(UserId(7)));
}

#[test]
fn issued_tokens_are_random_and_long() {
    let mut store = TokenStore::new(1_000);
    let a = store.issue(UserId(1), 0).unwrap();
    let b = store.issue(UserId(1), 0).unwrap();
    assert_ne!(a, b);
    for token in [&a, &b] {
        assert_eq!(token.0.chars().count(), 32);
        assert!(token.0.chars().all(|c| matches!(c, '0'..='9' | 'a'..='f')));
        assert_eq!(token.0.as_bytes()[12], b'4');
        assert!(matches!(token.0.as_bytes()[16], b'8' | b'9' | b'a' | b'b'));
    }
    assert_eq!(store.resolve(&a, 1), Ok(UserId(1)));
    assert_eq!(store.resolve(&b, 1), Ok(UserId(1)));
}

#[test]
fn unknown_token_is_not_found() {
    let store = TokenStore::new(1_000);
    assert_eq!(
        store.resolve(&AccessToken(String::from("nope")), 0),
        Err(AppError::TokenNotFound)
    );
}

#[test]
fn revoked_token_is_not_found() {
    let mut store = TokenStore::new(1_000);
    let token = store.issue(UserId(7), 0).unwrap();
    store.revoke(&token);
    assert_eq!(store.resolve(&token, 0), Err(AppError::TokenNotFound));
}

#[test]
fn revoke_is_idempotent() {
    let mut store = TokenStore::new(1_000);
    let token = store.issue(UserId(7), 0).unwrap();
    let other = store.issue(UserId(8), 0).unwrap();
    store.revoke(&token);
    store.revoke(&token);
    store.revoke(&AccessToken(String::from("never issued")));
    assert_eq!(store.resolve(&token, 0), Err(AppError::TokenNotFound));
    assert_eq!(store.resolve(&other, 0), Ok(UserId(8)));
}

#[test]
fn token_expires_when_ttl_has_passed() {
    let mut store = TokenStore::new(1_000);
    let token = store.issue(UserId(7), 5_000).unwrap();
    assert_eq!(store.resolve(&token, 5_999), Ok(UserId(7)));
    assert_eq!(store.resolve(&token, 6_000), Err(AppError::TokenNotFound));
    assert_eq!(store.resolve(&token, 6_001), Err(AppError::TokenNotFound));
}

#[test]
fn resolving_does_not_renew() {
    let mut store = TokenStore::new(1_000);
    let token = store.issue(UserId(7), 0).unwrap();
    assert_eq!(store.resolve(&token, 900), Ok(UserId(7)));
    assert_eq!(store.resolve(&token, 999), Ok(UserId(7)));
    assert_eq!(store.resolve(&token, 1_000), Err(AppError::TokenNotFound));
}

#[test]
fn zero_ttl_token_never_resolves() {
    let mut store = TokenStore::new(0);
    let token = store.issue(UserId(7), 10).unwrap();
    assert_eq!(store.resolve(&token, 10), Err(AppError::TokenNotFound));
}

#[test]
fn user_may_hold_several_tokens() {
    let mut store = TokenStore::new(1_000);
    let phone = store.issue(UserId(7), 0).unwrap();
    let laptop = store.issue(UserId(7), 500).unwrap();
    store.revoke(&phone);
    assert_eq!(store.resolve(&phone, 600), Err(AppError::TokenNotFound));
    assert_eq!(store.resolve(&laptop, 600), Ok(UserId(7)));
    assert_eq!(store.resolve(&laptop, 1_499), Ok(UserId(7)));
    assert_eq!(store.resolve(&laptop, 1_500), Err(AppError::TokenNotFound));
}

#[test]
fn store_binds_given_token_and_overwrites() {
    let mut store = TokenStore::new(100);
    let token = AccessToken(String::from("abc"));
    store.store(&token, UserId(1), 0);
    assert_eq!(store.resolve(&token, 50), Ok(UserId(1)));
    store.store(&token, UserId(2), 80);
    assert_eq!(store.resolve(&token, 150), Ok(UserId(2)));
    assert_eq!(store.resolve(&token, 180), Err(AppError::TokenNotFound));
    store.revoke(&token);
    assert_eq!(store.resolve(&token, 90), Err(AppError::TokenNotFound));
}

#[test]
fn ttl_is_as_configured() {
    assert_eq!(TokenStore::new(42).ttl(), 42);
}

#[test]
fn expiry_does_not_overflow() {
    let mut store = TokenStore::new(u64::MAX);
    let token = AccessToken(String::from("t"));
    store.store(&token, UserId(1), i64::MAX);
    assert_eq!(store.resolve(&token, i64::MAX), Ok(UserId(1)));
    assert_eq!(store.resolve(&token, i64::MIN), Ok(UserId(1)));
    let mut short = TokenStore::new(1);
    short.store(&token, UserId(1), i64::MIN);
    assert_eq!(short.resolve(&token, i64::MIN), Ok(UserId(1)));
    assert_eq!(short.resolve(&token, i64::MIN + 1), Err(AppError::TokenNotFound));
    assert_eq!(short.resolve(&token, i64::MAX), Err(AppError::TokenNotFound));
}

#[test]
fn issue_with_failed_draw_is_persistence_failure() {
    let mut store = TokenStore::new(1_000);
    assert_eq!(store.issue_with(None, UserId(1), 0), Err(AppError::PersistenceFailure));
}

#[test]
fn issue_with_binds_a_token_that_is_not_held() {
    let mut store = TokenStore::new(1_000);
    let token = AccessToken(String::from("0123456789abcdef0123456789abcdef"));
    assert_eq!(store.issue_with(Some(token.clone()), UserId(1), 10), Ok(token.clone()));
    assert_eq!(store.resolve(&token, 10), Ok(UserId(1)));
    assert_eq!(store.resolve(&token, 1_010), Err(AppError::TokenNotFound));
}

#[test]
fn issue_with_never_rebinds_a_held_token() {
    let mut store = TokenStore::new(1_000);
    let token = AccessToken(String::from("0123456789abcdef0123456789abcdef"));
    assert_eq!(store.issue_with(Some(token.clone()), UserId(1), 10), Ok(token.clone()));
    assert_eq!(
        store.issue_with(Some(token.clone()), UserId(2), 500),
        Err(AppError::PersistenceFailure)
    );
    assert_eq!(store.resolve(&token, 600), Ok(UserId(1)));
    assert_eq!(store.resolve(&token, 1_010), Err(AppError::TokenNotFound));
    store.revoke(&token);
    assert_eq!(store.issue_with(Some(token.clone()), UserId(2), 500), Ok(token.clone()));
    assert_eq!(store.resolve(&token, 600), Ok(UserId(2)));
}
