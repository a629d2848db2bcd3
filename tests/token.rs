use argon2::password_hash::{PasswordHasher, SaltString};
use wakeup_relay::auth::{
    check_login, check_ownership, login_outcome, resolve_ctx,
    CookieUpdate, AUTH_TOKEN,
};
use wakeup_relay::ctx::Ctx;
use wakeup_relay::error::MyError;
use wakeup_relay::token::{
    is_fresh, issue_token, parse_timestamp, parse_token, timestamp_is_valid, TOKEN_LIFETIME_SECS,
};

#[test]
fn issue_token_formats_identity_and_time() {
    assert_eq!(issue_token(42, 1700000000), "user-42.1700000000");
    assert_eq!(issue_token(0, 0), "user-0.0");
    assert_eq!(issue_token(7, -15), "user-7.-15");
    assert_eq!(issue_token(-3, 9), "user--3.9");
    assert_eq!(
        issue_token(i32::MAX, i64::MIN),
        "user-2147483647.-9223372036854775808"
    );
}

#[test]
fn token_round_trip() {
    for (id, t) in [(42, 1700000000i64), (0, 0), (i32::MAX, i64::MAX), (5, i64::MIN), (9, -1)] {
        let token = issue_token(id, t);
        let (parsed_id, rest) = parse_token(&token).unwrap();
        assert_eq!(parsed_id, id);
        assert_eq!(parse_timestamp(&rest), Some(t));
    }
}

#[test]
fn parse_token_rejects_wrong_shapes() {
    for bad in [
        "", "user-", "user-.5", "usr-1.5", "user-1.", "user-1x.5", "user-1", "xuser-1.5",
        "user-99999999999.5", "user-+1.5", "User-1.5",
    ] {
        assert_eq!(parse_token(bad), Err(MyError::AuthFailTokenWrongFormat), "{bad}");
    }
    assert_eq!(parse_token("user-007.x"), Ok((7, "x".to_string())));
    assert_eq!(parse_token("user-1.2.3"), Ok((1, "2.3".to_string())));
    assert_eq!(parse_token("user-2147483647.1"), Ok((i32::MAX, "1".to_string())));
    assert_eq!(parse_token("user-2147483648.1"), Err(MyError::AuthFailTokenWrongFormat));
}

#[test]
fn parse_timestamp_reads_signed_integers() {
    assert_eq!(parse_timestamp("123"), Some(123));
    assert_eq!(parse_timestamp("+123"), Some(123));
    assert_eq!(parse_timestamp("-123"), Some(-123));
    assert_eq!(parse_timestamp("9223372036854775807"), Some(i64::MAX));
    assert_eq!(parse_timestamp("-9223372036854775808"), Some(i64::MIN));
    assert_eq!(parse_timestamp("9223372036854775808"), None);
    assert_eq!(parse_timestamp("-9223372036854775809"), None);
    for bad in ["", "+", "-", "1a", "a1", " 1", "1.5", "--1"] {
        assert_eq!(parse_timestamp(bad), None, "{bad}");
    }
}

#[test]
fn freshness_boundary() {
    assert_eq!(TOKEN_LIFETIME_SECS, 3600);
    assert!(is_fresh(1000, 1000 + 3599));
    assert!(!is_fresh(1000, 1000 + 3600));
    assert!(!is_fresh(1000, 1000 + 3601));
    assert!(is_fresh(1000, 1000));
    assert!(is_fresh(5000, 1000));
    assert!(!is_fresh(i64::MIN, i64::MAX));
    assert!(is_fresh(i64::MAX, i64::MIN));
}

#[test]
fn timestamp_is_valid_errors() {
    assert_eq!(timestamp_is_valid("1000", 4599), Ok(()));
    assert_eq!(timestamp_is_valid("1000", 4600), Err(MyError::AuthFailExpiredTokenCookie));
    assert_eq!(timestamp_is_valid("abc", 0), Err(MyError::AuthFailInvalidTimestamp));
}

#[test]
fn resolve_ctx_without_cookie() {
    let r = resolve_ctx(None, 100);
    assert_eq!(r.ctx, Err(MyError::AuthFailNoAuthTokenCookie));
    assert!(matches!(r.cookie, CookieUpdate::Unchanged));
}

#[test]
fn resolve_ctx_refreshes_a_valid_token() {
    let r = resolve_ctx(Some("user-7.1000"), 4000);
    assert_eq!(r.ctx, Ok(Ctx::new(7)));
    assert_eq!(r.ctx.unwrap().user_id(), 7);
    match r.cookie {
        CookieUpdate::Refresh(t) => assert_eq!(t, "user-7.4000"),
        other => panic!("unexpected {other:?}"),
    }
}

#[test]
fn resolve_ctx_clears_failing_tokens() {
    let cases = [
        ("garbage", MyError::AuthFailTokenWrongFormat),
        ("user-7.abc", MyError::AuthFailInvalidTimestamp),
        ("user-7.1000", MyError::AuthFailExpiredTokenCookie),
    ];
    for (token, err) in cases {
        let r = resolve_ctx(Some(token), 4600);
        assert_eq!(r.ctx, Err(err));
        assert!(matches!(r.cookie, CookieUpdate::Clear));
    }
}

#[test]
fn resolve_ctx_with_a_clock_reading() {
    let now = chrono::Utc::now().timestamp();
    let token = issue_token(11, now);
    let r = resolve_ctx(Some(&token), now + 10);
    assert_eq!(r.ctx, Ok(Ctx::new(11)));
    match r.cookie {
        CookieUpdate::Refresh(t) => assert_eq!(t, format!("user-11.{}", now + 10)),
        other => panic!("unexpected {other:?}"),
    }
    let old = resolve_ctx(Some("user-11.0"), now);
    assert_eq!(old.ctx, Err(MyError::AuthFailExpiredTokenCookie));
}

#[test]
fn login_checks_the_password_hash() {
    let salt = SaltString::from_b64("c29tZXNhbHRzb21lc2FsdA").unwrap();
    let hash = argon2::Argon2::default()
        .hash_password(b"secret", &salt)
        .unwrap()
        .to_string();
    assert_eq!(check_login(3, "secret", &hash), Ok(3));
    assert_eq!(check_login(3, "wrong", &hash), Err(MyError::LoginFail));
    assert_eq!(check_login(3, "secret", "not a hash"), Err(MyError::LoginFail));
    assert_eq!(login_outcome(4, true), Ok(4));
    assert_eq!(login_outcome(4, false), Err(MyError::LoginFail));
}

#[test]
fn ownership_decision() {
    assert_eq!(check_ownership(1, 2, true), Ok(()));
    assert_eq!(
        check_ownership(1, 2, false),
        Err(MyError::UserDoesNotOwnDevice { user_id: 1, device_id: 2 })
    );
    assert_eq!(AUTH_TOKEN, "auth-token");
}
