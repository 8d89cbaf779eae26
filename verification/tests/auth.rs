use rustpanel_core::auth::{login_response, IssuedToken, LoginDecision, LoginOutcome};
use rustpanel_core::auth::{
    bearer_token, check_claims, constant_time_eq, decode_totp_secret, totp_code, verify_totp,
    AuthError, AuthInterceptor, JwtAuthority, JwtClaims, LoginThrottle, MAX_TRACKED_ACCOUNTS, MIN_SECRET_BYTES,
    THROTTLE_FORGET_SECONDS, TOTP_STEP_SECONDS,
};

use rustpanel_core::status::Code;

fn authority() -> JwtAuthority {
    JwtAuthority::new(
        "0123456789abcdef0123456789abcdef".as_bytes().to_vec(),
        "rustpanel-test".to_owned(),
        60,
    )
    .expect("authority")
}

fn now() -> u64 {
    std::time::SystemTime::now()
        .duration_since(std::time::UNIX_EPOCH)
        .expect("clock")
        .as_secs()
}

#[test]
fn jwt_round_trip_preserves_subject() {
    let authority = authority();
    let issued_at = now();
    let issued = authority.issue_at("admin", issued_at, "operator").expect("token");
    let claims = authority.validate(&issued.token).expect("claims");

    assert_eq!(claims.sub, "admin");
    assert_eq!(claims.iss, "rustpanel-test");
    assert_eq!(claims.role, "operator");
    assert_eq!(issued.expires_at, issued_at + 60);
}

#[test]
fn jwt_rejects_short_secret() {
    let result = JwtAuthority::new("too-short".as_bytes().to_vec(), "rustpanel".to_owned(), 60);

    assert_eq!(
        result.expect_err("short secret"),
        AuthError::JwtSecretTooShort { min_bytes: MIN_SECRET_BYTES }
    );
}

#[test]
fn zero_ttl_is_refused() {
    let result = JwtAuthority::new(vec![7u8; 32], "rustpanel".to_owned(), 0);
    assert_eq!(result.expect_err("ttl"), AuthError::InvalidTokenTtl);
}

#[test]
fn blank_subject_is_refused() {
    assert_eq!(authority().issue_at("  ", 10, "admin").expect_err("subject"), AuthError::EmptySubject);
}

#[test]
fn signed_token_has_three_parts_and_fixed_header() {
    let issued = authority().issue_at("admin", 1_000, "admin").expect("token");
    let parts: Vec<&str> = issued.token.split('.').collect();
    assert_eq!(parts.len(), 3);
    assert_eq!(parts[0], "eyJ0eXAiOiJKV1QiLCJhbGciOiJIUzI1NiJ9");
    assert_eq!(issued.expires_at, 1_060);
}

#[test]
fn claims_without_subject_are_refused() {
    let claims = JwtClaims {
        sub: " ".to_owned(),
        iss: "x".to_owned(),
        iat: 0,
        exp: 1,
        role: "admin".to_owned(),
    };
    assert_eq!(check_claims(claims).expect_err("subject"), AuthError::EmptySubject);
}

#[test]
fn bearer_header_parsing() {
    assert_eq!(bearer_token(Some("Bearer abc")).expect("token"), "abc");
    assert!(bearer_token(None).is_err());
    assert!(bearer_token(Some("Basic abc")).is_err());
}

#[test]
fn totp_matches_rfc6238_vector_truncated_to_six_digits() {
    let secret = decode_totp_secret("GEZDGNBVGY3TQOJQGEZDGNBVGY3TQOJQ").expect("secret");
    let code = totp_code(&secret, 59 / TOTP_STEP_SECONDS).expect("code");

    assert_eq!(code, "287082");
    assert!(verify_totp(&secret, "287082", 59));
    assert!(!verify_totp(&secret, "000000", 59));
}

#[test]
fn invalid_totp_secret_is_refused() {
    assert_eq!(decode_totp_secret("not base32 !").expect_err("secret"), AuthError::InvalidTotpSecret);
}

#[test]
fn constant_time_eq_requires_same_bytes() {
    assert!(constant_time_eq(b"rustpanel", b"rustpanel"));
    assert!(!constant_time_eq(b"rustpanel", b"rustpanel2"));
    assert!(!constant_time_eq(b"rustpanel", b"rustpanic"));
}

fn throttle(max_failures: u32, base_lock_seconds: u64) -> LoginThrottle {
    LoginThrottle::new(max_failures, base_lock_seconds, base_lock_seconds * 15)
}

#[test]
fn throttle_locks_account_after_threshold_failures() {
    let mut throttle = throttle(3, 60);
    let now = 1_000;

    for _ in 0..2 {
        throttle.record_failure("admin", now);
    }
    assert_eq!(throttle.locked_for("admin", now), None);

    throttle.record_failure("admin", now);
    assert_eq!(throttle.locked_for("admin", now), Some(60));
    assert_eq!(throttle.locked_for("operator", now), None);
    assert_eq!(throttle.locked_for("admin", now + 60), None);
}

#[test]
fn throttle_backs_off_exponentially_and_caps() {
    let mut throttle = throttle(1, 60);
    let now = 1_000;

    throttle.record_failure("admin", now);
    assert_eq!(throttle.locked_for("admin", now), Some(60));
    throttle.record_failure("admin", now);
    assert_eq!(throttle.locked_for("admin", now), Some(120));
    throttle.record_failure("admin", now);
    assert_eq!(throttle.locked_for("admin", now), Some(240));

    for _ in 0..10 {
        throttle.record_failure("admin", now);
    }
    assert_eq!(throttle.locked_for("admin", now), Some(900));
}

#[test]
fn throttle_clears_on_success_and_forgets_stale_failures() {
    let mut throttle = throttle(3, 60);

    throttle.record_failure("admin", 1_000);
    throttle.record_failure("admin", 1_000);
    throttle.record_success("admin");
    throttle.record_failure("admin", 1_001);
    assert_eq!(throttle.locked_for("admin", 1_001), None);

    let stale = 1_001 + THROTTLE_FORGET_SECONDS;
    throttle.record_failure("admin", stale);
    throttle.record_failure("admin", stale);
    assert_eq!(throttle.locked_for("admin", stale), None);
}

#[test]
fn throttle_table_stays_bounded_under_username_spray() {
    let mut throttle = throttle(5, 60);
    for index in 0..(MAX_TRACKED_ACCOUNTS + 200) {
        throttle.record_failure(&format!("user-{index}"), 1_000 + index as u64);
    }

    assert!(throttle.len() <= MAX_TRACKED_ACCOUNTS);
}

#[test]
fn error_messages_name_the_minimum() {
    assert_eq!(
        AuthError::JwtSecretTooShort { min_bytes: 32 }.to_message(),
        "JWT secret must be at least 32 bytes"
    );
}

#[test]
fn interceptor_accepts_valid_bearer_token() {
    let authority = authority();
    let issued = authority.issue("admin").expect("token");
    let header = format!("Bearer {}", issued.token);

    let subject = AuthInterceptor::new(authority).authenticate_header(Some(&header)).expect("authenticated");

    assert_eq!(subject.subject, "admin");
}

#[test]
fn interceptor_rejects_missing_or_malformed_token() {
    let interceptor = AuthInterceptor::new(authority());

    assert_eq!(bearer_token(None).expect_err("missing").code, Code::Unauthenticated);
    assert_eq!(bearer_token(Some("Basic abc")).expect_err("malformed").code, Code::Unauthenticated);
    assert_eq!(bearer_token(Some("Bearer a b")).expect_err("spaces").code, Code::Unauthenticated);

    assert_eq!(interceptor.authenticate_header(None).expect_err("missing").code, Code::Unauthenticated);
    let forged = interceptor.authority().validate("abc.def.ghi");
    let refused = interceptor.authenticate(forged).expect_err("invalid");
    assert_eq!(refused.code, Code::Unauthenticated);
    assert_eq!(refused.message, "invalid bearer token");
}

#[test]
fn blank_subjects_are_refused_when_issuing() {
    let authority = authority();
    assert_eq!(authority.issue("  ").unwrap_err(), AuthError::EmptySubject);
    assert_eq!(authority.issue_with_role("", "admin").unwrap_err(), AuthError::EmptySubject);
    assert_eq!(
        rustpanel_core::auth::issue_login_tokens(&authority, " ", "admin").unwrap_err(),
        AuthError::EmptySubject
    );
    let (access, refresh) = rustpanel_core::auth::issue_login_tokens(&authority, "admin", "operator").expect("tokens");
    assert_ne!(access.token, refresh.token);
}

#[test]
fn tokens_validate_until_the_leeway_after_expiry() {
    let authority = authority();
    let issued = authority.issue_at("admin", 1_000, "admin").expect("token");
    assert_eq!(issued.expires_at, 1_060);
    let claims = authority.validate_at(&issued.token, 1_120).expect("within leeway");
    assert_eq!(claims.sub, "admin");
    assert_eq!(claims.iss, "rustpanel-test");
    assert_eq!(claims.iat, 1_000);
    assert_eq!(claims.exp, 1_060);
    assert_eq!(claims.role, "admin");
    assert_eq!(authority.validate_at(&issued.token, 1_121).unwrap_err(), AuthError::ExpiredOrInvalidToken);
}

#[test]
fn tokens_of_another_secret_or_issuer_are_refused() {
    let issued = authority().issue_at("admin", 1_000, "admin").expect("token");
    let other_secret = JwtAuthority::new(vec![b'x'; 32], "rustpanel-test".to_owned(), 60).expect("authority");
    assert_eq!(other_secret.validate_at(&issued.token, 1_000).unwrap_err(), AuthError::ExpiredOrInvalidToken);
    let other_issuer =
        JwtAuthority::new("0123456789abcdef0123456789abcdef".as_bytes().to_vec(), "elsewhere".to_owned(), 60)
            .expect("authority");
    assert_eq!(other_issuer.validate_at(&issued.token, 1_000).unwrap_err(), AuthError::ExpiredOrInvalidToken);
    let interceptor = AuthInterceptor::new(other_secret);
    let header = format!("Bearer {}", issued.token);
    assert_eq!(interceptor.authenticate_header_at(Some(&header), 1_000).unwrap_err().code, Code::Unauthenticated);
}

#[test]
fn tampered_tokens_are_refused() {
    let authority = authority();
    let issued = authority.issue_at("admin", 1_000, "admin").expect("token");
    let mut parts: Vec<&str> = issued.token.split('.').collect();
    assert_eq!(parts.len(), 3);
    let forged_claims = authority.issue_at("root", 1_000, "admin").expect("token");
    let forged_middle = forged_claims.token.split('.').nth(1).expect("claims part").to_owned();
    parts[1] = &forged_middle;
    let forged = parts.join(".");
    assert_eq!(authority.validate_at(&forged, 1_000).unwrap_err(), AuthError::ExpiredOrInvalidToken);
    assert_eq!(authority.validate_at(&format!("{}.x", issued.token), 1_000).unwrap_err(), AuthError::ExpiredOrInvalidToken);
    assert_eq!(authority.validate_at("", 1_000).unwrap_err(), AuthError::ExpiredOrInvalidToken);
}

#[test]
fn issued_tokens_decode_with_jsonwebtoken() {
    let issued = authority().issue_at("admin", 1_000, "operator").expect("token");
    let mut validation = jsonwebtoken::Validation::new(jsonwebtoken::Algorithm::HS256);
    validation.set_issuer(&["rustpanel-test"]);
    validation.validate_exp = false;
    let decoded = jsonwebtoken::decode::<serde_json::Value>(
        &issued.token,
        &jsonwebtoken::DecodingKey::from_secret(TEST_SECRET),
        &validation,
    )
    .expect("claims");
    assert_eq!(decoded.claims["sub"], "admin");
    assert_eq!(decoded.claims["iat"], 1_000);
    assert_eq!(decoded.claims["exp"], 1_060);
    assert_eq!(decoded.claims["role"], "operator");
}

#[test]
fn interceptor_accepts_its_own_tokens_at_a_given_time() {
    let authority = authority();
    let issued = authority.issue_at("admin", 5_000, "admin").expect("token");
    let header = format!("Bearer {}", issued.token);
    let interceptor = AuthInterceptor::new(authority);
    assert_eq!(interceptor.authenticate_header_at(Some(&header), 5_030).expect("accepted").subject, "admin");
    assert_eq!(interceptor.authenticate_header_at(Some(&header), 9_000).unwrap_err().message, "invalid bearer token");
}

#[test]
fn login_failure_alerts_respect_a_clock_that_went_back() {
    let mut failures = vec![1_000u64; 4];
    let mut last_alert = 2_000u64;
    assert_eq!(rustpanel_core::auth::note_login_failure(&mut failures, &mut last_alert, 1_000), None);
    assert_eq!(last_alert, 2_000);
    assert_eq!(failures.len(), 5);

    let mut failures = vec![1_000u64; 4];
    let mut last_alert = 0u64;
    assert_eq!(rustpanel_core::auth::note_login_failure(&mut failures, &mut last_alert, 1_000), Some(5));
    assert_eq!(last_alert, 1_000);
}

#[test]
fn login_outcomes_are_answered_like_the_service() {
    let locked = login_response(&LoginOutcome::Locked(42)).unwrap_err();
    assert_eq!(locked.code, Code::ResourceExhausted);
    assert_eq!(locked.message, "登录失败次数过多,请 42 秒后再试");
    let bad = login_response(&LoginOutcome::Refused(LoginDecision::BadCredentials)).unwrap_err();
    assert_eq!(bad.code, Code::Unauthenticated);
    assert_eq!(bad.message, "invalid username or password");
    let no_totp = login_response(&LoginOutcome::Refused(LoginDecision::TotpNotConfigured)).unwrap_err();
    assert_eq!(no_totp.code, Code::FailedPrecondition);
    let second = login_response(&LoginOutcome::Refused(LoginDecision::TwoFactorFailed)).expect("response");
    assert_eq!(second.status.code, 401);
    assert_eq!(second.status.message, "two factor code required");
    assert!(second.requires_two_factor);
    assert!(second.access_token.is_empty());
    let access = IssuedToken { token: "a".to_owned(), expires_at: 9 };
    let refresh = IssuedToken { token: "r".to_owned(), expires_at: 10 };
    let ok = login_response(&LoginOutcome::Accepted(access, refresh)).expect("response");
    assert_eq!(ok.status.code, 0);
    assert_eq!(ok.status.message, "login ok");
    assert_eq!(ok.access_token, "a");
    assert_eq!(ok.refresh_token, "r");
    assert_eq!(ok.expires_at, 9);
    assert!(!ok.requires_two_factor);
    let failed = login_response(&LoginOutcome::TokenFailed(AuthError::TimeOverflow)).unwrap_err();
    assert_eq!(failed.code, Code::Unauthenticated);
}

const TEST_SECRET: &[u8] = b"0123456789abcdef0123456789abcdef";

fn foreign_token(members: Vec<(&str, serde_json::Value)>, header: jsonwebtoken::Header) -> String {
    let mut claims = serde_json::Map::new();
    for (key, value) in members {
        claims.insert(key.to_owned(), value);
    }
    jsonwebtoken::encode(&header, &claims, &jsonwebtoken::EncodingKey::from_secret(TEST_SECRET)).expect("token")
}

fn hand_made_token(claims_json: &str) -> String {
    signed_token(r#"{"alg":"HS256"}"#, claims_json)
}

fn signed_token(header_json: &str, claims_json: &str) -> String {
    let message = format!(
        "{}.{}",
        data_encoding::BASE64URL_NOPAD.encode(header_json.as_bytes()),
        data_encoding::BASE64URL_NOPAD.encode(claims_json.as_bytes())
    );
    let signature = jsonwebtoken::crypto::sign(
        message.as_bytes(),
        &jsonwebtoken::EncodingKey::from_secret(TEST_SECRET),
        jsonwebtoken::Algorithm::HS256,
    )
    .expect("signature");
    format!("{message}.{signature}")
}

#[test]
fn tokens_without_a_role_validate_with_an_empty_role() {
    let token = foreign_token(
        vec![
            ("sub", serde_json::Value::from("admin")),
            ("iss", serde_json::Value::from("rustpanel-test")),
            ("iat", serde_json::Value::from(1_000u64)),
            ("exp", serde_json::Value::from(1_060u64)),
        ],
        jsonwebtoken::Header::default(),
    );
    let claims = authority().validate_at(&token, 1_000).expect("role-less token");
    assert_eq!(claims.sub, "admin");
    assert_eq!(claims.role, "");
    assert_eq!(claims.exp, 1_060);
    assert_eq!(authority().validate_at(&token, 1_121).unwrap_err(), AuthError::ExpiredOrInvalidToken);
}

#[test]
fn tokens_in_any_json_layout_validate() {
    let spaced = hand_made_token(
        r#"{ "role" : "operator", "exp": 1060, "extra": [1, {"x": null}], "iat":1000, "iss":"rustpanel-test", "sub":"ops" }"#,
    );
    let claims = authority().validate_at(&spaced, 1_000).expect("spaced claims");
    assert_eq!(claims.sub, "ops");
    assert_eq!(claims.role, "operator");
    assert_eq!(claims.iat, 1_000);

    let mut header = jsonwebtoken::Header::new(jsonwebtoken::Algorithm::HS256);
    header.kid = Some("key-1".to_owned());
    let with_kid = foreign_token(
        vec![
            ("sub", serde_json::Value::from("admin")),
            ("iss", serde_json::Value::from("rustpanel-test")),
            ("iat", serde_json::Value::from(1_000u64)),
            ("exp", serde_json::Value::from(1_060u64)),
            ("role", serde_json::Value::from("readonly")),
        ],
        header,
    );
    assert_eq!(authority().validate_at(&with_kid, 1_000).expect("kid header").role, "readonly");
}

#[test]
fn tokens_with_wrong_claim_types_or_an_audience_are_refused() {
    let role_number = hand_made_token(r#"{"sub":"a","iss":"rustpanel-test","iat":1,"exp":2000,"role":7}"#);
    assert_eq!(authority().validate_at(&role_number, 1_000).unwrap_err(), AuthError::ExpiredOrInvalidToken);
    let float_exp = hand_made_token(r#"{"sub":"a","iss":"rustpanel-test","iat":1,"exp":2000.5}"#);
    assert_eq!(authority().validate_at(&float_exp, 1_000).unwrap_err(), AuthError::ExpiredOrInvalidToken);
    let audience = hand_made_token(r#"{"sub":"a","iss":"rustpanel-test","iat":1,"exp":2000,"aud":"x"}"#);
    assert_eq!(authority().validate_at(&audience, 1_000).unwrap_err(), AuthError::ExpiredOrInvalidToken);
    let blank = hand_made_token(r#"{"sub":" ","iss":"rustpanel-test","iat":1,"exp":2000}"#);
    assert_eq!(authority().validate_at(&blank, 1_000).unwrap_err(), AuthError::EmptySubject);
    let wrong_issuer = hand_made_token(r#"{"sub":"a","iss":"elsewhere","iat":1,"exp":2000}"#);
    assert_eq!(authority().validate_at(&wrong_issuer, 1_000).unwrap_err(), AuthError::ExpiredOrInvalidToken);
}

#[test]
fn interceptor_refuses_other_schemes() {
    let interceptor = AuthInterceptor::new(authority());
    let refused = interceptor.authenticate_header(Some("Basic abc")).expect_err("basic");
    assert_eq!(refused.code, Code::Unauthenticated);
}
