use book_writer_chat::auth::{
    bearer_token, check_claims, credentials_valid, decode_claims_segment, encode_jwt,
    header_algorithm_ok, issue_token_pair, next_token_id, open_jwt, token_claims, AuthError,
    JwtClaims, LoginRequest, TokenType, NANOS_PER_HOUR,
};
use serde_json::Value;

const NOW_NANOS: i64 = 1_777_000_000_123_456_789;

fn claims_of_token(secret: &str, token: &str) -> Value {
    let (header, segment) = open_jwt(secret, token).unwrap();
    let header: Value = serde_json::from_slice(&header).unwrap();
    assert_eq!(header["alg"], "HS256");
    let bytes = decode_claims_segment(&segment).unwrap();
    serde_json::from_slice(&bytes).unwrap()
}

#[test]
fn tokens_open_with_their_secret_and_give_back_their_claims() {
    let claims = token_claims("operator", NOW_NANOS, NOW_NANOS + 8 * NANOS_PER_HOUR, TokenType::Access);
    let token = encode_jwt("secret", &claims);
    assert_eq!(token.split('.').count(), 3);
    let decoded = claims_of_token("secret", &token);
    assert_eq!(decoded["sub"], "operator");
    assert_eq!(decoded["iat"], 1_777_000_000i64);
    assert_eq!(decoded["exp"], 1_777_000_000i64 + 8 * 3600);
    assert_eq!(decoded["token_type"], "access");
    assert_eq!(decoded["jti"], "access-1777000000123456789");
}

#[test]
fn tokens_signed_with_another_secret_or_tampered_are_refused() {
    let claims = token_claims("operator", NOW_NANOS, NOW_NANOS + NANOS_PER_HOUR, TokenType::Access);
    let token = encode_jwt("secret", &claims);
    assert_eq!(open_jwt("other", &token).unwrap_err(), AuthError::InvalidToken);
    assert_eq!(open_jwt("secret", "a.b").unwrap_err(), AuthError::InvalidToken);
    let mut tampered = token.clone();
    tampered.push('A');
    assert_eq!(open_jwt("secret", &tampered).unwrap_err(), AuthError::InvalidToken);
}

#[test]
fn claims_are_checked_for_expiry_and_kind() {
    let claims = JwtClaims {
        sub: "operator".to_string(),
        iat: 10,
        exp: 20,
        token_type: "refresh".to_string(),
        jti: "refresh-1".to_string(),
    };
    assert_eq!(check_claims(claims.clone(), TokenType::Refresh, 20).unwrap_err(), AuthError::ExpiredToken);
    assert_eq!(check_claims(claims.clone(), TokenType::Access, 19).unwrap_err(), AuthError::InvalidToken);
    assert_eq!(check_claims(claims, TokenType::Refresh, 19).unwrap().sub, "operator");
}

#[test]
fn login_issues_an_access_and_a_refresh_token() {
    let pair = issue_token_pair("secret", "operator", NOW_NANOS);
    let access = claims_of_token("secret", &pair.access_token);
    let refresh = claims_of_token("secret", &pair.refresh_token);
    assert_eq!(access["token_type"], "access");
    assert_eq!(refresh["token_type"], "refresh");
    assert_eq!(access["exp"], 1_777_000_000i64 + 8 * 3600);
    assert_eq!(refresh["exp"], 1_777_000_000i64 + 30 * 24 * 3600);
    assert!(pair.access_token_expires_at.starts_with("2026-04-24T"));
    assert_ne!(pair.access_token, pair.refresh_token);
}

#[test]
fn bearer_header_and_credentials() {
    assert_eq!(bearer_token(Some("Bearer abc")), Some("abc".to_string()));
    assert_eq!(bearer_token(Some("Basic abc")), None);
    assert_eq!(bearer_token(None), None);
    let request = LoginRequest { username: "admin".to_string(), password: "pw".to_string() };
    assert!(credentials_valid(&request, "admin", "pw"));
    assert!(!credentials_valid(&request, "admin", "other"));
    assert!(header_algorithm_ok(Some("HS256")));
    assert!(!header_algorithm_ok(Some("none")));
    assert_eq!(next_token_id(TokenType::Refresh, 42), "refresh-42");
    assert_eq!(TokenType::from_str("access"), Some(TokenType::Access));
    assert_eq!(TokenType::from_str("other"), None);
}

#[test]
fn auth_errors_describe_themselves() {
    assert_eq!(AuthError::ExpiredToken.describe(), "expired token");
    assert_eq!(
        AuthError::Json { message: "bad".to_string() }.describe(),
        "jwt json error: bad"
    );
}

fn checked(secret: &str, token: &str, expected: TokenType, now: i64) -> Result<JwtClaims, AuthError> {
    let (_, segment) = open_jwt(secret, token)?;
    let bytes = decode_claims_segment(&segment)?;
    let value: Value = serde_json::from_slice(&bytes).unwrap();
    let claims = JwtClaims {
        sub: value["sub"].as_str().unwrap().to_string(),
        iat: value["iat"].as_i64().unwrap(),
        exp: value["exp"].as_i64().unwrap(),
        token_type: value["token_type"].as_str().unwrap().to_string(),
        jti: value["jti"].as_str().unwrap().to_string(),
    };
    check_claims(claims, expected, now)
}

#[test]
fn tokens_are_accepted_only_for_their_own_kind() {
    let pair = issue_token_pair("jwt-secret", "operator", NOW_NANOS);
    let now = NOW_NANOS / 1_000_000_000;
    assert_eq!(checked("jwt-secret", &pair.access_token, TokenType::Access, now).unwrap().sub, "operator");
    assert_eq!(checked("jwt-secret", &pair.refresh_token, TokenType::Refresh, now).unwrap().sub, "operator");
    let misuse = checked("jwt-secret", &pair.access_token, TokenType::Refresh, now).unwrap_err();
    assert_eq!(misuse.code(), "invalid_token");
    let late = now + 9 * 3600;
    let expired = checked("jwt-secret", &pair.access_token, TokenType::Access, late).unwrap_err();
    assert_eq!(expired.code(), "expired_token");
    assert!(checked("jwt-secret", &pair.refresh_token, TokenType::Refresh, late).is_ok());
}

#[test]
fn garbage_bearer_tokens_are_invalid() {
    let error = open_jwt("jwt-secret", "not-a-jwt").unwrap_err();
    assert_eq!(error.code(), "invalid_token");
    assert_eq!(error.message(), "Authentication token is invalid.");
}

#[test]
fn refreshing_later_rotates_both_tokens() {
    let first = issue_token_pair("jwt-secret", "operator", NOW_NANOS);
    let second = issue_token_pair("jwt-secret", "operator", NOW_NANOS + 1);
    assert_ne!(first.access_token, second.access_token);
    assert_ne!(first.refresh_token, second.refresh_token);
}
