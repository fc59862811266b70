use base64::Engine;
use hmac::Mac;
use book_writer_chat::links::{
    check_token_expiry, issue_token_at, open_token, reader_url, sign, ReaderTokenClaims,
    ReaderTokenError, READER_TOKEN_TTL_HOURS,
};

fn claims_of(bytes: &[u8]) -> ReaderTokenClaims {
    let value: serde_json::Value = serde_json::from_slice(bytes).unwrap();
    ReaderTokenClaims {
        book_id: value["book_id"].as_str().unwrap().to_string(),
        exp: value["exp"].as_i64().unwrap(),
    }
}

fn now_seconds() -> i64 {
    chrono::Utc::now().timestamp()
}

#[test]
fn reader_url_uses_frontend_base_url() {
    assert_eq!(
        reader_url("https://books.example.com/", "signed-token"),
        "https://books.example.com/reader/signed-token"
    );
}

#[test]
fn reader_url_drops_every_trailing_slash() {
    assert_eq!(reader_url("https://x.test///", "t"), "https://x.test/reader/t");
    assert_eq!(reader_url("", "t"), "/reader/t");
}

#[test]
fn token_roundtrip() {
    let now = now_seconds();
    let token = issue_token_at("secret", "book-1", 1, now);
    let bytes = open_token("secret", &token).unwrap();
    let claims = check_token_expiry(claims_of(&bytes), now_seconds()).unwrap();
    assert_eq!(claims.book_id, "book-1");
}

#[test]
fn freshly_issued_one_hour_token_expires_exactly_one_hour_later() {
    let issued_at = now_seconds();
    let token = issue_token_at("secret", "book-1", READER_TOKEN_TTL_HOURS, issued_at);
    let bytes = open_token("secret", &token).unwrap();
    let claims = check_token_expiry(claims_of(&bytes), now_seconds()).unwrap();
    assert_eq!(claims.exp - issued_at, 60 * 60);
}

#[test]
fn token_claims_are_the_json_serde_writes() {
    let token = issue_token_at("secret", "book \"quoted\"", 2, 1000);
    let bytes = open_token("secret", &token).unwrap();
    assert_eq!(
        String::from_utf8(bytes).unwrap(),
        "{\"book_id\":\"book \\\"quoted\\\"\",\"exp\":8200}"
    );
}

#[test]
fn tokens_signed_with_another_secret_are_refused() {
    let token = issue_token_at("secret", "book-1", 1, 1000);
    assert_eq!(open_token("other", &token).unwrap_err(), ReaderTokenError::InvalidSignature);
}

#[test]
fn tokens_without_a_dot_are_refused() {
    assert_eq!(open_token("secret", "nodot").unwrap_err(), ReaderTokenError::InvalidFormat);
}

#[test]
fn tokens_with_undecodable_payload_are_refused() {
    let payload = "!!!";
    let token = format!("{payload}.{}", sign("secret", payload));
    assert_eq!(open_token("secret", &token).unwrap_err(), ReaderTokenError::InvalidEncoding);
}

#[test]
fn expired_claims_are_refused() {
    let claims = ReaderTokenClaims { book_id: "b".to_string(), exp: 10 };
    assert_eq!(check_token_expiry(claims.clone(), 11).unwrap_err(), ReaderTokenError::Expired);
    assert_eq!(check_token_expiry(claims, 10).unwrap().exp, 10);
    assert_eq!(ReaderTokenError::Expired.message(), "reader token expired");
}

#[test]
fn signature_is_the_hmac_of_the_payload() {
    let mut mac = <hmac::Hmac<sha2::Sha256> as hmac::Mac>::new_from_slice(b"secret").unwrap();
    mac.update(b"payload");
    let expected = base64::engine::general_purpose::URL_SAFE_NO_PAD
        .encode(mac.finalize().into_bytes());
    assert_eq!(sign("secret", "payload"), expected);
    assert_ne!(sign("secret", "payload"), "payload");
}
