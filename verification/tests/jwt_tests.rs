use base64::Engine;
use guestbook::auth::{admin_login, check_auth, AuthError};
use guestbook::jwt::{create_jwt, verify_jwt, TOKEN_LIFETIME_SECS};
use hmac::Mac;

const NOW: u64 = 1_700_000_000;

fn b64(bytes: &[u8]) -> String {
    base64::engine::general_purpose::URL_SAFE_NO_PAD.encode(bytes)
}

fn unb64(text: &str) -> Vec<u8> {
    base64::engine::general_purpose::URL_SAFE_NO_PAD.decode(text).unwrap()
}

fn tag(secret: &str, input: &str) -> Vec<u8> {
    let mut mac = hmac::Hmac::<sha2::Sha256>::new_from_slice(secret.as_bytes()).unwrap();
    mac.update(input.as_bytes());
    mac.finalize().into_bytes().to_vec()
}

#[test]
fn token_has_three_segments_with_fixed_header() {
    let token = create_jwt("admin", "s3cret", NOW);
    let parts: Vec<&str> = token.split('.').collect();
    assert_eq!(parts.len(), 3);
    assert_eq!(parts[0], "eyJhbGciOiJIUzI1NiIsInR5cCI6IkpXVCJ9");
    assert_eq!(unb64(parts[0]), br#"{"alg":"HS256","typ":"JWT"}"#.to_vec());
}

#[test]
fn token_payload_holds_sorted_claims() {
    let token = create_jwt("admin", "s3cret", NOW);
    let payload = token.split('.').nth(1).unwrap();
    assert_eq!(
        String::from_utf8(unb64(payload)).unwrap(),
        r#"{"exp":1700086400,"iat":1700000000,"sub":"admin"}"#
    );
}

#[test]
fn token_signature_is_hmac_of_header_and_payload() {
    let token = create_jwt("admin", "s3cret", NOW);
    let cut = token.rfind('.').unwrap();
    let input = &token[..cut];
    assert_eq!(&token[cut + 1..], b64(&tag("s3cret", input)));
}

#[test]
fn user_name_is_escaped_in_payload() {
    let token = create_jwt("a\"b\\c\n", "k", 0);
    let payload = token.split('.').nth(1).unwrap();
    assert_eq!(
        String::from_utf8(unb64(payload)).unwrap(),
        "{\"exp\":86400,\"iat\":0,\"sub\":\"a\\\"b\\\\c\\n\"}"
    );
    assert_eq!(verify_jwt(&token, "k", 10), Some("a\"b\\c\n".to_string()));
}

#[test]
fn token_round_trip() {
    let token = create_jwt("管理者", "s3cret", NOW);
    assert_eq!(verify_jwt(&token, "s3cret", NOW), Some("管理者".to_string()));
}

#[test]
fn token_valid_until_expiry_inclusive() {
    let token = create_jwt("admin", "s3cret", NOW);
    assert_eq!(verify_jwt(&token, "s3cret", NOW + TOKEN_LIFETIME_SECS), Some("admin".to_string()));
    assert_eq!(verify_jwt(&token, "s3cret", NOW + TOKEN_LIFETIME_SECS + 1), None);
}

#[test]
fn token_checked_before_issue_time_is_accepted() {
    let token = create_jwt("admin", "s3cret", NOW);
    assert_eq!(verify_jwt(&token, "s3cret", 0), Some("admin".to_string()));
}

#[test]
fn token_with_other_secret_is_refused() {
    let token = create_jwt("admin", "s3cret", NOW);
    assert_eq!(verify_jwt(&token, "other", NOW), None);
}

#[test]
fn tampered_payload_is_refused() {
    let token = create_jwt("admin", "s3cret", NOW);
    let parts: Vec<&str> = token.split('.').collect();
    let forged = b64(br#"{"exp":1700086400,"iat":1700000000,"sub":"root"}"#);
    let tampered = format!("{}.{}.{}", parts[0], forged, parts[2]);
    assert_eq!(verify_jwt(&tampered, "s3cret", NOW), None);
}

#[test]
fn malformed_tokens_are_refused() {
    assert_eq!(verify_jwt("", "k", NOW), None);
    assert_eq!(verify_jwt("abc", "k", NOW), None);
    assert_eq!(verify_jwt("abc.def", "k", NOW), None);
    assert_eq!(verify_jwt("abc.def.!!!", "k", NOW), None);
}

#[test]
fn header_segment_is_not_checked() {
    let payload = b64(br#"{"exp":100,"sub":"x"}"#);
    let input = format!("anything.{}", payload);
    let token = format!("{}.{}", input, b64(&tag("k", &input)));
    assert_eq!(verify_jwt(&token, "k", 100), Some("x".to_string()));
    assert_eq!(verify_jwt(&token, "k", 101), None);
}

#[test]
fn payload_without_exp_or_sub_is_refused() {
    for body in [r#"{"sub":"x"}"#, r#"{"exp":"100","sub":"x"}"#, r#"{"exp":100}"#, r#"{"exp":100,"sub":5}"#, "not json"] {
        let payload = b64(body.as_bytes());
        let input = format!("h.{}", payload);
        let token = format!("{}.{}", input, b64(&tag("k", &input)));
        assert_eq!(verify_jwt(&token, "k", 1), None, "{}", body);
    }
}

#[test]
fn signature_with_extra_dot_is_refused() {
    let token = create_jwt("admin", "k", NOW);
    let extended = format!("{}.x", token);
    assert_eq!(verify_jwt(&extended, "k", NOW), None);
}

#[test]
fn check_auth_without_bearer_needs_no_secret() {
    assert_eq!(check_auth(None, None, NOW), Ok(None));
    assert_eq!(check_auth(Some("Basic abc"), None, NOW), Ok(None));
    assert_eq!(check_auth(Some("bearer abc"), None, NOW), Ok(None));
    assert_eq!(check_auth(Some("Bearer abc"), None, NOW), Err(AuthError::MissingJwtSecret));
}

#[test]
fn check_auth_accepts_login_token() {
    let token = admin_login("admin", "pw", None, Some("pw"), Some("k"), NOW).unwrap();
    let header = format!("Bearer {}", token);
    assert_eq!(check_auth(Some(&header), Some("k"), NOW + 5), Ok(Some("admin".to_string())));
    assert_eq!(check_auth(Some(&header), Some("k"), NOW + TOKEN_LIFETIME_SECS + 1), Ok(None));
    assert_eq!(check_auth(Some(&header), Some("other"), NOW), Ok(None));
}
