use axum::http::{header::AUTHORIZATION, HeaderMap, HeaderValue};
use disaster_alert::api::Status;
use disaster_alert::auth::{
    constant_time_eq, optional_bearer, parse_bearer, require_bearer, require_bff_service_token,
    AUTH_FAILED_MESSAGE, BFF_AUTH_FAILED_MESSAGE,
};
use disaster_alert::device_key::validate_device_key;

fn bearer(value: &str) -> HeaderMap {
    let mut headers = HeaderMap::new();
    let header = format!("Bearer {value}");
    if let Ok(value) = HeaderValue::from_str(&header) {
        headers.insert(AUTHORIZATION, value);
    }
    headers
}

fn refused() -> Option<(Status, String)> {
    Some((Status::Unauthorized, BFF_AUTH_FAILED_MESSAGE.to_string()))
}

#[test]
fn missing_header_is_unauthorized() {
    let error = require_bff_service_token(&HeaderMap::new(), "expected-token").err();
    assert_eq!(error, refused());
}

#[test]
fn bark_token_bearer_is_rejected() {
    let error = require_bff_service_token(&bearer("abc123"), "expected-token").err();
    assert_eq!(error, refused());
}

#[test]
fn matching_service_token_is_accepted() {
    assert_eq!(
        require_bff_service_token(&bearer("expected-token"), "expected-token").ok(),
        Some(())
    );
}

#[test]
fn scheme_is_case_insensitive_and_value_is_trimmed() {
    let mut headers = HeaderMap::new();
    headers.insert(AUTHORIZATION, HeaderValue::from_static("bearer  expected-token  "));
    assert!(require_bff_service_token(&headers, "expected-token").is_ok());
}

#[test]
fn length_mismatch_is_rejected_without_accepting_prefix() {
    let error = require_bff_service_token(&bearer("expected-token-extra"), "expected-token").err();
    assert_eq!(error, refused());
}

#[test]
fn missing_authorization_is_a_bark_key_failure() {
    assert_eq!(optional_bearer(&HeaderMap::new()).ok(), Some(None));
}

#[test]
fn an_empty_token_is_never_accepted() {
    assert_eq!(require_bff_service_token(&bearer(""), "").err(), refused());
}

#[test]
fn authorization_that_is_no_text_is_refused() {
    let mut headers = HeaderMap::new();
    headers.insert(AUTHORIZATION, HeaderValue::from_bytes(b"Bearer \xff").unwrap());
    assert_eq!(require_bff_service_token(&headers, "x").err(), refused());
    assert_eq!(
        optional_bearer(&headers).err(),
        Some((Status::Unauthorized, AUTH_FAILED_MESSAGE.to_string()))
    );
}

#[test]
fn only_the_first_authorization_counts() {
    let mut headers = bearer("first1");
    headers.append(AUTHORIZATION, HeaderValue::from_static("Bearer second2"));
    assert_eq!(require_bearer(&headers).ok(), Some("first1".to_string()));
}

#[test]
fn bearers_are_read_from_their_text() {
    assert_eq!(parse_bearer("Bearer a"), Some("a"));
    assert_eq!(parse_bearer("  bEaReR \t a b "), Some("a b"));
    assert_eq!(parse_bearer("Bearer"), None);
    assert_eq!(parse_bearer("Basic a"), None);
}

#[test]
fn bytes_are_compared_as_a_whole() {
    assert!(constant_time_eq(b"abc", b"abc"));
    assert!(!constant_time_eq(b"abc", b"abd"));
    assert!(!constant_time_eq(b"abc", b"ab"));
    assert!(constant_time_eq(b"", b""));
}

#[test]
fn device_keys_are_trimmed_and_checked() {
    assert_eq!(validate_device_key("  abc123 ").ok(), Some("abc123".to_string()));
    assert_eq!(validate_device_key(&"a".repeat(64)).ok(), Some("a".repeat(64)));
    assert_eq!(
        validate_device_key(" ").err(),
        Some((Status::BadRequest, "Bark Key 不能为空".to_string()))
    );
    assert_eq!(
        validate_device_key(&"a".repeat(65)).err(),
        Some((Status::BadRequest, "Bark Key 过长（最大64字符）".to_string()))
    );
    assert_eq!(
        validate_device_key("测".repeat(22).as_str()).err(),
        Some((Status::BadRequest, "Bark Key 过长（最大64字符）".to_string()))
    );
    assert_eq!(
        validate_device_key("a-b").err(),
        Some((Status::BadRequest, "Bark Key 只能包含字母、数字".to_string()))
    );
}
