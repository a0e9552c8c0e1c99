use server::error::AppError;
use server::token::{cookie_value, refresh_token, request_id, signup_token};

#[test]
fn cookie_value_finds_the_named_cookie() {
    assert_eq!(cookie_value("a=1; refresh_token=abc; b=2", "refresh_token"), Some("abc".to_string()));
    assert_eq!(cookie_value("refresh_token=; refresh_token=second", "refresh_token"), Some("second".to_string()));
    assert_eq!(cookie_value("xrefresh_token=abc", "refresh_token"), None);
    assert_eq!(cookie_value("", "refresh_token"), None);
    assert_eq!(cookie_value("  signup_token=tok  ", "signup_token"), Some("tok".to_string()));
}

#[test]
fn signup_token_prefers_the_bearer_header() {
    let r = signup_token(Some("Bearer head"), Some("signup_token=cookie"), "signup_token");
    assert_eq!(r, Ok("head".to_string()));
    let r = signup_token(Some("Basic x"), Some("signup_token=cookie"), "signup_token");
    assert_eq!(r, Ok("cookie".to_string()));
    let r = signup_token(Some("Bearer "), None, "signup_token");
    assert_eq!(r, Err(AppError::Unauthorized("인증 정보가 유효하지 않습니다.".to_string())));
}

#[test]
fn refresh_token_prefers_the_body() {
    assert_eq!(refresh_token(Some("body"), Some("refresh_token=cookie"), "refresh_token"), Ok("body".to_string()));
    assert_eq!(refresh_token(Some(""), Some("refresh_token=cookie"), "refresh_token"), Ok("cookie".to_string()));
    assert_eq!(
        refresh_token(None, None, "refresh_token"),
        Err(AppError::InvalidToken("Refresh Token이 필요합니다.".to_string()))
    );
}

#[test]
fn request_id_keeps_the_given_header() {
    assert_eq!(request_id(Some("req-1")), "req-1");
    let fresh = request_id(None);
    assert_eq!(fresh.len(), 36);
    assert_ne!(fresh, request_id(None));
}

#[test]
fn missing_request_id_becomes_a_random_uuid() {
    let id = request_id(None);
    assert_eq!(id.len(), 36);
    assert_eq!(id.chars().nth(14), Some('4'));
    assert_eq!(request_id(Some("abc")), "abc");
}
