use server::auth::{social_login_reply, AuthService, MemberService, SocialLoginResponse, SocialType};
use server::error::AppError;

#[test]
fn provider_addresses_are_fixed() {
    assert_eq!(AuthService::user_info_url(SocialType::Kakao), "https://kapi.kakao.com/v2/user/me");
    assert_eq!(AuthService::user_info_url(SocialType::Google), "https://www.googleapis.com/oauth2/v2/userinfo");
    assert_eq!(AuthService::rejected_login(SocialType::Kakao), AppError::Unauthorized("Kakao 로그인 실패".to_string()));
}

#[test]
fn social_email_reads_each_provider_shape() {
    let kakao = r#"{"id": 1, "kakao_account": {"email": "a@kakao.com"}}"#;
    assert_eq!(AuthService::social_email(SocialType::Kakao, kakao), Ok("a@kakao.com".to_string()));
    let google = r#"{"email": "b@gmail.com", "verified_email": true}"#;
    assert_eq!(AuthService::social_email(SocialType::Google, google), Ok("b@gmail.com".to_string()));
    assert_eq!(
        AuthService::social_email(SocialType::Google, kakao),
        Err(AppError::ValidationError("Google 이메일 정보 없음".to_string()))
    );
    assert_eq!(
        AuthService::social_email(SocialType::Kakao, r#"{"kakao_account": {"email": 3}}"#),
        Err(AppError::ValidationError("Kakao 이메일 정보 없음".to_string()))
    );
    assert_eq!(
        AuthService::social_email(SocialType::Kakao, "<html>"),
        Err(AppError::JsonParseFailed("error decoding response body".to_string()))
    );
}

#[test]
fn token_checks_refuse_missing_and_expired_tokens() {
    assert!(AuthService::check_login_member(true).is_ok());
    assert_eq!(
        AuthService::check_login_member(false),
        Err(AppError::Unauthorized("존재하지 않는 사용자입니다.".to_string()))
    );
    assert!(AuthService::check_stored_refresh(Some(100), 100).is_ok());
    assert_eq!(
        AuthService::check_stored_refresh(Some(99), 100),
        Err(AppError::Unauthorized("리프레시 토큰이 만료되었습니다.".to_string()))
    );
    assert_eq!(
        AuthService::check_stored_refresh(None, 100),
        Err(AppError::Unauthorized("유효하지 않은 리프레시 토큰입니다.".to_string()))
    );
    assert!(AuthService::check_logout(1).is_ok());
    assert!(AuthService::check_logout(0).is_err());
    assert_eq!(AuthService::member_id_from_subject("42"), Ok(42));
    assert_eq!(
        AuthService::member_id_from_subject("me"),
        Err(AppError::Unauthorized("잘못된 인증 정보입니다.".to_string()))
    );
}

#[test]
fn social_login_reply_keeps_tokens_out_of_the_body() {
    let fresh = social_login_reply(SocialLoginResponse {
        is_new_member: true,
        access_token: None,
        refresh_token: None,
        email: Some("n@x.com".to_string()),
        signup_token: Some("sign".to_string()),
    });
    assert_eq!(fresh.code, "AUTH2001");
    assert_eq!(fresh.body.email, Some("n@x.com".to_string()));
    assert_eq!(fresh.signup_cookie, Some("sign".to_string()));
    assert!(fresh.body.signup_token.is_none());
    let known = social_login_reply(SocialLoginResponse {
        is_new_member: false,
        access_token: Some("acc".to_string()),
        refresh_token: Some("ref".to_string()),
        email: Some("k@x.com".to_string()),
        signup_token: None,
    });
    assert_eq!(known.code, "COMMON200");
    assert_eq!(known.message, "로그인에 성공하였습니다.");
    assert_eq!(known.token_cookies, Some(("acc".to_string(), "ref".to_string())));
    assert!(known.body.access_token.is_none() && known.body.email.is_none());
}

#[test]
fn members_must_exist_to_withdraw() {
    assert!(MemberService::require_member(true).is_ok());
    assert_eq!(
        MemberService::require_member(false),
        Err(AppError::MemberNotFound("존재하지 않는 사용자입니다.".to_string()))
    );
    let reply = MemberService::withdraw_reply();
    assert!(reply.is_success);
    assert_eq!(reply.message, "회원 탈퇴가 성공적으로 완료되었습니다.");
}
