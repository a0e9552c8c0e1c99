use server::ai::{
    check_guides, AssistantGuideRaw,
    check_analysis, classify_ai_error, extract_json, AnalysisPrompt, MemberAnswerData, RefineRequest, RefineResponse,
    ToneStyle,
};
use server::auth::{
    is_korean, validate_nickname, EmailLoginRequest, LogoutRequest, SignupRequest, SocialLoginRequest, SocialType,
    TokenRefreshRequest,
};
use server::error::AppError;
use server::health::{CheckResult, HealthState};
use server::og::{OgMetadataQuery, OgService};
use server::retro_dto::{AnalysisResponse, EmotionRankItem, JoinRetroRoomRequest, MissionItem, PersonalMissionItem};

// ---------- AI requests ----------

#[test]
fn should_validate_refine_request_with_valid_data() {
    let request = RefineRequest {
        content: "오늘 힘들었음".to_string(),
        tone_style: ToneStyle::Kind,
        secret_key: "test-secret".to_string(),
    };
    assert!(request.validate().is_ok());
}

#[test]
fn should_reject_empty_content() {
    let request = RefineRequest {
        content: "".to_string(),
        tone_style: ToneStyle::Kind,
        secret_key: "test-secret".to_string(),
    };
    assert!(request.validate().is_err());
}

#[test]
fn should_reject_empty_secret_key() {
    let request = RefineRequest {
        content: "오늘 힘들었음".to_string(),
        tone_style: ToneStyle::Kind,
        secret_key: "".to_string(),
    };
    assert!(request.validate().is_err());
}

#[test]
fn should_reject_content_exceeding_max_length() {
    let request = RefineRequest {
        content: "가".repeat(5001),
        tone_style: ToneStyle::Kind,
        secret_key: "test-secret".to_string(),
    };
    assert!(request.validate().is_err());
}

#[test]
fn refine_request_accepts_exactly_5000_chars() {
    let request = RefineRequest {
        content: "가".repeat(5000),
        tone_style: ToneStyle::Polite,
        secret_key: "k".to_string(),
    };
    assert!(request.validate().is_ok());
}

#[test]
fn should_serialize_tone_style_as_uppercase() {
    assert_eq!(ToneStyle::Kind.to_string(), "KIND");
    assert_eq!(ToneStyle::Polite.to_string(), "POLITE");
}

#[test]
fn should_deserialize_kind_tone_style() {
    assert_eq!(ToneStyle::parse("KIND"), Some(ToneStyle::Kind));
}

#[test]
fn should_deserialize_polite_tone_style() {
    assert_eq!(ToneStyle::parse("POLITE"), Some(ToneStyle::Polite));
}

#[test]
fn should_reject_invalid_tone_style() {
    assert_eq!(ToneStyle::parse("CASUAL"), None);
}

#[test]
fn refine_response_keeps_its_parts() {
    let r = RefineResponse::new("원본".to_string(), "정제".to_string(), ToneStyle::Polite);
    assert_eq!(r.original_content, "원본");
    assert_eq!(r.refined_content, "정제");
    assert_eq!(r.tone_style, ToneStyle::Polite);
}

#[test]
fn should_generate_analysis_system_prompt() {
    let prompt = AnalysisPrompt::system_prompt();
    assert!(prompt.contains("종합 분석"));
    assert!(prompt.contains("teamInsight"));
    assert!(prompt.contains("emotionRank"));
    assert!(prompt.contains("personalMissions"));
    assert!(prompt.contains("정확히 3개"));
}

#[test]
fn should_generate_analysis_user_prompt_with_members() {
    let members = vec![
        MemberAnswerData {
            user_id: 1,
            user_name: "소은".to_string(),
            answers: vec![
                ("유지하고 싶은 점은?".to_string(), "협업이 좋았어요".to_string()),
                ("문제점은?".to_string(), "시간이 부족했음".to_string()),
            ],
        },
        MemberAnswerData {
            user_id: 2,
            user_name: "민수".to_string(),
            answers: vec![
                ("유지하고 싶은 점은?".to_string(), "코드 리뷰가 도움이 됨".to_string()),
                ("문제점은?".to_string(), "일정 관리 필요".to_string()),
            ],
        },
    ];
    let prompt = AnalysisPrompt::user_prompt(&members);
    assert!(prompt.contains("userId: 1"));
    assert!(prompt.contains("소은"));
    assert!(prompt.contains("협업이 좋았어요"));
    assert!(prompt.contains("userId: 2"));
    assert!(prompt.contains("민수"));
    assert!(prompt.contains("코드 리뷰가 도움이 됨"));
}

#[test]
fn should_handle_empty_answers_in_analysis_prompt() {
    let members = vec![MemberAnswerData {
        user_id: 1,
        user_name: "테스트".to_string(),
        answers: vec![("질문1".to_string(), "".to_string())],
    }];
    assert!(AnalysisPrompt::user_prompt(&members).contains("(답변 없음)"));
}

#[test]
fn user_prompt_exact_text() {
    let members = vec![MemberAnswerData {
        user_id: 7,
        user_name: "A".to_string(),
        answers: vec![("Q?".to_string(), "yes".to_string()), ("R?".to_string(), "  ".to_string())],
    }];
    assert_eq!(
        AnalysisPrompt::user_prompt(&members),
        "다음 팀원들의 회고 답변을 종합 분석해주세요.\n\n## 참여자 (userId: 7, 이름: A)\n- Q1: Q?\n  A: yes\n- Q2: R?\n  A: (답변 없음)\n\n"
    );
}

#[test]
fn should_extract_json_from_plain_response() {
    assert_eq!(extract_json(r#"{"teamInsight": "test"}"#), r#"{"teamInsight": "test"}"#);
}

#[test]
fn should_extract_json_from_code_block() {
    assert_eq!(extract_json("```json\n{\"teamInsight\": \"test\"}\n```"), "{\"teamInsight\": \"test\"}");
}

#[test]
fn should_extract_json_with_surrounding_text() {
    assert_eq!(
        extract_json("Here is the result:\n{\"teamInsight\": \"test\"}\nDone."),
        "{\"teamInsight\": \"test\"}"
    );
}

#[test]
fn extract_json_without_braces_gives_the_trimmed_text() {
    assert_eq!(extract_json("  no json here  "), "no json here");
    assert_eq!(extract_json("}{"), "");
}

fn mission(title: &str) -> MissionItem {
    MissionItem { mission_title: title.to_string(), mission_desc: "설명".to_string() }
}

fn emotion(rank: i32) -> EmotionRankItem {
    EmotionRankItem { rank, label: "피로".to_string(), description: "설명".to_string(), count: 1 }
}

#[test]
fn analysis_shape_is_checked() {
    let good = AnalysisResponse {
        team_insight: "팀".to_string(),
        emotion_rank: vec![emotion(1), emotion(2), emotion(3)],
        personal_missions: vec![PersonalMissionItem {
            user_id: 1,
            user_name: "소은".to_string(),
            missions: vec![mission("1"), mission("2"), mission("3")],
        }],
    };
    assert!(check_analysis(&good).is_ok());
    let short = AnalysisResponse {
        team_insight: "팀".to_string(),
        emotion_rank: vec![emotion(1)],
        personal_missions: vec![],
    };
    assert_eq!(
        check_analysis(&short),
        Err(AppError::AiAnalysisFailed("감정 랭킹이 3개여야 하지만 1개입니다".to_string()))
    );
    let few_missions = AnalysisResponse {
        team_insight: "팀".to_string(),
        emotion_rank: vec![emotion(1), emotion(2), emotion(3)],
        personal_missions: vec![PersonalMissionItem {
            user_id: 42,
            user_name: "민수".to_string(),
            missions: vec![mission("1")],
        }],
    };
    assert_eq!(
        check_analysis(&few_missions),
        Err(AppError::AiAnalysisFailed("사용자 42의 미션이 3개여야 하지만 1개입니다".to_string()))
    );
}

#[test]
fn model_failures_are_classified() {
    assert_eq!(
        classify_ai_error("HTTP 401 Unauthorized"),
        AppError::AiConnectionFailed("API 키가 유효하지 않습니다".to_string())
    );
    assert_eq!(classify_ai_error("429 too many"), AppError::AiServiceUnavailable("요청 한도 초과".to_string()));
    assert_eq!(classify_ai_error("503 busy"), AppError::AiServiceUnavailable("503 busy".to_string()));
    assert_eq!(classify_ai_error("boom"), AppError::AiGeneralError("boom".to_string()));
}

// ---------- health ----------

#[test]
fn check_result_success_should_have_correct_fields() {
    let result = CheckResult::success(150);
    assert!(result.status);
    assert_eq!(result.latency_ms, Some(150));
    assert!(result.error.is_none());
}

#[test]
fn check_result_failure_should_have_correct_fields() {
    let result = CheckResult::failure(200, "connection error".to_string());
    assert!(!result.status);
    assert_eq!(result.latency_ms, Some(200));
    assert_eq!(result.error, Some("connection error".to_string()));
}

#[test]
fn check_result_timeout_should_have_correct_fields() {
    let result = CheckResult::timeout();
    assert!(!result.status);
    assert_eq!(result.latency_ms, Some(5000));
    assert_eq!(result.error, Some("Timeout".to_string()));
}

#[test]
fn health_state_should_serialize_lowercase() {
    assert_eq!(HealthState::Healthy.to_string(), "healthy");
    assert_eq!(HealthState::Degraded.to_string(), "degraded");
    assert_eq!(HealthState::Unhealthy.to_string(), "unhealthy");
}

// ---------- link previews ----------

#[test]
fn should_return_true_for_valid_http_url() {
    assert!(OgService::is_valid_url("http://example.com"));
}

#[test]
fn should_return_true_for_valid_https_url() {
    assert!(OgService::is_valid_url("https://example.com"));
}

#[test]
fn should_return_false_for_invalid_url() {
    assert!(!OgService::is_valid_url("not-a-url"));
}

#[test]
fn should_return_false_for_ftp_url() {
    assert!(!OgService::is_valid_url("ftp://example.com"));
}

#[test]
fn should_parse_og_tags_from_html() {
    let html = r#"
        <html>
        <head>
            <meta property="og:title" content="Test Title" />
            <meta property="og:description" content="Test Description" />
            <meta property="og:image" content="https://example.com/image.png" />
        </head>
        <body></body>
        </html>
    "#;
    let result = OgService::parse_og_tags(html);
    assert_eq!(result.title, Some("Test Title".to_string()));
    assert_eq!(result.description, Some("Test Description".to_string()));
    assert_eq!(result.image, Some("https://example.com/image.png".to_string()));
}

#[test]
fn should_return_none_for_missing_og_tags() {
    let html = r#"
        <html>
        <head><title>No OG Tags</title></head>
        <body></body>
        </html>
    "#;
    let result = OgService::parse_og_tags(html);
    assert!(result.title.is_none());
    assert!(result.description.is_none());
    assert!(result.image.is_none());
}

#[test]
fn should_parse_partial_og_tags() {
    let html = r#"
        <html>
        <head>
            <meta property="og:title" content="Only Title" />
        </head>
        <body></body>
        </html>
    "#;
    let result = OgService::parse_og_tags(html);
    assert_eq!(result.title, Some("Only Title".to_string()));
    assert!(result.description.is_none());
    assert!(result.image.is_none());
}

#[test]
fn should_handle_empty_content_attribute() {
    let html = r#"
        <html>
        <head>
            <meta property="og:title" content="" />
        </head>
        <body></body>
        </html>
    "#;
    assert_eq!(OgService::parse_og_tags(html).title, Some("".to_string()));
}

#[test]
fn should_return_fallback_response_with_url_only() {
    let result = OgService::fallback_response("https://example.com");
    assert_eq!(result.url, "https://example.com");
    assert!(result.title.is_none());
    assert!(result.description.is_none());
    assert!(result.image.is_none());
}

#[test]
fn should_return_error_for_invalid_url_format() {
    let result = OgService::metadata_from_fetch("not-a-valid-url", None);
    assert!(matches!(result, Err(AppError::BadRequest(_))));
}

#[test]
fn fetched_page_gives_its_values_and_failed_fetch_the_fallback() {
    let html = r#"<html><head><meta property="og:image" content="i.png"></head></html>"#;
    let page = OgService::metadata_from_fetch("https://a.com", Some(html)).unwrap();
    assert_eq!(page.url, "https://a.com");
    assert_eq!(page.image, Some("i.png".to_string()));
    assert!(page.title.is_none());
    let fallback = OgService::metadata_from_fetch("https://a.com", None).unwrap();
    assert!(fallback.image.is_none());
}

#[test]
fn preview_query_length_is_checked() {
    assert!(OgMetadataQuery { url: String::new() }.validate().is_err());
    assert!(OgMetadataQuery { url: "a".repeat(2048) }.validate().is_ok());
    assert!(OgMetadataQuery { url: "a".repeat(2049) }.validate().is_err());
}

// ---------- sign-up and login ----------

#[test]
fn nicknames_allow_letters_digits_and_hangul() {
    assert!(validate_nickname("소은123abc"));
    assert!(validate_nickname("ㄱㅏ"));
    assert!(!validate_nickname("nick name"));
    assert!(!validate_nickname("nick!"));
    assert!(is_korean('가'));
    assert!(!is_korean('a'));
}

#[test]
fn signup_request_is_checked() {
    let ok = SignupRequest { email: "user@example.com".to_string(), nickname: "소은".to_string() };
    assert!(ok.validate().is_ok());
    let bad_email = SignupRequest { email: "not-an-email".to_string(), nickname: "소은".to_string() };
    assert!(bad_email.validate().unwrap_err().field_errors().contains("email"));
    let long_nick = SignupRequest { email: "user@example.com".to_string(), nickname: "가".repeat(21) };
    assert!(long_nick.validate().unwrap_err().field_errors().contains("nickname"));
}

#[test]
fn token_requests_need_a_token() {
    assert!(TokenRefreshRequest { refresh_token: String::new() }.validate().is_err());
    assert!(TokenRefreshRequest { refresh_token: "t".to_string() }.validate().is_ok());
    assert!(LogoutRequest { refresh_token: String::new() }.validate().is_err());
    assert!(SocialLoginRequest { provider: SocialType::Kakao, access_token: String::new() }.validate().is_err());
    assert!(SocialLoginRequest { provider: SocialType::Google, access_token: "x".to_string() }.validate().is_ok());
    assert!(EmailLoginRequest { email: "a@b.co".to_string() }.validate().is_ok());
    assert!(EmailLoginRequest { email: "ab.co".to_string() }.validate().is_err());
}

#[test]
fn invite_link_must_be_a_url() {
    assert!(JoinRetroRoomRequest { invite_url: "https://retro.example.com/room/1".to_string() }.validate().is_ok());
    assert!(JoinRetroRoomRequest { invite_url: "not a url".to_string() }.validate().is_err());
}

#[test]
fn assistant_guides_are_accepted_from_one_to_three() {
    let ok = check_guides(AssistantGuideRaw { guides: vec!["a".to_string(), "b".to_string()] });
    assert_eq!(ok.unwrap(), vec!["a".to_string(), "b".to_string()]);
    let none = check_guides(AssistantGuideRaw::<String> { guides: vec![] });
    assert!(matches!(none, Err(AppError::AiAnalysisFailed(m)) if m == "가이드는 1~3개여야 하지만 0개입니다"));
    let four = check_guides(AssistantGuideRaw { guides: vec![1, 2, 3, 4] });
    assert!(matches!(four, Err(AppError::AiAnalysisFailed(m)) if m == "가이드는 1~3개여야 하지만 4개입니다"));
}
