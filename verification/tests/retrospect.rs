use chrono::{Datelike, Timelike};
use server::calendar::{CalendarDate, ClockTime};
use server::error::AppError;
use server::retro_dto::{
    CreateCommentRequest, CreateRetrospectRequest, DraftItem, ResponseCategory, RetroRoomCreateRequest,
    RetroRoomOrderItem, RetrospectMethod, RetrospectStatus, StorageRangeFilter, SubmitAnswerItem,
    UpdateRetroRoomNameRequest, UpdateRetroRoomOrderRequest,
};
use server::retro_dto::{MissionItem, PersonalMissionItem};
use server::retrospect::DeletionStep;
use server::retrospect::{
    apply_answers, apply_drafts, check_submission_allowed, count_non_blank, invitation_url, member_items,
    new_invitation_url, nickname_from_email, personal_insight, personal_insight_for, question_items, retrospect_detail, search_item, team_list_item, today_kst_text, sort_by_user_id, RetrospectService,
};

// ---------- request validation ----------

fn create_valid_request() -> CreateRetrospectRequest {
    CreateRetrospectRequest {
        team_id: 1,
        project_name: "테스트 프로젝트".to_string(),
        retrospect_date: "2025-01-25".to_string(),
        retrospect_time: "14:00".to_string(),
        retrospect_method: RetrospectMethod::Kpt,
        reference_urls: vec![],
    }
}

fn fails_on(request: CreateRetrospectRequest, field: &str) -> bool {
    match request.validate() {
        Err(errors) => errors.field_errors().contains(field),
        Ok(()) => false,
    }
}

#[test]
fn should_fail_validation_when_project_name_is_empty() {
    assert!(fails_on(CreateRetrospectRequest { project_name: "".to_string(), ..create_valid_request() }, "project_name"));
}

#[test]
fn should_fail_validation_when_project_name_exceeds_20_chars() {
    assert!(fails_on(CreateRetrospectRequest { project_name: "가".repeat(21), ..create_valid_request() }, "project_name"));
}

#[test]
fn should_pass_validation_when_project_name_is_exactly_20_chars() {
    let request = CreateRetrospectRequest { project_name: "가".repeat(20), ..create_valid_request() };
    assert!(request.validate().is_ok());
}

#[test]
fn should_fail_validation_when_team_id_is_zero() {
    assert!(fails_on(CreateRetrospectRequest { team_id: 0, ..create_valid_request() }, "team_id"));
}

#[test]
fn should_fail_validation_when_team_id_is_negative() {
    assert!(fails_on(CreateRetrospectRequest { team_id: -1, ..create_valid_request() }, "team_id"));
}

#[test]
fn should_pass_validation_when_team_id_is_positive() {
    assert!(CreateRetrospectRequest { team_id: 1, ..create_valid_request() }.validate().is_ok());
}

#[test]
fn should_fail_validation_when_retrospect_date_is_too_short() {
    assert!(fails_on(
        CreateRetrospectRequest { retrospect_date: "2025-1-1".to_string(), ..create_valid_request() },
        "retrospect_date"
    ));
}

#[test]
fn should_fail_validation_when_retrospect_date_is_too_long() {
    assert!(fails_on(
        CreateRetrospectRequest { retrospect_date: "2025-01-251".to_string(), ..create_valid_request() },
        "retrospect_date"
    ));
}

#[test]
fn should_pass_validation_when_retrospect_date_has_correct_format() {
    let request = CreateRetrospectRequest { retrospect_date: "2025-01-25".to_string(), ..create_valid_request() };
    assert!(request.validate().is_ok());
}

#[test]
fn should_fail_validation_when_reference_urls_exceed_10() {
    let urls: Vec<String> = (0..11).map(|i| format!("https://example.com/{}", i)).collect();
    assert!(fails_on(CreateRetrospectRequest { reference_urls: urls, ..create_valid_request() }, "reference_urls"));
}

#[test]
fn should_pass_validation_when_reference_urls_are_exactly_10() {
    let urls: Vec<String> = (0..10).map(|i| format!("https://example.com/{}", i)).collect();
    assert!(CreateRetrospectRequest { reference_urls: urls, ..create_valid_request() }.validate().is_ok());
}

#[test]
fn should_pass_validation_when_reference_urls_are_empty() {
    assert!(CreateRetrospectRequest { reference_urls: vec![], ..create_valid_request() }.validate().is_ok());
}

#[test]
fn should_fail_validation_when_individual_url_exceeds_max_length() {
    let long_url = format!("https://example.com/{}", "a".repeat(2050));
    assert!(fails_on(
        CreateRetrospectRequest { reference_urls: vec![long_url], ..create_valid_request() },
        "reference_urls"
    ));
}

#[test]
fn should_pass_validation_when_url_is_within_max_length() {
    let valid_url = format!("https://example.com/{}", "a".repeat(2020));
    assert!(CreateRetrospectRequest { reference_urls: vec![valid_url], ..create_valid_request() }.validate().is_ok());
}

#[test]
fn should_fail_validation_when_retrospect_time_is_too_short() {
    assert!(fails_on(
        CreateRetrospectRequest { retrospect_time: "9:00".to_string(), ..create_valid_request() },
        "retrospect_time"
    ));
}

#[test]
fn should_fail_validation_when_retrospect_time_is_too_long() {
    assert!(fails_on(
        CreateRetrospectRequest { retrospect_time: "14:00:00".to_string(), ..create_valid_request() },
        "retrospect_time"
    ));
}

#[test]
fn should_pass_validation_when_retrospect_time_has_correct_format() {
    let request = CreateRetrospectRequest { retrospect_time: "14:30".to_string(), ..create_valid_request() };
    assert!(request.validate().is_ok());
}

#[test]
fn every_failing_field_is_named() {
    let request = CreateRetrospectRequest {
        team_id: 0,
        project_name: String::new(),
        ..create_valid_request()
    };
    let errors = request.validate().unwrap_err();
    assert!(errors.field_errors().contains("team_id"));
    assert!(errors.field_errors().contains("project_name"));
    assert!(!errors.field_errors().contains("retrospect_date"));
}

#[test]
fn url_length_is_counted_in_bytes() {
    let url = format!("https://e.com/{}", "가".repeat(700));
    assert!(url.chars().count() < 2048 && url.len() > 2048);
    assert!(fails_on(CreateRetrospectRequest { reference_urls: vec![url], ..create_valid_request() }, "reference_urls"));
}

#[test]
fn room_requests_are_checked() {
    assert!(RetroRoomCreateRequest { title: "팀".to_string(), description: None }.validate().is_ok());
    assert!(RetroRoomCreateRequest { title: String::new(), description: None }.validate().is_err());
    assert!(RetroRoomCreateRequest { title: "팀".to_string(), description: Some("a".repeat(51)) }
        .validate()
        .is_err());
    assert!(UpdateRetroRoomNameRequest { name: "가".repeat(21) }.validate().is_err());
    assert!(UpdateRetroRoomOrderRequest { retro_room_orders: vec![] }.validate().is_err());
    let ok = UpdateRetroRoomOrderRequest {
        retro_room_orders: vec![RetroRoomOrderItem { retro_room_id: 1, order_index: 1 }],
    };
    assert!(ok.validate().is_ok());
    let bad = UpdateRetroRoomOrderRequest {
        retro_room_orders: vec![RetroRoomOrderItem { retro_room_id: 1, order_index: 0 }],
    };
    assert!(bad.validate().is_err());
    assert!(CreateCommentRequest { content: String::new() }.validate().is_err());
    assert!(CreateCommentRequest { content: "좋아요".to_string() }.validate().is_ok());
}

// ---------- enums ----------

#[test]
fn should_default_to_all() {
    assert_eq!(StorageRangeFilter::default(), StorageRangeFilter::All);
}

#[test]
fn should_display_range_filter_correctly() {
    assert_eq!(StorageRangeFilter::All.to_string(), "ALL");
    assert_eq!(StorageRangeFilter::ThreeMonths.to_string(), "3_MONTHS");
    assert_eq!(StorageRangeFilter::SixMonths.to_string(), "6_MONTHS");
    assert_eq!(StorageRangeFilter::OneYear.to_string(), "1_YEAR");
}

#[test]
fn range_filter_days() {
    assert_eq!(StorageRangeFilter::All.days(), None);
    assert_eq!(StorageRangeFilter::ThreeMonths.days(), Some(90));
    assert_eq!(StorageRangeFilter::SixMonths.days(), Some(180));
    assert_eq!(StorageRangeFilter::OneYear.days(), Some(365));
    assert_eq!(StorageRangeFilter::parse("6_MONTHS"), Some(StorageRangeFilter::SixMonths));
    assert_eq!(StorageRangeFilter::parse("2_YEARS"), None);
}

#[test]
fn should_display_response_category_correctly() {
    assert_eq!(ResponseCategory::All.to_string(), "ALL");
    assert_eq!(ResponseCategory::Question1.to_string(), "QUESTION_1");
    assert_eq!(ResponseCategory::Question2.to_string(), "QUESTION_2");
    assert_eq!(ResponseCategory::Question3.to_string(), "QUESTION_3");
    assert_eq!(ResponseCategory::Question4.to_string(), "QUESTION_4");
    assert_eq!(ResponseCategory::Question5.to_string(), "QUESTION_5");
}

#[test]
fn should_parse_valid_category_from_str() {
    assert_eq!("ALL".parse::<ResponseCategory>().unwrap(), ResponseCategory::All);
    assert_eq!("QUESTION_1".parse::<ResponseCategory>().unwrap(), ResponseCategory::Question1);
    assert_eq!("QUESTION_2".parse::<ResponseCategory>().unwrap(), ResponseCategory::Question2);
    assert_eq!("QUESTION_3".parse::<ResponseCategory>().unwrap(), ResponseCategory::Question3);
    assert_eq!("QUESTION_4".parse::<ResponseCategory>().unwrap(), ResponseCategory::Question4);
    assert_eq!("QUESTION_5".parse::<ResponseCategory>().unwrap(), ResponseCategory::Question5);
}

#[test]
fn should_fail_parse_invalid_category_from_str() {
    assert!("INVALID".parse::<ResponseCategory>().is_err());
    assert!("QUESTION_6".parse::<ResponseCategory>().is_err());
    assert!("all".parse::<ResponseCategory>().is_err());
    assert!("".parse::<ResponseCategory>().is_err());
}

#[test]
fn invalid_category_message_names_the_input() {
    assert_eq!("BOGUS".parse::<ResponseCategory>().unwrap_err(), "유효하지 않은 카테고리: BOGUS");
    assert_eq!(ResponseCategory::Question3.question_index(), Some(2));
    assert_eq!(ResponseCategory::All.question_index(), None);
}

#[test]
fn method_wire_names_round_trip() {
    for m in [
        RetrospectMethod::Kpt,
        RetrospectMethod::FourL,
        RetrospectMethod::FiveF,
        RetrospectMethod::Pmi,
        RetrospectMethod::Free,
    ] {
        assert_eq!(RetrospectMethod::parse(&m.to_string()), Some(m));
    }
    assert_eq!(RetrospectMethod::FourL.to_string(), "FOUR_L");
}

// ---------- reference URLs ----------

#[test]
fn should_pass_valid_https_url() {
    assert!(RetrospectService::validate_reference_urls(&vec!["https://github.com/example".to_string()]).is_ok());
}

#[test]
fn should_pass_valid_http_url() {
    assert!(RetrospectService::validate_reference_urls(&vec!["http://example.com".to_string()]).is_ok());
}

#[test]
fn should_pass_multiple_valid_urls() {
    let urls = vec!["https://github.com/project".to_string(), "https://notion.so/page".to_string()];
    assert!(RetrospectService::validate_reference_urls(&urls).is_ok());
}

#[test]
fn should_pass_empty_urls() {
    let urls: Vec<String> = vec![];
    assert!(RetrospectService::validate_reference_urls(&urls).is_ok());
}

#[test]
fn should_fail_for_duplicate_urls() {
    let urls = vec!["https://github.com/example".to_string(), "https://github.com/example".to_string()];
    match RetrospectService::validate_reference_urls(&urls) {
        Err(AppError::RetroUrlInvalid(msg)) => assert!(msg.contains("중복")),
        _ => panic!("Expected RetroUrlInvalid error"),
    }
}

#[test]
fn should_fail_for_ftp_url() {
    let result = RetrospectService::validate_reference_urls(&vec!["ftp://example.com".to_string()]);
    assert!(matches!(result, Err(AppError::RetroUrlInvalid(_))));
}

#[test]
fn should_fail_for_url_without_scheme() {
    let result = RetrospectService::validate_reference_urls(&vec!["example.com".to_string()]);
    assert!(matches!(result, Err(AppError::RetroUrlInvalid(_))));
}

#[test]
fn should_fail_for_url_exceeding_max_length() {
    let long_url = format!("https://example.com/{}", "a".repeat(2050));
    match RetrospectService::validate_reference_urls(&vec![long_url]) {
        Err(AppError::RetroUrlInvalid(msg)) => assert!(msg.contains("2048")),
        _ => panic!("Expected RetroUrlInvalid error"),
    }
}

#[test]
fn should_fail_for_url_without_host() {
    let result = RetrospectService::validate_reference_urls(&vec!["https://".to_string()]);
    assert!(matches!(result, Err(AppError::RetroUrlInvalid(_))));
}

#[test]
fn host_without_dot_is_refused() {
    let result = RetrospectService::validate_reference_urls(&vec!["http://localhost".to_string()]);
    assert_eq!(result, Err(AppError::RetroUrlInvalid("유효하지 않은 URL 형식입니다.".to_string())));
}

// ---------- dates and times ----------

fn today() -> chrono::NaiveDate {
    chrono::Utc::now().date_naive()
}

fn as_date(d: chrono::NaiveDate) -> CalendarDate {
    CalendarDate { year: d.year(), month: d.month(), day: d.day() }
}

#[test]
fn should_pass_valid_date_format() {
    let valid_date = today().succ_opt().expect("valid date").format("%Y-%m-%d").to_string();
    assert!(RetrospectService::validate_and_parse_date(&valid_date).is_ok());
}

#[test]
fn should_fail_for_past_date() {
    match RetrospectService::validate_and_parse_date("2020-01-01") {
        Err(AppError::BadRequest(msg)) => assert!(msg.contains("오늘 이후")),
        _ => panic!("Expected BadRequest error"),
    }
}

#[test]
fn should_pass_for_today_date() {
    let today = today().format("%Y-%m-%d").to_string();
    assert!(RetrospectService::validate_and_parse_date(&today).is_ok());
}

#[test]
fn should_fail_for_invalid_date_format() {
    match RetrospectService::validate_and_parse_date("01-25-2026") {
        Err(AppError::BadRequest(msg)) => assert!(msg.contains("YYYY-MM-DD")),
        _ => panic!("Expected BadRequest error"),
    }
}

#[test]
fn should_fail_for_invalid_date_string() {
    let result = RetrospectService::validate_and_parse_date("not-a-date");
    assert!(matches!(result, Err(AppError::BadRequest(_))));
}

#[test]
fn should_pass_valid_time_format() {
    assert!(RetrospectService::validate_and_parse_time("14:30").is_ok());
}

#[test]
fn should_pass_midnight_time() {
    assert!(RetrospectService::validate_and_parse_time("00:00").is_ok());
}

#[test]
fn should_pass_end_of_day_time() {
    assert!(RetrospectService::validate_and_parse_time("23:59").is_ok());
}

#[test]
fn should_fail_for_invalid_time_format() {
    match RetrospectService::validate_and_parse_time("1430") {
        Err(AppError::BadRequest(msg)) => assert!(msg.contains("HH:mm")),
        _ => panic!("Expected BadRequest error"),
    }
}

#[test]
fn should_fail_for_invalid_time_value() {
    let result = RetrospectService::validate_and_parse_time("25:00");
    assert!(matches!(result, Err(AppError::BadRequest(_))));
}

#[test]
fn parsed_time_keeps_hour_and_minute() {
    assert_eq!(RetrospectService::validate_and_parse_time("07:05").unwrap(), ClockTime { hour: 7, minute: 5 });
    let d = RetrospectService::validate_and_parse_date("2999-12-31").unwrap();
    assert_eq!(d, CalendarDate { year: 2999, month: 12, day: 31 });
}

#[test]
fn should_pass_future_datetime() {
    let future_date = today() + chrono::Duration::days(7);
    let time = ClockTime { hour: 14, minute: 0 };
    assert!(RetrospectService::validate_future_datetime(as_date(future_date), time).is_ok());
}

#[test]
fn should_fail_for_past_datetime() {
    let past = CalendarDate { year: 2020, month: 1, day: 1 };
    let time = ClockTime { hour: 14, minute: 0 };
    match RetrospectService::validate_future_datetime(past, time) {
        Err(AppError::BadRequest(msg)) => assert!(msg.contains("미래")),
        _ => panic!("Expected BadRequest error"),
    }
}

#[test]
fn start_at_the_present_minute_is_not_in_the_future() {
    let now = chrono::Utc::now().naive_utc();
    let moment = server::calendar::Moment {
        date: as_date(now.date()),
        hour: now.hour(),
        minute: now.minute(),
        second: 30,
        nanosecond: 0,
    };
    let time = ClockTime { hour: now.hour(), minute: now.minute() };
    assert!(server::calendar::check_future(as_date(now.date()), time, moment).is_err());
    let later = ClockTime { hour: now.hour(), minute: now.minute() + 1 };
    if later.minute < 60 {
        assert!(server::calendar::check_future(as_date(now.date()), later, moment).is_ok());
    }
}

// ---------- questions ----------

#[test]
fn should_return_5_questions_for_kpt() {
    let questions = RetrospectMethod::Kpt.default_questions();
    assert_eq!(questions.len(), 5);
    assert!(questions[0].contains("유지"));
    assert!(questions[1].contains("문제점"));
    assert!(questions[2].contains("시도"));
}

#[test]
fn should_return_5_questions_for_four_l() {
    let questions = RetrospectMethod::FourL.default_questions();
    assert_eq!(questions.len(), 5);
    assert!(questions[0].contains("좋았던"));
    assert!(questions[1].contains("배운"));
    assert!(questions[2].contains("부족"));
    assert!(questions[3].contains("바라는"));
}

#[test]
fn should_return_5_questions_for_five_f() {
    let questions = RetrospectMethod::FiveF.default_questions();
    assert_eq!(questions.len(), 5);
    assert!(questions[0].contains("사실"));
    assert!(questions[1].contains("감정"));
    assert!(questions[2].contains("발견"));
    assert!(questions[3].contains("적용"));
    assert!(questions[4].contains("피드백"));
}

#[test]
fn should_return_5_questions_for_pmi() {
    let questions = RetrospectMethod::Pmi.default_questions();
    assert_eq!(questions.len(), 5);
    assert!(questions[0].contains("긍정"));
    assert!(questions[1].contains("부정"));
    assert!(questions[2].contains("흥미"));
}

#[test]
fn should_return_5_questions_for_free() {
    let questions = RetrospectMethod::Free.default_questions();
    assert_eq!(questions.len(), 5);
    assert!(questions[0].contains("기억"));
}

#[test]
fn every_method_asks_five_questions() {
    assert_eq!(RetrospectMethod::Pmi.question_count(), 5);
    assert_eq!(RetrospectMethod::Kpt.question_count(), 5);
}

// ---------- drafts ----------

fn create_draft(question_number: i32, content: Option<&str>) -> DraftItem {
    DraftItem { question_number, content: content.map(|c| c.to_string()) }
}

#[test]
fn should_pass_valid_single_draft() {
    assert!(RetrospectService::validate_drafts(&vec![create_draft(1, Some("첫 번째 답변"))]).is_ok());
}

#[test]
fn should_pass_valid_multiple_drafts() {
    let drafts = vec![
        create_draft(1, Some("첫 번째 답변")),
        create_draft(3, Some("세 번째 답변")),
        create_draft(5, Some("다섯 번째 답변")),
    ];
    assert!(RetrospectService::validate_drafts(&drafts).is_ok());
}

#[test]
fn should_pass_all_five_drafts() {
    let drafts: Vec<DraftItem> = (1..=5).map(|i| create_draft(i, Some(&format!("답변 {}", i)))).collect();
    assert!(RetrospectService::validate_drafts(&drafts).is_ok());
}

#[test]
fn should_pass_draft_with_null_content() {
    assert!(RetrospectService::validate_drafts(&vec![create_draft(2, None)]).is_ok());
}

#[test]
fn should_pass_draft_with_empty_content() {
    assert!(RetrospectService::validate_drafts(&vec![create_draft(1, Some(""))]).is_ok());
}

#[test]
fn should_pass_draft_with_exactly_1000_chars() {
    let content = "가".repeat(1000);
    assert!(RetrospectService::validate_drafts(&vec![create_draft(1, Some(&content))]).is_ok());
}

#[test]
fn should_fail_when_drafts_is_empty() {
    let drafts: Vec<DraftItem> = vec![];
    match RetrospectService::validate_drafts(&drafts) {
        Err(AppError::BadRequest(msg)) => assert!(msg.contains("최소 1개")),
        _ => panic!("Expected BadRequest error"),
    }
}

#[test]
fn should_fail_when_drafts_exceeds_5() {
    let drafts: Vec<DraftItem> = (1..=6).map(|i| create_draft(i, Some(&format!("답변 {}", i)))).collect();
    match RetrospectService::validate_drafts(&drafts) {
        Err(AppError::BadRequest(msg)) => assert!(msg.contains("최대 5개")),
        _ => panic!("Expected BadRequest error"),
    }
}

#[test]
fn should_fail_when_draft_duplicate_question_numbers() {
    let drafts = vec![create_draft(1, Some("답변 1")), create_draft(1, Some("답변 1 중복"))];
    match RetrospectService::validate_drafts(&drafts) {
        Err(AppError::BadRequest(msg)) => assert!(msg.contains("중복된 질문 번호")),
        _ => panic!("Expected BadRequest error"),
    }
}

#[test]
fn should_fail_when_question_number_is_0() {
    match RetrospectService::validate_drafts(&vec![create_draft(0, Some("답변"))]) {
        Err(AppError::BadRequest(msg)) => assert!(msg.contains("올바르지 않은 질문 번호")),
        _ => panic!("Expected BadRequest error"),
    }
}

#[test]
fn should_fail_when_question_number_is_6() {
    match RetrospectService::validate_drafts(&vec![create_draft(6, Some("답변"))]) {
        Err(AppError::BadRequest(msg)) => assert!(msg.contains("올바르지 않은 질문 번호")),
        _ => panic!("Expected BadRequest error"),
    }
}

#[test]
fn should_fail_when_question_number_is_negative() {
    let result = RetrospectService::validate_drafts(&vec![create_draft(-1, Some("답변"))]);
    assert!(matches!(result, Err(AppError::BadRequest(_))));
}

#[test]
fn should_fail_when_draft_content_exceeds_1000_chars() {
    let content = "가".repeat(1001);
    match RetrospectService::validate_drafts(&vec![create_draft(1, Some(&content))]) {
        Err(AppError::RetroAnswerTooLong(msg)) => assert!(msg.contains("1,000자")),
        _ => panic!("Expected RetroAnswerTooLong error"),
    }
}

#[test]
fn should_pass_mixed_null_and_content_drafts() {
    let drafts = vec![create_draft(1, Some("답변 있음")), create_draft(2, None), create_draft(3, Some(""))];
    assert!(RetrospectService::validate_drafts(&drafts).is_ok());
}

#[test]
fn drafts_write_only_the_named_questions() {
    let mut contents: Vec<String> = (1..=5).map(|i| format!("old {}", i)).collect();
    let drafts = vec![create_draft(2, Some("new 2")), create_draft(4, None)];
    assert!(RetrospectService::validate_drafts(&drafts).is_ok());
    apply_drafts(&mut contents, &drafts);
    assert_eq!(contents, vec!["old 1", "new 2", "old 3", "", "old 5"]);
}

// ---------- answers ----------

fn create_valid_answers() -> Vec<SubmitAnswerItem> {
    (1..=5)
        .map(|i| SubmitAnswerItem { question_number: i, content: format!("질문 {}에 대한 답변입니다.", i) })
        .collect()
}

#[test]
fn should_pass_valid_answers() {
    assert!(RetrospectService::validate_answers(&create_valid_answers()).is_ok());
}

#[test]
fn should_fail_when_answers_count_is_not_5() {
    let answers: Vec<SubmitAnswerItem> =
        (1..=4).map(|i| SubmitAnswerItem { question_number: i, content: format!("답변 {}", i) }).collect();
    match RetrospectService::validate_answers(&answers) {
        Err(AppError::RetroAnswersMissing(msg)) => assert!(msg.contains("모든 질문")),
        _ => panic!("Expected RetroAnswersMissing error"),
    }
}

#[test]
fn should_fail_when_question_number_missing() {
    let mut answers = create_valid_answers();
    answers[2].question_number = 6;
    assert!(matches!(RetrospectService::validate_answers(&answers), Err(AppError::RetroAnswersMissing(_))));
}

#[test]
fn should_fail_when_duplicate_question_numbers() {
    let mut answers = create_valid_answers();
    answers[4].question_number = 1;
    assert!(matches!(RetrospectService::validate_answers(&answers), Err(AppError::RetroAnswersMissing(_))));
}

#[test]
fn should_fail_when_content_is_whitespace_only() {
    let mut answers = create_valid_answers();
    answers[0].content = "   \t\n  ".to_string();
    match RetrospectService::validate_answers(&answers) {
        Err(AppError::RetroAnswerWhitespaceOnly(msg)) => assert!(msg.contains("공백만")),
        _ => panic!("Expected RetroAnswerWhitespaceOnly error"),
    }
}

#[test]
fn should_fail_when_content_is_empty() {
    let mut answers = create_valid_answers();
    answers[0].content = String::new();
    assert!(matches!(
        RetrospectService::validate_answers(&answers),
        Err(AppError::RetroAnswerWhitespaceOnly(_))
    ));
}

#[test]
fn should_fail_when_content_exceeds_1000_chars() {
    let mut answers = create_valid_answers();
    answers[0].content = "가".repeat(1001);
    match RetrospectService::validate_answers(&answers) {
        Err(AppError::RetroAnswerTooLong(msg)) => assert!(msg.contains("1,000자")),
        _ => panic!("Expected RetroAnswerTooLong error"),
    }
}

#[test]
fn should_pass_when_content_is_exactly_1000_chars() {
    let mut answers = create_valid_answers();
    answers[0].content = "가".repeat(1000);
    assert!(RetrospectService::validate_answers(&answers).is_ok());
}

#[test]
fn should_pass_when_content_has_leading_trailing_whitespace() {
    let mut answers = create_valid_answers();
    answers[0].content = "  유효한 답변  ".to_string();
    assert!(RetrospectService::validate_answers(&answers).is_ok());
}

#[test]
fn should_fail_when_answers_is_empty() {
    let answers: Vec<SubmitAnswerItem> = vec![];
    assert!(matches!(RetrospectService::validate_answers(&answers), Err(AppError::RetroAnswersMissing(_))));
}

#[test]
fn accepted_answers_are_also_valid_drafts() {
    let answers = create_valid_answers();
    assert!(RetrospectService::validate_answers(&answers).is_ok());
    let drafts: Vec<DraftItem> = answers
        .iter()
        .map(|a| DraftItem { question_number: a.question_number, content: Some(a.content.clone()) })
        .collect();
    assert!(RetrospectService::validate_drafts(&drafts).is_ok());
}

#[test]
fn answers_land_on_their_questions() {
    let mut answers = create_valid_answers();
    answers.reverse();
    let mut contents: Vec<String> = vec![String::new(); 5];
    apply_answers(&mut contents, &answers);
    for i in 0..5 {
        assert_eq!(contents[i], format!("질문 {}에 대한 답변입니다.", i + 1));
    }
}

#[test]
fn only_drafts_may_be_submitted() {
    assert!(check_submission_allowed(RetrospectStatus::Draft).is_ok());
    assert!(matches!(check_submission_allowed(RetrospectStatus::Submitted), Err(AppError::RetroAlreadySubmitted(_))));
    assert!(matches!(check_submission_allowed(RetrospectStatus::Analyzed), Err(AppError::RetroAlreadySubmitted(_))));
}

#[test]
fn analysis_request_checks_run_in_order() {
    let answers: Vec<String> = vec!["a".to_string(), " ".to_string(), "b".to_string(), "c".to_string()];
    assert!(RetrospectService::check_analysis_request(1, true, false, true, 9, 1, &answers).is_ok());
    assert!(matches!(
        RetrospectService::check_analysis_request(0, true, true, false, 10, 0, &answers),
        Err(AppError::BadRequest(_))
    ));
    assert!(matches!(
        RetrospectService::check_analysis_request(1, false, true, false, 10, 0, &answers),
        Err(AppError::RetrospectNotFound(_))
    ));
    assert!(matches!(
        RetrospectService::check_analysis_request(1, true, true, false, 10, 0, &answers),
        Err(AppError::RetroAlreadyAnalyzed(_))
    ));
    assert!(matches!(
        RetrospectService::check_analysis_request(1, true, false, false, 10, 0, &answers),
        Err(AppError::TeamAccessDenied(_))
    ));
    assert!(matches!(
        RetrospectService::check_analysis_request(1, true, false, true, 10, 1, &answers),
        Err(AppError::AiMonthlyLimitExceeded(_))
    ));
    let blank: Vec<String> = vec!["a".to_string(), " ".to_string(), "".to_string(), "b".to_string()];
    assert!(matches!(
        RetrospectService::check_analysis_request(1, true, false, true, 0, 1, &blank),
        Err(AppError::RetroInsufficientData(_))
    ));
}

// ---------- search ----------

#[test]
fn should_fail_when_keyword_is_empty() {
    assert!(matches!(RetrospectService::validate_search_keyword(""), Err(AppError::SearchKeywordInvalid(_))));
}

#[test]
fn should_fail_when_keyword_exceeds_100_chars() {
    let keyword = "가".repeat(101);
    match RetrospectService::validate_search_keyword(&keyword) {
        Err(AppError::SearchKeywordInvalid(msg)) => assert!(msg.contains("100자")),
        _ => panic!("Expected SearchKeywordInvalid error"),
    }
}

#[test]
fn should_pass_when_keyword_is_exactly_100_chars() {
    let keyword = "가".repeat(100);
    assert_eq!(RetrospectService::validate_search_keyword(&keyword).unwrap(), keyword);
}

#[test]
fn should_fail_when_keyword_is_whitespace_only() {
    assert!(matches!(
        RetrospectService::validate_search_keyword("   \t\n  "),
        Err(AppError::SearchKeywordInvalid(_))
    ));
}

#[test]
fn should_trim_keyword_with_leading_trailing_whitespace() {
    assert_eq!(RetrospectService::validate_search_keyword("  스프린트  ").unwrap(), "스프린트");
}

#[test]
fn should_pass_valid_keyword() {
    assert_eq!(RetrospectService::validate_search_keyword("스프린트 회고").unwrap(), "스프린트 회고");
}

#[test]
fn should_display_kpt_as_kpt() {
    assert_eq!(RetrospectService::retrospect_method_display(&RetrospectMethod::Kpt), "KPT");
}

#[test]
fn should_display_four_l_as_4l() {
    assert_eq!(RetrospectService::retrospect_method_display(&RetrospectMethod::FourL), "4L");
}

#[test]
fn should_display_five_f_as_5f() {
    assert_eq!(RetrospectService::retrospect_method_display(&RetrospectMethod::FiveF), "5F");
}

#[test]
fn should_display_pmi_as_pmi() {
    assert_eq!(RetrospectService::retrospect_method_display(&RetrospectMethod::Pmi), "PMI");
}

#[test]
fn should_display_free_as_free() {
    assert_eq!(RetrospectService::retrospect_method_display(&RetrospectMethod::Free), "Free");
}

// ---------- detail and analysis helpers ----------

#[test]
fn question_items_are_distinct_numbered_and_at_most_five() {
    let qs: Vec<String> = ["a", "b", "a", "c", "d", "b", "e", "f", "g"].iter().map(|s| s.to_string()).collect();
    let items = question_items(&qs);
    assert_eq!(items.len(), 5);
    let texts: Vec<&str> = items.iter().map(|i| i.content.as_str()).collect();
    assert_eq!(texts, vec!["a", "b", "c", "d", "e"]);
    let indexes: Vec<i32> = items.iter().map(|i| i.index).collect();
    assert_eq!(indexes, vec![1, 2, 3, 4, 5]);
}

#[test]
fn question_items_of_no_answers_is_empty() {
    assert!(question_items(&vec![]).is_empty());
}

#[test]
fn member_items_keep_order_and_skip_unknown_ids() {
    let members = vec![(1i64, "kim".to_string()), (3i64, "lee".to_string())];
    let items = member_items(&vec![3, 2, 1], &members);
    assert_eq!(items.len(), 2);
    assert_eq!(items[0].member_id, 3);
    assert_eq!(items[0].user_name, "lee");
    assert_eq!(items[1].member_id, 1);
    assert_eq!(items[1].user_name, "kim");
}

#[test]
fn personal_insight_joins_missions_by_line() {
    let missions = vec![
        MissionItem { mission_title: "말하기".to_string(), mission_desc: "천천히".to_string() },
        MissionItem { mission_title: "듣기".to_string(), mission_desc: "끝까지".to_string() },
    ];
    assert_eq!(personal_insight(&missions), "말하기: 천천히\n듣기: 끝까지");
    assert_eq!(personal_insight(&vec![]), "");
}

#[test]
fn invitation_url_drops_trailing_slashes() {
    assert_eq!(invitation_url("https://moalog.me//", "ABC123"), "https://moalog.me/room/ABC123");
    assert_eq!(invitation_url("https://moalog.me", "X"), "https://moalog.me/room/X");
}

#[test]
fn sort_by_user_id_orders_members() {
    let item = |id: i64| PersonalMissionItem { user_id: id, user_name: format!("u{}", id), missions: vec![] };
    let sorted = sort_by_user_id(vec![item(5), item(2), item(9), item(1)]);
    let ids: Vec<i64> = sorted.iter().map(|p| p.user_id).collect();
    assert_eq!(ids, vec![1, 2, 5, 9]);
}

#[test]
fn count_non_blank_skips_whitespace_answers() {
    let contents: Vec<String> = vec!["답변".to_string(), "   ".to_string(), "".to_string(), "x".to_string()];
    assert_eq!(count_non_blank(&contents), 2);
}

#[test]
fn new_invitation_url_ends_with_a_uuid() {
    let url = new_invitation_url("https://retro.example.com/");
    assert!(url.starts_with("https://retro.example.com/room/"));
    let code = &url["https://retro.example.com/room/".len()..];
    assert_eq!(code.len(), 36);
    assert_ne!(new_invitation_url("https://retro.example.com"), url);
}

#[test]
fn analysis_result_lists_named_members_by_id() {
    let members = vec![(7i64, "park".to_string()), (3i64, "kim".to_string())];
    let r = RetrospectService::analysis_result(&vec![7, 5, 3], &members);
    assert_eq!(r.team_insight, "이번 회고에서 팀은 목표 의식은 분명했지만, 에너지 관리 측면에서 아쉬움이 있었습니다.");
    let ranks: Vec<(i32, &str, i32)> = r.emotion_rank.iter().map(|e| (e.rank, e.label.as_str(), e.count)).collect();
    assert_eq!(ranks, vec![(1, "피로", 6), (2, "뿌듯", 4), (3, "불안", 2)]);
    let ids: Vec<(i64, &str)> = r.personal_missions.iter().map(|p| (p.user_id, p.user_name.as_str())).collect();
    assert_eq!(ids, vec![(3, "kim"), (7, "park")]);
    assert_eq!(r.personal_missions[0].missions.len(), 3);
    assert_eq!(r.personal_missions[0].missions[1].mission_title, "스프린트 분량 조절하기");
    let insight = personal_insight_for(&r.personal_missions, 7).unwrap();
    assert!(insight.starts_with("감정 표현 적극적으로 하기: "));
    assert_eq!(insight.lines().count(), 3);
    assert_eq!(personal_insight_for(&r.personal_missions, 5), None);
}

#[test]
fn hidden_retrospects_answer_not_found() {
    assert!(RetrospectService::check_member_access(true, true).is_ok());
    let expected = Err(AppError::RetrospectNotFound("존재하지 않는 회고이거나 접근 권한이 없습니다.".to_string()));
    assert_eq!(RetrospectService::check_member_access(false, true), expected);
    assert_eq!(RetrospectService::check_member_access(true, false), expected);
}

#[test]
fn team_checks_name_the_missing_team_first() {
    assert!(matches!(RetrospectService::check_team_listing(false, false), Err(AppError::TeamNotFound(_))));
    assert_eq!(
        RetrospectService::check_team_listing(true, false),
        Err(AppError::TeamAccessDenied("해당 팀에 접근 권한이 없습니다.".to_string()))
    );
    assert_eq!(
        RetrospectService::check_team_creation(true, false),
        Err(AppError::TeamAccessDenied("해당 팀의 멤버가 아닙니다.".to_string()))
    );
    assert!(RetrospectService::check_team_creation(true, true).is_ok());
}

#[test]
fn participation_needs_a_future_start_and_a_first_join() {
    assert!(RetrospectService::check_participation(101, 100, false).is_ok());
    assert!(matches!(RetrospectService::check_participation(100, 100, false), Err(AppError::RetrospectAlreadyStarted(_))));
    assert!(matches!(RetrospectService::check_participation(101, 100, true), Err(AppError::ParticipantDuplicate(_))));
    assert!(matches!(RetrospectService::participation_allowed(0, false), Err(AppError::RetrospectAlreadyStarted(_))));
    assert!(RetrospectService::participation_allowed(i64::MAX, false).is_ok());
}

#[test]
fn insert_errors_are_classified() {
    assert!(matches!(
        RetrospectService::participant_insert_error("ERROR: Duplicate entry '1-2' for key"),
        AppError::ParticipantDuplicate(_)
    ));
    assert!(matches!(RetrospectService::participant_insert_error("UNIQUE violation"), AppError::ParticipantDuplicate(_)));
    assert_eq!(
        RetrospectService::participant_insert_error("connection reset"),
        AppError::InternalError("connection reset".to_string())
    );
}

#[test]
fn nickname_is_the_mail_local_part() {
    assert_eq!(nickname_from_email("moa@example.com"), "moa");
    assert_eq!(nickname_from_email("plain"), "plain");
    assert_eq!(nickname_from_email("@x"), "");
}

#[test]
fn team_list_item_formats_the_start() {
    let item = team_list_item(3, "회고".to_string(), RetrospectMethod::FourL, 1_737_813_600);
    assert_eq!(item.retrospect_date, "2025-01-25");
    assert_eq!(item.retrospect_time, "14:00");
    assert_eq!(item.project_name, "회고");
}

#[test]
fn search_item_names_the_team() {
    let teams = vec![(1i64, "모아".to_string())];
    let hit = search_item(9, "주간".to_string(), 1, &teams, RetrospectMethod::Kpt, 1_737_813_600);
    assert_eq!(hit.team_name, "모아");
    assert_eq!(hit.retrospect_date, "2025-01-25");
    assert_eq!(hit.retrospect_time, "14:00");
    let orphan = search_item(9, "주간".to_string(), 2, &teams, RetrospectMethod::Kpt, 0);
    assert_eq!(orphan.team_name, "");
}

#[test]
fn draft_save_checks_rows_in_order() {
    assert!(RetrospectService::check_draft_save(true, true, 5).is_ok());
    assert_eq!(
        RetrospectService::check_draft_save(false, false, 0),
        Err(AppError::RetrospectNotFound("존재하지 않는 회고입니다.".to_string()))
    );
    assert_eq!(
        RetrospectService::check_draft_save(true, false, 5),
        Err(AppError::TeamAccessDenied("해당 회고에 작성 권한이 없습니다.".to_string()))
    );
    assert_eq!(
        RetrospectService::check_draft_save(true, true, 0),
        Err(AppError::TeamAccessDenied("해당 회고에 대한 응답 데이터가 존재하지 않습니다.".to_string()))
    );
    assert_eq!(
        RetrospectService::check_draft_save(true, true, 3),
        Err(AppError::InternalError("질문-응답 매핑 불일치: 예상 5개, 실제 3개".to_string()))
    );
}

#[test]
fn submit_checks_status_and_rows() {
    assert!(RetrospectService::check_submit(true, Some(RetrospectStatus::Draft), 5).is_ok());
    assert!(matches!(RetrospectService::check_submit(false, None, 5), Err(AppError::RetrospectNotFound(_))));
    assert_eq!(
        RetrospectService::check_submit(true, None, 5),
        Err(AppError::RetrospectNotFound("존재하지 않는 회고이거나 접근 권한이 없습니다.".to_string()))
    );
    assert!(matches!(
        RetrospectService::check_submit(true, Some(RetrospectStatus::Analyzed), 5),
        Err(AppError::RetroAlreadySubmitted(_))
    ));
    assert_eq!(
        RetrospectService::check_submit(true, Some(RetrospectStatus::Draft), 4),
        Err(AppError::InternalError("회고의 질문 수가 올바르지 않습니다.".to_string()))
    );
}

#[test]
fn today_in_korea_is_a_date() {
    let t = today_kst_text();
    assert_eq!(t.len(), 10);
    assert_eq!(&t[4..5], "-");
}

#[test]
fn detail_access_needs_the_room() {
    assert!(RetrospectService::check_detail_access(true, true).is_ok());
    assert_eq!(
        RetrospectService::check_detail_access(false, true),
        Err(AppError::RetrospectNotFound("존재하지 않는 회고입니다.".to_string()))
    );
    assert_eq!(
        RetrospectService::check_detail_access(true, false),
        Err(AppError::TeamAccessDenied("해당 회고에 접근 권한이 없습니다.".to_string()))
    );
}

#[test]
fn detail_gathers_members_and_questions() {
    let members = vec![(1i64, "kim".to_string())];
    let questions: Vec<String> = vec!["q1".to_string(), "q2".to_string(), "q1".to_string()];
    let d = retrospect_detail(4, "제목".to_string(), 1_737_813_600, RetrospectMethod::Pmi, &vec![2, 1], &members, &questions, 3, 7);
    assert_eq!(d.team_id, 4);
    assert_eq!(d.start_time, "2025-01-25");
    assert_eq!(d.members.len(), 1);
    assert_eq!(d.members[0].user_name, "kim");
    assert_eq!(d.questions.len(), 2);
    assert_eq!(d.questions[1].content, "q2");
    assert_eq!(d.total_like_count, 3);
    assert_eq!(d.total_comment_count, 7);
}

#[test]
fn deletion_cascades_only_over_existing_answers() {
    assert_eq!(
        RetrospectService::deletion_steps(2),
        vec![
            DeletionStep::Comments,
            DeletionStep::Likes,
            DeletionStep::MemberResponses,
            DeletionStep::Responses,
            DeletionStep::References,
            DeletionStep::MemberRetros,
            DeletionStep::Retrospect
        ]
    );
    assert_eq!(
        RetrospectService::deletion_steps(0),
        vec![DeletionStep::Responses, DeletionStep::References, DeletionStep::MemberRetros, DeletionStep::Retrospect]
    );
    assert_eq!(RetrospectService::room_deletion_steps(0), vec![DeletionStep::MemberRetroRooms, DeletionStep::Room]);
    assert!(RetrospectService::room_deletion_steps(1).is_empty());
}

#[test]
fn sort_by_user_id_keeps_equal_ids_in_order() {
    let item = |id: i64, name: &str| PersonalMissionItem { user_id: id, user_name: name.to_string(), missions: vec![] };
    let sorted = sort_by_user_id(vec![item(2, "b1"), item(1, "a"), item(2, "b2"), item(0, "z")]);
    let names: Vec<&str> = sorted.iter().map(|p| p.user_name.as_str()).collect();
    assert_eq!(names, vec!["z", "a", "b1", "b2"]);
}

#[test]
fn comment_queries_are_checked_in_order() {
    assert_eq!(RetrospectService::check_comment_query(1, None, None), Ok(20));
    assert_eq!(RetrospectService::check_comment_query(1, Some(5), Some(100)), Ok(100));
    assert_eq!(
        RetrospectService::check_comment_query(0, Some(0), Some(0)),
        Err(AppError::BadRequest("responseId는 1 이상의 양수여야 합니다.".to_string()))
    );
    assert_eq!(
        RetrospectService::check_comment_query(1, Some(0), Some(0)),
        Err(AppError::BadRequest("cursor는 1 이상의 양수여야 합니다.".to_string()))
    );
    assert_eq!(
        RetrospectService::check_comment_query(1, None, Some(101)),
        Err(AppError::BadRequest("size는 1~100 범위의 정수여야 합니다.".to_string()))
    );
    assert!(RetrospectService::check_comment_target(1).is_ok());
    assert!(RetrospectService::check_comment_target(0).is_err());
}

#[test]
fn path_ids_and_callers_are_checked() {
    assert!(RetrospectService::check_retrospect_id(1).is_ok());
    assert_eq!(
        RetrospectService::check_retrospect_id(0),
        Err(AppError::BadRequest("retrospectId는 1 이상의 양수여야 합니다.".to_string()))
    );
    assert_eq!(RetrospectService::caller_id("17"), Ok(17));
    assert_eq!(
        RetrospectService::caller_id("x"),
        Err(AppError::Unauthorized("유효하지 않은 사용자 ID입니다.".to_string()))
    );
}

#[test]
fn korean_moment_is_nine_hours_after_utc() {
    let m = server::calendar::kst_moment(0, 5).unwrap();
    assert_eq!(m.date, CalendarDate { year: 1970, month: 1, day: 1 });
    assert_eq!((m.hour, m.minute, m.second, m.nanosecond), (9, 0, 0, 5));
    let late = server::calendar::kst_moment(1_735_657_200, 0).unwrap();
    assert_eq!(late.date, CalendarDate { year: 2025, month: 1, day: 1 });
    assert_eq!((late.hour, late.minute), (0, 0));
    assert!(server::calendar::kst_moment(i64::MAX, 0).is_none());
}
