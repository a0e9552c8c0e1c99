use server::report::{report_blocks, report_document_title, ReportBlock, ReportInput, ReportParticipant, ReportResponse};
use server::retro_dto::RetrospectMethod;

fn text_of(b: &ReportBlock) -> String {
    match b {
        ReportBlock::Title(t) => format!("T:{}", t),
        ReportBlock::Heading(t) => format!("H:{}", t),
        ReportBlock::Strong(t) => format!("S:{}", t),
        ReportBlock::Text(t) => format!("P:{}", t),
        ReportBlock::Gap(n) => format!("G:{}", n),
    }
}

fn response(id: i64, q: &str, c: &str) -> ReportResponse {
    ReportResponse { response_id: id, question: q.to_string(), content: c.to_string() }
}

#[test]
fn report_title_names_the_retrospect() {
    assert_eq!(report_document_title("스프린트 1"), "스프린트 1 - Retrospect Report");
}

#[test]
fn report_lays_out_every_section() {
    let input = ReportInput {
        title: "스프린트".to_string(),
        team_name: Some("모아".to_string()),
        // 2025-01-25 14:00 (no zone applied)
        start_time: 1_737_813_600,
        method: RetrospectMethod::Kpt,
        team_insight: Some("잘했다".to_string()),
        participants: vec![
            ReportParticipant { member_id: 1, personal_insight: Some("꾸준함".to_string()) },
            ReportParticipant { member_id: 2, personal_insight: None },
            ReportParticipant { member_id: 3, personal_insight: Some("속도".to_string()) },
        ],
        members: vec![(1, "kim".to_string()), (2, "lee".to_string())],
        responses: vec![
            response(10, "Keep", "좋음"),
            response(11, "Problem", "  "),
            response(12, "Keep", "유지"),
        ],
        authors: vec![(10, 1), (12, 9)],
    };
    let blocks: Vec<String> = report_blocks(&input).iter().map(text_of).collect();
    let expected: Vec<&str> = vec![
        "T:스프린트 - Retrospect Report",
        "G:5",
        "H:Basic Information",
        "G:3",
        "P:Team: 모아",
        "P:Date: 2025-01-25 14:00",
        "P:Method: KPT",
        "P:Participants (2):",
        "P:  - kim",
        "P:  - lee",
        "G:5",
        "H:Team Insight",
        "G:3",
        "P:잘했다",
        "G:5",
        "H:Questions & Answers",
        "G:3",
        "S:Q1. Keep",
        "P:  - [kim] 좋음",
        "P:  - [Anonymous] 유지",
        "G:3",
        "S:Q2. Problem",
        "P:  (No answers)",
        "G:3",
        "G:3",
        "H:Personal Insights",
        "G:3",
        "S:[kim]",
        "P:  꾸준함",
        "G:2",
        "S:[Member #3]",
        "P:  속도",
        "G:2",
    ];
    assert_eq!(blocks, expected);
}

#[test]
fn report_without_answers_or_insights_is_short() {
    let input = ReportInput {
        title: "t".to_string(),
        team_name: None,
        start_time: 0,
        method: RetrospectMethod::Free,
        team_insight: None,
        participants: vec![],
        members: vec![],
        responses: vec![],
        authors: vec![],
    };
    let blocks: Vec<String> = report_blocks(&input).iter().map(text_of).collect();
    assert_eq!(
        blocks,
        vec![
            "T:t - Retrospect Report",
            "G:5",
            "H:Basic Information",
            "G:3",
            "P:Team: (알 수 없음)",
            "P:Date: 1970-01-01 00:00",
            "P:Method: Free",
            "P:Participants (0):",
            "G:5",
        ]
    );
}
