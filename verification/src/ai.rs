//! The AI side of retrospects: tone refinement requests, the prompts of a
//! team analysis, and the checks on what the model answers.
use vstd::prelude::*;
use crate::error::{AppError, ErrorKind};
use crate::retro_dto::{char_count, note, outcome, AnalysisResponse, PersonalMissionItem, ValidationErrors};
use crate::string_set::StringSet;
use crate::text::{append_chars, chars_of, i64_text, is_blank, owned, str_contains, string_from_chars, u64_text};

verus! {

/// The tone a text is rewritten in.
#[derive(Debug, Clone, Copy, PartialEq, Eq, Structural)]
pub enum ToneStyle {
    Kind,
    Polite,
}

/// The wire name of a tone.
pub open spec fn tone_wire_name(t: ToneStyle) -> Seq<char> {
    match t {
        ToneStyle::Kind => "KIND"@,
        ToneStyle::Polite => "POLITE"@,
    }
}

impl ToneStyle {
    /// The wire name of the tone.
    pub fn to_string(&self) -> (r: String)
        ensures
            r@ == tone_wire_name(*self),
    {
        match self {
            ToneStyle::Kind => owned("KIND"),
            ToneStyle::Polite => owned("POLITE"),
        }
    }

    /// The tone with the given wire name, if any.
    pub fn parse(s: &str) -> (r: Option<ToneStyle>)
        ensures
            r matches Some(t) ==> tone_wire_name(t) == s@,
            r is None ==> forall|t: ToneStyle| tone_wire_name(t) != s@,
    {
        if crate::text::str_eq(s, "KIND") {
            Some(ToneStyle::Kind)
        } else if crate::text::str_eq(s, "POLITE") {
            Some(ToneStyle::Polite)
        } else {
            proof {
                assert forall|t: ToneStyle| tone_wire_name(t) != s@ by {
                    match t {
                        ToneStyle::Kind => {},
                        ToneStyle::Polite => {},
                    }
                }
            }
            None
        }
    }
}

/// A request to rewrite a retrospect text in a tone.
#[derive(Debug)]
pub struct RefineRequest {
    pub content: String,
    pub tone_style: ToneStyle,
    pub secret_key: String,
}

/// The fields of a refine request that break their rules: content of 1 to
/// 5000 characters and a non-empty secret key.
pub open spec fn refine_failures(content: Seq<char>, secret_key: Seq<char>) -> Set<Seq<char>> {
    Set::new(|f: Seq<char>|
        (f == "content"@ && !(1 <= content.len() <= 5000)) || (f == "secret_key"@ && secret_key.len() < 1))
}

impl RefineRequest {
    /// Checks the content and the secret key.
    pub fn validate(&self) -> (r: Result<(), ValidationErrors>)
        ensures
            r is Ok <==> refine_failures(self.content@, self.secret_key@) == Set::<Seq<char>>::empty(),
            r matches Err(e) ==> e.failed() == refine_failures(self.content@, self.secret_key@),
    {
        let mut fields = StringSet::new();
        let n = char_count(self.content.as_str());
        note(&mut fields, n < 1 || n > 5000, "content");
        note(&mut fields, char_count(self.secret_key.as_str()) < 1, "secret_key");
        proof {
            reveal_strlit("content");
            reveal_strlit("secret_key");
            assert(fields@ =~= refine_failures(self.content@, self.secret_key@));
        }
        outcome(fields)
    }
}

/// A rewritten text next to the original.
#[derive(Debug)]
pub struct RefineResponse {
    pub original_content: String,
    pub refined_content: String,
    pub tone_style: ToneStyle,
}

impl RefineResponse {
    pub fn new(original_content: String, refined_content: String, tone_style: ToneStyle) -> (r: Self)
        ensures
            r.original_content == original_content,
            r.refined_content == refined_content,
            r.tone_style == tone_style,
    {
        RefineResponse { original_content, refined_content, tone_style }
    }
}

#[derive(Debug)]
pub struct RefineSuccessResponse {
    pub is_success: bool,
    pub code: String,
    pub message: String,
    pub result: RefineResponse,
}

/// The answers of one participant, each as (question, answer).
#[derive(Debug)]
pub struct MemberAnswerData {
    pub user_id: i64,
    pub user_name: String,
    pub answers: Vec<(String, String)>,
}

/// The instructions given to the model for a team analysis.
pub const ANALYSIS_SYSTEM_PROMPT: &'static str = r#"당신은 팀 회고 데이터를 종합 분석하는 따뜻한 AI 분석가입니다.
팀원들이 작성한 회고 답변을 분석하여 팀 인사이트, 감정 통계, 개인별 맞춤 미션을 생성합니다.

## 말투 규칙 (매우 중요)

모든 텍스트는 반드시 상냥체(~어요, ~했어요, ~드러났어요, ~있었어요)로 작성합니다.
격식체(~습니다, ~했습니다, ~있었습니다)를 절대 사용하지 마세요.

좋은 예: "피로함을 느꼈어요", "아쉬움이 드러났어요", "성취감을 느꼈어요"
나쁜 예: "피로함을 느꼈습니다", "아쉬움이 드러났습니다", "성취감을 느꼈습니다"

## 분석 방법

### 1. 팀 인사이트 (teamInsight)
- 팀 전체의 강점과 개선점을 1문장으로 요약해요.
- 따뜻하고 공감하는 어투로, "이번 회고에서 팀은 ~했지만, ~아쉬움이 드러났어요" 형태를 참고하세요.
- 예시: "이번 회고에서 팀은 목표 의식은 분명했지만, 에너지 관리 측면에서 공통적인 아쉬움이 드러났어요."

### 2. 감정 랭킹 (emotionRank)
- 답변에서 드러나는 감정 상위 3개를 추출해요.
- label: 2글자 감정 키워드 (예: 피로, 압박, 성취, 뿌듯, 불안, 감사, 아쉬움, 기대, 답답, 즐거움, 걱정)
- description: 해당 감정이 왜 나타났는지 1문장으로 짧게 설명해요. 반드시 "~어요/았어요/였어요"로 끝내세요.
  - 좋은 예: "짧은 스프린트 기간으로 인해 피로함을 느꼈어요"
  - 좋은 예: "마이크로 메니징에 관해 압박감을 호소했어요"
  - 좋은 예: "적당한 작업범위로 성취감을 느꼈어요"
  - 나쁜 예: "팀원들이 프로젝트의 일정과 작업량으로 인해 체력적으로 힘들어하고 있으며, 번아웃에 대한 우려도 나타나고 있습니다." (너무 길고 격식체)
- count: 해당 감정과 연관된 응답 수 (추정치)

### 3. 개인 미션 (personalMissions)
- 각 팀원의 답변을 근거로 성장 미션 3개를 제안해요.
- missionTitle: 동사형 행동 미션 (예: "감정 표현 적극적으로 하기", "스프린트 분량 조절하기")
- missionDesc: 해당 팀원의 답변에서 드러난 근거를 바탕으로 구체적인 제안을 작성해요. 상냥체(~어요)로 작성하세요.
  - 좋은 예: "즉각적인 응답과 활발한 협업툴 사용은 팀 운영의 안정성을 높였고, 스프린트 분량 조절과 작은 PR 단위로 나누면 더 효율적인 리뷰가 가능해져요."
  - 나쁜 예: "코드 리뷰 프로세스를 개선하여 PR이 1일 이내에 처리되도록 팀원들과 협의해 보세요." (격식체 + 너무 일반적)

## 출력 형식

반드시 아래 JSON 형식만 출력하세요. JSON 외의 텍스트를 포함하지 마세요.

```json
{
  "teamInsight": "이번 회고에서 팀은 ~했지만, ~아쉬움이 드러났어요.",
  "emotionRank": [
    {
      "rank": 1,
      "label": "피로",
      "description": "짧은 스프린트 기간으로 인해 피로함을 느꼈어요",
      "count": 6
    },
    {
      "rank": 2,
      "label": "압박",
      "description": "마이크로 메니징에 관해 압박감을 호소했어요",
      "count": 4
    },
    {
      "rank": 3,
      "label": "성취",
      "description": "적당한 작업범위로 성취감을 느꼈어요",
      "count": 2
    }
  ],
  "personalMissions": [
    {
      "userId": 1,
      "userName": "사용자이름",
      "missions": [
        {
          "missionTitle": "감정 표현 적극적으로 하기",
          "missionDesc": "활발한 협업은 좋았지만 감정 공유를 늘리면 팀 응집력이 더 높아질 거예요."
        },
        {
          "missionTitle": "스프린트 분량 조절하기",
          "missionDesc": "작은 PR 단위로 나누어 업무를 분배하면 효율적인 리뷰가 가능해져요."
        },
        {
          "missionTitle": "피드백 즉각 공유하기",
          "missionDesc": "즉각적인 응답과 활발한 코드 리뷰로 협업 속도를 높여보세요."
        }
      ]
    }
  ]
}
```

## 규칙
1. 모든 텍스트는 상냥체(~어요/했어요)로 작성합니다. 격식체(~습니다) 절대 금지.
2. emotionRank는 반드시 정확히 3개여야 합니다.
3. emotionRank의 description은 1문장, 최대 30자 내외로 짧게 작성합니다.
4. 각 사용자의 missions는 반드시 정확히 3개여야 합니다.
5. emotionRank는 count 기준 내림차순으로 정렬합니다.
6. personalMissions는 입력 데이터의 userId를 그대로 사용합니다.
7. JSON 형식만 출력합니다. 마크다운 코드 블록이나 추가 설명을 포함하지 마세요."#;

/// The opening of the analysis request.
pub open spec fn user_prompt_header() -> Seq<char> {
    "다음 팀원들의 회고 답변을 종합 분석해주세요.\n\n"@
}

/// The line pair of answer `i` (from 0); a blank answer shows as "(답변 없음)".
pub open spec fn answer_line(i: int, q: Seq<char>, a: Seq<char>) -> Seq<char> {
    "- Q"@ + crate::text::int_text(i + 1) + ": "@ + q + "\n  A: "@
        + (if crate::text::all_ws(a) { "(답변 없음)"@ } else { a }) + "\n"@
}

/// The lines of the answers, in order.
pub open spec fn answer_lines(ans: Seq<(String, String)>) -> Seq<char>
    decreases ans.len(),
{
    if ans.len() == 0 {
        Seq::empty()
    } else {
        answer_lines(ans.drop_last()) + answer_line(ans.len() - 1, ans.last().0@, ans.last().1@)
    }
}

/// The heading of a participant.
pub open spec fn member_heading(m: MemberAnswerData) -> Seq<char> {
    "## 참여자 (userId: "@ + crate::text::int_text(m.user_id as int) + ", 이름: "@ + m.user_name@ + ")\n"@
}

/// The block of a participant: heading, answers, blank line.
pub open spec fn member_block(m: MemberAnswerData) -> Seq<char> {
    member_heading(m) + answer_lines(m.answers@) + "\n"@
}

/// The blocks of the participants, in order.
pub open spec fn member_blocks(ms: Seq<MemberAnswerData>) -> Seq<char>
    decreases ms.len(),
{
    if ms.len() == 0 {
        Seq::empty()
    } else {
        member_blocks(ms.drop_last()) + member_block(ms.last())
    }
}

/// The prompts of a team analysis.
pub struct AnalysisPrompt;

impl AnalysisPrompt {
    /// The instructions of a team analysis.
    pub fn system_prompt() -> (r: String)
        ensures
            r@ == ANALYSIS_SYSTEM_PROMPT@,
    {
        owned(ANALYSIS_SYSTEM_PROMPT)
    }

    /// The analysis request listing every participant's answers.
    pub fn user_prompt(members_data: &[MemberAnswerData]) -> (r: String)
        ensures
            r@ == user_prompt_header() + member_blocks(members_data@),
    {
        let mut out: Vec<char> = chars_of("다음 팀원들의 회고 답변을 종합 분석해주세요.\n\n");
        let ghost ms = members_data@;
        let mut i: usize = 0;
        assert(ms.take(0) =~= Seq::<MemberAnswerData>::empty());
        while i < members_data.len()
            invariant
                i <= ms.len(),
                ms == members_data@,
                out@ == user_prompt_header() + member_blocks(ms.take(i as int)),
            decreases members_data.len() - i,
        {
            let m = &members_data[i];
            let ghost before = out@;
            append_chars(&mut out, &chars_of("## 참여자 (userId: "));
            append_chars(&mut out, &chars_of(i64_text(m.user_id).as_str()));
            append_chars(&mut out, &chars_of(", 이름: "));
            append_chars(&mut out, &chars_of(m.user_name.as_str()));
            append_chars(&mut out, &chars_of(")\n"));
            assert(out@ == before + member_heading(*m));
            let mut j: usize = 0;
            assert(m.answers@.take(0) =~= Seq::<(String, String)>::empty());
            while j < m.answers.len()
                invariant
                    j <= m.answers@.len(),
                    out@ == before + member_heading(*m) + answer_lines(m.answers@.take(j as int)),
                decreases m.answers.len() - j,
            {
                let pair = &m.answers[j];
                let ghost mid = out@;
                append_chars(&mut out, &chars_of("- Q"));
                let k: u64 = (j as u64) + 1;
                append_chars(&mut out, &chars_of(u64_text(k).as_str()));
                append_chars(&mut out, &chars_of(": "));
                append_chars(&mut out, &chars_of(pair.0.as_str()));
                append_chars(&mut out, &chars_of("\n  A: "));
                if is_blank(pair.1.as_str()) {
                    append_chars(&mut out, &chars_of("(답변 없음)"));
                } else {
                    append_chars(&mut out, &chars_of(pair.1.as_str()));
                }
                append_chars(&mut out, &chars_of("\n"));
                proof {
                    assert(crate::text::int_text(j as int + 1) == crate::text::decimal(k as nat));
                    assert(out@ == mid + answer_line(j as int, pair.0@, pair.1@));
                    let t = m.answers@.take(j as int + 1);
                    assert(t.drop_last() =~= m.answers@.take(j as int));
                    assert(t.last() == m.answers@[j as int]);
                }
                j = j + 1;
            }
            append_chars(&mut out, &chars_of("\n"));
            proof {
                assert(m.answers@.take(j as int) =~= m.answers@);
                assert(out@ == before + member_block(*m));
                let t = ms.take(i as int + 1);
                assert(t.drop_last() =~= ms.take(i as int));
                assert(t.last() == ms[i as int]);
            }
            i = i + 1;
        }
        assert(ms.take(i as int) =~= ms);
        string_from_chars(out.as_slice())
    }
}

/// Whether `i` is the first position of `c` in `t`.
pub open spec fn is_first_char(t: Seq<char>, c: char, i: int) -> bool {
    0 <= i < t.len() && t[i] == c && forall|k: int| 0 <= k < i ==> t[k] != c
}

/// Whether `j` is the last position of `c` in `t`.
pub open spec fn is_last_char(t: Seq<char>, c: char, j: int) -> bool {
    0 <= j < t.len() && t[j] == c && forall|k: int| j < k < t.len() ==> t[k] != c
}

pub open spec fn first_char(t: Seq<char>, c: char) -> int {
    choose|i: int| is_first_char(t, c, i)
}

pub open spec fn last_char(t: Seq<char>, c: char) -> int {
    choose|j: int| is_last_char(t, c, j)
}

/// The JSON part of a model's answer: from the first `{` to the last `}` of
/// the trimmed answer, or the whole trimmed answer when either is missing.
pub open spec fn json_part(s: Seq<char>) -> Seq<char> {
    let t = crate::text::trim(s);
    if t.contains('{') && t.contains('}') {
        t.subrange(first_char(t, '{'), last_char(t, '}') + 1)
    } else {
        t
    }
}

/// Whether the first `{` of the trimmed answer lies more than one place past
/// its last `}`, where no slice between them exists.
pub open spec fn braces_crossed(s: Seq<char>) -> bool {
    let t = crate::text::trim(s);
    t.contains('{') && t.contains('}') && first_char(t, '{') > last_char(t, '}') + 1
}

proof fn lemma_first_char(t: Seq<char>, c: char, i: int)
    requires
        is_first_char(t, c, i),
    ensures
        first_char(t, c) == i,
{
    let f = first_char(t, c);
    assert(is_first_char(t, c, f));
    if f < i {
        assert(t[f] == c);
    }
    if i < f {
        assert(t[i] == c);
    }
}

proof fn lemma_last_char(t: Seq<char>, c: char, j: int)
    requires
        is_last_char(t, c, j),
    ensures
        last_char(t, c) == j,
{
    let l = last_char(t, c);
    assert(is_last_char(t, c, l));
    if l < j {
        assert(t[j] == c);
    }
    if j < l {
        assert(t[l] == c);
    }
}

/// Cuts the JSON object out of a model's answer, which may wrap it in a code
/// block or in prose.
pub fn extract_json(response: &str) -> (r: String)
    requires
        !braces_crossed(response@),
    ensures
        r@ == json_part(response@),
{
    let t = crate::text::trim_chars(&chars_of(response));
    let ghost tv = t@;
    let mut start: usize = 0;
    while start < t.len() && t[start] != '{'
        invariant
            start <= t@.len(),
            forall|k: int| 0 <= k < start ==> t@[k] != '{',
        decreases t.len() - start,
    {
        start = start + 1;
    }
    if start == t.len() {
        assert(!tv.contains('{'));
        return string_from_chars(t.as_slice());
    }
    assert(is_first_char(tv, '{', start as int));
    let mut end: usize = t.len();
    while end > 0 && t[end - 1] != '}'
        invariant
            end <= t@.len(),
            forall|k: int| end <= k < t@.len() ==> t@[k] != '}',
        decreases end,
    {
        end = end - 1;
    }
    if end == 0 {
        assert(!tv.contains('}'));
        return string_from_chars(t.as_slice());
    }
    assert(is_last_char(tv, '}', end - 1));
    proof {
        lemma_first_char(tv, '{', start as int);
        lemma_last_char(tv, '}', end - 1);
        assert(tv.contains('{'));
        assert(tv.contains('}'));
    }
    let part = crate::text::slice_chars(&t, start, end);
    string_from_chars(part.as_slice())
}

/// The number of emotions an analysis ranks, and of missions per member.
pub const ANALYSIS_RANK_COUNT: usize = 3;

/// Why an analysis is refused, if it is: the emotion ranking must have three
/// entries, then every member three missions (the first member without is named).
pub open spec fn analysis_problem(a: AnalysisResponse) -> Option<Seq<char>> {
    if a.emotion_rank@.len() != ANALYSIS_RANK_COUNT {
        Some("감정 랭킹이 3개여야 하지만 "@ + crate::text::decimal(a.emotion_rank@.len()) + "개입니다"@)
    } else {
        first_mission_problem(a.personal_missions@)
    }
}

/// The complaint about the first member whose missions are not three.
pub open spec fn first_mission_problem(pms: Seq<PersonalMissionItem>) -> Option<Seq<char>>
    decreases pms.len(),
{
    if pms.len() == 0 {
        None
    } else if pms[0].missions@.len() != ANALYSIS_RANK_COUNT {
        Some("사용자 "@ + crate::text::int_text(pms[0].user_id as int) + "의 미션이 3개여야 하지만 "@
            + crate::text::decimal(pms[0].missions@.len()) + "개입니다"@)
    } else {
        first_mission_problem(pms.drop_first())
    }
}

proof fn lemma_first_mission_problem_step(pms: Seq<PersonalMissionItem>, k: int)
    requires
        0 <= k < pms.len(),
        pms[k].missions@.len() == ANALYSIS_RANK_COUNT,
    ensures
        first_mission_problem(pms.skip(k)) == first_mission_problem(pms.skip(k + 1)),
{
    assert(pms.skip(k)[0] == pms[k]);
    assert(pms.skip(k).drop_first() =~= pms.skip(k + 1));
}

/// The message complaining about a count that is not three.
fn count_message(prefix: &str, n: usize, suffix: &str) -> (r: String)
    ensures
        r@ == prefix@ + crate::text::decimal(n as nat) + suffix@,
{
    let mut out = chars_of(prefix);
    append_chars(&mut out, &chars_of(u64_text(n as u64).as_str()));
    append_chars(&mut out, &chars_of(suffix));
    string_from_chars(out.as_slice())
}

/// Refuses an analysis whose shape the model got wrong.
pub fn check_analysis(analysis: &AnalysisResponse) -> (r: Result<(), AppError>)
    ensures
        match analysis_problem(*analysis) {
            None => r is Ok,
            Some(m) => r matches Err(e) && e@ == (ErrorKind::AiAnalysisFailed, m),
        },
{
    let n = analysis.emotion_rank.len();
    if n != ANALYSIS_RANK_COUNT {
        return Err(AppError::AiAnalysisFailed(count_message("감정 랭킹이 3개여야 하지만 ", n, "개입니다")));
    }
    let ghost pms = analysis.personal_missions@;
    let mut i: usize = 0;
    assert(pms.skip(0) =~= pms);
    while i < analysis.personal_missions.len()
        invariant
            i <= pms.len(),
            pms == analysis.personal_missions@,
            analysis.emotion_rank@.len() == ANALYSIS_RANK_COUNT,
            first_mission_problem(pms) == first_mission_problem(pms.skip(i as int)),
        decreases analysis.personal_missions.len() - i,
    {
        let pm = &analysis.personal_missions[i];
        let c = pm.missions.len();
        if c != ANALYSIS_RANK_COUNT {
            proof {
                assert(pms.skip(i as int)[0] == pms[i as int]);
            }
            let mut out = chars_of("사용자 ");
            append_chars(&mut out, &chars_of(i64_text(pm.user_id).as_str()));
            append_chars(&mut out, &chars_of(count_message("의 미션이 3개여야 하지만 ", c, "개입니다").as_str()));
            assert(out@ =~= "사용자 "@ + crate::text::int_text(pm.user_id as int) + "의 미션이 3개여야 하지만 "@
                + crate::text::decimal(c as nat) + "개입니다"@);
            return Err(AppError::AiAnalysisFailed(string_from_chars(out.as_slice())));
        }
        proof {
            lemma_first_mission_problem_step(pms, i as int);
        }
        i = i + 1;
    }
    assert(pms.skip(i as int).len() == 0);
    Ok(())
}

/// The error a failed model call is reported as, from the text of the failure.
pub open spec fn ai_failure(msg: Seq<char>) -> (ErrorKind, Seq<char>) {
    if crate::text::contains(msg, "401"@) || crate::text::contains(msg, "Unauthorized"@) {
        (ErrorKind::AiConnectionFailed, "API 키가 유효하지 않습니다"@)
    } else if crate::text::contains(msg, "429"@) || crate::text::contains(msg, "rate limit"@) {
        (ErrorKind::AiServiceUnavailable, "요청 한도 초과"@)
    } else if crate::text::contains(msg, "503"@) || crate::text::contains(msg, "unavailable"@) {
        (ErrorKind::AiServiceUnavailable, msg)
    } else {
        (ErrorKind::AiGeneralError, msg)
    }
}

/// Sorts a failed model call into the error it is reported as.
pub fn classify_ai_error(msg: &str) -> (r: AppError)
    ensures
        r@ == ai_failure(msg@),
{
    if str_contains(msg, "401") || str_contains(msg, "Unauthorized") {
        AppError::AiConnectionFailed(owned("API 키가 유효하지 않습니다"))
    } else if str_contains(msg, "429") || str_contains(msg, "rate limit") {
        AppError::AiServiceUnavailable(owned("요청 한도 초과"))
    } else if str_contains(msg, "503") || str_contains(msg, "unavailable") {
        AppError::AiServiceUnavailable(owned(msg))
    } else {
        AppError::AiGeneralError(owned(msg))
    }
}

/// The assistant's reply for the writing guide, as read from its JSON: the
/// guides it suggests. The guide item is left to the caller's type.
pub struct AssistantGuideRaw<G> {
    pub guides: Vec<G>,
}

/// The complaint about a guide count outside one to three, if any.
pub open spec fn guide_count_problem(n: nat) -> Option<Seq<char>> {
    if n == 0 || n > 3 {
        Some("가이드는 1~3개여야 하지만 "@ + crate::text::decimal(n) + "개입니다"@)
    } else {
        None
    }
}

/// Accepts the assistant's reply when it holds one to three guides, and hands
/// them back in order; otherwise refuses it with `AiAnalysisFailed`.
pub fn check_guides<G>(raw: AssistantGuideRaw<G>) -> (r: Result<Vec<G>, AppError>)
    ensures
        match guide_count_problem(raw.guides@.len()) {
            None => r == Ok::<Vec<G>, AppError>(raw.guides),
            Some(m) => r matches Err(e) && e@ == (ErrorKind::AiAnalysisFailed, m),
        },
{
    let n = raw.guides.len();
    if n == 0 || n > 3 {
        return Err(AppError::AiAnalysisFailed(count_message("가이드는 1~3개여야 하지만 ", n, "개입니다")));
    }
    Ok(raw.guides)
}

} // verus!
