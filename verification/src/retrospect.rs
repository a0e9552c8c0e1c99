//! The rules a retrospect's inputs are held to before anything is stored:
//! reference links, saved and submitted answers, and search keywords.
use vstd::prelude::*;
use crate::error::{AppError, ErrorKind};
use crate::retro_dto::{DraftItem, RetrospectMethod, SubmitAnswerItem, QUESTIONS_PER_RETROSPECT, REFERENCE_URL_MAX_LENGTH};
use crate::text::{append_chars, chars_of, is_blank, owned, str_eq, str_starts_with, string_from_chars, trim_str};

verus! {

/// The longest answer accepted, in characters.
pub const ANSWER_MAX_CHARS: usize = 1000;

/// The longest search keyword accepted, in characters, after trimming.
pub const KEYWORD_MAX_CHARS: usize = 100;

pub open spec fn duplicate_url_message() -> Seq<char> {
    "중복된 URL이 있습니다."@
}

pub open spec fn url_too_long_message() -> Seq<char> {
    "URL은 최대 2048자까지 허용됩니다."@
}

pub open spec fn invalid_url_message() -> Seq<char> {
    "유효하지 않은 URL 형식입니다."@
}

/// Whether two positions of `s` hold the same value.
pub open spec fn has_duplicate<T>(s: Seq<T>) -> bool {
    exists|i: int, j: int| 0 <= i < j < s.len() && s[i] == s[j]
}

/// What is wrong with the part of a link after its scheme, if anything: it
/// must be non-empty and hold a dot.
pub open spec fn host_problem(rest: Seq<char>) -> Option<Seq<char>> {
    if rest.len() == 0 || !rest.contains('.') {
        Some(invalid_url_message())
    } else {
        None
    }
}

/// What is wrong with one reference link, if anything.
pub open spec fn url_problem(u: Seq<char>) -> Option<Seq<char>> {
    if crate::retro_dto::byte_len(u) > REFERENCE_URL_MAX_LENGTH {
        Some(url_too_long_message())
    } else if crate::text::starts_with(u, "https://"@) {
        host_problem(u.skip(8))
    } else if crate::text::starts_with(u, "http://"@) {
        host_problem(u.skip(7))
    } else {
        Some(invalid_url_message())
    }
}

/// The problem of the first faulty link, in order.
pub open spec fn first_url_problem(urls: Seq<Seq<char>>) -> Option<Seq<char>>
    decreases urls.len(),
{
    if urls.len() == 0 {
        None
    } else {
        match url_problem(urls[0]) {
            Some(m) => Some(m),
            None => first_url_problem(urls.drop_first()),
        }
    }
}

/// No link has a problem exactly when the first faulty link is missing.
proof fn lemma_first_url_problem_none(urls: Seq<Seq<char>>)
    ensures
        first_url_problem(urls) is None <==> forall|i: int| 0 <= i < urls.len()
            ==> (#[trigger] url_problem(urls[i])) is None,
    decreases urls.len(),
{
    if urls.len() > 0 {
        lemma_first_url_problem_none(urls.drop_first());
        assert forall|i: int| 1 <= i < urls.len() implies url_problem(urls[i]) == url_problem(
            urls.drop_first()[i - 1],
        ) by {}
        if first_url_problem(urls.drop_first()) is None && url_problem(urls[0]) is None {
            assert forall|i: int| 0 <= i < urls.len() implies (#[trigger] url_problem(urls[i])) is None by {
                if i > 0 {
                    assert(url_problem(urls.drop_first()[i - 1]) is None);
                }
            }
        }
        if forall|i: int| 0 <= i < urls.len() ==> (#[trigger] url_problem(urls[i])) is None {
            assert(url_problem(urls[0]) is None);
            assert forall|i: int| 0 <= i < urls.drop_first().len() implies (#[trigger] url_problem(
                urls.drop_first()[i],
            )) is None by {
                assert(url_problem(urls[i + 1]) is None);
            }
        }
    }
}

/// Reference links are accepted exactly when no link repeats and each one is
/// well formed (at most 2048 bytes, `https://` or `http://`, a host with a dot);
/// a repeated link is refused with the duplicate message before anything else.
pub proof fn law_reference_urls_accepted(urls: Seq<Seq<char>>)
    ensures
        reference_urls_problem(urls) is None <==> (!has_duplicate(urls) && forall|i: int|
            0 <= i < urls.len() ==> (#[trigger] url_problem(urls[i])) is None),
        has_duplicate(urls) ==> reference_urls_problem(urls) == Some(duplicate_url_message()),
{
    lemma_first_url_problem_none(urls);
}

/// The views of a list of strings.
pub open spec fn views(v: Seq<String>) -> Seq<Seq<char>> {
    v.map_values(|s: String| s@)
}

/// Why a list of reference links is refused, if it is: a repeated link first,
/// then the first faulty link.
pub open spec fn reference_urls_problem(urls: Seq<Seq<char>>) -> Option<Seq<char>> {
    if has_duplicate(urls) {
        Some(duplicate_url_message())
    } else {
        first_url_problem(urls)
    }
}

/// The outcome a check owes for the problem it found, if any.
pub open spec fn outcome_of(p: Option<(ErrorKind, Seq<char>)>) -> Result<(), (ErrorKind, Seq<char>)> {
    match p {
        Some(e) => Err(e),
        None => Ok(()),
    }
}

proof fn lemma_first_url_problem_step(urls: Seq<Seq<char>>, k: int)
    requires
        0 <= k < urls.len(),
    ensures
        first_url_problem(urls.skip(k)) == (match url_problem(urls[k]) {
            Some(m) => Some(m),
            None => first_url_problem(urls.skip(k + 1)),
        }),
{
    assert(urls.skip(k)[0] == urls[k]);
    assert(urls.skip(k).drop_first() =~= urls.skip(k + 1));
}

/// Whether some string repeats in the list.
fn has_duplicate_strings(v: &[String]) -> (b: bool)
    ensures
        b == has_duplicate(views(v@)),
{
    let ghost vs = views(v@);
    let mut j: usize = 0;
    while j < v.len()
        invariant
            j <= v@.len(),
            vs == views(v@),
            vs.len() == v@.len(),
            forall|a: int, b: int| 0 <= a < b < j ==> vs[a] != vs[b],
        decreases v.len() - j,
    {
        let mut i: usize = 0;
        while i < j
            invariant
                i <= j < v@.len(),
                vs == views(v@),
                vs.len() == v@.len(),
                forall|a: int| 0 <= a < i ==> vs[a] != vs[j as int],
            decreases j - i,
        {
            if str_eq(v[i].as_str(), v[j].as_str()) {
                assert(vs[i as int] == vs[j as int]);
                return true;
            }
            i = i + 1;
        }
        j = j + 1;
    }
    false
}

/// Whether `c` occurs in `v` at or after position `from`.
fn has_char_from(v: &Vec<char>, from: usize, c: char) -> (b: bool)
    requires
        from <= v@.len(),
    ensures
        b == v@.skip(from as int).contains(c),
{
    let mut i: usize = from;
    while i < v.len()
        invariant
            from <= i <= v@.len(),
            forall|k: int| from <= k < i ==> v@[k] != c,
        decreases v.len() - i,
    {
        if v[i] == c {
            assert(v@.skip(from as int)[i - from] == c);
            return true;
        }
        i = i + 1;
    }
    proof {
        if v@.skip(from as int).contains(c) {
            let k = choose|k: int| 0 <= k < v@.skip(from as int).len() && v@.skip(from as int)[k] == c;
            assert(v@[from + k] == c);
        }
    }
    false
}

/// The problem of one link, as `url_problem` states it.
fn check_url(u: &str) -> (r: Option<&'static str>)
    ensures
        match r {
            Some(m) => url_problem(u@) == Some(m@),
            None => url_problem(u@) is None,
        },
{
    if u.as_bytes().len() > REFERENCE_URL_MAX_LENGTH {
        return Some("URL은 최대 2048자까지 허용됩니다.");
    }
    proof {
        reveal_strlit("https://");
        reveal_strlit("http://");
    }
    let v = chars_of(u);
    let skip: usize = if str_starts_with(u, "https://") {
        8
    } else if str_starts_with(u, "http://") {
        7
    } else {
        return Some("유효하지 않은 URL 형식입니다.");
    };
    if v.len() == skip || !has_char_from(&v, skip, '.') {
        Some("유효하지 않은 URL 형식입니다.")
    } else {
        None
    }
}

/// What is wrong with an answer's text, if anything: blank text first, then
/// text over the length limit.
pub open spec fn answer_problem(c: Seq<char>) -> Option<(ErrorKind, Seq<char>)> {
    if crate::text::all_ws(c) {
        Some((ErrorKind::RetroAnswerWhitespaceOnly, "답변 내용은 공백만으로 구성될 수 없습니다."@))
    } else if c.len() > ANSWER_MAX_CHARS {
        Some((ErrorKind::RetroAnswerTooLong, "답변은 1,000자를 초과할 수 없습니다."@))
    } else {
        None
    }
}

/// The problem of the first faulty answer, in order.
pub open spec fn first_answer_problem(a: Seq<SubmitAnswerItem>) -> Option<(ErrorKind, Seq<char>)>
    decreases a.len(),
{
    if a.len() == 0 {
        None
    } else {
        match answer_problem(a[0].content@) {
            Some(e) => Some(e),
            None => first_answer_problem(a.drop_first()),
        }
    }
}

/// Whether some answer is for question `q`.
pub open spec fn answers_question(a: Seq<SubmitAnswerItem>, q: int) -> bool {
    exists|i: int| 0 <= i < a.len() && #[trigger] a[i].question_number == q
}

/// Whether the question numbers of the answers are exactly 1 to 5.
pub open spec fn covers_all_questions(a: Seq<SubmitAnswerItem>) -> bool {
    &&& forall|i: int| 0 <= i < a.len() ==> 1 <= #[trigger] a[i].question_number <= 5
    &&& forall|q: int| 1 <= q <= 5 ==> #[trigger] answers_question(a, q)
}

pub open spec fn answers_missing_message() -> Seq<char> {
    "모든 질문에 대한 답변이 필요합니다."@
}

/// Why a submission is refused, if it is.
pub open spec fn answers_problem(a: Seq<SubmitAnswerItem>) -> Option<(ErrorKind, Seq<char>)> {
    if a.len() != 5 || !covers_all_questions(a) {
        Some((ErrorKind::RetroAnswersMissing, answers_missing_message()))
    } else {
        first_answer_problem(a)
    }
}

proof fn lemma_first_answer_problem_step(a: Seq<SubmitAnswerItem>, k: int)
    requires
        0 <= k < a.len(),
    ensures
        first_answer_problem(a.skip(k)) == (match answer_problem(a[k].content@) {
            Some(e) => Some(e),
            None => first_answer_problem(a.skip(k + 1)),
        }),
{
    assert(a.skip(k)[0] == a[k]);
    assert(a.skip(k).drop_first() =~= a.skip(k + 1));
}

/// Whether some question number repeats among the drafts.
pub open spec fn drafts_repeat_question(d: Seq<DraftItem>) -> bool {
    exists|i: int, j: int| 0 <= i < j < d.len() && d[i].question_number == d[j].question_number
}

/// Why a draft save is refused, if it is; the checks run in this order.
pub open spec fn drafts_problem(d: Seq<DraftItem>) -> Option<(ErrorKind, Seq<char>)> {
    if d.len() == 0 {
        Some((ErrorKind::BadRequest, "저장할 답변이 최소 1개 이상 필요합니다."@))
    } else if d.len() > 5 {
        Some((ErrorKind::BadRequest, "저장할 답변은 최대 5개까지 가능합니다."@))
    } else if drafts_repeat_question(d) {
        Some((ErrorKind::BadRequest, "중복된 질문 번호가 포함되어 있습니다."@))
    } else if exists|i: int| 0 <= i < d.len() && !(1 <= #[trigger] d[i].question_number <= 5) {
        Some((ErrorKind::BadRequest, "올바르지 않은 질문 번호입니다."@))
    } else if exists|i: int| 0 <= i < d.len() && (#[trigger] d[i].content matches Some(c) && c@.len() > ANSWER_MAX_CHARS) {
        Some((ErrorKind::RetroAnswerTooLong, "답변은 1,000자를 초과할 수 없습니다."@))
    } else {
        None
    }
}

/// The keyword a search runs with, or why it is refused.
pub open spec fn keyword_outcome(k: Seq<char>) -> Result<Seq<char>, (ErrorKind, Seq<char>)> {
    let t = crate::text::trim(k);
    if t.len() == 0 {
        Err((ErrorKind::SearchKeywordInvalid, "검색어를 입력해주세요."@))
    } else if t.len() > KEYWORD_MAX_CHARS {
        Err((ErrorKind::SearchKeywordInvalid, "검색어는 최대 100자까지 입력 가능합니다."@))
    } else {
        Ok(t)
    }
}

/// The short display name of a method.
pub open spec fn method_display_name(m: RetrospectMethod) -> Seq<char> {
    match m {
        RetrospectMethod::Kpt => "KPT"@,
        RetrospectMethod::FourL => "4L"@,
        RetrospectMethod::FiveF => "5F"@,
        RetrospectMethod::Pmi => "PMI"@,
        RetrospectMethod::Free => "Free"@,
    }
}

/// The checks a retrospect's inputs go through.
pub struct RetrospectService;

impl RetrospectService {
    /// Checks the reference links of a new retrospect: no link twice, and each
    /// at most 2048 bytes, starting with `https://` or `http://`, with a host
    /// that holds a dot.
    pub fn validate_reference_urls(urls: &[String]) -> (r: Result<(), AppError>)
        ensures
            crate::error::result_view(r) == outcome_of(match reference_urls_problem(views(urls@)) {
                Some(m) => Some((ErrorKind::RetroUrlInvalid, m)),
                None => None,
            }),
    {
        let ghost vs = views(urls@);
        if has_duplicate_strings(urls) {
            return Err(AppError::RetroUrlInvalid(owned("중복된 URL이 있습니다.")));
        }
        let mut i: usize = 0;
        assert(vs.skip(0) =~= vs);
        while i < urls.len()
            invariant
                i <= urls@.len(),
                !has_duplicate(vs),
                vs == views(urls@),
                vs.len() == urls@.len(),
                first_url_problem(vs) == first_url_problem(vs.skip(i as int)),
            decreases urls.len() - i,
        {
            proof {
                lemma_first_url_problem_step(vs, i as int);
                assert(vs[i as int] == urls@[i as int]@);
            }
            match check_url(urls[i].as_str()) {
                Some(m) => {
                    return Err(AppError::RetroUrlInvalid(owned(m)));
                },
                None => {},
            }
            i = i + 1;
        }
        assert(vs.skip(i as int).len() == 0);
        Ok(())
    }

    /// Checks a draft save: 1 to 5 drafts, no question twice, question numbers
    /// 1 to 5, and no content over 1000 characters.
    pub fn validate_drafts(drafts: &[DraftItem]) -> (r: Result<(), AppError>)
        ensures
            crate::error::result_view(r) == outcome_of(drafts_problem(drafts@)),
    {
        if drafts.len() == 0 {
            return Err(AppError::BadRequest(owned("저장할 답변이 최소 1개 이상 필요합니다.")));
        }
        if drafts.len() > 5 {
            return Err(AppError::BadRequest(owned("저장할 답변은 최대 5개까지 가능합니다.")));
        }
        let mut j: usize = 0;
        while j < drafts.len()
            invariant
                j <= drafts@.len(),
                1 <= drafts@.len() <= 5,
                forall|a: int, b: int| 0 <= a < b < j ==> drafts@[a].question_number != drafts@[b].question_number,
            decreases drafts.len() - j,
        {
            let mut i: usize = 0;
            while i < j
                invariant
                    i <= j < drafts@.len(),
                    1 <= drafts@.len() <= 5,
                    forall|a: int| 0 <= a < i ==> drafts@[a].question_number != drafts@[j as int].question_number,
                decreases j - i,
            {
                if drafts[i].question_number == drafts[j].question_number {
                    assert(drafts_repeat_question(drafts@)) by {
                        assert(drafts@[i as int].question_number == drafts@[j as int].question_number);
                    }
                    return Err(AppError::BadRequest(owned("중복된 질문 번호가 포함되어 있습니다.")));
                }
                i = i + 1;
            }
            j = j + 1;
        }
        let mut k: usize = 0;
        while k < drafts.len()
            invariant
                k <= drafts@.len(),
                1 <= drafts@.len() <= 5,
                !drafts_repeat_question(drafts@),
                forall|a: int| 0 <= a < k ==> 1 <= #[trigger] drafts@[a].question_number <= 5,
            decreases drafts.len() - k,
        {
            if drafts[k].question_number < 1 || drafts[k].question_number > 5 {
                assert(!(1 <= drafts@[k as int].question_number <= 5));
                return Err(AppError::BadRequest(owned("올바르지 않은 질문 번호입니다.")));
            }
            k = k + 1;
        }
        let mut m: usize = 0;
        while m < drafts.len()
            invariant
                m <= drafts@.len(),
                1 <= drafts@.len() <= 5,
                !drafts_repeat_question(drafts@),
                forall|a: int| 0 <= a < drafts@.len() ==> 1 <= #[trigger] drafts@[a].question_number <= 5,
                forall|a: int| 0 <= a < m ==> !(#[trigger] drafts@[a].content matches Some(c) && c@.len() > ANSWER_MAX_CHARS),
            decreases drafts.len() - m,
        {
            match &drafts[m].content {
                Some(c) => {
                    if c.as_str().unicode_len() > ANSWER_MAX_CHARS {
                        assert(drafts@[m as int].content matches Some(c) && c@.len() > ANSWER_MAX_CHARS);
                        return Err(AppError::RetroAnswerTooLong(owned("답변은 1,000자를 초과할 수 없습니다.")));
                    }
                },
                None => {},
            }
            m = m + 1;
        }
        Ok(())
    }

    /// Checks a submission: exactly five answers numbered 1 to 5, none blank
    /// and none over 1000 characters.
    pub fn validate_answers(answers: &[SubmitAnswerItem]) -> (r: Result<(), AppError>)
        ensures
            crate::error::result_view(r) == outcome_of(answers_problem(answers@)),
    {
        if answers.len() != 5 {
            return Err(AppError::RetroAnswersMissing(owned("모든 질문에 대한 답변이 필요합니다.")));
        }
        let mut k: usize = 0;
        while k < answers.len()
            invariant
                k <= answers@.len(),
                forall|a: int| 0 <= a < k ==> 1 <= #[trigger] answers@[a].question_number <= 5,
            decreases answers.len() - k,
        {
            if answers[k].question_number < 1 || answers[k].question_number > 5 {
                return Err(AppError::RetroAnswersMissing(owned("모든 질문에 대한 답변이 필요합니다.")));
            }
            k = k + 1;
        }
        let mut q: i32 = 1;
        while q <= 5
            invariant
                1 <= q <= 6,
                forall|a: int| 0 <= a < answers@.len() ==> 1 <= #[trigger] answers@[a].question_number <= 5,
                forall|p: int| 1 <= p < q ==> #[trigger] answers_question(answers@, p),
            decreases 6 - q,
        {
            let mut found = false;
            let mut i: usize = 0;
            while i < answers.len()
                invariant
                    i <= answers@.len(),
                    found ==> answers_question(answers@, q as int),
                    !found ==> forall|j: int| 0 <= j < i ==> #[trigger] answers@[j].question_number != q,
                decreases answers.len() - i,
            {
                if answers[i].question_number == q {
                    found = true;
                }
                i = i + 1;
            }
            if !found {
                proof {
                    assert(!answers_question(answers@, q as int));
                    assert(!covers_all_questions(answers@));
                }
                return Err(AppError::RetroAnswersMissing(owned("모든 질문에 대한 답변이 필요합니다.")));
            }
            q = q + 1;
        }
        let ghost a = answers@;
        let mut n: usize = 0;
        assert(a.skip(0) =~= a);
        while n < answers.len()
            invariant
                n <= a.len(),
                a == answers@,
                a.len() == 5,
                covers_all_questions(a),
                first_answer_problem(a) == first_answer_problem(a.skip(n as int)),
            decreases answers.len() - n,
        {
            proof {
                lemma_first_answer_problem_step(a, n as int);
            }
            let content = answers[n].content.as_str();
            if is_blank(content) {
                return Err(AppError::RetroAnswerWhitespaceOnly(owned("답변 내용은 공백만으로 구성될 수 없습니다.")));
            }
            if content.unicode_len() > ANSWER_MAX_CHARS {
                return Err(AppError::RetroAnswerTooLong(owned("답변은 1,000자를 초과할 수 없습니다.")));
            }
            n = n + 1;
        }
        assert(a.skip(n as int).len() == 0);
        Ok(())
    }

    /// The trimmed keyword of a search, if it has 1 to 100 characters.
    pub fn validate_search_keyword(keyword: &str) -> (r: Result<String, AppError>)
        ensures
            match (r, keyword_outcome(keyword@)) {
                (Ok(s), Ok(t)) => s@ == t,
                (Err(e), Err(p)) => e@ == p,
                _ => false,
            },
    {
        let trimmed = trim_str(keyword);
        let n = trimmed.as_str().unicode_len();
        if n == 0 {
            return Err(AppError::SearchKeywordInvalid(owned("검색어를 입력해주세요.")));
        }
        if n > KEYWORD_MAX_CHARS {
            return Err(AppError::SearchKeywordInvalid(owned("검색어는 최대 100자까지 입력 가능합니다.")));
        }
        Ok(trimmed)
    }

    /// The short name a method is shown with.
    pub fn retrospect_method_display(method: &RetrospectMethod) -> (r: String)
        ensures
            r@ == method_display_name(*method),
    {
        match method {
            RetrospectMethod::Kpt => owned("KPT"),
            RetrospectMethod::FourL => owned("4L"),
            RetrospectMethod::FiveF => owned("5F"),
            RetrospectMethod::Pmi => owned("PMI"),
            RetrospectMethod::Free => owned("Free"),
        }
    }
}

/// The drafts that save the given answers as they stand.
pub open spec fn as_drafts(a: Seq<SubmitAnswerItem>) -> Seq<DraftItem> {
    a.map_values(|x: SubmitAnswerItem| DraftItem { question_number: x.question_number, content: Some(x.content) })
}

proof fn lemma_no_answer_problem(a: Seq<SubmitAnswerItem>, i: int)
    requires
        first_answer_problem(a) is None,
        0 <= i < a.len(),
    ensures
        answer_problem(a[i].content@) is None,
    decreases a.len(),
{
    if i > 0 {
        assert(a.drop_first()[i - 1] == a[i]);
        lemma_no_answer_problem(a.drop_first(), i - 1);
    }
}

/// Five answers that cover the questions 1 to 5 are for distinct questions.
proof fn lemma_covering_answers_distinct(a: Seq<SubmitAnswerItem>)
    requires
        a.len() == 5,
        covers_all_questions(a),
    ensures
        forall|i: int, j: int| 0 <= i < j < a.len() ==> a[i].question_number != a[j].question_number,
{
    let qs = a.map_values(|x: SubmitAnswerItem| x.question_number as int);
    vstd::set_lib::lemma_int_range(1, 6);
    assert(vstd::set_lib::set_int_range(1, 6).subset_of(qs.to_set())) by {
        assert forall|q: int| #[trigger] vstd::set_lib::set_int_range(1, 6).contains(q) implies qs.to_set().contains(q) by {
            assert(answers_question(a, q));
            let i = choose|i: int| 0 <= i < a.len() && #[trigger] a[i].question_number == q;
            assert(qs[i] == q);
        }
    }
    vstd::seq_lib::seq_to_set_is_finite(qs);
    vstd::set_lib::lemma_len_subset(vstd::set_lib::set_int_range(1, 6), qs.to_set());
    qs.lemma_cardinality_of_set();
    qs.lemma_no_dup_set_cardinality();
    assert forall|i: int, j: int| 0 <= i < j < a.len() implies a[i].question_number != a[j].question_number by {
        assert(qs[i] != qs[j]);
    }
}

/// A submission that is accepted would also be accepted as a draft save of
/// the same answers.
pub proof fn accepted_submission_is_valid_draft(a: Seq<SubmitAnswerItem>)
    requires
        answers_problem(a) is None,
    ensures
        drafts_problem(as_drafts(a)) is None,
{
    let d = as_drafts(a);
    lemma_covering_answers_distinct(a);
    assert(!drafts_repeat_question(d)) by {
        if drafts_repeat_question(d) {
            let (i, j) = choose|i: int, j: int| 0 <= i < j < d.len() && d[i].question_number == d[j].question_number;
            assert(a[i].question_number == a[j].question_number);
        }
    }
    assert forall|i: int| 0 <= i < d.len() implies 1 <= #[trigger] d[i].question_number <= 5 by {
        assert(d[i].question_number == a[i].question_number);
    }
    assert forall|i: int| 0 <= i < d.len() implies !(#[trigger] d[i].content matches Some(c) && c@.len() > ANSWER_MAX_CHARS) by {
        lemma_no_answer_problem(a, i);
        assert(d[i].content == Some(a[i].content));
    }
}

/// The content a draft stores: its text, or nothing (which clears the answer).
pub open spec fn draft_content(d: DraftItem) -> Seq<char> {
    match d.content {
        Some(c) => c@,
        None => Seq::empty(),
    }
}

/// Whether draft `i` is the one for question `q` (from 1).
pub open spec fn draft_for(d: Seq<DraftItem>, q: int, i: int) -> bool {
    0 <= i < d.len() && d[i].question_number == q
}

/// The contents of the five questions after a draft save: each question a
/// draft names gets that draft's content; the others keep theirs.
pub open spec fn saved_contents(before: Seq<Seq<char>>, d: Seq<DraftItem>) -> Seq<Seq<char>> {
    Seq::new(before.len(), |k: int|
        if exists|i: int| #[trigger] draft_for(d, k + 1, i) {
            draft_content(d[choose|i: int| #[trigger] draft_for(d, k + 1, i)])
        } else {
            before[k]
        })
}

/// Writes accepted drafts into the five answer contents.
pub fn apply_drafts(contents: &mut Vec<String>, drafts: &[DraftItem])
    requires
        old(contents)@.len() == QUESTIONS_PER_RETROSPECT,
        drafts_problem(drafts@) is None,
    ensures
        views(final(contents)@) == saved_contents(views(old(contents)@), drafts@),
{
    let ghost before = views(contents@);
    let mut i: usize = 0;
    while i < drafts.len()
        invariant
            i <= drafts@.len(),
            contents@.len() == QUESTIONS_PER_RETROSPECT,
            before.len() == QUESTIONS_PER_RETROSPECT,
            drafts_problem(drafts@) is None,
            forall|k: int| 0 <= k < 5 ==> (#[trigger] views(contents@)[k]) == (
                if exists|j: int| 0 <= j < i && #[trigger] draft_for(drafts@, k + 1, j) {
                    draft_content(drafts@[choose|j: int| #[trigger] draft_for(drafts@, k + 1, j)])
                } else {
                    before[k]
                }),
        decreases drafts.len() - i,
    {
        let d = &drafts[i];
        assert(1 <= drafts@[i as int].question_number <= 5);
        let idx: usize = (d.question_number - 1) as usize;
        let text = match &d.content {
            Some(c) => c.clone(),
            None => String::new(),
        };
        let ghost prev = views(contents@);
        contents.set(idx, text);
        proof {
            assert forall|k: int| 0 <= k < 5 implies (#[trigger] views(contents@)[k]) == (
                if exists|j: int| 0 <= j < i + 1 && #[trigger] draft_for(drafts@, k + 1, j) {
                    draft_content(drafts@[choose|j: int| #[trigger] draft_for(drafts@, k + 1, j)])
                } else {
                    before[k]
                }) by {
                if k == idx as int {
                    assert(draft_for(drafts@, k + 1, i as int));
                    let c = choose|j: int| #[trigger] draft_for(drafts@, k + 1, j);
                    if c != i as int {
                        assert(drafts@[c].question_number == drafts@[i as int].question_number);
                        if c < i { assert(drafts_repeat_question(drafts@)); } else { assert(drafts_repeat_question(drafts@)); }
                    }
                    assert(views(contents@)[k] == contents@[k]@);
                } else {
                    assert(views(contents@)[k] == prev[k]);
                    if exists|j: int| 0 <= j < i + 1 && #[trigger] draft_for(drafts@, k + 1, j) {
                        let j = choose|j: int| 0 <= j < i + 1 && #[trigger] draft_for(drafts@, k + 1, j);
                        assert(j != i as int);
                        assert(exists|j: int| 0 <= j < i && #[trigger] draft_for(drafts@, k + 1, j));
                    }
                }
            }
        }
        i = i + 1;
    }
    proof {
        assert forall|k: int| 0 <= k < 5 implies #[trigger] views(contents@)[k] == saved_contents(before, drafts@)[k] by {
            if exists|j: int| #[trigger] draft_for(drafts@, k + 1, j) {
                let j = choose|j: int| #[trigger] draft_for(drafts@, k + 1, j);
                assert(0 <= j < i && draft_for(drafts@, k + 1, j));
            }
        }
        assert(views(contents@) =~= saved_contents(before, drafts@));
    }
}

/// The answer of question `q` (from 1) among accepted answers.
pub open spec fn answer_for(a: Seq<SubmitAnswerItem>, q: int) -> Seq<char> {
    a[choose|i: int| 0 <= i < a.len() && #[trigger] a[i].question_number == q].content@
}

/// Writes an accepted submission into the five answer contents.
pub fn apply_answers(contents: &mut Vec<String>, answers: &[SubmitAnswerItem])
    requires
        old(contents)@.len() == QUESTIONS_PER_RETROSPECT,
        answers_problem(answers@) is None,
    ensures
        final(contents)@.len() == QUESTIONS_PER_RETROSPECT,
        forall|k: int| 0 <= k < 5 ==> (#[trigger] final(contents)@[k])@ == answer_for(answers@, k + 1),
{
    proof {
        lemma_covering_answers_distinct(answers@);
    }
    let mut i: usize = 0;
    while i < answers.len()
        invariant
            i <= answers@.len(),
            answers@.len() == 5,
            contents@.len() == QUESTIONS_PER_RETROSPECT,
            covers_all_questions(answers@),
            forall|x: int, y: int| 0 <= x < y < answers@.len() ==> answers@[x].question_number != answers@[y].question_number,
            forall|k: int| 0 <= k < 5 && (exists|j: int| 0 <= j < i && #[trigger] answers@[j].question_number == k + 1)
                ==> (#[trigger] contents@[k])@ == answer_for(answers@, k + 1),
        decreases answers.len() - i,
    {
        let a = &answers[i];
        assert(1 <= answers@[i as int].question_number <= 5);
        let idx: usize = (a.question_number - 1) as usize;
        let ghost prev = contents@;
        contents.set(idx, a.content.clone());
        proof {
            assert forall|k: int| 0 <= k < 5 && (exists|j: int| 0 <= j < i + 1 && #[trigger] answers@[j].question_number == k + 1)
                implies (#[trigger] contents@[k])@ == answer_for(answers@, k + 1) by {
                let c = choose|c: int| 0 <= c < answers@.len() && #[trigger] answers@[c].question_number == k + 1;
                if k == idx as int {
                    assert(answers@[i as int].question_number == k + 1);
                    if c != i as int {
                        if c < i { assert(answers@[c].question_number != answers@[i as int].question_number); }
                        else { assert(answers@[i as int].question_number != answers@[c].question_number); }
                    }
                } else {
                    assert(contents@[k] == prev[k]);
                    let j = choose|j: int| 0 <= j < i + 1 && #[trigger] answers@[j].question_number == k + 1;
                    assert(j != i as int);
                }
            }
        }
        i = i + 1;
    }
    proof {
        assert forall|k: int| 0 <= k < 5 implies (#[trigger] contents@[k])@ == answer_for(answers@, k + 1) by {
            assert(answers_question(answers@, k + 1));
            let j = choose|j: int| 0 <= j < answers@.len() && #[trigger] answers@[j].question_number == k + 1;
            assert(exists|j: int| 0 <= j < i && #[trigger] answers@[j].question_number == k + 1);
        }
    }
}

/// A member may submit only once: a retrospect already submitted or analysed
/// is refused.
pub fn check_submission_allowed(status: crate::retro_dto::RetrospectStatus) -> (r: Result<(), AppError>)
    ensures
        status == crate::retro_dto::RetrospectStatus::Draft ==> r is Ok,
        status != crate::retro_dto::RetrospectStatus::Draft ==> (r matches Err(e)
            && e@ == (ErrorKind::RetroAlreadySubmitted, "이미 제출이 완료된 회고입니다."@)),
{
    match status {
        crate::retro_dto::RetrospectStatus::Draft => Ok(()),
        _ => Err(AppError::RetroAlreadySubmitted(owned("이미 제출이 완료된 회고입니다."))),
    }
}

/// The most analyses a team may run in a month.
pub const MONTHLY_ANALYSIS_LIMIT: u64 = 10;

/// The fewest non-blank answers an analysis needs.
pub const MIN_ANALYSIS_ANSWERS: usize = 3;

/// The number of non-blank texts.
pub open spec fn non_blank_count(v: Seq<String>) -> nat
    decreases v.len(),
{
    if v.len() == 0 {
        0
    } else {
        non_blank_count(v.drop_last()) + if crate::text::all_ws(v.last()@) { 0nat } else { 1nat }
    }
}

/// Why an analysis request is refused, if it is; the checks run in this order.
pub open spec fn analysis_request_problem(
    retrospect_id: i64,
    found: bool,
    already_analyzed: bool,
    is_team_member: bool,
    monthly_count: u64,
    submitted_members: usize,
    contents: Seq<String>,
) -> Option<(ErrorKind, Seq<char>)> {
    if retrospect_id < 1 {
        Some((ErrorKind::BadRequest, "유효하지 않은 회고 ID입니다."@))
    } else if !found {
        Some((ErrorKind::RetrospectNotFound, "존재하지 않는 회고 세션입니다."@))
    } else if already_analyzed {
        Some((ErrorKind::RetroAlreadyAnalyzed, "이미 분석이 완료된 회고입니다."@))
    } else if !is_team_member {
        Some((ErrorKind::TeamAccessDenied, "해당 회고에 접근 권한이 없습니다."@))
    } else if monthly_count >= MONTHLY_ANALYSIS_LIMIT {
        Some((ErrorKind::AiMonthlyLimitExceeded, "월간 분석 가능 횟수를 초과하였습니다."@))
    } else if submitted_members == 0 || non_blank_count(contents) < MIN_ANALYSIS_ANSWERS {
        Some((ErrorKind::RetroInsufficientData, "분석할 회고 답변 데이터가 부족합니다."@))
    } else {
        None
    }
}

/// The number of answers that are not blank.
pub fn count_non_blank(contents: &Vec<String>) -> (r: usize)
    ensures
        r == non_blank_count(contents@),
{
    let mut n: usize = 0;
    let mut i: usize = 0;
    while i < contents.len()
        invariant
            i <= contents@.len(),
            n == non_blank_count(contents@.take(i as int)),
            n <= i,
        decreases contents.len() - i,
    {
        assert(contents@.take(i as int + 1).drop_last() =~= contents@.take(i as int));
        if !is_blank(contents[i].as_str()) {
            n = n + 1;
        }
        i = i + 1;
    }
    assert(contents@.take(i as int) =~= contents@);
    n
}

impl RetrospectService {
    /// Decides whether an analysis may run: a valid id of an existing
    /// retrospect, not yet analysed, the caller in the team, the month's quota
    /// not used up, and at least one submission with three non-blank answers.
    pub fn check_analysis_request(
        retrospect_id: i64,
        found: bool,
        already_analyzed: bool,
        is_team_member: bool,
        monthly_count: u64,
        submitted_members: usize,
        contents: &Vec<String>,
    ) -> (r: Result<(), AppError>)
        ensures
            crate::error::result_view(r) == outcome_of(analysis_request_problem(
                retrospect_id, found, already_analyzed, is_team_member, monthly_count, submitted_members, contents@)),
    {
        if retrospect_id < 1 {
            return Err(AppError::BadRequest(owned("유효하지 않은 회고 ID입니다.")));
        }
        if !found {
            return Err(AppError::RetrospectNotFound(owned("존재하지 않는 회고 세션입니다.")));
        }
        if already_analyzed {
            return Err(AppError::RetroAlreadyAnalyzed(owned("이미 분석이 완료된 회고입니다.")));
        }
        if !is_team_member {
            return Err(AppError::TeamAccessDenied(owned("해당 회고에 접근 권한이 없습니다.")));
        }
        if monthly_count >= MONTHLY_ANALYSIS_LIMIT {
            return Err(AppError::AiMonthlyLimitExceeded(owned("월간 분석 가능 횟수를 초과하였습니다.")));
        }
        if submitted_members == 0 || count_non_blank(contents) < MIN_ANALYSIS_ANSWERS {
            return Err(AppError::RetroInsufficientData(owned("분석할 회고 답변 데이터가 부족합니다.")));
        }
        Ok(())
    }
}

/// The distinct values of a sequence, each where it first occurs.
pub open spec fn first_occurrences(s: Seq<Seq<char>>) -> Seq<Seq<char>>
    decreases s.len(),
{
    if s.len() == 0 {
        Seq::empty()
    } else {
        let d = first_occurrences(s.drop_last());
        if d.contains(s.last()) { d } else { d.push(s.last()) }
    }
}

/// The questions a retrospect shows: its distinct question texts in order, at
/// most five, numbered from 1.
pub open spec fn shown_questions(questions: Seq<Seq<char>>) -> Seq<Seq<char>> {
    let d = first_occurrences(questions);
    if d.len() <= 5 { d } else { d.take(5) }
}

/// The distinct texts of a list, each where it first occurs.
pub fn distinct_texts(texts: &Vec<String>) -> (r: Vec<String>)
    ensures
        views(r@) == first_occurrences(views(texts@)),
{
    let ghost qs = views(texts@);
    let mut distinct: Vec<String> = Vec::new();
    let mut i: usize = 0;
    assert(qs.take(0) =~= Seq::<Seq<char>>::empty());
    while i < texts.len()
        invariant
            i <= texts@.len(),
            qs == views(texts@),
            views(distinct@) == first_occurrences(qs.take(i as int)),
        decreases texts.len() - i,
    {
        let q = texts[i].as_str();
        let mut found = false;
        let mut j: usize = 0;
        while j < distinct.len()
            invariant
                j <= distinct@.len(),
                found <==> exists|k: int| 0 <= k < j && views(distinct@)[k] == q@,
            decreases distinct.len() - j,
        {
            if str_eq(distinct[j].as_str(), q) {
                found = true;
            }
            assert(views(distinct@)[j as int] == distinct@[j as int]@);
            j = j + 1;
        }
        proof {
            let t = qs.take(i as int + 1);
            assert(t.drop_last() =~= qs.take(i as int));
            assert(t.last() == qs[i as int]);
            assert(qs[i as int] == texts@[i as int]@);
            assert(found <==> views(distinct@).contains(q@));
        }
        if !found {
            let ghost before = distinct@;
            distinct.push(owned(q));
            assert(views(distinct@) =~= views(before).push(q@));
        }
        i = i + 1;
    }
    assert(qs.take(i as int) =~= qs);
    distinct
}

/// Lists the questions of a retrospect from its answers' question texts.
pub fn question_items(questions: &Vec<String>) -> (r: Vec<crate::retro_dto::RetrospectQuestionItem>)
    ensures
        r@.len() == shown_questions(views(questions@)).len(),
        forall|i: int| 0 <= i < r@.len() ==> (#[trigger] r@[i]).index == i + 1
            && r@[i].content@ == shown_questions(views(questions@))[i],
{
    let ghost qs = views(questions@);
    let distinct = distinct_texts(questions);
    let mut out: Vec<crate::retro_dto::RetrospectQuestionItem> = Vec::new();
    let mut k: usize = 0;
    while k < distinct.len() && k < 5
        invariant
            k <= distinct@.len(),
            k <= 5,
            views(distinct@) == first_occurrences(qs),
            out@.len() == k,
            forall|m: int| 0 <= m < k ==> (#[trigger] out@[m]).index == m + 1
                && out@[m].content@ == views(distinct@)[m],
        decreases distinct.len() - k,
    {
        assert(views(distinct@)[k as int] == distinct@[k as int]@);
        out.push(crate::retro_dto::RetrospectQuestionItem { index: (k + 1) as i32, content: distinct[k].clone() });
        k = k + 1;
    }
    out
}

/// The name a member id has in a list of (id, name) pairs: the last pair
/// with that id.
pub open spec fn name_of(members: Seq<(i64, String)>, id: i64) -> Option<Seq<char>>
    decreases members.len(),
{
    if members.len() == 0 {
        None
    } else if members.last().0 == id {
        Some(members.last().1@)
    } else {
        name_of(members.drop_last(), id)
    }
}

/// The participants shown, in registration order: those whose name is known.
pub open spec fn shown_members(ids: Seq<i64>, members: Seq<(i64, String)>) -> Seq<(i64, Seq<char>)>
    decreases ids.len(),
{
    if ids.len() == 0 {
        Seq::empty()
    } else {
        let rest = shown_members(ids.drop_last(), members);
        match name_of(members, ids.last()) {
            Some(n) => rest.push((ids.last(), n)),
            None => rest,
        }
    }
}

pub(crate) fn find_name(members: &Vec<(i64, String)>, id: i64) -> (r: Option<String>)
    ensures
        match r {
            Some(n) => name_of(members@, id) == Some(n@),
            None => name_of(members@, id) is None,
        },
{
    let mut i: usize = members.len();
    assert(members@.take(i as int) =~= members@);
    while i > 0
        invariant
            i <= members@.len(),
            name_of(members@, id) == name_of(members@.take(i as int), id),
        decreases i,
    {
        proof {
            let t = members@.take(i as int);
            assert(t.drop_last() =~= members@.take(i as int - 1));
            assert(t.last() == members@[i as int - 1]);
        }
        if members[i - 1].0 == id {
            return Some(members[i - 1].1.clone());
        }
        i = i - 1;
    }
    None
}

/// Lists the participants of a retrospect in registration order, skipping
/// ids without a known name.
pub fn member_items(ids: &Vec<i64>, members: &Vec<(i64, String)>) -> (r: Vec<crate::retro_dto::RetrospectMemberItem>)
    ensures
        r@.len() == shown_members(ids@, members@).len(),
        forall|i: int| 0 <= i < r@.len() ==> (#[trigger] r@[i]).member_id == shown_members(ids@, members@)[i].0
            && r@[i].user_name@ == shown_members(ids@, members@)[i].1,
{
    let mut out: Vec<crate::retro_dto::RetrospectMemberItem> = Vec::new();
    let mut i: usize = 0;
    assert(members@.take(members@.len() as int) =~= members@);
    while i < ids.len()
        invariant
            i <= ids@.len(),
            out@.len() == shown_members(ids@.take(i as int), members@).len(),
            forall|k: int| 0 <= k < out@.len() ==> (#[trigger] out@[k]).member_id == shown_members(ids@.take(i as int), members@)[k].0
                && out@[k].user_name@ == shown_members(ids@.take(i as int), members@)[k].1,
        decreases ids.len() - i,
    {
        proof {
            let t = ids@.take(i as int + 1);
            assert(t.drop_last() =~= ids@.take(i as int));
            assert(t.last() == ids@[i as int]);
        }
        match find_name(members, ids[i]) {
            Some(n) => {
                out.push(crate::retro_dto::RetrospectMemberItem { member_id: ids[i], user_name: n });
            },
            None => {},
        }
        i = i + 1;
    }
    assert(ids@.take(i as int) =~= ids@);
    out
}

/// The personal insight stored for a member: `title: description` for each
/// mission, one per line.
pub open spec fn insight_text(ms: Seq<crate::retro_dto::MissionItem>) -> Seq<char>
    decreases ms.len(),
{
    if ms.len() == 0 {
        Seq::empty()
    } else if ms.len() == 1 {
        ms[0].mission_title@ + ": "@ + ms[0].mission_desc@
    } else {
        insight_text(ms.drop_last()) + "\n"@ + ms.last().mission_title@ + ": "@ + ms.last().mission_desc@
    }
}

/// Writes the personal insight of a member's missions.
pub fn personal_insight(missions: &Vec<crate::retro_dto::MissionItem>) -> (r: String)
    ensures
        r@ == insight_text(missions@),
{
    let mut out: Vec<char> = Vec::new();
    let mut i: usize = 0;
    while i < missions.len()
        invariant
            i <= missions@.len(),
            out@ == insight_text(missions@.take(i as int)),
        decreases missions.len() - i,
    {
        let m = &missions[i];
        if i > 0 {
            append_chars(&mut out, &chars_of("\n"));
        }
        append_chars(&mut out, &chars_of(m.mission_title.as_str()));
        append_chars(&mut out, &chars_of(": "));
        append_chars(&mut out, &chars_of(m.mission_desc.as_str()));
        proof {
            let t = missions@.take(i as int + 1);
            assert(t.drop_last() =~= missions@.take(i as int));
            assert(t.last() == missions@[i as int]);
            if i == 0 {
                assert(t.len() == 1 && t[0] == missions@[0]);
            }
        }
        i = i + 1;
    }
    assert(missions@.take(i as int) =~= missions@);
    string_from_chars(out.as_slice())
}

/// `base` without its trailing slashes.
pub open spec fn without_trailing_slashes(base: Seq<char>) -> Seq<char>
    decreases base.len(),
{
    if base.len() > 0 && base.last() == '/' { without_trailing_slashes(base.drop_last()) } else { base }
}

/// The invitation link of a room: the base URL without trailing slashes,
/// then `/room/` and the room's code.
pub fn invitation_url(base_url: &str, code: &str) -> (r: String)
    ensures
        r@ == without_trailing_slashes(base_url@) + "/room/"@ + code@,
{
    let v = chars_of(base_url);
    let mut n: usize = v.len();
    assert(v@.take(n as int) =~= v@);
    while n > 0 && v[n - 1] == '/'
        invariant
            n <= v@.len(),
            without_trailing_slashes(v@) == without_trailing_slashes(v@.take(n as int)),
        decreases n,
    {
        assert(v@.take(n as int).drop_last() =~= v@.take(n as int - 1));
        n = n - 1;
    }
    let mut out = crate::text::slice_chars(&v, 0, n);
    assert(out@ =~= v@.take(n as int));
    append_chars(&mut out, &chars_of("/room/"));
    append_chars(&mut out, &chars_of(code));
    string_from_chars(out.as_slice())
}

/// A fresh invitation link for a new room: `invitation_url` of the base and a
/// random UUID as the room's code.
pub fn new_invitation_url(base_url: &str) -> (r: String)
    ensures
        exists|code: Seq<char>| crate::event::is_v4_uuid_text(code) && r@ == without_trailing_slashes(base_url@) + "/room/"@ + code,
{
    let code = crate::event::new_uuid_string();
    let r = invitation_url(base_url, code.as_str());
    assert(r@ == without_trailing_slashes(base_url@) + "/room/"@ + code@);
    r
}

/// Whether the members' missions are ordered by user id.
pub open spec fn sorted_by_user(v: Seq<crate::retro_dto::PersonalMissionItem>) -> bool {
    forall|i: int, j: int| 0 <= i < j < v.len() ==> v[i].user_id <= v[j].user_id
}

/// Whether a member's missions belong to a user.
pub open spec fn user_is(id: i64) -> spec_fn(crate::retro_dto::PersonalMissionItem) -> bool {
    |x: crate::retro_dto::PersonalMissionItem| x.user_id == id
}

/// The entries of one user, in their order.
pub open spec fn of_user(v: Seq<crate::retro_dto::PersonalMissionItem>, id: i64) -> Seq<crate::retro_dto::PersonalMissionItem> {
    v.filter(user_is(id))
}

/// Orders the members' missions by user id; the entries of one user keep
/// their order.
pub fn sort_by_user_id(items: Vec<crate::retro_dto::PersonalMissionItem>) -> (r: Vec<crate::retro_dto::PersonalMissionItem>)
    ensures
        sorted_by_user(r@),
        forall|id: i64| #[trigger] of_user(r@, id) == of_user(items@, id),
        r@.to_multiset() == items@.to_multiset(),
{
    let mut out: Vec<crate::retro_dto::PersonalMissionItem> = Vec::new();
    let mut rest = items;
    let ghost original = rest@;
    let mut taken: usize = 0;
    assert(original.take(0) =~= Seq::<crate::retro_dto::PersonalMissionItem>::empty());
    assert(original.len() == rest.len());
    proof {
        assert forall|id: i64| #[trigger] of_user(out@, id) == of_user(original.take(0), id) by {
            reveal(Seq::filter);
        }
    }
    while rest.len() > 0
        invariant
            sorted_by_user(out@),
            original.len() == taken + rest@.len(),
            original.len() <= usize::MAX,
            rest@ == original.skip(taken as int),
            out@.to_multiset() == original.take(taken as int).to_multiset(),
            forall|id: i64| #[trigger] of_user(out@, id) == of_user(original.take(taken as int), id),
        decreases rest.len(),
    {
        let x = rest.remove(0);
        proof {
            assert(x == original[taken as int]);
            assert(rest@ =~= original.skip(taken as int + 1));
        }
        let mut pos: usize = out.len();
        while pos > 0 && out[pos - 1].user_id > x.user_id
            invariant
                pos <= out@.len(),
                forall|k: int| pos <= k < out@.len() ==> out@[k].user_id > x.user_id,
            decreases pos,
        {
            pos = pos - 1;
        }
        let ghost before = out@;
        out.insert(pos, x);
        proof {
            assert(out@ == before.insert(pos as int, x));
            vstd::seq_lib::to_multiset_insert(before, pos as int, x);
            let t = original.take(taken as int + 1);
            assert(t =~= original.take(taken as int).push(x));
            vstd::seq_lib::to_multiset_build(original.take(taken as int), x);
            assert forall|i: int, j: int| 0 <= i < j < out@.len() implies out@[i].user_id <= out@[j].user_id by {
                if j < pos {
                    assert(out@[i] == before[i] && out@[j] == before[j]);
                } else if j == pos {
                    if i < pos {
                        assert(out@[i] == before[i]);
                        if pos > 0 {
                            assert(before[pos - 1].user_id <= x.user_id);
                            if i < pos - 1 {
                                assert(before[i].user_id <= before[pos - 1].user_id);
                            }
                        }
                    }
                } else if i == pos {
                    assert(out@[j] == before[j - 1]);
                } else if i < pos {
                    assert(out@[i] == before[i] && out@[j] == before[j - 1]);
                } else {
                    assert(out@[i] == before[i - 1] && out@[j] == before[j - 1]);
                }
            }
            assert forall|id: i64| #[trigger] of_user(out@, id) == of_user(t, id) by {
                assert(of_user(before, id) == of_user(original.take(taken as int), id));
                assert(of_user(out@, id) == before.insert(pos as int, x).filter(user_is(id)));
                assert(of_user(t, id) == original.take(taken as int).push(x).filter(user_is(id)));
                original.take(taken as int).lemma_filter_push(x, user_is(id));
                if x.user_id == id {
                    crate::stable::lemma_filter_insert_after_matches(before, pos as int, x, user_is(id));
                } else {
                    crate::stable::lemma_filter_insert_unmatched(before, pos as int, x, user_is(id));
                }
            }
        }
        taken = taken + 1;
    }
    assert(original.take(taken as int) =~= original);
    out
}

/// The team insight an analysis reports.
pub open spec fn analysis_team_insight() -> Seq<char> {
    "이번 회고에서 팀은 목표 의식은 분명했지만, 에너지 관리 측면에서 아쉬움이 있었습니다."@
}

/// The emotions an analysis ranks, as (rank, label, description, count).
pub open spec fn analysis_emotions() -> Seq<(i32, Seq<char>, Seq<char>, i32)> {
    seq![
        (1i32, "피로"@, "짧은 스프린트로 인해 팀 전반에 피로도가 높게 나타났습니다."@, 6i32),
        (2i32, "뿌듯"@, "목표 달성에 대한 성취감을 느끼는 팀원이 많았습니다."@, 4i32),
        (3i32, "불안"@, "다음 스프린트에 대한 부담감을 가진 팀원들이 있었습니다."@, 2i32),
    ]
}

/// The missions an analysis gives each member, as (title, description).
pub open spec fn analysis_missions() -> Seq<(Seq<char>, Seq<char>)> {
    seq![
        ("감정 표현 적극적으로 하기"@, "활발한 협업은 좋았으나 감정 공유를 늘리면 팀 응집력이 더 높아질 것입니다."@),
        ("스프린트 분량 조절하기"@, "작은 PR 단위로 나누어 업무를 분배하면 효율적인 리뷰가 가능합니다."@),
        ("피드백 즉각 공유하기"@, "즉각적인 응답과 활발한 코드 리뷰로 협업 속도를 높여보세요."@),
    ]
}

pub open spec fn emotions_view(v: Seq<crate::retro_dto::EmotionRankItem>) -> Seq<(i32, Seq<char>, Seq<char>, i32)> {
    v.map_values(|e: crate::retro_dto::EmotionRankItem| (e.rank, e.label@, e.description@, e.count))
}

pub open spec fn missions_view(v: Seq<crate::retro_dto::MissionItem>) -> Seq<(Seq<char>, Seq<char>)> {
    v.map_values(|m: crate::retro_dto::MissionItem| (m.mission_title@, m.mission_desc@))
}

/// A member's missions as an analysis reports them.
pub open spec fn is_analysis_mission(p: crate::retro_dto::PersonalMissionItem, shown: Seq<(i64, Seq<char>)>) -> bool {
    shown.contains((p.user_id, p.user_name@)) && missions_view(p.missions@) == analysis_missions()
}

/// Whether a member (id, name) has an entry among the missions.
pub open spec fn mission_listed(ms: Seq<crate::retro_dto::PersonalMissionItem>, member: (i64, Seq<char>)) -> bool {
    exists|k: int| 0 <= k < ms.len() && (#[trigger] ms[k]).user_id == member.0 && ms[k].user_name@ == member.1
}

fn mission(title: &str, desc: &str) -> (r: crate::retro_dto::MissionItem)
    ensures
        r.mission_title@ == title@,
        r.mission_desc@ == desc@,
{
    crate::retro_dto::MissionItem { mission_title: owned(title), mission_desc: owned(desc) }
}

fn analysis_mission_list() -> (r: Vec<crate::retro_dto::MissionItem>)
    ensures
        missions_view(r@) == analysis_missions(),
{
    let mut v: Vec<crate::retro_dto::MissionItem> = Vec::new();
    v.push(mission("감정 표현 적극적으로 하기", "활발한 협업은 좋았으나 감정 공유를 늘리면 팀 응집력이 더 높아질 것입니다."));
    v.push(mission("스프린트 분량 조절하기", "작은 PR 단위로 나누어 업무를 분배하면 효율적인 리뷰가 가능합니다."));
    v.push(mission("피드백 즉각 공유하기", "즉각적인 응답과 활발한 코드 리뷰로 협업 속도를 높여보세요."));
    assert(missions_view(v@) =~= analysis_missions());
    v
}

fn emotion(rank: i32, label: &str, description: &str, count: i32) -> (r: crate::retro_dto::EmotionRankItem)
    ensures
        (r.rank, r.label@, r.description@, r.count) == (rank, label@, description@, count),
{
    crate::retro_dto::EmotionRankItem { rank, label: owned(label), description: owned(description), count }
}

impl RetrospectService {
    /// The result of analysing a retrospect: the team insight, the ranked
    /// emotions, and for each submitting member whose name is known (ids in
    /// submission order) the missions, ordered by member id.
    pub fn analysis_result(submitted: &Vec<i64>, members: &Vec<(i64, String)>) -> (r: crate::retro_dto::AnalysisResponse)
        ensures
            r.team_insight@ == analysis_team_insight(),
            emotions_view(r.emotion_rank@) == analysis_emotions(),
            sorted_by_user(r.personal_missions@),
            r.personal_missions@.len() == shown_members(submitted@, members@).len(),
            forall|k: int| 0 <= k < r.personal_missions@.len()
                ==> is_analysis_mission(#[trigger] r.personal_missions@[k], shown_members(submitted@, members@)),
            forall|j: int| 0 <= j < shown_members(submitted@, members@).len()
                ==> mission_listed(r.personal_missions@, #[trigger] shown_members(submitted@, members@)[j]),
    {
        let mut emotions: Vec<crate::retro_dto::EmotionRankItem> = Vec::new();
        emotions.push(emotion(1, "피로", "짧은 스프린트로 인해 팀 전반에 피로도가 높게 나타났습니다.", 6));
        emotions.push(emotion(2, "뿌듯", "목표 달성에 대한 성취감을 느끼는 팀원이 많았습니다.", 4));
        emotions.push(emotion(3, "불안", "다음 스프린트에 대한 부담감을 가진 팀원들이 있었습니다.", 2));
        assert(emotions_view(emotions@) =~= analysis_emotions());
        let ghost shown = shown_members(submitted@, members@);
        let named = member_items(submitted, members);
        let mut list: Vec<crate::retro_dto::PersonalMissionItem> = Vec::new();
        let mut i: usize = 0;
        while i < named.len()
            invariant
                i <= named@.len(),
                named@.len() == shown.len(),
                forall|m: int| 0 <= m < named@.len() ==> (#[trigger] named@[m]).member_id == shown[m].0
                    && named@[m].user_name@ == shown[m].1,
                list@.len() == i,
                forall|m: int| 0 <= m < i ==> (#[trigger] list@[m]).user_id == shown[m].0
                    && list@[m].user_name@ == shown[m].1
                    && missions_view(list@[m].missions@) == analysis_missions(),
            decreases named.len() - i,
        {
            list.push(crate::retro_dto::PersonalMissionItem {
                user_id: named[i].member_id,
                user_name: named[i].user_name.clone(),
                missions: analysis_mission_list(),
            });
            i = i + 1;
        }
        let ghost before = list@;
        let sorted = sort_by_user_id(list);
        proof {
            broadcast use vstd::seq_lib::group_to_multiset_ensures;
            assert(before.len() == shown.len());
            assert(sorted@.len() == sorted@.to_multiset().len());
            assert(before.len() == before.to_multiset().len());
            assert forall|k: int| 0 <= k < sorted@.len() implies is_analysis_mission(#[trigger] sorted@[k], shown) by {
                assert(sorted@.to_multiset().count(sorted@[k]) > 0);
                assert(before.contains(sorted@[k]));
                let m = choose|m: int| 0 <= m < before.len() && before[m] == sorted@[k];
                assert(shown[m] == (sorted@[k].user_id, sorted@[k].user_name@));
            }
            assert forall|j: int| 0 <= j < shown.len() implies mission_listed(sorted@, #[trigger] shown[j]) by {
                assert(before.contains(before[j]));
                assert(before.to_multiset().count(before[j]) > 0);
                assert(sorted@.contains(before[j]));
                let k = choose|k: int| 0 <= k < sorted@.len() && sorted@[k] == before[j];
                assert(sorted@[k].user_id == shown[j].0);
            }
        }
        crate::retro_dto::AnalysisResponse {
            team_insight: owned("이번 회고에서 팀은 목표 의식은 분명했지만, 에너지 관리 측면에서 아쉬움이 있었습니다."),
            emotion_rank: emotions,
            personal_missions: sorted,
        }
    }
}

/// The personal insight stored for a member after an analysis: the
/// `personal_insight` of the first mission entry for that member, if any.
pub open spec fn insight_for(ms: Seq<crate::retro_dto::PersonalMissionItem>, member_id: i64) -> Option<Seq<char>>
    decreases ms.len(),
{
    if ms.len() == 0 {
        None
    } else if ms[0].user_id == member_id {
        Some(insight_text(ms[0].missions@))
    } else {
        insight_for(ms.drop_first(), member_id)
    }
}

/// Finds `insight_for`.
pub fn personal_insight_for(ms: &Vec<crate::retro_dto::PersonalMissionItem>, member_id: i64) -> (r: Option<String>)
    ensures
        match r {
            Some(t) => insight_for(ms@, member_id) == Some(t@),
            None => insight_for(ms@, member_id) is None,
        },
{
    let mut i: usize = 0;
    assert(ms@.skip(0) =~= ms@);
    while i < ms.len()
        invariant
            i <= ms@.len(),
            insight_for(ms@, member_id) == insight_for(ms@.skip(i as int), member_id),
        decreases ms.len() - i,
    {
        assert(ms@.skip(i as int)[0] == ms@[i as int]);
        assert(ms@.skip(i as int).drop_first() =~= ms@.skip(i as int + 1));
        if ms[i].user_id == member_id {
            return Some(personal_insight(&ms[i].missions));
        }
        i = i + 1;
    }
    None
}

/// The answer to a caller who may not see a retrospect: the same whether it
/// is missing or belongs to another team.
pub open spec fn hidden_retrospect_message() -> Seq<char> {
    "존재하지 않는 회고이거나 접근 권한이 없습니다."@
}

impl RetrospectService {
    /// Lets a caller reach a retrospect only when it exists and the caller is
    /// in its team; otherwise `RetrospectNotFound` either way.
    pub fn check_member_access(found: bool, is_team_member: bool) -> (r: Result<(), AppError>)
        ensures
            r is Ok <==> (found && is_team_member),
            r matches Err(e) ==> e@ == (ErrorKind::RetrospectNotFound, hidden_retrospect_message()),
    {
        if !found || !is_team_member {
            return Err(AppError::RetrospectNotFound(owned("존재하지 않는 회고이거나 접근 권한이 없습니다.")));
        }
        Ok(())
    }

    /// Lets a caller list a team's retrospects: the team must exist
    /// (`TeamNotFound`), then the caller must be in it (`TeamAccessDenied`).
    pub fn check_team_listing(team_found: bool, is_member: bool) -> (r: Result<(), AppError>)
        ensures
            !team_found ==> (r matches Err(e) && e@ == (ErrorKind::TeamNotFound, "존재하지 않는 팀입니다."@)),
            team_found && !is_member ==> (r matches Err(e) && e@ == (ErrorKind::TeamAccessDenied, "해당 팀에 접근 권한이 없습니다."@)),
            r is Ok <==> (team_found && is_member),
    {
        if !team_found {
            return Err(AppError::TeamNotFound(owned("존재하지 않는 팀입니다.")));
        }
        if !is_member {
            return Err(AppError::TeamAccessDenied(owned("해당 팀에 접근 권한이 없습니다.")));
        }
        Ok(())
    }

    /// Lets a caller create a retrospect in a team: the team must exist
    /// (`TeamNotFound`), then the caller must be in it (`TeamAccessDenied`).
    pub fn check_team_creation(team_found: bool, is_member: bool) -> (r: Result<(), AppError>)
        ensures
            !team_found ==> (r matches Err(e) && e@ == (ErrorKind::TeamNotFound, "존재하지 않는 팀입니다."@)),
            team_found && !is_member ==> (r matches Err(e) && e@ == (ErrorKind::TeamAccessDenied, "해당 팀의 멤버가 아닙니다."@)),
            r is Ok <==> (team_found && is_member),
    {
        if !team_found {
            return Err(AppError::TeamNotFound(owned("존재하지 않는 팀입니다.")));
        }
        if !is_member {
            return Err(AppError::TeamAccessDenied(owned("해당 팀의 멤버가 아닙니다.")));
        }
        Ok(())
    }

    /// Lets a member join a retrospect that has not started yet (start after
    /// the present moment in Korean time, both in seconds of the same
    /// reckoning) and that they have not joined before.
    pub fn check_participation(start: i64, now_kst: i64, already_joined: bool) -> (r: Result<(), AppError>)
        ensures
            start <= now_kst ==> (r matches Err(e) && e@ == (ErrorKind::RetrospectAlreadyStarted,
                "이미 시작되었거나 종료된 회고에는 참석할 수 없습니다."@)),
            start > now_kst && already_joined ==> (r matches Err(e) && e@ == (ErrorKind::ParticipantDuplicate,
                "이미 참석자로 등록되어 있습니다."@)),
            r is Ok <==> (start > now_kst && !already_joined),
    {
        if start <= now_kst {
            return Err(AppError::RetrospectAlreadyStarted(owned("이미 시작되었거나 종료된 회고에는 참석할 수 없습니다.")));
        }
        if already_joined {
            return Err(AppError::ParticipantDuplicate(owned("이미 참석자로 등록되어 있습니다.")));
        }
        Ok(())
    }

    /// `check_participation` against the present moment in Korean time.
    pub fn participation_allowed(start: i64, already_joined: bool) -> (r: Result<(), AppError>)
        ensures
            r matches Err(e) ==> e@.0 == ErrorKind::RetrospectAlreadyStarted || (already_joined
                && e@ == (ErrorKind::ParticipantDuplicate, "이미 참석자로 등록되어 있습니다."@)),
            r is Ok ==> !already_joined,
    {
        let now_kst = match crate::event::utc_now_unix_secs().checked_add(crate::calendar::KST_OFFSET_SECS) {
            Some(t) => t,
            None => i64::MAX,
        };
        Self::check_participation(start, now_kst, already_joined)
    }

    /// What a failed participant insert is reported as: a duplicate where the
    /// database's message (lowercased) speaks of `duplicate`, `unique` or
    /// `constraint`, else an internal error with the message.
    pub fn participant_insert_error(message: &str) -> (r: AppError)
        ensures
            ({
                let l = crate::text::lowercase(message@);
                if crate::text::contains(l, "duplicate"@) || crate::text::contains(l, "unique"@)
                    || crate::text::contains(l, "constraint"@) {
                    r@ == (ErrorKind::ParticipantDuplicate, "이미 참석자로 등록되어 있습니다."@)
                } else {
                    r@ == (ErrorKind::InternalError, message@)
                }
            }),
    {
        let l = crate::text::to_lower(message);
        if crate::text::str_contains(l.as_str(), "duplicate") || crate::text::str_contains(l.as_str(), "unique")
            || crate::text::str_contains(l.as_str(), "constraint") {
            AppError::ParticipantDuplicate(owned("이미 참석자로 등록되어 있습니다."))
        } else {
            AppError::InternalError(owned(message))
        }
    }
}

/// The nickname a new participant is shown under: the part of the e-mail
/// address before the first `@` (all of it where there is none).
pub open spec fn email_nickname(email: Seq<char>) -> Seq<char> {
    crate::parse::split_on(email, '@')[0]
}

/// Computes `email_nickname`.
pub fn nickname_from_email(email: &str) -> (r: String)
    ensures
        r@ == email_nickname(email@),
{
    let v = chars_of(email);
    let pieces = crate::parse::split_chars(&v, '@');
    proof {
        crate::parse::lemma_split_nonempty(v@, '@');
        assert(pieces@.map_values(|p: Vec<char>| p@)[0] == pieces@[0]@);
    }
    string_from_chars(pieces[0].as_slice())
}

/// One row of a team's retrospect list.
pub fn team_list_item(
    retrospect_id: i64,
    title: String,
    method: RetrospectMethod,
    start_time: i64,
) -> (r: crate::retro_dto::TeamRetrospectListItem)
    ensures
        r.retrospect_id == retrospect_id,
        r.project_name == title,
        r.retrospect_method == method,
        r.retrospect_date@ == crate::calendar::chrono_naive_text(start_time as int, "%Y-%m-%d"@),
        r.retrospect_time@ == crate::calendar::chrono_naive_text(start_time as int, "%H:%M"@),
{
    crate::retro_dto::TeamRetrospectListItem {
        retrospect_id,
        project_name: title,
        retrospect_method: method,
        retrospect_date: crate::calendar::naive_text(start_time, "%Y-%m-%d"),
        retrospect_time: crate::calendar::naive_text(start_time, "%H:%M"),
    }
}

/// One search hit: the retrospect with its team's name (empty where the team
/// is not known) and its start date and time.
pub fn search_item(
    retrospect_id: i64,
    title: String,
    team_id: i64,
    teams: &Vec<(i64, String)>,
    method: RetrospectMethod,
    start_time: i64,
) -> (r: crate::retro_dto::SearchRetrospectItem)
    ensures
        r.retrospect_id == retrospect_id,
        r.project_name == title,
        r.team_name@ == match name_of(teams@, team_id) {
            Some(n) => n,
            None => Seq::<char>::empty(),
        },
        r.retrospect_method == method,
        r.retrospect_date@ == crate::calendar::chrono_naive_text(start_time as int, "%Y-%m-%d"@),
        r.retrospect_time@ == crate::calendar::chrono_naive_text(start_time as int, "%H:%M"@),
{
    let team_name = match find_name(teams, team_id) {
        Some(n) => n,
        None => {
            proof {
                reveal_strlit("");
            }
            owned("")
        },
    };
    crate::retro_dto::SearchRetrospectItem {
        retrospect_id,
        project_name: title,
        team_name,
        retrospect_method: method,
        retrospect_date: crate::calendar::naive_text(start_time, "%Y-%m-%d"),
        retrospect_time: crate::calendar::naive_text(start_time, "%H:%M"),
    }
}

/// Why saving drafts is refused after the drafts themselves passed, if it
/// is: the retrospect must exist, the member must have joined it, must have
/// answer rows, and exactly one per question.
pub open spec fn draft_save_problem(found: bool, joined: bool, answer_rows: usize) -> Option<(ErrorKind, Seq<char>)> {
    if !found {
        Some((ErrorKind::RetrospectNotFound, "존재하지 않는 회고입니다."@))
    } else if !joined {
        Some((ErrorKind::TeamAccessDenied, "해당 회고에 작성 권한이 없습니다."@))
    } else if answer_rows == 0 {
        Some((ErrorKind::TeamAccessDenied, "해당 회고에 대한 응답 데이터가 존재하지 않습니다."@))
    } else if answer_rows != QUESTIONS_PER_RETROSPECT {
        Some((ErrorKind::InternalError, "질문-응답 매핑 불일치: 예상 "@
            + crate::text::decimal(QUESTIONS_PER_RETROSPECT as nat) + "개, 실제 "@
            + crate::text::decimal(answer_rows as nat) + "개"@))
    } else {
        None
    }
}

/// Why a submission is refused after its answers passed, if it is: the
/// retrospect must exist, the member must have joined it (`None` where not),
/// not have submitted yet, and have one answer row per question.
pub open spec fn submit_problem(
    found: bool,
    status: Option<crate::retro_dto::RetrospectStatus>,
    answer_rows: usize,
) -> Option<(ErrorKind, Seq<char>)> {
    if !found {
        Some((ErrorKind::RetrospectNotFound, "존재하지 않는 회고입니다."@))
    } else if status is None {
        Some((ErrorKind::RetrospectNotFound, hidden_retrospect_message()))
    } else if status != Some(crate::retro_dto::RetrospectStatus::Draft) {
        Some((ErrorKind::RetroAlreadySubmitted, "이미 제출이 완료된 회고입니다."@))
    } else if answer_rows != QUESTIONS_PER_RETROSPECT {
        Some((ErrorKind::InternalError, "회고의 질문 수가 올바르지 않습니다."@))
    } else {
        None
    }
}

impl RetrospectService {
    /// Decides `draft_save_problem`.
    pub fn check_draft_save(found: bool, joined: bool, answer_rows: usize) -> (r: Result<(), AppError>)
        ensures
            crate::error::result_view(r) == outcome_of(draft_save_problem(found, joined, answer_rows)),
    {
        if !found {
            return Err(AppError::RetrospectNotFound(owned("존재하지 않는 회고입니다.")));
        }
        if !joined {
            return Err(AppError::TeamAccessDenied(owned("해당 회고에 작성 권한이 없습니다.")));
        }
        if answer_rows == 0 {
            return Err(AppError::TeamAccessDenied(owned("해당 회고에 대한 응답 데이터가 존재하지 않습니다.")));
        }
        if answer_rows != QUESTIONS_PER_RETROSPECT {
            let mut v = chars_of("질문-응답 매핑 불일치: 예상 ");
            append_chars(&mut v, &crate::text::u64_digits(QUESTIONS_PER_RETROSPECT as u64));
            append_chars(&mut v, &chars_of("개, 실제 "));
            append_chars(&mut v, &crate::text::u64_digits(answer_rows as u64));
            append_chars(&mut v, &chars_of("개"));
            return Err(AppError::InternalError(string_from_chars(v.as_slice())));
        }
        Ok(())
    }

    /// Decides `submit_problem`.
    pub fn check_submit(
        found: bool,
        status: Option<crate::retro_dto::RetrospectStatus>,
        answer_rows: usize,
    ) -> (r: Result<(), AppError>)
        ensures
            crate::error::result_view(r) == outcome_of(submit_problem(found, status, answer_rows)),
    {
        if !found {
            return Err(AppError::RetrospectNotFound(owned("존재하지 않는 회고입니다.")));
        }
        match status {
            None => {
                return Err(AppError::RetrospectNotFound(owned("존재하지 않는 회고이거나 접근 권한이 없습니다.")));
            },
            Some(s) => {
                match check_submission_allowed(s) {
                    Ok(()) => {},
                    Err(e) => {
                        return Err(e);
                    },
                }
            },
        }
        if answer_rows != QUESTIONS_PER_RETROSPECT {
            return Err(AppError::InternalError(owned("회고의 질문 수가 올바르지 않습니다.")));
        }
        Ok(())
    }
}

/// Today's date in Korean time, as `%Y-%m-%d` text (depends on the clock).
pub fn today_kst_text() -> (r: String)
    ensures
        exists|secs: int| r@ == crate::calendar::kst_text(secs, "%Y-%m-%d"@),
{
    let now = crate::event::utc_now_unix_secs();
    crate::calendar::kst_format(now, "%Y-%m-%d")
}

impl RetrospectService {
    /// Lets a caller see a retrospect's details: it must exist
    /// (`RetrospectNotFound`) and the caller must be in its room
    /// (`TeamAccessDenied`).
    pub fn check_detail_access(found: bool, in_room: bool) -> (r: Result<(), AppError>)
        ensures
            !found ==> (r matches Err(e) && e@ == (ErrorKind::RetrospectNotFound, "존재하지 않는 회고입니다."@)),
            found && !in_room ==> (r matches Err(e) && e@ == (ErrorKind::TeamAccessDenied, "해당 회고에 접근 권한이 없습니다."@)),
            r is Ok <==> (found && in_room),
    {
        if !found {
            return Err(AppError::RetrospectNotFound(owned("존재하지 않는 회고입니다.")));
        }
        if !in_room {
            return Err(AppError::TeamAccessDenied(owned("해당 회고에 접근 권한이 없습니다.")));
        }
        Ok(())
    }
}

/// The details of a retrospect: the id of the team it belongs to, its title, start date,
/// method, the participants whose name is known (in joining order), the like
/// and comment totals, and its questions (`question_items`).
pub fn retrospect_detail(
    team_id: i64,
    title: String,
    start_time: i64,
    method: RetrospectMethod,
    participant_ids: &Vec<i64>,
    members: &Vec<(i64, String)>,
    question_texts: &Vec<String>,
    total_like_count: i64,
    total_comment_count: i64,
) -> (r: crate::retro_dto::RetrospectDetailResponse)
    ensures
        r.team_id == team_id,
        r.title == title,
        r.start_time@ == crate::calendar::chrono_naive_text(start_time as int, "%Y-%m-%d"@),
        r.retro_category == method,
        r.members@.len() == shown_members(participant_ids@, members@).len(),
        forall|i: int| 0 <= i < r.members@.len() ==> (#[trigger] r.members@[i]).member_id
            == shown_members(participant_ids@, members@)[i].0
            && r.members@[i].user_name@ == shown_members(participant_ids@, members@)[i].1,
        r.total_like_count == total_like_count,
        r.total_comment_count == total_comment_count,
        r.questions@.len() == shown_questions(views(question_texts@)).len(),
        forall|i: int| 0 <= i < r.questions@.len() ==> (#[trigger] r.questions@[i]).index == i + 1
            && r.questions@[i].content@ == shown_questions(views(question_texts@))[i],
{
    crate::retro_dto::RetrospectDetailResponse {
        team_id,
        title,
        start_time: crate::calendar::naive_text(start_time, "%Y-%m-%d"),
        retro_category: method,
        members: member_items(participant_ids, members),
        total_like_count,
        total_comment_count,
        questions: question_items(question_texts),
    }
}

/// One removal in deleting a retrospect, in the order they run.
#[derive(Debug, Clone, Copy, PartialEq, Eq, Structural)]
pub enum DeletionStep {
    /// The comments on its answers.
    Comments,
    /// The likes of its answers.
    Likes,
    /// The links between members and its answers.
    MemberResponses,
    /// Its answers.
    Responses,
    /// Its reference links.
    References,
    /// Its participations.
    MemberRetros,
    /// The retrospect itself.
    Retrospect,
    /// The members' links to its room.
    MemberRetroRooms,
    /// Its room.
    Room,
}

/// The removals of a retrospect before its room is considered: the answers'
/// comments, likes and authorship only where it has answers, then the
/// answers, references, participations and the retrospect.
pub open spec fn deletion_plan(answer_count: usize) -> Seq<DeletionStep> {
    (if answer_count > 0 {
        seq![DeletionStep::Comments, DeletionStep::Likes, DeletionStep::MemberResponses]
    } else {
        Seq::empty()
    }) + seq![
        DeletionStep::Responses,
        DeletionStep::References,
        DeletionStep::MemberRetros,
        DeletionStep::Retrospect,
    ]
}

/// The removals of the room afterwards: only when no other retrospect still
/// uses it.
pub open spec fn room_plan(other_retrospects: u64) -> Seq<DeletionStep> {
    if other_retrospects == 0 {
        seq![DeletionStep::MemberRetroRooms, DeletionStep::Room]
    } else {
        Seq::empty()
    }
}

impl RetrospectService {
    /// Lists `deletion_plan`.
    pub fn deletion_steps(answer_count: usize) -> (r: Vec<DeletionStep>)
        ensures
            r@ == deletion_plan(answer_count),
    {
        let mut v: Vec<DeletionStep> = Vec::new();
        if answer_count > 0 {
            v.push(DeletionStep::Comments);
            v.push(DeletionStep::Likes);
            v.push(DeletionStep::MemberResponses);
        }
        v.push(DeletionStep::Responses);
        v.push(DeletionStep::References);
        v.push(DeletionStep::MemberRetros);
        v.push(DeletionStep::Retrospect);
        assert(v@ =~= deletion_plan(answer_count));
        v
    }

    /// Lists `room_plan`.
    pub fn room_deletion_steps(other_retrospects: u64) -> (r: Vec<DeletionStep>)
        ensures
            r@ == room_plan(other_retrospects),
    {
        let mut v: Vec<DeletionStep> = Vec::new();
        if other_retrospects == 0 {
            v.push(DeletionStep::MemberRetroRooms);
            v.push(DeletionStep::Room);
        }
        assert(v@ =~= room_plan(other_retrospects));
        v
    }
}

/// A shared room is never removed with one of its retrospects, and a
/// retrospect is always removed after everything that refers to it.
pub proof fn shared_room_survives(answer_count: usize, other_retrospects: u64)
    requires
        other_retrospects > 0,
    ensures
        !room_plan(other_retrospects).contains(DeletionStep::Room),
        deletion_plan(answer_count).last() == DeletionStep::Retrospect,
        !deletion_plan(answer_count).drop_last().contains(DeletionStep::Retrospect),
{
    let p = deletion_plan(answer_count);
    assert forall|i: int| 0 <= i < p.drop_last().len() implies p.drop_last()[i] != DeletionStep::Retrospect by {
        if answer_count > 0 {
            assert(p.drop_last() =~= seq![
                DeletionStep::Comments,
                DeletionStep::Likes,
                DeletionStep::MemberResponses,
                DeletionStep::Responses,
                DeletionStep::References,
                DeletionStep::MemberRetros,
            ]);
        } else {
            assert(p.drop_last() =~= seq![DeletionStep::Responses, DeletionStep::References, DeletionStep::MemberRetros]);
        }
    }
}

/// Why a comment listing is refused, if it is: the answer id and a given
/// cursor must be positive, and the page size (20 when not given) must lie
/// in 1..=100.
pub open spec fn comment_query_problem(response_id: i64, cursor: Option<i64>, size: Option<i32>) -> Option<(ErrorKind, Seq<char>)> {
    if response_id < 1 {
        Some((ErrorKind::BadRequest, "responseId는 1 이상의 양수여야 합니다."@))
    } else if cursor matches Some(c) && c < 1 {
        Some((ErrorKind::BadRequest, "cursor는 1 이상의 양수여야 합니다."@))
    } else if !(1 <= (match size { Some(n) => n, None => 20i32 }) <= 100) {
        Some((ErrorKind::BadRequest, "size는 1~100 범위의 정수여야 합니다."@))
    } else {
        None
    }
}

impl RetrospectService {
    /// Checks a comment listing's parameters and returns the page size.
    pub fn check_comment_query(response_id: i64, cursor: Option<i64>, size: Option<i32>) -> (r: Result<i32, AppError>)
        ensures
            match comment_query_problem(response_id, cursor, size) {
                Some(p) => r matches Err(e) && e@ == p,
                None => r == Ok::<i32, AppError>(match size { Some(n) => n, None => 20i32 }),
            },
    {
        if response_id < 1 {
            return Err(AppError::BadRequest(owned("responseId는 1 이상의 양수여야 합니다.")));
        }
        match cursor {
            Some(c) => {
                if c < 1 {
                    return Err(AppError::BadRequest(owned("cursor는 1 이상의 양수여야 합니다.")));
                }
            },
            None => {},
        }
        let n: i32 = match size {
            Some(n) => n,
            None => 20,
        };
        if n < 1 || n > 100 {
            return Err(AppError::BadRequest(owned("size는 1~100 범위의 정수여야 합니다.")));
        }
        Ok(n)
    }

    /// Checks the answer id a comment is written on.
    pub fn check_comment_target(response_id: i64) -> (r: Result<(), AppError>)
        ensures
            r is Ok <==> response_id >= 1,
            r matches Err(e) ==> e@ == (ErrorKind::BadRequest, "responseId는 1 이상의 양수여야 합니다."@),
    {
        if response_id < 1 {
            return Err(AppError::BadRequest(owned("responseId는 1 이상의 양수여야 합니다.")));
        }
        Ok(())
    }
}

impl RetrospectService {
    /// A retrospect id in a path must be positive.
    pub fn check_retrospect_id(retrospect_id: i64) -> (r: Result<(), AppError>)
        ensures
            r is Ok <==> retrospect_id >= 1,
            r matches Err(e) ==> e@ == (ErrorKind::BadRequest, "retrospectId는 1 이상의 양수여야 합니다."@),
    {
        if retrospect_id < 1 {
            return Err(AppError::BadRequest(owned("retrospectId는 1 이상의 양수여야 합니다.")));
        }
        Ok(())
    }

    /// The caller's member id from the subject of their token, as
    /// `parse::<i64>()` reads it.
    pub fn caller_id(sub: &str) -> (r: Result<i64, AppError>)
        ensures
            match crate::parse::parse_i64_spec(sub@) {
                Some(v) => r == Ok::<i64, AppError>(v),
                None => r matches Err(e) && e@ == (ErrorKind::Unauthorized, "유효하지 않은 사용자 ID입니다."@),
            },
    {
        match crate::parse::parse_i64(sub) {
            Some(v) => Ok(v),
            None => Err(AppError::Unauthorized(owned("유효하지 않은 사용자 ID입니다."))),
        }
    }
}

} // verus!
