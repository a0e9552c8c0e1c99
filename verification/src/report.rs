//! The content of a retrospect's exported report: a title, the basic facts,
//! the team's insight, every question with its answers, and each member's
//! insight, as a list of blocks that a document renderer lays out.
use vstd::prelude::*;
use crate::calendar::{chrono_naive_text, naive_text};
use crate::retro_dto::RetrospectMethod;
use crate::retrospect::{
    distinct_texts, find_name, first_occurrences, member_items, method_display_name, name_of, shown_members, views,
    RetrospectService,
};
use crate::text::{all_ws, append_chars, chars_of, decimal, i64_text, int_text, is_blank, owned, str_eq, string_from_chars, u64_text};

verus! {

/// What a block of the report is.
#[derive(Debug, Clone, Copy, PartialEq, Eq, Structural)]
pub enum BlockKind {
    /// The report's title: bold, 18 points.
    Title,
    /// A section heading: bold, 14 points.
    Heading,
    /// A bold line.
    Strong,
    /// A plain line.
    Text,
    /// Vertical space.
    Gap,
}

/// One block of the report. A gap is measured in tenths of a line.
#[derive(Debug)]
pub enum ReportBlock {
    Title(String),
    Heading(String),
    Strong(String),
    Text(String),
    Gap(u32),
}

impl View for ReportBlock {
    type V = (BlockKind, Seq<char>, u32);

    open spec fn view(&self) -> (BlockKind, Seq<char>, u32) {
        match self {
            ReportBlock::Title(t) => (BlockKind::Title, t@, 0),
            ReportBlock::Heading(t) => (BlockKind::Heading, t@, 0),
            ReportBlock::Strong(t) => (BlockKind::Strong, t@, 0),
            ReportBlock::Text(t) => (BlockKind::Text, t@, 0),
            ReportBlock::Gap(n) => (BlockKind::Gap, Seq::empty(), *n),
        }
    }
}

pub open spec fn heading(t: Seq<char>) -> (BlockKind, Seq<char>, u32) {
    (BlockKind::Heading, t, 0)
}

pub open spec fn strong(t: Seq<char>) -> (BlockKind, Seq<char>, u32) {
    (BlockKind::Strong, t, 0)
}

pub open spec fn line(t: Seq<char>) -> (BlockKind, Seq<char>, u32) {
    (BlockKind::Text, t, 0)
}

pub open spec fn gap(n: u32) -> (BlockKind, Seq<char>, u32) {
    (BlockKind::Gap, Seq::empty(), n)
}

/// The views of a list of blocks.
pub open spec fn shown(v: Seq<ReportBlock>) -> Seq<(BlockKind, Seq<char>, u32)> {
    v.map_values(|b: ReportBlock| b@)
}

proof fn lemma_shown_push(v: Seq<ReportBlock>, b: ReportBlock)
    ensures
        shown(v.push(b)) == shown(v).push(b@),
{
    assert(shown(v.push(b)) =~= shown(v).push(b@));
}

proof fn lemma_shown_concat(a: Seq<ReportBlock>, b: Seq<ReportBlock>)
    ensures
        shown(a + b) == shown(a) + shown(b),
{
    assert(shown(a + b) =~= shown(a) + shown(b));
}

fn push_block(out: &mut Vec<ReportBlock>, b: ReportBlock)
    ensures
        shown(final(out)@) == shown(old(out)@).push(b@),
{
    let ghost before = out@;
    out.push(b);
    proof {
        lemma_shown_push(before, b);
    }
}

fn concat(a: &str, b: &str) -> (r: String)
    ensures
        r@ == a@ + b@,
{
    let mut v = chars_of(a);
    append_chars(&mut v, &chars_of(b));
    string_from_chars(v.as_slice())
}

/// The document title of a retrospect's report.
pub open spec fn report_title(title: Seq<char>) -> Seq<char> {
    title + " - Retrospect Report"@
}

/// Writes `report_title`.
pub fn report_document_title(title: &str) -> (r: String)
    ensures
        r@ == report_title(title@),
{
    concat(title, " - Retrospect Report")
}

/// The title section.
pub open spec fn header_section(title: Seq<char>) -> Seq<(BlockKind, Seq<char>, u32)> {
    seq![(BlockKind::Title, report_title(title), 0u32), gap(5)]
}

/// One line per participant name.
pub open spec fn name_lines(names: Seq<Seq<char>>) -> Seq<(BlockKind, Seq<char>, u32)> {
    names.map_values(|n: Seq<char>| line("  - "@ + n))
}

/// The basic facts: team, start, method and participants.
pub open spec fn basic_section(
    team: Seq<char>,
    start: Seq<char>,
    method: RetrospectMethod,
    names: Seq<Seq<char>>,
) -> Seq<(BlockKind, Seq<char>, u32)> {
    seq![
        heading("Basic Information"@),
        gap(3),
        line("Team: "@ + team),
        line("Date: "@ + start),
        line("Method: "@ + method_display_name(method)),
        line("Participants ("@ + decimal(names.len()) + "):"@),
    ] + name_lines(names) + seq![gap(5)]
}

/// The team's insight, where there is one.
pub open spec fn insight_section(insight: Option<Seq<char>>) -> Seq<(BlockKind, Seq<char>, u32)> {
    match insight {
        Some(i) => seq![heading("Team Insight"@), gap(3), line(i), gap(5)],
        None => Seq::empty(),
    }
}

fn header_blocks(title: &str) -> (r: Vec<ReportBlock>)
    ensures
        shown(r@) == header_section(title@),
{
    let mut out: Vec<ReportBlock> = Vec::new();
    push_block(&mut out, ReportBlock::Title(report_document_title(title)));
    push_block(&mut out, ReportBlock::Gap(5));
    assert(shown(out@) =~= header_section(title@));
    out
}

fn basic_blocks(team: &str, start: &str, method: RetrospectMethod, names: &Vec<String>) -> (r: Vec<ReportBlock>)
    ensures
        shown(r@) == basic_section(team@, start@, method, crate::retrospect::views(names@)),
{
    let ghost ns = crate::retrospect::views(names@);
    let mut out: Vec<ReportBlock> = Vec::new();
    push_block(&mut out, ReportBlock::Heading(owned("Basic Information")));
    push_block(&mut out, ReportBlock::Gap(3));
    push_block(&mut out, ReportBlock::Text(concat("Team: ", team)));
    push_block(&mut out, ReportBlock::Text(concat("Date: ", start)));
    let shown_method = RetrospectService::retrospect_method_display(&method);
    push_block(&mut out, ReportBlock::Text(concat("Method: ", shown_method.as_str())));
    let count = u64_text(names.len() as u64);
    let opening = concat("Participants (", count.as_str());
    push_block(&mut out, ReportBlock::Text(concat(opening.as_str(), "):")));
    let ghost first = shown(out@);
    assert(first =~= seq![
        heading("Basic Information"@),
        gap(3),
        line("Team: "@ + team@),
        line("Date: "@ + start@),
        line("Method: "@ + method_display_name(method)),
        line("Participants ("@ + decimal(ns.len()) + "):"@),
    ]);
    let mut i: usize = 0;
    while i < names.len()
        invariant
            i <= names@.len(),
            ns == crate::retrospect::views(names@),
            shown(out@) == first + name_lines(ns.take(i as int)),
        decreases names.len() - i,
    {
        push_block(&mut out, ReportBlock::Text(concat("  - ", names[i].as_str())));
        proof {
            assert(name_lines(ns.take(i as int + 1)) =~= name_lines(ns.take(i as int)).push(line("  - "@ + ns[i as int])));
        }
        i = i + 1;
    }
    push_block(&mut out, ReportBlock::Gap(5));
    assert(ns.take(i as int) =~= ns);
    assert(shown(out@) =~= basic_section(team@, start@, method, ns));
    out
}

fn insight_blocks(insight: &Option<String>) -> (r: Vec<ReportBlock>)
    ensures
        shown(r@) == insight_section(match insight {
            Some(s) => Some(s@),
            None => None,
        }),
{
    let mut out: Vec<ReportBlock> = Vec::new();
    match insight {
        Some(s) => {
            push_block(&mut out, ReportBlock::Heading(owned("Team Insight")));
            push_block(&mut out, ReportBlock::Gap(3));
            push_block(&mut out, ReportBlock::Text(owned(s.as_str())));
            push_block(&mut out, ReportBlock::Gap(5));
        },
        None => {},
    }
    assert(shown(out@) =~= insight_section(match insight {
        Some(s) => Some(s@),
        None => None,
    }));
    out
}

/// One stored answer of a retrospect: its id, its question and its text.
#[derive(Debug)]
pub struct ReportResponse {
    pub response_id: i64,
    pub question: String,
    pub content: String,
}

/// The member who wrote an answer, from (answer id, member id) rows: the
/// last row for that answer.
pub open spec fn member_of(authors: Seq<(i64, i64)>, response_id: i64) -> Option<i64>
    decreases authors.len(),
{
    if authors.len() == 0 {
        None
    } else if authors.last().0 == response_id {
        Some(authors.last().1)
    } else {
        member_of(authors.drop_last(), response_id)
    }
}

/// The name shown for an answer's author, `Anonymous` where it is not known.
pub open spec fn author_name(authors: Seq<(i64, i64)>, members: Seq<(i64, String)>, response_id: i64) -> Seq<char> {
    match member_of(authors, response_id) {
        Some(m) => match name_of(members, m) {
            Some(n) => n,
            None => "Anonymous"@,
        },
        None => "Anonymous"@,
    }
}

/// The lines of the non-blank answers to a question, in order.
pub open spec fn answer_lines(
    rs: Seq<ReportResponse>,
    q: Seq<char>,
    authors: Seq<(i64, i64)>,
    members: Seq<(i64, String)>,
) -> Seq<(BlockKind, Seq<char>, u32)>
    decreases rs.len(),
{
    if rs.len() == 0 {
        Seq::empty()
    } else {
        let rest = answer_lines(rs.drop_last(), q, authors, members);
        let r = rs.last();
        if r.question@ == q && !all_ws(r.content@) {
            rest.push(line("  - ["@ + author_name(authors, members, r.response_id) + "] "@ + r.content@))
        } else {
            rest
        }
    }
}

/// The blocks of the `n`th question.
pub open spec fn question_block(
    n: nat,
    q: Seq<char>,
    rs: Seq<ReportResponse>,
    authors: Seq<(i64, i64)>,
    members: Seq<(i64, String)>,
) -> Seq<(BlockKind, Seq<char>, u32)> {
    let a = answer_lines(rs, q, authors, members);
    seq![strong("Q"@ + decimal(n) + ". "@ + q)] + (if a.len() == 0 { seq![line("  (No answers)"@)] } else { a })
        + seq![gap(3)]
}

/// The blocks of the questions in turn, numbered from 1.
pub open spec fn question_blocks(
    qs: Seq<Seq<char>>,
    rs: Seq<ReportResponse>,
    authors: Seq<(i64, i64)>,
    members: Seq<(i64, String)>,
) -> Seq<(BlockKind, Seq<char>, u32)>
    decreases qs.len(),
{
    if qs.len() == 0 {
        Seq::empty()
    } else {
        question_blocks(qs.drop_last(), rs, authors, members) + question_block(qs.len(), qs.last(), rs, authors, members)
    }
}

/// The question texts of the answers.
pub open spec fn questions_of(rs: Seq<ReportResponse>) -> Seq<Seq<char>> {
    rs.map_values(|r: ReportResponse| r.question@)
}

/// The questions and answers, where there are answers: each distinct
/// question in order of first appearance.
pub open spec fn qa_section(
    rs: Seq<ReportResponse>,
    authors: Seq<(i64, i64)>,
    members: Seq<(i64, String)>,
) -> Seq<(BlockKind, Seq<char>, u32)> {
    if rs.len() == 0 {
        Seq::empty()
    } else {
        seq![heading("Questions & Answers"@), gap(3)]
            + question_blocks(first_occurrences(questions_of(rs)), rs, authors, members)
    }
}

fn find_member(authors: &Vec<(i64, i64)>, response_id: i64) -> (r: Option<i64>)
    ensures
        r == member_of(authors@, response_id),
{
    let mut i: usize = authors.len();
    assert(authors@.take(i as int) =~= authors@);
    while i > 0
        invariant
            i <= authors@.len(),
            member_of(authors@, response_id) == member_of(authors@.take(i as int), response_id),
        decreases i,
    {
        proof {
            let t = authors@.take(i as int);
            assert(t.drop_last() =~= authors@.take(i as int - 1));
            assert(t.last() == authors@[i as int - 1]);
        }
        if authors[i - 1].0 == response_id {
            return Some(authors[i - 1].1);
        }
        i = i - 1;
    }
    None
}

fn author_text(authors: &Vec<(i64, i64)>, members: &Vec<(i64, String)>, response_id: i64) -> (r: String)
    ensures
        r@ == author_name(authors@, members@, response_id),
{
    match find_member(authors, response_id) {
        Some(m) => match find_name(members, m) {
            Some(n) => n,
            None => owned("Anonymous"),
        },
        None => owned("Anonymous"),
    }
}

fn answer_blocks(
    rs: &Vec<ReportResponse>,
    q: &str,
    authors: &Vec<(i64, i64)>,
    members: &Vec<(i64, String)>,
) -> (r: Vec<ReportBlock>)
    ensures
        shown(r@) == answer_lines(rs@, q@, authors@, members@),
{
    let mut out: Vec<ReportBlock> = Vec::new();
    let mut i: usize = 0;
    while i < rs.len()
        invariant
            i <= rs@.len(),
            shown(out@) == answer_lines(rs@.take(i as int), q@, authors@, members@),
        decreases rs.len() - i,
    {
        proof {
            let t = rs@.take(i as int + 1);
            assert(t.drop_last() =~= rs@.take(i as int));
            assert(t.last() == rs@[i as int]);
        }
        let r = &rs[i];
        if str_eq(r.question.as_str(), q) && !is_blank(r.content.as_str()) {
            let author = author_text(authors, members, r.response_id);
            let opening = concat("  - [", author.as_str());
            let head = concat(opening.as_str(), "] ");
            push_block(&mut out, ReportBlock::Text(concat(head.as_str(), r.content.as_str())));
        }
        i = i + 1;
    }
    assert(rs@.take(i as int) =~= rs@);
    out
}

fn qa_blocks(
    rs: &Vec<ReportResponse>,
    authors: &Vec<(i64, i64)>,
    members: &Vec<(i64, String)>,
) -> (r: Vec<ReportBlock>)
    ensures
        shown(r@) == qa_section(rs@, authors@, members@),
{
    let mut out: Vec<ReportBlock> = Vec::new();
    if rs.len() == 0 {
        assert(shown(out@) =~= qa_section(rs@, authors@, members@));
        return out;
    }
    let mut questions: Vec<String> = Vec::new();
    let mut i: usize = 0;
    while i < rs.len()
        invariant
            i <= rs@.len(),
            views(questions@) == questions_of(rs@).take(i as int),
        decreases rs.len() - i,
    {
        let ghost before = questions@;
        let q = rs[i].question.clone();
        assert(q@ == rs@[i as int].question@);
        questions.push(q);
        assert(questions@ == before.push(q));
        assert(views(questions@) =~= views(before).push(q@));
        assert(questions_of(rs@).take(i as int + 1) =~= questions_of(rs@).take(i as int).push(rs@[i as int].question@));
        i = i + 1;
    }
    assert(questions_of(rs@).take(i as int) =~= questions_of(rs@));
    let qs = distinct_texts(&questions);
    let ghost uq = views(qs@);
    push_block(&mut out, ReportBlock::Heading(owned("Questions & Answers")));
    push_block(&mut out, ReportBlock::Gap(3));
    let ghost first = shown(out@);
    assert(first =~= seq![heading("Questions & Answers"@), gap(3)]);
    let mut k: usize = 0;
    assert(uq.take(0) =~= Seq::<Seq<char>>::empty());
    while k < qs.len()
        invariant
            k <= qs@.len(),
            uq == views(qs@),
            shown(out@) == first + question_blocks(uq.take(k as int), rs@, authors@, members@),
        decreases qs.len() - k,
    {
        let ghost before = shown(out@);
        let q = qs[k].as_str();
        let number = u64_text((k + 1) as u64);
        let opening = concat("Q", number.as_str());
        let head = concat(opening.as_str(), ". ");
        push_block(&mut out, ReportBlock::Strong(concat(head.as_str(), q)));
        let mut answers = answer_blocks(rs, q, authors, members);
        if answers.len() == 0 {
            push_block(&mut out, ReportBlock::Text(owned("  (No answers)")));
        } else {
            let ghost mid = out@;
            let ghost a = answers@;
            out.append(&mut answers);
            proof {
                lemma_shown_concat(mid, a);
            }
        }
        push_block(&mut out, ReportBlock::Gap(3));
        proof {
            assert(uq[k as int] == qs@[k as int]@);
            let t = uq.take(k as int + 1);
            assert(t.drop_last() =~= uq.take(k as int));
            assert(t.last() == uq[k as int]);
            assert(t.len() == k + 1);
            assert(shown(out@) =~= before + question_block((k + 1) as nat, uq[k as int], rs@, authors@, members@));
        }
        k = k + 1;
    }
    assert(uq.take(k as int) =~= uq);
    out
}

/// A participant of a retrospect: who, and the insight written for them.
#[derive(Debug)]
pub struct ReportParticipant {
    pub member_id: i64,
    pub personal_insight: Option<String>,
}

/// The name a member is shown under in the insights: the known name, else
/// `Member #` and the id.
pub open spec fn member_label(members: Seq<(i64, String)>, id: i64) -> Seq<char> {
    match name_of(members, id) {
        Some(n) => n,
        None => "Member #"@ + int_text(id as int),
    }
}

/// The blocks of the participants that have an insight, in order.
pub open spec fn personal_lines(ps: Seq<ReportParticipant>, members: Seq<(i64, String)>) -> Seq<(BlockKind, Seq<char>, u32)>
    decreases ps.len(),
{
    if ps.len() == 0 {
        Seq::empty()
    } else {
        let rest = personal_lines(ps.drop_last(), members);
        match ps.last().personal_insight {
            Some(i) => rest + seq![
                strong("["@ + member_label(members, ps.last().member_id) + "]"@),
                line("  "@ + i@),
                gap(2),
            ],
            None => rest,
        }
    }
}

/// The members' insights, where any member has one.
pub open spec fn personal_section(ps: Seq<ReportParticipant>, members: Seq<(i64, String)>) -> Seq<(BlockKind, Seq<char>, u32)> {
    let l = personal_lines(ps, members);
    if l.len() == 0 {
        Seq::empty()
    } else {
        seq![gap(3), heading("Personal Insights"@), gap(3)] + l
    }
}

fn member_label_text(members: &Vec<(i64, String)>, id: i64) -> (r: String)
    ensures
        r@ == member_label(members@, id),
{
    match find_name(members, id) {
        Some(n) => n,
        None => concat("Member #", i64_text(id).as_str()),
    }
}

fn personal_blocks(ps: &Vec<ReportParticipant>, members: &Vec<(i64, String)>) -> (r: Vec<ReportBlock>)
    ensures
        shown(r@) == personal_section(ps@, members@),
{
    let mut lines: Vec<ReportBlock> = Vec::new();
    let mut i: usize = 0;
    while i < ps.len()
        invariant
            i <= ps@.len(),
            shown(lines@) == personal_lines(ps@.take(i as int), members@),
        decreases ps.len() - i,
    {
        proof {
            let t = ps@.take(i as int + 1);
            assert(t.drop_last() =~= ps@.take(i as int));
            assert(t.last() == ps@[i as int]);
        }
        let p = &ps[i];
        match &p.personal_insight {
            Some(insight) => {
                let ghost before = shown(lines@);
                let name = member_label_text(members, p.member_id);
                let opening = concat("[", name.as_str());
                push_block(&mut lines, ReportBlock::Strong(concat(opening.as_str(), "]")));
                push_block(&mut lines, ReportBlock::Text(concat("  ", insight.as_str())));
                push_block(&mut lines, ReportBlock::Gap(2));
                assert(shown(lines@) =~= before + seq![
                    strong("["@ + member_label(members@, p.member_id) + "]"@),
                    line("  "@ + insight@),
                    gap(2),
                ]);
            },
            None => {},
        }
        i = i + 1;
    }
    assert(ps@.take(i as int) =~= ps@);
    if lines.len() == 0 {
        let out: Vec<ReportBlock> = Vec::new();
        assert(shown(out@) =~= personal_section(ps@, members@));
        return out;
    }
    let mut out: Vec<ReportBlock> = Vec::new();
    push_block(&mut out, ReportBlock::Gap(3));
    push_block(&mut out, ReportBlock::Heading(owned("Personal Insights")));
    push_block(&mut out, ReportBlock::Gap(3));
    let ghost head = out@;
    let ghost body = lines@;
    out.append(&mut lines);
    proof {
        lemma_shown_concat(head, body);
        assert(shown(head) =~= seq![gap(3), heading("Personal Insights"@), gap(3)]);
    }
    out
}

/// What a report is made from.
#[derive(Debug)]
pub struct ReportInput {
    pub title: String,
    /// The team's name; `None` where the team is gone.
    pub team_name: Option<String>,
    /// When the retrospect starts, in seconds after the Unix epoch.
    pub start_time: i64,
    pub method: RetrospectMethod,
    pub team_insight: Option<String>,
    /// The participants, in the order they joined.
    pub participants: Vec<ReportParticipant>,
    /// Known members as (member id, nickname).
    pub members: Vec<(i64, String)>,
    /// The answers, in the order they were stored.
    pub responses: Vec<ReportResponse>,
    /// Who wrote which answer, as (answer id, member id).
    pub authors: Vec<(i64, i64)>,
}

/// The team name shown: the known name, else `(알 수 없음)`.
pub open spec fn team_label(team: Option<String>) -> Seq<char> {
    match team {
        Some(t) => t@,
        None => "(알 수 없음)"@,
    }
}

/// The participants' ids, in order.
pub open spec fn participant_ids(ps: Seq<ReportParticipant>) -> Seq<i64> {
    ps.map_values(|p: ReportParticipant| p.member_id)
}

/// The names of the participants whose name is known.
pub open spec fn participant_names(ps: Seq<ReportParticipant>, members: Seq<(i64, String)>) -> Seq<Seq<char>> {
    shown_members(participant_ids(ps), members).map_values(|m: (i64, Seq<char>)| m.1)
}

/// The whole report: title, basic facts, team insight, questions and
/// answers, members' insights.
pub open spec fn report_spec(input: ReportInput) -> Seq<(BlockKind, Seq<char>, u32)> {
    header_section(input.title@)
        + basic_section(
            team_label(input.team_name),
            chrono_naive_text(input.start_time as int, "%Y-%m-%d %H:%M"@),
            input.method,
            participant_names(input.participants@, input.members@),
        )
        + insight_section(match input.team_insight {
            Some(s) => Some(s@),
            None => None,
        })
        + qa_section(input.responses@, input.authors@, input.members@)
        + personal_section(input.participants@, input.members@)
}

/// Lays out the content of a retrospect's report.
pub fn report_blocks(input: &ReportInput) -> (r: Vec<ReportBlock>)
    ensures
        shown(r@) == report_spec(*input),
{
    let mut ids: Vec<i64> = Vec::new();
    let mut i: usize = 0;
    while i < input.participants.len()
        invariant
            i <= input.participants@.len(),
            ids@ == participant_ids(input.participants@).take(i as int),
        decreases input.participants.len() - i,
    {
        ids.push(input.participants[i].member_id);
        assert(ids@ =~= participant_ids(input.participants@).take(i as int + 1));
        i = i + 1;
    }
    assert(participant_ids(input.participants@).take(i as int) =~= participant_ids(input.participants@));
    let shown_list = member_items(&ids, &input.members);
    let mut names: Vec<String> = Vec::new();
    let ghost target = participant_names(input.participants@, input.members@);
    let mut k: usize = 0;
    while k < shown_list.len()
        invariant
            k <= shown_list@.len(),
            shown_list@.len() == target.len(),
            forall|m: int| 0 <= m < shown_list@.len() ==> (#[trigger] shown_list@[m]).user_name@ == target[m],
            views(names@) == target.take(k as int),
        decreases shown_list.len() - k,
    {
        let ghost before = names@;
        let n = shown_list[k].user_name.clone();
        names.push(n);
        assert(views(names@) =~= views(before).push(n@));
        assert(target.take(k as int + 1) =~= target.take(k as int).push(target[k as int]));
        k = k + 1;
    }
    assert(target.take(k as int) =~= target);
    let team = match &input.team_name {
        Some(t) => owned(t.as_str()),
        None => owned("(알 수 없음)"),
    };
    let start = naive_text(input.start_time, "%Y-%m-%d %H:%M");
    let mut out = header_blocks(input.title.as_str());
    let ghost s1 = out@;
    let mut part = basic_blocks(team.as_str(), start.as_str(), input.method, &names);
    let ghost s2 = part@;
    out.append(&mut part);
    proof { lemma_shown_concat(s1, s2); }
    let ghost t2 = out@;
    let mut part = insight_blocks(&input.team_insight);
    let ghost s3 = part@;
    out.append(&mut part);
    proof { lemma_shown_concat(t2, s3); }
    let ghost t3 = out@;
    let mut part = qa_blocks(&input.responses, &input.authors, &input.members);
    let ghost s4 = part@;
    out.append(&mut part);
    proof { lemma_shown_concat(t3, s4); }
    let ghost t4 = out@;
    let mut part = personal_blocks(&input.participants, &input.members);
    let ghost s5 = part@;
    out.append(&mut part);
    proof { lemma_shown_concat(t4, s5); }
    out
}

} // verus!
