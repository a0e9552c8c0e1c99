//! GitHub webhooks: payloads, branch rules for automation, the request
//! signature, and the pipeline events issue, comment and pull-request
//! deliveries lead to.
use vstd::prelude::*;
use vstd::string::*;
use crate::crypto::{hex_decode, hmac_sha256_matches};
use crate::error::{AppError, ErrorKind};
use crate::event::{Event, Priority};
use crate::json::{json_bool, json_int, json_object, json_opt_str, json_str, json_str_array};
use crate::text::{
    chars_of, contains_chars, join2, owned, slice_chars, str_eq, str_starts_with,
    string_from_chars, to_lower, trim_chars,
};

verus! {

/// The `X-GitHub-Event` header.
#[derive(Debug, Clone, PartialEq)]
pub enum GitHubEventType {
    Issues,
    IssueComment,
    PullRequest,
    Unknown(String),
}

impl GitHubEventType {
    /// Reads the header value.
    pub fn from(s: &str) -> (r: Self)
        ensures
            if s@ == "issues"@ {
                r is Issues
            } else if s@ == "issue_comment"@ {
                r is IssueComment
            } else if s@ == "pull_request"@ {
                r is PullRequest
            } else {
                r matches GitHubEventType::Unknown(o) && o@ == s@
            },
    {
        if str_eq(s, "issues") {
            GitHubEventType::Issues
        } else if str_eq(s, "issue_comment") {
            GitHubEventType::IssueComment
        } else if str_eq(s, "pull_request") {
            GitHubEventType::PullRequest
        } else {
            GitHubEventType::Unknown(owned(s))
        }
    }
}

#[derive(Debug, Clone)]
pub struct GitHubLabel {
    pub name: String,
}

#[derive(Debug, Clone)]
pub struct GitHubUser {
    pub login: String,
}

#[derive(Debug, Clone)]
pub struct GitHubRepository {
    pub full_name: String,
}

#[derive(Debug, Clone)]
pub struct GitHubGitRef {
    pub ref_name: String,
    pub sha: String,
}

#[derive(Debug, Clone)]
pub struct GitHubIssue {
    pub number: i64,
    pub title: String,
    pub body: Option<String>,
    pub labels: Vec<GitHubLabel>,
    pub user: GitHubUser,
}

#[derive(Debug, Clone)]
pub struct GitHubPullRequest {
    pub number: i64,
    pub title: String,
    pub body: Option<String>,
    pub labels: Vec<GitHubLabel>,
    pub head: GitHubGitRef,
    pub base: GitHubGitRef,
    pub user: GitHubUser,
}

#[derive(Debug, Clone)]
pub struct GitHubComment {
    pub id: i64,
    pub body: String,
    pub user: GitHubUser,
}

/// An `issues` delivery.
#[derive(Debug, Clone)]
pub struct IssuesPayload {
    pub action: String,
    pub issue: GitHubIssue,
    pub label: Option<GitHubLabel>,
    pub repository: GitHubRepository,
    pub sender: GitHubUser,
}

/// An `issue_comment` delivery.
#[derive(Debug, Clone)]
pub struct IssueCommentPayload {
    pub action: String,
    pub issue: GitHubIssue,
    pub comment: GitHubComment,
    pub repository: GitHubRepository,
    pub sender: GitHubUser,
}

/// A `pull_request` delivery.
#[derive(Debug, Clone)]
pub struct PullRequestPayload {
    pub action: String,
    pub pull_request: GitHubPullRequest,
    pub label: Option<GitHubLabel>,
    pub repository: GitHubRepository,
    pub sender: GitHubUser,
}

/// The reply to a delivery.
#[derive(Debug, Clone)]
pub struct GitHubWebhookResponse {
    pub status: String,
    pub reason: Option<String>,
}

impl GitHubWebhookResponse {
    pub fn accepted() -> (r: Self)
        ensures
            r.status@ == "accepted"@,
            r.reason is None,
    {
        GitHubWebhookResponse { status: owned("accepted"), reason: None }
    }

    pub fn ignored(reason: &str) -> (r: Self)
        ensures
            r.status@ == "ignored"@,
            r.reason matches Some(x) && x@ == reason@,
    {
        GitHubWebhookResponse { status: owned("ignored"), reason: Some(owned(reason)) }
    }

    /// The reply to an event type the webhook does not handle.
    pub fn unsupported(event_name: &str) -> (r: Self)
        ensures
            r.status@ == "ignored"@,
            r.reason matches Some(x) && x@ == "Unsupported event type: "@ + event_name@,
    {
        let reason = join2("Unsupported event type: ", event_name);
        GitHubWebhookResponse { status: owned("ignored"), reason: Some(reason) }
    }

    /// The reply once a delivery was handled: accepted when it led to an event.
    pub fn for_outcome(event: &Option<Event>) -> (r: Self)
        ensures
            event is Some ==> r.status@ == "accepted"@ && r.reason is None,
            event is None ==> r.status@ == "ignored"@ && (r.reason matches Some(x) && x@
                == "Event did not match trigger conditions"@),
    {
        match event {
            Some(_) => Self::accepted(),
            None => Self::ignored("Event did not match trigger conditions"),
        }
    }
}

/// The label names.
pub open spec fn label_names(ls: Seq<GitHubLabel>) -> Seq<Seq<char>> {
    ls.map_values(|l: GitHubLabel| l.name@)
}

fn has_label_in(labels: &Vec<GitHubLabel>, name: &str) -> (b: bool)
    ensures
        b == label_names(labels@).contains(name@),
{
    let mut i: usize = 0;
    while i < labels.len()
        invariant
            i <= labels@.len(),
            forall|j: int| 0 <= j < i ==> labels@[j].name@ != name@,
        decreases labels.len() - i,
    {
        if str_eq(labels[i].name.as_str(), name) {
            assert(label_names(labels@)[i as int] == name@);
            return true;
        }
        i = i + 1;
    }
    assert(!label_names(labels@).contains(name@)) by {
        if label_names(labels@).contains(name@) {
            let k = choose|k: int| 0 <= k < label_names(labels@).len() && label_names(labels@)[k]
                == name@;
            assert(labels@[k].name@ == name@);
        }
    }
    false
}

/// The delivery's action is "labeled" and the added label has the given name.
pub open spec fn adds_label(action: Seq<char>, label: Option<GitHubLabel>, name: Seq<char>) -> bool {
    action == "labeled"@ && (label matches Some(l) && l.name@ == name)
}

fn adding_label(action: &String, label: &Option<GitHubLabel>, name: &str) -> (b: bool)
    ensures
        b == adds_label(action@, *label, name@),
{
    str_eq(action.as_str(), "labeled") && match label {
        Some(l) => str_eq(l.name.as_str(), name),
        None => false,
    }
}

impl IssuesPayload {
    pub fn has_label(&self, label_name: &str) -> (b: bool)
        ensures
            b == label_names(self.issue.labels@).contains(label_name@),
    {
        has_label_in(&self.issue.labels, label_name)
    }

    pub fn is_adding_label(&self, label_name: &str) -> (b: bool)
        ensures
            b == adds_label(self.action@, self.label, label_name@),
    {
        adding_label(&self.action, &self.label, label_name)
    }
}

impl PullRequestPayload {
    pub fn has_label(&self, label_name: &str) -> (b: bool)
        ensures
            b == label_names(self.pull_request.labels@).contains(label_name@),
    {
        has_label_in(&self.pull_request.labels, label_name)
    }

    pub fn is_adding_label(&self, label_name: &str) -> (b: bool)
        ensures
            b == adds_label(self.action@, self.label, label_name@),
    {
        adding_label(&self.action, &self.label, label_name)
    }
}

/// Character `c` of the body stands for character `n` of the mention, ignoring
/// case: the same character, or the upper-case form of a lower-case ASCII letter.
pub open spec fn same_ignoring_case(c: char, n: char) -> bool {
    c == n || ('a' <= n && n <= 'z' && (c as int) + 32 == (n as int))
}

/// "@ai-bot", in any case, stands at position `i` of the text.
pub open spec fn mention_at(s: Seq<char>, i: int) -> bool {
    &&& 0 <= i
    &&& i + 7 <= s.len()
    &&& same_ignoring_case(s[i], '@')
    &&& same_ignoring_case(s[i + 1], 'a')
    &&& same_ignoring_case(s[i + 2], 'i')
    &&& same_ignoring_case(s[i + 3], '-')
    &&& same_ignoring_case(s[i + 4], 'b')
    &&& same_ignoring_case(s[i + 5], 'o')
    &&& same_ignoring_case(s[i + 6], 't')
}

/// The first position at or after `i` where the mention stands.
pub open spec fn first_mention_from(s: Seq<char>, i: int) -> Option<int>
    decreases s.len() - i,
{
    if i < 0 || i + 7 > s.len() {
        None
    } else if mention_at(s, i) {
        Some(i)
    } else {
        first_mention_from(s, i + 1)
    }
}

/// The command of a comment: the text of the body after its first "@ai-bot"
/// (any case), trimmed, when that is not empty.
pub open spec fn ai_command_of(body: Seq<char>) -> Option<Seq<char>> {
    match first_mention_from(body, 0) {
        Some(p) => if crate::text::trim(body.skip(p + 7)).len() > 0 {
            Some(crate::text::trim(body.skip(p + 7)))
        } else {
            None
        },
        None => None,
    }
}

/// The command as read from a lower-cased copy `l` of the body: the first
/// "@ai-bot" is found in `l`, and the body is read from that position on.
pub open spec fn command_after_lowered(body: Seq<char>, l: Seq<char>) -> Option<Seq<char>> {
    if crate::text::contains(l, "@ai-bot"@) {
        let rest = body.skip(crate::text::first_index(l, "@ai-bot"@) + 7);
        if crate::text::trim(rest).len() > 0 {
            Some(crate::text::trim(rest))
        } else {
            None
        }
    } else {
        None
    }
}

/// The text with its ASCII capitals in lower case, every other character kept.
pub open spec fn ascii_lowered(b: Seq<char>) -> Seq<char> {
    b.map_values(|c: char| crate::text::ascii_lower_char(c))
}

proof fn lemma_same_ignoring_case(c: char, n: char)
    requires
        ('a' <= n && n <= 'z') || n == '@' || n == '-',
    ensures
        same_ignoring_case(c, n) <==> crate::text::ascii_lower_char(c) == n,
{
    if 'A' <= c && c <= 'Z' {
        let u: u32 = ((c as u32) + 32) as u32;
        assert(97 <= u <= 122);
        assert((u as char) as int == u as int);
    }
}

/// The mention stands at `i` of the body exactly when "@ai-bot" occurs at `i`
/// of its ASCII-lower-cased copy.
proof fn lemma_mention_at_lowered(b: Seq<char>, i: int)
    ensures
        mention_at(b, i) <==> crate::text::occurs_at(
            ascii_lowered(b),
            "@ai-bot"@,
            i,
        ),
{
    reveal_strlit("@ai-bot");
    let l = ascii_lowered(b);
    let needle = "@ai-bot"@;
    assert(needle =~= seq!['@', 'a', 'i', '-', 'b', 'o', 't']);
    if 0 <= i && i + 7 <= b.len() {
        lemma_same_ignoring_case(b[i], '@');
        lemma_same_ignoring_case(b[i + 1], 'a');
        lemma_same_ignoring_case(b[i + 2], 'i');
        lemma_same_ignoring_case(b[i + 3], '-');
        lemma_same_ignoring_case(b[i + 4], 'b');
        lemma_same_ignoring_case(b[i + 5], 'o');
        lemma_same_ignoring_case(b[i + 6], 't');
        if mention_at(b, i) {
            assert(l.subrange(i, i + 7) =~= needle);
        }
        if crate::text::occurs_at(l, needle, i) {
            assert(l.subrange(i, i + 7)[0] == l[i]);
            assert(l.subrange(i, i + 7)[1] == l[i + 1]);
            assert(l.subrange(i, i + 7)[2] == l[i + 2]);
            assert(l.subrange(i, i + 7)[3] == l[i + 3]);
            assert(l.subrange(i, i + 7)[4] == l[i + 4]);
            assert(l.subrange(i, i + 7)[5] == l[i + 5]);
            assert(l.subrange(i, i + 7)[6] == l[i + 6]);
        }
    }
}

proof fn lemma_first_mention_lowered(b: Seq<char>, i: int)
    requires
        0 <= i,
        forall|j: int| 0 <= j < i ==> !#[trigger] crate::text::occurs_at(
            ascii_lowered(b),
            "@ai-bot"@,
            j,
        ),
    ensures
        match first_mention_from(b, i) {
            Some(p) => crate::text::is_first_occurrence(
                ascii_lowered(b),
                "@ai-bot"@,
                p,
            ),
            None => !crate::text::contains(
                ascii_lowered(b),
                "@ai-bot"@,
            ),
        },
    decreases b.len() - i,
{
    reveal_strlit("@ai-bot");
    let l = ascii_lowered(b);
    let needle = "@ai-bot"@;
    if i + 7 > b.len() {
        assert forall|j: int| !#[trigger] crate::text::occurs_at(l, needle, j) by {
            if j >= i {
                assert(!(j + needle.len() <= l.len()));
            }
        }
    } else {
        lemma_mention_at_lowered(b, i);
        if !mention_at(b, i) {
            lemma_first_mention_lowered(b, i + 1);
        }
    }
}

/// On a body that is ASCII text, the command is what the lower-case-then-find
/// reading gives: lower-case the body (the ASCII mapping, which is what
/// `str::to_lowercase` does on ASCII text), find the first "@ai-bot" there,
/// and take the trimmed body after it. In fact the search agrees for every
/// body with the ASCII-lower-cased copy.
pub proof fn law_ai_command_as_lowered(b: Seq<char>)
    ensures
        ai_command_of(b) == command_after_lowered(b, ascii_lowered(b)),
{
    let l = ascii_lowered(b);
    lemma_first_mention_lowered(b, 0);
    match first_mention_from(b, 0) {
        Some(p) => {
            crate::text::lemma_first_index(l, "@ai-bot"@, p);
        },
        None => {},
    }
}

fn same_ignoring_case_exec(c: char, n: char) -> (b: bool)
    requires
        'a' <= n <= 'z' || n == '@' || n == '-',
    ensures
        b == same_ignoring_case(c, n),
{
    if c == n {
        true
    } else if 'a' <= n && n <= 'z' {
        (c as u32) + 32 == (n as u32)
    } else {
        false
    }
}

fn mention_at_exec(s: &Vec<char>, i: usize) -> (b: bool)
    requires
        i + 7 <= s.len(),
    ensures
        b == mention_at(s@, i as int),
{
    same_ignoring_case_exec(s[i], '@') && same_ignoring_case_exec(s[i + 1], 'a')
        && same_ignoring_case_exec(s[i + 2], 'i') && same_ignoring_case_exec(s[i + 3], '-')
        && same_ignoring_case_exec(s[i + 4], 'b') && same_ignoring_case_exec(s[i + 5], 'o')
        && same_ignoring_case_exec(s[i + 6], 't')
}

/// The first position of the mention in the text.
fn find_mention(s: &Vec<char>) -> (r: Option<usize>)
    ensures
        match r {
            Some(p) => first_mention_from(s@, 0) == Some(p as int),
            None => first_mention_from(s@, 0) is None,
        },
{
    if s.len() < 7 {
        return None;
    }
    let last: usize = s.len() - 7;
    let mut i: usize = 0;
    while i <= last
        invariant
            last + 7 == s.len(),
            i <= last + 1,
            first_mention_from(s@, 0) == first_mention_from(s@, i as int),
        decreases last + 1 - i,
    {
        if mention_at_exec(s, i) {
            return Some(i);
        }
        i = i + 1;
    }
    None
}

impl IssueCommentPayload {
    /// Whether the comment mentions "@ai-bot" (any case).
    pub fn mentions_ai_bot(&self) -> (b: bool)
        ensures
            b == crate::text::contains(crate::text::lowercase(self.comment.body@), "@ai-bot"@),
    {
        let lower = to_lower(self.comment.body.as_str());
        let l = chars_of(lower.as_str());
        contains_chars(&l, &chars_of("@ai-bot"))
    }

    /// The command written after the "@ai-bot" mention, if any.
    pub fn parse_ai_command(&self) -> (r: Option<String>)
        ensures
            r matches Some(c) ==> ai_command_of(self.comment.body@) == Some(c@),
            r is None ==> ai_command_of(self.comment.body@) is None,
    {
        let b = chars_of(self.comment.body.as_str());
        match find_mention(&b) {
            Some(pos) => {
                proof {
                    assert(pos + 7 <= b@.len()) by {
                        lemma_first_mention_found(b@, 0, pos as int);
                    }
                }
                let rest = slice_chars(&b, pos + 7, b.len());
                assert(rest@ =~= self.comment.body@.skip(pos + 7));
                let t = trim_chars(&rest);
                if t.len() > 0 {
                    Some(string_from_chars(t.as_slice()))
                } else {
                    None
                }
            },
            None => None,
        }
    }
}

/// A position found by `first_mention_from` holds the mention.
proof fn lemma_first_mention_found(s: Seq<char>, i: int, p: int)
    requires
        first_mention_from(s, i) == Some(p),
    ensures
        mention_at(s, p),
        i <= p,
    decreases s.len() - i,
{
    if i < 0 || i + 7 > s.len() {
    } else if mention_at(s, i) {
    } else {
        lemma_first_mention_found(s, i + 1, p);
    }
}

/// Whether a branch matches a pattern: "x/*" matches every branch beginning with
/// "x/", any other pattern only the branch of that exact name.
pub open spec fn branch_matches(branch: Seq<char>, pattern: Seq<char>) -> bool {
    if crate::text::ends_with(pattern, "/*"@) {
        crate::text::starts_with(branch, pattern.drop_last())
    } else {
        branch == pattern
    }
}

/// Some pattern of the list matches the branch.
pub open spec fn any_matches(patterns: Seq<Seq<char>>, branch: Seq<char>) -> bool {
    exists|i: int| 0 <= i < patterns.len() && branch_matches(branch, #[trigger] patterns[i])
}

/// Branch rules for automation: where it may push, and which branches are protected.
#[derive(Debug, Clone)]
pub struct BranchValidator {
    allowed_patterns: Vec<String>,
    blocked_patterns: Vec<String>,
}

impl Default for BranchValidator {
    fn default() -> (r: Self)
        ensures
            r.allowed_view() == default_allowed(),
            r.blocked_view() == default_blocked(),
    {
        BranchValidator::new()
    }
}

/// fix/*, hotfix/*, ai-fix/*, config/*, refactor/*.
pub open spec fn default_allowed() -> Seq<Seq<char>> {
    seq!["fix/*"@, "hotfix/*"@, "ai-fix/*"@, "config/*"@, "refactor/*"@]
}

/// main, master, dev, release/*.
pub open spec fn default_blocked() -> Seq<Seq<char>> {
    seq!["main"@, "master"@, "dev"@, "release/*"@]
}

/// A pattern "x/*" matches exactly the branches that begin with "x/".
proof fn lemma_prefix_pattern(b: Seq<char>, pattern: Seq<char>, prefix: Seq<char>)
    requires
        pattern == prefix + "*"@,
        prefix.len() > 0,
        prefix.last() == '/',
        "/*"@ == seq!['/', '*'],
        "*"@ == seq!['*'],
    ensures
        branch_matches(b, pattern) == crate::text::starts_with(b, prefix),
{
    assert(pattern.skip(pattern.len() - 2) =~= "/*"@);
    assert(pattern.drop_last() =~= prefix);
}

/// A pattern without the "/*" ending matches only the branch of that name.
proof fn lemma_exact_pattern(b: Seq<char>, pattern: Seq<char>)
    requires
        pattern.len() >= 2,
        pattern.last() != '*',
        "/*"@ == seq!['/', '*'],
    ensures
        branch_matches(b, pattern) == (b == pattern),
{
    if crate::text::ends_with(pattern, "/*"@) {
        assert(pattern.skip(pattern.len() - 2)[1] == pattern.last());
    }
}

/// The default rules: a branch may be pushed exactly when it begins with
/// "fix/", "hotfix/", "ai-fix/", "config/" or "refactor/", and is protected
/// exactly when it is main, master or dev or begins with "release/".
pub proof fn law_default_branch_rules(b: Seq<char>)
    ensures
        any_matches(default_allowed(), b) <==> (crate::text::starts_with(b, "fix/"@)
            || crate::text::starts_with(b, "hotfix/"@) || crate::text::starts_with(b, "ai-fix/"@)
            || crate::text::starts_with(b, "config/"@) || crate::text::starts_with(b, "refactor/"@)),
        any_matches(default_blocked(), b) <==> (b == "main"@ || b == "master"@ || b == "dev"@
            || crate::text::starts_with(b, "release/"@)),
{
    reveal_strlit("/*");
    reveal_strlit("*");
    reveal_strlit("fix/*");
    reveal_strlit("hotfix/*");
    reveal_strlit("ai-fix/*");
    reveal_strlit("config/*");
    reveal_strlit("refactor/*");
    reveal_strlit("release/*");
    reveal_strlit("fix/");
    reveal_strlit("hotfix/");
    reveal_strlit("ai-fix/");
    reveal_strlit("config/");
    reveal_strlit("refactor/");
    reveal_strlit("release/");
    reveal_strlit("main");
    reveal_strlit("master");
    reveal_strlit("dev");
    assert("/*"@ =~= seq!['/', '*']);
    assert("*"@ =~= seq!['*']);
    let a = default_allowed();
    let k = default_blocked();
    assert("fix/*"@ =~= "fix/"@ + "*"@);
    assert("hotfix/*"@ =~= "hotfix/"@ + "*"@);
    assert("ai-fix/*"@ =~= "ai-fix/"@ + "*"@);
    assert("config/*"@ =~= "config/"@ + "*"@);
    assert("refactor/*"@ =~= "refactor/"@ + "*"@);
    assert("release/*"@ =~= "release/"@ + "*"@);
    lemma_prefix_pattern(b, a[0], "fix/"@);
    lemma_prefix_pattern(b, a[1], "hotfix/"@);
    lemma_prefix_pattern(b, a[2], "ai-fix/"@);
    lemma_prefix_pattern(b, a[3], "config/"@);
    lemma_prefix_pattern(b, a[4], "refactor/"@);
    lemma_exact_pattern(b, k[0]);
    lemma_exact_pattern(b, k[1]);
    lemma_exact_pattern(b, k[2]);
    lemma_prefix_pattern(b, k[3], "release/"@);
    if any_matches(a, b) {
        let i = choose|i: int| 0 <= i < a.len() && branch_matches(b, #[trigger] a[i]);
        assert(i == 0 || i == 1 || i == 2 || i == 3 || i == 4);
    }
    if any_matches(k, b) {
        let i = choose|i: int| 0 <= i < k.len() && branch_matches(b, #[trigger] k[i]);
        assert(i == 0 || i == 1 || i == 2 || i == 3);
    }
}

fn any_pattern_matches(patterns: &Vec<String>, branch: &str) -> (b: bool)
    ensures
        b == any_matches(patterns@.map_values(|p: String| p@), branch@),
{
    let ghost ps = patterns@.map_values(|p: String| p@);
    let mut i: usize = 0;
    while i < patterns.len()
        invariant
            i <= patterns@.len(),
            ps == patterns@.map_values(|p: String| p@),
            forall|j: int| 0 <= j < i ==> !branch_matches(branch@, #[trigger] ps[j]),
        decreases patterns.len() - i,
    {
        if BranchValidator::matches_pattern(branch, patterns[i].as_str()) {
            assert(branch_matches(branch@, ps[i as int]));
            return true;
        }
        i = i + 1;
    }
    false
}

impl BranchValidator {
    pub closed spec fn allowed_view(&self) -> Seq<Seq<char>> {
        self.allowed_patterns@.map_values(|p: String| p@)
    }

    pub closed spec fn blocked_view(&self) -> Seq<Seq<char>> {
        self.blocked_patterns@.map_values(|p: String| p@)
    }

    /// The rules of the security governance: fix/*, hotfix/*, ai-fix/*, config/*
    /// and refactor/* are allowed; main, master, dev and release/* are blocked.
    pub fn new() -> (r: Self)
        ensures
            r.allowed_view() == default_allowed(),
            r.blocked_view() == default_blocked(),
    {
        let allowed: Vec<String> = vec![
            owned("fix/*"),
            owned("hotfix/*"),
            owned("ai-fix/*"),
            owned("config/*"),
            owned("refactor/*"),
        ];
        let blocked: Vec<String> = vec![owned("main"), owned("master"), owned("dev"), owned("release/*")];
        let r = BranchValidator { allowed_patterns: allowed, blocked_patterns: blocked };
        assert(r.allowed_view() =~= default_allowed());
        assert(r.blocked_view() =~= default_blocked());
        r
    }

    /// Whether a branch matches a pattern (see `branch_matches`).
    pub fn matches_pattern(branch: &str, pattern: &str) -> (b: bool)
        ensures
            b == branch_matches(branch@, pattern@),
    {
        let p = chars_of(pattern);
        let tail = chars_of("/*");
        proof {
            reveal_strlit("/*");
        }
        if crate::text::ends_with_chars(&p, &tail) {
            let prefix = slice_chars(&p, 0, p.len() - 1);
            assert(prefix@ =~= pattern@.drop_last());
            let bv = chars_of(branch);
            crate::text::starts_with_chars(&bv, &prefix)
        } else {
            str_eq(branch, pattern)
        }
    }

    /// Whether the branch matches an allowed pattern.
    pub fn is_allowed(&self, branch: &str) -> (b: bool)
        ensures
            b == any_matches(self.allowed_view(), branch@),
    {
        any_pattern_matches(&self.allowed_patterns, branch)
    }

    /// Whether the branch matches a blocked pattern.
    pub fn is_blocked(&self, branch: &str) -> (b: bool)
        ensures
            b == any_matches(self.blocked_view(), branch@),
    {
        any_pattern_matches(&self.blocked_patterns, branch)
    }

    /// A pull request is refused when its source branch is blocked; the target
    /// branch may be any branch.
    pub fn validate_pr_branches(&self, head_ref: &str, base_ref: &str) -> (r: Result<
        (),
        BranchValidationError,
    >)
        ensures
            r is Ok <==> !any_matches(self.blocked_view(), head_ref@),
            r matches Err(e) ==> (e matches BranchValidationError::BlockedSourceBranch(b) && b@
                == head_ref@),
    {
        if self.is_blocked(head_ref) {
            return Err(BranchValidationError::BlockedSourceBranch(owned(head_ref)));
        }
        Ok(())
    }
}

/// Why a pull request's branches were refused.
#[derive(Debug, Clone, PartialEq)]
pub enum BranchValidationError {
    BlockedSourceBranch(String),
    BlockedTargetBranch(String),
}

impl BranchValidationError {
    /// The message describing the refusal.
    pub fn to_string(&self) -> (r: String)
        ensures
            r@ == match self {
                BranchValidationError::BlockedSourceBranch(b) => "Source branch '"@ + b@
                    + "' is blocked for AI automation"@,
                BranchValidationError::BlockedTargetBranch(b) => "Target branch '"@ + b@
                    + "' is blocked for AI automation"@,
            },
    {
        match self {
            BranchValidationError::BlockedSourceBranch(b) => join2(
                join2("Source branch '", b.as_str()).as_str(),
                "' is blocked for AI automation",
            ),
            BranchValidationError::BlockedTargetBranch(b) => join2(
                join2("Target branch '", b.as_str()).as_str(),
                "' is blocked for AI automation",
            ),
        }
    }
}

/// The outcome of checking a GitHub signature header ("sha256=" and the hex of
/// the HMAC-SHA256 of the body under the secret).
pub open spec fn github_signature_check(secret: Seq<u8>, signature: Seq<char>, body: Seq<u8>) -> Result<
    (),
    (ErrorKind, Seq<char>),
> {
    if !crate::text::starts_with(signature, "sha256="@) {
        Err((ErrorKind::Unauthorized, "Invalid signature format"@))
    } else {
        match crate::crypto::hex_decoded(vstd::utf8::encode_utf8(signature.skip(7))) {
            None => Err((ErrorKind::Unauthorized, "Invalid signature format"@)),
            Some(tag) => if tag.len() == 32 && tag == crate::crypto::hmac_sha256_tag(secret, body) {
                Ok(())
            } else {
                Err((ErrorKind::Unauthorized, "Signature mismatch"@))
            },
        }
    }
}

/// Checks a GitHub signature header against the body and the webhook secret.
pub fn verify_github_signature(secret: &str, signature: &str, body: &[u8]) -> (r: Result<
    (),
    AppError,
>)
    ensures
        crate::error::result_view(r) == github_signature_check(
            secret.spec_bytes(),
            signature@,
            body@,
        ),
{
    proof {
        reveal_strlit("sha256=");
    }
    if !str_starts_with(signature, "sha256=") {
        return Err(AppError::Unauthorized(owned("Invalid signature format")));
    }
    let sv = chars_of(signature);
    let hex_part = slice_chars(&sv, 7, sv.len());
    let hex_text = string_from_chars(hex_part.as_slice());
    assert(hex_text@ =~= signature@.skip(7));
    let tag = match hex_decode(hex_text.as_str()) {
        Some(t) => t,
        None => {
            return Err(AppError::Unauthorized(owned("Invalid signature format")));
        },
    };
    if !hmac_sha256_matches(secret.as_bytes(), body, tag.as_slice()) {
        return Err(AppError::Unauthorized(owned("Signature mismatch")));
    }
    Ok(())
}

fn member(key: &str, value: String) -> (r: (String, String))
    ensures
        r.0@ == key@,
        r.1@ == value@,
{
    (owned(key), value)
}

fn opt_ref(o: &Option<String>) -> (r: Option<&str>)
    ensures
        match o {
            Some(s) => r matches Some(t) && t@ == s@,
            None => r is None,
        },
{
    match o {
        Some(s) => Some(s.as_str()),
        None => None,
    }
}

fn names_of(labels: &Vec<GitHubLabel>) -> (r: Vec<String>)
    ensures
        r@.map_values(|s: String| s@) == label_names(labels@),
{
    let mut r: Vec<String> = Vec::new();
    let mut i: usize = 0;
    while i < labels.len()
        invariant
            i <= labels@.len(),
            r@.len() == i,
            forall|j: int| 0 <= j < i ==> (#[trigger] r@[j])@ == labels@[j].name@,
        decreases labels.len() - i,
    {
        let name = owned(labels[i].name.as_str());
        r.push(name);
        i = i + 1;
    }
    assert(r@.map_values(|s: String| s@) =~= label_names(labels@));
    r
}

pub open spec fn opt_json(o: Option<String>) -> Seq<char> {
    match o {
        Some(s) => crate::json::json_string(s@),
        None => "null"@,
    }
}

/// The payload of an event for a newly opened issue.
pub open spec fn issue_opened_members(p: IssuesPayload) -> Seq<(Seq<char>, Seq<char>)> {
    seq![
        ("action"@, crate::json::json_string("opened"@)),
        ("issue_body"@, opt_json(p.issue.body)),
        ("issue_number"@, crate::text::int_text(p.issue.number as int)),
        ("issue_title"@, crate::json::json_string(p.issue.title@)),
        ("labels"@, crate::json::string_array_text(label_names(p.issue.labels@))),
        ("repository"@, crate::json::json_string(p.repository.full_name@)),
        ("sender"@, crate::json::json_string(p.sender.login@)),
    ]
}

/// The payload of an event for a label added to an issue.
pub open spec fn issue_labeled_members(p: IssuesPayload, label: Seq<char>) -> Seq<
    (Seq<char>, Seq<char>),
> {
    seq![
        ("action"@, crate::json::json_string("labeled"@)),
        ("issue_body"@, opt_json(p.issue.body)),
        ("issue_number"@, crate::text::int_text(p.issue.number as int)),
        ("issue_title"@, crate::json::json_string(p.issue.title@)),
        ("label"@, crate::json::json_string(label)),
        ("repository"@, crate::json::json_string(p.repository.full_name@)),
        ("sender"@, crate::json::json_string(p.sender.login@)),
    ]
}

/// Which event an issues delivery leads to, by type.
pub open spec fn issues_event_type(p: IssuesPayload) -> Option<Seq<char>> {
    if p.action@ == "opened"@ {
        if label_names(p.issue.labels@).contains("ai-review"@) {
            Some("github.issue_opened"@)
        } else {
            None
        }
    } else if p.action@ == "labeled"@ {
        if adds_label(p.action@, p.label, "ai-fix"@) || adds_label(
            p.action@,
            p.label,
            "ai-review"@,
        ) {
            Some("github.issue_labeled"@)
        } else {
            None
        }
    } else {
        None
    }
}

/// The event an issues delivery leads to: an opened issue carrying "ai-review",
/// or an "ai-fix" (else "ai-review") label being added.
pub fn handle_issues_event(payload: IssuesPayload) -> (r: Result<Option<Event>, AppError>)
    ensures
        r matches Ok(o) && match o {
            Some(e) => {
                &&& issues_event_type(payload) matches Some(t) && e.event_type@ == t
                &&& e.source@ == "github"@
                &&& e.priority == Priority::P1
                &&& e.metadata.user matches Some(u) && u@ == payload.sender.login@
                &&& e.data@ == crate::json::object_text(
                    if payload.action@ == "opened"@ {
                        issue_opened_members(payload)
                    } else if adds_label(payload.action@, payload.label, "ai-fix"@) {
                        issue_labeled_members(payload, "ai-fix"@)
                    } else {
                        issue_labeled_members(payload, "ai-review"@)
                    },
                )
            },
            None => issues_event_type(payload) is None,
        },
{
    if str_eq(payload.action.as_str(), "opened") {
        if payload.has_label("ai-review") {
            let mut ms: Vec<(String, String)> = Vec::new();
            ms.push(member("action", json_str("opened")));
            ms.push(member("issue_body", json_opt_str(opt_ref(&payload.issue.body))));
            ms.push(member("issue_number", json_int(payload.issue.number)));
            ms.push(member("issue_title", json_str(payload.issue.title.as_str())));
            ms.push(member("labels", json_str_array(&names_of(&payload.issue.labels))));
            ms.push(member("repository", json_str(payload.repository.full_name.as_str())));
            ms.push(member("sender", json_str(payload.sender.login.as_str())));
            assert(crate::json::member_views(ms@) =~= issue_opened_members(payload));
            let data = json_object(&ms);
            let event = Event::new("github.issue_opened", "github", Priority::P1, data.as_str())
                .with_user(payload.sender.login.as_str());
            return Ok(Some(event));
        }
        return Ok(None);
    }
    if str_eq(payload.action.as_str(), "labeled") {
        let label: &str;
        if payload.is_adding_label("ai-fix") {
            label = "ai-fix";
        } else if payload.is_adding_label("ai-review") {
            label = "ai-review";
        } else {
            return Ok(None);
        }
        let mut ms: Vec<(String, String)> = Vec::new();
        ms.push(member("action", json_str("labeled")));
        ms.push(member("issue_body", json_opt_str(opt_ref(&payload.issue.body))));
        ms.push(member("issue_number", json_int(payload.issue.number)));
        ms.push(member("issue_title", json_str(payload.issue.title.as_str())));
        ms.push(member("label", json_str(label)));
        ms.push(member("repository", json_str(payload.repository.full_name.as_str())));
        ms.push(member("sender", json_str(payload.sender.login.as_str())));
        assert(crate::json::member_views(ms@) =~= issue_labeled_members(payload, label@));
        let data = json_object(&ms);
        let event = Event::new("github.issue_labeled", "github", Priority::P1, data.as_str())
            .with_user(payload.sender.login.as_str());
        return Ok(Some(event));
    }
    Ok(None)
}

/// The payload of an event for a comment mentioning the bot.
pub open spec fn comment_members(p: IssueCommentPayload) -> Seq<(Seq<char>, Seq<char>)> {
    seq![
        ("action"@, crate::json::json_string("created"@)),
        (
            "ai_command"@,
            match ai_command_of(p.comment.body@) {
                Some(c) => crate::json::json_string(c),
                None => "null"@,
            },
        ),
        ("comment_body"@, crate::json::json_string(p.comment.body@)),
        ("comment_id"@, crate::text::int_text(p.comment.id as int)),
        ("issue_number"@, crate::text::int_text(p.issue.number as int)),
        ("issue_title"@, crate::json::json_string(p.issue.title@)),
        ("repository"@, crate::json::json_string(p.repository.full_name@)),
        ("sender"@, crate::json::json_string(p.sender.login@)),
    ]
}

/// The event a comment delivery leads to: a newly created comment that mentions
/// "@ai-bot".
pub fn handle_issue_comment_event(payload: IssueCommentPayload) -> (r: Result<
    Option<Event>,
    AppError,
>)
    ensures
        r matches Ok(o) && match o {
            Some(e) => {
                &&& payload.action@ == "created"@
                &&& crate::text::contains(crate::text::lowercase(payload.comment.body@), "@ai-bot"@)
                &&& e.event_type@ == "github.issue_comment_created"@
                &&& e.source@ == "github"@
                &&& e.priority == Priority::P1
                &&& e.metadata.user matches Some(u) && u@ == payload.sender.login@
                &&& e.data@ == crate::json::object_text(comment_members(payload))
            },
            None => payload.action@ != "created"@ || !crate::text::contains(
                crate::text::lowercase(payload.comment.body@),
                "@ai-bot"@,
            ),
        },
{
    if !str_eq(payload.action.as_str(), "created") {
        return Ok(None);
    }
    if !payload.mentions_ai_bot() {
        return Ok(None);
    }
    let cmd = payload.parse_ai_command();
    let cmd_json = match &cmd {
        Some(c) => json_str(c.as_str()),
        None => String::from_str("null"),
    };
    let mut ms: Vec<(String, String)> = Vec::new();
    ms.push(member("action", json_str("created")));
    ms.push(member("ai_command", cmd_json));
    ms.push(member("comment_body", json_str(payload.comment.body.as_str())));
    ms.push(member("comment_id", json_int(payload.comment.id)));
    ms.push(member("issue_number", json_int(payload.issue.number)));
    ms.push(member("issue_title", json_str(payload.issue.title.as_str())));
    ms.push(member("repository", json_str(payload.repository.full_name.as_str())));
    ms.push(member("sender", json_str(payload.sender.login.as_str())));
    assert(crate::json::member_views(ms@) =~= comment_members(payload));
    let data = json_object(&ms);
    let event = Event::new("github.issue_comment_created", "github", Priority::P1, data.as_str())
        .with_user(payload.sender.login.as_str());
    Ok(Some(event))
}

/// The payload of an event for a pull request.
pub open spec fn pr_members(p: PullRequestPayload, opened: bool) -> Seq<(Seq<char>, Seq<char>)> {
    let head = seq![
        ("action"@, crate::json::json_string(if opened { "opened"@ } else { "labeled"@ })),
        ("base_ref"@, crate::json::json_string(p.pull_request.base.ref_name@)),
        ("branch_validated"@, "true"@),
        ("head_ref"@, crate::json::json_string(p.pull_request.head.ref_name@)),
        ("head_sha"@, crate::json::json_string(p.pull_request.head.sha@)),
    ];
    let mid = if opened {
        seq![("labels"@, crate::json::string_array_text(label_names(p.pull_request.labels@)))]
    } else {
        seq![("label"@, crate::json::json_string("ai-review"@))]
    };
    head + mid + seq![
        ("pr_body"@, opt_json(p.pull_request.body)),
        ("pr_number"@, crate::text::int_text(p.pull_request.number as int)),
        ("pr_title"@, crate::json::json_string(p.pull_request.title@)),
        ("repository"@, crate::json::json_string(p.repository.full_name@)),
        ("sender"@, crate::json::json_string(p.sender.login@)),
    ]
}

/// Which event a pull-request delivery leads to, by type.
pub open spec fn pr_event_type(p: PullRequestPayload) -> Option<Seq<char>> {
    if any_matches(default_blocked(), p.pull_request.head.ref_name@) {
        None
    } else if p.action@ == "opened"@ {
        if label_names(p.pull_request.labels@).contains("ai-review"@) {
            Some("github.pr_opened"@)
        } else {
            None
        }
    } else if adds_label(p.action@, p.label, "ai-review"@) {
        Some("github.pr_labeled"@)
    } else {
        None
    }
}

/// The event a pull-request delivery leads to. Deliveries whose source branch is
/// blocked are ignored; otherwise an opened pull request carrying "ai-review", or
/// the "ai-review" label being added, leads to an event.
pub fn handle_pull_request_event(payload: PullRequestPayload) -> (r: Result<
    Option<Event>,
    AppError,
>)
    ensures
        r matches Ok(o) && match o {
            Some(e) => {
                &&& pr_event_type(payload) matches Some(t) && e.event_type@ == t
                &&& e.source@ == "github"@
                &&& e.priority == Priority::P2
                &&& e.metadata.user matches Some(u) && u@ == payload.sender.login@
                &&& e.data@ == crate::json::object_text(
                    pr_members(payload, payload.action@ == "opened"@),
                )
            },
            None => pr_event_type(payload) is None,
        },
{
    let validator = BranchValidator::new();
    match validator.validate_pr_branches(
        payload.pull_request.head.ref_name.as_str(),
        payload.pull_request.base.ref_name.as_str(),
    ) {
        Err(_) => {
            return Ok(None);
        },
        Ok(()) => {},
    }
    let opened = str_eq(payload.action.as_str(), "opened");
    let event_type: &str;
    if opened {
        if !payload.has_label("ai-review") {
            return Ok(None);
        }
        event_type = "github.pr_opened";
    } else if payload.is_adding_label("ai-review") {
        event_type = "github.pr_labeled";
    } else {
        return Ok(None);
    }
    let mut ms: Vec<(String, String)> = Vec::new();
    ms.push(member("action", json_str(if opened { "opened" } else { "labeled" })));
    ms.push(member("base_ref", json_str(payload.pull_request.base.ref_name.as_str())));
    ms.push(member("branch_validated", json_bool(true)));
    ms.push(member("head_ref", json_str(payload.pull_request.head.ref_name.as_str())));
    ms.push(member("head_sha", json_str(payload.pull_request.head.sha.as_str())));
    if opened {
        ms.push(member("labels", json_str_array(&names_of(&payload.pull_request.labels))));
    } else {
        ms.push(member("label", json_str("ai-review")));
    }
    ms.push(member("pr_body", json_opt_str(opt_ref(&payload.pull_request.body))));
    ms.push(member("pr_number", json_int(payload.pull_request.number)));
    ms.push(member("pr_title", json_str(payload.pull_request.title.as_str())));
    ms.push(member("repository", json_str(payload.repository.full_name.as_str())));
    ms.push(member("sender", json_str(payload.sender.login.as_str())));
    assert(crate::json::member_views(ms@) =~= pr_members(payload, opened));
    let data = json_object(&ms);
    let event = Event::new(event_type, "github", Priority::P2, data.as_str()).with_user(
        payload.sender.login.as_str(),
    );
    Ok(Some(event))
}

/// A pull request from a blocked source branch never leads to an event,
/// whatever its action and labels.
pub proof fn blocked_source_branch_never_triggers(p: PullRequestPayload)
    requires
        any_matches(default_blocked(), p.pull_request.head.ref_name@),
    ensures
        pr_event_type(p) is None,
{
}

/// Checks a delivery as the webhook endpoint does: the signature header
/// must be present (`Unauthorized`), the secret configured
/// (`InternalError`), and the signature valid.
pub fn verify_github_request(signature: Option<&str>, secret: Option<&str>, body: &[u8]) -> (r: Result<(), AppError>)
    ensures
        signature is None ==> (r matches Err(e) && e@ == (ErrorKind::Unauthorized, "Missing signature header"@)),
        signature is Some && secret is None ==> (r matches Err(e)
            && e@ == (ErrorKind::InternalError, "GITHUB_WEBHOOK_SECRET not configured"@)),
        match (signature, secret) {
            (Some(s), Some(k)) => crate::error::result_view(r) == github_signature_check(k.spec_bytes(), s@, body@),
            _ => r is Err,
        },
{
    let s = match signature {
        Some(s) => s,
        None => {
            return Err(AppError::Unauthorized(owned("Missing signature header")));
        },
    };
    let k = match secret {
        Some(k) => k,
        None => {
            return Err(AppError::InternalError(owned("GITHUB_WEBHOOK_SECRET not configured")));
        },
    };
    verify_github_signature(k, s, body)
}

/// The event a delivery announces in its `X-GitHub-Event` header, which must
/// be present.
pub fn event_type_header(header: Option<&str>) -> (r: Result<GitHubEventType, AppError>)
    ensures
        header is None ==> (r matches Err(e) && e@ == (ErrorKind::BadRequest, "Missing X-GitHub-Event header"@)),
        header is Some ==> r is Ok,
{
    match header {
        Some(h) => Ok(GitHubEventType::from(h)),
        None => Err(AppError::BadRequest(owned("Missing X-GitHub-Event header"))),
    }
}

} // verus!
