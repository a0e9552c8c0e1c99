//! Safeguards for automated code fixes: the checks a fix must pass, the
//! limits on its size, and which paths it may touch.
use vstd::prelude::*;
use crate::replace::replace_str;
use crate::text::{i64_text, join2, owned, string_from_chars};

verus! {

/// Checks a fix must pass before it is applied. The first four are required,
/// the last three are recommended.
#[derive(Debug, Clone)]
pub struct SafetyChecks {
    pub syntax_valid: bool,
    pub compiles: bool,
    pub tests_pass: bool,
    pub no_security_impact: bool,
    pub clippy_clean: bool,
    pub coverage_maintained: bool,
    pub no_breaking_changes: bool,
}

/// All seven checks are false.
pub open spec fn none_passed(c: SafetyChecks) -> bool {
    !c.syntax_valid && !c.compiles && !c.tests_pass && !c.no_security_impact && !c.clippy_clean
        && !c.coverage_maintained && !c.no_breaking_changes
}

/// The four required checks all passed.
pub open spec fn required_passed(c: SafetyChecks) -> bool {
    c.syntax_valid && c.compiles && c.tests_pass && c.no_security_impact
}

/// `x` when `b` holds, nothing otherwise.
pub open spec fn when(b: bool, x: Seq<char>) -> Seq<Seq<char>> {
    if b {
        seq![x]
    } else {
        Seq::empty()
    }
}

/// Messages for every failed check, required ones first, in declaration order.
pub open spec fn failure_messages(c: SafetyChecks) -> Seq<Seq<char>> {
    when(!c.syntax_valid, "syntax_valid: 문법 검증 실패"@) + when(
        !c.compiles,
        "compiles: 컴파일 실패"@,
    ) + when(!c.tests_pass, "tests_pass: 테스트 실패"@) + when(
        !c.no_security_impact,
        "no_security_impact: 보안 영향 검증 실패"@,
    ) + when(!c.clippy_clean, "clippy_clean: Clippy 경고 존재 (권장)"@) + when(
        !c.coverage_maintained,
        "coverage_maintained: 커버리지 저하 (권장)"@,
    ) + when(!c.no_breaking_changes, "no_breaking_changes: API 호환성 문제 (권장)"@)
}

fn push_if(v: &mut Vec<String>, b: bool, msg: &str)
    ensures
        final(v)@.map_values(|s: String| s@) == old(v)@.map_values(|s: String| s@) + when(
            b,
            msg@,
        ),
{
    let ghost before = v@.map_values(|s: String| s@);
    if b {
        v.push(owned(msg));
        assert(v@.map_values(|s: String| s@) =~= before + when(b, msg@));
    } else {
        assert(v@.map_values(|s: String| s@) =~= before + when(b, msg@));
    }
}

impl Default for SafetyChecks {
    fn default() -> (r: Self)
        ensures
            none_passed(r),
    {
        SafetyChecks::new()
    }
}

impl SafetyChecks {
    /// A new set of checks with every item false.
    pub fn new() -> (r: Self)
        ensures
            none_passed(r),
    {
        SafetyChecks {
            syntax_valid: false,
            compiles: false,
            tests_pass: false,
            no_security_impact: false,
            clippy_clean: false,
            coverage_maintained: false,
            no_breaking_changes: false,
        }
    }

    /// Whether all required checks passed.
    pub fn is_safe(&self) -> (b: bool)
        ensures
            b == required_passed(*self),
    {
        self.syntax_valid && self.compiles && self.tests_pass && self.no_security_impact
    }

    /// `Ok` exactly when the required checks passed; otherwise the messages of every
    /// failed check, recommended ones included.
    pub fn validate_all(&self) -> (r: Result<(), Vec<String>>)
        ensures
            r is Ok <==> required_passed(*self),
            r matches Err(v) ==> v@.map_values(|s: String| s@) == failure_messages(*self),
    {
        let mut failures: Vec<String> = Vec::new();
        assert(failures@.map_values(|s: String| s@) =~= Seq::<Seq<char>>::empty());
        push_if(&mut failures, !self.syntax_valid, "syntax_valid: 문법 검증 실패");
        push_if(&mut failures, !self.compiles, "compiles: 컴파일 실패");
        push_if(&mut failures, !self.tests_pass, "tests_pass: 테스트 실패");
        push_if(&mut failures, !self.no_security_impact, "no_security_impact: 보안 영향 검증 실패");
        push_if(&mut failures, !self.clippy_clean, "clippy_clean: Clippy 경고 존재 (권장)");
        push_if(
            &mut failures,
            !self.coverage_maintained,
            "coverage_maintained: 커버리지 저하 (권장)",
        );
        push_if(
            &mut failures,
            !self.no_breaking_changes,
            "no_breaking_changes: API 호환성 문제 (권장)",
        );
        assert(failures@.map_values(|s: String| s@) =~= failure_messages(*self));
        if self.is_safe() {
            Ok(())
        } else {
            Err(failures)
        }
    }

    /// Marks the four required checks as passed; the others are unchanged.
    pub fn set_all_required_passed(&mut self)
        ensures
            required_passed(*final(self)),
            final(self).clippy_clean == old(self).clippy_clean,
            final(self).coverage_maintained == old(self).coverage_maintained,
            final(self).no_breaking_changes == old(self).no_breaking_changes,
    {
        self.syntax_valid = true;
        self.compiles = true;
        self.tests_pass = true;
        self.no_security_impact = true;
    }

    /// Marks all seven checks as passed.
    pub fn set_all_passed(&mut self)
        ensures
            required_passed(*final(self)),
            final(self).clippy_clean,
            final(self).coverage_maintained,
            final(self).no_breaking_changes,
    {
        self.set_all_required_passed();
        self.clippy_clean = true;
        self.coverage_maintained = true;
        self.no_breaking_changes = true;
    }
}

/// Whether the regular expression compiles (`regex::Regex::new` succeeds).
pub uninterp spec fn regex_compiles(pattern: Seq<char>) -> bool;

/// Whether the compiled expression finds a match in the text (`Regex::is_match`).
pub uninterp spec fn regex_finds(pattern: Seq<char>, text: Seq<char>) -> bool;

/// Compiles `pattern` with `regex::Regex::new` and, when that succeeds, tests it
/// with `Regex::is_match`. Both results are deterministic functions of the
/// arguments; the regex semantics themselves are left to the two names.
#[verifier::external_body]
fn regex_match(pattern: &str, text: &str) -> (r: Option<bool>)
    ensures
        r == (if regex_compiles(pattern@) {
            Some(regex_finds(pattern@, text@))
        } else {
            None
        }),
{
    match regex::Regex::new(pattern) {
        Ok(re) => Some(re.is_match(text)),
        Err(_) => None,
    }
}

/// The anchored regular expression a glob pattern stands for: `.` is literal,
/// `**` matches anything and `*` matches anything but `/`.
pub open spec fn glob_regex(pattern: Seq<char>) -> Seq<char> {
    seq!['^'] + crate::replace::replace_all(
        crate::replace::replace_all(
            crate::replace::replace_all(
                crate::replace::replace_all(pattern, "."@, "\\."@),
                "**"@,
                "{{DOUBLE_STAR}}"@,
            ),
            "*"@,
            "[^/]*"@,
        ),
        "{{DOUBLE_STAR}}"@,
        ".*"@,
    ) + seq!['$']
}

/// Whether a path matches a glob pattern.
pub open spec fn glob_matches(path: Seq<char>, pattern: Seq<char>) -> bool {
    regex_compiles(glob_regex(pattern)) && regex_finds(glob_regex(pattern), path)
}

/// The first pattern of the list that the path matches.
pub open spec fn first_glob_match(patterns: Seq<Seq<char>>, path: Seq<char>) -> Option<
    Seq<char>,
>
    decreases patterns.len(),
{
    if patterns.len() == 0 {
        None
    } else if glob_matches(path, patterns[0]) {
        Some(patterns[0])
    } else {
        first_glob_match(patterns.drop_first(), path)
    }
}

/// Outcome of a path check, as plain text.
pub ghost enum ScopeView {
    Allowed(Seq<char>),
    Forbidden(Seq<char>),
    RequiresReview(Seq<char>),
}

/// Whether an automated fix may touch a path, and why.
#[derive(Debug, Clone, PartialEq, Eq)]
pub enum FixScope {
    Allowed(String),
    Forbidden(String),
    RequiresReview(String),
}

impl View for FixScope {
    type V = ScopeView;

    open spec fn view(&self) -> ScopeView {
        match self {
            FixScope::Allowed(r) => ScopeView::Allowed(r@),
            FixScope::Forbidden(r) => ScopeView::Forbidden(r@),
            FixScope::RequiresReview(r) => ScopeView::RequiresReview(r@),
        }
    }
}

impl FixScope {
    pub fn is_allowed(&self) -> (b: bool)
        ensures
            b == (self is Allowed),
    {
        match self {
            FixScope::Allowed(_) => true,
            _ => false,
        }
    }

    pub fn is_forbidden(&self) -> (b: bool)
        ensures
            b == (self is Forbidden),
    {
        match self {
            FixScope::Forbidden(_) => true,
            _ => false,
        }
    }

    pub fn requires_review(&self) -> (b: bool)
        ensures
            b == (self is RequiresReview),
    {
        match self {
            FixScope::RequiresReview(_) => true,
            _ => false,
        }
    }

    /// The reason text, whatever the outcome.
    pub fn reason(&self) -> (r: &str)
        ensures
            r@ == match self {
                FixScope::Allowed(s) => s@,
                FixScope::Forbidden(s) => s@,
                FixScope::RequiresReview(s) => s@,
            },
    {
        match self {
            FixScope::Allowed(reason) => reason.as_str(),
            FixScope::Forbidden(reason) => reason.as_str(),
            FixScope::RequiresReview(reason) => reason.as_str(),
        }
    }
}

/// The decision `check_path` reaches: a forbidden match wins, then an allowed
/// match, and otherwise a manual review is required.
pub open spec fn path_scope(
    forbidden: Seq<Seq<char>>,
    allowed: Seq<Seq<char>>,
    path: Seq<char>,
) -> ScopeView {
    match first_glob_match(forbidden, path) {
        Some(p) => ScopeView::Forbidden("금지된 경로: "@ + p),
        None => match first_glob_match(allowed, path) {
            Some(p) => ScopeView::Allowed("허용된 경로: "@ + p),
            None => ScopeView::RequiresReview(
                "경로가 허용 목록에 없음: "@ + path + ". 수동 검토 필요."@,
            ),
        },
    }
}

/// Limits on the size and place of an automated fix.
#[derive(Debug, Clone)]
pub struct FixLimits {
    pub max_files_per_fix: u32,
    pub max_lines_per_file: u32,
    pub max_functions_modified: u32,
    pub allowed_paths: Vec<String>,
    pub forbidden_paths: Vec<String>,
}

/// The pattern texts of a list of patterns.
pub open spec fn texts(v: Seq<String>) -> Seq<Seq<char>> {
    v.map_values(|s: String| s@)
}

/// A violation message, `"{label}{n} > {max} (최대)"`.
pub open spec fn violation(label: Seq<char>, n: u32, max: u32) -> Seq<char> {
    label + crate::text::int_text(n as int) + " > "@ + crate::text::int_text(max as int)
        + " (최대)"@
}

/// The violations `check_limits` reports, in the order files, lines, functions.
pub open spec fn limit_violations(l: FixLimits, files: u32, lines: u32, functions: u32) -> Seq<
    Seq<char>,
> {
    when(files > l.max_files_per_fix, violation("파일 수 초과: "@, files, l.max_files_per_fix))
        + when(
        lines > l.max_lines_per_file,
        violation("라인 수 초과: "@, lines, l.max_lines_per_file),
    ) + when(
        functions > l.max_functions_modified,
        violation("함수 수 초과: "@, functions, l.max_functions_modified),
    )
}

fn violation_text(label: &str, n: u32, max: u32) -> (r: String)
    ensures
        r@ == violation(label@, n, max),
{
    let a = join2(label, i64_text(n as i64).as_str());
    let b = join2(a.as_str(), " > ");
    let c = join2(b.as_str(), i64_text(max as i64).as_str());
    join2(c.as_str(), " (최대)")
}

fn push_violation(v: &mut Vec<String>, b: bool, label: &str, n: u32, max: u32)
    ensures
        texts(final(v)@) == texts(old(v)@) + when(b, violation(label@, n, max)),
{
    let ghost before = texts(v@);
    if b {
        v.push(violation_text(label, n, max));
    }
    assert(texts(v@) =~= before + when(b, violation(label@, n, max)));
}

impl Default for FixLimits {
    /// Three files, fifty lines per file, two functions; fixes may touch the domain
    /// and utility sources but never the entry point, configuration, SQL, env
    /// files or migrations.
    fn default() -> (r: Self)
        ensures
            r.max_files_per_fix == 3,
            r.max_lines_per_file == 50,
            r.max_functions_modified == 2,
            texts(r.allowed_paths@) == seq![
                "codes/server/src/domain/**/*.rs"@,
                "codes/server/src/utils/**/*.rs"@,
            ],
            texts(r.forbidden_paths@) == seq![
                "codes/server/src/main.rs"@,
                "codes/server/src/config/**"@,
                "**/*.sql"@,
                "**/*.env*"@,
                "**/migrations/**"@,
            ],
    {
        let mut allowed: Vec<String> = Vec::new();
        allowed.push(owned("codes/server/src/domain/**/*.rs"));
        allowed.push(owned("codes/server/src/utils/**/*.rs"));
        let mut forbidden: Vec<String> = Vec::new();
        forbidden.push(owned("codes/server/src/main.rs"));
        forbidden.push(owned("codes/server/src/config/**"));
        forbidden.push(owned("**/*.sql"));
        forbidden.push(owned("**/*.env*"));
        forbidden.push(owned("**/migrations/**"));
        let r = FixLimits {
            max_files_per_fix: 3,
            max_lines_per_file: 50,
            max_functions_modified: 2,
            allowed_paths: allowed,
            forbidden_paths: forbidden,
        };
        assert(texts(r.allowed_paths@) =~= seq![
            "codes/server/src/domain/**/*.rs"@,
            "codes/server/src/utils/**/*.rs"@,
        ]);
        assert(texts(r.forbidden_paths@) =~= seq![
            "codes/server/src/main.rs"@,
            "codes/server/src/config/**"@,
            "**/*.sql"@,
            "**/*.env*"@,
            "**/migrations/**"@,
        ]);
        r
    }
}

impl FixLimits {
    /// Limits with the given maxima and no path patterns.
    pub fn new(max_files: u32, max_lines: u32, max_functions: u32) -> (r: Self)
        ensures
            r.max_files_per_fix == max_files,
            r.max_lines_per_file == max_lines,
            r.max_functions_modified == max_functions,
            r.allowed_paths@.len() == 0,
            r.forbidden_paths@.len() == 0,
    {
        FixLimits {
            max_files_per_fix: max_files,
            max_lines_per_file: max_lines,
            max_functions_modified: max_functions,
            allowed_paths: Vec::new(),
            forbidden_paths: Vec::new(),
        }
    }

    /// Appends an allowed path pattern; returns the limits themselves, for chaining.
    pub fn add_allowed_path(&mut self, path: &str) -> (r: &mut Self)
        ensures
            texts(r.allowed_paths@) == texts(old(self).allowed_paths@).push(path@),
            r.forbidden_paths == old(self).forbidden_paths,
            r.max_files_per_fix == old(self).max_files_per_fix,
            r.max_lines_per_file == old(self).max_lines_per_file,
            r.max_functions_modified == old(self).max_functions_modified,
            *final(self) == *final(r),
    {
        let ghost before = texts(self.allowed_paths@);
        self.allowed_paths.push(owned(path));
        assert(texts(self.allowed_paths@) =~= before.push(path@));
        self
    }

    /// Appends a forbidden path pattern; returns the limits themselves, for chaining.
    pub fn add_forbidden_path(&mut self, path: &str) -> (r: &mut Self)
        ensures
            texts(r.forbidden_paths@) == texts(old(self).forbidden_paths@).push(path@),
            r.allowed_paths == old(self).allowed_paths,
            r.max_files_per_fix == old(self).max_files_per_fix,
            r.max_lines_per_file == old(self).max_lines_per_file,
            r.max_functions_modified == old(self).max_functions_modified,
            *final(self) == *final(r),
    {
        let ghost before = texts(self.forbidden_paths@);
        self.forbidden_paths.push(owned(path));
        assert(texts(self.forbidden_paths@) =~= before.push(path@));
        self
    }

    /// Whether `path` matches the glob `pattern`.
    pub fn matches_glob(path: &str, pattern: &str) -> (b: bool)
        ensures
            b == glob_matches(path@, pattern@),
    {
        proof {
            reveal_strlit(".");
            reveal_strlit("**");
            reveal_strlit("*");
            reveal_strlit("{{DOUBLE_STAR}}");
        }
        let s1 = replace_str(pattern, ".", "\\.");
        let t1 = string_from_chars(s1.as_slice());
        let s2 = replace_str(t1.as_str(), "**", "{{DOUBLE_STAR}}");
        let t2 = string_from_chars(s2.as_slice());
        let s3 = replace_str(t2.as_str(), "*", "[^/]*");
        let t3 = string_from_chars(s3.as_slice());
        let s4 = replace_str(t3.as_str(), "{{DOUBLE_STAR}}", ".*");
        let t4 = string_from_chars(s4.as_slice());
        let re = join2(join2("^", t4.as_str()).as_str(), "$");
        proof {
            reveal_strlit("^");
            reveal_strlit("$");
            assert(re@ =~= glob_regex(pattern@));
        }
        match regex_match(re.as_str(), path) {
            Some(m) => m,
            None => false,
        }
    }

    fn first_match(patterns: &Vec<String>, path: &str) -> (r: Option<usize>)
        ensures
            match r {
                Some(i) => i < patterns@.len() && first_glob_match(texts(patterns@), path@)
                    == Some(patterns@[i as int]@),
                None => first_glob_match(texts(patterns@), path@) is None,
            },
    {
        let mut i: usize = 0;
        assert(texts(patterns@).skip(0) =~= texts(patterns@));
        while i < patterns.len()
            invariant
                i <= patterns@.len(),
                first_glob_match(texts(patterns@), path@) == first_glob_match(
                    texts(patterns@).skip(i as int),
                    path@,
                ),
            decreases patterns.len() - i,
        {
            proof {
                assert(texts(patterns@).skip(i as int)[0] == patterns@[i as int]@);
                assert(texts(patterns@).skip(i as int).drop_first() =~= texts(patterns@).skip(
                    i + 1,
                ));
            }
            if Self::matches_glob(path, patterns[i].as_str()) {
                return Some(i);
            }
            i = i + 1;
        }
        None
    }

    /// Whether a fix may touch `path`: forbidden patterns are checked first, then
    /// allowed ones; a path matching neither needs a manual review.
    pub fn check_path(&self, path: &str) -> (r: FixScope)
        ensures
            r@ == path_scope(texts(self.forbidden_paths@), texts(self.allowed_paths@), path@),
    {
        match Self::first_match(&self.forbidden_paths, path) {
            Some(i) => {
                return FixScope::Forbidden(
                    join2("금지된 경로: ", self.forbidden_paths[i].as_str()),
                );
            },
            None => {},
        }
        match Self::first_match(&self.allowed_paths, path) {
            Some(i) => {
                return FixScope::Allowed(join2("허용된 경로: ", self.allowed_paths[i].as_str()));
            },
            None => {},
        }
        FixScope::RequiresReview(
            join2(join2("경로가 허용 목록에 없음: ", path).as_str(), ". 수동 검토 필요."),
        )
    }

    /// `Ok` when every count is within its limit; otherwise one message per exceeded
    /// limit.
    pub fn check_limits(&self, files: u32, lines: u32, functions: u32) -> (r: Result<
        (),
        Vec<String>,
    >)
        ensures
            r is Ok <==> (files <= self.max_files_per_fix && lines <= self.max_lines_per_file
                && functions <= self.max_functions_modified),
            r matches Err(v) ==> texts(v@) == limit_violations(*self, files, lines, functions),
    {
        let mut violations: Vec<String> = Vec::new();
        assert(texts(violations@) =~= Seq::<Seq<char>>::empty());
        push_violation(
            &mut violations,
            files > self.max_files_per_fix,
            "파일 수 초과: ",
            files,
            self.max_files_per_fix,
        );
        push_violation(
            &mut violations,
            lines > self.max_lines_per_file,
            "라인 수 초과: ",
            lines,
            self.max_lines_per_file,
        );
        push_violation(
            &mut violations,
            functions > self.max_functions_modified,
            "함수 수 초과: ",
            functions,
            self.max_functions_modified,
        );
        assert(texts(violations@) =~= limit_violations(*self, files, lines, functions));
        if violations.len() == 0 {
            Ok(())
        } else {
            Err(violations)
        }
    }
}

/// A path matching a forbidden pattern is never allowed, whatever the allowed
/// patterns say.
pub proof fn forbidden_takes_priority(
    forbidden: Seq<Seq<char>>,
    allowed: Seq<Seq<char>>,
    path: Seq<char>,
    i: int,
)
    requires
        0 <= i < forbidden.len(),
        glob_matches(path, forbidden[i]),
    ensures
        path_scope(forbidden, allowed, path) is Forbidden,
    decreases i,
{
    if i > 0 && !glob_matches(path, forbidden[0]) {
        assert(forbidden.drop_first()[i - 1] == forbidden[i]);
        forbidden_takes_priority(forbidden.drop_first(), allowed, path, i - 1);
    }
}

/// A path that no pattern matches always needs a manual review.
pub proof fn unmatched_path_requires_review(
    forbidden: Seq<Seq<char>>,
    allowed: Seq<Seq<char>>,
    path: Seq<char>,
)
    requires
        forall|i: int| 0 <= i < forbidden.len() ==> !glob_matches(path, #[trigger] forbidden[i]),
        forall|i: int| 0 <= i < allowed.len() ==> !glob_matches(path, #[trigger] allowed[i]),
    ensures
        path_scope(forbidden, allowed, path) is RequiresReview,
{
    lemma_no_match(forbidden, path);
    lemma_no_match(allowed, path);
}

proof fn lemma_no_match(patterns: Seq<Seq<char>>, path: Seq<char>)
    requires
        forall|i: int| 0 <= i < patterns.len() ==> !glob_matches(path, #[trigger] patterns[i]),
    ensures
        first_glob_match(patterns, path) is None,
    decreases patterns.len(),
{
    if patterns.len() > 0 {
        assert(!glob_matches(path, patterns[0]));
        assert forall|i: int| 0 <= i < patterns.drop_first().len() implies !glob_matches(
            path,
            #[trigger] patterns.drop_first()[i],
        ) by {
            assert(patterns.drop_first()[i] == patterns[i + 1]);
        }
        lemma_no_match(patterns.drop_first(), path);
    }
}

} // verus!
