use server::safety::{FixLimits, FixScope, SafetyChecks};

#[test]
fn should_create_new_instance_with_all_false() {
    let checks = SafetyChecks::new();
    assert!(!checks.syntax_valid);
    assert!(!checks.compiles);
    assert!(!checks.tests_pass);
    assert!(!checks.no_security_impact);
    assert!(!checks.clippy_clean);
    assert!(!checks.coverage_maintained);
    assert!(!checks.no_breaking_changes);
}

#[test]
fn should_return_false_when_any_required_check_fails() {
    let mut checks = SafetyChecks::new();
    checks.syntax_valid = true;
    checks.compiles = true;
    checks.tests_pass = true;
    assert!(!checks.is_safe());
}

#[test]
fn should_return_true_when_all_required_checks_pass() {
    let mut checks = SafetyChecks::new();
    checks.syntax_valid = true;
    checks.compiles = true;
    checks.tests_pass = true;
    checks.no_security_impact = true;
    assert!(checks.is_safe());
}

#[test]
fn should_return_ok_when_all_required_checks_pass() {
    let mut checks = SafetyChecks::new();
    checks.syntax_valid = true;
    checks.compiles = true;
    checks.tests_pass = true;
    checks.no_security_impact = true;
    assert!(checks.validate_all().is_ok());
}

#[test]
fn should_return_error_with_failed_checks_list() {
    let checks = SafetyChecks::new();
    let result = checks.validate_all();
    assert!(result.is_err());
    let errors = result.unwrap_err();
    assert!(errors.contains(&"syntax_valid: 문법 검증 실패".to_string()));
    assert!(errors.contains(&"compiles: 컴파일 실패".to_string()));
    assert!(errors.contains(&"tests_pass: 테스트 실패".to_string()));
    assert!(errors.contains(&"no_security_impact: 보안 영향 검증 실패".to_string()));
}

#[test]
fn should_include_recommended_checks_in_validation() {
    let mut checks = SafetyChecks::new();
    checks.set_all_required_passed();
    assert!(checks.validate_all().is_ok());
}

#[test]
fn should_set_all_required_passed() {
    let mut checks = SafetyChecks::new();
    checks.set_all_required_passed();
    assert!(checks.syntax_valid);
    assert!(checks.compiles);
    assert!(checks.tests_pass);
    assert!(checks.no_security_impact);
    assert!(!checks.clippy_clean);
    assert!(!checks.coverage_maintained);
    assert!(!checks.no_breaking_changes);
}

#[test]
fn should_set_all_passed() {
    let mut checks = SafetyChecks::new();
    checks.set_all_passed();
    assert!(checks.syntax_valid);
    assert!(checks.compiles);
    assert!(checks.tests_pass);
    assert!(checks.no_security_impact);
    assert!(checks.clippy_clean);
    assert!(checks.coverage_maintained);
    assert!(checks.no_breaking_changes);
}

#[test]
fn should_create_default_limits() {
    let limits = FixLimits::default();
    assert_eq!(limits.max_files_per_fix, 3);
    assert_eq!(limits.max_lines_per_file, 50);
    assert_eq!(limits.max_functions_modified, 2);
    assert!(!limits.allowed_paths.is_empty());
    assert!(!limits.forbidden_paths.is_empty());
}

#[test]
fn should_create_custom_limits() {
    let limits = FixLimits::new(5, 100, 4);
    assert_eq!(limits.max_files_per_fix, 5);
    assert_eq!(limits.max_lines_per_file, 100);
    assert_eq!(limits.max_functions_modified, 4);
    assert!(limits.allowed_paths.is_empty());
    assert!(limits.forbidden_paths.is_empty());
}

#[test]
fn should_add_allowed_path() {
    let mut limits = FixLimits::new(1, 1, 1);
    limits.add_allowed_path("src/**/*.rs");
    assert_eq!(limits.allowed_paths.len(), 1);
    assert_eq!(limits.allowed_paths[0], "src/**/*.rs");
}

#[test]
fn should_add_forbidden_path() {
    let mut limits = FixLimits::new(1, 1, 1);
    limits.add_forbidden_path("**/*.env");
    assert_eq!(limits.forbidden_paths.len(), 1);
    assert_eq!(limits.forbidden_paths[0], "**/*.env");
}

#[test]
fn path_patterns_can_be_added_in_a_chain() {
    let mut limits = FixLimits::new(2, 3, 4);
    limits.add_allowed_path("src/**").add_forbidden_path("**/*.env").add_allowed_path("docs/**");
    assert_eq!(limits.allowed_paths, vec!["src/**".to_string(), "docs/**".to_string()]);
    assert_eq!(limits.forbidden_paths, vec!["**/*.env".to_string()]);
    assert_eq!(limits.max_files_per_fix, 2);
}

#[test]
fn should_return_forbidden_for_forbidden_path() {
    let limits = FixLimits::default();
    assert!(limits.check_path("codes/server/src/main.rs").is_forbidden());
}

#[test]
fn should_return_allowed_for_allowed_path() {
    let limits = FixLimits::default();
    assert!(limits.check_path("codes/server/src/domain/ai/service.rs").is_allowed());
}

#[test]
fn should_return_requires_review_for_unknown_path() {
    let limits = FixLimits::default();
    assert!(limits.check_path("some/other/path.rs").requires_review());
}

#[test]
fn should_prioritize_forbidden_over_allowed() {
    let mut limits = FixLimits::new(1, 1, 1);
    limits.add_allowed_path("src/**/*.rs");
    limits.add_forbidden_path("src/config/**");
    assert!(limits.check_path("src/config/database.rs").is_forbidden());
}

#[test]
fn should_check_limits_within_bounds() {
    let limits = FixLimits::default();
    assert!(limits.check_limits(2, 30, 1).is_ok());
}

#[test]
fn should_check_limits_exceeding_bounds() {
    let limits = FixLimits::default();
    let result = limits.check_limits(5, 100, 5);
    assert!(result.is_err());
    assert_eq!(result.unwrap_err().len(), 3);
}

#[test]
fn should_match_glob_pattern_with_double_star() {
    let limits = FixLimits::default();
    assert!(limits.check_path("codes/server/src/domain/auth/handler.rs").is_allowed());
}

#[test]
fn should_match_glob_pattern_with_env_extension() {
    let limits = FixLimits::default();
    assert!(limits.check_path("codes/server/.env.local").is_forbidden());
}

#[test]
fn should_identify_allowed_scope() {
    let scope = FixScope::Allowed("허용됨".to_string());
    assert!(scope.is_allowed());
    assert!(!scope.is_forbidden());
    assert!(!scope.requires_review());
}

#[test]
fn should_identify_forbidden_scope() {
    let scope = FixScope::Forbidden("금지됨".to_string());
    assert!(!scope.is_allowed());
    assert!(scope.is_forbidden());
    assert!(!scope.requires_review());
}

#[test]
fn should_identify_requires_review_scope() {
    let scope = FixScope::RequiresReview("검토 필요".to_string());
    assert!(!scope.is_allowed());
    assert!(!scope.is_forbidden());
    assert!(scope.requires_review());
}

#[test]
fn should_return_reason_string() {
    let scope = FixScope::Allowed("테스트 이유".to_string());
    assert_eq!(scope.reason(), "테스트 이유");
}

#[test]
fn should_implement_eq() {
    let scope1 = FixScope::Allowed("테스트".to_string());
    let scope2 = FixScope::Allowed("테스트".to_string());
    let scope3 = FixScope::Forbidden("테스트".to_string());
    assert_eq!(scope1, scope2);
    assert_ne!(scope1, scope3);
}

#[test]
fn glob_single_star_stays_within_one_segment() {
    assert!(FixLimits::matches_glob("src/main.rs", "src/*.rs"));
    assert!(!FixLimits::matches_glob("src/a/main.rs", "src/*.rs"));
    assert!(FixLimits::matches_glob("src/a/b/main.rs", "src/**/*.rs"));
}

#[test]
fn unmatched_path_is_sent_to_review_with_custom_limits() {
    let mut limits = FixLimits::new(1, 1, 1);
    limits.add_allowed_path("docs/**");
    assert!(limits.check_path("docs/guide.md").is_allowed());
    assert!(limits.check_path("src/lib.rs").requires_review());
}

#[test]
fn check_limits_reports_only_the_exceeded_bound() {
    let limits = FixLimits::new(3, 50, 2);
    let violations = limits.check_limits(4, 50, 2).unwrap_err();
    assert_eq!(violations.len(), 1);
    assert!(limits.check_limits(3, 50, 2).is_ok());
}
