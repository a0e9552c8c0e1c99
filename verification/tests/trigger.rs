use server::event::{Event, Priority, Severity};
use server::trigger::{
    RateLimitAction, RateLimitConfig, RateLimiter, TriggerFilter, TriggerFilterBuilder, WindowState,
};
use std::time::Duration;

fn create_monitoring_event(error_code: &str, severity: &str) -> Event {
    let data = format!(
        r#"{{"error_code":"{}","severity":"{}","message":"Test error"}}"#,
        error_code, severity
    );
    Event::new("monitoring.error_detected", "log-watcher", Priority::P0, &data)
}

fn create_discord_event(user: &str) -> Event {
    Event::new(
        "discord.command",
        "discord",
        Priority::P1,
        r#"{"command":"analyze","args":"test"}"#,
    )
    .with_user(user)
}

fn action_of(event_type: &str) -> RateLimitAction {
    let event = Event::new(event_type, "handler", Priority::P1, "{}");
    TriggerFilter::event_to_rate_limit_action(&event.event_type)
}

#[test]
fn should_trigger_when_filter_inactive() {
    let filter = TriggerFilter::allow_all();
    assert!(filter.should_trigger(&create_monitoring_event("AI5001", "info")));
}

#[test]
fn should_filter_by_event_type() {
    let filter = TriggerFilter::new().with_enabled_events(vec!["discord.command"]);
    assert!(filter.should_trigger(&create_discord_event("testuser")));
    assert!(!filter.should_trigger(&create_monitoring_event("AI5001", "critical")));
}

#[test]
fn should_filter_by_user_whitelist() {
    let filter = TriggerFilter::new().with_allowed_users(vec!["admin", "developer"]);
    assert!(filter.should_trigger(&create_discord_event("admin")));
    assert!(!filter.should_trigger(&create_discord_event("random_user")));
}

#[test]
fn should_allow_all_users_when_whitelist_empty() {
    let filter = TriggerFilter::new();
    assert!(filter.should_trigger(&create_discord_event("any_user")));
}

#[test]
fn should_filter_by_ignored_error_codes() {
    let filter = TriggerFilter::new()
        .with_ignored_error_codes(vec!["AUTH4001", "AUTH4002"])
        .with_min_severity(Severity::Info);
    assert!(!filter.should_trigger(&create_monitoring_event("AUTH4001", "warning")));
    assert!(filter.should_trigger(&create_monitoring_event("AI5001", "warning")));
}

#[test]
fn should_filter_by_minimum_severity() {
    let filter = TriggerFilter::new().with_min_severity(Severity::Warning);
    assert!(filter.should_trigger(&create_monitoring_event("AI5001", "critical")));
    assert!(filter.should_trigger(&create_monitoring_event("AI5001", "warning")));
    assert!(!filter.should_trigger(&create_monitoring_event("AI5001", "info")));
}

#[test]
fn should_apply_multiple_filters() {
    let filter = TriggerFilter::new()
        .with_enabled_events(vec!["monitoring.error_detected"])
        .with_min_severity(Severity::Warning)
        .with_ignored_error_codes(vec!["AUTH4001"]);
    assert!(filter.should_trigger(&create_monitoring_event("AI5001", "critical")));
    assert!(!filter.should_trigger(&create_discord_event("admin")));
    assert!(!filter.should_trigger(&create_monitoring_event("AI5001", "info")));
    assert!(!filter.should_trigger(&create_monitoring_event("AUTH4001", "critical")));
}

#[test]
fn should_use_builder_pattern() {
    let filter = TriggerFilter::new()
        .enable_event("monitoring.error_detected")
        .enable_event("discord.command")
        .allow_user("admin")
        .ignore_error_code("AUTH4001")
        .with_min_severity(Severity::Warning)
        .with_active(true);
    assert!(filter.is_active());
    assert!(filter.enabled_events().contains("monitoring.error_detected"));
    assert!(filter.enabled_events().contains("discord.command"));
    assert!(filter.allowed_users().contains("admin"));
    assert!(filter.ignored_error_codes().contains("AUTH4001"));
    assert_eq!(filter.min_severity(), Severity::Warning);
}

#[test]
fn should_block_events_without_user_when_whitelist_configured() {
    let filter = TriggerFilter::new().with_allowed_users(vec!["admin", "developer"]);
    let event = Event::new(
        "discord.command",
        "discord",
        Priority::P1,
        r#"{"command":"analyze","args":"test"}"#,
    );
    assert!(!filter.should_trigger(&event));
}

#[test]
fn should_treat_invalid_severity_as_info() {
    let filter = TriggerFilter::new().with_min_severity(Severity::Warning);
    let event = Event::new(
        "monitoring.error_detected",
        "log-watcher",
        Priority::P0,
        r#"{"error_code":"AI5001","severity":"invalid_value","message":"Test error"}"#,
    );
    assert!(!filter.should_trigger(&event));
}

#[test]
fn should_allow_invalid_severity_when_min_is_info() {
    let filter = TriggerFilter::new().with_min_severity(Severity::Info);
    let event = Event::new(
        "monitoring.error_detected",
        "log-watcher",
        Priority::P0,
        r#"{"error_code":"AI5001","severity":"invalid_value","message":"Test error"}"#,
    );
    assert!(filter.should_trigger(&event));
}

#[test]
fn should_treat_monitoring_event_without_severity_as_info() {
    let filter = TriggerFilter::new().with_min_severity(Severity::Warning);
    let event = Event::new(
        "monitoring.error_detected",
        "log-watcher",
        Priority::P0,
        r#"{"error_code":"AI5001","message":"Test error"}"#,
    );
    assert!(!filter.should_trigger(&event));
}

#[test]
fn should_allow_non_monitoring_event_without_severity() {
    let filter = TriggerFilter::new().with_min_severity(Severity::Warning);
    let event = Event::new(
        "discord.command",
        "discord",
        Priority::P1,
        r#"{"command":"analyze","args":"test"}"#,
    );
    assert!(filter.should_trigger(&event));
}

#[test]
fn should_create_rate_limiter_with_default_config() {
    let limiter = RateLimiter::default();
    assert_eq!(limiter.config().api_calls_per_minute, 10);
    assert_eq!(limiter.config().branch_creations_per_hour, 20);
    assert_eq!(limiter.config().pr_creations_per_hour, 10);
}

#[test]
fn should_create_rate_limiter_with_custom_config() {
    let limiter = RateLimiter::new(RateLimitConfig::new(5, 10, 3));
    assert_eq!(limiter.config().api_calls_per_minute, 5);
    assert_eq!(limiter.config().branch_creations_per_hour, 10);
    assert_eq!(limiter.config().pr_creations_per_hour, 3);
}

#[test]
fn should_allow_actions_within_limit() {
    let limiter = RateLimiter::new(RateLimitConfig::new(3, 5, 2));
    assert!(limiter.try_acquire(RateLimitAction::ApiCall));
    assert!(limiter.try_acquire(RateLimitAction::ApiCall));
    assert!(limiter.try_acquire(RateLimitAction::ApiCall));
    assert_eq!(limiter.current_count(RateLimitAction::ApiCall), 3);
    assert_eq!(limiter.remaining(RateLimitAction::ApiCall), 0);
}

#[test]
fn should_block_actions_exceeding_limit() {
    let limiter = RateLimiter::new(RateLimitConfig::new(2, 5, 2));
    assert!(limiter.try_acquire(RateLimitAction::ApiCall));
    assert!(limiter.try_acquire(RateLimitAction::ApiCall));
    assert!(!limiter.try_acquire(RateLimitAction::ApiCall));
    assert_eq!(limiter.current_count(RateLimitAction::ApiCall), 2);
}

#[test]
fn should_track_different_action_types_separately() {
    let limiter = RateLimiter::new(RateLimitConfig::new(2, 3, 1));
    assert!(limiter.try_acquire(RateLimitAction::ApiCall));
    assert!(limiter.try_acquire(RateLimitAction::ApiCall));
    assert!(limiter.try_acquire(RateLimitAction::BranchCreation));
    assert!(limiter.try_acquire(RateLimitAction::PrCreation));
    assert!(!limiter.try_acquire(RateLimitAction::ApiCall));
    assert!(limiter.try_acquire(RateLimitAction::BranchCreation));
    assert!(!limiter.try_acquire(RateLimitAction::PrCreation));
}

#[test]
fn should_check_without_recording() {
    let limiter = RateLimiter::new(RateLimitConfig::new(2, 5, 2));
    assert!(limiter.check(RateLimitAction::ApiCall));
    assert!(limiter.check(RateLimitAction::ApiCall));
    assert_eq!(limiter.current_count(RateLimitAction::ApiCall), 0);
    assert!(limiter.try_acquire(RateLimitAction::ApiCall));
    assert_eq!(limiter.current_count(RateLimitAction::ApiCall), 1);
}

#[test]
fn should_reset_all_counters() {
    let limiter = RateLimiter::new(RateLimitConfig::new(2, 5, 2));
    limiter.try_acquire(RateLimitAction::ApiCall);
    limiter.try_acquire(RateLimitAction::BranchCreation);
    limiter.try_acquire(RateLimitAction::PrCreation);
    limiter.reset();
    assert_eq!(limiter.current_count(RateLimitAction::ApiCall), 0);
    assert_eq!(limiter.current_count(RateLimitAction::BranchCreation), 0);
    assert_eq!(limiter.current_count(RateLimitAction::PrCreation), 0);
}

#[test]
fn should_clone_and_share_state() {
    let limiter1 = RateLimiter::new(RateLimitConfig::new(3, 5, 2));
    let limiter2 = limiter1.clone();
    limiter1.try_acquire(RateLimitAction::ApiCall);
    limiter2.try_acquire(RateLimitAction::ApiCall);
    assert_eq!(limiter1.current_count(RateLimitAction::ApiCall), 2);
    assert_eq!(limiter2.current_count(RateLimitAction::ApiCall), 2);
}

#[test]
fn should_return_correct_remaining_capacity() {
    let limiter = RateLimiter::new(RateLimitConfig::new(5, 10, 3));
    assert_eq!(limiter.remaining(RateLimitAction::ApiCall), 5);
    limiter.try_acquire(RateLimitAction::ApiCall);
    limiter.try_acquire(RateLimitAction::ApiCall);
    assert_eq!(limiter.remaining(RateLimitAction::ApiCall), 3);
    limiter.try_acquire(RateLimitAction::ApiCall);
    limiter.try_acquire(RateLimitAction::ApiCall);
    limiter.try_acquire(RateLimitAction::ApiCall);
    assert_eq!(limiter.remaining(RateLimitAction::ApiCall), 0);
}

#[test]
fn should_allow_events_without_rate_limiter() {
    let filter = TriggerFilter::new().with_min_severity(Severity::Info);
    let event = Event::new("api.request", "api-gateway", Priority::P1, r#"{"endpoint":"/health","method":"GET"}"#);
    assert!(filter.should_trigger(&event));
    assert!(filter.should_trigger(&event));
    assert!(filter.should_trigger(&event));
}

#[test]
fn should_block_events_when_rate_limited() {
    let filter = TriggerFilter::new()
        .with_min_severity(Severity::Info)
        .with_rate_limiter(RateLimiter::new(RateLimitConfig::new(2, 5, 2)));
    let event = Event::new("api.request", "api-gateway", Priority::P1, r#"{"endpoint":"/health","method":"GET"}"#);
    assert!(filter.should_trigger(&event));
    assert!(filter.should_trigger(&event));
    assert!(!filter.should_trigger(&event));
}

#[test]
fn should_map_branch_events_to_branch_creation_limit() {
    let filter = TriggerFilter::new()
        .with_min_severity(Severity::Info)
        .with_rate_limiter(RateLimiter::new(RateLimitConfig::new(10, 2, 10)));
    let event = Event::new("git.branch.create", "git-handler", Priority::P1, r#"{"branch_name":"fix/test-branch"}"#);
    assert!(filter.should_trigger(&event));
    assert!(filter.should_trigger(&event));
    assert!(!filter.should_trigger(&event));
}

#[test]
fn should_map_pr_events_to_pr_creation_limit() {
    let filter = TriggerFilter::new()
        .with_min_severity(Severity::Info)
        .with_rate_limiter(RateLimiter::new(RateLimitConfig::new(10, 10, 1)));
    let event = Event::new(
        "github.pull_request.create",
        "github-handler",
        Priority::P1,
        r#"{"title":"Fix: Test PR","base":"dev"}"#,
    );
    assert!(filter.should_trigger(&event));
    assert!(!filter.should_trigger(&event));
}

#[test]
fn should_use_check_rate_limit_method() {
    let filter = TriggerFilter::new()
        .with_min_severity(Severity::Info)
        .with_rate_limiter(RateLimiter::new(RateLimitConfig::new(2, 5, 2)));
    assert!(filter.check_rate_limit(RateLimitAction::ApiCall));
    assert!(filter.check_rate_limit(RateLimitAction::ApiCall));
    assert!(!filter.check_rate_limit(RateLimitAction::ApiCall));
}

#[test]
fn should_return_true_for_check_rate_limit_without_limiter() {
    let filter = TriggerFilter::new();
    assert!(filter.check_rate_limit(RateLimitAction::ApiCall));
    assert!(filter.check_rate_limit(RateLimitAction::ApiCall));
    assert!(filter.check_rate_limit(RateLimitAction::ApiCall));
}

#[test]
fn should_use_would_be_rate_limited_method() {
    let filter = TriggerFilter::new()
        .with_min_severity(Severity::Info)
        .with_rate_limiter(RateLimiter::new(RateLimitConfig::new(2, 5, 2)));
    assert!(!filter.would_be_rate_limited(RateLimitAction::ApiCall));
    filter.check_rate_limit(RateLimitAction::ApiCall);
    filter.check_rate_limit(RateLimitAction::ApiCall);
    assert!(filter.would_be_rate_limited(RateLimitAction::ApiCall));
}

#[test]
fn should_access_rate_limiter() {
    let filter = TriggerFilter::new().with_rate_limiter(RateLimiter::new(RateLimitConfig::new(5, 10, 3)));
    let limiter = filter.rate_limiter();
    assert!(limiter.is_some());
    assert_eq!(limiter.unwrap().config().api_calls_per_minute, 5);
}

#[test]
fn should_return_none_for_rate_limiter_when_not_configured() {
    let filter = TriggerFilter::new();
    assert!(filter.rate_limiter().is_none());
}

#[test]
fn should_build_with_default_rate_limiting() {
    let filter = TriggerFilterBuilder::new().with_default_rate_limiting().build();
    assert!(filter.rate_limiter().is_some());
    let limiter = filter.rate_limiter().unwrap();
    assert_eq!(limiter.config().api_calls_per_minute, 10);
    assert_eq!(limiter.config().branch_creations_per_hour, 20);
    assert_eq!(limiter.config().pr_creations_per_hour, 10);
}

#[test]
fn should_build_with_custom_rate_limit_config() {
    let filter = TriggerFilterBuilder::new()
        .with_rate_limit_config(RateLimitConfig::new(5, 15, 8))
        .build();
    assert!(filter.rate_limiter().is_some());
    let limiter = filter.rate_limiter().unwrap();
    assert_eq!(limiter.config().api_calls_per_minute, 5);
    assert_eq!(limiter.config().branch_creations_per_hour, 15);
    assert_eq!(limiter.config().pr_creations_per_hour, 8);
}

#[test]
fn should_build_with_custom_rate_limiter() {
    let filter = TriggerFilterBuilder::new()
        .with_rate_limiter(RateLimiter::new(RateLimitConfig::new(3, 6, 2)))
        .build();
    assert!(filter.rate_limiter().is_some());
    assert_eq!(filter.rate_limiter().unwrap().config().api_calls_per_minute, 3);
}

#[test]
fn should_combine_filter_settings_with_rate_limiting() {
    let filter = TriggerFilterBuilder::new()
        .with_settings(None, None, None, None)
        .with_default_rate_limiting()
        .build();
    assert!(filter.rate_limiter().is_some());
    assert!(filter.is_active());
}

#[test]
fn should_have_correct_window_duration_for_api_call() {
    assert_eq!(RateLimitAction::ApiCall.window_duration(), Duration::from_secs(60));
}

#[test]
fn should_have_correct_window_duration_for_branch_creation() {
    assert_eq!(RateLimitAction::BranchCreation.window_duration(), Duration::from_secs(3600));
}

#[test]
fn should_have_correct_window_duration_for_pr_creation() {
    assert_eq!(RateLimitAction::PrCreation.window_duration(), Duration::from_secs(3600));
}

#[test]
fn should_map_branch_event_to_branch_creation() {
    assert_eq!(action_of("git.branch.create"), RateLimitAction::BranchCreation);
}

#[test]
fn should_map_pr_event_to_pr_creation() {
    assert_eq!(action_of("github.pull_request.create"), RateLimitAction::PrCreation);
}

#[test]
fn should_map_pr_event_variant_to_pr_creation() {
    assert_eq!(action_of("github.PR.opened"), RateLimitAction::PrCreation);
}

#[test]
fn should_map_generic_event_to_api_call() {
    assert_eq!(action_of("monitoring.error_detected"), RateLimitAction::ApiCall);
}

#[test]
fn should_map_discord_event_to_api_call() {
    assert_eq!(action_of("discord.command"), RateLimitAction::ApiCall);
}

#[test]
fn should_not_match_approve_as_pr_event() {
    assert_eq!(action_of("github.approve"), RateLimitAction::ApiCall);
}

#[test]
fn should_not_match_prepare_as_pr_event() {
    assert_eq!(action_of("workflow.prepare"), RateLimitAction::ApiCall);
}

#[test]
fn should_not_match_profile_as_pr_event() {
    assert_eq!(action_of("user.profile.update"), RateLimitAction::ApiCall);
}

#[test]
fn should_not_match_reprocess_as_pr_event() {
    assert_eq!(action_of("job.reprocess"), RateLimitAction::ApiCall);
}

#[test]
fn should_not_match_deprecation_as_pr_event() {
    assert_eq!(action_of("api.deprecation.warning"), RateLimitAction::ApiCall);
}

#[test]
fn should_not_match_compress_as_pr_event() {
    assert_eq!(action_of("file.compress"), RateLimitAction::ApiCall);
}

#[test]
fn should_match_pr_segment_at_start() {
    assert_eq!(action_of("pr.created"), RateLimitAction::PrCreation);
}

#[test]
fn should_match_pr_segment_at_end() {
    assert_eq!(action_of("github.pr"), RateLimitAction::PrCreation);
}

#[test]
fn should_match_pr_segment_in_middle() {
    assert_eq!(action_of("github.pr.created"), RateLimitAction::PrCreation);
}

#[test]
fn should_match_exact_pr_event_type() {
    assert_eq!(action_of("pr"), RateLimitAction::PrCreation);
}

#[test]
fn should_match_pr_case_insensitive() {
    assert_eq!(action_of("github.PR.opened"), RateLimitAction::PrCreation);
}

#[test]
fn should_match_branch_case_insensitive() {
    assert_eq!(action_of("git.Branch.create"), RateLimitAction::BranchCreation);
}

#[test]
fn should_match_pull_request_case_insensitive() {
    assert_eq!(action_of("github.Pull_Request.create"), RateLimitAction::PrCreation);
}

#[test]
fn settings_lists_are_trimmed_and_empty_items_dropped() {
    let filter = TriggerFilterBuilder::new()
        .with_settings(Some(" discord.command , ,github.pr "), Some("admin"), None, Some("CRITICAL"))
        .build();
    assert!(filter.enabled_events().contains("discord.command"));
    assert!(filter.enabled_events().contains("github.pr"));
    assert!(!filter.enabled_events().contains(""));
    assert!(filter.allowed_users().contains("admin"));
    assert_eq!(filter.min_severity(), Severity::Critical);
}

#[test]
fn rate_limit_settings_fall_back_to_defaults() {
    let filter = TriggerFilterBuilder::new()
        .with_rate_limit_settings(Some("4"), Some("not-a-number"), None)
        .build();
    let config = filter.rate_limiter().unwrap().config();
    assert_eq!(config.api_calls_per_minute, 4);
    assert_eq!(config.branch_creations_per_hour, 20);
    assert_eq!(config.pr_creations_per_hour, 10);
}

#[test]
fn inactive_filter_admits_ignored_codes() {
    let filter = TriggerFilter::new()
        .with_ignored_error_codes(vec!["AI5001"])
        .with_active(false);
    assert!(filter.should_trigger(&create_monitoring_event("AI5001", "critical")));
}

#[test]
fn window_room_goes_by_the_entries_inside_the_window() {
    let mut w = WindowState {
        origin: std::time::Instant::now(),
        api: vec![10, 50, 90],
        branch: vec![],
        pr: vec![],
    };
    // At 100 with a window of 60, the entries at 50 and 90 are inside.
    assert!(w.has_room(RateLimitAction::ApiCall, 100, 60, 3));
    assert!(!w.has_room(RateLimitAction::ApiCall, 100, 60, 2));
    assert_eq!(w.api, vec![10, 50, 90]);
    assert!(w.try_record(RateLimitAction::ApiCall, 100, 60, 3));
    assert_eq!(w.api, vec![50, 90, 100]);
    assert_eq!(w.recent(RateLimitAction::ApiCall, 100, 60), 3);
    assert!(!w.try_record(RateLimitAction::ApiCall, 100, 60, 3));
    assert_eq!(w.api, vec![50, 90, 100]);
    assert!(w.has_room(RateLimitAction::BranchCreation, 100, 60, 1));
}

#[test]
fn check_does_not_record() {
    let limiter = RateLimiter::new(RateLimitConfig::new(2, 5, 2));
    assert!(limiter.check(RateLimitAction::ApiCall));
    assert!(limiter.check(RateLimitAction::ApiCall));
    assert_eq!(limiter.current_count(RateLimitAction::ApiCall), 0);
    assert!(limiter.try_acquire(RateLimitAction::ApiCall));
    assert!(limiter.try_acquire(RateLimitAction::ApiCall));
    assert!(!limiter.check(RateLimitAction::ApiCall));
}
