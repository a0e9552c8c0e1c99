use server::alert::DiscordAlert;
use server::calendar::CalendarDate;
use server::colors;
use server::event::{Event, EventStatus, Priority, Severity};
use server::log_watcher::{LogEntry, LogFields, LogWatcher, LogWatcherConfig, RawLogEntry, UtcInstant};
use server::processor::{details_if_any, EventProcessor, EventRoute, ProcessDecision, QueueAction};
use server::queue::{
    completion_within_window, contains_fingerprint_in, failure_outcome, file_with_id, fingerprint_seen, next_pending_file,
    FailureDestination, QueueConfig,
};
use server::trigger::TriggerFilter;

fn json_member(data: &str, key: &str) -> Option<serde_json::Value> {
    let value: serde_json::Value = serde_json::from_str(data).ok()?;
    value.get(key).cloned()
}

fn now_instant() -> UtcInstant {
    let n = chrono::Utc::now();
    UtcInstant { secs: n.timestamp(), nanos: n.timestamp_subsec_nanos() }
}

fn entry(level: &str, code: Option<&str>, target: &str, request_id: Option<&str>) -> LogEntry {
    LogEntry {
        level: level.to_string(),
        error_code: code.map(|c| c.to_string()),
        message: "Test error".to_string(),
        target: target.to_string(),
        request_id: request_id.map(|r| r.to_string()),
        timestamp: now_instant(),
    }
}

fn create_test_watcher() -> LogWatcher {
    LogWatcher::new("logs", "logs/.state")
}

// ---------- alerts ----------

#[test]
fn should_create_discord_alert_from_url() {
    let alert = DiscordAlert::new("https://discord.com/api/webhooks/test");
    assert!(alert.is_enabled());
    assert_eq!(alert.webhook_url(), "https://discord.com/api/webhooks/test");
}

#[test]
fn should_create_disabled_discord_alert() {
    assert!(!DiscordAlert::disabled().is_enabled());
}

#[test]
fn should_use_correct_colors_for_severity() {
    assert_eq!(colors::CRITICAL, 15158332);
    assert_eq!(colors::WARNING, 16776960);
    assert_eq!(colors::INFO, 3066993);
    assert_eq!(colors::SUCCESS, 3066993);
}

#[test]
fn should_return_red_color_for_critical_severity() {
    let color = DiscordAlert::severity_to_color("critical");
    assert_eq!(color, colors::CRITICAL);
    assert_eq!(color, 15158332);
}

#[test]
fn should_return_red_color_for_critical_case_insensitive() {
    assert_eq!(DiscordAlert::severity_to_color("CRITICAL"), colors::CRITICAL);
    assert_eq!(DiscordAlert::severity_to_color("Critical"), colors::CRITICAL);
}

#[test]
fn should_return_yellow_color_for_warning_severity() {
    let color = DiscordAlert::severity_to_color("warning");
    assert_eq!(color, colors::WARNING);
    assert_eq!(color, 16776960);
}

#[test]
fn should_return_yellow_color_for_warning_case_insensitive() {
    assert_eq!(DiscordAlert::severity_to_color("WARNING"), colors::WARNING);
    assert_eq!(DiscordAlert::severity_to_color("Warning"), colors::WARNING);
}

#[test]
fn should_return_green_color_for_info_severity() {
    let color = DiscordAlert::severity_to_color("info");
    assert_eq!(color, colors::INFO);
    assert_eq!(color, 3066993);
}

#[test]
fn should_return_green_color_for_unknown_severity() {
    assert_eq!(DiscordAlert::severity_to_color("unknown"), colors::INFO);
    assert_eq!(DiscordAlert::severity_to_color("debug"), colors::INFO);
    assert_eq!(DiscordAlert::severity_to_color(""), colors::INFO);
}

#[test]
fn should_handle_event_with_missing_data_fields() {
    let event = Event::new("monitoring.error_detected", "log-watcher", Priority::P2, "{}");
    let message = DiscordAlert::event_alert_message(&event);
    let embed = &message.embeds.as_ref().unwrap()[0];
    assert_eq!(embed.title, "ℹ️ [INFO] UNKNOWN");
    assert_eq!(embed.color, colors::INFO);
    assert_eq!(embed.description, "No message provided");
}

#[test]
fn should_create_correct_title_format() {
    let event = Event::new(
        "monitoring.error_detected",
        "log-watcher",
        Priority::P0,
        r#"{"error_code":"AI5001","severity":"critical"}"#,
    );
    let message = DiscordAlert::event_alert_message(&event);
    assert_eq!(message.embeds.as_ref().unwrap()[0].title, "🚨 [CRITICAL] AI5001");
}

#[test]
fn should_create_warning_title_format() {
    assert_eq!(DiscordAlert::event_alert_title("warning", "AUTH4001"), "⚠️ [WARNING] AUTH4001");
}

#[test]
fn should_create_info_title_format() {
    assert_eq!(DiscordAlert::event_alert_title("info", "INFO001"), "ℹ️ [INFO] INFO001");
}

#[test]
fn event_alert_fields_follow_the_payload() {
    let event = Event::new(
        "monitoring.error_detected",
        "log-watcher",
        Priority::P0,
        r#"{"error_code":"AI5001","severity":"warning","message":"boom","target":"server::ai","request_id":"r-1"}"#,
    );
    let message = DiscordAlert::event_alert_message(&event);
    assert!(message.content.is_none());
    let embed = &message.embeds.as_ref().unwrap()[0];
    let fields = embed.fields.as_ref().unwrap();
    assert_eq!(fields.len(), 6);
    assert_eq!(fields[0].value, "`AI5001`");
    assert_eq!(fields[1].value, "WARNING");
    assert_eq!(fields[2].value, "`server::ai`");
    assert_eq!(fields[3].value, "`r-1`");
    assert_eq!(fields[4].value, "log-watcher");
    assert_eq!(fields[5].value, format!("`{}`", event.id));
    assert_eq!(embed.description, "boom");
    assert_eq!(embed.timestamp, Some(event.timestamp.clone()));
}

#[test]
fn error_alert_carries_details_as_inline_fields() {
    let details = vec![("Target".to_string(), "t".to_string())];
    let message = DiscordAlert::error_alert_message("AI5001", "m", Severity::Critical, Some(details), "ts".to_string());
    let embed = &message.embeds.as_ref().unwrap()[0];
    assert_eq!(embed.title, ":red_circle: Error: AI5001");
    assert_eq!(embed.color, colors::CRITICAL);
    let fields = embed.fields.as_ref().unwrap();
    assert_eq!(fields[0].name, "Target");
    assert!(fields[0].inline);
    let plain = DiscordAlert::alert_message("T", "M", Severity::Warning, "ts".to_string());
    assert_eq!(plain.embeds.as_ref().unwrap()[0].color, colors::WARNING);
}

// ---------- log entries ----------

#[test]
fn should_parse_valid_json_log_line() {
    let raw = RawLogEntry {
        timestamp: "2026-01-31T10:00:00Z".to_string(),
        level: "ERROR".to_string(),
        target: "server::domain::ai".to_string(),
        fields: Some(LogFields { error_code: Some("AI5001".to_string()), request_id: Some("req-1".to_string()) }),
        message: "AI failed".to_string(),
    };
    let entry = LogEntry::from_raw(raw).unwrap();
    assert_eq!(entry.level, "ERROR");
    assert_eq!(entry.error_code, Some("AI5001".to_string()));
    assert_eq!(entry.request_id, Some("req-1".to_string()));
    assert_eq!(entry.timestamp.secs, 1769853600);
}

#[test]
fn should_return_none_for_invalid_json() {
    let raw = RawLogEntry {
        timestamp: "yesterday".to_string(),
        level: "ERROR".to_string(),
        target: "t".to_string(),
        fields: None,
        message: "m".to_string(),
    };
    assert!(LogEntry::from_raw(raw).is_none());
}

#[test]
fn should_parse_log_without_fields() {
    let raw = RawLogEntry {
        timestamp: "2026-01-31T19:00:00+09:00".to_string(),
        level: "INFO".to_string(),
        target: "server".to_string(),
        fields: None,
        message: "started".to_string(),
    };
    let entry = LogEntry::from_raw(raw).unwrap();
    assert!(entry.error_code.is_none());
    assert!(entry.request_id.is_none());
    assert_eq!(entry.timestamp.secs, 1769853600);
}

#[test]
fn should_generate_correct_fingerprint() {
    let e = entry("ERROR", Some("AI5002"), "server::domain::ai", Some("req-123"));
    assert_eq!(e.fingerprint(), "AI5002:server::domain::ai");
}

#[test]
fn should_generate_fingerprint_without_error_code() {
    let e = entry("ERROR", None, "server::domain::ai", None);
    assert_eq!(e.fingerprint(), "UNKNOWN:server::domain::ai");
}

#[test]
fn should_determine_critical_severity_for_ai_errors() {
    assert_eq!(entry("ERROR", Some("AI5001"), "server::domain::ai", None).severity(), Severity::Critical);
}

#[test]
fn should_determine_warning_severity_for_auth_errors() {
    assert_eq!(entry("ERROR", Some("AUTH4001"), "server::domain::auth", None).severity(), Severity::Warning);
}

#[test]
fn should_determine_warning_severity_for_retro_errors() {
    assert_eq!(entry("ERROR", Some("RETRO4041"), "server::domain::retrospect", None).severity(), Severity::Warning);
}

#[test]
fn should_determine_info_severity_for_unknown_errors() {
    assert_eq!(entry("ERROR", Some("UNKNOWN001"), "server", None).severity(), Severity::Info);
}

#[test]
fn should_create_event_with_correct_priority() {
    let watcher = create_test_watcher();
    let e = entry("ERROR", Some("AI5002"), "server::domain::ai::service", Some("req-123"));
    let event = watcher.create_event(&e);
    assert_eq!(event.event_type, "monitoring.error_detected");
    assert_eq!(event.source, "log-watcher");
    assert_eq!(event.priority, Priority::P0);
    assert_eq!(event.metadata.fingerprint, "AI5002:server::domain::ai::service");
}

#[test]
fn should_create_event_with_snake_case_keys() {
    let watcher = create_test_watcher();
    let e = entry("ERROR", Some("AI5002"), "server::domain::ai::service", Some("req-123"));
    let event = watcher.create_event(&e);
    assert!(json_member(&event.data, "error_code").is_some());
    assert!(json_member(&event.data, "request_id").is_some());
    assert!(json_member(&event.data, "log_line").is_some());
    assert!(json_member(&event.data, "errorCode").is_none());
    assert!(json_member(&event.data, "requestId").is_none());
    assert!(json_member(&event.data, "logLine").is_none());
    assert_eq!(json_member(&event.data, "severity"), Some(serde_json::Value::from("critical")));
}

#[test]
fn should_create_event_with_p1_priority_for_warning() {
    let watcher = create_test_watcher();
    let event = watcher.create_event(&entry("ERROR", Some("AUTH4001"), "server::domain::auth", None));
    assert_eq!(event.priority, Priority::P1);
}

#[test]
fn should_alert_for_new_fingerprint() {
    let watcher = create_test_watcher();
    assert!(watcher.should_alert(&entry("ERROR", Some("AI5002"), "server::domain::ai", None)));
}

#[test]
fn should_not_alert_for_duplicate_within_window() {
    let mut watcher = create_test_watcher();
    let e = entry("ERROR", Some("AI5002"), "server::domain::ai", None);
    watcher.update_dedup_cache(&e);
    assert!(!watcher.should_alert(&e));
}

#[test]
fn should_serialize_log_entry_to_camel_case() {
    let json = entry("ERROR", Some("AI5002"), "server::ai", Some("req-123")).to_json();
    assert!(json.contains("errorCode"));
    assert!(json.contains("requestId"));
    assert!(!json.contains("error_code"));
    assert!(!json.contains("request_id"));
}

#[test]
fn should_check_is_error_correctly() {
    assert!(entry("ERROR", None, "test", None).is_error());
    assert!(!entry("INFO", None, "test", None).is_error());
}

#[test]
fn should_check_is_error_case_insensitive() {
    assert!(entry("error", None, "test", None).is_error());
    assert!(entry("Error", None, "test", None).is_error());
}

#[test]
fn should_check_is_warning_correctly() {
    assert!(entry("WARN", None, "test", None).is_warning());
    assert!(entry("WARNING", None, "test", None).is_warning());
    assert!(!entry("ERROR", None, "test", None).is_warning());
}

#[test]
fn should_get_correct_log_file_path() {
    let name = LogWatcher::log_file_name(CalendarDate { year: 2026, month: 1, day: 31 });
    assert!(name.contains("server.2026-01-31.log"));
}

#[test]
fn should_get_accessors_correctly() {
    let watcher = LogWatcher::with_config(LogWatcherConfig {
        log_dir: "/tmp/logs".to_string(),
        state_dir: "/tmp/state".to_string(),
        dedup_window_secs: 600,
    });
    assert_eq!(watcher.log_dir(), "/tmp/logs");
    assert_eq!(watcher.state_dir(), "/tmp/state");
    assert_eq!(watcher.dedup_window_secs(), 600);
    let defaults = LogWatcherConfig::default();
    assert_eq!(defaults.dedup_window_secs, 300);
}

#[test]
fn should_detect_log_rotation_and_reset_line_counter() {
    assert_eq!(LogWatcher::resume_line(10, 3), (0, true));
    assert_eq!(LogWatcher::resume_line(3, 10), (3, false));
}

#[test]
fn should_process_lowercase_error_level() {
    let mut watcher = create_test_watcher();
    let entries = vec![
        (1usize, entry("error", Some("AI5001"), "a", None)),
        (2usize, entry("INFO", Some("AI5001"), "b", None)),
    ];
    let (events, last) = watcher.process_entries(&entries, now_instant());
    assert_eq!(events.len(), 1);
    assert_eq!(last, 2);
}

#[test]
fn should_deduplicate_errors_within_window() {
    let mut watcher = create_test_watcher();
    let entries = vec![
        (1usize, entry("ERROR", Some("AI5001"), "a", None)),
        (2usize, entry("ERROR", Some("AI5001"), "a", None)),
        (3usize, entry("ERROR", Some("AI5001"), "b", None)),
    ];
    let now = now_instant();
    let (events, _) = watcher.process_entries(&entries, now);
    assert_eq!(events.len(), 2);
    let later = UtcInstant { secs: now.secs + 300, nanos: now.nanos };
    assert!(watcher.should_alert_at(&entries[0].1, later));
    let sooner = UtcInstant { secs: now.secs + 299, nanos: now.nanos };
    assert!(!watcher.should_alert_at(&entries[0].1, sooner));
}

#[test]
fn should_save_and_load_state() {
    let mut watcher = create_test_watcher();
    let now = now_instant();
    watcher.record_alert(&entry("ERROR", Some("AI5001"), "a", None), now);
    let old = UtcInstant { secs: now.secs - 1000, nanos: 0 };
    watcher.record_alert(&entry("ERROR", Some("AI5002"), "b", None), old);
    let saved = watcher.seen_to_save(now);
    assert_eq!(saved.len(), 1);
    assert_eq!(saved[0].0, "AI5001:a");
    let mut fresh = create_test_watcher();
    fresh.load_seen(&saved, now);
    assert!(!fresh.should_alert_at(&entry("ERROR", Some("AI5001"), "a", None), now));
}

#[test]
fn state_file_names_carry_the_day() {
    let d = CalendarDate { year: 2026, month: 2, day: 3 };
    assert_eq!(LogWatcher::state_file_name(d), "log-watcher-state-2026-02-03");
    assert_eq!(LogWatcher::dedup_file_name(d), "log-watcher-dedup-2026-02-03");
    let cutoff = CalendarDate { year: 2026, month: 1, day: 10 };
    assert!(LogWatcher::is_expired_state_file("log-watcher-state-2026-01-09", cutoff));
    assert!(!LogWatcher::is_expired_state_file("log-watcher-dedup-2026-01-10", cutoff));
    assert!(!LogWatcher::is_expired_state_file("other-2020-01-01", cutoff));
    assert!(!LogWatcher::is_expired_state_file("log-watcher-state-garbage", cutoff));
}

// ---------- queue ----------

fn event_with(priority: Priority, fingerprint: &str) -> Event {
    Event::new("test.event", "test", priority, "{}").with_fingerprint(fingerprint)
}

#[test]
fn should_pop_events_in_priority_order() {
    let names: Vec<String> = vec!["p2_a.json", "notes.txt", "p1_b.json", "p1_c.json", "p0_d.tmp"]
        .into_iter()
        .map(|s| s.to_string())
        .collect();
    assert_eq!(next_pending_file(&names), Some(2));
    let none: Vec<String> = vec!["x.json".to_string()];
    assert_eq!(next_pending_file(&none), None);
}

#[test]
fn should_requeue_failed_event_under_max_retries() {
    let config = QueueConfig::default();
    let (dest, e) = failure_outcome(event_with(Priority::P1, "fp"), &config);
    assert_eq!(dest, FailureDestination::Pending);
    assert_eq!(e.retry_count, 1);
    assert_eq!(e.status, EventStatus::Retrying);
}

#[test]
fn should_move_to_dlq_after_max_retries() {
    let config = QueueConfig::default();
    let mut event = event_with(Priority::P1, "fp");
    event.retry_count = 3;
    let (dest, e) = failure_outcome(event, &config);
    assert_eq!(dest, FailureDestination::DeadLetter);
    assert_eq!(e.retry_count, 3);
    assert_eq!(e.status, EventStatus::Failed);
}

#[test]
fn should_skip_duplicate_events_by_fingerprint() {
    let pending = vec![event_with(Priority::P0, "fp-1")];
    assert!(contains_fingerprint_in(&pending, "fp-1"));
    assert!(!contains_fingerprint_in(&pending, "fp-2"));
}

#[test]
fn should_detect_duplicate_in_completed_within_dedup_window() {
    let config = QueueConfig::default();
    let completed = vec![(event_with(Priority::P0, "fp-1"), Some((10u64, 0u32)))];
    assert!(fingerprint_seen("fp-1", &vec![], &vec![], &completed, &config));
}

#[test]
fn should_not_detect_duplicate_outside_dedup_window() {
    let config = QueueConfig { max_retries: 3, dedup_window_secs: 1 };
    let completed = vec![(event_with(Priority::P0, "fp-1"), Some((2u64, 0u32)))];
    assert!(!fingerprint_seen("fp-1", &vec![], &vec![], &completed, &config));
    assert!(completion_within_window(Some((1, 0)), 1));
    assert!(!completion_within_window(Some((1, 1)), 1));
    assert!(completion_within_window(None, 1));
}

// ---------- processor ----------

#[test]
fn should_skip_unknown_event_type() {
    assert_eq!(EventProcessor::route("unknown.type"), EventRoute::Unknown);
    assert_eq!(EventProcessor::route("monitoring.error_detected"), EventRoute::Monitoring);
    assert_eq!(EventProcessor::route("discord.command.analyze"), EventRoute::DiscordCommand);
    assert_eq!(EventProcessor::route("github.issue_labeled"), EventRoute::GitHub);
}

#[test]
fn should_filter_events_with_trigger_filter() {
    let filter = TriggerFilter::new().with_enabled_events(vec!["github.issue_labeled"]);
    let skipped = Event::new("monitoring.error_detected", "log-watcher", Priority::P0, r#"{"severity":"critical"}"#);
    assert_eq!(EventProcessor::decide(&filter, &skipped), ProcessDecision::Skip);
    let kept = Event::new("github.issue_labeled", "github", Priority::P1, "{}");
    assert_eq!(EventProcessor::decide(&filter, &kept), ProcessDecision::Dispatch(EventRoute::GitHub));
    assert_eq!(EventProcessor::after_handling(true), QueueAction::Complete);
    assert_eq!(EventProcessor::after_handling(false), QueueAction::Fail);
}

#[test]
fn should_handle_monitoring_event_with_all_fields() {
    let event = Event::new(
        "monitoring.error_detected",
        "log-watcher",
        Priority::P0,
        r#"{"error_code":"AI5001","message":"boom","severity":"critical","target":"server::ai","request_id":"r-9"}"#,
    );
    let request = EventProcessor::monitoring_alert(&event);
    assert_eq!(request.error_code, "AI5001");
    assert_eq!(request.message, "boom");
    assert_eq!(request.severity, Severity::Critical);
    assert_eq!(request.details.len(), 3);
    assert_eq!(request.details[0], ("Target".to_string(), "server::ai".to_string()));
    assert_eq!(request.details[1], ("Request ID".to_string(), "r-9".to_string()));
    assert_eq!(request.details[2], ("Event ID".to_string(), event.id.clone()));
}

#[test]
fn monitoring_event_defaults() {
    let event = Event::new("monitoring.error_detected", "log-watcher", Priority::P0, r#"{"severity":"bogus"}"#);
    let request = EventProcessor::monitoring_alert(&event);
    assert_eq!(request.error_code, "UNKNOWN");
    assert_eq!(request.message, "No message provided");
    assert_eq!(request.severity, Severity::Warning);
    assert_eq!(request.details.len(), 1);
}

#[test]
fn run_counts_until_the_first_idle_step() {
    let outcomes = vec![Some(true), Some(true), Some(false), Some(true)];
    assert_eq!(EventProcessor::count_processed(&outcomes, 10), 2);
    assert_eq!(EventProcessor::count_processed(&outcomes, 1), 1);
    let failing = vec![Some(true), None];
    assert_eq!(EventProcessor::count_processed(&failing, 10), 1);
}

#[test]
fn file_with_id_finds_the_first_match() {
    let names: Vec<String> = vec!["p0_1_aaa.json".to_string(), "p1_2_bbb.json".to_string(), "p2_3_bbb.json".to_string()];
    assert_eq!(file_with_id(&names, "bbb"), Some(1));
    assert_eq!(file_with_id(&names, "ccc"), None);
}

#[test]
fn alert_setting_must_be_present() {
    let alert = DiscordAlert::from_setting(Some("https://discord.com/api/webhooks/x")).unwrap();
    assert!(alert.is_enabled());
    assert_eq!(alert.webhook_url(), "https://discord.com/api/webhooks/x");
    assert_eq!(
        DiscordAlert::from_setting(None).err(),
        Some(server::error::AppError::InternalError("DISCORD_WEBHOOK_URL not configured".to_string()))
    );
}

#[test]
fn should_return_error_when_env_not_set() {
    let result = DiscordAlert::from_setting(None);
    assert!(result.is_err());
}

#[test]
fn should_create_discord_alert_from_env_when_set() {
    let test_url = "https://discord.com/api/webhooks/test123";
    let result = DiscordAlert::from_setting(Some(test_url));
    assert!(result.is_ok());
    let alert = result.unwrap();
    assert_eq!(alert.webhook_url(), test_url);
}

#[test]
fn alerts_are_sent_only_while_enabled() {
    let event = Event::new(
        "monitoring.error_detected",
        "log-watcher",
        Priority::P0,
        r#"{"severity":"critical","error_code":"AI5001","message":"boom"}"#,
    );
    let on = DiscordAlert::new("https://discord.example/webhook");
    let sent = on.event_alert_to_send(&event).expect("enabled alerts send");
    let embeds = sent.embeds.expect("one embed");
    assert_eq!(embeds.len(), 1);
    assert_eq!(embeds[0].title, "🚨 [CRITICAL] AI5001");
    assert!(DiscordAlert::disabled().event_alert_to_send(&event).is_none());
    assert!(DiscordAlert::new("").event_alert_to_send(&event).is_none());
    assert!(DiscordAlert::disabled().to_send(DiscordAlert::event_alert_message(&event)).is_none());
    assert!(on.to_send(DiscordAlert::event_alert_message(&event)).is_some());
}

#[test]
fn empty_details_are_left_out() {
    assert!(details_if_any(vec![]).is_none());
    let d = vec![("Event ID".to_string(), "e-1".to_string())];
    assert_eq!(details_if_any(d.clone()), Some(d));
}
