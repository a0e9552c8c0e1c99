use server::event::{Event, EventMetadata, EventStatus, Priority, Severity};
use std::str::FromStr;

#[test]
fn should_create_event_with_auto_priority_p0_for_critical_monitoring() {
    let data = r#"{"error_code":"AI5001","severity":"critical","message":"Upstream API timeout"}"#;
    let event = Event::with_auto_priority("monitoring.error_detected", "log-watcher", data);
    assert_eq!(event.priority, Priority::P0);
    assert_eq!(event.event_type, "monitoring.error_detected");
    assert_eq!(event.source, "log-watcher");
    assert_eq!(event.status, EventStatus::Pending);
}

#[test]
fn should_create_event_with_auto_priority_p1_for_warning_monitoring() {
    let data = r#"{"error_code":"AUTH4001","severity":"warning","message":"Authentication failed"}"#;
    let event = Event::with_auto_priority("monitoring.error_detected", "log-watcher", data);
    assert_eq!(event.priority, Priority::P1);
}

#[test]
fn should_create_event_with_auto_priority_p1_for_discord_command() {
    let data = r#"{"command":"analyze","args":"AI5001"}"#;
    let event = Event::with_auto_priority("discord.command", "discord", data);
    assert_eq!(event.priority, Priority::P1);
}

#[test]
fn should_create_event_with_auto_priority_p2_for_github_pr() {
    let data = r#"{"action":"opened","pr_number":123}"#;
    let event = Event::with_auto_priority("github.pr_opened", "github", data);
    assert_eq!(event.priority, Priority::P2);
}

#[test]
fn should_parse_severity_from_string() {
    assert_eq!(Severity::from_str("critical"), Ok(Severity::Critical));
    assert_eq!(Severity::from_str("CRITICAL"), Ok(Severity::Critical));
    assert_eq!(Severity::from_str("warning"), Ok(Severity::Warning));
    assert_eq!(Severity::from_str("info"), Ok(Severity::Info));
    let err = Severity::from_str("unknown");
    assert!(err.is_err());
    assert_eq!(
        err.unwrap_err(),
        "invalid severity value: expected 'info', 'warning', or 'critical'"
    );
}

#[test]
fn should_detect_duplicate_events_by_fingerprint() {
    let fingerprint = "error_ai5001_2025-01-31";
    let event1 = Event::new("monitoring.error_detected", "log-watcher", Priority::P0, "{}").with_fingerprint(fingerprint);
    let event2 = Event::new("monitoring.error_detected", "log-watcher", Priority::P0, "{}").with_fingerprint(fingerprint);
    let event3 = Event::new("monitoring.error_detected", "log-watcher", Priority::P0, "{}")
        .with_fingerprint("different_fingerprint");
    assert!(event1.is_duplicate_of(&event2));
    assert!(!event1.is_duplicate_of(&event3));
}

#[test]
fn should_generate_correct_filename() {
    let event = Event::new("monitoring.error_detected", "log-watcher", Priority::P0, "{}");
    let filename = event.to_filename();
    assert!(filename.starts_with("p0_"));
    assert!(filename.ends_with(".json"));
    assert!(filename.contains(&event.id.to_string()));
}

#[test]
fn filename_carries_the_priority_level_and_id() {
    let event = Event::new("x", "y", Priority::P3, "{}");
    assert_eq!(event.to_filename(), format!("p3_{}.json", event.id));
}

#[test]
fn priority_of_critical_monitoring_is_most_urgent() {
    assert_eq!(Priority::for_event("monitoring.error_detected", Some("critical")), Priority::P0);
    assert_eq!(Priority::for_event("monitoring.error_detected", Some("info")), Priority::P2);
    assert_eq!(Priority::P0.level(), 0);
    assert_eq!(Priority::P3.level(), 3);
}

#[test]
fn severity_ordering_is_info_warning_critical() {
    assert!(Severity::Info.is_below(&Severity::Warning));
    assert!(Severity::Warning.is_below(&Severity::Critical));
    assert!(!Severity::Critical.is_below(&Severity::Info));
}

#[test]
fn metadata_attribute_set_twice_keeps_the_last_value() {
    let m = EventMetadata::new("fp").with_attribute("k", "1").with_attribute("k", "2");
    assert_eq!(m.attributes.len(), 1);
    assert_eq!(m.attributes[0], ("k".to_string(), "2".to_string()));
}

#[test]
fn event_payload_members_are_read_from_json() {
    let event = Event::new("t", "s", Priority::P1, r#"{"severity":"warning","n":3}"#);
    assert_eq!(event.data_str("severity"), Some("warning".to_string()));
    assert_eq!(event.data_str("n"), None);
    assert_eq!(event.data_str("missing"), None);
}

fn is_v4_uuid_text(t: &str) -> bool {
    let c: Vec<char> = t.chars().collect();
    c.len() == 36
        && c.iter().enumerate().all(|(i, &ch)| {
            if i == 8 || i == 13 || i == 18 || i == 23 {
                ch == '-'
            } else {
                ch.is_ascii_digit() || ('a'..='f').contains(&ch)
            }
        })
        && c[14] == '4'
        && "89ab".contains(c[19])
}

#[test]
fn new_event_ids_are_version_four_uuids() {
    let e = Event::new("monitoring.error_detected", "test", Priority::P1, "{}");
    assert!(is_v4_uuid_text(&e.id), "{}", e.id);
    assert!(is_v4_uuid_text(&e.metadata.fingerprint), "{}", e.metadata.fingerprint);
    assert_ne!(e.id, Event::new("a", "b", Priority::P1, "{}").id);
}
