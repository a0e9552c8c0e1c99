//! The decisions of the event processor: which handler an event goes to,
//! what its monitoring alert says, and what becomes of it in the queue.
use vstd::prelude::*;
use crate::event::{Event, Severity};
use crate::json::json_get_str;
use crate::text::{owned, str_eq, str_starts_with};
use crate::trigger::TriggerFilter;

verus! {

/// The handler of an event type.
#[derive(Debug, Clone, Copy, PartialEq, Eq, Structural)]
pub enum EventRoute {
    Monitoring,
    DiscordCommand,
    GitHub,
    Unknown,
}

/// The handler of an event type: `monitoring.error_detected`, then types
/// starting with `discord.command`, then with `github.`; anything else is skipped.
pub open spec fn route_of(event_type: Seq<char>) -> EventRoute {
    if event_type == "monitoring.error_detected"@ {
        EventRoute::Monitoring
    } else if crate::text::starts_with(event_type, "discord.command"@) {
        EventRoute::DiscordCommand
    } else if crate::text::starts_with(event_type, "github."@) {
        EventRoute::GitHub
    } else {
        EventRoute::Unknown
    }
}

/// What the processor does with an event it took from the queue.
#[derive(Debug, Clone, Copy, PartialEq, Eq, Structural)]
pub enum ProcessDecision {
    /// The trigger filter refused it: it is completed without handling.
    Skip,
    /// It is handed to the handler of its type.
    Dispatch(EventRoute),
}

/// What the queue does with an event after its handler ran.
#[derive(Debug, Clone, Copy, PartialEq, Eq, Structural)]
pub enum QueueAction {
    Complete,
    Fail,
}

/// The alert sent for a monitoring event.
#[derive(Debug)]
pub struct ErrorAlertRequest {
    pub error_code: String,
    pub message: String,
    pub severity: Severity,
    pub details: Vec<(String, String)>,
}

/// The details an error alert carries: none when the list is empty.
pub fn details_if_any(details: Vec<(String, String)>) -> (r: Option<Vec<(String, String)>>)
    ensures
        details@.len() == 0 ==> r is None,
        details@.len() > 0 ==> r == Some(details),
{
    if details.len() == 0 {
        None
    } else {
        Some(details)
    }
}

/// A string member of an event payload, or a default.
pub open spec fn member_or(data: Seq<char>, key: Seq<char>, default: Seq<char>) -> Seq<char> {
    crate::alert::member_or(data, key, default)
}

/// The severity a monitoring event is alerted with: its `severity` member
/// (default `warning`) when it names one, otherwise warning.
pub open spec fn alert_severity(data: Seq<char>) -> Severity {
    match crate::event::parse_severity(member_or(data, "severity"@, "warning"@)) {
        Some(s) => s,
        None => Severity::Warning,
    }
}

/// The details of a monitoring alert: target and request id when present,
/// then the event id.
pub open spec fn alert_details(data: Seq<char>, event_id: Seq<char>) -> Seq<(Seq<char>, Seq<char>)> {
    let t: Seq<(Seq<char>, Seq<char>)> = match crate::json::json_str_member(data, "target"@) {
        Some(v) => seq![("Target"@, v)],
        None => Seq::empty(),
    };
    let r: Seq<(Seq<char>, Seq<char>)> = match crate::json::json_str_member(data, "request_id"@) {
        Some(v) => seq![("Request ID"@, v)],
        None => Seq::empty(),
    };
    t + r + seq![("Event ID"@, event_id)]
}

pub open spec fn pair_views(v: Seq<(String, String)>) -> Seq<(Seq<char>, Seq<char>)> {
    v.map_values(|p: (String, String)| (p.0@, p.1@))
}

/// The event processor's decisions.
pub struct EventProcessor;

impl EventProcessor {
    /// The handler of an event type.
    pub fn route(event_type: &str) -> (r: EventRoute)
        ensures
            r == route_of(event_type@),
    {
        if str_eq(event_type, "monitoring.error_detected") {
            EventRoute::Monitoring
        } else if str_starts_with(event_type, "discord.command") {
            EventRoute::DiscordCommand
        } else if str_starts_with(event_type, "github.") {
            EventRoute::GitHub
        } else {
            EventRoute::Unknown
        }
    }

    /// Decides what happens to an event taken from the queue: skipped when
    /// the trigger filter refuses it, otherwise dispatched by its type.
    pub fn decide(filter: &TriggerFilter, event: &Event) -> (r: ProcessDecision)
        ensures
            r == ProcessDecision::Skip || r == ProcessDecision::Dispatch(route_of(event.event_type@)),
            !filter.is_active_view() ==> r != ProcessDecision::Skip,
            r != ProcessDecision::Skip ==> filter.decides(
                event.event_type@,
                match event.metadata.user { Some(u) => Some(u@), None => None },
                crate::json::json_str_member(event.data@, "error_code"@),
                crate::json::json_str_member(event.data@, "severity"@),
            ),
            filter.limiter_view() is None ==> ((r != ProcessDecision::Skip) == filter.decides(
                event.event_type@,
                match event.metadata.user { Some(u) => Some(u@), None => None },
                crate::json::json_str_member(event.data@, "error_code"@),
                crate::json::json_str_member(event.data@, "severity"@),
            )),
    {
        if !filter.should_trigger(event) {
            ProcessDecision::Skip
        } else {
            ProcessDecision::Dispatch(EventProcessor::route(event.event_type.as_str()))
        }
    }

    /// What the queue does after the handler: complete on success, fail otherwise.
    pub fn after_handling(handled: bool) -> (r: QueueAction)
        ensures
            r == (if handled { QueueAction::Complete } else { QueueAction::Fail }),
    {
        if handled {
            QueueAction::Complete
        } else {
            QueueAction::Fail
        }
    }

    /// The alert of a monitoring event, read from its payload: code
    /// (default `UNKNOWN`), message (default `No message provided`), severity
    /// and details.
    pub fn monitoring_alert(event: &Event) -> (r: ErrorAlertRequest)
        ensures
            r.error_code@ == member_or(event.data@, "error_code"@, "UNKNOWN"@),
            r.message@ == member_or(event.data@, "message"@, "No message provided"@),
            r.severity == alert_severity(event.data@),
            pair_views(r.details@) == alert_details(event.data@, event.id@),
    {
        let data = event.data.as_str();
        let error_code = match json_get_str(data, "error_code") {
            Some(v) => v,
            None => owned("UNKNOWN"),
        };
        let message = match json_get_str(data, "message") {
            Some(v) => v,
            None => owned("No message provided"),
        };
        let severity_text = match json_get_str(data, "severity") {
            Some(v) => v,
            None => owned("warning"),
        };
        let severity = match Severity::parse(severity_text.as_str()) {
            Ok(s) => s,
            Err(_) => Severity::Warning,
        };
        let mut details: Vec<(String, String)> = Vec::new();
        match json_get_str(data, "target") {
            Some(t) => details.push((owned("Target"), t)),
            None => {},
        }
        match json_get_str(data, "request_id") {
            Some(r) => details.push((owned("Request ID"), r)),
            None => {},
        }
        details.push((owned("Event ID"), event.id.clone()));
        proof {
            assert(pair_views(details@) =~= alert_details(event.data@, event.id@));
        }
        ErrorAlertRequest { error_code, message, severity, details }
    }

    /// Counts a run of up to `max_iterations` steps: `outcomes[i]` says
    /// whether step `i` processed an event (`Some(true)`), found the queue
    /// empty (`Some(false)`) or failed (`None`); the run stops at the first
    /// step that did not process one. Returns the number processed.
    pub fn count_processed(outcomes: &Vec<Option<bool>>, max_iterations: usize) -> (r: usize)
        ensures
            r <= max_iterations,
            r <= outcomes@.len(),
            forall|i: int| 0 <= i < r ==> outcomes@[i] == Some(true),
            r < max_iterations && r < outcomes@.len() ==> outcomes@[r as int] != Some(true),
    {
        let mut n: usize = 0;
        while n < max_iterations && n < outcomes.len()
            invariant
                n <= max_iterations,
                n <= outcomes@.len(),
                forall|i: int| 0 <= i < n ==> outcomes@[i] == Some(true),
            decreases outcomes.len() - n,
        {
            match outcomes[n] {
                Some(true) => {},
                _ => {
                    return n;
                },
            }
            n = n + 1;
        }
        n
    }
}

} // verus!
