//! The decisions of the file-backed event queue: which pending file is taken
//! next, where a failed event goes, and which events count as duplicates.
use vstd::prelude::*;
use crate::event::{Event, EventStatus};
use crate::text::{str_ends_with, str_eq, str_starts_with};

verus! {

/// Settings of an event queue.
#[derive(Debug, Clone, Copy)]
pub struct QueueConfig {
    pub max_retries: u32,
    pub dedup_window_secs: u64,
}

impl Default for QueueConfig {
    /// Three retries and a five-minute duplicate window.
    fn default() -> (r: Self)
        ensures
            r.max_retries == 3,
            r.dedup_window_secs == 300,
    {
        QueueConfig { max_retries: 3, dedup_window_secs: 300 }
    }
}

/// The file-name prefix of the events of priority level `level`.
pub open spec fn level_prefix(level: int) -> Seq<char> {
    seq!['p'] + crate::text::decimal(level as nat) + seq!['_']
}

/// Whether a pending file holds an event of priority level `level`.
pub open spec fn is_level_file(name: Seq<char>, level: int) -> bool {
    crate::text::starts_with(name, level_prefix(level)) && crate::text::ends_with(name, ".json"@)
}

/// Whether some file holds an event of level `level`.
pub open spec fn has_level_file(names: Seq<Seq<char>>, level: int) -> bool {
    exists|i: int| 0 <= i < names.len() && is_level_file(#[trigger] names[i], level)
}

/// The first file, in listing order, of the most urgent level present.
pub open spec fn is_next_pending(names: Seq<Seq<char>>, i: int) -> bool {
    exists|level: int| 0 <= level <= 3
        && is_level_file(names[i], level)
        && (forall|j: int| 0 <= j < i ==> !is_level_file(#[trigger] names[j], level))
        && (forall|l: int| 0 <= l < level ==> !#[trigger] has_level_file(names, l))
}

/// The prefix text of a level, as a literal.
fn prefix_of(level: u8) -> (r: &'static str)
    requires
        level <= 3,
    ensures
        r@ == level_prefix(level as int),
{
    proof {
        reveal_strlit("p0_");
        reveal_strlit("p1_");
        reveal_strlit("p2_");
        reveal_strlit("p3_");
        assert(crate::text::decimal(0) == seq!['0']);
        assert(crate::text::decimal(1) == seq!['1']);
        assert(crate::text::decimal(2) == seq!['2']);
        assert(crate::text::decimal(3) == seq!['3']);
    }
    let r = if level == 0 { "p0_" } else if level == 1 { "p1_" } else if level == 2 { "p2_" } else { "p3_" };
    assert(r@ =~= level_prefix(level as int));
    r
}

/// Which of the listed pending files is taken next: levels P0 to P3 in turn,
/// and within a level the first file listed; `None` when no file is an event.
pub fn next_pending_file(names: &Vec<String>) -> (r: Option<usize>)
    ensures
        match r {
            Some(i) => i < names@.len() && is_next_pending(crate::retrospect::views(names@), i as int),
            None => forall|l: int| 0 <= l <= 3 ==> !#[trigger] has_level_file(crate::retrospect::views(names@), l),
        },
{
    let ghost vs = crate::retrospect::views(names@);
    let mut level: u8 = 0;
    while level <= 3
        invariant
            level <= 4,
            vs == crate::retrospect::views(names@),
            vs.len() == names@.len(),
            forall|l: int| 0 <= l < level ==> !#[trigger] has_level_file(vs, l),
        decreases 4 - level,
    {
        let prefix = prefix_of(level);
        let mut i: usize = 0;
        while i < names.len()
            invariant
                i <= names@.len(),
                level <= 3,
                prefix@ == level_prefix(level as int),
                vs == crate::retrospect::views(names@),
                vs.len() == names@.len(),
                forall|l: int| 0 <= l < level ==> !#[trigger] has_level_file(vs, l),
                forall|j: int| 0 <= j < i ==> !is_level_file(#[trigger] vs[j], level as int),
            decreases names.len() - i,
        {
            let name = names[i].as_str();
            if str_starts_with(name, prefix) && str_ends_with(name, ".json") {
                proof {
                    assert(vs[i as int] == names@[i as int]@);
                    assert(is_level_file(vs[i as int], level as int));
                }
                return Some(i);
            }
            proof {
                assert(vs[i as int] == names@[i as int]@);
            }
            i = i + 1;
        }
        level = level + 1;
    }
    None
}

/// Where a failed event goes.
#[derive(Debug, Clone, Copy, PartialEq, Eq, Structural)]
pub enum FailureDestination {
    DeadLetter,
    Pending,
}

/// The fate of a failed event: once it has used its retries it goes to the
/// dead-letter queue marked failed; otherwise it goes back to pending with one
/// more retry counted, marked retrying.
pub open spec fn failure_result(event: Event, config: QueueConfig) -> (FailureDestination, Event) {
    if event.retry_count >= config.max_retries {
        (FailureDestination::DeadLetter, Event { status: EventStatus::Failed, ..event })
    } else {
        (FailureDestination::Pending, Event { status: EventStatus::Retrying, retry_count: (event.retry_count + 1) as u32, ..event })
    }
}

/// Decides the fate of a failed event.
pub fn failure_outcome(event: Event, config: &QueueConfig) -> (r: (FailureDestination, Event))
    ensures
        r == failure_result(event, *config),
{
    if event.retry_count >= config.max_retries {
        let mut e = event;
        e.status = EventStatus::Failed;
        (FailureDestination::DeadLetter, e)
    } else {
        let mut e = event;
        e.retry_count = e.retry_count + 1;
        e.status = EventStatus::Retrying;
        (FailureDestination::Pending, e)
    }
}

/// A failed event is retried at most `max_retries` times: starting within the
/// limit, a failure keeps the retry count within it, and an event that goes
/// back to pending has counted one more retry than before.
pub proof fn retries_stay_within_limit(event: Event, config: QueueConfig)
    requires
        event.retry_count <= config.max_retries,
    ensures
        failure_result(event, config).1.retry_count <= config.max_retries,
        failure_result(event, config).0 == FailureDestination::Pending
            ==> failure_result(event, config).1.retry_count == event.retry_count + 1,
        failure_result(event, config).0 == FailureDestination::DeadLetter
            ==> event.retry_count == config.max_retries,
{
}

/// Whether some event carries the fingerprint.
pub open spec fn has_fingerprint(events: Seq<Event>, fp: Seq<char>) -> bool {
    exists|i: int| 0 <= i < events.len() && (#[trigger] events[i]).metadata.fingerprint@ == fp
}

/// Whether some event of the list carries the fingerprint.
pub fn contains_fingerprint_in(events: &Vec<Event>, fingerprint: &str) -> (b: bool)
    ensures
        b == has_fingerprint(events@, fingerprint@),
{
    let mut i: usize = 0;
    while i < events.len()
        invariant
            i <= events@.len(),
            forall|j: int| 0 <= j < i ==> (#[trigger] events@[j]).metadata.fingerprint@ != fingerprint@,
        decreases events.len() - i,
    {
        if str_eq(events[i].metadata.fingerprint.as_str(), fingerprint) {
            return true;
        }
        i = i + 1;
    }
    false
}

/// Whether a completed file still counts for duplicates: its age, when known,
/// must not exceed the window.
pub open spec fn completion_counts(age: Option<(u64, u32)>, window_secs: u64) -> bool {
    match age {
        None => true,
        Some((s, n)) => !(s > window_secs || (s == window_secs && n > 0)),
    }
}

/// Whether a completed file of the given age (seconds, nanoseconds) still
/// counts for duplicates.
pub fn completion_within_window(age: Option<(u64, u32)>, window_secs: u64) -> (b: bool)
    ensures
        b == completion_counts(age, window_secs),
{
    match age {
        None => true,
        Some((s, n)) => !(s > window_secs || (s == window_secs && n > 0)),
    }
}

/// Whether an event with the fingerprint is already queued: pending, being
/// processed, or completed within the duplicate window. Each completed event
/// comes with the age of its file, when known.
pub fn fingerprint_seen(
    fingerprint: &str,
    pending: &Vec<Event>,
    processing: &Vec<Event>,
    completed: &Vec<(Event, Option<(u64, u32)>)>,
    config: &QueueConfig,
) -> (b: bool)
    ensures
        b == (has_fingerprint(pending@, fingerprint@) || has_fingerprint(processing@, fingerprint@)
            || exists|i: int| 0 <= i < completed@.len()
                && completion_counts((#[trigger] completed@[i]).1, config.dedup_window_secs)
                && completed@[i].0.metadata.fingerprint@ == fingerprint@),
{
    if contains_fingerprint_in(pending, fingerprint) || contains_fingerprint_in(processing, fingerprint) {
        return true;
    }
    let mut i: usize = 0;
    while i < completed.len()
        invariant
            i <= completed@.len(),
            forall|j: int| 0 <= j < i ==> !(completion_counts((#[trigger] completed@[j]).1, config.dedup_window_secs)
                && completed@[j].0.metadata.fingerprint@ == fingerprint@),
        decreases completed.len() - i,
    {
        let entry = &completed[i];
        if completion_within_window(entry.1, config.dedup_window_secs)
            && str_eq(entry.0.metadata.fingerprint.as_str(), fingerprint) {
            return true;
        }
        i = i + 1;
    }
    false
}

/// The first file name that holds an event's id.
pub fn file_with_id(names: &Vec<String>, id: &str) -> (r: Option<usize>)
    ensures
        match r {
            Some(i) => i < names@.len() && crate::text::contains(names@[i as int]@, id@)
                && forall|j: int| 0 <= j < i ==> !crate::text::contains(#[trigger] names@[j]@, id@),
            None => forall|j: int| 0 <= j < names@.len() ==> !crate::text::contains(#[trigger] names@[j]@, id@),
        },
{
    let mut i: usize = 0;
    while i < names.len()
        invariant
            i <= names@.len(),
            forall|j: int| 0 <= j < i ==> !crate::text::contains(#[trigger] names@[j]@, id@),
        decreases names.len() - i,
    {
        if crate::text::str_contains(names[i].as_str(), id) {
            return Some(i);
        }
        i = i + 1;
    }
    None
}

} // verus!
