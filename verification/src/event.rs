//! Events of the automation pipeline: priorities, severities, statuses,
//! metadata and the event record itself.
use vstd::prelude::*;
use crate::json::json_get_str;
use crate::text::{join2, owned, str_eq, str_starts_with, to_lower, u64_text};

verus! {

/// Event priority; P0 is the most urgent.
#[derive(Debug, Clone, Copy, PartialEq, Eq, Structural, PartialOrd, Ord, Hash)]
pub enum Priority {
    P0,
    P1,
    P2,
    P3,
}

/// The numeric level of a priority (0 for P0 .. 3 for P3).
pub open spec fn priority_level(p: Priority) -> u8 {
    match p {
        Priority::P0 => 0,
        Priority::P1 => 1,
        Priority::P2 => 2,
        Priority::P3 => 3,
    }
}

/// The priority an event type gets, given the severity its payload carries.
pub open spec fn priority_for(event_type: Seq<char>, severity: Option<Seq<char>>) -> Priority {
    if event_type == "monitoring.error_detected"@ {
        if severity == Some("critical"@) {
            Priority::P0
        } else if severity == Some("warning"@) {
            Priority::P1
        } else {
            Priority::P2
        }
    } else if event_type == "discord.command"@ || crate::text::starts_with(
        event_type,
        "discord.command."@,
    ) {
        Priority::P1
    } else if event_type == "github.issue_labeled"@ || event_type
        == "github.issue_comment_created"@ || event_type == "github.issue_opened"@ {
        Priority::P1
    } else if event_type == "github.pr_opened"@ || event_type == "github.pr_labeled"@ {
        Priority::P2
    } else {
        Priority::P3
    }
}

impl Default for Priority {
    fn default() -> (r: Self)
        ensures
            r == Priority::P3,
    {
        Priority::P3
    }
}

impl Priority {
    /// The numeric level (0..=3).
    pub fn level(&self) -> (r: u8)
        ensures
            r == priority_level(*self),
    {
        match self {
            Priority::P0 => 0,
            Priority::P1 => 1,
            Priority::P2 => 2,
            Priority::P3 => 3,
        }
    }

    /// The priority of an event type, given the severity found in its payload.
    pub fn for_event(event_type: &str, severity: Option<&str>) -> (r: Self)
        ensures
            r == priority_for(
                event_type@,
                match severity {
                    Some(s) => Some(s@),
                    None => None,
                },
            ),
    {
        if str_eq(event_type, "monitoring.error_detected") {
            match severity {
                Some(s) => {
                    if str_eq(s, "critical") {
                        Priority::P0
                    } else if str_eq(s, "warning") {
                        Priority::P1
                    } else {
                        Priority::P2
                    }
                },
                None => Priority::P2,
            }
        } else if str_eq(event_type, "discord.command") || str_starts_with(
            event_type,
            "discord.command.",
        ) {
            Priority::P1
        } else if str_eq(event_type, "github.issue_labeled") || str_eq(
            event_type,
            "github.issue_comment_created",
        ) || str_eq(event_type, "github.issue_opened") {
            Priority::P1
        } else if str_eq(event_type, "github.pr_opened") || str_eq(
            event_type,
            "github.pr_labeled",
        ) {
            Priority::P2
        } else {
            Priority::P3
        }
    }

    /// The priority of an event type, reading the severity from its JSON payload.
    pub fn from_event_type(event_type: &str, data: &str) -> (r: Self)
        ensures
            r == priority_for(event_type@, crate::json::json_str_member(data@, "severity"@)),
    {
        let sev = json_get_str(data, "severity");
        match &sev {
            Some(s) => Self::for_event(event_type, Some(s.as_str())),
            None => Self::for_event(event_type, None),
        }
    }
}

/// Severity of a monitoring event.
#[derive(Debug, Clone, Copy, PartialEq, Eq, Structural, PartialOrd, Ord, Hash)]
pub enum Severity {
    Info,
    Warning,
    Critical,
}

/// Severities are ordered Info < Warning < Critical.
pub open spec fn severity_rank(s: Severity) -> u8 {
    match s {
        Severity::Info => 0,
        Severity::Warning => 1,
        Severity::Critical => 2,
    }
}

/// Reading of an already lower-cased severity name.
pub open spec fn severity_named(lower: Seq<char>) -> Option<Severity> {
    if lower == "info"@ {
        Some(Severity::Info)
    } else if lower == "warning"@ {
        Some(Severity::Warning)
    } else if lower == "critical"@ {
        Some(Severity::Critical)
    } else {
        None
    }
}

/// The severity a text names, ignoring case.
pub open spec fn parse_severity(s: Seq<char>) -> Option<Severity> {
    severity_named(crate::text::lowercase(s))
}

impl Default for Severity {
    fn default() -> (r: Self)
        ensures
            r == Severity::Info,
    {
        Severity::Info
    }
}

impl Severity {
    /// The rank used for ordering (Info 0, Warning 1, Critical 2).
    pub fn rank(&self) -> (r: u8)
        ensures
            r == severity_rank(*self),
    {
        match self {
            Severity::Info => 0,
            Severity::Warning => 1,
            Severity::Critical => 2,
        }
    }

    /// Whether `self` is strictly less severe than `other`.
    pub fn is_below(&self, other: &Severity) -> (b: bool)
        ensures
            b == (severity_rank(*self) < severity_rank(*other)),
    {
        self.rank() < other.rank()
    }

    /// Reads "info", "warning" or "critical", in any case.
    pub fn parse(s: &str) -> (r: Result<Severity, &'static str>)
        ensures
            match r {
                Ok(v) => parse_severity(s@) == Some(v),
                Err(_) => parse_severity(s@) is None,
            },
    {
        let lower = to_lower(s);
        if str_eq(lower.as_str(), "info") {
            Ok(Severity::Info)
        } else if str_eq(lower.as_str(), "warning") {
            Ok(Severity::Warning)
        } else if str_eq(lower.as_str(), "critical") {
            Ok(Severity::Critical)
        } else {
            Err("invalid severity value: expected 'info', 'warning', or 'critical'")
        }
    }
}

impl std::str::FromStr for Severity {
    type Err = &'static str;

    /// Reads "info", "warning" or "critical", in any case, as `parse` does.
    fn from_str(s: &str) -> (r: Result<Self, Self::Err>)
        ensures
            match r {
                Ok(v) => parse_severity(s@) == Some(v),
                Err(_) => parse_severity(s@) is None,
            },
    {
        Severity::parse(s)
    }
}

/// Processing status of an event.
#[derive(Debug, Clone, Copy, PartialEq, Eq, Structural, Hash)]
pub enum EventStatus {
    Pending,
    Processing,
    Completed,
    Failed,
    Retrying,
}

impl Default for EventStatus {
    fn default() -> (r: Self)
        ensures
            r == EventStatus::Pending,
    {
        EventStatus::Pending
    }
}

/// Metadata for tracking and deduplicating events. The attributes are a map
/// kept as a list of distinct keys with their values.
#[derive(Debug, Clone)]
pub struct EventMetadata {
    pub fingerprint: String,
    pub correlation_id: Option<String>,
    pub user: Option<String>,
    pub attributes: Vec<(String, String)>,
}

/// The attribute pairs as text.
pub open spec fn attr_views(v: Seq<(String, String)>) -> Seq<(Seq<char>, Seq<char>)> {
    v.map_values(|p: (String, String)| (p.0@, p.1@))
}

/// The first index at or after `from` whose key is `k`, or the length when none is.
pub open spec fn key_position(v: Seq<(Seq<char>, Seq<char>)>, k: Seq<char>, from: int) -> int
    decreases v.len() - from,
{
    if from >= v.len() || from < 0 {
        v.len() as int
    } else if v[from].0 == k {
        from
    } else {
        key_position(v, k, from + 1)
    }
}

/// Setting `k` to `val`: the existing entry is replaced, or a new one appended.
pub open spec fn set_attr(v: Seq<(Seq<char>, Seq<char>)>, k: Seq<char>, val: Seq<char>) -> Seq<
    (Seq<char>, Seq<char>),
> {
    let i = key_position(v, k, 0);
    if i < v.len() {
        v.update(i, (k, val))
    } else {
        v.push((k, val))
    }
}

/// The value stored under `k`, if any.
pub open spec fn attr_lookup(v: Seq<(Seq<char>, Seq<char>)>, k: Seq<char>) -> Option<Seq<char>> {
    let i = key_position(v, k, 0);
    if i < v.len() {
        Some(v[i].1)
    } else {
        None
    }
}

proof fn lemma_key_position_bounds(v: Seq<(Seq<char>, Seq<char>)>, k: Seq<char>, from: int)
    requires
        0 <= from <= v.len(),
    ensures
        from <= key_position(v, k, from) <= v.len(),
        key_position(v, k, from) < v.len() ==> v[key_position(v, k, from)].0 == k,
        forall|j: int| from <= j < key_position(v, k, from) ==> v[j].0 != k,
    decreases v.len() - from,
{
    if from < v.len() && v[from].0 != k {
        lemma_key_position_bounds(v, k, from + 1);
    }
}

/// Setting an attribute and then reading it gives back the value set, and
/// leaves every other key as it was.
pub proof fn set_then_lookup(
    v: Seq<(Seq<char>, Seq<char>)>,
    k: Seq<char>,
    val: Seq<char>,
    other: Seq<char>,
)
    ensures
        attr_lookup(set_attr(v, k, val), k) == Some(val),
        other != k ==> attr_lookup(set_attr(v, k, val), other) == attr_lookup(v, other),
{
    lemma_key_position_bounds(v, k, 0);
    lemma_key_position_bounds(v, other, 0);
    let w = set_attr(v, k, val);
    lemma_key_position_bounds(w, k, 0);
    lemma_key_position_bounds(w, other, 0);
    let i = key_position(v, k, 0);
    let pk = key_position(w, k, 0);
    assert(w[i].0 == k);
    if pk < i {
        assert(w[pk] == v[pk]);
    }
    assert(pk == i);
    if other != k {
        let po = key_position(v, other, 0);
        let qo = key_position(w, other, 0);
        if qo < w.len() && qo < v.len() && qo != i {
            assert(w[qo] == v[qo]);
        }
        if po < v.len() && po != i {
            assert(w[po] == v[po]);
        }
        if po < v.len() {
            assert(po != i);
            assert(qo <= po);
            assert(qo == po);
        } else {
            if qo < v.len() {
                assert(qo != i);
                assert(false);
            }
            if qo == v.len() && qo < w.len() {
                assert(w[qo].0 == k);
            }
        }
    }
}

/// A lower-case hexadecimal digit.
pub open spec fn is_lower_hex(c: char) -> bool {
    ('0' <= c && c <= '9') || ('a' <= c && c <= 'f')
}

/// The text of a version 4 UUID in its hyphenated lower-case form: 36
/// characters, hyphens at 8, 13, 18 and 23, lower-case hex digits elsewhere,
/// the version digit `4` at 14 and the variant digit (8, 9, a or b) at 19.
pub open spec fn is_v4_uuid_text(t: Seq<char>) -> bool {
    &&& t.len() == 36
    &&& forall|i: int| 0 <= i < 36 ==> if i == 8 || i == 13 || i == 18 || i == 23 {
        t[i] == '-'
    } else {
        is_lower_hex(#[trigger] t[i])
    }
    &&& t[14] == '4'
    &&& (t[19] == '8' || t[19] == '9' || t[19] == 'a' || t[19] == 'b')
}

/// Generates a random (version 4) UUID with `uuid::Uuid::new_v4` and formats it
/// with `to_string` (uuid's `Display`, the hyphenated lower-case form). The
/// value is random; only its form is stated: `new_v4` sets the version and
/// variant bits, and the hyphenated encoder writes lower-case hex digits with
/// hyphens after the 8th, 12th, 16th and 20th digit.
#[verifier::external_body]
pub(crate) fn new_uuid_string() -> (r: String)
    ensures
        is_v4_uuid_text(r@),
{
    uuid::Uuid::new_v4().to_string()
}

/// The current time from `chrono::Utc::now`, formatted with `to_rfc3339`. The
/// value depends on the clock: nothing is stated of it.
#[verifier::external_body]
pub(crate) fn utc_now_rfc3339() -> (r: String) {
    chrono::Utc::now().to_rfc3339()
}

/// The current time from `chrono::Utc::now`, as whole seconds since the Unix
/// epoch (`timestamp`). The value depends on the clock: nothing is stated of it.
#[verifier::external_body]
pub(crate) fn utc_now_unix_secs() -> (r: i64) {
    chrono::Utc::now().timestamp()
}

impl Default for EventMetadata {
    /// Metadata with a fresh random fingerprint and nothing else.
    fn default() -> (r: Self)
        ensures
            crate::event::is_v4_uuid_text(r.fingerprint@),
            r.correlation_id is None,
            r.user is None,
            r.attributes@.len() == 0,
    {
        EventMetadata {
            fingerprint: new_uuid_string(),
            correlation_id: None,
            user: None,
            attributes: Vec::new(),
        }
    }
}

impl EventMetadata {
    /// Metadata carrying the given fingerprint and nothing else.
    pub fn new(fingerprint: &str) -> (r: Self)
        ensures
            r.fingerprint@ == fingerprint@,
            r.correlation_id is None,
            r.user is None,
            r.attributes@.len() == 0,
    {
        EventMetadata {
            fingerprint: owned(fingerprint),
            correlation_id: None,
            user: None,
            attributes: Vec::new(),
        }
    }

    pub fn with_correlation_id(self, id: &str) -> (r: Self)
        ensures
            r.correlation_id matches Some(c) && c@ == id@,
            r.fingerprint == self.fingerprint,
            r.user == self.user,
            r.attributes == self.attributes,
    {
        EventMetadata { correlation_id: Some(owned(id)), ..self }
    }

    pub fn with_user(self, user: &str) -> (r: Self)
        ensures
            r.user matches Some(u) && u@ == user@,
            r.fingerprint == self.fingerprint,
            r.correlation_id == self.correlation_id,
            r.attributes == self.attributes,
    {
        EventMetadata { user: Some(owned(user)), ..self }
    }

    /// Sets attribute `key` to `value`, replacing an earlier value of the key.
    pub fn with_attribute(self, key: &str, value: &str) -> (r: Self)
        ensures
            attr_views(r.attributes@) == set_attr(attr_views(self.attributes@), key@, value@),
            r.fingerprint == self.fingerprint,
            r.user == self.user,
            r.correlation_id == self.correlation_id,
    {
        let mut m = self;
        let ghost v0 = attr_views(m.attributes@);
        let mut i: usize = 0;
        while i < m.attributes.len()
            invariant
                i <= m.attributes@.len(),
                attr_views(m.attributes@) == v0,
                key_position(v0, key@, 0) == key_position(v0, key@, i as int),
                v0 == attr_views(self.attributes@),
                m.fingerprint == self.fingerprint,
                m.user == self.user,
                m.correlation_id == self.correlation_id,
            decreases m.attributes.len() - i,
        {
            assert(v0[i as int].0 == m.attributes@[i as int].0@);
            if str_eq(m.attributes[i].0.as_str(), key) {
                assert(key_position(v0, key@, i as int) == i as int);
                m.attributes.set(i, (owned(key), owned(value)));
                assert(attr_views(m.attributes@) =~= set_attr(v0, key@, value@));
                return m;
            }
            i = i + 1;
        }
        m.attributes.push((owned(key), owned(value)));
        assert(attr_views(m.attributes@) =~= set_attr(v0, key@, value@));
        m
    }
}

/// An event of the automation pipeline. The payload is kept as JSON text.
#[derive(Debug, Clone)]
pub struct Event {
    pub id: String,
    pub event_type: String,
    pub source: String,
    pub timestamp: String,
    pub priority: Priority,
    pub data: String,
    pub metadata: EventMetadata,
    pub retry_count: u32,
    pub status: EventStatus,
}

/// The queue file name of an event: `p{level}_{id}.json`.
pub open spec fn event_file_name(p: Priority, id: Seq<char>) -> Seq<char> {
    seq!['p'] + crate::text::decimal(priority_level(p) as nat) + seq!['_'] + id + ".json"@
}

impl Event {
    /// A new pending event with a fresh id, the current time and default metadata.
    pub fn new(event_type: &str, source: &str, priority: Priority, data: &str) -> (r: Self)
        ensures
            r.event_type@ == event_type@,
            r.source@ == source@,
            r.priority == priority,
            r.data@ == data@,
            r.retry_count == 0,
            r.status == EventStatus::Pending,
            r.metadata.user is None,
            r.metadata.correlation_id is None,
            r.metadata.attributes@.len() == 0,
            is_v4_uuid_text(r.id@),
            is_v4_uuid_text(r.metadata.fingerprint@),
    {
        Event {
            id: new_uuid_string(),
            event_type: owned(event_type),
            source: owned(source),
            timestamp: utc_now_rfc3339(),
            priority,
            data: owned(data),
            metadata: EventMetadata::default(),
            retry_count: 0,
            status: EventStatus::Pending,
        }
    }

    /// A new event whose priority follows from its type and payload.
    pub fn with_auto_priority(event_type: &str, source: &str, data: &str) -> (r: Self)
        ensures
            r.event_type@ == event_type@,
            r.source@ == source@,
            r.data@ == data@,
            r.priority == priority_for(
                event_type@,
                crate::json::json_str_member(data@, "severity"@),
            ),
            r.retry_count == 0,
            r.status == EventStatus::Pending,
    {
        let priority = Priority::from_event_type(event_type, data);
        Self::new(event_type, source, priority, data)
    }

    pub fn with_metadata(self, metadata: EventMetadata) -> (r: Self)
        ensures
            r == (Event { metadata, ..self }),
    {
        Event { metadata, ..self }
    }

    pub fn with_fingerprint(self, fingerprint: &str) -> (r: Self)
        ensures
            r.metadata.fingerprint@ == fingerprint@,
            r.metadata.user == self.metadata.user,
            r.metadata.correlation_id == self.metadata.correlation_id,
            r.metadata.attributes == self.metadata.attributes,
            r.id == self.id && r.event_type == self.event_type && r.data == self.data,
            r.priority == self.priority && r.status == self.status,
            r.source == self.source && r.timestamp == self.timestamp,
            r.retry_count == self.retry_count,
    {
        let mut e = self;
        e.metadata.fingerprint = owned(fingerprint);
        e
    }

    pub fn with_user(self, user: &str) -> (r: Self)
        ensures
            r.metadata.user matches Some(u) && u@ == user@,
            r.metadata.fingerprint == self.metadata.fingerprint,
            r.metadata.correlation_id == self.metadata.correlation_id,
            r.id == self.id && r.event_type == self.event_type && r.data == self.data,
            r.priority == self.priority && r.status == self.status,
            r.source == self.source && r.timestamp == self.timestamp,
            r.retry_count == self.retry_count,
    {
        let mut e = self;
        e.metadata.user = Some(owned(user));
        e
    }

    pub fn with_correlation_id(self, id: &str) -> (r: Self)
        ensures
            r.metadata.correlation_id matches Some(c) && c@ == id@,
            r.metadata.fingerprint == self.metadata.fingerprint,
            r.metadata.user == self.metadata.user,
            r.id == self.id && r.event_type == self.event_type && r.data == self.data,
            r.priority == self.priority && r.status == self.status,
            r.source == self.source && r.timestamp == self.timestamp,
            r.retry_count == self.retry_count,
    {
        let mut e = self;
        e.metadata.correlation_id = Some(owned(id));
        e
    }

    /// Two events are duplicates when their fingerprints are equal.
    pub fn is_duplicate_of(&self, other: &Event) -> (b: bool)
        ensures
            b == (self.metadata.fingerprint@ == other.metadata.fingerprint@),
    {
        self.metadata.fingerprint == other.metadata.fingerprint
    }

    /// The queue file name, `p{level}_{id}.json`.
    pub fn to_filename(&self) -> (r: String)
        ensures
            r@ == event_file_name(self.priority, self.id@),
    {
        let lvl = u64_text(self.priority.level() as u64);
        let a = join2("p", lvl.as_str());
        let b = join2(a.as_str(), "_");
        let c = join2(b.as_str(), self.id.as_str());
        let r = join2(c.as_str(), ".json");
        proof {
            reveal_strlit("p");
            reveal_strlit("_");
            assert(r@ =~= event_file_name(self.priority, self.id@));
        }
        r
    }

    /// The string member `key` of the payload, as `serde_json` reads it.
    pub fn data_str(&self, key: &str) -> (r: Option<String>)
        ensures
            match r {
                Some(s) => crate::json::json_str_member(self.data@, key@) == Some(s@),
                None => crate::json::json_str_member(self.data@, key@) is None,
            },
    {
        json_get_str(self.data.as_str(), key)
    }
}

} // verus!
