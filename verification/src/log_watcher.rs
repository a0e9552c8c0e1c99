//! Watching the server's log: reading its entries, telling which errors to
//! alert about (each error at most once per window), and turning them into
//! events of the automation pipeline.
use vstd::prelude::*;
use crate::calendar::{CalendarDate, date_before};
use crate::event::{Event, EventMetadata, Priority, Severity};
use crate::json::{json_object, json_opt_str, json_str};
use crate::text::{append_chars, chars_of, owned, str_eq, str_starts_with, string_from_chars, to_upper, u64_text};

verus! {

/// The default window, in seconds, within which a repeated error is not alerted again.
pub const DEFAULT_DEDUP_WINDOW_SECS: u64 = 300;

/// A moment in UTC: seconds since the Unix epoch and the nanoseconds past them.
#[derive(Debug, Clone, Copy, PartialEq, Eq, Structural)]
pub struct UtcInstant {
    pub secs: i64,
    pub nanos: u32,
}

/// The instant `chrono` reads from RFC 3339 text (converted to UTC), as
/// (seconds, nanoseconds); `None` where it refuses the text.
pub uninterp spec fn chrono_rfc3339_instant(s: Seq<char>) -> Option<(int, int)>;

/// The RFC 3339 text `chrono`'s `to_rfc3339` writes for an instant.
pub uninterp spec fn chrono_rfc3339_text(secs: int, nanos: int) -> Seq<char>;

/// The text `chrono` writes when it serialises an instant (`Z` suffix).
pub uninterp spec fn chrono_serde_text(secs: int, nanos: int) -> Seq<char>;

/// Reads RFC 3339 text with `chrono::DateTime::parse_from_rfc3339` and takes
/// it to UTC; the result is named `chrono_rfc3339_instant`.
#[verifier::external_body]
fn parse_rfc3339(s: &str) -> (r: Option<UtcInstant>)
    ensures
        match r {
            Some(t) => chrono_rfc3339_instant(s@) == Some((t.secs as int, t.nanos as int)),
            None => chrono_rfc3339_instant(s@) is None,
        },
{
    let t = chrono::DateTime::parse_from_rfc3339(s).ok()?.with_timezone(&chrono::Utc);
    Some(UtcInstant { secs: t.timestamp(), nanos: t.timestamp_subsec_nanos() })
}

/// Writes an instant with `chrono`'s `to_rfc3339` (after
/// `DateTime::from_timestamp`, which yields nothing, and so an empty text,
/// outside chrono's range); the result is named `chrono_rfc3339_text`.
#[verifier::external_body]
fn rfc3339_text(t: UtcInstant) -> (r: String)
    ensures
        r@ == chrono_rfc3339_text(t.secs as int, t.nanos as int),
{
    match chrono::DateTime::from_timestamp(t.secs, t.nanos) {
        Some(d) => d.to_rfc3339(),
        None => String::new(),
    }
}

/// Writes an instant as `chrono` serialises a `DateTime<Utc>`:
/// `to_rfc3339_opts(SecondsFormat::AutoSi, true)` (empty outside chrono's
/// range); the result is named `chrono_serde_text`.
#[verifier::external_body]
fn serde_time_text(t: UtcInstant) -> (r: String)
    ensures
        r@ == chrono_serde_text(t.secs as int, t.nanos as int),
{
    match chrono::DateTime::from_timestamp(t.secs, t.nanos) {
        Some(d) => d.to_rfc3339_opts(chrono::SecondsFormat::AutoSi, true),
        None => String::new(),
    }
}

/// The present instant, from `chrono::Utc::now`. It depends on the clock:
/// nothing is stated of it.
#[verifier::external_body]
fn now_instant() -> (r: UtcInstant) {
    let n = chrono::Utc::now();
    UtcInstant { secs: n.timestamp(), nanos: n.timestamp_subsec_nanos() }
}

/// One entry of the log, as read from its JSON line.
#[derive(Debug, Clone)]
pub struct LogEntry {
    pub level: String,
    pub error_code: Option<String>,
    pub message: String,
    pub target: String,
    pub request_id: Option<String>,
    pub timestamp: UtcInstant,
}

/// The members of a JSON log line that an entry is read from.
#[derive(Debug, Clone)]
pub struct RawLogEntry {
    pub timestamp: String,
    pub level: String,
    pub target: String,
    pub fields: Option<LogFields>,
    pub message: String,
}

/// The structured fields of a log line.
#[derive(Debug, Clone)]
pub struct LogFields {
    pub error_code: Option<String>,
    pub request_id: Option<String>,
}

/// The view of an optional string.
pub open spec fn ov(o: Option<String>) -> Option<Seq<char>> {
    match o {
        Some(s) => Some(s@),
        None => None,
    }
}

/// The deduplication key of an entry: `CODE:target`, with `UNKNOWN` for no code.
pub open spec fn fingerprint_text(error_code: Option<Seq<char>>, target: Seq<char>) -> Seq<char> {
    (match error_code {
        Some(c) => c,
        None => "UNKNOWN"@,
    }) + ":"@ + target
}

/// The severity an error code implies: `AI5…` critical, `AUTH4…` and
/// `RETRO4…` warning, anything else (or no code) info.
pub open spec fn code_severity(error_code: Option<Seq<char>>) -> Severity {
    match error_code {
        Some(c) => {
            if crate::text::starts_with(c, "AI5"@) {
                Severity::Critical
            } else if crate::text::starts_with(c, "AUTH4"@) || crate::text::starts_with(c, "RETRO4"@) {
                Severity::Warning
            } else {
                Severity::Info
            }
        },
        None => Severity::Info,
    }
}

/// The priority of the event made for a severity.
pub open spec fn severity_priority(s: Severity) -> Priority {
    match s {
        Severity::Critical => Priority::P0,
        Severity::Warning => Priority::P1,
        Severity::Info => Priority::P2,
    }
}

/// The lower-case name of a severity.
pub open spec fn severity_word(s: Severity) -> Seq<char> {
    match s {
        Severity::Critical => "critical"@,
        Severity::Warning => "warning"@,
        Severity::Info => "info"@,
    }
}

/// The JSON text of an entry, as it is serialised (camel-case keys).
pub open spec fn entry_json(e: LogEntry) -> Seq<char> {
    crate::json::object_text(seq![
        ("level"@, crate::json::json_string(e.level@)),
        ("errorCode"@, opt_json(ov(e.error_code))),
        ("message"@, crate::json::json_string(e.message@)),
        ("target"@, crate::json::json_string(e.target@)),
        ("requestId"@, opt_json(ov(e.request_id))),
        ("timestamp"@, crate::json::json_string(chrono_serde_text(e.timestamp.secs as int, e.timestamp.nanos as int))),
    ])
}

/// A JSON string, or `null`.
pub open spec fn opt_json(o: Option<Seq<char>>) -> Seq<char> {
    match o {
        Some(s) => crate::json::json_string(s),
        None => "null"@,
    }
}

/// The payload of the event made for an entry (keys in sorted order).
pub open spec fn entry_event_data(e: LogEntry) -> Seq<char> {
    crate::json::object_text(seq![
        ("error_code"@, opt_json(ov(e.error_code))),
        ("log_line"@, crate::json::json_string(entry_json(e))),
        ("message"@, crate::json::json_string(e.message@)),
        ("request_id"@, opt_json(ov(e.request_id))),
        ("severity"@, crate::json::json_string(severity_word(code_severity(ov(e.error_code))))),
        ("target"@, crate::json::json_string(e.target@)),
        ("timestamp"@, crate::json::json_string(chrono_rfc3339_text(e.timestamp.secs as int, e.timestamp.nanos as int))),
    ])
}

fn opt_ref(o: &Option<String>) -> (r: Option<&str>)
    ensures
        match r {
            Some(s) => o matches Some(t) && s@ == t@,
            None => o is None,
        },
{
    match o {
        Some(s) => Some(s.as_str()),
        None => None,
    }
}

impl LogEntry {
    /// The entry of a log line's members; `None` when the timestamp is not
    /// RFC 3339.
    pub fn from_raw(raw: RawLogEntry) -> (r: Option<LogEntry>)
        ensures
            match r {
                None => chrono_rfc3339_instant(raw.timestamp@) is None,
                Some(e) => chrono_rfc3339_instant(raw.timestamp@) == Some((e.timestamp.secs as int, e.timestamp.nanos as int))
                    && e.level == raw.level && e.message == raw.message && e.target == raw.target
                    && e.error_code == (match raw.fields { Some(f) => f.error_code, None => None })
                    && e.request_id == (match raw.fields { Some(f) => f.request_id, None => None }),
            },
    {
        let timestamp = match parse_rfc3339(raw.timestamp.as_str()) {
            Some(t) => t,
            None => return None,
        };
        let (error_code, request_id) = match raw.fields {
            Some(f) => (f.error_code, f.request_id),
            None => (None, None),
        };
        Some(LogEntry { level: raw.level, error_code, message: raw.message, target: raw.target, request_id, timestamp })
    }

    /// The deduplication key, `CODE:target`.
    pub fn fingerprint(&self) -> (r: String)
        ensures
            r@ == fingerprint_text(ov(self.error_code), self.target@),
    {
        let mut out = match &self.error_code {
            Some(c) => chars_of(c.as_str()),
            None => chars_of("UNKNOWN"),
        };
        append_chars(&mut out, &chars_of(":"));
        append_chars(&mut out, &chars_of(self.target.as_str()));
        string_from_chars(out.as_slice())
    }

    /// The severity implied by the error code.
    pub fn severity(&self) -> (r: Severity)
        ensures
            r == code_severity(ov(self.error_code)),
    {
        match &self.error_code {
            Some(c) => {
                if str_starts_with(c.as_str(), "AI5") {
                    Severity::Critical
                } else if str_starts_with(c.as_str(), "AUTH4") || str_starts_with(c.as_str(), "RETRO4") {
                    Severity::Warning
                } else {
                    Severity::Info
                }
            },
            None => Severity::Info,
        }
    }

    /// Whether the level is `ERROR`, ignoring case.
    pub fn is_error(&self) -> (b: bool)
        ensures
            b == (crate::text::uppercase(self.level@) == "ERROR"@),
    {
        str_eq(to_upper(self.level.as_str()).as_str(), "ERROR")
    }

    /// Whether the level is `WARN` or `WARNING`, ignoring case.
    pub fn is_warning(&self) -> (b: bool)
        ensures
            b == (crate::text::uppercase(self.level@) == "WARN"@ || crate::text::uppercase(self.level@) == "WARNING"@),
    {
        let u = to_upper(self.level.as_str());
        str_eq(u.as_str(), "WARN") || str_eq(u.as_str(), "WARNING")
    }

    /// The entry as JSON text.
    pub fn to_json(&self) -> (r: String)
        ensures
            r@ == entry_json(*self),
    {
        let members = vec![
            (owned("level"), json_str(self.level.as_str())),
            (owned("errorCode"), json_opt_str(opt_ref(&self.error_code))),
            (owned("message"), json_str(self.message.as_str())),
            (owned("target"), json_str(self.target.as_str())),
            (owned("requestId"), json_opt_str(opt_ref(&self.request_id))),
            (owned("timestamp"), json_str(serde_time_text(self.timestamp).as_str())),
        ];
        let r = json_object(&members);
        proof {
            assert(crate::json::member_views(members@) =~= seq![
                ("level"@, crate::json::json_string(self.level@)),
                ("errorCode"@, opt_json(ov(self.error_code))),
                ("message"@, crate::json::json_string(self.message@)),
                ("target"@, crate::json::json_string(self.target@)),
                ("requestId"@, opt_json(ov(self.request_id))),
                ("timestamp"@, crate::json::json_string(chrono_serde_text(self.timestamp.secs as int, self.timestamp.nanos as int))),
            ]);
        }
        r
    }
}

/// Where a watcher reads and keeps its state.
#[derive(Debug, Clone)]
pub struct LogWatcherConfig {
    pub log_dir: String,
    pub state_dir: String,
    pub dedup_window_secs: u64,
}

impl Default for LogWatcherConfig {
    /// `logs`, `logs/.state`, and a five-minute window.
    fn default() -> (r: Self)
        ensures
            r.log_dir@ == "logs"@,
            r.state_dir@ == "logs/.state"@,
            r.dedup_window_secs == DEFAULT_DEDUP_WINDOW_SECS,
    {
        LogWatcherConfig { log_dir: owned("logs"), state_dir: owned("logs/.state"), dedup_window_secs: DEFAULT_DEDUP_WINDOW_SECS }
    }
}

/// Whole seconds from `first` to `now`, cut toward zero.
pub open spec fn whole_seconds_between(now: UtcInstant, first: UtcInstant) -> int {
    let d = (now.secs - first.secs) * 1_000_000_000 + (now.nanos - first.nanos);
    if d >= 0 { d / 1_000_000_000 } else { -((-d) / 1_000_000_000) }
}

/// The elapsed seconds as an unsigned 64-bit count (a negative span wraps).
pub open spec fn elapsed_u64(now: UtcInstant, first: UtcInstant) -> int {
    whole_seconds_between(now, first) % 0x1_0000_0000_0000_0000
}

/// Computes `elapsed_u64`.
fn elapsed_secs(now: UtcInstant, first: UtcInstant) -> (r: u64)
    ensures
        r == elapsed_u64(now, first),
{
    let ds: i128 = (now.secs as i128) - (first.secs as i128);
    let dn: i128 = (now.nanos as i128) - (first.nanos as i128);
    assert(-0x1_0000_0000_0000_0000 <= ds <= 0x1_0000_0000_0000_0000);
    let d: i128 = ds * 1_000_000_000 + dn;
    let w: i128 = if d >= 0 {
        ((d as u128) / 1_000_000_000) as i128
    } else {
        -((((-d) as u128) / 1_000_000_000) as i128)
    };
    let m: i128 = 0x1_0000_0000_0000_0000;
    let r: i128 = if w >= 0 { w % m } else {
        let k: i128 = (-w) % m;
        if k == 0 { 0 } else { m - k }
    };
    proof {
        if w < 0 {
            let a: int = -(w as int);
            let mm: int = m as int;
            let q = a / mm;
            let k = a % mm;
            vstd::arithmetic::div_mod::lemma_fundamental_div_mod(a, mm);
            if k == 0 {
                assert((w as int) == (-q) * mm + 0) by (nonlinear_arith)
                    requires a == mm * q + k, k == 0, (w as int) == -a;
                vstd::arithmetic::div_mod::lemma_fundamental_div_mod_converse((w as int), mm, -q, 0);
            } else {
                assert((w as int) == (-q - 1) * mm + (mm - k)) by (nonlinear_arith)
                    requires a == mm * q + k, (w as int) == -a;
                vstd::arithmetic::div_mod::lemma_fundamental_div_mod_converse((w as int), mm, -q - 1, mm - k);
            }
        }
    }
    r as u64
}

/// The errors alerted recently, each with the instant it was first seen;
/// a list without repeated keys.
#[derive(Debug, Clone)]
pub struct DedupCache {
    entries: Vec<(String, UtcInstant)>,
}

pub open spec fn entry_views(v: Seq<(String, UtcInstant)>) -> Seq<(Seq<char>, UtcInstant)> {
    v.map_values(|p: (String, UtcInstant)| (p.0@, p.1))
}

pub open spec fn keys_distinct(v: Seq<(Seq<char>, UtcInstant)>) -> bool {
    forall|i: int, j: int| 0 <= i < j < v.len() ==> v[i].0 != v[j].0
}

impl View for DedupCache {
    type V = Map<Seq<char>, UtcInstant>;

    closed spec fn view(&self) -> Map<Seq<char>, UtcInstant> {
        let v = entry_views(self.entries@);
        Map::new(
            |k: Seq<char>| exists|i: int| 0 <= i < v.len() && v[i].0 == k,
            |k: Seq<char>| v[choose|i: int| 0 <= i < v.len() && v[i].0 == k].1,
        )
    }
}

impl DedupCache {
    pub closed spec fn wf(&self) -> bool {
        keys_distinct(entry_views(self.entries@))
    }

    /// An empty cache.
    pub fn new() -> (r: Self)
        ensures
            r.wf(),
            r@ == Map::<Seq<char>, UtcInstant>::empty(),
    {
        let r = DedupCache { entries: Vec::new() };
        assert(r@ =~= Map::<Seq<char>, UtcInstant>::empty());
        r
    }

    /// The number of keys.
    pub fn len(&self) -> (r: usize)
        requires
            self.wf(),
        ensures
            r == self@.dom().len(),
    {
        proof {
            self.lemma_len();
        }
        self.entries.len()
    }

    proof fn lemma_len(&self)
        requires
            self.wf(),
        ensures
            self@.dom().len() == self.entries@.len(),
            self@.dom().finite(),
    {
        let v = entry_views(self.entries@);
        let ks = v.map_values(|p: (Seq<char>, UtcInstant)| p.0);
        assert(self@.dom() =~= ks.to_set()) by {
            assert forall|k: Seq<char>| self@.dom().contains(k) implies ks.to_set().contains(k) by {
                let i = choose|i: int| 0 <= i < v.len() && v[i].0 == k;
                assert(ks[i] == k);
            }
            assert forall|k: Seq<char>| ks.to_set().contains(k) implies self@.dom().contains(k) by {
                let i = choose|i: int| 0 <= i < ks.len() && ks[i] == k;
                assert(v[i].0 == k);
            }
        }
        assert(ks.no_duplicates()) by {
            assert forall|i: int, j: int| 0 <= i < ks.len() && 0 <= j < ks.len() && i != j implies ks[i] != ks[j] by {
                if i < j {
                    assert(v[i].0 != v[j].0);
                } else {
                    assert(v[j].0 != v[i].0);
                }
            }
        }
        ks.unique_seq_to_set();
        vstd::seq_lib::seq_to_set_is_finite(ks);
    }

    /// The position of a key, if present.
    fn position(&self, key: &str) -> (r: Option<usize>)
        requires
            self.wf(),
        ensures
            match r {
                Some(i) => i < self.entries@.len() && self.entries@[i as int].0@ == key@,
                None => !self@.dom().contains(key@),
            },
    {
        let ghost v = entry_views(self.entries@);
        let mut i: usize = 0;
        while i < self.entries.len()
            invariant
                i <= self.entries@.len(),
                v == entry_views(self.entries@),
                forall|j: int| 0 <= j < i ==> v[j].0 != key@,
            decreases self.entries.len() - i,
        {
            if str_eq(self.entries[i].0.as_str(), key) {
                return Some(i);
            }
            assert(v[i as int].0 == self.entries@[i as int].0@);
            i = i + 1;
        }
        proof {
            if self@.dom().contains(key@) {
                let j = choose|j: int| 0 <= j < v.len() && v[j].0 == key@;
                assert(v[j].0 != key@);
            }
        }
        None
    }

    proof fn lemma_at(&self, i: int)
        requires
            self.wf(),
            0 <= i < self.entries@.len(),
        ensures
            self@.dom().contains(self.entries@[i].0@),
            self@[self.entries@[i].0@] == self.entries@[i].1,
    {
        let v = entry_views(self.entries@);
        let k = self.entries@[i].0@;
        assert(v[i].0 == k);
        let c = choose|j: int| 0 <= j < v.len() && v[j].0 == k;
        if c != i {
            if c < i {
                assert(v[c].0 != v[i].0);
            } else {
                assert(v[i].0 != v[c].0);
            }
        }
    }

    /// The instant a key was first seen, if it is present.
    pub fn get(&self, key: &str) -> (r: Option<UtcInstant>)
        requires
            self.wf(),
        ensures
            match r {
                Some(t) => self@.dom().contains(key@) && self@[key@] == t,
                None => !self@.dom().contains(key@),
            },
    {
        match self.position(key) {
            Some(i) => {
                proof {
                    self.lemma_at(i as int);
                }
                Some(self.entries[i].1)
            },
            None => None,
        }
    }

    /// Records `key` as seen at `t`, replacing an earlier instant.
    pub fn insert(&mut self, key: &str, t: UtcInstant)
        requires
            old(self).wf(),
        ensures
            final(self).wf(),
            final(self)@ == old(self)@.insert(key@, t),
    {
        let ghost before = *self;
        match self.position(key) {
            Some(i) => {
                self.entries.set(i, (owned(key), t));
                proof {
                    let v0 = entry_views(before.entries@);
                    let v1 = entry_views(self.entries@);
                    assert(v1 =~= v0.update(i as int, (key@, t)));
                    assert(v0[i as int].0 == key@);
                    assert(keys_distinct(v1)) by {
                        assert forall|a: int, b: int| 0 <= a < b < v1.len() implies v1[a].0 != v1[b].0 by {
                            assert(v1[a].0 == v0[a].0);
                            assert(v1[b].0 == v0[b].0);
                        }
                    }
                    assert forall|k: Seq<char>| self@.dom().contains(k) == before@.insert(key@, t).dom().contains(k) by {
                        if k == key@ {
                            assert(v1[i as int].0 == k);
                        } else if before@.dom().contains(k) {
                            let j = choose|j: int| 0 <= j < v0.len() && v0[j].0 == k;
                            assert(v1[j].0 == k);
                        } else if self@.dom().contains(k) {
                            let j = choose|j: int| 0 <= j < v1.len() && v1[j].0 == k;
                            assert(v0[j].0 == k);
                        }
                    }
                    assert forall|k: Seq<char>| #[trigger] self@.dom().contains(k) implies self@[k] == before@.insert(key@, t)[k] by {
                        let j = choose|j: int| 0 <= j < v1.len() && v1[j].0 == k;
                        self.lemma_at(j);
                        if k != key@ {
                            before.lemma_at(j);
                            assert(v0[j].0 == k);
                        } else {
                            assert(j == i as int) by {
                                if j != i as int {
                                    if j < i { assert(v1[j].0 != v1[i as int].0); } else { assert(v1[i as int].0 != v1[j].0); }
                                }
                            }
                        }
                    }
                    assert(self@ =~= before@.insert(key@, t));
                }
            },
            None => {
                self.entries.push((owned(key), t));
                proof {
                    let v0 = entry_views(before.entries@);
                    let v1 = entry_views(self.entries@);
                    assert(v1 =~= v0.push((key@, t)));
                    assert(keys_distinct(v1)) by {
                        assert forall|a: int, b: int| 0 <= a < b < v1.len() implies v1[a].0 != v1[b].0 by {
                            if b == v0.len() {
                                if v0[a].0 == key@ {
                                    assert(before@.dom().contains(key@));
                                }
                            }
                        }
                    }
                    assert forall|k: Seq<char>| self@.dom().contains(k) == before@.insert(key@, t).dom().contains(k) by {
                        if k == key@ {
                            assert(v1[v0.len() as int].0 == k);
                        } else if before@.dom().contains(k) {
                            let j = choose|j: int| 0 <= j < v0.len() && v0[j].0 == k;
                            assert(v1[j].0 == k);
                        } else if self@.dom().contains(k) {
                            let j = choose|j: int| 0 <= j < v1.len() && v1[j].0 == k;
                            assert(j < v0.len());
                            assert(v0[j].0 == k);
                        }
                    }
                    assert forall|k: Seq<char>| #[trigger] self@.dom().contains(k) implies self@[k] == before@.insert(key@, t)[k] by {
                        let j = choose|j: int| 0 <= j < v1.len() && v1[j].0 == k;
                        self.lemma_at(j);
                        if k != key@ {
                            assert(j < v0.len());
                            before.lemma_at(j);
                            assert(v0[j].0 == k);
                        } else {
                            assert(j == v0.len()) by {
                                if j < v0.len() {
                                    assert(v0[j].0 == key@);
                                    assert(before@.dom().contains(key@));
                                }
                            }
                        }
                    }
                    assert(self@ =~= before@.insert(key@, t));
                }
            },
        }
    }

    /// Forgets every key.
    pub fn clear(&mut self)
        ensures
            final(self).wf(),
            final(self)@ == Map::<Seq<char>, UtcInstant>::empty(),
    {
        self.entries.clear();
        assert(self@ =~= Map::<Seq<char>, UtcInstant>::empty());
    }
}

/// The key an entry is remembered under.
pub open spec fn entry_key(e: LogEntry) -> Seq<char> {
    fingerprint_text(ov(e.error_code), e.target@)
}

/// The entry is logged at `ERROR` level (any case).
pub open spec fn is_error_entry(e: LogEntry) -> bool {
    crate::text::uppercase(e.level@) == "ERROR"@
}

/// The event made for an entry (see `LogWatcher::create_event`).
pub open spec fn is_event_of(e: LogEntry, ev: Event) -> bool {
    &&& ev.event_type@ == "monitoring.error_detected"@
    &&& ev.source@ == "log-watcher"@
    &&& ev.priority == severity_priority(code_severity(ov(e.error_code)))
    &&& ev.data@ == entry_event_data(e)
    &&& ev.metadata.fingerprint@ == entry_key(e)
    &&& ev.retry_count == 0
}

/// Whether an entry is alerted at `now` against the remembered keys: it is an
/// `ERROR` entry whose key is not remembered, or was first seen at least the
/// window ago.
pub open spec fn alerts_against(e: LogEntry, seen: Map<Seq<char>, UtcInstant>, window: u64, now: UtcInstant) -> bool {
    is_error_entry(e) && match seen.get(entry_key(e)) {
        Some(first) => window_passed(now, first, window),
        None => true,
    }
}

/// Going through the entries in order at `now`: the positions of those
/// alerted, and the remembered keys afterwards (each alerted key remembered at
/// `now`).
pub open spec fn alert_run(
    entries: Seq<(usize, LogEntry)>,
    seen: Map<Seq<char>, UtcInstant>,
    window: u64,
    now: UtcInstant,
) -> (Seq<int>, Map<Seq<char>, UtcInstant>)
    decreases entries.len(),
{
    if entries.len() == 0 {
        (Seq::empty(), seen)
    } else {
        let prev = alert_run(entries.drop_last(), seen, window, now);
        let e = entries.last().1;
        if alerts_against(e, prev.1, window, now) {
            (prev.0.push(entries.len() - 1), prev.1.insert(entry_key(e), now))
        } else {
            prev
        }
    }
}

proof fn lemma_alert_run_shape(entries: Seq<(usize, LogEntry)>, seen: Map<Seq<char>, UtcInstant>, window: u64, now: UtcInstant)
    ensures
        forall|i: int| 0 <= i < alert_run(entries, seen, window, now).0.len() ==> {
            let j = #[trigger] alert_run(entries, seen, window, now).0[i];
            &&& 0 <= j < entries.len()
            &&& is_error_entry(entries[j].1)
        },
        forall|i: int, k: int| 0 <= i < k < alert_run(entries, seen, window, now).0.len() ==>
            alert_run(entries, seen, window, now).0[i] < alert_run(entries, seen, window, now).0[k],
        forall|key: Seq<char>| #[trigger] alert_run(entries, seen, window, now).1.dom().contains(key) ==>
            seen.dom().contains(key) || exists|j: int| 0 <= j < entries.len() && is_error_entry(entries[j].1)
                && entry_key(entries[j].1) == key,
    decreases entries.len(),
{
    if entries.len() > 0 {
        let d = entries.drop_last();
        lemma_alert_run_shape(d, seen, window, now);
        let prev = alert_run(d, seen, window, now);
        assert forall|i: int| 0 <= i < prev.0.len() implies prev.0[i] < entries.len() - 1 by {
            let j = prev.0[i];
            assert(0 <= j < d.len());
        }
        assert forall|key: Seq<char>| #[trigger] alert_run(entries, seen, window, now).1.dom().contains(key) implies
            seen.dom().contains(key) || exists|j: int| 0 <= j < entries.len() && is_error_entry(entries[j].1)
                && entry_key(entries[j].1) == key by {
            if prev.1.dom().contains(key) {
                if !seen.dom().contains(key) {
                    let j = choose|j: int| 0 <= j < d.len() && is_error_entry(d[j].1) && entry_key(d[j].1) == key;
                    assert(entries[j] == d[j]);
                }
            } else {
                assert(key == entry_key(entries.last().1));
                assert(entries[entries.len() - 1] == entries.last());
            }
        }
        assert forall|i: int| 0 <= i < alert_run(entries, seen, window, now).0.len() implies {
            let j = #[trigger] alert_run(entries, seen, window, now).0[i];
            &&& 0 <= j < entries.len()
            &&& is_error_entry(entries[j].1)
        } by {
            if i < prev.0.len() {
                let j = prev.0[i];
                assert(entries[j] == d[j]);
            } else {
                assert(entries[entries.len() - 1] == entries.last());
            }
        }
    }
}

/// Only `ERROR` entries are alerted, each at most once and in order; and an
/// `ERROR` entry whose key was not remembered and occurs in no earlier `ERROR`
/// entry is alerted. The keys remembered afterwards are the earlier ones and
/// those of alerted entries, each alerted key remembered at `now`.
pub proof fn law_only_new_errors_alert(
    entries: Seq<(usize, LogEntry)>,
    seen: Map<Seq<char>, UtcInstant>,
    window: u64,
    now: UtcInstant,
)
    ensures
        forall|i: int| 0 <= i < alert_run(entries, seen, window, now).0.len() ==> {
            let j = #[trigger] alert_run(entries, seen, window, now).0[i];
            &&& 0 <= j < entries.len()
            &&& is_error_entry(entries[j].1)
        },
        forall|i: int, k: int| 0 <= i < k < alert_run(entries, seen, window, now).0.len() ==>
            alert_run(entries, seen, window, now).0[i] < alert_run(entries, seen, window, now).0[k],
        forall|j: int| 0 <= j < entries.len() && is_error_entry(entries[j].1) && !seen.dom().contains(
            entry_key(entries[j].1),
        ) && (forall|m: int| 0 <= m < j && is_error_entry(entries[m].1) ==> entry_key(entries[m].1) != entry_key(
            entries[j].1,
        )) ==> alert_run(entries, seen, window, now).0.contains(j),
        forall|i: int| 0 <= i < alert_run(entries, seen, window, now).0.len() ==> alert_run(entries, seen, window, now).1[
            entry_key(entries[#[trigger] alert_run(entries, seen, window, now).0[i]].1)] == now,
    decreases entries.len(),
{
    lemma_alert_run_shape(entries, seen, window, now);
    if entries.len() > 0 {
        let d = entries.drop_last();
        law_only_new_errors_alert(d, seen, window, now);
        lemma_alert_run_shape(d, seen, window, now);
        let prev = alert_run(d, seen, window, now);
        let n = entries.len() - 1;
        let e = entries.last().1;
        assert(entries[n] == entries.last());
        assert forall|j: int| 0 <= j < entries.len() && is_error_entry(entries[j].1) && !seen.dom().contains(
            entry_key(entries[j].1),
        ) && (forall|m: int| 0 <= m < j && is_error_entry(entries[m].1) ==> entry_key(entries[m].1) != entry_key(
            entries[j].1,
        )) implies alert_run(entries, seen, window, now).0.contains(j) by {
            if j < n {
                assert(entries[j] == d[j]);
                assert forall|m: int| 0 <= m < j && is_error_entry(d[m].1) implies entry_key(d[m].1) != entry_key(d[j].1) by {
                    assert(entries[m] == d[m]);
                }
                assert(prev.0.contains(j));
                let i = choose|i: int| 0 <= i < prev.0.len() && prev.0[i] == j;
                if alerts_against(e, prev.1, window, now) {
                    assert(alert_run(entries, seen, window, now).0[i] == j);
                }
            } else {
                assert(j == n);
                if prev.1.dom().contains(entry_key(e)) {
                    let m = choose|m: int| 0 <= m < d.len() && is_error_entry(d[m].1) && entry_key(d[m].1) == entry_key(e);
                    assert(entries[m] == d[m]);
                    assert(false);
                }
                assert(alerts_against(e, prev.1, window, now));
                assert(alert_run(entries, seen, window, now).0[prev.0.len() as int] == n);
            }
        }
        assert forall|i: int| 0 <= i < alert_run(entries, seen, window, now).0.len() implies alert_run(entries, seen, window, now).1[
            entry_key(entries[#[trigger] alert_run(entries, seen, window, now).0[i]].1)] == now by {
            if alerts_against(e, prev.1, window, now) {
                if i < prev.0.len() {
                    let j = prev.0[i];
                    assert(0 <= j < d.len());
                    assert(entries[j] == d[j]);
                    assert(prev.1[entry_key(d[j].1)] == now);
                }
            } else {
                let j = prev.0[i];
                assert(0 <= j < d.len());
                assert(entries[j] == d[j]);
            }
        }
    }
}

/// The remembered keys after loading saved ones at `now`: each saved key first
/// seen less than the window before `now`, a later line for a key replacing
/// an earlier one.
pub open spec fn restored_seen(saved: Seq<(String, UtcInstant)>, window: u64, now: UtcInstant) -> Map<Seq<char>, UtcInstant>
    decreases saved.len(),
{
    if saved.len() == 0 {
        Map::empty()
    } else {
        let m = restored_seen(saved.drop_last(), window, now);
        if !window_passed(now, saved.last().1, window) {
            m.insert(saved.last().0@, saved.last().1)
        } else {
            m
        }
    }
}

/// Loading keeps exactly the saved keys first seen less than the window ago,
/// each with the instant it was saved with (its last such line), never the
/// time of loading.
pub proof fn law_restored_keys_keep_their_first_seen(
    saved: Seq<(String, UtcInstant)>,
    window: u64,
    now: UtcInstant,
)
    ensures
        forall|k: Seq<char>| #[trigger] restored_seen(saved, window, now).dom().contains(k) <==> exists|i: int|
            0 <= i < saved.len() && saved[i].0@ == k && !window_passed(now, saved[i].1, window),
        forall|i: int| 0 <= i < saved.len() && !window_passed(now, #[trigger] saved[i].1, window) && (forall|j: int|
            i < j < saved.len() && saved[j].0@ == saved[i].0@ ==> window_passed(now, saved[j].1, window))
            ==> restored_seen(saved, window, now)[saved[i].0@] == saved[i].1,
    decreases saved.len(),
{
    if saved.len() > 0 {
        let d = saved.drop_last();
        law_restored_keys_keep_their_first_seen(d, window, now);
        let n = saved.len() - 1;
        assert(saved[n] == saved.last());
        assert forall|k: Seq<char>| #[trigger] restored_seen(saved, window, now).dom().contains(k) <==> exists|i: int|
            0 <= i < saved.len() && saved[i].0@ == k && !window_passed(now, saved[i].1, window) by {
            if restored_seen(saved, window, now).dom().contains(k) {
                if restored_seen(d, window, now).dom().contains(k) {
                    let i = choose|i: int| 0 <= i < d.len() && d[i].0@ == k && !window_passed(now, d[i].1, window);
                    assert(saved[i] == d[i]);
                }
            }
            if exists|i: int| 0 <= i < saved.len() && saved[i].0@ == k && !window_passed(now, saved[i].1, window) {
                let i = choose|i: int| 0 <= i < saved.len() && saved[i].0@ == k && !window_passed(now, saved[i].1, window);
                if i < n {
                    assert(saved[i] == d[i]);
                }
            }
        }
        assert forall|i: int| 0 <= i < saved.len() && !window_passed(now, #[trigger] saved[i].1, window) && (forall|j: int|
            i < j < saved.len() && saved[j].0@ == saved[i].0@ ==> window_passed(now, saved[j].1, window))
            implies restored_seen(saved, window, now)[saved[i].0@] == saved[i].1 by {
            if i < n {
                assert(saved[i] == d[i]);
                assert forall|j: int| i < j < d.len() && d[j].0@ == d[i].0@ implies window_passed(now, d[j].1, window) by {
                    assert(saved[j] == d[j]);
                }
                assert(window_passed(now, saved[n].1, window) || saved[n].0@ != saved[i].0@);
            }
        }
    }
}

/// Whether an error first seen at `first` is alerted again at `now`.
pub open spec fn window_passed(now: UtcInstant, first: UtcInstant, window: u64) -> bool {
    elapsed_u64(now, first) >= window
}

/// The file name of the log of a day.
pub open spec fn log_file_name(d: CalendarDate) -> Seq<char> {
    "server."@ + ymd_text(d) + ".log"@
}

/// Four digits, zero-padded.
pub open spec fn pad4(n: nat) -> Seq<char> {
    let t = crate::text::decimal(n);
    if t.len() >= 4 { t } else { Seq::new((4 - t.len()) as nat, |i: int| '0') + t }
}

/// A day in the `%Y-%m-%d` form of `chrono`: the year zero-padded to four
/// digits (with a sign outside 0..=9999), month and day to two.
pub open spec fn ymd_text(d: CalendarDate) -> Seq<char> {
    let y = d.year as int;
    let year = if 0 <= y <= 9999 {
        pad4(y as nat)
    } else if y > 9999 {
        seq!['+'] + crate::text::decimal(y as nat)
    } else {
        seq!['-'] + pad4((-y) as nat)
    };
    year + seq!['-'] + pad2(d.month as nat) + seq!['-'] + pad2(d.day as nat)
}

/// Two digits, zero-padded.
pub open spec fn pad2(n: nat) -> Seq<char> {
    if n < 10 { seq!['0'] + crate::text::decimal(n) } else { crate::text::decimal(n) }
}

fn pad_digits(n: u64, width: usize) -> (r: Vec<char>)
    requires
        width == 2 || width == 4,
    ensures
        width == 4 ==> r@ == pad4(n as nat),
        width == 2 && n < 100 ==> r@ == pad2(n as nat),
{
    let d = crate::text::u64_digits(n);
    let mut out: Vec<char> = Vec::new();
    let mut k: usize = d.len();
    while k < width
        invariant
            d@ == crate::text::decimal(n as nat),
            d@.len() <= k <= width || (k == d@.len() && k >= width),
            out@ == Seq::new((k - d@.len()) as nat, |i: int| '0'),
        decreases width - k,
    {
        out.push('0');
        k = k + 1;
        assert(out@ =~= Seq::new((k - d@.len()) as nat, |i: int| '0'));
    }
    append_chars(&mut out, &d);
    proof {
        if d@.len() >= width {
            assert(out@ =~= d@);
        }
        if width == 2 && n < 100 {
            if n < 10 {
                assert(crate::text::decimal(n as nat).len() == 1);
                assert(out@ =~= seq!['0'] + d@);
            } else {
                assert(crate::text::decimal(n as nat) == crate::text::decimal((n / 10) as nat).push(crate::text::digit_char((n % 10) as nat)));
                assert(crate::text::decimal((n / 10) as nat).len() == 1);
                assert(out@ =~= d@);
            }
        }
    }
    out
}

/// A day as `%Y-%m-%d`.
pub fn format_ymd(d: CalendarDate) -> (r: String)
    requires
        crate::calendar::date_in_range(d),
    ensures
        r@ == ymd_text(d),
{
    let mut out: Vec<char> = Vec::new();
    if d.year >= 0 && d.year <= 9999 {
        out = pad_digits(d.year as u64, 4);
    } else if d.year > 9999 {
        out.push('+');
        append_chars(&mut out, &crate::text::u64_digits(d.year as u64));
    } else {
        out.push('-');
        let y: i64 = -(d.year as i64);
        append_chars(&mut out, &pad_digits(y as u64, 4));
    }
    out.push('-');
    append_chars(&mut out, &pad_digits(d.month as u64, 2));
    out.push('-');
    append_chars(&mut out, &pad_digits(d.day as u64, 2));
    string_from_chars(out.as_slice())
}

/// Watches the server log: reads are done by the caller, which hands over
/// the new entries; the watcher decides what is alerted and remembers it.
#[derive(Debug)]
pub struct LogWatcher {
    log_dir: String,
    state_dir: String,
    dedup_window_secs: u64,
    dedup_cache: DedupCache,
}

impl LogWatcher {
    pub closed spec fn window(&self) -> u64 {
        self.dedup_window_secs
    }

    pub closed spec fn seen(&self) -> Map<Seq<char>, UtcInstant> {
        self.dedup_cache@
    }

    pub closed spec fn wf(&self) -> bool {
        self.dedup_cache.wf()
    }

    pub closed spec fn dirs(&self) -> (Seq<char>, Seq<char>) {
        (self.log_dir@, self.state_dir@)
    }

    /// A watcher of `log_dir` keeping its state in `state_dir`, with the
    /// default window.
    pub fn new(log_dir: &str, state_dir: &str) -> (r: Self)
        ensures
            r.wf(),
            r.dirs() == (log_dir@, state_dir@),
            r.window() == DEFAULT_DEDUP_WINDOW_SECS,
            r.seen() == Map::<Seq<char>, UtcInstant>::empty(),
    {
        LogWatcher {
            log_dir: owned(log_dir),
            state_dir: owned(state_dir),
            dedup_window_secs: DEFAULT_DEDUP_WINDOW_SECS,
            dedup_cache: DedupCache::new(),
        }
    }

    /// A watcher with the given settings.
    pub fn with_config(config: LogWatcherConfig) -> (r: Self)
        ensures
            r.wf(),
            r.dirs() == (config.log_dir@, config.state_dir@),
            r.window() == config.dedup_window_secs,
            r.seen() == Map::<Seq<char>, UtcInstant>::empty(),
    {
        LogWatcher {
            log_dir: config.log_dir,
            state_dir: config.state_dir,
            dedup_window_secs: config.dedup_window_secs,
            dedup_cache: DedupCache::new(),
        }
    }

    pub fn log_dir(&self) -> (r: &str)
        ensures
            r@ == self.dirs().0,
    {
        self.log_dir.as_str()
    }

    pub fn state_dir(&self) -> (r: &str)
        ensures
            r@ == self.dirs().1,
    {
        self.state_dir.as_str()
    }

    pub fn dedup_window_secs(&self) -> (r: u64)
        ensures
            r == self.window(),
    {
        self.dedup_window_secs
    }

    /// Whether an entry is alerted at `now`: its key was not seen, or was
    /// first seen at least the window ago.
    pub fn should_alert_at(&self, entry: &LogEntry, now: UtcInstant) -> (b: bool)
        requires
            self.wf(),
        ensures
            b == match self.seen().get(fingerprint_text(ov(entry.error_code), entry.target@)) {
                Some(first) => window_passed(now, first, self.window()),
                None => true,
            },
    {
        let fp = entry.fingerprint();
        match self.dedup_cache.get(fp.as_str()) {
            Some(first) => elapsed_secs(now, first) >= self.dedup_window_secs,
            None => true,
        }
    }

    /// Whether an entry is alerted at `now`, as `should_alert_at` decides it.
    pub open spec fn alerts_at(&self, entry: LogEntry, now: UtcInstant) -> bool {
        match self.seen().get(fingerprint_text(ov(entry.error_code), entry.target@)) {
            Some(first) => window_passed(now, first, self.window()),
            None => true,
        }
    }

    /// Whether an entry is alerted now: the decision of `should_alert_at` at the
    /// instant the clock gives. An entry whose key was never seen is.
    pub fn should_alert(&self, entry: &LogEntry) -> (b: bool)
        requires
            self.wf(),
        ensures
            !self.seen().dom().contains(fingerprint_text(ov(entry.error_code), entry.target@)) ==> b,
            exists|now: UtcInstant| b == #[trigger] self.alerts_at(*entry, now),
    {
        let now = now_instant();
        let b = self.should_alert_at(entry, now);
        assert(b == self.alerts_at(*entry, now));
        b
    }

    /// Remembers that an entry was alerted at `now`.
    pub fn record_alert(&mut self, entry: &LogEntry, now: UtcInstant)
        requires
            old(self).wf(),
        ensures
            final(self).wf(),
            final(self).window() == old(self).window(),
            final(self).dirs() == old(self).dirs(),
            final(self).seen() == old(self).seen().insert(fingerprint_text(ov(entry.error_code), entry.target@), now),
    {
        let fp = entry.fingerprint();
        self.dedup_cache.insert(fp.as_str(), now);
    }

    /// Remembers that an entry was alerted now.
    pub fn update_dedup_cache(&mut self, entry: &LogEntry)
        requires
            old(self).wf(),
        ensures
            final(self).wf(),
            final(self).window() == old(self).window(),
            final(self).dirs() == old(self).dirs(),
            exists|now: UtcInstant| final(self).seen() == #[trigger] old(self).seen().insert(
                fingerprint_text(ov(entry.error_code), entry.target@), now),
    {
        let now = now_instant();
        self.record_alert(entry, now);
    }

    /// The event of an entry: `monitoring.error_detected` from `log-watcher`,
    /// with the priority of its severity, its details as payload and its key
    /// as fingerprint.
    pub fn create_event(&self, entry: &LogEntry) -> (r: Event)
        ensures
            r.event_type@ == "monitoring.error_detected"@,
            r.source@ == "log-watcher"@,
            r.priority == severity_priority(code_severity(ov(entry.error_code))),
            r.data@ == entry_event_data(*entry),
            r.metadata.fingerprint@ == fingerprint_text(ov(entry.error_code), entry.target@),
            r.retry_count == 0,
            is_event_of(*entry, r),
    {
        let severity = entry.severity();
        let priority = match severity {
            Severity::Critical => Priority::P0,
            Severity::Warning => Priority::P1,
            Severity::Info => Priority::P2,
        };
        let word = match severity {
            Severity::Critical => "critical",
            Severity::Warning => "warning",
            Severity::Info => "info",
        };
        let members = vec![
            (owned("error_code"), json_opt_str(opt_ref(&entry.error_code))),
            (owned("log_line"), json_str(entry.to_json().as_str())),
            (owned("message"), json_str(entry.message.as_str())),
            (owned("request_id"), json_opt_str(opt_ref(&entry.request_id))),
            (owned("severity"), json_str(word)),
            (owned("target"), json_str(entry.target.as_str())),
            (owned("timestamp"), json_str(rfc3339_text(entry.timestamp).as_str())),
        ];
        let data = json_object(&members);
        proof {
            assert(crate::json::member_views(members@) =~= seq![
                ("error_code"@, opt_json(ov(entry.error_code))),
                ("log_line"@, crate::json::json_string(entry_json(*entry))),
                ("message"@, crate::json::json_string(entry.message@)),
                ("request_id"@, opt_json(ov(entry.request_id))),
                ("severity"@, crate::json::json_string(severity_word(code_severity(ov(entry.error_code))))),
                ("target"@, crate::json::json_string(entry.target@)),
                ("timestamp"@, crate::json::json_string(chrono_rfc3339_text(entry.timestamp.secs as int, entry.timestamp.nanos as int))),
            ]);
        }
        let fp = entry.fingerprint();
        let metadata = EventMetadata::new(fp.as_str());
        Event::new("monitoring.error_detected", "log-watcher", priority, data.as_str()).with_metadata(metadata)
    }

    /// Handles the entries read since the last run, each with its line
    /// number, all at the instant `now`: every `ERROR` entry whose key is not
    /// within its window is turned into an event and remembered. Returns the
    /// events in order and the last line number handled (0 when none).
    pub fn process_entries(&mut self, entries: &Vec<(usize, LogEntry)>, now: UtcInstant) -> (r: (Vec<Event>, usize))
        requires
            old(self).wf(),
        ensures
            final(self).wf(),
            final(self).window() == old(self).window(),
            final(self).dirs() == old(self).dirs(),
            r.1 == (if entries@.len() == 0 { 0 } else { entries@.last().0 }),
            r.0@.len() <= entries@.len(),
            forall|i: int| 0 <= i < r.0@.len() ==> (#[trigger] r.0@[i]).event_type@ == "monitoring.error_detected"@,
            forall|k: Seq<char>| #[trigger] final(self).seen().dom().contains(k) ==> old(self).seen().dom().contains(k)
                || exists|i: int| 0 <= i < entries@.len() && fingerprint_text(ov(entries@[i].1.error_code), entries@[i].1.target@) == k,
            final(self).seen() == alert_run(entries@, old(self).seen(), old(self).window(), now).1,
            r.0@.len() == alert_run(entries@, old(self).seen(), old(self).window(), now).0.len(),
            forall|i: int| 0 <= i < r.0@.len() ==> is_event_of(
                entries@[alert_run(entries@, old(self).seen(), old(self).window(), now).0[i]].1,
                #[trigger] r.0@[i],
            ),
    {
        let mut events: Vec<Event> = Vec::new();
        let mut last: usize = 0;
        let mut i: usize = 0;
        let ghost start = self.seen();
        let ghost w = self.window();
        proof {
            assert(entries@.take(0) =~= Seq::<(usize, LogEntry)>::empty());
        }
        while i < entries.len()
            invariant
                i <= entries@.len(),
                self.wf(),
                self.window() == old(self).window(),
                self.dirs() == old(self).dirs(),
                start == old(self).seen(),
                w == old(self).window(),
                events@.len() <= i,
                last == (if i == 0 { 0 } else { entries@[i - 1].0 }),
                forall|j: int| 0 <= j < events@.len() ==> (#[trigger] events@[j]).event_type@ == "monitoring.error_detected"@,
                forall|k: Seq<char>| #[trigger] self.seen().dom().contains(k) ==> start.dom().contains(k)
                    || exists|j: int| 0 <= j < i && fingerprint_text(ov(entries@[j].1.error_code), entries@[j].1.target@) == k,
                self.seen() == alert_run(entries@.take(i as int), start, w, now).1,
                events@.len() == alert_run(entries@.take(i as int), start, w, now).0.len(),
                forall|j: int| 0 <= j < events@.len() ==> is_event_of(
                    entries@[alert_run(entries@.take(i as int), start, w, now).0[j]].1,
                    #[trigger] events@[j],
                ),
            decreases entries.len() - i,
        {
            let pair = &entries[i];
            last = pair.0;
            let entry = &pair.1;
            let ghost prev = alert_run(entries@.take(i as int), start, w, now);
            proof {
                let t = entries@.take(i + 1);
                assert(t.drop_last() =~= entries@.take(i as int));
                assert(t.last() == entries@[i as int]);
                lemma_alert_run_shape(entries@.take(i as int), start, w, now);
            }
            if entry.is_error() && self.should_alert_at(entry, now) {
                let event = self.create_event(entry);
                events.push(event);
                self.record_alert(entry, now);
                proof {
                    let cur = alert_run(entries@.take(i + 1), start, w, now);
                    assert(cur.0 == prev.0.push(i as int));
                    assert forall|j: int| 0 <= j < events@.len() implies is_event_of(
                        entries@[cur.0[j]].1,
                        #[trigger] events@[j],
                    ) by {
                        if j < prev.0.len() {
                            assert(cur.0[j] == prev.0[j]);
                        }
                    }
                }
            } else {
                proof {
                    let cur = alert_run(entries@.take(i + 1), start, w, now);
                    assert(cur == prev);
                }
            }
            i = i + 1;
        }
        proof {
            assert(entries@.take(i as int) =~= entries@);
        }
        (events, last)
    }

    /// The line reading resumes after: the saved line, unless the file now has
    /// fewer lines (it was rotated), in which case reading starts over.
    pub fn resume_line(last_line: usize, current_line_count: usize) -> (r: (usize, bool))
        ensures
            r == (if current_line_count < last_line { (0usize, true) } else { (last_line, false) }),
    {
        if current_line_count < last_line {
            (0, true)
        } else {
            (last_line, false)
        }
    }

    /// Loads remembered keys, keeping those first seen less than the window
    /// before `now` (a later line for a key replaces an earlier one).
    pub fn load_seen(&mut self, saved: &Vec<(String, UtcInstant)>, now: UtcInstant)
        requires
            old(self).wf(),
        ensures
            final(self).wf(),
            final(self).window() == old(self).window(),
            final(self).dirs() == old(self).dirs(),
            forall|k: Seq<char>| #[trigger] final(self).seen().dom().contains(k) ==>
                exists|i: int| 0 <= i < saved@.len() && saved@[i].0@ == k
                    && !window_passed(now, saved@[i].1, old(self).window()),
            final(self).seen() == restored_seen(saved@, old(self).window(), now),
    {
        self.dedup_cache.clear();
        let mut i: usize = 0;
        proof {
            assert(saved@.take(0) =~= Seq::<(String, UtcInstant)>::empty());
        }
        while i < saved.len()
            invariant
                i <= saved@.len(),
                self.wf(),
                self.window() == old(self).window(),
                self.dirs() == old(self).dirs(),
                self.seen() == restored_seen(saved@.take(i as int), old(self).window(), now),
                forall|k: Seq<char>| #[trigger] self.seen().dom().contains(k) ==>
                    exists|j: int| 0 <= j < i && saved@[j].0@ == k && !window_passed(now, saved@[j].1, old(self).window()),
            decreases saved.len() - i,
        {
            let pair = &saved[i];
            let ghost before = self.seen();
            proof {
                let t = saved@.take(i + 1);
                assert(t.drop_last() =~= saved@.take(i as int));
                assert(t.last() == saved@[i as int]);
            }
            if elapsed_secs(now, pair.1) < self.dedup_window_secs {
                self.dedup_cache.insert(pair.0.as_str(), pair.1);
                proof {
                    assert forall|k: Seq<char>| #[trigger] self.seen().dom().contains(k) implies
                        exists|j: int| 0 <= j < i + 1 && saved@[j].0@ == k && !window_passed(now, saved@[j].1, old(self).window()) by {
                        if k == saved@[i as int].0@ {
                            assert(saved@[i as int].0@ == k);
                        } else {
                            assert(before.dom().contains(k));
                        }
                    }
                }
            }
            i = i + 1;
        }
        proof {
            assert(saved@.take(i as int) =~= saved@);
        }
    }

    /// The remembered keys worth saving at `now`: those first seen less than
    /// the window ago.
    pub fn seen_to_save(&self, now: UtcInstant) -> (r: Vec<(String, UtcInstant)>)
        requires
            self.wf(),
        ensures
            forall|i: int| 0 <= i < r@.len() ==> self.seen().dom().contains((#[trigger] r@[i]).0@)
                && self.seen()[r@[i].0@] == r@[i].1 && !window_passed(now, r@[i].1, self.window()),
            forall|k: Seq<char>| #[trigger] self.seen().dom().contains(k) && !window_passed(now, self.seen()[k], self.window())
                ==> exists|i: int| 0 <= i < r@.len() && r@[i].0@ == k,
    {
        let mut out: Vec<(String, UtcInstant)> = Vec::new();
        let ghost v = entry_views(self.dedup_cache.entries@);
        let mut i: usize = 0;
        while i < self.dedup_cache.entries.len()
            invariant
                i <= self.dedup_cache.entries@.len(),
                self.wf(),
                v == entry_views(self.dedup_cache.entries@),
                forall|j: int| 0 <= j < out@.len() ==> self.seen().dom().contains((#[trigger] out@[j]).0@)
                    && self.seen()[out@[j].0@] == out@[j].1 && !window_passed(now, out@[j].1, self.window()),
                forall|j: int| 0 <= j < i && !window_passed(now, #[trigger] self.dedup_cache.entries@[j].1, self.window())
                    ==> exists|m: int| 0 <= m < out@.len() && out@[m].0@ == self.dedup_cache.entries@[j].0@,
            decreases self.dedup_cache.entries.len() - i,
        {
            let pair = &self.dedup_cache.entries[i];
            proof {
                self.dedup_cache.lemma_at(i as int);
            }
            let ghost before = out@;
            if elapsed_secs(now, pair.1) < self.dedup_window_secs {
                out.push((pair.0.clone(), pair.1));
                proof {
                    assert(out@[out@.len() - 1].0@ == self.dedup_cache.entries@[i as int].0@);
                    assert forall|j: int| 0 <= j < i + 1 && !window_passed(now, #[trigger] self.dedup_cache.entries@[j].1, self.window())
                        implies exists|m: int| 0 <= m < out@.len() && out@[m].0@ == self.dedup_cache.entries@[j].0@ by {
                        if j < i {
                            let m = choose|m: int| 0 <= m < before.len() && before[m].0@ == self.dedup_cache.entries@[j].0@;
                            assert(out@[m] == before[m]);
                        } else {
                            assert(out@[out@.len() - 1].0@ == self.dedup_cache.entries@[j].0@);
                        }
                    }
                }
            }
            i = i + 1;
        }
        proof {
            assert forall|k: Seq<char>| #[trigger] self.seen().dom().contains(k) && !window_passed(now, self.seen()[k], self.window())
                implies exists|m: int| 0 <= m < out@.len() && out@[m].0@ == k by {
                let j = choose|j: int| 0 <= j < v.len() && v[j].0 == k;
                assert(v[j].0 == self.dedup_cache.entries@[j].0@);
                self.dedup_cache.lemma_at(j);
                assert(!window_passed(now, self.dedup_cache.entries@[j].1, self.window()));
            }
        }
        out
    }

    /// The name of the log file of a day: `server.YYYY-MM-DD.log`.
    pub fn log_file_name(date: CalendarDate) -> (r: String)
        requires
            crate::calendar::date_in_range(date),
        ensures
            r@ == log_file_name(date),
    {
        let mut out = chars_of("server.");
        append_chars(&mut out, &chars_of(format_ymd(date).as_str()));
        append_chars(&mut out, &chars_of(".log"));
        string_from_chars(out.as_slice())
    }

    /// The name of the file keeping the last line read on a day.
    pub fn state_file_name(date: CalendarDate) -> (r: String)
        requires
            crate::calendar::date_in_range(date),
        ensures
            r@ == "log-watcher-state-"@ + ymd_text(date),
    {
        crate::text::join2("log-watcher-state-", format_ymd(date).as_str())
    }

    /// The name of the file keeping the keys alerted on a day.
    pub fn dedup_file_name(date: CalendarDate) -> (r: String)
        requires
            crate::calendar::date_in_range(date),
        ensures
            r@ == "log-watcher-dedup-"@ + ymd_text(date),
    {
        crate::text::join2("log-watcher-dedup-", format_ymd(date).as_str())
    }

    /// Whether a state file is older than `cutoff` and is removed: its name is
    /// `log-watcher-state-` or `log-watcher-dedup-` followed by a day that
    /// `chrono` reads, before the cutoff.
    pub fn is_expired_state_file(file_name: &str, cutoff: CalendarDate) -> (b: bool)
        ensures
            b == match state_file_day(file_name@) {
                Some(rest) => crate::calendar::chrono_ymd_date(rest) matches Some((y, m, d))
                    && ymd_before((y, m, d), cutoff),
                None => false,
            },
    {
        proof {
            reveal_strlit("log-watcher-state-");
            reveal_strlit("log-watcher-dedup-");
        }
        if !(str_starts_with(file_name, "log-watcher-state-") || str_starts_with(file_name, "log-watcher-dedup-")) {
            return false;
        }
        let chars = chars_of(file_name);
        let rest = string_from_chars(crate::text::slice_chars(&chars, 18, chars.len()).as_slice());
        assert(rest@ =~= file_name@.skip(18));
        match crate::calendar::parse_ymd(rest.as_str()) {
            Some(d) => d.year < cutoff.year || (d.year == cutoff.year && (d.month < cutoff.month
                || (d.month == cutoff.month && d.day < cutoff.day))),
            None => false,
        }
    }
}

/// The text after the prefix of a state file's name, if it has one.
pub open spec fn state_file_day(name: Seq<char>) -> Option<Seq<char>> {
    if crate::text::starts_with(name, "log-watcher-state-"@) || crate::text::starts_with(name, "log-watcher-dedup-"@) {
        Some(name.skip(18))
    } else {
        None
    }
}

/// Whether the day (year, month, day) comes before `cutoff`.
pub open spec fn ymd_before(ymd: (int, int, int), cutoff: CalendarDate) -> bool {
    ymd.0 < cutoff.year || (ymd.0 == cutoff.year && (ymd.1 < cutoff.month || (ymd.1 == cutoff.month && ymd.2 < cutoff.day)))
}

/// Once an error's key is remembered as seen at `t`, an entry with that key is
/// not alerted again at any instant less than the window after `t`.
pub proof fn remembered_error_is_quiet_within_window(
    seen: Map<Seq<char>, UtcInstant>,
    key: Seq<char>,
    t: UtcInstant,
    later: UtcInstant,
    window: u64,
)
    requires
        elapsed_u64(later, t) < window,
    ensures
        !(match seen.insert(key, t).get(key) {
            Some(first) => window_passed(later, first, window),
            None => true,
        }),
{
    assert(seen.insert(key, t).get(key) == Some(t));
}

} // verus!
