//! Which events may start the automation pipeline: type, user, error-code and
//! severity filters, and sliding-window rate limits per kind of action.
use vstd::prelude::*;
use crate::event::{Event, Severity};
use crate::json::json_get_str;
use crate::parse::{parse_list, parse_u32};
use crate::string_set::StringSet;
use crate::text::{str_contains, str_ends_with, str_eq, str_starts_with, to_lower};
use std::sync::{Arc, Mutex, MutexGuard};
use std::time::{Duration, Instant};

verus! {

#[verifier::external_type_specification]
#[verifier::external_body]
#[verifier::reject_recursive_types(T)]
pub struct ExMutex<T: ?Sized>(Mutex<T>);

#[verifier::external_type_specification]
#[verifier::external_body]
#[verifier::reject_recursive_types(T)]
pub struct ExMutexGuard<'a, T: ?Sized + 'a>(MutexGuard<'a, T>);

#[verifier::external_type_specification]
#[verifier::external_body]
pub struct ExInstant(Instant);

/// Rate limits per kind of action.
#[derive(Debug, Clone, Copy)]
pub struct RateLimitConfig {
    pub api_calls_per_minute: u32,
    pub branch_creations_per_hour: u32,
    pub pr_creations_per_hour: u32,
}

impl Default for RateLimitConfig {
    /// Ten API calls a minute, twenty branches and ten pull requests an hour.
    fn default() -> (r: Self)
        ensures
            r.api_calls_per_minute == 10,
            r.branch_creations_per_hour == 20,
            r.pr_creations_per_hour == 10,
    {
        RateLimitConfig::new(10, 20, 10)
    }
}

impl RateLimitConfig {
    pub fn new(
        api_calls_per_minute: u32,
        branch_creations_per_hour: u32,
        pr_creations_per_hour: u32,
    ) -> (r: Self)
        ensures
            r.api_calls_per_minute == api_calls_per_minute,
            r.branch_creations_per_hour == branch_creations_per_hour,
            r.pr_creations_per_hour == pr_creations_per_hour,
    {
        RateLimitConfig { api_calls_per_minute, branch_creations_per_hour, pr_creations_per_hour }
    }
}

/// Kinds of rate-limited actions.
#[derive(Debug, Clone, Copy, PartialEq, Eq, Structural, Hash)]
pub enum RateLimitAction {
    ApiCall,
    BranchCreation,
    PrCreation,
}

/// Length of the sliding window, in seconds: a minute for API calls, an hour otherwise.
pub open spec fn window_secs_of(a: RateLimitAction) -> u64 {
    match a {
        RateLimitAction::ApiCall => 60,
        RateLimitAction::BranchCreation => 3600,
        RateLimitAction::PrCreation => 3600,
    }
}

/// The limit the configuration sets for an action.
pub open spec fn limit_of(c: RateLimitConfig, a: RateLimitAction) -> u32 {
    match a {
        RateLimitAction::ApiCall => c.api_calls_per_minute,
        RateLimitAction::BranchCreation => c.branch_creations_per_hour,
        RateLimitAction::PrCreation => c.pr_creations_per_hour,
    }
}

/// The `Duration` that `std::time::Duration::from_secs` makes of a number of
/// whole seconds. `Duration` is opaque to Verus, so its value is named here
/// and not described.
pub uninterp spec fn std_duration_from_secs(secs: u64) -> Duration;

/// A `Duration` of the given whole seconds (`Duration::from_secs`); the result
/// is named `std_duration_from_secs` and depends on `secs` alone.
#[verifier::external_body]
fn duration_from_secs(secs: u64) -> (r: Duration)
    ensures
        r == std_duration_from_secs(secs),
{
    Duration::from_secs(secs)
}

impl RateLimitAction {
    /// The window length in seconds.
    pub fn window_secs(&self) -> (r: u64)
        ensures
            r == window_secs_of(*self),
    {
        match self {
            RateLimitAction::ApiCall => 60,
            RateLimitAction::BranchCreation => 3600,
            RateLimitAction::PrCreation => 3600,
        }
    }

    /// The window length as a `Duration` of `window_secs` seconds.
    pub fn window_duration(&self) -> (r: Duration)
        ensures
            r == std_duration_from_secs(window_secs_of(*self)),
    {
        duration_from_secs(self.window_secs())
    }
}

/// How long ago `t` was at time `now`; zero for a time in the future.
pub open spec fn age(now: u64, t: u64) -> int {
    if now >= t {
        now - t
    } else {
        0
    }
}

/// Length of the prefix of entries that have expired.
pub open spec fn expired_prefix(s: Seq<u64>, now: u64, window: u64) -> nat
    decreases s.len(),
{
    if s.len() > 0 && age(now, s[0]) >= window {
        1 + expired_prefix(s.drop_first(), now, window)
    } else {
        0
    }
}

/// Number of entries still inside the window.
pub open spec fn recent_count(s: Seq<u64>, now: u64, window: u64) -> nat
    decreases s.len(),
{
    if s.len() == 0 {
        0
    } else {
        recent_count(s.drop_last(), now, window) + (if age(now, s.last()) < window {
            1nat
        } else {
            0nat
        })
    }
}

/// The entries left once the expired prefix is dropped.
pub open spec fn pruned(s: Seq<u64>, now: u64, window: u64) -> Seq<u64> {
    s.skip(expired_prefix(s, now, window) as int)
}

/// Whether a new action is admitted: fewer than `limit` entries remain.
pub open spec fn admits(s: Seq<u64>, now: u64, window: u64, limit: u32) -> bool {
    pruned(s, now, window).len() < limit
}

/// The entries after an admission attempt at `now`.
pub open spec fn after_attempt(s: Seq<u64>, now: u64, window: u64, limit: u32) -> Seq<u64> {
    if admits(s, now, window, limit) {
        pruned(s, now, window).push(now)
    } else {
        pruned(s, now, window)
    }
}

proof fn lemma_expired_prefix_le(s: Seq<u64>, now: u64, window: u64)
    ensures
        expired_prefix(s, now, window) <= s.len(),
    decreases s.len(),
{
    if s.len() > 0 && age(now, s[0]) >= window {
        lemma_expired_prefix_le(s.drop_first(), now, window);
    }
}

/// The window never holds more actions than the limit: an attempt on a window
/// that holds at most `limit` entries leaves at most `limit` entries, and the
/// attempt is refused exactly when `limit` entries are still inside it.
pub proof fn law_window_holds_at_most_limit(s: Seq<u64>, now: u64, window: u64, limit: u32)
    requires
        s.len() <= limit,
    ensures
        after_attempt(s, now, window, limit).len() <= limit,
        !admits(s, now, window, limit) ==> after_attempt(s, now, window, limit) == pruned(s, now, window)
            && pruned(s, now, window).len() == limit,
{
    lemma_expired_prefix_le(s, now, window);
}

/// The number of actions counted inside the window is at most the number of
/// entries kept.
pub proof fn law_recent_count_at_most_entries(s: Seq<u64>, now: u64, window: u64)
    ensures
        recent_count(s, now, window) <= s.len(),
    decreases s.len(),
{
    if s.len() > 0 {
        law_recent_count_at_most_entries(s.drop_last(), now, window);
    }
}

/// The entries were recorded in time order and none lies after `now`.
pub open spec fn in_time_order(s: Seq<u64>, now: u64) -> bool {
    &&& forall|i: int, j: int| 0 <= i <= j < s.len() ==> s[i] <= s[j]
    &&& forall|i: int| 0 <= i < s.len() ==> s[i] <= now
}

proof fn lemma_recent_count_first(s: Seq<u64>, now: u64, window: u64)
    requires
        s.len() > 0,
    ensures
        recent_count(s, now, window) == (if age(now, s[0]) < window { 1nat } else { 0nat })
            + recent_count(s.drop_first(), now, window),
    decreases s.len(),
{
    let y = |t: u64| if age(now, t) < window { 1nat } else { 0nat };
    if s.len() > 1 {
        lemma_recent_count_first(s.drop_last(), now, window);
        assert(s.drop_last().drop_first() =~= s.drop_first().drop_last());
        assert(s.drop_last()[0] == s[0]);
        assert(s.drop_first().last() == s.last());
        assert(recent_count(s, now, window) == recent_count(s.drop_last(), now, window) + y(s.last()));
        assert(recent_count(s.drop_first(), now, window) == recent_count(s.drop_first().drop_last(), now, window)
            + y(s.drop_first().last()));
    } else {
        assert(s.drop_first().len() == 0);
        assert(s.drop_last().len() == 0);
        assert(s.last() == s[0]);
        assert(recent_count(s, now, window) == recent_count(s.drop_last(), now, window) + y(s.last()));
    }
}

proof fn lemma_all_recent(s: Seq<u64>, now: u64, window: u64)
    requires
        forall|i: int| 0 <= i < s.len() ==> age(now, #[trigger] s[i]) < window,
    ensures
        recent_count(s, now, window) == s.len(),
    decreases s.len(),
{
    if s.len() > 0 {
        assert forall|i: int| 0 <= i < s.drop_last().len() implies age(now, #[trigger] s.drop_last()[i])
            < window by {
            assert(s.drop_last()[i] == s[i]);
        }
        lemma_all_recent(s.drop_last(), now, window);
        assert(age(now, s[s.len() - 1]) < window);
    }
}

/// On entries in time order the expired ones come first, so what is not
/// expired is what is counted inside the window.
proof fn lemma_count_is_pruned_len(s: Seq<u64>, now: u64, window: u64)
    requires
        in_time_order(s, now),
    ensures
        recent_count(s, now, window) + expired_prefix(s, now, window) == s.len(),
        forall|i: int| expired_prefix(s, now, window) <= i < s.len() ==> age(now, #[trigger] s[i]) < window,
    decreases s.len(),
{
    if s.len() > 0 {
        lemma_recent_count_first(s, now, window);
        if age(now, s[0]) >= window {
            let t = s.drop_first();
            assert(in_time_order(t, now)) by {
                assert forall|i: int, j: int| 0 <= i <= j < t.len() implies t[i] <= t[j] by {
                    assert(t[i] == s[i + 1] && t[j] == s[j + 1]);
                }
                assert forall|i: int| 0 <= i < t.len() implies t[i] <= now by {
                    assert(t[i] == s[i + 1]);
                }
            }
            lemma_count_is_pruned_len(t, now, window);
            assert forall|i: int| expired_prefix(s, now, window) <= i < s.len() implies age(now, #[trigger] s[i])
                < window by {
                assert(s[i] == t[i - 1]);
            }
        } else {
            assert forall|i: int| 0 <= i < s.len() implies age(now, #[trigger] s[i]) < window by {
                assert(s[0] <= s[i] && s[i] <= now);
            }
            lemma_all_recent(s, now, window);
        }
    }
}

/// Admission goes by the count inside the window: on entries kept in time
/// order (and a window longer than zero), an attempt at `now` is admitted
/// exactly when fewer than `limit` actions lie inside the window; an admitted
/// attempt adds one to that count and a refused one leaves it as it was; and
/// the entries stay in time order.
pub proof fn law_admission_by_count(s: Seq<u64>, now: u64, window: u64, limit: u32)
    requires
        in_time_order(s, now),
        window > 0,
    ensures
        admits(s, now, window, limit) == (recent_count(s, now, window) < limit),
        recent_count(after_attempt(s, now, window, limit), now, window) == recent_count(s, now, window)
            + (if admits(s, now, window, limit) { 1nat } else { 0nat }),
        in_time_order(after_attempt(s, now, window, limit), now),
{
    lemma_count_is_pruned_len(s, now, window);
    lemma_expired_prefix_le(s, now, window);
    let k = expired_prefix(s, now, window) as int;
    let p = pruned(s, now, window);
    assert(p.len() == s.len() - k);
    assert forall|i: int| 0 <= i < p.len() implies age(now, #[trigger] p[i]) < window by {
        assert(p[i] == s[i + k]);
    }
    lemma_all_recent(p, now, window);
    assert forall|i: int, j: int| 0 <= i <= j < p.len() implies p[i] <= p[j] by {
        assert(p[i] == s[i + k] && p[j] == s[j + k]);
    }
    assert forall|i: int| 0 <= i < p.len() implies p[i] <= now by {
        assert(p[i] == s[i + k]);
    }
    if admits(s, now, window, limit) {
        let a = p.push(now);
        assert(a.drop_last() =~= p);
        assert(a.last() == now);
        assert(age(now, now) == 0);
        assert forall|i: int, j: int| 0 <= i <= j < a.len() implies a[i] <= a[j] by {
            if j < p.len() {
                assert(a[i] == p[i] && a[j] == p[j]);
            } else {
                assert(a[j] == now);
                if i < p.len() {
                    assert(a[i] == p[i]);
                }
            }
        }
        assert forall|i: int| 0 <= i < a.len() implies a[i] <= now by {
            if i < p.len() {
                assert(a[i] == p[i]);
            }
        }
    }
}

/// The window of an action in nanoseconds.
pub open spec fn window_nanos_of(a: RateLimitAction) -> u64 {
    (window_secs_of(a) * 1_000_000_000) as u64
}

/// An attempt that only goes to the window when the event passed the filters:
/// the answer and the entries after it. A filtered-out event is refused and
/// leaves the entries as they were.
pub open spec fn filtered_attempt(s: Seq<u64>, passes: bool, now: u64, window: u64, limit: u32) -> (bool, Seq<u64>) {
    if passes {
        (admits(s, now, window, limit), after_attempt(s, now, window, limit))
    } else {
        (false, s)
    }
}

/// An action admitted at `t` stays counted for its whole window: at any later
/// instant less than the action's window after `t` it is still inside the
/// window, so with a limit of one every further attempt in that time is
/// refused (one pull request an hour allows no second one 61 seconds later).
pub proof fn law_admitted_action_counts_for_its_window(
    s: Seq<u64>,
    a: RateLimitAction,
    t: u64,
    later: u64,
    limit: u32,
)
    requires
        in_time_order(s, t),
        admits(s, t, window_nanos_of(a), limit),
        t <= later,
        later - t < window_nanos_of(a),
    ensures
        recent_count(after_attempt(s, t, window_nanos_of(a), limit), later, window_nanos_of(a)) >= 1,
        limit == 1 ==> !admits(after_attempt(s, t, window_nanos_of(a), limit), later, window_nanos_of(a), limit),
{
    let w = window_nanos_of(a);
    assert(w > 0);
    law_admission_by_count(s, t, w, limit);
    let after = after_attempt(s, t, w, limit);
    assert(in_time_order(after, later));
    assert(after.last() == t);
    assert(age(later, t) < w);
    law_recent_count_at_most_entries(after.drop_last(), later, w);
    lemma_count_is_pruned_len(after, later, w);
    lemma_expired_prefix_le(after, later, w);
}

/// The window a pull request or branch is counted in is an hour, an API
/// call's a minute.
pub proof fn law_action_windows()
    ensures
        window_nanos_of(RateLimitAction::ApiCall) == 60_000_000_000,
        window_nanos_of(RateLimitAction::BranchCreation) == 3_600_000_000_000,
        window_nanos_of(RateLimitAction::PrCreation) == 3_600_000_000_000,
{
}

/// An event that fails the filters never reaches the window: it is refused and
/// leaves the entries unchanged, so a filtered-out event followed by one that
/// passes gives the same answer and entries as the passing event alone.
pub proof fn law_filtered_event_never_counts(s: Seq<u64>, t1: u64, t2: u64, window: u64, limit: u32)
    ensures
        filtered_attempt(s, false, t1, window, limit) == (false, s),
        filtered_attempt(filtered_attempt(s, false, t1, window, limit).1, true, t2, window, limit)
            == filtered_attempt(s, true, t2, window, limit),
        filtered_attempt(s, true, t2, window, limit).0 == admits(s, t2, window, limit),
{
}

/// Timestamps (nanoseconds since `origin`) of the recent actions of each kind.
#[derive(Debug)]
pub struct WindowState {
    pub origin: Instant,
    pub api: Vec<u64>,
    pub branch: Vec<u64>,
    pub pr: Vec<u64>,
}

/// The entries kept for an action.
pub open spec fn entries_of(w: WindowState, a: RateLimitAction) -> Seq<u64> {
    match a {
        RateLimitAction::ApiCall => w.api@,
        RateLimitAction::BranchCreation => w.branch@,
        RateLimitAction::PrCreation => w.pr@,
    }
}

/// The current instant (`Instant::now`); depends on the clock.
#[verifier::external_body]
fn instant_now() -> Instant {
    Instant::now()
}

/// Nanoseconds elapsed since `origin` (`Instant::elapsed`, then `as_nanos`);
/// depends on the clock, so nothing is stated of it.
#[verifier::external_body]
fn nanos_since(origin: &Instant) -> u64 {
    origin.elapsed().as_nanos() as u64
}

fn count_recent(s: &Vec<u64>, now: u64, window: u64) -> (r: usize)
    ensures
        r == recent_count(s@, now, window),
{
    let mut n: usize = 0;
    let mut i: usize = 0;
    while i < s.len()
        invariant
            i <= s.len(),
            n <= i,
            n == recent_count(s@.take(i as int), now, window),
        decreases s.len() - i,
    {
        proof {
            assert(s@.take(i + 1).drop_last() =~= s@.take(i as int));
        }
        let t = s[i];
        let young: bool = if now >= t {
            now - t < window
        } else {
            0 < window
        };
        if young {
            n = n + 1;
        }
        i = i + 1;
    }
    proof {
        assert(s@.take(s.len() as int) =~= s@);
    }
    n
}

fn is_expired(now: u64, t: u64, window: u64) -> (b: bool)
    ensures
        b == (age(now, t) >= window),
{
    if now >= t {
        now - t >= window
    } else {
        0 >= window
    }
}

fn attempt(s: &mut Vec<u64>, now: u64, window: u64, limit: u32) -> (ok: bool)
    ensures
        ok == admits(old(s)@, now, window, limit),
        final(s)@ == after_attempt(old(s)@, now, window, limit),
{
    let ghost s0 = s@;
    let mut k: usize = 0;
    assert(s0.skip(0) =~= s0);
    while k < s.len() && is_expired(now, s[k], window)
        invariant
            s@ == s0,
            k <= s.len(),
            expired_prefix(s0, now, window) == k + expired_prefix(s0.skip(k as int), now, window),
        decreases s.len() - k,
    {
        proof {
            assert(s0.skip(k as int).drop_first() =~= s0.skip(k + 1));
            assert(s0.skip(k as int)[0] == s0[k as int]);
        }
        k = k + 1;
    }
    proof {
        assert(s0.skip(0) =~= s0);
        if k < s.len() {
            assert(s0.skip(k as int)[0] == s0[k as int]);
        }
        assert(expired_prefix(s0.skip(k as int), now, window) == 0);
    }
    let mut kept: Vec<u64> = Vec::new();
    let mut i: usize = k;
    while i < s.len()
        invariant
            s@ == s0,
            k <= i <= s.len(),
            kept@ == s0.subrange(k as int, i as int),
        decreases s.len() - i,
    {
        kept.push(s[i]);
        i = i + 1;
        assert(kept@ == s0.subrange(k as int, i as int));
    }
    assert(kept@ =~= pruned(s0, now, window));
    let ok = kept.len() < limit as usize;
    if ok {
        kept.push(now);
    }
    *s = kept;
    ok
}

impl WindowState {
    fn new() -> (r: Self)
        ensures
            r.api@.len() == 0,
            r.branch@.len() == 0,
            r.pr@.len() == 0,
    {
        WindowState { origin: instant_now(), api: Vec::new(), branch: Vec::new(), pr: Vec::new() }
    }

    /// Drops the expired entries of `action` and records `now` when fewer than
    /// `limit` remain; the other actions are untouched.
    pub fn try_record(&mut self, action: RateLimitAction, now: u64, window: u64, limit: u32) -> (ok:
        bool)
        ensures
            ok == admits(entries_of(*old(self), action), now, window, limit),
            entries_of(*final(self), action) == after_attempt(
                entries_of(*old(self), action),
                now,
                window,
                limit,
            ),
            forall|b: RateLimitAction| b != action ==> entries_of(*final(self), b)
                == entries_of(*old(self), b),
    {
        match action {
            RateLimitAction::ApiCall => attempt(&mut self.api, now, window, limit),
            RateLimitAction::BranchCreation => attempt(&mut self.branch, now, window, limit),
            RateLimitAction::PrCreation => attempt(&mut self.pr, now, window, limit),
        }
    }

    /// Number of entries of `action` inside the window.
    pub fn recent(&self, action: RateLimitAction, now: u64, window: u64) -> (r: usize)
        ensures
            r == recent_count(entries_of(*self, action), now, window),
    {
        match action {
            RateLimitAction::ApiCall => count_recent(&self.api, now, window),
            RateLimitAction::BranchCreation => count_recent(&self.branch, now, window),
            RateLimitAction::PrCreation => count_recent(&self.pr, now, window),
        }
    }

    /// Records the action only when the event passed the filters (see
    /// `filtered_attempt`); the other actions are untouched.
    pub fn attempt_if(&mut self, passes: bool, action: RateLimitAction, now: u64, window: u64, limit: u32)
        -> (ok: bool)
        ensures
            (ok, entries_of(*final(self), action)) == filtered_attempt(
                entries_of(*old(self), action),
                passes,
                now,
                window,
                limit,
            ),
            forall|b: RateLimitAction| b != action ==> entries_of(*final(self), b)
                == entries_of(*old(self), b),
            !passes ==> *final(self) == *old(self),
    {
        if passes {
            self.try_record(action, now, window, limit)
        } else {
            false
        }
    }

    /// Whether one more action of `action` would be admitted at `now`: fewer
    /// than `limit` entries lie inside the window. Nothing is recorded.
    pub fn has_room(&self, action: RateLimitAction, now: u64, window: u64, limit: u32) -> (ok: bool)
        ensures
            ok == (recent_count(entries_of(*self, action), now, window) < limit),
    {
        let n = self.recent(action, now, window);
        n < limit as usize
    }

    /// Forgets every entry.
    pub fn clear(&mut self)
        ensures
            forall|a: RateLimitAction| entries_of(*final(self), a).len() == 0,
    {
        self.api = Vec::new();
        self.branch = Vec::new();
        self.pr = Vec::new();
    }
}

/// Wraps the state in a `Mutex` inside an `Arc` (`Mutex::new`, `Arc::new`).
#[verifier::external_body]
fn new_store(s: WindowState) -> Arc<Mutex<WindowState>> {
    Arc::new(Mutex::new(s))
}

/// Another handle on the same shared state (`Arc::clone`).
#[verifier::external_body]
fn share_store(s: &Arc<Mutex<WindowState>>) -> Arc<Mutex<WindowState>> {
    Arc::clone(s)
}

/// Locks the shared state with `Mutex::lock`, taking the state over from a
/// poisoned lock. Other handles may have changed the state: nothing is stated
/// of what the guard holds.
#[verifier::external_body]
fn lock_store(s: &Arc<Mutex<WindowState>>) -> MutexGuard<'_, WindowState> {
    match s.lock() {
        Ok(g) => g,
        Err(p) => p.into_inner(),
    }
}

/// The state behind a guard (`DerefMut`).
#[verifier::external_body]
fn guarded<'a, 'b>(g: &'b mut MutexGuard<'a, WindowState>) -> &'b mut WindowState {
    &mut **g
}

/// A sliding-window rate limiter. Clones share the same counts.
#[derive(Debug)]
pub struct RateLimiter {
    config: RateLimitConfig,
    windows: Arc<Mutex<WindowState>>,
}

impl Default for RateLimiter {
    fn default() -> (r: Self)
        ensures
            r.config_view() == RateLimitConfig::default_view(),
    {
        RateLimiter::new(RateLimitConfig::default())
    }
}

impl Clone for RateLimiter {
    /// A handle that shares the counts of `self`.
    fn clone(&self) -> (r: Self)
        ensures
            r.config_view() == self.config_view(),
    {
        RateLimiter { config: self.config, windows: share_store(&self.windows) }
    }
}

impl RateLimitConfig {
    pub open spec fn default_view() -> RateLimitConfig {
        RateLimitConfig { api_calls_per_minute: 10, branch_creations_per_hour: 20, pr_creations_per_hour: 10 }
    }
}

impl RateLimiter {
    pub closed spec fn config_view(&self) -> RateLimitConfig {
        self.config
    }

    /// A limiter with the given limits and no recorded action.
    pub fn new(config: RateLimitConfig) -> (r: Self)
        ensures
            r.config_view() == config,
    {
        RateLimiter { config, windows: new_store(WindowState::new()) }
    }

    fn get_limit(&self, action: RateLimitAction) -> (r: u32)
        ensures
            r == limit_of(self.config_view(), action),
    {
        match action {
            RateLimitAction::ApiCall => self.config.api_calls_per_minute,
            RateLimitAction::BranchCreation => self.config.branch_creations_per_hour,
            RateLimitAction::PrCreation => self.config.pr_creations_per_hour,
        }
    }

    fn window_nanos(action: RateLimitAction) -> (r: u64)
        ensures
            r == window_secs_of(action) * 1_000_000_000,
    {
        action.window_secs() * 1_000_000_000
    }

    /// Whether one more action would be admitted now, without recording it:
    /// the answer of `WindowState::has_room` on the shared state at the present
    /// instant. The counts are shared with other handles, so only this is
    /// stated here: a zero limit admits nothing.
    pub fn check(&self, action: RateLimitAction) -> (ok: bool)
        ensures
            limit_of(self.config_view(), action) == 0 ==> !ok,
            exists|s: WindowState, now: u64| ok == (#[trigger] recent_count(
                entries_of(s, action),
                now,
                window_nanos_of(action),
            ) < limit_of(self.config_view(), action)),
    {
        let limit = self.get_limit(action);
        let window = Self::window_nanos(action);
        let mut g = lock_store(&self.windows);
        let st = guarded(&mut g);
        let now = nanos_since(&st.origin);
        let ok = st.has_room(action, now, window, limit);
        assert(ok == (recent_count(entries_of(*st, action), now, window_nanos_of(action)) < limit));
        ok
    }

    /// Records the action and returns true when fewer than the limit were made in
    /// the window; returns false and records nothing otherwise.
    pub fn try_acquire(&self, action: RateLimitAction) -> (ok: bool)
        ensures
            limit_of(self.config_view(), action) == 0 ==> !ok,
            exists|s: WindowState, now: u64| ok == #[trigger] admits(
                entries_of(s, action),
                now,
                window_nanos_of(action),
                limit_of(self.config_view(), action),
            ),
    {
        let limit = self.get_limit(action);
        let window = Self::window_nanos(action);
        let mut g = lock_store(&self.windows);
        let st = guarded(&mut g);
        let now = nanos_since(&st.origin);
        let ghost before = *st;
        let ok = st.try_record(action, now, window, limit);
        assert(ok == admits(entries_of(before, action), now, window_nanos_of(action), limit));
        ok
    }

    /// Records the action only when the event passed the filters: a
    /// filtered-out event is refused and the shared counts are left alone.
    fn try_acquire_if(&self, passes: bool, action: RateLimitAction) -> (ok: bool)
        ensures
            !passes ==> !ok,
            limit_of(self.config_view(), action) == 0 ==> !ok,
            exists|s: WindowState, now: u64| ok == (#[trigger] filtered_attempt(
                entries_of(s, action),
                passes,
                now,
                window_nanos_of(action),
                limit_of(self.config_view(), action),
            )).0,
    {
        let limit = self.get_limit(action);
        let window = Self::window_nanos(action);
        let mut g = lock_store(&self.windows);
        let st = guarded(&mut g);
        let now = nanos_since(&st.origin);
        let ghost before = *st;
        let ok = st.attempt_if(passes, action, now, window, limit);
        assert(ok == filtered_attempt(entries_of(before, action), passes, now, window_nanos_of(action), limit).0);
        ok
    }

    /// Records the action if it is admitted.
    pub fn record(&self, action: RateLimitAction) {
        let _ = self.try_acquire(action);
    }

    /// Number of actions of this kind made inside the window.
    pub fn current_count(&self, action: RateLimitAction) -> (r: usize) {
        let window = Self::window_nanos(action);
        let mut g = lock_store(&self.windows);
        let st = guarded(&mut g);
        let now = nanos_since(&st.origin);
        st.recent(action, now, window)
    }

    /// How many more actions of this kind the window admits.
    pub fn remaining(&self, action: RateLimitAction) -> (r: u32)
        ensures
            r <= limit_of(self.config_view(), action),
    {
        let limit = self.get_limit(action);
        let current = self.current_count(action);
        remaining_capacity(limit, current)
    }

    /// Forgets every recorded action (for all handles).
    pub fn reset(&self) {
        let mut g = lock_store(&self.windows);
        let st = guarded(&mut g);
        st.clear();
    }

    pub fn config(&self) -> (r: &RateLimitConfig)
        ensures
            *r == self.config_view(),
    {
        &self.config
    }
}

/// The capacity left under `limit` after `current` actions.
pub fn remaining_capacity(limit: u32, current: usize) -> (r: u32)
    ensures
        r == (if current >= limit { 0 } else { limit - current }),
{
    if current >= limit as usize {
        0
    } else {
        limit - current as u32
    }
}

/// An admission never leaves more than `limit` entries in the window.
pub proof fn admitted_within_limit(s: Seq<u64>, now: u64, window: u64, limit: u32)
    ensures
        admits(s, now, window, limit) ==> after_attempt(s, now, window, limit).len() <= limit,
        !admits(s, now, window, limit) ==> after_attempt(s, now, window, limit).len()
            <= s.len(),
{
    lemma_expired_prefix_le(s, now, window);
}

/// The first admission attempts into an empty window at one instant succeed
/// exactly `limit` times: with `n` entries recorded at `now`, one more is
/// admitted iff `n < limit`.
pub proof fn fresh_window_admits_up_to_limit(n: nat, now: u64, window: u64, limit: u32)
    requires
        window > 0,
    ensures
        admits(Seq::new(n, |i: int| now), now, window, limit) <==> n < limit,
{
    let s = Seq::new(n, |i: int| now);
    if n > 0 {
        assert(age(now, s[0]) == 0);
    }
    assert(expired_prefix(s, now, window) == 0);
    assert(pruned(s, now, window) =~= s);
}

/// What the event type says about the action it leads to: branch events,
/// pull-request events, and API calls for everything else.
pub open spec fn action_for(event_type: Seq<char>) -> RateLimitAction {
    let t = crate::text::lowercase(event_type);
    if crate::text::contains(t, "branch"@) {
        RateLimitAction::BranchCreation
    } else if crate::text::contains(t, "pull_request"@) || has_pr_segment(t) {
        RateLimitAction::PrCreation
    } else {
        RateLimitAction::ApiCall
    }
}

/// "pr" stands as a dot-separated segment of the type.
pub open spec fn has_pr_segment(t: Seq<char>) -> bool {
    t == "pr"@ || crate::text::starts_with(t, "pr."@) || crate::text::ends_with(t, ".pr"@)
        || crate::text::contains(t, ".pr."@)
}

/// The filter settings, as plain values.
pub open spec fn passes_filters(
    active: bool,
    enabled: Set<Seq<char>>,
    allowed: Set<Seq<char>>,
    ignored: Set<Seq<char>>,
    min: Severity,
    event_type: Seq<char>,
    user: Option<Seq<char>>,
    error_code: Option<Seq<char>>,
    severity: Option<Seq<char>>,
) -> bool {
    !active || {
        &&& (enabled == Set::<Seq<char>>::empty() || enabled.contains(event_type))
        &&& (allowed == Set::<Seq<char>>::empty() || (user matches Some(u) && allowed.contains(u)))
        &&& !(error_code matches Some(c) && ignored.contains(c))
        &&& match severity {
            Some(s) => match crate::event::parse_severity(s) {
                Some(v) => crate::event::severity_rank(v) >= crate::event::severity_rank(min),
                None => crate::event::severity_rank(Severity::Info) >= crate::event::severity_rank(
                    min,
                ),
            },
            None => crate::text::starts_with(event_type, "monitoring."@) ==> crate::event::severity_rank(
                Severity::Info,
            ) >= crate::event::severity_rank(min),
        }
    }
}

/// Event filter for the automation pipeline.
#[derive(Debug, Clone)]
pub struct TriggerFilter {
    enabled_events: StringSet,
    allowed_users: StringSet,
    ignored_error_codes: StringSet,
    min_severity: Severity,
    active: bool,
    rate_limiter: Option<RateLimiter>,
}

impl Default for TriggerFilter {
    /// An active filter with empty lists, minimum severity Warning and no rate limiter.
    fn default() -> (r: Self)
        ensures
            r.is_active_view(),
            r.enabled_view() == Set::<Seq<char>>::empty(),
            r.allowed_view() == Set::<Seq<char>>::empty(),
            r.ignored_view() == Set::<Seq<char>>::empty(),
            r.min_severity_view() == Severity::Warning,
            r.limiter_view() is None,
    {
        TriggerFilter {
            enabled_events: StringSet::new(),
            allowed_users: StringSet::new(),
            ignored_error_codes: StringSet::new(),
            min_severity: Severity::Warning,
            active: true,
            rate_limiter: None,
        }
    }
}

impl TriggerFilter {
    pub closed spec fn is_active_view(&self) -> bool {
        self.active
    }

    pub closed spec fn enabled_view(&self) -> Set<Seq<char>> {
        self.enabled_events@
    }

    pub closed spec fn allowed_view(&self) -> Set<Seq<char>> {
        self.allowed_users@
    }

    pub closed spec fn ignored_view(&self) -> Set<Seq<char>> {
        self.ignored_error_codes@
    }

    pub closed spec fn min_severity_view(&self) -> Severity {
        self.min_severity
    }

    pub closed spec fn limiter_view(&self) -> Option<RateLimitConfig> {
        match self.rate_limiter {
            Some(l) => Some(l.config_view()),
            None => None,
        }
    }

    /// The filter decision before rate limiting, for an event (its type, user,
    /// and the error code and severity read from its payload).
    pub open spec fn decides_event(&self, event: Event) -> bool {
        self.decides(
            event.event_type@,
            match event.metadata.user {
                Some(u) => Some(u@),
                None => None,
            },
            crate::json::json_str_member(event.data@, "error_code"@),
            crate::json::json_str_member(event.data@, "severity"@),
        )
    }

    /// The filter decision before rate limiting, for the given event fields.
    pub open spec fn decides(
        &self,
        event_type: Seq<char>,
        user: Option<Seq<char>>,
        error_code: Option<Seq<char>>,
        severity: Option<Seq<char>>,
    ) -> bool {
        passes_filters(
            self.is_active_view(),
            self.enabled_view(),
            self.allowed_view(),
            self.ignored_view(),
            self.min_severity_view(),
            event_type,
            user,
            error_code,
            severity,
        )
    }

    pub fn new() -> (r: Self)
        ensures
            r.is_active_view(),
            r.enabled_view() == Set::<Seq<char>>::empty(),
            r.allowed_view() == Set::<Seq<char>>::empty(),
            r.ignored_view() == Set::<Seq<char>>::empty(),
            r.min_severity_view() == Severity::Warning,
            r.limiter_view() is None,
    {
        Self::default()
    }

    /// An inactive filter, which lets every event through.
    pub fn allow_all() -> (r: Self)
        ensures
            !r.is_active_view(),
            r.enabled_view() == Set::<Seq<char>>::empty(),
            r.allowed_view() == Set::<Seq<char>>::empty(),
            r.ignored_view() == Set::<Seq<char>>::empty(),
            r.min_severity_view() == Severity::Warning,
            r.limiter_view() is None,
    {
        TriggerFilter { active: false, ..Self::default() }
    }

    /// Only the listed event types pass (an empty list lets every type pass).
    pub fn with_enabled_events(self, events: Vec<&str>) -> (r: Self)
        ensures
            forall|x: Seq<char>| #[trigger]
                r.enabled_view().contains(x) <==> exists|i: int|
                    0 <= i < events@.len() && events@[i]@ == x,
            r.allowed_view() == self.allowed_view(),
            r.ignored_view() == self.ignored_view(),
            r.min_severity_view() == self.min_severity_view(),
            r.is_active_view() == self.is_active_view(),
            r.limiter_view() == self.limiter_view(),
    {
        TriggerFilter { enabled_events: StringSet::from_strs(&events), ..self }
    }

    pub fn enable_event(self, event_type: &str) -> (r: Self)
        ensures
            r.enabled_view() == self.enabled_view().insert(event_type@),
            r.allowed_view() == self.allowed_view(),
            r.ignored_view() == self.ignored_view(),
            r.min_severity_view() == self.min_severity_view(),
            r.is_active_view() == self.is_active_view(),
            r.limiter_view() == self.limiter_view(),
    {
        let mut f = self;
        f.enabled_events.insert(event_type);
        f
    }

    /// Only events of the listed users pass (an empty list lets every user pass).
    pub fn with_allowed_users(self, users: Vec<&str>) -> (r: Self)
        ensures
            forall|x: Seq<char>| #[trigger]
                r.allowed_view().contains(x) <==> exists|i: int|
                    0 <= i < users@.len() && users@[i]@ == x,
            r.enabled_view() == self.enabled_view(),
            r.ignored_view() == self.ignored_view(),
            r.min_severity_view() == self.min_severity_view(),
            r.is_active_view() == self.is_active_view(),
            r.limiter_view() == self.limiter_view(),
    {
        TriggerFilter { allowed_users: StringSet::from_strs(&users), ..self }
    }

    pub fn allow_user(self, user: &str) -> (r: Self)
        ensures
            r.allowed_view() == self.allowed_view().insert(user@),
            r.enabled_view() == self.enabled_view(),
            r.ignored_view() == self.ignored_view(),
            r.min_severity_view() == self.min_severity_view(),
            r.is_active_view() == self.is_active_view(),
            r.limiter_view() == self.limiter_view(),
    {
        let mut f = self;
        f.allowed_users.insert(user);
        f
    }

    /// Events with one of the listed error codes are dropped.
    pub fn with_ignored_error_codes(self, codes: Vec<&str>) -> (r: Self)
        ensures
            forall|x: Seq<char>| #[trigger]
                r.ignored_view().contains(x) <==> exists|i: int|
                    0 <= i < codes@.len() && codes@[i]@ == x,
            r.enabled_view() == self.enabled_view(),
            r.allowed_view() == self.allowed_view(),
            r.min_severity_view() == self.min_severity_view(),
            r.is_active_view() == self.is_active_view(),
            r.limiter_view() == self.limiter_view(),
    {
        TriggerFilter { ignored_error_codes: StringSet::from_strs(&codes), ..self }
    }

    pub fn ignore_error_code(self, code: &str) -> (r: Self)
        ensures
            r.ignored_view() == self.ignored_view().insert(code@),
            r.enabled_view() == self.enabled_view(),
            r.allowed_view() == self.allowed_view(),
            r.min_severity_view() == self.min_severity_view(),
            r.is_active_view() == self.is_active_view(),
            r.limiter_view() == self.limiter_view(),
    {
        let mut f = self;
        f.ignored_error_codes.insert(code);
        f
    }

    pub fn with_min_severity(self, severity: Severity) -> (r: Self)
        ensures
            r.min_severity_view() == severity,
            r.enabled_view() == self.enabled_view(),
            r.allowed_view() == self.allowed_view(),
            r.ignored_view() == self.ignored_view(),
            r.is_active_view() == self.is_active_view(),
            r.limiter_view() == self.limiter_view(),
    {
        TriggerFilter { min_severity: severity, ..self }
    }

    pub fn with_active(self, active: bool) -> (r: Self)
        ensures
            r.is_active_view() == active,
            r.enabled_view() == self.enabled_view(),
            r.allowed_view() == self.allowed_view(),
            r.ignored_view() == self.ignored_view(),
            r.min_severity_view() == self.min_severity_view(),
            r.limiter_view() == self.limiter_view(),
    {
        TriggerFilter { active, ..self }
    }

    pub fn with_rate_limiter(self, rate_limiter: RateLimiter) -> (r: Self)
        ensures
            r.limiter_view() == Some(rate_limiter.config_view()),
            r.enabled_view() == self.enabled_view(),
            r.allowed_view() == self.allowed_view(),
            r.ignored_view() == self.ignored_view(),
            r.min_severity_view() == self.min_severity_view(),
            r.is_active_view() == self.is_active_view(),
    {
        TriggerFilter { rate_limiter: Some(rate_limiter), ..self }
    }

    pub fn rate_limiter(&self) -> (r: Option<&RateLimiter>)
        ensures
            match r {
                Some(l) => self.limiter_view() == Some(l.config_view()),
                None => self.limiter_view() is None,
            },
    {
        match &self.rate_limiter {
            Some(l) => Some(l),
            None => None,
        }
    }

    /// Records the action with the rate limiter; true when admitted, and always
    /// true without a limiter. A limit of zero admits nothing.
    pub fn check_rate_limit(&self, action: RateLimitAction) -> (ok: bool)
        ensures
            self.limiter_view() is None ==> ok,
            self.limiter_view() matches Some(c) && limit_of(c, action) == 0 ==> !ok,
    {
        match &self.rate_limiter {
            Some(limiter) => limiter.try_acquire(action),
            None => true,
        }
    }

    /// Whether the action would be refused now, without recording it; never
    /// without a limiter, always under a limit of zero.
    pub fn would_be_rate_limited(&self, action: RateLimitAction) -> (b: bool)
        ensures
            self.limiter_view() is None ==> !b,
            self.limiter_view() matches Some(c) && limit_of(c, action) == 0 ==> b,
    {
        match &self.rate_limiter {
            Some(limiter) => !limiter.check(action),
            None => false,
        }
    }

    /// The filter decision before rate limiting.
    pub fn passes(
        &self,
        event_type: &str,
        user: Option<&str>,
        error_code: Option<&str>,
        severity: Option<&str>,
    ) -> (b: bool)
        ensures
            b == self.decides(
                event_type@,
                match user {
                    Some(u) => Some(u@),
                    None => None,
                },
                match error_code {
                    Some(c) => Some(c@),
                    None => None,
                },
                match severity {
                    Some(s) => Some(s@),
                    None => None,
                },
            ),
    {
        if !self.active {
            return true;
        }
        if !self.enabled_events.is_empty() && !self.enabled_events.contains(event_type) {
            return false;
        }
        if !self.allowed_users.is_empty() {
            match user {
                Some(u) => {
                    if !self.allowed_users.contains(u) {
                        return false;
                    }
                },
                None => {
                    return false;
                },
            }
        }
        match error_code {
            Some(c) => {
                if self.ignored_error_codes.contains(c) {
                    return false;
                }
            },
            None => {},
        }
        match severity {
            Some(s) => match Severity::parse(s) {
                Ok(v) => {
                    if v.is_below(&self.min_severity) {
                        return false;
                    }
                },
                Err(_) => {
                    if Severity::Info.is_below(&self.min_severity) {
                        return false;
                    }
                },
            },
            None => {
                if str_starts_with(event_type, "monitoring.") {
                    if Severity::Info.is_below(&self.min_severity) {
                        return false;
                    }
                }
            },
        }
        true
    }

    /// Whether the event starts the pipeline: an inactive filter lets everything
    /// through; otherwise the event must pass the type, user, error-code and
    /// severity filters and then be admitted by the rate limiter, if one is set;
    /// a limit of zero for the event's action admits nothing.
    pub fn should_trigger(&self, event: &Event) -> (b: bool)
        ensures
            !self.is_active_view() ==> b,
            b ==> self.decides(
                event.event_type@,
                match event.metadata.user {
                    Some(u) => Some(u@),
                    None => None,
                },
                crate::json::json_str_member(event.data@, "error_code"@),
                crate::json::json_str_member(event.data@, "severity"@),
            ),
            self.limiter_view() is None ==> b == self.decides(
                event.event_type@,
                match event.metadata.user {
                    Some(u) => Some(u@),
                    None => None,
                },
                crate::json::json_str_member(event.data@, "error_code"@),
                crate::json::json_str_member(event.data@, "severity"@),
            ),
            self.is_active_view() ==> (self.limiter_view() matches Some(c) && limit_of(
                c,
                action_for(event.event_type@),
            ) == 0 ==> !b),
            self.is_active_view() ==> (self.limiter_view() matches Some(c) ==> exists|s: WindowState, now: u64|
                b == (#[trigger] filtered_attempt(
                    entries_of(s, action_for(event.event_type@)),
                    self.decides_event(*event),
                    now,
                    window_nanos_of(action_for(event.event_type@)),
                    limit_of(c, action_for(event.event_type@)),
                )).0),
    {
        if !self.active {
            return true;
        }
        let code = json_get_str(event.data.as_str(), "error_code");
        let sev = json_get_str(event.data.as_str(), "severity");
        let user: Option<&str> = match &event.metadata.user {
            Some(u) => Some(u.as_str()),
            None => None,
        };
        let code_ref: Option<&str> = match &code {
            Some(c) => Some(c.as_str()),
            None => None,
        };
        let sev_ref: Option<&str> = match &sev {
            Some(s) => Some(s.as_str()),
            None => None,
        };
        let passes = self.passes(event.event_type.as_str(), user, code_ref, sev_ref);
        match &self.rate_limiter {
            Some(limiter) => {
                let action = Self::event_to_rate_limit_action(event.event_type.as_str());
                let ok = limiter.try_acquire_if(passes, action);
                proof {
                    let c = limiter.config_view();
                    assert(self.limiter_view() == Some(c));
                    assert(passes == self.decides_event(*event));
                    let (s0, n0) = choose|s: WindowState, now: u64| ok == (#[trigger] filtered_attempt(
                        entries_of(s, action),
                        passes,
                        now,
                        window_nanos_of(action),
                        limit_of(c, action),
                    )).0;
                    assert(ok == filtered_attempt(
                        entries_of(s0, action_for(event.event_type@)),
                        self.decides_event(*event),
                        n0,
                        window_nanos_of(action_for(event.event_type@)),
                        limit_of(self.limiter_view()->0, action_for(event.event_type@)),
                    ).0);
                }
                ok
            },
            None => {
                assert(self.limiter_view() is None);
                passes
            },
        }
    }

    pub fn enabled_events(&self) -> (r: &StringSet)
        ensures
            r@ == self.enabled_view(),
    {
        &self.enabled_events
    }

    pub fn allowed_users(&self) -> (r: &StringSet)
        ensures
            r@ == self.allowed_view(),
    {
        &self.allowed_users
    }

    pub fn ignored_error_codes(&self) -> (r: &StringSet)
        ensures
            r@ == self.ignored_view(),
    {
        &self.ignored_error_codes
    }

    pub fn min_severity(&self) -> (r: Severity)
        ensures
            r == self.min_severity_view(),
    {
        self.min_severity
    }

    pub fn is_active(&self) -> (r: bool)
        ensures
            r == self.is_active_view(),
    {
        self.active
    }

    /// The rate-limit bucket of an event type (matched without regard to case).
    pub fn event_to_rate_limit_action(event_type: &str) -> (r: RateLimitAction)
        ensures
            r == action_for(event_type@),
    {
        let lower = to_lower(event_type);
        if str_contains(lower.as_str(), "branch") {
            return RateLimitAction::BranchCreation;
        }
        if str_contains(lower.as_str(), "pull_request") {
            return RateLimitAction::PrCreation;
        }
        if Self::contains_pr_segment(lower.as_str()) {
            return RateLimitAction::PrCreation;
        }
        RateLimitAction::ApiCall
    }

    /// Whether "pr" is a dot-separated segment of the (lower-case) type.
    pub fn contains_pr_segment(event_type: &str) -> (b: bool)
        ensures
            b == has_pr_segment(event_type@),
    {
        str_eq(event_type, "pr") || str_starts_with(event_type, "pr.") || str_ends_with(
            event_type,
            ".pr",
        ) || str_contains(event_type, ".pr.")
    }
}

/// Builds a trigger filter from settings.
pub struct TriggerFilterBuilder {
    filter: TriggerFilter,
}

impl Default for TriggerFilterBuilder {
    fn default() -> Self {
        TriggerFilterBuilder::new()
    }
}

impl TriggerFilterBuilder {
    pub closed spec fn filter_view(&self) -> TriggerFilter {
        self.filter
    }

    pub fn new() -> (r: Self)
        ensures
            r.filter_view().is_active_view(),
            r.filter_view().limiter_view() is None,
            r.filter_view().min_severity_view() == Severity::Warning,
            r.filter_view().enabled_view() == Set::<Seq<char>>::empty(),
            r.filter_view().allowed_view() == Set::<Seq<char>>::empty(),
            r.filter_view().ignored_view() == Set::<Seq<char>>::empty(),
    {
        TriggerFilterBuilder { filter: TriggerFilter::new() }
    }

    /// Applies the settings that are present: comma-separated lists of enabled
    /// event types, allowed users and ignored error codes (items trimmed, empty
    /// ones dropped), and a minimum severity, kept as it was when it does not
    /// name a severity.
    pub fn with_settings(
        self,
        enabled_events: Option<&str>,
        allowed_users: Option<&str>,
        ignored_error_codes: Option<&str>,
        min_severity: Option<&str>,
    ) -> (r: Self)
        ensures
            r.filter_view().enabled_view() == match enabled_events {
                Some(s) => crate::parse::list_items(s@),
                None => self.filter_view().enabled_view(),
            },
            r.filter_view().allowed_view() == match allowed_users {
                Some(s) => crate::parse::list_items(s@),
                None => self.filter_view().allowed_view(),
            },
            r.filter_view().ignored_view() == match ignored_error_codes {
                Some(s) => crate::parse::list_items(s@),
                None => self.filter_view().ignored_view(),
            },
            r.filter_view().min_severity_view() == match min_severity {
                Some(s) => match crate::event::parse_severity(s@) {
                    Some(v) => v,
                    None => self.filter_view().min_severity_view(),
                },
                None => self.filter_view().min_severity_view(),
            },
            r.filter_view().is_active_view() == self.filter_view().is_active_view(),
            r.filter_view().limiter_view() == self.filter_view().limiter_view(),
    {
        let mut f = self.filter;
        match enabled_events {
            Some(s) => {
                f.enabled_events = parse_list(s);
            },
            None => {},
        }
        match allowed_users {
            Some(s) => {
                f.allowed_users = parse_list(s);
            },
            None => {},
        }
        match ignored_error_codes {
            Some(s) => {
                f.ignored_error_codes = parse_list(s);
            },
            None => {},
        }
        match min_severity {
            Some(s) => match Severity::parse(s) {
                Ok(v) => {
                    f.min_severity = v;
                },
                Err(_) => {},
            },
            None => {},
        }
        TriggerFilterBuilder { filter: f }
    }

    pub fn with_rate_limiter(self, rate_limiter: RateLimiter) -> (r: Self)
        ensures
            r.filter_view().limiter_view() == Some(rate_limiter.config_view()),
            r.filter_view().is_active_view() == self.filter_view().is_active_view(),
            r.filter_view().enabled_view() == self.filter_view().enabled_view(),
            r.filter_view().allowed_view() == self.filter_view().allowed_view(),
            r.filter_view().ignored_view() == self.filter_view().ignored_view(),
            r.filter_view().min_severity_view() == self.filter_view().min_severity_view(),
    {
        TriggerFilterBuilder { filter: TriggerFilter { rate_limiter: Some(rate_limiter), ..self.filter } }
    }

    pub fn with_rate_limit_config(self, config: RateLimitConfig) -> (r: Self)
        ensures
            r.filter_view().limiter_view() == Some(config),
            r.filter_view().is_active_view() == self.filter_view().is_active_view(),
            r.filter_view().enabled_view() == self.filter_view().enabled_view(),
            r.filter_view().allowed_view() == self.filter_view().allowed_view(),
            r.filter_view().ignored_view() == self.filter_view().ignored_view(),
            r.filter_view().min_severity_view() == self.filter_view().min_severity_view(),
    {
        self.with_rate_limiter(RateLimiter::new(config))
    }

    /// Rate limiting with the default limits (10 API calls a minute, 20 branches
    /// and 10 pull requests an hour).
    pub fn with_default_rate_limiting(self) -> (r: Self)
        ensures
            r.filter_view().limiter_view() == Some(RateLimitConfig::default_view()),
            r.filter_view().is_active_view() == self.filter_view().is_active_view(),
            r.filter_view().enabled_view() == self.filter_view().enabled_view(),
            r.filter_view().allowed_view() == self.filter_view().allowed_view(),
            r.filter_view().ignored_view() == self.filter_view().ignored_view(),
            r.filter_view().min_severity_view() == self.filter_view().min_severity_view(),
    {
        self.with_rate_limiter(RateLimiter::default())
    }

    /// Rate limiting with limits read from settings; a missing or unreadable
    /// setting falls back to its default (10, 20 and 10).
    pub fn with_rate_limit_settings(
        self,
        api_calls: Option<&str>,
        branch_creations: Option<&str>,
        pr_creations: Option<&str>,
    ) -> (r: Self)
        ensures
            r.filter_view().limiter_view() == Some(
                RateLimitConfig {
                    api_calls_per_minute: setting_or(api_calls, 10),
                    branch_creations_per_hour: setting_or(branch_creations, 20),
                    pr_creations_per_hour: setting_or(pr_creations, 10),
                },
            ),
            r.filter_view().is_active_view() == self.filter_view().is_active_view(),
            r.filter_view().enabled_view() == self.filter_view().enabled_view(),
            r.filter_view().allowed_view() == self.filter_view().allowed_view(),
            r.filter_view().ignored_view() == self.filter_view().ignored_view(),
            r.filter_view().min_severity_view() == self.filter_view().min_severity_view(),
    {
        let a = read_setting(api_calls, 10);
        let b = read_setting(branch_creations, 20);
        let c = read_setting(pr_creations, 10);
        self.with_rate_limit_config(RateLimitConfig::new(a, b, c))
    }

    pub fn build(self) -> (r: TriggerFilter)
        ensures
            r == self.filter_view(),
    {
        self.filter
    }
}

/// A numeric setting, or its default when absent or not a `u32`.
pub open spec fn setting_or(s: Option<&str>, default: u32) -> u32 {
    match s {
        Some(t) => match crate::parse::parse_u32_spec(t@) {
            Some(v) => v,
            None => default,
        },
        None => default,
    }
}

fn read_setting(s: Option<&str>, default: u32) -> (r: u32)
    ensures
        r == setting_or(s, default),
{
    match s {
        Some(t) => match parse_u32(t) {
            Some(v) => v,
            None => default,
        },
        None => default,
    }
}

} // verus!
