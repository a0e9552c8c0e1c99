//! Dates and clock times of a scheduled retrospect: reading them from text,
//! and refusing those that are not in the future.
use vstd::prelude::*;
use chrono::{Datelike, Timelike};
use crate::error::{AppError, ErrorKind};
use crate::retrospect::RetrospectService;
use crate::text::owned;

verus! {

/// A day of the calendar.
#[derive(Debug, Clone, Copy, PartialEq, Eq, Structural)]
pub struct CalendarDate {
    pub year: i32,
    pub month: u32,
    pub day: u32,
}

/// A minute of the day.
#[derive(Debug, Clone, Copy, PartialEq, Eq, Structural)]
pub struct ClockTime {
    pub hour: u32,
    pub minute: u32,
}

/// A moment, down to the nanosecond (a leap second shows as 1e9 or more).
#[derive(Debug, Clone, Copy, PartialEq, Eq, Structural)]
pub struct Moment {
    pub date: CalendarDate,
    pub hour: u32,
    pub minute: u32,
    pub second: u32,
    pub nanosecond: u32,
}

/// Whether the fields lie in their ranges.
pub open spec fn date_in_range(d: CalendarDate) -> bool {
    1 <= d.month <= 12 && 1 <= d.day <= 31
}

pub open spec fn time_in_range(t: ClockTime) -> bool {
    t.hour < 24 && t.minute < 60
}

/// Whether day `a` comes before day `b`.
pub open spec fn date_before(a: CalendarDate, b: CalendarDate) -> bool {
    a.year < b.year || (a.year == b.year && (a.month < b.month || (a.month == b.month && a.day < b.day)))
}

/// Whether the start of minute `t` of day `d` is at or before moment `m`.
pub open spec fn not_after(d: CalendarDate, t: ClockTime, m: Moment) -> bool {
    date_before(d, m.date) || (d == m.date && (t.hour < m.hour || (t.hour == m.hour && t.minute <= m.minute)))
}

/// The day `chrono` reads from text in the `%Y-%m-%d` format, as
/// (year, month, day); `None` where it refuses the text.
pub uninterp spec fn chrono_ymd_date(s: Seq<char>) -> Option<(int, int, int)>;

/// The time `chrono` reads from text in the `%H:%M` format, as
/// (hour, minute); `None` where it refuses the text.
pub uninterp spec fn chrono_hm_time(s: Seq<char>) -> Option<(int, int)>;

pub open spec fn date_fields(d: Option<CalendarDate>) -> Option<(int, int, int)> {
    match d {
        Some(d) => Some((d.year as int, d.month as int, d.day as int)),
        None => None,
    }
}

pub open spec fn time_fields(t: Option<ClockTime>) -> Option<(int, int)> {
    match t {
        Some(t) => Some((t.hour as int, t.minute as int)),
        None => None,
    }
}

/// Reads a day with `chrono::NaiveDate::parse_from_str` and the format
/// `%Y-%m-%d`. The result is named `chrono_ymd_date`; chrono builds only
/// existing days, so month and day lie in their ranges.
#[verifier::external_body]
pub(crate) fn parse_ymd(s: &str) -> (r: Option<CalendarDate>)
    ensures
        date_fields(r) == chrono_ymd_date(s@),
        r matches Some(d) ==> date_in_range(d),
{
    match chrono::NaiveDate::parse_from_str(s, "%Y-%m-%d") {
        Ok(d) => Some(CalendarDate { year: d.year(), month: d.month(), day: d.day() }),
        Err(_) => None,
    }
}

/// Reads a time with `chrono::NaiveTime::parse_from_str` and the format
/// `%H:%M`. The result is named `chrono_hm_time`; chrono refuses hours past
/// 23 and minutes past 59.
#[verifier::external_body]
fn parse_hm(s: &str) -> (r: Option<ClockTime>)
    ensures
        time_fields(r) == chrono_hm_time(s@),
        r matches Some(t) ==> time_in_range(t),
{
    match chrono::NaiveTime::parse_from_str(s, "%H:%M") {
        Ok(t) => Some(ClockTime { hour: t.hour(), minute: t.minute() }),
        Err(_) => None,
    }
}

/// Today's date in UTC, from `chrono::Utc::now`. It depends on the clock, so
/// only the ranges of its fields are stated.
#[verifier::external_body]
fn today_utc() -> (r: CalendarDate)
    ensures
        date_in_range(r),
{
    let d = chrono::Utc::now().date_naive();
    CalendarDate { year: d.year(), month: d.month(), day: d.day() }
}

/// The present instant from `chrono::Utc::now`, as whole seconds after the
/// Unix epoch (`timestamp`) and the nanoseconds past that second
/// (`timestamp_subsec_nanos`). It depends on the clock: nothing is stated of it.
#[verifier::external_body]
fn now_utc_instant() -> (r: (i64, u32)) {
    let n = chrono::Utc::now();
    (n.timestamp(), n.timestamp_subsec_nanos())
}

/// The date and time of day `chrono` gives for an instant (seconds after the
/// Unix epoch and nanoseconds), read in UTC; `None` where chrono has no such
/// instant.
pub uninterp spec fn chrono_naive_moment(secs: int, nanos: int) -> Option<Moment>;

/// Reads an instant with `chrono::DateTime::from_timestamp`, then the fields of
/// its `naive_utc()`. The result is named `chrono_naive_moment`; chrono's
/// month, day, hour, minute and second lie in their ranges (a leap second
/// shows in the nanoseconds).
#[verifier::external_body]
fn naive_moment(secs: i64, nanos: u32) -> (r: Option<Moment>)
    ensures
        r == chrono_naive_moment(secs as int, nanos as int),
        r matches Some(m) ==> date_in_range(m.date) && m.hour < 24 && m.minute < 60 && m.second < 60,
{
    match chrono::DateTime::from_timestamp(secs, nanos) {
        Some(t) => {
            let n = t.naive_utc();
            Some(Moment {
                date: CalendarDate { year: n.year(), month: n.month(), day: n.day() },
                hour: n.hour(),
                minute: n.minute(),
                second: n.second(),
                nanosecond: n.nanosecond(),
            })
        },
        None => None,
    }
}

/// The moment in Korean time of an instant given in UTC: the date and time
/// `chrono` gives nine hours on; `None` past the largest instant.
pub open spec fn kst_moment_of(utc_secs: int, nanos: int) -> Option<Moment> {
    if utc_secs + KST_OFFSET_SECS <= i64::MAX {
        chrono_naive_moment(utc_secs + KST_OFFSET_SECS, nanos)
    } else {
        None
    }
}

/// The moment in Korean time (UTC plus nine hours) of an instant.
pub fn kst_moment(utc_secs: i64, nanos: u32) -> (r: Option<Moment>)
    ensures
        r == kst_moment_of(utc_secs as int, nanos as int),
        r matches Some(m) ==> date_in_range(m.date) && m.hour < 24 && m.minute < 60 && m.second < 60,
{
    match utc_secs.checked_add(KST_OFFSET_SECS) {
        Some(t) => naive_moment(t, nanos),
        None => None,
    }
}

pub open spec fn bad_date_format_message() -> Seq<char> {
    "날짜 형식이 올바르지 않습니다. (YYYY-MM-DD 형식 필요)"@
}

pub open spec fn past_date_message() -> Seq<char> {
    "회고 날짜는 오늘 이후만 허용됩니다."@
}

pub open spec fn bad_time_format_message() -> Seq<char> {
    "시간 형식이 올바르지 않습니다. (HH:mm 형식 필요)"@
}

pub open spec fn not_future_message() -> Seq<char> {
    "회고 날짜와 시간은 현재보다 미래여야 합니다."@
}

/// Accepts a read day unless it is missing or before `today`.
pub fn check_date(parsed: Option<CalendarDate>, today: CalendarDate) -> (r: Result<CalendarDate, AppError>)
    ensures
        match parsed {
            None => r matches Err(e) && e@ == (ErrorKind::BadRequest, bad_date_format_message()),
            Some(d) => if date_before(d, today) {
                r matches Err(e) && e@ == (ErrorKind::BadRequest, past_date_message())
            } else {
                r == Ok::<CalendarDate, AppError>(d)
            },
        },
{
    match parsed {
        None => Err(AppError::BadRequest(owned("날짜 형식이 올바르지 않습니다. (YYYY-MM-DD 형식 필요)"))),
        Some(d) => {
            if d.year < today.year || (d.year == today.year && (d.month < today.month
                || (d.month == today.month && d.day < today.day))) {
                Err(AppError::BadRequest(owned("회고 날짜는 오늘 이후만 허용됩니다.")))
            } else {
                Ok(d)
            }
        },
    }
}

pub open spec fn clock_unreadable_message() -> Seq<char> {
    "현재 시각을 읽을 수 없습니다."@
}

/// The outcome owed for a start at the moment `now`, if there is one: refused
/// when the start is not after it, accepted otherwise.
pub open spec fn future_outcome(date: CalendarDate, time: ClockTime, now: Option<Moment>) -> Result<(), (ErrorKind, Seq<char>)> {
    match now {
        Some(m) => if not_after(date, time, m) {
            Err((ErrorKind::BadRequest, not_future_message()))
        } else {
            Ok(())
        },
        None => Err((ErrorKind::InternalError, clock_unreadable_message())),
    }
}

/// Accepts a start unless it is at or before the moment `now`.
pub fn check_future(date: CalendarDate, time: ClockTime, now: Moment) -> (r: Result<(), AppError>)
    ensures
        if not_after(date, time, now) {
            r matches Err(e) && e@ == (ErrorKind::BadRequest, not_future_message())
        } else {
            r is Ok
        },
{
    let d = date;
    let m = now.date;
    let before = d.year < m.year || (d.year == m.year && (d.month < m.month || (d.month == m.month && d.day < m.day)));
    let same = d.year == m.year && d.month == m.month && d.day == m.day;
    if before || (same && (time.hour < now.hour || (time.hour == now.hour && time.minute <= now.minute))) {
        Err(AppError::BadRequest(owned("회고 날짜와 시간은 현재보다 미래여야 합니다.")))
    } else {
        Ok(())
    }
}

impl RetrospectService {
    /// Reads the day of a new retrospect, which must be today or later (UTC).
    pub fn validate_and_parse_date(date_str: &str) -> (r: Result<CalendarDate, AppError>)
        ensures
            chrono_ymd_date(date_str@) is None ==> (r matches Err(e) && e@ == (ErrorKind::BadRequest, bad_date_format_message())),
            chrono_ymd_date(date_str@) is Some ==> match r {
                Ok(d) => date_fields(Some(d)) == chrono_ymd_date(date_str@),
                Err(e) => e@ == (ErrorKind::BadRequest, past_date_message()),
            },
    {
        let parsed = parse_ymd(date_str);
        let today = today_utc();
        check_date(parsed, today)
    }

    /// Reads the time of a new retrospect.
    pub fn validate_and_parse_time(time_str: &str) -> (r: Result<ClockTime, AppError>)
        ensures
            match r {
                Ok(t) => time_fields(Some(t)) == chrono_hm_time(time_str@) && time_in_range(t),
                Err(e) => chrono_hm_time(time_str@) is None && e@ == (ErrorKind::BadRequest, bad_time_format_message()),
            },
    {
        match parse_hm(time_str) {
            Some(t) => Ok(t),
            None => Err(AppError::BadRequest(owned("시간 형식이 올바르지 않습니다. (HH:mm 형식 필요)"))),
        }
    }

    /// Refuses a start that is not after the present moment in Korean time: the
    /// outcome of `check_future` at the Korean-time moment of the clock's
    /// reading. Where that reading has no Korean-time moment (past the largest
    /// instant) the clock is reported unreadable.
    pub fn validate_future_datetime(date: CalendarDate, time: ClockTime) -> (r: Result<(), AppError>)
        ensures
            exists|s: i64, n: u32| crate::error::result_view(r) == #[trigger] future_outcome(
                date,
                time,
                kst_moment_of(s as int, n as int),
            ),
    {
        let (s, n) = now_utc_instant();
        let r = match kst_moment(s, n) {
            Some(now) => check_future(date, time, now),
            None => Err(AppError::InternalError(owned("현재 시각을 읽을 수 없습니다."))),
        };
        assert(crate::error::result_view(r) == future_outcome(date, time, kst_moment_of(s as int, n as int)));
        r
    }
}

/// The patterns the library formats instants with.
pub open spec fn known_pattern(p: Seq<char>) -> bool {
    p == "%Y-%m-%d"@ || p == "%Y"@ || p == "%H:%M"@ || p == "%Y-%m-%d %H:%M"@
}

/// The text `chrono` writes with a pattern for the instant `secs` seconds
/// after the Unix epoch, read as a naive date and time (no zone applied).
pub uninterp spec fn chrono_naive_text(secs: int, pattern: Seq<char>) -> Seq<char>;

/// Formats an instant with `chrono` (`DateTime::from_timestamp`, then
/// `naive_utc().format(pattern)`); the result is named `chrono_naive_text`.
/// Outside chrono's range the text is empty.
#[verifier::external_body]
pub(crate) fn naive_text(secs: i64, pattern: &str) -> (r: String)
    requires
        known_pattern(pattern@),
    ensures
        r@ == chrono_naive_text(secs as int, pattern@),
{
    match chrono::DateTime::from_timestamp(secs, 0) {
        Some(t) => t.naive_utc().format(pattern).to_string(),
        None => String::new(),
    }
}

/// Seconds in the nine hours Korean time runs ahead of UTC.
pub const KST_OFFSET_SECS: i64 = 32400;

/// The text of an instant in Korean time: `chrono_naive_text` nine hours on,
/// and empty where that is past the largest instant.
pub open spec fn kst_text(secs: int, pattern: Seq<char>) -> Seq<char> {
    if secs + KST_OFFSET_SECS <= i64::MAX {
        chrono_naive_text(secs + KST_OFFSET_SECS, pattern)
    } else {
        Seq::empty()
    }
}

/// Formats an instant in Korean time.
pub fn kst_format(secs: i64, pattern: &str) -> (r: String)
    requires
        known_pattern(pattern@),
    ensures
        r@ == kst_text(secs as int, pattern@),
{
    match secs.checked_add(KST_OFFSET_SECS) {
        Some(t) => naive_text(t, pattern),
        None => {
            proof {
                reveal_strlit("");
            }
            owned("")
        },
    }
}

} // verus!
