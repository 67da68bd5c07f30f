//! The running-timer record and the instants it holds.

use vstd::prelude::*;
use crate::date::{Date, lemma_pad2, spec_format_date};
use crate::digits::{digit_char, padded_decimal};

verus! {

/// An instant as a local calendar reading plus its offset from UTC.
#[derive(Clone, Copy, Debug, PartialEq, Eq, Structural)]
pub struct DateTime {
    pub date: Date,
    pub hour: u8,
    pub minute: u8,
    pub second: u8,
    pub nanosecond: u32,
    /// Offset from UTC in seconds (east positive).
    pub offset_seconds: i32,
}

impl DateTime {
    pub open spec fn wf(self) -> bool {
        &&& self.date.wf()
        &&& self.hour < 24
        &&& self.minute < 60
        &&& self.second < 60
        &&& self.nanosecond < 1_000_000_000
        &&& -93599 <= self.offset_seconds <= 93599
    }

    pub open spec fn parts(self) -> (i32, u8, u8, u8, u8, u8, u32, i32) {
        (self.date.year, self.date.month, self.date.day, self.hour, self.minute, self.second,
            self.nanosecond, self.offset_seconds)
    }
}

pub open spec fn datetime_from_parts(p: (i32, u8, u8, u8, u8, u8, u32, i32)) -> DateTime {
    DateTime {
        date: Date { year: p.0, month: p.1, day: p.2 },
        hour: p.3,
        minute: p.4,
        second: p.5,
        nanosecond: p.6,
        offset_seconds: p.7,
    }
}

/// What `time::OffsetDateTime::parse(text, &Rfc3339)` returns, read back as
/// (year, month, day, hour, minute, second, nanosecond, offset seconds).
pub uninterp spec fn rfc3339_parse_result(text: Seq<char>) -> Option<(i32, u8, u8, u8, u8, u8, u32, i32)>;

/// `s` without its trailing `'0'` characters.
pub open spec fn drop_trailing_zeros(s: Seq<char>) -> Seq<char>
    decreases s.len(),
{
    if s.len() > 0 && s.last() == '0' {
        drop_trailing_zeros(s.drop_last())
    } else {
        s
    }
}

/// The size of the offset from UTC, in seconds.
pub open spec fn offset_size(dt: DateTime) -> int {
    if dt.offset_seconds < 0 { -dt.offset_seconds } else { dt.offset_seconds as int }
}

/// RFC 3339 renders an instant whose year is in 0..=9999 and whose offset is a whole number
/// of minutes under a day.
pub open spec fn rfc3339_renderable(dt: DateTime) -> bool {
    &&& 0 <= dt.date.year <= 9999
    &&& dt.offset_seconds % 60 == 0
    &&& offset_size(dt) < 86400
}

/// The RFC 3339 text of an instant: `YYYY-MM-DDTHH:MM:SS`, then `.` and the nanoseconds as
/// nine digits without trailing zeros when there are any, then `Z` for UTC or the offset as
/// `+HH:MM` / `-HH:MM`.
pub open spec fn spec_rfc3339_text(dt: DateTime) -> Seq<char> {
    spec_format_date(dt.date) + seq!['T'] + spec_clock_text(dt) + (if dt.nanosecond == 0 {
        Seq::<char>::empty()
    } else {
        seq!['.'] + drop_trailing_zeros(padded_decimal(dt.nanosecond as nat, 9))
    }) + (if dt.offset_seconds == 0 {
        seq!['Z']
    } else {
        seq![if dt.offset_seconds < 0 { '-' } else { '+' }] + padded_decimal((offset_size(dt) / 3600) as nat, 2)
            + seq![':'] + padded_decimal(((offset_size(dt) / 60) % 60) as nat, 2)
    })
}

/// The RFC 3339 text of an instant, if it has one.
pub open spec fn spec_rfc3339(dt: DateTime) -> Option<Seq<char>> {
    if rfc3339_renderable(dt) {
        Some(spec_rfc3339_text(dt))
    } else {
        None
    }
}

/// Calls `time::OffsetDateTime::parse(text, &Rfc3339)` and reads the parts of the result.
/// Claimed: the result is the named one, and a returned instant has valid parts (as every
/// `OffsetDateTime` has). Left unsaid: which texts RFC 3339 parsing accepts.
#[verifier::external_body]
pub(crate) fn parse_rfc3339(text: &str) -> (res: Option<DateTime>)
    ensures
        res == (match rfc3339_parse_result(text@) {
            Some(p) => Some(datetime_from_parts(p)),
            None => None,
        }),
        res matches Some(dt) ==> dt.wf(),
{
    match time::OffsetDateTime::parse(text, &time::format_description::well_known::Rfc3339) {
        Ok(v) => Some(DateTime {
            date: Date { year: v.year(), month: u8::from(v.month()), day: v.day() },
            hour: v.hour(),
            minute: v.minute(),
            second: v.second(),
            nanosecond: v.nanosecond(),
            offset_seconds: v.offset().whole_seconds(),
        }),
        Err(_) => None,
    }
}

/// Builds the `OffsetDateTime` with the parts of `dt` and calls its `format(&Rfc3339)`.
/// Claimed, as the crate's formatter and parser show: it renders exactly the instants of
/// `rfc3339_renderable` (years outside 0..=9999, offset hours above 23 and offsets with
/// seconds are refused), the text is the layout of `spec_rfc3339_text`, and RFC 3339 parsing
/// reads that text back as the same parts.
#[verifier::external_body]
pub(crate) fn format_rfc3339(dt: &DateTime) -> (res: Option<String>)
    requires
        dt.wf(),
    ensures
        res is Some <==> rfc3339_renderable(*dt),
        res matches Some(s) ==> s@ == spec_rfc3339_text(*dt) && rfc3339_parse_result(s@) == Some(dt.parts()),
{
    let Ok(month) = time::Month::try_from(dt.date.month) else { return None; };
    let Ok(date) = time::Date::from_calendar_date(dt.date.year, month, dt.date.day) else { return None; };
    let Ok(clock) = time::Time::from_hms_nano(dt.hour, dt.minute, dt.second, dt.nanosecond) else { return None; };
    let Ok(offset) = time::UtcOffset::from_whole_seconds(dt.offset_seconds) else { return None; };
    date.with_time(clock).assume_offset(offset).format(&time::format_description::well_known::Rfc3339).ok()
}

/// The days from 0001-01-01 to January 1 of year `y` in the proleptic Gregorian calendar
/// (negative before year 1).
pub open spec fn days_before_year(y: int) -> int {
    let p = y - 1;
    365 * p + p / 4 - p / 100 + p / 400
}

/// The days of year `y` before the first of month `m`.
pub open spec fn days_before_month(y: int, m: int) -> int
    decreases m,
{
    if m <= 1 {
        0
    } else {
        days_before_month(y, m - 1) + crate::date::days_in_month(y, m - 1)
    }
}

/// The days from 1970-01-01 to `d`.
pub open spec fn epoch_day(d: Date) -> int {
    days_before_year(d.year as int) + days_before_month(d.year as int, d.month as int) + d.day - 1
        - days_before_year(1970)
}

/// The seconds from 1970-01-01T00:00:00Z to the instant (its whole seconds).
pub open spec fn spec_unix_seconds(dt: DateTime) -> int {
    epoch_day(dt.date) * 86400 + dt.hour * 3600 + dt.minute * 60 + dt.second - dt.offset_seconds
}

proof fn lemma_days_before_month_bounds(y: int, m: int)
    requires
        1 <= m <= 13,
    ensures
        0 <= days_before_month(y, m) <= 31 * (m - 1),
    decreases m,
{
    if m > 1 {
        lemma_days_before_month_bounds(y, m - 1);
    }
}

/// The seconds of a valid instant lie well within `i64`.
pub proof fn lemma_unix_seconds_bounds(dt: DateTime)
    requires
        dt.wf(),
    ensures
        -1_000_000_000_000 < spec_unix_seconds(dt) < 1_000_000_000_000,
{
    lemma_days_before_month_bounds(dt.date.year as int, dt.date.month as int);
    let p = dt.date.year - 1;
    assert(-10000 <= p <= 9998);
    assert(-2500 <= p / 4 <= 2500);
    assert(-100 <= p / 100 <= 100);
    assert(-25 <= p / 400 <= 25);
    let e = epoch_day(dt.date);
    assert(-5_000_000 <= e <= 5_000_000);
    assert(-500_000_000_000 <= e * 86400 <= 500_000_000_000) by (nonlinear_arith)
        requires -5_000_000 <= e <= 5_000_000;
}

/// Builds the `OffsetDateTime` with the parts of `dt` and calls its `unix_timestamp()`.
/// Claimed, as the crate's source shows (whole days since the Unix epoch's Julian day times
/// 86400, plus the clock reading, less the offset): the seconds of `spec_unix_seconds`. The
/// value can always be built from a valid `dt`, so a result is always there.
#[verifier::external_body]
pub(crate) fn unix_timestamp(dt: &DateTime) -> (res: Option<i64>)
    requires
        dt.wf(),
    ensures
        res == Some(spec_unix_seconds(*dt) as i64),
{
    let Ok(month) = time::Month::try_from(dt.date.month) else { return None; };
    let Ok(date) = time::Date::from_calendar_date(dt.date.year, month, dt.date.day) else { return None; };
    let Ok(clock) = time::Time::from_hms_nano(dt.hour, dt.minute, dt.second, dt.nanosecond) else { return None; };
    let Ok(offset) = time::UtcOffset::from_whole_seconds(dt.offset_seconds) else { return None; };
    Some(date.with_time(clock).assume_offset(offset).unix_timestamp())
}

/// `HH:MM:SS` of an instant's local clock reading.
pub open spec fn spec_clock_text(dt: DateTime) -> Seq<char> {
    padded_decimal(dt.hour as nat, 2) + seq![':'] + padded_decimal(dt.minute as nat, 2) + seq![':']
        + padded_decimal(dt.second as nat, 2)
}

/// An instant's clock reading is `HH:MM:SS`: hour, minute and second in two digits each.
pub proof fn law_clock_text_digits(dt: DateTime)
    requires
        dt.wf(),
    ensures
        spec_clock_text(dt) == seq![
            digit_char((dt.hour / 10) as int),
            digit_char((dt.hour % 10) as int),
            ':',
            digit_char((dt.minute / 10) as int),
            digit_char((dt.minute % 10) as int),
            ':',
            digit_char((dt.second / 10) as int),
            digit_char((dt.second % 10) as int),
        ],
{
    lemma_pad2(dt.hour as nat);
    lemma_pad2(dt.minute as nat);
    lemma_pad2(dt.second as nat);
    assert(spec_clock_text(dt) =~= seq![
        digit_char((dt.hour / 10) as int),
        digit_char((dt.hour % 10) as int),
        ':',
        digit_char((dt.minute / 10) as int),
        digit_char((dt.minute % 10) as int),
        ':',
        digit_char((dt.second / 10) as int),
        digit_char((dt.second % 10) as int),
    ]);
}

#[derive(Clone, Copy, Debug, PartialEq, Eq, Structural)]
pub enum TimerStatus {
    Running,
    Paused,
    Stopped,
}

/// The one active timer session.
#[derive(Debug)]
pub struct TimerState {
    pub id: Option<u32>,
    pub task_name: String,
    pub description: Option<String>,
    pub project: Option<String>,
    pub customer: Option<String>,
    pub start_time: DateTime,
    pub end_time: Option<DateTime>,
    pub date: Date,
    pub status: TimerStatus,
    pub paused_duration_secs: i64,
    pub paused_at: Option<DateTime>,
    pub created_at: DateTime,
    pub updated_at: DateTime,
    pub source_record_id: Option<u32>,
    pub source_record_date: Option<Date>,
}

pub open spec fn opt_text(s: Option<String>) -> Option<Seq<char>> {
    match s {
        Some(v) => Some(v@),
        None => None,
    }
}

pub struct TimerView {
    pub id: Option<u32>,
    pub task_name: Seq<char>,
    pub description: Option<Seq<char>>,
    pub project: Option<Seq<char>>,
    pub customer: Option<Seq<char>>,
    pub start_time: DateTime,
    pub end_time: Option<DateTime>,
    pub date: Date,
    pub status: TimerStatus,
    pub paused_duration_secs: i64,
    pub paused_at: Option<DateTime>,
    pub created_at: DateTime,
    pub updated_at: DateTime,
    pub source_record_id: Option<u32>,
    pub source_record_date: Option<Date>,
}

impl View for TimerState {
    type V = TimerView;

    open spec fn view(&self) -> TimerView {
        TimerView {
            id: self.id,
            task_name: self.task_name@,
            description: opt_text(self.description),
            project: opt_text(self.project),
            customer: opt_text(self.customer),
            start_time: self.start_time,
            end_time: self.end_time,
            date: self.date,
            status: self.status,
            paused_duration_secs: self.paused_duration_secs,
            paused_at: self.paused_at,
            created_at: self.created_at,
            updated_at: self.updated_at,
            source_record_id: self.source_record_id,
            source_record_date: self.source_record_date,
        }
    }
}

pub open spec fn opt_dt_wf(d: Option<DateTime>) -> bool {
    match d {
        Some(v) => v.wf(),
        None => true,
    }
}

pub open spec fn opt_date_wf(d: Option<Date>) -> bool {
    match d {
        Some(v) => v.wf(),
        None => true,
    }
}

impl TimerView {
    /// Every instant and date in the timer is valid.
    pub open spec fn wf(self) -> bool {
        &&& self.start_time.wf()
        &&& opt_dt_wf(self.end_time)
        &&& self.date.wf()
        &&& opt_dt_wf(self.paused_at)
        &&& self.created_at.wf()
        &&& self.updated_at.wf()
        &&& opt_date_wf(self.source_record_date)
    }
}

} // verus!
