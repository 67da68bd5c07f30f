use std::time::Duration;

use work_tuimer::cli::{format_duration, format_time};
use work_tuimer::date::{format_date, parse_date, Date, DateParseError};
use work_tuimer::models::TimePoint;
use work_tuimer::timer::DateTime;

#[test]
fn test_format_duration_hours_minutes_seconds() {
    let duration = Duration::from_secs(3661); // 1h 1m 1s
    assert_eq!(format_duration(duration.as_secs()), "1h 01m 01s");
}

#[test]
fn test_format_duration_minutes_seconds() {
    let duration = Duration::from_secs(125); // 2m 5s
    assert_eq!(format_duration(duration.as_secs()), "2m 05s");
}

#[test]
fn test_format_duration_seconds_only() {
    let duration = Duration::from_secs(45);
    assert_eq!(format_duration(duration.as_secs()), "0m 45s");
}

#[test]
fn test_format_duration_zero() {
    let duration = Duration::from_secs(0);
    assert_eq!(format_duration(duration.as_secs()), "0m 00s");
}

#[test]
fn test_format_time() {
    let dt = DateTime {
        date: Date::from_calendar_date(2025, 1, 15).unwrap(),
        hour: 14,
        minute: 30,
        second: 45,
        nanosecond: 0,
        offset_seconds: 0,
    };
    assert_eq!(format_time(&dt), "14:30:45");
}

#[test]
fn format_duration_long_sessions() {
    assert_eq!(format_duration(3600), "1h 00m 00s");
    assert_eq!(format_duration(3599), "59m 59s");
    assert_eq!(format_duration(90061), "25h 01m 01s");
}

#[test]
fn parse_date_reads_calendar_dates() {
    let d = parse_date("2025-11-06").unwrap();
    assert_eq!(d, Date { year: 2025, month: 11, day: 6 });
    assert_eq!(format_date(&d), "2025-11-06");
    let leap = parse_date("2024-02-29").unwrap();
    assert_eq!(leap, Date { year: 2024, month: 2, day: 29 });
}

#[test]
fn parse_date_refuses_other_texts() {
    for text in ["2025-02-29", "2025-13-01", "2025-11-6", "not a date", "", "2025-11-06T00:00"] {
        let err = parse_date(text).unwrap_err();
        assert_eq!(err, DateParseError { text: text.to_string() });
    }
    assert_eq!(parse_date("x").unwrap_err().message(), "Invalid date: 'x'. Expected YYYY-MM-DD");
}

#[test]
fn date_text_round_trip_on_values() {
    for (y, m, d) in [(1, 1, 1), (999, 12, 31), (2000, 2, 29), (9999, 12, 31)] {
        let date = Date::from_calendar_date(y, m, d).unwrap();
        let text = format_date(&date);
        assert_eq!(parse_date(&text).unwrap(), date);
    }
    assert_eq!(format_date(&Date { year: 7, month: 3, day: 4 }), "0007-03-04");
}

#[test]
fn from_calendar_date_checks_the_calendar() {
    assert!(Date::from_calendar_date(2023, 2, 29).is_none());
    assert!(Date::from_calendar_date(2025, 4, 31).is_none());
    assert!(Date::from_calendar_date(2025, 0, 1).is_none());
    assert!(Date::from_calendar_date(1900, 2, 29).is_none());
    assert!(Date::from_calendar_date(2000, 2, 29).is_some());
}

#[test]
fn previous_day_crosses_months_and_years() {
    let d = Date::from_calendar_date(2025, 3, 1).unwrap();
    assert_eq!(d.previous_day().unwrap(), Date { year: 2025, month: 2, day: 28 });
    let d = Date::from_calendar_date(2025, 1, 1).unwrap();
    assert_eq!(d.previous_day().unwrap(), Date { year: 2024, month: 12, day: 31 });
    let d = Date::from_calendar_date(2024, 3, 1).unwrap();
    assert_eq!(d.previous_day().unwrap(), Date { year: 2024, month: 2, day: 29 });
}

#[test]
fn dates_compare_in_calendar_order() {
    let a = parse_date("2025-11-01").unwrap();
    let b = parse_date("2025-11-10").unwrap();
    assert!(a.is_on_or_before(&b));
    assert!(!b.is_on_or_before(&a));
    assert!(a.is_on_or_before(&a));
}

#[test]
fn time_points_render_and_convert() {
    let t = TimePoint::new(9, 5).unwrap();
    assert_eq!(t.text(), "09:05");
    assert_eq!(t.to_minutes_since_midnight(), 545);
    assert_eq!(TimePoint::from_minutes_since_midnight(545).unwrap(), t);
    assert!(TimePoint::new(24, 0).is_none());
    assert!(TimePoint::new(23, 60).is_none());
    assert!(TimePoint::from_minutes_since_midnight(1440).is_none());
}

#[test]
fn signed_years_read_back() {
    assert_eq!(parse_date("+2025-11-06").unwrap(), Date { year: 2025, month: 11, day: 6 });
    assert_eq!(parse_date("-1000-03-01").unwrap(), Date { year: -1000, month: 3, day: 1 });
    let d = Date::from_calendar_date(-4713, 11, 24).unwrap();
    assert_eq!(format_date(&d), "-4713-11-24");
    assert_eq!(parse_date(&format_date(&d)).unwrap(), d);
    // Years -999..=-1 are written with three digits and do not read back.
    let short = Date::from_calendar_date(-5, 1, 1).unwrap();
    assert_eq!(format_date(&short), "-005-01-01");
    assert!(parse_date(&format_date(&short)).is_err());
}
