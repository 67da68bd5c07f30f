use work_tuimer::cli::report::{doctor_lines, prepare_start, SessionError};
use work_tuimer::storage::StorageDiagnostics;

fn diagnostics(marker: Option<&str>) -> StorageDiagnostics {
    StorageDiagnostics {
        database_path: "/data/work-tuimer.db".to_string(),
        migration_marker: marker.map(|m| m.to_string()),
        days_count: 2,
        work_records_count: 5,
        active_timer_present: false,
        legacy_day_json_files: 1,
        legacy_timer_json_files: 0,
    }
}

#[test]
fn doctor_report_lines() {
    let lines = doctor_lines(&diagnostics(Some("done")));
    assert_eq!(
        lines,
        vec![
            "WorkTimer Doctor",
            "  Database: /data/work-tuimer.db",
            "  Migration marker: done",
            "  Days stored: 2",
            "  Work records: 5",
            "  Active timer: none",
            "  Legacy JSON backups: 1 day files, 0 timer files",
            "  Status: OK (SQLite migration completed)",
        ]
    );
}

#[test]
fn doctor_warns_without_marker() {
    let lines = doctor_lines(&diagnostics(None));
    assert_eq!(lines[2], "  Migration marker: <not-set>");
    assert!(lines[7].starts_with("  Status: WARN"));
}

#[test]
fn start_arguments_are_trimmed() {
    let args = prepare_start("  My Task ", Some(" notes ".to_string()), Some("  ".to_string()), Some(" ACME ".to_string())).unwrap();
    assert_eq!(args.task, "My Task");
    assert_eq!(args.description.as_deref(), Some(" notes "));
    assert_eq!(args.project, None);
    assert_eq!(args.customer.as_deref(), Some("ACME"));
}

#[test]
fn empty_task_name_is_refused() {
    let err = prepare_start(" \t ", None, None, None).unwrap_err();
    assert_eq!(err, SessionError::EmptyTaskName);
    assert_eq!(err.message(), "Task name cannot be empty");
}

use work_tuimer::cli::report::{require_session, session_elapsed_secs, status_lines};
use work_tuimer::date::Date;
use work_tuimer::timer::{DateTime, TimerState, TimerStatus};

fn at(h: u8, m: u8, s: u8) -> DateTime {
    DateTime { date: Date::from_calendar_date(2025, 11, 6).unwrap(), hour: h, minute: m, second: s, nanosecond: 0, offset_seconds: 0 }
}

fn timer(project: Option<&str>, description: Option<&str>) -> TimerState {
    TimerState {
        id: None,
        task_name: "Write report".to_string(),
        description: description.map(|s| s.to_string()),
        project: project.map(|s| s.to_string()),
        customer: None,
        start_time: at(14, 30, 45),
        end_time: None,
        date: Date::from_calendar_date(2025, 11, 6).unwrap(),
        status: TimerStatus::Paused,
        paused_duration_secs: 0,
        paused_at: None,
        created_at: at(14, 30, 45),
        updated_at: at(14, 30, 45),
        source_record_id: None,
        source_record_date: None,
    }
}

#[test]
fn status_without_a_session() {
    assert_eq!(status_lines(&None, 0), vec!["No session is currently running"]);
}

#[test]
fn status_of_a_session() {
    let lines = status_lines(&Some(timer(Some("Platform"), Some("Quarterly"))), 3661);
    assert_eq!(
        lines,
        vec![
            "⏱ Session Status",
            "  Task: Write report",
            "  Status: Paused",
            "  Elapsed: 1h 01m 01s",
            "  Started at: 14:30:45",
            "  Project: Platform",
            "  Description: Quarterly",
        ]
    );
    assert_eq!(status_lines(&Some(timer(None, None)), 45).len(), 5);
}

#[test]
fn stop_pause_resume_need_a_session() {
    let err = require_session(&None).unwrap_err();
    assert_eq!(err, SessionError::NoSessionRunning);
    assert_eq!(err.message(), "No session is running");
    assert!(require_session(&Some(timer(None, None))).is_ok());
}

#[test]
fn elapsed_time_of_sessions() {
    assert_eq!(session_elapsed_secs(TimerStatus::Running, 1000, None, None, 1600, 100), 500);
    assert_eq!(session_elapsed_secs(TimerStatus::Paused, 1000, Some(1300), None, 1600, 100), 200);
    assert_eq!(session_elapsed_secs(TimerStatus::Stopped, 1000, None, Some(1200), 1600, 0), 200);
    assert_eq!(session_elapsed_secs(TimerStatus::Running, 1000, None, None, 900, 0), 0);
}

use work_tuimer::cli::report::timer_elapsed_secs;

#[test]
fn elapsed_time_of_a_stored_timer() {
    let started = 1_762_439_445; // 2025-11-06T14:30:45Z
    let mut t = timer(None, None);
    t.status = TimerStatus::Running;
    assert_eq!(timer_elapsed_secs(&t, started + 3661), 3661);
    t.status = TimerStatus::Paused;
    t.paused_at = Some(at(15, 0, 45));
    t.paused_duration_secs = 60;
    assert_eq!(timer_elapsed_secs(&t, started + 99_999), 1740);
    // The same instant written with a +01:00 offset.
    t.status = TimerStatus::Running;
    t.paused_duration_secs = 0;
    t.start_time = DateTime { offset_seconds: 3600, hour: 15, ..at(15, 30, 45) };
    assert_eq!(timer_elapsed_secs(&t, started + 10), 10);
    assert_eq!(timer_elapsed_secs(&t, started - 10), 0);
}
