use work_tuimer::date::{parse_date, Date};
use work_tuimer::models::{DayData, TimePoint, WorkRecord};
use work_tuimer::storage::row::{
    i64_to_u32, i64_to_u64, parse_timer_status, timer_status_to_str, SqlStatement, SqlValue, StorageError,
};
use work_tuimer::storage::sql::{
    DELETE_ACTIVE_TIMER, DELETE_DAY_RECORDS, INSERT_DAY_META, INSERT_WORK_RECORD, UPDATE_DAY_META_IMPORT,
    UPDATE_DAY_META_SAVE, UPSERT_ACTIVE_TIMER, UPSERT_META_VALUE,
};
use work_tuimer::storage::tracker::StorageManager;
use work_tuimer::storage::{
    count_legacy_json_files, legacy_day_candidates, legacy_day_file_date, legacy_timer_file, Storage,
};
use work_tuimer::timer::{DateTime, TimerState, TimerStatus};

fn date(text: &str) -> Date {
    parse_date(text).unwrap()
}

fn record(id: u32, name: &str, start: (u8, u8), end: (u8, u8)) -> WorkRecord {
    WorkRecord::new(
        id,
        name.to_string(),
        TimePoint::new(start.0, start.1).unwrap(),
        TimePoint::new(end.0, end.1).unwrap(),
    )
}

fn storage() -> Storage {
    Storage::new("/tmp/work-tuimer-test/work-tuimer.db".to_string())
}

/// What the tables hold for a day after its save statements ran on an empty database.
fn stored(statements: &[SqlStatement]) -> (Option<Vec<SqlValue>>, Vec<Vec<SqlValue>>) {
    let mut meta = None;
    let mut rows = Vec::new();
    for st in statements {
        if st.sql == INSERT_WORK_RECORD {
            rows.push(st.params[1..].iter().map(copy_value).collect());
        } else if st.sql == UPDATE_DAY_META_SAVE || st.sql == UPDATE_DAY_META_IMPORT {
            meta = Some(vec![copy_value(&st.params[0])]);
        }
    }
    (meta, rows)
}

fn copy_value(v: &SqlValue) -> SqlValue {
    match v {
        SqlValue::Null => SqlValue::Null,
        SqlValue::Integer(i) => SqlValue::Integer(*i),
        SqlValue::Text(t) => SqlValue::Text(t.clone()),
        SqlValue::Other => SqlValue::Other,
    }
}

fn sample_day() -> DayData {
    let mut day = DayData::new(date("2025-11-06"));
    let mut coding = record(1, "Coding", (9, 0), (11, 30));
    coding.project = "Platform".to_string();
    coding.customer = "ACME".to_string();
    coding.description = "Focused, deep work".to_string();
    day.add_record(coding);
    day.add_record(record(2, "Meeting", (11, 30), (12, 0)));
    day
}

fn instant(y: i32, mo: u8, d: u8, h: u8, mi: u8, s: u8) -> DateTime {
    DateTime { date: Date::from_calendar_date(y, mo, d).unwrap(), hour: h, minute: mi, second: s, nanosecond: 0, offset_seconds: 0 }
}

fn sample_timer() -> TimerState {
    TimerState {
        id: None,
        task_name: "Test Timer".to_string(),
        description: Some("Timer persisted in SQLite".to_string()),
        project: Some("Platform".to_string()),
        customer: Some("ACME".to_string()),
        start_time: instant(2025, 11, 6, 9, 0, 0),
        end_time: None,
        date: date("2025-11-06"),
        status: TimerStatus::Running,
        paused_duration_secs: 0,
        paused_at: None,
        created_at: instant(2025, 11, 6, 9, 0, 0),
        updated_at: instant(2025, 11, 6, 9, 0, 5),
        source_record_id: Some(3),
        source_record_date: Some(date("2025-11-05")),
    }
}

#[test]
fn save_statements_in_order() {
    let day = sample_day();
    let st = storage().save(&day);
    let sqls: Vec<&str> = st.iter().map(|s| s.sql.as_str()).collect();
    assert_eq!(sqls, vec![INSERT_DAY_META, DELETE_DAY_RECORDS, INSERT_WORK_RECORD, INSERT_WORK_RECORD, UPDATE_DAY_META_SAVE]);
    assert_eq!(st[0].params, vec![SqlValue::Text("2025-11-06".to_string())]);
    assert_eq!(
        st[2].params,
        vec![
            SqlValue::Text("2025-11-06".to_string()),
            SqlValue::Integer(1),
            SqlValue::Text("Coding".to_string()),
            SqlValue::Integer(540),
            SqlValue::Integer(690),
            SqlValue::Integer(150),
            SqlValue::Text("Platform".to_string()),
            SqlValue::Text("ACME".to_string()),
            SqlValue::Text("Focused, deep work".to_string()),
        ]
    );
    assert_eq!(st[4].params, vec![SqlValue::Integer(2), SqlValue::Text("2025-11-06".to_string())]);
    let imported = storage().import_day(&day);
    assert_eq!(imported.last().unwrap().sql, UPDATE_DAY_META_IMPORT);
}

#[test]
fn saved_day_loads_back() {
    let day = sample_day();
    let (meta, rows) = stored(&storage().save(&day));
    let loaded = storage().load(&day.date, &meta, &rows).unwrap();
    assert_eq!(loaded.date, day.date);
    assert_eq!(loaded.last_id, 2);
    assert_eq!(loaded.work_records, day.work_records);
    assert_eq!(loaded.record(1).unwrap().name, "Coding");
    assert_eq!(loaded.record(2).unwrap().total_minutes, 30);
}

#[test]
fn a_day_never_written_is_empty() {
    let loaded = storage().load(&date("2025-11-07"), &None, &vec![]).unwrap();
    assert_eq!(loaded.len(), 0);
    assert_eq!(loaded.last_id, 0);
}

#[test]
fn bad_rows_are_refused() {
    let d = date("2025-11-06");
    let meta = Some(vec![SqlValue::Integer(-1)]);
    let err = storage().load(&d, &meta, &vec![]).unwrap_err();
    assert_eq!(err, StorageError::OutOfRange { field: "day_meta.last_id".to_string(), value: -1, wide: false });
    assert_eq!(err.message(), "Invalid value in day_meta.last_id: -1 (must fit in u32)");

    let meta = Some(vec![SqlValue::Integer(1)]);
    let row = vec![
        SqlValue::Integer(1),
        SqlValue::Text("Task".to_string()),
        SqlValue::Integer(2000),
        SqlValue::Integer(600),
        SqlValue::Integer(60),
        SqlValue::Text(String::new()),
        SqlValue::Text(String::new()),
        SqlValue::Text(String::new()),
    ];
    let err = storage().load(&d, &meta, &vec![row]).unwrap_err();
    assert_eq!(err, StorageError::InvalidTimePoint { field: "start_minutes".to_string() });
    assert_eq!(err.message(), "Invalid start_minutes value in database");

    let short_row = vec![SqlValue::Integer(1), SqlValue::Integer(5)];
    let err = storage().load(&d, &meta, &vec![short_row]).unwrap_err();
    assert_eq!(err, StorageError::ColumnType { column: 1 });
    assert_eq!(err.message(), "Invalid column type at index 1");
}

#[test]
fn revision_tokens() {
    let s = storage();
    assert_eq!(s.try_get_file_modified_time(&None).unwrap(), None);
    assert_eq!(s.try_get_file_modified_time(&Some(vec![SqlValue::Integer(4)])).unwrap(), Some(4));
    let err = s.try_get_file_modified_time(&Some(vec![SqlValue::Integer(-3)])).unwrap_err();
    assert_eq!(err, StorageError::NegativeRevision { value: -3 });
    assert_eq!(err.message(), "Invalid negative revision in database: -3");
    assert_eq!(s.try_get_file_modified_time(&Some(vec![])).unwrap_err(), StorageError::MissingColumn { column: 0 });
}

#[test]
fn saved_timer_loads_back() {
    let timer = sample_timer();
    let st = storage().save_active_timer(&timer).unwrap();
    assert_eq!(st.sql, UPSERT_ACTIVE_TIMER);
    assert_eq!(st.params[1], SqlValue::Text("Test Timer".to_string()));
    assert_eq!(st.params[5], SqlValue::Text("2025-11-06T09:00:00Z".to_string()));
    assert_eq!(st.params[8], SqlValue::Text("running".to_string()));
    let row: Vec<SqlValue> = st.params.iter().map(copy_value).collect();
    let loaded = storage().load_active_timer(&Some(row)).unwrap().unwrap();
    assert_eq!(loaded.task_name, "Test Timer");
    assert_eq!(loaded.project.as_deref(), Some("Platform"));
    assert_eq!(loaded.customer.as_deref(), Some("ACME"));
    assert_eq!(loaded.description.as_deref(), Some("Timer persisted in SQLite"));
    assert_eq!(loaded.start_time, timer.start_time);
    assert_eq!(loaded.updated_at, timer.updated_at);
    assert_eq!(loaded.status, TimerStatus::Running);
    assert_eq!(loaded.source_record_id, Some(3));
    assert_eq!(loaded.source_record_date, Some(date("2025-11-05")));
    assert!(storage().load_active_timer(&None).unwrap().is_none());
    let clear = storage().clear_active_timer();
    assert_eq!(clear.sql, DELETE_ACTIVE_TIMER);
    assert!(clear.params.is_empty());
}

#[test]
fn timer_with_unreadable_instant_is_refused() {
    let timer = sample_timer();
    let st = storage().save_active_timer(&timer).unwrap();
    let mut row: Vec<SqlValue> = st.params.iter().map(copy_value).collect();
    row[5] = SqlValue::Text("yesterday".to_string());
    let err = storage().load_active_timer(&Some(row)).unwrap_err();
    assert!(matches!(err, StorageError::InvalidDateTime { .. }));
}

#[test]
fn timer_status_texts() {
    for status in [TimerStatus::Running, TimerStatus::Paused, TimerStatus::Stopped] {
        assert_eq!(parse_timer_status(timer_status_to_str(status)).unwrap(), status);
    }
    assert_eq!(timer_status_to_str(TimerStatus::Paused), "paused");
    let err = parse_timer_status("Running").unwrap_err();
    assert_eq!(err, StorageError::InvalidTimerStatus { text: "Running".to_string() });
    assert_eq!(err.message(), "Invalid timer status in database: Running");
}

#[test]
fn integer_narrowing() {
    assert_eq!(i64_to_u32(7, "x").unwrap(), 7);
    assert!(i64_to_u32(4_294_967_296, "x").is_err());
    assert_eq!(i64_to_u64(0, "y").unwrap(), 0);
    let err = i64_to_u64(-1, "y").unwrap_err();
    assert_eq!(err.message(), "Invalid value in y: -1 (must fit in u64)");
}

#[test]
fn dates_with_records_are_listed() {
    let rows = vec![vec![SqlValue::Text("2025-11-01".to_string())], vec![SqlValue::Text("2025-11-03".to_string())]];
    assert_eq!(storage().list_dates_with_records(&rows).unwrap(), vec![date("2025-11-01"), date("2025-11-03")]);
    let bad = vec![vec![SqlValue::Text("2025/11/01".to_string())]];
    let err = storage().list_dates_with_records(&bad).unwrap_err();
    assert!(matches!(err, StorageError::InvalidDate { .. }));
}

#[test]
fn recent_task_names_from_rows() {
    let s = storage();
    let (start, end) = s.recent_task_window(&date("2025-11-10"), 3).unwrap();
    assert_eq!(start, date("2025-11-07"));
    assert_eq!(end, date("2025-11-10"));
    let rows: Vec<Vec<SqlValue>> = ["Today Task", "Repeat Task", "New Task", "  Repeat Task ", "", "Yesterday Task", "Three Days Ago Task"]
        .iter()
        .map(|n| vec![SqlValue::Text(n.to_string())])
        .collect();
    assert_eq!(
        s.recent_task_names(&rows).unwrap(),
        vec!["Today Task", "Repeat Task", "Yesterday Task", "Three Days Ago Task"]
    );
    let err = s.recent_task_window(&Date::from_calendar_date(-9999, 1, 2).unwrap(), 3).unwrap_err();
    assert_eq!(err, StorageError::DateRange);
}

#[test]
fn diagnostics_from_rows() {
    let files = vec!["2025-11-09.json".to_string(), "running_timer.json".to_string(), "work-tuimer.db".to_string(), "notes.json".to_string()];
    let d = storage()
        .diagnostics(&Some(vec![SqlValue::Text("done".to_string())]), &vec![SqlValue::Integer(2)], &vec![SqlValue::Integer(5)], true, &files)
        .unwrap();
    assert_eq!(d.database_path, "/tmp/work-tuimer-test/work-tuimer.db");
    assert_eq!(d.migration_marker.as_deref(), Some("done"));
    assert_eq!(d.days_count, 2);
    assert_eq!(d.work_records_count, 5);
    assert!(d.active_timer_present);
    assert_eq!(d.legacy_day_json_files, 1);
    assert_eq!(d.legacy_timer_json_files, 1);
    let err = storage().diagnostics(&None, &vec![SqlValue::Integer(-1)], &vec![SqlValue::Integer(0)], false, &vec![]).unwrap_err();
    assert!(matches!(err, StorageError::OutOfRange { .. }));
}

#[test]
fn legacy_files() {
    assert_eq!(legacy_day_file_date("2025-11-06.json"), Some(date("2025-11-06")));
    assert_eq!(legacy_day_file_date("2025-11-06.txt"), None);
    assert_eq!(legacy_day_file_date("running_timer.json"), None);
    let names = vec!["2025-11-08.json".to_string(), "active_timer.json".to_string(), "2025-11-06.json".to_string(), "bad.json".to_string()];
    assert_eq!(count_legacy_json_files(&names), (2, 1));
    let candidates = legacy_day_candidates(&names);
    let found: Vec<(&str, Date)> = candidates.iter().map(|c| (c.file_name.as_str(), c.date)).collect();
    assert_eq!(found, vec![("2025-11-06.json", date("2025-11-06")), ("2025-11-08.json", date("2025-11-08"))]);
    assert_eq!(legacy_timer_file(false, true, true), Some("running_timer.json"));
    assert_eq!(legacy_timer_file(false, false, true), Some("active_timer.json"));
    assert_eq!(legacy_timer_file(true, true, true), None);
    assert_eq!(legacy_timer_file(false, false, false), None);
    let marker = Storage::migration_marker_statement();
    assert_eq!(marker.sql, UPSERT_META_VALUE);
    assert!(!Storage::migration_done(&None).unwrap());
    assert!(Storage::migration_done(&Some(vec![SqlValue::Text("done".to_string())])).unwrap());
}

#[test]
fn schema_columns_are_detected() {
    let rows = vec![
        vec![SqlValue::Integer(0), SqlValue::Text("date".to_string())],
        vec![SqlValue::Integer(1), SqlValue::Text("project".to_string())],
    ];
    assert!(Storage::has_column(&rows, "project").unwrap());
    assert!(!Storage::has_column(&rows, "customer").unwrap());
    assert_eq!(Storage::table_info_sql("work_records"), "PRAGMA table_info(work_records)");
}

#[test]
fn manager_reloads_when_the_revision_moves() {
    let d = date("2025-11-06");
    let mut manager = StorageManager::new(storage());
    let day = manager.load_with_tracking(&d, &None, &vec![], &None).unwrap();
    assert_eq!(day.len(), 0);
    assert_eq!(manager.get_last_modified(&d), None);

    // Another process adds a record: the day now has revision 1.
    let mut changed = DayData::new(d);
    changed.add_record(record(1, "External Change", (9, 0), (10, 0)));
    let (meta, rows) = stored(&storage().save(&changed));
    let revision = Some(vec![SqlValue::Integer(1)]);

    let reloaded = manager.check_and_reload(&d, &revision, &meta, &rows).unwrap();
    assert!(reloaded.is_some());
    assert_eq!(reloaded.unwrap().work_records.len(), 1);
    assert_eq!(manager.get_last_modified(&d), Some(1));

    // Nothing changed since: nothing is read.
    assert!(manager.check_and_reload(&d, &revision, &meta, &rows).unwrap().is_none());
}

#[test]
fn untracked_days_are_read_and_tokens_follow_saves() {
    let d = date("2025-11-06");
    let other = date("2025-11-07");
    let mut manager = StorageManager::new(storage());
    assert!(manager.check_and_reload(&d, &None, &None, &vec![]).unwrap().is_some());
    assert!(manager.check_and_reload(&d, &None, &None, &vec![]).unwrap().is_none());
    manager.track_revision(&d, &Some(vec![SqlValue::Integer(2)])).unwrap();
    assert_eq!(manager.get_last_modified(&d), Some(2));
    assert_eq!(manager.get_last_modified(&other), None);
    let err = manager.track_revision(&d, &Some(vec![SqlValue::Integer(-1)])).unwrap_err();
    assert_eq!(err, StorageError::NegativeRevision { value: -1 });
    assert_eq!(manager.get_last_modified(&d), Some(2));
}

#[test]
fn manager_record_edits() {
    let d = date("2025-11-06");
    let manager = StorageManager::new(storage());
    let (meta, rows) = stored(&storage().save(&sample_day()));

    let st = manager.add_record(&d, record(5, "Late", (17, 0), (18, 0)), &meta, &rows).unwrap();
    let (meta2, rows2) = stored(&st);
    assert_eq!(rows2.len(), 3);
    assert_eq!(meta2, Some(vec![SqlValue::Integer(5)]));

    let st = manager.update_record(&d, record(2, "Meeting (long)", (11, 30), (13, 0)), &meta, &rows).unwrap();
    let updated = storage().load(&d, &stored(&st).0, &stored(&st).1).unwrap();
    assert_eq!(updated.record(2).unwrap().name, "Meeting (long)");
    assert_eq!(updated.len(), 2);

    let (removed, st) = manager.remove_record(&d, 1, &meta, &rows).unwrap();
    assert_eq!(removed.name, "Coding");
    let after = storage().load(&d, &stored(&st).0, &stored(&st).1).unwrap();
    assert_eq!(after.len(), 1);
    assert_eq!(after.last_id, 2);
    assert!(after.record(1).is_none());

    let err = manager.remove_record(&d, 9, &meta, &rows).unwrap_err();
    assert_eq!(err, StorageError::RecordNotFound { id: 9 });
    assert_eq!(err.message(), "Record with ID 9 not found");
}

#[test]
fn fractional_seconds_and_offsets_survive_storage() {
    let mut timer = sample_timer();
    timer.start_time = DateTime { date: date("2025-11-06"), hour: 9, minute: 30, second: 15, nanosecond: 500_000_000, offset_seconds: 3600 };
    timer.status = TimerStatus::Paused;
    timer.paused_at = Some(DateTime { date: date("2025-11-06"), hour: 10, minute: 0, second: 0, nanosecond: 0, offset_seconds: -18000 });
    let st = storage().save_active_timer(&timer).unwrap();
    assert_eq!(st.params[5], SqlValue::Text("2025-11-06T09:30:15.5+01:00".to_string()));
    assert_eq!(st.params[10], SqlValue::Text("2025-11-06T10:00:00-05:00".to_string()));
    assert_eq!(st.params[8], SqlValue::Text("paused".to_string()));
    let row: Vec<SqlValue> = st.params.iter().map(copy_value).collect();
    let loaded = storage().load_active_timer(&Some(row)).unwrap().unwrap();
    assert_eq!(loaded.start_time, timer.start_time);
    assert_eq!(loaded.paused_at, timer.paused_at);
    assert_eq!(loaded.status, TimerStatus::Paused);
}

#[test]
fn instants_rfc3339_cannot_render_are_refused() {
    let mut timer = sample_timer();
    timer.created_at = DateTime { date: date("2025-11-06"), hour: 9, minute: 0, second: 0, nanosecond: 0, offset_seconds: 30 };
    assert_eq!(storage().save_active_timer(&timer).unwrap_err(), StorageError::DateTimeFormat);
    assert_eq!(StorageError::DateTimeFormat.message(), "Failed to serialize datetime as RFC3339");
}

#[test]
fn legacy_migration_plans() {
    let plan = Storage::plan_legacy_migration(&None, &vec![false, true, false], false, true, true).unwrap().unwrap();
    assert_eq!(plan.days, vec![0, 2]);
    assert_eq!(plan.timer_file, Some("running_timer.json"));
    let plan = Storage::plan_legacy_migration(&None, &vec![], true, true, false).unwrap().unwrap();
    assert!(plan.days.is_empty());
    assert_eq!(plan.timer_file, None);
    let done = Some(vec![SqlValue::Text("done".to_string())]);
    assert!(Storage::plan_legacy_migration(&done, &vec![false], false, true, true).unwrap().is_none());
    assert!(Storage::plan_legacy_migration(&Some(vec![SqlValue::Integer(1)]), &vec![], false, false, false).is_err());
}

#[test]
fn rfc3339_layout_of_stored_instants() {
    let mut timer = sample_timer();
    timer.start_time = DateTime { date: date("2025-11-06"), hour: 9, minute: 5, second: 7, nanosecond: 120_000, offset_seconds: -1800 };
    let st = storage().save_active_timer(&timer).unwrap();
    assert_eq!(st.params[5], SqlValue::Text("2025-11-06T09:05:07.00012-00:30".to_string()));
    timer.start_time = DateTime { date: Date::from_calendar_date(-5, 1, 1).unwrap(), hour: 0, minute: 0, second: 0, nanosecond: 0, offset_seconds: 0 };
    assert_eq!(storage().save_active_timer(&timer).unwrap_err(), StorageError::DateTimeFormat);
}

#[test]
fn timers_with_early_dates_survive_storage() {
    let mut timer = sample_timer();
    timer.date = Date::from_calendar_date(-2000, 2, 29).unwrap();
    timer.source_record_date = Some(Date::from_calendar_date(-1000, 12, 31).unwrap());
    let st = storage().save_active_timer(&timer).unwrap();
    assert_eq!(st.params[7], SqlValue::Text("-2000-02-29".to_string()));
    let row: Vec<SqlValue> = st.params.iter().map(copy_value).collect();
    let loaded = storage().load_active_timer(&Some(row)).unwrap().unwrap();
    assert_eq!(loaded.date, timer.date);
    assert_eq!(loaded.source_record_date, timer.source_record_date);
}
