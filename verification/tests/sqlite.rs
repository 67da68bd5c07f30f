//! The storage protocol run against a real (in-memory) SQLite database.

use rusqlite::types::{Value, ValueRef};
use rusqlite::{params_from_iter, Connection, OptionalExtension};

use work_tuimer::date::{parse_date, Date};
use work_tuimer::models::{DayData, TimePoint, WorkRecord};
use work_tuimer::storage::row::{SqlStatement, SqlValue};
use work_tuimer::storage::sql::{
    ACTIVE_TIMER_EXISTS, COUNT_DAYS, COUNT_WORK_RECORDS, JSON_MIGRATION_META_KEY, LIST_DATES_WITH_RECORDS,
    RECENT_TASK_NAMES, SELECT_ACTIVE_TIMER, SELECT_DAY_LAST_ID, SELECT_DAY_RECORDS, SELECT_DAY_REVISION,
    SELECT_META_VALUE,
};
use work_tuimer::storage::tracker::StorageManager;
use work_tuimer::storage::{Storage, StorageDiagnostics};
use work_tuimer::timer::{DateTime, TimerState, TimerStatus};

fn to_sql(v: &SqlValue) -> Value {
    match v {
        SqlValue::Null | SqlValue::Other => Value::Null,
        SqlValue::Integer(i) => Value::Integer(*i),
        SqlValue::Text(t) => Value::Text(t.clone()),
    }
}

fn from_sql(v: ValueRef<'_>) -> SqlValue {
    match v {
        ValueRef::Null => SqlValue::Null,
        ValueRef::Integer(i) => SqlValue::Integer(i),
        ValueRef::Text(b) => SqlValue::Text(String::from_utf8_lossy(b).into_owned()),
        _ => SqlValue::Other,
    }
}

/// A database that the library's statements run on.
struct Db {
    conn: Connection,
    storage: Storage,
}

impl Db {
    fn open() -> Db {
        Self::on(Connection::open_in_memory().unwrap())
    }

    /// Opens `conn` as the tool does: pragmas, schema, missing columns, migration marker.
    fn on(conn: Connection) -> Db {
        for batch in Storage::open_batches() {
            conn.execute_batch(batch).unwrap();
        }
        let db = Db { conn, storage: Storage::new("/data/work-tuimer.db".to_string()) };
        for (table, column, definition) in Storage::column_migrations() {
            let rows = db.rows(&Storage::table_info_sql(table), &[]);
            if !Storage::has_column(&rows, column).unwrap() {
                db.conn.execute(&Storage::add_column_sql(table, column, definition), []).unwrap();
            }
        }
        for batch in Storage::finish_batches() {
            db.conn.execute_batch(batch).unwrap();
        }
        db.run(&Storage::schema_meta_statements());
        let marker = db.first(SELECT_META_VALUE, &[SqlValue::Text(JSON_MIGRATION_META_KEY.to_string())]);
        if !Storage::migration_done(&marker).unwrap() {
            db.run(&[Storage::migration_marker_statement()]);
        }
        db
    }

    fn rows(&self, sql: &str, params: &[SqlValue]) -> Vec<Vec<SqlValue>> {
        let mut stmt = self.conn.prepare(sql).unwrap();
        let n = stmt.column_count();
        let mut rows = stmt.query(params_from_iter(params.iter().map(to_sql))).unwrap();
        let mut out = Vec::new();
        while let Some(row) = rows.next().unwrap() {
            out.push((0..n).map(|i| from_sql(row.get_ref(i).unwrap())).collect());
        }
        out
    }

    fn first(&self, sql: &str, params: &[SqlValue]) -> Option<Vec<SqlValue>> {
        self.rows(sql, params).into_iter().next()
    }

    fn run(&self, statements: &[SqlStatement]) {
        for st in statements {
            self.conn.execute(&st.sql, params_from_iter(st.params.iter().map(to_sql))).unwrap();
        }
    }

    fn save(&self, day: &DayData) {
        self.run(&self.storage.save(day));
    }

    fn day_rows(&self, date: &Date) -> (Option<Vec<SqlValue>>, Vec<Vec<SqlValue>>) {
        let key = Storage::date_key(date);
        let meta = self.first(SELECT_DAY_LAST_ID, std::slice::from_ref(&key));
        let rows = if meta.is_some() { self.rows(SELECT_DAY_RECORDS, &[key]) } else { Vec::new() };
        (meta, rows)
    }

    fn load(&self, date: &Date) -> DayData {
        let (meta, rows) = self.day_rows(date);
        self.storage.load(date, &meta, &rows).unwrap()
    }

    fn revision_row(&self, date: &Date) -> Option<Vec<SqlValue>> {
        self.first(SELECT_DAY_REVISION, &[Storage::date_key(date)])
    }

    fn get_file_modified_time(&self, date: &Date) -> Option<u64> {
        self.storage.try_get_file_modified_time(&self.revision_row(date)).unwrap()
    }

    fn list_dates_with_records(&self) -> Vec<Date> {
        self.storage.list_dates_with_records(&self.rows(LIST_DATES_WITH_RECORDS, &[])).unwrap()
    }

    fn recent_task_names(&self, date: Date, days_back: u8) -> Vec<String> {
        let (start, end) = self.storage.recent_task_window(&date, days_back).unwrap();
        let rows = self.rows(RECENT_TASK_NAMES, &[Storage::date_key(&start), Storage::date_key(&end)]);
        self.storage.recent_task_names(&rows).unwrap()
    }

    fn save_active_timer(&self, timer: &TimerState) {
        self.run(&[self.storage.save_active_timer(timer).unwrap()]);
    }

    fn load_active_timer(&self) -> Option<TimerState> {
        self.storage.load_active_timer(&self.first(SELECT_ACTIVE_TIMER, &[])).unwrap()
    }

    fn clear_active_timer(&self) {
        self.run(&[self.storage.clear_active_timer()]);
    }

    fn diagnostics(&self, files: &[&str]) -> StorageDiagnostics {
        let marker = self.first(SELECT_META_VALUE, &[SqlValue::Text(JSON_MIGRATION_META_KEY.to_string())]);
        let days = self.first(COUNT_DAYS, &[]).unwrap();
        let records = self.first(COUNT_WORK_RECORDS, &[]).unwrap();
        let timer = self.first(ACTIVE_TIMER_EXISTS, &[]).is_some();
        let names: Vec<String> = files.iter().map(|f| f.to_string()).collect();
        self.storage.diagnostics(&marker, &days, &records, timer, &names).unwrap()
    }
}

fn create_test_date() -> Date {
    Date::from_calendar_date(2025, 11, 6).unwrap()
}

fn create_test_record(id: u32, name: &str) -> WorkRecord {
    let start = TimePoint::new(9, 0).unwrap();
    let end = TimePoint::new(17, 0).unwrap();
    WorkRecord::new(id, name.to_string(), start, end)
}

fn create_record(id: u32, name: &str, start_hour: u8, end_hour: u8) -> WorkRecord {
    WorkRecord::new(id, name.to_string(), TimePoint::new(start_hour, 0).unwrap(), TimePoint::new(end_hour, 0).unwrap())
}

fn instant(h: u8, m: u8, s: u8) -> DateTime {
    DateTime { date: create_test_date(), hour: h, minute: m, second: s, nanosecond: 0, offset_seconds: 0 }
}

fn create_test_timer() -> TimerState {
    TimerState {
        id: None,
        task_name: "Test Timer".to_string(),
        description: Some("Timer description".to_string()),
        project: Some("Platform".to_string()),
        customer: Some("ACME".to_string()),
        start_time: instant(9, 0, 0),
        end_time: None,
        date: create_test_date(),
        status: TimerStatus::Running,
        paused_duration_secs: 0,
        paused_at: None,
        created_at: instant(9, 0, 0),
        updated_at: instant(9, 0, 0),
        source_record_id: None,
        source_record_date: None,
    }
}

#[test]
fn test_save_and_load_day_data_round_trip() {
    let storage = Db::open();
    let date = create_test_date();

    let mut day_data = DayData::new(date);
    day_data.add_record(create_test_record(1, "Coding"));
    day_data.add_record(create_test_record(2, "Meeting"));

    storage.save(&day_data);
    let loaded = storage.load(&date);

    assert_eq!(loaded.date, date);
    assert_eq!(loaded.last_id, 2);
    assert_eq!(loaded.work_records.len(), 2);
    assert_eq!(loaded.record(1).unwrap().name, "Coding");
    assert_eq!(loaded.record(2).unwrap().name, "Meeting");
}

#[test]
fn test_list_dates_with_records_only_returns_non_empty_days() {
    let storage = Db::open();

    let date1 = Date::from_calendar_date(2025, 11, 6).unwrap();
    let date2 = Date::from_calendar_date(2025, 11, 7).unwrap();
    let date3 = Date::from_calendar_date(2025, 11, 8).unwrap();

    let mut day1 = DayData::new(date1);
    day1.add_record(create_test_record(1, "Coding"));
    storage.save(&day1);

    // Saving an empty day should not make it exportable.
    storage.save(&DayData::new(date2));

    let mut day3 = DayData::new(date3);
    day3.add_record(create_test_record(1, "Meeting"));
    storage.save(&day3);

    let dates = storage.list_dates_with_records();
    assert_eq!(dates, vec![date1, date3]);
}

#[test]
fn test_recent_task_names_are_recent_unique_and_exclude_new_task() {
    let storage = Db::open();
    let today = create_test_date();
    let yesterday = today.previous_day().unwrap();
    let three_days_ago = yesterday.previous_day().unwrap().previous_day().unwrap();
    let four_days_ago = three_days_ago.previous_day().unwrap();

    let mut today_data = DayData::new(today);
    today_data.add_record(create_test_record(1, "Today Task"));
    today_data.add_record(create_test_record(2, "Repeat Task"));
    today_data.add_record(create_test_record(3, "New Task"));
    storage.save(&today_data);

    let mut yesterday_data = DayData::new(yesterday);
    yesterday_data.add_record(create_test_record(1, "Yesterday Task"));
    yesterday_data.add_record(create_test_record(2, "Repeat Task"));
    storage.save(&yesterday_data);

    let mut three_days_ago_data = DayData::new(three_days_ago);
    three_days_ago_data.add_record(create_test_record(1, "Three Days Ago Task"));
    storage.save(&three_days_ago_data);

    let mut four_days_ago_data = DayData::new(four_days_ago);
    four_days_ago_data.add_record(create_test_record(1, "Too Old Task"));
    storage.save(&four_days_ago_data);

    let task_names = storage.recent_task_names(today, 3);

    assert_eq!(task_names, vec!["Repeat Task", "Today Task", "Yesterday Task", "Three Days Ago Task"]);
}

#[test]
fn test_get_file_modified_time_uses_revision_token() {
    let storage = Db::open();
    let date = create_test_date();

    assert!(storage.get_file_modified_time(&date).is_none());

    let mut day_data = DayData::new(date);
    day_data.add_record(create_test_record(1, "Task 1"));
    storage.save(&day_data);
    let first = storage.get_file_modified_time(&date);

    day_data.add_record(create_test_record(2, "Task 2"));
    storage.save(&day_data);
    let second = storage.get_file_modified_time(&date);

    assert!(first.is_some());
    assert!(second.is_some());
    assert_ne!(first, second);
}

#[test]
fn test_save_load_and_clear_active_timer() {
    let storage = Db::open();
    let timer = create_test_timer();

    storage.save_active_timer(&timer);
    let loaded = storage.load_active_timer();
    assert!(loaded.is_some());
    let loaded_timer = loaded.unwrap();
    assert_eq!(loaded_timer.task_name, "Test Timer");
    assert_eq!(loaded_timer.project.as_deref(), Some("Platform"));
    assert_eq!(loaded_timer.customer.as_deref(), Some("ACME"));

    storage.clear_active_timer();
    assert!(storage.load_active_timer().is_none());
}

#[test]
fn test_storage_manager_check_and_reload_detects_external_changes() {
    let storage = Db::open();
    let date = create_test_date();
    let mut manager1 = StorageManager::new(storage.storage.clone());
    let manager2 = StorageManager::new(storage.storage.clone());

    let (meta, rows) = storage.day_rows(&date);
    manager1.load_with_tracking(&date, &meta, &rows, &storage.revision_row(&date)).unwrap();

    let (meta, rows) = storage.day_rows(&date);
    let statements = manager2.add_record(&date, create_test_record(1, "External Change"), &meta, &rows).unwrap();
    storage.run(&statements);

    let (meta, rows) = storage.day_rows(&date);
    let reloaded = manager1.check_and_reload(&date, &storage.revision_row(&date), &meta, &rows).unwrap();
    assert!(reloaded.is_some());
    assert_eq!(reloaded.unwrap().work_records.len(), 1);
}

#[test]
fn own_saves_are_not_reported_as_external_changes() {
    let storage = Db::open();
    let date = create_test_date();
    let mut manager = StorageManager::new(storage.storage.clone());
    let (meta, rows) = storage.day_rows(&date);
    let mut day = manager.load_with_tracking(&date, &meta, &rows, &storage.revision_row(&date)).unwrap();

    day.add_record(create_test_record(1, "Mine"));
    storage.run(&manager.save(&day));
    manager.track_revision(&date, &storage.revision_row(&date)).unwrap();

    let (meta, rows) = storage.day_rows(&date);
    assert!(manager.check_and_reload(&date, &storage.revision_row(&date), &meta, &rows).unwrap().is_none());
    assert_eq!(manager.get_last_modified(&date), Some(1));
}

#[test]
fn test_storage_diagnostics_reports_expected_values() {
    let storage = Db::open();

    let date = create_test_date();
    let mut day_data = DayData::new(date);
    day_data.add_record(create_test_record(1, "Task One"));
    day_data.add_record(create_test_record(2, "Task Two"));
    storage.save(&day_data);

    let diagnostics = storage.diagnostics(&["work-tuimer.db", "2025-11-09.json"]);

    assert_eq!(diagnostics.migration_marker.as_deref(), Some("done"));
    assert_eq!(diagnostics.days_count, 1);
    assert_eq!(diagnostics.work_records_count, 2);
    assert!(!diagnostics.active_timer_present);
    assert_eq!(diagnostics.legacy_day_json_files, 1);
    assert_eq!(diagnostics.legacy_timer_json_files, 0);
}

#[test]
fn test_schema_migration_adds_project_and_customer_columns() {
    let conn = Connection::open_in_memory().unwrap();
    conn.execute_batch(
        "
        CREATE TABLE meta (key TEXT PRIMARY KEY, value TEXT NOT NULL);
        CREATE TABLE day_meta (
            date TEXT PRIMARY KEY,
            last_id INTEGER NOT NULL DEFAULT 0 CHECK (last_id >= 0),
            revision INTEGER NOT NULL DEFAULT 0 CHECK (revision >= 0)
        );
        CREATE TABLE work_records (
            date TEXT NOT NULL,
            id INTEGER NOT NULL,
            name TEXT NOT NULL,
            start_minutes INTEGER NOT NULL,
            end_minutes INTEGER NOT NULL,
            total_minutes INTEGER NOT NULL,
            description TEXT NOT NULL DEFAULT '',
            PRIMARY KEY (date, id),
            FOREIGN KEY (date) REFERENCES day_meta(date) ON DELETE CASCADE
        );
        CREATE TABLE active_timer (
            singleton_id INTEGER PRIMARY KEY CHECK (singleton_id = 1),
            id INTEGER,
            task_name TEXT NOT NULL,
            description TEXT,
            start_time TEXT NOT NULL,
            end_time TEXT,
            date TEXT NOT NULL,
            status TEXT NOT NULL CHECK (status IN ('running', 'paused', 'stopped')),
            paused_duration_secs INTEGER NOT NULL CHECK (paused_duration_secs >= 0),
            paused_at TEXT,
            created_at TEXT NOT NULL,
            updated_at TEXT NOT NULL,
            source_record_id INTEGER,
            source_record_date TEXT
        );
        ",
    )
    .unwrap();

    let db = Db::on(conn);
    let count = |sql: &str| -> i64 { db.conn.query_row(sql, [], |row| row.get(0)).unwrap() };
    assert_eq!(count("SELECT COUNT(*) FROM pragma_table_info('work_records') WHERE name = 'project'"), 1);
    assert_eq!(count("SELECT COUNT(*) FROM pragma_table_info('work_records') WHERE name = 'customer'"), 1);
    assert_eq!(count("SELECT COUNT(*) FROM pragma_table_info('active_timer') WHERE name = 'project'"), 1);
    assert_eq!(count("SELECT COUNT(*) FROM pragma_table_info('active_timer') WHERE name = 'customer'"), 1);
}

#[test]
fn test_sqlite_day_data_persistence_is_queryable() {
    let storage = Db::open();

    let date = parse_date("2025-11-07").unwrap();
    let mut day_data = DayData::new(date);
    day_data.add_record(create_record(1, "Coding", 9, 11));
    day_data.add_record(create_record(2, "Review", 11, 12));

    storage.save(&day_data);

    let conn = &storage.conn;
    let date_key = "2025-11-07";
    let record_count: i64 =
        conn.query_row("SELECT COUNT(*) FROM work_records WHERE date = ?1", [date_key], |row| row.get(0)).unwrap();
    assert_eq!(record_count, 2);

    let (name, total_minutes): (String, i64) = conn
        .query_row("SELECT name, total_minutes FROM work_records WHERE date = ?1 AND id = 1", [date_key], |row| {
            Ok((row.get(0)?, row.get(1)?))
        })
        .unwrap();
    assert_eq!(name, "Coding");
    assert_eq!(total_minutes, 120);

    let (last_id, revision): (i64, i64) = conn
        .query_row("SELECT last_id, revision FROM day_meta WHERE date = ?1", [date_key], |row| {
            Ok((row.get(0)?, row.get(1)?))
        })
        .unwrap();
    assert_eq!(last_id, 2);
    assert!(revision >= 1);
}

#[test]
fn test_sqlite_active_timer_persistence_is_queryable() {
    let storage = Db::open();

    let mut timer = create_test_timer();
    timer.task_name = "DB Timer Test".to_string();
    timer.description = Some("Timer persisted in SQLite".to_string());
    timer.project = None;
    timer.customer = None;

    storage.save_active_timer(&timer);

    let conn = &storage.conn;
    let (task_name, status, description): (String, String, Option<String>) = conn
        .query_row("SELECT task_name, status, description FROM active_timer WHERE singleton_id = 1", [], |row| {
            Ok((row.get(0)?, row.get(1)?, row.get(2)?))
        })
        .unwrap();

    assert_eq!(task_name, "DB Timer Test");
    assert_eq!(status, "running");
    assert_eq!(description, Some("Timer persisted in SQLite".to_string()));

    storage.clear_active_timer();

    let exists = conn
        .query_row("SELECT 1 FROM active_timer WHERE singleton_id = 1", [], |_row| Ok(()))
        .optional()
        .unwrap();
    assert!(exists.is_none());
}

#[test]
fn reimporting_a_stored_day_keeps_its_revision() {
    let storage = Db::open();
    let date = create_test_date();
    let mut day = DayData::new(date);
    day.add_record(create_test_record(1, "Legacy Task"));
    storage.run(&storage.storage.import_day(&day));
    assert_eq!(storage.get_file_modified_time(&date), Some(1));
    storage.run(&storage.storage.import_day(&day));
    assert_eq!(storage.get_file_modified_time(&date), Some(1));
    storage.save(&day);
    assert_eq!(storage.get_file_modified_time(&date), Some(2));
    assert_eq!(storage.load(&date).record(1).unwrap().name, "Legacy Task");
}

#[test]
fn documented_schema_metadata_and_views_exist() {
    let storage = Db::open();
    let meta = |key: &str| -> String {
        storage.conn.query_row("SELECT value FROM meta WHERE key = ?1", [key], |row| row.get(0)).unwrap()
    };
    assert_eq!(meta("schema.version"), "1");
    assert_eq!(meta("schema.min_compatible_version"), "1");
    assert_eq!(meta("schema.contract"), "work-tuimer.sqlite.v1");
    assert_eq!(meta("migration.json_to_sqlite.v1"), "done");
    let user_version: i64 = storage.conn.query_row("PRAGMA user_version", [], |row| row.get(0)).unwrap();
    assert_eq!(user_version.to_string(), meta("schema.version"));

    let mut day = DayData::new(parse_date("2026-02-24").unwrap());
    day.add_record(create_record(1, "Coding", 9, 11));
    let mut late = WorkRecord::new(2, "Review".to_string(), TimePoint::new(13, 5).unwrap(), TimePoint::new(14, 0).unwrap());
    late.description = "PR".to_string();
    day.add_record(late);
    storage.save(&day);

    let (uid, start, end): (String, String, String) = storage
        .conn
        .query_row(
            "SELECT record_uid, start_time, end_time FROM v_work_records WHERE date = '2026-02-24' AND record_id = 2",
            [],
            |row| Ok((row.get(0)?, row.get(1)?, row.get(2)?)),
        )
        .unwrap();
    assert_eq!((uid.as_str(), start.as_str(), end.as_str()), ("2026-02-24:2", "13:05", "14:00"));
    let (count, total): (i64, i64) = storage
        .conn
        .query_row("SELECT records_count, total_minutes FROM v_daily_totals WHERE date = '2026-02-24'", [], |row| {
            Ok((row.get(0)?, row.get(1)?))
        })
        .unwrap();
    assert_eq!((count, total), (2, 175));

    storage.save_active_timer(&create_test_timer());
    let task: String = storage.conn.query_row("SELECT task_name FROM v_active_timer", [], |row| row.get(0)).unwrap();
    assert_eq!(task, "Test Timer");
}
