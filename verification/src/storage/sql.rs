//! The SQL text of the storage schema and of every statement the storage runs.

use vstd::prelude::*;

verus! {

pub const DATABASE_FILE_NAME: &'static str = "work-tuimer.db";
pub const LEGACY_RUNNING_TIMER_FILE_NAME: &'static str = "running_timer.json";
pub const LEGACY_ACTIVE_TIMER_FILE_NAME: &'static str = "active_timer.json";
pub const JSON_MIGRATION_META_KEY: &'static str = "migration.json_to_sqlite.v1";
pub const JSON_MIGRATION_DONE: &'static str = "done";

/// Run on every connection.
pub const CONNECTION_PRAGMAS: &'static str = "PRAGMA foreign_keys = ON;";

/// Run once when the database is opened.
pub const DATABASE_PRAGMAS: &'static str = "PRAGMA journal_mode = WAL; PRAGMA synchronous = NORMAL;";

pub const SCHEMA: &'static str = "CREATE TABLE IF NOT EXISTS meta (key TEXT PRIMARY KEY, value TEXT NOT NULL); CREATE TABLE IF NOT EXISTS day_meta (date TEXT PRIMARY KEY, last_id INTEGER NOT NULL DEFAULT 0 CHECK (last_id >= 0), revision INTEGER NOT NULL DEFAULT 0 CHECK (revision >= 0)); CREATE TABLE IF NOT EXISTS work_records (date TEXT NOT NULL, id INTEGER NOT NULL, name TEXT NOT NULL, start_minutes INTEGER NOT NULL, end_minutes INTEGER NOT NULL, total_minutes INTEGER NOT NULL, project TEXT NOT NULL DEFAULT '', customer TEXT NOT NULL DEFAULT '', description TEXT NOT NULL DEFAULT '', PRIMARY KEY (date, id), FOREIGN KEY (date) REFERENCES day_meta(date) ON DELETE CASCADE); CREATE INDEX IF NOT EXISTS idx_work_records_date_start ON work_records(date, start_minutes); CREATE TABLE IF NOT EXISTS active_timer (singleton_id INTEGER PRIMARY KEY CHECK (singleton_id = 1), id INTEGER, task_name TEXT NOT NULL, description TEXT, project TEXT, customer TEXT, start_time TEXT NOT NULL, end_time TEXT, date TEXT NOT NULL, status TEXT NOT NULL CHECK (status IN ('running', 'paused', 'stopped')), paused_duration_secs INTEGER NOT NULL CHECK (paused_duration_secs >= 0), paused_at TEXT, created_at TEXT NOT NULL, updated_at TEXT NOT NULL, source_record_id INTEGER, source_record_date TEXT);";

/// The schema version this code writes; `PRAGMA user_version` carries the same number.
pub const SCHEMA_VERSION: &'static str = "1";
/// The oldest reader version that understands this schema.
pub const SCHEMA_MIN_COMPATIBLE_VERSION: &'static str = "1";
/// The name of the stable integration contract (the `v_*` views).
pub const SCHEMA_CONTRACT: &'static str = "work-tuimer.sqlite.v1";
pub const SCHEMA_VERSION_META_KEY: &'static str = "schema.version";
pub const SCHEMA_MIN_COMPATIBLE_META_KEY: &'static str = "schema.min_compatible_version";
pub const SCHEMA_CONTRACT_META_KEY: &'static str = "schema.contract";

/// The stable read models for integrations; created once every base column exists.
pub const SCHEMA_VIEWS: &'static str = "CREATE VIEW IF NOT EXISTS v_work_records AS SELECT date || ':' || id AS record_uid, date, id AS record_id, name, printf('%02d:%02d', start_minutes / 60, start_minutes % 60) AS start_time, printf('%02d:%02d', end_minutes / 60, end_minutes % 60) AS end_time, total_minutes, project, customer, description FROM work_records; CREATE VIEW IF NOT EXISTS v_daily_totals AS SELECT date, COUNT(*) AS records_count, SUM(total_minutes) AS total_minutes FROM work_records GROUP BY date; CREATE VIEW IF NOT EXISTS v_active_timer AS SELECT id, task_name, description, project, customer, start_time, end_time, date, status, paused_duration_secs, paused_at, created_at, updated_at, source_record_id, source_record_date FROM active_timer WHERE singleton_id = 1;";

/// Sets `PRAGMA user_version` to `SCHEMA_VERSION`.
pub const SET_USER_VERSION: &'static str = "PRAGMA user_version = 1;";

pub const SELECT_DAY_LAST_ID: &'static str = "SELECT last_id FROM day_meta WHERE date = ?1";
pub const SELECT_DAY_RECORDS: &'static str = "SELECT id, name, start_minutes, end_minutes, total_minutes, project, customer, description FROM work_records WHERE date = ?1 ORDER BY id";
pub const SELECT_DAY_REVISION: &'static str = "SELECT revision FROM day_meta WHERE date = ?1";
pub const INSERT_DAY_META: &'static str = "INSERT INTO day_meta(date, last_id, revision) VALUES (?1, 0, 0) ON CONFLICT(date) DO NOTHING";
pub const DELETE_DAY_RECORDS: &'static str = "DELETE FROM work_records WHERE date = ?1";
pub const INSERT_WORK_RECORD: &'static str = "INSERT INTO work_records (date, id, name, start_minutes, end_minutes, total_minutes, project, customer, description) VALUES (?1, ?2, ?3, ?4, ?5, ?6, ?7, ?8, ?9)";
pub const UPDATE_DAY_META_SAVE: &'static str = "UPDATE day_meta SET last_id = ?1, revision = revision + 1 WHERE date = ?2";
pub const UPDATE_DAY_META_IMPORT: &'static str = "UPDATE day_meta SET last_id = ?1, revision = CASE WHEN revision = 0 THEN 1 ELSE revision END WHERE date = ?2";
pub const UPSERT_ACTIVE_TIMER: &'static str = "INSERT INTO active_timer (singleton_id, id, task_name, description, project, customer, start_time, end_time, date, status, paused_duration_secs, paused_at, created_at, updated_at, source_record_id, source_record_date) VALUES (1, ?1, ?2, ?3, ?4, ?5, ?6, ?7, ?8, ?9, ?10, ?11, ?12, ?13, ?14, ?15) ON CONFLICT(singleton_id) DO UPDATE SET id = excluded.id, task_name = excluded.task_name, description = excluded.description, project = excluded.project, customer = excluded.customer, start_time = excluded.start_time, end_time = excluded.end_time, date = excluded.date, status = excluded.status, paused_duration_secs = excluded.paused_duration_secs, paused_at = excluded.paused_at, created_at = excluded.created_at, updated_at = excluded.updated_at, source_record_id = excluded.source_record_id, source_record_date = excluded.source_record_date";
pub const SELECT_ACTIVE_TIMER: &'static str = "SELECT id, task_name, description, project, customer, start_time, end_time, date, status, paused_duration_secs, paused_at, created_at, updated_at, source_record_id, source_record_date FROM active_timer WHERE singleton_id = 1";
pub const DELETE_ACTIVE_TIMER: &'static str = "DELETE FROM active_timer WHERE singleton_id = 1";
pub const ACTIVE_TIMER_EXISTS: &'static str = "SELECT 1 FROM active_timer WHERE singleton_id = 1 LIMIT 1";
pub const SELECT_META_VALUE: &'static str = "SELECT value FROM meta WHERE key = ?1";
pub const UPSERT_META_VALUE: &'static str = "INSERT INTO meta(key, value) VALUES (?1, ?2) ON CONFLICT(key) DO UPDATE SET value = excluded.value";
pub const COUNT_DAYS: &'static str = "SELECT COUNT(*) FROM day_meta";
pub const COUNT_WORK_RECORDS: &'static str = "SELECT COUNT(*) FROM work_records";
pub const LIST_DATES_WITH_RECORDS: &'static str = "SELECT DISTINCT date FROM work_records ORDER BY date";
pub const RECENT_TASK_NAMES: &'static str = "SELECT name FROM work_records WHERE date >= ?1 AND date <= ?2 ORDER BY date DESC, id DESC";
pub const DAY_EXISTS: &'static str = "SELECT 1 FROM day_meta WHERE date = ?1 LIMIT 1";

} // verus!
