//! SQL values, rows, and reading typed columns out of them.

use vstd::prelude::*;
use crate::digits::{decimal, push_decimal, push_signed, signed_decimal};
use crate::text::{str_eq, string_from_chars, push_str};
use crate::timer::TimerStatus;

verus! {

/// One SQL value as SQLite stores it (`Other` stands for REAL and BLOB values).
#[derive(Debug, PartialEq)]
pub enum SqlValue {
    Null,
    Integer(i64),
    Text(String),
    Other,
}

pub enum SqlVal {
    Null,
    Integer(i64),
    Text(Seq<char>),
    Other,
}

impl View for SqlValue {
    type V = SqlVal;

    open spec fn view(&self) -> SqlVal {
        match self {
            SqlValue::Null => SqlVal::Null,
            SqlValue::Integer(v) => SqlVal::Integer(*v),
            SqlValue::Text(s) => SqlVal::Text(s@),
            SqlValue::Other => SqlVal::Other,
        }
    }
}

pub open spec fn row_view(row: Seq<SqlValue>) -> Seq<SqlVal> {
    row.map_values(|v: SqlValue| v@)
}

pub open spec fn rows_view(rows: Seq<Vec<SqlValue>>) -> Seq<Seq<SqlVal>> {
    rows.map_values(|r: Vec<SqlValue>| row_view(r@))
}

/// A statement to run, with its positional parameters.
#[derive(Debug)]
pub struct SqlStatement {
    pub sql: String,
    pub params: Vec<SqlValue>,
}

impl View for SqlStatement {
    type V = (Seq<char>, Seq<SqlVal>);

    open spec fn view(&self) -> (Seq<char>, Seq<SqlVal>) {
        (self.sql@, row_view(self.params@))
    }
}

/// Why stored data could not be read or written.
#[derive(Debug, PartialEq, Eq)]
pub enum StorageError {
    /// The column holds a value of another SQL type than the one read.
    ColumnType { column: usize },
    /// The row has no such column.
    MissingColumn { column: usize },
    /// A stored integer does not fit the field's type (`u32`, or `u64` when `wide`).
    OutOfRange { field: String, value: i64, wide: bool },
    /// A stored minute count is not a time of day.
    InvalidTimePoint { field: String },
    NegativeRevision { value: i64 },
    InvalidTimerStatus { text: String },
    InvalidDate { field: String, text: String },
    InvalidDateTime { field: String, text: String },
    /// An instant that RFC 3339 cannot render.
    DateTimeFormat,
    /// The look-back window starts before the first representable day.
    DateRange,
    /// The day has no record with this id.
    RecordNotFound { id: u32 },
}

pub enum StorageErrorView {
    ColumnType { column: usize },
    MissingColumn { column: usize },
    OutOfRange { field: Seq<char>, value: i64, wide: bool },
    InvalidTimePoint { field: Seq<char> },
    NegativeRevision { value: i64 },
    InvalidTimerStatus { text: Seq<char> },
    InvalidDate { field: Seq<char>, text: Seq<char> },
    InvalidDateTime { field: Seq<char>, text: Seq<char> },
    DateTimeFormat,
    DateRange,
    RecordNotFound { id: u32 },
}

impl View for StorageError {
    type V = StorageErrorView;

    open spec fn view(&self) -> StorageErrorView {
        match self {
            StorageError::ColumnType { column } => StorageErrorView::ColumnType { column: *column },
            StorageError::MissingColumn { column } => StorageErrorView::MissingColumn { column: *column },
            StorageError::OutOfRange { field, value, wide } => StorageErrorView::OutOfRange {
                field: field@,
                value: *value,
                wide: *wide,
            },
            StorageError::InvalidTimePoint { field } => StorageErrorView::InvalidTimePoint { field: field@ },
            StorageError::NegativeRevision { value } => StorageErrorView::NegativeRevision { value: *value },
            StorageError::InvalidTimerStatus { text } => StorageErrorView::InvalidTimerStatus { text: text@ },
            StorageError::InvalidDate { field, text } => StorageErrorView::InvalidDate {
                field: field@,
                text: text@,
            },
            StorageError::InvalidDateTime { field, text } => StorageErrorView::InvalidDateTime {
                field: field@,
                text: text@,
            },
            StorageError::DateTimeFormat => StorageErrorView::DateTimeFormat,
            StorageError::DateRange => StorageErrorView::DateRange,
            StorageError::RecordNotFound { id } => StorageErrorView::RecordNotFound { id: *id },
        }
    }
}

impl StorageError {
    /// The message shown for the error.
    pub open spec fn message_text(&self) -> Seq<char> {
        match self {
            StorageError::ColumnType { column } => "Invalid column type at index "@ + decimal(*column as nat),
            StorageError::MissingColumn { column } => "Invalid column index: "@ + decimal(*column as nat),
            StorageError::OutOfRange { field, value, wide } => "Invalid value in "@ + field@ + ": "@
                + signed_decimal(*value as int) + (if *wide { " (must fit in u64)"@ } else { " (must fit in u32)"@ }),
            StorageError::InvalidTimePoint { field } => "Invalid "@ + field@ + " value in database"@,
            StorageError::NegativeRevision { value } => "Invalid negative revision in database: "@
                + signed_decimal(*value as int),
            StorageError::InvalidTimerStatus { text } => "Invalid timer status in database: "@ + text@,
            StorageError::InvalidDate { field, text } => "Invalid "@ + field@ + ": '"@ + text@ + "'"@,
            StorageError::InvalidDateTime { field, text } => "Invalid RFC3339 datetime in "@ + field@ + ": '"@ + text@ + "'"@,
            StorageError::DateTimeFormat => "Failed to serialize datetime as RFC3339"@,
            StorageError::DateRange => "Failed to calculate recent task date range"@,
            StorageError::RecordNotFound { id } => "Record with ID "@ + decimal(*id as nat) + " not found"@,
        }
    }

    /// The message shown for the error (see `message_text`).
    pub fn message(&self) -> (res: String)
        ensures
            res@ == self.message_text(),
    {
        let mut out: Vec<char> = Vec::new();
        match self {
            StorageError::ColumnType { column } => {
                push_str(&mut out, "Invalid column type at index ");
                push_decimal(&mut out, *column as u64);
            },
            StorageError::MissingColumn { column } => {
                push_str(&mut out, "Invalid column index: ");
                push_decimal(&mut out, *column as u64);
            },
            StorageError::OutOfRange { field, value, wide } => {
                push_str(&mut out, "Invalid value in ");
                push_str(&mut out, field.as_str());
                push_str(&mut out, ": ");
                push_signed(&mut out, *value);
                if *wide {
                    push_str(&mut out, " (must fit in u64)");
                } else {
                    push_str(&mut out, " (must fit in u32)");
                }
            },
            StorageError::InvalidTimePoint { field } => {
                push_str(&mut out, "Invalid ");
                push_str(&mut out, field.as_str());
                push_str(&mut out, " value in database");
            },
            StorageError::NegativeRevision { value } => {
                push_str(&mut out, "Invalid negative revision in database: ");
                push_signed(&mut out, *value);
            },
            StorageError::InvalidTimerStatus { text } => {
                push_str(&mut out, "Invalid timer status in database: ");
                push_str(&mut out, text.as_str());
            },
            StorageError::InvalidDate { field, text } => {
                push_str(&mut out, "Invalid ");
                push_str(&mut out, field.as_str());
                push_str(&mut out, ": '");
                push_str(&mut out, text.as_str());
                push_str(&mut out, "'");
            },
            StorageError::InvalidDateTime { field, text } => {
                push_str(&mut out, "Invalid RFC3339 datetime in ");
                push_str(&mut out, field.as_str());
                push_str(&mut out, ": '");
                push_str(&mut out, text.as_str());
                push_str(&mut out, "'");
            },
            StorageError::DateTimeFormat => push_str(&mut out, "Failed to serialize datetime as RFC3339"),
            StorageError::DateRange => push_str(&mut out, "Failed to calculate recent task date range"),
            StorageError::RecordNotFound { id } => {
                push_str(&mut out, "Record with ID ");
                push_decimal(&mut out, *id as u64);
                push_str(&mut out, " not found");
            },
        }
        string_from_chars(&out)
    }
}

pub open spec fn res_view<T, V>(r: Result<T, StorageError>, f: spec_fn(T) -> V) -> Result<V, StorageErrorView> {
    match r {
        Ok(v) => Ok(f(v)),
        Err(e) => Err(e@),
    }
}

/// Column `i` read as an INTEGER.
pub open spec fn col_i64(row: Seq<SqlVal>, i: int) -> Result<i64, StorageErrorView> {
    if 0 <= i < row.len() {
        match row[i] {
            SqlVal::Integer(v) => Ok(v),
            _ => Err(StorageErrorView::ColumnType { column: i as usize }),
        }
    } else {
        Err(StorageErrorView::MissingColumn { column: i as usize })
    }
}

/// Column `i` read as an INTEGER or NULL.
pub open spec fn col_opt_i64(row: Seq<SqlVal>, i: int) -> Result<Option<i64>, StorageErrorView> {
    if 0 <= i < row.len() {
        match row[i] {
            SqlVal::Integer(v) => Ok(Some(v)),
            SqlVal::Null => Ok(None),
            _ => Err(StorageErrorView::ColumnType { column: i as usize }),
        }
    } else {
        Err(StorageErrorView::MissingColumn { column: i as usize })
    }
}

/// Column `i` read as TEXT.
pub open spec fn col_text(row: Seq<SqlVal>, i: int) -> Result<Seq<char>, StorageErrorView> {
    if 0 <= i < row.len() {
        match row[i] {
            SqlVal::Text(s) => Ok(s),
            _ => Err(StorageErrorView::ColumnType { column: i as usize }),
        }
    } else {
        Err(StorageErrorView::MissingColumn { column: i as usize })
    }
}

/// Column `i` read as TEXT or NULL.
pub open spec fn col_opt_text(row: Seq<SqlVal>, i: int) -> Result<Option<Seq<char>>, StorageErrorView> {
    if 0 <= i < row.len() {
        match row[i] {
            SqlVal::Text(s) => Ok(Some(s)),
            SqlVal::Null => Ok(None),
            _ => Err(StorageErrorView::ColumnType { column: i as usize }),
        }
    } else {
        Err(StorageErrorView::MissingColumn { column: i as usize })
    }
}

pub fn get_i64(row: &Vec<SqlValue>, i: usize) -> (res: Result<i64, StorageError>)
    ensures
        res_view(res, |v: i64| v) == col_i64(row_view(row@), i as int),
{
    if i >= row.len() {
        return Err(StorageError::MissingColumn { column: i });
    }
    match &row[i] {
        SqlValue::Integer(v) => Ok(*v),
        _ => Err(StorageError::ColumnType { column: i }),
    }
}

pub fn get_opt_i64(row: &Vec<SqlValue>, i: usize) -> (res: Result<Option<i64>, StorageError>)
    ensures
        res_view(res, |v: Option<i64>| v) == col_opt_i64(row_view(row@), i as int),
{
    if i >= row.len() {
        return Err(StorageError::MissingColumn { column: i });
    }
    match &row[i] {
        SqlValue::Integer(v) => Ok(Some(*v)),
        SqlValue::Null => Ok(None),
        _ => Err(StorageError::ColumnType { column: i }),
    }
}

pub fn get_text(row: &Vec<SqlValue>, i: usize) -> (res: Result<String, StorageError>)
    ensures
        res_view(res, |v: String| v@) == col_text(row_view(row@), i as int),
{
    if i >= row.len() {
        return Err(StorageError::MissingColumn { column: i });
    }
    match &row[i] {
        SqlValue::Text(s) => Ok(s.clone()),
        _ => Err(StorageError::ColumnType { column: i }),
    }
}

pub open spec fn opt_string_view(o: Option<String>) -> Option<Seq<char>> {
    match o {
        Some(s) => Some(s@),
        None => None,
    }
}

pub fn get_opt_text(row: &Vec<SqlValue>, i: usize) -> (res: Result<Option<String>, StorageError>)
    ensures
        res_view(res, |v: Option<String>| opt_string_view(v)) == col_opt_text(row_view(row@), i as int),
{
    if i >= row.len() {
        return Err(StorageError::MissingColumn { column: i });
    }
    match &row[i] {
        SqlValue::Text(s) => Ok(Some(s.clone())),
        SqlValue::Null => Ok(None),
        _ => Err(StorageError::ColumnType { column: i }),
    }
}

/// A stored integer as a `u32` field.
pub open spec fn spec_to_u32(value: i64, field: Seq<char>) -> Result<u32, StorageErrorView> {
    if 0 <= value <= u32::MAX {
        Ok(value as u32)
    } else {
        Err(StorageErrorView::OutOfRange { field, value, wide: false })
    }
}

/// A stored integer as a `u64` field.
pub open spec fn spec_to_u64(value: i64, field: Seq<char>) -> Result<u64, StorageErrorView> {
    if 0 <= value {
        Ok(value as u64)
    } else {
        Err(StorageErrorView::OutOfRange { field, value, wide: true })
    }
}

/// Converts a stored integer to a `u32` field, refusing values out of range.
pub fn i64_to_u32(value: i64, field_name: &str) -> (res: Result<u32, StorageError>)
    ensures
        res_view(res, |v: u32| v) == spec_to_u32(value, field_name@),
{
    if value >= 0 && value <= u32::MAX as i64 {
        Ok(value as u32)
    } else {
        Err(StorageError::OutOfRange { field: field_name.to_owned(), value, wide: false })
    }
}

/// Converts a stored integer to a `u64` field, refusing negative values.
pub fn i64_to_u64(value: i64, field_name: &str) -> (res: Result<u64, StorageError>)
    ensures
        res_view(res, |v: u64| v) == spec_to_u64(value, field_name@),
{
    if value >= 0 {
        Ok(value as u64)
    } else {
        Err(StorageError::OutOfRange { field: field_name.to_owned(), value, wide: true })
    }
}

/// The stored name of a timer status.
pub open spec fn status_text(s: TimerStatus) -> Seq<char> {
    match s {
        TimerStatus::Running => "running"@,
        TimerStatus::Paused => "paused"@,
        TimerStatus::Stopped => "stopped"@,
    }
}

/// The status a stored name stands for.
pub open spec fn spec_parse_timer_status(t: Seq<char>) -> Result<TimerStatus, StorageErrorView> {
    if t == "running"@ {
        Ok(TimerStatus::Running)
    } else if t == "paused"@ {
        Ok(TimerStatus::Paused)
    } else if t == "stopped"@ {
        Ok(TimerStatus::Stopped)
    } else {
        Err(StorageErrorView::InvalidTimerStatus { text: t })
    }
}

pub fn timer_status_to_str(status: TimerStatus) -> (res: &'static str)
    ensures
        res@ == status_text(status),
{
    match status {
        TimerStatus::Running => "running",
        TimerStatus::Paused => "paused",
        TimerStatus::Stopped => "stopped",
    }
}

pub fn parse_timer_status(value: &str) -> (res: Result<TimerStatus, StorageError>)
    ensures
        res_view(res, |s: TimerStatus| s) == spec_parse_timer_status(value@),
{
    if str_eq(value, "running") {
        Ok(TimerStatus::Running)
    } else if str_eq(value, "paused") {
        Ok(TimerStatus::Paused)
    } else if str_eq(value, "stopped") {
        Ok(TimerStatus::Stopped)
    } else {
        Err(StorageError::InvalidTimerStatus { text: value.to_owned() })
    }
}

/// Law: a status read back from its stored name is the same status.
pub proof fn law_timer_status_round_trip(s: TimerStatus)
    ensures
        spec_parse_timer_status(status_text(s)) == Ok::<TimerStatus, StorageErrorView>(s),
{
    reveal_strlit("running");
    reveal_strlit("paused");
    reveal_strlit("stopped");
    assert("paused"@[0] != "running"@[0]);
    assert("stopped"@[0] != "running"@[0]);
    assert("stopped"@[0] != "paused"@[0]);
}

} // verus!
