//! The active timer as one SQL row.

use vstd::prelude::*;
use crate::date::{Date, date_from_triple, format_date, parse_date, spec_format_date, ymd_parse};
use crate::timer::{
    DateTime, TimerState, TimerStatus, TimerView, datetime_from_parts, format_rfc3339, opt_date_wf,
    opt_dt_wf, parse_rfc3339, rfc3339_parse_result, spec_rfc3339,
};
use super::row::{
    SqlStatement, SqlVal, SqlValue, StorageError, StorageErrorView, col_i64, col_opt_i64, col_opt_text,
    col_text, get_i64, get_opt_i64, get_opt_text, get_text, i64_to_u32, opt_string_view, parse_timer_status,
    res_view, row_view, spec_parse_timer_status, spec_to_u32, status_text, timer_status_to_str,
};
use super::sql::UPSERT_ACTIVE_TIMER;

verus! {

pub open spec fn opt_int(v: Option<u32>) -> SqlVal {
    match v {
        Some(x) => SqlVal::Integer(x as i64),
        None => SqlVal::Null,
    }
}

pub open spec fn opt_text_val(v: Option<Seq<char>>) -> SqlVal {
    match v {
        Some(x) => SqlVal::Text(x),
        None => SqlVal::Null,
    }
}

pub open spec fn opt_date_val(v: Option<Date>) -> SqlVal {
    match v {
        Some(d) => SqlVal::Text(spec_format_date(d)),
        None => SqlVal::Null,
    }
}

/// Every instant of the timer has an RFC 3339 text.
pub open spec fn timer_renderable(t: TimerView) -> bool {
    &&& spec_rfc3339(t.start_time) is Some
    &&& (t.end_time matches Some(e) ==> spec_rfc3339(e) is Some)
    &&& (t.paused_at matches Some(p) ==> spec_rfc3339(p) is Some)
    &&& spec_rfc3339(t.created_at) is Some
    &&& spec_rfc3339(t.updated_at) is Some
}

pub open spec fn opt_rfc_val(v: Option<DateTime>) -> SqlVal {
    match v {
        Some(d) => SqlVal::Text(spec_rfc3339(d).unwrap()),
        None => SqlVal::Null,
    }
}

/// The fifteen parameters of the timer upsert, in column order.
pub open spec fn timer_row(t: TimerView) -> Seq<SqlVal> {
    seq![
        opt_int(t.id),
        SqlVal::Text(t.task_name),
        opt_text_val(t.description),
        opt_text_val(t.project),
        opt_text_val(t.customer),
        SqlVal::Text(spec_rfc3339(t.start_time).unwrap()),
        opt_rfc_val(t.end_time),
        SqlVal::Text(spec_format_date(t.date)),
        SqlVal::Text(status_text(t.status)),
        SqlVal::Integer(t.paused_duration_secs),
        opt_rfc_val(t.paused_at),
        SqlVal::Text(spec_rfc3339(t.created_at).unwrap()),
        SqlVal::Text(spec_rfc3339(t.updated_at).unwrap()),
        opt_int(t.source_record_id),
        opt_date_val(t.source_record_date),
    ]
}

fn opt_u32_value(v: Option<u32>) -> (res: SqlValue)
    ensures
        res@ == opt_int(v),
{
    match v {
        Some(x) => SqlValue::Integer(x as i64),
        None => SqlValue::Null,
    }
}

fn opt_text_value(v: &Option<String>) -> (res: SqlValue)
    ensures
        res@ == opt_text_val(opt_string_view(*v)),
{
    match v {
        Some(x) => SqlValue::Text(x.clone()),
        None => SqlValue::Null,
    }
}

fn rfc_value(dt: &DateTime) -> (res: Result<SqlValue, StorageError>)
    requires
        dt.wf(),
    ensures
        spec_rfc3339(*dt) is Some <==> res is Ok,
        res matches Ok(v) ==> v@ == SqlVal::Text(spec_rfc3339(*dt).unwrap()),
        res is Ok ==> instant_reads_back(*dt),
        res matches Err(e) ==> e == StorageError::DateTimeFormat,
{
    match format_rfc3339(dt) {
        Some(s) => Ok(SqlValue::Text(s)),
        None => Err(StorageError::DateTimeFormat),
    }
}

fn opt_rfc_value(dt: &Option<DateTime>) -> (res: Result<SqlValue, StorageError>)
    requires
        opt_dt_wf(*dt),
    ensures
        (*dt matches Some(d) ==> spec_rfc3339(d) is Some) <==> res is Ok,
        res matches Ok(v) ==> v@ == opt_rfc_val(*dt),
        res is Ok ==> (*dt matches Some(d) ==> instant_reads_back(d)),
        res matches Err(e) ==> e == StorageError::DateTimeFormat,
{
    match dt {
        Some(d) => rfc_value(d),
        None => Ok(SqlValue::Null),
    }
}

fn opt_date_value(d: &Option<Date>) -> (res: SqlValue)
    requires
        opt_date_wf(*d),
    ensures
        res@ == opt_date_val(*d),
{
    match d {
        Some(x) => SqlValue::Text(format_date(x)),
        None => SqlValue::Null,
    }
}

/// The upsert that stores `timer` as the one active timer; refused when one of its instants
/// has no RFC 3339 text.
pub fn timer_statement(timer: &TimerState) -> (res: Result<SqlStatement, StorageError>)
    requires
        timer@.wf(),
    ensures
        timer_renderable(timer@) <==> res is Ok,
        res matches Ok(st) ==> st@ == (UPSERT_ACTIVE_TIMER@, timer_row(timer@)),
        res is Ok ==> timer_instants_read_back(timer@),
        res matches Err(e) ==> e == StorageError::DateTimeFormat,
{
    let start_time = rfc_value(&timer.start_time)?;
    let end_time = opt_rfc_value(&timer.end_time)?;
    let paused_at = opt_rfc_value(&timer.paused_at)?;
    let created_at = rfc_value(&timer.created_at)?;
    let updated_at = rfc_value(&timer.updated_at)?;
    let params = vec![
        opt_u32_value(timer.id),
        SqlValue::Text(timer.task_name.clone()),
        opt_text_value(&timer.description),
        opt_text_value(&timer.project),
        opt_text_value(&timer.customer),
        start_time,
        end_time,
        SqlValue::Text(format_date(&timer.date)),
        SqlValue::Text(timer_status_to_str(timer.status).to_owned()),
        SqlValue::Integer(timer.paused_duration_secs),
        paused_at,
        created_at,
        updated_at,
        opt_u32_value(timer.source_record_id),
        opt_date_value(&timer.source_record_date),
    ];
    let st = SqlStatement { sql: UPSERT_ACTIVE_TIMER.to_owned(), params };
    assert(st@.1 =~= timer_row(timer@));
    Ok(st)
}

/// The timer row binds, in the column order of `UPSERT_ACTIVE_TIMER` (`id, task_name,
/// description, project, customer, start_time, end_time, date, status, paused_duration_secs,
/// paused_at, created_at, updated_at, source_record_id, source_record_date`), each field of the
/// timer to its own column: `?4` is the project and `?5` the customer, instants are RFC 3339
/// texts, dates `YYYY-MM-DD`, the status `running`/`paused`/`stopped`, absent values NULL.
pub proof fn law_timer_row_layout(t: TimerView)
    ensures
        timer_row(t).len() == 15,
        timer_row(t)[0] == (match t.id { Some(x) => SqlVal::Integer(x as i64), None => SqlVal::Null }),
        timer_row(t)[1] == SqlVal::Text(t.task_name),
        timer_row(t)[2] == (match t.description { Some(x) => SqlVal::Text(x), None => SqlVal::Null }),
        timer_row(t)[3] == (match t.project { Some(x) => SqlVal::Text(x), None => SqlVal::Null }),
        timer_row(t)[4] == (match t.customer { Some(x) => SqlVal::Text(x), None => SqlVal::Null }),
        timer_row(t)[5] == SqlVal::Text(spec_rfc3339(t.start_time).unwrap()),
        timer_row(t)[6] == (match t.end_time { Some(x) => SqlVal::Text(spec_rfc3339(x).unwrap()), None => SqlVal::Null }),
        timer_row(t)[7] == SqlVal::Text(spec_format_date(t.date)),
        t.status == TimerStatus::Running ==> timer_row(t)[8] == SqlVal::Text("running"@),
        t.status == TimerStatus::Paused ==> timer_row(t)[8] == SqlVal::Text("paused"@),
        t.status == TimerStatus::Stopped ==> timer_row(t)[8] == SqlVal::Text("stopped"@),
        timer_row(t)[9] == SqlVal::Integer(t.paused_duration_secs),
        timer_row(t)[10] == (match t.paused_at { Some(x) => SqlVal::Text(spec_rfc3339(x).unwrap()), None => SqlVal::Null }),
        timer_row(t)[11] == SqlVal::Text(spec_rfc3339(t.created_at).unwrap()),
        timer_row(t)[12] == SqlVal::Text(spec_rfc3339(t.updated_at).unwrap()),
        timer_row(t)[13] == (match t.source_record_id { Some(x) => SqlVal::Integer(x as i64), None => SqlVal::Null }),
        timer_row(t)[14] == (match t.source_record_date { Some(d) => SqlVal::Text(spec_format_date(d)), None => SqlVal::Null }),
{
}

/// A timer read from a row takes each field from its own column of `SELECT_ACTIVE_TIMER`
/// (the same order as the upsert): the project from column 3 and the customer from column 4,
/// the task name from column 1, the start time from the RFC 3339 text in column 5, the date
/// from column 7, the status from the word in column 8, and so on.
pub proof fn law_timer_columns(row: Seq<SqlVal>)
    ensures
        spec_decode_timer(Some(row)) matches Ok(Some(v)) ==> {
            &&& col_opt_i64(row, 0) == Ok::<Option<i64>, StorageErrorView>(match v.id { Some(x) => Some(x as i64), None => None })
            &&& col_text(row, 1) == Ok::<Seq<char>, StorageErrorView>(v.task_name)
            &&& col_opt_text(row, 2) == Ok::<Option<Seq<char>>, StorageErrorView>(v.description)
            &&& col_opt_text(row, 3) == Ok::<Option<Seq<char>>, StorageErrorView>(v.project)
            &&& col_opt_text(row, 4) == Ok::<Option<Seq<char>>, StorageErrorView>(v.customer)
            &&& (col_text(row, 5) matches Ok(s) && rfc3339_parse_result(s) == Some(v.start_time.parts()))
            &&& (col_text(row, 7) matches Ok(s) && date_from_triple(ymd_parse(s)) == Some(v.date))
            &&& (col_text(row, 8) matches Ok(s) && (s == "running"@ || s == "paused"@ || s == "stopped"@))
            &&& (col_text(row, 8) == Ok::<Seq<char>, StorageErrorView>("running"@) <==> v.status == TimerStatus::Running)
            &&& (col_text(row, 8) == Ok::<Seq<char>, StorageErrorView>("paused"@) <==> v.status == TimerStatus::Paused)
            &&& col_i64(row, 9) == Ok::<i64, StorageErrorView>(v.paused_duration_secs)
            &&& (col_text(row, 11) matches Ok(s) && rfc3339_parse_result(s) == Some(v.created_at.parts()))
            &&& (col_text(row, 12) matches Ok(s) && rfc3339_parse_result(s) == Some(v.updated_at.parts()))
        },
{
    reveal_strlit("running");
    reveal_strlit("paused");
    reveal_strlit("stopped");
    if let Ok(Some(v)) = spec_decode_timer(Some(row)) {
        let c = spec_timer_columns(row)->Ok_0;
        assert(spec_timer_from_columns(c) == Ok::<TimerView, StorageErrorView>(v));
        assert(datetime_from_parts(rfc3339_parse_result(c.start_time).unwrap()) == v.start_time);
        assert(datetime_from_parts(rfc3339_parse_result(c.created_at).unwrap()) == v.created_at);
        assert(datetime_from_parts(rfc3339_parse_result(c.updated_at).unwrap()) == v.updated_at);
        assert("paused"@[0] != "running"@[0]);
        assert("stopped"@[0] != "running"@[0]);
        assert("stopped"@[0] != "paused"@[0]);
    }
}

/// The raw columns of a timer row, read in column order.
pub struct TimerColumns {
    pub id: Option<i64>,
    pub task_name: Seq<char>,
    pub description: Option<Seq<char>>,
    pub project: Option<Seq<char>>,
    pub customer: Option<Seq<char>>,
    pub start_time: Seq<char>,
    pub end_time: Option<Seq<char>>,
    pub date: Seq<char>,
    pub status: Seq<char>,
    pub paused_duration_secs: i64,
    pub paused_at: Option<Seq<char>>,
    pub created_at: Seq<char>,
    pub updated_at: Seq<char>,
    pub source_record_id: Option<i64>,
    pub source_record_date: Option<Seq<char>>,
}

/// Reads the fifteen columns; the first column of the wrong type (or missing) is the error.
pub open spec fn spec_timer_columns(row: Seq<SqlVal>) -> Result<TimerColumns, StorageErrorView> {
    match col_opt_i64(row, 0) { Err(e) => Err(e), Ok(id) =>
    match col_text(row, 1) { Err(e) => Err(e), Ok(task_name) =>
    match col_opt_text(row, 2) { Err(e) => Err(e), Ok(description) =>
    match col_opt_text(row, 3) { Err(e) => Err(e), Ok(project) =>
    match col_opt_text(row, 4) { Err(e) => Err(e), Ok(customer) =>
    match col_text(row, 5) { Err(e) => Err(e), Ok(start_time) =>
    match col_opt_text(row, 6) { Err(e) => Err(e), Ok(end_time) =>
    match col_text(row, 7) { Err(e) => Err(e), Ok(date) =>
    match col_text(row, 8) { Err(e) => Err(e), Ok(status) =>
    match col_i64(row, 9) { Err(e) => Err(e), Ok(paused_duration_secs) =>
    match col_opt_text(row, 10) { Err(e) => Err(e), Ok(paused_at) =>
    match col_text(row, 11) { Err(e) => Err(e), Ok(created_at) =>
    match col_text(row, 12) { Err(e) => Err(e), Ok(updated_at) =>
    match col_opt_i64(row, 13) { Err(e) => Err(e), Ok(source_record_id) =>
    match col_opt_text(row, 14) { Err(e) => Err(e), Ok(source_record_date) =>
    Ok(TimerColumns {
        id, task_name, description, project, customer, start_time, end_time, date, status,
        paused_duration_secs, paused_at, created_at, updated_at, source_record_id, source_record_date,
    })
    }}}}}}}}}}}}}}}
}

/// An instant column read as RFC 3339.
pub open spec fn spec_instant(text: Seq<char>, field: Seq<char>) -> Result<DateTime, StorageErrorView> {
    match rfc3339_parse_result(text) {
        Some(p) => Ok(datetime_from_parts(p)),
        None => Err(StorageErrorView::InvalidDateTime { field, text }),
    }
}

pub open spec fn spec_opt_instant(text: Option<Seq<char>>, field: Seq<char>) -> Result<Option<DateTime>, StorageErrorView> {
    match text {
        None => Ok(None),
        Some(t) => match spec_instant(t, field) {
            Ok(d) => Ok(Some(d)),
            Err(e) => Err(e),
        },
    }
}

/// A date column read as `YYYY-MM-DD`.
pub open spec fn spec_date_col(text: Seq<char>, field: Seq<char>) -> Result<Date, StorageErrorView> {
    match date_from_triple(ymd_parse(text)) {
        Some(d) => Ok(d),
        None => Err(StorageErrorView::InvalidDate { field, text }),
    }
}

pub open spec fn spec_opt_date_col(text: Option<Seq<char>>, field: Seq<char>) -> Result<Option<Date>, StorageErrorView> {
    match text {
        None => Ok(None),
        Some(t) => match spec_date_col(t, field) {
            Ok(d) => Ok(Some(d)),
            Err(e) => Err(e),
        },
    }
}

pub open spec fn spec_opt_u32(v: Option<i64>, field: Seq<char>) -> Result<Option<u32>, StorageErrorView> {
    match v {
        None => Ok(None),
        Some(x) => match spec_to_u32(x, field) {
            Ok(y) => Ok(Some(y)),
            Err(e) => Err(e),
        },
    }
}

/// Converts the raw columns, in the order id, start time, end time, date, status, paused-at,
/// created-at, updated-at, source record id, source record date.
pub open spec fn spec_timer_from_columns(c: TimerColumns) -> Result<TimerView, StorageErrorView> {
    match spec_opt_u32(c.id, "active_timer.id"@) { Err(e) => Err(e), Ok(id) =>
    match spec_instant(c.start_time, "active_timer.start_time"@) { Err(e) => Err(e), Ok(start_time) =>
    match spec_opt_instant(c.end_time, "active_timer.end_time"@) { Err(e) => Err(e), Ok(end_time) =>
    match spec_date_col(c.date, "active_timer.date"@) { Err(e) => Err(e), Ok(date) =>
    match spec_parse_timer_status(c.status) { Err(e) => Err(e), Ok(status) =>
    match spec_opt_instant(c.paused_at, "active_timer.paused_at"@) { Err(e) => Err(e), Ok(paused_at) =>
    match spec_instant(c.created_at, "active_timer.created_at"@) { Err(e) => Err(e), Ok(created_at) =>
    match spec_instant(c.updated_at, "active_timer.updated_at"@) { Err(e) => Err(e), Ok(updated_at) =>
    match spec_opt_u32(c.source_record_id, "active_timer.source_record_id"@) { Err(e) => Err(e), Ok(source_record_id) =>
    match spec_opt_date_col(c.source_record_date, "active_timer.source_record_date"@) { Err(e) => Err(e), Ok(source_record_date) =>
    Ok(TimerView {
        id, task_name: c.task_name, description: c.description, project: c.project, customer: c.customer,
        start_time, end_time, date, status, paused_duration_secs: c.paused_duration_secs, paused_at,
        created_at, updated_at, source_record_id, source_record_date,
    })
    }}}}}}}}}}
}

/// The active timer from its row: no row, no timer.
pub open spec fn spec_decode_timer(row: Option<Seq<SqlVal>>) -> Result<Option<TimerView>, StorageErrorView> {
    match row {
        None => Ok(None),
        Some(r) => match spec_timer_columns(r) {
            Err(e) => Err(e),
            Ok(c) => match spec_timer_from_columns(c) {
                Err(e) => Err(e),
                Ok(t) => Ok(Some(t)),
            },
        },
    }
}

fn instant(text: &String, field: &str) -> (res: Result<DateTime, StorageError>)
    ensures
        res_view(res, |d: DateTime| d) == spec_instant(text@, field@),
        res matches Ok(d) ==> d.wf(),
{
    match parse_rfc3339(text.as_str()) {
        Some(d) => Ok(d),
        None => Err(StorageError::InvalidDateTime { field: field.to_owned(), text: text.clone() }),
    }
}

fn opt_instant(text: &Option<String>, field: &str) -> (res: Result<Option<DateTime>, StorageError>)
    ensures
        res_view(res, |d: Option<DateTime>| d) == spec_opt_instant(opt_string_view(*text), field@),
        res matches Ok(d) ==> opt_dt_wf(d),
{
    match text {
        None => Ok(None),
        Some(t) => {
            let d = instant(t, field)?;
            Ok(Some(d))
        },
    }
}

fn date_col(text: &String, field: &str) -> (res: Result<Date, StorageError>)
    ensures
        res_view(res, |d: Date| d) == spec_date_col(text@, field@),
        res matches Ok(d) ==> d.wf(),
{
    match parse_date(text.as_str()) {
        Ok(d) => Ok(d),
        Err(_) => Err(StorageError::InvalidDate { field: field.to_owned(), text: text.clone() }),
    }
}

fn opt_u32(v: Option<i64>, field: &str) -> (res: Result<Option<u32>, StorageError>)
    ensures
        res_view(res, |x: Option<u32>| x) == spec_opt_u32(v, field@),
{
    match v {
        None => Ok(None),
        Some(x) => {
            let y = i64_to_u32(x, field)?;
            Ok(Some(y))
        },
    }
}

/// Reads the active timer from its row (`None` when there is no row).
pub fn decode_timer(row: &Option<Vec<SqlValue>>) -> (res: Result<Option<TimerState>, StorageError>)
    ensures
        res_view(res, |t: Option<TimerState>| match t { Some(x) => Some(x@), None => None }) == spec_decode_timer(
            match row { Some(r) => Some(row_view(r@)), None => None },
        ),
        res matches Ok(Some(t)) ==> t@.wf(),
{
    let r = match row {
        None => return Ok(None),
        Some(r) => r,
    };
    let ghost rv = row_view(r@);
    let id = get_opt_i64(r, 0)?;
    let task_name = get_text(r, 1)?;
    let description = get_opt_text(r, 2)?;
    let project = get_opt_text(r, 3)?;
    let customer = get_opt_text(r, 4)?;
    let start_text = get_text(r, 5)?;
    let end_text = get_opt_text(r, 6)?;
    let date_text = get_text(r, 7)?;
    let status_text = get_text(r, 8)?;
    let paused_duration_secs = get_i64(r, 9)?;
    let paused_text = get_opt_text(r, 10)?;
    let created_text = get_text(r, 11)?;
    let updated_text = get_text(r, 12)?;
    let source_id_raw = get_opt_i64(r, 13)?;
    let source_date_text = get_opt_text(r, 14)?;
    let ghost cols = TimerColumns {
        id,
        task_name: task_name@,
        description: opt_string_view(description),
        project: opt_string_view(project),
        customer: opt_string_view(customer),
        start_time: start_text@,
        end_time: opt_string_view(end_text),
        date: date_text@,
        status: status_text@,
        paused_duration_secs,
        paused_at: opt_string_view(paused_text),
        created_at: created_text@,
        updated_at: updated_text@,
        source_record_id: source_id_raw,
        source_record_date: opt_string_view(source_date_text),
    };
    assert(spec_timer_columns(rv) == Ok::<TimerColumns, StorageErrorView>(cols));
    let id = opt_u32(id, "active_timer.id")?;
    let start_time = instant(&start_text, "active_timer.start_time")?;
    let end_time = opt_instant(&end_text, "active_timer.end_time")?;
    let date = date_col(&date_text, "active_timer.date")?;
    let status = parse_timer_status(status_text.as_str())?;
    let paused_at = opt_instant(&paused_text, "active_timer.paused_at")?;
    let created_at = instant(&created_text, "active_timer.created_at")?;
    let updated_at = instant(&updated_text, "active_timer.updated_at")?;
    let source_record_id = opt_u32(source_id_raw, "active_timer.source_record_id")?;
    let source_record_date = match &source_date_text {
        None => None,
        Some(t) => Some(date_col(t, "active_timer.source_record_date")?),
    };
    let timer = TimerState {
        id,
        task_name,
        description,
        project,
        customer,
        start_time,
        end_time,
        date,
        status,
        paused_duration_secs,
        paused_at,
        created_at,
        updated_at,
        source_record_id,
        source_record_date,
    };
    Ok(Some(timer))
}

} // verus!

verus! {

/// The instant's RFC 3339 text exists and reads back as the same instant.
pub open spec fn instant_reads_back(dt: DateTime) -> bool {
    spec_rfc3339(dt) matches Some(t) && rfc3339_parse_result(t) == Some(dt.parts())
}

/// Every instant of the timer reads back from its RFC 3339 text (`format_rfc3339` states this
/// of each text it renders, so it holds of every timer that `timer_statement` stores).
pub open spec fn timer_instants_read_back(t: TimerView) -> bool {
    &&& instant_reads_back(t.start_time)
    &&& (t.end_time matches Some(e) ==> instant_reads_back(e))
    &&& (t.paused_at matches Some(p) ==> instant_reads_back(p))
    &&& instant_reads_back(t.created_at)
    &&& instant_reads_back(t.updated_at)
}

/// Law: a stored timer is read back as the same timer, when its instants read back (true of
/// every timer that was stored, see `timer_statement`) and its dates have years outside
/// -999..=-1 (which `{:04}` writes with three digits, so they do not read back).
#[verifier::spinoff_prover]
#[verifier::rlimit(40)]
pub proof fn law_timer_round_trip(t: TimerView)
    requires
        t.wf(),
        timer_instants_read_back(t),
        t.date.year >= 0 || t.date.year <= -1000,
        t.source_record_date matches Some(d) ==> (d.year >= 0 || d.year <= -1000),
    ensures
        timer_renderable(t),
        spec_decode_timer(Some(timer_row(t))) == Ok::<Option<TimerView>, StorageErrorView>(Some(t)),
{
    crate::date::law_date_text_reads_back(t.date);
    assert(date_from_triple(ymd_parse(spec_format_date(t.date))) == Some(t.date));
    if let Some(d) = t.source_record_date {
        crate::date::law_date_text_reads_back(d);
        assert(date_from_triple(ymd_parse(spec_format_date(d))) == Some(d));
    }
    reveal_strlit("running");
    reveal_strlit("paused");
    reveal_strlit("stopped");
    assert("paused"@[0] != "running"@[0]);
    assert("stopped"@[0] != "running"@[0]);
    assert("stopped"@[0] != "paused"@[0]);
    let row = timer_row(t);
    assert(datetime_from_parts(t.start_time.parts()) == t.start_time);
    assert(datetime_from_parts(t.created_at.parts()) == t.created_at);
    assert(datetime_from_parts(t.updated_at.parts()) == t.updated_at);
    if let Some(e) = t.end_time {
        assert(datetime_from_parts(e.parts()) == e);
    }
    if let Some(p) = t.paused_at {
        assert(datetime_from_parts(p.parts()) == p);
    }
    assert(spec_parse_timer_status(status_text(t.status)) == Ok::<TimerStatus, StorageErrorView>(t.status));
    let cols = TimerColumns {
        id: match t.id { Some(x) => Some(x as i64), None => None },
        task_name: t.task_name,
        description: t.description,
        project: t.project,
        customer: t.customer,
        start_time: spec_rfc3339(t.start_time).unwrap(),
        end_time: match t.end_time { Some(e) => Some(spec_rfc3339(e).unwrap()), None => None },
        date: spec_format_date(t.date),
        status: status_text(t.status),
        paused_duration_secs: t.paused_duration_secs,
        paused_at: match t.paused_at { Some(e) => Some(spec_rfc3339(e).unwrap()), None => None },
        created_at: spec_rfc3339(t.created_at).unwrap(),
        updated_at: spec_rfc3339(t.updated_at).unwrap(),
        source_record_id: match t.source_record_id { Some(x) => Some(x as i64), None => None },
        source_record_date: match t.source_record_date { Some(d) => Some(spec_format_date(d)), None => None },
    };
    assert(spec_timer_columns(row) == Ok::<TimerColumns, StorageErrorView>(cols));
    assert(spec_timer_from_columns(cols) == Ok::<TimerView, StorageErrorView>(t));
}

} // verus!
