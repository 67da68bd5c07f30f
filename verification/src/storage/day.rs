//! Days and their records as SQL rows.

use vstd::prelude::*;
use crate::date::{Date, format_date, spec_format_date};
use crate::models::{
    DayData, DayView, RecordView, TimePoint, WorkRecord, ids_increasing, insert_by_id,
    lemma_insert_by_id_last, lemma_insert_by_id_wf, put_record,
};
use super::row::{
    SqlStatement, SqlVal, SqlValue, StorageError, StorageErrorView, col_i64, col_opt_text, col_text,
    get_i64, get_opt_text, get_text, i64_to_u32, res_view, row_view, rows_view, spec_to_u32,
};
use super::sql::{DELETE_DAY_RECORDS, INSERT_DAY_META, INSERT_WORK_RECORD, UPDATE_DAY_META_IMPORT, UPDATE_DAY_META_SAVE};

verus! {

/// The clock reading `m` minutes after midnight.
pub open spec fn time_point_of(m: u32) -> TimePoint {
    TimePoint { hour: (m / 60) as u8, minute: (m % 60) as u8 }
}

/// The stored text of a field that may be NULL (NULL reads as empty).
pub open spec fn text_or_empty(t: Option<Seq<char>>) -> Seq<char> {
    match t {
        Some(s) => s,
        None => seq![],
    }
}

/// A record row, columns `id, name, start_minutes, end_minutes, total_minutes, project,
/// customer, description`, read in that order; minute counts must be times of day.
pub open spec fn spec_decode_record(row: Seq<SqlVal>) -> Result<RecordView, StorageErrorView> {
    match col_i64(row, 0) {
        Err(e) => Err(e),
        Ok(id_raw) => match spec_to_u32(id_raw, "work_records.id"@) {
            Err(e) => Err(e),
            Ok(id) => match col_text(row, 1) {
                Err(e) => Err(e),
                Ok(name) => match col_i64(row, 2) {
                    Err(e) => Err(e),
                    Ok(s_raw) => match spec_to_u32(s_raw, "work_records.start_minutes"@) {
                        Err(e) => Err(e),
                        Ok(start) => match col_i64(row, 3) {
                            Err(e) => Err(e),
                            Ok(e_raw) => match spec_to_u32(e_raw, "work_records.end_minutes"@) {
                                Err(e) => Err(e),
                                Ok(end) => match col_i64(row, 4) {
                                    Err(e) => Err(e),
                                    Ok(t_raw) => match spec_to_u32(t_raw, "work_records.total_minutes"@) {
                                        Err(e) => Err(e),
                                        Ok(total) => decode_record_tail(row, id, name, start, end, total),
                                    },
                                },
                            },
                        },
                    },
                },
            },
        },
    }
}

pub open spec fn decode_record_tail(
    row: Seq<SqlVal>,
    id: u32,
    name: Seq<char>,
    start: u32,
    end: u32,
    total: u32,
) -> Result<RecordView, StorageErrorView> {
    match col_opt_text(row, 5) {
        Err(e) => Err(e),
        Ok(project) => match col_opt_text(row, 6) {
            Err(e) => Err(e),
            Ok(customer) => match col_opt_text(row, 7) {
                Err(e) => Err(e),
                Ok(description) => if start >= 1440 {
                    Err(StorageErrorView::InvalidTimePoint { field: "start_minutes"@ })
                } else if end >= 1440 {
                    Err(StorageErrorView::InvalidTimePoint { field: "end_minutes"@ })
                } else {
                    Ok(RecordView {
                        id,
                        name,
                        start: time_point_of(start),
                        end: time_point_of(end),
                        total_minutes: total,
                        project: text_or_empty(project),
                        customer: text_or_empty(customer),
                        description: text_or_empty(description),
                    })
                },
            },
        },
    }
}

/// The records that rows give, each put in by id in row order; the first bad row's error.
pub open spec fn spec_decode_records(rows: Seq<Seq<SqlVal>>) -> Result<Seq<RecordView>, StorageErrorView>
    decreases rows.len(),
{
    if rows.len() == 0 {
        Ok(seq![])
    } else {
        match spec_decode_records(rows.drop_last()) {
            Err(e) => Err(e),
            Ok(rs) => match spec_decode_record(rows.last()) {
                Err(e) => Err(e),
                Ok(r) => Ok(insert_by_id(rs, r)),
            },
        }
    }
}

/// The day `date` from its `day_meta` row (`last_id`) and its record rows: no meta row means
/// the day was never written and is empty.
pub open spec fn spec_decode_day(
    date: Date,
    meta: Option<Seq<SqlVal>>,
    rows: Seq<Seq<SqlVal>>,
) -> Result<DayView, StorageErrorView> {
    match meta {
        None => Ok(DayView { date, last_id: 0, records: seq![] }),
        Some(m) => match col_i64(m, 0) {
            Err(e) => Err(e),
            Ok(raw) => match spec_to_u32(raw, "day_meta.last_id"@) {
                Err(e) => Err(e),
                Ok(last_id) => match spec_decode_records(rows) {
                    Err(e) => Err(e),
                    Ok(records) => Ok(DayView { date, last_id, records }),
                },
            },
        },
    }
}

pub fn decode_record(row: &Vec<SqlValue>) -> (res: Result<WorkRecord, StorageError>)
    ensures
        res_view(res, |r: WorkRecord| r@) == spec_decode_record(row_view(row@)),
        res matches Ok(r) ==> r@.wf(),
{
    let id = i64_to_u32(get_i64(row, 0)?, "work_records.id")?;
    let name = get_text(row, 1)?;
    let start_minutes = i64_to_u32(get_i64(row, 2)?, "work_records.start_minutes")?;
    let end_minutes = i64_to_u32(get_i64(row, 3)?, "work_records.end_minutes")?;
    let total_minutes = i64_to_u32(get_i64(row, 4)?, "work_records.total_minutes")?;
    let project = get_opt_text(row, 5)?;
    let customer = get_opt_text(row, 6)?;
    let description = get_opt_text(row, 7)?;
    let start = match TimePoint::from_minutes_since_midnight(start_minutes) {
        Some(t) => t,
        None => return Err(StorageError::InvalidTimePoint { field: "start_minutes".to_owned() }),
    };
    let end = match TimePoint::from_minutes_since_midnight(end_minutes) {
        Some(t) => t,
        None => return Err(StorageError::InvalidTimePoint { field: "end_minutes".to_owned() }),
    };
    assert(start == time_point_of(start_minutes));
    assert(end == time_point_of(end_minutes));
    Ok(WorkRecord {
        id,
        name,
        start,
        end,
        total_minutes,
        project: unwrap_text(project),
        customer: unwrap_text(customer),
        description: unwrap_text(description),
    })
}

fn unwrap_text(t: Option<String>) -> (res: String)
    ensures
        res@ == text_or_empty(super::row::opt_string_view(t)),
{
    match t {
        Some(s) => s,
        None => String::new(),
    }
}

/// Once a prefix of the rows fails to read, all of them fail with the same error.
proof fn lemma_decode_records_prefix_err(rows: Seq<Seq<SqlVal>>, j: int)
    requires
        0 <= j <= rows.len(),
        spec_decode_records(rows.take(j)) is Err,
    ensures
        spec_decode_records(rows) == spec_decode_records(rows.take(j)),
    decreases rows.len() - j,
{
    if j == rows.len() {
        assert(rows.take(j) =~= rows);
    } else {
        let init = rows.drop_last();
        assert(init.take(j) =~= rows.take(j));
        lemma_decode_records_prefix_err(init, j);
    }
}

/// Reads a day from its `day_meta` row and its record rows (rows are not read when there is
/// no meta row).
pub fn decode_day(date: &Date, meta: &Option<Vec<SqlValue>>, rows: &Vec<Vec<SqlValue>>) -> (res: Result<DayData, StorageError>)
    requires
        date.wf(),
    ensures
        res_view(res, |d: DayData| d@) == spec_decode_day(
            *date,
            match meta { Some(m) => Some(row_view(m@)), None => None },
            rows_view(rows@),
        ),
        res matches Ok(d) ==> d@.wf(),
{
    let m = match meta {
        None => {
            let d = DayData::new(*date);
            assert(d@.records =~= Seq::<RecordView>::empty());
            return Ok(d);
        },
        Some(m) => m,
    };
    let raw = get_i64(m, 0)?;
    let last_id = i64_to_u32(raw, "day_meta.last_id")?;
    assert(col_i64(row_view(m@), 0) == Ok::<i64, StorageErrorView>(raw));
    assert(spec_to_u32(raw, "day_meta.last_id"@) == Ok::<u32, StorageErrorView>(last_id));
    let ghost rv = rows_view(rows@);
    let mut records: Vec<WorkRecord> = Vec::new();
    let mut i: usize = 0;
    assert(rv.take(0) =~= Seq::<Seq<SqlVal>>::empty());
    assert(records@.map_values(|r: WorkRecord| r@) =~= Seq::<RecordView>::empty());
    while i < rows.len()
        invariant
            i <= rows@.len(),
            rv == rows_view(rows@),
            *meta == Some(*m),
            col_i64(row_view(m@), 0) == Ok::<i64, StorageErrorView>(raw),
            spec_to_u32(raw, "day_meta.last_id"@) == Ok::<u32, StorageErrorView>(last_id),
            spec_decode_records(rv.take(i as int)) == Ok::<Seq<RecordView>, StorageErrorView>(
                records@.map_values(|r: WorkRecord| r@),
            ),
            ids_increasing(records@.map_values(|r: WorkRecord| r@)),
            forall|k: int| 0 <= k < records@.len() ==> (#[trigger] records@[k])@.wf(),
        decreases rows.len() - i,
    {
        assert(rv.take(i + 1).drop_last() =~= rv.take(i as int));
        assert(rv.take(i + 1).last() == row_view(rows@[i as int]@));
        let rec = match decode_record(&rows[i]) {
            Ok(r) => r,
            Err(e) => {
                proof {
                    assert(spec_decode_record(rv.take(i + 1).last()) is Err);
                    assert(spec_decode_record(rv.take(i + 1).last()) == Err::<RecordView, StorageErrorView>(e@));
                    assert(spec_decode_records(rv.take(i + 1)) == Err::<Seq<RecordView>, StorageErrorView>(e@));
                    lemma_decode_records_prefix_err(rv, i + 1);
                    assert(spec_decode_records(rows_view(rows@)) == Err::<Seq<RecordView>, StorageErrorView>(e@));
                    assert(res_view(Err::<DayData, StorageError>(e), |d: DayData| d@) == Err::<DayView, StorageErrorView>(e@));
                    assert(spec_decode_day(*date, Some(row_view(m@)), rows_view(rows@)) == Err::<DayView, StorageErrorView>(e@));
                }
                return Err(e);
            },
        };
        let ghost before = records@.map_values(|r: WorkRecord| r@);
        proof {
            assert forall|k: int| 0 <= k < before.len() implies (#[trigger] before[k]).wf() by {
                assert(before[k] == records@[k]@);
            }
            lemma_insert_by_id_wf(before, rec@);
        }
        put_record(&mut records, rec);
        proof {
            let after = records@.map_values(|r: WorkRecord| r@);
            assert forall|k: int| 0 <= k < records@.len() implies (#[trigger] records@[k])@.wf() by {
                assert(after[k] == records@[k]@);
            }
        }
        i = i + 1;
    }
    assert(rv.take(rows@.len() as int) =~= rv);
    let d = DayData { date: *date, last_id, work_records: records };
    assert forall|k: int| 0 <= k < d@.records.len() implies (#[trigger] d@.records[k]).wf() by {
        assert(d@.records[k] == d.work_records@[k]@);
    }
    Ok(d)
}

/// The parameters of a record's insert after the date: id, name, start and end minutes,
/// total, project, customer, description.
pub open spec fn record_row(r: RecordView) -> Seq<SqlVal> {
    seq![
        SqlVal::Integer(r.id as i64),
        SqlVal::Text(r.name),
        SqlVal::Integer(r.start.minutes() as i64),
        SqlVal::Integer(r.end.minutes() as i64),
        SqlVal::Integer(r.total_minutes as i64),
        SqlVal::Text(r.project),
        SqlVal::Text(r.customer),
        SqlVal::Text(r.description),
    ]
}

/// A record's insert binds, after the date, in the column order of `INSERT_WORK_RECORD`
/// (`id, name, start_minutes, end_minutes, total_minutes, project, customer, description`),
/// each field to its own column: times as minutes after midnight, the project before the
/// customer, the description last.
pub proof fn law_record_row_layout(r: RecordView)
    ensures
        record_row(r).len() == 8,
        record_row(r)[0] == SqlVal::Integer(r.id as i64),
        record_row(r)[1] == SqlVal::Text(r.name),
        record_row(r)[2] == SqlVal::Integer((r.start.hour * 60 + r.start.minute) as i64),
        record_row(r)[3] == SqlVal::Integer((r.end.hour * 60 + r.end.minute) as i64),
        record_row(r)[4] == SqlVal::Integer(r.total_minutes as i64),
        record_row(r)[5] == SqlVal::Text(r.project),
        record_row(r)[6] == SqlVal::Text(r.customer),
        record_row(r)[7] == SqlVal::Text(r.description),
{
}

/// A record read from a row of `SELECT_DAY_RECORDS` takes each field from its own column:
/// the id from column 0, the name from 1, the start and end from the minute counts in 2 and
/// 3, the total from 4, then project, customer and description from 5, 6 and 7 (NULL reads
/// as empty text).
pub proof fn law_record_columns(row: Seq<SqlVal>)
    ensures
        spec_decode_record(row) matches Ok(r) ==> {
            &&& col_i64(row, 0) == Ok::<i64, StorageErrorView>(r.id as i64)
            &&& col_text(row, 1) == Ok::<Seq<char>, StorageErrorView>(r.name)
            &&& col_i64(row, 2) == Ok::<i64, StorageErrorView>((r.start.hour * 60 + r.start.minute) as i64)
            &&& col_i64(row, 3) == Ok::<i64, StorageErrorView>((r.end.hour * 60 + r.end.minute) as i64)
            &&& col_i64(row, 4) == Ok::<i64, StorageErrorView>(r.total_minutes as i64)
            &&& (col_opt_text(row, 5) matches Ok(t) && text_or_empty(t) == r.project)
            &&& (col_opt_text(row, 6) matches Ok(t) && text_or_empty(t) == r.customer)
            &&& (col_opt_text(row, 7) matches Ok(t) && text_or_empty(t) == r.description)
        },
{
}

/// The statements that write `day`: make sure its `day_meta` row exists, drop its old
/// records, insert each record in id order, then store `last_id` and move the revision on
/// (by one on a save; from 0 to 1 on an import).
pub open spec fn spec_write_day(day: DayView, increment_revision: bool) -> Seq<(Seq<char>, Seq<SqlVal>)> {
    let key = spec_format_date(day.date);
    seq![(INSERT_DAY_META@, seq![SqlVal::Text(key)]), (DELETE_DAY_RECORDS@, seq![SqlVal::Text(key)])]
        + day.records.map_values(|r: RecordView| (INSERT_WORK_RECORD@, seq![SqlVal::Text(key)] + record_row(r)))
        + seq![(
            if increment_revision { UPDATE_DAY_META_SAVE@ } else { UPDATE_DAY_META_IMPORT@ },
            seq![SqlVal::Integer(day.last_id as i64), SqlVal::Text(key)],
        )]
}

pub open spec fn statements_view(s: Seq<SqlStatement>) -> Seq<(Seq<char>, Seq<SqlVal>)> {
    s.map_values(|st: SqlStatement| st@)
}

fn text_value(s: &String) -> (res: SqlValue)
    ensures
        res@ == SqlVal::Text(s@),
{
    SqlValue::Text(s.clone())
}

fn key_statement(sql: &'static str, key: &String) -> (res: SqlStatement)
    ensures
        res@ == (sql@, seq![SqlVal::Text(key@)]),
{
    let params = vec![text_value(key)];
    let res = SqlStatement { sql: sql.to_owned(), params };
    assert(res@.1 =~= seq![SqlVal::Text(key@)]);
    res
}

fn meta_update_statement(increment_revision: bool, last_id: u32, key: &String) -> (res: SqlStatement)
    ensures
        res@ == (
            if increment_revision { UPDATE_DAY_META_SAVE@ } else { UPDATE_DAY_META_IMPORT@ },
            seq![SqlVal::Integer(last_id as i64), SqlVal::Text(key@)],
        ),
{
    let sql = if increment_revision { UPDATE_DAY_META_SAVE.to_owned() } else { UPDATE_DAY_META_IMPORT.to_owned() };
    let params = vec![SqlValue::Integer(last_id as i64), text_value(key)];
    let res = SqlStatement { sql, params };
    assert(res@.1 =~= seq![SqlVal::Integer(last_id as i64), SqlVal::Text(key@)]);
    res
}

fn record_statement(key: &String, r: &WorkRecord) -> (res: SqlStatement)
    requires
        r@.wf(),
    ensures
        res@ == (INSERT_WORK_RECORD@, seq![SqlVal::Text(key@)] + record_row(r@)),
{
    let params = vec![
        text_value(key),
        SqlValue::Integer(r.id as i64),
        text_value(&r.name),
        SqlValue::Integer(r.start.to_minutes_since_midnight() as i64),
        SqlValue::Integer(r.end.to_minutes_since_midnight() as i64),
        SqlValue::Integer(r.total_minutes as i64),
        text_value(&r.project),
        text_value(&r.customer),
        text_value(&r.description),
    ];
    let res = SqlStatement { sql: INSERT_WORK_RECORD.to_owned(), params };
    assert(res@.1 =~= seq![SqlVal::Text(key@)] + record_row(r@));
    res
}

/// The statements that write `day` (see `spec_write_day`).
pub fn write_day_statements(day: &DayData, increment_revision: bool) -> (res: Vec<SqlStatement>)
    requires
        day@.wf(),
    ensures
        statements_view(res@) == spec_write_day(day@, increment_revision),
{
    let key = format_date(&day.date);
    let mut out: Vec<SqlStatement> = Vec::new();
    out.push(key_statement(INSERT_DAY_META, &key));
    out.push(key_statement(DELETE_DAY_RECORDS, &key));
    let ghost head = seq![
        (INSERT_DAY_META@, seq![SqlVal::Text(key@)]),
        (DELETE_DAY_RECORDS@, seq![SqlVal::Text(key@)]),
    ];
    let ghost recs = day@.records;
    assert(statements_view(out@) =~= head);
    let mut i: usize = 0;
    while i < day.work_records.len()
        invariant
            i <= recs.len(),
            recs == day@.records,
            day@.wf(),
            key@ == spec_format_date(day.date),
            statements_view(out@) == head + recs.take(i as int).map_values(
                |r: RecordView| (INSERT_WORK_RECORD@, seq![SqlVal::Text(key@)] + record_row(r)),
            ),
        decreases recs.len() - i,
    {
        assert(recs[i as int] == day.work_records@[i as int]@);
        assert(recs[i as int].wf());
        let st = record_statement(&key, &day.work_records[i]);
        let ghost prev = out@;
        out.push(st);
        assert(statements_view(out@) =~= statements_view(prev).push(st@));
        i = i + 1;
        assert(recs.take(i as int).map_values(
            |r: RecordView| (INSERT_WORK_RECORD@, seq![SqlVal::Text(key@)] + record_row(r)),
        ) =~= recs.take(i - 1).map_values(
            |r: RecordView| (INSERT_WORK_RECORD@, seq![SqlVal::Text(key@)] + record_row(r)),
        ).push((INSERT_WORK_RECORD@, seq![SqlVal::Text(key@)] + record_row(recs[i - 1]))));
        assert(statements_view(out@) =~= head + recs.take(i as int).map_values(
            |r: RecordView| (INSERT_WORK_RECORD@, seq![SqlVal::Text(key@)] + record_row(r)),
        ));
    }
    assert(recs.take(recs.len() as int) =~= recs);
    let last = meta_update_statement(increment_revision, day.last_id, &key);
    let ghost prev = out@;
    out.push(last);
    assert(statements_view(out@) =~= statements_view(prev).push(last@));
    assert(statements_view(out@) =~= spec_write_day(day@, increment_revision));
    out
}

/// The rows that the record query gives back for a day written with `spec_write_day`:
/// its records' columns, in id order.
pub open spec fn stored_rows(day: DayView) -> Seq<Seq<SqlVal>> {
    day.records.map_values(|r: RecordView| record_row(r))
}

proof fn lemma_decode_record_row(r: RecordView)
    requires
        r.wf(),
    ensures
        spec_decode_record(record_row(r)) == Ok::<RecordView, StorageErrorView>(r),
{
    let row = record_row(r);
    assert(time_point_of(r.start.minutes() as u32) == r.start);
    assert(time_point_of(r.end.minutes() as u32) == r.end);
}

proof fn lemma_decode_stored_records(rs: Seq<RecordView>)
    requires
        ids_increasing(rs),
        forall|i: int| 0 <= i < rs.len() ==> (#[trigger] rs[i]).wf(),
    ensures
        spec_decode_records(rs.map_values(|r: RecordView| record_row(r))) == Ok::<Seq<RecordView>, StorageErrorView>(rs),
    decreases rs.len(),
{
    if rs.len() > 0 {
        let rows = rs.map_values(|r: RecordView| record_row(r));
        let init = rs.drop_last();
        assert(rows.drop_last() =~= init.map_values(|r: RecordView| record_row(r)));
        assert(ids_increasing(init));
        lemma_decode_stored_records(init);
        lemma_decode_record_row(rs.last());
        assert(rows.last() == record_row(rs.last()));
        assert forall|i: int| 0 <= i < init.len() implies (#[trigger] init[i]).id < rs.last().id by {
            assert(rs[i].id < rs[rs.len() - 1].id);
        }
        lemma_insert_by_id_last(init, rs.last());
        assert(init.push(rs.last()) =~= rs);
        assert(spec_decode_records(rows) == Ok::<Seq<RecordView>, StorageErrorView>(insert_by_id(init, rs.last())));
    } else {
        assert(rs =~= Seq::<RecordView>::empty());
        assert(rs.map_values(|r: RecordView| record_row(r)) =~= Seq::<Seq<SqlVal>>::empty());
    }
}

/// Law: a day read back from the rows it was written as is the day that was written
/// (the `day_meta` row holds its `last_id`; the record rows come back in id order).
pub proof fn law_day_round_trip(day: DayView)
    requires
        day.wf(),
    ensures
        spec_decode_day(day.date, Some(seq![SqlVal::Integer(day.last_id as i64)]), stored_rows(day))
            == Ok::<DayView, StorageErrorView>(day),
{
    lemma_decode_stored_records(day.records);
}

} // verus!
