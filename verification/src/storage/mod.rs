//! The SQLite storage protocol: which statements persist the tracker's data, and how the
//! rows that come back are read. Running the statements, inside one transaction per
//! operation, is the caller's part.

pub mod day;
pub mod row;
pub mod sql;
pub mod timer_row;
pub mod tracker;

use vstd::prelude::*;
use crate::date::{Date, date_from_triple, format_date, law_date_text_reads_back, law_date_text_round_trip, parse_date, spec_format_date, spec_previous_day, ymd_parse};
use crate::models::{DayData, DayView};
use crate::text::{chars_of, chars_eq, sort_texts, string_from_chars, text_lt, texts_increasing, trim, trim_chars};
use crate::timer::{TimerState, TimerView};
use self::day::{decode_day, spec_decode_day, spec_write_day, statements_view, write_day_statements};
use self::row::{
    SqlStatement, SqlVal, SqlValue, StorageError, StorageErrorView, col_i64, col_text, get_i64, get_text,
    i64_to_u64, res_view, row_view, rows_view, spec_to_u64,
};
use self::sql::{
    CONNECTION_PRAGMAS, DATABASE_PRAGMAS, DELETE_ACTIVE_TIMER, SCHEMA_CONTRACT, SCHEMA_CONTRACT_META_KEY,
    SCHEMA_MIN_COMPATIBLE_META_KEY, SCHEMA_MIN_COMPATIBLE_VERSION, SCHEMA_VERSION, SCHEMA_VERSION_META_KEY, SCHEMA_VIEWS,
    SET_USER_VERSION, JSON_MIGRATION_DONE, JSON_MIGRATION_META_KEY,
    LEGACY_ACTIVE_TIMER_FILE_NAME, LEGACY_RUNNING_TIMER_FILE_NAME, SCHEMA, UPSERT_ACTIVE_TIMER, UPSERT_META_VALUE,
};
use self::timer_row::{decode_timer, law_timer_round_trip, spec_decode_timer, timer_renderable, timer_row, timer_statement};

verus! {

/// What `doctor` reports about the storage.
#[derive(Debug)]
pub struct StorageDiagnostics {
    pub database_path: String,
    pub migration_marker: Option<String>,
    pub days_count: u64,
    pub work_records_count: u64,
    pub active_timer_present: bool,
    pub legacy_day_json_files: u64,
    pub legacy_timer_json_files: u64,
}

/// The storage of one database file.
#[derive(Clone, Debug)]
pub struct Storage {
    pub db_path: String,
}

/// `name` without a trailing `.json`, if it has one.
pub open spec fn json_stem(name: Seq<char>) -> Option<Seq<char>> {
    if name.len() >= 5 && name.skip(name.len() - 5) == ".json"@ {
        Some(name.take(name.len() - 5))
    } else {
        None
    }
}

pub open spec fn is_legacy_timer_name(name: Seq<char>) -> bool {
    name == LEGACY_RUNNING_TIMER_FILE_NAME@ || name == LEGACY_ACTIVE_TIMER_FILE_NAME@
}

/// The date a legacy per-day JSON file is named after (`YYYY-MM-DD.json`).
pub open spec fn legacy_day_date(name: Seq<char>) -> Option<Date> {
    if is_legacy_timer_name(name) {
        None
    } else {
        match json_stem(name) {
            Some(stem) => date_from_triple(ymd_parse(stem)),
            None => None,
        }
    }
}

/// A legacy day file is named after its date, `YYYY-MM-DD.json`: that name gives back the
/// date (for every year but -999..=-1, which `{:04}` writes with three digits), while the two
/// legacy timer files name no day.
pub proof fn law_legacy_day_file_named_by_date(d: Date)
    requires
        d.wf(),
        d.year >= 0 || d.year <= -1000,
    ensures
        legacy_day_date(spec_format_date(d) + ".json"@) == Some(d),
        legacy_day_date(LEGACY_RUNNING_TIMER_FILE_NAME@) is None,
        legacy_day_date(LEGACY_ACTIVE_TIMER_FILE_NAME@) is None,
{
    reveal_strlit(".json");
    reveal_strlit("running_timer.json");
    reveal_strlit("active_timer.json");
    law_date_text_reads_back(d);
    let f = spec_format_date(d);
    let name = f + ".json"@;
    if d.year >= 0 {
        law_date_text_round_trip(d);
        assert(f[0] == '-' || ('0' <= f[0] && f[0] <= '9'));
    } else {
        assert(f[0] == '-');
    }
    assert(name.skip(name.len() - 5) =~= ".json"@);
    assert(name.take(name.len() - 5) =~= f);
    assert(!is_legacy_timer_name(name)) by {
        assert(name[0] == f[0]);
        assert(LEGACY_RUNNING_TIMER_FILE_NAME@[0] == 'r');
        assert(LEGACY_ACTIVE_TIMER_FILE_NAME@[0] == 'a');
    }
}

/// How many names are legacy day files.
pub open spec fn count_legacy_days(names: Seq<Seq<char>>) -> nat
    decreases names.len(),
{
    if names.len() == 0 {
        0
    } else {
        count_legacy_days(names.drop_last()) + if legacy_day_date(names.last()) is Some { 1nat } else { 0nat }
    }
}

/// How many names are legacy timer files.
pub open spec fn count_legacy_timers(names: Seq<Seq<char>>) -> nat
    decreases names.len(),
{
    if names.len() == 0 {
        0
    } else {
        count_legacy_timers(names.drop_last()) + if is_legacy_timer_name(names.last()) { 1nat } else { 0nat }
    }
}

/// Counting legacy files: one more file named after a date adds one day file and no timer
/// file; one more legacy timer file adds one timer file and no day file.
pub proof fn law_legacy_counts_tell_days_from_timers(names: Seq<Seq<char>>, d: Date)
    requires
        d.wf(),
        d.year >= 0 || d.year <= -1000,
    ensures
        spec_legacy_counts(names.push(spec_format_date(d) + ".json"@))
            == (spec_legacy_counts(names).0 + 1, spec_legacy_counts(names).1),
        spec_legacy_counts(names.push(LEGACY_RUNNING_TIMER_FILE_NAME@))
            == (spec_legacy_counts(names).0, spec_legacy_counts(names).1 + 1),
        spec_legacy_counts(names.push(LEGACY_ACTIVE_TIMER_FILE_NAME@))
            == (spec_legacy_counts(names).0, spec_legacy_counts(names).1 + 1),
{
    law_legacy_day_file_named_by_date(d);
    let n1 = names.push(spec_format_date(d) + ".json"@);
    let n2 = names.push(LEGACY_RUNNING_TIMER_FILE_NAME@);
    let n3 = names.push(LEGACY_ACTIVE_TIMER_FILE_NAME@);
    assert(n1.drop_last() =~= names);
    assert(n2.drop_last() =~= names);
    assert(n3.drop_last() =~= names);
    assert(!is_legacy_timer_name(spec_format_date(d) + ".json"@));
}

/// Legacy day files and legacy timer files among the file names.
pub open spec fn spec_legacy_counts(names: Seq<Seq<char>>) -> (nat, nat) {
    (count_legacy_days(names), count_legacy_timers(names))
}

fn json_stem_exec(cs: &Vec<char>) -> (res: Option<Vec<char>>)
    ensures
        match json_stem(cs@) {
            Some(s) => (res matches Some(r) && r@ == s),
            None => res is None,
        },
{
    proof { reveal_strlit(".json"); }
    let n = cs.len();
    if n >= 5 && cs[n - 5] == '.' && cs[n - 4] == 'j' && cs[n - 3] == 's' && cs[n - 2] == 'o' && cs[n - 1] == 'n' {
        assert(cs@.skip(n - 5) =~= ".json"@);
        let mut out: Vec<char> = Vec::new();
        let mut i: usize = 0;
        while i < n - 5
            invariant
                i <= n - 5,
                n == cs@.len(),
                n >= 5,
                out@ == cs@.take(i as int),
            decreases n - 5 - i,
        {
            out.push(cs[i]);
            i = i + 1;
            assert(out@ =~= cs@.take(i as int));
        }
        Some(out)
    } else {
        proof {
            if n >= 5 {
                let tail = cs@.skip(n - 5);
                if tail == ".json"@ {
                    assert(tail[0] == cs@[n - 5]);
                    assert(tail[1] == cs@[n - 4]);
                    assert(tail[2] == cs@[n - 3]);
                    assert(tail[3] == cs@[n - 2]);
                    assert(tail[4] == cs@[n - 1]);
                }
            }
        }
        None
    }
}

fn is_legacy_timer_name_exec(name: &str) -> (res: bool)
    ensures
        res == is_legacy_timer_name(name@),
{
    crate::text::str_eq(name, LEGACY_RUNNING_TIMER_FILE_NAME) || crate::text::str_eq(name, LEGACY_ACTIVE_TIMER_FILE_NAME)
}

/// The date a legacy day file is named after.
pub fn legacy_day_file_date(name: &str) -> (res: Option<Date>)
    ensures
        res == legacy_day_date(name@),
        res matches Some(d) ==> d.wf(),
{
    if is_legacy_timer_name_exec(name) {
        return None;
    }
    let cs = chars_of(name);
    match json_stem_exec(&cs) {
        None => None,
        Some(stem) => {
            let s = string_from_chars(&stem);
            match parse_date(s.as_str()) {
                Ok(d) => Some(d),
                Err(_) => None,
            }
        },
    }
}

/// Counts the legacy per-day JSON files and legacy timer JSON files among the file names of
/// the data directory.
pub fn count_legacy_json_files(names: &Vec<String>) -> (res: (u64, u64))
    requires
        names@.len() < u64::MAX,
    ensures
        res.0 == spec_legacy_counts(names@.map_values(|s: String| s@)).0,
        res.1 == spec_legacy_counts(names@.map_values(|s: String| s@)).1,
{
    let ghost nv = names@.map_values(|s: String| s@);
    let mut days: u64 = 0;
    let mut timers: u64 = 0;
    let mut i: usize = 0;
    while i < names.len()
        invariant
            i <= names@.len() < u64::MAX,
            nv == names@.map_values(|s: String| s@),
            days == count_legacy_days(nv.take(i as int)),
            timers == count_legacy_timers(nv.take(i as int)),
            days <= i,
            timers <= i,
        decreases names.len() - i,
    {
        assert(nv.take(i + 1).drop_last() =~= nv.take(i as int));
        assert(nv.take(i + 1).last() == names@[i as int]@);
        let name = names[i].as_str();
        if is_legacy_timer_name_exec(name) {
            timers = timers + 1;
        } else if legacy_day_file_date(name).is_some() {
            days = days + 1;
        }
        i = i + 1;
    }
    assert(nv.take(names@.len() as int) =~= nv);
    (days, timers)
}

/// A legacy per-day JSON file to import, and the date it is named after.
#[derive(Debug)]
pub struct LegacyDayFile {
    pub file_name: String,
    pub date: Date,
}

/// The legacy per-day files among the file names, in file-name order.
#[verifier::spinoff_prover]
pub fn legacy_day_candidates(names: &Vec<String>) -> (res: Vec<LegacyDayFile>)
    requires
        names@.map_values(|s: String| s@).no_duplicates(),
    ensures
        texts_increasing(res@.map_values(|f: LegacyDayFile| f.file_name@)),
        forall|i: int| 0 <= i < res@.len() ==> {
            &&& names@.map_values(|s: String| s@).contains(#[trigger] res@[i].file_name@)
            &&& legacy_day_date(res@[i].file_name@) == Some(res@[i].date)
        },
        forall|i: int| 0 <= i < names@.len() && (#[trigger] legacy_day_date(names@[i]@)) is Some ==>
            res@.map_values(|f: LegacyDayFile| f.file_name@).contains(names@[i]@),
{
    let ghost nv = names@.map_values(|s: String| s@);
    let sorted = sort_texts(names.clone());
    let ghost sv = sorted@.map_values(|s: String| s@);
    let mut out: Vec<LegacyDayFile> = Vec::new();
    let mut i: usize = 0;
    while i < sorted.len()
        invariant
            i <= sorted@.len(),
            sv == sorted@.map_values(|s: String| s@),
            texts_increasing(sv),
            forall|k: int| 0 <= k < sorted@.len() ==> nv.contains(#[trigger] sorted@[k]@),
            forall|k: int| 0 <= k < out@.len() ==> exists|j: int| 0 <= j < i && sv[j] == (#[trigger] out@[k]).file_name@,
            forall|a: int, b: int| 0 <= a < b < out@.len() ==> exists|ja: int, jb: int|
                0 <= ja < jb < i && sv[ja] == (#[trigger] out@[a]).file_name@ && sv[jb] == (#[trigger] out@[b]).file_name@,
            forall|k: int| 0 <= k < out@.len() ==> legacy_day_date((#[trigger] out@[k]).file_name@) == Some(out@[k].date),
            forall|j: int| 0 <= j < i && (#[trigger] legacy_day_date(sv[j])) is Some ==>
                out@.map_values(|f: LegacyDayFile| f.file_name@).contains(sv[j]),
        decreases sorted.len() - i,
    {
        assert(sv[i as int] == sorted@[i as int]@);
        let ghost before = out@;
        match legacy_day_file_date(sorted[i].as_str()) {
            Some(d) => {
                out.push(LegacyDayFile { file_name: sorted[i].clone(), date: d });
                assert forall|a: int, b: int| 0 <= a < b < out@.len() implies exists|ja: int, jb: int|
                    0 <= ja < jb < i + 1 && sv[ja] == (#[trigger] out@[a]).file_name@ && sv[jb] == (#[trigger] out@[b]).file_name@ by {
                    if b < before.len() {
                        assert(out@[a] == before[a] && out@[b] == before[b]);
                        assert(exists|ja: int, jb: int|
                            0 <= ja < jb < i && sv[ja] == before[a].file_name@ && sv[jb] == before[b].file_name@);
                        let (ja, jb) = choose|ja: int, jb: int|
                            0 <= ja < jb < i && sv[ja] == before[a].file_name@ && sv[jb] == before[b].file_name@;
                        assert(0 <= ja < jb < i + 1 && sv[ja] == out@[a].file_name@ && sv[jb] == out@[b].file_name@);
                    } else {
                        assert(out@[a] == before[a]);
                        assert(exists|j: int| 0 <= j < i && sv[j] == before[a].file_name@);
                        let ja = choose|j: int| 0 <= j < i && sv[j] == before[a].file_name@;
                        assert(sv[i as int] == out@[b].file_name@);
                        assert(0 <= ja < i < i + 1 && sv[ja] == out@[a].file_name@ && sv[i as int] == out@[b].file_name@);
                    }
                }
                assert forall|j: int| 0 <= j < i + 1 && (#[trigger] legacy_day_date(sv[j])) is Some implies
                    out@.map_values(|f: LegacyDayFile| f.file_name@).contains(sv[j]) by {
                    if j == i {
                        assert(out@.map_values(|f: LegacyDayFile| f.file_name@)[before.len() as int] == sv[j]);
                    } else {
                        let bv = before.map_values(|f: LegacyDayFile| f.file_name@);
                        assert(bv.contains(sv[j]));
                        let m = choose|m: int| 0 <= m < bv.len() && #[trigger] bv[m] == sv[j];
                        assert(out@.map_values(|f: LegacyDayFile| f.file_name@)[m] == sv[j]);
                    }
                }
            },
            None => {},
        }
        i = i + 1;
    }
    proof {
        let ov = out@.map_values(|f: LegacyDayFile| f.file_name@);
        assert forall|a: int, b: int| 0 <= a < b < ov.len() implies text_lt(#[trigger] ov[a], #[trigger] ov[b]) by {
            assert(ov[a] == out@[a].file_name@);
            assert(ov[b] == out@[b].file_name@);
            let (ja, jb) = choose|ja: int, jb: int|
                0 <= ja < jb < i && sv[ja] == out@[a].file_name@ && sv[jb] == out@[b].file_name@;
        }
        assert forall|k: int| 0 <= k < out@.len() implies nv.contains(#[trigger] out@[k].file_name@) by {
            let j = choose|j: int| 0 <= j < i && sv[j] == out@[k].file_name@;
            assert(nv.contains(sorted@[j]@));
        }
        assert forall|k: int| 0 <= k < names@.len() && (#[trigger] legacy_day_date(names@[k]@)) is Some implies
            ov.contains(names@[k]@) by {
            assert(nv[k] == names@[k]@);
            assert(sorted@.map_values(|s: String| s@).contains(nv[k]));
            let j = choose|j: int| 0 <= j < sv.len() && sv[j] == nv[k];
            assert(legacy_day_date(sv[j]) is Some);
        }
    }
    out
}

/// Which legacy timer file to import: none when a timer is already stored; otherwise the
/// running-timer file when it exists, else the active-timer file when it exists.
pub fn legacy_timer_file(timer_stored: bool, running_exists: bool, active_exists: bool) -> (res: Option<&'static str>)
    ensures
        timer_stored ==> res is None,
        !timer_stored && running_exists ==> (res matches Some(n) && n@ == LEGACY_RUNNING_TIMER_FILE_NAME@),
        !timer_stored && !running_exists && active_exists ==> (res matches Some(n) && n@ == LEGACY_ACTIVE_TIMER_FILE_NAME@),
        !timer_stored && !running_exists && !active_exists ==> res is None,
{
    if timer_stored {
        None
    } else if running_exists {
        Some(LEGACY_RUNNING_TIMER_FILE_NAME)
    } else if active_exists {
        Some(LEGACY_ACTIVE_TIMER_FILE_NAME)
    } else {
        None
    }
}

/// The date that a row's first column names.
pub open spec fn date_in_row(row: Seq<SqlVal>) -> Option<Date> {
    match col_text(row, 0) {
        Ok(t) => date_from_triple(ymd_parse(t)),
        Err(_) => None,
    }
}

/// A stored count from its row, as a `u64`.
pub open spec fn spec_count(row: Seq<SqlVal>, field: Seq<char>) -> Result<u64, StorageErrorView> {
    match col_i64(row, 0) {
        Err(e) => Err(e),
        Ok(v) => spec_to_u64(v, field),
    }
}

/// The first problem with the rows `doctor` reads: the marker, then the day count, then the
/// record count.
pub open spec fn diagnostics_error(
    marker: Option<Seq<SqlVal>>,
    days: Seq<SqlVal>,
    records: Seq<SqlVal>,
) -> Option<StorageErrorView> {
    if marker matches Some(m) && col_text(m, 0) is Err {
        Some(col_text(marker->0, 0)->Err_0)
    } else if spec_count(days, "day_meta count"@) is Err {
        Some(spec_count(days, "day_meta count"@)->Err_0)
    } else if spec_count(records, "work_records count"@) is Err {
        Some(spec_count(records, "work_records count"@)->Err_0)
    } else {
        None
    }
}

/// Why a row of `LIST_DATES_WITH_RECORDS` names no date.
pub open spec fn row_date_error(row: Seq<SqlVal>) -> StorageErrorView {
    match col_text(row, 0) {
        Err(e) => e,
        Ok(t) => StorageErrorView::InvalidDate { field: "work_records.date"@, text: t },
    }
}

/// The revision token of a day from its `revision` row: none for a day never written;
/// a negative revision is refused.
pub open spec fn spec_revision_token(row: Option<Seq<SqlVal>>) -> Result<Option<u64>, StorageErrorView> {
    match row {
        None => Ok(None),
        Some(r) => match col_i64(r, 0) {
            Err(e) => Err(e),
            Ok(v) => if v < 0 {
                Err(StorageErrorView::NegativeRevision { value: v })
            } else {
                Ok(Some(v as u64))
            },
        },
    }
}

pub open spec fn opt_row_view(row: Option<Vec<SqlValue>>) -> Option<Seq<SqlVal>> {
    match row {
        Some(r) => Some(row_view(r@)),
        None => None,
    }
}

fn meta_statement(key: &'static str, value: &'static str) -> (res: SqlStatement)
    ensures
        res@ == (UPSERT_META_VALUE@, seq![SqlVal::Text(key@), SqlVal::Text(value@)]),
{
    let res = SqlStatement {
        sql: UPSERT_META_VALUE.to_owned(),
        params: vec![SqlValue::Text(key.to_owned()), SqlValue::Text(value.to_owned())],
    };
    assert(res@.1 =~= seq![SqlVal::Text(key@), SqlVal::Text(value@)]);
    res
}

/// `PRAGMA user_version` is set to the same number `meta` records as `schema.version`.
pub proof fn law_user_version_matches_schema_version()
    ensures
        SET_USER_VERSION@ == "PRAGMA user_version = "@ + SCHEMA_VERSION@ + ";"@,
{
    reveal_strlit("PRAGMA user_version = 1;");
    reveal_strlit("PRAGMA user_version = ");
    reveal_strlit("1");
    reveal_strlit(";");
    assert(SET_USER_VERSION@ =~= "PRAGMA user_version = "@ + SCHEMA_VERSION@ + ";"@);
}

/// The statements that open a database: connection pragmas, database pragmas, schema.
pub open spec fn spec_open_batches() -> Seq<Seq<char>> {
    seq![CONNECTION_PRAGMAS@, DATABASE_PRAGMAS@, SCHEMA@]
}

/// The batches run once the base tables have all their columns: the views, then the
/// schema version pragma.
pub open spec fn spec_finish_batches() -> Seq<Seq<char>> {
    seq![SCHEMA_VIEWS@, SET_USER_VERSION@]
}

/// The statements that write the schema's version metadata into `meta`.
pub open spec fn spec_schema_meta_statements() -> Seq<(Seq<char>, Seq<SqlVal>)> {
    seq![
        (UPSERT_META_VALUE@, seq![SqlVal::Text(SCHEMA_VERSION_META_KEY@), SqlVal::Text(SCHEMA_VERSION@)]),
        (UPSERT_META_VALUE@, seq![SqlVal::Text(SCHEMA_MIN_COMPATIBLE_META_KEY@), SqlVal::Text(SCHEMA_MIN_COMPATIBLE_VERSION@)]),
        (UPSERT_META_VALUE@, seq![SqlVal::Text(SCHEMA_CONTRACT_META_KEY@), SqlVal::Text(SCHEMA_CONTRACT@)]),
    ]
}

/// Columns later versions added: (table, column, column definition).
pub open spec fn spec_column_migrations() -> Seq<(Seq<char>, Seq<char>, Seq<char>)> {
    seq![
        ("work_records"@, "project"@, "TEXT NOT NULL DEFAULT ''"@),
        ("work_records"@, "customer"@, "TEXT NOT NULL DEFAULT ''"@),
        ("active_timer"@, "project"@, "TEXT"@),
        ("active_timer"@, "customer"@, "TEXT"@),
    ]
}

/// A table's columns, as `PRAGMA table_info` lists them (name in column 1), include `column`.
pub open spec fn spec_has_column(rows: Seq<Seq<SqlVal>>, column: Seq<char>) -> Result<bool, StorageErrorView>
    decreases rows.len(),
{
    if rows.len() == 0 {
        Ok(false)
    } else {
        match col_text(rows[0], 1) {
            Err(e) => Err(e),
            Ok(name) => if name == column { Ok(true) } else { spec_has_column(rows.skip(1), column) },
        }
    }
}

/// A table has a column exactly when one of its `table_info` rows names it in column 1
/// (when every row has a text there).
pub proof fn law_has_column_reads_names(rows: Seq<Seq<SqlVal>>, column: Seq<char>)
    requires
        forall|i: int| 0 <= i < rows.len() ==> (#[trigger] col_text(rows[i], 1)) is Ok,
    ensures
        spec_has_column(rows, column) == Ok::<bool, StorageErrorView>(
            exists|i: int| 0 <= i < rows.len() && #[trigger] col_text(rows[i], 1) == Ok::<Seq<char>, StorageErrorView>(column),
        ),
    decreases rows.len(),
{
    if rows.len() > 0 {
        let t = rows.skip(1);
        assert forall|i: int| 0 <= i < t.len() implies (#[trigger] col_text(t[i], 1)) is Ok by {
            assert(t[i] == rows[i + 1]);
        }
        law_has_column_reads_names(t, column);
        assert(col_text(rows[0], 1) is Ok);
        if exists|i: int| 0 <= i < t.len() && #[trigger] col_text(t[i], 1) == Ok::<Seq<char>, StorageErrorView>(column) {
            let i = choose|i: int| 0 <= i < t.len() && #[trigger] col_text(t[i], 1) == Ok::<Seq<char>, StorageErrorView>(column);
            assert(t[i] == rows[i + 1]);
            assert(col_text(rows[i + 1], 1) == Ok::<Seq<char>, StorageErrorView>(column));
        }
        if exists|i: int| 0 <= i < rows.len() && #[trigger] col_text(rows[i], 1) == Ok::<Seq<char>, StorageErrorView>(column) {
            let i = choose|i: int| 0 <= i < rows.len() && #[trigger] col_text(rows[i], 1) == Ok::<Seq<char>, StorageErrorView>(column);
            if i > 0 {
                assert(t[i - 1] == rows[i]);
                assert(col_text(t[i - 1], 1) == Ok::<Seq<char>, StorageErrorView>(column));
            }
        }
    }
}

impl Storage {
    /// The storage of the database file at `db_path`.
    pub fn new(db_path: String) -> (res: Storage)
        ensures
            res.db_path@ == db_path@,
    {
        Storage { db_path }
    }

    /// The batches to run when the database is opened, in order.
    pub fn open_batches() -> (res: Vec<&'static str>)
        ensures
            res@.map_values(|s: &'static str| s@) == spec_open_batches(),
    {
        let res = vec![CONNECTION_PRAGMAS, DATABASE_PRAGMAS, SCHEMA];
        assert(res@.map_values(|s: &'static str| s@) =~= spec_open_batches());
        res
    }

    /// The batches to run after the column migrations, in order: the `v_*` views, then
    /// `PRAGMA user_version`.
    pub fn finish_batches() -> (res: Vec<&'static str>)
        ensures
            res@.map_values(|s: &'static str| s@) == spec_finish_batches(),
    {
        let res = vec![SCHEMA_VIEWS, SET_USER_VERSION];
        assert(res@.map_values(|s: &'static str| s@) =~= spec_finish_batches());
        res
    }

    /// The statements that record the schema version, the minimum compatible version and
    /// the contract name in `meta`.
    pub fn schema_meta_statements() -> (res: Vec<SqlStatement>)
        ensures
            statements_view(res@) == spec_schema_meta_statements(),
    {
        let res = vec![
            meta_statement(SCHEMA_VERSION_META_KEY, SCHEMA_VERSION),
            meta_statement(SCHEMA_MIN_COMPATIBLE_META_KEY, SCHEMA_MIN_COMPATIBLE_VERSION),
            meta_statement(SCHEMA_CONTRACT_META_KEY, SCHEMA_CONTRACT),
        ];
        assert(statements_view(res@) =~= spec_schema_meta_statements());
        res
    }

    /// The columns to add when a table lacks them.
    pub fn column_migrations() -> (res: Vec<(&'static str, &'static str, &'static str)>)
        ensures
            res@.map_values(|t: (&'static str, &'static str, &'static str)| (t.0@, t.1@, t.2@)) == spec_column_migrations(),
    {
        let res = vec![
            ("work_records", "project", "TEXT NOT NULL DEFAULT ''"),
            ("work_records", "customer", "TEXT NOT NULL DEFAULT ''"),
            ("active_timer", "project", "TEXT"),
            ("active_timer", "customer", "TEXT"),
        ];
        assert(res@.map_values(|t: (&'static str, &'static str, &'static str)| (t.0@, t.1@, t.2@)) =~= spec_column_migrations());
        res
    }

    /// `PRAGMA table_info(<table>)`
    pub fn table_info_sql(table: &str) -> (res: String)
        ensures
            res@ == "PRAGMA table_info("@ + table@ + ")"@,
    {
        let mut out: Vec<char> = Vec::new();
        crate::text::push_str(&mut out, "PRAGMA table_info(");
        crate::text::push_str(&mut out, table);
        crate::text::push_str(&mut out, ")");
        string_from_chars(&out)
    }

    /// Whether the `table_info` rows list `column`.
    pub fn has_column(rows: &Vec<Vec<SqlValue>>, column: &str) -> (res: Result<bool, StorageError>)
        ensures
            res_view(res, |b: bool| b) == spec_has_column(rows_view(rows@), column@),
    {
        let ghost rv = rows_view(rows@);
        let want = chars_of(column);
        let mut i: usize = 0;
        assert(rv.skip(0) =~= rv);
        while i < rows.len()
            invariant
                i <= rows@.len(),
                rv == rows_view(rows@),
                want@ == column@,
                spec_has_column(rv, column@) == spec_has_column(rv.skip(i as int), column@),
            decreases rows.len() - i,
        {
            assert(rv.skip(i as int)[0] == row_view(rows@[i as int]@));
            assert(rv.skip(i as int).skip(1) =~= rv.skip(i + 1));
            let name = get_text(&rows[i], 1)?;
            if chars_eq(&chars_of(name.as_str()), &want) {
                return Ok(true);
            }
            i = i + 1;
        }
        Ok(false)
    }

    /// `ALTER TABLE <table> ADD COLUMN <column> <definition>`
    pub fn add_column_sql(table: &str, column: &str, definition: &str) -> (res: String)
        ensures
            res@ == "ALTER TABLE "@ + table@ + " ADD COLUMN "@ + column@ + " "@ + definition@,
    {
        let mut out: Vec<char> = Vec::new();
        crate::text::push_str(&mut out, "ALTER TABLE ");
        crate::text::push_str(&mut out, table);
        crate::text::push_str(&mut out, " ADD COLUMN ");
        crate::text::push_str(&mut out, column);
        crate::text::push_str(&mut out, " ");
        crate::text::push_str(&mut out, definition);
        string_from_chars(&out)
    }

    /// The key under which a day is stored: its `YYYY-MM-DD` text.
    pub fn date_key(date: &Date) -> (res: SqlValue)
        requires
            date.wf(),
        ensures
            res@ == SqlVal::Text(spec_format_date(*date)),
    {
        SqlValue::Text(format_date(date))
    }

    /// Reads a day from its `day_meta` row and its record rows (`SELECT_DAY_LAST_ID`,
    /// `SELECT_DAY_RECORDS`); the record rows are not read when there is no meta row.
    pub fn load(&self, date: &Date, meta_row: &Option<Vec<SqlValue>>, record_rows: &Vec<Vec<SqlValue>>) -> (res: Result<DayData, StorageError>)
        requires
            date.wf(),
        ensures
            res_view(res, |d: DayData| d@) == spec_decode_day(*date, opt_row_view(*meta_row), rows_view(record_rows@)),
            res matches Ok(d) ==> d@.wf(),
    {
        decode_day(date, meta_row, record_rows)
    }

    /// The statements that save `day_data` (see `spec_write_day`): its records replace the
    /// stored ones and its revision moves on by one.
    pub fn save(&self, day_data: &DayData) -> (res: Vec<SqlStatement>)
        requires
            day_data@.wf(),
        ensures
            statements_view(res@) == spec_write_day(day_data@, true),
    {
        write_day_statements(day_data, true)
    }

    /// The change token of a day from its revision row (`SELECT_DAY_REVISION`): `None` for a
    /// day never written. It is only compared for equality.
    pub fn try_get_file_modified_time(&self, revision_row: &Option<Vec<SqlValue>>) -> (res: Result<Option<u64>, StorageError>)
        ensures
            res_view(res, |t: Option<u64>| t) == spec_revision_token(opt_row_view(*revision_row)),
    {
        match revision_row {
            None => Ok(None),
            Some(r) => {
                let v = get_i64(r, 0)?;
                if v < 0 {
                    Err(StorageError::NegativeRevision { value: v })
                } else {
                    Ok(Some(v as u64))
                }
            },
        }
    }

    /// The upsert that stores `timer` as the active timer.
    pub fn save_active_timer(&self, timer: &TimerState) -> (res: Result<SqlStatement, StorageError>)
        requires
            timer@.wf(),
        ensures
            timer_renderable(timer@) <==> res is Ok,
            res matches Ok(st) ==> st@ == (UPSERT_ACTIVE_TIMER@, timer_row(timer@)),
            res matches Err(e) ==> e == StorageError::DateTimeFormat,
            res matches Ok(st) ==> ((timer@.date.year >= 0 || timer@.date.year <= -1000) && (timer@.source_record_date matches Some(
                d,
            ) ==> (d.year >= 0 || d.year <= -1000))
                ==> spec_decode_timer(Some(st@.1)) == Ok::<Option<TimerView>, StorageErrorView>(Some(timer@))),
    {
        let res = timer_statement(timer);
        proof {
            if res is Ok && (timer@.date.year >= 0 || timer@.date.year <= -1000) && (timer@.source_record_date matches Some(
                d,
            ) ==> (d.year >= 0 || d.year <= -1000)) {
                law_timer_round_trip(timer@);
            }
        }
        res
    }

    /// Reads the active timer from its row (`SELECT_ACTIVE_TIMER`); no row, no timer.
    pub fn load_active_timer(&self, row: &Option<Vec<SqlValue>>) -> (res: Result<Option<TimerState>, StorageError>)
        ensures
            res_view(res, |t: Option<TimerState>| match t { Some(x) => Some(x@), None => None })
                == spec_decode_timer(opt_row_view(*row)),
            res matches Ok(Some(t)) ==> t@.wf(),
    {
        decode_timer(row)
    }

    /// The statement that removes the active timer.
    pub fn clear_active_timer(&self) -> (res: SqlStatement)
        ensures
            res@ == (DELETE_ACTIVE_TIMER@, Seq::<SqlVal>::empty()),
    {
        let res = SqlStatement { sql: DELETE_ACTIVE_TIMER.to_owned(), params: Vec::new() };
        assert(res@.1 =~= Seq::<SqlVal>::empty());
        res
    }

    /// The storage diagnostics from the migration marker row (`SELECT_META_VALUE`), the two
    /// count rows (`COUNT_DAYS`, `COUNT_WORK_RECORDS`), whether a timer row exists, and the
    /// names of the regular files in the database's directory.
    pub fn diagnostics(
        &self,
        marker_row: &Option<Vec<SqlValue>>,
        days_row: &Vec<SqlValue>,
        records_row: &Vec<SqlValue>,
        active_timer_present: bool,
        data_dir_files: &Vec<String>,
    ) -> (res: Result<StorageDiagnostics, StorageError>)
        requires
            data_dir_files@.len() < u64::MAX,
        ensures
            res is Ok <==> diagnostics_error(opt_row_view(*marker_row), row_view(days_row@), row_view(records_row@)) is None,
            res matches Err(e) ==> diagnostics_error(opt_row_view(*marker_row), row_view(days_row@), row_view(records_row@))
                == Some(e@),
            res matches Ok(d) ==> {
                &&& d.database_path@ == self.db_path@
                &&& d.migration_marker is Some <==> marker_row is Some
                &&& (*marker_row matches Some(m) ==> Ok::<Seq<char>, StorageErrorView>(d.migration_marker->0@) == col_text(row_view(m@), 0))
                &&& Ok::<i64, StorageErrorView>(d.days_count as i64) == col_i64(row_view(days_row@), 0)
                &&& Ok::<i64, StorageErrorView>(d.work_records_count as i64) == col_i64(row_view(records_row@), 0)
                &&& d.active_timer_present == active_timer_present
                &&& d.legacy_day_json_files == spec_legacy_counts(data_dir_files@.map_values(|s: String| s@)).0
                &&& d.legacy_timer_json_files == spec_legacy_counts(data_dir_files@.map_values(|s: String| s@)).1
            },
    {
        let migration_marker = match marker_row {
            None => None,
            Some(m) => Some(get_text(m, 0)?),
        };
        let days_count = i64_to_u64(get_i64(days_row, 0)?, "day_meta count")?;
        let work_records_count = i64_to_u64(get_i64(records_row, 0)?, "work_records count")?;
        let (legacy_day_json_files, legacy_timer_json_files) = count_legacy_json_files(data_dir_files);
        Ok(StorageDiagnostics {
            database_path: self.db_path.clone(),
            migration_marker,
            days_count,
            work_records_count,
            active_timer_present,
            legacy_day_json_files,
            legacy_timer_json_files,
        })
    }

    /// The dates that have records, from the rows of `LIST_DATES_WITH_RECORDS`, in row order.
    pub fn list_dates_with_records(&self, rows: &Vec<Vec<SqlValue>>) -> (res: Result<Vec<Date>, StorageError>)
        ensures
            res is Ok <==> forall|i: int| 0 <= i < rows@.len() ==> (#[trigger] date_in_row(row_view(rows@[i]@))) is Some,
            res matches Ok(ds) ==> ds@.len() == rows@.len() && forall|i: int| 0 <= i < ds@.len() ==> {
                &&& (#[trigger] ds@[i]).wf()
                &&& date_in_row(row_view(rows@[i]@)) == Some(ds@[i])
            },
            res matches Err(e) ==> exists|i: int| {
                &&& 0 <= i < rows@.len()
                &&& (forall|k: int| 0 <= k < i ==> (#[trigger] date_in_row(row_view(rows@[k]@))) is Some)
                &&& date_in_row(row_view(rows@[i]@)) is None
                &&& e@ == row_date_error(row_view(rows@[i]@))
            },
    {
        let mut out: Vec<Date> = Vec::new();
        let mut i: usize = 0;
        while i < rows.len()
            invariant
                i <= rows@.len(),
                out@.len() == i,
                forall|k: int| 0 <= k < i ==> (#[trigger] date_in_row(row_view(rows@[k]@))) is Some,
                forall|k: int| 0 <= k < i ==> {
                    &&& (#[trigger] out@[k]).wf()
                    &&& date_in_row(row_view(rows@[k]@)) == Some(out@[k])
                },
            decreases rows.len() - i,
        {
            let text = match get_text(&rows[i], 0) {
                Ok(t) => t,
                Err(e) => {
                    assert(date_in_row(row_view(rows@[i as int]@)) is None);
                    return Err(e);
                },
            };
            let d = match parse_date(text.as_str()) {
                Ok(d) => d,
                Err(_) => {
                    assert(date_in_row(row_view(rows@[i as int]@)) is None);
                    let err = StorageError::InvalidDate { field: "work_records.date".to_owned(), text };
                    assert(err@ == row_date_error(row_view(rows@[i as int]@)));
                    return Err(err);
                },
            };
            out.push(d);
            i = i + 1;
        }
        Ok(out)
    }

    /// The statement that marks the legacy JSON migration as done.
    pub fn migration_marker_statement() -> (res: SqlStatement)
        ensures
            res@ == (UPSERT_META_VALUE@, seq![SqlVal::Text(JSON_MIGRATION_META_KEY@), SqlVal::Text(JSON_MIGRATION_DONE@)]),
    {
        let res = SqlStatement {
            sql: UPSERT_META_VALUE.to_owned(),
            params: vec![SqlValue::Text(JSON_MIGRATION_META_KEY.to_owned()), SqlValue::Text(JSON_MIGRATION_DONE.to_owned())],
        };
        assert(res@.1 =~= seq![SqlVal::Text(JSON_MIGRATION_META_KEY@), SqlVal::Text(JSON_MIGRATION_DONE@)]);
        res
    }

    /// Whether the migration marker row (`SELECT_META_VALUE` with the migration key) says the
    /// legacy JSON migration already ran.
    pub fn migration_done(marker_row: &Option<Vec<SqlValue>>) -> (res: Result<bool, StorageError>)
        ensures
            *marker_row is None ==> res == Ok::<bool, StorageError>(false),
            *marker_row matches Some(m) ==> res_view(res, |b: bool| b) == (match col_text(row_view(m@), 0) {
                Ok(_) => Ok(true),
                Err(e) => Err(e),
            }),
    {
        match marker_row {
            None => Ok(false),
            Some(m) => {
                let _value = get_text(m, 0)?;
                Ok(true)
            },
        }
    }

    /// The statements that import a legacy day (see `spec_write_day`): like a save, except
    /// that a day first written gets revision 1 and a stored day keeps its revision.
    pub fn import_day(&self, day_data: &DayData) -> (res: Vec<SqlStatement>)
        requires
            day_data@.wf(),
        ensures
            statements_view(res@) == spec_write_day(day_data@, false),
    {
        write_day_statements(day_data, false)
    }
}

/// Whether the marker row says the legacy migration already ran.
pub open spec fn spec_migration_done(marker: Option<Seq<SqlVal>>) -> Result<bool, StorageErrorView> {
    match marker {
        None => Ok(false),
        Some(m) => match col_text(m, 0) {
            Ok(_) => Ok(true),
            Err(e) => Err(e),
        },
    }
}

/// The positions of the candidate days that are not stored yet, in order.
pub open spec fn days_to_import(stored: Seq<bool>) -> Seq<int>
    decreases stored.len(),
{
    if stored.len() == 0 {
        Seq::<int>::empty()
    } else {
        let prev = days_to_import(stored.drop_last());
        if stored.last() { prev } else { prev.push(stored.len() - 1) }
    }
}

/// The days to import are exactly the candidates not stored yet, each once, in candidate
/// order.
pub proof fn law_days_to_import_are_the_unstored(stored: Seq<bool>, i: int)
    ensures
        days_to_import(stored).contains(i) <==> (0 <= i < stored.len() && !stored[i]),
        forall|a: int, b: int| 0 <= a < b < days_to_import(stored).len() ==>
            days_to_import(stored)[a] < days_to_import(stored)[b],
        forall|a: int| 0 <= a < days_to_import(stored).len() ==>
            0 <= #[trigger] days_to_import(stored)[a] < stored.len(),
    decreases stored.len(),
{
    if stored.len() > 0 {
        let init = stored.drop_last();
        law_days_to_import_are_the_unstored(init, i);
        let prev = days_to_import(init);
        let n = stored.len() - 1;
        if !stored.last() {
            let cur = prev.push(n);
            assert(days_to_import(stored) == cur);
            if cur.contains(i) && i != n {
                let k = choose|k: int| 0 <= k < cur.len() && cur[k] == i;
                assert(prev[k] == i);
                assert(prev.contains(i));
            }
            if 0 <= i < n && !stored[i] {
                assert(init[i] == stored[i]);
                let k = choose|k: int| 0 <= k < prev.len() && prev[k] == i;
                assert(cur[k] == i);
            }
            if i == n {
                assert(cur[prev.len() as int] == i);
            }
        } else {
            if 0 <= i < n {
                assert(init[i] == stored[i]);
            }
        }
    }
}

/// The legacy timer file `legacy_timer_file` picks.
pub open spec fn spec_legacy_timer_file(timer_stored: bool, running_exists: bool, active_exists: bool) -> Option<Seq<char>> {
    if timer_stored {
        None
    } else if running_exists {
        Some(LEGACY_RUNNING_TIMER_FILE_NAME@)
    } else if active_exists {
        Some(LEGACY_ACTIVE_TIMER_FILE_NAME@)
    } else {
        None
    }
}

/// What the legacy JSON migration does: nothing once the marker is set; otherwise import the
/// candidate days not stored yet, then the picked timer file, then set the marker.
pub open spec fn spec_migration_plan(
    marker: Option<Seq<SqlVal>>,
    day_stored: Seq<bool>,
    timer_stored: bool,
    running_exists: bool,
    active_exists: bool,
) -> Result<Option<(Seq<int>, Option<Seq<char>>)>, StorageErrorView> {
    match spec_migration_done(marker) {
        Err(e) => Err(e),
        Ok(true) => Ok(None),
        Ok(false) => Ok(Some((days_to_import(day_stored), spec_legacy_timer_file(timer_stored, running_exists, active_exists)))),
    }
}

/// The work of one legacy JSON migration: the positions of the candidate days to import, the
/// legacy timer file to import, if any; the marker is set afterwards.
#[derive(Debug)]
pub struct MigrationPlan {
    pub days: Vec<usize>,
    pub timer_file: Option<&'static str>,
}

/// The legacy JSON migration runs once: with the row the marker statement stores under the
/// migration key, no day and no timer is imported again, whatever the files and tables hold.
pub proof fn law_migration_runs_once(day_stored: Seq<bool>, timer_stored: bool, running_exists: bool, active_exists: bool)
    ensures
        spec_migration_plan(
            Some(seq![Storage::spec_marker_value()]),
            day_stored,
            timer_stored,
            running_exists,
            active_exists,
        ) == Ok::<Option<(Seq<int>, Option<Seq<char>>)>, StorageErrorView>(None),
{
}

impl Storage {
    /// The value the marker statement stores (its second parameter).
    pub open spec fn spec_marker_value() -> SqlVal {
        SqlVal::Text(JSON_MIGRATION_DONE@)
    }

    /// Plans the legacy JSON migration from the marker row (`SELECT_META_VALUE` with the
    /// migration key), whether each candidate day (`legacy_day_candidates`) is already stored
    /// (`DAY_EXISTS`), whether a timer is stored, and which legacy timer files exist (see
    /// `spec_migration_plan`).
    pub fn plan_legacy_migration(
        marker_row: &Option<Vec<SqlValue>>,
        day_stored: &Vec<bool>,
        timer_stored: bool,
        running_exists: bool,
        active_exists: bool,
    ) -> (res: Result<Option<MigrationPlan>, StorageError>)
        ensures
            res_view(res, |p: Option<MigrationPlan>| match p {
                Some(plan) => Some((plan.days@.map_values(|i: usize| i as int), match plan.timer_file {
                    Some(f) => Some(f@),
                    None => None,
                })),
                None => None,
            }) == spec_migration_plan(opt_row_view(*marker_row), day_stored@, timer_stored, running_exists, active_exists),
    {
        if Self::migration_done(marker_row)? {
            return Ok(None);
        }
        let mut days: Vec<usize> = Vec::new();
        let mut i: usize = 0;
        while i < day_stored.len()
            invariant
                i <= day_stored@.len(),
                days@.map_values(|k: usize| k as int) == days_to_import(day_stored@.take(i as int)),
            decreases day_stored.len() - i,
        {
            assert(day_stored@.take(i + 1).drop_last() =~= day_stored@.take(i as int));
            if !day_stored[i] {
                days.push(i);
            }
            i = i + 1;
            assert(days@.map_values(|k: usize| k as int) =~= days_to_import(day_stored@.take(i as int)));
        }
        assert(day_stored@.take(day_stored@.len() as int) =~= day_stored@);
        let timer_file = legacy_timer_file(timer_stored, running_exists, active_exists);
        Ok(Some(MigrationPlan { days, timer_file }))
    }
}

/// The day `n` days before `d`, if it is representable.
pub open spec fn spec_days_before(d: Date, n: nat) -> Option<Date>
    decreases n,
{
    if n == 0 {
        Some(d)
    } else {
        match spec_days_before(d, (n - 1) as nat) {
            Some(p) => spec_previous_day(p),
            None => None,
        }
    }
}

proof fn lemma_days_before_stays_none(d: Date, k: nat, n: nat)
    requires
        k <= n,
        spec_days_before(d, k) is None,
    ensures
        spec_days_before(d, n) is None,
    decreases n - k,
{
    if k < n {
        lemma_days_before_stays_none(d, k, (n - 1) as nat);
    }
}

/// The task names of the rows of `RECENT_TASK_NAMES` (newest first), trimmed, without
/// empty names, without the placeholder `New Task`, each kept at its first appearance.
pub open spec fn spec_recent_names(rows: Seq<Seq<SqlVal>>) -> Result<Seq<Seq<char>>, StorageErrorView>
    decreases rows.len(),
{
    if rows.len() == 0 {
        Ok(seq![])
    } else {
        match spec_recent_names(rows.drop_last()) {
            Err(e) => Err(e),
            Ok(prev) => match col_text(rows.last(), 0) {
                Err(e) => Err(e),
                Ok(t) => {
                    let name = trim(t);
                    if name.len() == 0 || name == "New Task"@ || prev.contains(name) {
                        Ok(prev)
                    } else {
                        Ok(prev.push(name))
                    }
                },
            },
        }
    }
}

proof fn lemma_recent_names_prefix_err(rows: Seq<Seq<SqlVal>>, j: int)
    requires
        0 <= j <= rows.len(),
        spec_recent_names(rows.take(j)) is Err,
    ensures
        spec_recent_names(rows) == spec_recent_names(rows.take(j)),
    decreases rows.len() - j,
{
    if j == rows.len() {
        assert(rows.take(j) =~= rows);
    } else {
        let init = rows.drop_last();
        assert(init.take(j) =~= rows.take(j));
        lemma_recent_names_prefix_err(init, j);
    }
}

/// The recent task names hold each name once, and never an empty name or the placeholder
/// `New Task`.
pub proof fn law_recent_names_unique_and_clean(rows: Seq<Seq<SqlVal>>)
    ensures
        spec_recent_names(rows) matches Ok(names) ==> {
            &&& names.no_duplicates()
            &&& forall|i: int| 0 <= i < names.len() ==> (#[trigger] names[i]).len() > 0 && names[i] != "New Task"@
        },
    decreases rows.len(),
{
    if rows.len() > 0 {
        law_recent_names_unique_and_clean(rows.drop_last());
        if let Ok(prev) = spec_recent_names(rows.drop_last()) {
            if let Ok(t) = col_text(rows.last(), 0) {
                let name = trim(t);
                if !(name.len() == 0 || name == "New Task"@ || prev.contains(name)) {
                    let names = prev.push(name);
                    assert forall|a: int, b: int| 0 <= a < names.len() && 0 <= b < names.len() && a != b implies names[a] != names[b] by {
                        if b == prev.len() {
                            assert(names[a] == prev[a]);
                        } else if a == prev.len() {
                            assert(names[b] == prev[b]);
                        } else {
                            assert(names[a] == prev[a] && names[b] == prev[b]);
                        }
                    }
                    assert forall|i: int| 0 <= i < names.len() implies (#[trigger] names[i]).len() > 0 && names[i] != "New Task"@ by {
                        if i < prev.len() {
                            assert(names[i] == prev[i]);
                        }
                    }
                }
            }
        }
    }
}

fn contains_text(v: &Vec<String>, t: &Vec<char>) -> (res: bool)
    ensures
        res == v@.map_values(|s: String| s@).contains(t@),
{
    let ghost vv = v@.map_values(|s: String| s@);
    let mut i: usize = 0;
    while i < v.len()
        invariant
            i <= v@.len(),
            vv == v@.map_values(|s: String| s@),
            forall|k: int| 0 <= k < i ==> vv[k] != t@,
        decreases v.len() - i,
    {
        assert(vv[i as int] == v@[i as int]@);
        if chars_eq(&chars_of(v[i].as_str()), t) {
            return true;
        }
        i = i + 1;
    }
    false
}

impl Storage {
    /// The first and last day of the window `date - days_back ..= date` that recent task
    /// names come from; refused when the first day is not representable.
    pub fn recent_task_window(&self, date: &Date, days_back: u8) -> (res: Result<(Date, Date), StorageError>)
        requires
            date.wf(),
        ensures
            match spec_days_before(*date, days_back as nat) {
                Some(start) => res == Ok::<(Date, Date), StorageError>((start, *date)),
                None => res == Err::<(Date, Date), StorageError>(StorageError::DateRange),
            },
            res matches Ok((s, e)) ==> s.wf() && e.wf(),
    {
        let mut start = *date;
        let mut k: u8 = 0;
        while k < days_back
            invariant
                k <= days_back,
                start.wf(),
                spec_days_before(*date, k as nat) == Some(start),
            decreases days_back - k,
        {
            match start.previous_day() {
                Some(p) => {
                    start = p;
                },
                None => {
                    proof {
                        lemma_days_before_stays_none(*date, (k + 1) as nat, days_back as nat);
                    }
                    return Err(StorageError::DateRange);
                },
            }
            k = k + 1;
        }
        Ok((start, *date))
    }

    /// The recent task names from the rows of `RECENT_TASK_NAMES` (see `spec_recent_names`).
    pub fn recent_task_names(&self, rows: &Vec<Vec<SqlValue>>) -> (res: Result<Vec<String>, StorageError>)
        ensures
            res_view(res, |v: Vec<String>| v@.map_values(|s: String| s@)) == spec_recent_names(rows_view(rows@)),
    {
        let ghost rv = rows_view(rows@);
        let mut names: Vec<String> = Vec::new();
        let mut i: usize = 0;
        assert(rv.take(0) =~= Seq::<Seq<SqlVal>>::empty());
        assert(names@.map_values(|s: String| s@) =~= Seq::<Seq<char>>::empty());
        while i < rows.len()
            invariant
                i <= rows@.len(),
                rv == rows_view(rows@),
                spec_recent_names(rv.take(i as int)) == Ok::<Seq<Seq<char>>, StorageErrorView>(names@.map_values(|s: String| s@)),
            decreases rows.len() - i,
        {
            assert(rv.take(i + 1).drop_last() =~= rv.take(i as int));
            assert(rv.take(i + 1).last() == row_view(rows@[i as int]@));
            let text = match get_text(&rows[i], 0) {
                Ok(t) => t,
                Err(e) => {
                    proof {
                        assert(spec_recent_names(rv.take(i + 1)) == Err::<Seq<Seq<char>>, StorageErrorView>(e@));
                        lemma_recent_names_prefix_err(rv, i + 1);
                    }
                    return Err(e);
                },
            };
            let name = trim_chars(&chars_of(text.as_str()));
            let ghost prev = names@.map_values(|s: String| s@);
            proof { reveal_strlit("New Task"); }
            let is_placeholder = chars_eq(&name, &chars_of("New Task"));
            if name.len() > 0 && !is_placeholder && !contains_text(&names, &name) {
                names.push(string_from_chars(&name));
                assert(names@.map_values(|s: String| s@) =~= prev.push(name@));
            }
            i = i + 1;
        }
        assert(rv.take(rows@.len() as int) =~= rv);
        Ok(names)
    }
}

} // verus!
