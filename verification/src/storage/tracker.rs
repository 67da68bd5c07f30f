//! Change tracking over the storage: which revision of each day this process last saw, so
//! that a day written by another process is noticed and read again.

use vstd::prelude::*;
use crate::date::Date;
use crate::models::{DayData, DayView, RecordView, WorkRecord, find_id, insert_by_id, law_add_record_then_find};
use crate::storage::{Storage, opt_row_view, spec_recent_names, spec_revision_token};
use crate::storage::day::{spec_decode_day, spec_write_day, statements_view};
use crate::storage::row::{SqlStatement, SqlVal, SqlValue, StorageError, StorageErrorView, res_view, rows_view};
use crate::storage::sql::{DELETE_ACTIVE_TIMER, UPSERT_ACTIVE_TIMER};
use crate::storage::timer_row::{spec_decode_timer, timer_renderable, timer_row};
use crate::timer::{TimerState, TimerView};

verus! {

/// The tokens of `entries` as a map from day to token.
pub open spec fn tokens_map(entries: Seq<(Date, Option<u64>)>) -> Map<Date, Option<u64>> {
    Map::new(
        |d: Date| exists|i: int| 0 <= i < entries.len() && (#[trigger] entries[i]).0 == d,
        |d: Date| entries[choose|i: int| 0 <= i < entries.len() && (#[trigger] entries[i]).0 == d].1,
    )
}

/// No day occurs twice among `entries`.
pub open spec fn days_distinct(entries: Seq<(Date, Option<u64>)>) -> bool {
    forall|i: int, j: int| 0 <= i < j < entries.len() ==> (#[trigger] entries[i]).0 != (#[trigger] entries[j]).0
}

/// `day` with `r` added as `DayData::add_record` adds it.
pub open spec fn day_with_record(day: DayView, r: RecordView) -> DayView {
    DayView {
        date: day.date,
        last_id: if r.id > day.last_id { r.id } else { day.last_id },
        records: insert_by_id(day.records, r),
    }
}

/// The day that `add_record` saves holds the added record under its id, every other id as
/// it was, and a `last_id` that is the larger of the old one and the record's id.
pub proof fn law_day_with_record_holds_it(day: DayView, r: RecordView, id: u32)
    requires
        day.wf(),
    ensures
        find_id(day_with_record(day, r).records, r.id) == Some(r),
        id != r.id ==> find_id(day_with_record(day, r).records, id) == find_id(day.records, id),
        day_with_record(day, r).last_id >= day.last_id,
        day_with_record(day, r).last_id >= r.id,
        day_with_record(day, r).last_id == day.last_id || day_with_record(day, r).last_id == r.id,
        day_with_record(day, r).date == day.date,
{
    law_add_record_then_find(day.records, r, id);
}

proof fn lemma_tokens_at(s: Seq<(Date, Option<u64>)>, i: int)
    requires
        days_distinct(s),
        0 <= i < s.len(),
    ensures
        tokens_map(s).contains_key(s[i].0),
        tokens_map(s)[s[i].0] == s[i].1,
{
    let d = s[i].0;
    assert(0 <= i < s.len() && s[i].0 == d);
    let j = choose|j: int| 0 <= j < s.len() && (#[trigger] s[j]).0 == d;
    if j != i {
        if j < i {
            assert(s[j].0 != s[i].0);
        } else {
            assert(s[i].0 != s[j].0);
        }
    }
}

proof fn lemma_tokens_update(s: Seq<(Date, Option<u64>)>, i: int, t: Option<u64>)
    requires
        days_distinct(s),
        0 <= i < s.len(),
    ensures
        days_distinct(s.update(i, (s[i].0, t))),
        tokens_map(s.update(i, (s[i].0, t))) == tokens_map(s).insert(s[i].0, t),
{
    let s2 = s.update(i, (s[i].0, t));
    assert forall|a: int, b: int| 0 <= a < b < s2.len() implies (#[trigger] s2[a]).0 != (#[trigger] s2[b]).0 by {
        assert(s2[a].0 == s[a].0 && s2[b].0 == s[b].0);
        assert(s[a].0 != s[b].0);
    }
    let m2 = tokens_map(s2);
    let m = tokens_map(s).insert(s[i].0, t);
    assert forall|d: Date| m2.contains_key(d) <==> m.contains_key(d) by {
        if m2.contains_key(d) {
            let j = choose|j: int| 0 <= j < s2.len() && (#[trigger] s2[j]).0 == d;
            assert(s[j].0 == d);
        }
        if m.contains_key(d) && d != s[i].0 {
            let j = choose|j: int| 0 <= j < s.len() && (#[trigger] s[j]).0 == d;
            assert(s2[j].0 == d);
        }
        if d == s[i].0 {
            assert(s2[i].0 == d);
        }
    }
    assert forall|d: Date| #[trigger] m2.contains_key(d) implies m2[d] == m[d] by {
        let j = choose|j: int| 0 <= j < s2.len() && (#[trigger] s2[j]).0 == d;
        lemma_tokens_at(s2, j);
        if j == i {
        } else {
            lemma_tokens_at(s, j);
            assert(s2[j] == s[j]);
        }
    }
    assert(m2 =~= m);
}

proof fn lemma_tokens_push(s: Seq<(Date, Option<u64>)>, d: Date, t: Option<u64>)
    requires
        days_distinct(s),
        !tokens_map(s).contains_key(d),
    ensures
        days_distinct(s.push((d, t))),
        tokens_map(s.push((d, t))) == tokens_map(s).insert(d, t),
{
    let s2 = s.push((d, t));
    assert forall|a: int, b: int| 0 <= a < b < s2.len() implies (#[trigger] s2[a]).0 != (#[trigger] s2[b]).0 by {
        if b == s.len() {
            assert(s2[a] == s[a]);
            if s[a].0 == d {
                assert(0 <= a < s.len() && s[a].0 == d);
            }
        } else {
            assert(s2[a] == s[a] && s2[b] == s[b]);
        }
    }
    let m2 = tokens_map(s2);
    let m = tokens_map(s).insert(d, t);
    assert forall|e: Date| m2.contains_key(e) <==> m.contains_key(e) by {
        if m2.contains_key(e) && e != d {
            let j = choose|j: int| 0 <= j < s2.len() && (#[trigger] s2[j]).0 == e;
            assert(j < s.len());
            assert(s[j].0 == e);
        }
        if m.contains_key(e) && e != d {
            let j = choose|j: int| 0 <= j < s.len() && (#[trigger] s[j]).0 == e;
            assert(s2[j].0 == e);
        }
        if e == d {
            assert(s2[s.len() as int].0 == e);
        }
    }
    assert forall|e: Date| #[trigger] m2.contains_key(e) implies m2[e] == m[e] by {
        let j = choose|j: int| 0 <= j < s2.len() && (#[trigger] s2[j]).0 == e;
        lemma_tokens_at(s2, j);
        if j < s.len() {
            lemma_tokens_at(s, j);
            assert(s2[j] == s[j]);
        }
    }
    assert(m2 =~= m);
}

/// The storage together with the change token last seen for each day.
pub struct StorageManager {
    storage: Storage,
    file_modified_times: Vec<(Date, Option<u64>)>,
}

impl StorageManager {
    /// Each day is tracked at most once.
    pub closed spec fn wf(&self) -> bool {
        days_distinct(self.file_modified_times@)
    }

    /// The storage the manager works on.
    pub closed spec fn backing(&self) -> Storage {
        self.storage
    }

    /// The storage the manager works on.
    pub fn storage(&self) -> (res: &Storage)
        ensures
            *res == self.backing(),
    {
        &self.storage
    }

    /// The token last seen for each tracked day (`None`: the day was never written).
    pub closed spec fn tracking(&self) -> Map<Date, Option<u64>> {
        tokens_map(self.file_modified_times@)
    }

    /// A manager over `storage` that tracks no day yet.
    pub fn new(storage: Storage) -> (res: StorageManager)
        ensures
            res.wf(),
            res.tracking() == Map::<Date, Option<u64>>::empty(),
            res.backing() == storage,
    {
        let res = StorageManager { storage, file_modified_times: Vec::new() };
        assert(res.tracking() =~= Map::<Date, Option<u64>>::empty());
        res
    }

    fn lookup(&self, date: &Date) -> (res: Option<Option<u64>>)
        requires
            self.wf(),
        ensures
            res == (if self.tracking().contains_key(*date) { Some(self.tracking()[*date]) } else { None }),
    {
        let ghost s = self.file_modified_times@;
        let mut i: usize = 0;
        while i < self.file_modified_times.len()
            invariant
                i <= s.len(),
                s == self.file_modified_times@,
                days_distinct(s),
                forall|k: int| 0 <= k < i ==> (#[trigger] s[k]).0 != *date,
            decreases self.file_modified_times.len() - i,
        {
            if self.file_modified_times[i].0 == *date {
                proof { lemma_tokens_at(s, i as int); }
                return Some(self.file_modified_times[i].1);
            }
            i = i + 1;
        }
        proof {
            if tokens_map(s).contains_key(*date) {
                let j = choose|j: int| 0 <= j < s.len() && (#[trigger] s[j]).0 == *date;
                assert(s[j].0 != *date);
            }
        }
        None
    }

    fn set_token(&mut self, date: Date, token: Option<u64>)
        requires
            old(self).wf(),
        ensures
            final(self).wf(),
            final(self).tracking() == old(self).tracking().insert(date, token),
            final(self).backing() == old(self).backing(),
    {
        let ghost s = self.file_modified_times@;
        let mut i: usize = 0;
        while i < self.file_modified_times.len()
            invariant
                i <= s.len(),
                s == self.file_modified_times@,
                *self == *old(self),
                days_distinct(s),
                forall|k: int| 0 <= k < i ==> (#[trigger] s[k]).0 != date,
            decreases self.file_modified_times.len() - i,
        {
            if self.file_modified_times[i].0 == date {
                proof { lemma_tokens_update(s, i as int, token); }
                self.file_modified_times.set(i, (date, token));
                return;
            }
            i = i + 1;
        }
        proof {
            if tokens_map(s).contains_key(date) {
                let j = choose|j: int| 0 <= j < s.len() && (#[trigger] s[j]).0 == date;
                assert(s[j].0 != date);
            }
            lemma_tokens_push(s, date, token);
        }
        self.file_modified_times.push((date, token));
    }

    /// Records the token of `date` read from its revision row (`SELECT_DAY_REVISION`), as
    /// after each save; a row that cannot be read leaves the tracking as it was.
    pub fn track_revision(&mut self, date: &Date, revision_row: &Option<Vec<SqlValue>>) -> (res: Result<(), StorageError>)
        requires
            old(self).wf(),
        ensures
            final(self).wf(),
            final(self).backing() == old(self).backing(),
            match spec_revision_token(opt_row_view(*revision_row)) {
                Ok(token) => res is Ok && final(self).tracking() == old(self).tracking().insert(*date, token),
                Err(e) => res matches Err(x) && x@ == e && final(self).tracking() == old(self).tracking(),
            },
    {
        let token = self.storage.try_get_file_modified_time(revision_row)?;
        self.set_token(*date, token);
        Ok(())
    }

    /// Loads a day (see `Storage::load`) and records its token.
    pub fn load_with_tracking(
        &mut self,
        date: &Date,
        meta_row: &Option<Vec<SqlValue>>,
        record_rows: &Vec<Vec<SqlValue>>,
        revision_row: &Option<Vec<SqlValue>>,
    ) -> (res: Result<DayData, StorageError>)
        requires
            old(self).wf(),
            date.wf(),
        ensures
            final(self).wf(),
            final(self).backing() == old(self).backing(),
            match (spec_decode_day(*date, opt_row_view(*meta_row), rows_view(record_rows@)),
                spec_revision_token(opt_row_view(*revision_row))) {
                (Ok(day), Ok(token)) => res matches Ok(d) && d@ == day
                    && final(self).tracking() == old(self).tracking().insert(*date, token),
                (Err(e), _) => res matches Err(x) && x@ == e && final(self).tracking() == old(self).tracking(),
                (Ok(_), Err(e)) => res matches Err(x) && x@ == e && final(self).tracking() == old(self).tracking(),
            },
            res matches Ok(d) ==> d@.wf(),
    {
        let data = self.storage.load(date, meta_row, record_rows)?;
        let token = self.storage.try_get_file_modified_time(revision_row)?;
        self.set_token(*date, token);
        Ok(data)
    }

    /// Whether `date` changed since this manager last saw it: the day is read again, and its
    /// token recorded, when it is not tracked yet or its current token differs from the
    /// recorded one; otherwise `None`.
    pub fn check_and_reload(
        &mut self,
        date: &Date,
        revision_row: &Option<Vec<SqlValue>>,
        meta_row: &Option<Vec<SqlValue>>,
        record_rows: &Vec<Vec<SqlValue>>,
    ) -> (res: Result<Option<DayData>, StorageError>)
        requires
            old(self).wf(),
            date.wf(),
        ensures
            final(self).wf(),
            final(self).backing() == old(self).backing(),
            match spec_revision_token(opt_row_view(*revision_row)) {
                Err(e) => res matches Err(x) && x@ == e && final(self).tracking() == old(self).tracking(),
                Ok(current) => if !needs_reload(old(self).tracking(), *date, current) {
                    res matches Ok(None) && final(self).tracking() == old(self).tracking()
                } else {
                    match spec_decode_day(*date, opt_row_view(*meta_row), rows_view(record_rows@)) {
                        Ok(day) => res matches Ok(Some(d)) && d@ == day
                            && final(self).tracking() == old(self).tracking().insert(*date, current),
                        Err(e) => res matches Err(x) && x@ == e && final(self).tracking() == old(self).tracking(),
                    }
                },
            },
            res matches Ok(Some(d)) ==> d@.wf(),
    {
        let current = self.storage.try_get_file_modified_time(revision_row)?;
        match self.lookup(date) {
            Some(last_known) => {
                if last_known == current {
                    return Ok(None);
                }
            },
            None => {},
        }
        let data = self.storage.load(date, meta_row, record_rows)?;
        self.set_token(*date, current);
        Ok(Some(data))
    }

    /// The statements that add `record` to the stored day (load, add, save); the caller runs
    /// them and then calls `track_revision`.
    pub fn add_record(
        &self,
        date: &Date,
        record: WorkRecord,
        meta_row: &Option<Vec<SqlValue>>,
        record_rows: &Vec<Vec<SqlValue>>,
    ) -> (res: Result<Vec<SqlStatement>, StorageError>)
        requires
            date.wf(),
            record@.wf(),
        ensures
            match spec_decode_day(*date, opt_row_view(*meta_row), rows_view(record_rows@)) {
                Ok(day) => res matches Ok(st) && statements_view(st@) == spec_write_day(day_with_record(day, record@), true),
                Err(e) => res matches Err(x) && x@ == e,
            },
    {
        let mut day_data = self.storage.load(date, meta_row, record_rows)?;
        day_data.add_record(record);
        Ok(self.storage.save(&day_data))
    }

    /// The statements that update a record of the stored day; as `add_record`, a record with
    /// the same id is replaced.
    pub fn update_record(
        &self,
        date: &Date,
        record: WorkRecord,
        meta_row: &Option<Vec<SqlValue>>,
        record_rows: &Vec<Vec<SqlValue>>,
    ) -> (res: Result<Vec<SqlStatement>, StorageError>)
        requires
            date.wf(),
            record@.wf(),
        ensures
            match spec_decode_day(*date, opt_row_view(*meta_row), rows_view(record_rows@)) {
                Ok(day) => res matches Ok(st) && statements_view(st@) == spec_write_day(day_with_record(day, record@), true),
                Err(e) => res matches Err(x) && x@ == e,
            },
    {
        self.add_record(date, record, meta_row, record_rows)
    }

    /// The record with id `id` of the stored day, and the statements that save the day
    /// without it; refused when the day has no such record.
    pub fn remove_record(
        &self,
        date: &Date,
        id: u32,
        meta_row: &Option<Vec<SqlValue>>,
        record_rows: &Vec<Vec<SqlValue>>,
    ) -> (res: Result<(WorkRecord, Vec<SqlStatement>), StorageError>)
        requires
            date.wf(),
        ensures
            match spec_decode_day(*date, opt_row_view(*meta_row), rows_view(record_rows@)) {
                Err(e) => res matches Err(x) && x@ == e,
                Ok(day) => if day.has_id(id) {
                    res matches Ok((r, st)) && exists|k: int|
                        0 <= k < day.records.len() && day.records[k].id == id && r@ == day.records[k]
                            && statements_view(st@) == spec_write_day(
                                DayView { date: day.date, last_id: day.last_id, records: day.records.remove(k) },
                                true,
                            )
                } else {
                    res == Err::<(WorkRecord, Vec<SqlStatement>), StorageError>(StorageError::RecordNotFound { id })
                },
            },
    {
        let mut day_data = self.storage.load(date, meta_row, record_rows)?;
        match day_data.remove_record(id) {
            Some(r) => {
                let st = self.storage.save(&day_data);
                Ok((r, st))
            },
            None => Err(StorageError::RecordNotFound { id }),
        }
    }

    /// The statements that save `day_data`; the caller runs them and then calls
    /// `track_revision`.
    pub fn save(&self, day_data: &DayData) -> (res: Vec<SqlStatement>)
        requires
            day_data@.wf(),
        ensures
            statements_view(res@) == spec_write_day(day_data@, true),
    {
        self.storage.save(day_data)
    }

    /// The token last recorded for `date`; `None` when the day is untracked or was never
    /// written.
    pub fn get_last_modified(&self, date: &Date) -> (res: Option<u64>)
        requires
            self.wf(),
        ensures
            res == (if self.tracking().contains_key(*date) { self.tracking()[*date] } else { None }),
    {
        match self.lookup(date) {
            Some(t) => t,
            None => None,
        }
    }

    /// See `Storage::save_active_timer`.
    pub fn save_active_timer(&self, timer: &TimerState) -> (res: Result<SqlStatement, StorageError>)
        requires
            timer@.wf(),
        ensures
            timer_renderable(timer@) <==> res is Ok,
            res matches Ok(st) ==> st@ == (UPSERT_ACTIVE_TIMER@, timer_row(timer@)),
            res matches Err(e) ==> e == StorageError::DateTimeFormat,
            res matches Ok(st) ==> ((timer@.date.year >= 0 || timer@.date.year <= -1000) && (timer@.source_record_date matches Some(
                d,
            ) ==> (d.year >= 0 || d.year <= -1000))
                ==> spec_decode_timer(Some(st@.1)) == Ok::<Option<TimerView>, StorageErrorView>(Some(timer@))),
    {
        self.storage.save_active_timer(timer)
    }

    /// See `Storage::load_active_timer`.
    pub fn load_active_timer(&self, row: &Option<Vec<SqlValue>>) -> (res: Result<Option<TimerState>, StorageError>)
        ensures
            res_view(res, |t: Option<TimerState>| match t { Some(x) => Some(x@), None => None })
                == spec_decode_timer(opt_row_view(*row)),
            res matches Ok(Some(t)) ==> t@.wf(),
    {
        self.storage.load_active_timer(row)
    }

    /// See `Storage::clear_active_timer`.
    pub fn clear_active_timer(&self) -> (res: SqlStatement)
        ensures
            res@ == (DELETE_ACTIVE_TIMER@, Seq::<SqlVal>::empty()),
    {
        self.storage.clear_active_timer()
    }

    /// See `Storage::recent_task_names`.
    pub fn recent_task_names(&self, rows: &Vec<Vec<SqlValue>>) -> (res: Result<Vec<String>, StorageError>)
        ensures
            res_view(res, |v: Vec<String>| v@.map_values(|s: String| s@)) == spec_recent_names(rows_view(rows@)),
    {
        self.storage.recent_task_names(rows)
    }
}

/// Whether a day whose current token is `current` must be read again: it is untracked, or
/// its recorded token differs.
pub open spec fn needs_reload(tracking: Map<Date, Option<u64>>, date: Date, current: Option<u64>) -> bool {
    !(tracking.contains_key(date) && tracking[date] == current)
}

/// Right after a day's token was recorded (by `load_with_tracking`, `track_revision` or
/// `check_and_reload`), a check against the same token reads nothing, and a check against
/// any other token reads the day again.
pub proof fn law_tracked_token_decides_reload(
    tracking: Map<Date, Option<u64>>,
    date: Date,
    token: Option<u64>,
    current: Option<u64>,
)
    ensures
        !needs_reload(tracking.insert(date, token), date, token),
        current != token ==> needs_reload(tracking.insert(date, token), date, current),
{
}

/// A day's token is its stored revision (none for a day never written; a negative revision is
/// refused), so a day whose revision moved on since it was last seen is read again, and one
/// whose revision is the same is not.
pub proof fn law_new_revision_is_noticed(tracking: Map<Date, Option<u64>>, date: Date, seen: i64, now: i64)
    ensures
        spec_revision_token(None) == Ok::<Option<u64>, StorageErrorView>(None),
        seen >= 0 ==> spec_revision_token(Some(seq![SqlVal::Integer(seen)]))
            == Ok::<Option<u64>, StorageErrorView>(Some(seen as u64)),
        seen < 0 ==> spec_revision_token(Some(seq![SqlVal::Integer(seen)]))
            == Err::<Option<u64>, StorageErrorView>(StorageErrorView::NegativeRevision { value: seen }),
        seen >= 0 && now >= 0 ==> (needs_reload(tracking.insert(date, Some(seen as u64)), date, Some(now as u64))
            <==> seen != now),
        seen >= 0 ==> needs_reload(tracking.insert(date, None), date, Some(seen as u64)),
{
}

/// Recording a token for one day leaves whether any other day must be read again unchanged.
pub proof fn law_tracking_is_per_day(
    tracking: Map<Date, Option<u64>>,
    date: Date,
    token: Option<u64>,
    other: Date,
    current: Option<u64>,
)
    requires
        other != date,
    ensures
        needs_reload(tracking.insert(date, token), other, current) == needs_reload(tracking, other, current),
{
}

} // verus!
