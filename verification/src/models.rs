//! The day/record/timer data that the tracker stores.

use vstd::prelude::*;
use crate::date::{Date, lemma_pad2, push_date, spec_format_date};
use crate::digits::{digit_char, padded_decimal, push_padded};
use crate::text::string_from_chars;

verus! {

pub const MINUTES_PER_DAY: u32 = 1440;

/// A wall-clock time of day, to the minute.
#[derive(Clone, Copy, Debug, PartialEq, Eq, Structural)]
pub struct TimePoint {
    pub hour: u8,
    pub minute: u8,
}

impl TimePoint {
    pub open spec fn wf(self) -> bool {
        self.hour < 24 && self.minute < 60
    }

    pub open spec fn minutes(self) -> int {
        self.hour * 60 + self.minute
    }

    /// The time `hour:minute`, if it exists on a 24-hour clock.
    pub fn new(hour: u8, minute: u8) -> (res: Option<TimePoint>)
        ensures
            res is Some <==> hour < 24 && minute < 60,
            res matches Some(t) ==> t == (TimePoint { hour, minute }),
    {
        if hour < 24 && minute < 60 {
            Some(TimePoint { hour, minute })
        } else {
            None
        }
    }

    /// The time that lies `minutes` after midnight, if that is before the next midnight.
    pub fn from_minutes_since_midnight(minutes: u32) -> (res: Option<TimePoint>)
        ensures
            res is Some <==> minutes < 1440,
            res matches Some(t) ==> t.wf() && t.minutes() == minutes,
    {
        if minutes < MINUTES_PER_DAY {
            Some(TimePoint { hour: (minutes / 60) as u8, minute: (minutes % 60) as u8 })
        } else {
            None
        }
    }

    pub fn to_minutes_since_midnight(&self) -> (res: u32)
        requires
            self.wf(),
        ensures
            res == self.minutes(),
    {
        self.hour as u32 * 60 + self.minute as u32
    }

    /// `HH:MM`.
    pub fn text(&self) -> (res: String)
        requires
            self.wf(),
        ensures
            res@ == spec_time_point_text(*self),
    {
        let mut out: Vec<char> = Vec::new();
        push_padded(&mut out, self.hour as u64, 2);
        out.push(':');
        push_padded(&mut out, self.minute as u64, 2);
        assert(out@ =~= spec_time_point_text(*self));
        string_from_chars(&out)
    }
}

pub open spec fn spec_time_point_text(t: TimePoint) -> Seq<char> {
    padded_decimal(t.hour as nat, 2) + seq![':'] + padded_decimal(t.minute as nat, 2)
}

/// A time of day reads `HH:MM`: the hour and the minute in two digits each.
pub proof fn law_time_point_text_digits(t: TimePoint)
    requires
        t.wf(),
    ensures
        spec_time_point_text(t) == seq![
            digit_char((t.hour / 10) as int),
            digit_char((t.hour % 10) as int),
            ':',
            digit_char((t.minute / 10) as int),
            digit_char((t.minute % 10) as int),
        ],
{
    lemma_pad2(t.hour as nat);
    lemma_pad2(t.minute as nat);
    assert(spec_time_point_text(t) =~= seq![
        digit_char((t.hour / 10) as int),
        digit_char((t.hour % 10) as int),
        ':',
        digit_char((t.minute / 10) as int),
        digit_char((t.minute % 10) as int),
    ]);
}

/// Minutes from `start` to `end`, going past midnight when `end` is earlier.
pub open spec fn span_minutes(start: TimePoint, end: TimePoint) -> int {
    if end.minutes() >= start.minutes() {
        end.minutes() - start.minutes()
    } else {
        end.minutes() + 1440 - start.minutes()
    }
}

/// A record's span is the minutes the clock takes to go from its start to its end: less
/// than a whole day, and the start moved on by the span lands on the end (past midnight when
/// the end is earlier); a record that ends when it starts spans nothing.
pub proof fn law_span_reaches_end(start: TimePoint, end: TimePoint)
    requires
        start.wf(),
        end.wf(),
    ensures
        0 <= span_minutes(start, end) < 1440,
        (start.minutes() + span_minutes(start, end)) % 1440 == end.minutes(),
        end.minutes() >= start.minutes() ==> span_minutes(start, end) == end.minutes() - start.minutes(),
        span_minutes(start, start) == 0,
{
    let s = start.minutes();
    let e = end.minutes();
    if e >= s {
        vstd::arithmetic::div_mod::lemma_fundamental_div_mod_converse(e, 1440, 0, e);
    } else {
        vstd::arithmetic::div_mod::lemma_fundamental_div_mod_converse(e + 1440, 1440, 1, e);
    }
}

/// One entry of work on a day.
#[derive(Debug, PartialEq, Eq)]
pub struct WorkRecord {
    pub id: u32,
    pub name: String,
    pub start: TimePoint,
    pub end: TimePoint,
    pub total_minutes: u32,
    pub project: String,
    pub customer: String,
    pub description: String,
}

/// A work record with its texts as character sequences.
pub struct RecordView {
    pub id: u32,
    pub name: Seq<char>,
    pub start: TimePoint,
    pub end: TimePoint,
    pub total_minutes: u32,
    pub project: Seq<char>,
    pub customer: Seq<char>,
    pub description: Seq<char>,
}

impl View for WorkRecord {
    type V = RecordView;

    open spec fn view(&self) -> RecordView {
        RecordView {
            id: self.id,
            name: self.name@,
            start: self.start,
            end: self.end,
            total_minutes: self.total_minutes,
            project: self.project@,
            customer: self.customer@,
            description: self.description@,
        }
    }
}

impl RecordView {
    pub open spec fn wf(self) -> bool {
        self.start.wf() && self.end.wf()
    }
}

impl Clone for WorkRecord {
    fn clone(&self) -> (res: Self)
        ensures
            res@ == self@,
    {
        WorkRecord {
            id: self.id,
            name: self.name.clone(),
            start: self.start,
            end: self.end,
            total_minutes: self.total_minutes,
            project: self.project.clone(),
            customer: self.customer.clone(),
            description: self.description.clone(),
        }
    }
}

impl WorkRecord {
    /// A record named `name` from `start` to `end`, with empty project, customer and
    /// description; its total is the minutes from `start` to `end` (across midnight when
    /// `end` is earlier).
    pub fn new(id: u32, name: String, start: TimePoint, end: TimePoint) -> (res: WorkRecord)
        requires
            start.wf(),
            end.wf(),
        ensures
            res.id == id,
            res.name@ == name@,
            res.start == start,
            res.end == end,
            res.total_minutes == span_minutes(start, end),
            res.project@.len() == 0,
            res.customer@.len() == 0,
            res.description@.len() == 0,
    {
        let s = start.to_minutes_since_midnight();
        let e = end.to_minutes_since_midnight();
        let total = if e >= s { e - s } else { e + MINUTES_PER_DAY - s };
        WorkRecord {
            id,
            name,
            start,
            end,
            total_minutes: total,
            project: String::new(),
            customer: String::new(),
            description: String::new(),
        }
    }
}

/// Record ids strictly increase along the sequence.
pub open spec fn ids_increasing(rs: Seq<RecordView>) -> bool {
    forall|i: int, j: int| 0 <= i < j < rs.len() ==> #[trigger] rs[i].id < #[trigger] rs[j].id
}

/// The records of one day, kept in increasing id order.
#[derive(Debug)]
pub struct DayData {
    pub date: Date,
    pub last_id: u32,
    pub work_records: Vec<WorkRecord>,
}

pub struct DayView {
    pub date: Date,
    pub last_id: u32,
    pub records: Seq<RecordView>,
}

impl View for DayData {
    type V = DayView;

    open spec fn view(&self) -> DayView {
        DayView {
            date: self.date,
            last_id: self.last_id,
            records: self.work_records@.map_values(|r: WorkRecord| r@),
        }
    }
}

impl DayView {
    /// A real date, records in increasing id order, every time of day valid.
    pub open spec fn wf(self) -> bool {
        &&& self.date.wf()
        &&& ids_increasing(self.records)
        &&& forall|i: int| 0 <= i < self.records.len() ==> (#[trigger] self.records[i]).wf()
    }

    /// The record with id `id`, if the day has one.
    pub open spec fn has_id(self, id: u32) -> bool {
        exists|i: int| 0 <= i < self.records.len() && (#[trigger] self.records[i]).id == id
    }
}

impl DayData {
    /// A day with no records.
    pub fn new(date: Date) -> (res: DayData)
        ensures
            res@.date == date,
            res@.last_id == 0,
            res@.records.len() == 0,
    {
        let res = DayData { date, last_id: 0, work_records: Vec::new() };
        assert(res@.records =~= Seq::<RecordView>::empty());
        res
    }

    /// Number of records.
    pub fn len(&self) -> (res: usize)
        ensures
            res == self@.records.len(),
    {
        self.work_records.len()
    }

    /// The record with id `id`.
    pub fn record(&self, id: u32) -> (res: Option<&WorkRecord>)
        requires
            self@.wf(),
        ensures
            res is Some <==> self@.has_id(id),
            match res {
                Some(r) => find_id(self@.records, id) == Some(r@),
                None => find_id(self@.records, id) is None,
            },
    {
        let mut i: usize = 0;
        while i < self.work_records.len()
            invariant
                i <= self.work_records@.len(),
                self@.wf(),
                forall|k: int| 0 <= k < i ==> (#[trigger] self@.records[k]).id != id,
            decreases self.work_records.len() - i,
        {
            if self.work_records[i].id == id {
                assert(self@.records[i as int] == self.work_records@[i as int]@);
                proof { lemma_find_id_in_increasing(self@.records, id, i as int); }
                return Some(&self.work_records[i]);
            }
            assert(self@.records[i as int] == self.work_records@[i as int]@);
            i = i + 1;
        }
        proof { lemma_find_id_none(self@.records, id); }
        None
    }

    /// Adds `record`, replacing the one with the same id if there is one; `last_id` becomes
    /// the larger of itself and the record's id.
    pub fn add_record(&mut self, record: WorkRecord)
        requires
            old(self)@.wf(),
            record@.wf(),
        ensures
            final(self)@.wf(),
            final(self)@.date == old(self)@.date,
            final(self)@.last_id == if record.id > old(self)@.last_id { record.id } else { old(self)@.last_id },
            final(self)@.records == insert_by_id(old(self)@.records, record@),
    {
        if record.id > self.last_id {
            self.last_id = record.id;
        }
        proof {
            lemma_insert_by_id_wf(self@.records, record@);
        }
        put_record(&mut self.work_records, record);
    }
}

impl DayData {
    /// Takes out the record with id `id`, if the day has one; `last_id` stays as it is.
    pub fn remove_record(&mut self, id: u32) -> (res: Option<WorkRecord>)
        requires
            old(self)@.wf(),
        ensures
            final(self)@.wf(),
            final(self)@.date == old(self)@.date,
            final(self)@.last_id == old(self)@.last_id,
            res is Some <==> old(self)@.has_id(id),
            res is None ==> final(self)@.records == old(self)@.records,
            res matches Some(r) ==> exists|k: int|
                0 <= k < old(self)@.records.len() && old(self)@.records[k].id == id && r@ == old(self)@.records[k]
                    && final(self)@.records == old(self)@.records.remove(k),
    {
        let ghost before = self@.records;
        let mut i: usize = 0;
        while i < self.work_records.len()
            invariant
                i <= self.work_records@.len(),
                self@ == old(self)@,
                before == old(self)@.records,
                old(self)@.wf(),
                forall|k: int| 0 <= k < i ==> (#[trigger] before[k]).id != id,
            decreases self.work_records.len() - i,
        {
            assert(before[i as int] == self.work_records@[i as int]@);
            if self.work_records[i].id == id {
                let ghost old_vec = self.work_records@;
                let r = self.work_records.remove(i);
                assert(self@.records =~= before.remove(i as int)) by {
                    assert(self.work_records@ == old_vec.remove(i as int));
                }
                let ghost after = before.remove(i as int);
                assert forall|a: int, b: int| 0 <= a < b < after.len() implies #[trigger] after[a].id < #[trigger] after[b].id by {
                    let a0 = if a < i { a } else { a + 1 };
                    let b0 = if b < i { b } else { b + 1 };
                    assert(after[a] == before[a0] && after[b] == before[b0]);
                    assert(before[a0].id < before[b0].id);
                }
                assert forall|a: int| 0 <= a < after.len() implies (#[trigger] after[a]).wf() by {
                    let a0 = if a < i { a } else { a + 1 };
                    assert(after[a] == before[a0]);
                }
                assert(r@ == before[i as int]);
                return Some(r);
            }
            i = i + 1;
        }
        None
    }
}

/// How many leading records of `rs` have an id below `id`.
pub open spec fn id_pos(rs: Seq<RecordView>, id: u32) -> nat
    decreases rs.len(),
{
    if rs.len() == 0 || rs[0].id >= id {
        0
    } else {
        1 + id_pos(rs.skip(1), id)
    }
}

/// `rs` with `r` put in id order: it replaces the record with its id, or goes in before the
/// first record with a larger id.
pub open spec fn insert_by_id(rs: Seq<RecordView>, r: RecordView) -> Seq<RecordView> {
    let p = id_pos(rs, r.id) as int;
    if p < rs.len() && rs[p].id == r.id {
        rs.update(p, r)
    } else {
        rs.insert(p, r)
    }
}

proof fn lemma_id_pos(rs: Seq<RecordView>, id: u32)
    ensures
        id_pos(rs, id) <= rs.len(),
        forall|k: int| 0 <= k < id_pos(rs, id) ==> (#[trigger] rs[k]).id < id,
        id_pos(rs, id) < rs.len() ==> rs[id_pos(rs, id) as int].id >= id,
    decreases rs.len(),
{
    if rs.len() > 0 && rs[0].id < id {
        lemma_id_pos(rs.skip(1), id);
        assert forall|k: int| 0 <= k < id_pos(rs, id) implies (#[trigger] rs[k]).id < id by {
            if k > 0 {
                assert(rs[k] == rs.skip(1)[k - 1]);
            }
        }
    }
}

/// Putting a valid record into a valid id-ordered sequence keeps it valid and ordered.
pub proof fn lemma_insert_by_id_wf(rs: Seq<RecordView>, r: RecordView)
    requires
        ids_increasing(rs),
        forall|i: int| 0 <= i < rs.len() ==> (#[trigger] rs[i]).wf(),
        r.wf(),
    ensures
        ids_increasing(insert_by_id(rs, r)),
        forall|i: int| 0 <= i < insert_by_id(rs, r).len() ==> (#[trigger] insert_by_id(rs, r)[i]).wf(),
{
    lemma_id_pos(rs, r.id);
    let p = id_pos(rs, r.id) as int;
    let out = insert_by_id(rs, r);
    if p < rs.len() && rs[p].id == r.id {
        assert forall|a: int, b: int| 0 <= a < b < out.len() implies
            #[trigger] out[a].id < #[trigger] out[b].id by {
            assert(rs[a].id < rs[b].id);
        }
    } else {
        assert(p < rs.len() ==> rs[p].id > r.id);
        assert forall|a: int, b: int| 0 <= a < b < out.len() implies
            #[trigger] out[a].id < #[trigger] out[b].id by {
            if b < p {
                assert(rs[a].id < rs[b].id);
            } else if b == p {
                assert(rs[a].id < r.id);
            } else if a < p {
                assert(rs[a].id < r.id);
                assert(rs[p].id <= rs[b - 1].id);
            } else if a == p {
                assert(rs[p].id <= rs[b - 1].id);
            } else {
                assert(rs[a - 1].id < rs[b - 1].id);
            }
        }
        assert forall|i: int| 0 <= i < out.len() implies (#[trigger] out[i]).wf() by {
            if i < p {
                assert(out[i] == rs[i]);
            } else if i > p {
                assert(out[i] == rs[i - 1]);
            }
        }
    }
}

/// Putting a record whose id is above every id of an ordered sequence appends it.
pub proof fn lemma_insert_by_id_last(rs: Seq<RecordView>, r: RecordView)
    requires
        forall|i: int| 0 <= i < rs.len() ==> (#[trigger] rs[i]).id < r.id,
    ensures
        insert_by_id(rs, r) == rs.push(r),
    decreases rs.len(),
{
    lemma_id_pos(rs, r.id);
    if id_pos(rs, r.id) < rs.len() {
        assert(rs[id_pos(rs, r.id) as int].id < r.id);
    }
    assert(rs.insert(rs.len() as int, r) =~= rs.push(r));
}

/// The record of `rs` with id `id`, if there is one.
pub open spec fn find_id(rs: Seq<RecordView>, id: u32) -> Option<RecordView> {
    if exists|k: int| 0 <= k < rs.len() && (#[trigger] rs[k]).id == id {
        Some(rs[choose|k: int| 0 <= k < rs.len() && (#[trigger] rs[k]).id == id])
    } else {
        None
    }
}

proof fn lemma_find_id_unique(rs: Seq<RecordView>, id: u32, k: int)
    requires
        0 <= k < rs.len(),
        rs[k].id == id,
        forall|j: int| 0 <= j < rs.len() && (#[trigger] rs[j]).id == id ==> j == k,
    ensures
        find_id(rs, id) == Some(rs[k]),
{
    assert(0 <= k < rs.len() && rs[k].id == id);
}

proof fn lemma_find_id_none(rs: Seq<RecordView>, id: u32)
    requires
        forall|j: int| 0 <= j < rs.len() ==> (#[trigger] rs[j]).id != id,
    ensures
        find_id(rs, id) is None,
{
}

proof fn lemma_find_id_in_increasing(rs: Seq<RecordView>, id: u32, k: int)
    requires
        ids_increasing(rs),
        0 <= k < rs.len(),
        rs[k].id == id,
    ensures
        find_id(rs, id) == Some(rs[k]),
{
    assert forall|j: int| 0 <= j < rs.len() && (#[trigger] rs[j]).id == id implies j == k by {
        if j < k {
            assert(rs[j].id < rs[k].id);
        } else if j > k {
            assert(rs[k].id < rs[j].id);
        }
    }
    lemma_find_id_unique(rs, id, k);
}

/// Read after write: once `r` is added, it is the record with its id, and the record with
/// any other id is what it was.
pub proof fn law_add_record_then_find(rs: Seq<RecordView>, r: RecordView, id: u32)
    requires
        ids_increasing(rs),
    ensures
        find_id(insert_by_id(rs, r), r.id) == Some(r),
        id != r.id ==> find_id(insert_by_id(rs, r), id) == find_id(rs, id),
{
    lemma_id_pos(rs, r.id);
    let p = id_pos(rs, r.id) as int;
    let out = insert_by_id(rs, r);
    let replaced = p < rs.len() && rs[p].id == r.id;
    // Where each entry of `out` comes from in `rs` (none for `r` itself).
    assert forall|j: int| 0 <= j < out.len() && j != p implies #[trigger] out[j] == (if replaced || j < p {
        rs[j]
    } else {
        rs[j - 1]
    }) by {}
    assert forall|j: int| 0 <= j < out.len() && (#[trigger] out[j]).id == r.id implies j == p by {
        if j != p {
            if replaced {
                if j < p {
                    assert(rs[j].id < rs[p].id);
                } else {
                    assert(rs[p].id < rs[j].id);
                }
            } else if j < p {
                assert(rs[j].id < r.id);
            } else {
                assert(rs[p].id >= r.id);
                assert(rs[p].id != r.id);
                if j - 1 > p {
                    assert(rs[p].id < rs[j - 1].id);
                }
            }
        }
    }
    assert(out[p] == r);
    lemma_find_id_unique(out, r.id, p);
    if id != r.id {
        if exists|k: int| 0 <= k < rs.len() && (#[trigger] rs[k]).id == id {
            let k = choose|k: int| 0 <= k < rs.len() && (#[trigger] rs[k]).id == id;
            lemma_find_id_in_increasing(rs, id, k);
            let j = if replaced || k < p { k } else { k + 1 };
            if replaced && k == p {
                assert(false);
            }
            assert(out[j] == rs[k]);
            assert forall|i: int| 0 <= i < out.len() && (#[trigger] out[i]).id == id implies i == j by {
                assert(i != p);
                let i0 = if replaced || i < p { i } else { i - 1 };
                assert(out[i] == rs[i0]);
                if i0 < k {
                    assert(rs[i0].id < rs[k].id);
                } else if i0 > k {
                    assert(rs[k].id < rs[i0].id);
                }
            }
            lemma_find_id_unique(out, id, j);
        } else {
            assert forall|i: int| 0 <= i < out.len() implies (#[trigger] out[i]).id != id by {
                if i != p {
                    let i0 = if replaced || i < p { i } else { i - 1 };
                    assert(out[i] == rs[i0]);
                    assert(!(0 <= i0 < rs.len() && rs[i0].id == id));
                }
            }
            lemma_find_id_none(out, id);
        }
    }
}

/// Once the record with id `rs[k].id` is taken out, the day has no record with that id, and
/// the record with any other id is what it was.
pub proof fn law_remove_record_then_find(rs: Seq<RecordView>, k: int, id: u32)
    requires
        ids_increasing(rs),
        0 <= k < rs.len(),
    ensures
        find_id(rs.remove(k), rs[k].id) is None,
        id != rs[k].id ==> find_id(rs.remove(k), id) == find_id(rs, id),
{
    let out = rs.remove(k);
    assert forall|j: int| 0 <= j < out.len() implies #[trigger] out[j] == (if j < k { rs[j] } else { rs[j + 1] }) by {}
    assert forall|j: int| 0 <= j < out.len() implies (#[trigger] out[j]).id != rs[k].id by {
        if j < k {
            assert(rs[j].id < rs[k].id);
        } else {
            assert(rs[k].id < rs[j + 1].id);
        }
    }
    lemma_find_id_none(out, rs[k].id);
    if id != rs[k].id {
        if exists|m: int| 0 <= m < rs.len() && (#[trigger] rs[m]).id == id {
            let m = choose|m: int| 0 <= m < rs.len() && (#[trigger] rs[m]).id == id;
            lemma_find_id_in_increasing(rs, id, m);
            let j = if m < k { m } else { m - 1 };
            assert(m != k);
            assert(out[j] == rs[m]);
            assert forall|i: int| 0 <= i < out.len() && (#[trigger] out[i]).id == id implies i == j by {
                let i0 = if i < k { i } else { i + 1 };
                assert(out[i] == rs[i0]);
                if i0 < m {
                    assert(rs[i0].id < rs[m].id);
                } else if i0 > m {
                    assert(rs[m].id < rs[i0].id);
                }
            }
            lemma_find_id_unique(out, id, j);
        } else {
            assert forall|i: int| 0 <= i < out.len() implies (#[trigger] out[i]).id != id by {
                let i0 = if i < k { i } else { i + 1 };
                assert(out[i] == rs[i0]);
                assert(!(0 <= i0 < rs.len() && rs[i0].id == id));
            }
            lemma_find_id_none(out, id);
        }
    }
}

/// Puts `record` into the id-ordered records (see `insert_by_id`).
pub fn put_record(records: &mut Vec<WorkRecord>, record: WorkRecord)
    ensures
        final(records)@.map_values(|r: WorkRecord| r@) == insert_by_id(
            old(records)@.map_values(|r: WorkRecord| r@),
            record@,
        ),
{
    let ghost old_recs = records@.map_values(|r: WorkRecord| r@);
    let n = records.len();
    let mut i: usize = 0;
    assert(old_recs.skip(0) =~= old_recs);
    while i < n && records[i].id < record.id
        invariant
            n == records@.len(),
            i <= n,
            old_recs == records@.map_values(|r: WorkRecord| r@),
            id_pos(old_recs, record.id) == i + id_pos(old_recs.skip(i as int), record.id),
        decreases n - i,
    {
        assert(old_recs.skip(i as int)[0] == records@[i as int]@);
        assert(old_recs.skip(i as int).skip(1) =~= old_recs.skip(i + 1));
        i = i + 1;
    }
    if i < n {
        assert(old_recs.skip(i as int)[0] == records@[i as int]@);
    }
    assert(id_pos(old_recs, record.id) == i);
    let ghost rv = record@;
    if i < n && records[i].id == record.id {
        assert(old_recs[i as int] == records@[i as int]@);
        records.set(i, record);
        assert(records@.map_values(|r: WorkRecord| r@) =~= old_recs.update(i as int, rv));
    } else {
        assert(i < n ==> old_recs[i as int] == records@[i as int]@);
        records.insert(i, record);
        assert(records@.map_values(|r: WorkRecord| r@) =~= old_recs.insert(i as int, rv));
    }
}

/// Minutes since midnight of `t`'s clock reading.
fn minutes_of(t: &TimePoint) -> (res: u32)
    ensures
        res == t.minutes(),
{
    t.hour as u32 * 60 + t.minute as u32
}

/// `a` comes before `b` by start time, then by id.
pub open spec fn starts_before(a: RecordView, b: RecordView) -> bool {
    a.start.minutes() < b.start.minutes() || (a.start.minutes() == b.start.minutes() && a.id < b.id)
}

pub open spec fn sorted_by_start(rs: Seq<RecordView>) -> bool {
    forall|i: int, j: int| 0 <= i < j < rs.len() ==> starts_before(#[trigger] rs[i], #[trigger] rs[j])
}

/// `s` holds the records of `rs`, each once, ordered by start time.
pub open spec fn is_start_ordering(s: Seq<RecordView>, rs: Seq<RecordView>) -> bool {
    &&& s.len() == rs.len()
    &&& sorted_by_start(s)
    &&& forall|i: int| 0 <= i < s.len() ==> rs.contains(#[trigger] s[i])
    &&& forall|i: int| 0 <= i < rs.len() ==> s.contains(#[trigger] rs[i])
}

/// The records of `rs` ordered by start time, then id.
pub open spec fn spec_sorted_records(rs: Seq<RecordView>) -> Seq<RecordView> {
    choose|s: Seq<RecordView>| is_start_ordering(s, rs)
}

/// Two sequences that are both strictly ordered by start and hold the same records are equal.
proof fn lemma_start_ordering_unique(s1: Seq<RecordView>, s2: Seq<RecordView>)
    requires
        s1.len() == s2.len(),
        sorted_by_start(s1),
        sorted_by_start(s2),
        forall|i: int| 0 <= i < s1.len() ==> s2.contains(#[trigger] s1[i]),
        forall|i: int| 0 <= i < s2.len() ==> s1.contains(#[trigger] s2[i]),
    ensures
        s1 == s2,
    decreases s1.len(),
{
    if s1.len() > 0 {
        let a = s1[0];
        let b = s2[0];
        assert(s2.contains(a));
        assert(s1.contains(b));
        let j = choose|j: int| 0 <= j < s2.len() && s2[j] == a;
        let k = choose|k: int| 0 <= k < s1.len() && s1[k] == b;
        if j > 0 && k > 0 {
            assert(starts_before(s2[0], s2[j]));
            assert(starts_before(s1[0], s1[k]));
            assert(false);
        }
        assert(a == b);
        let t1 = s1.skip(1);
        let t2 = s2.skip(1);
        assert forall|i: int| 0 <= i < t1.len() implies t2.contains(#[trigger] t1[i]) by {
            assert(t1[i] == s1[i + 1]);
            assert(s2.contains(s1[i + 1]));
            let m = choose|m: int| 0 <= m < s2.len() && s2[m] == s1[i + 1];
            assert(starts_before(s1[0], s1[i + 1]));
            if m == 0 {
                assert(false);
            }
            assert(t2[m - 1] == t1[i]);
        }
        assert forall|i: int| 0 <= i < t2.len() implies t1.contains(#[trigger] t2[i]) by {
            assert(t2[i] == s2[i + 1]);
            assert(s1.contains(s2[i + 1]));
            let m = choose|m: int| 0 <= m < s1.len() && s1[m] == s2[i + 1];
            assert(starts_before(s2[0], s2[i + 1]));
            if m == 0 {
                assert(false);
            }
            assert(t1[m - 1] == t2[i]);
        }
        assert(sorted_by_start(t1)) by {
            assert forall|x: int, y: int| 0 <= x < y < t1.len() implies
                starts_before(#[trigger] t1[x], #[trigger] t1[y]) by {
                assert(starts_before(s1[x + 1], s1[y + 1]));
            }
        }
        assert(sorted_by_start(t2)) by {
            assert forall|x: int, y: int| 0 <= x < y < t2.len() implies
                starts_before(#[trigger] t2[x], #[trigger] t2[y]) by {
                assert(starts_before(s2[x + 1], s2[y + 1]));
            }
        }
        lemma_start_ordering_unique(t1, t2);
        assert(s1 =~= seq![a] + t1);
        assert(s2 =~= seq![b] + t2);
    }
}

/// Any start ordering of `rs` is the one `spec_sorted_records` names.
pub proof fn lemma_sorted_records_is(s: Seq<RecordView>, rs: Seq<RecordView>)
    requires
        is_start_ordering(s, rs),
    ensures
        spec_sorted_records(rs) == s,
{
    let c = spec_sorted_records(rs);
    assert(is_start_ordering(c, rs));
    assert forall|i: int| 0 <= i < s.len() implies c.contains(#[trigger] s[i]) by {
        assert(rs.contains(s[i]));
        let j = choose|j: int| 0 <= j < rs.len() && rs[j] == s[i];
        assert(c.contains(rs[j]));
    }
    assert forall|i: int| 0 <= i < c.len() implies s.contains(#[trigger] c[i]) by {
        assert(rs.contains(c[i]));
        let j = choose|j: int| 0 <= j < rs.len() && rs[j] == c[i];
        assert(s.contains(rs[j]));
    }
    lemma_start_ordering_unique(s, c);
}

impl DayData {
    /// The day's records ordered by start time (records that start together by id).
    pub fn get_sorted_records(&self) -> (res: Vec<WorkRecord>)
        requires
            self@.wf(),
        ensures
            res@.map_values(|r: WorkRecord| r@) == spec_sorted_records(self@.records),
            res@.len() == self@.records.len(),
            sorted_by_start(res@.map_values(|r: WorkRecord| r@)),
            forall|i: int| 0 <= i < res@.len() ==> self@.records.contains(#[trigger] res@[i]@),
            forall|i: int| 0 <= i < self@.records.len() ==>
                res@.map_values(|r: WorkRecord| r@).contains(#[trigger] self@.records[i]),
    {
        let ghost recs = self@.records;
        let mut out: Vec<WorkRecord> = Vec::new();
        let n = self.work_records.len();
        let mut i: usize = 0;
        while i < n
            invariant
                n == recs.len(),
                recs == self@.records,
                self@.wf(),
                i <= n,
                out@.len() == i,
                sorted_by_start(out@.map_values(|r: WorkRecord| r@)),
                forall|k: int| 0 <= k < out@.len() ==> recs.take(i as int).contains(#[trigger] out@[k]@),
                forall|k: int| 0 <= k < i ==> out@.map_values(|r: WorkRecord| r@).contains(#[trigger] recs[k]),
            decreases n - i,
        {
            let ghost ov = out@.map_values(|r: WorkRecord| r@);
            let rec = self.work_records[i].clone();
            assert(rec@ == recs[i as int]);
            let rs = minutes_of(&rec.start);
            proof {
                assert(recs[i as int].wf());
            }
            let mut p: usize = 0;
            while p < out.len() && (minutes_of(&out[p].start) < rs
                || (minutes_of(&out[p].start) == rs && out[p].id < rec.id))
                invariant
                    p <= out@.len(),
                    ov == out@.map_values(|r: WorkRecord| r@),
                    rs == rec@.start.minutes(),
                    forall|k: int| 0 <= k < p ==> starts_before(#[trigger] ov[k], rec@),
                decreases out@.len() - p,
            {
                assert(ov[p as int] == out@[p as int]@);
                p = p + 1;
            }
            proof {
                if p < out@.len() {
                    assert(ov[p as int] == out@[p as int]@);
                    // the candidate is a different record, so it differs in id
                    assert(recs.take(i as int).contains(ov[p as int]));
                    let j = choose|j: int| 0 <= j < i && recs.take(i as int)[j] == ov[p as int];
                    assert(recs[j].id < recs[i as int].id);
                }
            }
            let ghost rv = rec@;
            out.insert(p, rec);
            let ghost nv = out@.map_values(|r: WorkRecord| r@);
            assert(nv =~= ov.insert(p as int, rv));
            assert forall|a: int, b: int| 0 <= a < b < nv.len() implies
                starts_before(#[trigger] nv[a], #[trigger] nv[b]) by {
                if b < p {
                    assert(starts_before(ov[a], ov[b]));
                } else if b == p {
                    assert(starts_before(ov[a], rv));
                } else if a < p {
                    assert(starts_before(ov[a], rv));
                    if p < b - 1 {
                        assert(starts_before(ov[p as int], ov[b - 1]));
                    }
                } else if a == p {
                    if p < b - 1 {
                        assert(starts_before(ov[p as int], ov[b - 1]));
                    }
                } else {
                    assert(starts_before(ov[a - 1], ov[b - 1]));
                }
            }
            assert forall|k: int| 0 <= k < out@.len() implies
                recs.take(i + 1).contains(#[trigger] out@[k]@) by {
                assert(out@[k]@ == nv[k]);
                if k < p {
                    assert(recs.take(i as int).contains(ov[k]));
                    let j = choose|j: int| 0 <= j < i && recs.take(i as int)[j] == ov[k];
                    assert(recs.take(i + 1)[j] == ov[k]);
                } else if k == p {
                    assert(recs.take(i + 1)[i as int] == rv);
                } else {
                    assert(recs.take(i as int).contains(ov[k - 1]));
                    let j = choose|j: int| 0 <= j < i && recs.take(i as int)[j] == ov[k - 1];
                    assert(recs.take(i + 1)[j] == ov[k - 1]);
                }
            }
            assert forall|k: int| 0 <= k < i + 1 implies nv.contains(#[trigger] recs[k]) by {
                if k == i {
                    assert(nv[p as int] == rv);
                } else {
                    assert(ov.contains(recs[k]));
                    let j = choose|j: int| 0 <= j < ov.len() && ov[j] == recs[k];
                    if j < p {
                        assert(nv[j] == recs[k]);
                    } else {
                        assert(nv[j + 1] == recs[k]);
                    }
                }
            }
            i = i + 1;
        }
        assert(recs.take(n as int) =~= recs);
        proof {
            let v = out@.map_values(|r: WorkRecord| r@);
            assert forall|k: int| 0 <= k < v.len() implies recs.contains(#[trigger] v[k]) by {
                assert(v[k] == out@[k]@);
            }
            lemma_sorted_records_is(v, recs);
        }
        out
    }
}
} // verus!
