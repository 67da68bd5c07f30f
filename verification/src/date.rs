//! Calendar dates (proleptic Gregorian, years -9999..=9999) and their
//! `YYYY-MM-DD` text form.

use vstd::prelude::*;
use crate::digits::{decimal, digit_char, padded_decimal, push_padded, zero_pad};
use crate::text::{chars_of, push_str, string_from_chars};

verus! {

pub open spec fn is_leap_year(y: int) -> bool {
    (y % 4 == 0 && y % 100 != 0) || y % 400 == 0
}

pub open spec fn days_in_month(y: int, m: int) -> int {
    if m == 2 {
        if is_leap_year(y) { 29 } else { 28 }
    } else if m == 4 || m == 6 || m == 9 || m == 11 {
        30
    } else {
        31
    }
}

/// A calendar day. Only values with `wf()` are ever produced by this library.
#[derive(Clone, Copy, Debug, PartialEq, Eq, PartialOrd, Ord, Hash, Structural)]
pub struct Date {
    pub year: i32,
    pub month: u8,
    pub day: u8,
}

impl Date {
    /// The date exists in the calendar and its year is in -9999..=9999.
    pub open spec fn wf(self) -> bool {
        &&& -9999 <= self.year <= 9999
        &&& 1 <= self.month <= 12
        &&& 1 <= self.day <= days_in_month(self.year as int, self.month as int)
    }

    /// A number that orders valid dates chronologically.
    pub open spec fn key(self) -> int {
        self.year * 10000 + self.month * 100 + self.day
    }
}

/// `a` is the same day as `b` or an earlier one.
pub open spec fn date_le(a: Date, b: Date) -> bool {
    a.key() <= b.key()
}

/// The day before `d`, if `d` is not the first representable day.
pub open spec fn spec_previous_day(d: Date) -> Option<Date> {
    if d.day > 1 {
        Some(Date { year: d.year, month: d.month, day: (d.day - 1) as u8 })
    } else if d.month > 1 {
        Some(Date {
            year: d.year,
            month: (d.month - 1) as u8,
            day: days_in_month(d.year as int, d.month - 1) as u8,
        })
    } else if d.year > -9999 {
        Some(Date { year: (d.year - 1) as i32, month: 12, day: 31 })
    } else {
        None
    }
}

/// The `{:04}` rendering of a year: sign-aware zero padding to four characters.
pub open spec fn year_text(y: int) -> Seq<char> {
    if y >= 0 {
        padded_decimal(y as nat, 4)
    } else {
        seq!['-'] + padded_decimal((-y) as nat, 3)
    }
}

/// `YYYY-MM-DD`, as `format!("{:04}-{:02}-{:02}", year, month, day)` renders it.
pub open spec fn spec_format_date(d: Date) -> Seq<char> {
    year_text(d.year as int) + seq!['-'] + padded_decimal(d.month as nat, 2) + seq!['-']
        + padded_decimal(d.day as nat, 2)
}

pub open spec fn is_ascii_digit(c: char) -> bool {
    '0' <= c <= '9'
}

pub open spec fn digit_value(c: char) -> int {
    c as int - '0' as int
}

/// Ten characters `DDDD-DD-DD`, every `D` an ASCII digit.
pub open spec fn is_date_shaped(s: Seq<char>) -> bool {
    &&& s.len() == 10
    &&& s[4] == '-'
    &&& s[7] == '-'
    &&& forall|i: int| 0 <= i < 10 && i != 4 && i != 7 ==> is_ascii_digit(#[trigger] s[i])
}

/// The date that a `DDDD-DD-DD` text names, read digit by digit.
pub open spec fn date_of_text(s: Seq<char>) -> Date {
    Date {
        year: (digit_value(s[0]) * 1000 + digit_value(s[1]) * 100 + digit_value(s[2]) * 10
            + digit_value(s[3])) as i32,
        month: (digit_value(s[5]) * 10 + digit_value(s[6])) as u8,
        day: (digit_value(s[8]) * 10 + digit_value(s[9])) as u8,
    }
}

/// A `YYYY-MM-DD` text with four year digits that names a real date.
pub open spec fn is_canonical_date_text(s: Seq<char>) -> bool {
    is_date_shaped(s) && date_of_text(s).wf()
}

/// What `time::Date::parse` with the description `[year]-[month]-[day]` returns for a text,
/// as (year, month number, day).
pub uninterp spec fn time_date_parse_ymd(text: Seq<char>) -> Option<(i32, u8, u8)>;

/// The date that a `±DDDD-DD-DD` text names: the year takes the sign.
pub open spec fn signed_date_of_text(s: Seq<char>) -> Date {
    let d = date_of_text(s.skip(1));
    if s[0] == '-' {
        Date { year: (-d.year) as i32, month: d.month, day: d.day }
    } else {
        d
    }
}

/// A `-YYYY-MM-DD` or `+YYYY-MM-DD` text with four year digits that names a real date.
pub open spec fn is_signed_canonical_date_text(s: Seq<char>) -> bool {
    &&& s.len() == 11
    &&& (s[0] == '-' || s[0] == '+')
    &&& is_date_shaped(s.skip(1))
    &&& signed_date_of_text(s).wf()
}

/// What the time crate's `[year]-[month]-[day]` parser gives for `text`: on a canonical
/// `YYYY-MM-DD` text, or one with a sign before its four year digits, that date's numbers;
/// on any other text, its named result.
pub open spec fn ymd_parse(text: Seq<char>) -> Option<(i32, u8, u8)> {
    if is_canonical_date_text(text) {
        let d = date_of_text(text);
        Some((d.year, d.month, d.day))
    } else if is_signed_canonical_date_text(text) {
        let d = signed_date_of_text(text);
        Some((d.year, d.month, d.day))
    } else {
        time_date_parse_ymd(text)
    }
}

pub open spec fn date_from_triple(t: Option<(i32, u8, u8)>) -> Option<Date> {
    match t {
        Some((y, m, d)) => Some(Date { year: y, month: m, day: d }),
        None => None,
    }
}

/// Calls `time::Date::parse(text, [year]-[month]-[day])` and reads the result's year, month
/// number and day. Claimed of it, as the crate's year, month and day parsers show: a text of
/// exactly four year digits (optionally after `+` or `-`, which gives the year its sign), two
/// month digits and two day digits, joined by `-`, that names a real date gives that date
/// (`ymd_parse`); on any other text the result is the named one; a date it returns is a real
/// calendar date in -9999..=9999 (the range of `time::Date` without its `large-dates` feature).
/// Left unsaid: which other texts it accepts.
#[verifier::external_body]
fn time_parse_ymd(text: &str) -> (res: Option<Date>)
    ensures
        res == date_from_triple(ymd_parse(text@)),
        !is_canonical_date_text(text@) && !is_signed_canonical_date_text(text@) ==> res == date_from_triple(
            time_date_parse_ymd(text@),
        ),
        res matches Some(d) ==> d.wf(),
{
    let Ok(format) = time::format_description::parse_borrowed::<1>("[year]-[month]-[day]") else {
        return None;
    };
    match time::Date::parse(text, &format) {
        Ok(d) => Some(Date { year: d.year(), month: u8::from(d.month()), day: d.day() }),
        Err(_) => None,
    }
}

/// A text that is not a date in `YYYY-MM-DD` form.
#[derive(Clone, Debug, PartialEq, Eq)]
pub struct DateParseError {
    pub text: String,
}

impl DateParseError {
    /// `Invalid date: '<text>'. Expected YYYY-MM-DD`
    pub open spec fn message_text(&self) -> Seq<char> {
        seq!['I', 'n', 'v', 'a', 'l', 'i', 'd', ' ', 'd', 'a', 't', 'e', ':', ' ', '\'']
            + self.text@ + seq!['\'', '.', ' ', 'E', 'x', 'p', 'e', 'c', 't', 'e', 'd', ' ', 'Y',
            'Y', 'Y', 'Y', '-', 'M', 'M', '-', 'D', 'D']
    }

    /// The message shown for the refused date.
    pub fn message(&self) -> (res: String)
        ensures
            res@ == self.message_text(),
    {
        let mut out: Vec<char> = Vec::new();
        push_str(&mut out, "Invalid date: '");
        push_str(&mut out, self.text.as_str());
        push_str(&mut out, "'. Expected YYYY-MM-DD");
        proof {
            reveal_strlit("Invalid date: '");
            reveal_strlit("'. Expected YYYY-MM-DD");
        }
        string_from_chars(&out)
    }
}

/// Reads a `YYYY-MM-DD` date (the library's date parser).
pub fn parse_date(text: &str) -> (res: Result<Date, DateParseError>)
    ensures
        res is Ok <==> ymd_parse(text@) is Some,
        res matches Ok(d) ==> d.wf() && Some(d) == date_from_triple(ymd_parse(text@)),
        res matches Err(e) ==> e.text@ == text@,
        is_canonical_date_text(text@) ==> res == Ok::<Date, DateParseError>(date_of_text(text@)),
{
    match time_parse_ymd(text) {
        Some(d) => Ok(d),
        None => Err(DateParseError { text: text.to_owned() }),
    }
}

impl Date {
    /// The date with these calendar numbers, if it exists (and its year is in -9999..=9999).
    pub fn from_calendar_date(year: i32, month: u8, day: u8) -> (res: Option<Date>)
        ensures
            res is Some <==> (Date { year, month, day }).wf(),
            res matches Some(d) ==> d == (Date { year, month, day }),
    {
        if year < -9999 || year > 9999 || month < 1 || month > 12 || day < 1 {
            return None;
        }
        if day > days_in_month_exec(year, month) {
            return None;
        }
        Some(Date { year, month, day })
    }

    /// `self` is the same day as `other` or an earlier one.
    pub fn is_on_or_before(&self, other: &Date) -> (res: bool)
        ensures
            res == date_le(*self, *other),
    {
        let a: i64 = self.year as i64 * 10000 + self.month as i64 * 100 + self.day as i64;
        let b: i64 = other.year as i64 * 10000 + other.month as i64 * 100 + other.day as i64;
        a <= b
    }

    /// The day before this one, or `None` on -9999-01-01.
    pub fn previous_day(&self) -> (res: Option<Date>)
        requires
            self.wf(),
        ensures
            res == spec_previous_day(*self),
            res matches Some(p) ==> p.wf() && p.key() < self.key(),
    {
        if self.day > 1 {
            Some(Date { year: self.year, month: self.month, day: self.day - 1 })
        } else if self.month > 1 {
            let m = self.month - 1;
            Some(Date { year: self.year, month: m, day: days_in_month_exec(self.year, m) })
        } else if self.year > -9999 {
            Some(Date { year: self.year - 1, month: 12, day: 31 })
        } else {
            None
        }
    }
}

/// Dates are ordered as the calendar orders them: by year, then month, then day.
pub proof fn law_date_order_is_calendar_order(a: Date, b: Date)
    requires
        a.wf(),
        b.wf(),
    ensures
        date_le(a, b) <==> (a.year < b.year || (a.year == b.year && (a.month < b.month
            || (a.month == b.month && a.day <= b.day)))),
        date_le(a, b) && date_le(b, a) <==> a == b,
{
    assert(days_in_month(a.year as int, a.month as int) <= 31);
    assert(days_in_month(b.year as int, b.month as int) <= 31);
}

/// The day before `d` is the latest valid date earlier than `d`: it is valid, earlier, and
/// no valid date lies between the two. Only -9999-01-01, the first representable day, has
/// none, and no valid date is earlier than it.
pub proof fn law_previous_day_is_adjacent(d: Date, e: Date)
    requires
        d.wf(),
        e.wf(),
    ensures
        spec_previous_day(d) is None <==> (d.year == -9999 && d.month == 1 && d.day == 1),
        spec_previous_day(d) matches Some(p) ==> p.wf() && p.key() < d.key(),
        spec_previous_day(d) matches Some(p) ==> (e.key() < d.key() ==> e.key() <= p.key()),
        spec_previous_day(d) is None ==> d.key() <= e.key(),
{
    assert(28 <= days_in_month(e.year as int, e.month as int) <= 31);
    if d.month > 1 {
        assert(28 <= days_in_month(d.year as int, d.month - 1) <= 31);
    }
}

pub fn is_leap_year_exec(year: i32) -> (res: bool)
    requires
        -9999 <= year <= 9999,
    ensures
        res == is_leap_year(year as int),
{
    // 10000 is a multiple of 400, so the shift keeps every remainder the rule looks at.
    let y: i32 = year + 10000;
    assert(is_leap_year(year as int) == is_leap_year(y as int)) by (nonlinear_arith)
        requires
            y == year + 10000,
    ;
    (y % 4 == 0 && y % 100 != 0) || y % 400 == 0
}

pub fn days_in_month_exec(year: i32, month: u8) -> (res: u8)
    requires
        -9999 <= year <= 9999,
    ensures
        res == days_in_month(year as int, month as int),
{
    if month == 2 {
        if is_leap_year_exec(year) { 29 } else { 28 }
    } else if month == 4 || month == 6 || month == 9 || month == 11 {
        30
    } else {
        31
    }
}

/// Appends `{:04}` of the year to `out`.
fn push_year(out: &mut Vec<char>, year: i32)
    requires
        -9999 <= year <= 9999,
    ensures
        final(out)@ == old(out)@ + year_text(year as int),
{
    if year >= 0 {
        push_padded(out, year as u64, 4);
    } else {
        out.push('-');
        let ghost mid = out@;
        push_padded(out, (-year) as u64, 3);
        assert(out@ =~= old(out)@ + year_text(year as int));
    }
}

/// Appends `YYYY-MM-DD` of `d` to `out`.
pub fn push_date(out: &mut Vec<char>, d: &Date)
    requires
        d.wf(),
    ensures
        final(out)@ == old(out)@ + spec_format_date(*d),
{
    push_year(out, d.year);
    out.push('-');
    push_padded(out, d.month as u64, 2);
    out.push('-');
    push_padded(out, d.day as u64, 2);
    assert(out@ =~= old(out)@ + spec_format_date(*d));
}

/// `format!("{:04}-{:02}-{:02}", year, month, day)`.
pub fn format_date(d: &Date) -> (res: String)
    requires
        d.wf(),
    ensures
        res@ == spec_format_date(*d),
{
    let mut out: Vec<char> = Vec::new();
    push_date(&mut out, d);
    assert(out@ =~= spec_format_date(*d));
    string_from_chars(&out)
}

} // verus!

verus! {

proof fn lemma_digit(d: int)
    requires
        0 <= d < 10,
    ensures
        is_ascii_digit(digit_char(d)),
        digit_value(digit_char(d)) == d,
{
}

pub(crate) proof fn lemma_pad2(n: nat)
    requires
        n < 100,
    ensures
        padded_decimal(n, 2) == seq![digit_char((n / 10) as int), digit_char((n % 10) as int)],
{
    reveal_with_fuel(decimal, 3);
    if n < 10 {
        assert(padded_decimal(n, 2) =~= seq!['0', digit_char(n as int)]);
    } else {
        assert(decimal(n) =~= seq![digit_char((n / 10) as int), digit_char((n % 10) as int)]);
    }
}

proof fn lemma_pad4(n: nat)
    requires
        n < 10000,
    ensures
        padded_decimal(n, 4) == seq![
            digit_char((n / 1000) as int),
            digit_char(((n / 100) % 10) as int),
            digit_char(((n / 10) % 10) as int),
            digit_char((n % 10) as int),
        ],
{
    reveal_with_fuel(decimal, 5);
    let d = decimal(n);
    if n < 10 {
        assert(padded_decimal(n, 4) =~= seq!['0', '0', '0', digit_char(n as int)]);
    } else if n < 100 {
        assert(d =~= seq![digit_char((n / 10) as int), digit_char((n % 10) as int)]);
        assert(padded_decimal(n, 4) =~= seq!['0', '0', digit_char((n / 10) as int), digit_char((n % 10) as int)]);
    } else if n < 1000 {
        assert(decimal(n / 10) =~= seq![digit_char((n / 100) as int), digit_char(((n / 10) % 10) as int)]);
        assert(d =~= seq![digit_char((n / 100) as int), digit_char(((n / 10) % 10) as int), digit_char((n % 10) as int)]);
        assert(padded_decimal(n, 4) =~= seq!['0', digit_char((n / 100) as int), digit_char(((n / 10) % 10) as int), digit_char((n % 10) as int)]);
    } else {
        assert(decimal(n / 100) =~= seq![digit_char((n / 1000) as int), digit_char(((n / 100) % 10) as int)]);
        assert(decimal(n / 10) =~= seq![digit_char((n / 1000) as int), digit_char(((n / 100) % 10) as int), digit_char(((n / 10) % 10) as int)]);
        assert(d =~= seq![digit_char((n / 1000) as int), digit_char(((n / 100) % 10) as int), digit_char(((n / 10) % 10) as int), digit_char((n % 10) as int)]);
    }
}

proof fn lemma_four_digit_pad3(n: nat)
    requires
        1000 <= n < 10000,
    ensures
        padded_decimal(n, 3) == padded_decimal(n, 4),
{
    reveal_with_fuel(decimal, 5);
    assert(decimal(n / 100) =~= seq![digit_char((n / 1000) as int), digit_char(((n / 100) % 10) as int)]);
    assert(decimal(n / 10) =~= seq![digit_char((n / 1000) as int), digit_char(((n / 100) % 10) as int), digit_char(((n / 10) % 10) as int)]);
    assert(decimal(n).len() == 4);
}

/// Law: the text `format_date` gives a date reads back, through the time crate's parser, as
/// that date, for every year except -999..=-1 (which `{:04}` writes with three digits).
pub proof fn law_date_text_reads_back(d: Date)
    requires
        d.wf(),
        d.year >= 0 || d.year <= -1000,
    ensures
        ymd_parse(spec_format_date(d)) == Some((d.year, d.month, d.day)),
{
    if d.year >= 0 {
        law_date_text_round_trip(d);
    } else {
        let n = (-d.year) as nat;
        lemma_four_digit_pad3(n);
        let e = Date { year: n as i32, month: d.month, day: d.day };
        assert(days_in_month(e.year as int, e.month as int) == days_in_month(d.year as int, d.month as int)) by {
            assert(is_leap_year(e.year as int) == is_leap_year(d.year as int)) by {
                assert((-d.year) % 4 == 0 <==> d.year % 4 == 0);
                assert((-d.year) % 100 == 0 <==> d.year % 100 == 0);
                assert((-d.year) % 400 == 0 <==> d.year % 400 == 0);
            }
        }
        law_date_text_round_trip(e);
        let s = spec_format_date(d);
        let t = spec_format_date(e);
        assert(s =~= seq!['-'] + t);
        assert(s.skip(1) =~= t);
        assert(!is_canonical_date_text(s)) by {
            assert(s[0] == '-');
            if is_date_shaped(s) {
                assert(is_ascii_digit(s[0]));
            }
        }
        assert(signed_date_of_text(s) == d);
    }
}

/// Law: the `YYYY-MM-DD` text of a date with a year in 0..=9999 is a canonical date text
/// that names that date, so reading it back gives the date.
pub proof fn law_date_text_round_trip(d: Date)
    requires
        d.wf(),
        d.year >= 0,
    ensures
        is_canonical_date_text(spec_format_date(d)),
        date_of_text(spec_format_date(d)) == d,
{
    let y = d.year as nat;
    lemma_pad4(y);
    lemma_pad2(d.month as nat);
    lemma_pad2(d.day as nat);
    lemma_digit((y / 1000) as int);
    lemma_digit(((y / 100) % 10) as int);
    lemma_digit(((y / 10) % 10) as int);
    lemma_digit((y % 10) as int);
    lemma_digit((d.month / 10) as int);
    lemma_digit((d.month % 10) as int);
    lemma_digit((d.day / 10) as int);
    lemma_digit((d.day % 10) as int);
    let s = spec_format_date(d);
    let c0 = digit_char((y / 1000) as int);
    let c1 = digit_char(((y / 100) % 10) as int);
    let c2 = digit_char(((y / 10) % 10) as int);
    let c3 = digit_char((y % 10) as int);
    let c5 = digit_char((d.month / 10) as int);
    let c6 = digit_char((d.month % 10) as int);
    let c8 = digit_char((d.day / 10) as int);
    let c9 = digit_char((d.day % 10) as int);
    assert(year_text(d.year as int) == seq![c0, c1, c2, c3]);
    assert(s =~= seq![c0, c1, c2, c3, '-', c5, c6, '-', c8, c9]);
    assert(is_date_shaped(s)) by {
        assert forall|i: int| 0 <= i < 10 && i != 4 && i != 7 implies is_ascii_digit(#[trigger] s[i]) by {
            if i == 0 { assert(s[i] == c0); }
            else if i == 1 { assert(s[i] == c1); }
            else if i == 2 { assert(s[i] == c2); }
            else if i == 3 { assert(s[i] == c3); }
            else if i == 5 { assert(s[i] == c5); }
            else if i == 6 { assert(s[i] == c6); }
            else if i == 8 { assert(s[i] == c8); }
            else { assert(s[i] == c9); }
        }
    }
    assert((y / 1000) * 1000 + ((y / 100) % 10) * 100 + ((y / 10) % 10) * 10 + y % 10 == y) by (nonlinear_arith)
        requires y < 10000;
    assert((d.month / 10) * 10 + d.month % 10 == d.month as int) by (nonlinear_arith);
    assert((d.day / 10) * 10 + d.day % 10 == d.day as int) by (nonlinear_arith);
    assert(date_of_text(s) == d);
}

} // verus!
