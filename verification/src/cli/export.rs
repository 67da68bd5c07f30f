//! CSV export: field escaping, durations as `HH:MM`, and the export options.

use vstd::prelude::*;
use crate::date::{Date, DateParseError, date_from_triple, date_le, format_date, law_date_text_reads_back, lemma_pad2, parse_date, push_date, spec_format_date, ymd_parse};
use crate::digits::{decimal, digit_char, padded_decimal, push_padded};
use crate::models::{DayData, DayView, RecordView, WorkRecord, spec_sorted_records, spec_time_point_text};
use crate::text::{chars_of, push_str, str_eq, string_from_chars};

verus! {

/// Where a CSV export goes.
#[derive(Debug, Default)]
pub struct ExportOutputArgs {
    /// Print the CSV to standard output instead of writing files.
    pub stdout: bool,
    /// Directory where export files are written.
    pub out_dir: Option<String>,
}

/// `export date YYYY-MM-DD`
#[derive(Debug)]
pub struct ExportDateArgs {
    pub date: String,
    pub output: ExportOutputArgs,
}

/// `export range (all | START END)`
#[derive(Debug)]
pub struct ExportRangeArgs {
    pub range: Vec<String>,
    /// One CSV file per date.
    pub individual: bool,
    pub output: ExportOutputArgs,
}

/// The export subcommands.
#[derive(Debug)]
pub enum ExportCommands {
    /// Export records for exactly one date.
    Date(ExportDateArgs),
    /// Export records for a date range or all dates.
    Range(ExportRangeArgs),
    /// List dates that currently have records.
    ListDates,
}

/// Which dates a range export covers.
#[derive(Clone, Copy, Debug, PartialEq, Eq, Structural)]
pub enum RangeSpec {
    All,
    Bounded { start: Date, end: Date },
}

/// Why an export was refused.
#[derive(Debug, PartialEq, Eq)]
pub enum ExportError {
    StdoutWithOutDir,
    StdoutWithIndividual,
    InvalidDate(DateParseError),
    /// The end date lies before the start date.
    InvalidRange { start: Date, end: Date },
    /// A single range argument other than `all`.
    InvalidRangeArgument(String),
    /// Neither one nor two range arguments.
    RangeArity,
    NoRecordsForDate(Date),
    NoRecordsInRange,
}

impl ExportError {
    /// The dates the error names are real dates.
    pub open spec fn wf(&self) -> bool {
        match self {
            ExportError::InvalidRange { start, end } => start.wf() && end.wf(),
            ExportError::NoRecordsForDate(d) => d.wf(),
            _ => true,
        }
    }

    /// The message shown for the error.
    pub open spec fn message_text(&self) -> Seq<char> {
        match self {
            ExportError::StdoutWithOutDir => "--stdout cannot be used with --out-dir"@,
            ExportError::StdoutWithIndividual => "--stdout cannot be used with --individual"@,
            ExportError::InvalidDate(e) => e.message_text(),
            ExportError::InvalidRange { start, end } => "Invalid date range: "@ + spec_format_date(*end)
                + " is before "@ + spec_format_date(*start),
            ExportError::InvalidRangeArgument(v) => "Invalid range argument '"@ + v@
                + "'. Use 'all' or provide start and end dates"@,
            ExportError::RangeArity => "Range expects either 'all' or two dates"@,
            ExportError::NoRecordsForDate(d) => "No records found for "@ + spec_format_date(*d),
            ExportError::NoRecordsInRange => "No records found for selected range"@,
        }
    }

    /// The message shown for the error (see `message_text`).
    pub fn message(&self) -> (res: String)
        requires
            self.wf(),
        ensures
            res@ == self.message_text(),
    {
        let mut out: Vec<char> = Vec::new();
        match self {
            ExportError::StdoutWithOutDir => push_str(&mut out, "--stdout cannot be used with --out-dir"),
            ExportError::StdoutWithIndividual => push_str(&mut out, "--stdout cannot be used with --individual"),
            ExportError::InvalidDate(e) => {
                return e.message();
            },
            ExportError::InvalidRange { start, end } => {
                push_str(&mut out, "Invalid date range: ");
                push_date(&mut out, end);
                push_str(&mut out, " is before ");
                push_date(&mut out, start);
            },
            ExportError::InvalidRangeArgument(v) => {
                push_str(&mut out, "Invalid range argument '");
                push_str(&mut out, v.as_str());
                push_str(&mut out, "'. Use 'all' or provide start and end dates");
            },
            ExportError::RangeArity => push_str(&mut out, "Range expects either 'all' or two dates"),
            ExportError::NoRecordsForDate(d) => {
                push_str(&mut out, "No records found for ");
                push_date(&mut out, d);
            },
            ExportError::NoRecordsInRange => push_str(&mut out, "No records found for selected range"),
        }
        string_from_chars(&out)
    }
}

/// Refuses `--stdout` together with `--out-dir`, then `--stdout` together with `--individual`.
pub fn validate_output_args(output: &ExportOutputArgs, individual: bool) -> (res: Result<(), ExportError>)
    ensures
        output.stdout && output.out_dir is Some ==> res == Err::<(), ExportError>(ExportError::StdoutWithOutDir),
        output.stdout && output.out_dir is None && individual ==> res == Err::<(), ExportError>(ExportError::StdoutWithIndividual),
        !output.stdout || (output.out_dir is None && !individual) ==> res is Ok,
{
    if output.stdout && output.out_dir.is_some() {
        return Err(ExportError::StdoutWithOutDir);
    }
    if output.stdout && individual {
        return Err(ExportError::StdoutWithIndividual);
    }
    Ok(())
}

/// What reading the range arguments `args` gives: `all`, or a start and an end date with the
/// end not before the start; otherwise the first problem found.
pub open spec fn range_outcome(args: Seq<Seq<char>>, res: Result<RangeSpec, ExportError>) -> bool {
    if args.len() == 1 {
        if args[0] == "all"@ {
            res == Ok::<RangeSpec, ExportError>(RangeSpec::All)
        } else {
            res matches Err(ExportError::InvalidRangeArgument(v)) && v@ == args[0]
        }
    } else if args.len() != 2 {
        res == Err::<RangeSpec, ExportError>(ExportError::RangeArity)
    } else {
        match (date_from_triple(ymd_parse(args[0])), date_from_triple(ymd_parse(args[1]))) {
            (None, _) => res matches Err(ExportError::InvalidDate(err)) && err.text@ == args[0],
            (Some(_), None) => res matches Err(ExportError::InvalidDate(err)) && err.text@ == args[1],
            (Some(sd), Some(ed)) => if date_le(sd, ed) {
                res == Ok::<RangeSpec, ExportError>(RangeSpec::Bounded { start: sd, end: ed })
            } else {
                res == Err::<RangeSpec, ExportError>(ExportError::InvalidRange { start: sd, end: ed })
            },
        }
    }
}

/// `all` selects every date; two date texts `START END` select the range from the first to
/// the second, and are refused, naming both, when the end lies before the start.
pub proof fn law_range_arguments(start: Date, end: Date, res: Result<RangeSpec, ExportError>)
    requires
        start.wf(),
        end.wf(),
        start.year >= 0 || start.year <= -1000,
        end.year >= 0 || end.year <= -1000,
    ensures
        range_outcome(seq!["all"@], res) <==> res == Ok::<RangeSpec, ExportError>(RangeSpec::All),
        date_le(start, end) ==> (range_outcome(seq![spec_format_date(start), spec_format_date(end)], res)
            <==> res == Ok::<RangeSpec, ExportError>(RangeSpec::Bounded { start, end })),
        !date_le(start, end) ==> (range_outcome(seq![spec_format_date(start), spec_format_date(end)], res)
            <==> res == Err::<RangeSpec, ExportError>(ExportError::InvalidRange { start, end })),
{
    law_date_text_reads_back(start);
    law_date_text_reads_back(end);
    let args = seq![spec_format_date(start), spec_format_date(end)];
    assert(args[0] == spec_format_date(start));
    assert(args[1] == spec_format_date(end));
    assert(seq!["all"@][0] == "all"@);
}

/// Reads the range arguments (see `range_outcome`).
pub fn parse_range_spec(args: &Vec<String>) -> (res: Result<RangeSpec, ExportError>)
    ensures
        range_outcome(args@.map_values(|s: String| s@), res),
        res matches Ok(RangeSpec::Bounded { start, end }) ==> start.wf() && end.wf() && date_le(start, end),
        res matches Err(e) ==> e.wf(),
{
    let ghost av = args@.map_values(|s: String| s@);
    proof {
        if args@.len() > 0 {
            assert(av[0] == args@[0]@);
        }
        if args@.len() > 1 {
            assert(av[1] == args@[1]@);
        }
    }
    if args.len() == 1 {
        if str_eq(args[0].as_str(), "all") {
            return Ok(RangeSpec::All);
        }
        return Err(ExportError::InvalidRangeArgument(args[0].clone()));
    }
    if args.len() != 2 {
        return Err(ExportError::RangeArity);
    }
    let start = match parse_date(args[0].as_str()) {
        Ok(d) => d,
        Err(e) => return Err(ExportError::InvalidDate(e)),
    };
    let end = match parse_date(args[1].as_str()) {
        Ok(d) => d,
        Err(e) => return Err(ExportError::InvalidDate(e)),
    };
    if !start.is_on_or_before(&end) {
        return Err(ExportError::InvalidRange { start, end });
    }
    Ok(RangeSpec::Bounded { start, end })
}

/// The dates of `ds` that lie in `start..=end`, in their order.
pub open spec fn dates_in_range(ds: Seq<Date>, start: Date, end: Date) -> Seq<Date>
    decreases ds.len(),
{
    if ds.len() == 0 {
        seq![]
    } else {
        dates_in_range(ds.drop_last(), start, end) + (if date_le(start, ds.last()) && date_le(ds.last(), end) {
            seq![ds.last()]
        } else {
            seq![]
        })
    }
}

/// A bounded export covers exactly the dates with records that lie within its bounds.
pub proof fn law_range_selects_dates_in_bounds(available: Seq<Date>, start: Date, end: Date, d: Date)
    ensures
        dates_in_range(available, start, end).contains(d) <==> (available.contains(d) && date_le(start, d)
            && date_le(d, end)),
    decreases available.len(),
{
    if available.len() > 0 {
        let init = available.drop_last();
        law_range_selects_dates_in_bounds(init, start, end, d);
        let prev = dates_in_range(init, start, end);
        let last = available.last();
        let tail = if date_le(start, last) && date_le(last, end) { seq![last] } else { Seq::<Date>::empty() };
        assert(dates_in_range(available, start, end) == prev + tail);
        if (prev + tail).contains(d) {
            let k = choose|k: int| 0 <= k < (prev + tail).len() && (prev + tail)[k] == d;
            if k < prev.len() {
                assert(prev[k] == d);
                assert(prev.contains(d));
                let j = choose|j: int| 0 <= j < init.len() && init[j] == d;
                assert(available[j] == d);
            } else {
                assert(tail[k - prev.len()] == d);
                assert(available[available.len() - 1] == d);
            }
        }
        if available.contains(d) && date_le(start, d) && date_le(d, end) {
            let j = choose|j: int| 0 <= j < available.len() && available[j] == d;
            if j < available.len() - 1 {
                assert(init[j] == d);
                let k = choose|k: int| 0 <= k < prev.len() && prev[k] == d;
                assert((prev + tail)[k] == d);
            } else {
                assert((prev + tail)[prev.len() as int] == d);
            }
        }
    }
}

/// The dates a range export covers, out of those that have records.
pub open spec fn spec_selected_dates(spec: RangeSpec, available: Seq<Date>) -> Seq<Date> {
    match spec {
        RangeSpec::All => available,
        RangeSpec::Bounded { start, end } => dates_in_range(available, start, end),
    }
}

/// The dates with records that the range covers, in their order; an error when there are none.
pub fn select_dates(spec: &RangeSpec, available: &Vec<Date>) -> (res: Result<Vec<Date>, ExportError>)
    ensures
        spec_selected_dates(*spec, available@).len() == 0 ==> res == Err::<Vec<Date>, ExportError>(ExportError::NoRecordsInRange),
        spec_selected_dates(*spec, available@).len() > 0 ==> (res matches Ok(v) && v@ == spec_selected_dates(*spec, available@)),
{
    let mut out: Vec<Date> = Vec::new();
    match spec {
        RangeSpec::All => {
            let mut i: usize = 0;
            while i < available.len()
                invariant
                    i <= available@.len(),
                    out@ == available@.take(i as int),
                decreases available.len() - i,
            {
                out.push(available[i]);
                i = i + 1;
                assert(out@ =~= available@.take(i as int));
            }
            assert(available@.take(available@.len() as int) =~= available@);
        },
        RangeSpec::Bounded { start, end } => {
            let mut i: usize = 0;
            while i < available.len()
                invariant
                    i <= available@.len(),
                    out@ == dates_in_range(available@.take(i as int), *start, *end),
                decreases available.len() - i,
            {
                let d = available[i];
                if start.is_on_or_before(&d) && d.is_on_or_before(end) {
                    out.push(d);
                }
                i = i + 1;
                assert(available@.take(i as int).drop_last() =~= available@.take(i - 1));
                assert(out@ =~= dates_in_range(available@.take(i as int), *start, *end));
            }
            assert(available@.take(available@.len() as int) =~= available@);
        },
    }
    if out.len() == 0 {
        return Err(ExportError::NoRecordsInRange);
    }
    Ok(out)
}

/// Reads the date of `export date` after checking the output options.
pub fn export_date_target(args: &ExportDateArgs) -> (res: Result<Date, ExportError>)
    ensures
        args.output.stdout && args.output.out_dir is Some ==> res == Err::<Date, ExportError>(ExportError::StdoutWithOutDir),
        !(args.output.stdout && args.output.out_dir is Some) ==> match date_from_triple(ymd_parse(args.date@)) {
            Some(d) => res == Ok::<Date, ExportError>(d),
            None => (res matches Err(ExportError::InvalidDate(e)) && e.text@ == args.date@),
        },
        res matches Ok(d) ==> d.wf(),
{
    validate_output_args(&args.output, false)?;
    match parse_date(args.date.as_str()) {
        Ok(d) => Ok(d),
        Err(e) => Err(ExportError::InvalidDate(e)),
    }
}

/// Refuses an export of a date that has no records.
pub fn require_date_available(date: &Date, available: &Vec<Date>) -> (res: Result<(), ExportError>)
    ensures
        available@.contains(*date) ==> res is Ok,
        !available@.contains(*date) ==> res == Err::<(), ExportError>(ExportError::NoRecordsForDate(*date)),
{
    let mut i: usize = 0;
    while i < available.len()
        invariant
            i <= available@.len(),
            forall|k: int| 0 <= k < i ==> available@[k] != *date,
        decreases available.len() - i,
    {
        if available[i] == *date {
            assert(available@[i as int] == *date);
            return Ok(());
        }
        i = i + 1;
    }
    Err(ExportError::NoRecordsForDate(*date))
}

/// Reads the range of `export range` after checking the output options.
pub fn export_range_target(args: &ExportRangeArgs) -> (res: Result<RangeSpec, ExportError>)
    ensures
        args.output.stdout && args.output.out_dir is Some ==> res == Err::<RangeSpec, ExportError>(ExportError::StdoutWithOutDir),
        args.output.stdout && args.output.out_dir is None && args.individual ==> res == Err::<RangeSpec, ExportError>(ExportError::StdoutWithIndividual),
        !args.output.stdout || (args.output.out_dir is None && !args.individual) ==> range_outcome(
            args.range@.map_values(|s: String| s@),
            res,
        ),
        res matches Ok(RangeSpec::Bounded { start, end }) ==> start.wf() && end.wf(),
        res matches Err(e) ==> e.wf(),
{
    validate_output_args(&args.output, args.individual)?;
    parse_range_spec(&args.range)
}

/// `work-records-YYYY-MM-DD.csv`
pub open spec fn spec_date_file_name(d: Date) -> Seq<char> {
    "work-records-"@ + spec_format_date(d) + ".csv"@
}

/// `work-records-all.csv`, or `work-records-START_to_END.csv` for a bounded range.
pub open spec fn spec_range_file_name(spec: RangeSpec) -> Seq<char> {
    match spec {
        RangeSpec::All => "work-records-all.csv"@,
        RangeSpec::Bounded { start, end } => "work-records-"@ + spec_format_date(start) + "_to_"@
            + spec_format_date(end) + ".csv"@,
    }
}

/// The file name of a one-date export.
pub fn date_file_name(d: &Date) -> (res: String)
    requires
        d.wf(),
    ensures
        res@ == spec_date_file_name(*d),
{
    let mut out: Vec<char> = Vec::new();
    push_str(&mut out, "work-records-");
    push_date(&mut out, d);
    push_str(&mut out, ".csv");
    assert(out@ =~= spec_date_file_name(*d));
    string_from_chars(&out)
}

/// The file name of a combined range export.
pub fn range_file_name(spec: &RangeSpec) -> (res: String)
    requires
        spec matches RangeSpec::Bounded { start, end } ==> start.wf() && end.wf(),
    ensures
        res@ == spec_range_file_name(*spec),
{
    let mut out: Vec<char> = Vec::new();
    match spec {
        RangeSpec::All => {
            push_str(&mut out, "work-records-all.csv");
        },
        RangeSpec::Bounded { start, end } => {
            push_str(&mut out, "work-records-");
            push_date(&mut out, start);
            push_str(&mut out, "_to_");
            push_date(&mut out, end);
            push_str(&mut out, ".csv");
        },
    }
    assert(out@ =~= spec_range_file_name(*spec));
    string_from_chars(&out)
}

/// `HH:MM` of a number of minutes (`format!("{:02}:{:02}", m / 60, m % 60)`).
pub open spec fn spec_total_time(total_minutes: nat) -> Seq<char> {
    padded_decimal(total_minutes / 60, 2) + seq![':'] + padded_decimal(total_minutes % 60, 2)
}

/// A total time reads `HH:MM`: the whole hours in two digits (more once there are a hundred
/// or more), a colon, and the minutes left over in two digits.
pub proof fn law_total_time_digits(total_minutes: nat)
    ensures
        total_minutes < 6000 ==> spec_total_time(total_minutes) == seq![
            digit_char((total_minutes / 600) as int),
            digit_char(((total_minutes / 60) % 10) as int),
            ':',
            digit_char(((total_minutes % 60) / 10) as int),
            digit_char((total_minutes % 10) as int),
        ],
        total_minutes >= 6000 ==> spec_total_time(total_minutes) == decimal(total_minutes / 60) + seq![
            ':',
            digit_char(((total_minutes % 60) / 10) as int),
            digit_char((total_minutes % 10) as int),
        ],
{
    let h = total_minutes / 60;
    let m = total_minutes % 60;
    lemma_pad2(m);
    assert(m % 10 == total_minutes % 10) by {
        assert(total_minutes == 60 * h + m);
    }
    if total_minutes < 6000 {
        lemma_pad2(h);
        assert(h / 10 == total_minutes / 600);
        assert(spec_total_time(total_minutes) =~= seq![
            digit_char((total_minutes / 600) as int),
            digit_char(((total_minutes / 60) % 10) as int),
            ':',
            digit_char(((total_minutes % 60) / 10) as int),
            digit_char((total_minutes % 10) as int),
        ]);
    } else {
        assert(decimal(h).len() >= 2) by {
            reveal_with_fuel(decimal, 2);
        }
        assert(padded_decimal(h, 2) == decimal(h));
        assert(spec_total_time(total_minutes) =~= decimal(h) + seq![
            ':',
            digit_char(((total_minutes % 60) / 10) as int),
            digit_char((total_minutes % 10) as int),
        ]);
    }
}

/// Renders a minute count as hours and minutes, `HH:MM` (hours grow past two digits).
pub fn format_total_time(total_minutes: u32) -> (res: String)
    ensures
        res@ == spec_total_time(total_minutes as nat),
{
    let mut out: Vec<char> = Vec::new();
    push_total_time(&mut out, total_minutes);
    assert(out@ =~= spec_total_time(total_minutes as nat));
    string_from_chars(&out)
}

pub fn push_total_time(out: &mut Vec<char>, total_minutes: u32)
    ensures
        final(out)@ == old(out)@ + spec_total_time(total_minutes as nat),
{
    push_padded(out, (total_minutes / 60) as u64, 2);
    out.push(':');
    push_padded(out, (total_minutes % 60) as u64, 2);
    assert(out@ =~= old(out)@ + spec_total_time(total_minutes as nat));
}

/// A CSV field needs quoting when it holds a comma, a quote, or a line break.
pub open spec fn must_quote(s: Seq<char>) -> bool {
    s.contains(',') || s.contains('"') || s.contains('\n') || s.contains('\r')
}

/// `s` with every `"` doubled.
pub open spec fn double_quotes(s: Seq<char>) -> Seq<char>
    decreases s.len(),
{
    if s.len() == 0 {
        seq![]
    } else {
        (if s[0] == '"' { seq!['"', '"'] } else { seq![s[0]] }) + double_quotes(s.skip(1))
    }
}

/// The CSV form of one field value.
#[verifier::opaque]
pub open spec fn spec_csv_escape(s: Seq<char>) -> Seq<char> {
    if must_quote(s) {
        seq!['"'] + double_quotes(s) + seq!['"']
    } else {
        s
    }
}

proof fn lemma_double_quotes_step(s: Seq<char>, i: int)
    requires
        0 <= i < s.len(),
    ensures
        double_quotes(s.skip(i)) == (if s[i] == '"' { seq!['"', '"'] } else { seq![s[i]] })
            + double_quotes(s.skip(i + 1)),
{
    assert(s.skip(i).skip(1) =~= s.skip(i + 1));
}

fn push_escaped_chars(out: &mut Vec<char>, cs: &Vec<char>)
    ensures
        final(out)@ == old(out)@ + double_quotes(cs@),
{
    let ghost before = out@;
    let mut i: usize = 0;
    assert(cs@.skip(0) =~= cs@);
    while i < cs.len()
        invariant
            i <= cs@.len(),
            before + double_quotes(cs@) == out@ + double_quotes(cs@.skip(i as int)),
        decreases cs.len() - i,
    {
        proof {
            lemma_double_quotes_step(cs@, i as int);
        }
        let c = cs[i];
        if c == '"' {
            out.push('"');
            out.push('"');
        } else {
            out.push(c);
        }
        i = i + 1;
        assert(before + double_quotes(cs@) =~= out@ + double_quotes(cs@.skip(i as int)));
    }
    assert(cs@.skip(cs@.len() as int) =~= Seq::<char>::empty());
    assert(double_quotes(Seq::<char>::empty()) =~= Seq::<char>::empty());
    assert(out@ =~= before + double_quotes(cs@));
}

fn contains_char(cs: &Vec<char>, c: char) -> (res: bool)
    ensures
        res == cs@.contains(c),
{
    let mut i: usize = 0;
    while i < cs.len()
        invariant
            i <= cs@.len(),
            forall|k: int| 0 <= k < i ==> cs@[k] != c,
        decreases cs.len() - i,
    {
        if cs[i] == c {
            assert(cs@[i as int] == c);
            return true;
        }
        i = i + 1;
    }
    false
}

/// Appends the CSV form of `value` to `out`.
pub fn push_csv_field(out: &mut Vec<char>, value: &str)
    ensures
        final(out)@ == old(out)@ + spec_csv_escape(value@),
{
    reveal(spec_csv_escape);
    let cs = chars_of(value);
    let quote = contains_char(&cs, ',') || contains_char(&cs, '"') || contains_char(&cs, '\n')
        || contains_char(&cs, '\r');
    if quote {
        out.push('"');
        push_escaped_chars(out, &cs);
        out.push('"');
        assert(out@ =~= old(out)@ + spec_csv_escape(value@));
    } else {
        let ghost before = out@;
        let mut i: usize = 0;
        while i < cs.len()
            invariant
                i <= cs@.len(),
                out@ == before + cs@.take(i as int),
            decreases cs.len() - i,
        {
            out.push(cs[i]);
            i = i + 1;
            assert(out@ =~= before + cs@.take(i as int));
        }
        assert(cs@.take(cs@.len() as int) =~= cs@);
    }
}

/// Quotes a CSV field when it holds a comma, a quote or a line break, doubling its quotes;
/// other values stay as they are.
pub fn csv_escape(value: &str) -> (res: String)
    ensures
        res@ == spec_csv_escape(value@),
{
    let mut out: Vec<char> = Vec::new();
    push_csv_field(&mut out, value);
    assert(out@ =~= spec_csv_escape(value@));
    string_from_chars(&out)
}

/// Reads back a quoted field's inner text: every `""` becomes `"`.
pub open spec fn undouble_quotes(s: Seq<char>) -> Seq<char>
    decreases s.len(),
{
    if s.len() == 0 {
        seq![]
    } else if s.len() >= 2 && s[0] == '"' && s[1] == '"' {
        seq!['"'] + undouble_quotes(s.skip(2))
    } else {
        seq![s[0]] + undouble_quotes(s.skip(1))
    }
}

/// The value that a CSV reader takes from one field.
pub open spec fn csv_field_value(f: Seq<char>) -> Seq<char> {
    if f.len() >= 2 && f[0] == '"' && f[f.len() - 1] == '"' {
        undouble_quotes(f.subrange(1, f.len() - 1))
    } else {
        f
    }
}

proof fn lemma_undouble_double(s: Seq<char>)
    ensures
        undouble_quotes(double_quotes(s)) == s,
    decreases s.len(),
{
    if s.len() > 0 {
        let d = double_quotes(s);
        lemma_undouble_double(s.skip(1));
        if s[0] == '"' {
            assert(d.skip(2) =~= double_quotes(s.skip(1)));
        } else {
            assert(d.skip(1) =~= double_quotes(s.skip(1)));
        }
        assert(s =~= seq![s[0]] + s.skip(1));
    }
}

/// Law: a CSV reader gets every exported field's value back unchanged.
pub proof fn law_csv_escape_round_trip(s: Seq<char>)
    ensures
        csv_field_value(spec_csv_escape(s)) == s,
{
    reveal(spec_csv_escape);
    let e = spec_csv_escape(s);
    if must_quote(s) {
        assert(e.subrange(1, e.len() - 1) =~= double_quotes(s));
        lemma_undouble_double(s);
    } else {
        if s.len() >= 2 && s[0] == '"' {
            assert(s.contains('"'));
        }
    }
}

pub const EXPORT_CSV_HEADER: &'static str = "date,task name,start time,end time,description,project,total time";

/// The header names the columns `date, task name, start time, end time, description,
/// project, total time`, and a record's line holds seven comma-separated fields in that
/// order, from which a CSV reader takes back the date, the task name, the start and end
/// times, the description, the project and the total time.
pub proof fn law_csv_line_follows_header(d: Date, r: RecordView)
    ensures
        EXPORT_CSV_HEADER@ == "date,task name,start time,end time,description,project,total time"@,
        exists|f: Seq<Seq<char>>| {
            &&& f.len() == 7
            &&& spec_csv_line(d, r) == f[0] + seq![','] + f[1] + seq![','] + f[2] + seq![','] + f[3]
                + seq![','] + f[4] + seq![','] + f[5] + seq![','] + f[6] + seq!['\n']
            &&& csv_field_value(f[0]) == spec_format_date(d)
            &&& csv_field_value(f[1]) == r.name
            &&& csv_field_value(f[2]) == spec_time_point_text(r.start)
            &&& csv_field_value(f[3]) == spec_time_point_text(r.end)
            &&& csv_field_value(f[4]) == r.description
            &&& csv_field_value(f[5]) == r.project
            &&& csv_field_value(f[6]) == spec_total_time(r.total_minutes as nat)
        },
{
    let f = seq![
        spec_csv_escape(spec_format_date(d)),
        spec_csv_escape(r.name),
        spec_csv_escape(spec_time_point_text(r.start)),
        spec_csv_escape(spec_time_point_text(r.end)),
        spec_csv_escape(r.description),
        spec_csv_escape(r.project),
        spec_csv_escape(spec_total_time(r.total_minutes as nat)),
    ];
    law_csv_escape_round_trip(spec_format_date(d));
    law_csv_escape_round_trip(r.name);
    law_csv_escape_round_trip(spec_time_point_text(r.start));
    law_csv_escape_round_trip(spec_time_point_text(r.end));
    law_csv_escape_round_trip(r.description);
    law_csv_escape_round_trip(r.project);
    law_csv_escape_round_trip(spec_total_time(r.total_minutes as nat));
    assert(f[0] == spec_csv_escape(spec_format_date(d)));
    assert(f[1] == spec_csv_escape(r.name));
    assert(f[2] == spec_csv_escape(spec_time_point_text(r.start)));
    assert(f[3] == spec_csv_escape(spec_time_point_text(r.end)));
    assert(f[4] == spec_csv_escape(r.description));
    assert(f[5] == spec_csv_escape(r.project));
    assert(f[6] == spec_csv_escape(spec_total_time(r.total_minutes as nat)));
    assert({
        &&& f.len() == 7
        &&& spec_csv_line(d, r) == f[0] + seq![','] + f[1] + seq![','] + f[2] + seq![','] + f[3]
            + seq![','] + f[4] + seq![','] + f[5] + seq![','] + f[6] + seq!['\n']
        &&& csv_field_value(f[0]) == spec_format_date(d)
        &&& csv_field_value(f[1]) == r.name
        &&& csv_field_value(f[2]) == spec_time_point_text(r.start)
        &&& csv_field_value(f[3]) == spec_time_point_text(r.end)
        &&& csv_field_value(f[4]) == r.description
        &&& csv_field_value(f[5]) == r.project
        &&& csv_field_value(f[6]) == spec_total_time(r.total_minutes as nat)
    });
}

/// One CSV line for record `r` of day `date`, columns in export order.
pub open spec fn spec_csv_line(date: Date, r: RecordView) -> Seq<char> {
    spec_csv_escape(spec_format_date(date)) + seq![','] + spec_csv_escape(r.name) + seq![',']
        + spec_csv_escape(spec_time_point_text(r.start)) + seq![',']
        + spec_csv_escape(spec_time_point_text(r.end)) + seq![','] + spec_csv_escape(r.description)
        + seq![','] + spec_csv_escape(r.project) + seq![',']
        + spec_csv_escape(spec_total_time(r.total_minutes as nat)) + seq!['\n']
}

/// The lines of `rs`, in order.
pub open spec fn spec_csv_lines(date: Date, rs: Seq<RecordView>) -> Seq<char>
    decreases rs.len(),
{
    if rs.len() == 0 {
        seq![]
    } else {
        spec_csv_lines(date, rs.drop_last()) + spec_csv_line(date, rs.last())
    }
}

/// The lines of every day in turn, each day's records ordered by start time.
pub open spec fn spec_csv_days(days: Seq<DayView>) -> Seq<char>
    decreases days.len(),
{
    if days.len() == 0 {
        seq![]
    } else {
        spec_csv_days(days.drop_last()) + spec_csv_lines(
            days.last().date,
            spec_sorted_records(days.last().records),
        )
    }
}

/// The export file for `days`: the header line, then one line per record.
pub open spec fn spec_export_csv(days: Seq<DayView>) -> Seq<char> {
    EXPORT_CSV_HEADER@ + seq!['\n'] + spec_csv_days(days)
}

fn push_csv_line(out: &mut Vec<char>, date: &Date, date_text: &str, r: &WorkRecord)
    requires
        r@.wf(),
        date_text@ == spec_format_date(*date),
    ensures
        final(out)@ == old(out)@ + spec_csv_line(*date, r@),
{
    let ghost o = old(out)@;
    let ghost f0 = spec_csv_escape(date_text@);
    let ghost f1 = spec_csv_escape(r@.name);
    let ghost f2 = spec_csv_escape(spec_time_point_text(r.start));
    let ghost f3 = spec_csv_escape(spec_time_point_text(r.end));
    let ghost f4 = spec_csv_escape(r@.description);
    let ghost f5 = spec_csv_escape(r@.project);
    let ghost f6 = spec_csv_escape(spec_total_time(r.total_minutes as nat));
    push_csv_field(out, date_text);
    out.push(',');
    assert(out@ == o + f0 + seq![',']);
    push_csv_field(out, r.name.as_str());
    out.push(',');
    let ghost p1 = o + f0 + seq![','] + f1 + seq![','];
    assert(out@ =~= p1);
    let start = r.start.text();
    push_csv_field(out, start.as_str());
    out.push(',');
    let ghost p2 = p1 + f2 + seq![','];
    assert(out@ =~= p2);
    let end = r.end.text();
    push_csv_field(out, end.as_str());
    out.push(',');
    let ghost p3 = p2 + f3 + seq![','];
    assert(out@ =~= p3);
    push_csv_field(out, r.description.as_str());
    out.push(',');
    let ghost p4 = p3 + f4 + seq![','];
    assert(out@ =~= p4);
    push_csv_field(out, r.project.as_str());
    out.push(',');
    let ghost p5 = p4 + f5 + seq![','];
    assert(out@ =~= p5);
    let total = format_total_time(r.total_minutes);
    push_csv_field(out, total.as_str());
    out.push('\n');
    let ghost p6 = p5 + f6 + seq!['\n'];
    assert(out@ =~= p6);
    assert(p6 =~= o + spec_csv_line(*date, r@));
}

/// Builds the CSV text for the given days: the header, then for each day its records
/// ordered by start time, one line each.
pub fn build_csv_for_dates(days: &Vec<DayData>) -> (res: String)
    requires
        forall|i: int| 0 <= i < days@.len() ==> (#[trigger] days@[i])@.wf(),
    ensures
        res@ == spec_export_csv(days@.map_values(|d: DayData| d@)),
{
    let ghost dv = days@.map_values(|d: DayData| d@);
    let mut out: Vec<char> = Vec::new();
    push_str(&mut out, EXPORT_CSV_HEADER);
    out.push('\n');
    let ghost head = out@;
    let mut i: usize = 0;
    while i < days.len()
        invariant
            i <= days@.len(),
            dv == days@.map_values(|d: DayData| d@),
            forall|k: int| 0 <= k < days@.len() ==> (#[trigger] days@[k])@.wf(),
            head == EXPORT_CSV_HEADER@ + seq!['\n'],
            out@ == head + spec_csv_days(dv.take(i as int)),
        decreases days.len() - i,
    {
        let day = &days[i];
        assert(day@ == dv[i as int]);
        let date_text = format_date(&day.date);
        let records = day.get_sorted_records();
        let ghost rv = records@.map_values(|r: WorkRecord| r@);
        let ghost before = out@;
        let mut j: usize = 0;
        while j < records.len()
            invariant
                j <= records@.len(),
                rv == records@.map_values(|r: WorkRecord| r@),
                date_text@ == spec_format_date(day.date),
                forall|k: int| 0 <= k < records@.len() ==> day@.records.contains(#[trigger] records@[k]@),
                day@.wf(),
                out@ == before + spec_csv_lines(day.date, rv.take(j as int)),
            decreases records.len() - j,
        {
            assert(day@.records.contains(records@[j as int]@));
            let r = &records[j];
            proof {
                let m = choose|m: int| 0 <= m < day@.records.len() && day@.records[m] == r@;
                assert(day@.records[m].wf());
            }
            push_csv_line(&mut out, &day.date, date_text.as_str(), r);
            j = j + 1;
            assert(rv.take(j as int).drop_last() =~= rv.take(j - 1));
            assert(rv.take(j as int).last() == r@);
            assert(out@ =~= before + spec_csv_lines(day.date, rv.take(j as int)));
        }
        assert(rv.take(records@.len() as int) =~= rv);
        i = i + 1;
        assert(dv.take(i as int).drop_last() =~= dv.take(i - 1));
        assert(out@ =~= head + spec_csv_days(dv.take(i as int)));
    }
    assert(dv.take(days@.len() as int) =~= dv);
    string_from_chars(&out)
}

} // verus!
