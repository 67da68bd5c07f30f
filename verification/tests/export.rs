use work_tuimer::cli::export::{
    build_csv_for_dates, csv_escape, date_file_name, export_date_target, export_range_target, format_total_time,
    parse_range_spec, range_file_name, require_date_available, select_dates, validate_output_args, ExportDateArgs,
    ExportError, ExportOutputArgs, ExportRangeArgs, RangeSpec, EXPORT_CSV_HEADER,
};
use work_tuimer::date::{format_date, parse_date, Date};
use work_tuimer::models::{DayData, TimePoint, WorkRecord};

fn strings(items: &[&str]) -> Vec<String> {
    items.iter().map(|s| s.to_string()).collect()
}

fn date(text: &str) -> Date {
    parse_date(text).unwrap()
}

fn create_record(id: u32, name: &str, start_hour: u8, end_hour: u8) -> WorkRecord {
    let start = TimePoint::new(start_hour, 0).unwrap();
    let end = TimePoint::new(end_hour, 0).unwrap();
    WorkRecord::new(id, name.to_string(), start, end)
}

#[test]
fn test_parse_range_spec_all() {
    let spec = parse_range_spec(&strings(&["all"])).unwrap();
    assert!(matches!(spec, RangeSpec::All));
}

#[test]
fn test_parse_range_spec_bounded() {
    let spec = parse_range_spec(&strings(&["2025-11-01", "2025-11-02"])).unwrap();
    let RangeSpec::Bounded { start, end } = spec else {
        panic!("Expected bounded range");
    };

    assert_eq!(format_date(&start), "2025-11-01");
    assert_eq!(format_date(&end), "2025-11-02");
}

#[test]
fn test_parse_range_spec_rejects_invalid_single_value() {
    let err = parse_range_spec(&strings(&["2025-11-01"])).unwrap_err();
    assert!(err.message().contains("Invalid range argument"));
}

#[test]
fn test_validate_output_args_rejects_stdout_with_individual() {
    let output = ExportOutputArgs { stdout: true, out_dir: None };

    let err = validate_output_args(&output, true).unwrap_err();
    assert!(err.message().contains("--stdout cannot be used with --individual"));
}

#[test]
fn test_validate_output_args_rejects_stdout_with_out_dir() {
    let output = ExportOutputArgs { stdout: true, out_dir: Some("/tmp".to_string()) };

    let err = validate_output_args(&output, false).unwrap_err();
    assert!(err.message().contains("--stdout cannot be used with --out-dir"));
}

#[test]
fn test_format_total_time_as_hh_mm() {
    assert_eq!(format_total_time(0), "00:00");
    assert_eq!(format_total_time(5), "00:05");
    assert_eq!(format_total_time(75), "01:15");
}

#[test]
fn test_csv_escape_quotes_and_commas() {
    assert_eq!(csv_escape("simple"), "simple");
    assert_eq!(csv_escape("hello,world"), "\"hello,world\"");
    assert_eq!(csv_escape("say \"hello\""), "\"say \"\"hello\"\"\"");
}

#[test]
fn csv_escape_quotes_line_breaks() {
    assert_eq!(csv_escape("two\nlines"), "\"two\nlines\"");
    assert_eq!(csv_escape("cr\rhere"), "\"cr\rhere\"");
    assert_eq!(csv_escape(""), "");
}

#[test]
fn format_total_time_beyond_a_day() {
    assert_eq!(format_total_time(1440), "24:00");
    assert_eq!(format_total_time(6039), "100:39");
}

#[test]
fn validate_output_args_accepts_plain_and_file_outputs() {
    assert!(validate_output_args(&ExportOutputArgs { stdout: true, out_dir: None }, false).is_ok());
    assert!(validate_output_args(&ExportOutputArgs { stdout: false, out_dir: Some("/tmp".to_string()) }, true).is_ok());
    assert!(validate_output_args(&ExportOutputArgs::default(), true).is_ok());
}

#[test]
fn validate_output_args_checks_out_dir_first() {
    let output = ExportOutputArgs { stdout: true, out_dir: Some("/tmp".to_string()) };
    assert_eq!(validate_output_args(&output, true).unwrap_err(), ExportError::StdoutWithOutDir);
}

#[test]
fn parse_range_spec_errors() {
    let err = parse_range_spec(&strings(&["2025-11-02", "2025-11-01"])).unwrap_err();
    assert_eq!(err, ExportError::InvalidRange { start: date("2025-11-02"), end: date("2025-11-01") });
    assert_eq!(err.message(), "Invalid date range: 2025-11-01 is before 2025-11-02");

    let err = parse_range_spec(&strings(&["2025-11-01", "tomorrow"])).unwrap_err();
    assert!(matches!(err, ExportError::InvalidDate(_)));
    assert_eq!(err.message(), "Invalid date: 'tomorrow'. Expected YYYY-MM-DD");

    let err = parse_range_spec(&strings(&["2025-02-30", "2025-03-01"])).unwrap_err();
    assert_eq!(err.message(), "Invalid date: '2025-02-30'. Expected YYYY-MM-DD");

    let err = parse_range_spec(&strings(&["a", "b", "c"])).unwrap_err();
    assert_eq!(err, ExportError::RangeArity);
    assert_eq!(err.message(), "Range expects either 'all' or two dates");

    let err = parse_range_spec(&strings(&["yesterday"])).unwrap_err();
    assert_eq!(err.message(), "Invalid range argument 'yesterday'. Use 'all' or provide start and end dates");
}

#[test]
fn parse_range_spec_accepts_a_single_day() {
    let spec = parse_range_spec(&strings(&["2025-11-01", "2025-11-01"])).unwrap();
    assert_eq!(spec, RangeSpec::Bounded { start: date("2025-11-01"), end: date("2025-11-01") });
}

#[test]
fn select_dates_keeps_dates_inside_bounds() {
    let available = vec![date("2025-11-01"), date("2025-11-02"), date("2025-11-03"), date("2025-11-04"), date("2025-11-05")];
    let spec = RangeSpec::Bounded { start: date("2025-11-02"), end: date("2025-11-04") };
    let selected = select_dates(&spec, &available).unwrap();
    assert_eq!(selected, vec![date("2025-11-02"), date("2025-11-03"), date("2025-11-04")]);
    assert_eq!(select_dates(&RangeSpec::All, &available).unwrap(), available);
}

#[test]
fn select_dates_refuses_an_empty_selection() {
    let available = vec![date("2025-11-01")];
    let spec = RangeSpec::Bounded { start: date("2025-11-10"), end: date("2025-11-11") };
    let err = select_dates(&spec, &available).unwrap_err();
    assert_eq!(err, ExportError::NoRecordsInRange);
    assert!(err.message().contains("No records found for selected range"));
    assert_eq!(select_dates(&RangeSpec::All, &vec![]).unwrap_err(), ExportError::NoRecordsInRange);
}

#[test]
fn export_date_needs_a_stored_date() {
    let args = ExportDateArgs { date: "2025-11-06".to_string(), output: ExportOutputArgs::default() };
    let d = export_date_target(&args).unwrap();
    assert_eq!(d, date("2025-11-06"));
    let err = require_date_available(&d, &vec![date("2025-11-05")]).unwrap_err();
    assert_eq!(err.message(), "No records found for 2025-11-06");
    assert!(require_date_available(&d, &vec![date("2025-11-05"), d]).is_ok());

    let bad = ExportDateArgs { date: "11/06/2025".to_string(), output: ExportOutputArgs::default() };
    assert!(matches!(export_date_target(&bad), Err(ExportError::InvalidDate(_))));

    let both = ExportDateArgs {
        date: "2025-11-06".to_string(),
        output: ExportOutputArgs { stdout: true, out_dir: Some("/tmp".to_string()) },
    };
    assert_eq!(export_date_target(&both).unwrap_err(), ExportError::StdoutWithOutDir);
}

#[test]
fn export_range_target_checks_output_then_range() {
    let args = ExportRangeArgs { range: strings(&["all"]), individual: true, output: ExportOutputArgs { stdout: true, out_dir: None } };
    assert_eq!(export_range_target(&args).unwrap_err(), ExportError::StdoutWithIndividual);
    let args = ExportRangeArgs { range: strings(&["2025-11-01", "2025-11-10"]), individual: false, output: ExportOutputArgs::default() };
    assert_eq!(export_range_target(&args).unwrap(), RangeSpec::Bounded { start: date("2025-11-01"), end: date("2025-11-10") });
}

#[test]
fn export_file_names() {
    assert_eq!(date_file_name(&date("2025-11-03")), "work-records-2025-11-03.csv");
    assert_eq!(range_file_name(&RangeSpec::All), "work-records-all.csv");
    let spec = RangeSpec::Bounded { start: date("2025-11-02"), end: date("2025-11-04") };
    assert_eq!(range_file_name(&spec), "work-records-2025-11-02_to_2025-11-04.csv");
}

#[test]
fn build_csv_orders_records_by_start_and_escapes_fields() {
    let mut day = DayData::new(date("2025-11-06"));
    let mut late = create_record(1, "Review, part 2", 14, 15);
    late.project = "ProjectA".to_string();
    late.description = "Said \"ok\"".to_string();
    day.add_record(late);
    let mut early = create_record(2, "Coding", 9, 11);
    early.project = "ProjectA".to_string();
    early.description = "Focused work".to_string();
    day.add_record(early);

    let csv = build_csv_for_dates(&vec![day]);
    let expected = format!(
        "{}\n2025-11-06,Coding,09:00,11:00,Focused work,ProjectA,02:00\n2025-11-06,\"Review, part 2\",14:00,15:00,\"Said \"\"ok\"\"\",ProjectA,01:00\n",
        EXPORT_CSV_HEADER
    );
    assert_eq!(csv, expected);
}

#[test]
fn build_csv_of_no_days_is_the_header() {
    assert_eq!(build_csv_for_dates(&vec![]), format!("{}\n", EXPORT_CSV_HEADER));
    assert_eq!(EXPORT_CSV_HEADER, "date,task name,start time,end time,description,project,total time");
}

#[test]
fn build_csv_keeps_day_order() {
    let mut first = DayData::new(date("2025-11-03"));
    first.add_record(create_record(1, "Day 3 task", 9, 10));
    let mut second = DayData::new(date("2025-11-01"));
    second.add_record(create_record(1, "Day 1 task", 8, 9));
    let csv = build_csv_for_dates(&vec![first, second]);
    let lines: Vec<&str> = csv.lines().collect();
    assert_eq!(lines.len(), 3);
    assert!(lines[1].starts_with("2025-11-03,Day 3 task"));
    assert!(lines[2].starts_with("2025-11-01,Day 1 task"));
}
