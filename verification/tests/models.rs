use work_tuimer::cli::export::csv_escape;
use work_tuimer::date::parse_date;
use work_tuimer::models::{DayData, TimePoint, WorkRecord};

fn record(id: u32, name: &str, start: (u8, u8), end: (u8, u8)) -> WorkRecord {
    WorkRecord::new(
        id,
        name.to_string(),
        TimePoint::new(start.0, start.1).unwrap(),
        TimePoint::new(end.0, end.1).unwrap(),
    )
}

fn day() -> DayData {
    DayData::new(parse_date("2025-11-06").unwrap())
}

#[test]
fn new_records_total_their_span() {
    let r = record(1, "Coding", (9, 0), (17, 0));
    assert_eq!(r.total_minutes, 480);
    assert!(r.project.is_empty() && r.customer.is_empty() && r.description.is_empty());
    let overnight = record(2, "On call", (23, 0), (1, 30));
    assert_eq!(overnight.total_minutes, 150);
    assert_eq!(record(3, "Blip", (9, 0), (9, 0)).total_minutes, 0);
}

#[test]
fn added_records_are_found_by_id() {
    let mut d = day();
    d.add_record(record(2, "Second", (10, 0), (11, 0)));
    d.add_record(record(1, "First", (9, 0), (10, 0)));
    assert_eq!(d.len(), 2);
    assert_eq!(d.last_id, 2);
    assert_eq!(d.record(1).unwrap().name, "First");
    assert_eq!(d.record(2).unwrap().name, "Second");
    assert!(d.record(3).is_none());
    let ids: Vec<u32> = d.work_records.iter().map(|r| r.id).collect();
    assert_eq!(ids, vec![1, 2]);
}

#[test]
fn adding_an_existing_id_replaces_only_that_record() {
    let mut d = day();
    d.add_record(record(1, "First", (9, 0), (10, 0)));
    d.add_record(record(2, "Second", (10, 0), (11, 0)));
    d.add_record(record(1, "First, renamed", (9, 0), (10, 30)));
    assert_eq!(d.len(), 2);
    assert_eq!(d.record(1).unwrap().name, "First, renamed");
    assert_eq!(d.record(1).unwrap().total_minutes, 90);
    assert_eq!(d.record(2).unwrap().name, "Second");
    assert_eq!(d.last_id, 2);
}

#[test]
fn removed_records_are_gone_and_others_stay() {
    let mut d = day();
    d.add_record(record(1, "First", (9, 0), (10, 0)));
    d.add_record(record(2, "Second", (10, 0), (11, 0)));
    d.add_record(record(3, "Third", (11, 0), (12, 0)));
    let removed = d.remove_record(2).unwrap();
    assert_eq!(removed.name, "Second");
    assert!(d.record(2).is_none());
    assert_eq!(d.record(1).unwrap().name, "First");
    assert_eq!(d.record(3).unwrap().name, "Third");
    assert_eq!(d.last_id, 3);
    assert!(d.remove_record(2).is_none());
    assert_eq!(d.len(), 2);
}

#[test]
fn sorted_records_follow_start_time_then_id() {
    let mut d = day();
    d.add_record(record(1, "Afternoon", (14, 0), (15, 0)));
    d.add_record(record(2, "Morning", (9, 0), (10, 0)));
    d.add_record(record(3, "Also morning", (9, 0), (9, 30)));
    let names: Vec<String> = d.get_sorted_records().into_iter().map(|r| r.name).collect();
    assert_eq!(names, vec!["Morning", "Also morning", "Afternoon"]);
}

/// What a CSV reader makes of one field.
fn read_field(f: &str) -> String {
    if f.len() >= 2 && f.starts_with('"') && f.ends_with('"') {
        f[1..f.len() - 1].replace("\"\"", "\"")
    } else {
        f.to_string()
    }
}

#[test]
fn escaped_fields_read_back() {
    for value in ["plain", "a,b", "say \"hi\"", "\"", "line\nbreak", "", "\"quoted\""] {
        assert_eq!(read_field(&csv_escape(value)), value);
    }
}
