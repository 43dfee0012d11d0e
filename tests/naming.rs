use last_snow::decimal::{decimal_text, padded_decimal, parse_usize};
use last_snow::keys::{enter_keys, KeyStep};
use last_snow::layout::{day_dir_name, next_slot, rotation_dir, slot_file_name, slot_number, stem, LogFile};

fn names(v: &[&str]) -> Vec<String> {
    v.iter().map(|s| s.to_string()).collect()
}

#[test]
fn parses_plain_and_signed_numbers() {
    assert_eq!(parse_usize("42"), Some(42));
    assert_eq!(parse_usize("+7"), Some(7));
    assert_eq!(parse_usize("007"), Some(7));
    assert_eq!(parse_usize("18446744073709551615"), Some(usize::MAX));
}

#[test]
fn rejects_what_is_not_a_number() {
    assert_eq!(parse_usize(""), None);
    assert_eq!(parse_usize("+"), None);
    assert_eq!(parse_usize("-1"), None);
    assert_eq!(parse_usize("1a"), None);
    assert_eq!(parse_usize("ALL"), None);
    assert_eq!(parse_usize("18446744073709551616"), None);
}

#[test]
fn writes_decimal_text() {
    assert_eq!(decimal_text(0), "0");
    assert_eq!(decimal_text(1234), "1234");
    assert_eq!(padded_decimal(7, 2), "07");
    assert_eq!(padded_decimal(123, 2), "123");
    assert_eq!(padded_decimal(0, 4), "0000");
}

#[test]
fn stems_follow_path_rules() {
    assert_eq!(stem("12.csv"), "12");
    assert_eq!(stem("ALL"), "ALL");
    assert_eq!(stem(".hidden"), ".hidden");
    assert_eq!(stem("a.b.csv"), "a.b");
    assert_eq!(stem(".."), "..");
    assert_eq!(stem("x."), "x");
}

#[test]
fn slot_numbers_ignore_other_names() {
    assert_eq!(slot_number("3.csv"), 3);
    assert_eq!(slot_number("ALL"), 0);
    assert_eq!(slot_number("19-10-2026"), 0);
    assert_eq!(slot_number("notes.csv"), 0);
    assert_eq!(slot_number("1.2.csv"), 0);
}

#[test]
fn next_slot_is_one_past_the_largest() {
    assert_eq!(next_slot(&names(&[])), Some(1));
    assert_eq!(next_slot(&names(&["ALL", "19-10-2026"])), Some(1));
    assert_eq!(next_slot(&names(&["2.csv", "ALL", "7.csv", "3.csv"])), Some(8));
    assert_eq!(next_slot(&names(&["x.csv", "1.csv"])), Some(2));
}

#[test]
fn next_slot_reports_exhaustion() {
    assert_eq!(next_slot(&names(&["18446744073709551615.csv"])), None);
}

#[test]
fn slot_file_names() {
    assert_eq!(slot_file_name(1), "1.csv");
    assert_eq!(slot_file_name(12), "12.csv");
}

#[test]
fn day_directory_names() {
    assert_eq!(day_dir_name(5, 3, 2024), "05-03-2024");
    assert_eq!(day_dir_name(19, 10, 2026), "19-10-2026");
    assert_eq!(day_dir_name(1, 1, 99), "01-01-0099");
    assert_eq!(day_dir_name(1, 1, -5), "01-01--0005");
    assert_eq!(day_dir_name(31, 12, 12345), "31-12-+12345");
}

#[test]
fn log_file_paths() {
    assert_eq!(LogFile::Daily("05-03-2024".to_string()).segments(), names(&["sentences", "05-03-2024", "data.csv"]));
    assert_eq!(LogFile::All.segments(), names(&["sentences", "ALL", "data.csv"]));
    assert_eq!(LogFile::Hot.segments(), names(&["tmp.csv"]));
    assert_eq!(LogFile::Rotated(4).segments(), names(&["sentences", "4.csv"]));
    assert_eq!(LogFile::Output("9.csv".to_string()).segments(), names(&["sentences", "9.csv"]));
    assert_eq!(rotation_dir(), names(&["sentences"]));
}

#[test]
fn enter_with_and_without_shift() {
    assert_eq!(enter_keys(false), vec![KeyStep::ReturnClick]);
    assert_eq!(enter_keys(true), vec![KeyStep::ShiftDown, KeyStep::ReturnClick, KeyStep::ShiftUp]);
}
