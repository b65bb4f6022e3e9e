use streak_tracker::date::{month_length, parse_iso, today, CalendarDate};

fn day(year: i32, month: u32, day: u32) -> CalendarDate {
    CalendarDate::from_ymd(year, month, day).unwrap()
}

#[test]
fn from_ymd_rejects_impossible_days() {
    assert!(CalendarDate::from_ymd(2023, 2, 29).is_none());
    assert!(CalendarDate::from_ymd(2024, 2, 29).is_some());
    assert!(CalendarDate::from_ymd(1900, 2, 29).is_none());
    assert!(CalendarDate::from_ymd(2000, 2, 29).is_some());
    assert!(CalendarDate::from_ymd(2024, 13, 1).is_none());
    assert!(CalendarDate::from_ymd(2024, 4, 31).is_none());
    assert!(CalendarDate::from_ymd(2024, 1, 0).is_none());
    assert!(CalendarDate::from_ymd(10000, 1, 1).is_none());
    assert!(CalendarDate::from_ymd(-1, 1, 1).is_none());
}

#[test]
fn previous_day_crosses_boundaries() {
    assert_eq!(day(2024, 2, 1).previous_day(), day(2024, 1, 31));
    assert_eq!(day(2024, 1, 1).previous_day(), day(2023, 12, 31));
    assert_eq!(day(2024, 3, 1).previous_day(), day(2024, 2, 29));
    assert_eq!(day(2023, 3, 1).previous_day(), day(2023, 2, 28));
    assert_eq!(day(2024, 5, 17).previous_day(), day(2024, 5, 16));
}

#[test]
fn weekday_counts_from_monday() {
    assert_eq!(day(2025, 1, 6).weekday(), 0);
    assert_eq!(day(2025, 1, 12).weekday(), 6);
    assert_eq!(day(2024, 2, 29).weekday(), 3);
}

#[test]
fn iso_text_is_zero_padded() {
    assert_eq!(day(2025, 1, 7).to_iso_string(), "2025-01-07");
    assert_eq!(day(987, 11, 30).to_iso_string(), "0987-11-30");
}

#[test]
fn parse_reads_canonical_text() {
    assert_eq!(parse_iso("2025-01-07"), Some(day(2025, 1, 7)));
    assert_eq!(parse_iso("2024-02-29"), Some(day(2024, 2, 29)));
    assert_eq!(parse_iso("0987-11-30"), Some(day(987, 11, 30)));
}

#[test]
fn parse_rejects_other_text() {
    assert_eq!(parse_iso(""), None);
    assert_eq!(parse_iso("2025-1-7"), None);
    assert_eq!(parse_iso("2025/01/07"), None);
    assert_eq!(parse_iso("2023-02-29"), None);
    assert_eq!(parse_iso("2025-13-01"), None);
    assert_eq!(parse_iso("2025-00-10"), None);
    assert_eq!(parse_iso("2025-01-07 "), None);
    assert_eq!(parse_iso("20x5-01-07"), None);
}

#[test]
fn text_round_trip_on_samples() {
    for d in [day(2025, 1, 7), day(2024, 2, 29), day(0, 1, 1), day(9999, 12, 31)] {
        assert_eq!(parse_iso(&d.to_iso_string()), Some(d));
    }
}

#[test]
fn ordering_is_chronological() {
    assert!(day(2024, 12, 31).is_before(&day(2025, 1, 1)));
    assert!(day(2025, 1, 1).is_before(&day(2025, 1, 2)));
    assert!(!day(2025, 1, 2).is_before(&day(2025, 1, 2)));
    assert!(!day(2025, 2, 1).is_before(&day(2025, 1, 31)));
}

#[test]
fn month_lengths() {
    assert_eq!(month_length(2024, 2), 29);
    assert_eq!(month_length(2023, 2), 28);
    assert_eq!(month_length(2023, 9), 30);
    assert_eq!(month_length(2023, 12), 31);
}

#[test]
fn clock_gives_a_valid_day() {
    let d = today().unwrap();
    assert!(d.is_valid());
}
