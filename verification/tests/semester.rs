use chrono::{DateTime, Local, NaiveDate, NaiveTime, TimeZone};
use std::time::SystemTime;

use sortcrab::organize::semester::{
    file_local_date, label_from_local_date, period_label, semester_from_time, semester_label, to_roman,
};

fn local_time(year: i32, month: u32, day: u32, hour: u32, min: u32, sec: u32) -> SystemTime {
    let naive_dt = NaiveDate::from_ymd_opt(year, month, day)
        .unwrap()
        .and_time(NaiveTime::from_hms_opt(hour, min, sec).unwrap());
    let local_dt: DateTime<Local> = Local.from_local_datetime(&naive_dt).unwrap();
    SystemTime::from(local_dt)
}

// ── semester_from_time (months=6) ────────────────────────────────

#[test]
fn test_january() {
    let t = local_time(2025, 1, 15, 10, 0, 0);
    assert_eq!(semester_from_time(&t), "2025-I");
}

#[test]
fn test_august() {
    let t = local_time(2025, 8, 20, 14, 30, 0);
    assert_eq!(semester_from_time(&t), "2025-II");
}

#[test]
fn test_june_boundary() {
    let t = local_time(2025, 6, 30, 23, 59, 59);
    assert_eq!(semester_from_time(&t), "2025-I");
}

#[test]
fn test_july_boundary() {
    let t = local_time(2025, 7, 1, 0, 0, 0);
    assert_eq!(semester_from_time(&t), "2025-II");
}

#[test]
fn test_epoch() {
    let epoch = local_time(1970, 1, 1, 0, 0, 0);
    assert_eq!(semester_from_time(&epoch), "1970-I");
}

#[test]
fn test_future_date() {
    let t = local_time(3000, 1, 1, 0, 0, 0);
    assert_eq!(semester_from_time(&t), "3000-I");
}

// ── semester_label with variable months_per_period ───────────────

#[test]
fn test_label_semesters_default_format() {
    let jan = local_time(2025, 1, 15, 10, 0, 0);
    let jul = local_time(2025, 7, 1, 0, 0, 0);
    assert_eq!(semester_label(&jan, 6, "{year}-{roman}"), "2025-I");
    assert_eq!(semester_label(&jul, 6, "{year}-{roman}"), "2025-II");
}

#[test]
fn test_label_quarters() {
    let jan = local_time(2025, 1, 15, 10, 0, 0);
    let apr = local_time(2025, 4, 1, 0, 0, 0);
    let jul = local_time(2025, 7, 1, 0, 0, 0);
    let oct = local_time(2025, 10, 1, 0, 0, 0);
    assert_eq!(semester_label(&jan, 3, "{year}Q{period}"), "2025Q1");
    assert_eq!(semester_label(&apr, 3, "{year}Q{period}"), "2025Q2");
    assert_eq!(semester_label(&jul, 3, "{year}Q{period}"), "2025Q3");
    assert_eq!(semester_label(&oct, 3, "{year}Q{period}"), "2025Q4");
}

#[test]
fn test_label_trimesters() {
    let jan = local_time(2025, 1, 15, 10, 0, 0);
    let may = local_time(2025, 5, 1, 0, 0, 0);
    let sep = local_time(2025, 9, 1, 0, 0, 0);
    assert_eq!(semester_label(&jan, 4, "{year}-S{period}"), "2025-S1");
    assert_eq!(semester_label(&may, 4, "{year}-S{period}"), "2025-S2");
    assert_eq!(semester_label(&sep, 4, "{year}-S{period}"), "2025-S3");
}

#[test]
fn test_label_yearly() {
    let jan = local_time(2025, 1, 15, 10, 0, 0);
    let dec = local_time(2025, 12, 1, 0, 0, 0);
    assert_eq!(semester_label(&jan, 12, "{year}"), "2025");
    assert_eq!(semester_label(&dec, 12, "{year}"), "2025");
}

#[test]
fn test_label_roman_format() {
    let jan = local_time(2025, 1, 15, 10, 0, 0);
    let feb = local_time(2025, 2, 1, 0, 0, 0);
    assert_eq!(semester_label(&jan, 1, "{roman}"), "I");
    assert_eq!(semester_label(&feb, 1, "{roman}"), "II");
}

#[test]
fn test_label_custom_format_only_period() {
    let jan = local_time(2025, 1, 15, 10, 0, 0);
    assert_eq!(semester_label(&jan, 6, "period-{period}"), "period-1");
}

// ── the label of a year and month ────────────────────────────────

#[test]
fn period_label_half_years() {
    for month in 1..=6 {
        assert_eq!(period_label(2024, month, 6, "{year}-{roman}"), "2024-I");
    }
    for month in 7..=12 {
        assert_eq!(period_label(2024, month, 6, "{year}-{roman}"), "2024-II");
    }
}

#[test]
fn period_label_all_placeholders() {
    assert_eq!(period_label(1999, 11, 2, "{year}/{period}/{roman}"), "1999/6/VI");
    assert_eq!(period_label(2025, 12, 1, "{roman}-{period}"), "XII-12");
    assert_eq!(period_label(-44, 3, 12, "{year}"), "-44");
    assert_eq!(period_label(7, 5, 6, "no placeholders"), "no placeholders");
    assert_eq!(period_label(2025, 1, 6, "{year}{year}"), "20252025");
}

#[test]
fn period_label_large_periods() {
    // A period longer than a year: every month is in period 1.
    assert_eq!(period_label(2025, 12, 24, "{period}-{roman}"), "1-I");
}

#[test]
fn roman_numerals() {
    let expected = ["I", "II", "III", "IV", "V", "VI", "VII", "VIII", "IX", "X", "XI", "XII"];
    for (i, r) in expected.iter().enumerate() {
        assert_eq!(to_roman(i as u32 + 1), *r);
    }
    assert_eq!(to_roman(0), "?");
    assert_eq!(to_roman(13), "?");
}

#[test]
fn label_before_epoch_uses_a_valid_date() {
    let before = SystemTime::UNIX_EPOCH - std::time::Duration::from_secs(86_400 * 400);
    let label = semester_label(&before, 6, "{year}-{roman}");
    assert!(label.ends_with("-I") || label.ends_with("-II"), "{}", label);
}

#[test]
fn label_from_local_date_uses_the_file_date() {
    assert_eq!(label_from_local_date(Some((2025, 7)), 6, "{year}-{roman}"), "2025-II");
    assert_eq!(label_from_local_date(Some((1999, 6)), 6, "{year}-{roman}"), "1999-I");
    assert_eq!(label_from_local_date(Some((2025, 10)), 3, "{year}Q{period}"), "2025Q4");
    let today = label_from_local_date(None, 6, "{year}-{roman}");
    assert!(today.ends_with("-I") || today.ends_with("-II"));
}

#[test]
fn file_local_date_of_a_local_time() {
    assert_eq!(file_local_date(&local_time(2025, 8, 20, 14, 30, 0)), Some((2025, 8)));
    let before = SystemTime::UNIX_EPOCH - std::time::Duration::from_secs(86_400 * 400);
    assert_eq!(file_local_date(&before), None);
}
