use chrono::{Datelike, TimeZone, Timelike, Utc};
use cpm::calendar::{
    calc_days, calc_days_at, calc_days_for, clock_reading_of, days_in_month, days_until,
    month_with_successor,
    next_month_start,
};

fn midnight(year: i32, month: u32, day: u32) -> i64 {
    Utc.with_ymd_and_hms(year, month, day, 0, 0, 0).unwrap().timestamp()
}

// ── next_month_start ───────────────────────────────────────────────────

#[test]
fn next_month_start_normal_month() {
    let result = next_month_start(2024, 3);
    let expected = Utc.with_ymd_and_hms(2024, 4, 1, 0, 0, 0).unwrap().timestamp();
    assert_eq!(result, expected);
}

#[test]
fn next_month_start_january() {
    let result = next_month_start(2024, 1);
    let expected = Utc.with_ymd_and_hms(2024, 2, 1, 0, 0, 0).unwrap().timestamp();
    assert_eq!(result, expected);
}

#[test]
fn next_month_start_november() {
    let result = next_month_start(2024, 11);
    let expected = Utc.with_ymd_and_hms(2024, 12, 1, 0, 0, 0).unwrap().timestamp();
    assert_eq!(result, expected);
}

#[test]
fn next_month_start_december_rolls_year() {
    let result = next_month_start(2024, 12);
    let expected = Utc.with_ymd_and_hms(2025, 1, 1, 0, 0, 0).unwrap().timestamp();
    assert_eq!(result, expected);
}

#[test]
fn next_month_start_december_year_boundary_at_year_end() {
    let result = next_month_start(1999, 12);
    let expected = Utc.with_ymd_and_hms(2000, 1, 1, 0, 0, 0).unwrap().timestamp();
    assert_eq!(result, expected);
}

#[test]
fn next_month_start_exact_timestamps() {
    assert_eq!(next_month_start(2024, 3), 1_711_929_600);
    assert_eq!(next_month_start(1969, 12), 0);
    assert_eq!(next_month_start(1969, 11), -2_678_400);
}

#[test]
fn next_month_start_month_zero_is_january() {
    assert_eq!(next_month_start(2024, 0), midnight(2024, 1, 1));
}

#[test]
fn next_month_start_is_midnight_on_the_first() {
    for month in 1..=12 {
        let dt = Utc.timestamp_opt(next_month_start(2023, month), 0).unwrap();
        assert_eq!(dt.day(), 1);
        assert_eq!(dt.hour(), 0);
        assert_eq!(dt.minute(), 0);
        assert_eq!(dt.second(), 0);
        assert_eq!(dt.month(), month % 12 + 1);
    }
}

// ── days_in_month ──────────────────────────────────────────────────────

#[test]
fn days_in_month_january_31() {
    assert_eq!(days_in_month(2024, 1), 31);
}

#[test]
fn days_in_month_april_30() {
    assert_eq!(days_in_month(2024, 4), 30);
}

#[test]
fn days_in_month_june_30() {
    assert_eq!(days_in_month(2024, 6), 30);
}

#[test]
fn days_in_month_september_30() {
    assert_eq!(days_in_month(2024, 9), 30);
}

#[test]
fn days_in_month_november_30() {
    assert_eq!(days_in_month(2024, 11), 30);
}

#[test]
fn days_in_month_december_31() {
    assert_eq!(days_in_month(2024, 12), 31);
}

#[test]
fn days_in_month_february_leap_year() {
    assert_eq!(days_in_month(2024, 2), 29);
}

#[test]
fn days_in_month_february_non_leap_year() {
    assert_eq!(days_in_month(2023, 2), 28);
}

#[test]
fn days_in_month_february_century_non_leap() {
    assert_eq!(days_in_month(1900, 2), 28);
}

#[test]
fn days_in_month_february_400_year_leap() {
    assert_eq!(days_in_month(2000, 2), 29);
}

#[test]
fn days_in_month_year_sums_to_year_length() {
    let leap: u32 = (1..=12).map(|m| days_in_month(2024, m)).sum();
    let common: u32 = (1..=12).map(|m| days_in_month(2023, m)).sum();
    assert_eq!(leap, 366);
    assert_eq!(common, 365);
}

#[test]
fn days_in_month_before_the_epoch() {
    assert_eq!(days_in_month(1600, 2), 29);
    assert_eq!(days_in_month(-4, 2), 29);
    assert_eq!(days_in_month(-1, 2), 28);
}

// ── days_until and calc_days ───────────────────────────────────────────

#[test]
fn days_until_counts_whole_days() {
    let reset = midnight(2024, 4, 1);
    assert_eq!(days_until(reset, 0, reset - 10 * 86400, 0), 10);
    // half a second short of ten days is nine whole days
    assert_eq!(days_until(reset, 0, reset - 10 * 86400, 500_000_000), 9);
    assert_eq!(days_until(reset, 0, reset - 1, 0), 0);
}

#[test]
fn days_until_is_zero_once_passed() {
    let reset = midnight(2024, 4, 1);
    assert_eq!(days_until(reset, 0, reset, 0), 0);
    assert_eq!(days_until(reset, 0, reset, 1), 0);
    assert_eq!(days_until(reset, 0, reset + 5 * 86400, 0), 0);
}

#[test]
fn calc_days_at_mid_month() {
    let now = Utc.with_ymd_and_hms(2024, 2, 10, 12, 0, 0).unwrap().timestamp();
    let reset = midnight(2024, 3, 1);
    // 19.5 days until the reset, in a leap February
    assert_eq!(calc_days_at(reset, 0, now, 0), (19, 29));
}

#[test]
fn calc_days_at_reset_in_the_past() {
    let now = Utc.with_ymd_and_hms(2023, 9, 30, 23, 59, 59).unwrap().timestamp();
    assert_eq!(calc_days_at(midnight(2023, 9, 1), 0, now, 999_999_999), (0, 30));
}

#[test]
fn calc_days_at_start_of_month_counts_the_whole_month() {
    let now = midnight(2023, 12, 1);
    assert_eq!(calc_days_at(midnight(2024, 1, 1), 0, now, 0), (31, 31));
    assert_eq!(calc_days_at(midnight(2024, 1, 1), 0, now, 1), (30, 31));
}

#[test]
fn calc_days_uses_the_clock() {
    let now = Utc::now();
    let (remaining, total) = calc_days(now.timestamp() + 3 * 86400 + 3600, 0).unwrap();
    assert!(remaining == 3 || remaining == 2);
    assert!((28..=31).contains(&total));
}

#[test]
fn month_spans_its_length_in_days() {
    for (year, month) in [(2024, 2), (2023, 2), (2024, 12), (1900, 2), (1969, 12), (2000, 7)] {
        let first = midnight(year, month, 1);
        assert_eq!(
            next_month_start(year, month) - first,
            days_in_month(year, month) as i64 * 86400
        );
    }
}

#[test]
fn days_until_counts_the_reset_fraction() {
    let reset = midnight(2024, 4, 1);
    // ten days short by a quarter second, then made up by the reset's own fraction
    assert_eq!(days_until(reset, 0, reset - 10 * 86400, 250_000_000), 9);
    assert_eq!(days_until(reset, 250_000_000, reset - 10 * 86400, 250_000_000), 10);
    assert_eq!(days_until(reset, 500_000_000, reset, 0), 0);
}

#[test]
fn calc_days_for_fails_only_without_a_following_month() {
    let now = Utc.with_ymd_and_hms(2024, 2, 10, 12, 0, 0).unwrap().timestamp();
    assert_eq!(calc_days_for(midnight(2024, 3, 1), 0, now, 0), Some((19, 29)));
    let last_month = Utc.with_ymd_and_hms(262142, 12, 5, 0, 0, 0).unwrap().timestamp();
    assert_eq!(calc_days_for(0, 0, last_month, 0), None);
    let before_last = Utc.with_ymd_and_hms(262142, 11, 30, 23, 59, 59).unwrap().timestamp();
    assert_eq!(calc_days_for(0, 0, before_last, 0), Some((0, 30)));
    assert_eq!(calc_days_for(0, 0, i64::MAX, 0), None);
    assert_eq!(calc_days_for(0, 0, i64::MIN, 0), None);
}

#[test]
fn month_with_successor_finds_the_month() {
    let now = Utc.with_ymd_and_hms(1969, 12, 31, 23, 0, 0).unwrap().timestamp();
    assert_eq!(month_with_successor(now), Some((1969, 12)));
    assert_eq!(month_with_successor(0), Some((1970, 1)));
    let earliest = Utc.with_ymd_and_hms(-262143, 1, 1, 0, 0, 0).unwrap().timestamp();
    assert_eq!(month_with_successor(earliest), Some((-262143, 1)));
    assert_eq!(month_with_successor(earliest - 1), None);
}

#[test]
fn clock_reading_of_keeps_i64_seconds() {
    assert_eq!(clock_reading_of(1_700_000_000, 5), Some((1_700_000_000, 5)));
    assert_eq!(clock_reading_of(i64::MAX as u64, 0), Some((i64::MAX, 0)));
    assert_eq!(clock_reading_of(i64::MAX as u64 + 1, 0), None);
}
