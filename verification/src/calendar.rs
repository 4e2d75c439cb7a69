//! The proleptic Gregorian calendar on Unix timestamps, and the billing-month
//! arithmetic built on it.
use chrono::{DateTime, Datelike, TimeZone, Utc};
use vstd::prelude::*;

verus! {

/// Earliest year that chrono's `NaiveDate` represents.
pub const MIN_YEAR: i32 = -262143;

/// Latest year that chrono's `NaiveDate` represents.
pub const MAX_YEAR: i32 = 262142;

/// Seconds in a calendar day (Unix time has no leap seconds).
pub const SECONDS_PER_DAY: i64 = 86400;

/// Nanoseconds in a second.
pub const NANOS_PER_SECOND: u32 = 1_000_000_000;

// ───────────────────────── the calendar ─────────────────────────

/// Gregorian leap-year rule: every fourth year, except centuries not divisible by 400.
pub open spec fn is_leap_year(year: int) -> bool {
    (year % 4 == 0 && year % 100 != 0) || year % 400 == 0
}

/// Number of days of `month` (1 = January) in `year`.
pub open spec fn month_length(year: int, month: int) -> int {
    if month == 2 {
        if is_leap_year(year) { 29 } else { 28 }
    } else if month == 4 || month == 6 || month == 9 || month == 11 {
        30
    } else {
        31
    }
}

/// Number of days of `year`.
pub open spec fn year_length(year: int) -> int {
    if is_leap_year(year) { 366 } else { 365 }
}

/// Days of `year` that come before the first day of `month`.
pub open spec fn days_before_month(year: int, month: int) -> int
    decreases month,
{
    if month <= 1 {
        0
    } else {
        days_before_month(year, month - 1) + month_length(year, month - 1)
    }
}

/// Days from 1970-01-01 to January 1 of `year` (negative before 1970).
pub open spec fn days_from_epoch_to_year(year: int) -> int
    decreases (if year >= 1970 { year - 1970 } else { 1970 - year }),
{
    if year == 1970 {
        0
    } else if year > 1970 {
        days_from_epoch_to_year(year - 1) + year_length(year - 1)
    } else {
        days_from_epoch_to_year(year + 1) - year_length(year)
    }
}

/// Days from 1970-01-01 to the given date.
pub open spec fn epoch_day(year: int, month: int, day: int) -> int {
    days_from_epoch_to_year(year) + days_before_month(year, month) + day - 1
}

/// Unix timestamp of the given UTC date and time of day.
pub open spec fn epoch_seconds(
    year: int,
    month: int,
    day: int,
    hour: int,
    minute: int,
    second: int,
) -> int {
    epoch_day(year, month, day) * 86400 + hour * 3600 + minute * 60 + second
}

/// Unix timestamp of midnight UTC on the first day of `month` in `year`.
pub open spec fn month_start(year: int, month: int) -> int {
    epoch_seconds(year, month, 1, 0, 0, 0)
}

/// The month that follows `month` of `year`, as (year, month).
pub open spec fn next_month(year: int, month: int) -> (int, int) {
    if month == 12 { (year + 1, 1) } else { (year, month + 1) }
}

/// A date that chrono can represent.
pub open spec fn is_valid_date(year: int, month: int, day: int) -> bool {
    &&& MIN_YEAR <= year <= MAX_YEAR
    &&& 1 <= month <= 12
    &&& 1 <= day <= month_length(year, month)
}

/// A time of day without leap second.
pub open spec fn is_valid_time(hour: int, minute: int, second: int) -> bool {
    0 <= hour < 24 && 0 <= minute < 60 && 0 <= second < 60
}

/// The instant `secs` lies in `month` of `year`.
pub open spec fn month_contains(year: int, month: int, secs: int) -> bool {
    month_start(year, month) <= secs < month_start(year, month) + 86400 * month_length(
        year,
        month,
    )
}

/// The instant lies between the first and the last day that chrono represents.
pub open spec fn in_datetime_range(secs: int) -> bool {
    month_start(MIN_YEAR as int, 1) <= secs < month_start(MAX_YEAR + 1, 1)
}

/// The instant lies in a month whose following month chrono still represents.
pub open spec fn has_next_month_start(secs: int) -> bool {
    month_start(MIN_YEAR as int, 1) <= secs < month_start(MAX_YEAR as int, 12)
}

/// The inputs on which the first of the month after `month` of `year` exists:
/// `month` is 0 to 12 and the following month lies in chrono's range.
pub open spec fn next_month_exists(year: int, month: int) -> bool {
    if month == 12 {
        MIN_YEAR <= year + 1 <= MAX_YEAR
    } else {
        0 <= month <= 11 && MIN_YEAR <= year <= MAX_YEAR
    }
}

/// Whole days, truncated, from the instant `now_secs` + `now_nanos` until the instant
/// `reset_secs` + `reset_nanos` (seconds since the epoch and nanoseconds past that second),
/// and 0 when the reset is not after now.
pub open spec fn whole_days_until(reset_secs: int, reset_nanos: int, now_secs: int, now_nanos: int) -> int {
    let nanos = (reset_secs - now_secs) * 1_000_000_000 + reset_nanos - now_nanos;
    if nanos > 0 {
        nanos / 86_400_000_000_000int
    } else {
        0
    }
}

// ───────────────────────── calendar lemmas ─────────────────────────

/// One more year adds that year's length.
pub proof fn lemma_year_step(year: int)
    ensures
        days_from_epoch_to_year(year + 1) == days_from_epoch_to_year(year) + year_length(year),
{
    if year + 1 > 1970 {
        assert(days_from_epoch_to_year(year + 1) == days_from_epoch_to_year(year) + year_length(
            year,
        ));
    } else {
        assert(days_from_epoch_to_year(year) == days_from_epoch_to_year(year + 1) - year_length(
            year,
        ));
    }
}

/// The twelve months of a year add up to the year's length.
pub proof fn lemma_months_fill_year(year: int)
    ensures
        days_before_month(year, 12) + month_length(year, 12) == year_length(year),
        days_before_month(year, 12) == year_length(year) - 31,
{
    reveal_with_fuel(days_before_month, 12);
}

/// A month spans its length in days: the next month starts that many days later.
pub proof fn lemma_month_span(year: int, month: int)
    requires
        1 <= month <= 12,
    ensures
        month_start(next_month(year, month).0, next_month(year, month).1) == month_start(
            year,
            month,
        ) + 86400 * month_length(year, month),
{
    if month == 12 {
        lemma_year_step(year);
        lemma_months_fill_year(year);
        assert(days_before_month(year + 1, 1) == 0);
    } else {
        assert(days_before_month(year, month + 1) == days_before_month(year, month)
            + month_length(year, month));
    }
}

/// Days before a month grow by at least 28 per month.
proof fn lemma_days_before_month_grows(year: int, m1: int, m2: int)
    requires
        1 <= m1 <= m2 <= 13,
    ensures
        days_before_month(year, m1) + 28 * (m2 - m1) <= days_before_month(year, m2),
        days_before_month(year, m2) <= days_before_month(year, m1) + 31 * (m2 - m1),
    decreases m2 - m1,
{
    if m1 < m2 {
        lemma_days_before_month_grows(year, m1, m2 - 1);
    }
}

/// Later years start at least 365 days later per year.
proof fn lemma_year_start_grows(y1: int, y2: int)
    requires
        y1 <= y2,
    ensures
        days_from_epoch_to_year(y1) + 365 * (y2 - y1) <= days_from_epoch_to_year(y2),
    decreases y2 - y1,
{
    if y1 < y2 {
        lemma_year_start_grows(y1, y2 - 1);
        lemma_year_step(y2 - 1);
    }
}

/// Month starts are ordered like (year, month) pairs, lexicographically.
pub proof fn lemma_month_start_monotone(y1: int, m1: int, y2: int, m2: int)
    requires
        1 <= m1 <= 12,
        1 <= m2 <= 12,
        y1 < y2 || (y1 == y2 && m1 < m2),
    ensures
        month_start(y1, m1) + 86400 * month_length(y1, m1) <= month_start(y2, m2),
{
    if y1 == y2 {
        lemma_days_before_month_grows(y1, m1 + 1, m2);
        assert(days_before_month(y1, m1 + 1) == days_before_month(y1, m1) + month_length(y1, m1));
    } else {
        lemma_days_before_month_grows(y1, m1, 13);
        lemma_months_fill_year(y1);
        lemma_year_start_grows(y1 + 1, y2);
        lemma_year_step(y1);
        lemma_days_before_month_grows(y2, 1, m2);
        assert(days_before_month(y1, 13) == days_before_month(y1, 12) + month_length(y1, 12));
    }
}

/// An instant lies in at most one month.
pub proof fn lemma_month_contains_unique(y1: int, m1: int, y2: int, m2: int, secs: int)
    requires
        1 <= m1 <= 12,
        1 <= m2 <= 12,
        month_contains(y1, m1, secs),
        month_contains(y2, m2, secs),
    ensures
        y1 == y2 && m1 == m2,
{
    if y1 < y2 || (y1 == y2 && m1 < m2) {
        lemma_month_start_monotone(y1, m1, y2, m2);
    } else if y2 < y1 || (y1 == y2 && m2 < m1) {
        lemma_month_start_monotone(y2, m2, y1, m1);
    }
}

/// From an instant before `reset`, no more whole days remain until `reset` than the
/// `len` days that separate it from the start of the month.
pub proof fn lemma_days_within_month(reset: int, now_secs: int, now_nanos: int, len: int)
    requires
        reset - 86400 * len <= now_secs < reset,
        0 <= now_nanos,
        0 <= len,
    ensures
        whole_days_until(reset, 0, now_secs, now_nanos) <= len,
{
    let nanos = (reset - now_secs) * 1_000_000_000 - now_nanos;
    assert(nanos <= len * 86_400_000_000_000) by (nonlinear_arith)
        requires
            nanos == (reset - now_secs) * 1_000_000_000 - now_nanos,
            reset - now_secs <= 86400 * len,
            0 <= now_nanos,
    ;
    if nanos > 0 {
        vstd::arithmetic::div_mod::lemma_div_is_ordered(nanos, len * 86_400_000_000_000, 86_400_000_000_000);
        vstd::arithmetic::div_mod::lemma_div_multiples_vanish(len, 86_400_000_000_000);
    }
}

// ───────────────────────── chrono ─────────────────────────

/// `Utc.with_ymd_and_hms(..)` of chrono, taken to its Unix timestamp.
/// chrono builds the date in the proleptic Gregorian calendar and gives a value
/// exactly when the date and the time of day are valid and the year lies in its
/// range (UTC has no ambiguous local times); `timestamp()` counts the non-leap seconds
/// since 1970-01-01 00:00:00 UTC.
#[verifier::external_body]
pub(crate) fn utc_timestamp(year: i32, month: u32, day: u32, hour: u32, minute: u32, second: u32) -> (res: Option<i64>)
    ensures
        res.is_some() == (is_valid_date(year as int, month as int, day as int) && is_valid_time(hour as int, minute as int, second as int)),
        res matches Some(t) ==> t == epoch_seconds(year as int, month as int, day as int, hour as int, minute as int, second as int),
{
    match Utc.with_ymd_and_hms(year, month, day, hour, minute, second) {
        chrono::LocalResult::Single(dt) => Some(dt.timestamp()),
        chrono::LocalResult::Ambiguous(_, _) => None,
        chrono::LocalResult::None => None,
    }
}

/// `DateTime::from_timestamp(secs, 0)` of chrono, taken to its year and month.
/// chrono gives a value exactly when the day of `secs` lies in its range of years,
/// and the year and month are those of the calendar month that holds `secs`.
#[verifier::external_body]
pub(crate) fn utc_year_month(secs: i64) -> (res: Option<(i32, u32)>)
    ensures
        res is Some <==> in_datetime_range(secs as int),
        res matches Some(ym) ==> {
            &&& MIN_YEAR <= ym.0 <= MAX_YEAR
            &&& 1 <= ym.1 <= 12
            &&& month_contains(ym.0 as int, ym.1 as int, secs as int)
        },
{
    match DateTime::from_timestamp(secs, 0) {
        Some(dt) => Some((dt.year(), dt.month())),
        None => None,
    }
}

/// `SystemTime::elapsed` of std on `UNIX_EPOCH`: the time the system clock has gone past
/// 1970-01-01 00:00:00 UTC, as whole seconds and the nanoseconds past them. `None` when the
/// clock reads before 1970. std gives the sub-second part below one second; which instant
/// the clock reads is not stated.
#[verifier::external_body]
pub(crate) fn clock_since_epoch() -> (res: Option<(u64, u32)>)
    ensures
        res matches Some(r) ==> r.1 < NANOS_PER_SECOND,
{
    match std::time::UNIX_EPOCH.elapsed() {
        Ok(d) => Some((d.as_secs(), d.subsec_nanos())),
        Err(_) => None,
    }
}

/// The instant `secs` lies on the given day.
pub open spec fn day_contains(year: int, month: int, day: int, secs: int) -> bool {
    epoch_seconds(year, month, day, 0, 0, 0) <= secs < epoch_seconds(year, month, day, 0, 0, 0) + 86400
}

/// The decimal digit `n`.
pub open spec fn digit_char(n: int) -> char {
    ('0' as int + n) as char
}

/// The last `width` decimal digits of `n`, zero-padded.
pub open spec fn padded_digits(n: int, width: nat) -> Seq<char>
    decreases width,
{
    if width == 0 {
        Seq::empty()
    } else {
        padded_digits(n / 10, (width - 1) as nat).push(digit_char(n % 10))
    }
}

/// A date as `YYYY-MM-DD`, for a year of at most four digits.
pub open spec fn iso_date_text(year: int, month: int, day: int) -> Seq<char> {
    padded_digits(year, 4) + "-"@ + padded_digits(month, 2) + "-"@ + padded_digits(day, 2)
}

/// `DateTime::from_timestamp(secs, 0)` of chrono, formatted with `"%Y-%m-%d"`. chrono gives
/// a value exactly when the day of `secs` lies in its range of years; it writes the year
/// zero-padded to four digits when it lies in 0 to 9999, and the month and day zero-padded
/// to two. For other years chrono writes a sign and at least four digits, which is not
/// stated.
#[verifier::external_body]
pub(crate) fn format_utc_date(secs: i64) -> (res: Option<String>)
    ensures
        res.is_some() == in_datetime_range(secs as int),
        forall|y: int, m: int, d: int| is_valid_date(y, m, d) && 0 <= y <= 9999 && #[trigger] day_contains(y, m, d, secs as int) ==> res.is_some() && res.unwrap()@ == iso_date_text(y, m, d),
{
    match DateTime::from_timestamp(secs, 0) {
        Some(dt) => Some(dt.format("%Y-%m-%d").to_string()),
        None => None,
    }
}

// ───────────────────────── billing-month arithmetic ─────────────────────────

/// Midnight UTC on the first day of the month after `month` of `year`;
/// December rolls over to January of the next year.
pub fn next_month_start(year: i32, month: u32) -> (res: i64)
    requires
        next_month_exists(year as int, month as int),
    ensures
        res == month_start(next_month(year as int, month as int).0, next_month(year as int, month as int).1),
{
    if month == 12 {
        utc_timestamp(year + 1, 1, 1, 0, 0, 0).unwrap()
    } else {
        utc_timestamp(year, month + 1, 1, 0, 0, 0).unwrap()
    }
}

/// Number of days of `month` in `year`, counted from the first of the month to the first
/// of the next one.
pub fn days_in_month(year: i32, month: u32) -> (res: u32)
    requires
        MIN_YEAR <= year <= MAX_YEAR,
        1 <= month <= 12,
        !(year == MAX_YEAR && month == 12),
    ensures
        res == month_length(year as int, month as int),
{
    let next = next_month_start(year, month);
    let first = utc_timestamp(year, month, 1, 0, 0, 0).unwrap();
    proof {
        lemma_month_span(year as int, month as int);
        vstd::arithmetic::div_mod::lemma_div_multiples_vanish(
            month_length(year as int, month as int),
            86400,
        );
    }
    ((next - first) / SECONDS_PER_DAY) as u32
}

/// Whole days from the instant `now_secs` + `now_nanos` until the instant `reset_secs` +
/// `reset_nanos`, truncated, and 0 when the reset is not after now.
pub fn days_until(reset_secs: i64, reset_nanos: u32, now_secs: i64, now_nanos: u32) -> (res: i64)
    ensures
        res == whole_days_until(reset_secs as int, reset_nanos as int, now_secs as int, now_nanos as int),
        0 <= res,
{
    let total: i128 = (reset_secs as i128 - now_secs as i128) * 1_000_000_000 + reset_nanos as i128
        - now_nanos as i128;
    if total <= 0 {
        0
    } else {
        assert(total / 86_400_000_000_000 < 0x4_0000_0000_0000) by (nonlinear_arith)
            requires
                0 < total < 0x4000_0000_0000_0000_0000_0000int,
        ;
        (total / 86_400_000_000_000) as i64
    }
}

/// The calendar month, as (year, month), that holds the instant `now_secs`, when chrono
/// represents both that month and the next one; `None` otherwise.
pub fn month_with_successor(now_secs: i64) -> (res: Option<(i32, u32)>)
    ensures
        res is Some <==> has_next_month_start(now_secs as int),
        res matches Some(ym) ==> {
            &&& MIN_YEAR <= ym.0 <= MAX_YEAR
            &&& 1 <= ym.1 <= 12
            &&& !(ym.0 == MAX_YEAR && ym.1 == 12)
            &&& month_contains(ym.0 as int, ym.1 as int, now_secs as int)
        },
{
    proof {
        lemma_month_start_monotone(MAX_YEAR as int, 12, MAX_YEAR + 1, 1);
    }
    match utc_year_month(now_secs) {
        Some((year, month)) => {
            if year == MAX_YEAR && month == 12 {
                None
            } else {
                proof {
                    lemma_has_next_month_start(year as int, month as int, now_secs as int);
                }
                Some((year, month))
            }
        },
        None => None,
    }
}

/// Whole days until the reset `reset_secs` + `reset_nanos` from the instant `now_secs` +
/// `now_nanos` (0 once it has passed), and the number of days of the calendar month that
/// holds that instant.
pub fn calc_days_at(reset_secs: i64, reset_nanos: u32, now_secs: i64, now_nanos: u32) -> (res: (i64, i64))
    requires
        has_next_month_start(now_secs as int),
    ensures
        res.0 == whole_days_until(reset_secs as int, reset_nanos as int, now_secs as int, now_nanos as int),
        forall|y: int, m: int| 1 <= m <= 12 && #[trigger] month_contains(y, m, now_secs as int) ==> res.1 == month_length(y, m),
        0 <= res.0,
        28 <= res.1 <= 31,
{
    proof {
        lemma_month_start_monotone(MAX_YEAR as int, 12, MAX_YEAR + 1, 1);
    }
    let (year, month) = utc_year_month(now_secs).unwrap();
    let days_total = days_in_month(year, month) as i64;
    let days_remaining = days_until(reset_secs, reset_nanos, now_secs, now_nanos);
    proof {
        assert forall|y: int, m: int| 1 <= m <= 12 && #[trigger] month_contains(y, m, now_secs as int) implies days_total == month_length(y, m) by {
            lemma_month_contains_unique(y, m, year as int, month as int, now_secs as int);
        }
    }
    (days_remaining, days_total)
}

/// As `calc_days_at`, for any instant: `None` exactly when the instant does not lie in a
/// month whose following month chrono represents.
pub fn calc_days_for(reset_secs: i64, reset_nanos: u32, now_secs: i64, now_nanos: u32) -> (res: Option<(i64, i64)>)
    ensures
        res is Some <==> has_next_month_start(now_secs as int),
        res matches Some(d) ==> d.0 == whole_days_until(reset_secs as int, reset_nanos as int, now_secs as int, now_nanos as int),
        res matches Some(d) ==> forall|y: int, m: int| 1 <= m <= 12 && #[trigger] month_contains(y, m, now_secs as int) ==> d.1 == month_length(y, m),
        res matches Some(d) ==> 0 <= d.0 && 28 <= d.1 <= 31,
{
    match month_with_successor(now_secs) {
        Some(_) => Some(calc_days_at(reset_secs, reset_nanos, now_secs, now_nanos)),
        None => None,
    }
}

/// A clock reading of `secs` seconds and `nanos` nanoseconds past 1970 as an `i64`
/// timestamp and its nanoseconds; `None` when the seconds exceed `i64`.
pub fn clock_reading_of(secs: u64, nanos: u32) -> (res: Option<(i64, u32)>)
    ensures
        res == (if secs <= 0x7fff_ffff_ffff_ffff { Some((secs as i64, nanos)) } else { None::<(i64, u32)> }),
{
    if secs <= 0x7fff_ffff_ffff_ffff {
        Some((secs as i64, nanos))
    } else {
        None
    }
}

/// The system clock as an instant that chrono's `i64` timestamps hold, as seconds and
/// nanoseconds; `None` when the clock reads before 1970 or beyond `i64` seconds. What is
/// done with a reading is `clock_reading_of`.
pub fn clock_reading() -> (res: Option<(i64, u32)>)
    ensures
        res matches Some(r) ==> 0 <= r.0 && r.1 < NANOS_PER_SECOND,
{
    match clock_since_epoch() {
        Some((secs, nanos)) => clock_reading_of(secs, nanos),
        None => None,
    }
}

/// An instant in any month of chrono's range but the last has a following month start.
pub proof fn lemma_has_next_month_start(year: int, month: int, secs: int)
    requires
        MIN_YEAR <= year <= MAX_YEAR,
        1 <= month <= 12,
        !(year == MAX_YEAR && month == 12),
        month_contains(year, month, secs),
    ensures
        has_next_month_start(secs),
{
    if year > MIN_YEAR || month > 1 {
        lemma_month_start_monotone(MIN_YEAR as int, 1, year, month);
    }
    lemma_month_start_monotone(year, month, MAX_YEAR as int, 12);
}

/// Whole days until the reset `reset_secs` + `reset_nanos` from the current instant of the
/// system clock (0 once it has passed), and the number of days of the current month.
/// `None` when the clock reads before 1970 or a month whose following month chrono cannot
/// represent: no argument decides success, only that reading of the clock; what is done with
/// a reading is `calc_days_for`.
pub fn calc_days(reset_secs: i64, reset_nanos: u32) -> (res: Option<(i64, i64)>)
    ensures
        res matches Some(d) ==> 0 <= d.0 && 28 <= d.1 <= 31,
        res matches Some(d) ==> exists|secs: int, nanos: int| has_next_month_start(secs) && 0 <= nanos < NANOS_PER_SECOND && #[trigger] whole_days_until(reset_secs as int, reset_nanos as int, secs, nanos) == d.0 && (forall|y: int, m: int| 1 <= m <= 12 && #[trigger] month_contains(y, m, secs) ==> d.1 == month_length(y, m)),
{
    match clock_reading() {
        Some((now_secs, now_nanos)) => {
            let res = calc_days_for(reset_secs, reset_nanos, now_secs, now_nanos);
            if let Some(d) = res {
                assert(whole_days_until(reset_secs as int, reset_nanos as int, now_secs as int, now_nanos as int) == d.0);
            }
            res
        },
        None => None,
    }
}

} // verus!
